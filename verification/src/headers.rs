//! The header multimap of the `http` crate, as the protocol code sees it:
//! an ordered list of names, each with the values given to it.

use vstd::prelude::*;
use crate::text::{is_token_char, lower_text};

verus! {

#[verifier::external_type_specification]
#[verifier::external_body]
#[verifier::reject_recursive_types(T)]
pub struct ExHeaderMap<T>(http::HeaderMap<T>);

#[verifier::external_type_specification]
#[verifier::external_body]
pub struct ExHeaderValue(http::HeaderValue);

#[verifier::external_type_specification]
#[verifier::external_body]
pub struct ExMaxSizeReached(http::header::MaxSizeReached);

#[verifier::external_type_specification]
#[verifier::external_body]
pub struct ExInvalidHeaderName(http::header::InvalidHeaderName);

#[verifier::external_type_specification]
#[verifier::external_body]
pub struct ExInvalidHeaderValue(http::header::InvalidHeaderValue);

/// The names of a header map in the order in which they entered it, each
/// with its values in the order in which they were given.
pub type Groups = Seq<(Seq<char>, Seq<Seq<u8>>)>;

/// One name and one value, as iteration hands them out.
pub type Entries = Seq<(Seq<char>, Seq<u8>)>;

/// What a header map holds.
pub uninterp spec fn header_groups(map: http::HeaderMap) -> Seq<(Seq<char>, Seq<Seq<u8>>)>;

/// A header map with fewer names than this takes another entry for sure: it
/// refuses only when its table, which holds at most 32768 slots, would have
/// to grow, and the table grows no sooner than at a fifth of its slots.
pub const SURE_ROOM: usize = 3277;

/// Whether the groups can take so many more names for sure.
pub open spec fn has_room(groups: Groups, names: nat) -> bool {
    groups.len() + names <= SURE_ROOM
}

/// The longest header name, in bytes.
pub const MAX_NAME_LEN: usize = 65535;

/// A text from which a header name can be made: one to 65535 characters of
/// the token class, in either case.
pub open spec fn is_header_name_source(name: Seq<char>) -> bool {
    &&& 1 <= name.len() <= MAX_NAME_LEN
    &&& forall|i: int| 0 <= i < name.len() ==> is_token_char(#[trigger] name[i])
}

/// A header name in the form in which a header map holds it: lower case.
pub open spec fn is_header_name(name: Seq<char>) -> bool {
    &&& is_header_name_source(name)
    &&& lower_text(name) == name
}

/// A byte that may stand in a header value: a tab, or anything from 0x20
/// on but 0x7F.
pub open spec fn is_value_byte(b: u8) -> bool {
    (b >= 32 && b != 127) || b == 9
}

/// Bytes that make a header value.
pub open spec fn is_header_value(value: Seq<u8>) -> bool {
    forall|i: int| 0 <= i < value.len() ==> is_value_byte(#[trigger] value[i])
}

/// A byte of a header value that can be read as text: a tab, or visible
/// ASCII.
pub open spec fn is_visible_byte(b: u8) -> bool {
    (32 <= b < 127) || b == 9
}

/// A header value that can be read as text.
pub open spec fn is_visible_value(value: Seq<u8>) -> bool {
    forall|i: int| 0 <= i < value.len() ==> is_visible_byte(#[trigger] value[i])
}

/// The position of the first group with the given name.
pub open spec fn find_group(groups: Groups, name: Seq<char>) -> Option<int>
    decreases groups.len(),
{
    if groups.len() == 0 {
        None
    } else {
        match find_group(groups.drop_last(), name) {
            Some(i) => Some(i),
            None => if groups.last().0 == name {
                Some(groups.len() - 1)
            } else {
                None
            },
        }
    }
}

/// The values under a name, in order; none where the name is absent.
pub open spec fn values_of(groups: Groups, name: Seq<char>) -> Seq<Seq<u8>> {
    match find_group(groups, name) {
        Some(i) => groups[i].1,
        None => Seq::empty(),
    }
}

/// The first value under a name.
pub open spec fn first_value(groups: Groups, name: Seq<char>) -> Option<Seq<u8>> {
    match find_group(groups, name) {
        Some(i) => Some(groups[i].1[0]),
        None => None,
    }
}

/// The groups with the values under `name` replaced: in place where the
/// name is present, at the end where it is new.
pub open spec fn set_group(groups: Groups, name: Seq<char>, values: Seq<Seq<u8>>) -> Groups {
    match find_group(groups, name) {
        Some(i) => groups.update(i, (name, values)),
        None => groups.push((name, values)),
    }
}

/// The groups after `value` has become the only value under `name`.
pub open spec fn groups_insert(groups: Groups, name: Seq<char>, value: Seq<u8>) -> Groups {
    set_group(groups, name, seq![value])
}

/// The groups after `value` has been added behind the values under `name`.
pub open spec fn groups_append(groups: Groups, name: Seq<char>, value: Seq<u8>) -> Groups {
    set_group(groups, name, values_of(groups, name).push(value))
}

/// One group as iteration hands it out: the name once with each value.
pub open spec fn group_entries(group: (Seq<char>, Seq<Seq<u8>>)) -> Entries {
    group.1.map_values(|v: Seq<u8>| (group.0, v))
}

/// Every name with every value, in iteration order.
pub open spec fn flat_entries(groups: Groups) -> Entries
    decreases groups.len(),
{
    if groups.len() == 0 {
        Seq::empty()
    } else {
        flat_entries(groups.drop_last()) + group_entries(groups.last())
    }
}

/// The contents of a list of byte vectors.
pub open spec fn bytes_list(v: Seq<Vec<u8>>) -> Seq<Seq<u8>> {
    v.map_values(|x: Vec<u8>| x@)
}

/// The contents of a list of names with values.
pub open spec fn entry_list(v: Seq<(String, Vec<u8>)>) -> Entries {
    v.map_values(|e: (String, Vec<u8>)| (e.0@, e.1@))
}

/// `HeaderName::from_bytes`: a header name is made from one to 65535 bytes
/// of the token class, and holds them in lower case; anything else is
/// refused.
#[verifier::external_body]
pub(crate) fn header_name(name: &str) -> (r: Result<String, http::header::InvalidHeaderName>)
    ensures
        r is Ok <==> is_header_name_source(name@),
        r matches Ok(n) ==> n@ == lower_text(name@),
{
    http::header::HeaderName::from_bytes(name.as_bytes()).map(|n| n.as_str().to_owned())
}

/// `HeaderValue::from_bytes`: a header value is made from bytes that are
/// each a tab or from 0x20 on and not 0x7F, and holds them unchanged.
#[verifier::external_body]
pub(crate) fn header_value(value: &[u8]) -> (r: Result<Vec<u8>, http::header::InvalidHeaderValue>)
    ensures
        r is Ok <==> is_header_value(value@),
        r matches Ok(v) ==> v@ == value@,
{
    http::header::HeaderValue::from_bytes(value).map(|v| v.as_bytes().to_vec())
}

/// `HeaderMap::new`: a map that holds nothing.
#[verifier::external_body]
pub(crate) fn header_map_new() -> (map: http::HeaderMap)
    ensures
        header_groups(map) == Seq::<(Seq<char>, Seq<Seq<u8>>)>::empty(),
{
    http::HeaderMap::new()
}

/// `HeaderMap::get`: the first value under the name, if the map has the
/// name.
#[verifier::external_body]
pub(crate) fn header_map_get(map: &http::HeaderMap, name: &str) -> (r: Option<Vec<u8>>)
    requires
        is_header_name(name@),
    ensures
        r is Some <==> first_value(header_groups(*map), name@) is Some,
        r matches Some(v) ==> first_value(header_groups(*map), name@) == Some(v@),
{
    map.get(name).map(|v| v.as_bytes().to_vec())
}

/// `HeaderMap::get_all`: the values under the name, in the order in which
/// they were given.
#[verifier::external_body]
pub(crate) fn header_map_get_all(map: &http::HeaderMap, name: &str) -> (r: Vec<Vec<u8>>)
    requires
        is_header_name(name@),
    ensures
        bytes_list(r@) == values_of(header_groups(*map), name@),
{
    map.get_all(name).iter().map(|v| v.as_bytes().to_vec()).collect()
}

/// `HeaderMap::iter`: every name with each of its values, group by group.
#[verifier::external_body]
pub(crate) fn header_map_entries(map: &http::HeaderMap) -> (r: Vec<(String, Vec<u8>)>)
    ensures
        entry_list(r@) == flat_entries(header_groups(*map)),
{
    map.iter().map(|(k, v)| (k.as_str().to_owned(), v.as_bytes().to_vec())).collect()
}

/// `HeaderMap::try_insert`: on success the value is the only one under the
/// name, which keeps its place if the map had it and else comes last. The
/// map refuses when it has reached its capacity, and is then unchanged; it
/// does not refuse while it holds fewer than 3277 names.
#[verifier::external_body]
pub(crate) fn header_map_insert(map: &mut http::HeaderMap, name: &str, value: &[u8]) -> (r: Result<
    (),
    http::header::MaxSizeReached,
>)
    requires
        is_header_name(name@),
        is_header_value(value@),
    ensures
        r is Ok ==> header_groups(*final(map)) == groups_insert(
            header_groups(*old(map)),
            name@,
            value@,
        ),
        r is Err ==> header_groups(*final(map)) == header_groups(*old(map)),
        header_groups(*old(map)).len() < SURE_ROOM ==> r is Ok,
{
    let name = http::header::HeaderName::from_bytes(name.as_bytes()).unwrap();
    let value = http::header::HeaderValue::from_bytes(value).unwrap();
    map.try_insert(name, value).map(|_| ())
}

/// `HeaderMap::try_append`: on success the value comes behind the values
/// that the name had; a new name comes last. The map refuses when it has
/// reached its capacity, and is then unchanged; it does not refuse while it
/// holds fewer than 3277 names.
#[verifier::external_body]
pub(crate) fn header_map_append(map: &mut http::HeaderMap, name: &str, value: &[u8]) -> (r: Result<
    (),
    http::header::MaxSizeReached,
>)
    requires
        is_header_name(name@),
        is_header_value(value@),
    ensures
        r is Ok ==> header_groups(*final(map)) == groups_append(
            header_groups(*old(map)),
            name@,
            value@,
        ),
        r is Err ==> header_groups(*final(map)) == header_groups(*old(map)),
        header_groups(*old(map)).len() < SURE_ROOM ==> r is Ok,
{
    let name = http::header::HeaderName::from_bytes(name.as_bytes()).unwrap();
    let value = http::header::HeaderValue::from_bytes(value).unwrap();
    map.try_append(name, value).map(|_| ())
}

/// Where a group is found, it is the first with that name; where none is,
/// no group has the name.
pub proof fn lemma_find_group(groups: Groups, name: Seq<char>)
    ensures
        match find_group(groups, name) {
            Some(i) => {
                &&& 0 <= i < groups.len()
                &&& groups[i].0 == name
                &&& forall|j: int| 0 <= j < i ==> (#[trigger] groups[j]).0 != name
            },
            None => forall|j: int| 0 <= j < groups.len() ==> (#[trigger] groups[j]).0 != name,
        },
    decreases groups.len(),
{
    if groups.len() > 0 {
        let front = groups.drop_last();
        lemma_find_group(front, name);
        assert forall|j: int| 0 <= j < front.len() implies front[j] == groups[j] by {}
        match find_group(front, name) {
            Some(i) => {
                assert forall|j: int| 0 <= j < i implies (#[trigger] groups[j]).0 != name by {
                }
            },
            None => {
                assert forall|j: int| 0 <= j < front.len() implies (#[trigger] groups[j]).0
                    != name by {
                }
            },
        }
    }
}

/// The first group with a name is found at its position.
pub proof fn lemma_find_group_at(groups: Groups, name: Seq<char>, i: int)
    requires
        0 <= i < groups.len(),
        groups[i].0 == name,
        forall|j: int| 0 <= j < i ==> (#[trigger] groups[j]).0 != name,
    ensures
        find_group(groups, name) == Some(i),
{
    lemma_find_group(groups, name);
}

/// After the values under a name were set, the name has those values, and
/// every other name has the values that it had.
pub proof fn lemma_set_group(
    groups: Groups,
    name: Seq<char>,
    values: Seq<Seq<u8>>,
    other: Seq<char>,
)
    ensures
        values_of(set_group(groups, name, values), name) == values,
        values.len() > 0 ==> first_value(set_group(groups, name, values), name) == Some(
            values[0],
        ),
        other != name ==> find_group(set_group(groups, name, values), other) == find_group(
            groups,
            other,
        ),
        other != name ==> values_of(set_group(groups, name, values), other) == values_of(
            groups,
            other,
        ),
        other != name ==> first_value(set_group(groups, name, values), other) == first_value(
            groups,
            other,
        ),
{
    let after = set_group(groups, name, values);
    lemma_find_group(groups, name);
    lemma_find_group(groups, other);
    match find_group(groups, name) {
        Some(i) => {
            lemma_find_group_at(after, name, i);
            if other != name {
                match find_group(groups, other) {
                    Some(k) => {
                        lemma_find_group_at(after, other, k);
                    },
                    None => {
                        lemma_find_group(after, other);
                    },
                }
            }
        },
        None => {
            lemma_find_group_at(after, name, groups.len() as int);
            if other != name {
                match find_group(groups, other) {
                    Some(k) => {
                        lemma_find_group_at(after, other, k);
                    },
                    None => {
                        lemma_find_group(after, other);
                    },
                }
            }
        },
    }
}

/// Setting the values under a name adds at most one name.
pub proof fn lemma_set_group_len(groups: Groups, name: Seq<char>, values: Seq<Seq<u8>>)
    ensures
        groups.len() <= set_group(groups, name, values).len() <= groups.len() + 1,
        find_group(groups, name) is Some ==> set_group(groups, name, values).len() == groups.len(),
        find_group(set_group(groups, name, values), name) is Some,
{
    lemma_find_group(groups, name);
    lemma_set_group(groups, name, values, name);
    match find_group(groups, name) {
        Some(i) => {
            lemma_find_group_at(set_group(groups, name, values), name, i);
        },
        None => {
            lemma_find_group_at(set_group(groups, name, values), name, groups.len() as int);
        },
    }
}

} // verus!
