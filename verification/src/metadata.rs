//! Metadata: headers and trailers of a call, in two kinds.
//!
//! ASCII metadata has names that do not end in `-bin` and values of
//! printable ASCII. Binary metadata has names that end in `-bin` and
//! arbitrary bytes as values, carried as unpadded base64. A lookup for a name
//! also finds the name with `trailer-` in front of it.

use vstd::prelude::*;
use vstd::string::*;
use vstd::utf8::*;
use crate::common::{
    base64_bytes, base64_decode, base64_encode, base64_text, header_text, text_option, value_text,
};
use crate::headers::{
    bytes_list, entry_list, find_group, first_value, flat_entries, groups_append, groups_insert,
    has_room, header_groups, header_map_append, header_map_entries, header_map_get,
    header_map_get_all, header_map_insert, header_name, is_header_name, is_header_name_source,
    is_header_value, is_value_byte, lemma_set_group, lemma_set_group_len, values_of, Entries,
    Groups,
};
use crate::text::{
    ascii_bytes, ends_with, has_prefix, has_suffix, is_printable_char, is_token_char, join,
    lemma_char_range, lower_char, lower_text, strip_prefix,
};
use crate::{Error, ErrorView};

verus! {

/// The suffix of the names of binary metadata.
pub const BIN_SUFFIX: &'static str = "-bin";

/// The prefix that marks a trailer carried among the headers.
pub const TRAILER_PREFIX: &'static str = "trailer-";

/// Why a key that ends in `-bin` is refused for ASCII metadata.
pub const ASCII_KEY_MESSAGE: &'static str = "ASCII metadata keys may not end with '-bin'";

/// Why a key that does not end in `-bin` is refused for binary metadata.
pub const BINARY_KEY_MESSAGE: &'static str = "binary metadata keys must end with '-bin'";

/// Why an ASCII value with other than printable characters is refused.
pub const ASCII_VALUE_MESSAGE: &'static str =
    "ASCII metadata values may only contain printable characters and spaces";

/// Why a header map that is full refuses another entry.
pub const CAPACITY_MESSAGE: &'static str = "the metadata holds as many entries as it can";

/// The mathematical content of optional bytes.
pub open spec fn bytes_option(r: Option<Vec<u8>>) -> Option<Seq<u8>> {
    match r {
        Some(b) => Some(b@),
        None => None,
    }
}

/// The contents of a list of texts.
pub open spec fn text_list(v: Seq<String>) -> Seq<Seq<char>> {
    v.map_values(|s: String| s@)
}

/// The contents of a list of names with texts.
pub open spec fn text_entry_list(v: Seq<(String, String)>) -> Seq<(Seq<char>, Seq<char>)> {
    v.map_values(|e: (String, String)| (e.0@, e.1@))
}

/// The first value that a map gives for a key as a caller wrote it: the map
/// reads the key without regard to case, and has nothing under a key that
/// is no header name.
pub open spec fn lookup(groups: Groups, key: Seq<char>) -> Option<Seq<u8>> {
    if is_header_name_source(key) {
        first_value(groups, lower_text(key))
    } else {
        None
    }
}

/// All values that a map gives for a key as a caller wrote it.
pub open spec fn lookup_all(groups: Groups, key: Seq<char>) -> Seq<Seq<u8>> {
    if is_header_name_source(key) {
        values_of(groups, lower_text(key))
    } else {
        Seq::empty()
    }
}

/// The first value under the key, or else under the key as a trailer.
pub open spec fn maybe_trailer(groups: Groups, key: Seq<char>) -> Option<Seq<u8>> {
    match lookup(groups, key) {
        Some(v) => Some(v),
        None => lookup(groups, TRAILER_PREFIX@ + key),
    }
}

/// The values under the key, then those under the key as a trailer.
pub open spec fn all_maybe_trailer(groups: Groups, key: Seq<char>) -> Seq<Seq<u8>> {
    lookup_all(groups, key) + lookup_all(groups, TRAILER_PREFIX@ + key)
}

/// The ASCII value of a key: none for a key of the binary kind, and none
/// where the first value cannot be read as text.
pub open spec fn ascii_of(groups: Groups, key: Seq<char>) -> Option<Seq<char>> {
    if has_suffix(key, BIN_SUFFIX@) {
        None
    } else {
        match maybe_trailer(groups, key) {
            Some(v) => value_text(v),
            None => None,
        }
    }
}

/// The binary value of a key: none for a key of the ASCII kind, and none
/// where the first value is not base64.
pub open spec fn binary_of(groups: Groups, key: Seq<char>) -> Option<Seq<u8>> {
    if !has_suffix(key, BIN_SUFFIX@) {
        None
    } else {
        match maybe_trailer(groups, key) {
            Some(v) => base64_bytes(v),
            None => None,
        }
    }
}

/// Those of the values that can be read as text, as text.
pub open spec fn texts_of(values: Seq<Seq<u8>>) -> Seq<Seq<char>>
    decreases values.len(),
{
    if values.len() == 0 {
        Seq::empty()
    } else {
        match value_text(values.last()) {
            Some(t) => texts_of(values.drop_last()).push(t),
            None => texts_of(values.drop_last()),
        }
    }
}

/// Those of the values that are base64, decoded.
pub open spec fn decoded_of(values: Seq<Seq<u8>>) -> Seq<Seq<u8>>
    decreases values.len(),
{
    if values.len() == 0 {
        Seq::empty()
    } else {
        match base64_bytes(values.last()) {
            Some(b) => decoded_of(values.drop_last()).push(b),
            None => decoded_of(values.drop_last()),
        }
    }
}

/// All ASCII values of a key.
pub open spec fn all_ascii_of(groups: Groups, key: Seq<char>) -> Seq<Seq<char>> {
    if has_suffix(key, BIN_SUFFIX@) {
        Seq::empty()
    } else {
        texts_of(all_maybe_trailer(groups, key))
    }
}

/// All binary values of a key.
pub open spec fn all_binary_of(groups: Groups, key: Seq<char>) -> Seq<Seq<u8>> {
    if !has_suffix(key, BIN_SUFFIX@) {
        Seq::empty()
    } else {
        decoded_of(all_maybe_trailer(groups, key))
    }
}

/// A name without the trailer prefix, if it has one.
pub open spec fn without_trailer_prefix(name: Seq<char>) -> Seq<char> {
    if has_prefix(name, TRAILER_PREFIX@) {
        name.skip(TRAILER_PREFIX@.len() as int)
    } else {
        name
    }
}

/// The ASCII metadata among the entries of a map: entries of the binary
/// kind and values that are no text are left out, and the trailer prefix is
/// taken off the names.
pub open spec fn ascii_entries(entries: Entries) -> Seq<(Seq<char>, Seq<char>)>
    decreases entries.len(),
{
    if entries.len() == 0 {
        Seq::empty()
    } else {
        let (name, value) = entries.last();
        let front = ascii_entries(entries.drop_last());
        if has_suffix(name, BIN_SUFFIX@) {
            front
        } else {
            match value_text(value) {
                Some(t) => front.push((without_trailer_prefix(name), t)),
                None => front,
            }
        }
    }
}

/// The binary metadata among the entries of a map: entries of the ASCII
/// kind and values that are no base64 are left out, and the trailer prefix
/// is taken off the names.
pub open spec fn binary_entries(entries: Entries) -> Entries
    decreases entries.len(),
{
    if entries.len() == 0 {
        Seq::empty()
    } else {
        let (name, value) = entries.last();
        let front = binary_entries(entries.drop_last());
        if !has_suffix(name, BIN_SUFFIX@) {
            front
        } else {
            match base64_bytes(value) {
                Some(b) => front.push((without_trailer_prefix(name), b)),
                None => front,
            }
        }
    }
}

/// An invalid-metadata error.
pub open spec fn invalid_metadata(msg: Seq<char>) -> ErrorView {
    ErrorView::InvalidMetadata(msg)
}

/// The name under which ASCII metadata with the given key is stored, or why
/// the key is refused.
pub open spec fn ascii_key_of(key: Seq<char>) -> Result<Seq<char>, ErrorView> {
    if !is_header_name_source(key) {
        Err(ErrorView::InvalidHeaderName)
    } else if has_suffix(lower_text(key), BIN_SUFFIX@) {
        Err(invalid_metadata(ASCII_KEY_MESSAGE@))
    } else {
        Ok(lower_text(key))
    }
}

/// The name under which binary metadata with the given key is stored, or
/// why the key is refused.
pub open spec fn binary_key_of(key: Seq<char>) -> Result<Seq<char>, ErrorView> {
    if !is_header_name_source(key) {
        Err(ErrorView::InvalidHeaderName)
    } else if !has_suffix(lower_text(key), BIN_SUFFIX@) {
        Err(invalid_metadata(BINARY_KEY_MESSAGE@))
    } else {
        Ok(lower_text(key))
    }
}

/// A text of spaces and printable ASCII.
pub open spec fn is_printable(val: Seq<char>) -> bool {
    forall|i: int| 0 <= i < val.len() ==> is_printable_char(#[trigger] val[i])
}

/// The bytes stored for an ASCII value, or why the value is refused.
pub open spec fn ascii_value_of(val: Seq<char>) -> Result<Seq<u8>, ErrorView> {
    if is_printable(val) {
        Ok(ascii_bytes(val))
    } else {
        Err(invalid_metadata(ASCII_VALUE_MESSAGE@))
    }
}

/// The bytes stored for a binary value: its base64 text.
pub open spec fn binary_value_of(val: Seq<u8>) -> Seq<u8> {
    ascii_bytes(base64_text(val))
}

/// The name and the bytes under which ASCII metadata is stored, or why it
/// is refused. The key is judged first.
pub open spec fn ascii_entry_of(key: Seq<char>, val: Seq<char>) -> Result<
    (Seq<char>, Seq<u8>),
    ErrorView,
> {
    match ascii_key_of(key) {
        Err(e) => Err(e),
        Ok(name) => match ascii_value_of(val) {
            Err(e) => Err(e),
            Ok(value) => Ok((name, value)),
        },
    }
}

/// The name and the bytes under which binary metadata is stored, or why it
/// is refused.
pub open spec fn binary_entry_of(key: Seq<char>, val: Seq<u8>) -> Result<
    (Seq<char>, Seq<u8>),
    ErrorView,
> {
    match binary_key_of(key) {
        Err(e) => Err(e),
        Ok(name) => Ok((name, binary_value_of(val))),
    }
}

/// The error of a map that has reached its capacity.
pub open spec fn capacity_error() -> ErrorView {
    invalid_metadata(CAPACITY_MESSAGE@)
}

/// The lower-case form of a text from which a header name can be made is a
/// header name.
pub proof fn lemma_lower_name(key: Seq<char>)
    requires
        is_header_name_source(key),
    ensures
        is_header_name(lower_text(key)),
{
    let name = lower_text(key);
    assert forall|i: int| 0 <= i < name.len() implies is_token_char(#[trigger] name[i])
        && lower_char(name[i]) == name[i] by {
        assert(is_token_char(key[i]));
    }
    assert(lower_text(name) =~= name);
}

/// Lower case keeps the suffix `-bin`.
pub proof fn lemma_lower_keeps_suffix(key: Seq<char>)
    requires
        has_suffix(key, BIN_SUFFIX@),
    ensures
        has_suffix(lower_text(key), BIN_SUFFIX@),
{
    reveal_strlit("-bin");
    let n = key.len() as int;
    assert(key.subrange(n - 4, n) == BIN_SUFFIX@);
    assert(lower_text(key).subrange(n - 4, n) =~= BIN_SUFFIX@);
}

/// After a successful insert of ASCII metadata, the key reads as the value.
pub proof fn lemma_insert_then_get_ascii(groups: Groups, key: Seq<char>, val: Seq<char>)
    requires
        ascii_entry_of(key, val) is Ok,
    ensures
        ascii_of(
            groups_insert(
                groups,
                ascii_entry_of(key, val)->Ok_0.0,
                ascii_entry_of(key, val)->Ok_0.1,
            ),
            key,
        ) == Some(val),
{
    let name = lower_text(key);
    if has_suffix(key, BIN_SUFFIX@) {
        lemma_lower_keeps_suffix(key);
    }
    lemma_set_group(groups, name, seq![ascii_bytes(val)], name);
}

/// A key of one kind is refused as a key of the other: binary metadata
/// needs the suffix `-bin`, and ASCII metadata may not have it.
pub proof fn lemma_wrong_kind_is_refused(key: Seq<char>, text: Seq<char>, bytes: Seq<u8>)
    ensures
        !has_suffix(lower_text(key), BIN_SUFFIX@) ==> binary_entry_of(key, bytes) is Err,
        has_suffix(lower_text(key), BIN_SUFFIX@) ==> ascii_entry_of(key, text) is Err,
        !(ascii_entry_of(key, text) is Ok && binary_entry_of(key, bytes) is Ok),
{
}

/// ASCII and binary metadata of a call. A header map is metadata.
pub trait Metadata {
    /// The names and values behind the metadata.
    spec fn groups(&self) -> Groups;

    /// The ASCII value of a key.
    fn get_ascii(&self, key: &str) -> (r: Option<String>)
        ensures
            text_option(r) == ascii_of(self.groups(), key@),
    ;

    /// The binary value of a key.
    fn get_binary(&self, key: &str) -> (r: Option<Vec<u8>>)
        ensures
            bytes_option(r) == binary_of(self.groups(), key@),
    ;

    /// All ASCII values of a key, in order.
    fn get_all_ascii(&self, key: &str) -> (r: Vec<String>)
        ensures
            text_list(r@) == all_ascii_of(self.groups(), key@),
    ;

    /// All binary values of a key, in order.
    fn get_all_binary(&self, key: &str) -> (r: Vec<Vec<u8>>)
        ensures
            bytes_list(r@) == all_binary_of(self.groups(), key@),
    ;

    /// All ASCII metadata, in the order of the map.
    fn iter_ascii(&self) -> (r: Vec<(String, String)>)
        ensures
            text_entry_list(r@) == ascii_entries(flat_entries(self.groups())),
    ;

    /// All binary metadata, in the order of the map.
    fn iter_binary(&self) -> (r: Vec<(String, Vec<u8>)>)
        ensures
            entry_list(r@) == binary_entries(flat_entries(self.groups())),
    ;

    /// Makes `val` the only ASCII value of `key`.
    ///
    /// The key must be a header name that does not end in `-bin`, and the
    /// value printable. Such an entry is taken where the metadata has room
    /// for another name; after success the key reads as the value.
    fn insert_ascii(&mut self, key: &str, val: &str) -> (r: Result<(), Error>)
        ensures
            match r {
                Ok(_) => {
                    &&& ascii_entry_of(key@, val@) matches Ok(entry)
                    &&& final(self).groups() == groups_insert(old(self).groups(), entry.0, entry.1)
                    &&& ascii_of(final(self).groups(), key@) == Some(val@)
                },
                Err(e) => {
                    &&& final(self).groups() == old(self).groups()
                    &&& e@ == match ascii_entry_of(key@, val@) {
                        Err(refusal) => refusal,
                        Ok(_) => capacity_error(),
                    }
                },
            },
            ascii_entry_of(key@, val@) is Ok && has_room(old(self).groups(), 1) ==> r is Ok,
    ;

    /// Makes `val` the only binary value of `key`.
    ///
    /// The key must be a header name that ends in `-bin`, in either case.
    /// After success the key reads as the value, if it was written with
    /// `-bin` in lower case: a lookup judges the kind of a key as written.
    fn insert_binary(&mut self, key: &str, val: &[u8]) -> (r: Result<(), Error>)
        ensures
            match r {
                Ok(_) => {
                    &&& binary_entry_of(key@, val@) matches Ok(entry)
                    &&& final(self).groups() == groups_insert(old(self).groups(), entry.0, entry.1)
                    &&& has_suffix(key@, BIN_SUFFIX@) ==> binary_of(final(self).groups(), key@)
                        == Some(val@)
                },
                Err(e) => {
                    &&& final(self).groups() == old(self).groups()
                    &&& e@ == match binary_entry_of(key@, val@) {
                        Err(refusal) => refusal,
                        Ok(_) => capacity_error(),
                    }
                },
            },
            binary_entry_of(key@, val@) is Ok && has_room(old(self).groups(), 1) ==> r is Ok,
    ;

    /// Adds `val` behind the ASCII values of `key`.
    fn append_ascii(&mut self, key: &str, val: &str) -> (r: Result<(), Error>)
        ensures
            match r {
                Ok(_) => {
                    &&& ascii_entry_of(key@, val@) matches Ok(entry)
                    &&& final(self).groups() == groups_append(old(self).groups(), entry.0, entry.1)
                },
                Err(e) => {
                    &&& final(self).groups() == old(self).groups()
                    &&& e@ == match ascii_entry_of(key@, val@) {
                        Err(refusal) => refusal,
                        Ok(_) => capacity_error(),
                    }
                },
            },
            ascii_entry_of(key@, val@) is Ok && has_room(old(self).groups(), 1) ==> r is Ok,
    ;

    /// Adds `val` behind the binary values of `key`.
    fn append_binary(&mut self, key: &str, val: &[u8]) -> (r: Result<(), Error>)
        ensures
            match r {
                Ok(_) => {
                    &&& binary_entry_of(key@, val@) matches Ok(entry)
                    &&& final(self).groups() == groups_append(old(self).groups(), entry.0, entry.1)
                },
                Err(e) => {
                    &&& final(self).groups() == old(self).groups()
                    &&& e@ == match binary_entry_of(key@, val@) {
                        Err(refusal) => refusal,
                        Ok(_) => capacity_error(),
                    }
                },
            },
            binary_entry_of(key@, val@) is Ok && has_room(old(self).groups(), 1) ==> r is Ok,
    ;
}

/// The first value under a key as a caller wrote it.
fn get_header(headers: &http::HeaderMap, key: &str) -> (r: Option<Vec<u8>>)
    ensures
        bytes_option(r) == lookup(header_groups(*headers), key@),
{
    match header_name(key) {
        Ok(name) => {
            proof {
                lemma_lower_name(key@);
            }
            header_map_get(headers, name.as_str())
        },
        Err(_) => None,
    }
}

/// All values under a key as a caller wrote it.
fn get_all_headers(headers: &http::HeaderMap, key: &str) -> (r: Vec<Vec<u8>>)
    ensures
        bytes_list(r@) == lookup_all(header_groups(*headers), key@),
{
    match header_name(key) {
        Ok(name) => {
            proof {
                lemma_lower_name(key@);
            }
            header_map_get_all(headers, name.as_str())
        },
        Err(_) => Vec::new(),
    }
}

/// The first value under the key, or else under the key as a trailer.
fn get_maybe_trailer(headers: &http::HeaderMap, key: &str) -> (r: Option<Vec<u8>>)
    ensures
        bytes_option(r) == maybe_trailer(header_groups(*headers), key@),
{
    match get_header(headers, key) {
        Some(v) => Some(v),
        None => {
            let trailer_key = join(TRAILER_PREFIX, key);
            get_header(headers, trailer_key.as_str())
        },
    }
}

/// The values under the key, then those under the key as a trailer; none at
/// all where `override_empty` is set.
fn get_all_maybe_trailer(headers: &http::HeaderMap, key: &str, override_empty: bool) -> (r: Vec<
    Vec<u8>,
>)
    ensures
        bytes_list(r@) == if override_empty {
            Seq::<Seq<u8>>::empty()
        } else {
            all_maybe_trailer(header_groups(*headers), key@)
        },
{
    if override_empty {
        Vec::new()
    } else {
        let trailer_key = join(TRAILER_PREFIX, key);
        let mut all = get_all_headers(headers, key);
        let mut trailers = get_all_headers(headers, trailer_key.as_str());
        all.append(&mut trailers);
        all
    }
}

/// Checks a key of ASCII metadata and gives the name to store it under.
fn ascii_key(key: &str) -> (r: Result<String, Error>)
    ensures
        match r {
            Ok(name) => ascii_key_of(key@) == Ok::<Seq<char>, ErrorView>(name@),
            Err(e) => ascii_key_of(key@) == Err::<Seq<char>, ErrorView>(e@),
        },
{
    match header_name(key) {
        Err(e) => Err(Error::InvalidHeaderName(e)),
        Ok(name) => {
            if ends_with(name.as_str(), BIN_SUFFIX) {
                Err(Error::InvalidMetadata(ASCII_KEY_MESSAGE))
            } else {
                Ok(name)
            }
        },
    }
}

/// Checks a key of binary metadata and gives the name to store it under.
fn binary_key(key: &str) -> (r: Result<String, Error>)
    ensures
        match r {
            Ok(name) => binary_key_of(key@) == Ok::<Seq<char>, ErrorView>(name@),
            Err(e) => binary_key_of(key@) == Err::<Seq<char>, ErrorView>(e@),
        },
{
    match header_name(key) {
        Err(e) => Err(Error::InvalidHeaderName(e)),
        Ok(name) => {
            if !ends_with(name.as_str(), BIN_SUFFIX) {
                Err(Error::InvalidMetadata(BINARY_KEY_MESSAGE))
            } else {
                Ok(name)
            }
        },
    }
}

/// Checks an ASCII value and gives the bytes to store.
fn ascii_value(val: &str) -> (r: Result<Vec<u8>, Error>)
    ensures
        match r {
            Ok(bytes) => ascii_value_of(val@) == Ok::<Seq<u8>, ErrorView>(bytes@),
            Err(e) => ascii_value_of(val@) == Err::<Seq<u8>, ErrorView>(e@),
        },
{
    if !val.is_ascii() {
        proof {
            let k = choose|k: int| 0 <= k < val@.len() && !('\0' <= #[trigger] val@[k] <= '\u{7f}');
            assert(!is_printable_char(val@[k]));
        }
        return Err(Error::InvalidMetadata(ASCII_VALUE_MESSAGE));
    }

    let bytes = val.as_bytes_vec();
    let mut i: usize = 0;
    while i < bytes.len()
        invariant
            i <= bytes.len(),
            bytes@ == ascii_bytes(val@),
            is_ascii_chars(val@),
            forall|j: int| 0 <= j < i ==> is_printable_char(#[trigger] val@[j]),
        decreases bytes.len() - i,
    {
        let b: u8 = bytes[i];
        if b < 0x20 || b > 0x7e {
            return Err(Error::InvalidMetadata(ASCII_VALUE_MESSAGE));
        }
        i += 1;
    }
    Ok(bytes)
}

/// The bytes to store for a binary value.
fn binary_value(val: &[u8]) -> (r: Vec<u8>)
    ensures
        r@ == binary_value_of(val@),
        is_header_value(r@),
        base64_bytes(r@) == Some(val@),
{
    let text = base64_encode(val);
    proof {
        assert forall|i: int| 0 <= i < text@.len() implies '\0' <= #[trigger] text@[i]
            <= '\u{7f}' by {
            lemma_char_range(text@[i]);
        }
    }

    let encoded = text.as_str();
    assert(is_ascii(encoded));
    let bytes = encoded.as_bytes_vec();
    assert forall|i: int| 0 <= i < bytes@.len() implies is_value_byte(#[trigger] bytes@[i]) by {
    }
    bytes
}

/// Stores a checked name with checked bytes, as the only value of the name
/// or behind its other values.
pub(crate) fn store(
    headers: &mut http::HeaderMap,
    name: &str,
    value: &[u8],
    replace: bool,
) -> (r: Result<(), Error>)
    requires
        is_header_name(name@),
        is_header_value(value@),
    ensures
        match r {
            Ok(_) => header_groups(*final(headers)) == if replace {
                groups_insert(header_groups(*old(headers)), name@, value@)
            } else {
                groups_append(header_groups(*old(headers)), name@, value@)
            },
            Err(e) => header_groups(*final(headers)) == header_groups(*old(headers)) && e@
                == capacity_error(),
        },
        has_room(header_groups(*old(headers)), 1) ==> r is Ok,
        r is Ok ==> header_groups(*final(headers)).len() <= header_groups(*old(headers)).len() + 1,
        r is Ok ==> find_group(header_groups(*final(headers)), name@) is Some,
        r is Ok && find_group(header_groups(*old(headers)), name@) is Some ==> header_groups(
            *final(headers),
        ).len() == header_groups(*old(headers)).len(),
{
    proof {
        let groups = header_groups(*headers);
        lemma_set_group_len(groups, name@, seq![value@]);
        lemma_set_group_len(groups, name@, values_of(groups, name@).push(value@));
    }
    let stored = if replace {
        header_map_insert(headers, name, value)
    } else {
        header_map_append(headers, name, value)
    };
    match stored {
        Ok(_) => Ok(()),
        Err(_) => Err(Error::InvalidMetadata(CAPACITY_MESSAGE)),
    }
}

/// The bytes of a printable text.
pub(crate) fn printable_bytes(text: &str) -> (r: Vec<u8>)
    requires
        is_printable(text@),
    ensures
        r@ == ascii_bytes(text@),
        is_header_value(r@),
{
    proof {
        assert forall|i: int| 0 <= i < text@.len() implies '\0' <= #[trigger] text@[i]
            <= '\u{7f}' by {
        }
    }

    assert(is_ascii(text));
    text.as_bytes_vec()
}

/// Checks and stores ASCII metadata.
fn store_ascii(headers: &mut http::HeaderMap, key: &str, val: &str, replace: bool) -> (r: Result<
    (),
    Error,
>)
    ensures
        match r {
            Ok(_) => {
                &&& ascii_entry_of(key@, val@) matches Ok(entry)
                &&& header_groups(*final(headers)) == if replace {
                    groups_insert(header_groups(*old(headers)), entry.0, entry.1)
                } else {
                    groups_append(header_groups(*old(headers)), entry.0, entry.1)
                }
            },
            Err(e) => {
                &&& header_groups(*final(headers)) == header_groups(*old(headers))
                &&& e@ == match ascii_entry_of(key@, val@) {
                    Err(refusal) => refusal,
                    Ok(_) => capacity_error(),
                }
            },
        },
        ascii_entry_of(key@, val@) is Ok && has_room(header_groups(*old(headers)), 1) ==> r is Ok,
{
    let name = match ascii_key(key) {
        Ok(name) => name,
        Err(e) => {
            return Err(e);
        },
    };
    let value = match ascii_value(val) {
        Ok(value) => value,
        Err(e) => {
            return Err(e);
        },
    };
    proof {
        lemma_lower_name(key@);
    }
    store(headers, name.as_str(), value.as_slice(), replace)
}

/// Checks and stores binary metadata.
fn store_binary(headers: &mut http::HeaderMap, key: &str, val: &[u8], replace: bool) -> (r: Result<
    (),
    Error,
>)
    ensures
        match r {
            Ok(_) => {
                &&& binary_entry_of(key@, val@) matches Ok(entry)
                &&& base64_bytes(entry.1) == Some(val@)
                &&& header_groups(*final(headers)) == if replace {
                    groups_insert(header_groups(*old(headers)), entry.0, entry.1)
                } else {
                    groups_append(header_groups(*old(headers)), entry.0, entry.1)
                }
            },
            Err(e) => {
                &&& header_groups(*final(headers)) == header_groups(*old(headers))
                &&& e@ == match binary_entry_of(key@, val@) {
                    Err(refusal) => refusal,
                    Ok(_) => capacity_error(),
                }
            },
        },
        binary_entry_of(key@, val@) is Ok && has_room(header_groups(*old(headers)), 1) ==> r is Ok,
{
    let name = match binary_key(key) {
        Ok(name) => name,
        Err(e) => {
            return Err(e);
        },
    };
    let value = binary_value(val);
    proof {
        lemma_lower_name(key@);
    }
    store(headers, name.as_str(), value.as_slice(), replace)
}

impl Metadata for http::HeaderMap {
    open spec fn groups(&self) -> Groups {
        header_groups(*self)
    }

    fn get_ascii(&self, key: &str) -> (r: Option<String>) {
        if ends_with(key, BIN_SUFFIX) {
            return None;
        }
        match get_maybe_trailer(self, key) {
            Some(v) => header_text(v.as_slice()),
            None => None,
        }
    }

    fn get_binary(&self, key: &str) -> (r: Option<Vec<u8>>) {
        if !ends_with(key, BIN_SUFFIX) {
            return None;
        }
        match get_maybe_trailer(self, key) {
            Some(v) => match base64_decode(v.as_slice()) {
                Ok(bytes) => Some(bytes),
                Err(_) => None,
            },
            None => None,
        }
    }

    fn get_all_ascii(&self, key: &str) -> (r: Vec<String>) {
        let override_empty = ends_with(key, BIN_SUFFIX);
        let values = get_all_maybe_trailer(self, key, override_empty);
        let mut out: Vec<String> = Vec::new();
        let mut i: usize = 0;
        while i < values.len()
            invariant
                i <= values.len(),
                text_list(out@) == texts_of(bytes_list(values@).take(i as int)),
            decreases values.len() - i,
        {
            let ghost upto = bytes_list(values@).take(i + 1);
            assert(upto.drop_last() =~= bytes_list(values@).take(i as int));
            match header_text(values[i].as_slice()) {
                Some(t) => {
                    out.push(t);
                },
                None => {},
            }
            i += 1;
        }
        assert(bytes_list(values@).take(i as int) =~= bytes_list(values@));
        out
    }

    fn get_all_binary(&self, key: &str) -> (r: Vec<Vec<u8>>) {
        let override_empty = !ends_with(key, BIN_SUFFIX);
        let values = get_all_maybe_trailer(self, key, override_empty);
        let mut out: Vec<Vec<u8>> = Vec::new();
        let mut i: usize = 0;
        while i < values.len()
            invariant
                i <= values.len(),
                bytes_list(out@) == decoded_of(bytes_list(values@).take(i as int)),
            decreases values.len() - i,
        {
            let ghost upto = bytes_list(values@).take(i + 1);
            assert(upto.drop_last() =~= bytes_list(values@).take(i as int));
            match base64_decode(values[i].as_slice()) {
                Ok(b) => {
                    out.push(b);
                },
                Err(_) => {},
            }
            i += 1;
        }
        assert(bytes_list(values@).take(i as int) =~= bytes_list(values@));
        out
    }

    fn iter_ascii(&self) -> (r: Vec<(String, String)>) {
        let entries = header_map_entries(self);
        let mut out: Vec<(String, String)> = Vec::new();
        let mut i: usize = 0;
        while i < entries.len()
            invariant
                i <= entries.len(),
                entry_list(entries@) == flat_entries(header_groups(*self)),
                text_entry_list(out@) == ascii_entries(entry_list(entries@).take(i as int)),
            decreases entries.len() - i,
        {
            let ghost upto = entry_list(entries@).take(i + 1);
            assert(upto.drop_last() =~= entry_list(entries@).take(i as int));
            let name = entries[i].0.as_str();
            if !ends_with(name, BIN_SUFFIX) {
                let key = match strip_prefix(name, TRAILER_PREFIX) {
                    Some(rest) => rest,
                    None => name,
                };
                match header_text(entries[i].1.as_slice()) {
                    Some(t) => {
                        let pair = (key.to_owned(), t);
                        out.push(pair);
                    },
                    None => {},
                }
            }
            i += 1;
        }
        assert(entry_list(entries@).take(i as int) =~= entry_list(entries@));
        out
    }

    fn iter_binary(&self) -> (r: Vec<(String, Vec<u8>)>) {
        let entries = header_map_entries(self);
        let mut out: Vec<(String, Vec<u8>)> = Vec::new();
        let mut i: usize = 0;
        while i < entries.len()
            invariant
                i <= entries.len(),
                entry_list(entries@) == flat_entries(header_groups(*self)),
                entry_list(out@) == binary_entries(entry_list(entries@).take(i as int)),
            decreases entries.len() - i,
        {
            let ghost upto = entry_list(entries@).take(i + 1);
            assert(upto.drop_last() =~= entry_list(entries@).take(i as int));
            let name = entries[i].0.as_str();
            if ends_with(name, BIN_SUFFIX) {
                let key = match strip_prefix(name, TRAILER_PREFIX) {
                    Some(rest) => rest,
                    None => name,
                };
                match base64_decode(entries[i].1.as_slice()) {
                    Ok(b) => {
                        let pair = (key.to_owned(), b);
                        out.push(pair);
                    },
                    Err(_) => {},
                }
            }
            i += 1;
        }
        assert(entry_list(entries@).take(i as int) =~= entry_list(entries@));
        out
    }

    fn insert_ascii(&mut self, key: &str, val: &str) -> (r: Result<(), Error>) {
        let r = store_ascii(self, key, val, true);
        proof {
            if r is Ok {
                lemma_insert_then_get_ascii(old(self).groups(), key@, val@);
            }
        }
        r
    }

    fn insert_binary(&mut self, key: &str, val: &[u8]) -> (r: Result<(), Error>) {
        let r = store_binary(self, key, val, true);
        proof {
            if r is Ok {
                let name = lower_text(key@);
                lemma_set_group(old(self).groups(), name, seq![binary_value_of(val@)], name);
            }
        }
        r
    }

    fn append_ascii(&mut self, key: &str, val: &str) -> (r: Result<(), Error>) {
        store_ascii(self, key, val, false)
    }

    fn append_binary(&mut self, key: &str, val: &[u8]) -> (r: Result<(), Error>) {
        store_binary(self, key, val, false)
    }
}

} // verus!
