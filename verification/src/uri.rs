//! The parts of a URI, as plain text, and what the `http` crate makes of
//! them.

use vstd::prelude::*;
use vstd::utf8::{encode_utf8, is_ascii_chars_encode_utf8};
use crate::common::text_option;
use crate::text::{is_alphanumeric_byte, lemma_char_range};

verus! {

#[verifier::external_type_specification]
#[verifier::external_body]
pub struct ExInvalidUri(http::uri::InvalidUri);

#[verifier::external_type_specification]
#[verifier::external_body]
pub struct ExInvalidUriParts(http::uri::InvalidUriParts);

/// The parts of a URI that the protocol reads.
#[derive(Debug)]
pub struct Uri {
    pub scheme: Option<String>,
    pub authority: Option<String>,
    pub path: String,
    pub query: Option<String>,
}

/// The mathematical content of a [`Uri`].
pub ghost struct UriView {
    pub scheme: Option<Seq<char>>,
    pub authority: Option<Seq<char>>,
    pub path: Seq<char>,
    pub query: Option<Seq<char>>,
}

impl View for Uri {
    type V = UriView;

    open spec fn view(&self) -> UriView {
        UriView {
            scheme: text_option(self.scheme),
            authority: text_option(self.authority),
            path: self.path@,
            query: text_option(self.query),
        }
    }
}

/// The text of an optional string slice.
pub open spec fn str_option(s: Option<&str>) -> Option<Seq<char>> {
    match s {
        Some(t) => Some(t@),
        None => None,
    }
}

/// The longest URI scheme, in bytes.
pub const MAX_SCHEME_LEN: usize = 64;

/// A character of a URI scheme: a letter, a digit, or one of `+-.~`.
pub open spec fn is_scheme_char(c: char) -> bool {
    c <= '\u{7f}' && (is_alphanumeric_byte(c as u8) || c == '+' || c == '-' || c == '.' || c
        == '~')
}

/// Whether a text is a URI scheme: at most 64 characters, each a scheme
/// character.
pub open spec fn scheme_accepted(text: Seq<char>) -> bool {
    &&& text.len() <= MAX_SCHEME_LEN
    &&& forall|i: int| 0 <= i < text.len() ==> is_scheme_char(#[trigger] text[i])
}

/// Whether a text is a URI authority.
pub uninterp spec fn authority_accepted(text: Seq<char>) -> bool;

/// The scheme, the authority and the path of a URI given as one text, if it
/// is a URI.
pub uninterp spec fn uri_split(text: Seq<char>) -> Option<
    (Option<Seq<char>>, Option<Seq<char>>, Option<Seq<char>>),
>;

/// The position of the first `c` in `s`, if there is one.
pub open spec fn first_position(s: Seq<char>, c: char) -> Option<int>
    decreases s.len(),
{
    if s.len() == 0 {
        None
    } else {
        match first_position(s.drop_last(), c) {
            Some(i) => Some(i),
            None => if s.last() == c {
                Some(s.len() - 1)
            } else {
                None
            },
        }
    }
}

/// A path and query without its fragment: what stands before the first
/// `#`.
pub open spec fn without_fragment(text: Seq<char>) -> Seq<char> {
    match first_position(text, '#') {
        Some(i) => text.take(i),
        None => text,
    }
}

/// The path of a path and query: what stands before the first `?`, and a
/// slash where nothing does.
pub open spec fn path_of_text(text: Seq<char>) -> Seq<char> {
    let body = without_fragment(text);
    let path = match first_position(body, '?') {
        Some(i) => body.take(i),
        None => body,
    };
    if path.len() == 0 {
        seq!['/']
    } else {
        path
    }
}

/// The query of a path and query: what stands behind the first `?`, if
/// there is one.
pub open spec fn query_of_text(text: Seq<char>) -> Option<Seq<char>> {
    let body = without_fragment(text);
    match first_position(body, '?') {
        Some(i) => Some(body.skip(i + 1)),
        None => None,
    }
}

/// The longest path and query, in bytes.
pub const MAX_PATH_LEN: usize = 65534;

/// A character that may stand in a path: any beyond ASCII, and of ASCII
/// the visible ones but `#`, `<`, `>`, `?` and `` ` ``.
pub open spec fn is_path_char(c: char) -> bool {
    c > '\u{7f}' || c == '!' || c == '"' || '$' <= c <= ';' || c == '=' || '@' <= c <= '_' || 'a'
        <= c <= '~'
}

/// A character that may stand in a query: any beyond ASCII, and of ASCII
/// the visible ones but `"`, `#`, `<` and `>`.
pub open spec fn is_query_char(c: char) -> bool {
    c > '\u{7f}' || c == '!' || '$' <= c <= ';' || c == '=' || '?' <= c <= '~'
}

/// Whether a text is the path and query of a URI: `*`, or a text that
/// starts with `/`, `?` or `#`, whose path and query, up to the fragment,
/// are made of the characters that may stand there. It has one to 65534
/// bytes.
pub open spec fn path_and_query_accepted(text: Seq<char>) -> bool {
    let body = without_fragment(text);
    &&& 1 <= encode_utf8(text).len() <= MAX_PATH_LEN
    &&& text.len() > 0
    &&& text == seq!['*'] || {
        &&& text[0] == '/' || text[0] == '?' || text[0] == '#'
        &&& match first_position(body, '?') {
            Some(mark) => {
                &&& forall|i: int| 0 <= i < mark ==> is_path_char(#[trigger] body[i])
                &&& forall|i: int| mark < i < body.len() ==> is_query_char(#[trigger] body[i])
            },
            None => forall|i: int| 0 <= i < body.len() ==> is_path_char(#[trigger] body[i]),
        }
    }
}

/// The path and the query of the URI made of the given parts. A URI
/// without a scheme, whose path and query is absent or holds nothing before
/// its fragment, has an empty path.
pub open spec fn assembled_path(has_scheme: bool, path_and_query: Option<Seq<char>>) -> (
    Seq<char>,
    Option<Seq<char>>,
) {
    match path_and_query {
        Some(text) => (
            if has_scheme || without_fragment(text).len() > 0 {
                path_of_text(text)
            } else {
                Seq::empty()
            },
            query_of_text(text),
        ),
        None => (Seq::empty(), None),
    }
}

/// The first position of `c` is a position of `c`, and none comes before
/// it.
pub proof fn lemma_first_position(s: Seq<char>, c: char)
    ensures
        match first_position(s, c) {
            Some(i) => 0 <= i < s.len() && s[i] == c && forall|j: int|
                0 <= j < i ==> s[j] != c,
            None => !s.contains(c),
        },
    decreases s.len(),
{
    if s.len() > 0 {
        let front = s.drop_last();
        lemma_first_position(front, c);
        match first_position(front, c) {
            Some(i) => {
                assert(front[i] == s[i]);
                assert forall|j: int| 0 <= j < i implies s[j] != c by {
                    assert(front[j] == s[j]);
                }
            },
            None => {
                assert forall|j: int| 0 <= j < front.len() implies s[j] != c by {
                    assert(front[j] == s[j]);
                    assert(front.contains(front[j]));
                }
            },
        }
    }
}

/// A position of `c` with no `c` before it is the first.
pub proof fn lemma_first_position_at(s: Seq<char>, c: char, i: int)
    requires
        0 <= i < s.len(),
        s[i] == c,
        forall|j: int| 0 <= j < i ==> s[j] != c,
    ensures
        first_position(s, c) == Some(i),
{
    lemma_first_position(s, c);
}

/// An ASCII text of at most 65534 characters that starts with a slash and
/// holds only what may stand in a path is a path and query.
pub proof fn lemma_plain_path_accepted(path: Seq<char>)
    requires
        0 < path.len() <= MAX_PATH_LEN,
        path[0] == '/',
        forall|i: int| 0 <= i < path.len() ==> is_path_char(#[trigger] path[i]) && path[i]
            <= '\u{7f}',
    ensures
        path_and_query_accepted(path),
        !path.contains('?'),
        !path.contains('#'),
{
    assert forall|i: int| 0 <= i < path.len() implies '\0' <= #[trigger] path[i] <= '\u{7f}' by {
        lemma_char_range(path[i]);
    }
    is_ascii_chars_encode_utf8(path);
    assert forall|i: int| 0 <= i < path.len() implies path[i] != '?' && path[i] != '#' by {
        assert(is_path_char(path[i]));
    }
    lemma_first_position(path, '#');
    lemma_first_position(path, '?');
}

/// A path without `?` and `#` that is not empty is taken as it is, and
/// gives no query.
pub proof fn lemma_plain_path(has_scheme: bool, path: Seq<char>)
    requires
        path.len() > 0,
        !path.contains('?'),
        !path.contains('#'),
    ensures
        assembled_path(has_scheme, Some(path)) == (path, None::<Seq<char>>),
{
    lemma_first_position(path, '#');
    lemma_first_position(path, '?');
}

/// A path without `?` and `#` that is not empty, followed by `?` and a
/// query, is taken as it is, and gives the query up to its fragment.
pub proof fn lemma_path_with_query(has_scheme: bool, path: Seq<char>, query: Seq<char>)
    requires
        path.len() > 0,
        !path.contains('?'),
        !path.contains('#'),
    ensures
        assembled_path(has_scheme, Some(path + seq!['?'] + query)) == (
            path,
            Some(without_fragment(query)),
        ),
{
    let text = path + seq!['?'] + query;
    let mark = path.len() as int;
    lemma_first_position(query, '#');
    assert forall|j: int| 0 <= j < mark implies text[j] != '?' && text[j] != '#' by {
        assert(text[j] == path[j]);
        assert(path.contains(path[j]));
    }
    assert(text[mark] == '?');
    let body = match first_position(query, '#') {
        Some(k) => {
            assert forall|j: int| 0 <= j < mark + 1 + k implies text[j] != '#' by {
                if j > mark {
                    assert(text[j] == query[j - mark - 1]);
                }
            }
            assert(text[mark + 1 + k] == query[k]);
            lemma_first_position_at(text, '#', mark + 1 + k);
            text.take(mark + 1 + k)
        },
        None => {
            assert forall|j: int| 0 <= j < text.len() implies text[j] != '#' by {
                if j > mark {
                    assert(text[j] == query[j - mark - 1]);
                    assert(query.contains(query[j - mark - 1]));
                }
            }
            lemma_first_position(text, '#');
            text
        },
    };
    assert(without_fragment(text) == body);
    assert(body.len() > mark && body[mark] == '?');
    assert forall|j: int| 0 <= j < mark implies body[j] != '?' by {
        assert(body[j] == text[j]);
    }
    lemma_first_position_at(body, '?', mark);
    assert(body.take(mark) =~= path);
    assert(body.skip(mark + 1) =~= without_fragment(query));
}

/// Whether the parts present can make a URI together: a scheme needs the
/// two others, and without a scheme only one of the others can stand.
pub open spec fn parts_agree(scheme: bool, authority: bool, path_and_query: bool) -> bool {
    if scheme {
        authority && path_and_query
    } else {
        !(authority && path_and_query)
    }
}

/// `Scheme::try_from` with a string slice: a scheme is made from at most 64
/// bytes that are each a letter, a digit or one of `+-.~`; anything else is
/// refused.
#[verifier::external_body]
pub(crate) fn check_scheme(text: &str) -> (r: Result<(), http::uri::InvalidUri>)
    ensures
        r is Ok <==> scheme_accepted(text@),
{
    http::uri::Scheme::try_from(text).map(|_| ())
}

/// `Authority::try_from` with a string slice: whether the text is an
/// authority.
#[verifier::external_body]
pub(crate) fn check_authority(text: &str) -> (r: Result<(), http::uri::InvalidUri>)
    ensures
        r is Ok <==> authority_accepted(text@),
{
    http::uri::Authority::try_from(text).map(|_| ())
}

/// `PathAndQuery::try_from` with a string slice: a path and query is made
/// from `*`, or from a text that starts with `/`, `?` or `#` and holds, up
/// to its fragment, only what may stand in a path and, behind the first
/// `?`, in a query; it has one to 65534 bytes.
#[verifier::external_body]
pub(crate) fn check_path_and_query(text: &str) -> (r: Result<(), http::uri::InvalidUri>)
    ensures
        r is Ok <==> path_and_query_accepted(text@),
{
    http::uri::PathAndQuery::try_from(text).map(|_| ())
}

/// `Uri::try_from` with a string slice, then `Uri::into_parts`: the scheme,
/// the authority, and the path of the path and query, each where the URI
/// has it.
#[verifier::external_body]
pub(crate) fn split_uri(text: &str) -> (r: Result<
    (Option<String>, Option<String>, Option<String>),
    http::uri::InvalidUri,
>)
    ensures
        r is Ok <==> uri_split(text@) is Some,
        r matches Ok(parts) ==> uri_split(text@) == Some(
            (text_option(parts.0), text_option(parts.1), text_option(parts.2)),
        ),
{
    http::Uri::try_from(text).map(|uri| uri.into_parts()).map(
        |parts|
            (
                parts.scheme.map(|s| s.as_str().to_owned()),
                parts.authority.map(|a| a.as_str().to_owned()),
                parts.path_and_query.map(|p| p.path().to_owned()),
            ),
    )
}

/// `Uri::from_parts`, then `Uri::scheme_str`, `Uri::authority`, `Uri::path`
/// and `Uri::query`: the parts make a URI where they agree. The URI has the
/// scheme and the authority as given; its path is what stands before the
/// first `?` of the path and query, and its query what stands behind, both
/// without the fragment.
#[verifier::external_body]
pub(crate) fn assemble_uri(
    scheme: Option<&str>,
    authority: Option<&str>,
    path_and_query: Option<&str>,
) -> (r: Result<Uri, http::uri::InvalidUriParts>)
    requires
        scheme matches Some(s) ==> scheme_accepted(s@),
        authority matches Some(a) ==> authority_accepted(a@),
        path_and_query matches Some(p) ==> path_and_query_accepted(p@),
    ensures
        r is Ok <==> parts_agree(scheme is Some, authority is Some, path_and_query is Some),
        r matches Ok(uri) ==> {
            &&& uri@.scheme == str_option(scheme)
            &&& uri@.authority == str_option(authority)
            &&& (uri@.path, uri@.query) == assembled_path(
                scheme is Some,
                str_option(path_and_query),
            )
        },
{
    let mut parts = http::uri::Parts::default();
    parts.scheme = scheme.map(|s| s.parse().unwrap());
    parts.authority = authority.map(|a| a.parse().unwrap());
    parts.path_and_query = path_and_query.map(|p| p.parse().unwrap());
    http::Uri::from_parts(parts).map(|uri| Uri {
        scheme: uri.scheme_str().map(str::to_owned),
        authority: uri.authority().map(|a| a.as_str().to_owned()),
        path: uri.path().to_owned(),
        query: uri.query().map(str::to_owned),
    })
}

} // verus!
