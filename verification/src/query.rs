//! Query strings: the form encoding of names and values, and percent
//! decoding.

use vstd::prelude::*;
use crate::metadata::{bytes_option, text_entry_list};
use crate::text::is_alphanumeric_byte;

verus! {

/// The names and values that a form-encoded query holds, in order.
pub uninterp spec fn form_pairs(query: Seq<u8>) -> Seq<(Seq<char>, Seq<char>)>;

/// The form encoding of names and values.
pub uninterp spec fn form_text(pairs: Seq<(Seq<char>, Seq<char>)>) -> Seq<char>;

/// The bytes that a percent-encoded text stands for, if they are UTF-8.
pub uninterp spec fn percent_decoded(text: Seq<char>) -> Option<Seq<u8>>;

/// `form_urlencoded::parse`: the names and values of a query, decoded.
#[verifier::external_body]
pub(crate) fn parse_form(query: &[u8]) -> (r: Vec<(String, String)>)
    ensures
        text_entry_list(r@) == form_pairs(query@),
{
    form_urlencoded::parse(query).map(|(k, v)| (k.into_owned(), v.into_owned())).collect()
}

/// A character that the form encoding writes: a letter, a digit, or one of
/// `*-._+%=&`.
pub open spec fn is_form_char(c: char) -> bool {
    c <= '\u{7f}' && (is_alphanumeric_byte(c as u8) || c == '*' || c == '-' || c == '.' || c
        == '_' || c == '+' || c == '%' || c == '=' || c == '&')
}

/// `form_urlencoded::Serializer` over an empty string, with `extend_pairs`
/// and `finish`: the names and values as one query, which is made of
/// letters, digits and `*-._+%=&` alone.
#[verifier::external_body]
pub(crate) fn serialize_form(pairs: &Vec<(String, String)>) -> (r: String)
    ensures
        r@ == form_text(text_entry_list(pairs@)),
        forall|i: int| 0 <= i < r@.len() ==> is_form_char(#[trigger] r@[i]),
{
    form_urlencoded::Serializer::new(String::new()).extend_pairs(pairs.iter()).finish()
}

/// `percent_decode_str` and `decode_utf8` of `percent_encoding`: the bytes
/// that the text stands for, where they are UTF-8.
#[verifier::external_body]
pub(crate) fn percent_decode_utf8(text: &str) -> (r: Option<Vec<u8>>)
    ensures
        bytes_option(r) == percent_decoded(text@),
{
    percent_encoding::percent_decode_str(text).decode_utf8().ok().map(
        |s| s.into_owned().into_bytes(),
    )
}

} // verus!
