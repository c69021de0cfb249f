//! JSON documents as plain values.

use vstd::prelude::*;

verus! {

#[verifier::external_type_specification]
#[verifier::external_body]
pub struct ExJsonOutsideValue(serde_json::Value);

/// A JSON value. A number is kept as its text; an object as its members in
/// the order of their names, each name once.
#[derive(Debug)]
pub enum JsonValue {
    Null,
    Bool(bool),
    Number(String),
    String(String),
    Array(Vec<JsonValue>),
    Object(Vec<(String, JsonValue)>),
}

/// The mathematical content of a [`JsonValue`].
pub ghost enum JsonView {
    Null,
    Bool(bool),
    Number(Seq<char>),
    String(Seq<char>),
    Array(Seq<JsonView>),
    Object(Seq<MemberView>),
}

/// One member of an object: its name and its value.
pub ghost struct MemberView {
    pub name: Seq<char>,
    pub value: JsonView,
}

impl View for JsonValue {
    type V = JsonView;

    open spec fn view(&self) -> JsonView
        decreases self,
    {
        match self {
            JsonValue::Null => JsonView::Null,
            JsonValue::Bool(b) => JsonView::Bool(*b),
            JsonValue::Number(n) => JsonView::Number(n@),
            JsonValue::String(s) => JsonView::String(s@),
            JsonValue::Array(items) => JsonView::Array(
                Seq::new(
                    items@.len(),
                    |i: int|
                        if 0 <= i < items@.len() {
                            items@[i]@
                        } else {
                            JsonView::Null
                        },
                ),
            ),
            JsonValue::Object(members) => JsonView::Object(
                Seq::new(
                    members@.len(),
                    |i: int|
                        if 0 <= i < members@.len() {
                            MemberView { name: members@[i].0@, value: members@[i].1@ }
                        } else {
                            MemberView { name: Seq::empty(), value: JsonView::Null }
                        },
                ),
            ),
        }
    }
}

/// The value that a JSON text stands for, if it is one.
pub uninterp spec fn json_document(text: Seq<u8>) -> Option<JsonView>;

/// A `serde_json::Value` as a [`JsonValue`]: variant for variant, with the
/// items of an array and the members of an object converted in turn.
#[verifier::external_body]
fn json_value(value: serde_json::Value) -> JsonValue {
    match value {
        serde_json::Value::Null => JsonValue::Null,
        serde_json::Value::Bool(b) => JsonValue::Bool(b),
        serde_json::Value::Number(n) => JsonValue::Number(n.to_string()),
        serde_json::Value::String(s) => JsonValue::String(s),
        serde_json::Value::Array(items) => JsonValue::Array(
            items.into_iter().map(json_value).collect(),
        ),
        serde_json::Value::Object(members) => JsonValue::Object(
            members.into_iter().map(|(k, v)| (k, json_value(v))).collect(),
        ),
    }
}

/// `serde_json::from_slice` for a `serde_json::Value`: the value of a JSON
/// text, if the text is one.
#[verifier::external_body]
pub(crate) fn json_parse(text: &[u8]) -> (r: Option<JsonValue>)
    ensures
        match r {
            Some(value) => json_document(text@) == Some(value@),
            None => json_document(text@) is None,
        },
{
    serde_json::from_slice::<serde_json::Value>(text).ok().map(json_value)
}

/// The value of the member with the given name: that of the last such
/// member.
pub open spec fn member_of(members: Seq<MemberView>, name: Seq<char>) -> Option<JsonView>
    decreases members.len(),
{
    if members.len() == 0 {
        None
    } else if members.last().name == name {
        Some(members.last().value)
    } else {
        member_of(members.drop_last(), name)
    }
}

/// The contents of the members of an object.
pub open spec fn members_view(members: Seq<(String, JsonValue)>) -> Seq<MemberView> {
    Seq::new(members.len(), |i: int| MemberView { name: members[i].0@, value: members[i].1@ })
}

/// The contents of the items of an array.
pub open spec fn items_view(items: Seq<JsonValue>) -> Seq<JsonView> {
    Seq::new(items.len(), |i: int| items[i]@)
}

/// The content of an array is the contents of its items, and the content
/// of an object the contents of its members.
pub proof fn lemma_json_view(value: JsonValue)
    ensures
        value matches JsonValue::Array(items) ==> value@ == JsonView::Array(items_view(items@)),
        value matches JsonValue::Object(members) ==> value@ == JsonView::Object(
            members_view(members@),
        ),
{
    match value {
        JsonValue::Array(items) => {
            assert(value@->Array_0 =~= items_view(items@));
        },
        JsonValue::Object(members) => {
            assert(value@->Object_0 =~= members_view(members@));
        },
        _ => {},
    }
}

} // verus!
