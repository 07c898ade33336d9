//! JSON documents as plain values, and the two calls that turn text into a
//! document and a document into text.

use vstd::prelude::*;
use crate::text::str_eq;

verus! {

/// A JSON document.
#[derive(Debug, PartialEq)]
pub enum JsonValue {
    Null,
    Bool(bool),
    /// A number that is an integer between zero and `u64::MAX`.
    Unsigned(u64),
    /// Any other number. Its value is not kept; written out it reads `null`.
    OtherNumber,
    Text(String),
    Array(Vec<JsonValue>),
    /// The members of an object, each with its name, in their order.
    Object(Vec<(String, JsonValue)>),
}

/// The mathematical value of a [`JsonValue`].
pub enum JsonView {
    Null,
    Bool(bool),
    Unsigned(u64),
    OtherNumber,
    Text(Seq<char>),
    Array(Seq<JsonView>),
    Object(Seq<(Seq<char>, JsonView)>),
}

impl View for JsonValue {
    type V = JsonView;

    open spec fn view(&self) -> JsonView
        decreases self,
    {
        match self {
            JsonValue::Null => JsonView::Null,
            JsonValue::Bool(b) => JsonView::Bool(*b),
            JsonValue::Unsigned(n) => JsonView::Unsigned(*n),
            JsonValue::OtherNumber => JsonView::OtherNumber,
            JsonValue::Text(s) => JsonView::Text(s@),
            JsonValue::Array(items) => JsonView::Array(
                Seq::new(
                    items@.len(),
                    |i: int|
                        if 0 <= i < items@.len() {
                            items@[i]@
                        } else {
                            JsonView::Null
                        },
                ),
            ),
            JsonValue::Object(members) => JsonView::Object(
                Seq::new(
                    members@.len(),
                    |i: int|
                        if 0 <= i < members@.len() {
                            (members@[i].0@, members@[i].1@)
                        } else {
                            (Seq::empty(), JsonView::Null)
                        },
                ),
            ),
        }
    }
}

/// The value of the first member with the given name, if there is one.
pub open spec fn member(members: Seq<(Seq<char>, JsonView)>, name: Seq<char>) -> Option<JsonView>
    decreases members.len(),
{
    if members.len() == 0 {
        None
    } else if members[0].0 == name {
        Some(members[0].1)
    } else {
        member(members.drop_first(), name)
    }
}

impl JsonView {
    /// The value of the first member of an object that has the given name.
    /// A document that is no object has no members.
    pub open spec fn get(self, name: Seq<char>) -> Option<JsonView> {
        match self {
            JsonView::Object(members) => member(members, name),
            _ => None,
        }
    }
}

/// What [`JsonValue::Array`] holds, seen through the view.
pub proof fn lemma_array_view(items: Vec<JsonValue>)
    ensures
        JsonValue::Array(items)@ matches JsonView::Array(views) && views.len() == items@.len()
            && forall|i: int| 0 <= i < items@.len() ==> views[i] == #[trigger] items@[i]@,
{
    reveal_with_fuel(<JsonValue as View>::view, 2);
}

/// What [`JsonValue::Object`] holds, seen through the view.
pub proof fn lemma_object_view(members: Vec<(String, JsonValue)>)
    ensures
        JsonValue::Object(members)@ matches JsonView::Object(views) && views.len()
            == members@.len() && forall|i: int|
            0 <= i < members@.len() ==> views[i] == (
                (#[trigger] members@[i]).0@,
                members@[i].1@,
            ),
{
    reveal_with_fuel(<JsonValue as View>::view, 2);
}

impl JsonValue {
    /// An object with two members.
    pub fn object2(first: &str, a: JsonValue, second: &str, b: JsonValue) -> (r: JsonValue)
        ensures
            r@ == JsonView::Object(seq![(first@, a@), (second@, b@)]),
    {
        let mut members: Vec<(String, JsonValue)> = Vec::new();
        members.push((first.to_owned(), a));
        members.push((second.to_owned(), b));
        proof {
            lemma_object_view(members);
            assert(JsonValue::Object(members)@->Object_0 =~= seq![(first@, a@), (second@, b@)]);
        }
        JsonValue::Object(members)
    }

    /// An object with three members.
    pub fn object3(
        first: &str,
        a: JsonValue,
        second: &str,
        b: JsonValue,
        third: &str,
        c: JsonValue,
    ) -> (r: JsonValue)
        ensures
            r@ == JsonView::Object(seq![(first@, a@), (second@, b@), (third@, c@)]),
    {
        let mut members: Vec<(String, JsonValue)> = Vec::new();
        members.push((first.to_owned(), a));
        members.push((second.to_owned(), b));
        members.push((third.to_owned(), c));
        proof {
            lemma_object_view(members);
            assert(JsonValue::Object(members)@->Object_0 =~= seq![
                (first@, a@),
                (second@, b@),
                (third@, c@),
            ]);
        }
        JsonValue::Object(members)
    }

    /// The value of the first member of an object that has the given name.
    /// A document that is no object has no members.
    pub fn get(&self, name: &str) -> (r: Option<&JsonValue>)
        ensures
            match r {
                Some(value) => self@.get(name@) == Some(value@),
                None => self@.get(name@) is None,
            },
    {
        match self {
            JsonValue::Object(members) => {
                proof {
                    lemma_object_view(*members);
                }
                let ghost views = self@->Object_0;
                let mut i: usize = 0;
                assert(views.skip(0) =~= views);
                while i < members.len()
                    invariant
                        i <= members.len(),
                        self@ == JsonView::Object(views),
                        views.len() == members@.len(),
                        forall|k: int|
                            0 <= k < members@.len() ==> views[k] == (
                                (#[trigger] members@[k]).0@,
                                members@[k].1@,
                            ),
                        member(views, name@) == member(views.skip(i as int), name@),
                    decreases members.len() - i,
                {
                    proof {
                        assert(views.skip(i as int)[0] == views[i as int]);
                        assert(views.skip(i as int).drop_first() =~= views.skip(i + 1));
                    }
                    if str_eq(members[i].0.as_str(), name) {
                        assert(views[i as int] == (members@[i as int].0@, members@[i as int].1@));
                        return Some(&members[i].1);
                    }
                    i += 1;
                }
                None
            },
            _ => None,
        }
    }
}

/// What parsing a text gives, with the document or the parser's message
/// seen through the view.
pub open spec fn parsed_view(r: Result<JsonValue, String>) -> Result<JsonView, Seq<char>> {
    match r {
        Ok(document) => Ok(document@),
        Err(message) => Err(message@),
    }
}

/// What writing a document gives, with the text or the writer's message as a
/// sequence of characters.
pub open spec fn written_view(r: Result<String, String>) -> Result<Seq<char>, Seq<char>> {
    match r {
        Ok(text) => Ok(text@),
        Err(message) => Err(message@),
    }
}

/// `serde_json::Value`, the document type of the parser.
#[verifier::external_type_specification]
#[verifier::external_body]
pub struct ExDocument(serde_json::Value);

/// The document that `serde_json::from_str` reads from a text, or the
/// message of the error with which it refuses the text.
pub uninterp spec fn json_parse(text: Seq<char>) -> Result<JsonView, Seq<char>>;

/// The text that `serde_json::to_string` writes for a document, or the
/// message of the error with which it fails.
pub uninterp spec fn json_text(document: JsonView) -> Result<Seq<char>, Seq<char>>;

/// Parses a text with `serde_json::from_str`, as a `serde_json::Value`. The
/// contract claims only that the outcome is a function of the text: the same
/// text always gives the same document or the same message.
#[verifier::external_body]
pub(crate) fn parse_json(text: &str) -> (r: Result<JsonValue, String>)
    ensures
        parsed_view(r) == json_parse(text@),
{
    match serde_json::from_str::<serde_json::Value>(text) {
        Ok(value) => Ok(from_parser(value)),
        Err(e) => Err(e.to_string()),
    }
}

/// Writes a document with `serde_json::to_string`, in its compact form. The
/// contract claims only that the outcome is a function of the document.
#[verifier::external_body]
pub(crate) fn write_json(document: &JsonValue) -> (r: Result<String, String>)
    ensures
        written_view(r) == json_text(document@),
{
    match serde_json::to_string(&for_writer(document)) {
        Ok(text) => Ok(text),
        Err(e) => Err(e.to_string()),
    }
}

/// Moves a `serde_json::Value` into a [`JsonValue`], variant by variant. A
/// number is kept where `serde_json::Number::as_u64` gives it. Nothing is
/// claimed of the result.
#[verifier::external_body]
fn from_parser(value: serde_json::Value) -> JsonValue {
    match value {
        serde_json::Value::Null => JsonValue::Null,
        serde_json::Value::Bool(b) => JsonValue::Bool(b),
        serde_json::Value::Number(n) => n.as_u64().map_or(JsonValue::OtherNumber, JsonValue::Unsigned),
        serde_json::Value::String(s) => JsonValue::Text(s),
        serde_json::Value::Array(a) => JsonValue::Array(a.into_iter().map(from_parser).collect()),
        serde_json::Value::Object(o) => JsonValue::Object(
            o.into_iter().map(|(k, v)| (k, from_parser(v))).collect(),
        ),
    }
}

/// Copies a [`JsonValue`] into a `serde_json::Value`, variant by variant.
/// Nothing is claimed of the result.
#[verifier::external_body]
fn for_writer(document: &JsonValue) -> serde_json::Value {
    match document {
        JsonValue::Null | JsonValue::OtherNumber => serde_json::Value::Null,
        JsonValue::Bool(b) => serde_json::Value::Bool(*b),
        JsonValue::Unsigned(n) => serde_json::Value::Number(serde_json::Number::from(*n)),
        JsonValue::Text(s) => serde_json::Value::String(s.clone()),
        JsonValue::Array(a) => serde_json::Value::Array(a.iter().map(for_writer).collect()),
        JsonValue::Object(o) => serde_json::Value::Object(
            o.iter().map(|(k, v)| (k.clone(), for_writer(v))).collect(),
        ),
    }
}

} // verus!
