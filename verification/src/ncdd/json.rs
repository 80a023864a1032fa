//! JSON documents, as far as the log looks into them.
use vstd::prelude::*;

verus! {

/// `serde_json::Value`, a parsed document.
#[verifier::external_type_specification]
#[verifier::external_body]
pub struct ExValue(serde_json::Value);

/// One member of a JSON object.
#[derive(Debug)]
pub enum JsonField {
    /// There is no such member.
    Missing,
    Text(String),
    Flag(bool),
    Integer(i64),
    /// A list with this many elements.
    List(usize),
    /// Something else: null, an object, a number that is no `i64`.
    Other,
}

/// The mathematical content of a [`JsonField`].
pub enum JsonFieldView {
    Missing,
    Text(Seq<char>),
    Flag(bool),
    Integer(i64),
    List(usize),
    Other,
}

impl View for JsonField {
    type V = JsonFieldView;

    open spec fn view(&self) -> JsonFieldView {
        match self {
            JsonField::Missing => JsonFieldView::Missing,
            JsonField::Text(s) => JsonFieldView::Text(s@),
            JsonField::Flag(b) => JsonFieldView::Flag(*b),
            JsonField::Integer(n) => JsonFieldView::Integer(*n),
            JsonField::List(n) => JsonFieldView::List(*n),
            JsonField::Other => JsonFieldView::Other,
        }
    }
}

/// The members of a document that is an object; a document that is none has no
/// members.
pub uninterp spec fn json_members(v: serde_json::Value) -> Map<Seq<char>, JsonFieldView>;

/// What bytes read as: the members of the document, or what is wrong with it.
pub uninterp spec fn json_document(bytes: Seq<u8>) -> Result<
    Map<Seq<char>, JsonFieldView>,
    Seq<char>,
>;

/// The member of this name.
pub open spec fn member(members: Map<Seq<char>, JsonFieldView>, key: Seq<char>) -> JsonFieldView {
    if members.contains_key(key) {
        members[key]
    } else {
        JsonFieldView::Missing
    }
}

/// `serde_json::from_slice` reads bytes as a document. Whether it can, what the
/// members are and what the failure says depends on the bytes alone.
#[verifier::external_body]
pub(crate) fn parse_json(bytes: &[u8]) -> (r: Result<serde_json::Value, String>)
    ensures
        match r {
            Ok(v) => json_document(bytes@) == Ok::<Map<Seq<char>, JsonFieldView>, Seq<char>>(
                json_members(v),
            ),
            Err(text) => json_document(bytes@) == Err::<
                Map<Seq<char>, JsonFieldView>,
                Seq<char>,
            >(text@),
        },
{
    serde_json::from_slice::<serde_json::Value>(bytes).map_err(|e| e.to_string())
}

/// `serde_json::Value::get` gives the member of this name, if the document is
/// an object and has one.
#[verifier::external_body]
pub(crate) fn json_member(v: &serde_json::Value, key: &str) -> (r: JsonField)
    ensures
        r@ == member(json_members(*v), key@),
{
    match v.get(key) {
        None => JsonField::Missing,
        Some(serde_json::Value::String(s)) => JsonField::Text(s.clone()),
        Some(serde_json::Value::Bool(b)) => JsonField::Flag(*b),
        Some(serde_json::Value::Array(list)) => JsonField::List(list.len()),
        Some(serde_json::Value::Number(n)) => match n.as_i64() {
            Some(n) => JsonField::Integer(n),
            None => JsonField::Other,
        },
        Some(_) => JsonField::Other,
    }
}

/// The text in a member.
pub open spec fn as_text(f: JsonFieldView) -> Option<Seq<char>> {
    match f {
        JsonFieldView::Text(s) => Some(s),
        _ => None,
    }
}

/// The truth value in a member.
pub open spec fn as_flag(f: JsonFieldView) -> Option<bool> {
    match f {
        JsonFieldView::Flag(b) => Some(b),
        _ => None,
    }
}

/// The number in a member.
pub open spec fn as_integer(f: JsonFieldView) -> Option<i64> {
    match f {
        JsonFieldView::Integer(n) => Some(n),
        _ => None,
    }
}

/// The length of the list in a member.
pub open spec fn as_list_len(f: JsonFieldView) -> Option<usize> {
    match f {
        JsonFieldView::List(n) => Some(n),
        _ => None,
    }
}

/// The content of a text that may be missing.
pub open spec fn text_view(s: Option<String>) -> Option<Seq<char>> {
    match s {
        Some(s) => Some(s@),
        None => None,
    }
}

impl JsonField {
    /// The text in this member.
    pub fn into_text(self) -> (r: Option<String>)
        ensures
            text_view(r) == as_text(self@),
    {
        match self {
            JsonField::Text(s) => Some(s),
            _ => None,
        }
    }

    /// The truth value in this member.
    pub fn flag(&self) -> (r: Option<bool>)
        ensures
            r == as_flag(self@),
    {
        match self {
            JsonField::Flag(b) => Some(*b),
            _ => None,
        }
    }

    /// The number in this member.
    pub fn integer(&self) -> (r: Option<i64>)
        ensures
            r == as_integer(self@),
    {
        match self {
            JsonField::Integer(n) => Some(*n),
            _ => None,
        }
    }

    /// The length of the list in this member.
    pub fn list_len(&self) -> (r: Option<usize>)
        ensures
            r == as_list_len(self@),
    {
        match self {
            JsonField::List(n) => Some(*n),
            _ => None,
        }
    }
}

/// A member gives what it holds, and nothing where something else is asked
/// for.
pub proof fn law_members(f: JsonFieldView, s: Seq<char>, b: bool, n: i64, len: usize)
    ensures
        as_text(JsonFieldView::Text(s)) == Some(s),
        as_flag(JsonFieldView::Flag(b)) == Some(b),
        as_integer(JsonFieldView::Integer(n)) == Some(n),
        as_list_len(JsonFieldView::List(len)) == Some(len),
        as_text(f) is Some ==> f is Text,
        as_flag(f) is Some ==> f is Flag,
        as_integer(f) is Some ==> f is Integer,
        as_list_len(f) is Some ==> f is List,
{
}

} // verus!
