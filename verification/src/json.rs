//! The JSON that crosses the worker's pipes, read and written by `serde_json`.
//!
//! Parsing hands back the members of the top-level object as plain values;
//! the lookups on them are verified here.

use vstd::prelude::*;

verus! {

/// What a member of a JSON object holds, as far as this crate reads it.
#[derive(Debug)]
pub enum JsonValue {
    Bool(bool),
    Text(String),
    /// A number, by the text `serde_json` prints for it.
    Number(String),
    /// Null, an array or a nested object.
    Other,
}

/// One member of a JSON object.
#[derive(Debug)]
pub struct JsonMember {
    pub key: String,
    pub value: JsonValue,
}

pub enum JsonValueView {
    Bool(bool),
    Text(Seq<char>),
    Number(Seq<char>),
    Other,
}

pub struct JsonMemberView {
    pub key: Seq<char>,
    pub value: JsonValueView,
}

impl View for JsonValue {
    type V = JsonValueView;

    open spec fn view(&self) -> JsonValueView {
        match self {
            JsonValue::Bool(b) => JsonValueView::Bool(*b),
            JsonValue::Text(t) => JsonValueView::Text(t@),
            JsonValue::Number(n) => JsonValueView::Number(n@),
            JsonValue::Other => JsonValueView::Other,
        }
    }
}

impl View for JsonMember {
    type V = JsonMemberView;

    open spec fn view(&self) -> JsonMemberView {
        JsonMemberView { key: self.key@, value: self.value@ }
    }
}

pub open spec fn members_view(members: Seq<JsonMember>) -> Seq<JsonMemberView> {
    members.map_values(|m: JsonMember| m@)
}

pub open spec fn parse_view(parsed: Result<Vec<JsonMember>, String>) -> Result<
    Seq<JsonMemberView>,
    Seq<char>,
> {
    match parsed {
        Ok(members) => Ok(members_view(members@)),
        Err(reason) => Err(reason@),
    }
}

pub open spec fn text_result_view(r: Result<String, String>) -> Result<Seq<char>, Seq<char>> {
    match r {
        Ok(t) => Ok(t@),
        Err(reason) => Err(reason@),
    }
}

pub open spec fn flag_result_view(r: Result<bool, String>) -> Result<bool, Seq<char>> {
    match r {
        Ok(flag) => Ok(flag),
        Err(reason) => Err(reason@),
    }
}

/// A JSON text, parsed: an object with its members, or any other value.
#[derive(Debug)]
pub enum JsonDocument {
    Object(Vec<JsonMember>),
    /// Null, a boolean, a number, a string or an array.
    Other,
}

pub enum JsonDocumentView {
    Object(Seq<JsonMemberView>),
    Other,
}

impl View for JsonDocument {
    type V = JsonDocumentView;

    open spec fn view(&self) -> JsonDocumentView {
        match self {
            JsonDocument::Object(members) => JsonDocumentView::Object(members_view(members@)),
            JsonDocument::Other => JsonDocumentView::Other,
        }
    }
}

pub open spec fn document_result_view(parsed: Result<JsonDocument, String>) -> Result<
    JsonDocumentView,
    Seq<char>,
> {
    match parsed {
        Ok(document) => Ok(document@),
        Err(reason) => Err(reason@),
    }
}

/// What `serde_json::from_str` makes of `text`: an object with its members in
/// the order the parsed map yields them, another value, or the parser's
/// error message when the text is not JSON.
pub uninterp spec fn parsed_json(text: Seq<char>) -> Result<JsonDocumentView, Seq<char>>;

/// The members that a document is read by: those of an object, none of any
/// other value.
pub open spec fn document_members(document: JsonDocumentView) -> Seq<JsonMemberView> {
    match document {
        JsonDocumentView::Object(members) => members,
        JsonDocumentView::Other => Seq::empty(),
    }
}

/// The members of the JSON text `text`, or the parser's error message when
/// it is not JSON.
pub open spec fn parsed_members(text: Seq<char>) -> Result<Seq<JsonMemberView>, Seq<char>> {
    match parsed_json(text) {
        Ok(document) => Ok(document_members(document)),
        Err(reason) => Err(reason),
    }
}

/// The JSON string literal that `serde_json::to_string` writes for `text`,
/// quotes included, or the serializer's error message.
pub uninterp spec fn quoted_json(text: Seq<char>) -> Result<Seq<char>, Seq<char>>;

/// Calls `serde_json::from_str` for a `serde_json::Value` and copies the
/// members of an object out of it. Claimed of it: the outcome depends on
/// `text` alone.
#[verifier::external_body]
fn parse_document(text: &str) -> (parsed: Result<JsonDocument, String>)
    ensures
        document_result_view(parsed) == parsed_json(text@),
{
    let value: serde_json::Value = serde_json::from_str(text).map_err(|e| e.to_string())?;
    Ok(match value {
        serde_json::Value::Object(map) => JsonDocument::Object(
            map.into_iter().map(|(key, value)| JsonMember { key, value: match value {
                serde_json::Value::Bool(b) => JsonValue::Bool(b),
                serde_json::Value::String(t) => JsonValue::Text(t),
                serde_json::Value::Number(n) => JsonValue::Number(n.to_string()),
                _ => JsonValue::Other,
            } }).collect(),
        ),
        _ => JsonDocument::Other,
    })
}

/// Calls `serde_json::to_string` on a string slice. Claimed of it: the outcome
/// depends on `text` alone, and a literal it writes holds no raw line feed
/// (JSON escapes control characters).
#[verifier::external_body]
pub(crate) fn quote_text(text: &str) -> (quoted: Result<String, String>)
    ensures
        text_result_view(quoted) == quoted_json(text@),
        quoted matches Ok(literal) ==> !literal@.contains('\n'),
{
    serde_json::to_string(text).map_err(|e| e.to_string())
}

/// The value of the first member of `members` named `key`.
pub open spec fn member_value(members: Seq<JsonMemberView>, key: Seq<char>) -> Option<
    JsonValueView,
>
    decreases members.len(),
{
    if members.len() == 0 {
        None
    } else if members[0].key == key {
        Some(members[0].value)
    } else {
        member_value(members.drop_first(), key)
    }
}

/// The text of the member `key`, when it is there and holds a string.
pub open spec fn text_member(members: Seq<JsonMemberView>, key: Seq<char>) -> Option<Seq<char>> {
    match member_value(members, key) {
        Some(JsonValueView::Text(t)) => Some(t),
        _ => None,
    }
}

/// The truth value of the member `key`, when it is there and holds a boolean.
pub open spec fn flag_member(members: Seq<JsonMemberView>, key: Seq<char>) -> Option<bool> {
    match member_value(members, key) {
        Some(JsonValueView::Bool(b)) => Some(b),
        _ => None,
    }
}

/// The printed number of the member `key`, when it is there and holds one.
pub open spec fn number_member(members: Seq<JsonMemberView>, key: Seq<char>) -> Option<
    Seq<char>,
> {
    match member_value(members, key) {
        Some(JsonValueView::Number(n)) => Some(n),
        _ => None,
    }
}

pub open spec fn optional_text_view(t: Option<String>) -> Option<Seq<char>> {
    match t {
        Some(t) => Some(t@),
        None => None,
    }
}

/// The members that a document is read by: those of an object, none of any
/// other value.
pub fn members_of(document: JsonDocument) -> (members: Vec<JsonMember>)
    ensures
        members_view(members@) == document_members(document@),
{
    match document {
        JsonDocument::Object(members) => members,
        JsonDocument::Other => {
            let members: Vec<JsonMember> = Vec::new();
            assert(members_view(members@) =~= Seq::<JsonMemberView>::empty());
            members
        },
    }
}

/// Parses `text` as JSON and hands out its members.
pub fn parse_object(text: &str) -> (parsed: Result<Vec<JsonMember>, String>)
    ensures
        parse_view(parsed) == parsed_members(text@),
{
    match parse_document(text) {
        Ok(document) => Ok(members_of(document)),
        Err(reason) => Err(reason),
    }
}

/// Position of the first member of `members` named `key`.
pub fn find_member(members: &Vec<JsonMember>, key: &str) -> (found: Option<usize>)
    ensures
        match found {
            Some(i) => i < members.len() && member_value(members_view(members@), key@) == Some(
                members[i as int].value@,
            ),
            None => member_value(members_view(members@), key@) is None,
        },
{
    let wanted = key.to_owned();
    let ghost all = members_view(members@);
    let mut i: usize = 0;
    assert(all.skip(0) =~= all);
    while i < members.len()
        invariant
            i <= members.len(),
            wanted@ == key@,
            all == members_view(members@),
            member_value(all, key@) == member_value(all.skip(i as int), key@),
        decreases members.len() - i,
    {
        assert(all.skip(i as int)[0] == members[i as int]@);
        if members[i].key == wanted {
            return Some(i);
        }
        assert(all.skip(i as int).drop_first() =~= all.skip(i + 1));
        i += 1;
    }
    None
}

/// The text of the member `key`, when it is there and holds a string.
pub fn find_text(members: &Vec<JsonMember>, key: &str) -> (found: Option<String>)
    ensures
        optional_text_view(found) == text_member(members_view(members@), key@),
{
    match find_member(members, key) {
        Some(i) => match &members[i].value {
            JsonValue::Text(t) => Some(t.clone()),
            _ => None,
        },
        None => None,
    }
}

/// The truth value of the member `key`, when it is there and holds a boolean.
pub fn find_flag(members: &Vec<JsonMember>, key: &str) -> (found: Option<bool>)
    ensures
        found == flag_member(members_view(members@), key@),
{
    match find_member(members, key) {
        Some(i) => match &members[i].value {
            JsonValue::Bool(b) => Some(*b),
            _ => None,
        },
        None => None,
    }
}

/// The printed number of the member `key`, when it is there and holds one.
pub fn find_number(members: &Vec<JsonMember>, key: &str) -> (found: Option<String>)
    ensures
        optional_text_view(found) == number_member(members_view(members@), key@),
{
    match find_member(members, key) {
        Some(i) => match &members[i].value {
            JsonValue::Number(n) => Some(n.clone()),
            _ => None,
        },
        None => None,
    }
}

} // verus!
