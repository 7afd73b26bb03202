//! JSON documents as the library reads them.

use crate::text::same_text;
use vstd::prelude::*;
use vstd::string::*;

verus! {

/// A JSON document as a mathematical value.
pub enum JsonView {
    Null,
    Bool(bool),
    Number(Seq<char>),
    Text(Seq<char>),
    Array(Seq<JsonView>),
    Object(Seq<MemberView>),
}

/// A member of a JSON object as a mathematical value.
pub struct MemberView {
    pub key: Seq<char>,
    pub value: JsonView,
}

/// A JSON document. A number is held as its text. An object holds its
/// members in order; where several members have one key, the first of them
/// is the one that is found.
#[derive(Debug, PartialEq, Eq)]
pub enum Json {
    Null,
    Bool(bool),
    Number(String),
    Text(String),
    Array(Vec<Json>),
    Object(Vec<Member>),
}

/// A member of a JSON object.
#[derive(Debug, PartialEq, Eq)]
pub struct Member {
    pub key: String,
    pub value: Json,
}

impl View for Json {
    type V = JsonView;

    open spec fn view(&self) -> JsonView
        decreases self,
    {
        match self {
            Json::Null => JsonView::Null,
            Json::Bool(b) => JsonView::Bool(*b),
            Json::Number(n) => JsonView::Number(n@),
            Json::Text(t) => JsonView::Text(t@),
            Json::Array(items) => JsonView::Array(
                Seq::new(
                    items.len() as nat,
                    |i: int|
                        if 0 <= i < items.len() {
                            items[i].view()
                        } else {
                            JsonView::Null
                        },
                ),
            ),
            Json::Object(members) => JsonView::Object(
                Seq::new(
                    members.len() as nat,
                    |i: int|
                        if 0 <= i < members.len() {
                            MemberView { key: members[i].key@, value: members[i].value.view() }
                        } else {
                            MemberView { key: Seq::empty(), value: JsonView::Null }
                        },
                ),
            ),
        }
    }
}

/// The parser's own document type, carried from the parser to the
/// conversion and not looked into.
#[verifier::external_type_specification]
#[verifier::external_body]
pub struct ExValue(serde_json::Value);

/// The parser's error type.
#[verifier::external_type_specification]
#[verifier::external_body]
pub struct ExError(serde_json::Error);

/// What the parser makes of `text`: the document, if `text` is one JSON
/// document and nothing else, and else the parser's message.
pub uninterp spec fn parsed_document(text: Seq<char>) -> Result<JsonView, Seq<char>>;

/// The document that a value of the parser holds.
pub uninterp spec fn document_of(value: serde_json::Value) -> JsonView;

/// The message that an error of the parser writes.
pub uninterp spec fn fault_message(fault: serde_json::Error) -> Seq<char>;

/// What an outcome of the parser holds: the document of its value, or the
/// message of its error.
pub open spec fn read_view(
    outcome: Result<serde_json::Value, serde_json::Error>,
) -> Result<JsonView, Seq<char>> {
    match outcome {
        Ok(value) => Ok(document_of(value)),
        Err(fault) => Err(fault_message(fault)),
    }
}

/// Parses one JSON document.
///
/// Trusted: calls `serde_json::from_str` for `serde_json::Value`. The
/// contract names what the parser returns and claims only that the result,
/// the document or the message, depends on the text alone.
#[verifier::external_body]
fn read_document(text: &str) -> (outcome: Result<serde_json::Value, serde_json::Error>)
    ensures
        read_view(outcome) == parsed_document(text@),
{
    serde_json::from_str::<serde_json::Value>(text)
}

/// Copies a value of the parser into the library's own type, variant by
/// variant; a number becomes the text that the parser prints for it, an
/// object its members in the order in which the parser hands them out.
///
/// Trusted: matches on `serde_json::Value` and calls `Number::to_string` and
/// `Map::iter`. The contract names the document that the value holds.
#[verifier::external_body]
fn from_value(value: &serde_json::Value) -> (json: Json)
    ensures
        json@ == document_of(*value),
{
    match value {
        serde_json::Value::Null => Json::Null,
        serde_json::Value::Bool(b) => Json::Bool(*b),
        serde_json::Value::Number(n) => Json::Number(n.to_string()),
        serde_json::Value::String(t) => Json::Text(t.clone()),
        serde_json::Value::Array(items) => Json::Array(items.iter().map(from_value).collect()),
        serde_json::Value::Object(members) => Json::Object(
            members.iter().map(|(k, v)| Member { key: k.clone(), value: from_value(v) }).collect(),
        ),
    }
}

/// The parser's message for a text that it refused.
///
/// Trusted: calls `to_string` on `serde_json::Error`. The contract names
/// the message.
#[verifier::external_body]
fn fault_text(fault: &serde_json::Error) -> (text: String)
    ensures
        text@ == fault_message(*fault),
{
    fault.to_string()
}

/// The text that the serializer writes for `doc`, in its compact form.
pub uninterp spec fn written(doc: JsonView) -> Seq<char>;

/// The text that the serializer writes for a value of its own type.
pub uninterp spec fn value_text(value: serde_json::Value) -> Seq<char>;

/// Copies a document into the serializer's own type, variant by variant;
/// a number whose text the serializer does not read as one becomes `null`.
///
/// Trusted: builds a `serde_json::Value` and calls `Number::from_str` and
/// the `collect` of `Vec` and of `serde_json::Map`. The contract names the
/// text that the serializer writes for the result.
#[verifier::external_body]
fn to_value(json: &Json) -> (value: serde_json::Value)
    ensures
        value_text(value) == written(json@),
{
    match json {
        Json::Null => serde_json::Value::Null,
        Json::Bool(b) => serde_json::Value::Bool(*b),
        Json::Number(n) => n.parse().map_or(serde_json::Value::Null, serde_json::Value::Number),
        Json::Text(t) => serde_json::Value::String(t.clone()),
        Json::Array(items) => serde_json::Value::Array(items.iter().map(to_value).collect()),
        Json::Object(members) => serde_json::Value::Object(
            members.iter().map(|m| (m.key.clone(), to_value(&m.value))).collect(),
        ),
    }
}

/// Writes a value of the serializer as text.
///
/// Trusted: calls `to_string` on `serde_json::Value`, which writes the
/// compact form. The contract names the text.
#[verifier::external_body]
fn write_value(value: &serde_json::Value) -> (text: String)
    ensures
        text@ == value_text(*value),
{
    value.to_string()
}

/// What an outcome of parsing holds: the document, or the message.
pub open spec fn parse_view(outcome: Result<Json, String>) -> Result<JsonView, Seq<char>> {
    match outcome {
        Ok(json) => Ok(json@),
        Err(message) => Err(message@),
    }
}

/// Parses `text` as one JSON document. Fails, with the parser's message,
/// exactly when the parser refuses the text.
pub fn parse(text: &str) -> (outcome: Result<Json, String>)
    ensures
        parse_view(outcome) == parsed_document(text@),
{
    match read_document(text) {
        Ok(value) => Ok(from_value(&value)),
        Err(fault) => Err(fault_text(&fault)),
    }
}

/// The value of the first member of `members` whose key is `key`.
pub open spec fn find_member(members: Seq<MemberView>, key: Seq<char>) -> Option<
    JsonView,
>
    decreases members.len(),
{
    if members.len() == 0 {
        None
    } else if members[0].key == key {
        Some(members[0].value)
    } else {
        find_member(members.skip(1), key)
    }
}

impl JsonView {
    /// The member `key` of an object; nothing for any other document.
    pub open spec fn member(self, key: Seq<char>) -> Option<JsonView> {
        match self {
            JsonView::Object(members) => find_member(members, key),
            _ => None,
        }
    }

    /// The characters of a string; nothing for any other document.
    pub open spec fn text(self) -> Option<Seq<char>> {
        match self {
            JsonView::Text(t) => Some(t),
            _ => None,
        }
    }

    /// The value of a boolean; nothing for any other document.
    pub open spec fn boolean(self) -> Option<bool> {
        match self {
            JsonView::Bool(b) => Some(b),
            _ => None,
        }
    }

    /// The items of an array; nothing for any other document.
    pub open spec fn items(self) -> Option<Seq<JsonView>> {
        match self {
            JsonView::Array(items) => Some(items),
            _ => None,
        }
    }
}

/// Skipping members whose key differs does not change what is found.
pub proof fn lemma_find_member_skip(members: Seq<MemberView>, key: Seq<char>, n: int)
    requires
        0 <= n <= members.len(),
        forall|j: int| 0 <= j < n ==> members[j].key != key,
    ensures
        find_member(members, key) == find_member(members.skip(n), key),
    decreases n,
{
    if n > 0 {
        lemma_find_member_skip(members, key, n - 1);
        let rest = members.skip(n - 1);
        assert(rest[0] == members[n - 1]);
        assert(rest.skip(1) == members.skip(n));
    } else {
        assert(members.skip(0) == members);
    }
}

/// The member at index `n` is the one found where no member before it
/// has the key.
pub proof fn lemma_member_found(members: Seq<MemberView>, key: Seq<char>, n: int)
    requires
        0 <= n < members.len(),
        members[n].key == key,
        forall|j: int| 0 <= j < n ==> members[j].key != key,
    ensures
        find_member(members, key) == Some(members[n].value),
{
    lemma_find_member_skip(members, key, n);
    assert(members.skip(n)[0] == members[n]);
}

/// Nothing is found where no member has the key.
pub proof fn lemma_member_absent(members: Seq<MemberView>, key: Seq<char>)
    requires
        forall|j: int| 0 <= j < members.len() ==> members[j].key != key,
    ensures
        find_member(members, key) is None,
{
    lemma_find_member_skip(members, key, members.len() as int);
}

impl Member {
    /// The member `key` with the value `value`.
    pub fn new(key: &str, value: Json) -> (member: Member)
        ensures
            member.key@ == key@,
            member.value == value,
    {
        Member { key: String::from_str(key), value }
    }
}

impl Json {
    /// The string `text`.
    pub fn text(text: &str) -> (json: Json)
        ensures
            json@ == JsonView::Text(text@),
    {
        Json::Text(String::from_str(text))
    }

    /// The array of `items`.
    pub fn array(items: Vec<Json>) -> (json: Json)
        ensures
            json@ == JsonView::Array(views_of(items@)),
    {
        let json = Json::Array(items);
        assert(json@->Array_0 == views_of(items@));
        json
    }

    /// The object of `members`.
    pub fn object(members: Vec<Member>) -> (json: Json)
        ensures
            json@ == JsonView::Object(member_views(members@)),
    {
        let json = Json::Object(members);
        assert(json@->Object_0 == member_views(members@));
        json
    }

    /// The document as text, in the compact form of the serializer.
    pub fn to_text(&self) -> (text: String)
        ensures
            text@ == written(self@),
    {
        let value = to_value(self);
        write_value(&value)
    }

    /// The member `key` of an object: the first one, where several have
    /// that key.
    pub fn get(&self, key: &str) -> (found: Option<&Json>)
        ensures
            found is Some <==> self@.member(key@) is Some,
            found matches Some(value) ==> self@.member(key@) == Some(value@),
    {
        match self {
            Json::Object(members) => {
                let ghost all = self@->Object_0;
                assert(all == member_views(members@));
                assert(all.len() == members.len());
                let mut at: usize = 0;
                while at < members.len()
                    invariant
                        at <= members.len(),
                        all.len() == members.len(),
                        all == member_views(members@),
                        self@ == JsonView::Object(all),
                        forall|j: int| 0 <= j < at ==> all[j].key != key@,
                    decreases members.len() - at,
                {
                    if same_text(members[at].key.as_str(), key) {
                        proof {
                            lemma_find_member_skip(all, key@, at as int);
                            assert(all.skip(at as int)[0] == all[at as int]);
                            assert(all[at as int].value == members[at as int].value@);
                        }
                        return Some(&members[at].value);
                    }
                    at = at + 1;
                }
                proof {
                    lemma_find_member_skip(all, key@, all.len() as int);
                }
                None
            },
            _ => None,
        }
    }

    /// The characters of a string.
    pub fn as_str(&self) -> (found: Option<&str>)
        ensures
            found is Some <==> self@.text() is Some,
            found matches Some(t) ==> self@.text() == Some(t@),
    {
        match self {
            Json::Text(t) => Some(t.as_str()),
            _ => None,
        }
    }

    /// The value of a boolean.
    pub fn as_bool(&self) -> (found: Option<bool>)
        ensures
            found == self@.boolean(),
    {
        match self {
            Json::Bool(b) => Some(*b),
            _ => None,
        }
    }

    /// The items of an array.
    pub fn as_array(&self) -> (found: Option<&Vec<Json>>)
        ensures
            found is Some <==> self@.items() is Some,
            found matches Some(items) ==> self@.items() == Some(views_of(items@)),
    {
        match self {
            Json::Array(items) => {
                assert(self@->Array_0 == views_of(items@));
                Some(items)
            },
            _ => None,
        }
    }

    /// Whether the document is `null`.
    pub fn is_null(&self) -> (null: bool)
        ensures
            null == (self@ is Null),
    {
        match self {
            Json::Null => true,
            _ => false,
        }
    }
}

/// The keys and documents that `members` hold, in order.
pub open spec fn member_views(members: Seq<Member>) -> Seq<MemberView> {
    Seq::new(members.len(), |i: int| MemberView { key: members[i].key@, value: members[i].value@ })
}

impl Clone for Json {
    /// A copy that holds the same document.
    #[verifier::loop_isolation(false)]
    fn clone(&self) -> (copy: Json)
        ensures
            copy@ == self@,
        decreases self,
    {
        match self {
            Json::Null => Json::Null,
            Json::Bool(b) => Json::Bool(*b),
            Json::Number(n) => Json::Number(n.clone()),
            Json::Text(t) => Json::Text(t.clone()),
            Json::Array(items) => {
                let mut copies: Vec<Json> = Vec::new();
                let mut at: usize = 0;
                while at < items.len()
                    invariant
                        at <= items.len(),
                        copies.len() == at,
                        forall|i: int| 0 <= i < at ==> copies[i]@ == items[i]@,
                    decreases items.len() - at,
                {
                    copies.push(items[at].clone());
                    at = at + 1;
                }
                assert(views_of(copies@) == views_of(items@));
                let copy = Json::Array(copies);
                assert(self@->Array_0 == views_of(items@));
                assert(copy@->Array_0 == views_of(copies@));
                copy
            },
            Json::Object(members) => {
                let mut copies: Vec<Member> = Vec::new();
                let mut at: usize = 0;
                while at < members.len()
                    invariant
                        at <= members.len(),
                        copies.len() == at,
                        forall|i: int|
                            0 <= i < at ==> copies[i].key@ == members[i].key@ && copies[i].value@
                                == members[i].value@,
                    decreases members.len() - at,
                {
                    let copy = Member {
                        key: members[at].key.clone(),
                        value: members[at].value.clone(),
                    };
                    copies.push(copy);
                    at = at + 1;
                }
                assert(member_views(copies@) == member_views(members@));
                let copy = Json::Object(copies);
                assert(self@->Object_0 == member_views(members@));
                assert(copy@->Object_0 == member_views(copies@));
                copy
            },
        }
    }
}

/// The documents that `items` hold, in order.
pub open spec fn views_of(items: Seq<Json>) -> Seq<JsonView> {
    Seq::new(items.len(), |i: int| items[i]@)
}

} // verus!
