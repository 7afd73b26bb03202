//! The frames of a streamed response: one JSON document per line.

use crate::json::{views_of, Json, JsonView};
use crate::message::{call_views, role_named, Message, MessageView, Role, ToolCall, ToolCallView};
use vstd::prelude::*;
use vstd::string::*;

verus! {

/// One frame of a streamed response as a mathematical value.
pub struct FrameView {
    pub model: Seq<char>,
    pub created_at: Seq<char>,
    pub message: MessageView,
    pub done: bool,
    pub done_reason: Option<Seq<char>>,
}

/// One frame of a streamed response: a fragment of the assistant's turn,
/// whether it is the last one, and, on the last one, why the model stopped.
#[derive(Debug, PartialEq, Eq)]
pub struct ChatResponse {
    pub model: String,
    pub created_at: String,
    pub message: Message,
    pub done: bool,
    pub done_reason: Option<String>,
}

impl View for ChatResponse {
    type V = FrameView;

    open spec fn view(&self) -> FrameView {
        FrameView {
            model: self.model@,
            created_at: self.created_at@,
            message: self.message@,
            done: self.done,
            done_reason: match self.done_reason {
                Some(reason) => Some(reason@),
                None => None,
            },
        }
    }
}

/// The string that the member `key` of `doc` holds; nothing where `doc`
/// has no such member or the member is no string.
pub open spec fn text_member(doc: JsonView, key: Seq<char>) -> Option<Seq<char>> {
    match doc.member(key) {
        Some(value) => value.text(),
        None => None,
    }
}

/// The string of a member that may be left out: no string where `doc` has
/// no member `key` or holds `null` there, the string where it holds one,
/// and nothing at all where it holds anything else.
pub open spec fn optional_text_member(doc: JsonView, key: Seq<char>) -> Option<Option<Seq<char>>> {
    match doc.member(key) {
        None => Some(None),
        Some(JsonView::Null) => Some(None),
        Some(JsonView::Text(t)) => Some(Some(t)),
        Some(_) => None,
    }
}

/// The tool call that `doc` writes: an object whose member `function` holds
/// the tool's `name` and its `arguments`, and whose member `id`, where it is
/// there, holds the call's token.
pub open spec fn decode_call(doc: JsonView) -> Option<ToolCallView> {
    match doc.member("function"@) {
        Some(function) => match (
            text_member(function, "name"@),
            function.member("arguments"@),
            optional_text_member(doc, "id"@),
        ) {
            (Some(name), Some(arguments), Some(call_id)) => Some(
                ToolCallView { call_id, name, arguments },
            ),
            _ => None,
        },
        None => None,
    }
}

/// The tool calls that `items` write, if each of them writes one.
pub open spec fn decode_calls(items: Seq<JsonView>) -> Option<Seq<ToolCallView>> {
    if forall|i: int| 0 <= i < items.len() ==> (#[trigger] decode_call(items[i])) is Some {
        Some(Seq::new(items.len(), |i: int| decode_call(items[i])->0))
    } else {
        None
    }
}

/// The tool calls of a turn: none where `doc` has no member `tool_calls` or
/// holds `null` there, the calls where it holds an array of calls, and
/// nothing at all where it holds anything else.
pub open spec fn decode_optional_calls(doc: JsonView) -> Option<Option<Seq<ToolCallView>>> {
    match doc.member("tool_calls"@) {
        None => Some(None),
        Some(JsonView::Null) => Some(None),
        Some(JsonView::Array(items)) => match decode_calls(items) {
            Some(calls) => Some(Some(calls)),
            None => None,
        },
        Some(_) => None,
    }
}

/// The turn that `doc` writes: an object with a `role` that the protocol
/// knows, a `content` string and, where the assistant asks for tools, its
/// `tool_calls`.
pub open spec fn decode_message(doc: JsonView) -> Option<MessageView> {
    match (text_member(doc, "role"@), text_member(doc, "content"@), decode_optional_calls(doc)) {
        (Some(name), Some(content), Some(tool_calls)) => match role_named(name) {
            Some(role) => Some(MessageView { role, content, tool_calls }),
            None => None,
        },
        _ => None,
    }
}

/// The frame that `doc` writes: an object with the strings `model` and
/// `created_at`, the turn fragment `message`, the boolean `done` and, where
/// it is there, the string `done_reason`. Members beyond these are ignored.
pub open spec fn decode_frame(doc: JsonView) -> Option<FrameView> {
    match (
        text_member(doc, "model"@),
        text_member(doc, "created_at"@),
        doc.member("message"@),
        doc.member("done"@),
        optional_text_member(doc, "done_reason"@),
    ) {
        (Some(model), Some(created_at), Some(message), Some(JsonView::Bool(done)), Some(done_reason)) =>
            match decode_message(message) {
            Some(message) => Some(FrameView { model, created_at, message, done, done_reason }),
            None => None,
        },
        _ => None,
    }
}

/// The message by which the backend says that it failed: the string that
/// the member `error` of `doc` holds.
pub open spec fn decode_backend_error(doc: JsonView) -> Option<Seq<char>> {
    text_member(doc, "error"@)
}

/// The string that the member `key` of `doc` holds.
pub fn read_text(doc: &Json, key: &str) -> (found: Option<String>)
    ensures
        found is Some <==> text_member(doc@, key@) is Some,
        found matches Some(t) ==> text_member(doc@, key@) == Some(t@),
{
    match doc.get(key) {
        Some(value) => match value.as_str() {
            Some(t) => Some(String::from_str(t)),
            None => None,
        },
        None => None,
    }
}

/// The string of a member of `doc` that may be left out.
pub fn read_optional_text(doc: &Json, key: &str) -> (found: Option<Option<String>>)
    ensures
        found is Some <==> optional_text_member(doc@, key@) is Some,
        found matches Some(None) ==> optional_text_member(doc@, key@) == Some(
            None::<Seq<char>>,
        ),
        found matches Some(Some(t)) ==> optional_text_member(doc@, key@) == Some(Some(t@)),
{
    match doc.get(key) {
        None => Some(None),
        Some(value) => match value {
            Json::Null => Some(None),
            Json::Text(t) => Some(Some(t.clone())),
            _ => None,
        },
    }
}

/// Reads one tool call.
pub fn read_call(doc: &Json) -> (found: Option<ToolCall>)
    ensures
        found is Some <==> decode_call(doc@) is Some,
        found matches Some(call) ==> decode_call(doc@) == Some(call@),
{
    let function = match doc.get("function") {
        Some(function) => function,
        None => { return None; },
    };
    let name = match read_text(function, "name") {
        Some(name) => name,
        None => { return None; },
    };
    let arguments = match function.get("arguments") {
        Some(arguments) => arguments.clone(),
        None => { return None; },
    };
    let call_id = match read_optional_text(doc, "id") {
        Some(call_id) => call_id,
        None => { return None; },
    };
    Some(ToolCall { call_id, name, arguments })
}

/// Reads the tool calls that an array holds.
pub fn read_calls(items: &Vec<Json>) -> (found: Option<Vec<ToolCall>>)
    ensures
        found is Some <==> decode_calls(views_of(items@)) is Some,
        found matches Some(calls) ==> decode_calls(views_of(items@)) == Some(call_views(calls@)),
{
    let ghost docs = views_of(items@);
    let mut calls: Vec<ToolCall> = Vec::new();
    let mut at: usize = 0;
    while at < items.len()
        invariant
            at <= items.len(),
            docs == views_of(items@),
            calls.len() == at,
            forall|i: int| 0 <= i < at ==> decode_call(docs[i]) == Some(#[trigger] calls[i]@),
        decreases items.len() - at,
    {
        match read_call(&items[at]) {
            Some(call) => {
                calls.push(call);
            },
            None => {
                assert(decode_call(docs[at as int]) is None);
                return None;
            },
        }
        at = at + 1;
    }
    assert forall|i: int| 0 <= i < docs.len() implies (#[trigger] decode_call(docs[i])) is Some by {
        assert(decode_call(docs[i]) == Some(calls[i]@));
    }
    assert(decode_calls(docs)->0 == call_views(calls@));
    Some(calls)
}

/// Reads the turn fragment of a frame.
pub fn read_message(doc: &Json) -> (found: Option<Message>)
    ensures
        found is Some <==> decode_message(doc@) is Some,
        found matches Some(turn) ==> decode_message(doc@) == Some(turn@),
{
    let name = match read_text(doc, "role") {
        Some(name) => name,
        None => { return None; },
    };
    let content = match read_text(doc, "content") {
        Some(content) => content,
        None => { return None; },
    };
    let tool_calls = match doc.get("tool_calls") {
        None => None,
        Some(value) => match value {
            Json::Null => None,
            Json::Array(items) => {
                assert(value@->Array_0 == views_of(items@));
                match read_calls(items) {
                    Some(calls) => Some(calls),
                    None => { return None; },
                }
            },
            _ => { return None; },
        },
    };
    match Role::from_name(name.as_str()) {
        Some(role) => Some(Message { role, content, tool_calls }),
        None => None,
    }
}

/// Reads one frame.
pub fn read_frame(doc: &Json) -> (found: Option<ChatResponse>)
    ensures
        found is Some <==> decode_frame(doc@) is Some,
        found matches Some(frame) ==> decode_frame(doc@) == Some(frame@),
{
    let model = match read_text(doc, "model") {
        Some(model) => model,
        None => { return None; },
    };
    let created_at = match read_text(doc, "created_at") {
        Some(created_at) => created_at,
        None => { return None; },
    };
    let message = match doc.get("message") {
        Some(value) => match read_message(value) {
            Some(message) => message,
            None => { return None; },
        },
        None => { return None; },
    };
    let done = match doc.get("done") {
        Some(value) => match value.as_bool() {
            Some(done) => done,
            None => { return None; },
        },
        None => { return None; },
    };
    let done_reason = match read_optional_text(doc, "done_reason") {
        Some(done_reason) => done_reason,
        None => { return None; },
    };
    Some(ChatResponse { model, created_at, message, done, done_reason })
}

} // verus!
