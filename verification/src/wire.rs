//! The documents that go over the wire: how a request is written.

use crate::client::{ChatRequest, ChatRequestView};
use crate::frame::{decode_call, decode_calls, decode_message};
use crate::json::{
    lemma_member_absent, lemma_member_found, written, Json, JsonView, Member, MemberView,
};
use crate::message::{
    call_views, lemma_role_name_round_trip, message_views, role_name, Message, MessageView,
    ToolCall, ToolCallView,
};
use crate::tools::{tool_views, Tool, ToolView};
use vstd::prelude::*;
use vstd::string::*;

verus! {

/// The member `key` with the value `value`.
pub open spec fn member(key: Seq<char>, value: JsonView) -> MemberView {
    MemberView { key, value }
}

/// The document of a tool call: the token `id`, where the call has one,
/// and under `function` the tool's `name` and its `arguments`.
pub open spec fn call_document(call: ToolCallView) -> JsonView {
    let function = JsonView::Object(
        seq![
            member("name"@, JsonView::Text(call.name)),
            member("arguments"@, call.arguments),
        ],
    );
    match call.call_id {
        Some(id) => JsonView::Object(
            seq![member("id"@, JsonView::Text(id)), member("function"@, function)],
        ),
        None => JsonView::Object(seq![member("function"@, function)]),
    }
}

/// The documents of `calls`, in order.
pub open spec fn call_documents(calls: Seq<ToolCallView>) -> Seq<JsonView> {
    calls.map_values(|call: ToolCallView| call_document(call))
}

/// The document of a turn: its `role`, its `content` and, where the turn
/// asks for tools, its `tool_calls`.
pub open spec fn message_document(turn: MessageView) -> JsonView {
    match turn.tool_calls {
        Some(calls) => JsonView::Object(
            seq![
                member("role"@, JsonView::Text(role_name(turn.role))),
                member("content"@, JsonView::Text(turn.content)),
                member("tool_calls"@, JsonView::Array(call_documents(calls))),
            ],
        ),
        None => JsonView::Object(
            seq![
                member("role"@, JsonView::Text(role_name(turn.role))),
                member("content"@, JsonView::Text(turn.content)),
            ],
        ),
    }
}

/// The documents of `turns`, in order.
pub open spec fn message_documents(turns: Seq<MessageView>) -> Seq<JsonView> {
    turns.map_values(|turn: MessageView| message_document(turn))
}

/// The document of a tool as it is told to the backend: a function with
/// its `name`, its `description` and the schema of its `parameters`.
pub open spec fn tool_document(tool: ToolView) -> JsonView {
    JsonView::Object(
        seq![
            member("type"@, JsonView::Text("function"@)),
            member(
                "function"@,
                JsonView::Object(
                    seq![
                        member("name"@, JsonView::Text(tool.name)),
                        member("description"@, JsonView::Text(tool.description)),
                        member("parameters"@, tool.parameters),
                    ],
                ),
            ),
        ],
    )
}

/// The documents of `tools`, in order.
pub open spec fn tool_documents(tools: Seq<ToolView>) -> Seq<JsonView> {
    tools.map_values(|tool: ToolView| tool_document(tool))
}

/// The document of a request: the `model`, the `messages`, whether to
/// `stream`, and the `tools` where any are offered.
pub open spec fn request_document(request: ChatRequestView) -> JsonView {
    match request.tools {
        Some(tools) => JsonView::Object(
            seq![
                member("model"@, JsonView::Text(request.model)),
                member("messages"@, JsonView::Array(message_documents(request.messages))),
                member("stream"@, JsonView::Bool(request.stream)),
                member("tools"@, JsonView::Array(tool_documents(tools))),
            ],
        ),
        None => JsonView::Object(
            seq![
                member("model"@, JsonView::Text(request.model)),
                member("messages"@, JsonView::Array(message_documents(request.messages))),
                member("stream"@, JsonView::Bool(request.stream)),
            ],
        ),
    }
}

/// A tool call that is written and read back is the same call.
pub proof fn lemma_call_round_trip(call: ToolCallView)
    ensures
        decode_call(call_document(call)) == Some(call),
{
    reveal_strlit("id");
    reveal_strlit("function");
    reveal_strlit("name");
    reveal_strlit("arguments");
    assert("id"@.len() == 2 && "function"@.len() == 8 && "name"@.len() == 4 && "arguments"@.len()
        == 9);
    let inner = seq![
        member("name"@, JsonView::Text(call.name)),
        member("arguments"@, call.arguments),
    ];
    let function = JsonView::Object(inner);
    lemma_member_found(inner, "name"@, 0);
    lemma_member_found(inner, "arguments"@, 1);
    match call.call_id {
        Some(id) => {
            let outer = seq![member("id"@, JsonView::Text(id)), member("function"@, function)];
            lemma_member_found(outer, "id"@, 0);
            lemma_member_found(outer, "function"@, 1);
        },
        None => {
            let outer = seq![member("function"@, function)];
            lemma_member_found(outer, "function"@, 0);
            lemma_member_absent(outer, "id"@);
        },
    }
}

/// A turn that is written and read back is the same turn.
pub proof fn lemma_message_round_trip(turn: MessageView)
    ensures
        decode_message(message_document(turn)) == Some(turn),
{
    reveal_strlit("role");
    reveal_strlit("content");
    reveal_strlit("tool_calls");
    assert("role"@.len() == 4 && "content"@.len() == 7 && "tool_calls"@.len() == 10);
    lemma_role_name_round_trip(turn.role);
    match turn.tool_calls {
        Some(calls) => {
            let items = call_documents(calls);
            let members = seq![
                member("role"@, JsonView::Text(role_name(turn.role))),
                member("content"@, JsonView::Text(turn.content)),
                member("tool_calls"@, JsonView::Array(items)),
            ];
            lemma_member_found(members, "role"@, 0);
            lemma_member_found(members, "content"@, 1);
            lemma_member_found(members, "tool_calls"@, 2);
            assert forall|i: int| 0 <= i < items.len() implies (#[trigger] decode_call(
                items[i],
            )) == Some(calls[i]) by {
                lemma_call_round_trip(calls[i]);
            }
            assert(decode_calls(items)->0 == calls);
        },
        None => {
            let members = seq![
                member("role"@, JsonView::Text(role_name(turn.role))),
                member("content"@, JsonView::Text(turn.content)),
            ];
            lemma_member_found(members, "role"@, 0);
            lemma_member_found(members, "content"@, 1);
            lemma_member_absent(members, "tool_calls"@);
        },
    }
}

/// Writes a tool call as a document.
pub fn call_to_json(call: &ToolCall) -> (json: Json)
    ensures
        json@ == call_document(call@),
{
    let mut inner: Vec<Member> = Vec::new();
    inner.push(Member::new("name", Json::text(call.name.as_str())));
    inner.push(Member::new("arguments", call.arguments.clone()));
    let function = Json::object(inner);
    assert(function@->Object_0 == seq![
        member("name"@, JsonView::Text(call.name@)),
        member("arguments"@, call.arguments@),
    ]);
    let mut outer: Vec<Member> = Vec::new();
    match &call.call_id {
        Some(id) => {
            outer.push(Member::new("id", Json::text(id.as_str())));
            outer.push(Member::new("function", function));
            let json = Json::object(outer);
            assert(json@->Object_0 == seq![
                member("id"@, JsonView::Text(id@)),
                member("function"@, function@),
            ]);
            json
        },
        None => {
            outer.push(Member::new("function", function));
            let json = Json::object(outer);
            assert(json@->Object_0 == seq![member("function"@, function@)]);
            json
        },
    }
}

/// Writes a turn as a document.
pub fn message_to_json(turn: &Message) -> (json: Json)
    ensures
        json@ == message_document(turn@),
{
    let mut members: Vec<Member> = Vec::new();
    members.push(Member::new("role", Json::text(turn.role.name())));
    members.push(Member::new("content", Json::text(turn.content.as_str())));
    match &turn.tool_calls {
        Some(calls) => {
            let mut items: Vec<Json> = Vec::new();
            let mut at: usize = 0;
            while at < calls.len()
                invariant
                    at <= calls.len(),
                    items.len() == at,
                    forall|i: int| 0 <= i < at ==> (#[trigger] items[i])@ == call_document(calls[i]@),
                decreases calls.len() - at,
            {
                items.push(call_to_json(&calls[at]));
                at = at + 1;
            }
            let list = Json::array(items);
            assert(list@->Array_0 == call_documents(call_views(calls@)));
            members.push(Member::new("tool_calls", list));
            let json = Json::object(members);
            assert(json@->Object_0 == seq![
                member("role"@, JsonView::Text(role_name(turn.role))),
                member("content"@, JsonView::Text(turn.content@)),
                member("tool_calls"@, list@),
            ]);
            json
        },
        None => {
            let json = Json::object(members);
            assert(json@->Object_0 == seq![
                member("role"@, JsonView::Text(role_name(turn.role))),
                member("content"@, JsonView::Text(turn.content@)),
            ]);
            json
        },
    }
}

/// Writes a tool as a document.
pub fn tool_to_json(tool: &Tool) -> (json: Json)
    ensures
        json@ == tool_document(tool@),
{
    let mut inner: Vec<Member> = Vec::new();
    inner.push(Member::new("name", Json::text(tool.name.as_str())));
    inner.push(Member::new("description", Json::text(tool.description.as_str())));
    inner.push(Member::new("parameters", tool.parameters.clone()));
    let function = Json::object(inner);
    assert(function@->Object_0 == seq![
        member("name"@, JsonView::Text(tool.name@)),
        member("description"@, JsonView::Text(tool.description@)),
        member("parameters"@, tool.parameters@),
    ]);
    let mut outer: Vec<Member> = Vec::new();
    outer.push(Member::new("type", Json::text("function")));
    outer.push(Member::new("function", function));
    let json = Json::object(outer);
    assert(json@->Object_0 == seq![
        member("type"@, JsonView::Text("function"@)),
        member("function"@, function@),
    ]);
    json
}

/// Writes a request as a document.
pub fn request_to_json(request: &ChatRequest) -> (json: Json)
    ensures
        json@ == request_document(request@),
{
    let mut turns: Vec<Json> = Vec::new();
    let mut at: usize = 0;
    while at < request.messages.len()
        invariant
            at <= request.messages.len(),
            turns.len() == at,
            forall|i: int|
                0 <= i < at ==> (#[trigger] turns[i])@ == message_document(request.messages[i]@),
        decreases request.messages.len() - at,
    {
        turns.push(message_to_json(&request.messages[at]));
        at = at + 1;
    }
    let messages = Json::array(turns);
    assert(messages@->Array_0 == message_documents(message_views(request.messages@)));
    let mut members: Vec<Member> = Vec::new();
    members.push(Member::new("model", Json::text(request.model.as_str())));
    members.push(Member::new("messages", messages));
    members.push(Member::new("stream", Json::Bool(request.stream)));
    match &request.tools {
        Some(tools) => {
            let mut items: Vec<Json> = Vec::new();
            let mut at: usize = 0;
            while at < tools.len()
                invariant
                    at <= tools.len(),
                    items.len() == at,
                    forall|i: int| 0 <= i < at ==> (#[trigger] items[i])@ == tool_document(tools[i]@),
                decreases tools.len() - at,
            {
                items.push(tool_to_json(&tools[at]));
                at = at + 1;
            }
            let offered = Json::array(items);
            assert(offered@->Array_0 == tool_documents(tool_views(tools@)));
            members.push(Member::new("tools", offered));
            let json = Json::object(members);
            assert(json@->Object_0 == seq![
                member("model"@, JsonView::Text(request.model@)),
                member("messages"@, messages@),
                member("stream"@, JsonView::Bool(request.stream)),
                member("tools"@, offered@),
            ]);
            json
        },
        None => {
            let json = Json::object(members);
            assert(json@->Object_0 == seq![
                member("model"@, JsonView::Text(request.model@)),
                member("messages"@, messages@),
                member("stream"@, JsonView::Bool(request.stream)),
            ]);
            json
        },
    }
}

/// The body of the request as it is sent: the text of its document.
pub fn request_body(request: &ChatRequest) -> (body: String)
    ensures
        body@ == written(request_document(request@)),
{
    request_to_json(request).to_text()
}

} // verus!
