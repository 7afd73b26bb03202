//! The turns of a conversation.

use crate::json::{Json, JsonView};
use crate::text::same_text;
use vstd::prelude::*;
use vstd::string::*;

verus! {

/// Who speaks in a turn.
#[derive(Clone, Copy, Debug, PartialEq, Eq, Structural)]
pub enum Role {
    User,
    Assistant,
    Tool,
    System,
}

/// The name under which the protocol writes `role`.
pub open spec fn role_name(role: Role) -> Seq<char> {
    match role {
        Role::User => "user"@,
        Role::Assistant => "assistant"@,
        Role::Tool => "tool"@,
        Role::System => "system"@,
    }
}

/// The role that the protocol writes as `name`.
pub open spec fn role_named(name: Seq<char>) -> Option<Role> {
    if name == "user"@ {
        Some(Role::User)
    } else if name == "assistant"@ {
        Some(Role::Assistant)
    } else if name == "tool"@ {
        Some(Role::Tool)
    } else if name == "system"@ {
        Some(Role::System)
    } else {
        None
    }
}

impl Role {
    /// The name under which the protocol writes the role.
    pub fn name(&self) -> (name: &'static str)
        ensures
            name@ == role_name(*self),
    {
        match self {
            Role::User => "user",
            Role::Assistant => "assistant",
            Role::Tool => "tool",
            Role::System => "system",
        }
    }

    /// The role that the protocol writes as `name`; nothing for any other
    /// name.
    pub fn from_name(name: &str) -> (role: Option<Role>)
        ensures
            role == role_named(name@),
    {
        if same_text(name, "user") {
            Some(Role::User)
        } else if same_text(name, "assistant") {
            Some(Role::Assistant)
        } else if same_text(name, "tool") {
            Some(Role::Tool)
        } else if same_text(name, "system") {
            Some(Role::System)
        } else {
            None
        }
    }
}

/// Each role is the role that its name names.
pub proof fn lemma_role_name_round_trip(role: Role)
    ensures
        role_named(role_name(role)) == Some(role),
{
    reveal_strlit("user");
    reveal_strlit("assistant");
    reveal_strlit("tool");
    reveal_strlit("system");
    assert("user"@.len() == 4 && "assistant"@.len() == 9 && "tool"@.len() == 4 && "system"@.len()
        == 6);
    assert("user"@[0] == 'u' && "tool"@[0] == 't');
}

/// A request of the model to run a tool, as a mathematical value.
pub struct ToolCallView {
    pub call_id: Option<Seq<char>>,
    pub name: Seq<char>,
    pub arguments: JsonView,
}

/// A request of the model to run a tool: the tool's name, the arguments for
/// it, and the token by which the backend tells the calls apart, where it
/// sent one.
#[derive(Debug, PartialEq, Eq)]
pub struct ToolCall {
    pub call_id: Option<String>,
    pub name: String,
    pub arguments: Json,
}

impl View for ToolCall {
    type V = ToolCallView;

    open spec fn view(&self) -> ToolCallView {
        ToolCallView {
            call_id: match self.call_id {
                Some(id) => Some(id@),
                None => None,
            },
            name: self.name@,
            arguments: self.arguments@,
        }
    }
}

impl Clone for ToolCall {
    /// A copy that holds the same request.
    fn clone(&self) -> (copy: ToolCall)
        ensures
            copy@ == self@,
    {
        ToolCall {
            call_id: match &self.call_id {
                Some(id) => Some(id.clone()),
                None => None,
            },
            name: self.name.clone(),
            arguments: self.arguments.clone(),
        }
    }
}

/// The requests that `calls` hold, in order.
pub open spec fn call_views(calls: Seq<ToolCall>) -> Seq<ToolCallView> {
    calls.map_values(|call: ToolCall| call@)
}

/// A copy of `calls` that holds the same requests.
pub fn clone_calls(calls: &Vec<ToolCall>) -> (copies: Vec<ToolCall>)
    ensures
        call_views(copies@) == call_views(calls@),
{
    let mut copies: Vec<ToolCall> = Vec::new();
    let mut at: usize = 0;
    while at < calls.len()
        invariant
            at <= calls.len(),
            copies.len() == at,
            forall|i: int| 0 <= i < at ==> copies[i]@ == calls[i]@,
        decreases calls.len() - at,
    {
        copies.push(calls[at].clone());
        at = at + 1;
    }
    assert(call_views(copies@) == call_views(calls@));
    copies
}

/// A turn of the conversation as a mathematical value.
pub struct MessageView {
    pub role: Role,
    pub content: Seq<char>,
    pub tool_calls: Option<Seq<ToolCallView>>,
}

/// A turn of the conversation: who speaks, the text, and, on a turn in
/// which the assistant asks for tools, its requests in order.
#[derive(Debug, PartialEq, Eq)]
pub struct Message {
    pub role: Role,
    pub content: String,
    pub tool_calls: Option<Vec<ToolCall>>,
}

impl View for Message {
    type V = MessageView;

    open spec fn view(&self) -> MessageView {
        MessageView {
            role: self.role,
            content: self.content@,
            tool_calls: match self.tool_calls {
                Some(calls) => Some(call_views(calls@)),
                None => None,
            },
        }
    }
}

impl Clone for Message {
    /// A copy that holds the same turn.
    fn clone(&self) -> (copy: Message)
        ensures
            copy@ == self@,
    {
        Message {
            role: self.role,
            content: self.content.clone(),
            tool_calls: match &self.tool_calls {
                Some(calls) => Some(clone_calls(calls)),
                None => None,
            },
        }
    }
}

impl Message {
    /// A turn of `role` that says `content` and asks for no tool.
    pub fn new(role: Role, content: &str) -> (turn: Message)
        ensures
            turn@ == (MessageView { role, content: content@, tool_calls: None }),
    {
        Message { role, content: String::from_str(content), tool_calls: None }
    }

    /// A turn of the user.
    pub fn user(content: &str) -> (turn: Message)
        ensures
            turn@ == (MessageView { role: Role::User, content: content@, tool_calls: None }),
    {
        Message::new(Role::User, content)
    }

    /// A turn that carries the result of one tool call.
    pub fn tool(content: &str) -> (turn: Message)
        ensures
            turn@ == (MessageView { role: Role::Tool, content: content@, tool_calls: None }),
    {
        Message::new(Role::Tool, content)
    }

    /// A turn of the assistant: its text and, where `calls` is not empty,
    /// its requests for tools.
    pub fn assistant(content: &str, calls: Vec<ToolCall>) -> (turn: Message)
        ensures
            turn@ == (MessageView {
                role: Role::Assistant,
                content: content@,
                tool_calls: if calls.len() == 0 {
                    None
                } else {
                    Some(call_views(calls@))
                },
            }),
    {
        let tool_calls = if calls.len() == 0 {
            None
        } else {
            Some(calls)
        };
        Message { role: Role::Assistant, content: String::from_str(content), tool_calls }
    }

    /// Whether the turn asks for at least one tool.
    pub fn asks_for_tools(&self) -> (asks: bool)
        ensures
            asks == requests_tools(self@),
    {
        match &self.tool_calls {
            Some(calls) => {
                assert(call_views(calls@).len() == calls.len());
                calls.len() > 0
            },
            None => false,
        }
    }
}

/// Whether `turn` asks for at least one tool.
pub open spec fn requests_tools(turn: MessageView) -> bool {
    turn.tool_calls matches Some(calls) && calls.len() > 0
}

/// The turns that `turns` hold, in order.
pub open spec fn message_views(turns: Seq<Message>) -> Seq<MessageView> {
    turns.map_values(|turn: Message| turn@)
}

/// A copy of `turns` that holds the same turns.
pub fn clone_messages(turns: &Vec<Message>) -> (copies: Vec<Message>)
    ensures
        message_views(copies@) == message_views(turns@),
{
    let mut copies: Vec<Message> = Vec::new();
    let mut at: usize = 0;
    while at < turns.len()
        invariant
            at <= turns.len(),
            copies.len() == at,
            forall|i: int| 0 <= i < at ==> copies[i]@ == turns[i]@,
        decreases turns.len() - at,
    {
        copies.push(turns[at].clone());
        at = at + 1;
    }
    assert(message_views(copies@) == message_views(turns@));
    copies
}

} // verus!
