use brain::json::Json;
use brain::message::{clone_messages, Message, Role, ToolCall};

#[test]
fn roles_have_the_names_of_the_protocol() {
    assert_eq!(Role::User.name(), "user");
    assert_eq!(Role::Assistant.name(), "assistant");
    assert_eq!(Role::Tool.name(), "tool");
    assert_eq!(Role::System.name(), "system");
    for role in [Role::User, Role::Assistant, Role::Tool, Role::System] {
        assert_eq!(Role::from_name(role.name()), Some(role));
    }
    assert_eq!(Role::from_name("User"), None);
    assert_eq!(Role::from_name(""), None);
}

#[test]
fn an_assistant_turn_without_calls_asks_for_no_tools() {
    let turn = Message::assistant("hello", Vec::new());
    assert_eq!(turn.role, Role::Assistant);
    assert_eq!(turn.content, "hello");
    assert_eq!(turn.tool_calls, None);
    assert!(!turn.asks_for_tools());
}

#[test]
fn an_assistant_turn_with_calls_asks_for_tools() {
    let call = ToolCall { call_id: None, name: "calculator".to_string(), arguments: Json::Null };
    let turn = Message::assistant("", vec![call.clone()]);
    assert!(turn.asks_for_tools());
    assert_eq!(turn.tool_calls, Some(vec![call]));
}

#[test]
fn copies_hold_the_same_turns() {
    let turns = vec![Message::user("hi"), Message::tool("3"), Message::new(Role::System, "be brief")];
    assert_eq!(clone_messages(&turns), turns);
    assert_eq!(turns[0].clone(), turns[0]);
}
