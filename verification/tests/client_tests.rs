use brain::client::{create_tools, OllamaClient};
use brain::json::Json;
use brain::message::{Message, Role, ToolCall};

#[test]
fn the_client_names_the_local_server_where_none_is_given() {
    let client = OllamaClient::new(None);
    assert_eq!(client.base_url(), "http://localhost:11434");
    assert_eq!(client.chat_url(), "http://localhost:11434/api/chat");
    let client = OllamaClient::new(Some("http://10.0.0.2:8000".to_string()));
    assert_eq!(client.chat_url(), "http://10.0.0.2:8000/api/chat");
    assert_eq!(client.clone().base_url(), "http://10.0.0.2:8000");
}

#[test]
fn a_request_carries_the_conversation_and_the_tools() {
    let client = OllamaClient::new(None);
    let request = client.chat_stream_with_tools(vec![Message::user("hi")], "qwen", Some(create_tools()));
    assert_eq!(request.model, "qwen");
    assert_eq!(request.messages, vec![Message::user("hi")]);
    assert!(request.stream);
    assert_eq!(request.tools, Some(create_tools()));
    let request = client.chat_stream_with_tools(Vec::new(), "qwen", None);
    assert_eq!(request.tools, None);
    assert!(request.messages.is_empty());
}

#[test]
fn a_whole_response_reads_the_same_however_it_is_cut() {
    let body = "{\"model\":\"m\",\"created_at\":\"t\",\"message\":{\"role\":\"assistant\",\"content\":\"Hel\"},\"done\":false}\n\n{\"model\":\"m\",\"created_at\":\"t\",\"message\":{\"role\":\"assistant\",\"content\":\"lo\"},\"done\":true}\n";
    let client = OllamaClient::new(None);
    let whole = client.chat_stream_with_tools_impl(&vec![body.as_bytes().to_vec()]);
    assert_eq!(whole.shown, "Hello");
    assert_eq!(whole.turn, Message::assistant("Hello", Vec::new()));
    assert_eq!(whole.fault, None);
    assert!(whole.diagnostics.is_empty());
    for size in 1..body.len() {
        let chunks: Vec<Vec<u8>> = body.as_bytes().chunks(size).map(|chunk| chunk.to_vec()).collect();
        let outcome = client.chat_stream_with_tools_impl(&chunks);
        assert_eq!(outcome.shown, "Hello");
        assert_eq!(outcome.turn, whole.turn);
        assert_eq!(outcome.fault, None);
    }
    let nothing = client.chat_stream_with_tools_impl(&Vec::new());
    assert_eq!(nothing.turn, Message::assistant("", Vec::new()));
}

#[test]
fn a_whole_response_may_end_in_a_failure_of_the_backend() {
    let body = "{\"model\":\"m\",\"created_at\":\"t\",\"message\":{\"role\":\"assistant\",\"content\":\"Hel\"},\"done\":false}\nnoise\n{\"error\":\"boom\"}";
    let outcome = OllamaClient::new(None).chat_stream_with_tools_impl(&vec![body.as_bytes().to_vec()]);
    assert_eq!(outcome.shown, "Hel");
    assert_eq!(outcome.fault, Some("boom".to_string()));
    assert_eq!(outcome.diagnostics.len(), 1);
}

#[test]
fn the_request_after_a_tool_pass_holds_the_asking_turn_and_the_results() {
    let calls = vec![
        ToolCall { call_id: Some("1".to_string()), name: "get_weather".to_string(), arguments: Json::Null },
        ToolCall { call_id: None, name: "calculate".to_string(), arguments: Json::Null },
    ];
    let request = OllamaClient::new(None).handle_tool_results(
        vec![Message::user("go")],
        calls.clone(),
        vec!["Weather in Unknown: Sunny, 22°C".to_string(), "5".to_string()],
        "qwen",
    );
    assert_eq!(request.model, "qwen");
    assert!(request.stream);
    assert_eq!(request.tools, None);
    assert_eq!(request.messages.len(), 4);
    assert_eq!(request.messages[0], Message::user("go"));
    assert_eq!(request.messages[1].role, Role::Assistant);
    assert_eq!(request.messages[1].content, "");
    assert_eq!(request.messages[1].tool_calls, Some(calls));
    assert_eq!(request.messages[2], Message::tool("Weather in Unknown: Sunny, 22°C"));
    assert_eq!(request.messages[3], Message::tool("5"));
}
