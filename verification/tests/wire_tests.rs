use brain::client::{create_tools, OllamaClient};
use brain::frame::{read_call, read_message};
use brain::json::{parse, Json, Member};
use brain::message::{Message, Role, ToolCall};
use brain::wire::{call_to_json, message_to_json, request_body, request_to_json, tool_to_json};

#[test]
fn a_document_is_written_in_the_compact_form() {
    assert_eq!(Json::Null.to_text(), "null");
    assert_eq!(Json::Bool(true).to_text(), "true");
    assert_eq!(Json::text("a\"b\n").to_text(), "\"a\\\"b\\n\"");
    assert_eq!(Json::Number("12".to_string()).to_text(), "12");
    assert_eq!(Json::Number("-1.5".to_string()).to_text(), "-1.5");
    assert_eq!(Json::Number("twelve".to_string()).to_text(), "null");
    assert_eq!(Json::array(vec![Json::Null, Json::Bool(false)]).to_text(), "[null,false]");
    assert_eq!(Json::object(vec![Member::new("k", Json::text("v"))]).to_text(), "{\"k\":\"v\"}");
}

#[test]
fn what_is_written_reads_back_as_the_same_document() {
    let text = "{\"a\":[1,2.5,\"x\",null,true],\"b\":{\"c\":\"d\"}}";
    let doc = parse(text).unwrap();
    assert_eq!(parse(&doc.to_text()).unwrap(), doc);
}

#[test]
fn a_tool_call_reads_back_as_written() {
    for call in [
        ToolCall { call_id: None, name: "calculator".to_string(), arguments: parse("{\"formula\":\"1+2\"}").unwrap() },
        ToolCall { call_id: Some("call-7".to_string()), name: "get_weather".to_string(), arguments: Json::Null },
    ] {
        let doc = call_to_json(&call);
        assert_eq!(read_call(&doc), Some(call.clone()));
        assert_eq!(read_call(&parse(&doc.to_text()).unwrap()), Some(call));
    }
}

#[test]
fn a_turn_reads_back_as_written() {
    let call = ToolCall { call_id: None, name: "calculator".to_string(), arguments: parse("{\"formula\":\"1+2\"}").unwrap() };
    for turn in [
        Message::user("hello \"you\""),
        Message::tool("3"),
        Message::new(Role::System, ""),
        Message::assistant("", vec![call.clone(), call]),
        Message::assistant("plain", Vec::new()),
    ] {
        let doc = message_to_json(&turn);
        assert_eq!(read_message(&doc), Some(turn.clone()));
        assert_eq!(read_message(&parse(&doc.to_text()).unwrap()), Some(turn));
    }
}

#[test]
fn a_turn_without_tool_calls_writes_none() {
    let doc = parse(&message_to_json(&Message::user("hi")).to_text()).unwrap();
    assert_eq!(doc.get("role").unwrap().as_str(), Some("user"));
    assert_eq!(doc.get("content").unwrap().as_str(), Some("hi"));
    assert!(doc.get("tool_calls").is_none());
}

#[test]
fn a_tool_is_told_as_a_function() {
    let doc = tool_to_json(&create_tools()[0]);
    assert_eq!(doc.get("type").unwrap().as_str(), Some("function"));
    let function = doc.get("function").unwrap();
    assert_eq!(function.get("name").unwrap().as_str(), Some("get_weather"));
    assert_eq!(function.get("description").unwrap().as_str(), Some("Get current weather information for a location"));
    assert_eq!(function.get("parameters").unwrap().get("type").unwrap().as_str(), Some("object"));
    assert_eq!(
        function.get("parameters").unwrap().get("required").unwrap().as_array().unwrap(),
        &vec![Json::text("location")]
    );
}

#[test]
fn the_body_of_a_request_holds_model_messages_stream_and_tools() {
    let client = OllamaClient::new(None);
    let request = client.chat_stream_with_tools(vec![Message::user("hi"), Message::tool("3")], "qwen", Some(create_tools()));
    let body = request_body(&request);
    let doc = parse(&body).unwrap();
    assert_eq!(doc.get("model").unwrap().as_str(), Some("qwen"));
    assert_eq!(doc.get("stream").unwrap().as_bool(), Some(true));
    let messages = doc.get("messages").unwrap().as_array().unwrap();
    assert_eq!(messages.len(), 2);
    assert_eq!(read_message(&messages[0]), Some(Message::user("hi")));
    assert_eq!(read_message(&messages[1]), Some(Message::tool("3")));
    let tools = doc.get("tools").unwrap().as_array().unwrap();
    assert_eq!(tools.len(), 2);
    assert_eq!(tools[1].get("function").unwrap().get("name").unwrap().as_str(), Some("calculate"));

    let bare = client.chat_stream_with_tools(Vec::new(), "qwen", None);
    let doc = request_to_json(&bare);
    assert!(doc.get("tools").is_none());
    assert_eq!(doc.get("messages").unwrap().as_array().unwrap().len(), 0);
    assert_eq!(parse(&request_body(&bare)).unwrap().get("model").unwrap().as_str(), Some("qwen"));
}
