use brain::chat::{decimal, Chat, Phase, Step};
use brain::client::ChatRequest;
use brain::message::{Message, Role};
use brain::tools::Tool;

fn answer(content: &str, done: bool) -> String {
    format!(
        "{{\"model\":\"m\",\"created_at\":\"t\",\"message\":{{\"role\":\"assistant\",\"content\":\"{}\"}},\"done\":{}}}\n",
        content, done
    )
}

fn asking(name: &str, arguments: &str) -> String {
    format!(
        "{{\"model\":\"m\",\"created_at\":\"t\",\"message\":{{\"role\":\"assistant\",\"content\":\"\",\"tool_calls\":[{{\"function\":{{\"name\":\"{}\",\"arguments\":{}}}}}]}},\"done\":true}}\n",
        name, arguments
    )
}

fn roles(turns: &[Message]) -> Vec<Role> {
    turns.iter().map(|turn| turn.role).collect()
}

fn request_of(step: Step) -> ChatRequest {
    match step {
        Step::Request(request) => request,
        other => panic!("no request: {:?}", other),
    }
}

#[test]
fn a_new_session_knows_its_server_models_and_tools() {
    let chat = Chat::new("example.org", 8080, "tool-model", "title-model");
    assert_eq!(chat.client().base_url(), "http://example.org:8080");
    assert_eq!(chat.client().chat_url(), "http://example.org:8080/api/chat");
    assert!(chat.get_history().is_empty());
    assert_eq!(chat.phase(), Phase::Done);
    assert_eq!(chat.registry().len(), 2);
    assert!(chat.registry().find("get_datetime_now").is_some());
    assert!(chat.registry().find("calculator").is_some());
}

#[test]
fn the_usual_session_talks_to_the_local_server() {
    let chat = Chat::default();
    assert_eq!(chat.client().base_url(), "http://localhost:11434");
    assert_eq!(chat.title_request().model, "gemma3:27b");
    let mut chat = chat;
    assert_eq!(chat.generate_response("hi").model, "qwq:32b");
}

#[test]
fn decimal_writes_the_digits() {
    assert_eq!(decimal(0), "0");
    assert_eq!(decimal(7), "7");
    assert_eq!(decimal(10), "10");
    assert_eq!(decimal(11434), "11434");
    assert_eq!(decimal(65535), "65535");
}

#[test]
fn a_plain_answer_ends_the_exchange_and_enters_the_history() {
    let mut chat = Chat::new("localhost", 11434, "m", "v");
    let request = chat.generate_response("hello");
    assert_eq!(request.model, "m");
    assert!(request.stream);
    assert_eq!(request.messages, vec![Message::user("hello")]);
    assert_eq!(request.tools.as_ref().map(|tools| tools.len()), Some(2));
    assert_eq!(chat.phase(), Phase::Continuing);
    assert!(chat.get_history().is_empty());

    let progress = chat.receive(answer("Hi ", false).as_bytes());
    assert_eq!(progress.shown, "Hi ");
    assert!(matches!(progress.step, Step::Read));
    assert_eq!(chat.phase(), Phase::Streaming);
    assert!(chat.get_history().is_empty());

    let progress = chat.receive(answer("there", true).as_bytes());
    assert_eq!(progress.shown, "there");
    match progress.step {
        Step::Done(text) => assert_eq!(text, "Hi there"),
        other => panic!("not done: {:?}", other),
    }
    assert_eq!(chat.phase(), Phase::Done);
    assert_eq!(chat.get_history(), &vec![Message::user("hello"), Message::assistant("Hi there", Vec::new())]);
}

#[test]
fn one_tool_call_makes_one_pass_and_four_turns() {
    let mut chat = Chat::new("localhost", 11434, "m", "v");
    chat.generate_response("what is 1+2?");

    let progress = chat.receive(asking("calculator", "{\"formula\":\"1+2\"}").as_bytes());
    assert_eq!(progress.shown, "");
    let request = request_of(progress.step);
    assert_eq!(roles(&request.messages), vec![Role::User, Role::Assistant, Role::Tool]);
    assert_eq!(request.messages[1].tool_calls.as_ref().unwrap()[0].name, "calculator");
    assert_eq!(request.messages[2].content, "3");
    assert_eq!(chat.phase(), Phase::Continuing);
    assert!(chat.get_history().is_empty());

    let progress = chat.receive(answer("The answer is 3.", true).as_bytes());
    assert_eq!(progress.shown, "The answer is 3.");
    assert!(matches!(&progress.step, Step::Done(text) if text == "The answer is 3."));

    let history = chat.get_history();
    assert_eq!(roles(history), vec![Role::User, Role::Assistant, Role::Tool, Role::Assistant]);
    assert_eq!(history[0].content, "what is 1+2?");
    assert_eq!(history[1].tool_calls.as_ref().unwrap().len(), 1);
    assert_eq!(history[2].content, "3");
    assert_eq!(history[3].content, "The answer is 3.");
    assert_eq!(history[3].tool_calls, None);
    assert_eq!(chat.phase(), Phase::Done);
}

#[test]
fn a_tool_that_is_not_there_does_not_stop_the_exchange() {
    let mut chat = Chat::new("localhost", 11434, "m", "v");
    chat.generate_response("launch");
    let progress = chat.receive(asking("launch_rocket", "{}").as_bytes());
    let request = request_of(progress.step);
    assert_eq!(request.messages.len(), 3);
    assert_eq!(request.messages[2], Message::tool("Tool not found: launch_rocket"));

    let progress = chat.receive(answer("I cannot do that.", true).as_bytes());
    assert!(matches!(&progress.step, Step::Done(text) if text == "I cannot do that."));
    assert_eq!(roles(chat.get_history()), vec![Role::User, Role::Assistant, Role::Tool, Role::Assistant]);
    assert_eq!(chat.get_history()[2].content, "Tool not found: launch_rocket");
}

#[test]
fn a_tool_that_fails_gives_a_turn_with_the_failure() {
    let mut chat = Chat::new("localhost", 11434, "m", "v");
    chat.generate_response("divide");
    let progress = chat.receive(asking("calculator", "{\"formula\":\"1/\"}").as_bytes());
    let request = request_of(progress.step);
    assert_eq!(request.messages[2].role, Role::Tool);
    assert!(!request.messages[2].content.is_empty());
    assert_eq!(request.messages[2].content, brain::tools::calculator("1/").unwrap_err());
}

#[test]
fn a_tool_of_the_caller_is_handed_out_and_its_result_taken_back() {
    let mut chat = Chat::new("localhost", 11434, "m", "v");
    chat.add_tool(Tool::calculate());
    chat.generate_response("sum");
    let two_calls = "{\"model\":\"m\",\"created_at\":\"t\",\"message\":{\"role\":\"assistant\",\"content\":\"\",\"tool_calls\":[{\"function\":{\"name\":\"calculate\",\"arguments\":{\"expression\":\"2+3\"}}},{\"function\":{\"name\":\"calculator\",\"arguments\":{\"formula\":\"2*3\"}}}]},\"done\":true}\n";
    let progress = chat.receive(two_calls.as_bytes());
    match &progress.step {
        Step::Execute(call) => {
            assert_eq!(call.name, "calculate");
            assert_eq!(call.arguments.get("expression").unwrap().as_str(), Some("2+3"));
        }
        other => panic!("nothing to run: {:?}", other),
    }
    assert_eq!(chat.phase(), Phase::Executing);
    assert!(matches!(chat.receive(b"x\n").step, Step::Idle));

    let progress = chat.tool_finished(Ok("5".to_string()));
    let request = request_of(progress.step);
    assert_eq!(roles(&request.messages), vec![Role::User, Role::Assistant, Role::Tool, Role::Tool]);
    assert_eq!(request.messages[2].content, "5");
    assert_eq!(request.messages[3].content, "6");
    assert_eq!(request.tools.as_ref().map(|tools| tools.len()), Some(3));
    assert!(matches!(chat.tool_finished(Ok("again".to_string())).step, Step::Idle));
}

#[test]
fn a_failure_of_the_callers_tool_is_content_too() {
    let mut chat = Chat::new("localhost", 11434, "m", "v");
    chat.add_tool(Tool::calculate());
    chat.generate_response("sum");
    chat.receive(asking("calculate", "{\"expression\":\"x\"}").as_bytes());
    let progress = chat.tool_finished(Err("Invalid expression".to_string()));
    let request = request_of(progress.step);
    assert_eq!(request.messages[2], Message::tool("Invalid expression"));
}

#[test]
fn the_history_keeps_the_answer_without_its_reasoning() {
    let mut chat = Chat::new("localhost", 11434, "m", "v");
    chat.generate_response("why?");
    chat.receive(answer("<think>because", false).as_bytes());
    let progress = chat.receive(answer("</think>\\n\\nBecause.", true).as_bytes());
    assert_eq!(progress.shown, "</think>\n\nBecause.");
    assert!(matches!(&progress.step, Step::Done(text) if text == "<think>because</think>\n\nBecause."));
    assert_eq!(chat.get_history()[1].content, "Because.");
}

#[test]
fn clearing_empties_the_history_and_the_next_exchange_starts_afresh() {
    let mut chat = Chat::new("localhost", 11434, "m", "v");
    chat.generate_response("first");
    chat.receive(answer("one", true).as_bytes());
    assert_eq!(chat.get_history().len(), 2);
    chat.clear_history();
    assert!(chat.get_history().is_empty());
    let request = chat.generate_response("second");
    assert_eq!(request.messages, vec![Message::user("second")]);
}

#[test]
fn the_second_exchange_carries_the_first() {
    let mut chat = Chat::new("localhost", 11434, "m", "v");
    chat.generate_response("first");
    chat.receive(answer("one", true).as_bytes());
    let request = chat.generate_response("second");
    assert_eq!(
        request.messages,
        vec![Message::user("first"), Message::assistant("one", Vec::new()), Message::user("second")]
    );
}

#[test]
fn a_transport_failure_leaves_the_history_as_it_was() {
    let mut chat = Chat::new("localhost", 11434, "m", "v");
    chat.generate_response("first");
    chat.receive(answer("one", true).as_bytes());
    let before = chat.get_history().clone();

    chat.generate_response("second");
    assert_eq!(chat.transport_failed("connection refused"), "Error: connection refused");
    assert_eq!(chat.get_history(), &before);
    assert_eq!(chat.phase(), Phase::Done);

    chat.generate_response("third");
    chat.receive(answer("par", false).as_bytes());
    chat.receive(asking("calculator", "{\"formula\":\"1\"}").as_bytes());
    chat.receive(answer("half an ans", false).as_bytes());
    assert_eq!(chat.transport_failed("HTTP error: 500"), "Error: HTTP error: 500");
    assert_eq!(chat.get_history(), &before);

    let request = chat.generate_response("fourth");
    assert_eq!(request.messages.len(), 3);
    assert_eq!(request.messages[2], Message::user("fourth"));
}

#[test]
fn a_failure_of_the_backend_ends_the_exchange_without_a_trace() {
    let mut chat = Chat::new("localhost", 11434, "m", "v");
    chat.generate_response("hello");
    chat.receive(answer("par", false).as_bytes());
    let progress = chat.receive(b"{\"error\":\"model runner crashed\"}\n");
    assert!(matches!(&progress.step, Step::Failed(message) if message == "model runner crashed"));
    assert!(chat.get_history().is_empty());
    assert_eq!(chat.phase(), Phase::Done);
}

#[test]
fn the_end_of_the_stream_ends_an_answer_that_no_frame_ended() {
    let mut chat = Chat::new("localhost", 11434, "m", "v");
    chat.generate_response("hello");
    chat.receive(answer("cut ", false).as_bytes());
    chat.receive(answer("off", false).trim_end().as_bytes());
    let progress = chat.end_of_stream();
    assert_eq!(progress.shown, "off");
    assert!(matches!(&progress.step, Step::Done(text) if text == "cut off"));
    assert_eq!(chat.get_history().len(), 2);
    assert!(matches!(chat.end_of_stream().step, Step::Idle));
}

#[test]
fn nothing_happens_where_no_answer_is_awaited() {
    let mut chat = Chat::new("localhost", 11434, "m", "v");
    let progress = chat.receive(answer("stray", true).as_bytes());
    assert!(matches!(progress.step, Step::Idle));
    assert_eq!(progress.shown, "");
    assert!(chat.get_history().is_empty());
}

#[test]
fn add_message_puts_a_turn_at_the_end() {
    let mut chat = Chat::new("localhost", 11434, "m", "v");
    chat.add_message(Message::new(Role::System, "be brief"));
    chat.add_message(Message::user("hi"));
    assert_eq!(chat.get_history(), &vec![Message::new(Role::System, "be brief"), Message::user("hi")]);
}

#[test]
fn the_title_request_leaves_the_history_alone() {
    let mut chat = Chat::new("localhost", 11434, "m", "v");
    chat.add_message(Message::user("tell me about rust"));
    let request = chat.title_request();
    assert_eq!(request.model, "v");
    assert!(!request.stream);
    assert_eq!(request.tools, None);
    assert_eq!(request.messages.len(), 2);
    assert_eq!(request.messages[0], Message::user("tell me about rust"));
    assert_eq!(request.messages[1].role, Role::User);
    assert!(request.messages[1].content.starts_with("長文は禁止されています。"));
    assert_eq!(chat.get_history().len(), 1);
}

#[test]
fn the_title_is_the_reasoning_where_there_is_one() {
    let chat = Chat::new("localhost", 11434, "m", "v");
    assert_eq!(chat.generate_title("<think>Rust basics</think>ignored"), "Rust basics");
    assert_eq!(chat.generate_title("Rust basics"), "Rust basics");
    assert_eq!(chat.generate_title("<think>cut off"), "<think>cut off");
    assert_eq!(chat.get_thinking("<think>a</think> b ", true), Some("b".to_string()));
    assert_eq!(chat.get_thinking("plain", false), None);
}

#[test]
fn an_exchange_of_k_rounds_makes_k_passes_and_k_plus_one_requests() {
    for rounds in 0..5usize {
        let mut chat = Chat::new("localhost", 11434, "m", "v");
        let mut requests = vec![chat.generate_response("go")];
        for round in 0..rounds {
            let formula = format!("{{\"formula\":\"{}+1\"}}", round);
            let progress = chat.receive(asking("calculator", &formula).as_bytes());
            let request = request_of(progress.step);
            assert_eq!(request.messages.len(), 1 + 2 * (round + 1));
            assert_eq!(request.messages.last().unwrap(), &Message::tool(&format!("{}", round + 1)));
            assert_eq!(chat.phase(), Phase::Continuing);
            assert!(chat.get_history().is_empty());
            requests.push(request);
        }
        let progress = chat.receive(answer("done", true).as_bytes());
        assert!(matches!(&progress.step, Step::Done(text) if text == "done"));
        assert_eq!(requests.len(), rounds + 1);
        assert_eq!(chat.phase(), Phase::Done);

        let history = chat.get_history();
        assert_eq!(history.len(), 1 + 2 * rounds + 1);
        assert_eq!(history[0], Message::user("go"));
        for round in 0..rounds {
            assert_eq!(history[1 + 2 * round].role, Role::Assistant);
            assert!(history[1 + 2 * round].asks_for_tools());
            assert_eq!(history[2 + 2 * round], Message::tool(&format!("{}", round + 1)));
        }
        assert_eq!(history.last().unwrap(), &Message::assistant("done", Vec::new()));

        let stray = chat.receive(asking("calculator", "{\"formula\":\"1\"}").as_bytes());
        assert!(matches!(stray.step, Step::Idle));
        assert!(matches!(chat.end_of_stream().step, Step::Idle));
        assert_eq!(chat.get_history().len(), 1 + 2 * rounds + 1);
    }
}

#[test]
fn lines_that_are_no_frames_are_reported_while_the_answer_is_read() {
    let mut chat = Chat::new("localhost", 11434, "m", "v");
    chat.generate_response("hello");
    let body = format!("{{\"status\":\"loading\"}}\n{}{{\"late\":true}}\n", answer("hi", true));
    let progress = chat.receive(body.as_bytes());
    assert_eq!(
        progress.diagnostics,
        vec!["Failed to parse response: not a response frame - Line: {\"status\":\"loading\"}".to_string()]
    );
    assert!(matches!(&progress.step, Step::Done(text) if text == "hi"));
}
