use brain::client::create_tools;
use brain::json::{parse, Json};
use brain::message::ToolCall;
use brain::tools::{
    calculation_reply, caller_reply, caller_task, CallerTask, calculation_for, calculator, calculator_reply, plan_calculation, Calculation, datetime_reply, get_datetime_now, get_weather, run_calculator,
    string_parameter_schema, Executor, Tool, ToolOutcome, ToolRegistry,
};

fn call(name: &str, arguments: &str) -> ToolCall {
    ToolCall { call_id: None, name: name.to_string(), arguments: parse(arguments).unwrap() }
}

#[test]
fn the_weather_tool_names_the_place() {
    assert_eq!(get_weather(&parse("{\"location\":\"Oslo\"}").unwrap()), "Weather in Oslo: Sunny, 22°C");
    assert_eq!(get_weather(&parse("{}").unwrap()), "Weather in Unknown: Sunny, 22°C");
    assert_eq!(get_weather(&parse("{\"location\":5}").unwrap()), "Weather in Unknown: Sunny, 22°C");
    assert_eq!(get_weather(&Json::Null), "Weather in Unknown: Sunny, 22°C");
}

#[test]
fn the_calculator_evaluates_a_formula() {
    assert_eq!(calculator("1+2"), Ok("3".to_string()));
    assert_eq!(calculator("(1+2)*abs(4-5)/2^2"), Ok("0.75".to_string()));
    assert_eq!(calculator("1+sum(2,3)*abs(4-5)/6^2"), Err("Undefined(\"sum\")".to_string()));
    assert_eq!(calculator("2^10"), Ok("1024".to_string()));
}

#[test]
fn the_calculator_reports_what_it_cannot_evaluate() {
    let refused = calculator("1+").unwrap_err();
    assert!(!refused.is_empty());
    assert_ne!(refused, "1+");
    assert!(calculator("no_such_value").is_err());
}

#[test]
fn the_reply_of_the_calculator_is_the_value_or_the_message() {
    assert_eq!(calculator_reply(Ok("3".to_string())), "3");
    assert_eq!(calculator_reply(Err("bad formula".to_string())), "bad formula");
    assert_eq!(run_calculator(&parse("{\"formula\":\"6*7\"}").unwrap()), "42");
    assert_eq!(run_calculator(&parse("{}").unwrap()), "missing argument: formula");
    assert_eq!(run_calculator(&parse("{\"formula\":\"(\"}").unwrap()), calculator("(").unwrap_err());
}

#[test]
fn the_time_tool_puts_the_time_behind_its_label() {
    assert_eq!(datetime_reply("2026-01-01 00:00:00 +00:00"), "現在時刻: 2026-01-01 00:00:00 +00:00");
    let reply = get_datetime_now();
    assert!(reply.starts_with("現在時刻: "));
    assert!(reply.len() > "現在時刻: ".len());
}

#[test]
fn the_usual_tools_are_the_weather_and_the_sums() {
    let tools = create_tools();
    assert_eq!(tools.len(), 2);
    assert_eq!(tools[0].name, "get_weather");
    assert_eq!(tools[0].description, "Get current weather information for a location");
    assert_eq!(tools[0].executor, Executor::Weather);
    assert_eq!(
        tools[0].parameters,
        parse("{\"type\":\"object\",\"properties\":{\"location\":{\"type\":\"string\",\"description\":\"The city or location to get weather for\"}},\"required\":[\"location\"]}").map(reorder).unwrap()
    );
    assert_eq!(tools[1].name, "calculate");
    assert_eq!(tools[1].description, "Perform basic mathematical calculations");
    assert_eq!(tools[1].executor, Executor::External);
    assert_eq!(tools[1], Tool::calculate());
}

fn reorder(doc: Json) -> Json {
    let wanted = string_parameter_schema("location", "The city or location to get weather for");
    for key in ["type", "properties", "required"] {
        assert_eq!(same(doc.get(key).unwrap(), wanted.get(key).unwrap()), true, "member {}", key);
    }
    wanted
}

fn same(left: &Json, right: &Json) -> bool {
    match (left, right) {
        (Json::Object(l), Json::Object(r)) => {
            l.len() == r.len() && r.iter().all(|m| left.get(&m.key).map_or(false, |v| same(v, &m.value)))
        }
        (Json::Array(l), Json::Array(r)) => l.len() == r.len() && l.iter().zip(r).all(|(a, b)| same(a, b)),
        _ => left == right,
    }
}

#[test]
fn a_registry_finds_the_first_tool_of_a_name() {
    let mut registry = ToolRegistry::new();
    assert_eq!(registry.len(), 0);
    assert!(registry.find("get_weather").is_none());
    registry.register(Tool::weather());
    registry.register(Tool::calculator());
    let mut shadow = Tool::weather();
    shadow.description = "second".to_string();
    registry.register(shadow);
    assert_eq!(registry.len(), 3);
    assert_eq!(registry.find("get_weather").unwrap().description, "Get current weather information for a location");
    assert_eq!(registry.find("calculator").unwrap().executor, Executor::Calculator);
    assert!(registry.find("Calculator").is_none());
    assert_eq!(registry.definitions().len(), 3);
}

#[test]
fn a_tool_that_is_not_there_is_answered_by_a_note() {
    let registry = ToolRegistry::with_tools(create_tools());
    assert_eq!(
        registry.execute(&call("launch_rocket", "{}")),
        ToolOutcome::Reply("Tool not found: launch_rocket".to_string())
    );
}

#[test]
fn requests_go_to_the_tool_of_their_name() {
    let mut registry = ToolRegistry::with_tools(create_tools());
    registry.register(Tool::calculator());
    registry.register(Tool::datetime());
    assert_eq!(
        registry.execute(&call("get_weather", "{\"location\":\"Rome\"}")),
        ToolOutcome::Reply("Weather in Rome: Sunny, 22°C".to_string())
    );
    assert_eq!(registry.execute(&call("calculator", "{\"formula\":\"2*3\"}")), ToolOutcome::Reply("6".to_string()));
    assert_eq!(registry.execute(&call("calculate", "{\"expression\":\"2+3\"}")), ToolOutcome::External);
    match registry.execute(&call("get_datetime_now", "{}")) {
        ToolOutcome::Reply(text) => assert!(text.starts_with("現在時刻: ")),
        other => panic!("no reply: {:?}", other),
    }
}

#[test]
fn a_tool_that_fails_gives_its_message_as_content() {
    let mut registry = ToolRegistry::new();
    registry.register(Tool::calculator());
    let message = calculator("1/").unwrap_err();
    assert_eq!(registry.execute(&call("calculator", "{\"formula\":\"1/\"}")), ToolOutcome::Reply(message));
}

#[test]
fn a_sum_or_product_has_one_sign_and_two_operands() {
    assert_eq!(plan_calculation(" 2 + 3 "), Calculation::Sum("2".to_string(), "3".to_string()));
    assert_eq!(plan_calculation("2*3"), Calculation::Product("2".to_string(), "3".to_string()));
    assert_eq!(plan_calculation("+"), Calculation::Sum(String::new(), String::new()));
    assert_eq!(plan_calculation("1+2+3"), Calculation::Invalid);
    assert_eq!(plan_calculation("1*2*3"), Calculation::Invalid);
    assert_eq!(plan_calculation("1+2*3"), Calculation::Sum("1".to_string(), "2*3".to_string()));
    assert_eq!(plan_calculation("1*2+3*4"), Calculation::Sum("1*2".to_string(), "3*4".to_string()));
    assert_eq!(plan_calculation("7-2"), Calculation::Unsupported);
    assert_eq!(plan_calculation(""), Calculation::Unsupported);
    assert_eq!(
        calculation_for(&parse("{\"expression\":\"1.5 * x\"}").unwrap()),
        Calculation::Product("1.5".to_string(), "x".to_string())
    );
    assert_eq!(calculation_for(&parse("{}").unwrap()), Calculation::Unsupported);
    assert_eq!(brain::tools::INVALID_EXPRESSION, "Invalid expression");
    assert_eq!(brain::tools::NOT_SUPPORTED, "Calculation not supported");
}

#[test]
fn the_calculator_answers_whatever_it_is_given() {
    for formula in ["", " ", "日本語", "\"é\"", "\u{0}", "((((((((((1))))))))))", "1e309", "1/0", "-", "3 4"] {
        let outcome = calculator(formula);
        match outcome {
            Ok(value) => assert!(!value.is_empty()),
            Err(message) => assert!(!message.is_empty()),
        }
    }
    let long = "1+".repeat(5000);
    assert!(calculator(&long).is_err());
    assert_eq!(calculator("1/0"), Ok("inf".to_string()));
}

#[test]
fn the_answer_to_a_calculation_is_its_value_or_a_note() {
    assert_eq!(calculation_reply(&Calculation::Sum("2".to_string(), "3".to_string()), "5"), "5");
    assert_eq!(calculation_reply(&Calculation::Product("2".to_string(), "3".to_string()), "6"), "6");
    assert_eq!(calculation_reply(&Calculation::Invalid, "5"), "Invalid expression");
    assert_eq!(calculation_reply(&Calculation::Unsupported, ""), "Calculation not supported");
}

#[test]
fn the_caller_runs_the_sums_and_no_other_tool() {
    let sum = caller_task(&call("calculate", "{\"expression\":\"2 + 3\"}"));
    assert_eq!(sum, CallerTask::Calculate(Calculation::Sum("2".to_string(), "3".to_string())));
    assert_eq!(caller_reply(&sum, "5"), "5");
    let many = caller_task(&call("calculate", "{\"expression\":\"1+2+3\"}"));
    assert_eq!(many, CallerTask::Calculate(Calculation::Invalid));
    assert_eq!(caller_reply(&many, ""), "Invalid expression");
    let none = caller_task(&call("calculate", "{}"));
    assert_eq!(caller_reply(&none, ""), "Calculation not supported");
    let other = caller_task(&call("read_file", "{\"expression\":\"2+3\"}"));
    assert_eq!(other, CallerTask::NotImplemented);
    assert_eq!(caller_reply(&other, "5"), "Tool not implemented");
}

#[test]
fn the_time_tool_never_answers_with_the_label_alone() {
    for _ in 0..3 {
        let reply = get_datetime_now();
        let time = reply.strip_prefix("現在時刻: ").unwrap();
        assert!(!time.is_empty());
        assert!(time.contains(' '));
    }
}
