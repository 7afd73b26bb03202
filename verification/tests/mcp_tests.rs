use brain::mcp::{
    is_kind, load_setting_file, plan_connection, ConnectFailure, Connection, Mcp, McpSetting,
};
use brain::tools::{Executor, Tool};

const SETTINGS: &str = "{\"docs\": {\"type\": \"SSE\", \"url\": \"http://localhost:3000\"}, \"files\": {\"type\": \"stdio\", \"command\": \"npx\", \"args\": [\"-y\", 7, \"server-filesystem\"]}, \"odd\": {\"type\": \"pipe\"}, \"plain\": 5}";

fn setting<'a>(list: &'a [McpSetting], name: &str) -> &'a McpSetting {
    list.iter().find(|setting| setting.name == name).unwrap()
}

#[test]
fn the_settings_give_one_entry_for_each_member() {
    let list = load_setting_file(SETTINGS).unwrap();
    assert_eq!(list.len(), 4);
    assert_eq!(
        setting(&list, "docs"),
        &McpSetting {
            name: "docs".to_string(),
            connection_type: "SSE".to_string(),
            url: Some("http://localhost:3000/sse".to_string()),
            command: None,
            args: None,
        }
    );
    assert_eq!(
        setting(&list, "files"),
        &McpSetting {
            name: "files".to_string(),
            connection_type: "stdio".to_string(),
            url: None,
            command: Some("npx".to_string()),
            args: Some(vec!["-y".to_string(), "server-filesystem".to_string()]),
        }
    );
    assert_eq!(setting(&list, "odd").connection_type, "pipe");
    assert_eq!(
        setting(&list, "plain"),
        &McpSetting { name: "plain".to_string(), connection_type: String::new(), url: None, command: None, args: None }
    );
}

#[test]
fn a_text_that_is_no_object_gives_no_settings() {
    assert_eq!(load_setting_file("[1, 2]"), None);
    assert_eq!(load_setting_file("{\"a\": "), None);
    assert_eq!(load_setting_file(""), None);
    assert_eq!(load_setting_file("{}"), Some(Vec::new()));
}

#[test]
fn the_kind_is_read_whatever_the_case() {
    for text in ["sse", "SSE", "Sse", "sSe", "stdio", "STDIO", "ssee", "ss", "", "s\u{17f}e", "ſse", "std\u{130}o", "stdıo"] {
        assert_eq!(is_kind(text, "sse"), text.to_lowercase() == "sse", "{}", text);
        assert_eq!(is_kind(text, "stdio"), text.to_lowercase() == "stdio", "{}", text);
    }
}

#[test]
fn each_server_is_reached_as_its_kind_says() {
    let list = load_setting_file(SETTINGS).unwrap();
    assert_eq!(
        plan_connection(setting(&list, "docs")),
        Connection::Sse { name: "docs".to_string(), url: "http://localhost:3000/sse".to_string() }
    );
    assert_eq!(
        plan_connection(setting(&list, "files")),
        Connection::Stdio {
            name: "files".to_string(),
            command: "npx".to_string(),
            args: Some(vec!["-y".to_string(), "server-filesystem".to_string()]),
        }
    );
    assert_eq!(
        plan_connection(setting(&list, "odd")),
        Connection::Skipped { message: "この接続方式はサポートしていません: pipe".to_string() }
    );
    let no_url = McpSetting { name: "a".to_string(), connection_type: "sse".to_string(), url: None, command: Some("x".to_string()), args: None };
    assert_eq!(plan_connection(&no_url), Connection::Skipped { message: "SSEのURLが指定されていません: a".to_string() });
    let no_command = McpSetting { name: "b".to_string(), connection_type: "Stdio".to_string(), url: Some("u".to_string()), command: None, args: None };
    assert_eq!(
        plan_connection(&no_command),
        Connection::Skipped { message: "stdioのコマンドが指定されていません: b".to_string() }
    );
}

#[test]
fn load_setting_plans_every_entry() {
    let plan = Mcp::new().load_setting(SETTINGS).unwrap();
    assert_eq!(plan.len(), 4);
    assert_eq!(plan.iter().filter(|c| matches!(c, Connection::Skipped { .. })).count(), 2);
    assert_eq!(Mcp::new().load_setting("nonsense"), None);
}

#[test]
fn listed_tools_join_as_tools_of_the_caller() {
    let mut mcp = Mcp::new();
    assert_eq!(mcp.add_mcp_server_sse("docs", "http://x/sse", Ok(vec![Tool::weather()])), None);
    assert_eq!(mcp.add_mcp_server_stdio("files", Ok(vec![Tool::calculator(), Tool::calculate()])), None);
    let names: Vec<&str> = mcp.tools.iter().map(|tool| tool.name.as_str()).collect();
    assert_eq!(names, vec!["get_weather", "calculator", "calculate"]);
    assert!(mcp.tools.iter().all(|tool| tool.executor == Executor::External));
    assert_eq!(mcp.tools[0].description, Tool::weather().description);
    assert_eq!(mcp.tools[0].parameters, Tool::weather().parameters);
}

#[test]
fn a_server_that_cannot_be_reached_is_reported_and_skipped() {
    let mut mcp = Mcp::new();
    mcp.add_mcp_server_stdio("files", Ok(vec![Tool::weather()]));
    assert_eq!(
        mcp.add_mcp_server_sse("docs", "http://x/sse", Err(ConnectFailure::Transport)),
        Some("SSEサーバーに接続できません: docs http://x/sse".to_string())
    );
    assert_eq!(
        mcp.add_mcp_server_sse("docs", "http://x/sse", Err(ConnectFailure::Handshake)),
        Some("クライアントが作成できません: docs".to_string())
    );
    assert_eq!(
        mcp.add_mcp_server_sse("docs", "http://x/sse", Err(ConnectFailure::Listing)),
        Some("ツールの取得に失敗しました: docs".to_string())
    );
    assert_eq!(
        mcp.add_mcp_server_stdio("files", Err(ConnectFailure::Transport)),
        Some("stdioサーバーに接続できません: files".to_string())
    );
    assert_eq!(
        mcp.add_mcp_server_stdio("files", Err(ConnectFailure::Handshake)),
        Some("サービスに接続できません: files".to_string())
    );
    assert_eq!(
        mcp.add_mcp_server_stdio("files", Err(ConnectFailure::Listing)),
        Some("ツールの取得に失敗しました: files".to_string())
    );
    assert_eq!(mcp.tools.len(), 1);
}

#[test]
fn show_tools_lists_names_and_descriptions() {
    let mut mcp = Mcp::new();
    assert_eq!(mcp.show_tools(), "");
    mcp.add_mcp_server_stdio("s", Ok(vec![Tool::weather(), Tool::calculate()]));
    assert_eq!(
        mcp.show_tools(),
        "name: get_weather\ndescription: Get current weather information for a location\n\nname: calculate\ndescription: Perform basic mathematical calculations\n\n"
    );
}
