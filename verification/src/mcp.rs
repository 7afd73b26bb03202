//! The auxiliary tool servers: what the settings say of them, how each is
//! to be reached, and the tools that they offer.

use crate::frame::{read_text, text_member};
use crate::json::{member_views, parse, parsed_document, views_of, Json, JsonView, MemberView};
use crate::text::{chars_of, text_views};
use crate::tools::{tool_views, Executor, Tool, ToolView};
use vstd::prelude::*;
use vstd::string::*;

verus! {

/// What the settings say of one tool server, as a mathematical value.
pub struct McpSettingView {
    pub name: Seq<char>,
    pub connection_type: Seq<char>,
    pub url: Option<Seq<char>>,
    pub command: Option<Seq<char>>,
    pub args: Option<Seq<Seq<char>>>,
}

/// What the settings say of one tool server: its name, the kind of
/// connection, and the address or the command with its arguments.
#[derive(Debug, PartialEq, Eq)]
pub struct McpSetting {
    pub name: String,
    pub connection_type: String,
    pub url: Option<String>,
    pub command: Option<String>,
    pub args: Option<Vec<String>>,
}

impl View for McpSetting {
    type V = McpSettingView;

    open spec fn view(&self) -> McpSettingView {
        McpSettingView {
            name: self.name@,
            connection_type: self.connection_type@,
            url: match self.url {
                Some(url) => Some(url@),
                None => None,
            },
            command: match self.command {
                Some(command) => Some(command@),
                None => None,
            },
            args: match self.args {
                Some(args) => Some(text_views(args@)),
                None => None,
            },
        }
    }
}

/// What is put behind the address of a server to reach its event stream.
pub const SSE_PATH: &'static str = "/sse";

/// The strings among `items`, in order; what is no string is left out.
pub open spec fn texts_among(items: Seq<JsonView>) -> Seq<Seq<char>>
    decreases items.len(),
{
    if items.len() == 0 {
        Seq::empty()
    } else {
        match items.last() {
            JsonView::Text(t) => texts_among(items.drop_last()).push(t),
            _ => texts_among(items.drop_last()),
        }
    }
}

/// The arguments that `value` names: the strings of its array `args`, or
/// none where it has no such array.
pub open spec fn args_of(value: JsonView) -> Option<Seq<Seq<char>>> {
    match value.member("args"@) {
        Some(JsonView::Array(items)) => Some(texts_among(items)),
        _ => None,
    }
}

/// What the entry `name` with the value `value` says: the string `type`,
/// or no kind where there is none; the string `url` with the path of the
/// event stream behind it; the string `command`; and the strings of `args`.
pub open spec fn setting_of(name: Seq<char>, value: JsonView) -> McpSettingView {
    McpSettingView {
        name,
        connection_type: match text_member(value, "type"@) {
            Some(kind) => kind,
            None => Seq::empty(),
        },
        url: match text_member(value, "url"@) {
            Some(url) => Some(url + SSE_PATH@),
            None => None,
        },
        command: text_member(value, "command"@),
        args: args_of(value),
    }
}

/// What the settings `doc` say: one entry for each member of the object,
/// in the order of the members; nothing where `doc` is no object.
pub open spec fn settings_of(doc: JsonView) -> Option<Seq<McpSettingView>> {
    match doc {
        JsonView::Object(members) => Some(
            members.map_values(|member: MemberView| setting_of(member.key, member.value)),
        ),
        _ => None,
    }
}

/// The settings that `settings` hold, in order.
pub open spec fn setting_views(settings: Seq<McpSetting>) -> Seq<McpSettingView> {
    settings.map_values(|setting: McpSetting| setting@)
}

/// The strings among the items of an array.
pub fn read_texts(items: &Vec<Json>) -> (texts: Vec<String>)
    ensures
        text_views(texts@) == texts_among(views_of(items@)),
{
    let ghost docs = views_of(items@);
    let mut texts: Vec<String> = Vec::new();
    let mut at: usize = 0;
    assert(docs.take(0) == Seq::<JsonView>::empty());
    while at < items.len()
        invariant
            at <= items.len(),
            docs == views_of(items@),
            text_views(texts@) == texts_among(docs.take(at as int)),
        decreases items.len() - at,
    {
        let ghost so_far = text_views(texts@);
        proof {
            let next = docs.take(at + 1);
            assert(next.drop_last() == docs.take(at as int));
            assert(next.last() == items[at as int]@);
        }
        match items[at].as_str() {
            Some(t) => {
                let text = String::from_str(t);
                texts.push(text);
                assert(text_views(texts@) == so_far.push(t@));
            },
            None => {},
        }
        at = at + 1;
    }
    assert(docs.take(at as int) == docs);
    texts
}

/// Reads what one entry of the settings says.
pub fn read_setting(name: &str, value: &Json) -> (setting: McpSetting)
    ensures
        setting@ == setting_of(name@, value@),
{
    let connection_type = match read_text(value, "type") {
        Some(kind) => kind,
        None => String::new(),
    };
    let url = match read_text(value, "url") {
        Some(url) => Some(url.concat(SSE_PATH)),
        None => None,
    };
    let command = read_text(value, "command");
    let args = match value.get("args") {
        Some(list) => match list {
            Json::Array(items) => {
                assert(list@->Array_0 == views_of(items@));
                Some(read_texts(items))
            },
            _ => None,
        },
        None => None,
    };
    McpSetting { name: String::from_str(name), connection_type, url, command, args }
}

/// Reads the settings from their document.
pub fn read_settings(doc: &Json) -> (settings: Option<Vec<McpSetting>>)
    ensures
        settings is Some <==> settings_of(doc@) is Some,
        settings matches Some(list) ==> settings_of(doc@) == Some(setting_views(list@)),
{
    match doc {
        Json::Object(members) => {
            let ghost entries = doc@->Object_0;
            assert(entries == member_views(members@));
            let mut list: Vec<McpSetting> = Vec::new();
            let mut at: usize = 0;
            while at < members.len()
                invariant
                    at <= members.len(),
                    entries == member_views(members@),
                    list.len() == at,
                    forall|i: int|
                        0 <= i < at ==> (#[trigger] list[i])@ == setting_of(
                            entries[i].key,
                            entries[i].value,
                        ),
                decreases members.len() - at,
            {
                list.push(read_setting(members[at].key.as_str(), &members[at].value));
                at = at + 1;
            }
            assert(settings_of(doc@)->0 == setting_views(list@));
            Some(list)
        },
        _ => None,
    }
}

/// Reads the settings from the text of the settings file: one entry for
/// each member of the object that the text writes. Nothing where the text
/// is no JSON object.
pub fn load_setting_file(text: &str) -> (settings: Option<Vec<McpSetting>>)
    ensures
        settings is Some <==> (parsed_document(text@) matches Ok(doc) && settings_of(doc)
            is Some),
        settings matches Some(list) ==> settings_of(parsed_document(text@)->Ok_0) == Some(
            setting_views(list@),
        ),
{
    match parse(text) {
        Ok(doc) => read_settings(&doc),
        Err(_) => None,
    }
}

/// The small letter of a capital letter of the alphabet; any other
/// character is left as it is.
pub open spec fn small(c: char) -> char {
    if 'A' <= c <= 'Z' {
        ((c as u8) + 32) as char
    } else {
        c
    }
}

/// Whether `text` spells `kind`, whatever the case of its letters.
pub open spec fn spells(text: Seq<char>, kind: Seq<char>) -> bool {
    text.map_values(|c: char| small(c)) == kind
}

/// The small letter of a capital letter.
fn to_small(c: char) -> (s: char)
    ensures
        s == small(c),
{
    if 'A' <= c && c <= 'Z' {
        ((c as u8) + 32) as char
    } else {
        c
    }
}

/// Whether `text` spells `kind`, whatever the case of its letters.
pub fn is_kind(text: &str, kind: &str) -> (same: bool)
    ensures
        same == spells(text@, kind@),
{
    let left = chars_of(text);
    let right = chars_of(kind);
    if left.len() != right.len() {
        assert(text@.map_values(|c: char| small(c)).len() == text@.len());
        return false;
    }
    let mut at: usize = 0;
    while at < left.len()
        invariant
            at <= left.len(),
            left.len() == right.len(),
            left@ == text@,
            right@ == kind@,
            forall|i: int| 0 <= i < at ==> small(left[i]) == right[i],
        decreases left.len() - at,
    {
        if to_small(left[at]) != right[at] {
            assert(text@.map_values(|c: char| small(c))[at as int] != kind@[at as int]);
            return false;
        }
        at = at + 1;
    }
    assert(text@.map_values(|c: char| small(c)) == kind@);
    true
}

/// How a tool server is to be reached, as a mathematical value.
pub enum ConnectionView {
    Sse { name: Seq<char>, url: Seq<char> },
    Stdio { name: Seq<char>, command: Seq<char>, args: Option<Seq<Seq<char>>> },
    Skipped { message: Seq<char> },
}

/// How a tool server is to be reached.
#[derive(Debug, PartialEq, Eq)]
pub enum Connection {
    /// Over the event stream at `url`.
    Sse { name: String, url: String },
    /// As a child process started by `command` with `args`.
    Stdio { name: String, command: String, args: Option<Vec<String>> },
    /// Not at all, for the reason that `message` gives.
    Skipped { message: String },
}

impl View for Connection {
    type V = ConnectionView;

    open spec fn view(&self) -> ConnectionView {
        match self {
            Connection::Sse { name, url } => ConnectionView::Sse { name: name@, url: url@ },
            Connection::Stdio { name, command, args } => ConnectionView::Stdio {
                name: name@,
                command: command@,
                args: match args {
                    Some(args) => Some(text_views(args@)),
                    None => None,
                },
            },
            Connection::Skipped { message } => ConnectionView::Skipped { message: message@ },
        }
    }
}

/// How the server of `setting` is to be reached: over its event stream
/// where the kind is `sse` and an address is given, as a child process
/// where the kind is `stdio` and a command is given, and else not at all.
pub open spec fn planned(setting: McpSettingView) -> ConnectionView {
    if spells(setting.connection_type, "sse"@) {
        match setting.url {
            Some(url) => ConnectionView::Sse { name: setting.name, url },
            None => ConnectionView::Skipped {
                message: "SSEのURLが指定されていません: "@ + setting.name,
            },
        }
    } else if spells(setting.connection_type, "stdio"@) {
        match setting.command {
            Some(command) => ConnectionView::Stdio {
                name: setting.name,
                command,
                args: setting.args,
            },
            None => ConnectionView::Skipped {
                message: "stdioのコマンドが指定されていません: "@ + setting.name,
            },
        }
    } else {
        ConnectionView::Skipped {
            message: "この接続方式はサポートしていません: "@ + setting.connection_type,
        }
    }
}

/// A copy of `texts` that holds the same texts.
pub fn clone_texts(texts: &Vec<String>) -> (copies: Vec<String>)
    ensures
        text_views(copies@) == text_views(texts@),
{
    let mut copies: Vec<String> = Vec::new();
    let mut at: usize = 0;
    while at < texts.len()
        invariant
            at <= texts.len(),
            copies.len() == at,
            forall|i: int| 0 <= i < at ==> copies[i]@ == texts[i]@,
        decreases texts.len() - at,
    {
        copies.push(texts[at].clone());
        at = at + 1;
    }
    assert(text_views(copies@) == text_views(texts@));
    copies
}

/// Decides how the server of `setting` is to be reached.
pub fn plan_connection(setting: &McpSetting) -> (connection: Connection)
    ensures
        connection@ == planned(setting@),
{
    if is_kind(setting.connection_type.as_str(), "sse") {
        match &setting.url {
            Some(url) => Connection::Sse { name: setting.name.clone(), url: url.clone() },
            None => Connection::Skipped {
                message: String::from_str("SSEのURLが指定されていません: ").concat(
                    setting.name.as_str(),
                ),
            },
        }
    } else if is_kind(setting.connection_type.as_str(), "stdio") {
        match &setting.command {
            Some(command) => Connection::Stdio {
                name: setting.name.clone(),
                command: command.clone(),
                args: match &setting.args {
                    Some(args) => Some(clone_texts(args)),
                    None => None,
                },
            },
            None => Connection::Skipped {
                message: String::from_str("stdioのコマンドが指定されていません: ").concat(
                    setting.name.as_str(),
                ),
            },
        }
    } else {
        Connection::Skipped {
            message: String::from_str("この接続方式はサポートしていません: ").concat(
                setting.connection_type.as_str(),
            ),
        }
    }
}

/// The connections that `connections` hold, in order.
pub open spec fn connection_views(connections: Seq<Connection>) -> Seq<ConnectionView> {
    connections.map_values(|connection: Connection| connection@)
}

/// At which step reaching a tool server failed.
#[derive(Clone, Copy, Debug, PartialEq, Eq, Structural)]
pub enum ConnectFailure {
    /// The connection could not be opened, or the process not started.
    Transport,
    /// The server did not answer as a tool server does.
    Handshake,
    /// The server did not list its tools.
    Listing,
}

/// What is reported when the server `name` at `url` could not be reached
/// over its event stream.
pub open spec fn sse_failure_text(
    failure: ConnectFailure,
    name: Seq<char>,
    url: Seq<char>,
) -> Seq<char> {
    match failure {
        ConnectFailure::Transport => "SSEサーバーに接続できません: "@ + name + " "@ + url,
        ConnectFailure::Handshake => "クライアントが作成できません: "@ + name,
        ConnectFailure::Listing => "ツールの取得に失敗しました: "@ + name,
    }
}

/// What is reported when the server `name` could not be reached as a child
/// process.
pub open spec fn stdio_failure_text(failure: ConnectFailure, name: Seq<char>) -> Seq<char> {
    match failure {
        ConnectFailure::Transport => "stdioサーバーに接続できません: "@ + name,
        ConnectFailure::Handshake => "サービスに接続できません: "@ + name,
        ConnectFailure::Listing => "ツールの取得に失敗しました: "@ + name,
    }
}

/// `tool` as a tool that the caller runs.
pub open spec fn remote(tool: ToolView) -> ToolView {
    ToolView { executor: Executor::External, ..tool }
}

/// `tools`, each as a tool that the caller runs.
pub open spec fn remote_tools(tools: Seq<ToolView>) -> Seq<ToolView> {
    tools.map_values(|tool: ToolView| remote(tool))
}

/// The lines that show `tools`: for each its name, its description and an
/// empty line.
pub open spec fn listing(tools: Seq<ToolView>) -> Seq<char>
    decreases tools.len(),
{
    if tools.len() == 0 {
        Seq::empty()
    } else {
        listing(tools.drop_last()) + "name: "@ + tools.last().name + "\ndescription: "@
            + tools.last().description + "\n\n"@
    }
}

/// The tools that the tool servers offer.
#[derive(Debug)]
pub struct Mcp {
    pub tools: Vec<Tool>,
}

impl View for Mcp {
    type V = Seq<ToolView>;

    open spec fn view(&self) -> Seq<ToolView> {
        tool_views(self.tools@)
    }
}

impl Mcp {
    /// No tools yet.
    pub fn new() -> (mcp: Mcp)
        ensures
            mcp@ == Seq::<ToolView>::empty(),
    {
        Mcp { tools: Vec::new() }
    }

    /// Reads the settings from the text of the settings file and decides,
    /// for each entry in order, how its server is to be reached. Nothing
    /// where the text is no JSON object.
    pub fn load_setting(&self, text: &str) -> (plan: Option<Vec<Connection>>)
        ensures
            plan is Some <==> (parsed_document(text@) matches Ok(doc) && settings_of(doc)
                is Some),
            plan matches Some(list) ==> connection_views(list@) == settings_of(
                parsed_document(text@)->Ok_0,
            )->0.map_values(|setting: McpSettingView| planned(setting)),
    {
        match load_setting_file(text) {
            Some(settings) => {
                let ghost entries = setting_views(settings@);
                let mut list: Vec<Connection> = Vec::new();
                let mut at: usize = 0;
                while at < settings.len()
                    invariant
                        at <= settings.len(),
                        entries == setting_views(settings@),
                        list.len() == at,
                        forall|i: int| 0 <= i < at ==> (#[trigger] list[i])@ == planned(entries[i]),
                    decreases settings.len() - at,
                {
                    list.push(plan_connection(&settings[at]));
                    at = at + 1;
                }
                assert(connection_views(list@) == entries.map_values(
                    |setting: McpSettingView| planned(setting),
                ));
                Some(list)
            },
            None => None,
        }
    }

    /// Puts `listed` behind the tools that are there, each as a tool that
    /// the caller runs.
    fn add_tools(&mut self, listed: Vec<Tool>)
        ensures
            final(self)@ == old(self)@ + remote_tools(tool_views(listed@)),
    {
        let ghost before = self@;
        let ghost offered = tool_views(listed@);
        let mut listed = listed;
        let mut at: usize = 0;
        assert(before + remote_tools(offered.take(0)) == before);
        while at < listed.len()
            invariant
                at <= listed.len(),
                offered.len() == listed.len(),
                forall|i: int| at <= i < listed.len() ==> listed[i]@ == offered[i],
                self@ == before + remote_tools(offered.take(at as int)),
            decreases listed.len() - at,
        {
            let mut tool = listed[at].clone();
            tool.executor = Executor::External;
            let ghost so_far = self@;
            self.tools.push(tool);
            assert(self@ == so_far.push(remote(offered[at as int])));
            assert(remote_tools(offered.take(at + 1)) == remote_tools(
                offered.take(at as int),
            ).push(remote(offered[at as int])));
            at = at + 1;
        }
        assert(offered.take(at as int) == offered);
    }

    /// Takes what came of reaching the server `name` over the event stream
    /// at `url`: the tools that it listed join the tools that are there; a
    /// failure changes nothing and gives the message to report.
    pub fn add_mcp_server_sse(
        &mut self,
        name: &str,
        url: &str,
        listed: Result<Vec<Tool>, ConnectFailure>,
    ) -> (report: Option<String>)
        ensures
            listed matches Ok(tools) ==> report is None && final(self)@ == old(self)@ + remote_tools(
                tool_views(tools@),
            ),
            listed matches Err(failure) ==> final(self)@ == old(self)@ && report is Some
                && report->0@ == sse_failure_text(failure, name@, url@),
    {
        match listed {
            Ok(tools) => {
                self.add_tools(tools);
                None
            },
            Err(ConnectFailure::Transport) => Some(
                String::from_str("SSEサーバーに接続できません: ").concat(name).concat(" ").concat(
                    url,
                ),
            ),
            Err(ConnectFailure::Handshake) => Some(
                String::from_str("クライアントが作成できません: ").concat(name),
            ),
            Err(ConnectFailure::Listing) => Some(
                String::from_str("ツールの取得に失敗しました: ").concat(name),
            ),
        }
    }

    /// Takes what came of reaching the server `name` as a child process:
    /// the tools that it listed join the tools that are there; a failure
    /// changes nothing and gives the message to report.
    pub fn add_mcp_server_stdio(
        &mut self,
        name: &str,
        listed: Result<Vec<Tool>, ConnectFailure>,
    ) -> (report: Option<String>)
        ensures
            listed matches Ok(tools) ==> report is None && final(self)@ == old(self)@ + remote_tools(
                tool_views(tools@),
            ),
            listed matches Err(failure) ==> final(self)@ == old(self)@ && report is Some
                && report->0@ == stdio_failure_text(failure, name@),
    {
        match listed {
            Ok(tools) => {
                self.add_tools(tools);
                None
            },
            Err(ConnectFailure::Transport) => Some(
                String::from_str("stdioサーバーに接続できません: ").concat(name),
            ),
            Err(ConnectFailure::Handshake) => Some(
                String::from_str("サービスに接続できません: ").concat(name),
            ),
            Err(ConnectFailure::Listing) => Some(
                String::from_str("ツールの取得に失敗しました: ").concat(name),
            ),
        }
    }

    /// The lines that show the tools: for each its name, its description
    /// and an empty line.
    pub fn show_tools(&self) -> (lines: String)
        ensures
            lines@ == listing(self@),
    {
        let ghost all = self@;
        let mut lines = String::new();
        let mut at: usize = 0;
        assert(all.take(0) == Seq::<ToolView>::empty());
        while at < self.tools.len()
            invariant
                at <= self.tools.len(),
                all == tool_views(self.tools@),
                lines@ == listing(all.take(at as int)),
            decreases self.tools.len() - at,
        {
            proof {
                let next = all.take(at + 1);
                assert(next.drop_last() == all.take(at as int));
                assert(next.last() == self.tools[at as int]@);
            }
            lines.append("name: ");
            lines.append(self.tools[at].name.as_str());
            lines.append("\ndescription: ");
            lines.append(self.tools[at].description.as_str());
            lines.append("\n\n");
            at = at + 1;
        }
        assert(all.take(at as int) == all);
        lines
    }
}

} // verus!
