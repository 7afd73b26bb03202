//! The requests that are sent to the inference server, and the reading of
//! what it answers.

use crate::message::{call_views, message_views, Message, MessageView, Role, ToolCall, ToolCallView};
use crate::reader::{complete_lines, partial_line};
use crate::stream::{
    absorb_lines, all_lines, concat_calls, concat_contents, diagnostics_of, frames_of, last_line,
    lemma_absorb_concat, lemma_chunking_is_invisible, lemma_content_is_concatenation,
    lemma_diagnostics_concat, none_closes, AssemblyView, StreamAssembler,
};
use crate::text::text_views;
use crate::tools::{calculate_tool, tool_views, weather_tool, Tool, ToolView};
use vstd::prelude::*;
use vstd::string::*;

verus! {

/// Where the inference server is where nothing else is said.
pub const DEFAULT_BASE_URL: &'static str = "http://localhost:11434";

/// The path of the chat endpoint.
pub const CHAT_PATH: &'static str = "/api/chat";

/// A chat request as a mathematical value.
pub struct ChatRequestView {
    pub model: Seq<char>,
    pub messages: Seq<MessageView>,
    pub stream: bool,
    pub tools: Option<Seq<ToolView>>,
}

/// A chat request: the model to ask, the whole conversation so far, whether
/// the answer is to be streamed, and the tools that the model may ask for.
#[derive(Debug, PartialEq, Eq)]
pub struct ChatRequest {
    pub model: String,
    pub messages: Vec<Message>,
    pub stream: bool,
    pub tools: Option<Vec<Tool>>,
}

impl View for ChatRequest {
    type V = ChatRequestView;

    open spec fn view(&self) -> ChatRequestView {
        ChatRequestView {
            model: self.model@,
            messages: message_views(self.messages@),
            stream: self.stream,
            tools: match self.tools {
                Some(tools) => Some(tool_views(tools@)),
                None => None,
            },
        }
    }
}

/// The turn that carries the result of one tool call.
pub open spec fn tool_turn(content: Seq<char>) -> MessageView {
    MessageView { role: Role::Tool, content, tool_calls: None }
}

/// The turns that carry `results`, one each, in order.
pub open spec fn tool_turns(results: Seq<Seq<char>>) -> Seq<MessageView> {
    results.map_values(|content: Seq<char>| tool_turn(content))
}

/// The turn in which the assistant asks for `calls` and says nothing.
pub open spec fn asking_turn(calls: Seq<ToolCallView>) -> MessageView {
    MessageView { role: Role::Assistant, content: Seq::empty(), tool_calls: Some(calls) }
}

/// The tools that are told to the backend where the caller names none of
/// its own: the weather tool and the tool for simple sums and products.
pub fn create_tools() -> (tools: Vec<Tool>)
    ensures
        tools.len() == 2,
        tools[0]@ == weather_tool(),
        tools[1]@ == calculate_tool(),
{
    let mut tools: Vec<Tool> = Vec::new();
    tools.push(Tool::weather());
    tools.push(Tool::calculate());
    tools
}

/// What is known of the inference server: where it is.
#[derive(Debug)]
pub struct OllamaClient {
    base_url: String,
}

impl View for OllamaClient {
    type V = Seq<char>;

    closed spec fn view(&self) -> Seq<char> {
        self.base_url@
    }
}

impl Clone for OllamaClient {
    /// A copy that names the same server.
    fn clone(&self) -> (copy: OllamaClient)
        ensures
            copy@ == self@,
    {
        OllamaClient { base_url: self.base_url.clone() }
    }
}

/// What reading a whole response comes to.
#[derive(Debug)]
pub struct StreamOutcome {
    /// The text of the frames, as it is shown while it comes.
    pub shown: String,
    /// One message for each line that was no frame.
    pub diagnostics: Vec<String>,
    /// The assistant's turn as put together.
    pub turn: Message,
    /// The backend's message, where it reported that it failed.
    pub fault: Option<String>,
}

/// The bytes of `chunks`, one chunk after another.
pub open spec fn concat_chunks(chunks: Seq<Vec<u8>>) -> Seq<u8>
    decreases chunks.len(),
{
    if chunks.len() == 0 {
        Seq::empty()
    } else {
        concat_chunks(chunks.drop_last()) + chunks.last()@
    }
}

/// The turn put together from the whole of `data`: from all its lines, in
/// order.
pub open spec fn assembly_of(data: Seq<u8>) -> AssemblyView {
    absorb_lines(AssemblyView::start(), all_lines(data))
}

/// The text of a whole response that is well formed, in that no line
/// before the last ends it, is the texts of all its frames, one after
/// another in the order of arrival, and so are its tool calls.
pub proof fn lemma_response_text(data: Seq<u8>)
    requires
        all_lines(data).len() > 0 ==> none_closes(all_lines(data).drop_last()),
    ensures
        assembly_of(data).content == concat_contents(frames_of(all_lines(data))),
        assembly_of(data).tool_calls == concat_calls(frames_of(all_lines(data))),
{
    lemma_content_is_concatenation(all_lines(data));
}

impl OllamaClient {
    /// The client for the server at `base_url`, or at the usual local
    /// address where none is given.
    pub fn new(base_url: Option<String>) -> (client: OllamaClient)
        ensures
            client@ == (match base_url {
                Some(url) => url@,
                None => DEFAULT_BASE_URL@,
            }),
    {
        OllamaClient {
            base_url: match base_url {
                Some(url) => url,
                None => String::from_str(DEFAULT_BASE_URL),
            },
        }
    }

    /// Where the server is.
    pub fn base_url(&self) -> (url: &str)
        ensures
            url@ == self@,
    {
        self.base_url.as_str()
    }

    /// The address to which chat requests go.
    pub fn chat_url(&self) -> (url: String)
        ensures
            url@ == self@ + CHAT_PATH@,
    {
        self.base_url.clone().concat(CHAT_PATH)
    }

    /// The request that asks `model` to go on with the conversation
    /// `messages`, streaming its answer, with `tools` to ask for.
    pub fn chat_stream_with_tools(
        &self,
        messages: Vec<Message>,
        model: &str,
        tools: Option<Vec<Tool>>,
    ) -> (request: ChatRequest)
        ensures
            request@ == (ChatRequestView {
                model: model@,
                messages: message_views(messages@),
                stream: true,
                tools: match tools {
                    Some(tools) => Some(tool_views(tools@)),
                    None => None,
                },
            }),
    {
        ChatRequest { model: String::from_str(model), messages, stream: true, tools }
    }

    /// Reads a whole response, handed over in `chunks` as they came, up to
    /// the frame that ends it. However the bytes are cut into chunks, the
    /// turn is the one that the bytes give as one piece.
    pub fn chat_stream_with_tools_impl(&self, chunks: &Vec<Vec<u8>>) -> (outcome: StreamOutcome)
        ensures
            outcome.turn@ == assembly_of(concat_chunks(chunks@)).turn(),
            outcome.shown@ == assembly_of(concat_chunks(chunks@)).content,
            outcome.fault is Some <==> assembly_of(concat_chunks(chunks@)).fault is Some,
            outcome.fault matches Some(message) ==> assembly_of(concat_chunks(chunks@)).fault
                == Some(message@),
            text_views(outcome.diagnostics@) == diagnostics_of(
                AssemblyView::start(),
                all_lines(concat_chunks(chunks@)),
            ),
    {
        let mut assembler = StreamAssembler::new();
        let mut shown = String::new();
        let mut diagnostics: Vec<String> = Vec::new();
        let mut at: usize = 0;
        assert(concat_chunks(chunks@.take(0)) == Seq::<u8>::empty()) by {
            assert(chunks@.take(0) == Seq::<Vec<u8>>::empty());
        }
        assert(complete_lines(Seq::<u8>::empty()) == Seq::<Seq<u8>>::empty());
        while at < chunks.len()
            invariant
                at <= chunks.len(),
                assembler@.pending == partial_line(concat_chunks(chunks@.take(at as int))),
                assembler@.assembly == absorb_lines(
                    AssemblyView::start(),
                    complete_lines(concat_chunks(chunks@.take(at as int))),
                ),
                assembler@.assembly.content == shown@,
                text_views(diagnostics@) == diagnostics_of(
                    AssemblyView::start(),
                    complete_lines(concat_chunks(chunks@.take(at as int))),
                ),
            decreases chunks.len() - at,
        {
            let ghost read = concat_chunks(chunks@.take(at as int));
            let ghost earlier = diagnostics@;
            let mut part = assembler.feed(chunks[at].as_slice());
            let ghost fresh = part.diagnostics@;
            shown.append(part.text.as_str());
            diagnostics.append(&mut part.diagnostics);
            proof {
                let piece = chunks[at as int]@;
                crate::reader::lemma_split_anywhere(read, piece);
                lemma_diagnostics_concat(
                    AssemblyView::start(),
                    complete_lines(read),
                    complete_lines(partial_line(read) + piece),
                );
                assert(text_views(earlier + fresh) == text_views(earlier) + text_views(fresh));
                let next = chunks@.take(at + 1);
                assert(next.drop_last() == chunks@.take(at as int));
                assert(next.last() == chunks[at as int]);
                assert(concat_chunks(next) == read + chunks[at as int]@);
                lemma_chunking_is_invisible(
                    AssemblyView::start(),
                    Seq::empty(),
                    read,
                    chunks[at as int]@,
                );
                assert(Seq::<u8>::empty() + read == read);
                assert(Seq::<u8>::empty() + (read + chunks[at as int]@) == read + chunks[at
                    as int]@);
            }
            at = at + 1;
        }
        assert(chunks@.take(at as int) == chunks@);
        let ghost data = concat_chunks(chunks@);
        let ghost earlier = diagnostics@;
        let mut part = assembler.finish();
        let ghost fresh = part.diagnostics@;
        shown.append(part.text.as_str());
        diagnostics.append(&mut part.diagnostics);
        proof {
            lemma_absorb_concat(
                AssemblyView::start(),
                complete_lines(data),
                last_line(partial_line(data)),
            );
            lemma_diagnostics_concat(
                AssemblyView::start(),
                complete_lines(data),
                last_line(partial_line(data)),
            );
            assert(text_views(earlier + fresh) == text_views(earlier) + text_views(fresh));
        }
        let turn = assembler.assembled();
        let fault = assembler.fault();
        StreamOutcome { shown, diagnostics, turn, fault }
    }

    /// The request that follows a turn in which the assistant asked for
    /// `tool_calls`: the conversation `history`, that turn, and one tool
    /// turn for each of `results`, in order; no tools are offered again.
    pub fn handle_tool_results(
        &self,
        history: Vec<Message>,
        tool_calls: Vec<ToolCall>,
        results: Vec<String>,
        model: &str,
    ) -> (request: ChatRequest)
        ensures
            request@ == (ChatRequestView {
                model: model@,
                messages: message_views(history@).push(asking_turn(call_views(tool_calls@)))
                    + tool_turns(text_views(results@)),
                stream: true,
                tools: None,
            }),
    {
        let mut messages = history;
        let ghost kept = message_views(messages@);
        let ghost calls = call_views(tool_calls@);
        messages.push(
            Message { role: Role::Assistant, content: String::new(), tool_calls: Some(tool_calls) },
        );
        assert(message_views(messages@) == kept.push(asking_turn(calls)));
        let mut at: usize = 0;
        assert(tool_turns(text_views(results@.take(0))) == Seq::<MessageView>::empty());
        assert(kept.push(asking_turn(calls)) + Seq::<MessageView>::empty() == kept.push(
            asking_turn(calls),
        ));
        while at < results.len()
            invariant
                at <= results.len(),
                message_views(messages@) == kept.push(asking_turn(calls)) + tool_turns(
                    text_views(results@.take(at as int)),
                ),
            decreases results.len() - at,
        {
            let ghost sent = message_views(messages@);
            let turn = Message::tool(results[at].as_str());
            messages.push(turn);
            proof {
                let so_far = tool_turns(text_views(results@.take(at as int)));
                let next = tool_turns(text_views(results@.take(at + 1)));
                assert(next == so_far.push(tool_turn(results[at as int]@)));
                assert(message_views(messages@) == sent.push(turn@));
                assert((kept.push(asking_turn(calls)) + so_far).push(turn@) == kept.push(
                    asking_turn(calls),
                ) + next);
            }
            at = at + 1;
        }
        assert(results@.take(at as int) == results@);
        ChatRequest { model: String::from_str(model), messages, stream: true, tools: None }
    }
}

} // verus!
