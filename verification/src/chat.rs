//! The chat session: the history of the conversation and the exchange that
//! is in flight.
//!
//! One call of `generate_response` opens an exchange and hands out the
//! request to send. The caller sends it and feeds what the server answers
//! to `receive`, chunk by chunk, and `end_of_stream` at the end. Each of
//! these says what to do next: read on, run a tool, send a further request,
//! or stop. Nothing of an exchange enters the history before its final
//! answer is there, so an exchange that fails leaves no trace.

use crate::client::{tool_turn, ChatRequest, ChatRequestView, OllamaClient};
use crate::message::{
    call_views, clone_calls, clone_messages, message_views, Message, MessageView, Role, ToolCall,
    ToolCallView,
};
use crate::reader::{complete_lines, partial_line};
use crate::stream::{
    absorb_lines, diagnostics_of, last_line, lemma_chunking_is_invisible, AssemblyView,
    StreamAssembler, StreamView,
};
use crate::text::text_views;
use crate::thinking::{reasoning, strip_reasoning, stripped};
use crate::tools::{
    answers, calculator_tool, datetime_tool, lookup, not_found_text, Tool, ToolOutcome,
    ToolOutcomeView, ToolRegistry, ToolView,
};
use vstd::prelude::*;
use vstd::string::*;

verus! {

/// Where an exchange stands.
#[derive(Clone, Copy, Debug, PartialEq, Eq, Structural)]
pub enum Phase {
    /// No exchange is in flight: none was begun, or the last one has ended.
    Done,
    /// A request was handed out and nothing of its answer has come yet.
    Continuing,
    /// The answer is being read.
    Streaming,
    /// The tools that the assistant asked for are being run, and the
    /// result of one that the caller runs is awaited.
    Executing,
}

/// The text of the digit `d`.
pub open spec fn digit_text(d: nat) -> Seq<char> {
    if d == 0 {
        "0"@
    } else if d == 1 {
        "1"@
    } else if d == 2 {
        "2"@
    } else if d == 3 {
        "3"@
    } else if d == 4 {
        "4"@
    } else if d == 5 {
        "5"@
    } else if d == 6 {
        "6"@
    } else if d == 7 {
        "7"@
    } else if d == 8 {
        "8"@
    } else {
        "9"@
    }
}

/// The decimal text of `n`.
pub open spec fn decimal_text(n: nat) -> Seq<char>
    decreases n,
{
    if n < 10 {
        digit_text(n)
    } else {
        decimal_text(n / 10) + digit_text(n % 10)
    }
}

/// The text of the digit `d`.
fn digit(d: u16) -> (text: &'static str)
    requires
        d < 10,
    ensures
        text@ == digit_text(d as nat),
{
    if d == 0 {
        "0"
    } else if d == 1 {
        "1"
    } else if d == 2 {
        "2"
    } else if d == 3 {
        "3"
    } else if d == 4 {
        "4"
    } else if d == 5 {
        "5"
    } else if d == 6 {
        "6"
    } else if d == 7 {
        "7"
    } else if d == 8 {
        "8"
    } else {
        "9"
    }
}

/// The decimal text of `n`.
pub fn decimal(n: u16) -> (text: String)
    ensures
        text@ == decimal_text(n as nat),
    decreases n,
{
    if n < 10 {
        String::from_str(digit(n))
    } else {
        decimal(n / 10).concat(digit(n % 10))
    }
}

/// The address of the server at `host` and `port`.
pub open spec fn server_url(host: Seq<char>, port: u16) -> Seq<char> {
    "http://"@ + host + ":"@ + decimal_text(port as nat)
}

/// The instruction that asks for a title of the conversation.
pub const TITLE_PROMPT: &'static str =
    "長文は禁止されています。また、余計な文章も禁止されています。会話内容からユーザー目線でのタイトルを日本語で生成してください。";

/// The state of a session as a mathematical value.
pub struct ChatView {
    /// The address of the server.
    pub base_url: Seq<char>,
    /// The model that answers.
    pub tool_model: Seq<char>,
    /// The model that writes titles.
    pub vision_model: Seq<char>,
    /// The tools that the model may ask for.
    pub tools: Seq<ToolView>,
    /// The turns of the exchanges that have ended, in order.
    pub history: Seq<MessageView>,
    /// Where the exchange in flight stands.
    pub phase: Phase,
    /// The turns of the exchange in flight, which are not in the history
    /// yet.
    pub pending: Seq<MessageView>,
    /// The answer as far as it has been read.
    pub stream: StreamView,
    /// The requests of the turn whose tools are being run.
    pub calls: Seq<ToolCallView>,
    /// How many of them have been answered.
    pub next_call: nat,
}

/// The stream of which nothing has been read.
pub open spec fn fresh_stream() -> StreamView {
    StreamView { pending: Seq::empty(), assembly: AssemblyView::start() }
}

/// The turn of the user that says `prompt`.
pub open spec fn user_turn(prompt: Seq<char>) -> MessageView {
    MessageView { role: Role::User, content: prompt, tool_calls: None }
}

/// The turn of the assistant that says `content`.
pub open spec fn answer_turn(content: Seq<char>) -> MessageView {
    MessageView { role: Role::Assistant, content, tool_calls: None }
}

impl ChatView {
    /// The session at rest: no exchange in flight, the history as it is.
    pub open spec fn at_rest(self) -> ChatView {
        ChatView {
            phase: Phase::Done,
            pending: Seq::empty(),
            stream: fresh_stream(),
            calls: Seq::empty(),
            next_call: 0,
            ..self
        }
    }

    /// The session after the conversation was forgotten.
    pub open spec fn cleared(self) -> ChatView {
        ChatView { history: Seq::empty(), ..self.at_rest() }
    }

    /// The session after an exchange was begun with `prompt`: the user's
    /// turn waits outside the history.
    pub open spec fn begun(self, prompt: Seq<char>) -> ChatView {
        ChatView {
            phase: Phase::Continuing,
            pending: seq![user_turn(prompt)],
            ..self.at_rest()
        }
    }

    /// The request that carries the whole conversation: the history and the
    /// turns of the exchange in flight, to the model that answers, with the
    /// tools that it may ask for.
    pub open spec fn request(self) -> ChatRequestView {
        ChatRequestView {
            model: self.tool_model,
            messages: self.history + self.pending,
            stream: true,
            tools: if self.tools.len() == 0 {
                None
            } else {
                Some(self.tools)
            },
        }
    }

    /// The request that asks for a title: the history and the instruction,
    /// to the model that writes titles, in one piece and without tools.
    pub open spec fn title_request(self) -> ChatRequestView {
        ChatRequestView {
            model: self.vision_model,
            messages: self.history.push(user_turn(TITLE_PROMPT@)),
            stream: false,
            tools: None,
        }
    }

    /// Whether an answer is awaited or being read.
    pub open spec fn reading(self) -> bool {
        self.phase == Phase::Continuing || self.phase == Phase::Streaming
    }

    /// The session after the chunk `chunk` of the answer was read.
    pub open spec fn fed(self, chunk: Seq<u8>) -> ChatView {
        ChatView {
            phase: Phase::Streaming,
            stream: StreamView {
                pending: partial_line(self.stream.pending + chunk),
                assembly: absorb_lines(
                    self.stream.assembly,
                    complete_lines(self.stream.pending + chunk),
                ),
            },
            ..self
        }
    }

    /// The session after the stream of the answer ended: the line that no
    /// line end closed was read, and the answer has ended.
    pub open spec fn ended(self) -> ChatView {
        ChatView {
            phase: Phase::Streaming,
            stream: StreamView {
                pending: Seq::empty(),
                assembly: AssemblyView {
                    done: true,
                    ..absorb_lines(self.stream.assembly, last_line(self.stream.pending))
                },
            },
            ..self
        }
    }

    /// Whether the result of a tool that the caller runs is awaited.
    pub open spec fn awaiting(self) -> bool {
        self.phase == Phase::Executing && self.next_call < self.calls.len()
    }

    /// The session after the caller's tool answered `content`.
    pub open spec fn answered(self, content: Seq<char>) -> ChatView {
        ChatView {
            pending: self.pending.push(tool_turn(content)),
            next_call: self.next_call + 1,
            ..self
        }
    }

    /// The session after its exchange ended with an answer that says
    /// `content`: the turns of the exchange and the answer, without its
    /// reasoning, have entered the history.
    pub open spec fn settled(self, content: Seq<char>) -> ChatView {
        ChatView {
            history: self.history + self.pending.push(answer_turn(stripped(content))),
            ..self.at_rest()
        }
    }
}

/// The session as it begins: with the server at `host` and `port`, the two
/// models, the tool that tells the time and the tool that evaluates a
/// formula, an empty history and no exchange in flight.
pub open spec fn new_session(
    host: Seq<char>,
    port: u16,
    tool_model: Seq<char>,
    vision_model: Seq<char>,
) -> ChatView {
    ChatView {
        base_url: server_url(host, port),
        tool_model,
        vision_model,
        tools: seq![datetime_tool(), calculator_tool()],
        history: Seq::empty(),
        phase: Phase::Done,
        pending: Seq::empty(),
        stream: fresh_stream(),
        calls: Seq::empty(),
        next_call: 0,
    }
}

/// The title that a response gives: its reasoning where it has one, else the
/// response itself.
pub open spec fn title_of(response: Seq<char>) -> Seq<char> {
    match reasoning(response) {
        Some(inner) => inner,
        None => response,
    }
}

/// What the caller is to do next, as a mathematical value.
pub enum StepView {
    Idle,
    Read,
    Execute(ToolCallView),
    Request(ChatRequestView),
    Done(Seq<char>),
    Failed(Seq<char>),
}

/// What the caller is to do next.
#[derive(Debug)]
pub enum Step {
    /// Nothing: no answer was awaited.
    Idle,
    /// Read on: the answer has not ended.
    Read,
    /// Run this tool and hand the result to `tool_finished`.
    Execute(ToolCall),
    /// Send this request and feed its answer.
    Request(ChatRequest),
    /// Stop: the exchange has ended with this answer, as it was shown.
    Done(String),
    /// Stop: the backend reported that it failed, with this message.
    Failed(String),
}

impl View for Step {
    type V = StepView;

    open spec fn view(&self) -> StepView {
        match self {
            Step::Idle => StepView::Idle,
            Step::Read => StepView::Read,
            Step::Execute(call) => StepView::Execute(call@),
            Step::Request(request) => StepView::Request(request@),
            Step::Done(answer) => StepView::Done(answer@),
            Step::Failed(message) => StepView::Failed(message@),
        }
    }
}

/// What a step of an exchange gives: what to show at once, and what to do
/// next.
#[derive(Debug)]
pub struct Progress {
    /// The text that the frames read added, to be shown as it is.
    pub shown: String,
    /// One message for each line that was no frame.
    pub diagnostics: Vec<String>,
    /// What to do next.
    pub step: Step,
}

/// Whether `after` and `step` are what running the tools from `before` on
/// comes to. The requests not yet answered are taken in order. Each one
/// that the library answers adds one tool turn with the answer. The first
/// one that is left to the caller stops the run: it is handed out, and the
/// session waits for its result. When none is left, the request that
/// carries the whole conversation is handed out. The history stays as it
/// is.
pub open spec fn runs_tools(before: ChatView, after: ChatView, step: StepView) -> bool {
    &&& after == (ChatView {
        phase: after.phase,
        pending: after.pending,
        stream: after.stream,
        next_call: after.next_call,
        ..before
    })
    &&& before.next_call <= after.next_call
    &&& after.next_call <= before.calls.len() || after.next_call == before.next_call
    &&& after.pending.len() == before.pending.len() + (after.next_call - before.next_call)
    &&& after.pending.take(before.pending.len() as int) == before.pending
    &&& forall|j: int|
        before.pending.len() <= j < after.pending.len() ==> {
            &&& (#[trigger] after.pending[j]).role == Role::Tool
            &&& after.pending[j].tool_calls is None
            &&& answers(
                before.tools,
                before.calls[before.next_call + (j - before.pending.len())],
                ToolOutcomeView::Reply(after.pending[j].content),
            )
        }
    &&& if after.next_call < before.calls.len() {
        &&& after.phase == Phase::Executing
        &&& after.stream == before.stream
        &&& answers(before.tools, before.calls[after.next_call as int], ToolOutcomeView::External)
        &&& step == StepView::Execute(before.calls[after.next_call as int])
    } else {
        &&& after.phase == Phase::Continuing
        &&& after.stream == fresh_stream()
        &&& step == StepView::Request(after.request())
    }
}

/// The session in which the tools of the answer that `asked` has read are
/// about to be run: the turn that asks for them has joined the turns of the
/// exchange.
pub open spec fn tools_begun(asked: ChatView) -> ChatView {
    ChatView {
        phase: Phase::Executing,
        pending: asked.pending.push(asked.stream.assembly.turn()),
        calls: asked.stream.assembly.tool_calls,
        next_call: 0,
        ..asked
    }
}

/// Whether `after` and `step` are what the end of the answer comes to. A
/// failure that the backend reported ends the exchange and drops its turns.
/// A turn that asks for tools joins the turns of the exchange, and its
/// tools are run. Any other turn is the answer: the exchange ends, and its
/// turns enter the history.
pub open spec fn concludes(before: ChatView, after: ChatView, step: StepView) -> bool {
    let assembly = before.stream.assembly;
    match assembly.fault {
        Some(message) => after == before.at_rest() && step == StepView::Failed(message),
        None => if assembly.tool_calls.len() > 0 {
            runs_tools(tools_begun(before), after, step)
        } else {
            after == before.settled(assembly.content) && step == StepView::Done(assembly.content)
        },
    }
}

/// An exchange enters the history only when it ends with an answer: the
/// end of an answer that does not end the exchange so leaves the history
/// as it is, and the answer that ends it adds the turns of the exchange
/// and the answer without its reasoning.
pub proof fn lemma_history_waits_for_answer(before: ChatView, after: ChatView, step: StepView)
    requires
        concludes(before, after, step),
    ensures
        !(step is Done) ==> after.history == before.history,
        step matches StepView::Done(answer) ==> after.history == before.history
            + before.pending.push(answer_turn(stripped(answer))),
        step is Done || step is Failed ==> after.phase == Phase::Done && after.pending.len() == 0,
{
}

/// Running tools never touches the history and never ends the exchange:
/// what comes next is a tool for the caller to run or a further request.
pub proof fn lemma_tools_keep_history(before: ChatView, after: ChatView, step: StepView)
    requires
        runs_tools(before, after, step),
    ensures
        after.history == before.history,
        step is Execute || step is Request,
{
}

/// Requests for tools that are not there never stop the exchange: each
/// gets a tool turn that says that the tool was not found, in the order of
/// the requests, and the conversation goes on with a further request.
pub proof fn lemma_unknown_tools_go_on(before: ChatView, after: ChatView, step: StepView)
    requires
        runs_tools(before, after, step),
        before.next_call <= before.calls.len(),
        forall|i: int|
            before.next_call <= i < before.calls.len() ==> lookup(
                before.tools,
                (#[trigger] before.calls[i]).name,
            ) is None,
    ensures
        step == StepView::Request(after.request()),
        after.phase == Phase::Continuing,
        after.next_call == before.calls.len(),
        after.pending.len() == before.pending.len() + (before.calls.len() - before.next_call),
        forall|j: int|
            before.pending.len() <= j < after.pending.len() ==> #[trigger] after.pending[j]
                == tool_turn(
                not_found_text(before.calls[before.next_call + (j - before.pending.len())].name),
            ),
{
    assert(after.next_call >= before.calls.len()) by {
        if after.next_call < before.calls.len() {
            let call = before.calls[after.next_call as int];
            assert(lookup(before.tools, call.name) is None);
        }
    }
    assert forall|j: int| before.pending.len() <= j < after.pending.len() implies #[trigger] after.pending[j]
        == tool_turn(
        not_found_text(before.calls[before.next_call + (j - before.pending.len())].name),
    ) by {
        let call = before.calls[before.next_call + (j - before.pending.len())];
        assert(lookup(before.tools, call.name) is None);
    }
}

/// An exchange in which the first answer asks for tools that the library
/// runs, and the second answer asks for none, ends after that one run of
/// tools, and adds to the history, in order: the user's turn, the turn that
/// asks for the tools, one tool turn for each request, and the final answer
/// without its reasoning.
pub proof fn lemma_one_tool_pass(
    start: ChatView,
    prompt: Seq<char>,
    asked: ChatView,
    after_tools: ChatView,
    first: StepView,
    answered: ChatView,
    end: ChatView,
    last: StepView,
)
    requires
        asked == (ChatView {
            phase: Phase::Streaming,
            stream: asked.stream,
            ..start.begun(prompt)
        }),
        asked.stream.assembly.fault is None,
        asked.stream.assembly.tool_calls.len() > 0,
        concludes(asked, after_tools, first),
        first is Request,
        answered == (ChatView { phase: Phase::Streaming, stream: answered.stream, ..after_tools }),
        answered.stream.assembly.fault is None,
        answered.stream.assembly.tool_calls.len() == 0,
        concludes(answered, end, last),
    ensures
        last == StepView::Done(answered.stream.assembly.content),
        end.phase == Phase::Done,
        end.history.len() == start.history.len() + asked.stream.assembly.tool_calls.len() + 3,
        end.history.take(start.history.len() as int) == start.history,
        end.history[start.history.len() as int] == user_turn(prompt),
        end.history[start.history.len() as int + 1] == asked.stream.assembly.turn(),
        forall|i: int|
            0 <= i < asked.stream.assembly.tool_calls.len() ==> {
                &&& (#[trigger] end.history[start.history.len() as int + 2 + i]).role == Role::Tool
                &&& end.history[start.history.len() as int + 2 + i].tool_calls is None
                &&& answers(
                    start.tools,
                    asked.stream.assembly.tool_calls[i],
                    ToolOutcomeView::Reply(end.history[start.history.len() as int + 2 + i].content),
                )
            },
        end.history.last() == answer_turn(stripped(answered.stream.assembly.content)),
{
    let calls = asked.stream.assembly.tool_calls;
    let waiting = seq![user_turn(prompt)].push(asked.stream.assembly.turn());
    let kept = after_tools.pending;
    assert(kept.take(2) == waiting);
    assert(kept.len() == 2 + calls.len());
    assert(kept[0] == waiting[0] && kept[1] == waiting[1]);
    let added = kept.push(answer_turn(stripped(answered.stream.assembly.content)));
    assert(end.history == start.history + added);
    assert forall|i: int| 0 <= i < calls.len() implies {
        &&& (#[trigger] end.history[start.history.len() as int + 2 + i]).role == Role::Tool
        &&& end.history[start.history.len() as int + 2 + i].tool_calls is None
        &&& answers(
            start.tools,
            calls[i],
            ToolOutcomeView::Reply(end.history[start.history.len() as int + 2 + i].content),
        )
    } by {
        assert(end.history[start.history.len() as int + 2 + i] == kept[2 + i]);
    }
}

/// How the bytes of an answer are cut into chunks does not matter to the
/// session: reading two chunks, cut anywhere, leaves it where reading the
/// two as one chunk leaves it.
pub proof fn lemma_session_chunking(session: ChatView, first: Seq<u8>, second: Seq<u8>)
    ensures
        session.fed(first).fed(second) == session.fed(first + second),
{
    lemma_chunking_is_invisible(
        session.stream.assembly,
        session.stream.pending,
        first,
        second,
    );
}

/// One round of an exchange: the session when an answer that asks for
/// tools has ended, and the session after its tools were answered.
pub struct Round {
    pub asked: ChatView,
    pub after: ChatView,
}

/// Whether `after` is what a whole run of the tools of `asked` comes to:
/// the turn that asks for the tools and one tool turn for each request
/// have joined the turns of the exchange, in that order, the history is as
/// it was, and a further request has been handed out.
pub open spec fn tool_pass(asked: ChatView, after: ChatView) -> bool {
    let calls = asked.stream.assembly.tool_calls;
    let kept = asked.pending.len() as int;
    &&& after == (ChatView {
        phase: Phase::Continuing,
        pending: after.pending,
        stream: fresh_stream(),
        calls,
        next_call: calls.len(),
        ..asked
    })
    &&& after.pending.len() == kept + 1 + calls.len()
    &&& after.pending.take(kept) == asked.pending
    &&& after.pending[kept] == asked.stream.assembly.turn()
    &&& forall|j: int|
        kept < j < after.pending.len() ==> (#[trigger] after.pending[j]).role == Role::Tool
            && after.pending[j].tool_calls is None
}

/// An answer that asks for tools which the library runs, all of them, comes
/// to a whole run of its tools, and each tool turn holds what its tool
/// answers.
pub proof fn lemma_library_tools_pass(asked: ChatView, after: ChatView, step: StepView)
    requires
        asked.stream.assembly.fault is None,
        asked.stream.assembly.tool_calls.len() > 0,
        concludes(asked, after, step),
        step is Request,
    ensures
        tool_pass(asked, after),
        step == StepView::Request(after.request()),
        forall|i: int|
            0 <= i < asked.stream.assembly.tool_calls.len() ==> answers(
                asked.tools,
                asked.stream.assembly.tool_calls[i],
                ToolOutcomeView::Reply((#[trigger] after.pending[asked.pending.len() + 1 + i]).content),
            ),
{
    let kept = asked.pending.len() as int;
    let waiting = asked.pending.push(asked.stream.assembly.turn());
    assert(after.pending.take(kept + 1) == waiting);
    assert(after.pending.take(kept) == after.pending.take(kept + 1).take(kept));
    assert(waiting.take(kept) == asked.pending);
    assert(after.pending[kept] == waiting[kept]);
}

/// Whether `to` is `from` with some more of its requests answered: one
/// tool turn for each, behind the turns that were there.
pub open spec fn tools_answered(from: ChatView, to: ChatView) -> bool {
    &&& to == (ChatView {
        phase: to.phase,
        pending: to.pending,
        stream: to.stream,
        next_call: to.next_call,
        ..from
    })
    &&& from.next_call <= to.next_call
    &&& to.pending.len() == from.pending.len() + (to.next_call - from.next_call)
    &&& to.pending.take(from.pending.len() as int) == from.pending
    &&& forall|j: int|
        from.pending.len() <= j < to.pending.len() ==> (#[trigger] to.pending[j]).role
            == Role::Tool && to.pending[j].tool_calls is None
}

/// A run of tools answers some more of the requests.
pub proof fn lemma_run_answers(before: ChatView, after: ChatView, step: StepView)
    requires
        runs_tools(before, after, step),
    ensures
        tools_answered(before, after),
{
}

/// The result of a tool that the caller ran, and the run of tools that
/// follows it, answer some more of the requests.
pub proof fn lemma_caller_tool_goes_on(
    from: ChatView,
    waiting: ChatView,
    content: Seq<char>,
    after: ChatView,
    step: StepView,
)
    requires
        tools_answered(from, waiting),
        waiting.awaiting(),
        runs_tools(waiting.answered(content), after, step),
    ensures
        tools_answered(from, after),
{
    let taken = waiting.answered(content);
    let kept = from.pending.len() as int;
    assert(taken.pending.take(kept) == waiting.pending.take(kept));
    assert(after.pending.take(kept) == after.pending.take(taken.pending.len() as int).take(kept));
    assert forall|j: int| kept <= j < after.pending.len() implies (#[trigger] after.pending[j]).role
        == Role::Tool && after.pending[j].tool_calls is None by {
        if j < taken.pending.len() {
            assert(after.pending[j] == after.pending.take(taken.pending.len() as int)[j]);
            if j < waiting.pending.len() {
                assert(taken.pending[j] == waiting.pending[j]);
            }
        }
    }
}

/// When all the requests of an answer are answered, by the library or by
/// the caller, and the further request has been handed out, the run of its
/// tools is whole.
pub proof fn lemma_answered_is_pass(asked: ChatView, after: ChatView)
    requires
        tools_answered(tools_begun(asked), after),
        after.phase == Phase::Continuing,
        after.stream == fresh_stream(),
        after.next_call == asked.stream.assembly.tool_calls.len(),
    ensures
        tool_pass(asked, after),
{
    let kept = asked.pending.len() as int;
    let waiting = tools_begun(asked).pending;
    assert(after.pending.take(kept) == after.pending.take(kept + 1).take(kept));
    assert(waiting.take(kept) == asked.pending);
    assert(after.pending[kept] == waiting[kept]);
}

/// Whether the round `round` follows a session `before` that awaits an
/// answer: the answer was read, it asks for tools, and its tools were
/// answered.
pub open spec fn follows(before: ChatView, round: Round) -> bool {
    &&& round.asked == (ChatView {
        phase: Phase::Streaming,
        stream: round.asked.stream,
        ..before
    })
    &&& round.asked.stream.assembly.fault is None
    &&& round.asked.stream.assembly.tool_calls.len() > 0
    &&& tool_pass(round.asked, round.after)
}

/// The session after the rounds `rounds` that began at `start`.
pub open spec fn after_rounds(start: ChatView, rounds: Seq<Round>) -> ChatView {
    if rounds.len() == 0 {
        start
    } else {
        rounds.last().after
    }
}

/// Whether the rounds `rounds` follow one another from the session `start`
/// on.
pub open spec fn rounds_from(start: ChatView, rounds: Seq<Round>) -> bool
    decreases rounds.len(),
{
    if rounds.len() == 0 {
        true
    } else {
        &&& rounds_from(start, rounds.drop_last())
        &&& follows(after_rounds(start, rounds.drop_last()), rounds.last())
    }
}

/// How many turns the rounds `rounds` add to an exchange: for each round
/// the turn that asks for tools and one tool turn for each request.
pub open spec fn turns_added(rounds: Seq<Round>) -> nat
    decreases rounds.len(),
{
    if rounds.len() == 0 {
        0
    } else {
        turns_added(rounds.drop_last()) + 1 + rounds.last().asked.stream.assembly.tool_calls.len()
    }
}

/// Rounds that follow one another leave the history as it is and only add
/// turns to the exchange: after them the session awaits the next answer,
/// and the turns of the exchange after each round are the first turns of
/// the exchange after all of them.
pub proof fn lemma_rounds_add_turns(start: ChatView, rounds: Seq<Round>)
    requires
        rounds_from(start, rounds),
    ensures
        after_rounds(start, rounds) == (ChatView {
            phase: after_rounds(start, rounds).phase,
            pending: after_rounds(start, rounds).pending,
            stream: after_rounds(start, rounds).stream,
            calls: after_rounds(start, rounds).calls,
            next_call: after_rounds(start, rounds).next_call,
            ..start
        }),
        rounds.len() > 0 ==> after_rounds(start, rounds).phase == Phase::Continuing,
        after_rounds(start, rounds).pending.len() == start.pending.len() + turns_added(rounds),
        after_rounds(start, rounds).pending.take(start.pending.len() as int) == start.pending,
        forall|r: int|
            0 <= r < rounds.len() ==> (#[trigger] rounds[r]).after.pending == after_rounds(
                start,
                rounds,
            ).pending.take(rounds[r].after.pending.len() as int) && rounds[r].after.pending.len()
                == start.pending.len() + turns_added(rounds.take(r + 1)),
    decreases rounds.len(),
{
    if rounds.len() == 0 {
        assert(start.pending.take(start.pending.len() as int) == start.pending);
    } else {
        let earlier = rounds.drop_last();
        let middle = after_rounds(start, earlier);
        let last = rounds.last();
        let end = last.after;
        lemma_rounds_add_turns(start, earlier);
        let kept = middle.pending.len() as int;
        assert(last.asked.pending == middle.pending);
        assert(end.pending.take(kept) == middle.pending);
        assert(end.pending.take(start.pending.len() as int) == end.pending.take(kept).take(
            start.pending.len() as int,
        ));
        assert forall|r: int| 0 <= r < rounds.len() implies (#[trigger] rounds[r]).after.pending
            == end.pending.take(rounds[r].after.pending.len() as int)
            && rounds[r].after.pending.len() == start.pending.len() + turns_added(
            rounds.take(r + 1),
        ) by {
            if r < rounds.len() - 1 {
                assert(rounds[r] == earlier[r]);
                assert(rounds.take(r + 1) == earlier.take(r + 1));
                let n = earlier[r].after.pending.len() as int;
                assert(earlier[r].after.pending == middle.pending.take(n));
                assert(n <= kept) by {
                    lemma_turns_added_grow(earlier, r + 1);
                }
                assert(end.pending.take(n) == end.pending.take(kept).take(n));
            } else {
                assert(rounds.take(r + 1) == rounds);
                assert(end.pending.take(end.pending.len() as int) == end.pending);
            }
        }
    }
}

/// The first rounds of a run add no more turns than all of them.
pub proof fn lemma_turns_added_grow(rounds: Seq<Round>, n: int)
    requires
        0 <= n <= rounds.len(),
    ensures
        turns_added(rounds.take(n)) <= turns_added(rounds),
    decreases rounds.len(),
{
    if n == rounds.len() {
        assert(rounds.take(n) == rounds);
    } else {
        assert(rounds.drop_last().take(n) == rounds.take(n));
        lemma_turns_added_grow(rounds.drop_last(), n);
    }
}

/// An exchange of any number of rounds ends with the first answer that
/// asks for no tool. When the answers to the first requests each ask for
/// tools and the answer to the next one asks for none, there is one run of
/// tools for each of the first answers and none after the last; the
/// exchange ends with that answer, and the history gains, in order: the
/// user's turn, the turns of the rounds, and the answer without its
/// reasoning.
pub proof fn lemma_tool_rounds_end(
    session: ChatView,
    prompt: Seq<char>,
    rounds: Seq<Round>,
    answered: ChatView,
    end: ChatView,
    last: StepView,
)
    requires
        rounds_from(session.begun(prompt), rounds),
        answered == (ChatView {
            phase: Phase::Streaming,
            stream: answered.stream,
            ..after_rounds(session.begun(prompt), rounds)
        }),
        answered.stream.assembly.fault is None,
        answered.stream.assembly.tool_calls.len() == 0,
        concludes(answered, end, last),
    ensures
        last == StepView::Done(answered.stream.assembly.content),
        end.phase == Phase::Done,
        end.pending.len() == 0,
        end.history.len() == session.history.len() + 1 + turns_added(rounds) + 1,
        end.history.take(session.history.len() as int) == session.history,
        end.history[session.history.len() as int] == user_turn(prompt),
        end.history.last() == answer_turn(stripped(answered.stream.assembly.content)),
        forall|r: int|
            0 <= r < rounds.len() ==> (#[trigger] rounds[r]).after.pending == end.history.subrange(
                session.history.len() as int,
                session.history.len() as int + 1 + turns_added(rounds.take(r + 1)),
            ),
{
    let start = session.begun(prompt);
    lemma_rounds_add_turns(start, rounds);
    let waiting = answered.pending;
    assert(waiting == after_rounds(start, rounds).pending);
    assert(waiting.take(1) == start.pending);
    assert(waiting[0] == start.pending[0]);
    let added = waiting.push(answer_turn(stripped(answered.stream.assembly.content)));
    assert(end.history == session.history + added);
    assert forall|r: int| 0 <= r < rounds.len() implies (#[trigger] rounds[r]).after.pending
        == end.history.subrange(
        session.history.len() as int,
        session.history.len() as int + 1 + turns_added(rounds.take(r + 1)),
    ) by {
        let n = rounds[r].after.pending.len() as int;
        assert(n == 1 + turns_added(rounds.take(r + 1)));
        lemma_turns_added_grow(rounds, r + 1);
        assert(rounds[r].after.pending == waiting.take(n));
        assert(end.history.subrange(session.history.len() as int, session.history.len() + n)
            == waiting.take(n));
    }
}

/// After the history was cleared it is empty, and the next exchange starts
/// afresh: its request carries the user's turn and nothing else.
pub proof fn lemma_clear_starts_afresh(before: ChatView, prompt: Seq<char>)
    ensures
        before.cleared().history == Seq::<MessageView>::empty(),
        before.cleared().begun(prompt).request().messages == seq![user_turn(prompt)],
        before.cleared().begun(prompt).history == Seq::<MessageView>::empty(),
{
    assert(Seq::<MessageView>::empty() + seq![user_turn(prompt)] == seq![user_turn(prompt)]);
}

/// Whether `after` is what one step of an exchange makes of `before`
/// without ending the exchange with an answer: beginning it, reading a
/// chunk of the answer or the end of the stream, taking the result of a
/// tool, or nothing at all.
pub open spec fn exchange_step(before: ChatView, after: ChatView) -> bool {
    ||| after == before
    ||| exists|prompt: Seq<char>| after == #[trigger] before.begun(prompt)
    ||| exists|chunk: Seq<u8>| before.reading() && after == #[trigger] before.fed(chunk)
    ||| exists|chunk: Seq<u8>, step: StepView|
        before.reading() && !(step is Done) && #[trigger] concludes(
            before.fed(chunk),
            after,
            step,
        )
    ||| exists|step: StepView|
        before.reading() && !(step is Done) && #[trigger] concludes(before.ended(), after, step)
    ||| exists|content: Seq<char>, step: StepView|
        before.awaiting() && #[trigger] runs_tools(before.answered(content), after, step)
}

/// A step that does not end the exchange with an answer leaves the history
/// as it is.
pub proof fn lemma_step_keeps_history(before: ChatView, after: ChatView)
    requires
        exchange_step(before, after),
    ensures
        after.history == before.history,
{
}

/// An exchange that fails leaves no trace: whatever was begun, read and
/// run before the failure, the history after the failure is the history
/// from before the exchange.
pub proof fn lemma_failure_leaves_history(states: Seq<ChatView>)
    requires
        states.len() > 0,
        forall|i: int| 0 <= i < states.len() - 1 ==> exchange_step(#[trigger] states[i], states[i + 1]),
    ensures
        states.last().at_rest().history == states[0].history,
        states.last().at_rest().pending.len() == 0,
    decreases states.len(),
{
    if states.len() > 1 {
        let front = states.drop_last();
        assert forall|i: int| 0 <= i < front.len() - 1 implies exchange_step(
            #[trigger] front[i],
            front[i + 1],
        ) by {
            assert(front[i] == states[i]);
            assert(front[i + 1] == states[i + 1]);
        }
        lemma_failure_leaves_history(front);
        let i = states.len() - 2;
        assert(exchange_step(states[i], states[i + 1]));
        lemma_step_keeps_history(states[i], states[i + 1]);
    }
}

/// A chat session.
pub struct Chat {
    client: OllamaClient,
    tool_model: String,
    vision_model: String,
    registry: ToolRegistry,
    history: Vec<Message>,
    phase: Phase,
    pending: Vec<Message>,
    assembler: StreamAssembler,
    calls: Vec<ToolCall>,
    next_call: usize,
}

impl View for Chat {
    type V = ChatView;

    closed spec fn view(&self) -> ChatView {
        ChatView {
            base_url: self.client@,
            tool_model: self.tool_model@,
            vision_model: self.vision_model@,
            tools: self.registry@,
            history: message_views(self.history@),
            phase: self.phase,
            pending: message_views(self.pending@),
            stream: self.assembler@,
            calls: call_views(self.calls@),
            next_call: self.next_call as nat,
        }
    }
}

impl Chat {
    /// A session with the server at `host` and `port`, with an empty
    /// history, and with the tool that tells the time and the tool that
    /// evaluates a formula.
    pub fn new(host: &str, port: u16, tool_model: &str, vision_model: &str) -> (chat: Chat)
        ensures
            chat@ == new_session(host@, port, tool_model@, vision_model@),
    {
        let url = String::from_str("http://").concat(host).concat(":").concat(
            decimal(port).as_str(),
        );
        let mut registry = ToolRegistry::new();
        registry.register(Tool::datetime());
        registry.register(Tool::calculator());
        let chat = Chat {
            client: OllamaClient::new(Some(url)),
            tool_model: String::from_str(tool_model),
            vision_model: String::from_str(vision_model),
            registry,
            history: Vec::new(),
            phase: Phase::Done,
            pending: Vec::new(),
            assembler: StreamAssembler::new(),
            calls: Vec::new(),
            next_call: 0,
        };
        assert(chat@.base_url == server_url(host@, port));
        assert(chat@.tools == seq![datetime_tool(), calculator_tool()]);
        assert(chat@.history == Seq::<MessageView>::empty());
        assert(chat@.pending == Seq::<MessageView>::empty());
        assert(chat@.calls == Seq::<ToolCallView>::empty());
        chat
    }

    /// The client that names the server.
    pub fn client(&self) -> (client: &OllamaClient)
        ensures
            client@ == self@.base_url,
    {
        &self.client
    }

    /// The tools that the model may ask for.
    pub fn registry(&self) -> (registry: &ToolRegistry)
        ensures
            registry@ == self@.tools,
    {
        &self.registry
    }

    /// Where the exchange in flight stands.
    pub fn phase(&self) -> (phase: Phase)
        ensures
            phase == self@.phase,
    {
        self.phase
    }

    /// Adds a tool that the model may ask for.
    pub fn add_tool(&mut self, tool: Tool)
        ensures
            final(self)@ == (ChatView { tools: old(self)@.tools.push(tool@), ..old(self)@ }),
    {
        self.registry.register(tool);
    }

    /// Puts `message` at the end of the history.
    pub fn add_message(&mut self, message: Message)
        ensures
            final(self)@ == (ChatView {
                history: old(self)@.history.push(message@),
                ..old(self)@
            }),
    {
        self.history.push(message);
        assert(message_views(self.history@) == message_views(old(self).history@).push(message@));
    }

    /// The history: the turns of the exchanges that have ended, in order.
    pub fn get_history(&self) -> (history: &Vec<Message>)
        ensures
            message_views(history@) == self@.history,
    {
        &self.history
    }

    /// Forgets the conversation: the history is empty afterwards, and an
    /// exchange in flight is dropped.
    pub fn clear_history(&mut self)
        ensures
            final(self)@ == old(self)@.cleared(),
    {
        self.history.clear();
        self.rest();
        assert(message_views(self.history@) == Seq::<MessageView>::empty());
    }

    /// Drops the exchange in flight.
    fn rest(&mut self)
        ensures
            final(self)@ == old(self)@.at_rest(),
    {
        self.phase = Phase::Done;
        self.pending.clear();
        self.assembler = StreamAssembler::new();
        self.calls.clear();
        self.next_call = 0;
        assert(message_views(self.pending@) == Seq::<MessageView>::empty());
        assert(call_views(self.calls@) == Seq::<ToolCallView>::empty());
    }

    /// The request that carries the whole conversation.
    fn whole_request(&self) -> (request: ChatRequest)
        ensures
            request@ == self@.request(),
    {
        let mut messages = clone_messages(&self.history);
        let mut waiting = clone_messages(&self.pending);
        let ghost kept = message_views(messages@);
        let ghost more = message_views(waiting@);
        messages.append(&mut waiting);
        assert(message_views(messages@) == kept + more);
        let tools = if self.registry.len() == 0 {
            None
        } else {
            Some(self.registry.definitions())
        };
        self.client.chat_stream_with_tools(messages, self.tool_model.as_str(), tools)
    }

    /// Begins an exchange with what the user says, and hands out the
    /// request to send: the history and the user's turn. An exchange that
    /// was in flight is dropped. The history does not change before the
    /// exchange has ended with an answer.
    pub fn generate_response(&mut self, prompt: &str) -> (request: ChatRequest)
        ensures
            final(self)@ == old(self)@.begun(prompt@),
            request@ == final(self)@.request(),
    {
        self.rest();
        self.pending.push(Message::user(prompt));
        self.phase = Phase::Continuing;
        assert(message_views(self.pending@) == seq![user_turn(prompt@)]);
        self.whole_request()
    }

    /// Runs the tools that are not answered yet, in order, up to the first
    /// one that the caller has to run.
    fn advance(&mut self) -> (step: Step)
        ensures
            runs_tools(old(self)@, final(self)@, step@),
    {
        let ghost before = self@;
        assert(self@.pending.take(before.pending.len() as int) == before.pending);
        while self.next_call < self.calls.len()
            invariant
                before == old(self)@,
                self@ == (ChatView {
                    pending: self@.pending,
                    next_call: self@.next_call,
                    ..before
                }),
                before.next_call <= self@.next_call,
                self@.next_call <= before.calls.len() || self@.next_call == before.next_call,
                self@.pending.len() == before.pending.len() + (self@.next_call
                    - before.next_call),
                self@.pending.take(before.pending.len() as int) == before.pending,
                forall|j: int|
                    before.pending.len() <= j < self@.pending.len() ==> {
                        &&& (#[trigger] self@.pending[j]).role == Role::Tool
                        &&& self@.pending[j].tool_calls is None
                        &&& answers(
                            before.tools,
                            before.calls[before.next_call + (j - before.pending.len())],
                            ToolOutcomeView::Reply(self@.pending[j].content),
                        )
                    },
            decreases self.calls.len() - self.next_call,
        {
            let ghost so_far = self@;
            assert(before.calls[self.next_call as int] == self.calls[self.next_call as int]@);
            match self.registry.execute(&self.calls[self.next_call]) {
                ToolOutcome::Reply(text) => {
                    let turn = Message::tool(text.as_str());
                    self.pending.push(turn);
                    self.next_call = self.next_call + 1;
                    assert(self@.pending == so_far.pending.push(turn@));
                },
                ToolOutcome::External => {
                    self.phase = Phase::Executing;
                    let call = self.calls[self.next_call].clone();
                    return Step::Execute(call);
                },
            }
        }
        self.phase = Phase::Continuing;
        self.assembler = StreamAssembler::new();
        Step::Request(self.whole_request())
    }

    /// Ends the reading of an answer.
    fn conclude(&mut self) -> (step: Step)
        ensures
            concludes(old(self)@, final(self)@, step@),
    {
        let ghost before = self@;
        match self.assembler.fault() {
            Some(message) => {
                self.rest();
                return Step::Failed(message);
            },
            None => {},
        }
        let turn = self.assembler.assembled();
        if turn.asks_for_tools() {
            let calls = match &turn.tool_calls {
                Some(calls) => clone_calls(calls),
                None => Vec::new(),
            };
            let ghost asked = turn@;
            self.pending.push(turn);
            self.calls = calls;
            self.next_call = 0;
            self.phase = Phase::Executing;
            assert(asked == before.stream.assembly.turn());
            assert(self@.pending == before.pending.push(asked));
            assert(self@.calls == before.stream.assembly.tool_calls);
            assert(self@ == tools_begun(before));
            self.advance()
        } else {
            let answer = turn.content;
            let kept = Message::assistant(strip_reasoning(answer.as_str()).as_str(), Vec::new());
            let ghost earlier = message_views(self.history@);
            let ghost waiting = message_views(self.pending@);
            self.history.append(&mut self.pending);
            self.history.push(kept);
            assert(message_views(self.history@) == earlier + waiting.push(kept@));
            self.rest();
            Step::Done(answer)
        }
    }

    /// Takes the next bytes of the answer. While the answer has not ended,
    /// the caller reads on. When a frame ends it, the exchange goes on as
    /// the answer asks: its tools are run, or it is the final answer and
    /// enters the history, or the backend has failed and the exchange is
    /// dropped. Where no answer is awaited, nothing happens.
    pub fn receive(&mut self, chunk: &[u8]) -> (progress: Progress)
        ensures
            !old(self)@.reading() ==> final(self)@ == old(self)@ && progress.step@ is Idle
                && progress.shown@.len() == 0,
            old(self)@.reading() ==> old(self)@.fed(chunk@).stream.assembly.content == old(self)@.stream.assembly.content + progress.shown@,
            old(self)@.reading() && !old(self)@.fed(chunk@).stream.assembly.closed() ==> final(self)@ == old(self)@.fed(chunk@) && progress.step@ is Read,
            old(self)@.reading() && old(self)@.fed(chunk@).stream.assembly.closed() ==> concludes(
                old(self)@.fed(chunk@),
                final(self)@,
                progress.step@,
            ),
            !old(self)@.reading() ==> progress.diagnostics@.len() == 0,
            old(self)@.reading() ==> text_views(progress.diagnostics@) == diagnostics_of(
                old(self)@.stream.assembly,
                complete_lines(old(self)@.stream.pending + chunk@),
            ),
    {
        if !(self.phase == Phase::Continuing || self.phase == Phase::Streaming) {
            return Progress { shown: String::new(), diagnostics: Vec::new(), step: Step::Idle };
        }
        let part = self.assembler.feed(chunk);
        self.phase = Phase::Streaming;
        assert(self@ == old(self)@.fed(chunk@));
        let step = if self.assembler.is_closed() {
            self.conclude()
        } else {
            Step::Read
        };
        Progress { shown: part.text, diagnostics: part.diagnostics, step }
    }

    /// Takes the end of the stream. What was read is the answer, also
    /// where no frame ended it, and the exchange goes on as after a frame
    /// that ends the answer. Where no answer is awaited, nothing happens.
    pub fn end_of_stream(&mut self) -> (progress: Progress)
        ensures
            !old(self)@.reading() ==> final(self)@ == old(self)@ && progress.step@ is Idle
                && progress.shown@.len() == 0,
            old(self)@.reading() ==> old(self)@.ended().stream.assembly.content == old(self)@.stream.assembly.content + progress.shown@,
            old(self)@.reading() ==> concludes(
                old(self)@.ended(),
                final(self)@,
                progress.step@,
            ),
            !old(self)@.reading() ==> progress.diagnostics@.len() == 0,
            old(self)@.reading() ==> text_views(progress.diagnostics@) == diagnostics_of(
                old(self)@.stream.assembly,
                last_line(old(self)@.stream.pending),
            ),
    {
        if !(self.phase == Phase::Continuing || self.phase == Phase::Streaming) {
            return Progress { shown: String::new(), diagnostics: Vec::new(), step: Step::Idle };
        }
        let part = self.assembler.finish();
        self.phase = Phase::Streaming;
        assert(self@ == old(self)@.ended());
        let step = self.conclude();
        Progress { shown: part.text, diagnostics: part.diagnostics, step }
    }

    /// Takes the result of the tool that was handed out: what the tool
    /// answered, or the message of its failure. Either is the content of
    /// the tool turn, for the model to see, and the tools that are left are
    /// run. Where no result is awaited, nothing happens.
    pub fn tool_finished(&mut self, outcome: Result<String, String>) -> (progress: Progress)
        ensures
            progress.shown@.len() == 0,
            progress.diagnostics@.len() == 0,
            !old(self)@.awaiting() ==> final(self)@ == old(self)@ && progress.step@ is Idle,
            old(self)@.awaiting() ==> runs_tools(
                old(self)@.answered(
                    match outcome {
                        Ok(text) => text@,
                        Err(message) => message@,
                    },
                ),
                final(self)@,
                progress.step@,
            ),
    {
        if !(self.phase == Phase::Executing && self.next_call < self.calls.len()) {
            return Progress { shown: String::new(), diagnostics: Vec::new(), step: Step::Idle };
        }
        let content = match outcome {
            Ok(text) => text,
            Err(message) => message,
        };
        let turn = Message::tool(content.as_str());
        let ghost waiting = message_views(self.pending@);
        self.pending.push(turn);
        self.next_call = self.next_call + 1;
        assert(message_views(self.pending@) == waiting.push(turn@));
        let step = self.advance();
        Progress { shown: String::new(), diagnostics: Vec::new(), step }
    }

    /// Ends the exchange in flight without an answer, as when the request
    /// could not be sent or the server refused it: its turns are dropped,
    /// the history is what it was before the exchange began, and the
    /// session is ready for the next one. Hands back the message to show.
    pub fn transport_failed(&mut self, reason: &str) -> (message: String)
        ensures
            final(self)@ == old(self)@.at_rest(),
            final(self)@.history == old(self)@.history,
            message@ == "Error: "@ + reason@,
    {
        self.rest();
        String::from_str("Error: ").concat(reason)
    }

    /// The request that asks for a title of the conversation. The history
    /// itself does not change: the instruction goes into a copy.
    pub fn title_request(&self) -> (request: ChatRequest)
        ensures
            request@ == self@.title_request(),
    {
        let mut messages = clone_messages(&self.history);
        let ghost kept = message_views(messages@);
        messages.push(Message::user(TITLE_PROMPT));
        assert(message_views(messages@) == kept.push(user_turn(TITLE_PROMPT@)));
        ChatRequest {
            model: self.vision_model.clone(),
            messages,
            stream: false,
            tools: None,
        }
    }

    /// The title that the response to the title request gives: the
    /// reasoning of the response where it has one, else the response as it
    /// is.
    pub fn generate_title(&self, response: &str) -> (title: String)
        ensures
            title@ == title_of(response@),
    {
        match self.get_thinking(response, false) {
            Some(inner) => inner,
            None => String::from_str(response),
        }
    }

    /// The part of `text` that the caller asks for: with `is_result`, the
    /// text without its reasoning segment; without it, the reasoning alone,
    /// if there is one.
    pub fn get_thinking(&self, text: &str, is_result: bool) -> (part: Option<String>)
        ensures
            is_result ==> part is Some && part->0@ == stripped(text@),
            !is_result ==> (part is Some <==> reasoning(text@) is Some),
            !is_result ==> (part matches Some(inner) ==> reasoning(text@) == Some(inner@)),
    {
        crate::thinking::get_thinking(text, is_result)
    }
}

impl Default for Chat {
    /// A session with the local server and the usual models.
    fn default() -> (chat: Chat)
        ensures
            chat@ == new_session("localhost"@, 11434, "qwq:32b"@, "gemma3:27b"@),
    {
        Chat::new("localhost", 11434, "qwq:32b", "gemma3:27b")
    }
}

} // verus!
