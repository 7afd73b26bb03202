//! Reading a streamed response: from the bytes of the stream to the
//! assistant's turn.

use crate::frame::{decode_backend_error, decode_frame, read_frame, read_text, ChatResponse, FrameView};
use crate::json::{parse, parsed_document};
use crate::message::{call_views, Message, MessageView, Role, ToolCall, ToolCallView};
use crate::reader::{complete_lines, line_bytes, partial_line, LineReader, CARRIAGE_RETURN};
use crate::text::{blank, is_blank, text_views};
use vstd::prelude::*;
use vstd::string::*;
use vstd::utf8::{decode_utf8, valid_utf8};

verus! {

/// The text that the standard library reads from `bytes`, with a replacement
/// character in place of what is not UTF-8.
pub uninterp spec fn lossy_text(bytes: Seq<u8>) -> Seq<char>;

/// The text of `bytes`.
///
/// Trusted: calls `String::from_utf8_lossy` of the standard library, which
/// decodes UTF-8 and puts U+FFFD in place of invalid sequences. The contract
/// names the result, and says that bytes which are UTF-8 give the text that
/// they encode.
#[verifier::external_body]
fn text_of_bytes(bytes: &[u8]) -> (text: String)
    ensures
        text@ == lossy_text(bytes@),
        valid_utf8(bytes@) ==> text@ == decode_utf8(bytes@),
{
    String::from_utf8_lossy(bytes).into_owned()
}

/// `line` without the carriage return that it may end with.
pub open spec fn strip_return(line: Seq<u8>) -> Seq<u8> {
    if line.len() > 0 && line.last() == CARRIAGE_RETURN {
        line.drop_last()
    } else {
        line
    }
}

/// The text of a line of the stream.
pub open spec fn line_text(line: Seq<u8>) -> Seq<char> {
    lossy_text(strip_return(line))
}

/// What one line of the stream says, as a mathematical value.
pub enum LineEventView {
    /// Nothing: the line holds white space only.
    Blank,
    /// A frame of the response.
    Frame(FrameView),
    /// The backend reports that it failed.
    Fault(Seq<char>),
    /// The line is no frame, for the reason given; the stream goes on.
    Undecodable { reason: Seq<char>, line: Seq<char> },
}

/// The reason that is given for a document that is no frame.
pub const NOT_A_FRAME: &'static str = "not a response frame";

/// What the line `line` says. A line that is no JSON document is no frame
/// for the reason that the parser gives; a document that is neither a
/// frame nor a failure of the backend is no frame either.
pub open spec fn read_line(line: Seq<u8>) -> LineEventView {
    let text = line_text(line);
    if is_blank(text) {
        LineEventView::Blank
    } else {
        match parsed_document(text) {
            Err(reason) => LineEventView::Undecodable { reason, line: text },
            Ok(doc) => match decode_backend_error(doc) {
                Some(message) => LineEventView::Fault(message),
                None => match decode_frame(doc) {
                    Some(frame) => LineEventView::Frame(frame),
                    None => LineEventView::Undecodable { reason: NOT_A_FRAME@, line: text },
                },
            },
        }
    }
}

/// A line that is no frame, with the reason.
#[derive(Debug)]
pub struct DecodeFailure {
    pub reason: String,
    pub line: String,
}

impl DecodeFailure {
    /// The message that reports the failure.
    pub fn diagnostic(&self) -> (message: String)
        ensures
            message@ == failure_text(self.reason@, self.line@),
    {
        String::from_str("Failed to parse response: ").concat(self.reason.as_str()).concat(
            " - Line: ",
        ).concat(self.line.as_str())
    }
}

/// What one line of the stream says.
#[derive(Debug)]
pub enum LineEvent {
    /// Nothing: the line holds white space only.
    Blank,
    /// A frame of the response.
    Frame(ChatResponse),
    /// The backend reports that it failed.
    Fault(String),
    /// The line is no frame; the stream goes on.
    Undecodable(DecodeFailure),
}

impl View for LineEvent {
    type V = LineEventView;

    open spec fn view(&self) -> LineEventView {
        match self {
            LineEvent::Blank => LineEventView::Blank,
            LineEvent::Frame(frame) => LineEventView::Frame(frame@),
            LineEvent::Fault(message) => LineEventView::Fault(message@),
            LineEvent::Undecodable(failure) => LineEventView::Undecodable {
                reason: failure.reason@,
                line: failure.line@,
            },
        }
    }
}

/// Reads one line of the stream. A line that is no frame is reported with
/// the line's text, and with the parser's message or, where the line is a
/// document, the note that the document is no frame.
pub fn decode_line(line: &Vec<u8>) -> (event: LineEvent)
    ensures
        event@ == read_line(line@),
{
    let mut end: usize = line.len();
    if end > 0 && line[end - 1] == CARRIAGE_RETURN {
        end = end - 1;
    }
    let bytes = vstd::slice::slice_subrange(line.as_slice(), 0, end);
    assert(bytes@ == strip_return(line@));
    let text = text_of_bytes(bytes);
    if blank(text.as_str()) {
        return LineEvent::Blank;
    }
    match parse(text.as_str()) {
        Err(reason) => LineEvent::Undecodable(DecodeFailure { reason, line: text }),
        Ok(doc) => match read_text(&doc, "error") {
            Some(message) => LineEvent::Fault(message),
            None => match read_frame(&doc) {
                Some(frame) => LineEvent::Frame(frame),
                None => LineEvent::Undecodable(
                    DecodeFailure { reason: String::from_str(NOT_A_FRAME), line: text },
                ),
            },
        },
    }
}

/// What has been put together of the assistant's turn so far.
pub struct AssemblyView {
    /// The text of the frames read, one after another.
    pub content: Seq<char>,
    /// The tool calls of the frames read, in the order of arrival.
    pub tool_calls: Seq<ToolCallView>,
    /// Whether the last frame has been read.
    pub done: bool,
    /// The backend's message, where it reported that it failed.
    pub fault: Option<Seq<char>>,
}

impl AssemblyView {
    /// Nothing read yet.
    pub open spec fn start() -> AssemblyView {
        AssemblyView { content: Seq::empty(), tool_calls: Seq::empty(), done: false, fault: None }
    }

    /// Whether the response has ended: nothing that follows is read.
    pub open spec fn closed(self) -> bool {
        self.done || self.fault is Some
    }

    /// The assistant's turn as put together: the whole text and, where any
    /// came, the tool calls.
    pub open spec fn turn(self) -> MessageView {
        MessageView {
            role: Role::Assistant,
            content: self.content,
            tool_calls: if self.tool_calls.len() == 0 {
                None
            } else {
                Some(self.tool_calls)
            },
        }
    }
}

/// The tool calls that `frame` carries.
pub open spec fn frame_calls(frame: FrameView) -> Seq<ToolCallView> {
    match frame.message.tool_calls {
        Some(calls) => calls,
        None => Seq::empty(),
    }
}

/// Whether `event` ends the response.
pub open spec fn closes(event: LineEventView) -> bool {
    match event {
        LineEventView::Frame(frame) => frame.done,
        LineEventView::Fault(_) => true,
        _ => false,
    }
}

/// The text that `event` adds to the turn.
pub open spec fn event_text(event: LineEventView) -> Seq<char> {
    match event {
        LineEventView::Frame(frame) => frame.message.content,
        _ => Seq::empty(),
    }
}

/// The turn after `event`: a frame adds its text and its tool calls and
/// says whether it is the last; a failure of the backend ends the response;
/// nothing else changes anything, and nothing changes a response that has
/// ended.
pub open spec fn absorb(so_far: AssemblyView, event: LineEventView) -> AssemblyView {
    if so_far.closed() {
        so_far
    } else {
        match event {
            LineEventView::Frame(frame) => AssemblyView {
                content: so_far.content + frame.message.content,
                tool_calls: so_far.tool_calls + frame_calls(frame),
                done: frame.done,
                fault: None,
            },
            LineEventView::Fault(message) => AssemblyView { fault: Some(message), ..so_far },
            _ => so_far,
        }
    }
}

/// The text that `event` adds to a turn put together so far.
pub open spec fn shown_by(so_far: AssemblyView, event: LineEventView) -> Seq<char> {
    if so_far.closed() {
        Seq::empty()
    } else {
        event_text(event)
    }
}

/// An event adds to the text of the turn what it shows, at the end.
pub proof fn lemma_absorb_adds(so_far: AssemblyView, event: LineEventView)
    ensures
        absorb(so_far, event).content == so_far.content + shown_by(so_far, event),
{
}

/// The turn after the lines `lines`, read in order.
pub open spec fn absorb_lines(so_far: AssemblyView, lines: Seq<Seq<u8>>) -> AssemblyView
    decreases lines.len(),
{
    if lines.len() == 0 {
        so_far
    } else {
        absorb(absorb_lines(so_far, lines.drop_last()), read_line(lines.last()))
    }
}

/// Reading two runs of lines one after the other is reading them as one
/// run.
pub proof fn lemma_absorb_concat(so_far: AssemblyView, first: Seq<Seq<u8>>, second: Seq<Seq<u8>>)
    ensures
        absorb_lines(so_far, first + second) == absorb_lines(absorb_lines(so_far, first), second),
    decreases second.len(),
{
    if second.len() == 0 {
        assert(first + second == first);
    } else {
        assert((first + second).drop_last() == first + second.drop_last());
        lemma_absorb_concat(so_far, first, second.drop_last());
    }
}

/// Where the bytes of a response are cut into chunks does not matter: two
/// chunks, cut anywhere, also in the middle of a line, give the turn and
/// leave the open line that the two give as one chunk.
pub proof fn lemma_chunking_is_invisible(
    so_far: AssemblyView,
    pending: Seq<u8>,
    first: Seq<u8>,
    second: Seq<u8>,
)
    ensures
        absorb_lines(
            absorb_lines(so_far, complete_lines(pending + first)),
            complete_lines(partial_line(pending + first) + second),
        ) == absorb_lines(so_far, complete_lines(pending + (first + second))),
        partial_line(partial_line(pending + first) + second) == partial_line(
            pending + (first + second),
        ),
{
    assert(pending + (first + second) == (pending + first) + second);
    crate::reader::lemma_split_anywhere(pending + first, second);
    lemma_absorb_concat(
        so_far,
        complete_lines(pending + first),
        complete_lines(partial_line(pending + first) + second),
    );
}

/// The frames among the lines `lines`, in order.
pub open spec fn frames_of(lines: Seq<Seq<u8>>) -> Seq<FrameView>
    decreases lines.len(),
{
    if lines.len() == 0 {
        Seq::empty()
    } else {
        match read_line(lines.last()) {
            LineEventView::Frame(frame) => frames_of(lines.drop_last()).push(frame),
            _ => frames_of(lines.drop_last()),
        }
    }
}

/// The texts of `frames`, one after another.
pub open spec fn concat_contents(frames: Seq<FrameView>) -> Seq<char>
    decreases frames.len(),
{
    if frames.len() == 0 {
        Seq::empty()
    } else {
        concat_contents(frames.drop_last()) + frames.last().message.content
    }
}

/// The tool calls of `frames`, one after another.
pub open spec fn concat_calls(frames: Seq<FrameView>) -> Seq<ToolCallView>
    decreases frames.len(),
{
    if frames.len() == 0 {
        Seq::empty()
    } else {
        concat_calls(frames.drop_last()) + frame_calls(frames.last())
    }
}

/// No line of `lines` ends the response.
pub open spec fn none_closes(lines: Seq<Seq<u8>>) -> bool {
    forall|i: int| 0 <= i < lines.len() ==> !closes(#[trigger] read_line(lines[i]))
}

/// Lines of which none ends the response leave it open, and the turn holds
/// the texts and the tool calls of their frames in the order of arrival.
pub proof fn lemma_open_response(lines: Seq<Seq<u8>>)
    requires
        none_closes(lines),
    ensures
        !absorb_lines(AssemblyView::start(), lines).closed(),
        absorb_lines(AssemblyView::start(), lines).content == concat_contents(frames_of(lines)),
        absorb_lines(AssemblyView::start(), lines).tool_calls == concat_calls(frames_of(lines)),
    decreases lines.len(),
{
    if lines.len() > 0 {
        let front = lines.drop_last();
        assert forall|i: int| 0 <= i < front.len() implies !closes(
            #[trigger] read_line(front[i]),
        ) by {
            assert(front[i] == lines[i]);
        }
        lemma_open_response(front);
        assert(!closes(read_line(lines[lines.len() - 1])));
        lemma_last_line_adds(lines);
    }
}

/// After lines that leave the response open, one more line adds the text
/// and the tool calls of its frame, if it is one.
proof fn lemma_last_line_adds(lines: Seq<Seq<u8>>)
    requires
        lines.len() > 0,
        !absorb_lines(AssemblyView::start(), lines.drop_last()).closed(),
        absorb_lines(AssemblyView::start(), lines.drop_last()).content == concat_contents(
            frames_of(lines.drop_last()),
        ),
        absorb_lines(AssemblyView::start(), lines.drop_last()).tool_calls == concat_calls(
            frames_of(lines.drop_last()),
        ),
    ensures
        absorb_lines(AssemblyView::start(), lines).content == concat_contents(frames_of(lines)),
        absorb_lines(AssemblyView::start(), lines).tool_calls == concat_calls(frames_of(lines)),
{
    let front = lines.drop_last();
    match read_line(lines.last()) {
        LineEventView::Frame(frame) => {
            assert(frames_of(lines).drop_last() == frames_of(front));
            assert(frames_of(lines).last() == frame);
        },
        _ => {},
    }
}

/// For a response that is well formed, in that no line before the last
/// ends it, the text of the turn is the texts of all its frames, one after
/// another in the order of arrival, and so are its tool calls.
pub proof fn lemma_content_is_concatenation(lines: Seq<Seq<u8>>)
    requires
        lines.len() > 0 ==> none_closes(lines.drop_last()),
    ensures
        absorb_lines(AssemblyView::start(), lines).content == concat_contents(frames_of(lines)),
        absorb_lines(AssemblyView::start(), lines).tool_calls == concat_calls(frames_of(lines)),
{
    if lines.len() > 0 {
        lemma_open_response(lines.drop_last());
        lemma_last_line_adds(lines);
    }
}

/// The message that reports a line which is no frame: the reason and the
/// text of the line.
pub open spec fn failure_text(reason: Seq<char>, line: Seq<char>) -> Seq<char> {
    "Failed to parse response: "@ + reason + " - Line: "@ + line
}

/// The messages that `event` gives to report, read after `so_far`: one for
/// a line that is no frame and is read while the response has not ended.
pub open spec fn event_diagnostics(so_far: AssemblyView, event: LineEventView) -> Seq<Seq<char>> {
    match event {
        LineEventView::Undecodable { reason, line } => if so_far.closed() {
            Seq::empty()
        } else {
            seq![failure_text(reason, line)]
        },
        _ => Seq::empty(),
    }
}

/// The messages that the lines `lines` give to report, read in order after
/// `so_far`.
pub open spec fn diagnostics_of(so_far: AssemblyView, lines: Seq<Seq<u8>>) -> Seq<Seq<char>>
    decreases lines.len(),
{
    if lines.len() == 0 {
        Seq::empty()
    } else {
        diagnostics_of(so_far, lines.drop_last()) + event_diagnostics(
            absorb_lines(so_far, lines.drop_last()),
            read_line(lines.last()),
        )
    }
}

/// The line that the end of the stream closes: what is left open, if it
/// holds anything.
pub open spec fn last_line(pending: Seq<u8>) -> Seq<Seq<u8>> {
    if pending.len() > 0 {
        seq![pending]
    } else {
        Seq::empty()
    }
}

/// All the lines of `data`: those that a line end closes, and what follows
/// the last line end, if that is anything.
pub open spec fn all_lines(data: Seq<u8>) -> Seq<Seq<u8>> {
    complete_lines(data) + last_line(partial_line(data))
}

/// Two runs of lines read one after the other give the messages of the
/// first run and then those of the second.
pub proof fn lemma_diagnostics_concat(
    so_far: AssemblyView,
    first: Seq<Seq<u8>>,
    second: Seq<Seq<u8>>,
)
    ensures
        diagnostics_of(so_far, first + second) == diagnostics_of(so_far, first) + diagnostics_of(
            absorb_lines(so_far, first),
            second,
        ),
    decreases second.len(),
{
    if second.len() == 0 {
        assert(first + second == first);
        assert(diagnostics_of(so_far, first) + Seq::<Seq<char>>::empty() == diagnostics_of(
            so_far,
            first,
        ));
    } else {
        assert((first + second).drop_last() == first + second.drop_last());
        lemma_diagnostics_concat(so_far, first, second.drop_last());
        lemma_absorb_concat(so_far, first, second.drop_last());
        let last = event_diagnostics(
            absorb_lines(so_far, first + second.drop_last()),
            read_line(second.last()),
        );
        let head = diagnostics_of(so_far, first);
        let tail = diagnostics_of(absorb_lines(so_far, first), second.drop_last());
        assert((head + tail) + last == head + (tail + last));
    }
}

/// The state of a response that is being read, as a mathematical value.
pub struct StreamView {
    /// The bytes of the line that no line end has closed yet.
    pub pending: Seq<u8>,
    /// The turn as put together from the lines read.
    pub assembly: AssemblyView,
}

/// What reading a piece of the stream gives to show at once.
#[derive(Debug)]
pub struct Emitted {
    /// The text that the frames read added, to be shown as it is.
    pub text: String,
    /// One message for each line that was no frame.
    pub diagnostics: Vec<String>,
}

/// Reads one response: takes the bytes of the stream as they come and puts
/// the assistant's turn together.
pub struct StreamAssembler {
    reader: LineReader,
    content: String,
    tool_calls: Vec<ToolCall>,
    done: bool,
    fault: Option<String>,
}

impl View for StreamAssembler {
    type V = StreamView;

    closed spec fn view(&self) -> StreamView {
        StreamView {
            pending: self.reader@,
            assembly: AssemblyView {
                content: self.content@,
                tool_calls: call_views(self.tool_calls@),
                done: self.done,
                fault: match self.fault {
                    Some(message) => Some(message@),
                    None => None,
                },
            },
        }
    }
}

impl StreamAssembler {
    /// An assembler that has read nothing.
    pub fn new() -> (fresh: StreamAssembler)
        ensures
            fresh@ == (StreamView { pending: Seq::empty(), assembly: AssemblyView::start() }),
    {
        let fresh = StreamAssembler {
            reader: LineReader::new(),
            content: String::new(),
            tool_calls: Vec::new(),
            done: false,
            fault: None,
        };
        assert(call_views(fresh.tool_calls@) == Seq::<ToolCallView>::empty());
        fresh
    }

    /// Whether the response has ended: the caller stops reading.
    pub fn is_closed(&self) -> (closed: bool)
        ensures
            closed == self@.assembly.closed(),
    {
        self.done || self.fault.is_some()
    }

    /// The backend's message, where it reported that it failed.
    pub fn fault(&self) -> (message: Option<String>)
        ensures
            message is Some <==> self@.assembly.fault is Some,
            message matches Some(m) ==> self@.assembly.fault == Some(m@),
    {
        match &self.fault {
            Some(message) => Some(message.clone()),
            None => None,
        }
    }

    /// The text put together so far.
    pub fn content(&self) -> (text: &str)
        ensures
            text@ == self@.assembly.content,
    {
        self.content.as_str()
    }

    /// The assistant's turn as put together so far.
    pub fn assembled(&self) -> (turn: Message)
        ensures
            turn@ == self@.assembly.turn(),
    {
        let calls = crate::message::clone_calls(&self.tool_calls);
        assert(call_views(calls@).len() == calls.len());
        Message::assistant(self.content.as_str(), calls)
    }

    /// Takes the next bytes of the stream and reads the lines that they
    /// close. Hands back the text that these lines added to the turn, and a
    /// message for each of them that was no frame.
    pub fn feed(&mut self, chunk: &[u8]) -> (shown: Emitted)
        ensures
            final(self)@.pending == partial_line(old(self)@.pending + chunk@),
            final(self)@.assembly == absorb_lines(
                old(self)@.assembly,
                complete_lines(old(self)@.pending + chunk@),
            ),
            final(self)@.assembly.content == old(self)@.assembly.content + shown.text@,
            text_views(shown.diagnostics@) == diagnostics_of(
                old(self)@.assembly,
                complete_lines(old(self)@.pending + chunk@),
            ),
    {
        let ghost before = self@;
        let lines = self.reader.feed(chunk);
        let ghost closed_lines = line_bytes(lines@);
        let mut text = String::new();
        let mut diagnostics: Vec<String> = Vec::new();
        let mut at: usize = 0;
        assert(closed_lines.take(0) == Seq::<Seq<u8>>::empty());
        assert(before.assembly.content + text@ == before.assembly.content);
        assert(text_views(diagnostics@) == Seq::<Seq<char>>::empty());
        while at < lines.len()
            invariant
                at <= lines.len(),
                closed_lines == line_bytes(lines@),
                self@.pending == partial_line(before.pending + chunk@),
                self@.assembly == absorb_lines(before.assembly, closed_lines.take(at as int)),
                self@.assembly.content == before.assembly.content + text@,
                text_views(diagnostics@) == diagnostics_of(
                    before.assembly,
                    closed_lines.take(at as int),
                ),
            decreases lines.len() - at,
        {
            let event = decode_line(&lines[at]);
            let ghost shown = text@;
            self.take_event(event, &mut text, &mut diagnostics);
            proof {
                let next = closed_lines.take(at + 1);
                assert(next.drop_last() == closed_lines.take(at as int));
                assert(next.last() == lines[at as int]@);
                let added = text@.skip(shown.len() as int);
                assert(text@ == shown + added);
                lemma_absorb_adds(
                    absorb_lines(before.assembly, closed_lines.take(at as int)),
                    read_line(lines[at as int]@),
                );
                assert(before.assembly.content + shown + added == before.assembly.content + (
                    shown + added));
            }
            at = at + 1;
        }
        assert(closed_lines.take(at as int) == closed_lines);
        Emitted { text, diagnostics }
    }

    /// Ends the stream: reads the line that no line end closed, if there is
    /// one, and ends the response.
    pub fn finish(&mut self) -> (shown: Emitted)
        ensures
            final(self)@.pending == Seq::<u8>::empty(),
            final(self)@.assembly == (AssemblyView {
                done: true,
                ..absorb_lines(old(self)@.assembly, last_line(old(self)@.pending))
            }),
            final(self)@.assembly.content == old(self)@.assembly.content + shown.text@,
            text_views(shown.diagnostics@) == diagnostics_of(
                old(self)@.assembly,
                last_line(old(self)@.pending),
            ),
    {
        let ghost before = self@;
        let mut text = String::new();
        let mut diagnostics: Vec<String> = Vec::new();
        assert(text_views(diagnostics@) == Seq::<Seq<char>>::empty());
        assert(absorb_lines(before.assembly, Seq::<Seq<u8>>::empty()) == before.assembly);
        match self.reader.finish() {
            Some(line) => {
                let event = decode_line(&line);
                self.take_event(event, &mut text, &mut diagnostics);
                proof {
                    let only = last_line(before.pending);
                    assert(only.drop_last() == Seq::<Seq<u8>>::empty());
                    assert(only.last() == line@);
                    assert(diagnostics_of(before.assembly, only.drop_last()) == Seq::<
                        Seq<char>,
                    >::empty());
                    assert(Seq::<Seq<char>>::empty() + event_diagnostics(
                        before.assembly,
                        read_line(line@),
                    ) == event_diagnostics(before.assembly, read_line(line@)));
                    lemma_absorb_adds(before.assembly, read_line(line@));
                    assert(Seq::<char>::empty() + shown_by(before.assembly, read_line(line@))
                        == shown_by(before.assembly, read_line(line@)));
                }
            },
            None => {
                assert(text_views(diagnostics@) == Seq::<Seq<char>>::empty());
                assert(before.assembly.content + text@ == before.assembly.content);
            },
        }
        self.done = true;
        Emitted { text, diagnostics }
    }

    /// Takes what one line says.
    fn take_event(&mut self, event: LineEvent, text: &mut String, diagnostics: &mut Vec<String>)
        ensures
            final(self)@.pending == old(self)@.pending,
            final(self)@.assembly == absorb(old(self)@.assembly, event@),
            final(text)@ == old(text)@ + shown_by(old(self)@.assembly, event@),
            text_views(final(diagnostics)@) == text_views(old(diagnostics)@) + event_diagnostics(
                old(self)@.assembly,
                event@,
            ),
    {
        let ghost reports = text_views(diagnostics@);
        assert(reports + Seq::<Seq<char>>::empty() == reports);
        if self.done || self.fault.is_some() {
            assert(text@ + Seq::<char>::empty() == text@);
            return ;
        }
        let ghost before = self@.assembly;
        match event {
            LineEvent::Frame(frame) => {
                self.content.append(frame.message.content.as_str());
                text.append(frame.message.content.as_str());
                match frame.message.tool_calls {
                    Some(mut calls) => {
                        let ghost earlier = self.tool_calls@;
                        let ghost more = calls@;
                        self.tool_calls.append(&mut calls);
                        assert(call_views(earlier + more) == call_views(earlier) + call_views(more));
                    },
                    None => {
                        assert(before.tool_calls + Seq::<ToolCallView>::empty()
                            == before.tool_calls);
                    },
                }
                self.done = frame.done;
            },
            LineEvent::Fault(message) => {
                self.fault = Some(message);
                assert(text@ + Seq::<char>::empty() == text@);
            },
            LineEvent::Undecodable(failure) => {
                let message = failure.diagnostic();
                diagnostics.push(message);
                assert(text_views(diagnostics@) == reports.push(message@));
                assert(reports.push(message@) == reports + seq![message@]);
                assert(text@ + Seq::<char>::empty() == text@);
            },
            LineEvent::Blank => {
                assert(text@ + Seq::<char>::empty() == text@);
            },
        }
    }
}

} // verus!
