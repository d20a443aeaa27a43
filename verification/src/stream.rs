//! Streaming response support for `agy` invocations.
//!
//! [`TalosStream`] takes what is seen of a running `agy` child process and
//! says which [`TalosEvent`] items to yield. Text chunks are emitted
//! line-by-line from stdout, and a final [`TalosEvent::Complete`] is emitted
//! when the process exits successfully.

use std::time::Duration;
use vstd::prelude::*;
use vstd::string::*;

use crate::config;
use crate::error::TalosError;
use crate::response;
use crate::response::{ResponseView, TalosResponse};
use crate::text;
use crate::transcript;

verus! {

// ── Events ──────────────────────────────────────────────────────────

/// Events emitted by a [`TalosStream`].
#[derive(Debug)]
pub enum TalosEvent {
    /// A chunk of text output from `agy`'s stdout.
    TextChunk(String),
    /// The process has exited and the full structured response is available.
    Complete(TalosResponse),
    /// An error occurred during streaming.
    Error(String),
}

/// What a [`TalosEvent`] says.
pub enum EventView {
    TextChunk(Seq<char>),
    Complete(ResponseView),
    Error(Seq<char>),
}

impl View for TalosEvent {
    type V = EventView;

    open spec fn view(&self) -> EventView {
        match self {
            TalosEvent::TextChunk(line) => EventView::TextChunk(line@),
            TalosEvent::Complete(response) => EventView::Complete(response@),
            TalosEvent::Error(message) => EventView::Error(message@),
        }
    }
}

impl Clone for TalosEvent {
    fn clone(&self) -> (twin: Self)
        ensures
            twin@ == self@,
    {
        match self {
            TalosEvent::TextChunk(line) => TalosEvent::TextChunk(line.clone()),
            TalosEvent::Complete(response) => TalosEvent::Complete(response.clone()),
            TalosEvent::Error(message) => TalosEvent::Error(message.clone()),
        }
    }
}

// ── States and inputs ───────────────────────────────────────────────

/// Where a stream stands.
#[derive(Debug, Clone, Copy, PartialEq, Eq)]
pub enum StreamState {
    /// Actively reading lines from stdout.
    Reading,
    /// Stdout was closed; the exit of the process is awaited.
    Finishing,
    /// Process has exited; its transcript is awaited for the final response.
    Transcribing {
        /// The time from the opening of the stream to the exit.
        duration: Duration,
    },
    /// Stream is exhausted.
    Done,
}

/// What came of asking for the next line of stdout.
#[derive(Debug)]
pub enum LinePoll {
    /// A line, without its line ending.
    Line(String),
    /// Stdout was closed.
    Closed,
    /// Stdout could not be read.
    Failed(std::io::Error),
    /// No line is there yet.
    Pending,
}

/// What came of asking for the exit status of the process.
#[derive(Debug)]
pub enum ExitPoll {
    /// The process has exited.
    Exited {
        /// Whether it succeeded.
        success: bool,
        /// Its exit code, unless a signal ended it.
        code: Option<i32>,
        /// The time since the stream was opened.
        duration: Duration,
    },
    /// The process is still running.
    Running,
    /// The status could not be had.
    Failed(std::io::Error),
}

/// What came of asking for the transcript of the conversation.
#[derive(Debug)]
pub enum TranscriptPoll {
    /// The response in the transcript; none where it could not be had.
    Settled(Option<TalosResponse>),
    /// The transcript was not read yet.
    Pending,
}

/// What a stream is given to look at.
#[derive(Debug)]
pub enum StreamInput {
    /// The next line, while the stream is reading.
    Line(LinePoll),
    /// The exit status, while the stream is finishing.
    Exit(ExitPoll),
    /// The transcript, while the stream is transcribing.
    Transcript(TranscriptPoll),
    /// Nothing, once the stream is done.
    Nothing,
}

/// What a stream has seen.
pub enum InputView {
    Line(Seq<char>),
    LinesClosed,
    LinesFailed(Seq<char>),
    LinesPending,
    Exited { success: bool, code: Option<i32>, duration: Duration },
    Running,
    ExitFailed(Seq<char>),
    Transcript(Option<ResponseView>),
    TranscriptPending,
    Nothing,
}

/// Whether `message` is what the error displays.
pub open spec fn shown_by(error: std::io::Error, message: Seq<char>) -> bool {
    exists|shown: String| #[trigger]
        to_string_from_display_ensures(&error, shown) && shown@ == message
}

impl StreamInput {
    /// Whether `seen` is what the input shows.
    pub open spec fn shows(self, seen: InputView) -> bool {
        match self {
            StreamInput::Line(LinePoll::Line(line)) => seen == InputView::Line(line@),
            StreamInput::Line(LinePoll::Closed) => seen == InputView::LinesClosed,
            StreamInput::Line(LinePoll::Failed(error)) => seen matches InputView::LinesFailed(
                message,
            ) && shown_by(error, message),
            StreamInput::Line(LinePoll::Pending) => seen == InputView::LinesPending,
            StreamInput::Exit(ExitPoll::Exited { success, code, duration }) => seen
                == (InputView::Exited { success, code, duration }),
            StreamInput::Exit(ExitPoll::Running) => seen == InputView::Running,
            StreamInput::Exit(ExitPoll::Failed(error)) => seen matches InputView::ExitFailed(
                message,
            ) && shown_by(error, message),
            StreamInput::Transcript(TranscriptPoll::Settled(found)) => seen
                == InputView::Transcript(transcript::option_response(found)),
            StreamInput::Transcript(TranscriptPoll::Pending) => seen
                == InputView::TranscriptPending,
            StreamInput::Nothing => seen == InputView::Nothing,
        }
    }
}

impl InputView {
    /// Whether this is what a stream in `state` looks at.
    pub open spec fn fits(self, state: StreamState) -> bool {
        match self {
            InputView::Line(_)
            | InputView::LinesClosed
            | InputView::LinesFailed(_)
            | InputView::LinesPending => state == StreamState::Reading,
            InputView::Exited { .. }
            | InputView::Running
            | InputView::ExitFailed(_) => state == StreamState::Finishing,
            InputView::Transcript(_)
            | InputView::TranscriptPending => state is Transcribing,
            InputView::Nothing => state == StreamState::Done,
        }
    }
}

// ── Steps ───────────────────────────────────────────────────────────

/// What a poll of a stream amounts to.
#[derive(Debug)]
pub enum StreamPoll {
    /// An event, or the end of the stream.
    Ready(Option<TalosEvent>),
    /// Nothing yet, and nobody else will ask for another poll.
    PollAgain,
    /// Nothing yet; whoever was asked will wake the task.
    Pending,
}

/// What a [`StreamPoll`] says.
pub enum PollView {
    Ready(Option<EventView>),
    PollAgain,
    Pending,
}

impl View for StreamPoll {
    type V = PollView;

    open spec fn view(&self) -> PollView {
        match self {
            StreamPoll::Ready(Some(event)) => PollView::Ready(Some(event@)),
            StreamPoll::Ready(None) => PollView::Ready(None),
            StreamPoll::PollAgain => PollView::PollAgain,
            StreamPoll::Pending => PollView::Pending,
        }
    }
}

/// What a [`TalosStream`] holds.
pub struct StreamView {
    pub state: StreamState,
    pub conversation_id: Option<Seq<char>>,
    pub collected: Seq<Seq<char>>,
}

/// The conversation ID of a response where none is known.
pub open spec fn id_or_unknown(id: Option<Seq<char>>) -> Seq<char> {
    config::given_or(id, "unknown"@)
}

/// The final response: all the lines, and with them the tool calls and the
/// artifacts of the transcript, where it could be had.
pub open spec fn final_response(
    lines: Seq<Seq<char>>,
    id: Option<Seq<char>>,
    found: Option<ResponseView>,
    duration: Duration,
) -> ResponseView {
    let plain = response::plain_response(text::joined(lines, "\n"@), id_or_unknown(id), duration);
    match found {
        Some(r) => ResponseView { tool_calls: r.tool_calls, artifacts: r.artifacts, ..plain },
        None => plain,
    }
}

/// What a process that failed is answered with.
pub open spec fn exit_error(code: Option<i32>) -> EventView {
    EventView::Error(
        "agy exited with code "@ + text::signed_decimal(config::given_or(code, -1i32) as int),
    )
}

/// The stream after it has looked at `seen`.
pub open spec fn stream_after(stream: StreamView, seen: InputView) -> StreamView {
    match seen {
        InputView::Line(line) => StreamView { collected: stream.collected.push(line), ..stream },
        InputView::LinesClosed => StreamView { state: StreamState::Finishing, ..stream },
        InputView::Exited { success, duration, .. } => if success && stream.conversation_id
            is Some {
            StreamView { state: StreamState::Transcribing { duration }, ..stream }
        } else {
            StreamView { state: StreamState::Done, ..stream }
        },
        InputView::LinesPending
        | InputView::Running
        | InputView::TranscriptPending
        | InputView::Nothing => stream,
        InputView::LinesFailed(_)
        | InputView::ExitFailed(_)
        | InputView::Transcript(_) => StreamView { state: StreamState::Done, ..stream },
    }
}

/// What the stream answers when it has looked at `seen`.
pub open spec fn stream_answer(stream: StreamView, seen: InputView) -> PollView {
    match seen {
        InputView::Line(line) => PollView::Ready(Some(EventView::TextChunk(line))),
        InputView::LinesClosed | InputView::Running => PollView::PollAgain,
        InputView::LinesPending | InputView::TranscriptPending => PollView::Pending,
        InputView::LinesFailed(message) | InputView::ExitFailed(message) => PollView::Ready(
            Some(EventView::Error(message)),
        ),
        InputView::Exited { success, code, duration } => if !success {
            PollView::Ready(Some(exit_error(code)))
        } else if stream.conversation_id is Some {
            PollView::PollAgain
        } else {
            PollView::Ready(
                Some(
                    EventView::Complete(
                        final_response(stream.collected, stream.conversation_id, None, duration),
                    ),
                ),
            )
        },
        InputView::Transcript(found) => PollView::Ready(
            Some(
                EventView::Complete(
                    final_response(
                        stream.collected,
                        stream.conversation_id,
                        found,
                        stream.state->duration,
                    ),
                ),
            ),
        ),
        InputView::Nothing => PollView::Ready(None),
    }
}

/// The course of a stream over the output of a running `agy` process.
///
/// Yields [`TalosEvent::TextChunk`] for each line of stdout, then a final
/// [`TalosEvent::Complete`] with the parsed transcript once the process exits.
#[derive(Debug)]
pub struct TalosStream {
    state: StreamState,
    conversation_id: Option<String>,
    collected_text: Vec<String>,
}

impl View for TalosStream {
    type V = StreamView;

    closed spec fn view(&self) -> StreamView {
        StreamView {
            state: self.state,
            conversation_id: text::option_text(self.conversation_id),
            collected: text::string_texts(self.collected_text@),
        }
    }
}

/// A stream that has seen nothing yet.
pub open spec fn fresh_stream(conversation_id: Option<Seq<char>>) -> StreamView {
    StreamView { state: StreamState::Reading, conversation_id, collected: Seq::empty() }
}

impl TalosStream {
    /// Create a new stream for a spawned child process.
    ///
    /// The child's stdout must have been piped (this is what
    /// [`CommandBuilder`](crate::command::CommandBuilder) asks for).
    pub fn new(stdout_piped: bool, conversation_id: Option<String>) -> (opened: Result<
        Self,
        TalosError,
    >)
        ensures
            match opened {
                Ok(stream) => stdout_piped && stream@ == fresh_stream(
                    text::option_text(conversation_id),
                ),
                Err(error) => !stdout_piped && (error matches TalosError::ParseError(what) && what@
                    == "child stdout not piped"@),
            },
    {
        if !stdout_piped {
            return Err(TalosError::ParseError("child stdout not piped".to_owned()));
        }
        let stream = TalosStream {
            state: StreamState::Reading,
            conversation_id,
            collected_text: Vec::new(),
        };
        assert(stream@.collected =~= Seq::<Seq<char>>::empty());
        Ok(stream)
    }

    /// Where the stream stands, and so what it has to be given next.
    pub fn state(&self) -> (state: StreamState)
        ensures
            state == self@.state,
    {
        self.state
    }

    /// Takes in what is seen of the process and says what to yield.
    pub fn poll_next(&mut self, input: StreamInput) -> (poll: StreamPoll)
        requires
            match input {
                StreamInput::Line(_) => old(self)@.state == StreamState::Reading,
                StreamInput::Exit(_) => old(self)@.state == StreamState::Finishing,
                StreamInput::Transcript(_) => old(self)@.state is Transcribing,
                StreamInput::Nothing => old(self)@.state == StreamState::Done,
            },
        ensures
            exists|seen: InputView| #[trigger]
                input.shows(seen) && seen.fits(old(self)@.state) && final(self)@ == stream_after(
                    old(self)@,
                    seen,
                ) && poll@ == stream_answer(old(self)@, seen),
    {
        match input {
            StreamInput::Line(lines) => self.on_line(lines),
            StreamInput::Exit(exit) => self.on_exit(exit),
            StreamInput::Transcript(transcript) => self.on_transcript(transcript),
            StreamInput::Nothing => {
                assert(input.shows(InputView::Nothing));
                StreamPoll::Ready(None)
            },
        }
    }

    /// The part of [`Self::poll_next`] that reads lines.
    fn on_line(&mut self, lines: LinePoll) -> (poll: StreamPoll)
        requires
            old(self)@.state == StreamState::Reading,
        ensures
            exists|seen: InputView| #[trigger]
                StreamInput::Line(lines).shows(seen) && seen.fits(old(self)@.state)
                    && final(self)@ == stream_after(old(self)@, seen) && poll@ == stream_answer(old(self)@, seen),
    {
        let ghost input = StreamInput::Line(lines);
        match lines {
            LinePoll::Line(line) => {
                self.collected_text.push(line.clone());
                assert(self@.collected =~= old(self)@.collected.push(line@));
                assert(input.shows(InputView::Line(line@)));
                StreamPoll::Ready(Some(TalosEvent::TextChunk(line)))
            },
            LinePoll::Closed => {
                self.state = StreamState::Finishing;
                assert(input.shows(InputView::LinesClosed));
                StreamPoll::PollAgain
            },
            LinePoll::Failed(error) => {
                self.state = StreamState::Done;
                let message = error.to_string();
                assert(shown_by(error, message@));
                assert(input.shows(InputView::LinesFailed(message@)));
                StreamPoll::Ready(Some(TalosEvent::Error(message)))
            },
            LinePoll::Pending => {
                assert(input.shows(InputView::LinesPending));
                StreamPoll::Pending
            },
        }
    }

    /// The part of [`Self::poll_next`] that awaits the exit.
    fn on_exit(&mut self, exit: ExitPoll) -> (poll: StreamPoll)
        requires
            old(self)@.state == StreamState::Finishing,
        ensures
            exists|seen: InputView| #[trigger]
                StreamInput::Exit(exit).shows(seen) && seen.fits(old(self)@.state)
                    && final(self)@ == stream_after(old(self)@, seen) && poll@ == stream_answer(old(self)@, seen),
    {
        let ghost input = StreamInput::Exit(exit);
        match exit {
            ExitPoll::Exited { success, code, duration } => {
                self.state = StreamState::Done;
                assert(input.shows(InputView::Exited { success, code, duration }));
                if !success {
                    let shown: i32 = match code {
                        Some(c) => c,
                        None => -1,
                    };
                    return StreamPoll::Ready(
                        Some(
                            TalosEvent::Error(
                                "agy exited with code ".to_owned().concat(
                                    text::signed_text(shown).as_str(),
                                ),
                            ),
                        ),
                    );
                }
                if self.conversation_id.is_some() {
                    self.state = StreamState::Transcribing { duration };
                    return StreamPoll::PollAgain;
                }
                StreamPoll::Ready(
                    Some(TalosEvent::Complete(self.build_response(None, duration))),
                )
            },
            ExitPoll::Running => {
                assert(input.shows(InputView::Running));
                StreamPoll::PollAgain
            },
            ExitPoll::Failed(error) => {
                self.state = StreamState::Done;
                let message = error.to_string();
                assert(shown_by(error, message@));
                assert(input.shows(InputView::ExitFailed(message@)));
                StreamPoll::Ready(Some(TalosEvent::Error(message)))
            },
        }
    }

    /// The part of [`Self::poll_next`] that awaits the transcript.
    fn on_transcript(&mut self, transcript: TranscriptPoll) -> (poll: StreamPoll)
        requires
            old(self)@.state is Transcribing,
        ensures
            exists|seen: InputView| #[trigger]
                StreamInput::Transcript(transcript).shows(seen) && seen.fits(old(self)@.state)
                    && final(self)@ == stream_after(old(self)@, seen) && poll@ == stream_answer(old(self)@, seen),
    {
        let ghost input = StreamInput::Transcript(transcript);
        match (transcript, self.state) {
            (TranscriptPoll::Settled(found), StreamState::Transcribing { duration }) => {
                assert(input.shows(InputView::Transcript(transcript::option_response(found))));
                self.state = StreamState::Done;
                StreamPoll::Ready(
                    Some(TalosEvent::Complete(self.build_response(found, duration))),
                )
            },
            _ => {
                assert(input.shows(InputView::TranscriptPending));
                StreamPoll::Pending
            },
        }
    }

    /// The final response, where `found` is the one in the transcript.
    fn build_response(&self, found: Option<TalosResponse>, duration: Duration) -> (response:
        TalosResponse)
        ensures
            response@ == final_response(
                self@.collected,
                self@.conversation_id,
                transcript::option_response(found),
                duration,
            ),
    {
        let text = text::join(&self.collected_text, "\n");
        let id = match &self.conversation_id {
            Some(id) => id.clone(),
            None => "unknown".to_owned(),
        };
        let plain = TalosResponse::plain(text, id, duration);
        match found {
            Some(r) => TalosResponse { tool_calls: r.tool_calls, artifacts: r.artifacts, ..plain },
            None => plain,
        }
    }
}

// ── Collecting ──────────────────────────────────────────────────────

/// What the events of a stream amount to, where `so_far` is the response that
/// was seen last: the first error, or else the last response.
pub open spec fn collected(events: Seq<EventView>, so_far: Option<ResponseView>) -> Result<
    ResponseView,
    Seq<char>,
>
    decreases events.len(),
{
    if events.len() == 0 {
        match so_far {
            Some(response) => Ok(response),
            None => Err("stream ended without response"@),
        }
    } else {
        match events[0] {
            EventView::TextChunk(_) => collected(events.drop_first(), so_far),
            EventView::Complete(response) => collected(events.drop_first(), Some(response)),
            EventView::Error(message) => Err(message),
        }
    }
}

impl TalosStream {
    /// Collects the events that a stream yielded into a single
    /// [`TalosResponse`], for callers who want the streaming API's process
    /// management but don't need incremental output.
    pub fn collect_response(events: Vec<TalosEvent>) -> (result: Result<TalosResponse, TalosError>)
        ensures
            match collected(event_views(events@), None) {
                Ok(seen) => result matches Ok(response) && response@ == seen,
                Err(message) => result matches Err(TalosError::ParseError(what)) && what@
                    == message,
            },
    {
        let ghost all = event_views(events@);
        let mut last: Option<TalosResponse> = None;
        let mut i: usize = 0;
        assert(all.skip(0) =~= all);
        while i < events.len()
            invariant
                i <= events@.len(),
                all == event_views(events@),
                collected(all, None) == collected(all.skip(i as int), transcript::option_response(last)),
            decreases events@.len() - i,
        {
            assert(all.skip(i as int)[0] == events@[i as int]@);
            assert(all.skip(i as int).drop_first() =~= all.skip(i + 1));
            match &events[i] {
                TalosEvent::Complete(response) => {
                    last = Some(response.clone());
                },
                TalosEvent::Error(message) => {
                    return Err(TalosError::ParseError(message.clone()));
                },
                TalosEvent::TextChunk(_) => {},
            }
            i = i + 1;
        }
        match last {
            Some(response) => Ok(response),
            None => Err(TalosError::ParseError("stream ended without response".to_owned())),
        }
    }
}

/// What a sequence of events says.
pub open spec fn event_views(events: Seq<TalosEvent>) -> Seq<EventView> {
    events.map_values(|event: TalosEvent| event@)
}

// ── Laws ────────────────────────────────────────────────────────────

/// The stream after a run of inputs.
pub open spec fn stream_end(stream: StreamView, inputs: Seq<InputView>) -> StreamView
    decreases inputs.len(),
{
    if inputs.len() == 0 {
        stream
    } else {
        stream_after(stream_end(stream, inputs.drop_last()), inputs.last())
    }
}

/// Whether each input of a run is what the stream looks at just then.
pub open spec fn run_fits(stream: StreamView, inputs: Seq<InputView>) -> bool
    decreases inputs.len(),
{
    inputs.len() > 0 ==> run_fits(stream, inputs.drop_last()) && inputs.last().fits(
        stream_end(stream, inputs.drop_last()).state,
    )
}

/// The events that a run of inputs yields.
pub open spec fn stream_events(stream: StreamView, inputs: Seq<InputView>) -> Seq<EventView>
    decreases inputs.len(),
{
    if inputs.len() == 0 {
        Seq::empty()
    } else {
        let before = stream_events(stream, inputs.drop_last());
        match stream_answer(stream_end(stream, inputs.drop_last()), inputs.last()) {
            PollView::Ready(Some(event)) => before.push(event),
            _ => before,
        }
    }
}

/// Once a stream is done, every poll says that it has ended.
pub proof fn law_done_stays_done(stream: StreamView, seen: InputView)
    requires
        stream.state == StreamState::Done,
        seen.fits(stream.state),
    ensures
        stream_after(stream, seen) == stream,
        stream_answer(stream, seen) == PollView::Ready(None::<EventView>),
{
}

/// A poll yields the end of the stream only where the stream is done.
pub proof fn law_only_done_streams_end(stream: StreamView, seen: InputView)
    requires
        seen.fits(stream.state),
        stream_answer(stream, seen) == PollView::Ready(None::<EventView>),
    ensures
        stream.state == StreamState::Done,
{
}

/// An event other than a chunk of text ends the stream: nothing follows it.
pub proof fn law_last_event_is_the_only_final_one(stream: StreamView, inputs: Seq<InputView>)
    requires
        stream.state == StreamState::Reading,
        run_fits(stream, inputs),
    ensures
        forall|i: int|
            0 <= i < stream_events(stream, inputs).len() - 1 ==> #[trigger] stream_events(
                stream,
                inputs,
            )[i] is TextChunk,
        (stream_events(stream, inputs).len() > 0 && !(stream_events(stream, inputs).last()
            is TextChunk)) <==> stream_end(stream, inputs).state == StreamState::Done,
    decreases inputs.len(),
{
    if inputs.len() > 0 {
        law_last_event_is_the_only_final_one(stream, inputs.drop_last());
    }
}

/// The chunks of text that lines of output are yielded as.
pub open spec fn chunks(lines: Seq<Seq<char>>) -> Seq<EventView> {
    lines.map_values(|line: Seq<char>| EventView::TextChunk(line))
}

/// The lines that a run of inputs shows, in order.
pub open spec fn seen_lines(inputs: Seq<InputView>) -> Seq<Seq<char>>
    decreases inputs.len(),
{
    if inputs.len() == 0 {
        Seq::empty()
    } else {
        match inputs.last() {
            InputView::Line(line) => seen_lines(inputs.drop_last()).push(line),
            _ => seen_lines(inputs.drop_last()),
        }
    }
}

/// The time that the process took, where a run of inputs shows its exit.
pub open spec fn seen_duration(inputs: Seq<InputView>) -> Option<Duration>
    decreases inputs.len(),
{
    if inputs.len() == 0 {
        None
    } else {
        match inputs.last() {
            InputView::Exited { duration, .. } => Some(duration),
            _ => seen_duration(inputs.drop_last()),
        }
    }
}

/// The event that a run of inputs ends the stream with, where it does: the
/// response once the process has succeeded and its transcript was asked for,
/// an error once something has failed.
pub open spec fn final_event(id: Option<Seq<char>>, inputs: Seq<InputView>) -> Option<EventView>
    decreases inputs.len(),
{
    if inputs.len() == 0 {
        None
    } else {
        let before = inputs.drop_last();
        match inputs.last() {
            InputView::LinesFailed(message) | InputView::ExitFailed(message) => Some(
                EventView::Error(message),
            ),
            InputView::Exited { success, code, duration } => if !success {
                Some(exit_error(code))
            } else if id is None {
                Some(EventView::Complete(final_response(seen_lines(before), id, None, duration)))
            } else {
                None
            },
            InputView::Transcript(found) => Some(
                EventView::Complete(
                    final_response(seen_lines(before), id, found, seen_duration(before).unwrap()),
                ),
            ),
            _ => final_event(id, before),
        }
    }
}

/// Whether a run of inputs shows that the process succeeded.
pub open spec fn seen_success(inputs: Seq<InputView>) -> bool
    decreases inputs.len(),
{
    inputs.len() > 0 && match inputs.last() {
        InputView::Exited { success, .. } => success,
        _ => seen_success(inputs.drop_last()),
    }
}

/// Whatever a stream is shown, and however often it has to wait, it yields a
/// chunk for each line, in order, and then at most one final event: the
/// response with all the lines where the process succeeded, and what failed
/// where it did not. A stream that waits for the transcript remembers how
/// long the process took.
pub proof fn law_chunks_then_final_event(id: Option<Seq<char>>, inputs: Seq<InputView>)
    requires
        run_fits(fresh_stream(id), inputs),
    ensures
        ({
            let lines = seen_lines(inputs);
            let end = stream_end(fresh_stream(id), inputs);
            let events = stream_events(fresh_stream(id), inputs);
            &&& end.collected == lines
            &&& end.conversation_id == id
            &&& end.state == StreamState::Done <==> final_event(id, inputs) is Some
            &&& events == match final_event(id, inputs) {
                Some(last) => chunks(lines).push(last),
                None => chunks(lines),
            }
            &&& final_event(id, inputs) matches Some(last) ==> match last {
                EventView::TextChunk(_) => false,
                EventView::Complete(r) => seen_success(inputs) && r.text == text::joined(
                    lines,
                    "\n"@,
                ) && r.conversation_id == id_or_unknown(id) && seen_duration(inputs) == Some(
                    r.duration,
                ),
                EventView::Error(_) => !seen_success(inputs),
            }
            &&& end.state matches StreamState::Transcribing { duration } ==> seen_success(inputs)
                && seen_duration(inputs) == Some(duration)
            &&& (end.state == StreamState::Reading || end.state == StreamState::Finishing)
                ==> !seen_success(inputs)
        }),
    decreases inputs.len(),
{
    if inputs.len() == 0 {
        assert(chunks(seen_lines(inputs)) =~= Seq::<EventView>::empty());
    } else {
        let before = inputs.drop_last();
        law_chunks_then_final_event(id, before);
        if let InputView::Line(line) = inputs.last() {
            assert(chunks(seen_lines(inputs)) =~= chunks(seen_lines(before)).push(
                EventView::TextChunk(line),
            ));
        }
    }
}

/// The final response carries the parsed transcript: the tool calls and the
/// artifacts of its most recent turn.
pub proof fn law_final_response_carries_the_transcript(
    id: Seq<char>,
    inputs: Seq<InputView>,
    raw: Seq<char>,
    duration: Duration,
    found: ResponseView,
)
    requires
        run_fits(fresh_stream(Some(id)), inputs),
        inputs.len() > 0,
        transcript::transcript_response(raw, id, duration) == Some(found),
        inputs.last() == InputView::Transcript(transcript::transcript_response(raw, id, duration)),
    ensures
        stream_events(fresh_stream(Some(id)), inputs).len() > 0,
        stream_events(fresh_stream(Some(id)), inputs).last() matches EventView::Complete(r)
            && r.tool_calls == found.tool_calls && r.artifacts == found.artifacts
            && r.conversation_id == id,
{
    law_chunks_then_final_event(Some(id), inputs);
}

/// Chunks do not bear on what is collected.
proof fn lemma_collected_skips_chunks(
    lines: Seq<Seq<char>>,
    more: Seq<EventView>,
    so_far: Option<ResponseView>,
)
    ensures
        collected(chunks(lines) + more, so_far) == collected(more, so_far),
    decreases lines.len(),
{
    let events = chunks(lines) + more;
    if lines.len() == 0 {
        assert(events =~= more);
    } else {
        assert(events.drop_first() =~= chunks(lines.drop_first()) + more);
        lemma_collected_skips_chunks(lines.drop_first(), more, so_far);
    }
}

/// Collecting the events of a run gives the final response, the error that
/// ended it, or, where it has not ended, the lack of a response.
pub proof fn law_collecting_a_run(id: Option<Seq<char>>, inputs: Seq<InputView>)
    requires
        run_fits(fresh_stream(id), inputs),
    ensures
        collected(stream_events(fresh_stream(id), inputs), None) == match final_event(id, inputs) {
            Some(EventView::Complete(response)) => Ok(response),
            Some(EventView::Error(message)) => Err(message),
            _ => Err("stream ended without response"@),
        },
{
    law_chunks_then_final_event(id, inputs);
    let lines = seen_lines(inputs);
    match final_event(id, inputs) {
        Some(last) => {
            lemma_collected_skips_chunks(lines, seq![last], None);
            assert(chunks(lines).push(last) =~= chunks(lines) + seq![last]);
            assert(seq![last].drop_first() =~= Seq::<EventView>::empty());
            reveal_with_fuel(collected, 2);
        },
        None => {
            lemma_collected_skips_chunks(lines, Seq::empty(), None);
            assert(chunks(lines) =~= chunks(lines) + Seq::<EventView>::empty());
        },
    }
}

} // verus!
