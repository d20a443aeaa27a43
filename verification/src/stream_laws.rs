//! What holds of each poll of a stream, and of collecting any events.

use std::time::Duration;
use vstd::prelude::*;

use crate::response::ResponseView;
use crate::stream;
use crate::stream::{
    EventView, ExitPoll, InputView, LinePoll, PollView, StreamInput, StreamPoll, StreamState,
    StreamView, TalosEvent, TranscriptPoll,
};
use crate::text;
use crate::transcript;

verus! {

// ── Waiting ─────────────────────────────────────────────────────────

/// A stream waits to be woken exactly where the source that it looked at will
/// wake it; whatever else keeps it from yielding, it asks for another poll.
pub proof fn law_waits_only_where_it_is_woken(stream: StreamView, seen: InputView)
    ensures
        stream::stream_answer(stream, seen) == PollView::Pending <==> (seen
            == InputView::LinesPending || seen == InputView::TranscriptPending),
        stream::stream_answer(stream, seen) == PollView::PollAgain <==> (seen
            == InputView::LinesClosed || seen == InputView::Running || (seen matches
            InputView::Exited { success, .. } && success && stream.conversation_id is Some)),
{
}

/// Waiting changes nothing: neither where the stream stands nor what it holds.
pub proof fn law_waiting_changes_nothing(stream: StreamView)
    ensures
        stream::stream_after(stream, InputView::LinesPending) == stream,
        stream::stream_after(stream, InputView::Running) == stream,
        stream::stream_after(stream, InputView::TranscriptPending) == stream,
{
}

// ── Lines ───────────────────────────────────────────────────────────

/// Every line, an empty one too, is yielded as it is, kept behind those that
/// were kept, and the stream reads on.
pub proof fn law_line_is_yielded_and_kept(stream: StreamView, line: Seq<char>)
    ensures
        stream::stream_answer(stream, InputView::Line(line)) == PollView::Ready(
            Some(EventView::TextChunk(line)),
        ),
        stream::stream_after(stream, InputView::Line(line)).collected == stream.collected + seq![
            line,
        ],
        stream::stream_after(stream, InputView::Line(line)).state == stream.state,
{
    assert(stream.collected.push(line) =~= stream.collected + seq![line]);
}

/// Only a line changes what is kept, and nothing changes the conversation.
pub proof fn law_only_lines_are_kept(stream: StreamView, seen: InputView)
    ensures
        !(seen is Line) ==> stream::stream_after(stream, seen).collected == stream.collected,
        stream::stream_after(stream, seen).conversation_id == stream.conversation_id,
{
}

// ── Where a stream stands ───────────────────────────────────────────

/// The end of the lines leads to the exit, a successful exit to the
/// transcript of a known conversation, and anything final to the end.
pub proof fn law_where_a_stream_goes(
    stream: StreamView,
    message: Seq<char>,
    success: bool,
    code: Option<i32>,
    duration: Duration,
    found: Option<ResponseView>,
)
    ensures
        stream::stream_after(stream, InputView::LinesClosed).state == StreamState::Finishing,
        stream::stream_after(stream, InputView::LinesFailed(message)).state == StreamState::Done,
        stream::stream_after(stream, InputView::ExitFailed(message)).state == StreamState::Done,
        stream::stream_after(stream, InputView::Transcript(found)).state == StreamState::Done,
        stream::stream_after(stream, InputView::Exited { success, code, duration }).state == (if success
            && stream.conversation_id is Some {
            StreamState::Transcribing { duration }
        } else {
            StreamState::Done
        }),
{
}

/// A stream looks at lines while it reads, at the exit while it finishes, at
/// the transcript while it transcribes, and at nothing once it is done.
pub proof fn law_what_a_stream_looks_at(seen: InputView, state: StreamState)
    ensures
        seen.fits(state) <==> match state {
            StreamState::Reading => seen is Line || seen is LinesClosed || seen is LinesFailed
                || seen is LinesPending,
            StreamState::Finishing => seen is Exited || seen is Running || seen is ExitFailed,
            StreamState::Transcribing { .. } => seen is Transcript || seen is TranscriptPending,
            StreamState::Done => seen is Nothing,
        },
{
}

// ── Final events ────────────────────────────────────────────────────

/// What fails is yielded as it is shown.
pub proof fn law_failures_are_yielded(stream: StreamView, message: Seq<char>)
    ensures
        stream::stream_answer(stream, InputView::LinesFailed(message)) == PollView::Ready(
            Some(EventView::Error(message)),
        ),
        stream::stream_answer(stream, InputView::ExitFailed(message)) == PollView::Ready(
            Some(EventView::Error(message)),
        ),
{
}

/// A process that failed is answered with its exit code, or with minus one
/// where it has none, whatever the stream holds.
pub proof fn law_failed_exit_shows_its_code(
    stream: StreamView,
    code: Option<i32>,
    duration: Duration,
)
    ensures
        stream::stream_answer(stream, InputView::Exited { success: false, code, duration })
            == PollView::Ready(
            Some(
                EventView::Error(
                    "agy exited with code "@ + text::signed_decimal(
                        match code {
                            Some(c) => c as int,
                            None => -1int,
                        },
                    ),
                ),
            ),
        ),
{
}

/// A process that succeeded without a known conversation is answered at once,
/// with all the lines and nothing else.
pub proof fn law_unknown_conversation_is_answered_at_once(
    stream: StreamView,
    code: Option<i32>,
    duration: Duration,
)
    requires
        stream.conversation_id is None,
    ensures
        stream::stream_answer(
            stream,
            InputView::Exited { success: true, code, duration },
        ) matches PollView::Ready(Some(EventView::Complete(r))) && r.text == text::joined(
            stream.collected,
            seq!['\n'],
        ) && r.conversation_id == "unknown"@ && r.tool_calls.len() == 0 && r.artifacts.len() == 0
            && r.duration == duration,
{
    reveal_strlit("\n");
    assert("\n"@ =~= seq!['\n']);
}

/// Once its transcript was asked for, a known conversation is answered with all
/// the lines and with the time that the process took; the tool calls and the
/// artifacts are those of the transcript, and there are none without one.
pub proof fn law_known_conversation_is_answered(
    stream: StreamView,
    id: Seq<char>,
    elapsed: Duration,
    found: Option<ResponseView>,
)
    requires
        stream.state == (StreamState::Transcribing { duration: elapsed }),
        stream.conversation_id == Some(id),
    ensures
        stream::stream_answer(stream, InputView::Transcript(found)) matches PollView::Ready(
            Some(EventView::Complete(r)),
        ) && r.text == text::joined(stream.collected, seq!['\n']) && r.conversation_id == id
            && r.duration == elapsed && match found {
            Some(f) => r.tool_calls == f.tool_calls && r.artifacts == f.artifacts,
            None => r.tool_calls.len() == 0 && r.artifacts.len() == 0,
        },
{
    reveal_strlit("\n");
    assert("\n"@ =~= seq!['\n']);
}

/// A stream that has seen nothing reads, and has nothing.
pub proof fn law_fresh_stream(id: Option<Seq<char>>)
    ensures
        stream::fresh_stream(id).state == StreamState::Reading,
        stream::fresh_stream(id).conversation_id == id,
        stream::fresh_stream(id).collected.len() == 0,
{
}

/// A conversation is called by its ID, and one without is called unknown.
pub proof fn law_unknown_conversations(id: Seq<char>)
    ensures
        stream::id_or_unknown(Some(id)) == id,
        stream::id_or_unknown(None) == "unknown"@,
{
}

// ── What is seen and said ───────────────────────────────────────────

/// What an input shows is what it holds.
pub proof fn law_inputs_show_what_they_hold(
    line: String,
    success: bool,
    code: Option<i32>,
    duration: Duration,
    found: Option<crate::response::TalosResponse>,
    seen: InputView,
)
    ensures
        StreamInput::Line(LinePoll::Line(line)).shows(seen) <==> seen == InputView::Line(line@),
        StreamInput::Line(LinePoll::Closed).shows(seen) <==> seen == InputView::LinesClosed,
        StreamInput::Line(LinePoll::Pending).shows(seen) <==> seen == InputView::LinesPending,
        StreamInput::Exit(ExitPoll::Exited { success, code, duration }).shows(seen) <==> seen == (
        InputView::Exited { success, code, duration }),
        StreamInput::Exit(ExitPoll::Running).shows(seen) <==> seen == InputView::Running,
        StreamInput::Transcript(TranscriptPoll::Pending).shows(seen) <==> seen
            == InputView::TranscriptPending,
        StreamInput::Transcript(TranscriptPoll::Settled(found)).shows(seen) <==> seen
            == InputView::Transcript(transcript::option_response(found)),
        StreamInput::Nothing.shows(seen) <==> seen == InputView::Nothing,
{
}

/// An input that failed shows the message that its error displays.
pub proof fn law_failed_inputs_show_their_message(
    error: std::io::Error,
    seen: InputView,
    message: Seq<char>,
)
    ensures
        StreamInput::Line(LinePoll::Failed(error)).shows(seen) ==> seen is LinesFailed,
        StreamInput::Line(LinePoll::Failed(error)).shows(InputView::LinesFailed(message)) <==> (
        exists|shown: String| #[trigger]
            vstd::string::to_string_from_display_ensures(&error, shown) && shown@ == message),
        StreamInput::Exit(ExitPoll::Failed(error)).shows(seen) ==> seen is ExitFailed,
        StreamInput::Exit(ExitPoll::Failed(error)).shows(InputView::ExitFailed(message)) <==> (
        exists|shown: String| #[trigger]
            vstd::string::to_string_from_display_ensures(&error, shown) && shown@ == message),
{
}

/// What a poll and an event say is what they hold.
pub proof fn law_polls_say_what_they_hold(
    event: TalosEvent,
    chunk: String,
    message: String,
    response: crate::response::TalosResponse,
)
    ensures
        StreamPoll::Ready(Some(event))@ == PollView::Ready(Some(event@)),
        StreamPoll::Ready(None)@ == PollView::Ready(None),
        StreamPoll::PollAgain@ == PollView::PollAgain,
        StreamPoll::Pending@ == PollView::Pending,
        TalosEvent::TextChunk(chunk)@ == EventView::TextChunk(chunk@),
        TalosEvent::Error(message)@ == EventView::Error(message@),
        TalosEvent::Complete(response)@ == EventView::Complete(response@),
{
}

// ── Collecting ──────────────────────────────────────────────────────

/// The first error is what collecting gives, whatever stands around it.
pub proof fn law_first_error_is_collected(
    before: Seq<EventView>,
    message: Seq<char>,
    after: Seq<EventView>,
    so_far: Option<ResponseView>,
)
    requires
        forall|i: int| 0 <= i < before.len() ==> !(#[trigger] before[i] is Error),
    ensures
        stream::collected(before + seq![EventView::Error(message)] + after, so_far) == Err::<
            ResponseView,
            Seq<char>,
        >(message),
    decreases before.len(),
{
    let all = before + seq![EventView::Error(message)] + after;
    if before.len() == 0 {
        assert(all[0] == EventView::Error(message));
    } else {
        let rest = before.drop_first();
        assert(all[0] == before[0] && !(before[0] is Error));
        assert forall|i: int| 0 <= i < rest.len() implies !(#[trigger] rest[i] is Error) by {
            assert(rest[i] == before[i + 1]);
        }
        assert(all.drop_first() =~= rest + seq![EventView::Error(message)] + after);
        let next = match before[0] {
            EventView::Complete(r) => Some(r),
            _ => so_far,
        };
        law_first_error_is_collected(rest, message, after, next);
    }
}

/// Without an error, the last response is what collecting gives.
pub proof fn law_last_response_is_collected(
    before: Seq<EventView>,
    response: ResponseView,
    after: Seq<EventView>,
    so_far: Option<ResponseView>,
)
    requires
        forall|i: int| 0 <= i < before.len() ==> !(#[trigger] before[i] is Error),
        forall|i: int| 0 <= i < after.len() ==> #[trigger] after[i] is TextChunk,
    ensures
        stream::collected(before + seq![EventView::Complete(response)] + after, so_far) == Ok::<
            ResponseView,
            Seq<char>,
        >(response),
    decreases before.len(),
{
    let last = EventView::Complete(response);
    let all = before + seq![last] + after;
    if before.len() == 0 {
        assert(all[0] == last);
        assert(all.drop_first() =~= after);
        lemma_only_chunks(after, Some(response));
    } else {
        let rest = before.drop_first();
        assert(all[0] == before[0] && !(before[0] is Error));
        assert forall|i: int| 0 <= i < rest.len() implies !(#[trigger] rest[i] is Error) by {
            assert(rest[i] == before[i + 1]);
        }
        assert(all.drop_first() =~= rest + seq![last] + after);
        let next = match before[0] {
            EventView::Complete(r) => Some(r),
            _ => so_far,
        };
        law_last_response_is_collected(rest, response, after, next);
    }
}

/// Chunks alone are no response.
pub proof fn law_chunks_are_no_response(events: Seq<EventView>)
    requires
        forall|i: int| 0 <= i < events.len() ==> #[trigger] events[i] is TextChunk,
    ensures
        stream::collected(events, None) == Err::<ResponseView, Seq<char>>(
            "stream ended without response"@,
        ),
{
    lemma_only_chunks(events, None);
}

/// Chunks leave what was seen before them.
proof fn lemma_only_chunks(events: Seq<EventView>, so_far: Option<ResponseView>)
    requires
        forall|i: int| 0 <= i < events.len() ==> #[trigger] events[i] is TextChunk,
    ensures
        stream::collected(events, so_far) == stream::collected(Seq::empty(), so_far),
    decreases events.len(),
{
    if events.len() == 0 {
        assert(events =~= Seq::<EventView>::empty());
    } else {
        let rest = events.drop_first();
        assert(events[0] is TextChunk);
        assert forall|i: int| 0 <= i < rest.len() implies #[trigger] rest[i] is TextChunk by {
            assert(rest[i] == events[i + 1]);
        }
        lemma_only_chunks(rest, so_far);
    }
}

/// What events say is what each says, in order.
pub proof fn law_event_views(events: Seq<TalosEvent>, i: int)
    requires
        0 <= i < events.len(),
    ensures
        stream::event_views(events).len() == events.len(),
        stream::event_views(events)[i] == events[i]@,
{
}

} // verus!
