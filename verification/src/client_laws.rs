//! What holds of the course of an invocation as a whole.

use std::time::Duration;
use vstd::prelude::*;
use vstd::utf8::*;

use crate::client;
use crate::client::{NextStep, PendingResponse};
use crate::config::ConfigView;
use crate::error::TalosError;
use crate::request::RequestView;
use crate::response;
use crate::response::TalosResponse;
use crate::text;
use crate::transcript;

verus! {

// ── Prompts ─────────────────────────────────────────────────────────

/// A prompt is refused exactly where its UTF-8 encoding has more bytes than
/// the limit, and the message names both numbers.
pub proof fn law_long_prompts_are_refused(config: ConfigView, request: RequestView)
    ensures
        client::prompt_fault(config, request) is Some <==> encode_utf8(request.prompt).len()
            > config.limits.max_prompt_bytes,
        client::prompt_fault(config, request) matches Some(m) ==> m
            == "prompt exceeds max size ("@ + text::decimal(encode_utf8(request.prompt).len())
            + " > "@ + text::decimal(config.limits.max_prompt_bytes as nat) + " bytes)"@,
{
}

/// Nothing but the prompt and the limit bears on whether a prompt is refused.
pub proof fn law_only_size_and_limit_matter(
    config: ConfigView,
    other: ConfigView,
    request: RequestView,
    another: RequestView,
)
    requires
        config.limits.max_prompt_bytes == other.limits.max_prompt_bytes,
        request.prompt == another.prompt,
    ensures
        client::prompt_fault(config, request) == client::prompt_fault(other, another),
{
}

// ── The conversation ────────────────────────────────────────────────

/// Where none was asked for, the conversation is the one that stderr
/// announces, whatever stdout says, or else the one that stdout announces.
pub proof fn law_announced_conversation(
    request: RequestView,
    stdout: Seq<char>,
    stderr: Seq<char>,
    id: Seq<char>,
)
    requires
        request.conversation_id is None,
    ensures
        transcript::announced_id(stderr) == Some(id) ==> client::conversation_of(
            request,
            stdout,
            stderr,
        ) == Some(id),
        transcript::announced_id(stderr) is None ==> client::conversation_of(
            request,
            stdout,
            stderr,
        ) == transcript::announced_id(stdout),
{
}

// ── The end of the process ──────────────────────────────────────────

/// A process that failed is an error with its exit code, or with minus one
/// where it has none, and with what it wrote to stderr, whatever was asked for
/// and whatever it wrote to stdout.
pub proof fn law_failed_process_is_an_error(
    step: Result<NextStep, TalosError>,
    request: RequestView,
    code: Option<i32>,
    stdout: Seq<char>,
    stderr: Seq<char>,
    duration: Duration,
)
    requires
        client::is_exit_step(step, request, false, code, stdout, stderr, duration),
    ensures
        step matches Err(TalosError::ProcessFailed { exit_code, stderr: shown }) && shown@
            == stderr && exit_code == (match code {
            Some(c) => c,
            None => -1i32,
        }),
{
}

/// A process that succeeded has its transcript looked for where a conversation
/// was asked for or is announced, under its ID, and only there.
pub proof fn law_transcript_is_looked_for(
    step: Result<NextStep, TalosError>,
    request: RequestView,
    code: Option<i32>,
    stdout: Seq<char>,
    stderr: Seq<char>,
    duration: Duration,
)
    requires
        client::is_exit_step(step, request, true, code, stdout, stderr, duration),
    ensures
        match step {
            Ok(NextStep::ReadTranscript(pending)) => Some(pending.conversation_id@) == (
            match request.conversation_id {
                Some(id) => Some(id),
                None => match transcript::announced_id(stderr) {
                    Some(id) => Some(id),
                    None => transcript::announced_id(stdout),
                },
            }),
            Ok(NextStep::Done(_)) => request.conversation_id is None && transcript::announced_id(
                stderr,
            ) is None && transcript::announced_id(stdout) is None,
            Err(_) => false,
        },
{
}

/// Where the transcript cannot be had, a process that succeeded is answered
/// with what it wrote to stdout, trimmed: whether the conversation was asked
/// for, announced on stderr, announced on stdout or unknown. Nothing else is
/// made up: no tool calls and no artifacts.
pub proof fn law_fallback_is_stdout(
    step: Result<NextStep, TalosError>,
    request: RequestView,
    code: Option<i32>,
    stdout: Seq<char>,
    stderr: Seq<char>,
    duration: Duration,
    cause: TalosError,
)
    requires
        client::is_exit_step(step, request, true, code, stdout, stderr, duration),
    ensures
        ({
            let answer = match step {
                Ok(NextStep::ReadTranscript(pending)) => client::resolved(pending, Err(cause)),
                Ok(NextStep::Done(response)) => response@,
                Err(_) => arbitrary(),
            };
            &&& step is Ok
            &&& answer.text == text::trimmed(stdout)
            &&& answer.duration == duration
            &&& answer.tool_calls.len() == 0
            &&& answer.artifacts.len() == 0
            &&& answer.conversation_id == (match client::conversation_of(request, stdout, stderr) {
                Some(id) => id,
                None => Seq::empty(),
            })
        }),
{
}

/// Stderr never bears on the text of the fallback.
pub proof fn law_stderr_is_not_answered(
    one: PendingResponse,
    two: PendingResponse,
    request: RequestView,
    other: RequestView,
    code: Option<i32>,
    stdout: Seq<char>,
    stderr: Seq<char>,
    noise: Seq<char>,
    duration: Duration,
    cause: TalosError,
)
    requires
        client::is_exit_step(
            Ok(NextStep::ReadTranscript(one)),
            request,
            true,
            code,
            stdout,
            stderr,
            duration,
        ),
        client::is_exit_step(
            Ok(NextStep::ReadTranscript(two)),
            other,
            true,
            code,
            stdout,
            noise,
            duration,
        ),
    ensures
        client::resolved(one, Err(cause)).text == client::resolved(two, Err(cause)).text,
{
}

/// A transcript that was read is the answer, whatever the process wrote.
pub proof fn law_transcript_is_answered(pending: PendingResponse, found: TalosResponse)
    ensures
        client::resolved(pending, Ok(found)) == found@,
{
}

/// A response with nothing but text says that text.
pub proof fn law_plain_responses(words: Seq<char>, id: Seq<char>, duration: Duration)
    ensures
        response::plain_response(words, id, duration).text == words,
        response::plain_response(words, id, duration).conversation_id == id,
        response::plain_response(words, id, duration).duration == duration,
        response::plain_response(words, id, duration).tool_calls.len() == 0,
        response::plain_response(words, id, duration).artifacts.len() == 0,
{
}

/// What a response says is what its fields hold.
pub proof fn law_response_view(response: TalosResponse)
    ensures
        response@.text == response.text@,
        response@.conversation_id == response.conversation_id@,
        response@.duration == response.duration,
        response@.tool_calls.len() == response.tool_calls@.len(),
        forall|i: int| 0 <= i < response.tool_calls@.len() ==> #[trigger] response@.tool_calls[i]
            == response.tool_calls@[i]@,
        response@.artifacts.len() == response.artifacts@.len(),
        forall|i: int| 0 <= i < response.artifacts@.len() ==> #[trigger] response@.artifacts[i]
            == response.artifacts@[i]@,
{
}

} // verus!
