//! The course of one `agy` invocation: admission, and what to make of how the
//! process ended.

use std::sync::Arc;
use std::time::Duration;
use vstd::prelude::*;
use vstd::utf8::*;

use crate::command;
use crate::command::{AgyCommand, CommandBuilder};
use crate::config;
use crate::config::{ConfigView, TalosConfig};
use crate::error::TalosError;
use crate::permits;
use crate::permits::PermitPool;
use crate::request::{RequestView, TalosRequest};
use crate::response;
use crate::response::{ResponseView, TalosResponse};
use crate::text;
use crate::transcript;

verus! {

// ── Talos client ────────────────────────────────────────────────────

/// The main entry point for invoking `agy`.
///
/// `Talos` is cheaply cloneable (`Arc`-backed) and safe to share across
/// tasks and threads.
pub struct Talos {
    config: Arc<TalosConfig>,
    permits: PermitPool,
}

impl Clone for Talos {
    fn clone(&self) -> (twin: Self)
        ensures
            twin.settings() == self.settings(),
            twin.pool() == self.pool(),
    {
        proof {
            use_type_invariant(self);
        }
        Talos { config: self.config.clone(), permits: self.permits.clone() }
    }
}

/// What is wrong with a prompt, where something is: it must not be longer, in
/// UTF-8 bytes, than the configured limit.
pub open spec fn prompt_fault(config: ConfigView, request: RequestView) -> Option<Seq<char>> {
    let size = encode_utf8(request.prompt).len();
    if size > config.limits.max_prompt_bytes {
        Some(
            "prompt exceeds max size ("@ + text::decimal(size) + " > "@ + text::decimal(
                config.limits.max_prompt_bytes as nat,
            ) + " bytes)"@,
        )
    } else {
        None
    }
}

impl Talos {
    /// The configuration in force.
    pub closed spec fn settings(self) -> ConfigView {
        (*self.config)@
    }

    /// The semaphore whose permits the client gives out. Clones share it.
    pub closed spec fn pool(self) -> tokio::sync::Semaphore {
        self.permits.semaphore()
    }

    /// There are as many permits as the configuration says.
    #[verifier::type_invariant]
    spec fn sized(self) -> bool {
        permits::permits_made(self.permits.semaphore()) == self.config.limits.max_concurrent
    }

    /// Create a `Talos` client from an already-loaded configuration.
    pub fn from_loaded_config(config: TalosConfig) -> (client: Self)
        requires
            config.limits.max_concurrent <= usize::MAX / 8,
        ensures
            client.settings() == config@,
            permits::permits_made(client.pool()) == config.limits.max_concurrent,
    {
        let permits = PermitPool::new(config.limits.max_concurrent);
        Self { config: Arc::new(config), permits }
    }

    /// Create a `Talos` client with default configuration.
    pub fn with_defaults() -> (client: Self)
        ensures
            client.settings() == config::default_config(),
            permits::permits_made(client.pool()) == config::default_limits().max_concurrent,
    {
        Self::from_loaded_config(TalosConfig::default())
    }

    /// Returns a reference to the underlying config.
    pub fn config(&self) -> (config: &TalosConfig)
        ensures
            config@ == self.settings(),
    {
        &self.config
    }

    /// Validate prompt size.
    pub fn check_prompt(&self, request: &TalosRequest) -> (checked: Result<(), TalosError>)
        ensures
            match checked {
                Ok(_) => prompt_fault(self.settings(), request@) is None,
                Err(error) => error matches TalosError::ParseError(what) && prompt_fault(
                    self.settings(),
                    request@,
                ) == Some(what@),
            },
    {
        let size: usize = request.prompt.as_str().as_bytes().len();
        let limit: usize = self.config.limits.max_prompt_bytes;
        if size > limit {
            return Err(
                TalosError::ParseError(
                    "prompt exceeds max size (".to_owned().concat(
                        text::decimal_text(size as u64).as_str(),
                    ).concat(" > ").concat(text::decimal_text(limit as u64).as_str()).concat(
                        " bytes)",
                    ),
                ),
            );
        }
        Ok(())
    }

    /// Take a request on: its prompt has to be within the limit, and a
    /// concurrency permit has to be left. The permit is held for as long as
    /// the invocation runs.
    pub fn acquire(&self, request: &TalosRequest) -> (acquired: Result<
        tokio::sync::OwnedSemaphorePermit,
        TalosError,
    >)
        ensures
            match prompt_fault(self.settings(), request@) {
                Some(fault) => acquired matches Err(TalosError::ParseError(what)) && what@ == fault,
                None => match acquired {
                    Ok(permit) => permits::permit_pool(permit) == self.pool(),
                    Err(error) => error == TalosError::ConcurrencyLimit,
                },
            },
            permits::permits_made(self.pool()) == self.settings().limits.max_concurrent,
            self.settings().limits.max_concurrent == 0 ==> acquired is Err,
    {
        proof {
            use_type_invariant(self);
        }
        match self.check_prompt(request) {
            Ok(_) => permit_or_limit(self.permits.try_acquire()),
            Err(error) => Err(error),
        }
    }

    /// The command of an invocation.
    pub fn command(&self, request: &TalosRequest) -> (command: AgyCommand)
        requires
            self.settings().reachable(),
        ensures
            command@ == command::agy_command(self.settings(), request@, request@.model.flag()),
    {
        CommandBuilder::new(&self.config, request).build()
    }

    /// The command of a simple one-shot, which uses the default model from
    /// the config.
    pub fn ask_command(&self, request: &TalosRequest) -> (command: AgyCommand)
        requires
            self.settings().reachable(),
        ensures
            command@ == command::agy_command(
                self.settings(),
                request@,
                self.settings().defaults.model,
            ),
    {
        CommandBuilder::new(&self.config, request).with_default_model().build()
    }

    /// How long to wait for the process, in seconds.
    pub fn timeout_secs(&self, request: &TalosRequest) -> (seconds: u64)
        ensures
            seconds == command::effective_timeout(self.settings(), request@),
    {
        CommandBuilder::new(&self.config, request).timeout_secs()
    }
}

/// What an attempt to get a permit amounts to.
pub fn permit_or_limit(
    acquired: Result<tokio::sync::OwnedSemaphorePermit, tokio::sync::TryAcquireError>,
) -> (result: Result<tokio::sync::OwnedSemaphorePermit, TalosError>)
    ensures
        result == match acquired {
            Ok(permit) => Ok::<tokio::sync::OwnedSemaphorePermit, TalosError>(permit),
            Err(_) => Err(TalosError::ConcurrencyLimit),
        },
{
    match acquired {
        Ok(permit) => Ok(permit),
        Err(_) => Err(TalosError::ConcurrencyLimit),
    }
}

/// Why a process could not be spawned.
pub fn spawn_error(not_found: bool, cause: std::io::Error) -> (error: TalosError)
    ensures
        error == (if not_found {
            TalosError::AgyNotFound
        } else {
            TalosError::IoError(cause)
        }),
{
    if not_found {
        TalosError::AgyNotFound
    } else {
        TalosError::IoError(cause)
    }
}

// ── The end of the process ──────────────────────────────────────────

/// How waiting for the process ended.
#[derive(Debug)]
pub enum WaitOutcome {
    /// The process did not exit in time.
    TimedOut,
    /// Waiting failed.
    Failed(std::io::Error),
    /// The process exited.
    Exited(ProcessOutput),
}

/// What a process left behind.
#[derive(Debug)]
pub struct ProcessOutput {
    /// Whether it succeeded.
    pub success: bool,
    /// Its exit code, unless a signal ended it.
    pub code: Option<i32>,
    /// What it wrote to stdout.
    pub stdout: Vec<u8>,
    /// What it wrote to stderr.
    pub stderr: Vec<u8>,
    /// The wall-clock time that it took.
    pub duration: Duration,
}

/// What to do once the process has succeeded.
#[derive(Debug)]
pub enum NextStep {
    /// Look for a transcript first.
    ReadTranscript(PendingResponse),
    /// There is none to look for.
    Done(TalosResponse),
}

/// A response that waits for the transcript of its conversation.
#[derive(Debug)]
pub struct PendingResponse {
    /// The conversation whose transcript to read.
    pub conversation_id: String,
    /// What the process wrote to stdout.
    pub stdout: String,
    /// The wall-clock time that the process took.
    pub duration: Duration,
}

/// What `String::from_utf8_lossy` makes of some bytes: the text that they
/// encode, with a replacement character where they encode none.
pub uninterp spec fn lossy_text(bytes: Seq<u8>) -> Seq<char>;

/// Calls `String::from_utf8_lossy`. The text is a function of the bytes
/// alone; bytes that are valid UTF-8 give the text that they encode.
#[verifier::external_body]
fn decode_lossy(bytes: &Vec<u8>) -> (decoded: String)
    ensures
        decoded@ == lossy_text(bytes@),
        valid_utf8(bytes@) ==> decoded@ == decode_utf8(bytes@),
{
    String::from_utf8_lossy(bytes).into_owned()
}

/// The conversation of an invocation: the one that was asked for, or else the
/// one that stderr announces, or else the one that stdout announces.
pub open spec fn conversation_of(
    request: RequestView,
    stdout: Seq<char>,
    stderr: Seq<char>,
) -> Option<Seq<char>> {
    if request.conversation_id is Some {
        request.conversation_id
    } else if transcript::announced_id(stderr) is Some {
        transcript::announced_id(stderr)
    } else {
        transcript::announced_id(stdout)
    }
}

/// Whether `step` is what follows when a process has exited with the given
/// output.
pub open spec fn is_exit_step(
    step: Result<NextStep, TalosError>,
    request: RequestView,
    success: bool,
    code: Option<i32>,
    stdout: Seq<char>,
    stderr: Seq<char>,
    duration: Duration,
) -> bool {
    if !success {
        step matches Err(TalosError::ProcessFailed { exit_code, stderr: shown }) && exit_code
            == config::given_or(code, -1i32) && shown@ == stderr
    } else {
        match conversation_of(request, stdout, stderr) {
            Some(id) => step matches Ok(NextStep::ReadTranscript(pending))
                && pending.conversation_id@ == id && pending.stdout@ == stdout && pending.duration
                == duration,
            None => step matches Ok(NextStep::Done(answer)) && answer@ == response::plain_response(
                text::trimmed(stdout),
                Seq::empty(),
                duration,
            ),
        }
    }
}

/// What follows when a process has exited, where `stdout` and `stderr` are
/// the texts that it wrote.
pub fn after_exit(
    request: &TalosRequest,
    success: bool,
    code: Option<i32>,
    stdout: String,
    stderr: String,
    duration: Duration,
) -> (step: Result<NextStep, TalosError>)
    ensures
        is_exit_step(step, request@, success, code, stdout@, stderr@, duration),
{
    if !success {
        let exit_code: i32 = match code {
            Some(c) => c,
            None => -1,
        };
        return Err(TalosError::ProcessFailed { exit_code, stderr });
    }
    let conversation = match &request.conversation_id {
        Some(id) => Some(id.clone()),
        None => match transcript::extract_conversation_id(stderr.as_str()) {
            Some(id) => Some(id),
            None => transcript::extract_conversation_id(stdout.as_str()),
        },
    };
    match conversation {
        Some(conversation_id) => Ok(
            NextStep::ReadTranscript(PendingResponse { conversation_id, stdout, duration }),
        ),
        None => Ok(
            NextStep::Done(
                TalosResponse::plain(
                    text::trim(stdout.as_str()).to_owned(),
                    String::new(),
                    duration,
                ),
            ),
        ),
    }
}

/// What follows when waiting for the process has ended.
pub fn after_wait(request: &TalosRequest, outcome: WaitOutcome) -> (step: Result<
    NextStep,
    TalosError,
>)
    ensures
        match outcome {
            WaitOutcome::TimedOut => step == Err::<NextStep, TalosError>(TalosError::Timeout),
            WaitOutcome::Failed(cause) => step == Err::<NextStep, TalosError>(
                TalosError::IoError(cause),
            ),
            WaitOutcome::Exited(output) => is_exit_step(
                step,
                request@,
                output.success,
                output.code,
                lossy_text(output.stdout@),
                lossy_text(output.stderr@),
                output.duration,
            ),
        },
        match outcome {
            WaitOutcome::Exited(output) => valid_utf8(output.stdout@) && valid_utf8(output.stderr@)
                ==> is_exit_step(
                step,
                request@,
                output.success,
                output.code,
                decode_utf8(output.stdout@),
                decode_utf8(output.stderr@),
                output.duration,
            ),
            _ => true,
        },
{
    match outcome {
        WaitOutcome::TimedOut => Err(TalosError::Timeout),
        WaitOutcome::Failed(cause) => Err(TalosError::IoError(cause)),
        WaitOutcome::Exited(output) => {
            let stderr = decode_lossy(&output.stderr);
            let stdout = decode_lossy(&output.stdout);
            after_exit(request, output.success, output.code, stdout, stderr, output.duration)
        },
    }
}

/// What a response that waited for its transcript says, given what came of
/// reading the transcript.
pub open spec fn resolved(
    pending: PendingResponse,
    read: Result<TalosResponse, TalosError>,
) -> ResponseView {
    match read {
        Ok(found) => found@,
        Err(_) => response::plain_response(
            text::trimmed(pending.stdout@),
            pending.conversation_id@,
            pending.duration,
        ),
    }
}

impl PendingResponse {
    /// The response, given what came of reading the transcript: the
    /// transcript's own where there is one, the raw stdout text otherwise.
    pub fn resolve(self, read: Result<TalosResponse, TalosError>) -> (answer: TalosResponse)
        ensures
            answer@ == resolved(self, read),
            match read {
                Ok(found) => answer == found,
                Err(_) => answer@ == response::plain_response(
                    text::trimmed(self.stdout@),
                    self.conversation_id@,
                    self.duration,
                ),
            },
    {
        match read {
            Ok(found) => found,
            Err(_) => TalosResponse::plain(
                text::trim(self.stdout.as_str()).to_owned(),
                self.conversation_id,
                self.duration,
            ),
        }
    }
}

// ── Laws ────────────────────────────────────────────────────────────

/// A conversation that was asked for is the one that is answered, whatever
/// the process prints.
pub proof fn law_requested_conversation_wins(
    request: RequestView,
    stdout: Seq<char>,
    stderr: Seq<char>,
)
    requires
        request.conversation_id is Some,
    ensures
        conversation_of(request, stdout, stderr) == request.conversation_id,
{
}

/// Only a process that succeeded is answered, and one that succeeded always
/// is.
pub proof fn law_success_is_answered(
    step: Result<NextStep, TalosError>,
    request: RequestView,
    success: bool,
    code: Option<i32>,
    stdout: Seq<char>,
    stderr: Seq<char>,
    duration: Duration,
)
    requires
        is_exit_step(step, request, success, code, stdout, stderr, duration),
    ensures
        step is Ok <==> success,
{
}

/// A prompt is refused where it is longer than the limit, and one that is
/// refused stays refused when more is added to it.
pub proof fn law_longer_prompts_stay_refused(
    config: ConfigView,
    request: RequestView,
    more: Seq<char>,
)
    requires
        prompt_fault(config, request) is Some,
    ensures
        prompt_fault(config, (RequestView { prompt: request.prompt + more, ..request })) is Some,
{
    text::lemma_encode_concat(request.prompt, more);
}

} // verus!
