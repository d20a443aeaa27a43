use std::time::Duration;

use forge_talos::client::{
    after_exit, after_wait, permit_or_limit, spawn_error, NextStep, PendingResponse,
    ProcessOutput, Talos, WaitOutcome,
};
use forge_talos::config::TalosConfig;
use forge_talos::error::TalosError;
use forge_talos::request::{Model, TalosRequest};
use forge_talos::response::TalosResponse;

fn limited(max_concurrent: usize, max_prompt_bytes: usize) -> Talos {
    let mut config = TalosConfig::default();
    config.limits.max_concurrent = max_concurrent;
    config.limits.max_prompt_bytes = max_prompt_bytes;
    Talos::from_loaded_config(config)
}

fn exited(success: bool, code: Option<i32>, stdout: &[u8], stderr: &[u8]) -> WaitOutcome {
    WaitOutcome::Exited(ProcessOutput {
        success,
        code,
        stdout: stdout.to_vec(),
        stderr: stderr.to_vec(),
        duration: Duration::from_secs(3),
    })
}

#[test]
fn clients_keep_their_configuration() {
    assert_eq!(Talos::with_defaults().config().limits.max_concurrent, 4);
    let mut config = TalosConfig::default();
    config.agy.binary_path = "/b".into();
    assert_eq!(Talos::from_loaded_config(config).config().agy.binary_path, "/b");
}

#[test]
fn long_prompts_are_refused() {
    let talos = limited(4, 4);
    assert!(talos.check_prompt(&TalosRequest::new("abcd")).is_ok());
    assert!(talos.check_prompt(&TalosRequest::new("\u{e9}\u{e9}")).is_ok());
    match talos.check_prompt(&TalosRequest::new("\u{e9}\u{e9}x")) {
        Err(TalosError::ParseError(what)) => {
            assert_eq!(what, "prompt exceeds max size (5 > 4 bytes)")
        }
        other => panic!("{:?}", other),
    }
    match talos.acquire(&TalosRequest::new("abcdefghijkl")) {
        Err(TalosError::ParseError(what)) => {
            assert_eq!(what, "prompt exceeds max size (12 > 4 bytes)")
        }
        other => panic!("{:?}", other),
    }
}

#[test]
fn permits_run_out_and_come_back() {
    let talos = limited(2, 100);
    let request = TalosRequest::new("p");
    let first = talos.acquire(&request);
    let second = talos.clone().acquire(&request);
    assert!(first.is_ok());
    assert!(second.is_ok());
    assert!(matches!(talos.acquire(&request), Err(TalosError::ConcurrencyLimit)));
    drop(first);
    assert!(talos.acquire(&request).is_ok());
}

#[test]
fn a_refused_prompt_takes_no_permit() {
    let talos = limited(1, 1);
    assert!(talos.acquire(&TalosRequest::new("too long")).is_err());
    assert!(talos.acquire(&TalosRequest::new("p")).is_ok());
}

#[test]
fn no_permits_means_no_invocation() {
    let talos = limited(0, 100);
    assert!(matches!(
        talos.acquire(&TalosRequest::new("p")),
        Err(TalosError::ConcurrencyLimit)
    ));
}

#[test]
fn every_permit_error_is_the_limit() {
    for error in [
        tokio::sync::TryAcquireError::NoPermits,
        tokio::sync::TryAcquireError::Closed,
    ] {
        assert!(matches!(permit_or_limit(Err(error)), Err(TalosError::ConcurrencyLimit)));
    }
    let semaphore = std::sync::Arc::new(tokio::sync::Semaphore::new(1));
    assert!(permit_or_limit(semaphore.try_acquire_owned()).is_ok());
}

#[test]
fn asking_uses_the_configured_model() {
    let mut config = TalosConfig::default();
    config.defaults.model = "from-config".into();
    let talos = Talos::from_loaded_config(config);
    let request = TalosRequest::new("p").with_model(Model::GeminiPro);
    assert_eq!(talos.command(&request).args[3], "gemini-pro-agent");
    assert_eq!(talos.ask_command(&request).args[3], "from-config");
}

#[test]
fn the_wait_is_as_long_as_agy_is_told() {
    let talos = Talos::with_defaults();
    let request = TalosRequest::new("p");
    assert_eq!(talos.timeout_secs(&request), 300);
    assert_eq!(talos.command(&request).args[5], "300s");
    let request = request.with_timeout(9);
    assert_eq!(talos.timeout_secs(&request), 9);
    assert_eq!(talos.command(&request).args[5], "9s");
}

#[test]
fn a_missing_binary_is_told_apart() {
    let cause = || std::io::Error::new(std::io::ErrorKind::NotFound, "x");
    assert!(matches!(spawn_error(true, cause()), TalosError::AgyNotFound));
    assert!(matches!(spawn_error(false, cause()), TalosError::IoError(_)));
}

#[test]
fn waiting_can_fail() {
    let request = TalosRequest::new("p");
    assert!(matches!(after_wait(&request, WaitOutcome::TimedOut), Err(TalosError::Timeout)));
    let cause = std::io::Error::new(std::io::ErrorKind::Other, "x");
    assert!(matches!(
        after_wait(&request, WaitOutcome::Failed(cause)),
        Err(TalosError::IoError(_))
    ));
}

#[test]
fn failed_processes_show_their_stderr() {
    let request = TalosRequest::new("p");
    match after_wait(&request, exited(false, Some(3), b"out", b"bad \xff end")) {
        Err(TalosError::ProcessFailed { exit_code, stderr }) => {
            assert_eq!(exit_code, 3);
            assert_eq!(stderr, "bad \u{fffd} end");
        }
        other => panic!("{:?}", other),
    }
    match after_wait(&request, exited(false, None, b"", b"")) {
        Err(TalosError::ProcessFailed { exit_code, stderr }) => {
            assert_eq!(exit_code, -1);
            assert_eq!(stderr, "");
        }
        other => panic!("{:?}", other),
    }
}

#[test]
fn requested_conversations_win() {
    let request = TalosRequest::new("p").with_conversation_id("mine");
    match after_wait(&request, exited(true, Some(0), b"out", b"Conversation ID: other")) {
        Ok(NextStep::ReadTranscript(pending)) => {
            assert_eq!(pending.conversation_id, "mine");
            assert_eq!(pending.stdout, "out");
            assert_eq!(pending.duration, Duration::from_secs(3));
        }
        other => panic!("{:?}", other),
    }
}

#[test]
fn stderr_is_searched_before_stdout() {
    let request = TalosRequest::new("p");
    let both = exited(true, Some(0), b"conversation_id=out", b"Conversation ID: err");
    match after_wait(&request, both) {
        Ok(NextStep::ReadTranscript(pending)) => assert_eq!(pending.conversation_id, "err"),
        other => panic!("{:?}", other),
    }
    let one = exited(true, Some(0), b"conversation_id=out", b"nothing");
    match after_wait(&request, one) {
        Ok(NextStep::ReadTranscript(pending)) => assert_eq!(pending.conversation_id, "out"),
        other => panic!("{:?}", other),
    }
}

#[test]
fn output_without_a_conversation_is_the_answer() {
    let request = TalosRequest::new("p");
    let step = after_exit(
        &request,
        true,
        Some(0),
        " \n the answer\n".to_string(),
        String::new(),
        Duration::from_secs(1),
    );
    match step {
        Ok(NextStep::Done(response)) => {
            assert_eq!(response.text, "the answer");
            assert_eq!(response.conversation_id, "");
            assert_eq!(response.duration, Duration::from_secs(1));
        }
        other => panic!("{:?}", other),
    }
}

#[test]
fn transcripts_win_over_stdout() {
    let pending = || PendingResponse {
        conversation_id: "c".to_string(),
        stdout: "  raw \n".to_string(),
        duration: Duration::from_secs(1),
    };
    let found =
        TalosResponse::plain("found".to_string(), "c".to_string(), Duration::from_secs(1));
    assert_eq!(pending().resolve(Ok(found)).text, "found");
    let missing = TalosError::TranscriptNotFound { path: "/p".to_string() };
    let answer = pending().resolve(Err(missing));
    assert_eq!(answer.text, "raw");
    assert_eq!(answer.conversation_id, "c");
}
