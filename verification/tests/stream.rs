use std::time::Duration;

use forge_talos::error::TalosError;
use forge_talos::response::TalosResponse;
use forge_talos::stream::{
    ExitPoll, LinePoll, StreamInput, StreamPoll, StreamState, TalosEvent, TalosStream,
    TranscriptPoll,
};
use forge_talos::transcript::{TranscriptRead, TranscriptReader};

fn open(id: Option<&str>) -> TalosStream {
    TalosStream::new(true, id.map(|s| s.to_string())).unwrap()
}

fn line(text: &str) -> StreamInput {
    StreamInput::Line(LinePoll::Line(text.to_string()))
}

fn exit(success: bool, code: Option<i32>) -> StreamInput {
    StreamInput::Exit(ExitPoll::Exited { success, code, duration: Duration::from_secs(2) })
}

fn io_error() -> std::io::Error {
    std::io::Error::new(std::io::ErrorKind::Other, "broken")
}

/// Lets a stream see some lines, then the exit of the process.
fn run(id: Option<&str>, lines: &[&str], last: StreamInput) -> Vec<TalosEvent> {
    let mut stream = open(id);
    let mut events = Vec::new();
    for text in lines {
        match stream.poll_next(line(text)) {
            StreamPoll::Ready(Some(event)) => events.push(event),
            other => panic!("{:?}", other),
        }
    }
    assert!(matches!(
        stream.poll_next(StreamInput::Line(LinePoll::Closed)),
        StreamPoll::PollAgain
    ));
    match stream.poll_next(last) {
        StreamPoll::Ready(Some(event)) => events.push(event),
        StreamPoll::PollAgain => {
            let duration = Duration::from_secs(2);
            assert_eq!(stream.state(), StreamState::Transcribing { duration });
            match stream.poll_next(StreamInput::Transcript(TranscriptPoll::Settled(None))) {
                StreamPoll::Ready(Some(event)) => events.push(event),
                other => panic!("{:?}", other),
            }
        }
        other => panic!("{:?}", other),
    }
    assert_eq!(stream.state(), StreamState::Done);
    assert!(matches!(stream.poll_next(StreamInput::Nothing), StreamPoll::Ready(None)));
    events
}

#[test]
fn stdout_has_to_be_piped() {
    match TalosStream::new(false, None) {
        Err(TalosError::ParseError(what)) => assert_eq!(what, "child stdout not piped"),
        other => panic!("{:?}", other),
    }
}

#[test]
fn chunks_are_followed_by_the_response() {
    let events = run(Some("c-1"), &["one", "", "three"], exit(true, Some(0)));
    assert_eq!(events.len(), 4);
    assert!(matches!(&events[0], TalosEvent::TextChunk(t) if t == "one"));
    assert!(matches!(&events[1], TalosEvent::TextChunk(t) if t.is_empty()));
    assert!(matches!(&events[2], TalosEvent::TextChunk(t) if t == "three"));
    match &events[3] {
        TalosEvent::Complete(response) => {
            assert_eq!(response.text, "one\n\nthree");
            assert_eq!(response.conversation_id, "c-1");
            assert_eq!(response.duration, Duration::from_secs(2));
            assert!(response.tool_calls.is_empty());
            assert!(response.artifacts.is_empty());
        }
        other => panic!("{:?}", other),
    }
}

#[test]
fn an_unknown_conversation_is_called_so() {
    let events = run(None, &[], exit(true, Some(0)));
    match &events[0] {
        TalosEvent::Complete(response) => {
            assert_eq!(response.text, "");
            assert_eq!(response.conversation_id, "unknown");
        }
        other => panic!("{:?}", other),
    }
}

#[test]
fn failures_show_the_exit_code() {
    let events = run(None, &["x"], exit(false, Some(-7)));
    assert!(matches!(&events[1], TalosEvent::Error(m) if m == "agy exited with code -7"));
    let events = run(None, &[], exit(false, None));
    assert!(matches!(&events[0], TalosEvent::Error(m) if m == "agy exited with code -1"));
    let events = run(None, &[], exit(false, Some(i32::MIN)));
    assert!(matches!(&events[0], TalosEvent::Error(m) if m == "agy exited with code -2147483648"));
}

#[test]
fn pending_changes_nothing() {
    let mut stream = open(None);
    assert!(matches!(
        stream.poll_next(StreamInput::Line(LinePoll::Pending)),
        StreamPoll::Pending
    ));
    assert_eq!(stream.state(), StreamState::Reading);
    stream.poll_next(StreamInput::Line(LinePoll::Closed));
    assert_eq!(stream.state(), StreamState::Finishing);
    assert!(matches!(
        stream.poll_next(StreamInput::Exit(ExitPoll::Running)),
        StreamPoll::PollAgain
    ));
    assert_eq!(stream.state(), StreamState::Finishing);
}

#[test]
fn the_response_carries_the_transcript() {
    let raw = "{\"type\":\"USER_INPUT\"}\n{\"type\":\"PLANNER_RESPONSE\",\"content\":\"other\",\"tool_calls\":[\"t\"],\"artifacts\":[\"a.md\"]}\n";
    let read = TranscriptRead::Content(raw.to_string());
    let found = TranscriptReader::available_response(read, "c", Duration::from_secs(2));
    let mut stream = open(Some("c"));
    stream.poll_next(StreamInput::Line(LinePoll::Pending));
    stream.poll_next(line("one"));
    stream.poll_next(StreamInput::Line(LinePoll::Pending));
    stream.poll_next(line("two"));
    stream.poll_next(StreamInput::Line(LinePoll::Closed));
    stream.poll_next(StreamInput::Exit(ExitPoll::Running));
    assert!(matches!(stream.poll_next(exit(true, Some(0))), StreamPoll::PollAgain));
    assert!(matches!(
        stream.poll_next(StreamInput::Transcript(TranscriptPoll::Pending)),
        StreamPoll::Pending
    ));
    match stream.poll_next(StreamInput::Transcript(TranscriptPoll::Settled(found))) {
        StreamPoll::Ready(Some(TalosEvent::Complete(response))) => {
            assert_eq!(response.text, "one\ntwo");
            assert_eq!(response.conversation_id, "c");
            assert_eq!(response.duration, Duration::from_secs(2));
            assert_eq!(response.tool_calls.len(), 1);
            assert_eq!(response.tool_calls[0].as_str(), Some("t"));
            assert_eq!(response.artifacts, vec!["a.md"]);
        }
        other => panic!("{:?}", other),
    }
    assert_eq!(stream.state(), StreamState::Done);
}

#[test]
fn read_errors_end_the_stream() {
    let mut stream = open(None);
    match stream.poll_next(StreamInput::Line(LinePoll::Failed(io_error()))) {
        StreamPoll::Ready(Some(TalosEvent::Error(m))) => assert_eq!(m, "broken"),
        other => panic!("{:?}", other),
    }
    assert_eq!(stream.state(), StreamState::Done);
}

#[test]
fn wait_errors_end_the_stream() {
    let events = run(None, &[], StreamInput::Exit(ExitPoll::Failed(io_error())));
    assert!(matches!(&events[0], TalosEvent::Error(m) if m == "broken"));
}

#[test]
fn collecting_gives_the_response() {
    let events = run(Some("c"), &["a", "b"], exit(true, Some(0)));
    let response = TalosStream::collect_response(events.clone()).unwrap();
    assert_eq!(response.text, "a\nb");
    assert_eq!(events.len(), 3);
}

#[test]
fn collecting_gives_the_first_error() {
    let events = vec![
        TalosEvent::TextChunk("a".to_string()),
        TalosEvent::Complete(TalosResponse::plain(
            "t".to_string(),
            "c".to_string(),
            Duration::from_secs(0),
        )),
        TalosEvent::Error("first".to_string()),
        TalosEvent::Error("second".to_string()),
    ];
    match TalosStream::collect_response(events) {
        Err(TalosError::ParseError(what)) => assert_eq!(what, "first"),
        other => panic!("{:?}", other),
    }
}

#[test]
fn collecting_needs_a_response() {
    let events = vec![TalosEvent::TextChunk("a".to_string())];
    match TalosStream::collect_response(events) {
        Err(TalosError::ParseError(what)) => assert_eq!(what, "stream ended without response"),
        other => panic!("{:?}", other),
    }
}
