use std::time::Duration;

use forge_talos::config::TalosConfig;
use forge_talos::error::TalosError;
use forge_talos::json::Json;
use forge_talos::paths::FilePath;
use forge_talos::transcript::{
    extract_conversation_id, has_entries, TranscriptRead, TranscriptReader,
};

fn path_text(path: FilePath) -> String {
    String::from_utf8(path.into_slashed()).unwrap()
}

fn second() -> Duration {
    Duration::from_secs(1)
}

#[test]
fn extract_conv_id_from_stderr() {
    let stderr = "Loading config...\nConversation ID: abc-123\nDone.";
    assert_eq!(
        extract_conversation_id(stderr),
        Some("abc-123".to_string())
    );
}

#[test]
fn parse_simple_transcript() {
    let jsonl = r#"{"type":"USER_INPUT","content":"hello"}
{"type":"PLANNER_RESPONSE","content":"Hi there!","tool_calls":[],"step_index":0}
"#;
    let resp =
        TranscriptReader::parse_transcript(jsonl, "test-conv", Duration::from_secs(1))
            .unwrap();
    assert_eq!(resp.text, "Hi there!");
    assert!(resp.tool_calls.is_empty());
}

#[test]
fn response_keeps_id_and_duration() {
    let jsonl = "{\"type\":\"USER_INPUT\"}\n{\"type\":\"TEXT_RESPONSE\",\"content\":\"x\"}";
    let resp = TranscriptReader::parse_transcript(jsonl, "c-9", Duration::from_millis(1500)).unwrap();
    assert_eq!(resp.conversation_id, "c-9");
    assert_eq!(resp.duration, Duration::from_millis(1500));
    assert!(resp.artifacts.is_empty());
}

#[test]
fn only_the_latest_turn_counts() {
    let jsonl = concat_lines(&[
        r#"{"type":"USER_INPUT","content":"one"}"#,
        r#"{"type":"PLANNER_RESPONSE","content":"old","artifacts":["old.md"]}"#,
        r#"{"type":"USER_INPUT","content":"two"}"#,
        r#"{"type":"PLANNER_RESPONSE","content":"new"}"#,
    ]);
    let resp = TranscriptReader::parse_transcript(&jsonl, "c", second()).unwrap();
    assert_eq!(resp.text, "new");
    assert!(resp.artifacts.is_empty());
}

#[test]
fn texts_calls_and_artifacts_come_in_order() {
    let jsonl = concat_lines(&[
        r#"{"type":"USER_INPUT"}"#,
        r#"{"type":"PLANNER_RESPONSE","content":"a","tool_calls":[{"name":"t1"},2]}"#,
        r#"{"type":"TOOL_RESULT","content":"skipped","tool_calls":[3],"artifacts":["no"]}"#,
        r#"{"type":"TEXT_RESPONSE","content":[{"text":"b"},{"text":""},{"other":1},{"text":"c"}]}"#,
        r#"{"type":"PLANNER_RESPONSE","content":"","tool_calls":["t3"],"artifacts":["p1",{"path":"p2"},{"x":1},5]}"#,
    ]);
    let resp = TranscriptReader::parse_transcript(&jsonl, "c", second()).unwrap();
    assert_eq!(resp.text, "a\nb\nc");
    assert_eq!(resp.artifacts, vec!["p1", "p2"]);
    assert_eq!(resp.tool_calls.len(), 3);
    assert_eq!(resp.tool_calls[0].get("name").unwrap().as_str(), Some("t1"));
    assert!(matches!(&resp.tool_calls[1], Json::Number(n) if n == "2"));
    assert_eq!(resp.tool_calls[2].as_str(), Some("t3"));
}

#[test]
fn without_user_input_the_first_entry_is_passed_over() {
    let jsonl = concat_lines(&[
        r#"{"type":"TEXT_RESPONSE","content":"first"}"#,
        r#"{"type":"TEXT_RESPONSE","content":"second"}"#,
    ]);
    let resp = TranscriptReader::parse_transcript(&jsonl, "c", second()).unwrap();
    assert_eq!(resp.text, "second");
}

#[test]
fn a_turn_without_responses_is_empty() {
    let resp =
        TranscriptReader::parse_transcript("{\"type\":\"USER_INPUT\"}\n", "c", second()).unwrap();
    assert_eq!(resp.text, "");
    assert!(resp.tool_calls.is_empty());
}

#[test]
fn blank_lines_and_carriage_returns_are_passed_over() {
    let jsonl = "\n  \t\r\n{\"type\":\"USER_INPUT\"}\r\n\n{\"type\":\"TEXT_RESPONSE\",\"content\":\"ok\"}\r\n   ";
    let resp = TranscriptReader::parse_transcript(jsonl, "c", second()).unwrap();
    assert_eq!(resp.text, "ok");
}

#[test]
fn earlier_lines_do_not_change_the_response() {
    let earlier = "{\"type\":\"USER_INPUT\"}\n{\"type\":\"TEXT_RESPONSE\",\"content\":\"old\"}";
    let later = "{\"type\":\"USER_INPUT\"}\n{\"type\":\"TEXT_RESPONSE\",\"content\":\"new\"}\n";
    let alone = TranscriptReader::parse_transcript(later, "c", second()).unwrap();
    let both = format!("{}\n{}", earlier, later);
    let whole = TranscriptReader::parse_transcript(&both, "c", second()).unwrap();
    assert_eq!(alone.text, "new");
    assert_eq!(whole.text, alone.text);
}

#[test]
fn the_first_malformed_line_is_reported() {
    let line = "{\"type\":";
    let shown = serde_json::from_str::<serde_json::Value>(line).unwrap_err().to_string();
    let jsonl = format!("{{\"type\":\"USER_INPUT\"}}\n{}\nnull and more\n", line);
    match TranscriptReader::parse_transcript(&jsonl, "c", second()) {
        Err(TalosError::ParseError(what)) => assert_eq!(what, shown),
        other => panic!("{:?}", other),
    }
}

#[test]
fn entries_that_are_no_objects_are_passed_over() {
    let jsonl = "{\"type\":\"USER_INPUT\"}\n42\n[\"type\"]\nnull\n\"TEXT_RESPONSE\"\n";
    let resp = TranscriptReader::parse_transcript(jsonl, "c", second()).unwrap();
    assert_eq!(resp.text, "");
}

#[test]
fn repeated_members_keep_the_last_value() {
    let jsonl = "{\"type\":\"USER_INPUT\"}\n{\"type\":\"X\",\"type\":\"TEXT_RESPONSE\",\"content\":\"\\u00e9\\n\"}\n";
    let resp = TranscriptReader::parse_transcript(jsonl, "c", second()).unwrap();
    assert_eq!(resp.text, "\u{e9}\n");
}

#[test]
fn entries_are_told_from_blank_texts() {
    assert!(!has_entries(""));
    assert!(!has_entries("\n \n\t\r\n"));
    assert!(has_entries("\n x"));
}

#[test]
fn reading_reports_what_went_wrong() {
    match TranscriptReader::read_response("/no/file", TranscriptRead::Missing, "c", second()) {
        Err(TalosError::TranscriptNotFound { path }) => assert_eq!(path, "/no/file"),
        other => panic!("{:?}", other),
    }
    let cause = std::io::Error::new(std::io::ErrorKind::PermissionDenied, "no");
    match TranscriptReader::read_response("/f", TranscriptRead::Failed(cause), "c", second()) {
        Err(TalosError::IoError(e)) => {
            assert_eq!(e.kind(), std::io::ErrorKind::PermissionDenied)
        }
        other => panic!("{:?}", other),
    }
    let raw = "{}\n{\"type\":\"TEXT_RESPONSE\",\"content\":\"t\"}".to_string();
    let resp =
        TranscriptReader::read_response("/f", TranscriptRead::Content(raw), "c", second()).unwrap();
    assert_eq!(resp.text, "t");
}

#[test]
fn available_responses_need_a_readable_transcript() {
    let from = |read| TranscriptReader::available_response(read, "c", second());
    let broken = std::io::Error::new(std::io::ErrorKind::Other, "x");
    assert!(from(TranscriptRead::Missing).is_none());
    assert!(from(TranscriptRead::Failed(broken)).is_none());
    assert!(from(TranscriptRead::Content(" \n".to_string())).is_none());
    assert!(from(TranscriptRead::Content("{}\n{".to_string())).is_none());
    let raw = "{}\n{\"type\":\"TEXT_RESPONSE\",\"content\":\"t\"}".to_string();
    let found = from(TranscriptRead::Content(raw)).unwrap();
    assert_eq!(found.text, "t");
    assert_eq!(found.conversation_id, "c");
}

#[test]
fn blank_and_other_lines_leave_no_trace() {
    let user = "{\"type\":\"USER_INPUT\"}\n";
    let reply = "{\"type\":\"TEXT_RESPONSE\",\"content\":\"r\"}\n";
    let plain = format!("{}{}", user, reply);
    let other = "{\"type\":\"SYSTEM\",\"content\":\"s\"}\n";
    for padded in [
        format!("{}{}{}", other, user, reply),
        format!("{}{} \t\n{}", user, other, reply),
        format!("{}{}\r\n{}", user, reply, other),
    ] {
        let expected = TranscriptReader::parse_transcript(&plain, "c", second()).unwrap();
        let found = TranscriptReader::parse_transcript(&padded, "c", second()).unwrap();
        assert_eq!(expected.text, "r");
        assert_eq!(found.text, expected.text);
    }
}

#[test]
fn an_other_line_in_front_can_move_the_start() {
    let reply = "{\"type\":\"TEXT_RESPONSE\",\"content\":\"r\"}\n";
    let alone = TranscriptReader::parse_transcript(reply, "c", second()).unwrap();
    let padded = format!("{{}}\n{}", reply);
    let found = TranscriptReader::parse_transcript(&padded, "c", second()).unwrap();
    assert_eq!(alone.text, "");
    assert_eq!(found.text, "r");
}

#[test]
fn transcript_path_is_below_the_data_dir() {
    let mut config = TalosConfig::default();
    {
        let reader = TranscriptReader::new(&config);
        assert_eq!(
            path_text(reader.transcript_path_from(&Some(FilePath::from_text("/home/u")), "id")),
            "/home/u/.gemini/antigravity-cli/brain/id/.system_generated/logs/transcript.jsonl"
        );
        assert_eq!(
            path_text(reader.transcript_path_from(&None, "id")),
            "/tmp/.gemini/antigravity-cli/brain/id/.system_generated/logs/transcript.jsonl"
        );
    }
    config.defaults.data_dir = Some("data/".to_string());
    let reader = TranscriptReader::new(&config);
    assert_eq!(
        path_text(reader.transcript_path("id")),
        "data/brain/id/.system_generated/logs/transcript.jsonl"
    );
}

#[test]
fn two_conversations_have_two_transcripts() {
    let config = TalosConfig::default();
    let reader = TranscriptReader::new(&config);
    let (base, parts) = reader.transcript_path_from(&None, "c-1").into_parts();
    assert_eq!(base, b"/tmp");
    assert_eq!(
        parts,
        vec![
            ".gemini/antigravity-cli",
            "brain",
            "c-1",
            ".system_generated/logs/transcript.jsonl",
        ]
    );
    let one = reader.transcript_path_from(&None, "c-1");
    let other = reader.transcript_path_from(&None, "c-11");
    assert_ne!(one.into_slashed(), other.into_slashed());
}

#[test]
fn default_transcript_path_follows_the_home_directory() {
    let config = TalosConfig::default();
    let home = dirs::home_dir()
        .map(|dir| FilePath::from_bytes(dir.into_os_string().into_encoded_bytes()));
    let reader = TranscriptReader::new(&config);
    assert_eq!(
        path_text(reader.transcript_path("id")),
        path_text(reader.transcript_path_from(&home, "id"))
    );
}

#[test]
fn assigned_ids_lose_their_quotes() {
    assert_eq!(
        extract_conversation_id("  conversation_id= \"\"x y\"  "),
        Some("x y".to_string())
    );
    assert_eq!(
        extract_conversation_id("conversation_id=plain\r\n"),
        Some("plain".to_string())
    );
}

#[test]
fn labels_without_an_id_are_passed_over() {
    let text = "Conversation ID:   \nconversation_id=\"\"\nconversation id: no\nConversation ID:late";
    assert_eq!(extract_conversation_id(text), Some("late".to_string()));
}

#[test]
fn the_first_announced_id_wins() {
    let text = "conversation_id=one\nConversation ID: two";
    assert_eq!(extract_conversation_id(text), Some("one".to_string()));
}

#[test]
fn texts_without_an_announcement_have_no_id() {
    assert_eq!(extract_conversation_id(""), None);
    assert_eq!(extract_conversation_id("the Conversation ID: x"), None);
}

fn concat_lines(lines: &[&str]) -> String {
    let mut all = String::new();
    for line in lines {
        all.push_str(line);
        all.push('\n');
    }
    all
}
