use forge_talos::error::TalosError;
use forge_talos::json::{parse_json, Json};
use forge_talos::paths::FilePath;
use forge_talos::pid_guard::{guard_label, PidGuard};
use forge_talos::text::{decimal_text, join, signed_text, split_lines, strip_prefix, trim};

#[test]
fn errors_display_their_cause() {
    let cases = [
        (TalosError::AgyNotFound, "agy binary not found — ensure it is installed and on $PATH"),
        (TalosError::Timeout, "agy invocation timed out after the configured duration"),
        (
            TalosError::ProcessFailed { exit_code: -9, stderr: "boom".to_string() },
            "agy process failed (exit code -9): boom",
        ),
        (
            TalosError::TranscriptNotFound { path: "/p".to_string() },
            "transcript not found at: /p",
        ),
        (TalosError::ParseError("x".to_string()), "parse error: x"),
        (
            TalosError::ConcurrencyLimit,
            "concurrency limit reached — too many concurrent invocations",
        ),
        (TalosError::ConfigError("x".to_string()), "configuration error: x"),
        (
            TalosError::IoError(std::io::Error::new(std::io::ErrorKind::Other, "disk")),
            "I/O error: disk",
        ),
    ];
    for (error, expected) in cases {
        assert_eq!(error.message(), expected);
    }
}

#[test]
fn causes_turn_into_errors() {
    let cause = serde_json::from_str::<serde_json::Value>("{").unwrap_err();
    let shown = cause.to_string();
    assert!(matches!(TalosError::from(cause), TalosError::ParseError(what) if what == shown));
    let cause = toml::from_str::<toml::Value>("a = ").unwrap_err();
    let shown = cause.to_string();
    assert!(matches!(TalosError::from(cause), TalosError::ConfigError(what) if what == shown));
    let cause = std::io::Error::new(std::io::ErrorKind::Other, "x");
    assert!(matches!(TalosError::from(cause), TalosError::IoError(_)));
}

#[test]
fn json_values_keep_their_content() {
    let json = parse_json(" {\"b\": [1.50, -3, true, null, \"t\"], \"a\": {\"x\": \"y\"}} ").unwrap();
    let items = json.get("b").unwrap().as_array().unwrap();
    assert_eq!(items.len(), 5);
    assert!(matches!(&items[0], Json::Number(n) if n == "1.5"));
    assert!(matches!(&items[1], Json::Number(n) if n == "-3"));
    assert!(matches!(&items[2], Json::Bool(true)));
    assert!(matches!(&items[3], Json::Null));
    assert_eq!(items[4].as_str(), Some("t"));
    assert_eq!(json.get("a").unwrap().get("x").unwrap().as_str(), Some("y"));
    assert!(json.get("c").is_none());
    assert!(items[4].get("a").is_none());
    assert!(items[0].as_str().is_none());
    assert!(json.as_array().is_none());
    assert_eq!(format!("{:?}", json.clone()), format!("{:?}", json));
}

#[test]
fn json_errors_are_handed_on() {
    let own = parse_json("[1,").unwrap_err().to_string();
    let expected = serde_json::from_str::<serde_json::Value>("[1,").unwrap_err().to_string();
    assert_eq!(own, expected);
}

fn bytes(path: Option<FilePath>) -> Option<Vec<u8>> {
    path.map(|p| p.into_slashed())
}

#[test]
fn records_are_named_after_the_process() {
    let guard = PidGuard::new(4071);
    let home = Some(FilePath::from_text("/home/u"));
    let record = guard.record_from(&home, "conv").unwrap();
    assert_eq!(record.dir.into_slashed(), b"/home/u/.talos/pid_map");
    assert_eq!(record.file.clone().into_slashed(), b"/home/u/.talos/pid_map/4071");
    assert_eq!(record.content, "conv");
    assert_eq!(bytes(guard.file_from(&home)), bytes(Some(record.file)));
    assert!(guard.record_from(&None, "conv").is_none());
    assert!(guard.file_from(&None).is_none());
}

#[test]
fn records_follow_the_home_directory() {
    let guard = PidGuard::new(1);
    let home = dirs::home_dir()
        .map(|dir| FilePath::from_bytes(dir.into_os_string().into_encoded_bytes()));
    assert_eq!(bytes(guard.file()), bytes(guard.file_from(&home)));
    let found = guard.record("c").map(|record| record.file);
    assert_eq!(bytes(found), bytes(guard.file_from(&home)));
}

#[test]
fn two_processes_have_two_records() {
    let home = Some(FilePath::from_text("/"));
    assert_ne!(
        bytes(PidGuard::new(1).file_from(&home)),
        bytes(PidGuard::new(11).file_from(&home))
    );
    assert_eq!(
        bytes(PidGuard::new(u32::MAX).file_from(&home)),
        Some(b"/.talos/pid_map/4294967295".to_vec())
    );
}

#[test]
fn unknown_conversations_are_labelled() {
    assert_eq!(guard_label(&None), "unknown");
    assert_eq!(guard_label(&Some("c".to_string())), "c");
}

#[test]
fn lines_split_as_in_std() {
    for text in ["", "\n", "a", "a\n", "a\r\nb", "a\r", "\r\n\r\n", "a\n\nb\r\n\u{e9}\r\r\n"] {
        let expected: Vec<&str> = text.lines().collect();
        assert_eq!(split_lines(text), expected);
    }
}

#[test]
fn trimming_is_as_in_std() {
    for text in ["", "  ", " a b ", "\u{3000}x\u{85}\u{a0}", "\u{200b}x", "\t\u{2028}y\u{1680}\n"] {
        assert_eq!(trim(text), text.trim());
    }
    for code in 0..=0x10ffffu32 {
        if let Some(c) = char::from_u32(code) {
            if c.is_whitespace() {
                assert_eq!(trim(&c.to_string()), "");
            } else if code < 0x4000 {
                assert_eq!(trim(&c.to_string()), c.to_string());
            }
        }
    }
}

#[test]
fn prefixes_are_stripped_as_in_std() {
    for (text, prefix) in [("abc", "ab"), ("abc", "b"), ("", ""), ("\u{e9}x", "\u{e9}"), ("a", "ab")] {
        assert_eq!(strip_prefix(text, prefix), text.strip_prefix(prefix));
    }
}

#[test]
fn numbers_are_written_in_decimal() {
    for n in [0, 7, 10, 99, 100, 12345, u64::MAX] {
        assert_eq!(decimal_text(n), n.to_string());
    }
    for n in [0, -1, 1, i32::MIN, i32::MAX, -10] {
        assert_eq!(signed_text(n), n.to_string());
    }
}

#[test]
fn joining_puts_the_separator_between() {
    let parts = |texts: &[&str]| texts.iter().map(|t| t.to_string()).collect::<Vec<String>>();
    assert_eq!(join(&parts(&[]), "\n"), "");
    assert_eq!(join(&parts(&["a"]), "\n"), "a");
    assert_eq!(join(&parts(&["a", "", "b"]), ", "), "a, , b");
}
