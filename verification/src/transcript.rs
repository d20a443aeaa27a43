//! Transcript parsing for `agy` output.
//!
//! After an `agy --print` invocation completes, the full structured transcript
//! lives at `~/.gemini/antigravity-cli/brain/<conv-id>/.system_generated/logs/transcript.jsonl`.
//!
//! [`TranscriptReader`] says where this file is and extracts the assistant's
//! response entries into a [`TalosResponse`].

use std::time::Duration;
use vstd::prelude::*;

use crate::config;
use crate::config::{ConfigView, TalosConfig};
use crate::error::TalosError;
use crate::json;
use crate::json::{Json, JsonView};
use crate::paths;
use crate::paths::{FilePath, PathView};
use crate::response::{ResponseView, TalosResponse};
use crate::text;

verus! {

// ── Entries ─────────────────────────────────────────────────────────

/// What `part` makes of each item, in order.
pub open spec fn flat<A>(items: Seq<JsonView>, part: spec_fn(JsonView) -> Seq<A>) -> Seq<A>
    decreases items.len(),
{
    if items.len() == 0 {
        Seq::empty()
    } else {
        flat(items.drop_last(), part) + part(items.last())
    }
}

/// Whether the entry marks the start of a turn.
pub open spec fn is_user_input(entry: JsonView) -> bool {
    entry.text_member("type"@) == Some("USER_INPUT"@)
}

/// Whether the entry is part of the assistant's response.
pub open spec fn is_response(entry: JsonView) -> bool {
    ||| entry.text_member("type"@) == Some("PLANNER_RESPONSE"@)
    ||| entry.text_member("type"@) == Some("TEXT_RESPONSE"@)
}

/// The text, as the only element, unless it is missing or empty.
pub open spec fn nonempty(text: Option<Seq<char>>) -> Seq<Seq<char>> {
    match text {
        Some(t) => if t.len() > 0 {
            seq![t]
        } else {
            Seq::empty()
        },
        None => Seq::empty(),
    }
}

/// The text of an item of a content array.
pub open spec fn item_text() -> spec_fn(JsonView) -> Seq<Seq<char>> {
    |item: JsonView| nonempty(item.text_member("text"@))
}

/// The texts of a response entry: its content where that is a string, the
/// texts of its items where that is an array.
pub open spec fn response_texts(entry: JsonView) -> Seq<Seq<char>> {
    nonempty(entry.text_member("content"@)) + match entry.array_member("content"@) {
        Some(items) => flat(items, item_text()),
        None => Seq::empty(),
    }
}

/// The path that an artifact names: itself where it is a string, its `path`
/// where it is an object with one.
pub open spec fn artifact_path() -> spec_fn(JsonView) -> Seq<Seq<char>> {
    |artifact: JsonView|
        match artifact.text() {
            Some(path) => seq![path],
            None => match artifact.text_member("path"@) {
                Some(path) => seq![path],
                None => Seq::empty(),
            },
        }
}

/// The texts that an entry adds to the response.
pub open spec fn entry_texts() -> spec_fn(JsonView) -> Seq<Seq<char>> {
    |entry: JsonView|
        if is_response(entry) {
            response_texts(entry)
        } else {
            Seq::empty()
        }
}

/// The tool calls that an entry adds to the response.
pub open spec fn entry_tool_calls() -> spec_fn(JsonView) -> Seq<JsonView> {
    |entry: JsonView|
        match entry.array_member("tool_calls"@) {
            Some(calls) => if is_response(entry) {
                calls
            } else {
                Seq::empty()
            },
            None => Seq::empty(),
        }
}

/// The artifact paths that an entry adds to the response.
pub open spec fn entry_artifacts() -> spec_fn(JsonView) -> Seq<Seq<char>> {
    |entry: JsonView|
        match entry.array_member("artifacts"@) {
            Some(artifacts) => if is_response(entry) {
                flat(artifacts, artifact_path())
            } else {
                Seq::empty()
            },
            None => Seq::empty(),
        }
}

// ── Turns ───────────────────────────────────────────────────────────

/// The index of the last entry that starts a turn, or the first index where
/// none does.
pub open spec fn last_user_input(entries: Seq<JsonView>) -> int
    decreases entries.len(),
{
    if entries.len() == 0 {
        0
    } else if is_user_input(entries.last()) {
        entries.len() - 1
    } else {
        last_user_input(entries.drop_last())
    }
}

/// The entries of the most recent turn.
pub open spec fn latest_turn(entries: Seq<JsonView>) -> Seq<JsonView> {
    entries.skip(last_user_input(entries) + 1)
}

/// The response that the entries of one turn amount to.
pub open spec fn turn_response(
    turn: Seq<JsonView>,
    conversation_id: Seq<char>,
    duration: Duration,
) -> ResponseView {
    ResponseView {
        text: text::joined(flat(turn, entry_texts()), "\n"@),
        conversation_id,
        tool_calls: flat(turn, entry_tool_calls()),
        artifacts: flat(turn, entry_artifacts()),
        duration,
    }
}

// ── Lines ───────────────────────────────────────────────────────────

/// The lines that hold more than white space.
pub open spec fn nonblank(lines: Seq<Seq<char>>) -> Seq<Seq<char>>
    decreases lines.len(),
{
    if lines.len() == 0 {
        Seq::empty()
    } else if text::trimmed(lines.last()).len() > 0 {
        nonblank(lines.drop_last()).push(lines.last())
    } else {
        nonblank(lines.drop_last())
    }
}

/// The lines of a transcript that hold an entry each.
pub open spec fn entry_lines(raw: Seq<char>) -> Seq<Seq<char>> {
    nonblank(text::lines(raw))
}

/// What `read` makes of every line, or the first message that it gives.
pub open spec fn read_all(
    lines: Seq<Seq<char>>,
    read: spec_fn(Seq<char>) -> Result<JsonView, Seq<char>>,
) -> Result<Seq<JsonView>, Seq<char>>
    decreases lines.len(),
{
    if lines.len() == 0 {
        Ok(Seq::empty())
    } else {
        match read_all(lines.drop_last(), read) {
            Err(message) => Err(message),
            Ok(entries) => match read(lines.last()) {
                Ok(entry) => Ok(entries.push(entry)),
                Err(message) => Err(message),
            },
        }
    }
}

/// Reading a line as JSON.
pub open spec fn json_reader() -> spec_fn(Seq<char>) -> Result<JsonView, Seq<char>> {
    |line: Seq<char>| json::parsed_json(line)
}

/// Once a line cannot be read, the message stands whatever follows.
proof fn lemma_read_all_fails(
    lines: Seq<Seq<char>>,
    read: spec_fn(Seq<char>) -> Result<JsonView, Seq<char>>,
    n: int,
)
    requires
        0 <= n <= lines.len(),
        read_all(lines.take(n), read) is Err,
    ensures
        read_all(lines, read) == read_all(lines.take(n), read),
    decreases lines.len(),
{
    if n == lines.len() {
        assert(lines.take(n) =~= lines);
    } else {
        assert(lines.drop_last().take(n) =~= lines.take(n));
        lemma_read_all_fails(lines.drop_last(), read, n);
    }
}

// ── Reading ─────────────────────────────────────────────────────────

/// The string member called `key`, where there is one.
fn member_str<'a>(value: &'a Json, key: &str) -> (found: Option<&'a str>)
    ensures
        match found {
            Some(s) => value@.text_member(key@) == Some(s@),
            None => value@.text_member(key@) is None,
        },
{
    match value.get(key) {
        Some(member) => member.as_str(),
        None => None,
    }
}

/// The items of the array member called `key`, where there is one.
fn member_array<'a>(value: &'a Json, key: &str) -> (found: Option<&'a Vec<Json>>)
    ensures
        match found {
            Some(items) => value@.array_member(key@) == Some(json::contents(items@)),
            None => value@.array_member(key@) is None,
        },
{
    match value.get(key) {
        Some(member) => member.as_array(),
        None => None,
    }
}

/// Whether the entry has the type `name`.
fn has_type(entry: &Json, name: &str) -> (yes: bool)
    ensures
        yes == (entry@.text_member("type"@) == Some(name@)),
{
    match member_str(entry, "type") {
        Some(kind) => text::same_text(kind, name),
        None => false,
    }
}

/// Adds `found` to `parts`, unless it is missing or empty.
fn push_nonempty(parts: &mut Vec<String>, found: Option<&str>)
    ensures
        text::string_texts(final(parts)@) == text::string_texts(old(parts)@) + nonempty(
            match found {
                Some(s) => Some(s@),
                None => None,
            },
        ),
{
    if let Some(s) = found {
        if !s.is_empty() {
            parts.push(s.to_owned());
        }
    }
    assert(text::string_texts(parts@) =~= text::string_texts(old(parts)@) + nonempty(
        match found {
            Some(s) => Some(s@),
            None => None,
        },
    ));
}

/// Adds the texts of a response entry to `parts`.
fn push_texts(parts: &mut Vec<String>, entry: &Json)
    ensures
        text::string_texts(final(parts)@) == text::string_texts(old(parts)@) + response_texts(
            entry@,
        ),
{
    push_nonempty(parts, member_str(entry, "content"));
    let ghost start = text::string_texts(parts@);
    if let Some(items) = member_array(entry, "content") {
        let ghost all = json::contents(items@);
        let mut i: usize = 0;
        assert(start + flat(all.take(0), item_text()) =~= start);
        while i < items.len()
            invariant
                i <= items@.len(),
                all == json::contents(items@),
                text::string_texts(parts@) == start + flat(all.take(i as int), item_text()),
            decreases items@.len() - i,
        {
            let ghost now = all.take(i + 1);
            assert(now.drop_last() =~= all.take(i as int));
            assert(now.last() == items@[i as int]@);
            push_nonempty(parts, member_str(&items[i], "text"));
            assert(text::string_texts(parts@) =~= start + flat(now, item_text()));
            i = i + 1;
        }
        assert(all.take(i as int) =~= all);
        assert(text::string_texts(parts@) =~= text::string_texts(old(parts)@) + response_texts(
            entry@,
        ));
    } else {
        assert(text::string_texts(parts@) =~= text::string_texts(old(parts)@) + response_texts(
            entry@,
        ));
    }
}

/// Adds the tool calls of a response entry to `calls`.
fn push_tool_calls(calls: &mut Vec<Json>, entry: &Json)
    requires
        is_response(entry@),
    ensures
        json::contents(final(calls)@) == json::contents(old(calls)@) + entry_tool_calls()(entry@),
{
    let ghost start = json::contents(calls@);
    if let Some(items) = member_array(entry, "tool_calls") {
        let ghost all = json::contents(items@);
        let mut i: usize = 0;
        assert(start + all.take(0) =~= start);
        while i < items.len()
            invariant
                i <= items@.len(),
                all == json::contents(items@),
                json::contents(calls@) == start + all.take(i as int),
            decreases items@.len() - i,
        {
            let ghost before = calls@;
            calls.push(items[i].duplicate());
            assert(json::contents(calls@) =~= json::contents(before).push(all[i as int]));
            assert(json::contents(calls@) =~= start + all.take(i + 1));
            i = i + 1;
        }
        assert(all.take(i as int) =~= all);
    }
    assert(json::contents(calls@) =~= start + entry_tool_calls()(entry@));
}

/// Adds the artifact paths of a response entry to `artifacts`.
fn push_artifacts(artifacts: &mut Vec<String>, entry: &Json)
    requires
        is_response(entry@),
    ensures
        text::string_texts(final(artifacts)@) == text::string_texts(old(artifacts)@)
            + entry_artifacts()(entry@),
{
    let ghost start = text::string_texts(artifacts@);
    if let Some(items) = member_array(entry, "artifacts") {
        let ghost all = json::contents(items@);
        let mut i: usize = 0;
        assert(start + flat(all.take(0), artifact_path()) =~= start);
        while i < items.len()
            invariant
                i <= items@.len(),
                all == json::contents(items@),
                text::string_texts(artifacts@) == start + flat(
                    all.take(i as int),
                    artifact_path(),
                ),
            decreases items@.len() - i,
        {
            let ghost now = all.take(i + 1);
            let ghost before = artifacts@;
            assert(now.drop_last() =~= all.take(i as int));
            assert(now.last() == items@[i as int]@);
            if let Some(path) = items[i].as_str() {
                artifacts.push(path.to_owned());
                assert(text::string_texts(artifacts@) =~= text::string_texts(before).push(path@));
            } else if let Some(path) = member_str(&items[i], "path") {
                artifacts.push(path.to_owned());
                assert(text::string_texts(artifacts@) =~= text::string_texts(before).push(path@));
            }
            assert(text::string_texts(artifacts@) =~= start + flat(now, artifact_path()));
            i = i + 1;
        }
        assert(all.take(i as int) =~= all);
    }
    assert(text::string_texts(artifacts@) =~= start + entry_artifacts()(entry@));
}

/// The index of the last entry that starts a turn, or the first index where
/// none does.
fn find_last_user_input(entries: &Vec<Json>) -> (index: usize)
    requires
        entries@.len() > 0,
    ensures
        index == last_user_input(json::contents(entries@)),
        index < entries@.len(),
{
    let ghost all = json::contents(entries@);
    let mut end: usize = entries.len();
    assert(all.take(end as int) =~= all);
    while end > 0
        invariant
            end <= entries@.len(),
            entries@.len() > 0,
            all == json::contents(entries@),
            last_user_input(all) == last_user_input(all.take(end as int)),
        decreases end,
    {
        assert(all.take(end as int).drop_last() =~= all.take(end - 1));
        assert(all.take(end as int).last() == entries@[end - 1]@);
        if has_type(&entries[end - 1], "USER_INPUT") {
            return end - 1;
        }
        end = end - 1;
    }
    0
}

/// Whether a transcript holds an entry.
pub fn has_entries(raw: &str) -> (yes: bool)
    ensures
        yes == (entry_lines(raw@).len() > 0),
{
    pick_entry_lines(raw).len() > 0
}

/// The lines of a transcript that hold an entry each.
fn pick_entry_lines<'a>(raw: &'a str) -> (kept: Vec<&'a str>)
    ensures
        text::str_texts(kept@) == entry_lines(raw@),
{
    let all = text::split_lines(raw);
    let ghost texts = text::str_texts(all@);
    let mut kept: Vec<&'a str> = Vec::new();
    let mut i: usize = 0;
    assert(text::str_texts(kept@) =~= nonblank(texts.take(0)));
    while i < all.len()
        invariant
            i <= all@.len(),
            texts == text::str_texts(all@),
            text::str_texts(kept@) == nonblank(texts.take(i as int)),
        decreases all@.len() - i,
    {
        let ghost now = texts.take(i + 1);
        let ghost before = kept@;
        assert(now.drop_last() =~= texts.take(i as int));
        assert(now.last() == all@[i as int]@);
        if !text::trim(all[i]).is_empty() {
            kept.push(all[i]);
            assert(text::str_texts(kept@) =~= text::str_texts(before).push(all@[i as int]@));
        }
        i = i + 1;
    }
    assert(texts.take(i as int) =~= texts);
    kept
}

/// Reads and parses `agy` transcript files.
pub struct TranscriptReader<'a> {
    /// The configuration in force.
    pub config: &'a TalosConfig,
}

/// Where the transcript of a conversation is, where `home` is the home
/// directory.
pub open spec fn transcript_location(
    config: ConfigView,
    home: Option<PathView>,
    conversation_id: Seq<char>,
) -> PathView {
    config::data_directory(config, home).joined("brain"@).joined(conversation_id).joined(
        ".system_generated/logs/transcript.jsonl"@,
    )
}

/// What came of reading a transcript file.
#[derive(Debug)]
pub enum TranscriptRead {
    /// There is no such file.
    Missing,
    /// The file could not be read.
    Failed(std::io::Error),
    /// The content of the file.
    Content(String),
}

impl<'a> TranscriptReader<'a> {
    /// Create a new reader bound to the given config.
    pub fn new(config: &'a TalosConfig) -> (reader: Self)
        ensures
            reader.config == config,
    {
        Self { config }
    }

    /// The path to the transcript JSONL file, where `home` is the home
    /// directory.
    pub fn transcript_path_from(&self, home: &Option<FilePath>, conversation_id: &str) -> (path:
        FilePath)
        ensures
            path@ == transcript_location(
                self.config@,
                paths::option_path(*home),
                conversation_id@,
            ),
    {
        let brain = self.config.data_dir_from(home).join("brain");
        brain.join(conversation_id).join(".system_generated/logs/transcript.jsonl")
    }

    /// Resolve the filesystem path to the transcript JSONL file. The home
    /// directory is whatever the system says it is.
    pub fn transcript_path(&self, conversation_id: &str) -> (path: FilePath)
        ensures
            exists|home: Option<PathView>|
                path@ == #[trigger] transcript_location(self.config@, home, conversation_id@),
            self.config@.defaults.data_dir is Some ==> path@ == transcript_location(
                self.config@,
                None,
                conversation_id@,
            ),
    {
        let home = paths::home_dir();
        self.transcript_path_from(&home, conversation_id)
    }

    /// Construct a [`TalosResponse`] from what came of reading the file that
    /// is shown as `path`.
    pub fn read_response(
        path: &str,
        read: TranscriptRead,
        conversation_id: &str,
        duration: Duration,
    ) -> (result: Result<TalosResponse, TalosError>)
        requires
            read matches TranscriptRead::Content(raw) ==> entry_lines(raw@).len() > 0,
        ensures
            match read {
                TranscriptRead::Missing => result matches Err(TalosError::TranscriptNotFound {
                    path: p,
                }) && p@ == path@,
                TranscriptRead::Failed(cause) => result == Err::<TalosResponse, TalosError>(
                    TalosError::IoError(cause),
                ),
                TranscriptRead::Content(raw) => is_transcript_result(
                    result,
                    raw@,
                    conversation_id@,
                    duration,
                ),
            },
    {
        match read {
            TranscriptRead::Missing => Err(
                TalosError::TranscriptNotFound { path: path.to_owned() },
            ),
            TranscriptRead::Failed(cause) => Err(TalosError::IoError(cause)),
            TranscriptRead::Content(raw) => Self::parse_transcript(
                raw.as_str(),
                conversation_id,
                duration,
            ),
        }
    }

    /// The response in a transcript file, where one can be had from what came
    /// of reading the file.
    pub fn available_response(read: TranscriptRead, conversation_id: &str, duration: Duration) -> (
    found: Option<TalosResponse>)
        ensures
            option_response(found) == match read {
                TranscriptRead::Content(raw) => transcript_response(
                    raw@,
                    conversation_id@,
                    duration,
                ),
                _ => None,
            },
    {
        match read {
            TranscriptRead::Content(raw) => {
                proof {
                    lemma_read_all_len(entry_lines(raw@), json_reader());
                }
                if !has_entries(raw.as_str()) {
                    return None;
                }
                match Self::parse_transcript(raw.as_str(), conversation_id, duration) {
                    Ok(response) => Some(response),
                    Err(_) => None,
                }
            },
            _ => None,
        }
    }

    /// Parse raw JSONL content into a [`TalosResponse`].
    ///
    /// Strategy:
    /// 1. Find the **last** `USER_INPUT` line (marks the start of the
    ///    most recent turn).
    /// 2. Collect all subsequent `PLANNER_RESPONSE` / `TEXT_RESPONSE`
    ///    entries.
    /// 3. Extract `content`, `tool_calls`, and artifact references.
    pub fn parse_transcript(raw: &str, conversation_id: &str, duration: Duration) -> (result:
        Result<TalosResponse, TalosError>)
        requires
            entry_lines(raw@).len() > 0,
        ensures
            is_transcript_result(result, raw@, conversation_id@, duration),
    {
        let kept = pick_entry_lines(raw);
        let ghost texts = text::str_texts(kept@);
        let mut entries: Vec<Json> = Vec::new();
        let mut i: usize = 0;
        assert(json::contents(entries@) =~= Seq::<JsonView>::empty());
        while i < kept.len()
            invariant
                i <= kept@.len(),
                texts == text::str_texts(kept@),
                texts == entry_lines(raw@),
                entries@.len() == i,
                read_all(texts.take(i as int), json_reader()) == Ok::<Seq<JsonView>, Seq<char>>(
                    json::contents(entries@),
                ),
            decreases kept@.len() - i,
        {
            let ghost now = texts.take(i + 1);
            let ghost before = entries@;
            assert(now.drop_last() =~= texts.take(i as int));
            assert(now.last() == kept@[i as int]@);
            match json::parse_json(kept[i]) {
                Ok(entry) => {
                    entries.push(entry);
                    assert(json::contents(entries@) =~= json::contents(before).push(entry@));
                },
                Err(cause) => {
                    let error = TalosError::from(cause);
                    proof {
                        lemma_read_all_fails(texts, json_reader(), i + 1);
                    }
                    return Err(error);
                },
            }
            i = i + 1;
        }
        assert(texts.take(i as int) =~= texts);
        Ok(Self::build_response(&entries, conversation_id, duration))
    }

    /// The response that the most recent turn of a transcript amounts to.
    pub fn build_response(entries: &Vec<Json>, conversation_id: &str, duration: Duration) -> (
    response: TalosResponse)
        requires
            entries@.len() > 0,
        ensures
            response@ == turn_response(
                latest_turn(json::contents(entries@)),
                conversation_id@,
                duration,
            ),
    {
        let ghost turn = latest_turn(json::contents(entries@));
        let total: usize = entries.len();
        let start: usize = find_last_user_input(entries) + 1;
        let mut parts: Vec<String> = Vec::new();
        let mut tool_calls: Vec<Json> = Vec::new();
        let mut artifacts: Vec<String> = Vec::new();
        let mut i: usize = start;
        assert(text::string_texts(parts@) =~= flat(turn.take(0), entry_texts()));
        assert(json::contents(tool_calls@) =~= flat(turn.take(0), entry_tool_calls()));
        assert(text::string_texts(artifacts@) =~= flat(turn.take(0), entry_artifacts()));
        while i < total
            invariant
                total == entries@.len(),
                start <= i <= entries@.len(),
                turn == json::contents(entries@).skip(start as int),
                text::string_texts(parts@) == flat(turn.take(i - start), entry_texts()),
                json::contents(tool_calls@) == flat(turn.take(i - start), entry_tool_calls()),
                text::string_texts(artifacts@) == flat(turn.take(i - start), entry_artifacts()),
            decreases entries@.len() - i,
        {
            let ghost now = turn.take(i + 1 - start);
            let entry = &entries[i];
            assert(now.drop_last() =~= turn.take(i - start));
            assert(now.last() == entry@);
            if has_type(entry, "PLANNER_RESPONSE") || has_type(entry, "TEXT_RESPONSE") {
                push_texts(&mut parts, entry);
                push_tool_calls(&mut tool_calls, entry);
                push_artifacts(&mut artifacts, entry);
            }
            assert(text::string_texts(parts@) =~= flat(now, entry_texts()));
            assert(json::contents(tool_calls@) =~= flat(now, entry_tool_calls()));
            assert(text::string_texts(artifacts@) =~= flat(now, entry_artifacts()));
            i = i + 1;
        }
        assert(turn.take(i - start) =~= turn);
        TalosResponse {
            text: text::join(&parts, "\n"),
            conversation_id: conversation_id.to_owned(),
            tool_calls,
            artifacts,
            duration,
        }
    }
}

/// What an optional response says.
pub open spec fn option_response(response: Option<TalosResponse>) -> Option<ResponseView> {
    match response {
        Some(r) => Some(r@),
        None => None,
    }
}

/// The response of the most recent turn of a transcript with the content
/// `raw`; none where it holds no entry, or a line that is not JSON.
pub open spec fn transcript_response(
    raw: Seq<char>,
    conversation_id: Seq<char>,
    duration: Duration,
) -> Option<ResponseView> {
    match read_all(entry_lines(raw), json_reader()) {
        Ok(entries) => if entries.len() > 0 {
            Some(turn_response(latest_turn(entries), conversation_id, duration))
        } else {
            None
        },
        Err(_) => None,
    }
}

/// Every line that is read gives one entry.
proof fn lemma_read_all_len(
    lines: Seq<Seq<char>>,
    read: spec_fn(Seq<char>) -> Result<JsonView, Seq<char>>,
)
    ensures
        read_all(lines, read) matches Ok(entries) ==> entries.len() == lines.len(),
    decreases lines.len(),
{
    if lines.len() > 0 {
        lemma_read_all_len(lines.drop_last(), read);
    }
}

/// Whether `result` is what a transcript with the content `raw` leads to: the
/// response of its most recent turn, or the message of the first line that is
/// not JSON.
pub open spec fn is_transcript_result(
    result: Result<TalosResponse, TalosError>,
    raw: Seq<char>,
    conversation_id: Seq<char>,
    duration: Duration,
) -> bool {
    match read_all(entry_lines(raw), json_reader()) {
        Ok(entries) => result matches Ok(response) && response@ == turn_response(
            latest_turn(entries),
            conversation_id,
            duration,
        ),
        Err(message) => result matches Err(TalosError::ParseError(what)) && what@ == message,
    }
}

// ── Conversation IDs ────────────────────────────────────────────────

/// The conversation ID that a line announces.
pub open spec fn line_id(line: Seq<char>) -> Option<Seq<char>> {
    let clean = text::trimmed(line);
    let labelled = match text::after_prefix(clean, "Conversation ID:"@) {
        Some(rest) => text::trimmed(rest),
        None => Seq::empty(),
    };
    let assigned = match text::after_prefix(clean, "conversation_id="@) {
        Some(rest) => text::stripped(text::trimmed(rest), text::CharSet::Quote),
        None => Seq::empty(),
    };
    if labelled.len() > 0 {
        Some(labelled)
    } else if assigned.len() > 0 {
        Some(assigned)
    } else {
        None
    }
}

/// The first conversation ID that one of the lines announces.
pub open spec fn first_id(lines: Seq<Seq<char>>) -> Option<Seq<char>>
    decreases lines.len(),
{
    if lines.len() == 0 {
        None
    } else if line_id(lines[0]) is Some {
        line_id(lines[0])
    } else {
        first_id(lines.drop_first())
    }
}

/// The conversation ID that the output of `agy` announces.
pub open spec fn announced_id(output: Seq<char>) -> Option<Seq<char>> {
    first_id(text::lines(output))
}

/// Lines without an announcement do not bear on the search.
proof fn lemma_first_id_skip(lines: Seq<Seq<char>>, n: int)
    requires
        0 <= n <= lines.len(),
        forall|i: int| 0 <= i < n ==> line_id(#[trigger] lines[i]) is None,
    ensures
        first_id(lines) == first_id(lines.skip(n)),
    decreases n,
{
    if n == 0 {
        assert(lines.skip(0) =~= lines);
    } else {
        let rest = lines.drop_first();
        assert(line_id(lines[0]) is None);
        assert forall|i: int| 0 <= i < n - 1 implies line_id(#[trigger] rest[i]) is None by {
            assert(rest[i] == lines[i + 1]);
        }
        lemma_first_id_skip(rest, n - 1);
        assert(rest.skip(n - 1) =~= lines.skip(n));
    }
}

/// The conversation ID that a line announces.
fn find_line_id(line: &str) -> (id: Option<String>)
    ensures
        text::option_text(id) == line_id(line@),
{
    let clean = text::trim(line);
    if let Some(rest) = text::strip_prefix(clean, "Conversation ID:") {
        let id = text::trim(rest);
        if !id.is_empty() {
            return Some(id.to_owned());
        }
    }
    if let Some(rest) = text::strip_prefix(clean, "conversation_id=") {
        let id = text::strip_set(text::trim(rest), text::CharSet::Quote);
        if !id.is_empty() {
            return Some(id.to_owned());
        }
    }
    None
}

/// Attempt to extract a conversation ID from agy's stderr output.
///
/// `agy` typically prints a line like:
/// ```text
/// Conversation ID: abc-123-def
/// ```
/// A line like `conversation_id="abc-123-def"` is understood too.
pub fn extract_conversation_id(stderr: &str) -> (id: Option<String>)
    ensures
        text::option_text(id) == announced_id(stderr@),
{
    let lines = text::split_lines(stderr);
    let ghost texts = text::str_texts(lines@);
    let mut i: usize = 0;
    while i < lines.len()
        invariant
            i <= lines@.len(),
            texts == text::str_texts(lines@),
            texts == text::lines(stderr@),
            forall|j: int| 0 <= j < i ==> line_id(#[trigger] texts[j]) is None,
        decreases lines@.len() - i,
    {
        let id = find_line_id(lines[i]);
        assert(texts[i as int] == lines@[i as int]@);
        if id.is_some() {
            proof {
                lemma_first_id_skip(texts, i as int);
                assert(texts.skip(i as int)[0] == texts[i as int]);
            }
            return id;
        }
        i = i + 1;
    }
    proof {
        lemma_first_id_skip(texts, i as int);
    }
    None
}

} // verus!
