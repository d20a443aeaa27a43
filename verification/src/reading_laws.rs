//! What holds of reading transcripts and announced conversation IDs.

use std::time::Duration;
use vstd::prelude::*;

use crate::config;
use crate::config::ConfigView;
use crate::error::TalosError;
use crate::json;
use crate::json::JsonView;
use crate::paths::PathView;
use crate::response::TalosResponse;
use crate::text;
use crate::text_laws;
use crate::transcript;
use crate::transcript_laws;

verus! {

// ── Lines and entries ───────────────────────────────────────────────

/// The lines that hold an entry are those that hold more than white space, in
/// order. Here `speaks` is any function that tells such lines.
pub proof fn law_entry_lines_are_the_nonblank_ones(
    raw: Seq<char>,
    speaks: spec_fn(Seq<char>) -> bool,
)
    requires
        forall|line: Seq<char>| #[trigger]
            speaks(line) <==> exists|i: int|
                0 <= i < line.len() && !text::CharSet::WhiteSpace.has(#[trigger] line[i]),
    ensures
        transcript::entry_lines(raw) == text::lines(raw).filter(speaks),
{
    lemma_nonblank_is_filter(text::lines(raw), speaks);
}

/// Dropping blank lines is keeping those that speak.
proof fn lemma_nonblank_is_filter(lines: Seq<Seq<char>>, speaks: spec_fn(Seq<char>) -> bool)
    requires
        forall|line: Seq<char>| #[trigger]
            speaks(line) <==> exists|i: int|
                0 <= i < line.len() && !text::CharSet::WhiteSpace.has(#[trigger] line[i]),
    ensures
        transcript::nonblank(lines) == lines.filter(speaks),
    decreases lines.len(),
{
    reveal(Seq::filter);
    if lines.len() > 0 {
        lemma_nonblank_is_filter(lines.drop_last(), speaks);
        lemma_trimmed_is_empty(lines.last());
        assert(speaks(lines.last()) <==> text::trimmed(lines.last()).len() > 0);
    } else {
        assert(transcript::nonblank(lines) =~= lines);
    }
}

/// A text trims to nothing where it holds white space alone.
proof fn lemma_trimmed_is_empty(s: Seq<char>)
    ensures
        text::trimmed(s).len() > 0 <==> exists|i: int|
            0 <= i < s.len() && !text::CharSet::WhiteSpace.has(#[trigger] s[i]),
{
    let set = text::CharSet::WhiteSpace;
    text_laws::law_trimming_takes_only_members(s, set);
    let kept = text::stripped(s, set);
    let n = choose|n: int|
        #![trigger s.skip(n)]
        0 <= n && n + kept.len() <= s.len() && kept == s.skip(n).take(kept.len() as int) && (forall|
            i: int,
        | (0 <= i < n || n + kept.len() <= i < s.len()) ==> set.has(#[trigger] s[i]));
    if kept.len() > 0 {
        text_laws::law_trimming_stops_at_others(s, set);
        assert(kept[0] == s[n]);
        assert(!set.has(s[n]));
    }
}

/// Where every line can be read, the lines read as their entries, in order.
pub proof fn law_lines_read_as_their_entries(
    lines: Seq<Seq<char>>,
    read: spec_fn(Seq<char>) -> Result<JsonView, Seq<char>>,
    entries: Seq<JsonView>,
)
    requires
        lines.len() == entries.len(),
        forall|i: int| 0 <= i < lines.len() ==> read(#[trigger] lines[i]) == Ok::<
            JsonView,
            Seq<char>,
        >(entries[i]),
    ensures
        transcript::read_all(lines, read) == Ok::<Seq<JsonView>, Seq<char>>(entries),
    decreases lines.len(),
{
    if lines.len() == 0 {
        assert(entries =~= Seq::<JsonView>::empty());
    } else {
        assert forall|i: int| 0 <= i < lines.drop_last().len() implies read(
            #[trigger] lines.drop_last()[i],
        ) == Ok::<JsonView, Seq<char>>(entries.drop_last()[i]) by {
            assert(read(lines[i]) == Ok::<JsonView, Seq<char>>(entries[i]));
        }
        law_lines_read_as_their_entries(lines.drop_last(), read, entries.drop_last());
        assert(read(lines[lines.len() - 1]) == Ok::<JsonView, Seq<char>>(entries.last()));
        assert(entries =~= entries.drop_last().push(entries.last()));
    }
}

/// The first line that cannot be read decides, whatever follows it.
pub proof fn law_first_bad_line_decides(
    lines: Seq<Seq<char>>,
    read: spec_fn(Seq<char>) -> Result<JsonView, Seq<char>>,
    n: int,
    message: Seq<char>,
)
    requires
        0 <= n < lines.len(),
        forall|i: int| 0 <= i < n ==> read(#[trigger] lines[i]) is Ok,
        read(lines[n]) == Err::<JsonView, Seq<char>>(message),
    ensures
        transcript::read_all(lines, read) == Err::<Seq<JsonView>, Seq<char>>(message),
    decreases lines.len(),
{
    let before = lines.drop_last();
    if n < before.len() {
        assert forall|i: int| 0 <= i < n implies read(#[trigger] before[i]) is Ok by {
            assert(read(lines[i]) is Ok);
        }
        law_first_bad_line_decides(before, read, n, message);
    } else {
        assert forall|i: int| 0 <= i < before.len() implies read(#[trigger] before[i]) is Ok by {
            assert(read(lines[i]) is Ok);
        }
        lemma_readable(before, read);
    }
}

/// Lines that can each be read can be read together.
proof fn lemma_readable(
    lines: Seq<Seq<char>>,
    read: spec_fn(Seq<char>) -> Result<JsonView, Seq<char>>,
)
    requires
        forall|i: int| 0 <= i < lines.len() ==> read(#[trigger] lines[i]) is Ok,
    ensures
        transcript::read_all(lines, read) is Ok,
    decreases lines.len(),
{
    if lines.len() > 0 {
        let before = lines.drop_last();
        assert forall|i: int| 0 <= i < before.len() implies read(#[trigger] before[i]) is Ok by {
            assert(read(lines[i]) is Ok);
        }
        lemma_readable(before, read);
        assert(read(lines[lines.len() - 1]) is Ok);
    }
}

// ── Transcripts ─────────────────────────────────────────────────────

/// A transcript whose lines read as entries up to a user input, then that, then
/// the entries of a turn is answered with the response of the turn.
pub proof fn law_latest_turn_is_answered(
    result: Result<TalosResponse, TalosError>,
    raw: Seq<char>,
    before: Seq<JsonView>,
    input: JsonView,
    turn: Seq<JsonView>,
    id: Seq<char>,
    duration: Duration,
)
    requires
        transcript::is_transcript_result(result, raw, id, duration),
        transcript::entry_lines(raw).len() == before.len() + 1 + turn.len(),
        forall|i: int|
            0 <= i < transcript::entry_lines(raw).len() ==> json::parsed_json(
                #[trigger] transcript::entry_lines(raw)[i],
            ) == Ok::<JsonView, Seq<char>>((before + seq![input] + turn)[i]),
        input.text_member("type"@) == Some("USER_INPUT"@),
        forall|i: int|
            0 <= i < turn.len() ==> (#[trigger] turn[i]).text_member("type"@) != Some(
                "USER_INPUT"@,
            ),
    ensures
        result matches Ok(response) && response@ == transcript::turn_response(turn, id, duration),
        transcript::transcript_response(raw, id, duration) == Some(
            transcript::turn_response(turn, id, duration),
        ),
{
    let lines = transcript::entry_lines(raw);
    let entries = before + seq![input] + turn;
    let read = transcript::json_reader();
    assert forall|i: int| 0 <= i < lines.len() implies read(#[trigger] lines[i]) == Ok::<
        JsonView,
        Seq<char>,
    >(entries[i]) by {}
    law_lines_read_as_their_entries(lines, read, entries);
    assert forall|i: int| 0 <= i < turn.len() implies !transcript::is_user_input(
        #[trigger] turn[i],
    ) by {
        assert(turn[i].text_member("type"@) != Some("USER_INPUT"@));
    }
    transcript_laws::law_only_latest_turn_counts(before, input, turn);
}

/// A transcript is answered with the response of its latest turn, where every
/// line is JSON; it is the same for a reader that takes failure for nothing.
pub proof fn law_readable_transcript(
    result: Result<TalosResponse, TalosError>,
    raw: Seq<char>,
    entries: Seq<JsonView>,
    id: Seq<char>,
    duration: Duration,
)
    requires
        transcript::is_transcript_result(result, raw, id, duration),
        entries.len() > 0,
        transcript::entry_lines(raw).len() == entries.len(),
        forall|i: int|
            0 <= i < entries.len() ==> json::parsed_json(
                #[trigger] transcript::entry_lines(raw)[i],
            ) == Ok::<JsonView, Seq<char>>(entries[i]),
    ensures
        result matches Ok(response) && response@ == transcript::turn_response(
            transcript::latest_turn(entries),
            id,
            duration,
        ) && transcript::transcript_response(raw, id, duration) == Some(response@),
{
    let lines = transcript::entry_lines(raw);
    let read = transcript::json_reader();
    assert forall|i: int| 0 <= i < lines.len() implies read(#[trigger] lines[i]) == Ok::<
        JsonView,
        Seq<char>,
    >(entries[i]) by {}
    law_lines_read_as_their_entries(lines, read, entries);
}

/// A transcript with a line that is not JSON is a parse error with the message
/// of the first such line, and no response.
pub proof fn law_malformed_transcript(
    result: Result<TalosResponse, TalosError>,
    raw: Seq<char>,
    n: int,
    message: Seq<char>,
    id: Seq<char>,
    duration: Duration,
)
    requires
        transcript::is_transcript_result(result, raw, id, duration),
        0 <= n < transcript::entry_lines(raw).len(),
        forall|i: int|
            0 <= i < n ==> json::parsed_json(#[trigger] transcript::entry_lines(raw)[i]) is Ok,
        json::parsed_json(transcript::entry_lines(raw)[n]) == Err::<JsonView, Seq<char>>(message),
    ensures
        result matches Err(TalosError::ParseError(what)) && what@ == message,
        transcript::transcript_response(raw, id, duration) is None,
{
    let lines = transcript::entry_lines(raw);
    let read = transcript::json_reader();
    assert forall|i: int| 0 <= i < n implies read(#[trigger] lines[i]) is Ok by {}
    law_first_bad_line_decides(lines, read, n, message);
}

/// A transcript without entries holds no response.
pub proof fn law_transcript_without_entries(raw: Seq<char>, id: Seq<char>, duration: Duration)
    requires
        transcript::entry_lines(raw).len() == 0,
    ensures
        transcript::transcript_response(raw, id, duration) is None,
{
    law_lines_read_as_their_entries(
        transcript::entry_lines(raw),
        transcript::json_reader(),
        Seq::empty(),
    );
}

/// What an optional response says is what the response says.
pub proof fn law_optional_response(found: TalosResponse)
    ensures
        transcript::option_response(Some(found)) == Some(found@),
        transcript::option_response(None) is None,
{
}

/// The transcript of a conversation lies below the data directory, in a
/// directory of the conversation's own.
pub proof fn law_transcript_lies_below_the_data_directory(
    config: ConfigView,
    home: Option<PathView>,
    id: Seq<char>,
)
    ensures
        transcript::transcript_location(config, home, id).base == config::data_directory(
            config,
            home,
        ).base,
        transcript::transcript_location(config, home, id).parts == config::data_directory(
            config,
            home,
        ).parts + seq!["brain"@, id, ".system_generated/logs/transcript.jsonl"@],
{
    assert(transcript::transcript_location(config, home, id).parts =~= config::data_directory(
        config,
        home,
    ).parts + seq!["brain"@, id, ".system_generated/logs/transcript.jsonl"@]);
}

// ── Announced conversation IDs ──────────────────────────────────────

/// A line that starts with the label, white space aside, announces what
/// follows, without the white space around it, unless that is nothing.
pub proof fn law_labelled_id(line: Seq<char>, rest: Seq<char>)
    requires
        text::trimmed(line) == "Conversation ID:"@ + rest,
    ensures
        transcript::line_id(line) == (if text::trimmed(rest).len() > 0 {
            Some(text::trimmed(rest))
        } else {
            None
        }),
{
    let clean = text::trimmed(line);
    text_laws::law_prefix_and_rest(clean, "Conversation ID:"@, rest);
    reveal_strlit("Conversation ID:");
    reveal_strlit("conversation_id=");
    assert(clean[0] == 'C');
    assert(!"conversation_id="@.is_prefix_of(clean)) by {
        if "conversation_id="@.is_prefix_of(clean) {
            assert("conversation_id="@[0] == clean[0]);
        }
    }
}

/// A line that starts with the assignment, white space aside, announces what
/// follows, without the white space and then the quotes around it, unless that
/// is nothing.
pub proof fn law_assigned_id(line: Seq<char>, rest: Seq<char>)
    requires
        text::trimmed(line) == "conversation_id="@ + rest,
    ensures
        ({
            let bare = text::stripped(text::trimmed(rest), text::CharSet::Quote);
            transcript::line_id(line) == (if bare.len() > 0 {
                Some(bare)
            } else {
                None
            })
        }),
{
    let clean = text::trimmed(line);
    text_laws::law_prefix_and_rest(clean, "conversation_id="@, rest);
    reveal_strlit("Conversation ID:");
    reveal_strlit("conversation_id=");
    assert(clean[0] == 'c');
    assert(!"Conversation ID:"@.is_prefix_of(clean)) by {
        if "Conversation ID:"@.is_prefix_of(clean) {
            assert("Conversation ID:"@[0] == clean[0]);
        }
    }
}

/// Any other line announces nothing.
pub proof fn law_other_lines_announce_nothing(line: Seq<char>)
    requires
        forall|rest: Seq<char>| text::trimmed(line) != #[trigger] ("Conversation ID:"@ + rest),
        forall|rest: Seq<char>| text::trimmed(line) != #[trigger] ("conversation_id="@ + rest),
    ensures
        transcript::line_id(line) is None,
{
    let clean = text::trimmed(line);
    if let Some(rest) = text::after_prefix(clean, "Conversation ID:"@) {
        text_laws::law_prefix_and_rest(clean, "Conversation ID:"@, rest);
        assert(clean == "Conversation ID:"@ + rest);
    }
    if let Some(rest) = text::after_prefix(clean, "conversation_id="@) {
        text_laws::law_prefix_and_rest(clean, "conversation_id="@, rest);
        assert(clean == "conversation_id="@ + rest);
    }
}

/// The output announces the ID of the first line that announces one, and none
/// where no line does.
pub proof fn law_first_announcing_line(output: Seq<char>, n: int)
    requires
        0 <= n <= text::lines(output).len(),
        forall|i: int| 0 <= i < n ==> transcript::line_id(#[trigger] text::lines(output)[i]) is None,
        n < text::lines(output).len() ==> transcript::line_id(text::lines(output)[n]) is Some,
    ensures
        transcript::announced_id(output) == (if n < text::lines(output).len() {
            transcript::line_id(text::lines(output)[n])
        } else {
            None
        }),
{
    lemma_first_id(text::lines(output), n);
}

/// The first line with an ID decides.
proof fn lemma_first_id(lines: Seq<Seq<char>>, n: int)
    requires
        0 <= n <= lines.len(),
        forall|i: int| 0 <= i < n ==> transcript::line_id(#[trigger] lines[i]) is None,
        n < lines.len() ==> transcript::line_id(lines[n]) is Some,
    ensures
        transcript::first_id(lines) == (if n < lines.len() {
            transcript::line_id(lines[n])
        } else {
            None
        }),
    decreases n,
{
    if n > 0 {
        let rest = lines.drop_first();
        assert(transcript::line_id(lines[0]) is None);
        assert forall|i: int| 0 <= i < n - 1 implies transcript::line_id(
            #[trigger] rest[i],
        ) is None by {
            assert(rest[i] == lines[i + 1]);
        }
        lemma_first_id(rest, n - 1);
    }
}

} // verus!
