//! What holds of transcripts and of announced conversation IDs as a whole.

use std::time::Duration;
use vstd::prelude::*;

use crate::config;
use crate::config::ConfigView;
use crate::error::TalosError;
use crate::json::JsonView;
use crate::paths;
use crate::paths::PathView;
use crate::response::TalosResponse;
use crate::text;
use crate::transcript;

verus! {

// ── Turns ───────────────────────────────────────────────────────────

/// Entries that start no turn do not move the start of the most recent one.
proof fn lemma_last_user_input(entries: Seq<JsonView>, n: int)
    requires
        0 <= n < entries.len(),
        transcript::is_user_input(entries[n]),
        forall|i: int| n < i < entries.len() ==> !transcript::is_user_input(#[trigger] entries[i]),
    ensures
        transcript::last_user_input(entries) == n,
    decreases entries.len(),
{
    if n < entries.len() - 1 {
        assert(!transcript::is_user_input(entries[entries.len() - 1]));
        lemma_last_user_input(entries.drop_last(), n);
    }
}

/// Only what follows the last user input counts: whatever stands before it
/// is no part of the most recent turn.
pub proof fn law_only_latest_turn_counts(
    before: Seq<JsonView>,
    input: JsonView,
    turn: Seq<JsonView>,
)
    requires
        transcript::is_user_input(input),
        forall|i: int| 0 <= i < turn.len() ==> !transcript::is_user_input(#[trigger] turn[i]),
    ensures
        transcript::latest_turn(before + seq![input] + turn) == turn,
{
    let entries = before + seq![input] + turn;
    let n = before.len() as int;
    assert(entries[n] == input);
    assert forall|i: int| n < i < entries.len() implies !transcript::is_user_input(
        #[trigger] entries[i],
    ) by {
        assert(entries[i] == turn[i - n - 1]);
    }
    lemma_last_user_input(entries, n);
    assert(entries.skip(n + 1) =~= turn);
}

/// The most recent turn holds no user input.
pub proof fn law_latest_turn_has_no_user_input(entries: Seq<JsonView>)
    requires
        entries.len() > 0,
    ensures
        forall|i: int|
            0 <= i < transcript::latest_turn(entries).len() ==> !transcript::is_user_input(
                #[trigger] transcript::latest_turn(entries)[i],
            ),
{
    lemma_after_last_user_input(entries);
    let turn = transcript::latest_turn(entries);
    assert forall|i: int| 0 <= i < turn.len() implies !transcript::is_user_input(
        #[trigger] turn[i],
    ) by {
        assert(turn[i] == entries[transcript::last_user_input(entries) + 1 + i]);
    }
}

/// No entry behind the start of the most recent turn starts a turn.
proof fn lemma_after_last_user_input(entries: Seq<JsonView>)
    ensures
        0 <= transcript::last_user_input(entries),
        entries.len() > 0 ==> transcript::last_user_input(entries) < entries.len(),
        forall|i: int|
            transcript::last_user_input(entries) < i < entries.len()
                ==> !transcript::is_user_input(#[trigger] entries[i]),
    decreases entries.len(),
{
    if entries.len() > 0 && !transcript::is_user_input(entries.last()) {
        let rest = entries.drop_last();
        lemma_after_last_user_input(rest);
        assert forall|i: int|
            transcript::last_user_input(entries) < i
                < entries.len() implies !transcript::is_user_input(#[trigger] entries[i]) by {
            if i < rest.len() {
                assert(rest[i] == entries[i]);
            }
        }
    }
}

// ── Responses ───────────────────────────────────────────────────────

/// What two runs of items amount to is what each amounts to, in order.
proof fn lemma_flat_concat<A>(
    a: Seq<JsonView>,
    b: Seq<JsonView>,
    part: spec_fn(JsonView) -> Seq<A>,
)
    ensures
        transcript::flat(a + b, part) == transcript::flat(a, part) + transcript::flat(b, part),
    decreases b.len(),
{
    if b.len() == 0 {
        assert(a + b =~= a);
        assert(transcript::flat(a, part) + transcript::flat(b, part) =~= transcript::flat(a, part));
    } else {
        assert((a + b).drop_last() =~= a + b.drop_last());
        lemma_flat_concat(a, b.drop_last(), part);
        assert(transcript::flat(a + b, part) =~= transcript::flat(a, part) + transcript::flat(
            b,
            part,
        ));
    }
}

/// Texts, tool calls and artifacts come in the order of their entries: a turn
/// that goes on adds to what it had.
pub proof fn law_entries_add_in_order(
    first: Seq<JsonView>,
    more: Seq<JsonView>,
    id: Seq<char>,
    duration: Duration,
)
    ensures
        ({
            let whole = transcript::turn_response(first + more, id, duration);
            let head = transcript::turn_response(first, id, duration);
            let tail = transcript::turn_response(more, id, duration);
            &&& whole.tool_calls == head.tool_calls + tail.tool_calls
            &&& whole.artifacts == head.artifacts + tail.artifacts
            &&& whole.text == text::joined(
                transcript::flat(first, transcript::entry_texts()) + transcript::flat(
                    more,
                    transcript::entry_texts(),
                ),
                "\n"@,
            )
        }),
{
    lemma_flat_concat(first, more, transcript::entry_texts());
    lemma_flat_concat(first, more, transcript::entry_tool_calls());
    lemma_flat_concat(first, more, transcript::entry_artifacts());
}

/// An entry that is no response leaves no trace, wherever it stands.
pub proof fn law_other_entries_are_skipped(
    first: Seq<JsonView>,
    other: JsonView,
    more: Seq<JsonView>,
    id: Seq<char>,
    duration: Duration,
)
    requires
        !transcript::is_response(other),
    ensures
        transcript::turn_response(first + seq![other] + more, id, duration)
            == transcript::turn_response(first + more, id, duration),
{
    lemma_skip_one(first, other, more, transcript::entry_texts());
    lemma_skip_one(first, other, more, transcript::entry_tool_calls());
    lemma_skip_one(first, other, more, transcript::entry_artifacts());
}

/// An item that amounts to nothing can be left out.
proof fn lemma_skip_one<A>(
    first: Seq<JsonView>,
    other: JsonView,
    more: Seq<JsonView>,
    part: spec_fn(JsonView) -> Seq<A>,
)
    requires
        part(other).len() == 0,
    ensures
        transcript::flat(first + seq![other] + more, part) == transcript::flat(first + more, part),
{
    lemma_flat_concat(first + seq![other], more, part);
    lemma_flat_concat(first, more, part);
    assert((first + seq![other]).drop_last() =~= first);
    assert(transcript::flat(first + seq![other], part) =~= transcript::flat(first, part));
}

/// A turn of one reply with a text content is answered with that text.
pub proof fn law_single_reply_is_its_content(
    reply: JsonView,
    content: Seq<char>,
    id: Seq<char>,
    duration: Duration,
)
    requires
        transcript::is_response(reply),
        reply.text_member("content"@) == Some(content),
    ensures
        transcript::turn_response(seq![reply], id, duration).text == content,
{
    let turn = seq![reply];
    assert(turn.drop_last() =~= Seq::<JsonView>::empty());
    let texts = transcript::flat(turn, transcript::entry_texts());
    assert(transcript::flat(Seq::<JsonView>::empty(), transcript::entry_texts()) =~= Seq::<
        Seq<char>,
    >::empty());
    assert(reply.array_member("content"@) is None);
    if content.len() > 0 {
        assert(texts =~= seq![content]);
    } else {
        assert(texts =~= Seq::<Seq<char>>::empty());
        assert(content =~= Seq::<char>::empty());
    }
}

// ── Lines ───────────────────────────────────────────────────────────

/// The first line ends where the line feed stands, whatever follows.
proof fn lemma_first_line(line: Seq<char>, rest: Seq<char>)
    requires
        forall|i: int| 0 <= i < line.len() ==> #[trigger] line[i] != '\n',
    ensures
        text::lines(line + seq!['\n'] + rest) == seq![text::without_return(line)] + text::lines(
            rest,
        ),
{
    let whole = line + seq!['\n'] + rest;
    let n = line.len() as int;
    assert forall|i: int| 0 <= i < n implies #[trigger] whole[i] != '\n' by {
        assert(whole[i] == line[i]);
    }
    assert(whole[n] == '\n');
    text::lemma_line_end(whole, n);
    assert(whole.take(n) =~= line);
    assert(whole.skip(n + 1) =~= rest);
}

/// A text that ends with a line feed and the text after it have the lines of
/// the one and then of the other.
pub proof fn law_lines_of_ended_text(first: Seq<char>, rest: Seq<char>)
    ensures
        text::lines(first + seq!['\n'] + rest) == text::lines(first + seq!['\n']) + text::lines(
            rest,
        ),
    decreases first.len(),
{
    let ended = first + seq!['\n'];
    let whole = first + seq!['\n'] + rest;
    let n = text::line_end(first) as int;
    lemma_line_end_splits(first);
    let line = first.take(n);
    if n == first.len() {
        assert(first =~= line);
        lemma_first_line(first, rest);
        assert(ended =~= first + seq!['\n'] + Seq::<char>::empty());
        lemma_first_line(first, Seq::<char>::empty());
        assert(text::lines(Seq::<char>::empty()) =~= Seq::<Seq<char>>::empty());
        assert(text::lines(whole) =~= text::lines(ended) + text::lines(rest));
    } else {
        let tail = first.skip(n + 1);
        assert(ended =~= line + seq!['\n'] + (tail + seq!['\n']));
        assert(whole =~= line + seq!['\n'] + (tail + seq!['\n'] + rest));
        lemma_first_line(line, tail + seq!['\n']);
        lemma_first_line(line, tail + seq!['\n'] + rest);
        law_lines_of_ended_text(tail, rest);
        assert(text::lines(whole) =~= text::lines(ended) + text::lines(rest));
    }
}

/// No line feed stands before the end of the first line, and one stands
/// there unless the text ends.
proof fn lemma_line_end_splits(s: Seq<char>)
    ensures
        text::line_end(s) <= s.len(),
        forall|i: int| 0 <= i < text::line_end(s) ==> #[trigger] s[i] != '\n',
        text::line_end(s) < s.len() ==> s[text::line_end(s) as int] == '\n',
    decreases s.len(),
{
    if s.len() > 0 && s[0] != '\n' {
        let rest = s.drop_first();
        lemma_line_end_splits(rest);
        assert forall|i: int| 0 <= i < text::line_end(s) implies #[trigger] s[i] != '\n' by {
            if i > 0 {
                assert(rest[i - 1] == s[i]);
            }
        }
    }
}

/// No line holds a line feed.
pub proof fn law_lines_hold_no_line_feed(s: Seq<char>, n: int)
    requires
        0 <= n < text::lines(s).len(),
    ensures
        !text::lines(s)[n].contains('\n'),
    decreases s.len(),
{
    lemma_line_end_splits(s);
    let end = text::line_end(s) as int;
    if end >= s.len() {
        assert(text::lines(s) =~= seq![s]);
    } else {
        let line = text::without_return(s.take(end));
        if n == 0 {
            assert(text::lines(s)[0] == line);
            assert forall|i: int| 0 <= i < line.len() implies #[trigger] line[i] != '\n' by {
                assert(line[i] == s[i]);
            }
        } else {
            law_lines_hold_no_line_feed(s.skip(end + 1), n - 1);
            assert(text::lines(s)[n] == text::lines(s.skip(end + 1))[n - 1]);
        }
    }
}

// ── Transcript texts ────────────────────────────────────────────────

/// Of two runs of lines, those that hold an entry are those of the one and
/// then of the other.
proof fn lemma_nonblank_concat(a: Seq<Seq<char>>, b: Seq<Seq<char>>)
    ensures
        transcript::nonblank(a + b) == transcript::nonblank(a) + transcript::nonblank(b),
    decreases b.len(),
{
    if b.len() == 0 {
        assert(a + b =~= a);
        assert(transcript::nonblank(a) + transcript::nonblank(b) =~= transcript::nonblank(a));
    } else {
        assert((a + b).drop_last() =~= a + b.drop_last());
        lemma_nonblank_concat(a, b.drop_last());
        assert(transcript::nonblank(a + b) =~= transcript::nonblank(a) + transcript::nonblank(b));
    }
}

/// Two runs of lines read as the one and then the other; the first line that
/// cannot be read decides.
proof fn lemma_read_all_concat(
    a: Seq<Seq<char>>,
    b: Seq<Seq<char>>,
    read: spec_fn(Seq<char>) -> Result<JsonView, Seq<char>>,
)
    ensures
        transcript::read_all(a + b, read) == match transcript::read_all(a, read) {
            Err(message) => Err(message),
            Ok(before) => match transcript::read_all(b, read) {
                Err(message) => Err(message),
                Ok(after) => Ok(before + after),
            },
        },
    decreases b.len(),
{
    if b.len() == 0 {
        assert(a + b =~= a);
        if let Ok(before) = transcript::read_all(a, read) {
            assert(before + Seq::<JsonView>::empty() =~= before);
        }
    } else {
        assert((a + b).drop_last() =~= a + b.drop_last());
        lemma_read_all_concat(a, b.drop_last(), read);
        if let (Ok(before), Ok(after)) = (
            transcript::read_all(a, read),
            transcript::read_all(b.drop_last(), read),
        ) {
            if let Ok(entry) = read(b.last()) {
                assert((before + after).push(entry) =~= before + after.push(entry));
            }
        }
    }
}

/// The entries that a text reads as, or the first message.
pub open spec fn entries_of(raw: Seq<char>) -> Result<Seq<JsonView>, Seq<char>> {
    transcript::read_all(transcript::entry_lines(raw), transcript::json_reader())
}

/// A transcript grows by whole lines, and its entries with it; the first line
/// that cannot be read decides.
pub proof fn law_transcript_grows_by_lines(earlier: Seq<char>, later: Seq<char>)
    ensures
        entries_of(earlier + seq!['\n'] + later) == match entries_of(earlier + seq!['\n']) {
            Err(message) => Err(message),
            Ok(before) => match entries_of(later) {
                Err(message) => Err(message),
                Ok(after) => Ok(before + after),
            },
        },
{
    lemma_entry_lines_concat(earlier + seq!['\n'], later);
    lemma_read_all_concat(
        transcript::entry_lines(earlier + seq!['\n']),
        transcript::entry_lines(later),
        transcript::json_reader(),
    );
}

/// Where a transcript ends with a turn, the response is that of the turn,
/// whatever readable entries stand above it.
pub proof fn law_earlier_turns_do_not_matter(
    result: Result<TalosResponse, TalosError>,
    earlier: Seq<char>,
    later: Seq<char>,
    before: Seq<JsonView>,
    after: Seq<JsonView>,
    n: int,
    id: Seq<char>,
    duration: Duration,
)
    requires
        entries_of(earlier + seq!['\n']) == Ok::<Seq<JsonView>, Seq<char>>(before),
        entries_of(later) == Ok::<Seq<JsonView>, Seq<char>>(after),
        0 <= n < after.len(),
        transcript::is_user_input(after[n]),
    ensures
        transcript::is_transcript_result(result, earlier + seq!['\n'] + later, id, duration)
            == transcript::is_transcript_result(result, later, id, duration),
{
    law_transcript_grows_by_lines(earlier, later);
    lemma_last_user_input_stays(before, after, n);
    let last = transcript::last_user_input(after);
    assert((before + after).skip(before.len() + last + 1) =~= after.skip(last + 1));
}

/// Where the earlier text does not end with a carriage return, which a line
/// feed behind it would take away, it may be read on its own.
pub proof fn law_earlier_text_does_not_matter(
    result: Result<TalosResponse, TalosError>,
    earlier: Seq<char>,
    later: Seq<char>,
    before: Seq<JsonView>,
    after: Seq<JsonView>,
    n: int,
    id: Seq<char>,
    duration: Duration,
)
    requires
        earlier.len() > 0 ==> earlier.last() != '\r',
        entries_of(earlier) == Ok::<Seq<JsonView>, Seq<char>>(before),
        entries_of(later) == Ok::<Seq<JsonView>, Seq<char>>(after),
        0 <= n < after.len(),
        transcript::is_user_input(after[n]),
    ensures
        transcript::is_transcript_result(result, earlier + seq!['\n'] + later, id, duration)
            == transcript::is_transcript_result(result, later, id, duration),
{
    lemma_ending_adds_no_entry(earlier);
    law_earlier_turns_do_not_matter(result, earlier, later, before, after, n, id, duration);
}

/// A line feed at the end changes no line, unless a carriage return stands
/// before it.
proof fn lemma_ended_lines(s: Seq<char>)
    requires
        s.len() > 0,
        s.last() != '\n',
        s.last() != '\r',
    ensures
        text::lines(s + seq!['\n']) == text::lines(s),
    decreases s.len(),
{
    let n = text::line_end(s) as int;
    lemma_line_end_splits(s);
    let none = Seq::<char>::empty();
    assert(text::lines(none) =~= Seq::<Seq<char>>::empty());
    if n == s.len() {
        assert(s + seq!['\n'] =~= s + seq!['\n'] + none);
        lemma_first_line(s, none);
        assert(text::lines(s + seq!['\n']) =~= seq![s]);
    } else {
        let line = s.take(n);
        let tail = s.skip(n + 1);
        assert(s =~= line + seq!['\n'] + tail);
        assert(s + seq!['\n'] =~= line + seq!['\n'] + (tail + seq!['\n']));
        lemma_first_line(line, tail);
        lemma_first_line(line, tail + seq!['\n']);
        assert(tail.last() == s.last());
        lemma_ended_lines(tail);
    }
}

/// A blank line holds no entry.
proof fn lemma_blank_line(blank: Seq<char>)
    requires
        !blank.contains('\n'),
        text::trimmed(text::without_return(blank)).len() == 0,
    ensures
        transcript::entry_lines(blank + seq!['\n']) == Seq::<Seq<char>>::empty(),
{
    let none = Seq::<char>::empty();
    assert forall|i: int| 0 <= i < blank.len() implies #[trigger] blank[i] != '\n' by {
        assert(blank.contains(blank[i]));
    }
    assert(blank + seq!['\n'] =~= blank + seq!['\n'] + none);
    lemma_first_line(blank, none);
    let lines = seq![text::without_return(blank)];
    assert(text::lines(blank + seq!['\n']) =~= lines);
    assert(lines.drop_last() =~= Seq::<Seq<char>>::empty());
    assert(transcript::nonblank(lines.drop_last()) =~= Seq::<Seq<char>>::empty());
}

/// A line feed at the end adds no entry and changes none, unless a carriage
/// return stands before it.
proof fn lemma_ending_adds_no_entry(s: Seq<char>)
    requires
        s.len() > 0 ==> s.last() != '\r',
    ensures
        transcript::entry_lines(s + seq!['\n']) == transcript::entry_lines(s),
{
    let none = Seq::<char>::empty();
    if s.len() == 0 {
        assert(s =~= none);
        lemma_blank_line(none);
        assert(text::lines(none) =~= Seq::<Seq<char>>::empty());
    } else if s.last() == '\n' {
        assert(s =~= s.drop_last() + seq!['\n']);
        law_lines_of_ended_text(s.drop_last(), seq!['\n']);
        lemma_nonblank_concat(text::lines(s), text::lines(seq!['\n']));
        assert(none + seq!['\n'] =~= seq!['\n']);
        lemma_blank_line(none);
        assert(transcript::entry_lines(s + seq!['\n']) =~= transcript::entry_lines(s));
    } else {
        lemma_ended_lines(s);
    }
}

/// A blank line leaves no trace, wherever it stands in a transcript.
pub proof fn law_blank_lines_do_not_matter(
    result: Result<TalosResponse, TalosError>,
    first: Seq<char>,
    blank: Seq<char>,
    rest: Seq<char>,
    id: Seq<char>,
    duration: Duration,
)
    requires
        first.len() == 0 || first.last() == '\n',
        !blank.contains('\n'),
        text::trimmed(text::without_return(blank)).len() == 0,
    ensures
        transcript::is_transcript_result(
            result,
            first + (blank + seq!['\n'] + rest),
            id,
            duration,
        ) == transcript::is_transcript_result(result, first + rest, id, duration),
{
    let more = blank + seq!['\n'] + rest;
    lemma_entry_lines_concat(first, more);
    lemma_entry_lines_concat(first, rest);
    lemma_entry_lines_concat(blank + seq!['\n'], rest);
    lemma_blank_line(blank);
    assert(transcript::entry_lines(more) =~= transcript::entry_lines(rest));
}

/// The entry lines of a text of whole lines and of the text after it are
/// those of the one and then of the other.
proof fn lemma_entry_lines_concat(first: Seq<char>, rest: Seq<char>)
    requires
        first.len() == 0 || first.last() == '\n',
    ensures
        transcript::entry_lines(first + rest) == transcript::entry_lines(first)
            + transcript::entry_lines(rest),
{
    if first.len() == 0 {
        assert(first + rest =~= rest);
        assert(text::lines(first) =~= Seq::<Seq<char>>::empty());
        assert(transcript::entry_lines(first) + transcript::entry_lines(rest)
            =~= transcript::entry_lines(rest));
    } else {
        assert(first =~= first.drop_last() + seq!['\n']);
        law_lines_of_ended_text(first.drop_last(), rest);
        lemma_nonblank_concat(text::lines(first), text::lines(rest));
    }
}

/// Whether some entry starts a turn.
pub open spec fn has_user_input(entries: Seq<JsonView>) -> bool {
    exists|i: int| 0 <= i < entries.len() && transcript::is_user_input(#[trigger] entries[i])
}

/// A line whose entry neither starts a turn nor is a response leaves no
/// trace, wherever it stands in a transcript; in front of everything, this
/// takes a user input to say where the turn starts.
pub proof fn law_other_lines_do_not_matter(
    result: Result<TalosResponse, TalosError>,
    first: Seq<char>,
    line: Seq<char>,
    other: JsonView,
    rest: Seq<char>,
    id: Seq<char>,
    duration: Duration,
)
    requires
        first.len() == 0 || first.last() == '\n',
        line.len() > 0 && line.last() == '\n',
        entries_of(line) == Ok::<Seq<JsonView>, Seq<char>>(seq![other]),
        !transcript::is_user_input(other),
        !transcript::is_response(other),
        match (entries_of(first), entries_of(rest)) {
            (Ok(before), Ok(after)) => before.len() > 0 || has_user_input(after),
            _ => true,
        },
    ensures
        transcript::is_transcript_result(result, first + (line + rest), id, duration)
            == transcript::is_transcript_result(result, first + rest, id, duration),
{
    let read = transcript::json_reader();
    lemma_entry_lines_concat(first, line + rest);
    lemma_entry_lines_concat(first, rest);
    lemma_entry_lines_concat(line, rest);
    lemma_read_all_concat(
        transcript::entry_lines(first),
        transcript::entry_lines(line + rest),
        read,
    );
    lemma_read_all_concat(transcript::entry_lines(first), transcript::entry_lines(rest), read);
    lemma_read_all_concat(transcript::entry_lines(line), transcript::entry_lines(rest), read);
    if let (Ok(before), Ok(after)) = (entries_of(first), entries_of(rest)) {
        lemma_other_entry(before, other, after, id, duration);
        assert(before + (seq![other] + after) =~= before + seq![other] + after);
    }
}

/// An entry that neither starts a turn nor is a response bears on no
/// response, unless it becomes the first one where no entry starts a turn.
proof fn lemma_other_entry(
    before: Seq<JsonView>,
    other: JsonView,
    after: Seq<JsonView>,
    id: Seq<char>,
    duration: Duration,
)
    requires
        !transcript::is_user_input(other),
        !transcript::is_response(other),
        before.len() > 0 || has_user_input(after),
    ensures
        transcript::turn_response(
            transcript::latest_turn(before + seq![other] + after),
            id,
            duration,
        ) == transcript::turn_response(transcript::latest_turn(before + after), id, duration),
{
    let with = before + seq![other] + after;
    let without = before + after;
    if has_user_input(after) {
        let n = choose|i: int|
            0 <= i < after.len() && transcript::is_user_input(#[trigger] after[i]);
        lemma_last_user_input_stays(before + seq![other], after, n);
        lemma_last_user_input_stays(before, after, n);
        let last = transcript::last_user_input(after);
        assert(with.skip(before.len() + 1 + last + 1) =~= without.skip(before.len() + last + 1));
    } else {
        lemma_no_later_user_input(before, after);
        lemma_no_later_user_input(before, seq![other] + after);
        assert(with =~= before + (seq![other] + after));
        lemma_after_last_user_input(before);
        let start = transcript::last_user_input(before) + 1;
        assert(without.skip(start) =~= before.skip(start) + after);
        assert(with.skip(start) =~= before.skip(start) + seq![other] + after);
        law_other_entries_are_skipped(before.skip(start), other, after, id, duration);
    }
}

/// Entries that start no turn do not move the start of the most recent one.
proof fn lemma_no_later_user_input(before: Seq<JsonView>, after: Seq<JsonView>)
    requires
        !has_user_input(after),
    ensures
        transcript::last_user_input(before + after) == transcript::last_user_input(before),
    decreases after.len(),
{
    if after.len() == 0 {
        assert(before + after =~= before);
    } else {
        assert(!transcript::is_user_input(after[after.len() - 1]));
        assert((before + after).last() == after.last());
        assert((before + after).drop_last() =~= before + after.drop_last());
        assert(!has_user_input(after.drop_last())) by {
            assert forall|i: int| 0 <= i < after.len() - 1 implies !transcript::is_user_input(
                #[trigger] after.drop_last()[i],
            ) by {
                assert(!transcript::is_user_input(after[i]));
            }
        }
        lemma_no_later_user_input(before, after.drop_last());
    }
}

/// Entries above a turn move its start by their number.
proof fn lemma_last_user_input_stays(before: Seq<JsonView>, after: Seq<JsonView>, n: int)
    requires
        0 <= n < after.len(),
        transcript::is_user_input(after[n]),
    ensures
        0 <= transcript::last_user_input(after) < after.len(),
        transcript::last_user_input(before + after) == before.len() + transcript::last_user_input(
            after,
        ),
    decreases after.len(),
{
    assert((before + after).last() == after.last());
    if !transcript::is_user_input(after.last()) {
        assert((before + after).drop_last() =~= before + after.drop_last());
        lemma_last_user_input_stays(before, after.drop_last(), n);
    }
}

// ── Transcript files ────────────────────────────────────────────────

/// Two conversations never share a transcript file, neither by what is joined
/// nor, where the separator is the slash and the IDs hold none, by the bytes
/// of the path.
pub proof fn law_transcripts_are_apart(
    config: ConfigView,
    home: Option<PathView>,
    a: Seq<char>,
    b: Seq<char>,
)
    requires
        a != b,
        a.len() > 0 && !a.contains('/'),
        b.len() > 0 && !b.contains('/'),
    ensures
        transcript::transcript_location(config, home, a) != transcript::transcript_location(
            config,
            home,
            b,
        ),
        transcript::transcript_location(config, home, a).slashed()
            != transcript::transcript_location(config, home, b).slashed(),
{
    let file = ".system_generated/logs/transcript.jsonl"@;
    reveal_strlit(".system_generated/logs/transcript.jsonl");
    assert(a.contains(a[0]) && a.contains(a.last()));
    assert(b.contains(b[0]) && b.contains(b.last()));
    assert(file.len() > 0 && file[0] == '.');
    let brain = config::data_directory(config, home).joined("brain"@);
    paths::lemma_files_stay_apart(brain, a, b, file);
}

// ── Announced conversation IDs ──────────────────────────────────────

/// Whether the text neither starts nor ends with a member of the set.
pub open spec fn is_bare(s: Seq<char>, set: text::CharSet) -> bool {
    s.len() > 0 && !set.has(s[0]) && !set.has(s.last())
}

/// Removal at the front leaves the back alone.
proof fn lemma_without_leading_keeps_last(s: Seq<char>, set: text::CharSet)
    ensures
        text::without_leading(s, set).len() <= s.len(),
        text::without_leading(s, set).len() > 0 ==> text::without_leading(s, set).last()
            == s.last(),
        text::without_leading(s, set).len() > 0 ==> !set.has(text::without_leading(s, set)[0]),
    decreases s.len(),
{
    if s.len() > 0 && set.has(s[0]) {
        lemma_without_leading_keeps_last(s.drop_first(), set);
    }
}

/// Removal at the back leaves the front alone.
proof fn lemma_without_trailing_keeps_first(s: Seq<char>, set: text::CharSet)
    ensures
        text::without_trailing(s, set).len() <= s.len(),
        text::without_trailing(s, set).len() > 0 ==> text::without_trailing(s, set)[0] == s[0],
        text::without_trailing(s, set).len() > 0 ==> !set.has(
            text::without_trailing(s, set).last(),
        ),
    decreases s.len(),
{
    if s.len() > 0 && set.has(s.last()) {
        lemma_without_trailing_keeps_first(s.drop_last(), set);
    }
}

/// What is left after trimming neither starts nor ends with what was trimmed,
/// so trimming once more changes nothing.
pub proof fn law_stripped_is_bare(s: Seq<char>, set: text::CharSet)
    ensures
        text::stripped(s, set).len() > 0 ==> is_bare(text::stripped(s, set), set),
        text::stripped(text::stripped(s, set), set) == text::stripped(s, set),
{
    let front = text::without_leading(s, set);
    lemma_without_leading_keeps_last(s, set);
    lemma_without_trailing_keeps_first(front, set);
}

/// A conversation ID that is found is not empty, and some line announces it.
pub proof fn law_announced_id_is_of_a_line(output: Seq<char>)
    requires
        transcript::announced_id(output) is Some,
    ensures
        transcript::announced_id(output).unwrap().len() > 0,
        exists|line: Seq<char>|
            #![trigger transcript::line_id(line)]
            text::lines(output).contains(line) && transcript::line_id(line)
                == transcript::announced_id(output),
{
    lemma_first_id_is_of_a_line(text::lines(output));
}

/// The ID that is found is the one of some line.
proof fn lemma_first_id_is_of_a_line(lines: Seq<Seq<char>>)
    requires
        transcript::first_id(lines) is Some,
    ensures
        exists|line: Seq<char>|
            #![trigger transcript::line_id(line)]
            lines.contains(line) && transcript::line_id(line) == transcript::first_id(lines),
    decreases lines.len(),
{
    if transcript::line_id(lines[0]) is Some {
        assert(lines.contains(lines[0]));
    } else {
        let rest = lines.drop_first();
        lemma_first_id_is_of_a_line(rest);
        let line = choose|line: Seq<char>|
            #![trigger transcript::line_id(line)]
            rest.contains(line) && transcript::line_id(line) == transcript::first_id(rest);
        let i = choose|i: int| 0 <= i < rest.len() && rest[i] == line;
        assert(lines[i + 1] == line);
        assert(lines.contains(line));
    }
}

/// A line `Conversation ID: <id>` announces the ID.
pub proof fn law_labelled_line_announces(id: Seq<char>)
    requires
        is_bare(id, text::CharSet::WhiteSpace),
    ensures
        transcript::line_id("Conversation ID: "@ + id) == Some(id),
{
    let set = text::CharSet::WhiteSpace;
    let line = "Conversation ID: "@ + id;
    reveal_strlit("Conversation ID: ");
    reveal_strlit("Conversation ID:");
    assert("Conversation ID: "@.len() == 17);
    assert("Conversation ID:"@.len() == 16);
    assert(line[0] == 'C');
    assert(line.last() == id.last());
    assert(text::trimmed(line) == line);
    assert("Conversation ID:"@ =~= line.subrange(0, 16));
    let rest = line.skip(16);
    assert(rest[0] == ' ');
    assert(rest.drop_first() =~= id);
    assert(text::without_leading(id, set) == id);
    assert(text::without_leading(rest, set) == id);
    assert(text::trimmed(rest) == id);
}

/// A line `conversation_id="<id>"` announces the ID without the quotes.
pub proof fn law_assigned_line_announces(id: Seq<char>)
    requires
        is_bare(id, text::CharSet::Quote),
    ensures
        transcript::line_id("conversation_id=\""@ + id + "\""@) == Some(id),
{
    let line = "conversation_id=\""@ + id + "\""@;
    reveal_strlit("conversation_id=\"");
    reveal_strlit("conversation_id=");
    reveal_strlit("Conversation ID:");
    reveal_strlit("\"");
    assert("conversation_id=\""@.len() == 17);
    assert("conversation_id="@.len() == 16);
    assert("\""@.len() == 1);
    assert(line[0] == 'c');
    assert(line.last() == '"');
    assert(text::trimmed(line) == line);
    assert(!"Conversation ID:"@.is_prefix_of(line)) by {
        if "Conversation ID:"@.is_prefix_of(line) {
            assert("Conversation ID:"@[0] == line[0]);
        }
    }
    assert("conversation_id="@ =~= line.subrange(0, 16));
    let rest = line.skip(16);
    assert(rest[0] == '"');
    assert(rest.last() == '"');
    assert(text::trimmed(rest) == rest);
    let set = text::CharSet::Quote;
    let inner = rest.drop_first();
    assert(inner =~= id + seq!['"']);
    assert(text::without_leading(inner, set) == inner);
    assert(text::without_leading(rest, set) == inner);
    assert(inner.drop_last() =~= id);
    assert(text::without_trailing(id, set) == id);
    assert(text::without_trailing(inner, set) == id);
}

/// The first line that announces an ID decides, whatever stands after it.
pub proof fn law_first_announcement_wins(
    before: Seq<Seq<char>>,
    line: Seq<char>,
    after: Seq<Seq<char>>,
)
    requires
        transcript::first_id(before) is None,
        transcript::line_id(line) is Some,
    ensures
        transcript::first_id(before + seq![line] + after) == transcript::line_id(line),
    decreases before.len(),
{
    let all = before + seq![line] + after;
    if before.len() == 0 {
        assert(all[0] == line);
    } else {
        assert(all[0] == before[0]);
        assert(all.drop_first() =~= before.drop_first() + seq![line] + after);
        law_first_announcement_wins(before.drop_first(), line, after);
    }
}

/// An ID on a line of its own, with the label in front, is found in the
/// output, where nothing before it announces one.
pub proof fn law_announced_id_is_found(before: Seq<char>, id: Seq<char>, after: Seq<char>)
    requires
        before.len() == 0 || before.last() == '\n',
        transcript::announced_id(before) is None,
        is_bare(id, text::CharSet::WhiteSpace),
        !id.contains('\n'),
        after.len() == 0 || after[0] == '\n',
    ensures
        transcript::announced_id(before + ("Conversation ID: "@ + id + after)) == Some(id),
{
    let line = "Conversation ID: "@ + id;
    let rest = line + after;
    reveal_strlit("Conversation ID: ");
    assert("Conversation ID: "@.len() == 17);
    assert forall|i: int| 0 <= i < line.len() implies #[trigger] line[i] != '\n' by {
        if i >= 17 {
            assert(line[i] == id[i - 17]);
            assert(id.contains(id[i - 17]));
        } else {
            assert(line[i] == "Conversation ID: "@[i]);
        }
    }
    assert(line.last() == id.last());
    assert(text::without_return(line) == line);
    let more = if after.len() == 0 {
        Seq::empty()
    } else {
        text::lines(after.drop_first())
    };
    assert(text::lines(rest) =~= seq![line] + more) by {
        if after.len() == 0 {
            assert(rest =~= line);
            text::lemma_line_end(line, line.len() as int);
        } else {
            assert(rest =~= line + seq!['\n'] + after.drop_first());
            lemma_first_line(line, after.drop_first());
        }
    }
    assert(text::lines(before + rest) =~= text::lines(before) + text::lines(rest)) by {
        if before.len() == 0 {
            assert(before + rest =~= rest);
        } else {
            assert(before =~= before.drop_last() + seq!['\n']);
            law_lines_of_ended_text(before.drop_last(), rest);
        }
    }
    law_labelled_line_announces(id);
    law_first_announcement_wins(text::lines(before), line, more);
    assert(text::lines(before) + text::lines(rest) =~= text::lines(before) + seq![line] + more);
}

} // verus!
