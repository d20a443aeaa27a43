//! What holds of the text operations as a whole.

use vstd::prelude::*;

use crate::text;
use crate::text::CharSet;

verus! {

// ── Trimming ────────────────────────────────────────────────────────

/// Trimming takes members of the set off both ends and nothing else: the text
/// is some members, then what is left, then some members.
pub proof fn law_trimming_takes_only_members(s: Seq<char>, set: CharSet)
    ensures
        exists|n: int|
            #![trigger s.skip(n)]
            0 <= n && n + text::stripped(s, set).len() <= s.len() && text::stripped(s, set)
                == s.skip(n).take(text::stripped(s, set).len() as int) && (forall|i: int|
                (0 <= i < n || n + text::stripped(s, set).len() <= i < s.len()) ==> set.has(
                    #[trigger] s[i],
                )),
{
    let front = text::without_leading(s, set);
    lemma_leading(s, set);
    lemma_trailing(front, set);
    let n = s.len() - front.len();
    let kept = text::stripped(s, set);
    assert(kept =~= s.skip(n).take(kept.len() as int));
    assert forall|i: int| (0 <= i < n || n + kept.len() <= i < s.len()) implies set.has(
        #[trigger] s[i],
    ) by {
        if i >= n {
            assert(front[i - n] == s[i]);
        }
    }
}

/// What leading removal takes off is members.
proof fn lemma_leading(s: Seq<char>, set: CharSet)
    ensures
        text::without_leading(s, set).len() <= s.len(),
        text::without_leading(s, set) == s.skip(s.len() - text::without_leading(s, set).len()),
        forall|i: int|
            0 <= i < s.len() - text::without_leading(s, set).len() ==> set.has(#[trigger] s[i]),
    decreases s.len(),
{
    if s.len() > 0 && set.has(s[0]) {
        let rest = s.drop_first();
        lemma_leading(rest, set);
        let kept = text::without_leading(s, set);
        assert(kept =~= s.skip(s.len() - kept.len()));
        assert forall|i: int| 0 <= i < s.len() - kept.len() implies set.has(#[trigger] s[i]) by {
            if i > 0 {
                assert(rest[i - 1] == s[i]);
            }
        }
    } else {
        assert(s.skip(0) =~= s);
    }
}

/// What trailing removal takes off is members.
proof fn lemma_trailing(s: Seq<char>, set: CharSet)
    ensures
        text::without_trailing(s, set).len() <= s.len(),
        text::without_trailing(s, set) == s.take(text::without_trailing(s, set).len() as int),
        forall|i: int|
            text::without_trailing(s, set).len() <= i < s.len() ==> set.has(#[trigger] s[i]),
    decreases s.len(),
{
    if s.len() > 0 && set.has(s.last()) {
        let rest = s.drop_last();
        lemma_trailing(rest, set);
        let kept = text::without_trailing(s, set);
        assert(kept =~= s.take(kept.len() as int));
        assert forall|i: int| kept.len() <= i < s.len() implies set.has(#[trigger] s[i]) by {
            if i < rest.len() {
                assert(rest[i] == s[i]);
            }
        }
    } else {
        assert(s.take(s.len() as int) =~= s);
    }
}

/// Trimming stops at the first character that is no member, at either end.
pub proof fn law_trimming_stops_at_others(s: Seq<char>, set: CharSet)
    requires
        text::stripped(s, set).len() > 0,
    ensures
        !set.has(text::stripped(s, set)[0]),
        !set.has(text::stripped(s, set).last()),
{
    let front = text::without_leading(s, set);
    lemma_leading_stops(s, set);
    lemma_trailing(front, set);
    lemma_trailing_stops(front, set);
}

/// Leading removal stops at the first other character.
proof fn lemma_leading_stops(s: Seq<char>, set: CharSet)
    ensures
        text::without_leading(s, set).len() > 0 ==> !set.has(text::without_leading(s, set)[0]),
    decreases s.len(),
{
    if s.len() > 0 && set.has(s[0]) {
        lemma_leading_stops(s.drop_first(), set);
    }
}

/// Trailing removal stops at the last other character.
proof fn lemma_trailing_stops(s: Seq<char>, set: CharSet)
    ensures
        text::without_trailing(s, set).len() > 0 ==> !set.has(
            text::without_trailing(s, set).last(),
        ),
    decreases s.len(),
{
    if s.len() > 0 && set.has(s.last()) {
        lemma_trailing_stops(s.drop_last(), set);
    }
}

/// Trimming white space is stripping it, and quotes are double quotes alone.
pub proof fn law_sets_that_are_trimmed(s: Seq<char>, c: char)
    ensures
        text::trimmed(s) == text::stripped(s, CharSet::WhiteSpace),
        CharSet::Quote.has(c) <==> c == '"',
        CharSet::WhiteSpace.has(c) <==> ((9 <= c as u32 <= 13) || c == ' ' || c as u32 == 0x85
            || c as u32 == 0xa0 || c as u32 == 0x1680 || (0x2000 <= c as u32 <= 0x200a) || c as u32
            == 0x2028 || c as u32 == 0x2029 || c as u32 == 0x202f || c as u32 == 0x205f || c as u32
            == 0x3000),
{
}

// ── Prefixes ────────────────────────────────────────────────────────

/// What follows a prefix is the rest of the text, and a text has a rest behind
/// a prefix only where it starts with it.
pub proof fn law_prefix_and_rest(s: Seq<char>, prefix: Seq<char>, rest: Seq<char>)
    ensures
        text::after_prefix(prefix + rest, prefix) == Some(rest),
        text::after_prefix(s, prefix) == Some(rest) ==> s == prefix + rest,
        text::after_prefix(s, prefix) is None ==> s != prefix + rest,
{
    assert(prefix.is_prefix_of(prefix + rest)) by {
        assert(prefix =~= (prefix + rest).subrange(0, prefix.len() as int));
    }
    assert((prefix + rest).skip(prefix.len() as int) =~= rest);
    if text::after_prefix(s, prefix) == Some(rest) {
        assert(s =~= prefix + s.skip(prefix.len() as int)) by {
            assert(prefix == s.subrange(0, prefix.len() as int));
        }
    }
}

// ── Lines ───────────────────────────────────────────────────────────

/// A text without any character has no lines, and one without a line feed is
/// one line, carriage returns and all.
pub proof fn law_unended_line(line: Seq<char>)
    requires
        !line.contains('\n'),
    ensures
        text::lines(line) == (if line.len() == 0 {
            Seq::<Seq<char>>::empty()
        } else {
            seq![line]
        }),
{
    lemma_no_feed(line);
    text::lemma_line_end(line, line.len() as int);
}

/// A text does not hold what it does not contain.
proof fn lemma_no_feed(line: Seq<char>)
    requires
        !line.contains('\n'),
    ensures
        forall|i: int| 0 <= i < line.len() ==> #[trigger] line[i] != '\n',
{
    assert forall|i: int| 0 <= i < line.len() implies #[trigger] line[i] != '\n' by {
        assert(line.contains(line[i]));
    }
}

/// A line feed ends a line, which is kept as it is unless a carriage return
/// stands before the line feed.
pub proof fn law_ended_line(line: Seq<char>, rest: Seq<char>)
    requires
        !line.contains('\n'),
        line.len() > 0 ==> line.last() != '\r',
    ensures
        text::lines(line + seq!['\n'] + rest) == seq![line] + text::lines(rest),
{
    lemma_first_line(line, rest);
}

/// A carriage return before the line feed goes with it, and only that one.
pub proof fn law_returned_line(line: Seq<char>, rest: Seq<char>)
    requires
        !line.contains('\n'),
    ensures
        text::lines(line + seq!['\r', '\n'] + rest) == seq![line] + text::lines(rest),
{
    let whole = line + seq!['\r'];
    assert(!whole.contains('\n')) by {
        if whole.contains('\n') {
            let i = choose|i: int| 0 <= i < whole.len() && whole[i] == '\n';
            assert(line.contains(line[i]));
        }
    }
    lemma_first_line(whole, rest);
    assert(whole + seq!['\n'] + rest =~= line + seq!['\r', '\n'] + rest);
    assert(whole.drop_last() =~= line);
}

/// The first line of a text, where a line feed ends it.
proof fn lemma_first_line(line: Seq<char>, rest: Seq<char>)
    requires
        !line.contains('\n'),
    ensures
        text::lines(line + seq!['\n'] + rest) == seq![text::without_return(line)] + text::lines(
            rest,
        ),
{
    lemma_no_feed(line);
    let whole = line + seq!['\n'] + rest;
    let n = line.len() as int;
    assert forall|i: int| 0 <= i < n implies #[trigger] whole[i] != '\n' by {
        assert(whole[i] == line[i]);
    }
    assert(whole[n] == '\n');
    text::lemma_line_end(whole, n);
    assert(whole.take(n) =~= line);
    assert(whole.skip(n + 1) =~= rest);
}

// ── Joining ─────────────────────────────────────────────────────────

/// Nothing joins to nothing and one part to itself; two runs of parts join to
/// what each joins to, with the separator between.
pub proof fn law_joining(a: Seq<Seq<char>>, b: Seq<Seq<char>>, sep: Seq<char>, part: Seq<char>)
    requires
        a.len() > 0,
        b.len() > 0,
    ensures
        text::joined(Seq::empty(), sep) == Seq::<char>::empty(),
        text::joined(seq![part], sep) == part,
        text::joined(a + b, sep) == text::joined(a, sep) + sep + text::joined(b, sep),
    decreases b.len(),
{
    assert((a + b).drop_last() =~= a + b.drop_last());
    assert((a + b).last() == b.last());
    if b.len() == 1 {
        assert(a + b.drop_last() =~= a);
        assert(text::joined(a + b, sep) =~= text::joined(a, sep) + sep + text::joined(b, sep));
    } else {
        law_joining(a, b.drop_last(), sep, part);
        assert(text::joined(a + b, sep) =~= text::joined(a, sep) + sep + text::joined(b, sep));
    }
}

// ── Numbers ─────────────────────────────────────────────────────────

/// A number is written with decimal digits, and never with a leading zero
/// unless it is zero.
pub proof fn law_decimal_digits(n: nat, i: int)
    requires
        0 <= i < text::decimal(n).len(),
    ensures
        '0' <= text::decimal(n)[i] <= '9',
        n > 0 ==> text::decimal(n)[0] != '0',
    decreases n,
{
    if n >= 10 {
        lemma_decimal_len(n / 10);
        law_decimal_digits(n / 10, if i < text::decimal(n / 10).len() {
            i
        } else {
            0
        });
    }
}

/// A number has a digit.
proof fn lemma_decimal_len(n: nat)
    ensures
        text::decimal(n).len() > 0,
    decreases n,
{
    if n >= 10 {
        lemma_decimal_len(n / 10);
    }
}

/// The last digit is the remainder, and the others are those of the quotient.
pub proof fn law_decimal_grows_by_digits(n: nat, d: nat)
    requires
        n > 0,
        d < 10,
    ensures
        text::decimal(10 * n + d).drop_last() == text::decimal(n),
        text::decimal(10 * n + d).last() as u32 == '0' as u32 + d,
        text::decimal(d).len() == 1,
        text::decimal(d)[0] as u32 == '0' as u32 + d,
{
    assert((10 * n + d) / 10 == n && (10 * n + d) % 10 == d);
    assert(text::decimal(10 * n + d).drop_last() =~= text::decimal(n));
}

/// A negative number is its opposite behind a minus sign, and one that is not
/// negative has no sign.
pub proof fn law_signs(n: nat)
    ensures
        text::signed_decimal(n as int) == text::decimal(n),
        n > 0 ==> text::signed_decimal(-n) == seq!['-'] + text::decimal(n),
{
    reveal_strlit("-");
    assert("-"@ =~= seq!['-']);
}

// ── Views ───────────────────────────────────────────────────────────

/// The texts behind strings are the texts of each, in order; an optional
/// string has a text where it is there.
pub proof fn law_string_texts(
    owned: Seq<String>,
    borrowed: Seq<&str>,
    given: Option<String>,
    i: int,
)
    ensures
        text::string_texts(owned).len() == owned.len(),
        0 <= i < owned.len() ==> text::string_texts(owned)[i] == owned[i]@,
        text::str_texts(borrowed).len() == borrowed.len(),
        0 <= i < borrowed.len() ==> text::str_texts(borrowed)[i] == borrowed[i]@,
        given matches Some(s) ==> text::option_text(given) == Some(s@),
        given is None ==> text::option_text(given) is None,
{
}

} // verus!
