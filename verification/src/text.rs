//! Plain text operations on `&str`, stated over the characters of the text.
//!
//! Every function walks the text once and cuts it at byte offsets, so a line
//! or a trimmed piece is a borrow of the text it came from.

use vstd::prelude::*;
use vstd::utf8::*;

verus! {

// ── Cutting at a character ──────────────────────────────────────────

/// The encoding of two pieces of text is the encoding of each, in order.
pub proof fn lemma_encode_concat(a: Seq<char>, b: Seq<char>)
    ensures
        encode_utf8(a + b) == encode_utf8(a) + encode_utf8(b),
    decreases a.len(),
{
    if a.len() == 0 {
        assert(a + b =~= b);
        assert(encode_utf8(a) + encode_utf8(b) =~= encode_utf8(b));
    } else {
        assert((a + b).drop_first() =~= a.drop_first() + b);
        lemma_encode_concat(a.drop_first(), b);
        assert(encode_utf8(a + b) =~= encode_utf8(a) + encode_utf8(b));
    }
}

/// The end of an encoded prefix is a character boundary of the whole.
proof fn lemma_encode_boundary(a: Seq<char>, b: Seq<char>)
    ensures
        is_char_boundary(encode_utf8(a + b), encode_utf8(a).len() as int),
    decreases a.len(),
{
    encode_utf8_valid_utf8(a + b);
    if a.len() > 0 {
        let whole = a + b;
        let bytes = encode_utf8(whole);
        assert(whole.drop_first() =~= a.drop_first() + b);
        encode_utf8_first_scalar(whole);
        assert(pop_first_scalar(bytes) =~= encode_utf8(whole.drop_first()));
        lemma_encode_boundary(a.drop_first(), b);
        lemma_encode_concat(a, b);
    }
}

/// Two texts with the same encoding are the same text.
pub proof fn lemma_encode_injective(a: Seq<char>, b: Seq<char>)
    requires
        encode_utf8(a) == encode_utf8(b),
    ensures
        a == b,
{
    encode_utf8_decode_utf8(a);
    encode_utf8_decode_utf8(b);
}

/// The number of bytes that `c` takes in UTF-8.
fn char_width(c: char) -> (width: usize)
    ensures
        width == encode_scalar(c as u32).len(),
        1 <= width <= 4,
{
    proof {
        char_is_scalar(c);
    }
    let code: u32 = c as u32;
    if code <= 0x7f {
        1
    } else if code <= 0x7ff {
        2
    } else if code <= 0xffff {
        3
    } else {
        4
    }
}

/// Cuts `s` after its first `n` characters.
fn split_chars<'a>(s: &'a str, n: usize) -> (parts: (&'a str, &'a str))
    requires
        n <= s@.len(),
    ensures
        parts.0@ == s@.take(n as int),
        parts.1@ == s@.skip(n as int),
{
    let total: usize = s.as_bytes().len();
    let mut count: usize = 0;
    let mut offset: usize = 0;
    for c in walk: s.chars()
        invariant_except_break
            count == walk.index(),
        invariant
            walk.seq() == s@,
            count <= n <= s@.len(),
            offset == encode_utf8(s@.take(count as int)).len(),
            total == encode_utf8(s@).len(),
        ensures
            count == n,
            offset == encode_utf8(s@.take(count as int)).len(),
    {
        if count == n {
            break;
        }
        proof {
            let before = s@.take(count as int);
            let after = s@.take(count + 1);
            assert(after =~= before + seq![c]);
            lemma_encode_concat(before, seq![c]);
            assert(seq![c].drop_first() =~= Seq::<char>::empty());
            assert(encode_utf8(Seq::<char>::empty()) =~= Seq::<u8>::empty());
            assert(encode_utf8(seq![c]) =~= encode_scalar(c as u32));
            assert(s@ =~= after + s@.skip(count + 1));
            lemma_encode_concat(after, s@.skip(count + 1));
        }
        offset = offset + char_width(c);
        count = count + 1;
    }
    let ghost head = s@.take(n as int);
    let ghost tail = s@.skip(n as int);
    proof {
        assert(s@ =~= head + tail);
        lemma_encode_boundary(head, tail);
        lemma_encode_concat(head, tail);
    }
    let parts = s.split_at(offset);
    proof {
        assert(encode_utf8(parts.0@) =~= encode_utf8(head));
        assert(encode_utf8(parts.1@) =~= encode_utf8(tail));
        lemma_encode_injective(parts.0@, head);
        lemma_encode_injective(parts.1@, tail);
    }
    parts
}

// ── Trimming ────────────────────────────────────────────────────────

/// The characters with the Unicode `White_Space` property.
pub open spec fn is_white_space(c: char) -> bool {
    let code = c as u32;
    ||| 0x9 <= code <= 0xd
    ||| code == 0x20
    ||| code == 0x85
    ||| code == 0xa0
    ||| code == 0x1680
    ||| 0x2000 <= code <= 0x200a
    ||| code == 0x2028
    ||| code == 0x2029
    ||| code == 0x202f
    ||| code == 0x205f
    ||| code == 0x3000
}

/// A set of characters that can be trimmed off a text.
#[derive(Debug, Clone, Copy, PartialEq, Eq, Structural)]
pub enum CharSet {
    /// The characters of [`is_white_space`].
    WhiteSpace,
    /// The double quote alone.
    Quote,
}

impl CharSet {
    /// Whether `c` belongs to the set.
    pub open spec fn has(self, c: char) -> bool {
        match self {
            CharSet::WhiteSpace => is_white_space(c),
            CharSet::Quote => c == '"',
        }
    }

    /// Whether `c` belongs to the set.
    pub fn contains(self, c: char) -> (yes: bool)
        ensures
            yes == self.has(c),
    {
        let code: u32 = c as u32;
        match self {
            CharSet::WhiteSpace => {
                (0x9 <= code && code <= 0xd) || code == 0x20 || code == 0x85 || code == 0xa0
                    || code == 0x1680 || (0x2000 <= code && code <= 0x200a) || code == 0x2028
                    || code == 0x2029 || code == 0x202f || code == 0x205f || code == 0x3000
            },
            CharSet::Quote => c == '"',
        }
    }
}

/// `s` without the members of `set` that it starts with.
pub open spec fn without_leading(s: Seq<char>, set: CharSet) -> Seq<char>
    decreases s.len(),
{
    if s.len() > 0 && set.has(s[0]) {
        without_leading(s.drop_first(), set)
    } else {
        s
    }
}

/// `s` without the members of `set` that it ends with.
pub open spec fn without_trailing(s: Seq<char>, set: CharSet) -> Seq<char>
    decreases s.len(),
{
    if s.len() > 0 && set.has(s.last()) {
        without_trailing(s.drop_last(), set)
    } else {
        s
    }
}

/// `s` without the members of `set` at either end.
pub open spec fn stripped(s: Seq<char>, set: CharSet) -> Seq<char> {
    without_trailing(without_leading(s, set), set)
}

/// `s` without the white space at either end.
pub open spec fn trimmed(s: Seq<char>) -> Seq<char> {
    stripped(s, CharSet::WhiteSpace)
}

/// A run of members that ends before a non-member is what leading removal drops.
proof fn lemma_without_leading(s: Seq<char>, set: CharSet, n: int)
    requires
        0 <= n <= s.len(),
        forall|i: int| 0 <= i < n ==> set.has(#[trigger] s[i]),
        n < s.len() ==> !set.has(s[n]),
    ensures
        without_leading(s, set) == s.skip(n),
    decreases n,
{
    if n > 0 {
        let rest = s.drop_first();
        assert forall|i: int| 0 <= i < n - 1 implies set.has(#[trigger] rest[i]) by {
            assert(rest[i] == s[i + 1]);
        }
        lemma_without_leading(rest, set, n - 1);
        assert(rest.skip(n - 1) =~= s.skip(n));
        assert(set.has(s[0]));
    } else {
        assert(s.skip(0) =~= s);
    }
}

/// A run of members after a non-member is what trailing removal drops.
proof fn lemma_without_trailing(s: Seq<char>, set: CharSet, n: int)
    requires
        0 <= n <= s.len(),
        forall|i: int| n <= i < s.len() ==> set.has(#[trigger] s[i]),
        n > 0 ==> !set.has(s[n - 1]),
    ensures
        without_trailing(s, set) == s.take(n),
    decreases s.len(),
{
    if n < s.len() {
        lemma_without_trailing(s.drop_last(), set, n);
        assert(s.drop_last().take(n) =~= s.take(n));
        assert(set.has(s[s.len() - 1]));
    } else {
        assert(s.take(n) =~= s);
    }
}

/// Removes the members of `set` at either end of `s`.
pub fn strip_set<'a>(s: &'a str, set: CharSet) -> (rest: &'a str)
    ensures
        rest@ == stripped(s@, set),
{
    let mut lead: usize = 0;
    let total: usize = s.unicode_len();
    for c in walk: s.chars()
        invariant_except_break
            lead == walk.index(),
        invariant
            walk.seq() == s@,
            total == s@.len(),
            lead <= total,
            forall|i: int| 0 <= i < lead ==> set.has(#[trigger] s@[i]),
        ensures
            lead < s@.len() ==> !set.has(s@[lead as int]),
    {
        if !set.contains(c) {
            break;
        }
        lead = lead + 1;
    }
    proof {
        lemma_without_leading(s@, set, lead as int);
    }
    let body = split_chars(s, lead).1;
    let mut keep: usize = 0;
    let mut seen: usize = 0;
    for c in walk: body.chars()
        invariant
            walk.seq() == body@,
            body@.len() <= total,
            seen == walk.index(),
            keep <= seen <= body@.len(),
            forall|i: int| keep <= i < seen ==> set.has(#[trigger] body@[i]),
            keep > 0 ==> !set.has(body@[keep - 1]),
    {
        seen = seen + 1;
        if !set.contains(c) {
            keep = seen;
        }
    }
    proof {
        lemma_without_trailing(body@, set, keep as int);
    }
    split_chars(body, keep).0
}

/// Removes the white space at either end of `s`.
pub fn trim<'a>(s: &'a str) -> (rest: &'a str)
    ensures
        rest@ == trimmed(s@),
{
    strip_set(s, CharSet::WhiteSpace)
}

// ── Prefixes and equality ───────────────────────────────────────────

/// What follows `prefix` in `s`, where `s` starts with it.
pub open spec fn after_prefix(s: Seq<char>, prefix: Seq<char>) -> Option<Seq<char>> {
    if prefix.is_prefix_of(s) {
        Some(s.skip(prefix.len() as int))
    } else {
        None
    }
}

/// The characters of `s`, as a vector.
fn chars_of(s: &str) -> (chars: Vec<char>)
    ensures
        chars@ == s@,
{
    let mut chars: Vec<char> = Vec::new();
    for c in walk: s.chars()
        invariant
            walk.seq() == s@,
            chars@ == s@.take(walk.index() as int),
    {
        chars.push(c);
        assert(chars@ =~= s@.take(walk.index() + 1));
    }
    assert(s@.take(s@.len() as int) =~= s@);
    chars
}

/// What follows `prefix` in `s`, or nothing where `s` does not start with it.
pub fn strip_prefix<'a>(s: &'a str, prefix: &str) -> (rest: Option<&'a str>)
    ensures
        match rest {
            Some(r) => after_prefix(s@, prefix@) == Some(r@),
            None => after_prefix(s@, prefix@) is None,
        },
{
    let wanted = chars_of(prefix);
    let mut count: usize = 0;
    for c in walk: s.chars()
        invariant_except_break
            count == walk.index(),
        invariant
            walk.seq() == s@,
            wanted@ == prefix@,
            count <= wanted@.len(),
            count <= s@.len(),
            forall|i: int| 0 <= i < count ==> s@[i] == wanted@[i],
        ensures
            count == wanted@.len() || count == s@.len() || s@[count as int] != wanted@[count as int],
    {
        if count == wanted.len() {
            break;
        }
        if wanted[count] != c {
            break;
        }
        count = count + 1;
    }
    if count == wanted.len() {
        assert(prefix@ =~= s@.subrange(0, prefix@.len() as int));
        Some(split_chars(s, count).1)
    } else {
        assert(!prefix@.is_prefix_of(s@)) by {
            if prefix@.is_prefix_of(s@) {
                assert(s@.subrange(0, prefix@.len() as int)[count as int] == s@[count as int]);
            }
        }
        None
    }
}

/// Whether two texts have the same characters.
pub fn same_text(a: &str, b: &str) -> (same: bool)
    ensures
        same == (a@ == b@),
{
    match strip_prefix(a, b) {
        Some(rest) => {
            let same: bool = rest.is_empty();
            assert(same ==> a@ =~= b@);
            same
        },
        None => {
            assert(a@ == b@ ==> b@ =~= a@.subrange(0, b@.len() as int));
            false
        },
    }
}

/// The last character of `s`.
pub fn last_char(s: &str) -> (last: Option<char>)
    ensures
        last == (if s@.len() > 0 {
            Some(s@.last())
        } else {
            None
        }),
{
    let total: usize = s.unicode_len();
    if total == 0 {
        None
    } else {
        Some(s.get_char(total - 1))
    }
}

// ── Lines ───────────────────────────────────────────────────────────

/// How many characters of `s` stand before its first line feed.
pub open spec fn line_end(s: Seq<char>) -> nat
    decreases s.len(),
{
    if s.len() == 0 || s[0] == '\n' {
        0
    } else {
        1 + line_end(s.drop_first())
    }
}

/// `s` without one carriage return at its end.
pub open spec fn without_return(s: Seq<char>) -> Seq<char> {
    if s.len() > 0 && s.last() == '\r' {
        s.drop_last()
    } else {
        s
    }
}

/// The lines of `s`. A line ends at a line feed, with the carriage return
/// before it if there is one; the last line need not be ended.
pub open spec fn lines(s: Seq<char>) -> Seq<Seq<char>>
    decreases s.len(),
{
    if s.len() == 0 {
        Seq::empty()
    } else if line_end(s) >= s.len() {
        seq![s]
    } else {
        seq![without_return(s.take(line_end(s) as int))] + lines(s.skip(line_end(s) as int + 1))
    }
}

/// The texts behind a sequence of borrowed strings.
pub open spec fn str_texts(parts: Seq<&str>) -> Seq<Seq<char>> {
    parts.map_values(|part: &str| part@)
}

/// The texts behind a sequence of owned strings.
pub open spec fn string_texts(parts: Seq<String>) -> Seq<Seq<char>> {
    parts.map_values(|part: String| part@)
}

/// The text behind an optional string.
pub open spec fn option_text(text: Option<String>) -> Option<Seq<char>> {
    match text {
        Some(s) => Some(s@),
        None => None,
    }
}

/// The first line feed, or the end, is where the first line ends.
pub proof fn lemma_line_end(s: Seq<char>, n: int)
    requires
        0 <= n <= s.len(),
        forall|i: int| 0 <= i < n ==> #[trigger] s[i] != '\n',
        n < s.len() ==> s[n] == '\n',
    ensures
        line_end(s) == n,
    decreases n,
{
    if n > 0 {
        let rest = s.drop_first();
        assert forall|i: int| 0 <= i < n - 1 implies #[trigger] rest[i] != '\n' by {
            assert(rest[i] == s[i + 1]);
        }
        lemma_line_end(rest, n - 1);
        assert(s[0] != '\n');
    }
}

/// The lines of `s`, in order.
pub fn split_lines<'a>(s: &'a str) -> (parts: Vec<&'a str>)
    ensures
        str_texts(parts@) == lines(s@),
{
    let mut parts: Vec<&'a str> = Vec::new();
    let mut rest: &'a str = s;
    assert(str_texts(parts@) + lines(rest@) =~= lines(s@));
    while !rest.is_empty()
        invariant
            str_texts(parts@) + lines(rest@) == lines(s@),
        decreases rest@.len(),
    {
        let ghost found = parts@;
        let total: usize = rest.unicode_len();
        let mut end: usize = 0;
        for c in walk: rest.chars()
            invariant_except_break
                end == walk.index(),
            invariant
                walk.seq() == rest@,
                total == rest@.len(),
                end <= total,
                forall|i: int| 0 <= i < end ==> #[trigger] rest@[i] != '\n',
            ensures
                end < rest@.len() ==> rest@[end as int] == '\n',
        {
            if c == '\n' {
                break;
            }
            end = end + 1;
        }
        proof {
            lemma_line_end(rest@, end as int);
        }
        if end == total {
            parts.push(rest);
            assert(rest@.skip(total as int) =~= Seq::<char>::empty());
            proof {
                assert(str_texts(parts@) =~= str_texts(found) + seq![rest@]);
                assert(lines(rest@) =~= seq![rest@]);
            }
            rest = split_chars(rest, total).1;
            assert(str_texts(parts@) + lines(rest@) =~= lines(s@));
        } else {
            let cut = split_chars(rest, end);
            let line = drop_return(cut.0);
            let next = split_chars(cut.1, 1).1;
            parts.push(line);
            proof {
                assert(cut.1@.skip(1) =~= rest@.skip(end + 1));
                assert(str_texts(parts@) =~= str_texts(found) + seq![line@]);
                assert(lines(rest@) =~= seq![line@] + lines(next@));
                assert(str_texts(parts@) + lines(next@) =~= str_texts(found) + lines(rest@));
            }
            rest = next;
        }
    }
    assert(str_texts(parts@) =~= str_texts(parts@) + lines(rest@));
    parts
}

/// Removes one carriage return at the end of `s`.
fn drop_return<'a>(s: &'a str) -> (rest: &'a str)
    ensures
        rest@ == without_return(s@),
{
    match last_char(s) {
        Some('\r') => {
            let cut = split_chars(s, s.unicode_len() - 1);
            assert(cut.0@ =~= s@.drop_last());
            cut.0
        },
        _ => s,
    }
}

// ── Joining ─────────────────────────────────────────────────────────

/// The parts in order, with `sep` between neighbours.
pub open spec fn joined(parts: Seq<Seq<char>>, sep: Seq<char>) -> Seq<char>
    decreases parts.len(),
{
    if parts.len() <= 1 {
        if parts.len() == 1 {
            parts[0]
        } else {
            Seq::empty()
        }
    } else {
        joined(parts.drop_last(), sep) + sep + parts.last()
    }
}

/// Joins the parts in order, with `sep` between neighbours.
pub fn join(parts: &Vec<String>, sep: &str) -> (whole: String)
    ensures
        whole@ == joined(string_texts(parts@), sep@),
{
    let mut whole = String::new();
    let mut i: usize = 0;
    while i < parts.len()
        invariant
            i <= parts@.len(),
            whole@ == joined(string_texts(parts@).take(i as int), sep@),
        decreases parts@.len() - i,
    {
        let ghost before = string_texts(parts@).take(i as int);
        let ghost after = string_texts(parts@).take(i + 1);
        assert(after.drop_last() =~= before);
        assert(after.last() == parts@[i as int]@);
        if i > 0 {
            whole.append(sep);
        }
        whole.append(parts[i].as_str());
        assert(whole@ =~= joined(after, sep@));
        i = i + 1;
    }
    assert(string_texts(parts@).take(i as int) =~= string_texts(parts@));
    whole
}

// ── Decimal numbers ─────────────────────────────────────────────────

/// The character of a decimal digit.
pub open spec fn digit(d: nat) -> char {
    if d == 0 {
        '0'
    } else if d == 1 {
        '1'
    } else if d == 2 {
        '2'
    } else if d == 3 {
        '3'
    } else if d == 4 {
        '4'
    } else if d == 5 {
        '5'
    } else if d == 6 {
        '6'
    } else if d == 7 {
        '7'
    } else if d == 8 {
        '8'
    } else {
        '9'
    }
}

/// The decimal digits of `n`, most significant first, without leading zeros.
pub open spec fn decimal(n: nat) -> Seq<char>
    decreases n,
{
    if n < 10 {
        seq![digit(n)]
    } else {
        decimal(n / 10) + seq![digit(n % 10)]
    }
}

/// The decimal text of an integer, with a minus sign where it is negative.
pub open spec fn signed_decimal(n: int) -> Seq<char> {
    if n < 0 {
        "-"@ + decimal((-n) as nat)
    } else {
        decimal(n as nat)
    }
}

/// The text of one decimal digit.
fn digit_text(d: u64) -> (text: &'static str)
    requires
        d < 10,
    ensures
        text@ == seq![digit(d as nat)],
{
    proof {
        reveal_strlit("0");
        reveal_strlit("1");
        reveal_strlit("2");
        reveal_strlit("3");
        reveal_strlit("4");
        reveal_strlit("5");
        reveal_strlit("6");
        reveal_strlit("7");
        reveal_strlit("8");
        reveal_strlit("9");
    }
    if d == 0 {
        "0"
    } else if d == 1 {
        "1"
    } else if d == 2 {
        "2"
    } else if d == 3 {
        "3"
    } else if d == 4 {
        "4"
    } else if d == 5 {
        "5"
    } else if d == 6 {
        "6"
    } else if d == 7 {
        "7"
    } else if d == 8 {
        "8"
    } else {
        "9"
    }
}

/// The decimal text of `n`.
pub fn decimal_text(n: u64) -> (text: String)
    ensures
        text@ == decimal(n as nat),
    decreases n,
{
    if n < 10 {
        digit_text(n).to_owned()
    } else {
        decimal_text(n / 10).concat(digit_text(n % 10))
    }
}

/// The decimal text of `n`, with a minus sign where it is negative.
pub fn signed_text(n: i32) -> (text: String)
    ensures
        text@ == signed_decimal(n as int),
{
    let wide: i64 = n as i64;
    if wide < 0 {
        "-".to_owned().concat(decimal_text((-wide) as u64).as_str())
    } else {
        decimal_text(wide as u64)
    }
}

/// The number that a text of decimal digits stands for.
pub open spec fn digits_value(s: Seq<char>) -> nat
    decreases s.len(),
{
    if s.len() == 0 {
        0
    } else {
        10 * digits_value(s.drop_last()) + (s.last() as u32 - '0' as u32) as nat
    }
}

/// Reading the decimal text of a number back gives the number.
pub proof fn law_decimal_reads_back(n: nat)
    ensures
        digits_value(decimal(n)) == n,
    decreases n,
{
    assert(decimal(n).last() == digit(n % 10));
    if n < 10 {
        assert(decimal(n).drop_last() =~= Seq::<char>::empty());
        assert(digits_value(Seq::<char>::empty()) == 0);
    } else {
        law_decimal_reads_back(n / 10);
        assert(decimal(n).drop_last() =~= decimal(n / 10));
    }
}

} // verus!
