//! File system paths, as what is joined to what.
//!
//! How two paths are joined is the system's own affair: which separators it
//! knows and which paths it takes for absolute. So a path is kept as its base
//! and the parts that are joined to it, one after another. A base need not be
//! valid UTF-8 and is kept as the bytes that the system gives and takes.

use vstd::prelude::*;
use vstd::utf8::*;

use crate::text;

verus! {

/// A file system path: a base, and the parts that are joined to it in order.
#[derive(Debug)]
pub struct FilePath {
    base: Vec<u8>,
    parts: Vec<String>,
}

/// What a [`FilePath`] holds.
pub struct PathView {
    pub base: Seq<u8>,
    pub parts: Seq<Seq<char>>,
}

impl View for FilePath {
    type V = PathView;

    closed spec fn view(&self) -> PathView {
        PathView { base: self.base@, parts: text::string_texts(self.parts@) }
    }
}

/// The path that a text names.
pub open spec fn text_path(text: Seq<char>) -> PathView {
    PathView { base: encode_utf8(text), parts: Seq::empty() }
}

impl PathView {
    /// The path with `part` joined to it.
    pub open spec fn joined(self, part: Seq<char>) -> PathView {
        PathView { base: self.base, parts: self.parts.push(part) }
    }
}

/// What an optional path holds.
pub open spec fn option_path(path: Option<FilePath>) -> Option<PathView> {
    match path {
        Some(p) => Some(p@),
        None => None,
    }
}

/// What each path holds.
pub open spec fn path_views(paths: Seq<FilePath>) -> Seq<PathView> {
    paths.map_values(|path: FilePath| path@)
}

// ── Systems that separate components by a slash ─────────────────────

/// The byte between components, where that is a slash.
pub const SLASH: u8 = 47;

/// `part` joined to `base` by a slash: an absolute part replaces the base, and
/// one slash stands between the two otherwise.
pub open spec fn slash_joined(base: Seq<u8>, part: Seq<u8>) -> Seq<u8> {
    if part.len() > 0 && part[0] == SLASH {
        part
    } else if base.len() == 0 || base.last() == SLASH {
        base + part
    } else {
        base + seq![SLASH] + part
    }
}

/// The parts joined to `base` by slashes, one after another.
pub open spec fn slash_fold(base: Seq<u8>, parts: Seq<Seq<char>>) -> Seq<u8>
    decreases parts.len(),
{
    if parts.len() == 0 {
        base
    } else {
        slash_joined(slash_fold(base, parts.drop_last()), encode_utf8(parts.last()))
    }
}

impl PathView {
    /// The bytes of the path on a system whose separator is the slash, as it
    /// is on Unix.
    pub open spec fn slashed(self) -> Seq<u8> {
        slash_fold(self.base, self.parts)
    }
}

/// Joining a part joins its bytes.
pub proof fn lemma_slashed_joined(path: PathView, part: Seq<char>)
    ensures
        path.joined(part).slashed() == slash_joined(path.slashed(), encode_utf8(part)),
{
    assert(path.joined(part).parts.drop_last() =~= path.parts);
}

/// Only the slash is encoded with the byte of a slash.
proof fn lemma_other_bytes(c: char, i: int)
    requires
        c != '/',
        0 <= i < encode_scalar(c as u32).len(),
    ensures
        encode_scalar(c as u32)[i] != SLASH,
{
    let code = c as u32;
    assert(code != 47 && code <= 0x7f ==> (code & 0x7f) as u8 != 47) by (bit_vector);
    assert(0xC0 | ((code >> 6) & 0x1F) as u8 != 47u8) by (bit_vector);
    assert(0xE0 | ((code >> 12) & 0x0F) as u8 != 47u8) by (bit_vector);
    assert(0xF0 | ((code >> 18) & 0x7) as u8 != 47u8) by (bit_vector);
    assert(0x80 | (code & 0x3F) as u8 != 47u8) by (bit_vector);
    assert(0x80 | ((code >> 6) & 0x3F) as u8 != 47u8) by (bit_vector);
    assert(0x80 | ((code >> 12) & 0x3F) as u8 != 47u8) by (bit_vector);
}

/// A name that does not start with a slash is no absolute path.
pub proof fn lemma_relative_bytes(name: Seq<char>)
    requires
        name.len() > 0,
        name[0] != '/',
    ensures
        encode_utf8(name).len() > 0,
        encode_utf8(name)[0] != SLASH,
{
    lemma_other_bytes(name[0], 0);
}

/// A name that does not end with a slash has no separator at its end.
proof fn lemma_last_byte(name: Seq<char>)
    requires
        name.len() > 0,
        name.last() != '/',
    ensures
        encode_utf8(name).len() > 0,
        encode_utf8(name).last() != SLASH,
    decreases name.len(),
{
    let rest = name.drop_first();
    if rest.len() > 0 {
        lemma_last_byte(rest);
    } else {
        assert(encode_utf8(rest) =~= Seq::<u8>::empty());
        lemma_other_bytes(name[0], encode_scalar(name[0] as u32).len() - 1);
    }
}

/// What stands in front of a relative name that is joined to `dir`.
spec fn ended(dir: Seq<u8>) -> Seq<u8> {
    if dir.len() == 0 || dir.last() == SLASH {
        dir
    } else {
        dir + seq![SLASH]
    }
}

/// Different relative names below one path give different paths.
pub proof fn lemma_names_stay_apart(path: PathView, a: Seq<char>, b: Seq<char>)
    requires
        a != b,
        a.len() > 0 && a[0] != '/',
        b.len() > 0 && b[0] != '/',
    ensures
        path.joined(a).slashed() != path.joined(b).slashed(),
{
    lemma_slashed_joined(path, a);
    lemma_slashed_joined(path, b);
    lemma_relative_bytes(a);
    lemma_relative_bytes(b);
    let base = ended(path.slashed());
    let left = path.joined(a).slashed();
    let right = path.joined(b).slashed();
    assert(left =~= base + encode_utf8(a));
    assert(right =~= base + encode_utf8(b));
    if left == right {
        assert(left.skip(base.len() as int) =~= encode_utf8(a));
        assert(right.skip(base.len() as int) =~= encode_utf8(b));
        text::lemma_encode_injective(a, b);
    }
}

/// What lies below different directories of one path is different, where
/// their names neither start nor end with a slash.
pub proof fn lemma_files_stay_apart(
    path: PathView,
    a: Seq<char>,
    b: Seq<char>,
    file: Seq<char>,
)
    requires
        a != b,
        a.len() > 0 && a[0] != '/' && a.last() != '/',
        b.len() > 0 && b[0] != '/' && b.last() != '/',
        file.len() > 0 && file[0] != '/',
    ensures
        path.joined(a).joined(file).slashed() != path.joined(b).joined(file).slashed(),
{
    lemma_names_stay_apart(path, a, b);
    lemma_slashed_joined(path, a);
    lemma_slashed_joined(path, b);
    lemma_slashed_joined(path.joined(a), file);
    lemma_slashed_joined(path.joined(b), file);
    lemma_relative_bytes(a);
    lemma_relative_bytes(b);
    lemma_relative_bytes(file);
    lemma_last_byte(a);
    lemma_last_byte(b);
    let tail = seq![SLASH] + encode_utf8(file);
    let left = path.joined(a).slashed();
    let right = path.joined(b).slashed();
    let left_file = path.joined(a).joined(file).slashed();
    let right_file = path.joined(b).joined(file).slashed();
    assert(left.last() != SLASH && right.last() != SLASH);
    assert(left_file =~= left + tail);
    assert(right_file =~= right + tail);
    if left_file == right_file {
        assert(left =~= left_file.take(left_file.len() - tail.len()));
        assert(right =~= right_file.take(right_file.len() - tail.len()));
    }
}

/// Appends a copy of `more` to `bytes`.
fn push_bytes(bytes: &mut Vec<u8>, more: &[u8])
    ensures
        final(bytes)@ == old(bytes)@ + more@,
{
    let mut i: usize = 0;
    assert(bytes@ =~= old(bytes)@ + more@.take(0));
    while i < more.len()
        invariant
            i <= more@.len(),
            bytes@ == old(bytes)@ + more@.take(i as int),
        decreases more@.len() - i,
    {
        bytes.push(more[i]);
        i = i + 1;
        assert(bytes@ =~= old(bytes)@ + more@.take(i as int));
    }
    assert(more@.take(i as int) =~= more@);
}

/// `part` joined to `base` by a slash.
fn slash_join(base: Vec<u8>, part: &str) -> (path: Vec<u8>)
    ensures
        path@ == slash_joined(base@, encode_utf8(part@)),
{
    let added = part.as_bytes();
    let mut path = base;
    if added.len() > 0 && added[0] == SLASH {
        path = Vec::new();
    } else {
        let count: usize = path.len();
        if count > 0 && path[count - 1] != SLASH {
            path.push(SLASH);
        }
    }
    push_bytes(&mut path, added);
    assert(path@ =~= slash_joined(base@, encode_utf8(part@)));
    path
}

// ── Making and taking apart ─────────────────────────────────────────

impl FilePath {
    /// The path with these bytes.
    pub fn from_bytes(bytes: Vec<u8>) -> (path: Self)
        ensures
            path@ == (PathView { base: bytes@, parts: Seq::empty() }),
    {
        let path = FilePath { base: bytes, parts: Vec::new() };
        assert(path@.parts =~= Seq::<Seq<char>>::empty());
        path
    }

    /// The path that `text` names.
    pub fn from_text(text: &str) -> (path: Self)
        ensures
            path@ == text_path(text@),
    {
        let mut bytes: Vec<u8> = Vec::new();
        push_bytes(&mut bytes, text.as_bytes());
        assert(bytes@ =~= encode_utf8(text@));
        Self::from_bytes(bytes)
    }

    /// The path with `part` joined to it.
    pub fn join(self, part: &str) -> (path: FilePath)
        ensures
            path@ == self@.joined(part@),
    {
        let FilePath { base, parts: before } = self;
        let mut parts = before;
        parts.push(part.to_owned());
        assert(text::string_texts(parts@) =~= text::string_texts(before@).push(part@));
        FilePath { base, parts }
    }

    /// The base and the parts to join to it, in order.
    pub fn into_parts(self) -> (taken: (Vec<u8>, Vec<String>))
        ensures
            taken.0@ == self@.base,
            text::string_texts(taken.1@) == self@.parts,
    {
        (self.base, self.parts)
    }

    /// The bytes of the path on a system whose separator is the slash, as it
    /// is on Unix.
    pub fn into_slashed(self) -> (bytes: Vec<u8>)
        ensures
            bytes@ == self@.slashed(),
    {
        let FilePath { base, parts } = self;
        let ghost all = text::string_texts(parts@);
        let mut bytes = base;
        let mut i: usize = 0;
        while i < parts.len()
            invariant
                i <= parts@.len(),
                all == text::string_texts(parts@),
                bytes@ == slash_fold(base@, all.take(i as int)),
            decreases parts@.len() - i,
        {
            assert(all.take(i + 1).drop_last() =~= all.take(i as int));
            assert(all.take(i + 1).last() == parts@[i as int]@);
            bytes = slash_join(bytes, parts[i].as_str());
            i = i + 1;
        }
        assert(all.take(i as int) =~= all);
        bytes
    }
}

impl Clone for FilePath {
    fn clone(&self) -> (twin: Self)
        ensures
            twin@ == self@,
    {
        let base = self.base.clone();
        let parts = self.parts.clone();
        assert(base@ =~= self.base@);
        assert(text::string_texts(parts@) =~= text::string_texts(self.parts@));
        FilePath { base, parts }
    }
}

// ── The home directory ──────────────────────────────────────────────

/// Calls `dirs::home_dir` and hands on the bytes of the path. What it gives
/// depends on the environment and on the user database, so nothing is claimed
/// of it.
#[verifier::external_body]
fn home_bytes() -> (home: Option<Vec<u8>>) {
    match dirs::home_dir() {
        Some(path) => Some(path.into_os_string().into_encoded_bytes()),
        None => None,
    }
}

/// The home directory, which is whatever the system says it is.
pub(crate) fn home_dir() -> (home: Option<FilePath>) {
    match home_bytes() {
        Some(bytes) => Some(FilePath::from_bytes(bytes)),
        None => None,
    }
}

// ── Laws ────────────────────────────────────────────────────────────

/// Where the separator is the slash, a part that does not start with one keeps
/// the path in front.
pub proof fn law_join_stays_below(path: PathView, part: Seq<char>)
    requires
        part.len() > 0 ==> part[0] != '/',
    ensures
        path.slashed().is_prefix_of(path.joined(part).slashed()),
{
    if part.len() > 0 {
        lemma_relative_bytes(part);
    }
    lemma_slashed_joined(path, part);
    let below = path.joined(part).slashed();
    assert(path.slashed() =~= below.subrange(0, path.slashed().len() as int));
}

} // verus!
