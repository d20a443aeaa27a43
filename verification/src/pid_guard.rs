//! The record of which child process serves which conversation.
//!
//! While a child process runs, a file named after its process ID under
//! `~/.talos/pid_map` holds the ID of its conversation.

use vstd::prelude::*;

use crate::paths;
use crate::paths::{FilePath, PathView};
use crate::stream;
use crate::text;

verus! {

/// The directory of the records below `home`.
pub open spec fn pid_map_location(home: PathView) -> PathView {
    home.joined(".talos"@).joined("pid_map"@)
}

/// The record of the process `pid` below `home`.
pub open spec fn pid_file_location(home: PathView, pid: u32) -> PathView {
    pid_map_location(home).joined(text::decimal(pid as nat))
}

/// A record to write.
#[derive(Debug, Clone)]
pub struct PidRecord {
    /// The directory that has to be there.
    pub dir: FilePath,
    /// The file to write.
    pub file: FilePath,
    /// What to write into it.
    pub content: String,
}

/// What a [`PidRecord`] says.
pub struct RecordView {
    pub dir: PathView,
    pub file: PathView,
    pub content: Seq<char>,
}

impl View for PidRecord {
    type V = RecordView;

    open spec fn view(&self) -> RecordView {
        RecordView { dir: self.dir@, file: self.file@, content: self.content@ }
    }
}

/// A record by what it says.
pub open spec fn record_view(record: Option<PidRecord>) -> Option<RecordView> {
    match record {
        Some(r) => Some(r@),
        None => None,
    }
}

/// The record that the process `pid` serves the conversation `conv_id`; none
/// where there is no home directory.
pub open spec fn pid_record(home: Option<PathView>, pid: u32, conv_id: Seq<char>) -> Option<
    RecordView,
> {
    match home {
        Some(dir) => Some(
            RecordView {
                dir: pid_map_location(dir),
                file: pid_file_location(dir, pid),
                content: conv_id,
            },
        ),
        None => None,
    }
}

/// The file that the record of the process `pid` is in; none where there is
/// no home directory.
pub open spec fn pid_file(home: Option<PathView>, pid: u32) -> Option<PathView> {
    match home {
        Some(dir) => Some(pid_file_location(dir, pid)),
        None => None,
    }
}

/// Stands for a running child process, from its record's writing to its
/// removal.
#[derive(Debug)]
pub struct PidGuard(u32);

impl PidGuard {
    /// The process ID.
    pub closed spec fn pid(self) -> u32 {
        self.0
    }

    /// Stands for the process `pid`.
    pub fn new(pid: u32) -> (guard: Self)
        ensures
            guard.pid() == pid,
    {
        PidGuard(pid)
    }

    /// The record to write, where `home` is the home directory.
    pub fn record_from(&self, home: &Option<FilePath>, conv_id: &str) -> (record: Option<PidRecord>)
        ensures
            record_view(record) == pid_record(paths::option_path(*home), self.pid(), conv_id@),
    {
        match home {
            Some(dir) => Some(
                PidRecord {
                    dir: map_dir(dir),
                    file: self.file_below(dir),
                    content: conv_id.to_owned(),
                },
            ),
            None => None,
        }
    }

    /// The file to remove in the end, where `home` is the home directory.
    pub fn file_from(&self, home: &Option<FilePath>) -> (file: Option<FilePath>)
        ensures
            paths::option_path(file) == pid_file(paths::option_path(*home), self.pid()),
    {
        match home {
            Some(dir) => Some(self.file_below(dir)),
            None => None,
        }
    }

    /// The record to write. The home directory is whatever the system says
    /// it is.
    pub fn record(&self, conv_id: &str) -> (record: Option<PidRecord>)
        ensures
            exists|home: Option<PathView>|
                record_view(record) == #[trigger] pid_record(home, self.pid(), conv_id@),
    {
        let home = paths::home_dir();
        self.record_from(&home, conv_id)
    }

    /// The file to remove in the end. The home directory is whatever the
    /// system says it is.
    pub fn file(&self) -> (file: Option<FilePath>)
        ensures
            exists|home: Option<PathView>|
                paths::option_path(file) == #[trigger] pid_file(home, self.pid()),
    {
        let home = paths::home_dir();
        self.file_from(&home)
    }

    /// The record's file below `home`.
    fn file_below(&self, home: &FilePath) -> (file: FilePath)
        ensures
            file@ == pid_file_location(home@, self.pid()),
    {
        map_dir(home).join(text::decimal_text(self.0 as u64).as_str())
    }
}

/// The directory of the records below `home`.
fn map_dir(home: &FilePath) -> (dir: FilePath)
    ensures
        dir@ == pid_map_location(home@),
{
    home.clone().join(".talos").join("pid_map")
}

/// What a record says of a conversation whose ID is not known.
pub fn guard_label<'a>(conversation_id: &'a Option<String>) -> (label: &'a str)
    ensures
        label@ == stream::id_or_unknown(text::option_text(*conversation_id)),
{
    match conversation_id {
        Some(id) => id.as_str(),
        None => "unknown",
    }
}

/// The decimal text of a number starts with a digit, so it is no absolute path.
proof fn lemma_decimal_is_relative(n: nat)
    ensures
        text::decimal(n).len() > 0,
        text::decimal(n)[0] != '/',
    decreases n,
{
    if n >= 10 {
        lemma_decimal_is_relative(n / 10);
    }
}

/// The file that is removed in the end is the one that was written, and it
/// lies directly in the directory that was made for it.
pub proof fn law_written_record_is_removed(home: Option<PathView>, pid: u32, conv_id: Seq<char>)
    ensures
        match pid_record(home, pid, conv_id) {
            Some(record) => {
                &&& pid_file(home, pid) == Some(record.file)
                &&& record.file == record.dir.joined(text::decimal(pid as nat))
            },
            None => pid_file(home, pid) is None,
        },
{
}

/// Two processes never share a record, neither by what is joined nor, where
/// the separator is the slash, by the bytes of the path.
pub proof fn law_records_are_apart(home: PathView, a: u32, b: u32)
    requires
        a != b,
    ensures
        pid_file_location(home, a) != pid_file_location(home, b),
        pid_file_location(home, a).slashed() != pid_file_location(home, b).slashed(),
{
    lemma_decimal_is_relative(a as nat);
    lemma_decimal_is_relative(b as nat);
    text::law_decimal_reads_back(a as nat);
    text::law_decimal_reads_back(b as nat);
    paths::lemma_names_stay_apart(
        pid_map_location(home),
        text::decimal(a as nat),
        text::decimal(b as nat),
    );
}

} // verus!
