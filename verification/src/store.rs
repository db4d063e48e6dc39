//! Decisions about saved files: what to do with what was read, the names
//! of backup and temporary files, and the bounded history of results.
use vstd::prelude::*;

use crate::model::SCHEMA_VERSION;
use crate::text::{decimal, push_decimal};

verus! {

/// What reading a saved file gave.
#[derive(Clone, Copy, Debug, PartialEq, Eq, Structural)]
pub enum ReadOutcome {
    /// There is no such file.
    Missing,
    /// The file is there but does not hold the expected data.
    Unparsable,
    /// The file holds data of this layout version.
    Parsed { schema_version: u32 },
}

/// What to do with it.
#[derive(Clone, Copy, Debug, PartialEq, Eq, Structural)]
pub enum LoadAction {
    /// Start from the defaults; nothing is wrong with the file.
    UseDefault,
    /// Move the file aside and start from the defaults.
    QuarantineAndUseDefault,
    /// Use what was read.
    UseLoaded,
}

/// Missing files give the defaults; unreadable files and files of another
/// layout version are moved aside and give the defaults.
pub fn load_action(outcome: ReadOutcome) -> (a: LoadAction)
    ensures
        a == match outcome {
            ReadOutcome::Missing => LoadAction::UseDefault,
            ReadOutcome::Unparsable => LoadAction::QuarantineAndUseDefault,
            ReadOutcome::Parsed { schema_version } => if schema_version == SCHEMA_VERSION {
                LoadAction::UseLoaded
            } else {
                LoadAction::QuarantineAndUseDefault
            },
        },
{
    match outcome {
        ReadOutcome::Missing => LoadAction::UseDefault,
        ReadOutcome::Unparsable => LoadAction::QuarantineAndUseDefault,
        ReadOutcome::Parsed { schema_version } => {
            if schema_version == SCHEMA_VERSION {
                LoadAction::UseLoaded
            } else {
                LoadAction::QuarantineAndUseDefault
            }
        },
    }
}

/// Name under which a bad file is kept: `<name>.corrupt-<timestamp>-<process>`.
pub open spec fn backup_name(file_name: Seq<char>, timestamp: u64, process: u32) -> Seq<char> {
    file_name + ".corrupt-"@ + decimal(timestamp as nat) + "-"@ + decimal(process as nat)
}

/// Name of the file written before it replaces `<name>`: `.<name>.tmp-<process>`.
pub open spec fn temp_name(file_name: Seq<char>, process: u32) -> Seq<char> {
    "."@ + file_name + ".tmp-"@ + decimal(process as nat)
}

pub fn backup_file_name(file_name: &str, timestamp: u64, process: u32) -> (s: String)
    ensures
        s@ == backup_name(file_name@, timestamp, process),
{
    let mut s = String::from_str(file_name);
    s.append(".corrupt-");
    push_decimal(&mut s, timestamp);
    s.append("-");
    push_decimal(&mut s, process as u64);
    assert(s@ =~= backup_name(file_name@, timestamp, process));
    s
}

pub fn temp_file_name(file_name: &str, process: u32) -> (s: String)
    ensures
        s@ == temp_name(file_name@, process),
{
    let mut s = String::from_str(".");
    s.append(file_name);
    s.append(".tmp-");
    push_decimal(&mut s, process as u64);
    assert(s@ =~= temp_name(file_name@, process));
    s
}

/// Counts over every finished test.
#[derive(Clone, Copy, Debug, PartialEq, Eq, Structural)]
pub struct Totals {
    pub total_tests: u64,
    pub total_time_ms: u64,
    pub total_typed_chars: u64,
}

impl Totals {
    /// The totals have room for one more test of this length and these keys.
    pub open spec fn has_room(self, elapsed_ms: u64, typed_chars: u64) -> bool {
        &&& self.total_tests < u64::MAX
        &&& self.total_time_ms + elapsed_ms <= u64::MAX
        &&& self.total_typed_chars + typed_chars <= u64::MAX
    }

    pub fn can_record(&self, elapsed_ms: u64, typed_chars: u64) -> (b: bool)
        ensures
            b == self.has_room(elapsed_ms, typed_chars),
    {
        self.total_tests < u64::MAX && elapsed_ms <= u64::MAX - self.total_time_ms && typed_chars
            <= u64::MAX - self.total_typed_chars
    }

    /// Counts one more test of `elapsed_ms` milliseconds and `typed_chars` keys.
    pub fn record(&mut self, elapsed_ms: u64, typed_chars: u64)
        requires
            old(self).has_room(elapsed_ms, typed_chars),
        ensures
            final(self).total_tests == old(self).total_tests + 1,
            final(self).total_time_ms == old(self).total_time_ms + elapsed_ms,
            final(self).total_typed_chars == old(self).total_typed_chars + typed_chars,
    {
        self.total_tests = self.total_tests + 1;
        self.total_time_ms = self.total_time_ms + elapsed_ms;
        self.total_typed_chars = self.total_typed_chars + typed_chars;
    }
}

/// Most results kept in the history.
pub const HISTORY_LIMIT: usize = 1000;

/// The newest item goes first; the oldest beyond the limit are dropped.
pub fn push_recent<T>(history: &mut Vec<T>, item: T)
    ensures
        final(history)@ == seq![item].add(old(history)@).take(
            if old(history)@.len() + 1 <= HISTORY_LIMIT {
                (old(history)@.len() + 1) as int
            } else {
                HISTORY_LIMIT as int
            },
        ),
{
    history.insert(0, item);
    history.truncate(HISTORY_LIMIT);
    assert(history@ =~= seq![item].add(old(history)@).take(
        if old(history)@.len() + 1 <= HISTORY_LIMIT {
            (old(history)@.len() + 1) as int
        } else {
            HISTORY_LIMIT as int
        },
    ));
}

} // verus!
