//! Test modes and the saved configuration.
use vstd::prelude::*;

use crate::text::{decimal, push_decimal};

verus! {

/// Version of the layout of saved configuration and statistics.
pub const SCHEMA_VERSION: u32 = 1;

/// The test lengths offered: seconds for timed tests, word counts for word tests.
pub open spec fn presets(timed: bool) -> Seq<u16> {
    if timed {
        seq![15u16, 30u16, 60u16, 120u16]
    } else {
        seq![10u16, 25u16, 50u16, 100u16]
    }
}

/// `v` is one of the offered lengths.
pub open spec fn is_preset(timed: bool, v: u16) -> bool {
    let p = presets(timed);
    p[0] == v || p[1] == v || p[2] == v || p[3] == v
}

/// Position of `v` among the offered lengths, or 0 when it is not one of them.
pub open spec fn preset_index(timed: bool, v: u16) -> int {
    let p = presets(timed);
    if p[0] == v {
        0
    } else if p[1] == v {
        1
    } else if p[2] == v {
        2
    } else if p[3] == v {
        3
    } else {
        0
    }
}

/// The offered length at position `i`.
pub fn preset_at(timed: bool, i: usize) -> (v: u16)
    requires
        i < 4,
    ensures
        v == presets(timed)[i as int],
{
    if timed {
        if i == 0 {
            15
        } else if i == 1 {
            30
        } else if i == 2 {
            60
        } else {
            120
        }
    } else {
        if i == 0 {
            10
        } else if i == 1 {
            25
        } else if i == 2 {
            50
        } else {
            100
        }
    }
}

/// Position of `v` among the offered lengths, or 0 when it is not one of them.
pub fn preset_position(timed: bool, v: u16) -> (i: usize)
    ensures
        i == preset_index(timed, v),
        i < 4,
{
    let mut i: usize = 0;
    while i < 4
        invariant
            i <= 4,
            forall|j: int| 0 <= j < i ==> presets(timed)[j] != v,
        decreases 4 - i,
    {
        if preset_at(timed, i) == v {
            return i;
        }
        i = i + 1;
    }
    0
}

/// Whether `v` is one of the offered lengths.
pub fn is_preset_value(timed: bool, v: u16) -> (b: bool)
    ensures
        b == is_preset(timed, v),
{
    let i = preset_position(timed, v);
    preset_at(timed, i) == v
}

/// What ends a typing test: a number of seconds, or a number of words.
#[derive(Clone, Copy, Debug, PartialEq, Eq, Structural)]
pub enum Mode {
    Timed(u16),
    Words(u16),
}

impl Mode {
    /// Human-readable description, such as `30 seconds` or `50 words`.
    pub open spec fn label_text(self) -> Seq<char> {
        match self {
            Mode::Timed(seconds) => decimal(seconds as nat) + " seconds"@,
            Mode::Words(words) => decimal(words as nat) + " words"@,
        }
    }

    /// Key under which personal bests are kept, such as `time:30`.
    pub open spec fn key_text(self) -> Seq<char> {
        match self {
            Mode::Timed(seconds) => "time:"@ + decimal(seconds as nat),
            Mode::Words(words) => "words:"@ + decimal(words as nat),
        }
    }

    /// A test can be run in this mode: a word test needs at least one word.
    pub open spec fn runnable(self) -> bool {
        !(self matches Mode::Words(0))
    }

    pub fn label(self) -> (s: String)
        ensures
            s@ == self.label_text(),
    {
        let mut s = String::new();
        match self {
            Mode::Timed(seconds) => {
                push_decimal(&mut s, seconds as u64);
                s.append(" seconds");
            },
            Mode::Words(words) => {
                push_decimal(&mut s, words as u64);
                s.append(" words");
            },
        }
        assert(s@ =~= self.label_text());
        s
    }

    pub fn key(self) -> (s: String)
        ensures
            s@ == self.key_text(),
    {
        match self {
            Mode::Timed(seconds) => {
                let mut s = String::from_str("time:");
                push_decimal(&mut s, seconds as u64);
                s
            },
            Mode::Words(words) => {
                let mut s = String::from_str("words:");
                push_decimal(&mut s, words as u64);
                s
            },
        }
    }

    /// Whether a test can be run in this mode.
    pub fn is_runnable(self) -> (r: bool)
        ensures
            r == self.runnable(),
    {
        match self {
            Mode::Timed(_) => true,
            Mode::Words(count) => count != 0,
        }
    }
}

impl Default for Mode {
    fn default() -> (m: Self)
        ensures
            m == Mode::Timed(30),
    {
        Mode::Timed(30)
    }
}

/// Saved preferences.
#[derive(Clone, Copy, Debug, PartialEq, Eq, Structural)]
pub struct Config {
    pub schema_version: u32,
    pub mode: Mode,
}

impl Default for Config {
    fn default() -> (c: Self)
        ensures
            c.schema_version == SCHEMA_VERSION,
            c.mode == Mode::Timed(30),
    {
        Config { schema_version: SCHEMA_VERSION, mode: Mode::Timed(30) }
    }
}

} // verus!
