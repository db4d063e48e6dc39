//! Validation of the command-line choices.
use vstd::prelude::*;

use crate::model::{is_preset, is_preset_value, Mode};
use crate::text::{decimal, push_decimal};

verus! {

/// The options given on the command line.
#[derive(Clone, Copy, Debug, PartialEq, Eq, Structural)]
pub struct Cli {
    /// Run a timed test of this many seconds.
    pub time: Option<u16>,
    /// Run a word test of this many words.
    pub words: Option<u16>,
    /// Open the settings screen.
    pub settings: bool,
    /// Open the history screen.
    pub stats: bool,
}

/// The message for a refused test length.
pub open spec fn time_error(seconds: u16) -> Seq<char> {
    "unsupported time "@ + decimal(seconds as nat) + "; choose 15, 30, 60, or 120 seconds"@
}

/// The message for a refused word count.
pub open spec fn words_error(words: u16) -> Seq<char> {
    "unsupported word count "@ + decimal(words as nat) + "; choose 10, 25, 50, or 100"@
}

impl Cli {
    /// The mode asked for on the command line, if any; only the offered
    /// lengths are accepted, and a time takes precedence over a word count.
    pub fn mode(&self) -> (r: Result<Option<Mode>, String>)
        ensures
            match self.time {
                Some(seconds) => if is_preset(true, seconds) {
                    r == Ok::<Option<Mode>, String>(Some(Mode::Timed(seconds)))
                } else {
                    r matches Err(e) && e@ == time_error(seconds)
                },
                None => match self.words {
                    Some(words) => if is_preset(false, words) {
                        r == Ok::<Option<Mode>, String>(Some(Mode::Words(words)))
                    } else {
                        r matches Err(e) && e@ == words_error(words)
                    },
                    None => r == Ok::<Option<Mode>, String>(None),
                },
            },
    {
        if let Some(seconds) = self.time {
            if !is_preset_value(true, seconds) {
                let mut e = String::from_str("unsupported time ");
                push_decimal(&mut e, seconds as u64);
                e.append("; choose 15, 30, 60, or 120 seconds");
                return Err(e);
            }
            return Ok(Some(Mode::Timed(seconds)));
        }
        if let Some(words) = self.words {
            if !is_preset_value(false, words) {
                let mut e = String::from_str("unsupported word count ");
                push_decimal(&mut e, words as u64);
                e.append("; choose 10, 25, 50, or 100");
                return Err(e);
            }
            return Ok(Some(Mode::Words(words)));
        }
        Ok(None)
    }
}

} // verus!
