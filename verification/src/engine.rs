//! The typing engine: the words of one test, what has been typed so far,
//! and the counters from which speed and accuracy are derived.
//!
//! Moments are nanosecond counts from an origin chosen by the caller, and
//! durations are nanosecond counts.
use vstd::prelude::*;

use crate::model::Mode;
use crate::text::{is_control, is_control_char, pop_char, push_char};

verus! {

/// A key that the engine reacts to.
#[derive(Clone, Copy, Debug, PartialEq, Eq, Structural)]
pub enum InputKey {
    Char(char),
    Backspace,
}

/// A word as it was typed when it was submitted.
#[derive(Clone, Debug)]
pub struct SubmittedWord {
    pub typed: String,
}

/// Counters of a test at some moment.
#[derive(Clone, Copy, Debug, PartialEq, Eq, Structural)]
pub struct Metrics {
    /// Time spent on the test, in nanoseconds.
    pub elapsed: u64,
    /// Characters that match the expected text, spaces between correct words included.
    pub correct_chars: u64,
    /// Wrong, extra and skipped characters.
    pub incorrect_chars: u64,
    /// Printable keys pressed, backspaced ones included.
    pub typed_chars: u64,
    /// Printable keys that matched the expected character when pressed.
    pub correct_keypresses: u64,
}

/// What a finished test measured.
#[derive(Clone, Copy, Debug, PartialEq, Eq, Structural)]
pub struct TestResult {
    pub mode: Mode,
    /// Duration of the test, in whole milliseconds.
    pub elapsed_ms: u64,
    /// Duration of the test, in nanoseconds.
    pub elapsed: u64,
    pub correct_chars: u64,
    pub incorrect_chars: u64,
    pub typed_chars: u64,
    pub correct_keypresses: u64,
}

/// Nanoseconds in a second.
pub const NANOS_PER_SECOND: u64 = 1_000_000_000;

/// Nanoseconds in a millisecond.
pub const NANOS_PER_MILLI: u64 = 1_000_000;

/// `a - b`, or zero when `b` is later.
pub open spec fn sat_sub(a: nat, b: nat) -> nat {
    if a >= b {
        (a - b) as nat
    } else {
        0
    }
}

/// Length of a timed test of `seconds` seconds, in nanoseconds.
pub open spec fn test_length(seconds: u16) -> nat {
    seconds as nat * NANOS_PER_SECOND as nat
}

/// Number of positions below `n` at which `typed` holds the character
/// that `expected` holds there.
pub open spec fn matching(expected: Seq<char>, typed: Seq<char>, n: nat) -> nat
    decreases n,
{
    if n == 0 {
        0
    } else {
        matching(expected, typed, (n - 1) as nat) + if (n - 1) < expected.len() && typed[n
            - 1] == expected[n - 1] {
            1nat
        } else {
            0nat
        }
    }
}

/// Correct and incorrect characters of `typed` against `expected`: every
/// typed character is one or the other; with `count_missing`, expected
/// characters that were never typed are incorrect too.
pub open spec fn score(expected: Seq<char>, typed: Seq<char>, count_missing: bool) -> (nat, nat) {
    let correct = matching(expected, typed, typed.len());
    let missing: nat = if count_missing && expected.len() > typed.len() {
        (expected.len() - typed.len()) as nat
    } else {
        0
    };
    (correct, (typed.len() - correct) as nat + missing)
}

/// The state of a typing test, as mathematical values.
pub struct EngineState {
    pub mode: Mode,
    pub words: Seq<Seq<char>>,
    pub submitted: Seq<Seq<char>>,
    pub input: Seq<char>,
    pub current_word: nat,
    pub started_at: Option<nat>,
    pub finished_at: Option<nat>,
    pub printable_keys: nat,
    pub correct_keypresses: nat,
    pub committed_correct: nat,
    pub committed_incorrect: nat,
}

impl EngineState {
    /// The state of a test that nobody has typed in yet.
    pub open spec fn initial(mode: Mode, words: Seq<Seq<char>>) -> EngineState {
        EngineState {
            mode,
            words,
            submitted: Seq::empty(),
            input: Seq::empty(),
            current_word: 0,
            started_at: None,
            finished_at: None,
            printable_keys: 0,
            correct_keypresses: 0,
            committed_correct: 0,
            committed_incorrect: 0,
        }
    }

    /// What holds of every state that the engine reaches.
    pub open spec fn wf(self) -> bool {
        &&& self.words.len() > 0
        &&& self.current_word < self.words.len()
        &&& self.correct_keypresses <= self.printable_keys
        &&& self.finished_at is Some ==> self.started_at is Some && self.input.len() == 0
        &&& self.started_at is None ==> self.input.len() == 0 && self.printable_keys == 0
            && self.submitted.len() == 0 && self.committed_correct == 0
            && self.committed_incorrect == 0
        &&& self.committed_correct + self.input.len() <= self.printable_keys
    }

    /// Every counter fits in 64 bits.
    pub open spec fn fits(self) -> bool {
        &&& self.printable_keys <= u64::MAX
        &&& self.correct_keypresses <= u64::MAX
        &&& self.committed_correct <= u64::MAX
        &&& self.committed_incorrect <= u64::MAX
    }

    /// The word being typed.
    pub open spec fn word(self) -> Seq<char> {
        self.words[self.current_word as int]
    }

    pub open spec fn is_started(self) -> bool {
        self.started_at is Some
    }

    pub open spec fn is_finished(self) -> bool {
        self.finished_at is Some
    }

    /// The clock starts at `now` unless it is already running.
    pub open spec fn start(self, now: nat) -> EngineState {
        if self.started_at is None {
            EngineState { started_at: Some(now), ..self }
        } else {
            self
        }
    }

    /// The input is scored against the current word, with the characters
    /// that were never typed counted as incorrect, and moves to the
    /// submitted words; the next word becomes current, or the last word
    /// stays current. A submitting space is a keypress, correct exactly
    /// when the input equals the word.
    pub open spec fn commit(self, include_space: bool) -> EngineState {
        let (correct, incorrect) = score(self.word(), self.input, true);
        let exact = self.input == self.word();
        let space_hit: nat = if include_space && exact {
            1
        } else {
            0
        };
        let space_miss: nat = if include_space && !exact {
            1
        } else {
            0
        };
        let next = self.current_word + 1;
        EngineState {
            submitted: self.submitted.push(self.input),
            input: Seq::empty(),
            current_word: if next < self.words.len() {
                next
            } else {
                (self.words.len() - 1) as nat
            },
            printable_keys: self.printable_keys + if include_space {
                1nat
            } else {
                0nat
            },
            correct_keypresses: self.correct_keypresses + space_hit,
            committed_correct: self.committed_correct + correct + space_hit,
            committed_incorrect: self.committed_incorrect + incorrect + space_miss,
            ..self
        }
    }

    /// A non-empty input is scored, without counting untyped characters,
    /// and moves to the submitted words; the current word stays.
    pub open spec fn finish_partial(self) -> EngineState {
        if self.input.len() == 0 {
            self
        } else {
            let (correct, incorrect) = score(self.word(), self.input, false);
            EngineState {
                submitted: self.submitted.push(self.input),
                input: Seq::empty(),
                committed_correct: self.committed_correct + correct,
                committed_incorrect: self.committed_incorrect + incorrect,
                ..self
            }
        }
    }

    /// A space: a non-empty input is submitted; in a word test, submitting
    /// the last counted word ends the test.
    pub open spec fn submit(self, now: nat) -> EngineState {
        if self.input.len() == 0 {
            self
        } else {
            let s = self.start(now);
            let finishes = s.mode matches Mode::Words(target) && s.current_word + 1 == target;
            let s2 = s.commit(true);
            if finishes {
                EngineState { finished_at: Some(now), ..s2 }
            } else {
                s2
            }
        }
    }

    /// A printable character other than space: it is counted, scored as a
    /// keypress against the expected character, and appended to the input;
    /// in a word test, typing the last counted word exactly ends the test.
    pub open spec fn type_char(self, c: char, now: nat) -> EngineState {
        let s = self.start(now);
        let pos = s.input.len();
        let hit = pos < s.word().len() && s.word()[pos as int] == c;
        let s2 = EngineState {
            printable_keys: s.printable_keys + 1,
            correct_keypresses: s.correct_keypresses + if hit {
                1nat
            } else {
                0nat
            },
            input: s.input.push(c),
            ..s
        };
        if s2.mode matches Mode::Words(target) && s2.current_word + 1 == target && s2.input
            == s2.word() {
            EngineState { finished_at: Some(now), ..s2.commit(false) }
        } else {
            s2
        }
    }

    /// The effect of a key at `now`. A finished test ignores keys; control
    /// characters are ignored; backspace removes the last input character.
    pub open spec fn key(self, key: InputKey, now: nat) -> EngineState {
        if self.finished_at is Some {
            self
        } else {
            match key {
                InputKey::Backspace => EngineState {
                    input: if self.input.len() > 0 {
                        self.input.drop_last()
                    } else {
                        self.input
                    },
                    ..self
                },
                InputKey::Char(c) => if c == ' ' {
                    self.submit(now)
                } else if is_control(c) {
                    self
                } else {
                    self.type_char(c, now)
                },
            }
        }
    }

    /// The effect of the clock reaching `now`: a started timed test whose
    /// length has elapsed finishes exactly at its deadline, with the
    /// partial word scored.
    pub open spec fn tick(self, now: nat) -> EngineState {
        match self.mode {
            Mode::Timed(seconds) => match self.started_at {
                Some(started) => if self.finished_at is None && sat_sub(now, started)
                    >= test_length(seconds) {
                    EngineState {
                        finished_at: Some(started + test_length(seconds)),
                        ..self.finish_partial()
                    }
                } else {
                    self
                },
                None => self,
            },
            Mode::Words(_) => self,
        }
    }

    /// Time left in a timed test; none for a word test.
    pub open spec fn remaining(self, now: nat) -> Option<nat> {
        match self.mode {
            Mode::Timed(seconds) => match self.started_at {
                None => Some(test_length(seconds)),
                Some(started) => Some(sat_sub(test_length(seconds), sat_sub(now, started))),
            },
            Mode::Words(_) => None,
        }
    }

    /// Time spent: from the start to the finish, or to `now` while running.
    pub open spec fn elapsed(self, now: nat) -> nat {
        match self.started_at {
            None => 0,
            Some(started) => match self.finished_at {
                Some(finished) => sat_sub(finished, started),
                None => sat_sub(now, started),
            },
        }
    }

    /// Correct characters so far, the current input scored without its untyped rest.
    pub open spec fn correct_chars(self) -> nat {
        self.committed_correct + score(self.word(), self.input, false).0
    }

    /// Incorrect characters so far, the current input scored without its untyped rest.
    pub open spec fn incorrect_chars(self) -> nat {
        self.committed_incorrect + score(self.word(), self.input, false).1
    }

    /// What a finished test measured.
    pub open spec fn outcome(self) -> TestResult {
        TestResult {
            mode: self.mode,
            elapsed_ms: (self.elapsed(0) / NANOS_PER_MILLI as nat) as u64,
            elapsed: self.elapsed(0) as u64,
            correct_chars: self.committed_correct as u64,
            incorrect_chars: self.committed_incorrect as u64,
            typed_chars: self.printable_keys as u64,
            correct_keypresses: self.correct_keypresses as u64,
        }
    }

    /// The character counts fit in 64 bits.
    pub open spec fn metrics_fit(self) -> bool {
        self.correct_chars() <= u64::MAX && self.incorrect_chars() <= u64::MAX
    }

    /// Enough room in every counter for any one key or tick: the check
    /// that callers can make before a key or a tick.
    pub open spec fn headroom(self) -> bool {
        let need = self.input.len() + self.word().len() + 2;
        &&& self.printable_keys + need <= u64::MAX
        &&& self.committed_correct + need <= u64::MAX
        &&& self.committed_incorrect + need <= u64::MAX
    }
}

/// `matching` counts at most the positions it looks at.
pub proof fn lemma_matching_bound(expected: Seq<char>, typed: Seq<char>, n: nat)
    ensures
        matching(expected, typed, n) <= n,
    decreases n,
{
    if n > 0 {
        lemma_matching_bound(expected, typed, (n - 1) as nat);
    }
}

/// Scores are bounded by the lengths of the two texts.
pub proof fn lemma_score_bound(expected: Seq<char>, typed: Seq<char>, count_missing: bool)
    ensures
        score(expected, typed, count_missing).0 <= typed.len(),
        score(expected, typed, count_missing).1 <= typed.len() + expected.len(),
        !count_missing ==> score(expected, typed, count_missing).0 + score(
            expected,
            typed,
            count_missing,
        ).1 == typed.len(),
{
    lemma_matching_bound(expected, typed, typed.len());
}

/// Keys and ticks lead from a reachable state to a reachable state.
pub proof fn lemma_steps_wf(s: EngineState, key: InputKey, now: nat)
    requires
        s.wf(),
    ensures
        s.key(key, now).wf(),
        s.tick(now).wf(),
{
    lemma_score_bound(s.word(), s.input, true);
    lemma_score_bound(s.word(), s.input, false);
    match key {
        InputKey::Char(c) => {
            lemma_score_bound(s.word(), s.input.push(c), true);
        },
        InputKey::Backspace => {},
    }
}

/// With headroom, no key can overflow a counter.
pub proof fn lemma_headroom_key(s: EngineState, key: InputKey, now: nat)
    requires
        s.wf(),
        s.headroom(),
    ensures
        s.key(key, now).fits(),
{
    lemma_score_bound(s.word(), s.input, true);
    lemma_score_bound(s.word(), s.input.push(' '), true);
    match key {
        InputKey::Char(c) => {
            lemma_score_bound(s.word(), s.input.push(c), true);
        },
        InputKey::Backspace => {},
    }
}

/// With headroom, no tick can overflow a counter.
pub proof fn lemma_headroom_tick(s: EngineState, now: nat)
    requires
        s.wf(),
        s.headroom(),
    ensures
        s.tick(now).fits(),
        s.metrics_fit(),
{
    lemma_score_bound(s.word(), s.input, false);
}

/// Scores the characters of `typed` against `expected`.
fn score_word(expected: &str, typed: &str, count_missing: bool) -> (r: (u64, u64))
    ensures
        r.0 as nat == score(expected@, typed@, count_missing).0,
        r.1 as nat == score(expected@, typed@, count_missing).1,
{
    let elen = expected.unicode_len();
    let tlen = typed.unicode_len();
    let mut correct: u64 = 0;
    let mut incorrect: u64 = 0;
    let mut i: usize = 0;
    while i < tlen
        invariant
            elen == expected@.len(),
            tlen == typed@.len(),
            i <= tlen,
            correct as nat == matching(expected@, typed@, i as nat),
            correct + incorrect == i,
        decreases tlen - i,
    {
        proof {
            lemma_matching_bound(expected@, typed@, i as nat);
        }
        let c = typed.get_char(i);
        if i < elen && expected.get_char(i) == c {
            correct = correct + 1;
        } else {
            incorrect = incorrect + 1;
        }
        i = i + 1;
    }
    if count_missing && elen > tlen {
        incorrect = incorrect + (elen - tlen) as u64;
    }
    (correct, incorrect)
}

/// One typing test.
pub struct Engine {
    mode: Mode,
    words: Vec<String>,
    submitted: Vec<SubmittedWord>,
    current_input: String,
    current_word: usize,
    started_at: Option<u64>,
    finished_at: Option<u64>,
    printable_keys: u64,
    correct_keypresses: u64,
    committed_correct: u64,
    committed_incorrect: u64,
}

/// A moment of the engine's clock as a mathematical value.
pub open spec fn moment(t: Option<u64>) -> Option<nat> {
    match t {
        Some(v) => Some(v as nat),
        None => None,
    }
}

/// The texts of a list of strings.
pub open spec fn texts(words: Seq<String>) -> Seq<Seq<char>> {
    words.map_values(|w: String| w@)
}

/// The typed texts of a list of submitted words.
pub open spec fn typed_texts(words: Seq<SubmittedWord>) -> Seq<Seq<char>> {
    words.map_values(|w: SubmittedWord| w.typed@)
}

impl View for Engine {
    type V = EngineState;

    closed spec fn view(&self) -> EngineState {
        EngineState {
            mode: self.mode,
            words: texts(self.words@),
            submitted: typed_texts(self.submitted@),
            input: self.current_input@,
            current_word: self.current_word as nat,
            started_at: moment(self.started_at),
            finished_at: moment(self.finished_at),
            printable_keys: self.printable_keys as nat,
            correct_keypresses: self.correct_keypresses as nat,
            committed_correct: self.committed_correct as nat,
            committed_incorrect: self.committed_incorrect as nat,
        }
    }
}

impl Engine {
    /// The engine is in a state that its operations can reach.
    pub open spec fn wf(&self) -> bool {
        self@.wf() && self@.fits()
    }

    /// A test of `mode` over `words`; the list must not be empty.
    pub fn new(mode: Mode, words: Vec<String>) -> (e: Engine)
        requires
            words.len() > 0,
        ensures
            e.wf(),
            e@ == EngineState::initial(mode, texts(words@)),
    {
        let e = Engine {
            mode,
            words,
            submitted: Vec::new(),
            current_input: String::new(),
            current_word: 0,
            started_at: None,
            finished_at: None,
            printable_keys: 0,
            correct_keypresses: 0,
            committed_correct: 0,
            committed_incorrect: 0,
        };
        assert(e@.submitted =~= Seq::<Seq<char>>::empty());
        assert(e@ =~= EngineState::initial(mode, texts(e.words@)));
        e
    }

    pub fn words(&self) -> (w: &[String])
        ensures
            texts(w@) == self@.words,
    {
        self.words.as_slice()
    }

    pub fn submitted(&self) -> (s: &[SubmittedWord])
        ensures
            typed_texts(s@) == self@.submitted,
    {
        self.submitted.as_slice()
    }

    pub fn current_input(&self) -> (s: &str)
        ensures
            s@ == self@.input,
    {
        self.current_input.as_str()
    }

    pub fn current_word_index(&self) -> (i: usize)
        ensures
            i == self@.current_word,
    {
        self.current_word
    }

    pub fn is_started(&self) -> (b: bool)
        ensures
            b == self@.is_started(),
    {
        self.started_at.is_some()
    }

    pub fn is_finished(&self) -> (b: bool)
        ensures
            b == self@.is_finished(),
    {
        self.finished_at.is_some()
    }

    /// Whether every counter has room for any one key or tick.
    pub fn has_headroom(&self) -> (b: bool)
        requires
            self.wf(),
        ensures
            b == self@.headroom(),
    {
        let need: u128 = self.current_input.as_str().unicode_len() as u128
            + self.words[self.current_word].as_str().unicode_len() as u128 + 2;
        (self.printable_keys as u128) + need <= u64::MAX as u128 && (self.committed_correct as u128)
            + need <= u64::MAX as u128 && (self.committed_incorrect as u128) + need
            <= u64::MAX as u128
    }

    fn ensure_started(&mut self, now: u64)
        ensures
            final(self)@ == old(self)@.start(now as nat),
    {
        if self.started_at.is_none() {
            self.started_at = Some(now);
        }
        assert(self@ =~= old(self)@.start(now as nat));
    }

    fn commit_current(&mut self, include_space: bool)
        requires
            old(self).wf(),
            old(self)@.commit(include_space).fits(),
        ensures
            final(self)@ == old(self)@.commit(include_space),
    {
        let ghost pre = self@;
        assert(pre.words.len() == self.words@.len());
        assert(self.current_word < self.words.len());
        let idx = self.current_word;
        let (correct, incorrect) = score_word(
            self.words[idx].as_str(),
            self.current_input.as_str(),
            true,
        );
        let exact = self.current_input == self.words[idx];
        self.committed_correct = self.committed_correct + correct;
        self.committed_incorrect = self.committed_incorrect + incorrect;
        if include_space {
            self.printable_keys = self.printable_keys + 1;
            if exact {
                self.correct_keypresses = self.correct_keypresses + 1;
                self.committed_correct = self.committed_correct + 1;
            } else {
                self.committed_incorrect = self.committed_incorrect + 1;
            }
        }
        let mut typed = String::new();
        std::mem::swap(&mut typed, &mut self.current_input);
        self.submitted.push(SubmittedWord { typed });
        self.current_word = self.current_word + 1;
        if self.current_word >= self.words.len() {
            self.current_word = self.words.len() - 1;
        }
        assert(self@.submitted =~= pre.submitted.push(pre.input));
        assert(self@ =~= pre.commit(include_space));
    }

    fn finish_partial_word(&mut self)
        requires
            old(self).wf(),
            old(self)@.finish_partial().fits(),
        ensures
            final(self)@ == old(self)@.finish_partial(),
    {
        let ghost pre = self@;
        if self.current_input.as_str().is_empty() {
            return;
        }
        let idx = self.current_word;
        let (correct, incorrect) = score_word(
            self.words[idx].as_str(),
            self.current_input.as_str(),
            false,
        );
        self.committed_correct = self.committed_correct + correct;
        self.committed_incorrect = self.committed_incorrect + incorrect;
        let mut typed = String::new();
        std::mem::swap(&mut typed, &mut self.current_input);
        self.submitted.push(SubmittedWord { typed });
        assert(self@.submitted =~= pre.submitted.push(pre.input));
        assert(self@ =~= pre.finish_partial());
    }

    /// Reacts to `key` pressed at `now`.
    pub fn handle_key_at(&mut self, key: InputKey, now: u64)
        requires
            old(self).wf(),
            old(self)@.key(key, now as nat).fits(),
        ensures
            final(self).wf(),
            final(self)@ == old(self)@.key(key, now as nat),
    {
        let ghost pre = self@;
        proof {
            lemma_steps_wf(pre, key, now as nat);
        }
        assert(pre.words.len() == self.words@.len());
        if self.finished_at.is_some() {
            return;
        }
        match key {
            InputKey::Backspace => {
                pop_char(&mut self.current_input);
                assert(self@ =~= pre.key(key, now as nat));
            },
            InputKey::Char(c) => {
                if c == ' ' {
                    if !self.current_input.as_str().is_empty() {
                        self.ensure_started(now);
                        assert(self@.words.len() == self.words@.len());
                        assert(self.current_word < self.words.len());
                        let finishes = match self.mode {
                            Mode::Words(target) => self.current_word + 1 == target as usize,
                            Mode::Timed(_) => false,
                        };
                        self.commit_current(true);
                        if finishes {
                            self.finished_at = Some(now);
                        }
                        assert(self@ =~= pre.key(key, now as nat));
                    }
                } else if !is_control_char(c) {
                    self.ensure_started(now);
                    let ghost s = self@;
                    assert(s.words.len() == self.words@.len());
                    assert(self.current_word < self.words.len());
                    let pos = self.current_input.as_str().unicode_len();
                    let idx = self.current_word;
                    let wlen = self.words[idx].as_str().unicode_len();
                    let hit = pos < wlen && self.words[idx].as_str().get_char(pos) == c;
                    self.printable_keys = self.printable_keys + 1;
                    if hit {
                        self.correct_keypresses = self.correct_keypresses + 1;
                    }
                    push_char(&mut self.current_input, c);
                    let ghost s2 = self@;
                    assert(s2 =~= EngineState {
                        printable_keys: s.printable_keys + 1,
                        correct_keypresses: s.correct_keypresses + if hit {
                            1nat
                        } else {
                            0nat
                        },
                        input: s.input.push(c),
                        ..s
                    });
                    if let Mode::Words(target) = self.mode {
                        if self.current_word + 1 == target as usize && self.current_input
                            == self.words[self.current_word] {
                            self.commit_current(false);
                            self.finished_at = Some(now);
                        }
                    }
                    assert(self@ =~= pre.key(key, now as nat));
                }
            },
        }
    }

    /// Lets the clock reach `now`: a timed test whose length has elapsed
    /// finishes at its deadline.
    pub fn tick_at(&mut self, now: u64)
        requires
            old(self).wf(),
            old(self)@.tick(now as nat).fits(),
        ensures
            final(self).wf(),
            final(self)@ == old(self)@.tick(now as nat),
    {
        let ghost pre = self@;
        proof {
            lemma_steps_wf(pre, InputKey::Backspace, now as nat);
        }
        if let Mode::Timed(seconds) = self.mode {
            if let Some(started) = self.started_at {
                let length = seconds as u64 * NANOS_PER_SECOND;
                let elapsed = if now >= started {
                    now - started
                } else {
                    0
                };
                if self.finished_at.is_none() && elapsed >= length {
                    self.finish_partial_word();
                    self.finished_at = Some(started + length);
                }
            }
        }
        assert(self@ =~= pre.tick(now as nat));
    }

    /// Time left at `now` in a timed test, in nanoseconds.
    pub fn remaining_at(&self, now: u64) -> (r: Option<u64>)
        ensures
            moment(r) == self@.remaining(now as nat),
    {
        match self.mode {
            Mode::Timed(seconds) => {
                let length = seconds as u64 * NANOS_PER_SECOND;
                match self.started_at {
                    None => Some(length),
                    Some(started) => {
                        let elapsed = if now >= started {
                            now - started
                        } else {
                            0
                        };
                        Some(
                            if length >= elapsed {
                                length - elapsed
                            } else {
                                0
                            },
                        )
                    },
                }
            },
            Mode::Words(_) => None,
        }
    }

    fn elapsed_at(&self, now: u64) -> (r: u64)
        ensures
            r == self@.elapsed(now as nat),
    {
        match self.started_at {
            None => 0,
            Some(started) => {
                let end = match self.finished_at {
                    Some(finished) => finished,
                    None => now,
                };
                if end >= started {
                    end - started
                } else {
                    0
                }
            },
        }
    }

    fn current_score(&self) -> (r: (u64, u64))
        requires
            self.wf(),
        ensures
            r.0 == score(self@.word(), self@.input, false).0,
            r.1 == score(self@.word(), self@.input, false).1,
    {
        score_word(self.words[self.current_word].as_str(), self.current_input.as_str(), false)
    }

    /// The counters at `now`.
    pub fn metrics_at(&self, now: u64) -> (m: Metrics)
        requires
            self.wf(),
            self@.metrics_fit(),
        ensures
            m.elapsed == self@.elapsed(now as nat),
            m.correct_chars == self@.correct_chars(),
            m.incorrect_chars == self@.incorrect_chars(),
            m.typed_chars == self@.printable_keys,
            m.correct_keypresses == self@.correct_keypresses,
    {
        let elapsed = self.elapsed_at(now);
        let (current_correct, current_incorrect) = self.current_score();
        Metrics {
            elapsed,
            correct_chars: self.committed_correct + current_correct,
            incorrect_chars: self.committed_incorrect + current_incorrect,
            typed_chars: self.printable_keys,
            correct_keypresses: self.correct_keypresses,
        }
    }

    /// What the test measured, once it is finished.
    pub fn result(&self) -> (r: Option<TestResult>)
        requires
            self.wf(),
        ensures
            r == if self@.is_finished() {
                Some(self@.outcome())
            } else {
                None
            },
    {
        match self.finished_at {
            None => None,
            Some(finished) => {
                proof {
                    assert(self@.input.len() == 0);
                    lemma_score_bound(self@.word(), self@.input, false);
                }
                let m = self.metrics_at(finished);
                Some(
                    TestResult {
                        mode: self.mode,
                        elapsed_ms: m.elapsed / NANOS_PER_MILLI,
                        elapsed: m.elapsed,
                        correct_chars: m.correct_chars,
                        incorrect_chars: m.incorrect_chars,
                        typed_chars: m.typed_chars,
                        correct_keypresses: m.correct_keypresses,
                    },
                )
            },
        }
    }
}

} // verus!
