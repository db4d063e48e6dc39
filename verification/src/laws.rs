//! Properties of the library that span operations or hold of every state.
use vstd::prelude::*;

use crate::app::{adjusted_mode, fresh, is_interrupt, mode_value, AppState, KeyCode, KeyPress, View};
use crate::engine::{
    lemma_matching_bound, lemma_score_bound, lemma_steps_wf, matching, sat_sub, score, test_length, EngineState, InputKey,
};
use crate::layout::{
    centered_at, flatten, lemma_wrap, lemma_word_on_its_row, min_u16, row_of, visible_rows, wrap,
    word_marks, Mark, MarkedChar, Rect,
};
use crate::model::{is_preset, preset_index, presets, Mode};
use crate::text::{decimal, is_control, lemma_decimal_injective};

verus! {

/// Every key and every tick keeps the engine in a reachable state; in
/// particular the correct keypresses never outnumber the keypresses, so
/// accuracy never exceeds 100%.
pub proof fn law_steps_keep_wf(s: EngineState, key: InputKey, now: nat)
    requires
        s.wf(),
    ensures
        s.key(key, now).wf(),
        s.tick(now).wf(),
        s.key(key, now).correct_keypresses <= s.key(key, now).printable_keys,
{
    lemma_steps_wf(s, key, now);
}

/// A finished test ignores keys and the clock.
pub proof fn law_finished_is_final(s: EngineState, key: InputKey, now: nat)
    requires
        s.is_finished(),
    ensures
        s.key(key, now) == s,
        s.tick(now) == s,
{
}

/// Backspace only edits the input: no counter, no word and no clock
/// changes, so the penalty of a wrong keypress stays.
pub proof fn law_backspace_keeps_counters(s: EngineState, now: nat)
    ensures
        s.key(InputKey::Backspace, now) == (EngineState {
            input: s.key(InputKey::Backspace, now).input,
            ..s
        }),
        !s.is_finished() ==> s.key(InputKey::Backspace, now).input == if s.input.len() > 0 {
            s.input.drop_last()
        } else {
            s.input
        },
{
}

/// The clock starts with the first printable character and with nothing
/// else, at the moment of that key.
pub proof fn law_clock_starts_on_first_character(s: EngineState, key: InputKey, now: nat)
    requires
        s.wf(),
        !s.is_started(),
    ensures
        s.key(key, now).is_started() <==> (key matches InputKey::Char(c) && c != ' '
            && !is_control(c)),
        s.key(key, now).is_started() ==> s.key(key, now).started_at == Some(now),
{
}

/// Keys and ticks never decrease a counter, never change the words, and
/// never rewrite a submitted word.
pub proof fn law_counters_grow(s: EngineState, key: InputKey, now: nat)
    ensures
        s.key(key, now).printable_keys >= s.printable_keys,
        s.key(key, now).correct_keypresses >= s.correct_keypresses,
        s.key(key, now).committed_correct >= s.committed_correct,
        s.key(key, now).committed_incorrect >= s.committed_incorrect,
        s.key(key, now).words == s.words,
        s.key(key, now).submitted.subrange(0, s.submitted.len() as int) == s.submitted,
        s.tick(now).committed_correct >= s.committed_correct,
        s.tick(now).committed_incorrect >= s.committed_incorrect,
        s.tick(now).printable_keys == s.printable_keys,
        s.tick(now).words == s.words,
        s.tick(now).submitted.subrange(0, s.submitted.len() as int) == s.submitted,
{
    assert(s.submitted.push(s.input).subrange(0, s.submitted.len() as int) =~= s.submitted);
    assert(s.submitted.subrange(0, s.submitted.len() as int) =~= s.submitted);
}

/// Every printable key counts as exactly one typed character.
pub proof fn law_printable_key_counts_once(s: EngineState, c: char, now: nat)
    requires
        !s.is_finished(),
        !is_control(c),
        c != ' ' || s.input.len() > 0,
    ensures
        s.key(InputKey::Char(c), now).printable_keys == s.printable_keys + 1,
{
}

/// A space submits a non-empty input: it joins the submitted words, the
/// input is cleared, and the next word becomes current unless the current
/// word is the last one.
pub proof fn law_space_submits(s: EngineState, now: nat)
    requires
        s.wf(),
        !s.is_finished(),
        s.input.len() > 0,
    ensures
        s.key(InputKey::Char(' '), now).submitted == s.submitted.push(s.input),
        s.key(InputKey::Char(' '), now).input.len() == 0,
        s.key(InputKey::Char(' '), now).current_word == if s.current_word + 1 < s.words.len() {
            s.current_word + 1
        } else {
            s.current_word
        },
{
}

/// Every typed character is correct or incorrect; missing characters are
/// added to the incorrect ones only when asked for.
pub proof fn law_score_partition(expected: Seq<char>, typed: Seq<char>)
    ensures
        score(expected, typed, false).0 + score(expected, typed, false).1 == typed.len(),
        score(expected, typed, true).0 == score(expected, typed, false).0,
        score(expected, typed, true).1 == score(expected, typed, false).1 + if expected.len()
            > typed.len() {
            expected.len() - typed.len()
        } else {
            0
        },
{
    lemma_matching_bound(expected, typed, typed.len());
}

proof fn lemma_matching_same(w: Seq<char>, n: nat)
    requires
        n <= w.len(),
    ensures
        matching(w, w, n) == n,
    decreases n,
{
    if n > 0 {
        lemma_matching_same(w, (n - 1) as nat);
    }
}

/// A word typed exactly scores all its characters correct and none incorrect.
pub proof fn law_exact_word_is_all_correct(word: Seq<char>)
    ensures
        score(word, word, true) == (word.len(), 0nat),
{
    lemma_matching_same(word, word.len());
}

/// A started timed test whose length has passed finishes exactly at its
/// deadline, and its elapsed time is then its length.
pub proof fn law_timed_test_ends_at_deadline(s: EngineState, seconds: u16, now: nat)
    requires
        s.wf(),
        s.mode == Mode::Timed(seconds),
        s.started_at is Some,
        !s.is_finished(),
        sat_sub(now, s.started_at->0) >= test_length(seconds),
    ensures
        s.tick(now).finished_at == Some(s.started_at->0 + test_length(seconds)),
        forall|later: nat| #[trigger] s.tick(now).elapsed(later) == test_length(seconds),
        s.tick(now).input.len() == 0,
{
}

/// Before the deadline a timed test keeps running, and the time left and
/// the time spent add up to its length.
pub proof fn law_timed_test_runs_until_deadline(s: EngineState, seconds: u16, now: nat)
    requires
        s.mode == Mode::Timed(seconds),
        s.started_at is Some,
        !s.is_finished(),
        now >= s.started_at->0,
        sat_sub(now, s.started_at->0) < test_length(seconds),
    ensures
        s.tick(now) == s,
        s.remaining(now) matches Some(left) && left + s.elapsed(now) == test_length(seconds),
{
}

/// A word test ends when its last counted word is typed exactly, with no
/// space needed.
pub proof fn law_word_test_ends_on_exact_last_word(
    s: EngineState,
    target: u16,
    c: char,
    now: nat,
)
    requires
        s.wf(),
        s.mode == Mode::Words(target),
        !s.is_finished(),
        c != ' ',
        !is_control(c),
        s.current_word + 1 == target,
        s.input.push(c) == s.word(),
    ensures
        s.key(InputKey::Char(c), now).is_finished(),
        s.key(InputKey::Char(c), now).submitted == s.submitted.push(s.word()),
{
}

/// A word test also ends when its last counted word is submitted, typed
/// right or not.
pub proof fn law_word_test_ends_on_last_submit(s: EngineState, target: u16, now: nat)
    requires
        s.wf(),
        s.mode == Mode::Words(target),
        !s.is_finished(),
        s.input.len() > 0,
        s.current_word + 1 == target,
    ensures
        s.key(InputKey::Char(' '), now).is_finished(),
{
}

/// Moving the length setting one way and then back returns to the length
/// that was shown, when that length is one of those offered.
pub proof fn law_adjust_is_undone(mode: Mode, row: usize, direction: int)
    requires
        row != 0,
        is_preset(mode is Timed, mode_value(mode)),
    ensures
        adjusted_mode(adjusted_mode(mode, row, direction), row, -direction) == mode,
{
    let timed = mode is Timed;
    let p = presets(timed);
    let i = preset_index(timed, mode_value(mode));
    let j = (i + direction) % 4;
    let m2 = adjusted_mode(mode, row, direction);
    assert(mode_value(m2) == p[j]);
    assert(preset_index(timed, p[j]) == j);
    assert((j + (-direction)) % 4 == i) by (nonlinear_arith)
        requires
            j == (i + direction) % 4,
            0 <= i < 4,
    ;
}

/// The length setting only ever shows an offered length of the same kind.
pub proof fn law_adjust_lands_on_preset(mode: Mode, row: usize, direction: int)
    requires
        row != 0,
    ensures
        adjusted_mode(mode, row, direction) is Timed == mode is Timed,
        is_preset(mode is Timed, mode_value(adjusted_mode(mode, row, direction))),
{
}

/// The kind setting switches between a 30-second test and a 25-word test.
pub proof fn law_kind_toggles(mode: Mode, direction: int)
    ensures
        adjusted_mode(mode, 0, direction) is Timed != mode is Timed,
        adjusted_mode(adjusted_mode(mode, 0, direction), 0, direction) == match mode {
            Mode::Timed(_) => Mode::Timed(30),
            Mode::Words(_) => Mode::Words(25),
        },
{
}

/// Laid out in rows, the words appear in order, each exactly once.
pub proof fn law_rows_hold_every_word_once(words: Seq<Seq<char>>, width: nat)
    ensures
        flatten(wrap(words, width, words.len()).0) == Seq::new(
            words.len(),
            |i: int| i as usize,
        ),
{
    lemma_wrap(words, width, words.len());
}

/// The rows shown never outnumber the rows of the area, and one of them
/// holds the current word.
pub proof fn law_current_word_is_visible(s: EngineState, width: nat, height: nat)
    requires
        s.wf(),
        height >= 1,
    ensures
        visible_rows(s, width, height).len() <= height,
        exists|r: int|
            0 <= r < visible_rows(s, width, height).len() && (#[trigger] visible_rows(
                s,
                width,
                height,
            )[r]).contains(s.current_word as usize),
{
    lemma_word_on_its_row(s.words, width, s.current_word, s.words.len());
    let rows = wrap(s.words, width, s.words.len()).0;
    let active = row_of(s.words, width, s.current_word);
    let start = if active >= height / 2 {
        active - height / 2
    } else {
        0
    };
    assert(visible_rows(s, width, height)[active - start] == rows[active]);
}

/// A centred rectangle never leaves its parent.
pub proof fn law_centered_stays_inside(area: Rect, height: u16, width: u16)
    ensures
        ({
            let (x, y) = centered_at(area, height, width);
            &&& area.x <= x
            &&& x + min_u16(width, area.width) <= area.x + area.width
            &&& area.y <= y
            &&& y + min_u16(height, area.height) <= area.y + area.height
        }),
{
}

/// Control-C quits from every screen and changes nothing else.
pub proof fn law_interrupt_quits(s: AppState, next: AppState, key: KeyPress, now: nat)
    requires
        s.key_transition(next, key, now),
        is_interrupt(key),
    ensures
        next == (AppState { should_quit: true, ..s }),
{
}

/// Tab opens the settings before typing starts, and does nothing once it has.
pub proof fn law_tab_opens_settings_before_typing(
    s: AppState,
    next: AppState,
    key: KeyPress,
    now: nat,
)
    requires
        s.view == View::Test,
        key.code == KeyCode::Tab,
        s.key_transition(next, key, now),
    ensures
        !s.engine.is_started() ==> next.view == View::Settings && next.settings_mode
            == s.config.mode && next.engine == s.engine,
        s.engine.is_started() ==> next == s,
{
}

/// Control-R on the test screen starts a new test in the same mode.
pub proof fn law_ctrl_r_restarts(s: AppState, next: AppState, alt: bool, now: nat)
    requires
        s.view == View::Test,
        s.key_transition(next, KeyPress { code: KeyCode::Char('r'), control: true, alt }, now),
    ensures
        fresh(next.engine, s.active_mode),
        next.view == View::Test,
        next.last_result is None,
        next.config == s.config,
        next.active_mode == s.active_mode,
{
}

/// Saving the settings makes the edited mode the saved default and the
/// active mode, and starts a test in it.
pub proof fn law_enter_saves_settings(s: AppState, next: AppState, key: KeyPress, now: nat)
    requires
        s.view == View::Settings,
        key.code == KeyCode::Enter,
        s.key_transition(next, key, now),
    ensures
        next.config.mode == s.settings_mode,
        next.active_mode == s.settings_mode,
        next.config_dirty,
        next.view == View::Test,
        fresh(next.engine, s.settings_mode),
{
}

/// Leaving the settings with Escape keeps the saved and the active mode.
pub proof fn law_escape_discards_settings(s: AppState, next: AppState, key: KeyPress, now: nat)
    requires
        s.view == View::Settings,
        key.code == KeyCode::Esc,
        s.key_transition(next, key, now),
    ensures
        next.config == s.config,
        next.active_mode == s.active_mode,
        next.config_dirty == s.config_dirty,
        next.engine == s.engine,
{
}

/// A test that finishes on the test screen moves to the results and hands
/// back its result exactly once.
pub proof fn law_finished_test_is_reported_once(s: AppState)
    requires
        s.view == View::Test,
        s.engine.is_finished(),
    ensures
        s.completed().1 == Some(s.engine.outcome()),
        s.completed().0.view == View::Results,
        s.completed().0.last_result == Some(s.engine.outcome()),
        s.completed().0.stats_dirty,
        s.completed().0.completed().1 is None,
{
}

/// Each mode has a personal-best key of its own: a timed test and a word
/// test never share one, and neither do two lengths.
pub proof fn law_mode_keys_differ(m1: Mode, m2: Mode)
    ensures
        m1.key_text() == m2.key_text() <==> m1 == m2,
{
    reveal_strlit("time:");
    reveal_strlit("words:");
    if m1.key_text() == m2.key_text() {
        let k = m1.key_text();
        match m1 {
            Mode::Timed(a) => match m2 {
                Mode::Timed(b) => {
                    assert(decimal(a as nat) =~= k.subrange(5, k.len() as int));
                    assert(decimal(b as nat) =~= k.subrange(5, k.len() as int));
                    lemma_decimal_injective(a as nat, b as nat);
                },
                Mode::Words(b) => {
                    assert(m1.key_text()[0] == 't');
                    assert(m2.key_text()[0] == 'w');
                },
            },
            Mode::Words(a) => match m2 {
                Mode::Words(b) => {
                    assert(decimal(a as nat) =~= k.subrange(6, k.len() as int));
                    assert(decimal(b as nat) =~= k.subrange(6, k.len() as int));
                    lemma_decimal_injective(a as nat, b as nat);
                },
                Mode::Timed(b) => {
                    assert(m1.key_text()[0] == 'w');
                    assert(m2.key_text()[0] == 't');
                },
            },
        }
    }
}

/// A test that has not started shows no time spent and no characters.
pub proof fn law_unstarted_counts_nothing(s: EngineState, now: nat)
    requires
        s.wf(),
        !s.is_started(),
    ensures
        s.elapsed(now) == 0,
        s.correct_chars() == 0,
        s.incorrect_chars() == 0,
        s.printable_keys == 0,
        s.correct_keypresses == 0,
{
}

/// Correct characters never outnumber typed characters, so the speed
/// never exceeds the raw speed.
pub proof fn law_correct_chars_within_typed(s: EngineState)
    requires
        s.wf(),
    ensures
        s.correct_chars() <= s.printable_keys,
{
    lemma_score_bound(s.word(), s.input, false);
}

/// A printable character other than space that does not end the test is
/// appended to the input and counted, the clock runs, and the word and the
/// submitted words stay.
pub proof fn law_printable_character_appends(s: EngineState, c: char, now: nat)
    requires
        s.wf(),
        !s.is_finished(),
        c != ' ',
        !is_control(c),
        !(s.mode matches Mode::Words(n) && s.current_word + 1 == n && s.input.push(c) == s.word()),
    ensures
        s.key(InputKey::Char(c), now).is_started(),
        !s.key(InputKey::Char(c), now).is_finished(),
        s.key(InputKey::Char(c), now).input == s.input.push(c),
        s.key(InputKey::Char(c), now).submitted == s.submitted,
        s.key(InputKey::Char(c), now).current_word == s.current_word,
        s.key(InputKey::Char(c), now).printable_keys == s.printable_keys + 1,
        s.key(InputKey::Char(c), now).committed_correct == s.committed_correct,
        s.key(InputKey::Char(c), now).committed_incorrect == s.committed_incorrect,
{
}

/// A space on a non-empty input starts the clock if needed, counts as a
/// keypress, and ends a word test exactly on its last counted word.
pub proof fn law_space_counts_and_ends_word_tests(s: EngineState, now: nat)
    requires
        s.wf(),
        !s.is_finished(),
        s.input.len() > 0,
    ensures
        s.key(InputKey::Char(' '), now).is_started(),
        s.key(InputKey::Char(' '), now).printable_keys == s.printable_keys + 1,
        s.key(InputKey::Char(' '), now).is_finished() <==> (s.mode matches Mode::Words(n)
            && s.current_word + 1 == n),
{
}

/// No key takes the position back, undoes a start or a finish, or moves
/// the start of the clock.
pub proof fn law_keys_only_move_forward(s: EngineState, key: InputKey, now: nat)
    requires
        s.wf(),
    ensures
        s.key(key, now).current_word >= s.current_word,
        s.is_finished() ==> s.key(key, now).is_finished(),
        s.is_started() ==> s.key(key, now).started_at == s.started_at,
        s.is_started() ==> forall|t: nat| #[trigger] s.key(key, now).remaining(t) == s.remaining(t),
{
}

/// A tick finishes a started timed test exactly when its length has
/// passed; otherwise it changes nothing. A finishing tick keeps the current
/// word.
pub proof fn law_tick_finishes_exactly_at_length(s: EngineState, seconds: u16, now: nat)
    requires
        s.wf(),
        s.mode == Mode::Timed(seconds),
        s.started_at is Some,
        !s.is_finished(),
    ensures
        s.tick(now).is_finished() <==> sat_sub(now, s.started_at->0) >= test_length(seconds),
        !s.tick(now).is_finished() ==> s.tick(now) == s,
        s.tick(now).current_word == s.current_word,
{
}

/// The positions at which `typed` holds the character that `expected`
/// holds there.
pub open spec fn agreeing_positions(expected: Seq<char>, typed: Seq<char>) -> Set<int> {
    Set::new(|i: int| 0 <= i < typed.len() && i < expected.len() && typed[i] == expected[i])
}

/// The agreeing positions below `n`, counted one position at a time.
proof fn lemma_agreeing_below(expected: Seq<char>, typed: Seq<char>, n: nat)
    requires
        n <= typed.len(),
    ensures
        ({
            let below = Set::new(
                |i: int| 0 <= i < n && i < expected.len() && typed[i] == expected[i],
            );
            below.finite() && below.len() == matching(expected, typed, n)
        }),
    decreases n,
{
    let below = Set::new(|i: int| 0 <= i < n && i < expected.len() && typed[i] == expected[i]);
    if n == 0 {
        assert(below =~= Set::empty());
    } else {
        let m = (n - 1) as nat;
        lemma_agreeing_below(expected, typed, m);
        let prev = Set::new(|i: int| 0 <= i < m && i < expected.len() && typed[i] == expected[i]);
        if m < expected.len() && typed[m as int] == expected[m as int] {
            assert(below =~= prev.insert(m as int));
            assert(!prev.contains(m as int));
        } else {
            assert(below =~= prev);
        }
    }
}

/// The correct characters of a typed word are exactly the positions at
/// which it holds the expected character; every other typed character,
/// wrong or beyond the end of the word, is incorrect.
pub proof fn law_correct_characters_are_agreeing_positions(
    expected: Seq<char>,
    typed: Seq<char>,
    count_missing: bool,
)
    ensures
        agreeing_positions(expected, typed).finite(),
        score(expected, typed, count_missing).0 == agreeing_positions(expected, typed).len(),
        score(expected, typed, false).1 == typed.len() - agreeing_positions(expected, typed).len(),
{
    lemma_agreeing_below(expected, typed, typed.len());
    assert(agreeing_positions(expected, typed) =~= Set::new(
        |i: int| 0 <= i < typed.len() && i < expected.len() && typed[i] == expected[i],
    ));
    lemma_matching_bound(expected, typed, typed.len());
}

/// The correct characters of a test so far: those of the submitted words
/// and the agreeing positions of the input.
pub proof fn law_correct_chars_count_agreeing_input(s: EngineState)
    ensures
        s.correct_chars() == s.committed_correct + agreeing_positions(s.word(), s.input).len(),
        s.incorrect_chars() == s.committed_incorrect + s.input.len() - agreeing_positions(
            s.word(),
            s.input,
        ).len(),
{
    law_correct_characters_are_agreeing_positions(s.word(), s.input, false);
}

/// A printable character other than space is a correct keypress exactly
/// when the input has not yet reached the end of the current word and the
/// word holds that character at the input's position; a key beyond the end
/// of the word, or a different character, is not.
pub proof fn law_keypress_is_correct_exactly_on_expected_character(
    s: EngineState,
    c: char,
    now: nat,
)
    requires
        !s.is_finished(),
        c != ' ',
        !is_control(c),
    ensures
        s.key(InputKey::Char(c), now).correct_keypresses == s.correct_keypresses + if s.input.len()
            < s.word().len() && s.word()[s.input.len() as int] == c {
            1nat
        } else {
            0nat
        },
{
}

/// A space that submits a word is a correct keypress, and a correct
/// character, exactly when the input equals the current word; otherwise it
/// is an incorrect character. The submitted word's characters are scored
/// by their agreeing positions, with the untyped rest of the word incorrect.
pub proof fn law_space_is_correct_exactly_on_exact_word(s: EngineState, now: nat)
    requires
        !s.is_finished(),
        s.input.len() > 0,
    ensures
        s.key(InputKey::Char(' '), now).correct_keypresses == s.correct_keypresses + if s.input
            == s.word() {
            1nat
        } else {
            0nat
        },
        s.key(InputKey::Char(' '), now).committed_correct == s.committed_correct
            + agreeing_positions(s.word(), s.input).len() + if s.input == s.word() {
            1nat
        } else {
            0nat
        },
        s.key(InputKey::Char(' '), now).committed_incorrect == s.committed_incorrect + s.input.len()
            - agreeing_positions(s.word(), s.input).len() + (if s.word().len() > s.input.len() {
            s.word().len() - s.input.len()
        } else {
            0
        }) + if s.input == s.word() {
            0nat
        } else {
            1nat
        },
{
    law_correct_characters_are_agreeing_positions(s.word(), s.input, true);
    law_correct_characters_are_agreeing_positions(s.word(), s.input, false);
    law_score_partition(s.word(), s.input);
}

/// Each typed character of a word, submitted or being typed, is drawn over
/// the expected character as correct exactly when it equals that character,
/// and as an error otherwise.
pub proof fn law_typed_characters_are_marked_by_equality(
    expected: Seq<char>,
    typed: Seq<char>,
    submitted: bool,
    active: bool,
    position: int,
)
    requires
        0 <= position < typed.len(),
        position < expected.len(),
    ensures
        word_marks(expected, typed, submitted, active)[position] == (MarkedChar {
            ch: expected[position],
            mark: if typed[position] == expected[position] {
                Mark::Correct
            } else {
                Mark::Error
            },
        }),
{
}

/// Outside the test screen, `q` quits and changes nothing else; so does
/// Escape on the test and results screens.
pub proof fn law_q_quits_outside_the_test(s: AppState, next: AppState, key: KeyPress, now: nat)
    requires
        s.key_transition(next, key, now),
        (s.view != View::Test && key.code == KeyCode::Char('q')) || ((s.view == View::Test
            || s.view == View::Results) && key.code == KeyCode::Esc),
    ensures
        next == (AppState { should_quit: true, ..s }),
{
}

/// The rest of a drawn word: untyped expected characters are missed in a
/// submitted word, the cursor sits on the next one of the word being typed,
/// and the others are pending; typed characters beyond the end of the word
/// are extra; the closing space is correct only after the exact word was
/// submitted, an error after any other submission, and the cursor once the
/// word being typed is complete.
pub proof fn law_untyped_extra_and_space_marks(
    expected: Seq<char>,
    typed: Seq<char>,
    submitted: bool,
    active: bool,
)
    ensures
        word_marks(expected, typed, submitted, active).len() == (if typed.len() > expected.len() {
            typed.len()
        } else {
            expected.len()
        }) + 1,
        forall|p: int|
            typed.len() <= p < expected.len() ==> #[trigger] word_marks(
                expected,
                typed,
                submitted,
                active,
            )[p] == (MarkedChar {
                ch: expected[p],
                mark: if submitted {
                    Mark::Missed
                } else if active && p == typed.len() {
                    Mark::Cursor
                } else {
                    Mark::Pending
                },
            }),
        forall|p: int|
            expected.len() <= p < typed.len() ==> #[trigger] word_marks(
                expected,
                typed,
                submitted,
                active,
            )[p] == (MarkedChar { ch: typed[p], mark: Mark::Extra }),
        word_marks(expected, typed, submitted, active).last() == (MarkedChar {
            ch: ' ',
            mark: if submitted {
                if typed == expected {
                    Mark::Correct
                } else {
                    Mark::Error
                }
            } else if active && typed.len() >= expected.len() {
                Mark::Cursor
            } else {
                Mark::Pending
            },
        }),
{
}

/// When a timed test runs out, the word being typed is scored by its
/// agreeing positions, without counting its untyped rest, and joins the
/// submitted words if anything was typed; no keypress is added.
pub proof fn law_timeout_scores_partial_word(s: EngineState, seconds: u16, now: nat)
    requires
        s.mode == Mode::Timed(seconds),
        s.started_at is Some,
        !s.is_finished(),
        sat_sub(now, s.started_at->0) >= test_length(seconds),
    ensures
        s.tick(now).committed_correct == s.committed_correct + agreeing_positions(
            s.word(),
            s.input,
        ).len(),
        s.tick(now).committed_incorrect == s.committed_incorrect + s.input.len()
            - agreeing_positions(s.word(), s.input).len(),
        s.tick(now).printable_keys == s.printable_keys,
        s.tick(now).correct_keypresses == s.correct_keypresses,
        s.tick(now).submitted == if s.input.len() == 0 {
            s.submitted
        } else {
            s.submitted.push(s.input)
        },
{
    law_correct_characters_are_agreeing_positions(s.word(), s.input, false);
    if s.input.len() == 0 {
        assert(agreeing_positions(s.word(), s.input) =~= Set::empty());
    }
}

} // verus!
