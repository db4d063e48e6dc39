use typetty::engine::{Engine, InputKey, Metrics, TestResult, NANOS_PER_SECOND};
use typetty::model::Mode;

const START: u64 = 5 * NANOS_PER_SECOND;

fn engine(mode: Mode) -> Engine {
    Engine::new(mode, vec!["cat".into(), "dog".into(), "sun".into()])
}

fn type_text(engine: &mut Engine, text: &str, now: u64) {
    for character in text.chars() {
        engine.handle_key_at(InputKey::Char(character), now);
    }
}

fn minutes(elapsed: u64) -> f64 {
    let secs = (elapsed / NANOS_PER_SECOND) as f64 + (elapsed % NANOS_PER_SECOND) as f64 / 1e9;
    secs / 60.0
}

fn accuracy(typed: u64, correct: u64) -> f64 {
    if typed > 0 {
        correct as f64 / typed as f64 * 100.0
    } else {
        100.0
    }
}

fn metrics_accuracy(m: &Metrics) -> f64 {
    accuracy(m.typed_chars, m.correct_keypresses)
}

fn result_wpm(r: &TestResult) -> f64 {
    let minutes = minutes(r.elapsed);
    if minutes > 0.0 {
        r.correct_chars as f64 / 5.0 / minutes
    } else {
        0.0
    }
}

#[test]
fn starts_on_first_printable_character_not_backspace() {
    let now = START;
    let mut test = engine(Mode::Timed(30));
    test.handle_key_at(InputKey::Backspace, now);
    assert!(!test.is_started());
    test.handle_key_at(InputKey::Char('c'), now);
    assert!(test.is_started());
}

#[test]
fn backspace_edits_but_preserves_accuracy_penalty() {
    let start = START;
    let mut test = engine(Mode::Timed(30));
    type_text(&mut test, "cx", start);
    test.handle_key_at(InputKey::Backspace, start);
    test.handle_key_at(InputKey::Char('a'), start);
    let metrics = test.metrics_at(start + NANOS_PER_SECOND);
    assert_eq!(test.current_input(), "ca");
    assert_eq!(metrics.typed_chars, 3);
    assert!((metrics_accuracy(&metrics) - 66.666).abs() < 0.01);
}

#[test]
fn space_submits_and_counts_missing_characters() {
    let start = START;
    let mut test = engine(Mode::Timed(30));
    type_text(&mut test, "ca ", start);
    assert_eq!(test.current_word_index(), 1);
    let metrics = test.metrics_at(start + NANOS_PER_SECOND);
    assert_eq!(metrics.correct_chars, 2);
    assert_eq!(metrics.incorrect_chars, 2);
}

#[test]
fn word_test_finishes_when_last_word_matches() {
    let start = START;
    let mut test = Engine::new(Mode::Words(2), vec!["cat".into(), "dog".into()]);
    type_text(&mut test, "cat dog", start);
    assert!(test.is_finished());
    assert_eq!(test.result().unwrap().correct_chars, 7);
}

#[test]
fn word_test_can_finish_with_an_incorrect_last_word() {
    let start = START;
    let mut test = Engine::new(Mode::Words(2), vec!["cat".into(), "dog".into()]);
    type_text(&mut test, "cat dig ", start);
    assert!(test.is_finished());
    let result = test.result().unwrap();
    assert!(result.incorrect_chars > 0);
    assert!(accuracy(result.typed_chars, result.correct_keypresses) < 100.0);
}

#[test]
fn timed_test_finishes_at_exact_deadline() {
    let start = START;
    let mut test = engine(Mode::Timed(15));
    type_text(&mut test, "cat", start);
    test.tick_at(start + 20 * NANOS_PER_SECOND);
    let result = test.result().unwrap();
    assert_eq!(result.elapsed_ms, 15_000);
    assert!((result_wpm(&result) - 2.4).abs() < f64::EPSILON);
}

#[test]
fn finished_test_ignores_keys_and_ticks() {
    let mut test = Engine::new(Mode::Words(1), vec!["cat".into(), "dog".into()]);
    type_text(&mut test, "cat", START);
    assert!(test.is_finished());
    let before = test.result().unwrap();
    type_text(&mut test, "dog ", START + NANOS_PER_SECOND);
    test.handle_key_at(InputKey::Backspace, START + NANOS_PER_SECOND);
    test.tick_at(START + 100 * NANOS_PER_SECOND);
    assert_eq!(test.result().unwrap(), before);
    assert_eq!(test.submitted().len(), 1);
    assert_eq!(test.submitted()[0].typed, "cat");
}

#[test]
fn control_characters_and_leading_spaces_are_ignored() {
    let mut test = engine(Mode::Timed(30));
    test.handle_key_at(InputKey::Char('\u{7}'), START);
    test.handle_key_at(InputKey::Char(' '), START);
    assert!(!test.is_started());
    assert_eq!(test.metrics_at(START).typed_chars, 0);
    assert_eq!(test.current_word_index(), 0);
    test.handle_key_at(InputKey::Char('c'), START + 7);
    test.handle_key_at(InputKey::Char('\u{1b}'), START + 9);
    assert_eq!(test.current_input(), "c");
    assert_eq!(test.metrics_at(START + 9).elapsed, 2);
}

#[test]
fn correct_word_space_counts_as_correct_character() {
    let mut test = engine(Mode::Timed(30));
    type_text(&mut test, "cat ", START);
    let m = test.metrics_at(START);
    assert_eq!(m.correct_chars, 4);
    assert_eq!(m.incorrect_chars, 0);
    assert_eq!(m.typed_chars, 4);
    assert_eq!(m.correct_keypresses, 4);
    assert_eq!(test.submitted()[0].typed, "cat");
}

#[test]
fn extra_characters_are_incorrect() {
    let mut test = engine(Mode::Timed(30));
    type_text(&mut test, "cats", START);
    let m = test.metrics_at(START);
    assert_eq!(m.correct_chars, 3);
    assert_eq!(m.incorrect_chars, 1);
    type_text(&mut test, " ", START);
    let m = test.metrics_at(START);
    assert_eq!(m.correct_chars, 3);
    assert_eq!(m.incorrect_chars, 2);
}

#[test]
fn last_word_stays_current_in_timed_test() {
    let mut test = engine(Mode::Timed(30));
    type_text(&mut test, "cat dog sun sun ", START);
    assert_eq!(test.current_word_index(), 2);
    assert_eq!(test.submitted().len(), 4);
    assert!(!test.is_finished());
}

#[test]
fn remaining_time_counts_down_and_stops_at_zero() {
    let mut test = engine(Mode::Timed(15));
    assert_eq!(test.remaining_at(START), Some(15 * NANOS_PER_SECOND));
    type_text(&mut test, "c", START);
    assert_eq!(test.remaining_at(START + 4 * NANOS_PER_SECOND), Some(11 * NANOS_PER_SECOND));
    assert_eq!(test.remaining_at(START + 40 * NANOS_PER_SECOND), Some(0));
    assert_eq!(test.remaining_at(START - 1), Some(15 * NANOS_PER_SECOND));
    let words = Engine::new(Mode::Words(10), vec!["a".into()]);
    assert_eq!(words.remaining_at(START), None);
}

#[test]
fn tick_before_deadline_keeps_running() {
    let mut test = engine(Mode::Timed(15));
    test.tick_at(START + 100 * NANOS_PER_SECOND);
    assert!(!test.is_finished());
    type_text(&mut test, "ca", START);
    test.tick_at(START + 15 * NANOS_PER_SECOND - 1);
    assert!(!test.is_finished());
    assert!(test.result().is_none());
    test.tick_at(START + 15 * NANOS_PER_SECOND);
    let r = test.result().unwrap();
    assert_eq!(r.elapsed, 15 * NANOS_PER_SECOND);
    assert_eq!(r.correct_chars, 2);
    assert_eq!(r.incorrect_chars, 0);
    assert_eq!(test.submitted()[0].typed, "ca");
    assert_eq!(test.current_input(), "");
}

#[test]
fn unicode_words_are_scored_by_character() {
    let mut test = Engine::new(Mode::Timed(30), vec!["héllo".into(), "wörld".into()]);
    type_text(&mut test, "hé", START);
    let m = test.metrics_at(START);
    assert_eq!(m.correct_chars, 2);
    assert_eq!(m.correct_keypresses, 2);
    assert_eq!(test.words()[1], "wörld");
}

#[test]
fn headroom_is_available_on_a_fresh_engine() {
    let test = engine(Mode::Timed(30));
    assert!(test.has_headroom());
}
