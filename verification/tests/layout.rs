use typetty::engine::{Engine, InputKey};
use typetty::layout::{centered, visible_word_lines, word_spans, Mark, MarkedChar, Rect};
use typetty::model::Mode;

#[test]
fn centers_without_escaping_parent() {
    let parent = Rect::new(5, 7, 20, 10);
    assert_eq!(centered(parent, 4, 10), Rect::new(10, 10, 10, 4));
    assert_eq!(centered(parent, 40, 50), parent);
}

#[test]
fn current_word_remains_in_visible_rows() {
    let words = (0..50).map(|_| "hello".to_owned()).collect();
    let mut engine = Engine::new(Mode::Timed(30), words);
    let now = 1;
    for _ in 0..20 {
        for character in "hello ".chars() {
            engine.handle_key_at(InputKey::Char(character), now);
        }
    }
    let lines = visible_word_lines(&engine, 20, 3);
    assert_eq!(lines.len(), 3);
    assert!(lines.iter().any(|row| row.contains(&20)));
}

#[test]
fn rows_wrap_words_in_order() {
    let words = vec!["ab".into(), "cde".into(), "f".into(), "ghij".into()];
    let engine = Engine::new(Mode::Timed(30), words);
    // widths 3, 4, 2, 5 in rows of 7 cells
    assert_eq!(visible_word_lines(&engine, 7, 10), vec![vec![0, 1], vec![2, 3]]);
    assert_eq!(visible_word_lines(&engine, 0, 0), vec![vec![0]]);
    assert_eq!(visible_word_lines(&engine, 100, 1), vec![vec![0, 1, 2, 3]]);
    assert_eq!(visible_word_lines(&engine, 6, 10), vec![vec![0], vec![1, 2], vec![3]]);
}

fn marks(v: &[MarkedChar]) -> Vec<Mark> {
    v.iter().map(|m| m.mark).collect()
}

#[test]
fn word_marks_show_typing_state() {
    let mut engine = Engine::new(Mode::Timed(30), vec!["cat".into(), "dog".into(), "sun".into()]);
    for c in "cxt do".chars() {
        engine.handle_key_at(InputKey::Char(c), 1);
    }
    let first = word_spans(&engine, 0);
    assert_eq!(first.iter().map(|m| m.ch).collect::<String>(), "cat ");
    assert_eq!(marks(&first), vec![Mark::Correct, Mark::Error, Mark::Correct, Mark::Error]);
    let second = word_spans(&engine, 1);
    assert_eq!(marks(&second), vec![Mark::Correct, Mark::Correct, Mark::Cursor, Mark::Pending]);
    let third = word_spans(&engine, 2);
    assert_eq!(marks(&third), vec![Mark::Pending; 4]);
}

#[test]
fn word_marks_show_missed_and_extra_characters() {
    let mut engine = Engine::new(Mode::Timed(30), vec!["cat".into(), "dog".into()]);
    for c in "c dogs".chars() {
        engine.handle_key_at(InputKey::Char(c), 1);
    }
    assert_eq!(
        marks(&word_spans(&engine, 0)),
        vec![Mark::Correct, Mark::Missed, Mark::Missed, Mark::Error]
    );
    let second = word_spans(&engine, 1);
    assert_eq!(second.iter().map(|m| m.ch).collect::<String>(), "dogs ");
    assert_eq!(
        marks(&second),
        vec![Mark::Correct, Mark::Correct, Mark::Correct, Mark::Extra, Mark::Cursor]
    );
}

#[test]
fn correct_submitted_word_has_correct_space() {
    let mut engine = Engine::new(Mode::Timed(30), vec!["cat".into(), "dog".into()]);
    for c in "cat ".chars() {
        engine.handle_key_at(InputKey::Char(c), 1);
    }
    assert_eq!(marks(&word_spans(&engine, 0)), vec![Mark::Correct; 4]);
}
