use typetty::app::{App, KeyCode, KeyPress, View, TIMED_WORD_COUNT};
use typetty::model::{Config, Mode};

fn key(code: KeyCode) -> KeyPress {
    KeyPress { code, control: false, alt: false }
}

fn ctrl(c: char) -> KeyPress {
    KeyPress { code: KeyCode::Char(c), control: true, alt: false }
}

#[test]
fn cli_override_does_not_replace_saved_mode() {
    let config = Config { mode: Mode::Timed(30), ..Config::default() };
    let app = App::new(config, Mode::Words(50), View::Test);
    assert_eq!(app.active_mode, Mode::Words(50));
    assert_eq!(app.config.mode, Mode::Timed(30));
    assert!(!app.config_dirty);
}

#[test]
fn settings_are_applied_and_persisted() {
    let mut app = App::new(Config::default(), Mode::Timed(30), View::Settings);
    app.settings_mode = Mode::Words(25);
    app.save_settings();
    assert_eq!(app.config.mode, Mode::Words(25));
    assert_eq!(app.active_mode, Mode::Words(25));
    assert!(app.config_dirty);
}

#[test]
fn new_sessions_draw_words_for_the_mode() {
    let app = App::new(Config::default(), Mode::Timed(30), View::Test);
    assert_eq!(app.engine.words().len(), TIMED_WORD_COUNT);
    let app = App::new(Config::default(), Mode::Words(10), View::Test);
    assert_eq!(app.engine.words().len(), 10);
    assert_eq!(app.settings_mode, Mode::Timed(30));
}

#[test]
fn adjusting_cycles_through_presets() {
    let mut app = App::new(Config::default(), Mode::Timed(30), View::Settings);
    app.settings_row = 1;
    app.adjust_setting(1);
    assert_eq!(app.settings_mode, Mode::Timed(60));
    app.adjust_setting(1);
    app.adjust_setting(1);
    assert_eq!(app.settings_mode, Mode::Timed(15));
    app.adjust_setting(-1);
    assert_eq!(app.settings_mode, Mode::Timed(120));
    app.adjust_setting(1);
    assert_eq!(app.settings_mode, Mode::Timed(15));
    app.settings_mode = Mode::Words(13);
    app.adjust_setting(-1);
    assert_eq!(app.settings_mode, Mode::Words(100));
    app.settings_row = 0;
    app.adjust_setting(1);
    assert_eq!(app.settings_mode, Mode::Timed(30));
    app.adjust_setting(-1);
    assert_eq!(app.settings_mode, Mode::Words(25));
}

#[test]
fn keys_drive_the_screens() {
    let mut app = App::new(Config::default(), Mode::Words(10), View::Test);
    app.handle_key(key(KeyCode::Tab), 0);
    assert_eq!(app.view, View::Settings);
    app.handle_key(key(KeyCode::Down), 0);
    assert_eq!(app.settings_row, 1);
    app.handle_key(key(KeyCode::Right), 0);
    assert_eq!(app.settings_mode, Mode::Timed(60));
    app.handle_key(key(KeyCode::Up), 0);
    app.handle_key(key(KeyCode::Up), 0);
    assert_eq!(app.settings_row, 0);
    app.handle_key(key(KeyCode::Left), 0);
    assert_eq!(app.settings_mode, Mode::Words(25));
    app.handle_key(key(KeyCode::Esc), 0);
    assert_eq!(app.view, View::Test);
    assert_eq!(app.config.mode, Mode::Timed(30));
    app.handle_key(key(KeyCode::Tab), 0);
    app.handle_key(key(KeyCode::Enter), 0);
    assert_eq!(app.view, View::Test);
    assert_eq!(app.active_mode, Mode::Timed(30));
    assert!(app.config_dirty);
    assert!(!app.should_quit);
    app.handle_key(ctrl('c'), 0);
    assert!(app.should_quit);
}

#[test]
fn a_word_test_ends_on_the_results_screen() {
    let mut app = App::new(Config::default(), Mode::Words(10), View::Test);
    let words: Vec<String> = app.engine.words().to_vec();
    let mut now = 1_000;
    for (i, word) in words.iter().enumerate() {
        for c in word.chars() {
            app.handle_key(key(KeyCode::Char(c)), now);
            now += 1_000_000;
        }
        if i + 1 < words.len() {
            app.handle_key(key(KeyCode::Char(' ')), now);
        }
        assert_eq!(app.complete_if_finished().is_some(), i + 1 == words.len());
    }
    assert_eq!(app.view, View::Results);
    assert!(app.stats_dirty);
    let result = app.last_result.unwrap();
    assert_eq!(result.mode, Mode::Words(10));
    assert_eq!(result.incorrect_chars, 0);
    assert_eq!(result.correct_chars, result.typed_chars);
    assert!(app.complete_if_finished().is_none());
    app.handle_key(key(KeyCode::Char('h')), now);
    assert_eq!(app.view, View::Stats);
    app.handle_key(key(KeyCode::Esc), now);
    assert_eq!(app.view, View::Results);
    app.handle_key(key(KeyCode::Enter), now);
    assert_eq!(app.view, View::Test);
    assert!(app.last_result.is_none());
    assert!(!app.engine.is_started());
}

#[test]
fn timed_test_ends_through_tick() {
    let mut app = App::new(Config::default(), Mode::Timed(15), View::Test);
    app.handle_key(key(KeyCode::Char('x')), 0);
    assert!(app.tick(14_000_000_000).is_none());
    let r = app.tick(15_000_000_000).unwrap();
    assert_eq!(r.elapsed_ms, 15_000);
    assert_eq!(app.view, View::Results);
    assert_eq!(app.footer_hint(), "Enter restart  ·  Tab settings  ·  h history  ·  q quit");
}

#[test]
fn restart_and_tab_rules_on_the_test_screen() {
    let mut app = App::new(Config::default(), Mode::Timed(30), View::Test);
    assert_eq!(app.footer_hint(), "Tab settings  ·  Esc quit  ·  start typing");
    assert_eq!(app.status_text(0), "30s");
    app.handle_key(key(KeyCode::Char('a')), 0);
    assert_eq!(app.status_text(1_500_000_000), "29s");
    app.handle_key(key(KeyCode::Tab), 0);
    assert_eq!(app.view, View::Test);
    app.handle_key(KeyPress { code: KeyCode::Char('b'), control: false, alt: true }, 0);
    assert_eq!(app.engine.current_input(), "a");
    app.handle_key(key(KeyCode::Backspace), 0);
    assert_eq!(app.engine.current_input(), "");
    app.handle_key(ctrl('r'), 0);
    assert!(!app.engine.is_started());
    app.handle_key(key(KeyCode::Esc), 0);
    assert!(app.should_quit);
}

#[test]
fn word_status_counts_words() {
    let mut app = App::new(Config::default(), Mode::Words(10), View::Test);
    assert_eq!(app.status_text(0), "1/10 words");
    app.handle_key(key(KeyCode::Char('z')), 0);
    app.handle_key(key(KeyCode::Char(' ')), 0);
    assert_eq!(app.status_text(0), "2/10 words");
    assert!(app.engine.has_headroom());
}
