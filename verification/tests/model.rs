use typetty::model::{is_preset_value, preset_at, preset_position, Config, Mode, SCHEMA_VERSION};
use typetty::store::backup_file_name;
use typetty::text::is_control_char;

#[test]
fn labels_and_keys() {
    assert_eq!(Mode::Timed(30).label(), "30 seconds");
    assert_eq!(Mode::Words(100).label(), "100 words");
    assert_eq!(Mode::Timed(30).key(), "time:30");
    assert_eq!(Mode::Words(5).key(), "words:5");
    assert_eq!(Mode::Timed(0).key(), "time:0");
}

#[test]
fn defaults() {
    assert_eq!(Mode::default(), Mode::Timed(30));
    let c = Config::default();
    assert_eq!(c.mode, Mode::Timed(30));
    assert_eq!(c.schema_version, SCHEMA_VERSION);
    assert_eq!(SCHEMA_VERSION, 1);
}

#[test]
fn runnable_modes() {
    assert!(!Mode::Words(0).is_runnable());
    assert!(Mode::Words(1).is_runnable());
    assert!(Mode::Timed(0).is_runnable());
}

#[test]
fn presets_positions() {
    assert_eq!(preset_at(true, 3), 120);
    assert_eq!(preset_at(false, 1), 25);
    assert_eq!(preset_position(true, 60), 2);
    assert_eq!(preset_position(true, 61), 0);
    assert!(is_preset_value(false, 50));
    assert!(!is_preset_value(false, 60));
}

#[test]
fn decimal_matches_std_formatting() {
    for n in [0u64, 7, 10, 99, 100, 65535, u64::MAX] {
        assert_eq!(backup_file_name("", n, 0), format!(".corrupt-{n}-0"));
    }
}

#[test]
fn control_characters_match_std() {
    for c in (0u32..0x3000).filter_map(char::from_u32) {
        assert_eq!(is_control_char(c), c.is_control(), "{:?}", c);
    }
    assert!(!is_control_char(char::MAX));
}

#[test]
fn mode_keys_are_distinct() {
    let modes = [Mode::Timed(1), Mode::Timed(10), Mode::Words(1), Mode::Words(10), Mode::Timed(100)];
    for a in modes {
        for b in modes {
            assert_eq!(a.key() == b.key(), a == b);
        }
    }
}
