use typetty::store::{
    backup_file_name, load_action, push_recent, temp_file_name, LoadAction, ReadOutcome,
    HISTORY_LIMIT, Totals,
};

#[test]
fn load_actions() {
    assert_eq!(load_action(ReadOutcome::Missing), LoadAction::UseDefault);
    assert_eq!(load_action(ReadOutcome::Unparsable), LoadAction::QuarantineAndUseDefault);
    assert_eq!(load_action(ReadOutcome::Parsed { schema_version: 1 }), LoadAction::UseLoaded);
    assert_eq!(
        load_action(ReadOutcome::Parsed { schema_version: 2 }),
        LoadAction::QuarantineAndUseDefault
    );
}

#[test]
fn file_names() {
    assert_eq!(backup_file_name("config.json", 1700000000, 42), "config.json.corrupt-1700000000-42");
    assert_eq!(temp_file_name("stats.json", 7), ".stats.json.tmp-7");
}

#[test]
fn history_is_newest_first_and_bounded() {
    let mut history: Vec<u32> = Vec::new();
    for i in 0..1005u32 {
        push_recent(&mut history, i);
    }
    assert_eq!(history.len(), HISTORY_LIMIT);
    assert_eq!(history[0], 1004);
    assert_eq!(history[999], 5);
    let mut short = vec![1, 2];
    push_recent(&mut short, 0);
    assert_eq!(short, vec![0, 1, 2]);
}

#[test]
fn totals_add_up() {
    let mut t = Totals { total_tests: 2, total_time_ms: 1_000, total_typed_chars: 50 };
    assert!(t.can_record(15_000, 40));
    t.record(15_000, 40);
    assert_eq!(t, Totals { total_tests: 3, total_time_ms: 16_000, total_typed_chars: 90 });
    let full = Totals { total_tests: u64::MAX, total_time_ms: 0, total_typed_chars: 0 };
    assert!(!full.can_record(0, 0));
    let nearly = Totals { total_tests: 0, total_time_ms: u64::MAX - 1, total_typed_chars: 0 };
    assert!(nearly.can_record(1, 0));
    assert!(!nearly.can_record(2, 0));
}
