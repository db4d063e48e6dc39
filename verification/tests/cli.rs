use typetty::cli::Cli;
use typetty::model::Mode;

fn cli(time: Option<u16>, words: Option<u16>) -> Cli {
    Cli { time, words, settings: false, stats: false }
}

#[test]
fn validates_presets() {
    let cli_time = cli(Some(60), None);
    assert_eq!(cli_time.mode().unwrap(), Some(Mode::Timed(60)));

    let cli_words = cli(None, Some(13));
    assert!(cli_words.mode().unwrap_err().contains("unsupported word count"));
}

#[test]
fn error_messages_name_the_refused_value() {
    assert_eq!(
        cli(Some(45), None).mode().unwrap_err(),
        "unsupported time 45; choose 15, 30, 60, or 120 seconds"
    );
    assert_eq!(
        cli(None, Some(0)).mode().unwrap_err(),
        "unsupported word count 0; choose 10, 25, 50, or 100"
    );
}

#[test]
fn every_preset_is_accepted_and_nothing_gives_none() {
    for s in [15, 30, 60, 120] {
        assert_eq!(cli(Some(s), None).mode(), Ok(Some(Mode::Timed(s))));
    }
    for w in [10, 25, 50, 100] {
        assert_eq!(cli(None, Some(w)).mode(), Ok(Some(Mode::Words(w))));
    }
    assert_eq!(cli(None, None).mode(), Ok(None));
    assert_eq!(cli(Some(10), None).mode().is_err(), true);
    assert_eq!(cli(None, Some(15)).mode().is_err(), true);
}
