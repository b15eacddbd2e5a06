use therminal::config::DEFAULT_REFRESH_RATE;
use therminal::{source_of, Config, ConfigError, ParseError, Source, Threshold};

#[test]
fn settings_are_taken_as_given() {
    let threshold = Some(Threshold::from_millidegrees(40000));
    let config = Config::new("30", threshold, Some("Core0".to_string()), true).unwrap();
    assert_eq!(config.refresh_rate, 30);
    assert_eq!(config.threshold, Some(Threshold::from_sixths(240000)));
    assert_eq!(config.sensor_id, Some("Core0".to_string()));
    assert!(config.with_tui);
    let config = Config::new("1", None, None, false).unwrap();
    assert_eq!(config.refresh_rate, 1);
    assert_eq!(config.threshold, None);
    assert_eq!(config.sensor_id, None);
    assert!(!config.with_tui);
}

#[test]
fn default_refresh_rate_is_thirty_seconds() {
    assert_eq!(DEFAULT_REFRESH_RATE, "30");
    let config = Config::new(DEFAULT_REFRESH_RATE, None, None, false).unwrap();
    assert_eq!(config.refresh_rate, 30);
}

#[test]
fn refresh_rate_that_is_no_number_is_refused() {
    for (text, cause) in [
        ("", ParseError::Empty),
        ("abc", ParseError::InvalidDigit),
        ("-5", ParseError::InvalidDigit),
        ("1.5", ParseError::InvalidDigit),
        (" 30", ParseError::InvalidDigit),
        ("30s", ParseError::InvalidDigit),
        ("18446744073709551616", ParseError::Overflow),
    ] {
        let r = Config::new(text, None, None, false);
        assert_eq!(r.err(), Some(ConfigError::RefreshRate(cause)), "{:?}", text);
    }
}

#[test]
fn refresh_rate_of_zero_is_refused() {
    assert_eq!(Config::new("0", None, None, false).err(), Some(ConfigError::ZeroRefreshRate));
    assert_eq!(Config::new("+000", None, None, true).err(), Some(ConfigError::ZeroRefreshRate));
}

#[test]
fn largest_refresh_rate_is_accepted() {
    let config = Config::new("18446744073709551615", None, None, false).unwrap();
    assert_eq!(config.refresh_rate, u64::MAX);
}

#[test]
fn copy_of_settings_holds_the_same() {
    let threshold = Some(Threshold::from_sixths(-1));
    let config = Config::new("5", threshold, Some("x".to_string()), true).unwrap();
    let copy = config.clone();
    assert_eq!(copy.refresh_rate, 5);
    assert_eq!(copy.threshold, Some(Threshold::from_sixths(-1)));
    assert_eq!(copy.sensor_id, Some("x".to_string()));
    assert!(copy.with_tui);
}

#[test]
fn dash_stands_for_standard_input() {
    assert_eq!(source_of("-"), Source::Stdin);
}

#[test]
fn other_paths_stand_for_files() {
    for path in ["", "--", "- ", " -", "/sys/class/thermal/thermal_zone0/temp", "a", "–"] {
        assert_eq!(source_of(path), Source::File, "{:?}", path);
    }
}
