use price_sampler::cli::{parse_command, CliError, Command};

#[test]
fn missing_mode_is_usage_error() {
    let r = parse_command(None, None);
    assert_eq!(r, Err(CliError::MissingMode));
    assert!(CliError::MissingMode.is_usage());
}

#[test]
fn cache_without_duration_is_usage_error() {
    let r = parse_command(Some("cache"), None);
    assert_eq!(r, Err(CliError::MissingDuration));
    assert!(CliError::MissingDuration.is_usage());
}

#[test]
fn cache_with_duration_parses() {
    let r = parse_command(Some("cache"), Some("30"));
    assert_eq!(r, Ok(Command::Cache { seconds: 30 }));
}

#[test]
fn cache_with_zero_duration_parses() {
    let r = parse_command(Some("cache"), Some("0"));
    assert_eq!(r, Ok(Command::Cache { seconds: 0 }));
}

#[test]
fn cache_with_bad_duration_is_usage_error() {
    assert_eq!(parse_command(Some("cache"), Some("abc")), Err(CliError::InvalidDuration));
    assert_eq!(parse_command(Some("cache"), Some("")), Err(CliError::InvalidDuration));
    assert_eq!(parse_command(Some("cache"), Some("-5")), Err(CliError::InvalidDuration));
    assert_eq!(parse_command(Some("cache"), Some("1.5")), Err(CliError::InvalidDuration));
}

#[test]
fn cache_with_overflowing_duration_is_usage_error() {
    let r = parse_command(Some("cache"), Some("18446744073709551616"));
    assert_eq!(r, Err(CliError::InvalidDuration));
    let ok = parse_command(Some("cache"), Some("18446744073709551615"));
    assert_eq!(ok, Ok(Command::Cache { seconds: u64::MAX }));
}

#[test]
fn read_mode_parses() {
    let r = parse_command(Some("read"), None);
    assert_eq!(r, Ok(Command::Read));
    let with_times = parse_command(Some("read"), Some("5"));
    assert_eq!(with_times, Ok(Command::Read));
}

#[test]
fn unknown_mode_keeps_its_message() {
    let r = parse_command(Some("fetch"), Some("5"));
    assert_eq!(r, Err(CliError::UnknownMode));
    assert!(!CliError::UnknownMode.is_usage());
    assert_eq!(
        CliError::UnknownMode.message(),
        "Invalid mode. Supported modes are 'cache' and 'read'"
    );
}

#[test]
fn usage_messages_name_the_problem() {
    assert_eq!(
        CliError::MissingMode.message(),
        "Usage error: a mode is required ('cache' or 'read')"
    );
    assert_eq!(
        CliError::MissingDuration.message(),
        "Usage error: mode 'cache' requires a duration in seconds"
    );
    assert_eq!(
        CliError::InvalidDuration.message(),
        "Usage error: the duration must be a whole number of seconds"
    );
}
