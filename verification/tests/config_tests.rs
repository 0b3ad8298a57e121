use auto_backup::clock::current_timestamp;
use auto_backup::config::{
    startup_decision, validate_config, AppConfig, ConfigIssue, Mode, StartupDecision,
};

fn configured() -> AppConfig {
    AppConfig {
        source_dir: b"/src".to_vec(),
        backup_dir: b"/backup".to_vec(),
        format: b"$top_folder-$time-$date".to_vec(),
        mode: Mode::Event,
        time_value_ms: 5000,
    }
}

#[test]
fn default_settings() {
    let c = AppConfig::default();
    assert!(c.source_dir.is_empty());
    assert!(c.backup_dir.is_empty());
    assert_eq!(c.format, b"$top_folder-$time-$date".to_vec());
    assert_eq!(c.mode, Mode::Event);
    assert_eq!(c.time_value_ms, 5000);
}

#[test]
fn validate_accepts_a_configured_record() {
    assert_eq!(validate_config(&configured()), Ok(()));
}

#[test]
fn validate_rejects_missing_fields_first() {
    let mut c = configured();
    c.source_dir = Vec::new();
    c.time_value_ms = 0;
    assert_eq!(validate_config(&c), Err(ConfigIssue::MissingFields));
    let mut c = configured();
    c.backup_dir = b"   ".to_vec();
    assert_eq!(validate_config(&c), Err(ConfigIssue::MissingFields));
}

#[test]
fn validate_rejects_zero_time() {
    let mut c = configured();
    c.time_value_ms = 0;
    assert_eq!(validate_config(&c), Err(ConfigIssue::NonPositiveTime));
}

#[test]
fn validate_rejects_forbidden_format_characters() {
    for ch in ['<', '>', ':', '"', '/', '\\', '|', '?', '*'] {
        let mut c = configured();
        c.format = format!("name{}", ch).into_bytes();
        assert_eq!(validate_config(&c), Err(ConfigIssue::ForbiddenFormat));
    }
}

#[test]
fn worker_declines_to_start_unconfigured() {
    let c = configured();
    assert_eq!(startup_decision(false, &c), StartupDecision::DoNotStart);
    let mut empty = configured();
    empty.source_dir = Vec::new();
    assert_eq!(startup_decision(true, &empty), StartupDecision::DoNotStart);
    let mut empty = configured();
    empty.backup_dir = Vec::new();
    assert_eq!(startup_decision(true, &empty), StartupDecision::DoNotStart);
}

#[test]
fn worker_starts_in_the_configured_mode() {
    let mut c = configured();
    assert_eq!(startup_decision(true, &c), StartupDecision::Start(Mode::Event));
    c.mode = Mode::Periodic;
    assert_eq!(startup_decision(true, &c), StartupDecision::Start(Mode::Periodic));
}

#[test]
fn current_timestamp_is_well_formed() {
    let t = current_timestamp();
    assert!((1..=12).contains(&t.month));
    assert!((1..=31).contains(&t.day));
    assert!(t.hour <= 23);
    assert!(t.minute <= 59);
    assert!(t.second <= 59);
}
