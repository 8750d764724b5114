use nixos_update_checker::config::{default_true, Config, IntervalUnit};
use nixos_update_checker::flake_checker::{CheckResult, FlakeCheckError};
use nixos_update_checker::flake_update::FlakeUpdate;

#[test]
fn test_default_config() {
    let config = Config::default();
    assert_eq!(config.check_interval, 1);
    assert_eq!(config.check_interval_unit, IntervalUnit::Hours);
    assert_eq!(config.flake_path, "/etc/nixos");
}

#[test]
fn test_interval_minutes() {
    let mut config = Config::default();

    config.check_interval = 2;
    config.check_interval_unit = IntervalUnit::Hours;
    assert_eq!(config.interval_minutes(), 120);

    config.check_interval = 1;
    config.check_interval_unit = IntervalUnit::Days;
    assert_eq!(config.interval_minutes(), 1440);

    config.check_interval = 1;
    config.check_interval_unit = IntervalUnit::Weeks;
    assert_eq!(config.interval_minutes(), 10080);
}

#[test]
fn default_config_fields() {
    let config = Config::default();
    assert!(config.commit_and_push);
    assert!(!config.run_gc_after_update);
    assert_eq!(config.last_check_timestamp, 0);
    assert!(config.cached_updates_json.is_empty());
    assert!(config.is_valid());
    assert!(default_true());
}

#[test]
fn is_valid_needs_path_and_interval() {
    let mut config = Config::default();
    config.flake_path = String::new();
    assert!(!config.is_valid());
    let mut config = Config::default();
    config.check_interval = 0;
    assert!(!config.is_valid());
}

#[test]
fn unit_names_round_trip() {
    for unit in [IntervalUnit::Hours, IntervalUnit::Days, IntervalUnit::Weeks] {
        assert_eq!(IntervalUnit::from_str(unit.as_str()), unit);
        assert_eq!(IntervalUnit::from_lowercase(unit.as_str()), unit);
    }
    assert_eq!(IntervalUnit::Hours.as_str(), "hours");
    assert_eq!(IntervalUnit::Days.as_str(), "days");
    assert_eq!(IntervalUnit::Weeks.as_str(), "weeks");
}

#[test]
fn unit_from_str_ignores_case() {
    assert_eq!(IntervalUnit::from_str("DAYS"), IntervalUnit::Days);
    assert_eq!(IntervalUnit::from_str("Weeks"), IntervalUnit::Weeks);
    assert_eq!(IntervalUnit::from_str("months"), IntervalUnit::Hours);
    assert_eq!(IntervalUnit::from_str(""), IntervalUnit::Hours);
    // the lowercase form is required by from_lowercase
    assert_eq!(IntervalUnit::from_lowercase("DAYS"), IntervalUnit::Hours);
    assert_eq!(IntervalUnit::default(), IntervalUnit::Hours);
}

#[test]
fn to_minutes_formula() {
    assert_eq!(IntervalUnit::Hours.to_minutes(3), 180);
    assert_eq!(IntervalUnit::Days.to_minutes(2), 2880);
    assert_eq!(IntervalUnit::Weeks.to_minutes(2), 20160);
    assert_eq!(IntervalUnit::Weeks.to_minutes(0), 0);
}

#[test]
fn check_due_at_times() {
    let mut config = Config::default();
    assert!(config.is_check_due_at(5));
    config.last_check_timestamp = 1_000;
    config.check_interval = 2;
    config.check_interval_unit = IntervalUnit::Hours;
    assert!(!config.is_check_due_at(1_000 + 7_199));
    assert!(config.is_check_due_at(1_000 + 7_200));
    assert!(config.is_check_due_at(1_000 + 7_201));
    assert_eq!(config.flake_path(), "/etc/nixos");
}

#[test]
fn record_check_keeps_cache_on_failure() {
    let mut config = Config::default();
    config.cached_updates_json = "[old]".to_string();
    config.cached_download_size = "1 MiB".to_string();
    let failed: Result<CheckResult, FlakeCheckError> =
        Err(FlakeCheckError::NixError("boom".to_string()));
    config.record_check(1_700_000_000, &failed, "[new]".to_string());
    assert_eq!(config.last_check_timestamp, 1_700_000_000);
    assert_eq!(config.cached_updates_json, "[old]");
    assert_eq!(config.cached_download_size, "1 MiB");
    assert_eq!(config.flake_path, "/etc/nixos");

    let found: Result<CheckResult, FlakeCheckError> = Ok(CheckResult {
        updates: vec![FlakeUpdate {
            package_name: "firefox-120.0".to_string(),
            old_package_name: String::new(),
            hash_short: "abcd1234".to_string(),
            old_hash_short: String::new(),
        }],
        download_size: "500.00 MiB".to_string(),
        unpacked_size: "1500.00 MiB".to_string(),
    });
    config.record_check(1_700_000_600, &found, "[new]".to_string());
    assert_eq!(config.last_check_timestamp, 1_700_000_600);
    assert_eq!(config.cached_updates_json, "[new]");
    assert_eq!(config.cached_download_size, "500.00 MiB");
    assert_eq!(config.cached_unpacked_size, "1500.00 MiB");
    assert_eq!(config.check_interval, 1);
}

#[test]
fn schedule_in_range_bounds() {
    let mut config = Config::default();
    assert!(config.schedule_in_range());
    config.last_check_timestamp = 1_700_000_000;
    config.check_interval = 2;
    assert!(config.schedule_in_range());
    config.check_interval = u32::MAX;
    config.check_interval_unit = IntervalUnit::Weeks;
    assert!(!config.schedule_in_range());
    config.check_interval = 1;
    config.last_check_timestamp = i64::MAX - 100;
    assert!(!config.schedule_in_range());
    config.last_check_timestamp = i64::MAX - 604_800;
    assert!(config.schedule_in_range());
}
