use nixos_update_checker::config::{Config, IntervalUnit};
use nixos_update_checker::flake_checker::{CheckResult, FlakeCheckError};
use nixos_update_checker::flake_update::FlakeUpdate;
use nixos_update_checker::text::{char_is_whitespace, chars_of, decimal_string, trimmed};
use nixos_update_checker::tray::{
    build_tooltip, format_relative_time, in_timestamp_range, relative_time_label, tooltip_with,
    UpdateChecker,
};

fn update(name: &str) -> FlakeUpdate {
    FlakeUpdate {
        package_name: name.to_string(),
        old_package_name: String::new(),
        hash_short: "abcdefgh".to_string(),
        old_hash_short: String::new(),
    }
}

#[test]
fn whitespace_matches_std() {
    for u in 0u32..0x11_0000 {
        if let Some(c) = char::from_u32(u) {
            assert_eq!(char_is_whitespace(c), c.is_whitespace(), "{:x}", u);
        }
    }
}

#[test]
fn trimming_and_chars() {
    assert_eq!(trimmed("  a b \u{3000}\n"), "a b");
    assert_eq!(trimmed(""), "");
    assert_eq!(chars_of("héllo"), vec!['h', 'é', 'l', 'l', 'o']);
}

#[test]
fn decimals() {
    assert_eq!(decimal_string(0), "0");
    assert_eq!(decimal_string(7), "7");
    assert_eq!(decimal_string(10), "10");
    assert_eq!(decimal_string(1234567890), "1234567890");
    assert_eq!(decimal_string(usize::MAX), usize::MAX.to_string());
}

#[test]
fn relative_time_labels() {
    let now: i64 = 1_700_000_000;
    assert_eq!(format_relative_time(0, now), "Never");
    assert_eq!(relative_time_label(0, Some("x")), "Never");
    assert_eq!(relative_time_label(5, None), "Unknown");
    assert_eq!(relative_time_label(5, Some("now")), "just now");
    assert_eq!(relative_time_label(5, Some("2 hours ago")), "2 hours ago");
    // chrono_humanize's rough words, seen from `now`
    assert_eq!(format_relative_time(now, now), "just now");
    assert_eq!(format_relative_time(now - 5, now), "just now");
    assert_eq!(format_relative_time(now - 2 * 3600, now), "2 hours ago");
    assert_eq!(format_relative_time(now - 3 * 86_400, now), "3 days ago");
    assert_eq!(format_relative_time(now + 3600, now), "in an hour");
    assert_eq!(format_relative_time(now - 60, now), "a minute ago");
    let label = format_relative_time(1_000_000_000, now);
    assert!(label.ends_with("years ago"), "{}", label);
    // out of chrono's range
    assert_eq!(format_relative_time(i64::MAX, now), "Unknown");
    assert_eq!(format_relative_time(i64::MIN, now), "Unknown");
}

#[test]
fn chrono_range_edges() {
    let now: i64 = 1_700_000_000;
    let max: i64 = 8_210_266_876_799;
    let min: i64 = -8_334_601_228_800;
    assert!(in_timestamp_range(max) && in_timestamp_range(min));
    assert!(!in_timestamp_range(max + 1) && !in_timestamp_range(min - 1));
    assert_ne!(format_relative_time(max, now), "Unknown");
    assert_eq!(format_relative_time(max + 1, now), "Unknown");
    assert_ne!(format_relative_time(min, now), "Unknown");
    assert_eq!(format_relative_time(min - 1, now), "Unknown");
    assert!(in_timestamp_range(chrono::Utc::now().timestamp()));
}

#[test]
fn tooltips() {
    assert_eq!(
        tooltip_with(&[], "Never"),
        "NixOS Update Checker\nNo updates available\nLast checked: Never"
    );
    assert_eq!(
        tooltip_with(&[update("foo-1")], "just now"),
        "NixOS Update Checker\n1 package to update:\n  foo-1 (new: abcdefgh)\nLast checked: just now"
    );
    assert_eq!(
        build_tooltip(&[], 0, 1_700_000_000),
        "NixOS Update Checker\nNo updates available\nLast checked: Never"
    );
    assert_eq!(
        build_tooltip(&[], 1_700_000_000 - 7200, 1_700_000_000),
        "NixOS Update Checker\nNo updates available\nLast checked: 2 hours ago"
    );
}

#[test]
fn tray_check_cycle() {
    let mut t = UpdateChecker::default();
    assert_eq!(t.get_icon_path(), "qrc:/icons/nix-flake.svg");
    assert_eq!(t.check_now(), None);
    assert_eq!(t.status_message, "No flake path configured");
    t.flake_path = "/etc/nixos".to_string();
    assert_eq!(t.check_now(), Some("/etc/nixos".to_string()));
    assert!(t.checking);
    assert_eq!(t.get_icon_path(), "qrc:/icons/nix-flake-checking.svg");
    // a second request while checking does nothing
    assert_eq!(t.check_now(), None);
    let outcome = Ok(CheckResult {
        updates: vec![update("foo-1"), update("bar-2")],
        download_size: "1 MiB".to_string(),
        unpacked_size: "2 MiB".to_string(),
    });
    t.finish_check(&outcome, "just now", "[..]".to_string());
    assert!(!t.checking);
    assert!(t.has_updates);
    assert_eq!(t.update_count, 2);
    assert_eq!(t.status_message, "Check complete");
    assert_eq!(t.last_check_time, "just now");
    assert_eq!(t.updates_json, "[..]");
    assert_eq!(
        t.update_summary,
        "2 packages to update (1 MiB download, 2 MiB unpacked):\n  foo-1 (new: abcdefgh)\n  bar-2 (new: abcdefgh)"
    );
    assert_eq!(t.get_icon_path(), "qrc:/icons/nix-flake-update.svg");
    // a result with no check running is ignored
    let before = t.status_message.clone();
    t.finish_check(&Err(FlakeCheckError::NixError("x".to_string())), "now", String::new());
    assert_eq!(t.status_message, before);
    t.check_now();
    t.finish_check(&Err(FlakeCheckError::NixError("x".to_string())), "1 minute ago", String::new());
    assert_eq!(t.status_message, "Error: Nix command returned error: x");
    assert_eq!(t.tooltip_text, "NixOS Update Checker\nCheck failed\nLast checked: 1 minute ago");
    assert!(t.has_updates);
    assert_eq!(t.get_update_script_path(), "/etc/nixos");
}

#[test]
fn tray_output_and_system_changes() {
    let mut t = UpdateChecker::default();
    t.update_output = "log".to_string();
    t.update_status_line = "line".to_string();
    t.clear_output();
    assert_eq!(t.update_output, "");
    assert_eq!(t.update_status_line, "");
    assert!(!t.check_system_changed("/nix/store/a-system".to_string()));
    assert_eq!(t.cached_system_path, "/nix/store/a-system");
    assert!(!t.check_system_changed("/nix/store/a-system".to_string()));
    assert!(!t.check_system_changed("/nix/store/b-system".to_string()));
    t.has_updates = true;
    assert!(t.check_system_changed("/nix/store/c-system".to_string()));
    assert_eq!(t.status_message, "System changed, rechecking...");
}

#[test]
fn tray_config_loading_and_saving() {
    let mut t = UpdateChecker::default();
    let mut config = Config::default();
    config.check_interval = 3;
    config.check_interval_unit = IntervalUnit::Days;
    config.last_check_timestamp = 10;
    config.cached_updates_json = "[x]".to_string();
    let shown = t.load_config(&Ok(config), &[update("foo-1")], "3 days ago");
    assert!(shown);
    assert_eq!(t.check_interval, 3);
    assert_eq!(t.check_interval_unit, "days");
    assert_eq!(t.last_check_time, "3 days ago");
    assert_eq!(t.update_count, 1);
    assert_eq!(t.updates_json, "[x]");
    assert_eq!(t.status_message, "Configuration loaded");
    let mut t = UpdateChecker::default();
    let shown = t.load_config(&Err("bad toml".to_string()), &[], "Never");
    assert!(!shown);
    assert_eq!(t.status_message, "Failed to load config: bad toml");
    assert_eq!(t.flake_path, "/etc/nixos");
    assert_eq!(t.check_interval_unit, "hours");
    assert_eq!(t.tooltip_text, "NixOS Update Checker\nLast checked: Never");

    let existing = Config::default();
    let c = UpdateChecker::config_to_save("/home/me/flake", 4, "WEEKS", &existing);
    assert_eq!(c.flake_path, "/home/me/flake");
    assert_eq!(c.check_interval, 4);
    assert_eq!(c.check_interval_unit, IntervalUnit::Weeks);
    let c = UpdateChecker::config_to_save("/f", -1, "hours", &existing);
    assert_eq!(c.check_interval, u32::MAX);
    t.save_config("/f".to_string(), 2, "days".to_string(), &Ok(()));
    assert_eq!(t.flake_path, "/f");
    assert_eq!(t.status_message, "Configuration saved");
    t.save_config("/g".to_string(), 5, "weeks".to_string(), &Err("disk full".to_string()));
    assert_eq!(t.flake_path, "/f");
    assert_eq!(t.status_message, "Failed to save config: disk full");

    let mut t = UpdateChecker::default();
    t.refresh_last_check_time(0, &[], "Never");
    assert_eq!(t.last_check_time, "");
    t.refresh_last_check_time(10, &[], "5 minutes ago");
    assert_eq!(t.last_check_time, "5 minutes ago");
    assert!(t.is_check_due(None, 100));
    assert!(t.is_check_due(Some(&Config::default()), 100));
    let mut c = Config::default();
    c.last_check_timestamp = 1_000;
    assert!(!t.is_check_due(Some(&c), 1_000 + 3_599));
    assert!(t.is_check_due(Some(&c), 1_000 + 3_600));
}
