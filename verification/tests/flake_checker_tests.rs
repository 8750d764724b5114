use nixos_update_checker::flake_checker::{
    cache_dir_name, dry_build_failure, format_updates_tooltip, generate_commit_message,
    parse_dry_build_output, parse_git_head_branch, parse_git_origin_url, FlakeCheckError,
};
use nixos_update_checker::flake_update::FlakeUpdate;
use nixos_update_checker::installed::InstalledPackages;
use nixos_update_checker::store_path::{extract_package_info, is_internal_package};

fn update(name: &str, old: &str, hash: &str, old_hash: &str) -> FlakeUpdate {
    FlakeUpdate {
        package_name: name.to_string(),
        old_package_name: old.to_string(),
        hash_short: hash.to_string(),
        old_hash_short: old_hash.to_string(),
    }
}

#[test]
fn test_is_internal_package() {
    // Should be filtered
    assert!(is_internal_package("system-path"));
    assert!(is_internal_package("user-environment"));
    assert!(is_internal_package("user-units"));
    assert!(is_internal_package("dbus-1"));
    assert!(is_internal_package("X-Restart-Triggers"));
    assert!(is_internal_package("X-Restart-Triggers-Dbus"));
    assert!(is_internal_package("X-Restart-Triggers-polkit"));
    assert!(is_internal_package("unit-dbus.service"));
    assert!(is_internal_package("unit-polkit.service"));
    assert!(is_internal_package("etc-hosts"));
    assert!(is_internal_package("etc"));
    assert!(is_internal_package("nixos-system-nixos-25.11.20260117.72ac591"));

    // Should NOT be filtered
    assert!(!is_internal_package("firefox-120.0"));
    assert!(!is_internal_package("chromium-119.0"));
    assert!(!is_internal_package("nodejs-20.10.0"));
    assert!(!is_internal_package("glibc-2.38"));
    assert!(!is_internal_package("whisper-typer-0.1.0"));
}

#[test]
fn test_parse_dry_build_output() {
    let output = r#"
these 3 derivations will be built:
  /nix/store/abcdefghijklmnopqrstuvwxyz012345-firefox-120.0.drv
  /nix/store/abcdefghijklmnopqrstuvwxyz012345-chromium-119.0.drv
  /nix/store/abcdefghijklmnopqrstuvwxyz012345-nodejs-20.10.0.drv
these 1 paths will be fetched (500.00 MiB download, 1500.00 MiB unpacked):
  /nix/store/abcdefghijklmnopqrstuvwxyz012345-glibc-2.38
"#;
    let current = InstalledPackages::new();
    let result = parse_dry_build_output(output, &current).unwrap();
    assert_eq!(result.updates.len(), 4);
    assert!(result.updates.iter().any(|u| u.package_name == "firefox-120.0"));
    assert!(result.updates.iter().any(|u| u.package_name == "chromium-119.0"));
    assert!(result.updates.iter().any(|u| u.package_name == "nodejs-20.10.0"));
    assert!(result.updates.iter().any(|u| u.package_name == "glibc-2.38"));
    assert_eq!(result.download_size, "500.00 MiB");
    assert_eq!(result.unpacked_size, "1500.00 MiB");
}

#[test]
fn test_parse_dry_build_output_filters_internal() {
    let output = r#"
these derivations will be built:
  /nix/store/abcdefghijklmnopqrstuvwxyz012345-firefox-120.0.drv
  /nix/store/abcdefghijklmnopqrstuvwxyz012345-system-path.drv
  /nix/store/abcdefghijklmnopqrstuvwxyz012345-X-Restart-Triggers-Dbus.drv
  /nix/store/abcdefghijklmnopqrstuvwxyz012345-unit-dbus.service.drv
  /nix/store/abcdefghijklmnopqrstuvwxyz012345-chromium-119.0.drv
"#;
    let current = InstalledPackages::new();
    let result = parse_dry_build_output(output, &current).unwrap();
    // Should only have firefox and chromium, not the internal packages
    assert_eq!(result.updates.len(), 2);
    assert!(result.updates.iter().any(|u| u.package_name == "firefox-120.0"));
    assert!(result.updates.iter().any(|u| u.package_name == "chromium-119.0"));
    assert_eq!(result.download_size, "");
}

#[test]
fn test_extract_package_info() {
    let result = extract_package_info("/nix/store/abcdefghijklmnopqrstuvwxyz012345-firefox-120.0.drv");
    assert_eq!(result, Some(("firefox-120.0".to_string(), "abcdefgh".to_string())));

    let result = extract_package_info("/nix/store/abcdefghijklmnopqrstuvwxyz012345-glibc-2.38");
    assert_eq!(result, Some(("glibc-2.38".to_string(), "abcdefgh".to_string())));

    // Internal packages should return None
    assert_eq!(
        extract_package_info("/nix/store/abcdefghijklmnopqrstuvwxyz012345-system-path.drv"),
        None
    );
}

#[test]
fn test_base_name() {
    let update = FlakeUpdate {
        package_name: "whisper-typer-0.1.0".to_string(),
        old_package_name: String::new(),
        hash_short: "abcd1234".to_string(),
        old_hash_short: String::new(),
    };
    assert_eq!(update.base_name(), "whisper-typer");

    let update = FlakeUpdate {
        package_name: "whisper-typer".to_string(),
        old_package_name: String::new(),
        hash_short: "abcd1234".to_string(),
        old_hash_short: String::new(),
    };
    assert_eq!(update.base_name(), "whisper-typer");
}

#[test]
fn test_deduplication() {
    let output = r#"
these derivations will be built:
  /nix/store/abcdefghijklmnopqrstuvwxyz012345-whisper-typer-0.1.0.drv
  /nix/store/xyzdefghijklmnopqrstuvwxyz012345-whisper-typer.drv
"#;
    let current = InstalledPackages::new();
    let result = parse_dry_build_output(output, &current).unwrap();
    // Should only have one entry, preferring the one with version
    assert_eq!(result.updates.len(), 1);
    assert_eq!(result.updates[0].package_name, "whisper-typer-0.1.0");
}

#[test]
fn test_old_hash_lookup() {
    // Hash must be exactly 32 characters: newhashabcdefghijklmnopqrstuvwxy
    let output = r#"
these derivations will be built:
  /nix/store/newhashabcdefghijklmnopqrstuvwxy-firefox-120.0.drv
"#;
    let mut current = InstalledPackages::new();
    current.insert("firefox".to_string(), "firefox-119.0".to_string(), "oldhas12".to_string());

    let result = parse_dry_build_output(output, &current).unwrap();
    assert_eq!(result.updates.len(), 1);
    assert_eq!(result.updates[0].package_name, "firefox-120.0");
    assert_eq!(result.updates[0].old_package_name, "firefox-119.0");
    assert_eq!(result.updates[0].hash_short, "newhasha");
    assert_eq!(result.updates[0].old_hash_short, "oldhas12");
}

#[test]
fn test_generate_commit_message() {
    let updates = vec![
        FlakeUpdate { package_name: "firefox-120.0".to_string(), old_package_name: String::new(), hash_short: "abcd1234".to_string(), old_hash_short: String::new() },
        FlakeUpdate { package_name: "chromium-119.0".to_string(), old_package_name: String::new(), hash_short: "efgh5678".to_string(), old_hash_short: String::new() },
    ];

    let msg = generate_commit_message(&updates);
    assert!(msg.contains("2 packages"));
}

#[test]
fn test_version_display() {
    // Version upgrade
    let update = FlakeUpdate {
        package_name: "firefox-120.0".to_string(),
        old_package_name: "firefox-119.0".to_string(),
        hash_short: "newhash1".to_string(),
        old_hash_short: "oldhash1".to_string(),
    };
    assert_eq!(update.version(), Some("120.0"));
    assert_eq!(update.old_version(), Some("119.0"));
    assert_eq!(update.display(), "firefox (119.0 → 120.0)");

    // Same version, different hash
    let update = FlakeUpdate {
        package_name: "myapp-1.0.0".to_string(),
        old_package_name: "myapp-1.0.0".to_string(),
        hash_short: "newhash1".to_string(),
        old_hash_short: "oldhash1".to_string(),
    };
    assert_eq!(update.display(), "myapp (1.0.0 oldhash1 → newhash1)");

    // No version info, fall back to hashes
    let update = FlakeUpdate {
        package_name: "myapp".to_string(),
        old_package_name: "myapp".to_string(),
        hash_short: "newhash1".to_string(),
        old_hash_short: "oldhash1".to_string(),
    };
    assert_eq!(update.display(), "myapp (oldhash1 → newhash1)");
}

#[test]
fn display_other_cases() {
    // only the new one has a version
    assert_eq!(update("foo-2.0", "foo", "new12345", "old12345").display(), "foo (old12345 → 2.0)");
    // only the old one has a version
    assert_eq!(update("foo", "foo-1.0", "new12345", "old12345").display(), "foo (1.0 → new12345)");
    // new package
    assert_eq!(update("foo-1.0", "", "new12345", "").display(), "foo-1.0 (new: new12345)");
    // nothing to show but the name
    assert_eq!(update("foo-1.0", "", "", "").display(), "foo-1.0");
    // same version without hashes falls through to the name
    assert_eq!(update("foo-1.0", "foo-1.0", "", "").display(), "foo-1.0");
}

#[test]
fn version_and_base_name_edges() {
    let u = update("foo-bar", "", "", "");
    assert_eq!(u.version(), None);
    assert_eq!(u.base_name(), "foo-bar");
    let u = update("foo-", "", "", "");
    assert_eq!(u.version(), None);
    let u = update("a-1-b-2", "", "", "");
    assert_eq!(u.version(), Some("2"));
    assert_eq!(u.base_name(), "a-1-b");
    assert_eq!(FlakeUpdate::extract_version("x-9"), Some("9"));
    let u = update("x-1", "", "", "");
    assert_eq!(u.old_version(), None);
    let u = update("x-1", "x-0", "", "");
    assert_eq!(u.old_version(), Some("0"));
    // a version part is base name, a dash and the version
    let u = update("whisper-typer-0.1.0", "", "", "");
    assert_eq!(format!("{}-{}", u.base_name(), u.version().unwrap()), u.package_name);
}

#[test]
fn commit_message_cases() {
    assert_eq!(generate_commit_message(&[]), "Update flake inputs");
    assert_eq!(generate_commit_message(&[update("firefox-120.0", "", "", "")]), "Update firefox-120.0");
    let many: Vec<FlakeUpdate> = (0..12).map(|i| update(&format!("p{}-1", i), "", "", "")).collect();
    assert_eq!(generate_commit_message(&many), "Update 12 packages");
}

#[test]
fn tooltip_formats() {
    assert_eq!(format_updates_tooltip(&[], "1 MiB", "2 MiB"), "No updates available");
    let one = vec![update("foo-1.0", "", "abcdefgh", "")];
    assert_eq!(
        format_updates_tooltip(&one, "1 MiB", "2 MiB"),
        "1 package to update (1 MiB download, 2 MiB unpacked):\n  foo-1.0 (new: abcdefgh)"
    );
    assert_eq!(
        format_updates_tooltip(&one, "1 MiB", ""),
        "1 package to update (1 MiB download):\n  foo-1.0 (new: abcdefgh)"
    );
    assert_eq!(format_updates_tooltip(&one, "", "2 MiB"), "1 package to update:\n  foo-1.0 (new: abcdefgh)");
    let two = vec![update("a-1", "", "", ""), update("b-1", "", "", "")];
    assert_eq!(format_updates_tooltip(&two, "", ""), "2 packages to update:\n  a-1\n  b-1");
    let many: Vec<FlakeUpdate> = (0..12).map(|i| update(&format!("p{}", i), "", "", "")).collect();
    assert_eq!(
        format_updates_tooltip(&many, "", ""),
        "12 packages to update:\np0\n  p1\n  p2\n  p3\n  p4\n  p5\n  p6\n  p7\n  p8\n  p9  ...and 2 more"
    );
}

#[test]
fn parse_sorts_case_insensitively_and_stably() {
    let output = "these derivations will be built:\n  /nix/store/abcdefghijklmnopqrstuvwxyz012345-Zeta-1.0\n  /nix/store/abcdefghijklmnopqrstuvwxyz012345-alpha-1.0\n  /nix/store/abcdefghijklmnopqrstuvwxyz012345-Beta-2.0\n  /nix/store/abcdefghijklmnopqrstuvwxyz012345-beta-1.0\n";
    let current = InstalledPackages::new();
    let result = parse_dry_build_output(output, &current).unwrap();
    let names: Vec<&str> = result.updates.iter().map(|u| u.package_name.as_str()).collect();
    assert_eq!(names, vec!["alpha-1.0", "beta-1.0", "Beta-2.0", "Zeta-1.0"]);
    assert!(result.updates.iter().all(|u| u.hash_short.len() == 8));
}

#[test]
fn parse_list_ends_at_other_line() {
    let output = "these derivations will be built:\n  /nix/store/abcdefghijklmnopqrstuvwxyz012345-foo-1.0.drv\nbuilding something\n  /nix/store/abcdefghijklmnopqrstuvwxyz012345-bar-1.0.drv\n\r\nthis path will be fetched (0.02 MiB download, 0.06 MiB unpacked):\r\n  /nix/store/abcdefghijklmnopqrstuvwxyz012345-baz-3\r\n";
    let current = InstalledPackages::new();
    let result = parse_dry_build_output(output, &current).unwrap();
    let names: Vec<&str> = result.updates.iter().map(|u| u.package_name.as_str()).collect();
    assert_eq!(names, vec!["baz-3", "foo-1.0"]);
    assert_eq!(result.download_size, "0.02 MiB");
    assert_eq!(result.unpacked_size, "0.06 MiB");
}

#[test]
fn parse_dedup_keeps_same_length_versions_and_drops_exact_duplicates() {
    let output = "these derivations will be built:\n  /nix/store/abcdefghijklmnopqrstuvwxyz012345-foo-1.0\n  /nix/store/bbcdefghijklmnopqrstuvwxyz012345-foo-2.0\n  /nix/store/cbcdefghijklmnopqrstuvwxyz012345-foo-1.0.drv\n  /nix/store/dbcdefghijklmnopqrstuvwxyz012345-foo\n";
    let current = InstalledPackages::new();
    let result = parse_dry_build_output(output, &current).unwrap();
    let names: Vec<(&str, &str)> = result
        .updates
        .iter()
        .map(|u| (u.package_name.as_str(), u.hash_short.as_str()))
        .collect();
    assert_eq!(names, vec![("foo-1.0", "abcdefgh"), ("foo-2.0", "bbcdefgh")]);
}

#[test]
fn parse_empty_output() {
    let current = InstalledPackages::new();
    let result = parse_dry_build_output("", &current).unwrap();
    assert!(result.updates.is_empty());
    assert_eq!(result.download_size, "");
    assert_eq!(result.unpacked_size, "");
}

#[test]
fn extract_package_info_edges() {
    // not under /nix/store
    assert_eq!(extract_package_info("/usr/abcdefghijklmnopqrstuvwxyz012345-foo"), None);
    // no dash after the hash
    assert_eq!(extract_package_info("/nix/store/abcdefghijklmnopqrstuvwxyz0123456foo"), None);
    // nothing after the hash
    assert_eq!(extract_package_info("/nix/store/abcdefghijklmnopqrstuvwxyz012345-"), None);
    // surrounding whitespace is ignored
    assert_eq!(
        extract_package_info("  /nix/store/abcdefghijklmnopqrstuvwxyz012345-foo-1.drv \t"),
        Some(("foo-1".to_string(), "abcdefgh".to_string()))
    );
    // the hash is cut at 8 bytes, the name after 33 bytes
    assert_eq!(
        extract_package_info("/nix/store/é234567abcdefghijklmnopqrstuvwxy-foo"),
        Some(("-foo".to_string(), "é234567".to_string()))
    );
}

#[test]
fn installed_packages_prefer_longer_names() {
    let listing = "/nix/store/abcdefghijklmnopqrstuvwxyz012345-foo\n/nix/store/bbcdefghijklmnopqrstuvwxyz012345-foo-1.2\n/nix/store/cbcdefghijklmnopqrstuvwxyz012345-foo-1\n/nix/store/dbcdefghijklmnopqrstuvwxyz012345-system-path\n";
    let installed = InstalledPackages::from_store_listing(listing);
    assert_eq!(installed.get("foo"), Some(("foo-1.2".to_string(), "bbcdefgh".to_string())));
    assert_eq!(installed.get("system-path"), None);
    assert_eq!(installed.get("bar"), None);
    let mut m = InstalledPackages::new();
    m.insert("a".to_string(), "a-1".to_string(), "h1".to_string());
    m.insert("a".to_string(), "a-2".to_string(), "h2".to_string());
    assert_eq!(m.get("a"), Some(("a-2".to_string(), "h2".to_string())));
    m.note_package("a-10".to_string(), "h3".to_string());
    assert_eq!(m.get("a"), Some(("a-10".to_string(), "h3".to_string())));
    m.note_package("a-9".to_string(), "h4".to_string());
    assert_eq!(m.get("a"), Some(("a-10".to_string(), "h3".to_string())));
}

#[test]
fn git_origin_url_parsing() {
    let config = "[core]\n\tbare = false\n[remote \"upstream\"]\n\turl = https://example.org/up.git\n[remote \"origin\"]\n\tfetch = +refs/heads/*:refs/remotes/origin/*\n\turl = git@github.com:me/nixos.git\n[branch \"main\"]\n\tremote = origin\n";
    assert_eq!(parse_git_origin_url(config), Ok("git@github.com:me/nixos.git".to_string()));
    let config = "[remote \"origin\"]\n[branch \"main\"]\n\turl = nope\n";
    assert_eq!(
        parse_git_origin_url(config),
        Err(FlakeCheckError::NixError("No origin remote found".to_string()))
    );
}

#[test]
fn git_head_parsing() {
    assert_eq!(parse_git_head_branch("ref: refs/heads/feature/x\n"), "feature/x");
    assert_eq!(parse_git_head_branch("0123456789abcdef\n"), "main");
}

#[test]
fn cache_dir_names() {
    assert_eq!(cache_dir_name("/etc/nixos"), "etc_nixos");
    assert_eq!(cache_dir_name("//home/u\\cfg"), "home_u_cfg");
    assert_eq!(cache_dir_name("_a/b"), "a_b");
}

#[test]
fn dry_build_failure_keeps_five_lines() {
    let e = dry_build_failure("l1\r\nl2\nl3\nl4\nl5\nl6\n");
    assert_eq!(e, FlakeCheckError::NixError("nixos-rebuild dry-build failed: l1\nl2\nl3\nl4\nl5".to_string()));
    let e = dry_build_failure("only\n");
    assert_eq!(e, FlakeCheckError::NixError("nixos-rebuild dry-build failed: only".to_string()));
    let e = dry_build_failure("");
    assert_eq!(e, FlakeCheckError::NixError("nixos-rebuild dry-build failed: ".to_string()));
}

#[test]
fn error_messages() {
    assert_eq!(FlakeCheckError::PathNotFound("/x".to_string()).message(), "Flake path does not exist: /x");
    assert_eq!(FlakeCheckError::CommandFailed("boom".to_string()).message(), "Failed to run nix command: boom");
    assert_eq!(FlakeCheckError::NixError("bad".to_string()).message(), "Nix command returned error: bad");
    assert_eq!(FlakeCheckError::NotGitRepo("/y".to_string()).message(), "Not a git repository: /y");
}

#[test]
fn parse_keeps_order_of_names_equal_but_for_case() {
    let output = "these derivations will be built:\n  /nix/store/abcdefghijklmnopqrstuvwxyz012345-foo-1\n  /nix/store/bbcdefghijklmnopqrstuvwxyz012345-aaa\n  /nix/store/cbcdefghijklmnopqrstuvwxyz012345-Foo-1\n";
    let current = InstalledPackages::new();
    let result = parse_dry_build_output(output, &current).unwrap();
    let names: Vec<&str> = result.updates.iter().map(|u| u.package_name.as_str()).collect();
    assert_eq!(names, vec!["aaa", "foo-1", "Foo-1"]);
}
