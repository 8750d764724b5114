use nixos_update_checker::flake_update::FlakeUpdate;
use nixos_update_checker::update_runner::{
    build_update_script, escape_quotes, run_update, terminal_invocation, UpdateError,
};

#[test]
fn test_build_update_script() {
    let script = build_update_script("/home/user/nixos", "Update nixpkgs");
    assert!(script.contains("cd '/home/user/nixos'"));
    assert!(script.contains("nix flake update"));
    assert!(script.contains("nixos-rebuild switch"));
    assert!(script.contains("Update nixpkgs"));
}

#[test]
fn test_commit_message_escaping() {
    let script = build_update_script("/path", "It's a test");
    assert!(script.contains("It'\\''s a test"));
}

#[test]
fn script_text_is_exact() {
    let script = build_update_script("/p", "m");
    let expected = "#!/bin/bash\nset -e\n\necho \"=== NixOS Flake Update ===\"\necho \"\"\n\ncd '/p'\necho \"Working directory: $(pwd)\"\necho \"\"\n\necho \"=== Updating flake inputs ===\"\nnix flake update\necho \"\"\n\necho \"=== Rebuilding NixOS ===\"\nsudo nixos-rebuild switch --flake .\necho \"\"\n\necho \"=== Committing changes ===\"\ngit add -A\ngit commit -m 'm' || echo \"Nothing to commit\"\necho \"\"\n\necho \"=== Pushing to remote ===\"\ngit push || echo \"Push failed or no remote configured\"\necho \"\"\n\necho \"=== Update complete! ===\"\necho \"\"\necho \"Press Enter to close this terminal...\"\nread\n";
    assert_eq!(script, expected);
}

#[test]
fn escaping() {
    assert_eq!(escape_quotes("no quotes"), "no quotes");
    assert_eq!(escape_quotes("''"), "'\\'''\\''");
    assert_eq!(escape_quotes(""), "");
}

#[test]
fn terminal_commands() {
    let c = terminal_invocation("Konsole", "konsole", "/tmp/s.sh");
    assert_eq!(c.program, "konsole");
    assert_eq!(c.args, vec!["-e".to_string(), "/tmp/s.sh".to_string()]);
    let c = terminal_invocation("gnome-terminal", "gnome-terminal", "/s");
    assert_eq!(c.args, vec!["--".to_string(), "/s".to_string()]);
    let c = terminal_invocation("kitty", "kitty", "/s");
    assert_eq!(c.args, vec!["/s".to_string()]);
    let c = terminal_invocation("WezTerm", "wezterm", "/s");
    assert_eq!(c.program, "wezterm");
    assert_eq!(c.args, vec!["start".to_string(), "--".to_string(), "/s".to_string()]);
    let c = terminal_invocation("rxvt-unicode", "rxvt-unicode", "/s");
    assert_eq!(c.program, "urxvt");
    let c = terminal_invocation("MyTerm", "myterm", "/s");
    assert_eq!(c.program, "MyTerm");
    assert_eq!(c.args, vec!["-e".to_string(), "/s".to_string()]);
}

#[test]
fn run_update_plan() {
    let updates = vec![FlakeUpdate {
        package_name: "firefox-120.0".to_string(),
        old_package_name: String::new(),
        hash_short: String::new(),
        old_hash_short: String::new(),
    }];
    let plan = run_update("/etc/nixos", "FOOT", &updates, "/tmp/x.sh");
    assert!(plan.script.contains("git commit -m 'Update firefox-120.0'"));
    assert!(plan.script.contains("cd '/etc/nixos'"));
    assert_eq!(plan.command.program, "foot");
    assert_eq!(plan.command.args, vec!["/tmp/x.sh".to_string()]);
}

#[test]
fn update_error_messages() {
    assert_eq!(UpdateError::SpawnFailed("x".to_string()).message(), "Failed to spawn terminal: x");
    assert_eq!(UpdateError::UnsupportedTerminal("y".to_string()).message(), "Unsupported terminal: y");
}

#[test]
fn escaping_parts_one_after_the_other() {
    let whole = escape_quotes("it's 'quoted'");
    let parts = format!("{}{}", escape_quotes("it's '"), escape_quotes("quoted'"));
    assert_eq!(whole, parts);
    assert_eq!(whole, "it'\\''s '\\''quoted'\\''");
}
