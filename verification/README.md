# nixos-update-checker

Checks a NixOS flake for package updates without applying them, and shows what an
update would change.

## Layout

- `src/` — the verified library (Verus):
  - `text.rs` — strings as character sequences: whitespace, trimming, searching,
    line splitting, UTF-8 byte lengths, decimal notation.
  - `store_path.rs` — package name and short hash of a nix store path; internal
    entries that are never shown.
  - `flake_update.rs` — an update, its version, base name and display text.
  - `installed.rs` — packages of the running system, keyed by base name.
  - `dry_build.rs` — line-by-line reading of `nixos-rebuild dry-build` output, with
    deduplication of the packages found.
  - `ordering_keys.rs` — stable ordering by lowercase package name.
  - `flake_checker.rs` — the parse entry point, commit message, tooltip text, git
    metadata parsing, and the laws of the report.
  - `check_flow.rs` — the steps of a check: which file to read or command to run
    next, given what the last step gave back, and the errors it ends with.
  - `config.rs` — settings, interval arithmetic, when a check is due.
  - `update_runner.rs` — the update script and the terminal command that runs it.
  - `tray.rs` — the indicator's state and how each action changes it.
- `app/` — the program around the library: settings file I/O (TOML), the JSON update
  cache, performing the steps of a check (files, git, nix), the single-instance lock,
  starting the terminal.
- `tests/` — tests of the library.
