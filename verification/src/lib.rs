//! Verified core of the NixOS flake update checker: reading `nixos-rebuild dry-build`
//! output into package updates, the texts shown for them, the settings, the update
//! script, and the state of the tray indicator.
pub mod check_flow;
pub mod config;
pub mod dry_build;
pub mod flake_checker;
pub mod flake_update;
pub mod installed;
pub mod ordering_keys;
pub mod store_path;
pub mod text;
pub mod tray;
pub mod update_runner;
