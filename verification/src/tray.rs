//! The state of the tray indicator and how each of its actions changes it; the
//! user interface shows these properties and performs the outside work that the
//! actions ask for.
use vstd::prelude::*;
use vstd::string::*;

use crate::config::{check_due_at, schedule_fits, unit_of_lowercase, Config, IntervalUnit};
use crate::flake_checker::{
    error_message, format_updates_tooltip, updates_tooltip, CheckResult, FlakeCheckError,
};
use crate::flake_update::{update_views, FlakeUpdate};
use crate::ordering_keys::lowercase;
use crate::text::str_eq;

verus! {

/// The Unix timestamps (in whole seconds) that chrono can represent: from
/// -262143-01-01 00:00:00 UTC to 262142-12-31 23:59:59 UTC, the span of
/// `DateTime::<Utc>::MIN_UTC` to `MAX_UTC`.
pub open spec fn in_chrono_range(secs: i64) -> bool {
    -8_334_601_228_800 <= secs <= 8_210_266_876_799
}

/// Whether chrono can represent the Unix timestamp `secs`.
pub fn in_timestamp_range(secs: i64) -> (b: bool)
    ensures
        b == in_chrono_range(secs),
{
    -8_334_601_228_800i64 <= secs && secs <= 8_210_266_876_799i64
}

/// The words chrono-humanize gives (`HumanTime`'s rough `Display`) for the span from the
/// time `now` to the time `secs`, both Unix timestamps in whole seconds: "now", "2 hours
/// ago", "in a day", and so on.
pub uninterp spec fn humanized(secs: i64, now: i64) -> Seq<char>;

/// chrono's `DateTime::<Utc>::from_timestamp(secs, 0)` and `(now, 0)`, the span from the
/// second to the first (`signed_duration_since`), rendered by chrono_humanize's
/// `HumanTime::from(..).to_string()`. chrono gives no time for a timestamp out of its
/// range; then there are no words. The contract claims that the words are a fixed
/// function of the two timestamps (named [`humanized`]); chrono-humanize's wording, which
/// is one of "now", "eternity", or a count with a unit before "ago" or after "in", is
/// not stated beyond that it is neither "Never" nor "Unknown".
#[verifier::external_body]
fn humanized_between(secs: i64, now: i64) -> (r: Option<String>)
    requires
        in_chrono_range(now),
    ensures
        r is None <==> !in_chrono_range(secs),
        r matches Some(h) ==> h@ == humanized(secs, now),
        r matches Some(h) ==> h@ != "Never"@ && h@ != "Unknown"@,
{
    match (
        chrono::DateTime::<chrono::Utc>::from_timestamp(secs, 0),
        chrono::DateTime::<chrono::Utc>::from_timestamp(now, 0),
    ) {
        (Some(at), Some(clock)) => Some(
            chrono_humanize::HumanTime::from(at.signed_duration_since(clock)).to_string(),
        ),
        _ => None,
    }
}

/// The label of a check time: `Never` for the zero timestamp, `Unknown` when the time
/// could not be read, `just now` for chrono_humanize's `now`, else its words.
pub open spec fn relative_label(timestamp: i64, humanized: Option<Seq<char>>) -> Seq<char> {
    if timestamp == 0 {
        "Never"@
    } else {
        match humanized {
            None => "Unknown"@,
            Some(h) => if h == "now"@ {
                "just now"@
            } else {
                h
            },
        }
    }
}

/// The label of a check time, given the words chrono_humanize has for it (none when the
/// timestamp is out of range).
pub fn relative_time_label(timestamp: i64, humanized: Option<&str>) -> (s: String)
    ensures
        s@ == relative_label(
            timestamp,
            match humanized {
                Some(h) => Some(h@),
                None => None,
            },
        ),
{
    if timestamp == 0 {
        return String::from_str("Never");
    }
    match humanized {
        None => String::from_str("Unknown"),
        Some(h) => if str_eq(h, "now") {
            String::from_str("just now")
        } else {
            String::from_str(h)
        },
    }
}

/// The label of the check time `timestamp` at the time `now`: `Never` for the zero
/// timestamp, `Unknown` out of chrono's range, else chrono-humanize's words for it
/// (`just now` for its `now`).
pub open spec fn time_label(timestamp: i64, now: i64) -> Seq<char> {
    relative_label(
        timestamp,
        if in_chrono_range(timestamp) {
            Some(humanized(timestamp, now))
        } else {
            None
        },
    )
}

/// Format a timestamp as relative time ("2 hours ago", "3 days ago", etc.), seen from
/// the time `now` (the clock's reading, in seconds since the Unix epoch).
pub fn format_relative_time(timestamp: i64, now: i64) -> (s: String)
    requires
        in_chrono_range(now),
    ensures
        s@ == time_label(timestamp, now),
        timestamp == 0 ==> s@ == "Never"@,
        timestamp != 0 && !in_chrono_range(timestamp) ==> s@ == "Unknown"@,
        timestamp != 0 && in_chrono_range(timestamp) ==> s@ != "Never"@ && s@ != "Unknown"@,
{
    if timestamp == 0 {
        return String::from_str("Never");
    }
    let human = humanized_between(timestamp, now);
    proof {
        reveal_strlit("just now");
        reveal_strlit("Never");
        reveal_strlit("Unknown");
        assert("just now"@[0] != "Never"@[0]);
        assert("just now"@[0] != "Unknown"@[0]);
    }
    match human {
        Some(h) => relative_time_label(timestamp, Some(h.as_str())),
        None => relative_time_label(timestamp, None),
    }
}

/// The tooltip: the updates found, and when the last check was.
pub open spec fn tooltip_of(
    us: Seq<crate::flake_update::UpdateView>,
    last_checked: Seq<char>,
) -> Seq<char> {
    if us.len() == 0 {
        "NixOS Update Checker\nNo updates available\nLast checked: "@ + last_checked
    } else {
        "NixOS Update Checker\n"@ + updates_tooltip(us, Seq::empty(), Seq::empty())
            + "\nLast checked: "@ + last_checked
    }
}

/// Build tooltip text from the updates and the label of the last check time.
pub fn tooltip_with(updates: &[FlakeUpdate], last_checked: &str) -> (s: String)
    ensures
        s@ == tooltip_of(update_views(updates@), last_checked@),
{
    if updates.len() == 0 {
        String::from_str("NixOS Update Checker\nNo updates available\nLast checked: ").concat(
            last_checked,
        )
    } else {
        let summary = format_updates_tooltip(updates, "", "");
        assert(""@ =~= Seq::<char>::empty()) by {
            reveal_strlit("");
        }
        String::from_str("NixOS Update Checker\n").concat(summary.as_str()).concat(
            "\nLast checked: ",
        ).concat(last_checked)
    }
}

/// Build tooltip text with last check time and update status, seen from the time `now`.
pub fn build_tooltip(updates: &[FlakeUpdate], last_check_timestamp: i64, now: i64) -> (s: String)
    requires
        in_chrono_range(now),
    ensures
        s@ == tooltip_of(update_views(updates@), time_label(last_check_timestamp, now)),
{
    let last_checked = format_relative_time(last_check_timestamp, now);
    tooltip_with(updates, last_checked.as_str())
}

/// The properties that the tray indicator shows.
#[derive(Debug, Clone)]
pub struct UpdateChecker {
    pub has_updates: bool,
    pub update_count: i32,
    pub update_summary: String,
    pub tooltip_text: String,
    pub flake_path: String,
    pub check_interval: i32,
    /// "hours", "days", "weeks"
    pub check_interval_unit: String,
    pub checking: bool,
    pub last_check_time: String,
    pub status_message: String,
    pub updates_json: String,
    pub update_running: bool,
    pub update_output: String,
    pub update_status_line: String,
    /// The last known `/run/current-system` target, to notice outside updates.
    pub cached_system_path: String,
}

/// The icon for a state: checking, updates available, or idle.
pub open spec fn icon_path_of(checking: bool, has_updates: bool) -> Seq<char> {
    if checking {
        "qrc:/icons/nix-flake-checking.svg"@
    } else if has_updates {
        "qrc:/icons/nix-flake-update.svg"@
    } else {
        "qrc:/icons/nix-flake.svg"@
    }
}

impl Default for UpdateChecker {
    fn default() -> (r: Self)
        ensures
            !r.has_updates,
            r.update_count == 0,
            r.update_summary@.len() == 0,
            r.tooltip_text@.len() == 0,
            r.flake_path@.len() == 0,
            r.check_interval == 0,
            r.check_interval_unit@.len() == 0,
            !r.checking,
            r.last_check_time@.len() == 0,
            r.status_message@.len() == 0,
            r.updates_json@.len() == 0,
            !r.update_running,
            r.update_output@.len() == 0,
            r.update_status_line@.len() == 0,
            r.cached_system_path@.len() == 0,
    {
        UpdateChecker {
            has_updates: false,
            update_count: 0,
            update_summary: String::new(),
            tooltip_text: String::new(),
            flake_path: String::new(),
            check_interval: 0,
            check_interval_unit: String::new(),
            checking: false,
            last_check_time: String::new(),
            status_message: String::new(),
            updates_json: String::new(),
            update_running: false,
            update_output: String::new(),
            update_status_line: String::new(),
            cached_system_path: String::new(),
        }
    }
}

impl UpdateChecker {
    /// Get the icon path based on update state
    pub fn get_icon_path(&self) -> (s: String)
        ensures
            s@ == icon_path_of(self.checking, self.has_updates),
    {
        if self.checking {
            String::from_str("qrc:/icons/nix-flake-checking.svg")
        } else if self.has_updates {
            String::from_str("qrc:/icons/nix-flake-update.svg")
        } else {
            String::from_str("qrc:/icons/nix-flake.svg")
        }
    }

    /// Get the flake path for the update script
    pub fn get_update_script_path(&self) -> (s: String)
        ensures
            s@ == self.flake_path@,
    {
        self.flake_path.clone()
    }

    /// Clear the update output
    pub fn clear_output(&mut self)
        ensures
            final(self).update_output@.len() == 0,
            final(self).update_status_line@.len() == 0,
            *final(self) == (UpdateChecker {
                update_output: final(self).update_output,
                update_status_line: final(self).update_status_line,
                ..*old(self)
            }),
    {
        self.update_output = String::new();
        self.update_status_line = String::new();
    }

    /// Starts a manual update check: answers the flake path to check in the background,
    /// or none when a check is running or no flake path is set.
    pub fn check_now(&mut self) -> (path: Option<String>)
        ensures
            old(self).checking ==> path is None && *final(self) == *old(self),
            !old(self).checking && old(self).flake_path@.len() == 0 ==> path is None
                && final(self).status_message@ == "No flake path configured"@
                && *final(self) == (UpdateChecker {
                status_message: final(self).status_message,
                ..*old(self)
            }),
            !old(self).checking && old(self).flake_path@.len() > 0 ==> {
                &&& path matches Some(p) && p@ == old(self).flake_path@
                &&& final(self).checking
                &&& final(self).status_message@ == "Checking for updates..."@
                &&& final(self).tooltip_text@ == "NixOS Update Checker\nChecking for updates..."@
                &&& *final(self) == (UpdateChecker {
                    checking: true,
                    status_message: final(self).status_message,
                    tooltip_text: final(self).tooltip_text,
                    ..*old(self)
                })
            },
    {
        if self.checking {
            return None;
        }
        if self.flake_path.as_str().is_empty() {
            self.status_message = String::from_str("No flake path configured");
            return None;
        }
        self.checking = true;
        self.status_message = String::from_str("Checking for updates...");
        self.tooltip_text = String::from_str("NixOS Update Checker\nChecking for updates...");
        Some(self.flake_path.clone())
    }

    /// Takes in the outcome of a background check made at the time labelled
    /// `last_checked`; `updates_json` is the serialized list of updates found.
    /// Nothing changes while no check is running.
    pub fn finish_check(
        &mut self,
        outcome: &Result<CheckResult, FlakeCheckError>,
        last_checked: &str,
        updates_json: String,
    )
        ensures
            !old(self).checking ==> *final(self) == *old(self),
            old(self).checking ==> {
                &&& !final(self).checking
                &&& final(self).last_check_time@ == last_checked@
                &&& match outcome {
                    Ok(c) => {
                        &&& final(self).has_updates == (c.updates@.len() > 0)
                        &&& final(self).update_count == c.updates@.len() as i32
                        &&& final(self).update_summary@ == updates_tooltip(
                            update_views(c.updates@),
                            c.download_size@,
                            c.unpacked_size@,
                        )
                        &&& final(self).tooltip_text@ == tooltip_of(
                            update_views(c.updates@),
                            last_checked@,
                        )
                        &&& final(self).updates_json@ == updates_json@
                        &&& final(self).status_message@ == "Check complete"@
                    },
                    Err(e) => {
                        &&& final(self).status_message@ == "Error: "@ + error_message(*e)
                        &&& final(self).tooltip_text@
                            == "NixOS Update Checker\nCheck failed\nLast checked: "@
                            + last_checked@
                        &&& final(self).has_updates == old(self).has_updates
                        &&& final(self).update_count == old(self).update_count
                        &&& final(self).update_summary == old(self).update_summary
                        &&& final(self).updates_json == old(self).updates_json
                    },
                }
                &&& *final(self) == (UpdateChecker {
                    checking: false,
                    last_check_time: final(self).last_check_time,
                    has_updates: final(self).has_updates,
                    update_count: final(self).update_count,
                    update_summary: final(self).update_summary,
                    tooltip_text: final(self).tooltip_text,
                    updates_json: final(self).updates_json,
                    status_message: final(self).status_message,
                    ..*old(self)
                })
            },
    {
        if !self.checking {
            return ;
        }
        match outcome {
            Ok(c) => {
                let n = c.updates.len();
                self.has_updates = n > 0;
                self.update_count = n as i32;
                self.update_summary = format_updates_tooltip(
                    c.updates.as_slice(),
                    c.download_size.as_str(),
                    c.unpacked_size.as_str(),
                );
                self.tooltip_text = tooltip_with(c.updates.as_slice(), last_checked);
                self.updates_json = updates_json;
                self.status_message = String::from_str("Check complete");
            },
            Err(e) => {
                self.status_message = String::from_str("Error: ").concat(e.message().as_str());
                self.tooltip_text = String::from_str(
                    "NixOS Update Checker\nCheck failed\nLast checked: ",
                ).concat(last_checked);
            },
        }
        self.last_check_time = String::from_str(last_checked);
        self.checking = false;
    }

    /// Check if an update check is due at the time `now` (seconds since the Unix epoch):
    /// when the settings cannot be loaded, it is.
    pub fn is_check_due(&self, loaded: Option<&Config>, now: i64) -> (due: bool)
        requires
            loaded matches Some(c) ==> schedule_fits(*c),
        ensures
            due == match loaded {
                Some(c) => check_due_at(*c, now),
                None => true,
            },
    {
        match loaded {
            Some(c) => c.is_check_due_at(now),
            None => true,
        }
    }

    /// Takes in the settings loaded at start, with the updates cached in them and the
    /// label of their last check time; answers whether updates are shown. When the
    /// settings could not be loaded (`Err` holds why), the defaults are shown.
    pub fn load_config(
        &mut self,
        loaded: &Result<Config, String>,
        cached_updates: &[FlakeUpdate],
        last_checked: &str,
    ) -> (has_updates: bool)
        ensures
            match loaded {
                Ok(c) => {
                    &&& final(self).flake_path@ == c.flake_path@
                    &&& final(self).check_interval == c.check_interval as i32
                    &&& final(self).check_interval_unit@ == crate::config::unit_name(
                        c.check_interval_unit,
                    )
                    &&& c.last_check_timestamp > 0 ==> final(self).last_check_time@
                        == last_checked@
                    &&& c.last_check_timestamp <= 0 ==> final(self).last_check_time
                        == old(self).last_check_time
                    &&& has_updates == (cached_updates@.len() > 0)
                    &&& final(self).has_updates == has_updates
                    &&& final(self).update_count == cached_updates@.len() as i32
                    &&& final(self).updates_json@ == c.cached_updates_json@
                    &&& has_updates ==> final(self).update_summary@ == updates_tooltip(
                        update_views(cached_updates@),
                        c.cached_download_size@,
                        c.cached_unpacked_size@,
                    )
                    &&& !has_updates ==> final(self).update_summary
                        == old(self).update_summary
                    &&& final(self).tooltip_text@ == tooltip_of(
                        update_views(cached_updates@),
                        last_checked@,
                    )
                    &&& final(self).status_message@ == "Configuration loaded"@
                },
                Err(m) => {
                    &&& !has_updates
                    &&& final(self).status_message@ == "Failed to load config: "@ + m@
                    &&& final(self).flake_path@ == "/etc/nixos"@
                    &&& final(self).check_interval == 1
                    &&& final(self).check_interval_unit@ == "hours"@
                    &&& final(self).tooltip_text@ == "NixOS Update Checker\nLast checked: Never"@
                    &&& final(self).has_updates == old(self).has_updates
                    &&& final(self).update_count == old(self).update_count
                    &&& final(self).update_summary == old(self).update_summary
                    &&& final(self).updates_json == old(self).updates_json
                    &&& final(self).last_check_time == old(self).last_check_time
                },
            },
            *final(self) == (UpdateChecker {
                flake_path: final(self).flake_path,
                check_interval: final(self).check_interval,
                check_interval_unit: final(self).check_interval_unit,
                last_check_time: final(self).last_check_time,
                has_updates: final(self).has_updates,
                update_count: final(self).update_count,
                updates_json: final(self).updates_json,
                update_summary: final(self).update_summary,
                tooltip_text: final(self).tooltip_text,
                status_message: final(self).status_message,
                ..*old(self)
            }),
    {
        match loaded {
            Ok(c) => {
                self.flake_path = c.flake_path.clone();
                self.check_interval = c.check_interval as i32;
                self.check_interval_unit = String::from_str(c.check_interval_unit.as_str());
                if c.last_check_timestamp > 0 {
                    self.last_check_time = String::from_str(last_checked);
                }
                let n = cached_updates.len();
                let has_updates = n > 0;
                self.has_updates = has_updates;
                self.update_count = n as i32;
                self.updates_json = c.cached_updates_json.clone();
                if has_updates {
                    self.update_summary = format_updates_tooltip(
                        cached_updates,
                        c.cached_download_size.as_str(),
                        c.cached_unpacked_size.as_str(),
                    );
                }
                self.tooltip_text = tooltip_with(cached_updates, last_checked);
                self.status_message = String::from_str("Configuration loaded");
                has_updates
            },
            Err(m) => {
                self.status_message = String::from_str("Failed to load config: ").concat(
                    m.as_str(),
                );
                self.flake_path = String::from_str("/etc/nixos");
                self.check_interval = 1;
                self.check_interval_unit = String::from_str("hours");
                self.tooltip_text = String::from_str("NixOS Update Checker\nLast checked: Never");
                false
            },
        }
    }

    /// Takes in the target of `/run/current-system` (empty when it cannot be read);
    /// answers whether a full recheck is due because the system changed while updates
    /// were shown.
    pub fn check_system_changed(&mut self, current_system: String) -> (recheck: bool)
        ensures
            old(self).cached_system_path@.len() == 0 ==> !recheck
                && final(self).cached_system_path@ == current_system@ && final(self).status_message
                == old(self).status_message,
            old(self).cached_system_path@.len() > 0 && current_system@
                == old(self).cached_system_path@ ==> !recheck && *final(self) == *old(self),
            old(self).cached_system_path@.len() > 0 && current_system@
                != old(self).cached_system_path@ ==> {
                &&& final(self).cached_system_path@ == current_system@
                &&& recheck == old(self).has_updates
                &&& recheck ==> final(self).status_message@ == "System changed, rechecking..."@
                &&& !recheck ==> final(self).status_message == old(self).status_message
            },
            *final(self) == (UpdateChecker {
                cached_system_path: final(self).cached_system_path,
                status_message: final(self).status_message,
                ..*old(self)
            }),
    {
        if self.cached_system_path.as_str().is_empty() {
            self.cached_system_path = current_system;
            return false;
        }
        if !str_eq(current_system.as_str(), self.cached_system_path.as_str()) {
            self.cached_system_path = current_system;
            if self.has_updates {
                self.status_message = String::from_str("System changed, rechecking...");
                return true;
            }
        }
        false
    }

    /// Refresh the last check time display from the saved settings: the label of the
    /// last check time, and the tooltip with the cached updates.
    pub fn refresh_last_check_time(
        &mut self,
        last_check_timestamp: i64,
        cached_updates: &[FlakeUpdate],
        last_checked: &str,
    )
        ensures
            last_check_timestamp > 0 ==> final(self).last_check_time@ == last_checked@
                && final(self).tooltip_text@ == tooltip_of(
                update_views(cached_updates@),
                last_checked@,
            ),
            last_check_timestamp <= 0 ==> *final(self) == *old(self),
            *final(self) == (UpdateChecker {
                last_check_time: final(self).last_check_time,
                tooltip_text: final(self).tooltip_text,
                ..*old(self)
            }),
    {
        if last_check_timestamp > 0 {
            self.last_check_time = String::from_str(last_checked);
            self.tooltip_text = tooltip_with(cached_updates, last_checked);
        }
    }

    /// The settings to save from the configuration dialog: the new flake path, interval
    /// and unit name, keeping the rest of `existing`.
    pub fn config_to_save(flake_path: &str, interval: i32, unit: &str, existing: &Config) -> (c: Config)
        ensures
            c.flake_path@ == flake_path@,
            c.check_interval == interval as u32,
            c.check_interval_unit == unit_of_lowercase(lowercase(unit@)),
            c.last_check_timestamp == existing.last_check_timestamp,
            c.cached_updates_json@ == existing.cached_updates_json@,
            c.commit_and_push == existing.commit_and_push,
            c.run_gc_after_update == existing.run_gc_after_update,
            c.cached_download_size@ == existing.cached_download_size@,
            c.cached_unpacked_size@ == existing.cached_unpacked_size@,
    {
        Config {
            flake_path: String::from_str(flake_path),
            check_interval: interval as u32,
            check_interval_unit: IntervalUnit::from_str(unit),
            last_check_timestamp: existing.last_check_timestamp,
            cached_updates_json: existing.cached_updates_json.clone(),
            commit_and_push: existing.commit_and_push,
            run_gc_after_update: existing.run_gc_after_update,
            cached_download_size: existing.cached_download_size.clone(),
            cached_unpacked_size: existing.cached_unpacked_size.clone(),
        }
    }

    /// Takes in the result of saving the settings from the configuration dialog (`Err`
    /// holds why it failed); on success the dialog's values are shown.
    pub fn save_config(&mut self, flake_path: String, interval: i32, unit: String, saved: &Result<(), String>)
        ensures
            match saved {
                Ok(()) => {
                    &&& final(self).flake_path == flake_path
                    &&& final(self).check_interval == interval
                    &&& final(self).check_interval_unit == unit
                    &&& final(self).status_message@ == "Configuration saved"@
                },
                Err(m) => {
                    &&& final(self).status_message@ == "Failed to save config: "@ + m@
                    &&& final(self).flake_path == old(self).flake_path
                    &&& final(self).check_interval == old(self).check_interval
                    &&& final(self).check_interval_unit == old(self).check_interval_unit
                },
            },
            *final(self) == (UpdateChecker {
                flake_path: final(self).flake_path,
                check_interval: final(self).check_interval,
                check_interval_unit: final(self).check_interval_unit,
                status_message: final(self).status_message,
                ..*old(self)
            }),
    {
        match saved {
            Err(m) => {
                self.status_message = String::from_str("Failed to save config: ").concat(
                    m.as_str(),
                );
            },
            Ok(()) => {
                self.flake_path = flake_path;
                self.check_interval = interval;
                self.check_interval_unit = unit;
                self.status_message = String::from_str("Configuration saved");
            },
        }
    }
}

} // verus!
