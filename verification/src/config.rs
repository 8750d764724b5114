//! The checker's settings and when a check is due.
use vstd::prelude::*;
use vstd::string::*;

use crate::flake_checker::{CheckResult, FlakeCheckError};
use crate::ordering_keys::{ascii_lowercase, is_ascii_text, lowercase, to_lowercase};
use crate::text::str_eq;

verus! {

/// The unit of the check interval.
#[derive(Debug, Clone, Copy, PartialEq, Eq, Structural)]
pub enum IntervalUnit {
    Hours,
    Days,
    Weeks,
}

impl Default for IntervalUnit {
    fn default() -> (r: Self)
        ensures
            r == IntervalUnit::Hours,
    {
        IntervalUnit::Hours
    }
}

/// Minutes in one unit.
pub open spec fn unit_minutes(unit: IntervalUnit) -> nat {
    match unit {
        IntervalUnit::Hours => 60,
        IntervalUnit::Days => 60 * 24,
        IntervalUnit::Weeks => 60 * 24 * 7,
    }
}

/// The lowercase name of a unit.
pub open spec fn unit_name(unit: IntervalUnit) -> Seq<char> {
    match unit {
        IntervalUnit::Hours => "hours"@,
        IntervalUnit::Days => "days"@,
        IntervalUnit::Weeks => "weeks"@,
    }
}

/// The unit that a lowercase name selects: `days` and `weeks` by name, hours otherwise.
pub open spec fn unit_of_lowercase(name: Seq<char>) -> IntervalUnit {
    if name == "days"@ {
        IntervalUnit::Days
    } else if name == "weeks"@ {
        IntervalUnit::Weeks
    } else {
        IntervalUnit::Hours
    }
}

impl IntervalUnit {
    /// `value` units in minutes.
    pub fn to_minutes(&self, value: u32) -> (m: u32)
        requires
            value * unit_minutes(*self) <= u32::MAX,
        ensures
            m == value * unit_minutes(*self),
    {
        proof {
            let v = value as int;
            assert(v * 60 <= v * 1440 && v * 1440 <= v * 10080 && v * 60 * 24 == v * 1440 && v
                * 60 * 24 * 7 == v * 10080) by (nonlinear_arith)
                requires
                    v >= 0,
            ;
        }
        match self {
            IntervalUnit::Hours => value * 60,
            IntervalUnit::Days => value * 60 * 24,
            IntervalUnit::Weeks => value * 60 * 24 * 7,
        }
    }

    /// The lowercase name of the unit.
    pub fn as_str(&self) -> (s: &'static str)
        ensures
            s@ == unit_name(*self),
    {
        match self {
            IntervalUnit::Hours => "hours",
            IntervalUnit::Days => "days",
            IntervalUnit::Weeks => "weeks",
        }
    }

    /// The unit that an already lowercased name selects.
    pub fn from_lowercase(name: &str) -> (u: Self)
        ensures
            u == unit_of_lowercase(name@),
    {
        if str_eq(name, "days") {
            IntervalUnit::Days
        } else if str_eq(name, "weeks") {
            IntervalUnit::Weeks
        } else {
            IntervalUnit::Hours
        }
    }

    /// The unit that a name selects, ignoring case: `days`, `weeks`, otherwise hours.
    pub fn from_str(s: &str) -> (u: Self)
        ensures
            u == unit_of_lowercase(lowercase(s@)),
            is_ascii_text(s@) ==> u == unit_of_lowercase(ascii_lowercase(s@)),
    {
        let lower = to_lowercase(s);
        Self::from_lowercase(lower.as_str())
    }
}

/// The checker's settings.
#[derive(Debug, Clone)]
pub struct Config {
    pub flake_path: String,
    pub check_interval: u32,
    pub check_interval_unit: IntervalUnit,
    /// Unix timestamp of last check (seconds since epoch)
    pub last_check_timestamp: i64,
    /// Cached updates from last check (JSON array)
    pub cached_updates_json: String,
    /// Whether to commit and push after updating
    pub commit_and_push: bool,
    /// Whether to run garbage collection after updating
    pub run_gc_after_update: bool,
    /// Cached download size from last check (e.g. "500.00 MiB")
    pub cached_download_size: String,
    /// Cached unpacked size from last check (e.g. "1500.00 MiB")
    pub cached_unpacked_size: String,
}

/// The default of `commit_and_push` when the setting is missing.
pub fn default_true() -> (b: bool)
    ensures
        b,
{
    true
}

impl Default for Config {
    fn default() -> (c: Self)
        ensures
            c.flake_path@ == "/etc/nixos"@,
            c.check_interval == 1,
            c.check_interval_unit == IntervalUnit::Hours,
            c.last_check_timestamp == 0,
            c.cached_updates_json@.len() == 0,
            c.commit_and_push,
            !c.run_gc_after_update,
            c.cached_download_size@.len() == 0,
            c.cached_unpacked_size@.len() == 0,
    {
        Config {
            flake_path: String::from_str("/etc/nixos"),
            check_interval: 1,
            check_interval_unit: IntervalUnit::Hours,
            last_check_timestamp: 0,
            cached_updates_json: String::new(),
            commit_and_push: true,
            run_gc_after_update: false,
            cached_download_size: String::new(),
            cached_unpacked_size: String::new(),
        }
    }
}

/// The check interval in minutes.
pub open spec fn interval_minutes_of(c: Config) -> nat {
    c.check_interval as nat * unit_minutes(c.check_interval_unit)
}

/// A check is due at time `now`: never checked, or the interval has passed since the
/// last check.
pub open spec fn check_due_at(c: Config, now: i64) -> bool {
    c.last_check_timestamp == 0 || now >= c.last_check_timestamp + interval_minutes_of(c) * 60
}

/// For a config that was checked before, the interval in minutes fits in a `u32`, and
/// the time of the next check in an `i64`.
pub open spec fn schedule_fits(c: Config) -> bool {
    c.last_check_timestamp != 0 ==> {
        &&& interval_minutes_of(c) <= u32::MAX
        &&& c.last_check_timestamp + interval_minutes_of(c) * 60 <= i64::MAX
    }
}

impl Config {
    /// Check if the config is valid (has required fields set)
    pub fn is_valid(&self) -> (b: bool)
        ensures
            b == (self.flake_path@.len() > 0 && self.check_interval > 0),
    {
        !self.flake_path.as_str().is_empty() && self.check_interval > 0
    }

    /// Get the flake path.
    pub fn flake_path(&self) -> (p: String)
        ensures
            p@ == self.flake_path@,
    {
        self.flake_path.clone()
    }

    /// Get the check interval in minutes
    pub fn interval_minutes(&self) -> (m: u32)
        requires
            interval_minutes_of(*self) <= u32::MAX,
        ensures
            m == interval_minutes_of(*self),
    {
        self.check_interval_unit.to_minutes(self.check_interval)
    }

    /// Whether the schedule arithmetic stays in range ([`schedule_fits`]): a settings file
    /// can hold an interval or a check time for which computing the next check would
    /// overflow.
    pub fn schedule_in_range(&self) -> (b: bool)
        ensures
            b == schedule_fits(*self),
    {
        if self.last_check_timestamp == 0 {
            return true;
        }
        let per_unit: u64 = match self.check_interval_unit {
            IntervalUnit::Hours => 60,
            IntervalUnit::Days => 60 * 24,
            IntervalUnit::Weeks => 60 * 24 * 7,
        };
        let count: u64 = self.check_interval as u64;
        assert(count * per_unit <= 0xffff_ffffu64 * 10080) by (nonlinear_arith)
            requires
                count <= 0xffff_ffffu64,
                per_unit <= 10080,
        ;
        let minutes: u64 = count * per_unit;
        assert(minutes == interval_minutes_of(*self));
        if minutes > 0xffff_ffffu64 {
            return false;
        }
        let next: i128 = self.last_check_timestamp as i128 + (minutes as i128) * 60;
        next <= 0x7fff_ffff_ffff_ffffi128
    }

    /// Whether a check is due at time `now` (seconds since the Unix epoch).
    pub fn is_check_due_at(&self, now: i64) -> (b: bool)
        requires
            schedule_fits(*self),
        ensures
            b == check_due_at(*self, now),
    {
        if self.last_check_timestamp == 0 {
            return true;
        }
        let interval_seconds = (self.interval_minutes() as i64) * 60;
        let next_check = self.last_check_timestamp + interval_seconds;
        now >= next_check
    }

    /// Records a finished check made at `timestamp` (seconds since the Unix epoch): its
    /// time always; for a successful check also its updates (serialized as
    /// `updates_json`) and sizes, so that they are shown again at the next start.
    pub fn record_check(
        &mut self,
        timestamp: i64,
        outcome: &Result<CheckResult, FlakeCheckError>,
        updates_json: String,
    )
        ensures
            final(self).last_check_timestamp == timestamp,
            match outcome {
                Ok(c) => {
                    &&& final(self).cached_updates_json@ == updates_json@
                    &&& final(self).cached_download_size@ == c.download_size@
                    &&& final(self).cached_unpacked_size@ == c.unpacked_size@
                },
                Err(_) => {
                    &&& final(self).cached_updates_json == old(self).cached_updates_json
                    &&& final(self).cached_download_size == old(self).cached_download_size
                    &&& final(self).cached_unpacked_size == old(self).cached_unpacked_size
                },
            },
            final(self).flake_path == old(self).flake_path,
            final(self).check_interval == old(self).check_interval,
            final(self).check_interval_unit == old(self).check_interval_unit,
            final(self).commit_and_push == old(self).commit_and_push,
            final(self).run_gc_after_update == old(self).run_gc_after_update,
    {
        self.last_check_timestamp = timestamp;
        if let Ok(c) = outcome {
            self.cached_updates_json = updates_json;
            self.cached_download_size = c.download_size.clone();
            self.cached_unpacked_size = c.unpacked_size.clone();
        }
    }
}


/// The name of a unit selects that unit, also when read ignoring case: it is ASCII and
/// already lowercase.
pub proof fn lemma_unit_name_round_trip(u: IntervalUnit)
    ensures
        unit_of_lowercase(unit_name(u)) == u,
        is_ascii_text(unit_name(u)),
        ascii_lowercase(unit_name(u)) == unit_name(u),
{
    reveal_strlit("hours");
    reveal_strlit("days");
    reveal_strlit("weeks");
    assert("hours"@.len() != "days"@.len());
    assert("hours"@[0] != "weeks"@[0]);
    assert("days"@.len() != "weeks"@.len());
    assert(ascii_lowercase(unit_name(u)) =~= unit_name(u));
}

} // verus!
