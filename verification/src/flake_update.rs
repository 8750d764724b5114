//! A package that an update would change, and how it is named and shown.
use vstd::prelude::*;
use vstd::string::*;

use crate::text::{
    char_is_ascii_digit, chars_of, is_ascii_digit, last_index_of, last_index_of_char,
    lemma_last_index_of_bounds, str_eq,
};

verus! {

/// Represents a package that would be updated.
#[derive(Debug, Clone, PartialEq, Eq)]
pub struct FlakeUpdate {
    pub package_name: String,
    /// Full name of the OLD (currently installed) package
    pub old_package_name: String,
    /// First 8 bytes of the NEW nix store hash
    pub hash_short: String,
    /// First 8 bytes of the OLD (currently installed) nix store hash
    pub old_hash_short: String,
}

/// The four texts of a [`FlakeUpdate`].
pub struct UpdateView {
    pub package_name: Seq<char>,
    pub old_package_name: Seq<char>,
    pub hash_short: Seq<char>,
    pub old_hash_short: Seq<char>,
}

impl View for FlakeUpdate {
    type V = UpdateView;

    open spec fn view(&self) -> UpdateView {
        UpdateView {
            package_name: self.package_name@,
            old_package_name: self.old_package_name@,
            hash_short: self.hash_short@,
            old_hash_short: self.old_hash_short@,
        }
    }
}

/// The views of a sequence of updates.
pub open spec fn update_views(s: Seq<FlakeUpdate>) -> Seq<UpdateView> {
    s.map_values(|u: FlakeUpdate| u@)
}

/// The version part of a package name: what follows the last `-`, when it starts
/// with an ASCII digit ("firefox-120.0" has "120.0").
pub open spec fn version_of(name: Seq<char>) -> Option<Seq<char>> {
    match last_index_of(name, '-') {
        Some(p) => {
            let after = name.skip(p + 1);
            if after.len() > 0 && is_ascii_digit(after[0]) {
                Some(after)
            } else {
                None
            }
        },
        None => None,
    }
}

/// The name without its version part ("firefox-120.0" has "firefox"); the whole name
/// when it has no version part.
pub open spec fn base_name_of(name: Seq<char>) -> Seq<char> {
    match last_index_of(name, '-') {
        Some(p) => if version_of(name) is Some {
            name.take(p)
        } else {
            name
        },
        None => name,
    }
}

/// The version of the installed package: none when its name is empty.
pub open spec fn old_version_of(u: UpdateView) -> Option<Seq<char>> {
    if u.old_package_name.len() == 0 {
        None
    } else {
        version_of(u.old_package_name)
    }
}

/// How an update is shown in the tooltip.
pub open spec fn display_of(u: UpdateView) -> Seq<char> {
    let new_ver = version_of(u.package_name);
    let old_ver = old_version_of(u);
    let base = base_name_of(u.package_name);
    let h = u.hash_short;
    let oh = u.old_hash_short;
    if old_ver is Some && new_ver is Some && old_ver->0 != new_ver->0 {
        // both have versions and they differ
        base + " ("@ + old_ver->0 + " → "@ + new_ver->0 + ")"@
    } else if old_ver is Some && new_ver is Some && old_ver->0 == new_ver->0 && oh.len() > 0
        && h.len() > 0 {
        // same version: show with hashes
        base + " ("@ + old_ver->0 + " "@ + oh + " → "@ + h + ")"@
    } else if old_ver is None && new_ver is Some && oh.len() > 0 {
        // only the new one has a version
        base + " ("@ + oh + " → "@ + new_ver->0 + ")"@
    } else if old_ver is Some && new_ver is None && h.len() > 0 {
        // only the old one has a version
        base + " ("@ + old_ver->0 + " → "@ + h + ")"@
    } else if oh.len() > 0 && h.len() > 0 {
        // fall back to hashes
        base + " ("@ + oh + " → "@ + h + ")"@
    } else if h.len() > 0 {
        // new package
        u.package_name + " (new: "@ + h + ")"@
    } else {
        u.package_name
    }
}

/// Position of the `-` that starts the version part of `name`, if it has one.
fn version_dash(cs: &[char]) -> (r: Option<usize>)
    ensures
        r matches Some(p) ==> {
            &&& last_index_of(cs@, '-') == Some(p as int)
            &&& version_of(cs@) is Some
            &&& p < cs@.len()
        },
        r is None ==> version_of(cs@) is None,
{
    proof {
        lemma_last_index_of_bounds(cs@, '-');
    }
    match last_index_of_char(cs, '-') {
        Some(p) => {
            let n = cs.len();
            if p + 1 < n && char_is_ascii_digit(cs[p + 1]) {
                Some(p)
            } else {
                None
            }
        },
        None => None,
    }
}

impl FlakeUpdate {
    /// A copy of this update.
    pub fn duplicate(&self) -> (r: Self)
        ensures
            r@ == self@,
    {
        FlakeUpdate {
            package_name: self.package_name.clone(),
            old_package_name: self.old_package_name.clone(),
            hash_short: self.hash_short.clone(),
            old_hash_short: self.old_hash_short.clone(),
        }
    }

    /// Extract version from a package name (e.g., "firefox-120.0" -> "120.0")
    pub fn extract_version(name: &str) -> (r: Option<&str>)
        ensures
            r matches Some(v) ==> version_of(name@) == Some(v@),
            r is None ==> version_of(name@) is None,
    {
        let cs = chars_of(name);
        match version_dash(cs.as_slice()) {
            Some(p) => {
                let n = cs.len();
                assert(p < n);
                let v = name.substring_char(p + 1, n);
                Some(v)
            },
            None => None,
        }
    }

    /// Get the new version
    pub fn version(&self) -> (r: Option<&str>)
        ensures
            r matches Some(v) ==> version_of(self.package_name@) == Some(v@),
            r is None ==> version_of(self.package_name@) is None,
    {
        Self::extract_version(self.package_name.as_str())
    }

    /// Get the old version
    pub fn old_version(&self) -> (r: Option<&str>)
        ensures
            r matches Some(v) ==> old_version_of(self@) == Some(v@),
            r is None ==> old_version_of(self@) is None,
    {
        if self.old_package_name.as_str().is_empty() {
            None
        } else {
            Self::extract_version(self.old_package_name.as_str())
        }
    }

    /// Get the base name without version (for deduplication)
    pub fn base_name(&self) -> (r: &str)
        ensures
            r@ == base_name_of(self.package_name@),
    {
        let name = self.package_name.as_str();
        let cs = chars_of(name);
        match version_dash(cs.as_slice()) {
            Some(p) => name.substring_char(0, p),
            None => name,
        }
    }

    /// Format the update for display in tooltip
    pub fn display(&self) -> (s: String)
        ensures
            s@ == display_of(self@),
    {
        let new_ver = self.version();
        let old_ver = self.old_version();
        let has_hash = !self.hash_short.as_str().is_empty();
        let has_old_hash = !self.old_hash_short.as_str().is_empty();
        match (old_ver, new_ver) {
            (Some(old), Some(new)) => {
                if !str_eq(old, new) {
                    let s = String::from_str(self.base_name()).concat(" (").concat(old).concat(
                        " → ",
                    ).concat(new).concat(")");
                    return s;
                }
                if has_old_hash && has_hash {
                    let s = String::from_str(self.base_name()).concat(" (").concat(old).concat(
                        " ",
                    ).concat(self.old_hash_short.as_str()).concat(" → ").concat(
                        self.hash_short.as_str(),
                    ).concat(")");
                    return s;
                }
            },
            (None, Some(new)) => {
                if has_old_hash {
                    let s = String::from_str(self.base_name()).concat(" (").concat(
                        self.old_hash_short.as_str(),
                    ).concat(" → ").concat(new).concat(")");
                    return s;
                }
            },
            (Some(old), None) => {
                if has_hash {
                    let s = String::from_str(self.base_name()).concat(" (").concat(old).concat(
                        " → ",
                    ).concat(self.hash_short.as_str()).concat(")");
                    return s;
                }
            },
            (None, None) => {},
        }
        if has_old_hash && has_hash {
            String::from_str(self.base_name()).concat(" (").concat(
                self.old_hash_short.as_str(),
            ).concat(" → ").concat(self.hash_short.as_str()).concat(")")
        } else if has_hash {
            String::from_str(self.package_name.as_str()).concat(" (new: ").concat(
                self.hash_short.as_str(),
            ).concat(")")
        } else {
            self.package_name.clone()
        }
    }
}


/// A package name is its base name, then `-` and its version, when it has a version;
/// otherwise it is its own base name.
pub proof fn lemma_name_is_base_and_version(name: Seq<char>)
    ensures
        version_of(name) matches Some(v) ==> {
            &&& base_name_of(name) + seq!['-'] + v == name
            &&& v.len() > 0
            &&& is_ascii_digit(v[0])
        },
        version_of(name) is None ==> base_name_of(name) == name,
{
    lemma_last_index_of_bounds(name, '-');
    match last_index_of(name, '-') {
        Some(p) => {
            if version_of(name) is Some {
                assert(name.take(p) + seq!['-'] + name.skip(p + 1) =~= name);
            }
        },
        None => {},
    }
}

/// A name made of a base name, `-`, and a version that starts with a digit and holds no
/// `-` has that version and that base name.
pub proof fn lemma_versioned_name(base: Seq<char>, v: Seq<char>)
    requires
        v.len() > 0,
        is_ascii_digit(v[0]),
        !v.contains('-'),
    ensures
        version_of(base + seq!['-'] + v) == Some(v),
        base_name_of(base + seq!['-'] + v) == base,
{
    let s = base + seq!['-'] + v;
    let p = base.len() as int;
    lemma_last_index_of_bounds(s, '-');
    assert(s[p] == '-');
    assert forall|j: int| p < j < s.len() implies s[j] != '-' by {
        assert(s[j] == v[j - p - 1]);
        if s[j] == '-' {
            assert(v.contains('-'));
        }
    }
    assert(last_index_of(s, '-') == Some(p));
    assert(s.skip(p + 1) =~= v);
    assert(s.take(p) =~= base);
}

/// An update between two different versions is shown as the base name with the
/// installed and the new version: "firefox-120.0" replacing "firefox-119.0" shows as
/// "firefox (119.0 → 120.0)", and "firefox-120.0.1" replacing "firefox-120.0" as
/// "firefox (120.0 → 120.0.1)"; hashes are shown after the version only when the two
/// versions are the same.
pub proof fn lemma_display_versions(
    u: UpdateView,
    base: Seq<char>,
    old_base: Seq<char>,
    old: Seq<char>,
    new: Seq<char>,
)
    requires
        u.package_name == base + seq!['-'] + new,
        u.old_package_name == old_base + seq!['-'] + old,
        new.len() > 0 && is_ascii_digit(new[0]) && !new.contains('-'),
        old.len() > 0 && is_ascii_digit(old[0]) && !old.contains('-'),
    ensures
        old != new ==> display_of(u) == base + " ("@ + old + " → "@ + new + ")"@,
        old == new && u.old_hash_short.len() > 0 && u.hash_short.len() > 0 ==> display_of(u)
            == base + " ("@ + old + " "@ + u.old_hash_short + " → "@ + u.hash_short + ")"@,
{
    lemma_versioned_name(base, new);
    lemma_versioned_name(old_base, old);
}

} // verus!
