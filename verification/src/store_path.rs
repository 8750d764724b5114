//! Reading package names and hashes out of nix store paths.
use vstd::prelude::*;

use crate::text::{
    byte_len, chars_in_bytes, chars_of, chars_within_bytes, lit_eq, lit_prefix, lit_suffix,
    string_from_chars, trim, trim_bounds,
};

verus! {

/// Names of internal/system store entries that are not shown as package updates.
pub open spec fn is_internal(name: Seq<char>) -> bool {
    // exact matches
    ||| name == "system-path"@
    ||| name == "user-units"@
    ||| name == "dbus-1"@
    ||| name == "unit"@
    ||| name == "etc"@
    // prefix matches
    ||| "X-Restart-Triggers"@.is_prefix_of(name)
    ||| "unit-"@.is_prefix_of(name)
    ||| "etc-"@.is_prefix_of(name)
    ||| "system-units"@.is_prefix_of(name)
    ||| "nixos-system-"@.is_prefix_of(name)
    ||| "user-environment"@.is_prefix_of(name)
    // suffix matches (systemd units)
    ||| ".service"@.is_suffix_of(name)
    ||| ".socket"@.is_suffix_of(name)
    ||| ".timer"@.is_suffix_of(name)
    ||| ".target"@.is_suffix_of(name)
    ||| ".mount"@.is_suffix_of(name)
}

/// The `hash-name` part of a store path: the trimmed path without `/nix/store/` and
/// without a trailing `.drv`; none when the path is not under `/nix/store/`.
pub open spec fn store_entry(path: Seq<char>) -> Option<Seq<char>> {
    let p = trim(path);
    if "/nix/store/"@.is_prefix_of(p) {
        let n = p.skip(11);
        if ".drv"@.is_suffix_of(n) {
            Some(n.take(n.len() - 4))
        } else {
            Some(n)
        }
    } else {
        None
    }
}

/// The entry is longer than 33 bytes and its 33rd character ends the hash with a `-`.
pub open spec fn has_hash_prefix(n: Seq<char>) -> bool {
    byte_len(n) > 33 && n.len() > 32 && n[32] == '-'
}

/// Package name and short hash of a store path: the name follows the first 33 bytes
/// (hash and dash), the short hash is the first 8 bytes; internal entries have none.
pub open spec fn package_info(path: Seq<char>) -> Option<(Seq<char>, Seq<char>)> {
    match store_entry(path) {
        Some(n) => if has_hash_prefix(n) {
            let name = n.skip(chars_in_bytes(n, 33)->0);
            let hash = n.take(chars_in_bytes(n, 8)->0);
            if is_internal(name) {
                None
            } else {
                Some((name, hash))
            }
        } else {
            None
        },
        None => None,
    }
}

/// Byte positions 8 and 33 of the entry fall on character boundaries wherever the
/// entry is cut there (the cut is a byte slice, which would fault otherwise).
pub open spec fn package_info_defined(path: Seq<char>) -> bool {
    match store_entry(path) {
        Some(n) => has_hash_prefix(n) ==> {
            &&& chars_in_bytes(n, 8) is Some
            &&& chars_in_bytes(n, 33) is Some
        },
        None => true,
    }
}

/// Check if a package name is an internal/system package that should be filtered out
pub fn is_internal_package(name: &str) -> (r: bool)
    ensures
        r == is_internal(name@),
{
    let cs = chars_of(name);
    is_internal_chars(cs.as_slice())
}

/// [`is_internal_package`] on characters.
pub fn is_internal_chars(s: &[char]) -> (r: bool)
    ensures
        r == is_internal(s@),
{
    lit_eq(s, "system-path") || lit_eq(s, "user-units") || lit_eq(s, "dbus-1") || lit_eq(
        s,
        "unit",
    ) || lit_eq(s, "etc") || lit_prefix(s, "X-Restart-Triggers") || lit_prefix(s, "unit-")
        || lit_prefix(s, "etc-") || lit_prefix(s, "system-units") || lit_prefix(
        s,
        "nixos-system-",
    ) || lit_prefix(s, "user-environment") || lit_suffix(s, ".service") || lit_suffix(
        s,
        ".socket",
    ) || lit_suffix(s, ".timer") || lit_suffix(s, ".target") || lit_suffix(s, ".mount")
}

/// Extract package info from a nix store path
/// /nix/store/hash-name-version.drv -> (name-version, hash_short)
/// /nix/store/hash-name-version -> (name-version, hash_short)
pub fn extract_package_info(path: &str) -> (r: Option<(String, String)>)
    requires
        package_info_defined(path@),
    ensures
        r matches Some((name, hash)) ==> package_info(path@) == Some((name@, hash@)),
        r is None ==> package_info(path@) is None,
{
    let cs = chars_of(path);
    let (a, b) = trim_bounds(cs.as_slice());
    let p = vstd::slice::slice_subrange(cs.as_slice(), a, b);
    if !lit_prefix(p, "/nix/store/") {
        return None;
    }
    proof {
        reveal_strlit("/nix/store/");
        reveal_strlit(".drv");
    }
    let n0 = vstd::slice::slice_subrange(p, 11, p.len());
    let n = if lit_suffix(n0, ".drv") {
        vstd::slice::slice_subrange(n0, 0, n0.len() - 4)
    } else {
        n0
    };
    assert(store_entry(path@) == Some(n@)) by {
        assert(p@.skip(11) =~= n0@);
        if ".drv"@.is_suffix_of(n0@) {
            assert(n0@.take(n0@.len() - 4) =~= n@);
        }
    }
    if n.len() > 32 && n[32] == '-' {
        match (chars_within_bytes(n, 8), chars_within_bytes(n, 33)) {
            (Some(k8), Some(k33)) => {
                assert(byte_len(n@.take(k33 as int)) == 33);
                if k33 < n.len() {
                    let name_chars = vstd::slice::slice_subrange(n, k33, n.len());
                    let hash_chars = vstd::slice::slice_subrange(n, 0, k8);
                    assert(name_chars@ =~= n@.skip(k33 as int));
                    assert(hash_chars@ =~= n@.take(k8 as int));
                    if is_internal_chars(name_chars) {
                        return None;
                    }
                    proof {
                        crate::text::lemma_byte_len_take_mono(n@, k33 as int, n@.len() as int);
                        assert(n@.take(n@.len() as int) =~= n@);
                    }
                    return Some((string_from_chars(name_chars), string_from_chars(hash_chars)));
                } else {
                    // the whole entry is exactly 33 bytes long: no package name follows
                    assert(n@.take(k33 as int) =~= n@);
                    return None;
                }
            },
            _ => {
                return None;
            },
        }
    }
    None
}



/// Whether the store path can be read without a faulting cut (see
/// [`package_info_defined`]).
pub fn package_info_cut_ok(path: &str) -> (r: bool)
    ensures
        r == package_info_defined(path@),
{
    let cs = chars_of(path);
    let (a, b) = trim_bounds(cs.as_slice());
    let p = vstd::slice::slice_subrange(cs.as_slice(), a, b);
    if !lit_prefix(p, "/nix/store/") {
        return true;
    }
    proof {
        reveal_strlit("/nix/store/");
        reveal_strlit(".drv");
    }
    let n0 = vstd::slice::slice_subrange(p, 11, p.len());
    let n = if lit_suffix(n0, ".drv") {
        vstd::slice::slice_subrange(n0, 0, n0.len() - 4)
    } else {
        n0
    };
    assert(store_entry(path@) == Some(n@)) by {
        assert(p@.skip(11) =~= n0@);
        if ".drv"@.is_suffix_of(n0@) {
            assert(n0@.take(n0@.len() - 4) =~= n@);
        }
    }
    if n.len() > 32 && n[32] == '-' && crate::text::chars_byte_len(n) > 33 {
        chars_within_bytes(n, 8).is_some() && chars_within_bytes(n, 33).is_some()
    } else {
        true
    }
}

/// The short hash of a package is the first 8 bytes of its store entry, and the name
/// that follows the hash is neither empty nor internal.
pub proof fn lemma_package_info_shape(path: Seq<char>)
    requires
        package_info_defined(path),
    ensures
        package_info(path) matches Some((name, hash)) ==> {
            &&& byte_len(hash) == 8
            &&& name.len() > 0
            &&& !is_internal(name)
            &&& store_entry(path) matches Some(n) && hash.is_prefix_of(n) && name.is_suffix_of(n)
        },
{
    if let Some(n) = store_entry(path) {
        if has_hash_prefix(n) {
            let k8 = chars_in_bytes(n, 8)->0;
            let k33 = chars_in_bytes(n, 33)->0;
            assert(byte_len(n.take(k8)) == 8);
            assert(byte_len(n.take(k33)) == 33);
            if k33 == n.len() {
                assert(n.take(k33) =~= n);
            }
            assert(n.take(k8) =~= n.subrange(0, k8));
            assert(n.skip(k33) =~= n.subrange(n.len() - n.skip(k33).len(), n.len() as int));
        }
    }
}

/// The system entries that nixos-rebuild lists beside packages have no package: a store
/// entry whose name (what follows the hash and its dash) is `system-path`,
/// `user-units`, `dbus-1`, `unit` or `etc`, starts with `X-Restart-Triggers`, `unit-`,
/// `etc-`, `system-units`, `nixos-system-` or `user-environment`, or ends with
/// `.service`, `.socket`, `.timer`, `.target` or `.mount` gives none, and no package name
/// read from a store path has one of these forms.
pub proof fn lemma_system_entries_have_no_package(path: Seq<char>)
    ensures
        package_info(path) matches Some((name, _)) ==> {
            &&& name != "system-path"@ && name != "user-units"@ && name != "dbus-1"@
            &&& name != "unit"@ && name != "etc"@
            &&& !"X-Restart-Triggers"@.is_prefix_of(name) && !"unit-"@.is_prefix_of(name)
            &&& !"etc-"@.is_prefix_of(name) && !"system-units"@.is_prefix_of(name)
            &&& !"nixos-system-"@.is_prefix_of(name) && !"user-environment"@.is_prefix_of(name)
            &&& !".service"@.is_suffix_of(name) && !".socket"@.is_suffix_of(name)
            &&& !".timer"@.is_suffix_of(name) && !".target"@.is_suffix_of(name)
            &&& !".mount"@.is_suffix_of(name)
        },
        store_entry(path) matches Some(n) && has_hash_prefix(n) && ({
            let name = n.skip(chars_in_bytes(n, 33)->0);
            "system-units"@.is_prefix_of(name) || "X-Restart-Triggers"@.is_prefix_of(name)
                || "unit-"@.is_prefix_of(name) || "etc-"@.is_prefix_of(name)
                || "nixos-system-"@.is_prefix_of(name) || "user-environment"@.is_prefix_of(name)
        }) ==> package_info(path) is None,
{
}

} // verus!
