//! Line-by-line reading of `nixos-rebuild dry-build` output.
use vstd::prelude::*;
use vstd::string::*;

use crate::flake_update::{base_name_of, update_views, FlakeUpdate, UpdateView};
use crate::installed::InstalledPackages;
use crate::ordering_keys::{sort_by_lower_name, sorted_by_lower_name};
use crate::store_path::{extract_package_info, is_internal, package_info, package_info_defined};
use crate::text::{
    byte_len, chars_eq, chars_of, contains, lit_infix, lit_prefix, str_byte_len,
    string_from_chars, trim, trim_bounds,
};

verus! {

/// The download and unpacked sizes that the regular expression
/// `will be fetched \(([\d.]+ \S+) download, ([\d.]+ \S+) unpacked\)` captures in its
/// leftmost match in `line`, if it matches.
pub uninterp spec fn fetched_sizes(line: Seq<char>) -> Option<(Seq<char>, Seq<char>)>;

/// Runs the size pattern of `nix`'s "will be fetched (... download, ... unpacked)"
/// message on `line` with the `regex` crate (`Regex::new` and `Regex::captures`) and
/// returns its two capture groups. The contract claims only that the result is a fixed
/// function of the line (named [`fetched_sizes`]); the matching rules of the pattern
/// are not stated.
#[verifier::external_body]
fn capture_fetched_sizes(line: &str) -> (r: Option<(String, String)>)
    ensures
        r matches Some((d, u)) ==> fetched_sizes(line@) == Some((d@, u@)),
        r is None ==> fetched_sizes(line@) is None,
{
    let pattern = r"will be fetched \(([\d.]+ \S+) download, ([\d.]+ \S+) unpacked\)";
    match regex::Regex::new(pattern) {
        Ok(re) => match re.captures(line) {
            Some(caps) => Some((caps[1].to_string(), caps[2].to_string())),
            None => None,
        },
        Err(_) => None,
    }
}

/// What the scan has gathered so far.
pub struct ScanModel {
    pub updates: Seq<UpdateView>,
    pub in_build_list: bool,
    pub download_size: Seq<char>,
    pub unpacked_size: Seq<char>,
}

/// Nothing read yet.
pub open spec fn initial_scan() -> ScanModel {
    ScanModel {
        updates: Seq::empty(),
        in_build_list: false,
        download_size: Seq::empty(),
        unpacked_size: Seq::empty(),
    }
}

/// A trimmed line that opens a list of store paths ("these derivations will be built:",
/// "these paths will be fetched ...:").
pub open spec fn is_list_header(t: Seq<char>) -> bool {
    contains(t, "derivations will be built"@) || contains(t, "will be fetched"@)
}

/// A trimmed line that closes a list of store paths.
pub open spec fn ends_list(t: Seq<char>) -> bool {
    t.len() == 0 || (!"/nix/store/"@.is_prefix_of(t) && !"  "@.is_prefix_of(t))
}

/// A list header was read; it gave the sizes, if it had them.
pub open spec fn note_header(st: ScanModel, sizes: Option<(Seq<char>, Seq<char>)>) -> ScanModel {
    match sizes {
        Some((d, u)) => ScanModel {
            in_build_list: true,
            download_size: d,
            unpacked_size: u,
            ..st
        },
        None => ScanModel { in_build_list: true, ..st },
    }
}

/// The update for a package that would be built, with what is installed under its
/// base name (nothing when no such package is installed).
pub open spec fn new_update(
    name: Seq<char>,
    hash: Seq<char>,
    installed: Map<Seq<char>, (Seq<char>, Seq<char>)>,
) -> UpdateView {
    let base = base_name_of(name);
    let (old_name, old_hash) = if installed.contains_key(base) {
        installed[base]
    } else {
        (Seq::empty(), Seq::empty())
    };
    UpdateView {
        package_name: name,
        old_package_name: old_name,
        hash_short: hash,
        old_hash_short: old_hash,
    }
}

/// `e` has base name `b` and a full name longer than `len` bytes.
pub open spec fn longer_with_base(e: UpdateView, b: Seq<char>, len: nat) -> bool {
    base_name_of(e.package_name) == b && byte_len(e.package_name) > len
}

/// `e` has base name `b` and a full name shorter than `len` bytes.
pub open spec fn shorter_with_base(e: UpdateView, b: Seq<char>, len: nat) -> bool {
    base_name_of(e.package_name) == b && byte_len(e.package_name) < len
}

/// Adds an update to the list: it is dropped when an update with the same base name
/// and a longer name is listed; otherwise the listed updates with the same base name
/// and a shorter name are dropped, and it is appended unless its name is listed.
pub open spec fn add_update(us: Seq<UpdateView>, n: UpdateView) -> Seq<UpdateView> {
    let b = base_name_of(n.package_name);
    let len = byte_len(n.package_name);
    if exists|i: int| 0 <= i < us.len() && longer_with_base(#[trigger] us[i], b, len) {
        us
    } else {
        let kept = us.filter(|e: UpdateView| !shorter_with_base(e, b, len));
        if exists|i: int| 0 <= i < kept.len() && (#[trigger] kept[i]).package_name == n.package_name {
            kept
        } else {
            kept.push(n)
        }
    }
}

/// A store path line of a list was read.
pub open spec fn note_store_path(
    st: ScanModel,
    t: Seq<char>,
    installed: Map<Seq<char>, (Seq<char>, Seq<char>)>,
) -> ScanModel {
    match package_info(t) {
        Some((name, hash)) => ScanModel {
            updates: add_update(st.updates, new_update(name, hash, installed)),
            ..st
        },
        None => st,
    }
}

/// Whether a list of store paths is still open after a line that is not a header.
pub open spec fn stays_in_list(in_list: bool, t: Seq<char>) -> bool {
    in_list && !ends_list(t)
}

/// One line of output is read.
pub open spec fn scan_line(
    st: ScanModel,
    line: Seq<char>,
    installed: Map<Seq<char>, (Seq<char>, Seq<char>)>,
) -> ScanModel {
    let t = trim(line);
    if is_list_header(t) {
        note_header(st, fetched_sizes(t))
    } else {
        let in_list = stays_in_list(st.in_build_list, t);
        let st2 = ScanModel { in_build_list: in_list, ..st };
        if in_list && "/nix/store/"@.is_prefix_of(t) {
            note_store_path(st2, t, installed)
        } else {
            st2
        }
    }
}

/// The lines of output are read in order.
pub open spec fn scan_lines(
    lines: Seq<Seq<char>>,
    installed: Map<Seq<char>, (Seq<char>, Seq<char>)>,
) -> ScanModel
    decreases lines.len(),
{
    if lines.len() == 0 {
        initial_scan()
    } else {
        scan_line(scan_lines(lines.drop_last(), installed), lines.last(), installed)
    }
}

/// Whether a list of store paths is open after the given lines.
pub open spec fn in_list_after(lines: Seq<Seq<char>>) -> bool
    decreases lines.len(),
{
    if lines.len() == 0 {
        false
    } else {
        let t = trim(lines.last());
        if is_list_header(t) {
            true
        } else {
            stays_in_list(in_list_after(lines.drop_last()), t)
        }
    }
}

/// The line is read as a store path of a list, after lines that leave the list in the
/// given state.
pub open spec fn reads_store_path(in_list: bool, line: Seq<char>) -> bool {
    let t = trim(line);
    !is_list_header(t) && stays_in_list(in_list, t) && "/nix/store/"@.is_prefix_of(t)
}

/// Every store path that the scan reads can be cut at its hash without a fault.
pub open spec fn scan_readable(lines: Seq<Seq<char>>) -> bool {
    forall|i: int|
        0 <= i < lines.len() && reads_store_path(in_list_after(lines.take(i)), #[trigger] lines[i])
            ==> package_info_defined(trim(lines[i]))
}

/// The list state of the scan does not depend on what the lists hold.
pub proof fn lemma_scan_in_list(
    lines: Seq<Seq<char>>,
    installed: Map<Seq<char>, (Seq<char>, Seq<char>)>,
)
    ensures
        scan_lines(lines, installed).in_build_list == in_list_after(lines),
    decreases lines.len(),
{
    if lines.len() > 0 {
        lemma_scan_in_list(lines.drop_last(), installed);
    }
}


// ----------------------------------------------------------------------------
// Laws of the update list
// ----------------------------------------------------------------------------

/// The update list has no two updates with the same package name, its updates with the
/// same base name have names of the same byte length (the shorter, unversioned ones
/// were dropped), and none of them is an internal package.
pub open spec fn deduplicated(us: Seq<UpdateView>) -> bool {
    &&& forall|i: int, j: int|
        0 <= i < us.len() && 0 <= j < us.len() && i != j ==> (#[trigger] us[i]).package_name
            != (#[trigger] us[j]).package_name
    &&& forall|i: int, j: int|
        0 <= i < us.len() && 0 <= j < us.len() && base_name_of((#[trigger] us[i]).package_name)
            == base_name_of((#[trigger] us[j]).package_name) ==> byte_len(us[i].package_name)
            == byte_len(us[j].package_name)
    &&& forall|i: int| 0 <= i < us.len() ==> !is_internal((#[trigger] us[i]).package_name)
}

/// A filtered list holds only elements of the list.
proof fn lemma_filter_members(s: Seq<UpdateView>, p: spec_fn(UpdateView) -> bool)
    ensures
        forall|i: int| 0 <= i < s.filter(p).len() ==> s.contains(#[trigger] s.filter(p)[i]),
{
    assert forall|i: int| 0 <= i < s.filter(p).len() implies s.contains(
        #[trigger] s.filter(p)[i],
    ) by {
        assert(s.filter(p).contains(s.filter(p)[i]));
        s.lemma_filter_contains_rev(p, s.filter(p)[i]);
    }
}

/// Filtering keeps a list deduplicated.
proof fn lemma_filter_deduplicated(s: Seq<UpdateView>, p: spec_fn(UpdateView) -> bool)
    requires
        deduplicated(s),
    ensures
        deduplicated(s.filter(p)),
    decreases s.len(),
{
    reveal(Seq::filter);
    if s.len() > 0 {
        let t = s.drop_last();
        assert(deduplicated(t)) by {
            assert forall|i: int| 0 <= i < t.len() implies #[trigger] t[i] == s[i] by {}
        }
        lemma_filter_deduplicated(t, p);
        lemma_filter_members(t, p);
        let f = t.filter(p);
        if p(s.last()) {
            let r = f.push(s.last());
            assert forall|i: int| 0 <= i < f.len() implies (#[trigger] r[i]).package_name
                != s.last().package_name && (base_name_of(r[i].package_name) == base_name_of(
                s.last().package_name) ==> byte_len(r[i].package_name) == byte_len(
                s.last().package_name,
            )) by {
                let k = choose|k: int| 0 <= k < t.len() && t[k] == f[i];
                assert(s[k] == r[i]);
                assert(s[s.len() - 1] == s.last());
            }
        }
    }
}

/// Adding an update keeps the list deduplicated.
pub proof fn lemma_add_update_deduplicated(us: Seq<UpdateView>, n: UpdateView)
    requires
        deduplicated(us),
        !is_internal(n.package_name),
    ensures
        deduplicated(add_update(us, n)),
{
    let b = base_name_of(n.package_name);
    let len = byte_len(n.package_name);
    if exists|i: int| 0 <= i < us.len() && longer_with_base(#[trigger] us[i], b, len) {
    } else {
        let p = |e: UpdateView| !shorter_with_base(e, b, len);
        let kept = us.filter(p);
        lemma_filter_deduplicated(us, p);
        lemma_filter_members(us, p);
        broadcast use vstd::seq_lib::group_filter_ensures;

        if exists|i: int| 0 <= i < kept.len() && (#[trigger] kept[i]).package_name
            == n.package_name {
        } else {
            let r = kept.push(n);
            assert forall|i: int| 0 <= i < kept.len() implies (#[trigger] r[i]).package_name
                != n.package_name && (base_name_of(r[i].package_name) == b ==> byte_len(
                r[i].package_name,
            ) == len) by {
                let k = choose|k: int| 0 <= k < us.len() && us[k] == kept[i];
                assert(!longer_with_base(us[k], b, len));
                assert(p(kept[i]));
            }
        }
    }
}

/// The update list of a scan is deduplicated.
pub proof fn lemma_scan_deduplicated(
    lines: Seq<Seq<char>>,
    installed: Map<Seq<char>, (Seq<char>, Seq<char>)>,
)
    ensures
        deduplicated(scan_lines(lines, installed).updates),
    decreases lines.len(),
{
    if lines.len() > 0 {
        lemma_scan_deduplicated(lines.drop_last(), installed);
        let st = scan_lines(lines.drop_last(), installed);
        let t = trim(lines.last());
        if !is_list_header(t) {
            match package_info(t) {
                Some((name, hash)) => {
                    lemma_add_update_deduplicated(st.updates, new_update(name, hash, installed));
                },
                None => {},
            }
        }
    }
}



/// Every update that adding `n` leaves listed is `n` or was listed before.
pub proof fn lemma_add_update_members(us: Seq<UpdateView>, n: UpdateView)
    ensures
        forall|i: int|
            0 <= i < add_update(us, n).len() ==> #[trigger] add_update(us, n)[i] == n
                || us.contains(add_update(us, n)[i]),
{
    let b = base_name_of(n.package_name);
    let len = byte_len(n.package_name);
    if exists|i: int| 0 <= i < us.len() && longer_with_base(#[trigger] us[i], b, len) {
        assert forall|i: int| 0 <= i < us.len() implies us.contains(#[trigger] us[i]) by {}
    } else {
        let p = |e: UpdateView| !shorter_with_base(e, b, len);
        lemma_filter_members(us, p);
    }
}

/// Every update of a scan that reads its store paths without a faulting cut has a
/// short hash of 8 bytes.
pub proof fn lemma_scan_hashes(
    lines: Seq<Seq<char>>,
    installed: Map<Seq<char>, (Seq<char>, Seq<char>)>,
)
    requires
        scan_readable(lines),
    ensures
        forall|i: int|
            0 <= i < scan_lines(lines, installed).updates.len() ==> byte_len(
                (#[trigger] scan_lines(lines, installed).updates[i]).hash_short,
            ) == 8,
    decreases lines.len(),
{
    if lines.len() > 0 {
        let init = lines.drop_last();
        assert(scan_readable(init)) by {
            assert forall|i: int|
                0 <= i < init.len() && reads_store_path(
                    in_list_after(init.take(i)),
                    #[trigger] init[i],
                ) implies package_info_defined(trim(init[i])) by {
                assert(init.take(i) =~= lines.take(i));
                assert(init[i] == lines[i]);
            }
        }
        lemma_scan_hashes(init, installed);
        lemma_scan_in_list(init, installed);
        let st = scan_lines(init, installed);
        let t = trim(lines.last());
        let k = lines.len() - 1;
        assert(lines.take(k) =~= init);
        assert(lines[k] == lines.last());
        if !is_list_header(t) && stays_in_list(st.in_build_list, t) && "/nix/store/"@.is_prefix_of(
            t,
        ) {
            assert(reads_store_path(in_list_after(lines.take(k)), lines[k]));
            assert(package_info_defined(t));
            crate::store_path::lemma_package_info_shape(t);
            match package_info(t) {
                Some((name, hash)) => {
                    let n = new_update(name, hash, installed);
                    lemma_add_update_members(st.updates, n);
                    let r = add_update(st.updates, n);
                    assert forall|i: int| 0 <= i < r.len() implies byte_len(
                        (#[trigger] r[i]).hash_short,
                    ) == 8 by {
                        if r[i] != n {
                            let j = choose|j: int| 0 <= j < st.updates.len() && st.updates[j]
                                == r[i];
                        }
                    }
                },
                None => {},
            }
        }
    }
}

// ----------------------------------------------------------------------------
// Which of the listed packages are kept
// ----------------------------------------------------------------------------

/// The package names of the store paths that the lines list, in order, before any is
/// dropped: one for each store path line inside a list whose path gives a package.
pub open spec fn listed_names(lines: Seq<Seq<char>>) -> Seq<Seq<char>>
    decreases lines.len(),
{
    if lines.len() == 0 {
        Seq::empty()
    } else {
        let before = listed_names(lines.drop_last());
        if reads_store_path(in_list_after(lines.drop_last()), lines.last()) {
            match package_info(trim(lines.last())) {
                Some((name, _)) => before.push(name),
                None => before,
            }
        } else {
            before
        }
    }
}

/// `e` has the base name of `name` and a name at least as long in bytes.
pub open spec fn covers(e: UpdateView, name: Seq<char>) -> bool {
    base_name_of(e.package_name) == base_name_of(name) && byte_len(e.package_name) >= byte_len(
        name,
    )
}

/// Some update of `us` has the base name of `name` and a name at least as long.
pub open spec fn covered(us: Seq<UpdateView>, name: Seq<char>) -> bool {
    exists|i: int| 0 <= i < us.len() && covers(#[trigger] us[i], name)
}

/// Some update of `us` is for the package named `name`.
pub open spec fn lists_name(us: Seq<UpdateView>, name: Seq<char>) -> bool {
    exists|i: int| 0 <= i < us.len() && (#[trigger] us[i]).package_name == name
}

/// No name of `cs` with the base name of `name` is longer than `name`.
pub open spec fn longest_of_base(cs: Seq<Seq<char>>, name: Seq<char>) -> bool {
    forall|k: int|
        0 <= k < cs.len() && base_name_of(#[trigger] cs[k]) == base_name_of(name) ==> byte_len(
            cs[k],
        ) <= byte_len(name)
}

/// The updates kept from the listed names `cs`: each is one of them; each listed name
/// is covered by a kept update; and each listed name that is the longest of its base
/// name is kept.
pub open spec fn keeps_longest(us: Seq<UpdateView>, cs: Seq<Seq<char>>) -> bool {
    &&& forall|i: int| 0 <= i < us.len() ==> cs.contains(#[trigger] us[i].package_name)
    &&& forall|j: int| 0 <= j < cs.len() ==> covered(us, #[trigger] cs[j])
    &&& forall|j: int| 0 <= j < cs.len() && longest_of_base(cs, #[trigger] cs[j]) ==> lists_name(us, cs[j])
}

/// Adding an update leaves the new package and every update listed before covered by
/// one of the updates listed after.
pub proof fn lemma_add_update_covers(us: Seq<UpdateView>, n: UpdateView)
    ensures
        covered(add_update(us, n), n.package_name),
        forall|i: int| 0 <= i < us.len() ==> covered(add_update(us, n), (#[trigger] us[i]).package_name),
{
    broadcast use vstd::seq_lib::group_filter_ensures;

    let b = base_name_of(n.package_name);
    let len = byte_len(n.package_name);
    let r = add_update(us, n);
    if exists|i: int| 0 <= i < us.len() && longer_with_base(#[trigger] us[i], b, len) {
        let k = choose|i: int| 0 <= i < us.len() && longer_with_base(#[trigger] us[i], b, len);
        assert(covers(r[k], n.package_name));
        assert forall|i: int| 0 <= i < us.len() implies covered(r, (#[trigger] us[i]).package_name) by {
            assert(covers(r[i], us[i].package_name));
        }
    } else {
        let p = |e: UpdateView| !shorter_with_base(e, b, len);
        let kept = us.filter(p);
        // the entry for `n` in the result
        let m: int = if exists|i: int| 0 <= i < kept.len() && (#[trigger] kept[i]).package_name
            == n.package_name {
            choose|i: int| 0 <= i < kept.len() && (#[trigger] kept[i]).package_name == n.package_name
        } else {
            kept.len() as int
        };
        assert(0 <= m < r.len() && r[m].package_name == n.package_name);
        assert(covers(r[m], n.package_name));
        assert forall|i: int| 0 <= i < us.len() implies covered(r, (#[trigger] us[i]).package_name) by {
            if p(us[i]) {
                us.lemma_filter_contains(p, i);
                let k = choose|k: int| 0 <= k < kept.len() && kept[k] == us[i];
                assert(r[k] == us[i]);
                assert(covers(r[k], us[i].package_name));
            } else {
                assert(covers(r[m], us[i].package_name));
            }
        }
    }
}

/// An update for `name` stays listed when a package is added that is not longer with
/// the same base name.
pub proof fn lemma_add_update_keeps_name(us: Seq<UpdateView>, n: UpdateView, name: Seq<char>)
    requires
        lists_name(us, name),
        !(base_name_of(n.package_name) == base_name_of(name) && byte_len(n.package_name)
            > byte_len(name)),
    ensures
        lists_name(add_update(us, n), name),
{
    broadcast use vstd::seq_lib::group_filter_ensures;

    let b = base_name_of(n.package_name);
    let len = byte_len(n.package_name);
    let r = add_update(us, n);
    let k = choose|i: int| 0 <= i < us.len() && (#[trigger] us[i]).package_name == name;
    if exists|i: int| 0 <= i < us.len() && longer_with_base(#[trigger] us[i], b, len) {
        assert(r[k].package_name == name);
    } else {
        let p = |e: UpdateView| !shorter_with_base(e, b, len);
        let kept = us.filter(p);
        assert(p(us[k]));
        us.lemma_filter_contains(p, k);
        let j = choose|j: int| 0 <= j < kept.len() && kept[j] == us[k];
        assert(r[j].package_name == name);
    }
}

/// A package is listed after it is added, unless an update with the same base name and
/// a longer name was listed.
pub proof fn lemma_add_update_lists_new(us: Seq<UpdateView>, n: UpdateView)
    requires
        forall|i: int|
            0 <= i < us.len() ==> !longer_with_base(
                #[trigger] us[i],
                base_name_of(n.package_name),
                byte_len(n.package_name),
            ),
    ensures
        lists_name(add_update(us, n), n.package_name),
{
    let b = base_name_of(n.package_name);
    let len = byte_len(n.package_name);
    let kept = us.filter(|e: UpdateView| !shorter_with_base(e, b, len));
    let r = add_update(us, n);
    if exists|i: int| 0 <= i < kept.len() && (#[trigger] kept[i]).package_name == n.package_name {
        let m = choose|i: int| 0 <= i < kept.len() && (#[trigger] kept[i]).package_name
            == n.package_name;
        assert(r[m].package_name == n.package_name);
    } else {
        assert(r[kept.len() as int].package_name == n.package_name);
    }
}

/// The updates that a scan keeps are the longest of the listed names for each base
/// name ([`keeps_longest`]).
pub proof fn lemma_scan_keeps_longest(
    lines: Seq<Seq<char>>,
    installed: Map<Seq<char>, (Seq<char>, Seq<char>)>,
)
    ensures
        keeps_longest(scan_lines(lines, installed).updates, listed_names(lines)),
    decreases lines.len(),
{
    if lines.len() > 0 {
        let init = lines.drop_last();
        lemma_scan_keeps_longest(init, installed);
        lemma_scan_in_list(init, installed);
        let st = scan_lines(init, installed);
        let us = st.updates;
        let cs = listed_names(init);
        let t = trim(lines.last());
        if reads_store_path(in_list_after(init), lines.last()) {
            match package_info(t) {
                Some((name, hash)) => {
                    let n = new_update(name, hash, installed);
                    let r = add_update(us, n);
                    let cs2 = cs.push(name);
                    assert(scan_lines(lines, installed).updates == r);
                    assert(listed_names(lines) == cs2);
                    lemma_add_update_members(us, n);
                    lemma_add_update_covers(us, n);
                    // every kept update is a listed name
                    assert forall|i: int| 0 <= i < r.len() implies cs2.contains(
                        #[trigger] r[i].package_name,
                    ) by {
                        if r[i] == n {
                            assert(cs2[cs.len() as int] == name);
                        } else {
                            let k = choose|k: int| 0 <= k < us.len() && us[k] == r[i];
                            assert(cs.contains(us[k].package_name));
                            let j = choose|j: int| 0 <= j < cs.len() && cs[j] == us[k].package_name;
                            assert(cs2[j] == cs[j]);
                        }
                    }
                    // every listed name is covered
                    assert forall|j: int| 0 <= j < cs2.len() implies covered(r, #[trigger] cs2[j]) by {
                        if j == cs.len() {
                            assert(cs2[j] == n.package_name);
                        } else {
                            assert(cs2[j] == cs[j]);
                            assert(covered(us, cs[j]));
                            let k = choose|k: int| 0 <= k < us.len() && covers(#[trigger] us[k], cs[j]);
                            assert(covered(r, us[k].package_name));
                            let m = choose|m: int| 0 <= m < r.len() && covers(#[trigger] r[m], us[k].package_name);
                            assert(covers(r[m], cs[j]));
                        }
                    }
                    // every listed name that is the longest of its base name is kept
                    assert forall|j: int| 0 <= j < cs2.len() && longest_of_base(cs2, #[trigger] cs2[j])
                        implies lists_name(r, cs2[j]) by {
                        if j == cs.len() {
                            assert forall|i: int| 0 <= i < us.len() implies !longer_with_base(
                                #[trigger] us[i],
                                base_name_of(n.package_name),
                                byte_len(n.package_name),
                            ) by {
                                let k = choose|k: int| 0 <= k < cs.len() && cs[k] == us[i].package_name;
                                assert(cs2[k] == cs[k]);
                            }
                            lemma_add_update_lists_new(us, n);
                        } else {
                            let c = cs[j];
                            assert(cs2[j] == c);
                            assert(longest_of_base(cs, c)) by {
                                assert forall|k: int|
                                    0 <= k < cs.len() && base_name_of(#[trigger] cs[k]) == base_name_of(c)
                                    implies byte_len(cs[k]) <= byte_len(c) by {
                                    assert(cs2[k] == cs[k]);
                                }
                            }
                            assert(cs2[cs.len() as int] == name);
                            lemma_add_update_keeps_name(us, n, c);
                        }
                    }
                },
                None => {
                    assert(scan_lines(lines, installed).updates == us);
                    assert(listed_names(lines) == cs);
                },
            }
        } else {
            assert(scan_lines(lines, installed).updates == us);
            assert(listed_names(lines) == cs);
        }
    }
}

/// Rearranging the kept updates keeps [`keeps_longest`].
pub proof fn lemma_keeps_longest_permuted(a: Seq<UpdateView>, b: Seq<UpdateView>, cs: Seq<Seq<char>>)
    requires
        a.to_multiset() == b.to_multiset(),
        keeps_longest(a, cs),
    ensures
        keeps_longest(b, cs),
{
    broadcast use vstd::seq_lib::group_to_multiset_ensures;

    assert forall|i: int| 0 <= i < b.len() implies cs.contains(#[trigger] b[i].package_name) by {
        assert(b.to_multiset().count(b[i]) > 0);
        assert(a.contains(b[i]));
        let k = choose|k: int| 0 <= k < a.len() && a[k] == b[i];
        assert(cs.contains(a[k].package_name));
    }
    assert forall|j: int| 0 <= j < cs.len() implies covered(b, #[trigger] cs[j]) by {
        assert(covered(a, cs[j]));
        let k = choose|k: int| 0 <= k < a.len() && covers(#[trigger] a[k], cs[j]);
        assert(a.to_multiset().count(a[k]) > 0);
        assert(b.contains(a[k]));
        let i = choose|i: int| 0 <= i < b.len() && b[i] == a[k];
        assert(covers(b[i], cs[j]));
    }
    assert forall|j: int| 0 <= j < cs.len() && longest_of_base(cs, #[trigger] cs[j]) implies lists_name(
        b,
        cs[j],
    ) by {
        assert(lists_name(a, cs[j]));
        let k = choose|k: int| 0 <= k < a.len() && (#[trigger] a[k]).package_name == cs[j];
        assert(a.to_multiset().count(a[k]) > 0);
        assert(b.contains(a[k]));
        let i = choose|i: int| 0 <= i < b.len() && b[i] == a[k];
        assert(b[i].package_name == cs[j]);
    }
}

/// Whether every store path that a scan of `output` reads can be cut at its hash
/// without a fault (see [`scan_readable`]).
pub fn dry_build_cuts_ok(output: &str) -> (r: bool)
    ensures
        r == scan_readable(crate::text::split_lines(output@)),
{
    let cs = chars_of(output);
    let bounds = crate::text::line_bounds(cs.as_slice());
    let ghost lines = crate::text::split_lines(output@);
    let mut in_list = false;
    let mut i: usize = 0;
    while i < bounds.len()
        invariant
            0 <= i <= bounds@.len(),
            bounds@.len() == lines.len(),
            cs@ == output@,
            lines == crate::text::split_lines(output@),
            forall|j: int|
                #![trigger bounds@[j]]
                0 <= j < bounds@.len() ==> {
                    &&& bounds@[j].0 <= bounds@[j].1 <= cs@.len()
                    &&& cs@.subrange(bounds@[j].0 as int, bounds@[j].1 as int) == lines[j]
                },
            in_list == in_list_after(lines.take(i as int)),
            forall|j: int|
                0 <= j < i && reads_store_path(in_list_after(lines.take(j)), #[trigger] lines[j])
                    ==> package_info_defined(trim(lines[j])),
        decreases bounds@.len() - i,
    {
        let (lo, hi) = bounds[i];
        let line = vstd::slice::slice_subrange(cs.as_slice(), lo, hi);
        assert(line@ == lines[i as int]);
        assert(lines.take(i + 1).drop_last() =~= lines.take(i as int));
        let (a, b) = trim_bounds(line);
        let t = vstd::slice::slice_subrange(line, a, b);
        if lit_infix(t, "derivations will be built") || lit_infix(t, "will be fetched") {
            in_list = true;
        } else {
            let ends = t.len() == 0 || (!lit_prefix(t, "/nix/store/") && !lit_prefix(t, "  "));
            if in_list && ends {
                in_list = false;
            }
            if in_list && lit_prefix(t, "/nix/store/") {
                let text = string_from_chars(t);
                if !crate::store_path::package_info_cut_ok(text.as_str()) {
                    return false;
                }
            }
        }
        i = i + 1;
    }
    assert(lines.take(i as int) =~= lines);
    true
}

/// Reads `nixos-rebuild dry-build` output line by line.
pub struct DryBuildScan {
    updates: Vec<FlakeUpdate>,
    in_build_list: bool,
    download_size: String,
    unpacked_size: String,
}

impl View for DryBuildScan {
    type V = ScanModel;

    closed spec fn view(&self) -> ScanModel {
        ScanModel {
            updates: update_views(self.updates@),
            in_build_list: self.in_build_list,
            download_size: self.download_size@,
            unpacked_size: self.unpacked_size@,
        }
    }
}

/// Whether some listed update has base name `b` and a name longer than `len` bytes.
fn any_longer_with_base(us: &Vec<FlakeUpdate>, b: &[char], len: u128) -> (r: bool)
    ensures
        r == exists|i: int|
            0 <= i < us@.len() && longer_with_base(#[trigger] update_views(us@)[i], b@, len as nat),
{
    let mut i: usize = 0;
    while i < us.len()
        invariant
            0 <= i <= us@.len(),
            forall|j: int|
                0 <= j < i ==> !longer_with_base(#[trigger] update_views(us@)[j], b@, len as nat),
        decreases us@.len() - i,
    {
        let base = chars_of(us[i].base_name());
        if chars_eq(base.as_slice(), b) && str_byte_len(us[i].package_name.as_str()) > len {
            assert(longer_with_base(update_views(us@)[i as int], b@, len as nat));
            return true;
        }
        i = i + 1;
    }
    false
}

/// The listed updates without those that have base name `b` and a name shorter than
/// `len` bytes.
fn without_shorter_with_base(us: &Vec<FlakeUpdate>, b: &[char], len: u128) -> (r: Vec<
    FlakeUpdate,
>)
    ensures
        update_views(r@) == update_views(us@).filter(
            |e: UpdateView| !shorter_with_base(e, b@, len as nat),
        ),
{
    let ghost pred = |e: UpdateView| !shorter_with_base(e, b@, len as nat);
    let mut r: Vec<FlakeUpdate> = Vec::new();
    let mut i: usize = 0;
    while i < us.len()
        invariant
            0 <= i <= us@.len(),
            pred == (|e: UpdateView| !shorter_with_base(e, b@, len as nat)),
            update_views(r@) == update_views(us@).take(i as int).filter(pred),
        decreases us@.len() - i,
    {
        let ghost before = r@;
        proof {
            reveal(Seq::filter);
        }
        assert(update_views(us@).take(i + 1).drop_last() =~= update_views(us@).take(i as int));
        let base = chars_of(us[i].base_name());
        let shorter = chars_eq(base.as_slice(), b) && str_byte_len(us[i].package_name.as_str())
            < len;
        assert(shorter == shorter_with_base(update_views(us@)[i as int], b@, len as nat));
        if !shorter {
            r.push(us[i].duplicate());
            assert(update_views(r@) =~= update_views(before).push(us@[i as int]@));
        }
        i = i + 1;
    }
    assert(update_views(us@).take(i as int) =~= update_views(us@));
    r
}

/// Whether some listed update has the package name `name`.
fn any_named(us: &Vec<FlakeUpdate>, name: &str) -> (r: bool)
    ensures
        r == exists|i: int|
            0 <= i < us@.len() && (#[trigger] update_views(us@)[i]).package_name == name@,
{
    let mut i: usize = 0;
    while i < us.len()
        invariant
            0 <= i <= us@.len(),
            forall|j: int|
                0 <= j < i ==> (#[trigger] update_views(us@)[j]).package_name != name@,
        decreases us@.len() - i,
    {
        if us[i].package_name == String::from_str(name) {
            assert(update_views(us@)[i as int].package_name == name@);
            return true;
        }
        i = i + 1;
    }
    false
}

impl DryBuildScan {
    /// A scan that has read nothing.
    pub fn new() -> (r: Self)
        ensures
            r@ == initial_scan(),
    {
        let r = DryBuildScan {
            updates: Vec::new(),
            in_build_list: false,
            download_size: String::new(),
            unpacked_size: String::new(),
        };
        assert(r@.updates =~= Seq::<UpdateView>::empty());
        r
    }

    /// A list header was read; `sizes` are the sizes that the size pattern captured in
    /// it, if any.
    pub fn note_header(&mut self, sizes: Option<(String, String)>)
        ensures
            final(self)@ == note_header(
                old(self)@,
                match sizes {
                    Some((d, u)) => Some((d@, u@)),
                    None => None,
                },
            ),
    {
        if let Some((d, u)) = sizes {
            self.download_size = d;
            self.unpacked_size = u;
        }
        self.in_build_list = true;
    }

    /// Adds the update for package `name` with short hash `hash`, looking up what is
    /// installed under its base name.
    pub fn add_package(&mut self, name: String, hash: String, installed: &InstalledPackages)
        ensures
            final(self)@ == (ScanModel {
                updates: add_update(old(self)@.updates, new_update(name@, hash@, installed@)),
                ..old(self)@
            }),
    {
        let probe = FlakeUpdate {
            package_name: name.clone(),
            old_package_name: String::new(),
            hash_short: String::new(),
            old_hash_short: String::new(),
        };
        let base = chars_of(probe.base_name());
        let (old_name, old_hash) = match installed.get(probe.base_name()) {
            Some((n, h)) => (n, h),
            None => (String::new(), String::new()),
        };
        let len = str_byte_len(name.as_str());
        let n = FlakeUpdate {
            package_name: name,
            old_package_name: old_name,
            hash_short: hash,
            old_hash_short: old_hash,
        };
        assert(n@ == new_update(probe.package_name@, n.hash_short@, installed@));
        if any_longer_with_base(&self.updates, base.as_slice(), len) {
            return ;
        }
        let kept = without_shorter_with_base(&self.updates, base.as_slice(), len);
        let named = any_named(&kept, n.package_name.as_str());
        self.updates = kept;
        if !named {
            let ghost before = self.updates@;
            self.updates.push(n);
            assert(update_views(self.updates@) =~= update_views(before).push(n@));
        }
    }

    /// Reads one line of output.
    pub fn read_line(&mut self, line: &str, installed: &InstalledPackages)
        requires
            reads_store_path(old(self)@.in_build_list, line@) ==> package_info_defined(
                trim(line@),
            ),
        ensures
            final(self)@ == scan_line(old(self)@, line@, installed@),
    {
        let cs = chars_of(line);
        let (a, b) = trim_bounds(cs.as_slice());
        let t = vstd::slice::slice_subrange(cs.as_slice(), a, b);
        if lit_infix(t, "derivations will be built") || lit_infix(t, "will be fetched") {
            let text = string_from_chars(t);
            let sizes = capture_fetched_sizes(text.as_str());
            self.note_header(sizes);
            return ;
        }
        let ends = t.len() == 0 || (!lit_prefix(t, "/nix/store/") && !lit_prefix(t, "  "));
        if self.in_build_list && ends {
            self.in_build_list = false;
        }
        if self.in_build_list && lit_prefix(t, "/nix/store/") {
            let text = string_from_chars(t);
            if let Some((name, hash)) = extract_package_info(text.as_str()) {
                self.add_package(name, hash, installed);
            }
        }
    }

    /// The updates gathered, ordered by lowercase package name, with the sizes.
    pub fn finish(self) -> (r: (Vec<FlakeUpdate>, String, String))
        ensures
            update_views(r.0@) == sorted_by_lower_name(self@.updates),
            r.1@ == self@.download_size,
            r.2@ == self@.unpacked_size,
    {
        (sort_by_lower_name(self.updates), self.download_size, self.unpacked_size)
    }
}

} // verus!
