//! The packages of the running system, keyed by base name.
use vstd::prelude::*;
use vstd::string::*;

use crate::flake_update::{base_name_of, FlakeUpdate};
use crate::store_path::{
    extract_package_info, package_info, package_info_cut_ok, package_info_defined,
};
use crate::text::{
    byte_len, chars_of, chars_eq, str_byte_len, line_bounds, split_lines,
    string_from_chars, trim, trim_bounds,
};

verus! {

/// One installed package: its base name, full name and short store hash.
#[derive(Debug, Clone)]
pub struct InstalledPackage {
    pub base: String,
    pub name: String,
    pub hash: String,
}

/// Installed packages by base name, mapped to (full name, short hash).
#[derive(Debug, Clone)]
pub struct InstalledPackages {
    entries: Vec<InstalledPackage>,
}

/// What the entries map a base name to: the latest entry with that base name.
pub open spec fn lookup_in(entries: Seq<InstalledPackage>, base: Seq<char>) -> Option<
    (Seq<char>, Seq<char>),
>
    decreases entries.len(),
{
    if entries.len() == 0 {
        None
    } else if entries.last().base@ == base {
        Some((entries.last().name@, entries.last().hash@))
    } else {
        lookup_in(entries.drop_last(), base)
    }
}

/// The map that a sequence of entries stands for.
pub open spec fn entries_map(entries: Seq<InstalledPackage>) -> Map<Seq<char>, (Seq<char>, Seq<char>)> {
    Map::new(|k: Seq<char>| lookup_in(entries, k) is Some, |k: Seq<char>| lookup_in(entries, k)->0)
}

impl View for InstalledPackages {
    type V = Map<Seq<char>, (Seq<char>, Seq<char>)>;

    closed spec fn view(&self) -> Self::V {
        entries_map(self.entries@)
    }
}

/// Records an installed package: it is kept under its base name unless a package with
/// a longer (byte length) full name is already kept there.
pub open spec fn note_package(
    m: Map<Seq<char>, (Seq<char>, Seq<char>)>,
    name: Seq<char>,
    hash: Seq<char>,
) -> Map<Seq<char>, (Seq<char>, Seq<char>)> {
    let base = base_name_of(name);
    if !m.contains_key(base) || byte_len(name) > byte_len(m[base].0) {
        m.insert(base, (name, hash))
    } else {
        m
    }
}

/// Records the package of one line of a store path listing, if it names one.
pub open spec fn note_line(
    m: Map<Seq<char>, (Seq<char>, Seq<char>)>,
    line: Seq<char>,
) -> Map<Seq<char>, (Seq<char>, Seq<char>)> {
    match package_info(trim(line)) {
        Some((name, hash)) => note_package(m, name, hash),
        None => m,
    }
}

/// The installed packages that a listing of store paths (one per line) names.
pub open spec fn listing_map(lines: Seq<Seq<char>>) -> Map<Seq<char>, (Seq<char>, Seq<char>)>
    decreases lines.len(),
{
    if lines.len() == 0 {
        Map::empty()
    } else {
        note_line(listing_map(lines.drop_last()), lines.last())
    }
}

/// Every line of the listing can be read without a faulting cut.
pub open spec fn listing_readable(listing: Seq<char>) -> bool {
    forall|i: int|
        0 <= i < split_lines(listing).len() ==> package_info_defined(
            trim(#[trigger] split_lines(listing)[i]),
        )
}

proof fn lemma_lookup_push(entries: Seq<InstalledPackage>, e: InstalledPackage)
    ensures
        entries_map(entries.push(e)) == entries_map(entries).insert(e.base@, (e.name@, e.hash@)),
{
    let s = entries.push(e);
    assert(s.drop_last() =~= entries);
    assert(entries_map(s) =~= entries_map(entries).insert(e.base@, (e.name@, e.hash@)));
}

proof fn lemma_lookup_update_at(entries: Seq<InstalledPackage>, i: int, e: InstalledPackage, k: Seq<char>)
    requires
        0 <= i < entries.len(),
        entries[i].base@ == e.base@,
        forall|j: int| i < j < entries.len() ==> entries[j].base@ != e.base@,
    ensures
        lookup_in(entries.update(i, e), k) == if k == e.base@ {
            Some((e.name@, e.hash@))
        } else {
            lookup_in(entries, k)
        },
    decreases entries.len(),
{
    let s = entries.update(i, e);
    if i == entries.len() - 1 {
        assert(s.drop_last() =~= entries.drop_last());
    } else {
        assert(s.drop_last() =~= entries.drop_last().update(i, e));
        lemma_lookup_update_at(entries.drop_last(), i, e, k);
    }
}

proof fn lemma_lookup_update(entries: Seq<InstalledPackage>, i: int, e: InstalledPackage)
    requires
        0 <= i < entries.len(),
        entries[i].base@ == e.base@,
        forall|j: int| i < j < entries.len() ==> entries[j].base@ != e.base@,
    ensures
        entries_map(entries.update(i, e)) == entries_map(entries).insert(e.base@, (e.name@, e.hash@)),
{
    assert forall|k: Seq<char>|
        #[trigger] lookup_in(entries.update(i, e), k) == if k == e.base@ {
            Some((e.name@, e.hash@))
        } else {
            lookup_in(entries, k)
        } by {
        lemma_lookup_update_at(entries, i, e, k);
    }
    assert(entries_map(entries.update(i, e)) =~= entries_map(entries).insert(
        e.base@,
        (e.name@, e.hash@),
    ));
}

impl InstalledPackages {
    /// No installed packages.
    pub fn new() -> (r: Self)
        ensures
            r@ == Map::<Seq<char>, (Seq<char>, Seq<char>)>::empty(),
    {
        let r = InstalledPackages { entries: Vec::new() };
        assert(r@ =~= Map::<Seq<char>, (Seq<char>, Seq<char>)>::empty());
        r
    }

    /// Position of the latest entry with base name `base`.
    fn find(&self, base: &[char]) -> (r: Option<usize>)
        ensures
            r matches Some(i) ==> {
                &&& i < self.entries@.len()
                &&& self.entries@[i as int].base@ == base@
                &&& forall|j: int| i < j < self.entries@.len() ==> self.entries@[j].base@ != base@
                &&& lookup_in(self.entries@, base@) == Some(
                    (self.entries@[i as int].name@, self.entries@[i as int].hash@),
                )
            },
            r is None ==> lookup_in(self.entries@, base@) is None,
    {
        let mut k = self.entries.len();
        assert(self.entries@.take(k as int) =~= self.entries@);
        while k > 0
            invariant
                0 <= k <= self.entries@.len(),
                lookup_in(self.entries@, base@) == lookup_in(self.entries@.take(k as int), base@),
                forall|j: int| k <= j < self.entries@.len() ==> self.entries@[j].base@ != base@,
            decreases k,
        {
            assert(self.entries@.take(k as int).drop_last() =~= self.entries@.take(k - 1));
            let key = chars_of(self.entries[k - 1].base.as_str());
            if chars_eq(key.as_slice(), base) {
                return Some(k - 1);
            }
            k = k - 1;
        }
        None
    }

    /// The (full name, short hash) kept under `base`.
    pub fn get(&self, base: &str) -> (r: Option<(String, String)>)
        ensures
            r matches Some((name, hash)) ==> self@.contains_key(base@) && self@[base@] == (
                name@,
                hash@,
            ),
            r is None ==> !self@.contains_key(base@),
    {
        let key = chars_of(base);
        match self.find(key.as_slice()) {
            Some(i) => Some((self.entries[i].name.clone(), self.entries[i].hash.clone())),
            None => None,
        }
    }

    /// Keeps (name, hash) under `base`, replacing what was kept there.
    pub fn insert(&mut self, base: String, name: String, hash: String)
        ensures
            final(self)@ == old(self)@.insert(base@, (name@, hash@)),
    {
        let key = chars_of(base.as_str());
        let e = InstalledPackage { base, name, hash };
        match self.find(key.as_slice()) {
            Some(i) => {
                proof {
                    lemma_lookup_update(self.entries@, i as int, e);
                }
                self.entries.set(i, e);
            },
            None => {
                proof {
                    lemma_lookup_push(self.entries@, e);
                }
                self.entries.push(e);
            },
        }
    }

    /// Records an installed package under its base name, preferring the longer name
    /// when one is already kept there.
    pub fn note_package(&mut self, name: String, hash: String)
        ensures
            final(self)@ == note_package(old(self)@, name@, hash@),
    {
        let probe = FlakeUpdate {
            package_name: name.clone(),
            old_package_name: String::new(),
            hash_short: String::new(),
            old_hash_short: String::new(),
        };
        let base = String::from_str(probe.base_name());
        let should_insert = match self.get(base.as_str()) {
            None => true,
            Some((existing, _)) => {
                str_byte_len(name.as_str()) > str_byte_len(existing.as_str())
            },
        };
        assert(base@ == base_name_of(name@));
        if should_insert {
            self.insert(base, name, hash);
        }
    }

    /// Records the package that one line of a store path listing names, if any.
    pub fn note_store_path(&mut self, line: &str)
        requires
            package_info_defined(trim(line@)),
        ensures
            final(self)@ == note_line(old(self)@, line@),
    {
        let cs = chars_of(line);
        let (a, b) = trim_bounds(cs.as_slice());
        let t = string_from_chars(vstd::slice::slice_subrange(cs.as_slice(), a, b));
        if let Some((name, hash)) = extract_package_info(t.as_str()) {
            self.note_package(name, hash);
        }
    }

    /// Whether every line of the listing can be read without a faulting cut.
    pub fn listing_cuts_ok(listing: &str) -> (r: bool)
        ensures
            r == listing_readable(listing@),
    {
        let cs = chars_of(listing);
        let bounds = line_bounds(cs.as_slice());
        let ghost lines = split_lines(listing@);
        let mut i: usize = 0;
        while i < bounds.len()
            invariant
                0 <= i <= bounds@.len(),
                bounds@.len() == lines.len(),
                cs@ == listing@,
                lines == split_lines(listing@),
                forall|j: int|
                    #![trigger bounds@[j]]
                    0 <= j < bounds@.len() ==> {
                        &&& bounds@[j].0 <= bounds@[j].1 <= cs@.len()
                        &&& cs@.subrange(bounds@[j].0 as int, bounds@[j].1 as int) == lines[j]
                    },
                forall|j: int| 0 <= j < i ==> package_info_defined(trim(#[trigger] lines[j])),
            decreases bounds@.len() - i,
        {
            let (lo, hi) = bounds[i];
            let line = vstd::slice::slice_subrange(cs.as_slice(), lo, hi);
            let (a, b) = trim_bounds(line);
            let t = string_from_chars(vstd::slice::slice_subrange(line, a, b));
            assert(t@ == trim(lines[i as int]));
            if !package_info_cut_ok(t.as_str()) {
                assert(!package_info_defined(trim(lines[i as int])));
                return false;
            }
            i = i + 1;
        }
        true
    }

    /// The installed packages named by a store path listing, one path per line
    /// (the output of `nix-store -qR /run/current-system`).
    pub fn from_store_listing(listing: &str) -> (r: Self)
        requires
            listing_readable(listing@),
        ensures
            r@ == listing_map(split_lines(listing@)),
    {
        let cs = chars_of(listing);
        let bounds = line_bounds(cs.as_slice());
        let mut r = InstalledPackages::new();
        let ghost lines = split_lines(listing@);
        let mut i: usize = 0;
        while i < bounds.len()
            invariant
                0 <= i <= bounds@.len(),
                bounds@.len() == lines.len(),
                cs@ == listing@,
                lines == split_lines(listing@),
                listing_readable(listing@),
                forall|j: int|
                    #![trigger bounds@[j]]
                    0 <= j < bounds@.len() ==> {
                        &&& bounds@[j].0 <= bounds@[j].1 <= cs@.len()
                        &&& cs@.subrange(bounds@[j].0 as int, bounds@[j].1 as int) == lines[j]
                    },
                r@ == listing_map(lines.take(i as int)),
            decreases bounds@.len() - i,
        {
            let (lo, hi) = bounds[i];
            let line = string_from_chars(vstd::slice::slice_subrange(cs.as_slice(), lo, hi));
            assert(line@ == lines[i as int]);
            assert(lines.take(i + 1).drop_last() =~= lines.take(i as int));
            r.note_store_path(line.as_str());
            i = i + 1;
        }
        assert(lines.take(i as int) =~= lines);
        r
    }
}


/// Recording a package keeps, under its base name, a full name at least as long as the
/// one recorded and as the one kept before.
pub proof fn lemma_note_package_keeps_longest(
    m: Map<Seq<char>, (Seq<char>, Seq<char>)>,
    name: Seq<char>,
    hash: Seq<char>,
)
    ensures
        ({
            let base = base_name_of(name);
            let r = note_package(m, name, hash);
            &&& r.contains_key(base)
            &&& byte_len(r[base].0) >= byte_len(name)
            &&& m.contains_key(base) ==> byte_len(r[base].0) >= byte_len(m[base].0)
            &&& forall|k: Seq<char>| k != base ==> r.contains_key(k) == m.contains_key(k) && (
            m.contains_key(k) ==> r[k] == m[k])
        }),
{
}

} // verus!
