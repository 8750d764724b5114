//! Stable ordering of updates by the lowercase form of their package names.
use vstd::prelude::*;

use crate::flake_update::{update_views, FlakeUpdate, UpdateView};
use crate::text::chars_of;

verus! {

/// Unicode lowercase mapping of a string: the result of std's `str::to_lowercase`.
pub uninterp spec fn lowercase(s: Seq<char>) -> Seq<char>;

/// `c` with ASCII uppercase letters mapped to lowercase (`char::to_ascii_lowercase`).
pub open spec fn ascii_lower(c: char) -> char {
    if 'A' <= c <= 'Z' {
        ((c as u32) + 32) as char
    } else {
        c
    }
}

/// Every character of `s` is ASCII.
pub open spec fn is_ascii_text(s: Seq<char>) -> bool {
    forall|i: int| 0 <= i < s.len() ==> (#[trigger] s[i] as u32) < 128
}

/// `s` with ASCII uppercase letters mapped to lowercase.
pub open spec fn ascii_lowercase(s: Seq<char>) -> Seq<char> {
    s.map_values(|c: char| ascii_lower(c))
}

/// std's `str::to_lowercase`. The contract claims that the result is a fixed function of
/// the input text (named [`lowercase`]), and that on ASCII text it maps `A`..`Z` to
/// `a`..`z` and keeps every other character; the Unicode case tables that define it
/// elsewhere are not stated.
#[verifier::external_body]
pub(crate) fn to_lowercase(s: &str) -> (r: String)
    ensures
        r@ == lowercase(s@),
        is_ascii_text(s@) ==> r@ == ascii_lowercase(s@),
{
    s.to_lowercase()
}

/// Lexicographic order of strings by code point: the order of `String`'s `Ord`, which
/// compares the UTF-8 bytes (and UTF-8 preserves code point order).
pub open spec fn key_le(a: Seq<char>, b: Seq<char>) -> bool
    decreases a.len(),
{
    if a.len() == 0 {
        true
    } else if b.len() == 0 {
        false
    } else if (a[0] as u32) < (b[0] as u32) {
        true
    } else if (a[0] as u32) > (b[0] as u32) {
        false
    } else {
        key_le(a.drop_first(), b.drop_first())
    }
}

/// Inserts `x` after every element whose key is not greater than the key of `x`
/// (into a sequence that is ordered by key).
pub open spec fn insert_keyed(s: Seq<(Seq<char>, UpdateView)>, x: (Seq<char>, UpdateView)) -> Seq<
    (Seq<char>, UpdateView),
>
    decreases s.len(),
{
    if s.len() == 0 || key_le(s.last().0, x.0) {
        s.push(x)
    } else {
        insert_keyed(s.drop_last(), x).push(s.last())
    }
}

/// The stable sort of `s` by key: equal keys keep their order.
pub open spec fn sort_keyed(s: Seq<(Seq<char>, UpdateView)>) -> Seq<(Seq<char>, UpdateView)>
    decreases s.len(),
{
    if s.len() == 0 {
        s
    } else {
        insert_keyed(sort_keyed(s.drop_last()), s.last())
    }
}

/// Updates paired with the lowercase form of their package names.
pub open spec fn keyed_by_lower_name(s: Seq<UpdateView>) -> Seq<(Seq<char>, UpdateView)> {
    s.map_values(|u: UpdateView| (lowercase(u.package_name), u))
}

/// The items of keyed pairs.
pub open spec fn items_of(s: Seq<(Seq<char>, UpdateView)>) -> Seq<UpdateView> {
    s.map_values(|p: (Seq<char>, UpdateView)| p.1)
}

/// `s` stably sorted by the lowercase form of the package names.
pub open spec fn sorted_by_lower_name(s: Seq<UpdateView>) -> Seq<UpdateView> {
    items_of(sort_keyed(keyed_by_lower_name(s)))
}

/// Whether `a` comes no later than `b` in [`key_le`] order.
pub fn keys_le(a: &[char], b: &[char]) -> (r: bool)
    ensures
        r == key_le(a@, b@),
{
    let mut i: usize = 0;
    assert(a@.skip(0) =~= a@);
    assert(b@.skip(0) =~= b@);
    while i < a.len() && i < b.len()
        invariant
            0 <= i <= a@.len(),
            i <= b@.len(),
            key_le(a@, b@) == key_le(a@.skip(i as int), b@.skip(i as int)),
        decreases a@.len() - i,
    {
        let x = a[i] as u32;
        let y = b[i] as u32;
        assert(a@.skip(i as int)[0] == a@[i as int]);
        assert(b@.skip(i as int)[0] == b@[i as int]);
        if x < y {
            return true;
        }
        if x > y {
            return false;
        }
        assert(a@.skip(i as int).drop_first() =~= a@.skip(i + 1));
        assert(b@.skip(i as int).drop_first() =~= b@.skip(i + 1));
        i = i + 1;
    }
    i == a.len()
}

/// Position at which [`insert_keyed`] places `x` in `s`.
proof fn lemma_insert_keyed_at(s: Seq<(Seq<char>, UpdateView)>, x: (Seq<char>, UpdateView), j: int)
    requires
        0 <= j <= s.len(),
        j == 0 || key_le(s[j - 1].0, x.0),
        forall|m: int| j <= m < s.len() ==> !key_le(#[trigger] s[m].0, x.0),
    ensures
        insert_keyed(s, x) == s.insert(j, x),
    decreases s.len(),
{
    if s.len() == j {
        assert(s.insert(j, x) =~= s.push(x));
    } else {
        let t = s.drop_last();
        assert(!key_le(s[s.len() - 1].0, x.0));
        lemma_insert_keyed_at(t, x, j);
        assert(s.insert(j, x) =~= t.insert(j, x).push(s.last()));
    }
}

/// Sorts updates given with their keys, stably by key.
pub fn sort_keyed_updates(items: &Vec<(Vec<char>, FlakeUpdate)>) -> (r: Vec<FlakeUpdate>)
    ensures
        update_views(r@) == items_of(
            sort_keyed(items@.map_values(|p: (Vec<char>, FlakeUpdate)| (p.0@, p.1@))),
        ),
{
    let ghost input = items@.map_values(|p: (Vec<char>, FlakeUpdate)| (p.0@, p.1@));
    // positions of the items, in sorted order
    let mut order: Vec<usize> = Vec::new();
    let mut i: usize = 0;
    while i < items.len()
        invariant
            0 <= i <= items@.len(),
            input == items@.map_values(|p: (Vec<char>, FlakeUpdate)| (p.0@, p.1@)),
            forall|m: int| 0 <= m < order@.len() ==> #[trigger] order@[m] < items@.len(),
            order@.map_values(|x: usize| input[x as int]) == sort_keyed(input.take(i as int)),
        decreases items@.len() - i,
    {
        let ghost sorted = order@.map_values(|x: usize| input[x as int]);
        let mut j = order.len();
        while j > 0 && !keys_le(items[order[j - 1]].0.as_slice(), items[i].0.as_slice())
            invariant
                0 <= j <= order@.len(),
                i < items@.len(),
                input == items@.map_values(|p: (Vec<char>, FlakeUpdate)| (p.0@, p.1@)),
                forall|m: int| 0 <= m < order@.len() ==> #[trigger] order@[m] < items@.len(),
                sorted == order@.map_values(|x: usize| input[x as int]),
                forall|m: int| j <= m < order@.len() ==> !key_le(#[trigger] sorted[m].0, input[i as int].0),
            decreases j,
        {
            j = j - 1;
        }
        proof {
            lemma_insert_keyed_at(sorted, input[i as int], j as int);
            assert(input.take(i + 1).drop_last() =~= input.take(i as int));
        }
        order.insert(j, i);
        assert(order@.map_values(|x: usize| input[x as int]) =~= sorted.insert(j as int, input[i as int]));
        i = i + 1;
    }
    assert(input.take(i as int) =~= input);
    let ghost sorted_all = order@.map_values(|x: usize| input[x as int]);
    let mut r: Vec<FlakeUpdate> = Vec::new();
    let mut k: usize = 0;
    while k < order.len()
        invariant
            0 <= k <= order@.len(),
            input == items@.map_values(|p: (Vec<char>, FlakeUpdate)| (p.0@, p.1@)),
            forall|m: int| 0 <= m < order@.len() ==> #[trigger] order@[m] < items@.len(),
            sorted_all == order@.map_values(|x: usize| input[x as int]),
            update_views(r@) == items_of(sorted_all.take(k as int)),
        decreases order@.len() - k,
    {
        let ghost before = r@;
        let x = order[k];
        r.push(items[x].1.duplicate());
        assert(sorted_all[k as int] == input[x as int]);
        assert(input[x as int].1 == items@[x as int].1@);
        assert(update_views(r@) =~= update_views(before).push(items@[x as int].1@));
        assert(sorted_all.take(k + 1) =~= sorted_all.take(k as int).push(sorted_all[k as int]));
        assert(update_views(r@) =~= items_of(sorted_all.take(k + 1)));
        k = k + 1;
    }
    assert(sorted_all.take(k as int) =~= sorted_all);
    r
}

/// Sorts updates by the lowercase form of their package names, keeping the order of
/// updates whose lowercase names are equal (`sort_by` on `to_lowercase()`).
pub fn sort_by_lower_name(updates: Vec<FlakeUpdate>) -> (r: Vec<FlakeUpdate>)
    ensures
        update_views(r@) == sorted_by_lower_name(update_views(updates@)),
{
    let mut items: Vec<(Vec<char>, FlakeUpdate)> = Vec::new();
    let mut i: usize = 0;
    while i < updates.len()
        invariant
            0 <= i <= updates@.len(),
            items@.map_values(|p: (Vec<char>, FlakeUpdate)| (p.0@, p.1@)) == keyed_by_lower_name(
                update_views(updates@.take(i as int)),
            ),
        decreases updates@.len() - i,
    {
        let ghost before = items@;
        let u = updates[i].duplicate();
        let lower = to_lowercase(updates[i].package_name.as_str());
        let key = chars_of(lower.as_str());
        items.push((key, u));
        assert(update_views(updates@.take(i + 1)) =~= update_views(updates@.take(i as int)).push(
            updates@[i as int]@,
        ));
        assert(items@ =~= before.push((key, u)));
        assert(keyed_by_lower_name(update_views(updates@.take(i + 1))) =~= keyed_by_lower_name(
            update_views(updates@.take(i as int)),
        ).push((lowercase(updates@[i as int].package_name@), updates@[i as int]@)));
        assert(items@.map_values(|p: (Vec<char>, FlakeUpdate)| (p.0@, p.1@)) =~= before.map_values(
            |p: (Vec<char>, FlakeUpdate)| (p.0@, p.1@),
        ).push((key@, u@)));
        assert(items@.map_values(|p: (Vec<char>, FlakeUpdate)| (p.0@, p.1@)) =~= keyed_by_lower_name(
            update_views(updates@.take(i + 1)),
        ));
        i = i + 1;
    }
    assert(updates@.take(i as int) =~= updates@);
    sort_keyed_updates(&items)
}


// ----------------------------------------------------------------------------
// Laws of the ordering
// ----------------------------------------------------------------------------

/// Every string comes no later than itself.
pub proof fn lemma_key_le_reflexive(a: Seq<char>)
    ensures
        key_le(a, a),
    decreases a.len(),
{
    if a.len() > 0 {
        lemma_key_le_reflexive(a.drop_first());
    }
}

/// Any two strings are ordered one way or the other.
pub proof fn lemma_key_le_total(a: Seq<char>, b: Seq<char>)
    ensures
        key_le(a, b) || key_le(b, a),
    decreases a.len(),
{
    if a.len() > 0 && b.len() > 0 && a[0] as u32 == b[0] as u32 {
        lemma_key_le_total(a.drop_first(), b.drop_first());
    }
}

/// The order is transitive.
pub proof fn lemma_key_le_transitive(a: Seq<char>, b: Seq<char>, c: Seq<char>)
    requires
        key_le(a, b),
        key_le(b, c),
    ensures
        key_le(a, c),
    decreases a.len(),
{
    if a.len() > 0 && b.len() > 0 && c.len() > 0 && a[0] as u32 == b[0] as u32 && b[0] as u32
        == c[0] as u32 {
        lemma_key_le_transitive(a.drop_first(), b.drop_first(), c.drop_first());
    }
}

/// The keys of `s` never decrease.
pub open spec fn keys_sorted(s: Seq<(Seq<char>, UpdateView)>) -> bool {
    forall|i: int, j: int| 0 <= i < j < s.len() ==> key_le(#[trigger] s[i].0, #[trigger] s[j].0)
}

/// What [`insert_keyed`] yields is `x` or an element of `s`.
proof fn lemma_insert_keyed_members(s: Seq<(Seq<char>, UpdateView)>, x: (Seq<char>, UpdateView))
    ensures
        insert_keyed(s, x).len() == s.len() + 1,
        forall|i: int|
            0 <= i < insert_keyed(s, x).len() ==> #[trigger] insert_keyed(s, x)[i] == x
                || s.contains(insert_keyed(s, x)[i]),
    decreases s.len(),
{
    if s.len() == 0 || key_le(s.last().0, x.0) {
        assert forall|i: int| 0 <= i < s.len() implies s.contains(s.push(x)[i]) by {
            assert(s.push(x)[i] == s[i]);
        }
    } else {
        let t = s.drop_last();
        lemma_insert_keyed_members(t, x);
        let r = insert_keyed(t, x);
        assert forall|i: int| 0 <= i < r.push(s.last()).len() implies #[trigger] r.push(
            s.last(),
        )[i] == x || s.contains(r.push(s.last())[i]) by {
            if i < r.len() {
                if r[i] != x {
                    let k = choose|k: int| 0 <= k < t.len() && t[k] == r[i];
                    assert(s[k] == r[i]);
                }
            } else {
                assert(s[s.len() - 1] == s.last());
            }
        }
    }
}

/// Inserting into a sequence ordered by key keeps it ordered.
proof fn lemma_insert_keyed_sorted(s: Seq<(Seq<char>, UpdateView)>, x: (Seq<char>, UpdateView))
    requires
        keys_sorted(s),
    ensures
        keys_sorted(insert_keyed(s, x)),
    decreases s.len(),
{
    if s.len() == 0 || key_le(s.last().0, x.0) {
        let r = s.push(x);
        assert forall|i: int, j: int| 0 <= i < j < r.len() implies key_le(
            #[trigger] r[i].0,
            #[trigger] r[j].0,
        ) by {
            if j == s.len() {
                if i < s.len() - 1 {
                    lemma_key_le_transitive(s[i].0, s.last().0, x.0);
                }
            }
        }
    } else {
        let t = s.drop_last();
        lemma_insert_keyed_sorted(t, x);
        lemma_insert_keyed_members(t, x);
        lemma_key_le_total(s.last().0, x.0);
        let q = insert_keyed(t, x);
        let r = q.push(s.last());
        assert forall|i: int, j: int| 0 <= i < j < r.len() implies key_le(
            #[trigger] r[i].0,
            #[trigger] r[j].0,
        ) by {
            if j == q.len() {
                if q[i] != x {
                    let k = choose|k: int| 0 <= k < t.len() && t[k] == q[i];
                    assert(s[k] == t[k]);
                }
            }
        }
    }
}

/// The stable sort orders by key.
pub proof fn lemma_sort_keyed_sorted(s: Seq<(Seq<char>, UpdateView)>)
    ensures
        keys_sorted(sort_keyed(s)),
    decreases s.len(),
{
    if s.len() > 0 {
        lemma_sort_keyed_sorted(s.drop_last());
        lemma_insert_keyed_sorted(sort_keyed(s.drop_last()), s.last());
    }
}

/// The stable sort keeps every pair, as many times as it occurs.
pub proof fn lemma_sort_keyed_permutes(s: Seq<(Seq<char>, UpdateView)>)
    ensures
        sort_keyed(s).to_multiset() == s.to_multiset(),
    decreases s.len(),
{
    broadcast use vstd::seq_lib::group_to_multiset_ensures;

    if s.len() > 0 {
        let t = s.drop_last();
        lemma_sort_keyed_permutes(t);
        lemma_insert_keyed_permutes(sort_keyed(t), s.last());
        assert(t.push(s.last()) =~= s);
    } else {
        assert(sort_keyed(s) =~= s);
    }
}

proof fn lemma_insert_keyed_permutes(s: Seq<(Seq<char>, UpdateView)>, x: (Seq<char>, UpdateView))
    ensures
        insert_keyed(s, x).to_multiset() == s.to_multiset().insert(x),
    decreases s.len(),
{
    broadcast use vstd::seq_lib::group_to_multiset_ensures;

    if s.len() == 0 || key_le(s.last().0, x.0) {
    } else {
        let t = s.drop_last();
        lemma_insert_keyed_permutes(t, x);
        assert(t.push(s.last()) =~= s);
        assert(insert_keyed(s, x).to_multiset() =~= t.to_multiset().insert(x).insert(s.last()));
        assert(s.to_multiset() =~= t.to_multiset().insert(s.last()));
    }
}

/// Sorting by lowercase name orders the updates by the lowercase form of their names.
pub proof fn lemma_sorted_by_lower_name_ordered(us: Seq<UpdateView>)
    ensures
        sorted_by_lower_name(us).len() == us.len(),
        forall|i: int, j: int|
            0 <= i < j < us.len() ==> key_le(
                lowercase(#[trigger] sorted_by_lower_name(us)[i].package_name),
                lowercase(#[trigger] sorted_by_lower_name(us)[j].package_name),
            ),
{
    broadcast use vstd::seq_lib::group_to_multiset_ensures;

    let keyed = keyed_by_lower_name(us);
    let sorted = sort_keyed(keyed);
    lemma_sort_keyed_sorted(keyed);
    lemma_sort_keyed_permutes(keyed);
    assert(sorted.to_multiset().len() == sorted.len());
    assert(keyed.to_multiset().len() == keyed.len());
    assert(sorted.len() == keyed.len());
    assert forall|i: int| 0 <= i < sorted.len() implies #[trigger] sorted[i].0 == lowercase(
        sorted[i].1.package_name,
    ) by {
        assert(sorted.to_multiset().count(sorted[i]) > 0);
        assert(keyed.contains(sorted[i]));
    }
    let r = sorted_by_lower_name(us);
    assert forall|i: int, j: int| 0 <= i < j < us.len() implies key_le(
        lowercase(#[trigger] r[i].package_name),
        lowercase(#[trigger] r[j].package_name),
    ) by {
        assert(key_le(sorted[i].0, sorted[j].0));
    }
}

/// Sorting by lowercase name keeps every update, as many times as it occurs.
pub proof fn lemma_sorted_by_lower_name_permutes(us: Seq<UpdateView>)
    ensures
        sorted_by_lower_name(us).to_multiset() == us.to_multiset(),
{
    lemma_sort_keyed_permutes(keyed_by_lower_name(us));
    lemma_items_permute(sort_keyed(keyed_by_lower_name(us)), keyed_by_lower_name(us));
    assert(items_of(keyed_by_lower_name(us)) =~= us);
}

/// Two sequences of pairs that hold the same pairs hold the same items.
proof fn lemma_items_permute(a: Seq<(Seq<char>, UpdateView)>, b: Seq<(Seq<char>, UpdateView)>)
    requires
        a.to_multiset() == b.to_multiset(),
    ensures
        items_of(a).to_multiset() == items_of(b).to_multiset(),
    decreases a.len(),
{
    broadcast use vstd::seq_lib::group_to_multiset_ensures;

    if a.len() == 0 {
        assert(a.to_multiset().len() == 0);
        assert(b.to_multiset().len() == b.len());
        assert(b.len() == 0);
        assert(items_of(a) =~= Seq::<UpdateView>::empty());
        assert(items_of(b) =~= Seq::<UpdateView>::empty());
    } else {
        let x = a.last();
        assert(b.to_multiset().count(x) > 0);
        let k = choose|k: int| 0 <= k < b.len() && b[k] == x;
        let a2 = a.drop_last();
        let b2 = b.remove(k);
        assert(a2.push(x) =~= a);
        assert(a2.to_multiset() =~= b2.to_multiset());
        lemma_items_permute(a2, b2);
        assert(items_of(a) =~= items_of(a2).push(x.1));
        assert(items_of(b2) =~= items_of(b).remove(k));
        assert(items_of(b)[k] == x.1);
    }
}


/// The pairs of `s` whose key is `k`, in order.
pub open spec fn with_key(s: Seq<(Seq<char>, UpdateView)>, k: Seq<char>) -> Seq<
    (Seq<char>, UpdateView),
> {
    s.filter(|p: (Seq<char>, UpdateView)| p.0 == k)
}

/// Inserting into a sequence ordered by key places the new pair after every pair with
/// the same key.
proof fn lemma_insert_keyed_with_key(
    s: Seq<(Seq<char>, UpdateView)>,
    x: (Seq<char>, UpdateView),
    k: Seq<char>,
)
    requires
        keys_sorted(s),
    ensures
        with_key(insert_keyed(s, x), k) == if x.0 == k {
            with_key(s, k).push(x)
        } else {
            with_key(s, k)
        },
    decreases s.len(),
{
    reveal(Seq::filter);
    if s.len() == 0 || key_le(s.last().0, x.0) {
        assert(s.push(x).drop_last() =~= s);
    } else {
        let t = s.drop_last();
        lemma_insert_keyed_with_key(t, x, k);
        lemma_key_le_reflexive(x.0);
        let q = insert_keyed(t, x);
        assert(q.push(s.last()).drop_last() =~= q);
    }
}

/// The stable sort keeps the pairs with the same key in their order.
pub proof fn lemma_sort_keyed_stable(s: Seq<(Seq<char>, UpdateView)>, k: Seq<char>)
    ensures
        with_key(sort_keyed(s), k) == with_key(s, k),
    decreases s.len(),
{
    reveal(Seq::filter);
    if s.len() > 0 {
        let t = s.drop_last();
        lemma_sort_keyed_stable(t, k);
        lemma_sort_keyed_sorted(t);
        lemma_insert_keyed_with_key(sort_keyed(t), s.last(), k);
    } else {
        assert(sort_keyed(s) =~= s);
    }
}

/// Pairs whose keys are the lowercase names of their updates.
pub open spec fn keyed_by_own_name(s: Seq<(Seq<char>, UpdateView)>) -> bool {
    forall|i: int| 0 <= i < s.len() ==> (#[trigger] s[i]).0 == lowercase(s[i].1.package_name)
}

/// For pairs keyed by lowercase name, taking the pairs with key `k` and then their
/// updates is taking the updates whose lowercase name is `k`.
proof fn lemma_items_with_key(s: Seq<(Seq<char>, UpdateView)>, k: Seq<char>)
    requires
        keyed_by_own_name(s),
    ensures
        items_of(with_key(s, k)) == items_of(s).filter(
            |u: UpdateView| lowercase(u.package_name) == k,
        ),
    decreases s.len(),
{
    reveal(Seq::filter);
    if s.len() > 0 {
        let t = s.drop_last();
        assert(keyed_by_own_name(t)) by {
            assert forall|i: int| 0 <= i < t.len() implies (#[trigger] t[i]).0 == lowercase(
                t[i].1.package_name,
            ) by {
                assert(t[i] == s[i]);
            }
        }
        lemma_items_with_key(t, k);
        assert(items_of(s).drop_last() =~= items_of(t));
        assert(s[s.len() - 1] == s.last());
        let f = with_key(t, k);
        assert(items_of(f.push(s.last())) =~= items_of(f).push(s.last().1));
    } else {
        assert(items_of(with_key(s, k)) =~= Seq::<UpdateView>::empty());
        assert(items_of(s) =~= Seq::<UpdateView>::empty());
    }
}

/// Sorting by lowercase name keeps the updates with the same lowercase name in their
/// order (the sort is stable).
pub proof fn lemma_sorted_by_lower_name_stable(us: Seq<UpdateView>, k: Seq<char>)
    ensures
        sorted_by_lower_name(us).filter(|u: UpdateView| lowercase(u.package_name) == k)
            == us.filter(|u: UpdateView| lowercase(u.package_name) == k),
{
    broadcast use vstd::seq_lib::group_to_multiset_ensures;

    let keyed = keyed_by_lower_name(us);
    let sorted = sort_keyed(keyed);
    lemma_sort_keyed_stable(keyed, k);
    lemma_sort_keyed_permutes(keyed);
    assert(keyed_by_own_name(keyed));
    assert(keyed_by_own_name(sorted)) by {
        assert forall|i: int| 0 <= i < sorted.len() implies (#[trigger] sorted[i]).0 == lowercase(
            sorted[i].1.package_name,
        ) by {
            assert(sorted.to_multiset().count(sorted[i]) > 0);
            assert(keyed.contains(sorted[i]));
        }
    }
    lemma_items_with_key(keyed, k);
    lemma_items_with_key(sorted, k);
    assert(items_of(keyed) =~= us);
}

} // verus!
