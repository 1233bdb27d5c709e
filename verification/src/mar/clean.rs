//! Decides which MAR entries of the staging area to delete.
//!
//! Entries are considered oldest first. An entry is deleted when the number
//! of entries exceeds the configured maximum, when the staging area uses more
//! than its quota or leaves less than the required headroom on disk, or when
//! it is older than the configured maximum age.
use vstd::prelude::*;

use crate::util::disk_size::{sat_sub, DiskSize};

verus! {

/// Why a MAR entry is deleted.
#[derive(Debug, Clone, Copy, PartialEq, Eq, Structural)]
pub enum DeletionReason {
    Expired,
    DiskQuota,
    EntryQuota,
}

impl DeletionReason {
    pub open spec fn spec_text(self) -> Seq<char> {
        match self {
            DeletionReason::Expired => "Expired"@,
            DeletionReason::DiskQuota => "Disk quota"@,
            DeletionReason::EntryQuota => "Entry quota"@,
        }
    }

    /// The text this reason is displayed as.
    pub fn as_str(&self) -> (r: &'static str)
        ensures
            r@ == self.spec_text(),
    {
        match self {
            DeletionReason::Expired => "Expired",
            DeletionReason::DiskQuota => "Disk quota",
            DeletionReason::EntryQuota => "Entry quota",
        }
    }
}

/// A MAR entry of the staging area: its age (nanoseconds), its size on disk
/// and its path.
pub struct AgeSizePath {
    pub age: u128,
    pub size: DiskSize,
    pub path: String,
}

/// An entry as a plain value: `(age, size, path)`.
pub type EntryView = (u128, DiskSize, Seq<char>);

impl View for AgeSizePath {
    type V = EntryView;

    open spec fn view(&self) -> EntryView {
        (self.age, self.size, self.path@)
    }
}

pub open spec fn sat_sub_u128(a: u128, b: u128) -> u128 {
    if a >= b {
        (a - b) as u128
    } else {
        0
    }
}

impl AgeSizePath {
    /// An entry whose data was collected at `timestamp`, seen at
    /// `reference_date` (both in nanoseconds since the epoch). A timestamp
    /// later than the reference date gives an age of zero.
    pub fn new(path: &str, size: DiskSize, timestamp: u128, reference_date: u128) -> (r: Self)
        ensures
            r@ == (sat_sub_u128(reference_date, timestamp), size, path@),
    {
        AgeSizePath {
            age: reference_date.saturating_sub(timestamp),
            size,
            path: path.to_owned(),
        }
    }
}

pub open spec fn views(s: Seq<AgeSizePath>) -> Seq<EntryView> {
    s.map_values(|e: AgeSizePath| e@)
}

// ---------------------------------------------------------------------------
// Oldest first
// ---------------------------------------------------------------------------
/// Number of leading entries of `s` that are at least `age` old.
pub open spec fn leading_not_younger(s: Seq<EntryView>, age: u128) -> nat
    decreases s.len(),
{
    if s.len() == 0 || s[0].0 < age {
        0
    } else {
        1 + leading_not_younger(s.drop_first(), age)
    }
}

/// Inserts `x` into `s` after every leading entry at least as old as `x`.
pub open spec fn insert_oldest_first(x: EntryView, s: Seq<EntryView>) -> Seq<EntryView> {
    s.insert(leading_not_younger(s, x.0) as int, x)
}

/// `s` sorted from the oldest entry to the most recent one; entries of equal
/// age keep their relative order (a stable sort).
pub open spec fn oldest_first(s: Seq<EntryView>) -> Seq<EntryView>
    decreases s.len(),
{
    if s.len() == 0 {
        s
    } else {
        insert_oldest_first(s.last(), oldest_first(s.drop_last()))
    }
}

proof fn lemma_leading_not_younger_exact(s: Seq<EntryView>, age: u128, n: int)
    requires
        0 <= n <= s.len(),
        forall|k: int| 0 <= k < n ==> (#[trigger] s[k]).0 >= age,
        n == s.len() || s[n].0 < age,
    ensures
        leading_not_younger(s, age) == n,
    decreases s.len(),
{
    if n > 0 {
        let t = s.drop_first();
        assert forall|k: int| 0 <= k < n - 1 implies (#[trigger] t[k]).0 >= age by {
            assert(t[k] == s[k + 1]);
        }
        if n - 1 < t.len() {
            assert(t[n - 1] == s[n]);
        }
        lemma_leading_not_younger_exact(t, age, n - 1);
    }
}

/// Sorts the entries oldest first, keeping the order of entries of equal age.
fn sort_oldest_first(entries: Vec<AgeSizePath>) -> (r: Vec<AgeSizePath>)
    ensures
        views(r@) == oldest_first(views(entries@)),
{
    let ghost input = views(entries@);
    let mut rest = entries;
    let mut sorted: Vec<AgeSizePath> = Vec::new();
    let ghost mut k: int = 0;
    while rest.len() > 0
        invariant
            0 <= k <= input.len(),
            views(rest@) == input.skip(k),
            views(sorted@) == oldest_first(input.take(k)),
        decreases rest@.len(),
    {
        let ghost before = rest@;
        let x = rest.remove(0);
        assert(views(rest@) =~= input.skip(k + 1)) by {
            assert(views(rest@) =~= views(before).drop_first());
        }
        let age = x.age;
        let mut j: usize = 0;
        while j < sorted.len() && sorted[j].age >= age
            invariant
                0 <= j <= sorted@.len(),
                forall|m: int| 0 <= m < j ==> (#[trigger] sorted@[m]).age >= age,
            decreases sorted@.len() - j,
        {
            j = j + 1;
        }
        proof {
            let sv = views(sorted@);
            assert forall|m: int| 0 <= m < j implies (#[trigger] sv[m]).0 >= age by {
                assert(sv[m] == sorted@[m]@);
            }
            if j < sorted@.len() {
                assert(sv[j as int] == sorted@[j as int]@);
            }
            lemma_leading_not_younger_exact(sv, age, j as int);
            assert(input.take(k + 1).drop_last() =~= input.take(k));
            assert(input.take(k + 1).last() == x@) by {
                assert(views(before)[0] == x@);
                assert(input.skip(k)[0] == input[k]);
            }
        }
        let ghost sorted_before = sorted@;
        sorted.insert(j, x);
        proof {
            assert(views(sorted@) =~= views(sorted_before).insert(j as int, x@));
            k = k + 1;
        }
    }
    proof {
        assert(input.skip(k).len() == 0);
        assert(input.take(k) =~= input);
    }
    sorted
}

// ---------------------------------------------------------------------------
// Marking
// ---------------------------------------------------------------------------
/// Whether `freed` (bytes, inodes) reaches `need` in both components.
pub open spec fn frees_enough(freed: (nat, nat), need: DiskSize) -> bool {
    freed.0 >= need.bytes && freed.1 >= need.inodes
}

pub open spec fn plus_size(freed: (nat, nat), size: DiskSize) -> (nat, nat) {
    (freed.0 + size.bytes as nat, freed.1 + size.inodes as nat)
}

/// Marks the entries of `s` (oldest first), given how many entries are still
/// over the entry quota (`over`) and how much the entries marked so far free.
/// Entries over the entry quota are marked first; then entries are marked
/// while the space they free does not reach `need` in both bytes and inodes;
/// then entries older than `max_age`, when `expire` is set.
pub open spec fn marking(
    s: Seq<EntryView>,
    over: nat,
    freed: (nat, nat),
    need: DiskSize,
    expire: bool,
    max_age: u128,
) -> Seq<(EntryView, DeletionReason)>
    decreases s.len(),
{
    if s.len() == 0 {
        Seq::empty()
    } else {
        let e = s[0];
        let rest = s.drop_first();
        if over > 0 {
            seq![(e, DeletionReason::EntryQuota)].add(
                marking(rest, (over - 1) as nat, plus_size(freed, e.1), need, expire, max_age),
            )
        } else if need != (DiskSize { bytes: 0, inodes: 0 }) && !frees_enough(freed, need) {
            seq![(e, DeletionReason::DiskQuota)].add(
                marking(rest, 0, plus_size(freed, e.1), need, expire, max_age),
            )
        } else if expire && e.0 > max_age {
            seq![(e, DeletionReason::Expired)].add(
                marking(rest, 0, plus_size(freed, e.1), need, expire, max_age),
            )
        } else {
            marking(rest, 0, freed, need, expire, max_age)
        }
    }
}

/// How much space must be freed to respect the size quota and the headroom.
pub open spec fn space_to_free(
    total_space_used: DiskSize,
    max_total_size: DiskSize,
    available_space: DiskSize,
    min_space: DiskSize,
) -> DiskSize {
    let max_total_size_exceeded = !max_total_size.spec_exceeds(total_space_used);
    let min_headroom_exceeded = !available_space.spec_exceeds(min_space);
    let over_quota = total_space_used.spec_saturating_sub(max_total_size);
    let under_headroom = min_space.spec_saturating_sub(available_space);
    if max_total_size_exceeded && min_headroom_exceeded {
        DiskSize::spec_max(over_quota, under_headroom)
    } else if max_total_size_exceeded {
        over_quota
    } else if min_headroom_exceeded {
        under_headroom
    } else {
        DiskSize { bytes: 0, inodes: 0 }
    }
}

/// Number of entries over the entry quota (a quota of 0 means no quota).
pub open spec fn entries_over_quota(len: nat, max_count: usize) -> nat {
    if max_count == 0 || len <= max_count {
        0
    } else {
        (len - max_count) as nat
    }
}

/// The entries to delete, with the reason of each, oldest first.
pub open spec fn entries_to_delete(
    entries: Seq<EntryView>,
    total_space_used: DiskSize,
    max_total_size: DiskSize,
    available_space: DiskSize,
    min_space: DiskSize,
    max_age: u128,
    max_count: usize,
) -> Seq<(EntryView, DeletionReason)> {
    marking(
        oldest_first(entries),
        entries_over_quota(entries.len(), max_count),
        (0, 0),
        space_to_free(total_space_used, max_total_size, available_space, min_space),
        max_age != 0,
        max_age,
    )
}

pub open spec fn total_bytes(s: Seq<EntryView>) -> nat
    decreases s.len(),
{
    if s.len() == 0 {
        0
    } else {
        s[0].1.bytes as nat + total_bytes(s.drop_first())
    }
}

pub open spec fn total_inodes(s: Seq<EntryView>) -> nat
    decreases s.len(),
{
    if s.len() == 0 {
        0
    } else {
        s[0].1.inodes as nat + total_inodes(s.drop_first())
    }
}

proof fn lemma_total_insert(s: Seq<EntryView>, i: int, x: EntryView)
    requires
        0 <= i <= s.len(),
    ensures
        total_bytes(s.insert(i, x)) == total_bytes(s) + x.1.bytes,
        total_inodes(s.insert(i, x)) == total_inodes(s) + x.1.inodes,
    decreases s.len(),
{
    if i == 0 {
        assert(s.insert(i, x).drop_first() =~= s);
    } else {
        assert(s.insert(i, x).drop_first() =~= s.drop_first().insert(i - 1, x));
        lemma_total_insert(s.drop_first(), i - 1, x);
    }
}

proof fn lemma_total_drop_last(s: Seq<EntryView>)
    requires
        s.len() > 0,
    ensures
        total_bytes(s) == total_bytes(s.drop_last()) + s.last().1.bytes,
        total_inodes(s) == total_inodes(s.drop_last()) + s.last().1.inodes,
    decreases s.len(),
{
    if s.len() > 1 {
        lemma_total_drop_last(s.drop_first());
        assert(s.drop_first().drop_last() =~= s.drop_last().drop_first());
        assert(s.drop_last()[0] == s[0]);
        assert(s.drop_first().last() == s.last());
        assert(total_bytes(s) == s[0].1.bytes as nat + total_bytes(s.drop_first()));
        assert(total_bytes(s.drop_last()) == s.drop_last()[0].1.bytes as nat + total_bytes(
            s.drop_last().drop_first(),
        ));
        assert(total_inodes(s) == s[0].1.inodes as nat + total_inodes(s.drop_first()));
        assert(total_inodes(s.drop_last()) == s.drop_last()[0].1.inodes as nat + total_inodes(
            s.drop_last().drop_first(),
        ));
    } else {
        assert(s.drop_first().len() == 0);
        assert(s.drop_last().len() == 0);
        assert(s.last() == s[0]);
        assert(total_bytes(s.drop_first()) == 0);
        assert(total_bytes(s.drop_last()) == 0);
        assert(total_inodes(s.drop_first()) == 0);
        assert(total_inodes(s.drop_last()) == 0);
        assert(total_bytes(s) == s[0].1.bytes as nat + total_bytes(s.drop_first()));
        assert(total_inodes(s) == s[0].1.inodes as nat + total_inodes(s.drop_first()));
    }
}

/// Sorting does not change the total size.
proof fn lemma_total_oldest_first(s: Seq<EntryView>)
    ensures
        total_bytes(oldest_first(s)) == total_bytes(s),
        total_inodes(oldest_first(s)) == total_inodes(s),
    decreases s.len(),
{
    if s.len() > 0 {
        lemma_total_oldest_first(s.drop_last());
        let t = oldest_first(s.drop_last());
        lemma_leading_not_younger_bound(t, s.last().0);
        lemma_total_insert(t, leading_not_younger(t, s.last().0) as int, s.last());
        lemma_total_drop_last(s);
    }
}

proof fn lemma_leading_not_younger_bound(s: Seq<EntryView>, age: u128)
    ensures
        leading_not_younger(s, age) <= s.len(),
    decreases s.len(),
{
    if s.len() > 0 && s[0].0 >= age {
        lemma_leading_not_younger_bound(s.drop_first(), age);
    }
}

pub open spec fn marked_views(r: Seq<(AgeSizePath, DeletionReason)>) -> Seq<(EntryView, DeletionReason)> {
    r.map_values(|p: (AgeSizePath, DeletionReason)| (p.0@, p.1))
}

/// Decides which entries to delete and why, oldest entries first: the
/// entries over `max_count` (0: no limit), then as many as needed to bring
/// the space used under `max_total_size` and the available space over
/// `min_space`, then the entries older than `max_age` (0: no limit).
pub fn mark_entries_for_deletion(
    entries: Vec<AgeSizePath>,
    total_space_used: DiskSize,
    max_total_size: DiskSize,
    available_space: DiskSize,
    min_space: DiskSize,
    max_age: u128,
    max_count: usize,
) -> (r: Vec<(AgeSizePath, DeletionReason)>)
    requires
        total_bytes(views(entries@)) <= u64::MAX,
        total_inodes(views(entries@)) <= u64::MAX,
    ensures
        marked_views(r@) == entries_to_delete(
            views(entries@),
            total_space_used,
            max_total_size,
            available_space,
            min_space,
            max_age,
            max_count,
        ),
{
    let ghost input = views(entries@);
    let n = entries.len();
    let entries_by_age = sort_oldest_first(entries);
    let ghost sorted = views(entries_by_age@);
    proof {
        lemma_total_oldest_first(input);
    }
    let max_total_size_exceeded = !max_total_size.exceeds(&total_space_used);
    let min_headroom_exceeded = !available_space.exceeds(&min_space);
    let need_to_free = if max_total_size_exceeded && min_headroom_exceeded {
        DiskSize::max(
            total_space_used.saturating_sub(max_total_size),
            min_space.saturating_sub(available_space),
        )
    } else if max_total_size_exceeded {
        total_space_used.saturating_sub(max_total_size)
    } else if min_headroom_exceeded {
        min_space.saturating_sub(available_space)
    } else {
        DiskSize::zero()
    };
    let mut space_to_be_freed = DiskSize::zero();
    let delete_expired_entries = max_age != 0;
    let mut over_max_entries: usize = if max_count == 0 {
        0
    } else {
        n.saturating_sub(max_count)
    };
    let mut rest = entries_by_age;
    let mut marked: Vec<(AgeSizePath, DeletionReason)> = Vec::new();
    let ghost spec_need = space_to_free(
        total_space_used,
        max_total_size,
        available_space,
        min_space,
    );
    assert(need_to_free == spec_need);
    let ghost mut k: int = 0;
    assert(sorted.skip(0) =~= sorted);
    while rest.len() > 0
        invariant
            0 <= k <= sorted.len(),
            views(rest@) == sorted.skip(k),
            total_bytes(sorted) <= u64::MAX,
            total_inodes(sorted) <= u64::MAX,
            space_to_be_freed.bytes + total_bytes(sorted.skip(k)) <= total_bytes(sorted),
            space_to_be_freed.inodes + total_inodes(sorted.skip(k)) <= total_inodes(sorted),
            need_to_free == spec_need,
            delete_expired_entries == (max_age != 0),
            marked_views(marked@) + marking(
                sorted.skip(k),
                over_max_entries as nat,
                (space_to_be_freed.bytes as nat, space_to_be_freed.inodes as nat),
                spec_need,
                max_age != 0,
                max_age,
            ) == marking(
                sorted,
                entries_over_quota(input.len(), max_count),
                (0, 0),
                spec_need,
                max_age != 0,
                max_age,
            ),
        decreases rest@.len(),
    {
        let ghost before = rest@;
        let ghost tail = sorted.skip(k);
        let entry = rest.remove(0);
        proof {
            assert(views(rest@) =~= views(before).drop_first());
            assert(tail.drop_first() =~= sorted.skip(k + 1));
            assert(tail[0] == entry@);
            k = k + 1;
        }
        let ghost marked_before = marked_views(marked@);
        let size = entry.size;
        if over_max_entries > 0 {
            over_max_entries = over_max_entries - 1;
            space_to_be_freed = space_to_be_freed.plus(size);
            marked.push((entry, DeletionReason::EntryQuota));
            assert(marked_views(marked@) =~= marked_before.push((tail[0], DeletionReason::EntryQuota)));
        } else if need_to_free != DiskSize::zero() && !space_to_be_freed.exceeds(&need_to_free) {
            space_to_be_freed = space_to_be_freed.plus(size);
            marked.push((entry, DeletionReason::DiskQuota));
            assert(marked_views(marked@) =~= marked_before.push((tail[0], DeletionReason::DiskQuota)));
        } else if delete_expired_entries && entry.age > max_age {
            space_to_be_freed = space_to_be_freed.plus(size);
            marked.push((entry, DeletionReason::Expired));
            assert(marked_views(marked@) =~= marked_before.push((tail[0], DeletionReason::Expired)));
        }
        proof {
            assert forall|a: Seq<(EntryView, DeletionReason)>, b: (EntryView, DeletionReason), c: Seq<(EntryView, DeletionReason)>| #![auto] a.push(b) + c =~= a + (seq![b] + c) by {}
        }
    }
    proof {
        assert(sorted.skip(k).len() == 0);
        assert(marked_views(marked@) + Seq::empty() =~= marked_views(marked@));
        assert(input.len() == n);
    }
    marked
}

/// Sum of the sizes of the entries.
pub fn total_space_used(entries: &Vec<AgeSizePath>) -> (r: DiskSize)
    requires
        total_bytes(views(entries@)) <= u64::MAX,
        total_inodes(views(entries@)) <= u64::MAX,
    ensures
        r.bytes == total_bytes(views(entries@)),
        r.inodes == total_inodes(views(entries@)),
{
    let ghost s = views(entries@);
    let mut total = DiskSize::zero();
    let mut i: usize = entries.len();
    assert(s.skip(i as int).len() == 0);
    while i > 0
        invariant
            0 <= i <= s.len(),
            s == views(entries@),
            s.len() == entries@.len(),
            total_bytes(s) <= u64::MAX,
            total_inodes(s) <= u64::MAX,
            total.bytes == total_bytes(s.skip(i as int)),
            total.inodes == total_inodes(s.skip(i as int)),
        decreases i,
    {
        i = i - 1;
        proof {
            assert(s.skip(i as int).drop_first() =~= s.skip(i + 1));
            assert(s.skip(i as int)[0] == entries@[i as int]@);
            lemma_total_suffix_bound(s, i as int);
        }
        total = entries[i].size.plus(total);
    }
    assert(s.skip(0) =~= s);
    total
}

proof fn lemma_total_suffix_bound(s: Seq<EntryView>, i: int)
    requires
        0 <= i <= s.len(),
    ensures
        total_bytes(s.skip(i)) <= total_bytes(s),
        total_inodes(s.skip(i)) <= total_inodes(s),
    decreases i,
{
    if i > 0 {
        lemma_total_suffix_bound(s.drop_first(), i - 1);
        assert(s.drop_first().skip(i - 1) =~= s.skip(i));
        assert(total_bytes(s) == s[0].1.bytes as nat + total_bytes(s.drop_first()));
        assert(total_inodes(s) == s[0].1.inodes as nat + total_inodes(s.drop_first()));
    } else {
        assert(s.skip(0) =~= s);
    }
}

/// The space left once the entries were deleted: the smaller of what remains
/// of the size quota and of the headroom over `min_space`.
pub fn space_left_after_cleaning(
    total_space_used: DiskSize,
    space_freed: DiskSize,
    max_total_size: DiskSize,
    available_space: DiskSize,
    min_space: DiskSize,
) -> (r: DiskSize)
    requires
        available_space.fits_sum(space_freed),
    ensures
        r == DiskSize::spec_min(
            max_total_size.spec_saturating_sub(total_space_used.spec_saturating_sub(space_freed)),
            (DiskSize {
                bytes: (available_space.bytes + space_freed.bytes) as u64,
                inodes: (available_space.inodes + space_freed.inodes) as u64,
            }).spec_saturating_sub(min_space),
        ),
{
    let remaining_quota = max_total_size.saturating_sub(
        total_space_used.saturating_sub(space_freed),
    );
    let usable_space = available_space.plus(space_freed).saturating_sub(min_space);
    DiskSize::min(remaining_quota, usable_space)
}

} // verus!

verus! {

// ---------------------------------------------------------------------------
// Laws
// ---------------------------------------------------------------------------
/// Ages never increase along `s`.
pub open spec fn is_oldest_first(s: Seq<EntryView>) -> bool {
    forall|i: int, j: int| 0 <= i < j < s.len() ==> s[i].0 >= s[j].0
}

proof fn lemma_leading_not_younger_props(s: Seq<EntryView>, age: u128)
    ensures
        leading_not_younger(s, age) <= s.len(),
        forall|k: int| 0 <= k < leading_not_younger(s, age) ==> (#[trigger] s[k]).0 >= age,
        leading_not_younger(s, age) < s.len() ==> s[leading_not_younger(s, age) as int].0 < age,
    decreases s.len(),
{
    if s.len() > 0 && s[0].0 >= age {
        let t = s.drop_first();
        lemma_leading_not_younger_props(t, age);
        assert forall|k: int| 0 <= k < leading_not_younger(s, age) implies (#[trigger] s[k]).0
            >= age by {
            if k > 0 {
                assert(s[k] == t[k - 1]);
            }
        }
        if leading_not_younger(s, age) < s.len() {
            assert(s[leading_not_younger(s, age) as int] == t[leading_not_younger(t, age) as int]);
        }
    }
}

/// Sorting puts the entries oldest first, and keeps every entry exactly as
/// many times as it occurs.
pub proof fn law_oldest_first_sorts(s: Seq<EntryView>)
    ensures
        is_oldest_first(oldest_first(s)),
        oldest_first(s).to_multiset() == s.to_multiset(),
    decreases s.len(),
{
    broadcast use vstd::seq_lib::group_to_multiset_ensures;

    if s.len() > 0 {
        let t = oldest_first(s.drop_last());
        law_oldest_first_sorts(s.drop_last());
        let x = s.last();
        let p = leading_not_younger(t, x.0) as int;
        lemma_leading_not_younger_props(t, x.0);
        let r = t.insert(p, x);
        t.insert_ensures(p, x);
        assert(r == oldest_first(s));
        assert forall|i: int, j: int| 0 <= i < j < r.len() implies r[i].0 >= r[j].0 by {
            if j < p {
                assert(r[i] == t[i] && r[j] == t[j]);
            } else if j == p {
                assert(r[i] == t[i]);
            } else if i < p {
                assert(r[i] == t[i] && r[j] == t[j - 1]);
            } else if i == p {
                assert(r[j] == t[j - 1]);
                assert(t[p].0 >= t[j - 1].0);
            } else {
                assert(r[i] == t[i - 1] && r[j] == t[j - 1]);
            }
        }
        assert(r.remove(p) =~= t);
        assert(r[p] == x);
        assert(r.to_multiset() =~= t.to_multiset().insert(x)) by {
            assert(r.remove(p).to_multiset() == r.to_multiset().remove(x));
            assert(r.to_multiset().count(x) > 0) by {
                assert(r.contains(x));
            }
        }
        assert(s.drop_last().push(x) =~= s);
    }
}

/// An entry of `s` is marked when it is over the entry quota, when the space
/// freed so far does not reach what must be freed, or when it has expired;
/// marked entries come from `s`, in the order of `s`, and an entry marked as
/// expired is older than `max_age`.
proof fn lemma_marking(
    s: Seq<EntryView>,
    over: nat,
    freed: (nat, nat),
    need: DiskSize,
    expire: bool,
    max_age: u128,
)
    ensures
        marking(s, over, freed, need, expire, max_age).len() <= s.len(),
        forall|i: int|
            0 <= i < marking(s, over, freed, need, expire, max_age).len() ==> s.contains(
                (#[trigger] marking(s, over, freed, need, expire, max_age)[i]).0,
            ),
        forall|i: int|
            0 <= i < marking(s, over, freed, need, expire, max_age).len() && (#[trigger] marking(
                s,
                over,
                freed,
                need,
                expire,
                max_age,
            )[i]).1 == DeletionReason::Expired ==> expire && marking(
                s,
                over,
                freed,
                need,
                expire,
                max_age,
            )[i].0.0 > max_age,
        forall|j: int|
            0 <= j < s.len() && expire && (#[trigger] s[j]).0 > max_age ==> marking(
                s,
                over,
                freed,
                need,
                expire,
                max_age,
            ).contains((s[j], DeletionReason::EntryQuota)) || marking(
                s,
                over,
                freed,
                need,
                expire,
                max_age,
            ).contains((s[j], DeletionReason::DiskQuota)) || marking(
                s,
                over,
                freed,
                need,
                expire,
                max_age,
            ).contains((s[j], DeletionReason::Expired)),
        forall|j: int|
            0 <= j < s.len() && j < over ==> marking(s, over, freed, need, expire, max_age).contains(
                (#[trigger] s[j], DeletionReason::EntryQuota),
            ),
        (over == 0 && need == (DiskSize { bytes: 0, inodes: 0 }) && !expire) ==> marking(
            s,
            over,
            freed,
            need,
            expire,
            max_age,
        ).len() == 0,
    decreases s.len(),
{
    if s.len() > 0 {
        let e = s[0];
        let rest = s.drop_first();
        let r = marking(s, over, freed, need, expire, max_age);
        let over2: nat = if over > 0 {
            (over - 1) as nat
        } else {
            0
        };
        let marks = over > 0 || (need != (DiskSize { bytes: 0, inodes: 0 }) && !frees_enough(
            freed,
            need,
        )) || (expire && e.0 > max_age);
        let freed2 = if marks {
            plus_size(freed, e.1)
        } else {
            freed
        };
        lemma_marking(rest, over2, freed2, need, expire, max_age);
        let q = marking(rest, over2, freed2, need, expire, max_age);
        assert forall|j: int| 0 <= j < rest.len() implies #[trigger] s[j + 1] == rest[j] by {}
        assert forall|a: EntryView| #[trigger] rest.contains(a) implies s.contains(a) by {
            let j = choose|j: int| 0 <= j < rest.len() && rest[j] == a;
            assert(s[j + 1] == a);
        }
        let head = if over > 0 {
            DeletionReason::EntryQuota
        } else if need != (DiskSize { bytes: 0, inodes: 0 }) && !frees_enough(freed, need) {
            DeletionReason::DiskQuota
        } else {
            DeletionReason::Expired
        };
        if marks {
            assert(r == seq![(e, head)] + q);
            assert forall|i: int| 0 <= i < r.len() implies s.contains(#[trigger] r[i].0) by {
                if i == 0 {
                    assert(s[0] == e);
                } else {
                    assert(r[i] == q[i - 1]);
                }
            }
            assert forall|i: int|
                0 <= i < r.len() && r[i].1 == DeletionReason::Expired implies expire && (
                #[trigger] r[i]).0.0 > max_age by {
                if i > 0 {
                    assert(r[i] == q[i - 1]);
                }
            }
            assert(r[0] == (e, head));
        } else {
            assert(r == q);
        }
        assert forall|p: (EntryView, DeletionReason)| #[trigger] q.contains(p) implies r.contains(
            p,
        ) by {
            let i = choose|i: int| 0 <= i < q.len() && q[i] == p;
            if marks {
                assert(r[i + 1] == p);
            }
        }
        assert forall|j: int| 0 <= j < s.len() && expire && (#[trigger] s[j]).0 > max_age implies r.contains(
            (s[j], DeletionReason::EntryQuota),
        ) || r.contains((s[j], DeletionReason::DiskQuota)) || r.contains(
            (s[j], DeletionReason::Expired),
        ) by {
            if j == 0 {
                assert(r[0] == (e, head));
            } else {
                assert(s[j] == rest[j - 1]);
            }
        }
        assert forall|j: int| 0 <= j < s.len() && j < over implies r.contains(
            (#[trigger] s[j], DeletionReason::EntryQuota),
        ) by {
            if j == 0 {
                assert(r[0] == (e, head));
            } else {
                assert(s[j] == rest[j - 1]);
            }
        }
    }
}

/// Every entry older than the maximum age (when there is one) is deleted.
pub proof fn law_expired_entries_are_deleted(
    entries: Seq<EntryView>,
    total_space_used: DiskSize,
    max_total_size: DiskSize,
    available_space: DiskSize,
    min_space: DiskSize,
    max_age: u128,
    max_count: usize,
    e: EntryView,
)
    requires
        max_age != 0,
        entries.contains(e),
        e.0 > max_age,
    ensures
        ({
            let r = entries_to_delete(
                entries,
                total_space_used,
                max_total_size,
                available_space,
                min_space,
                max_age,
                max_count,
            );
            r.contains((e, DeletionReason::EntryQuota)) || r.contains((e, DeletionReason::DiskQuota))
                || r.contains((e, DeletionReason::Expired))
        }),
{
    broadcast use vstd::seq_lib::group_to_multiset_ensures;

    let sorted = oldest_first(entries);
    law_oldest_first_sorts(entries);
    assert(sorted.to_multiset().count(e) > 0);
    let j = choose|j: int| 0 <= j < sorted.len() && sorted[j] == e;
    lemma_marking(
        sorted,
        entries_over_quota(entries.len(), max_count),
        (0, 0),
        space_to_free(total_space_used, max_total_size, available_space, min_space),
        max_age != 0,
        max_age,
    );
    assert(sorted[j].0 > max_age);
}

/// Only entries of the staging area are deleted, and an entry deleted as
/// expired is older than the maximum age, which is not zero.
pub proof fn law_deleted_entries_are_entries(
    entries: Seq<EntryView>,
    total_space_used: DiskSize,
    max_total_size: DiskSize,
    available_space: DiskSize,
    min_space: DiskSize,
    max_age: u128,
    max_count: usize,
)
    ensures
        ({
            let r = entries_to_delete(
                entries,
                total_space_used,
                max_total_size,
                available_space,
                min_space,
                max_age,
                max_count,
            );
            &&& r.len() <= entries.len()
            &&& forall|i: int| 0 <= i < r.len() ==> entries.contains(#[trigger] r[i].0)
            &&& forall|i: int|
                0 <= i < r.len() && r[i].1 == DeletionReason::Expired ==> max_age != 0 && (
                #[trigger] r[i]).0.0 > max_age
        }),
{
    broadcast use vstd::seq_lib::group_to_multiset_ensures;

    let sorted = oldest_first(entries);
    law_oldest_first_sorts(entries);
    lemma_marking(
        sorted,
        entries_over_quota(entries.len(), max_count),
        (0, 0),
        space_to_free(total_space_used, max_total_size, available_space, min_space),
        max_age != 0,
        max_age,
    );
    let r = entries_to_delete(
        entries,
        total_space_used,
        max_total_size,
        available_space,
        min_space,
        max_age,
        max_count,
    );
    assert(sorted.len() == entries.len()) by {
        assert(sorted.to_multiset().len() == sorted.len());
        assert(entries.to_multiset().len() == entries.len());
    }
    assert forall|i: int| 0 <= i < r.len() implies entries.contains(#[trigger] r[i].0) by {
        assert(sorted.contains(r[i].0));
        assert(sorted.to_multiset().count(r[i].0) > 0);
    }
}

/// With more entries than the entry quota, the oldest entries over the quota
/// are deleted for that reason.
pub proof fn law_oldest_entries_over_count_are_deleted(
    entries: Seq<EntryView>,
    total_space_used: DiskSize,
    max_total_size: DiskSize,
    available_space: DiskSize,
    min_space: DiskSize,
    max_age: u128,
    max_count: usize,
    j: int,
)
    requires
        max_count != 0,
        0 <= j < entries.len() - max_count,
    ensures
        entries_to_delete(
            entries,
            total_space_used,
            max_total_size,
            available_space,
            min_space,
            max_age,
            max_count,
        ).contains((oldest_first(entries)[j], DeletionReason::EntryQuota)),
{
    broadcast use vstd::seq_lib::group_to_multiset_ensures;

    let sorted = oldest_first(entries);
    law_oldest_first_sorts(entries);
    assert(sorted.len() == entries.len()) by {
        assert(sorted.to_multiset().len() == sorted.len());
        assert(entries.to_multiset().len() == entries.len());
    }
    lemma_marking(
        sorted,
        entries_over_quota(entries.len(), max_count),
        (0, 0),
        space_to_free(total_space_used, max_total_size, available_space, min_space),
        max_age != 0,
        max_age,
    );
    assert(sorted[j] == sorted[j]);
}

/// Nothing is deleted when neither quota is exceeded and neither the entry
/// count nor the age is limited.
pub proof fn law_nothing_deleted_within_quotas(
    entries: Seq<EntryView>,
    total_space_used: DiskSize,
    max_total_size: DiskSize,
    available_space: DiskSize,
    min_space: DiskSize,
)
    requires
        max_total_size.spec_exceeds(total_space_used),
        available_space.spec_exceeds(min_space),
    ensures
        entries_to_delete(
            entries,
            total_space_used,
            max_total_size,
            available_space,
            min_space,
            0,
            0,
        ).len() == 0,
{
    lemma_marking(
        oldest_first(entries),
        0,
        (0, 0),
        space_to_free(total_space_used, max_total_size, available_space, min_space),
        false,
        0,
    );
}

} // verus!
