//! The MAR entries of the staging area, oldest first.
//!
//! A MAR entry is a directory with a unique name, a manifest and some
//! optional attachments.
use vstd::prelude::*;

verus! {

/// A directory of the staging area with its creation time, when known.
pub type DirView = (Seq<char>, Option<u128>);

/// Creation times order the directories; an unknown time comes first.
pub open spec fn time_key(t: Option<u128>) -> int {
    match t {
        None => -1,
        Some(x) => x as int,
    }
}

/// Number of leading directories of `s` created no later than `t`.
pub open spec fn leading_not_newer(s: Seq<DirView>, t: Option<u128>) -> nat
    decreases s.len(),
{
    if s.len() == 0 || time_key(s[0].1) > time_key(t) {
        0
    } else {
        1 + leading_not_newer(s.drop_first(), t)
    }
}

/// The directories ordered from the oldest to the newest; directories of
/// equal creation time keep their relative order (a stable sort).
pub open spec fn oldest_dirs_first(s: Seq<DirView>) -> Seq<DirView>
    decreases s.len(),
{
    if s.len() == 0 {
        s
    } else {
        let t = oldest_dirs_first(s.drop_last());
        t.insert(leading_not_newer(t, s.last().1) as int, s.last())
    }
}

proof fn lemma_leading_not_newer_exact(s: Seq<DirView>, t: Option<u128>, n: int)
    requires
        0 <= n <= s.len(),
        forall|k: int| 0 <= k < n ==> time_key((#[trigger] s[k]).1) <= time_key(t),
        n == s.len() || time_key(s[n].1) > time_key(t),
    ensures
        leading_not_newer(s, t) == n,
    decreases s.len(),
{
    if n > 0 {
        let u = s.drop_first();
        assert forall|k: int| 0 <= k < n - 1 implies time_key((#[trigger] u[k]).1) <= time_key(t) by {
            assert(u[k] == s[k + 1]);
        }
        if n - 1 < u.len() {
            assert(u[n - 1] == s[n]);
        }
        lemma_leading_not_newer_exact(u, t, n - 1);
    }
}

fn time_le(a: Option<u128>, b: Option<u128>) -> (r: bool)
    ensures
        r == (time_key(a) <= time_key(b)),
{
    match (a, b) {
        (None, _) => true,
        (Some(_), None) => false,
        (Some(x), Some(y)) => x <= y,
    }
}

pub open spec fn dir_views(s: Seq<(String, Option<u128>)>) -> Seq<DirView> {
    s.map_values(|d: (String, Option<u128>)| (d.0@, d.1))
}

/// Orders the directories from the oldest to the newest, as
/// `MarEntry::iterate_from_container` lists them.
pub fn order_by_creation_time(entries: Vec<(String, Option<u128>)>) -> (r: Vec<(String, Option<u128>)>)
    ensures
        dir_views(r@) == oldest_dirs_first(dir_views(entries@)),
{
    let ghost input = dir_views(entries@);
    let mut rest = entries;
    let mut sorted: Vec<(String, Option<u128>)> = Vec::new();
    let ghost mut k: int = 0;
    while rest.len() > 0
        invariant
            0 <= k <= input.len(),
            dir_views(rest@) == input.skip(k),
            dir_views(sorted@) == oldest_dirs_first(input.take(k)),
        decreases rest@.len(),
    {
        let ghost before = rest@;
        assert(dir_views(rest@).len() == rest@.len());
        assert(k < input.len());
        let x = rest.remove(0);
        assert(dir_views(rest@) =~= input.skip(k + 1)) by {
            assert(dir_views(rest@) =~= dir_views(before).drop_first());
        }
        let mut j: usize = 0;
        while j < sorted.len() && time_le(sorted[j].1, x.1)
            invariant
                0 <= j <= sorted@.len(),
                forall|m: int| 0 <= m < j ==> time_key((#[trigger] sorted@[m]).1) <= time_key(x.1),
            decreases sorted@.len() - j,
        {
            j = j + 1;
        }
        proof {
            let sv = dir_views(sorted@);
            assert forall|m: int| 0 <= m < j implies time_key((#[trigger] sv[m]).1) <= time_key(x.1) by {
                assert(sv[m].1 == sorted@[m].1);
            }
            if j < sorted@.len() {
                assert(sv[j as int].1 == sorted@[j as int].1);
            }
            lemma_leading_not_newer_exact(sv, x.1, j as int);
            assert(input.take(k + 1).drop_last() =~= input.take(k));
            assert(input.take(k + 1).last() == (x.0@, x.1)) by {
                assert(dir_views(before)[0] == (x.0@, x.1));
                assert(input.skip(k)[0] == input[k]);
            }
        }
        let ghost sorted_before = sorted@;
        let ghost xv = (x.0@, x.1);
        sorted.insert(j, x);
        proof {
            assert(dir_views(sorted@) =~= dir_views(sorted_before).insert(j as int, xv));
            k = k + 1;
        }
    }
    proof {
        assert(input.skip(k).len() == 0);
        assert(input.take(k) =~= input);
    }
    sorted
}

/// The directories that may hold a MAR entry, in the order they are visited.
pub struct MarEntryIterator {
    directories: Vec<String>,
}

impl View for MarEntryIterator {
    type V = Seq<Seq<char>>;

    closed spec fn view(&self) -> Seq<Seq<char>> {
        self.directories@.map_values(|d: String| d@)
    }
}

impl MarEntryIterator {
    pub fn new(directories: Vec<String>) -> (r: Self)
        ensures
            r@ == directories@.map_values(|d: String| d@),
    {
        MarEntryIterator { directories }
    }

    /// The next directory to visit, removed from those left.
    pub fn next_directory(&mut self) -> (r: Option<String>)
        ensures
            old(self)@.len() == 0 ==> r is None && final(self)@ == old(self)@,
            old(self)@.len() > 0 ==> (r matches Some(d) && d@ == old(self)@[0] && final(self)@
                == old(self)@.drop_first()),
    {
        if self.directories.len() == 0 {
            None
        } else {
            let ghost before = self.directories@;
            let d = self.directories.remove(0);
            assert(self.directories@.map_values(|d: String| d@) =~= before.map_values(
                |d: String| d@,
            ).drop_first());
            Some(d)
        }
    }

    /// Exact bounds of the number of directories left.
    pub fn size_hint(&self) -> (r: (usize, Option<usize>))
        ensures
            r.0 == self@.len(),
            r.1 == Some(self@.len() as usize),
    {
        (self.directories.len(), Some(self.directories.len()))
    }
}

/// Creation times never decrease along `s`.
pub open spec fn is_oldest_dirs_first(s: Seq<DirView>) -> bool {
    forall|i: int, j: int| 0 <= i < j < s.len() ==> time_key(s[i].1) <= time_key(s[j].1)
}

proof fn lemma_leading_not_newer_props(s: Seq<DirView>, t: Option<u128>)
    ensures
        leading_not_newer(s, t) <= s.len(),
        forall|k: int| 0 <= k < leading_not_newer(s, t) ==> time_key((#[trigger] s[k]).1) <= time_key(t),
        leading_not_newer(s, t) < s.len() ==> time_key(s[leading_not_newer(s, t) as int].1) > time_key(t),
    decreases s.len(),
{
    if s.len() > 0 && time_key(s[0].1) <= time_key(t) {
        let u = s.drop_first();
        lemma_leading_not_newer_props(u, t);
        assert forall|k: int| 0 <= k < leading_not_newer(s, t) implies time_key((#[trigger] s[k]).1)
            <= time_key(t) by {
            if k > 0 {
                assert(s[k] == u[k - 1]);
            }
        }
        if leading_not_newer(s, t) < s.len() {
            assert(s[leading_not_newer(s, t) as int] == u[leading_not_newer(u, t) as int]);
        }
    }
}

/// The staging directories are listed from the oldest to the newest (an
/// unknown creation time first), each directory exactly as many times as it
/// occurs.
pub proof fn law_oldest_dirs_first_sorts(s: Seq<DirView>)
    ensures
        is_oldest_dirs_first(oldest_dirs_first(s)),
        oldest_dirs_first(s).to_multiset() == s.to_multiset(),
    decreases s.len(),
{
    broadcast use vstd::seq_lib::group_to_multiset_ensures;

    if s.len() > 0 {
        let t = oldest_dirs_first(s.drop_last());
        law_oldest_dirs_first_sorts(s.drop_last());
        let x = s.last();
        let p = leading_not_newer(t, x.1) as int;
        lemma_leading_not_newer_props(t, x.1);
        let r = t.insert(p, x);
        t.insert_ensures(p, x);
        assert(r == oldest_dirs_first(s));
        assert forall|i: int, j: int| 0 <= i < j < r.len() implies time_key(r[i].1) <= time_key(
            r[j].1,
        ) by {
            if j < p {
                assert(r[i] == t[i] && r[j] == t[j]);
            } else if j == p {
                assert(r[i] == t[i]);
            } else if i < p {
                assert(r[i] == t[i] && r[j] == t[j - 1]);
            } else if i == p {
                assert(r[j] == t[j - 1]);
                assert(time_key(t[p].1) <= time_key(t[j - 1].1));
            } else {
                assert(r[i] == t[i - 1] && r[j] == t[j - 1]);
            }
        }
        assert(r.remove(p) =~= t);
        assert(r[p] == x);
        assert(r.to_multiset() =~= t.to_multiset().insert(x)) by {
            assert(r.remove(p).to_multiset() == r.to_multiset().remove(x));
            assert(r.to_multiset().count(x) > 0) by {
                assert(r.contains(x));
            }
        }
        assert(s.drop_last().push(x) =~= s);
    }
}

} // verus!
