//! The last value seen under each name, for values that are not `Copy`.
use vstd::prelude::*;

verus! {

/// Values by name; each name occurs at most once.
pub struct NamedStore<R> {
    entries: Vec<(String, R)>,
}

impl<R> NamedStore<R> {
    #[verifier::type_invariant]
    spec fn names_distinct(self) -> bool {
        forall|i: int, j: int|
            0 <= i < self.entries@.len() && 0 <= j < self.entries@.len() && i != j
                ==> #[trigger] self.entries@[i].0@ != #[trigger] self.entries@[j].0@
    }

    /// Whether some entry is called `name`.
    pub closed spec fn has(&self, name: Seq<char>) -> bool {
        exists|i: int| 0 <= i < self.entries@.len() && #[trigger] self.entries@[i].0@ == name
    }

    /// The value of the entry called `name`.
    pub closed spec fn value_of(&self, name: Seq<char>) -> R {
        self.entries@[choose|i: int|
            0 <= i < self.entries@.len() && #[trigger] self.entries@[i].0@ == name].1
    }
}

impl<R> View for NamedStore<R> {
    type V = Map<Seq<char>, R>;

    closed spec fn view(&self) -> Map<Seq<char>, R> {
        Map::new(|k: Seq<char>| self.has(k), |k: Seq<char>| self.value_of(k))
    }
}

impl<R> NamedStore<R> {
    /// The empty store.
    pub fn new() -> (r: Self)
        ensures
            r@ == Map::<Seq<char>, R>::empty(),
    {
        let r = NamedStore { entries: Vec::new() };
        assert(r@ =~= Map::<Seq<char>, R>::empty());
        r
    }

    fn position(&self, name: &str) -> (r: Option<usize>)
        ensures
            r matches Some(i) ==> i < self.entries@.len() && self.entries@[i as int].0@ == name@,
            r is None ==> !self.has(name@),
    {
        let target = name.to_owned();
        let mut i: usize = 0;
        while i < self.entries.len()
            invariant
                0 <= i <= self.entries@.len(),
                target@ == name@,
                forall|j: int| 0 <= j < i ==> #[trigger] self.entries@[j].0@ != name@,
            decreases self.entries@.len() - i,
        {
            if self.entries[i].0 == target {
                return Some(i);
            }
            i = i + 1;
        }
        None
    }

    /// Stores `value` under `name` and hands back the value stored there
    /// before, if any.
    pub fn replace(&mut self, name: &str, value: R) -> (r: Option<R>)
        ensures
            final(self)@ == old(self)@.insert(name@, value),
            old(self)@.contains_key(name@) ==> r == Some(old(self)@[name@]),
            !old(self)@.contains_key(name@) ==> r is None,
    {
        proof {
            use_type_invariant(&*self);
        }
        let ghost before = self.entries@;
        let ghost old_view = self@;
        let ghost key = name@;
        let pos = self.position(name);
        let mut entries: Vec<(String, R)> = Vec::new();
        std::mem::swap(&mut entries, &mut self.entries);
        assert(entries@ == before);
        let prev = match pos {
            Some(i) => {
                proof {
                    assert(old_view.contains_key(key));
                    let c = choose|j: int| 0 <= j < before.len() && #[trigger] before[j].0@ == key;
                    assert(c == i);
                }
                let (_, old_value) = entries.remove(i);
                Some(old_value)
            },
            None => None,
        };
        let ghost kept = entries@;
        proof {
            assert forall|a: int, b: int|
                0 <= a < kept.len() && 0 <= b < kept.len() && a != b implies #[trigger] kept[a].0@
                != #[trigger] kept[b].0@ by {
                match pos {
                    Some(i) => {
                        let a0 = if a < i { a } else { a + 1 };
                        let b0 = if b < i { b } else { b + 1 };
                        assert(kept[a] == before[a0] && kept[b] == before[b0]);
                    },
                    None => {},
                }
            }
            assert forall|a: int| 0 <= a < kept.len() implies #[trigger] kept[a].0@ != key by {
                match pos {
                    Some(i) => {
                        let a0 = if a < i { a } else { a + 1 };
                        assert(kept[a] == before[a0]);
                        assert(before[i as int].0@ == key);
                    },
                    None => {
                        assert(kept[a] == before[a]);
                    },
                }
            }
            assert forall|k: Seq<char>| k != key implies (old_view.contains_key(k) <==> exists|a: int|
                0 <= a < kept.len() && #[trigger] kept[a].0@ == k) by {
                if old_view.contains_key(k) {
                    let j = choose|j: int| 0 <= j < before.len() && #[trigger] before[j].0@ == k;
                    match pos {
                        Some(i) => {
                            assert(j != i);
                            let jn = if j < i { j } else { j - 1 };
                            assert(kept[jn] == before[j]);
                        },
                        None => {
                            assert(kept[j] == before[j]);
                        },
                    }
                }
                if exists|a: int| 0 <= a < kept.len() && #[trigger] kept[a].0@ == k {
                    let a = choose|a: int| 0 <= a < kept.len() && #[trigger] kept[a].0@ == k;
                    match pos {
                        Some(i) => {
                            let a0 = if a < i { a } else { a + 1 };
                            assert(kept[a] == before[a0]);
                        },
                        None => {
                            assert(kept[a] == before[a]);
                        },
                    }
                }
            }
            assert forall|a: int| 0 <= a < kept.len() implies old_view.contains_key(#[trigger] kept[a].0@)
                && old_view[kept[a].0@] == kept[a].1 by {
                let k = kept[a].0@;
                let a0 = match pos {
                    Some(i) => if a < i { a } else { a + 1 },
                    None => a,
                };
                assert(kept[a] == before[a0]);
                let jb = choose|jb: int| 0 <= jb < before.len() && #[trigger] before[jb].0@ == k;
                assert(before[a0].0@ == k);
                assert(jb == a0);
            }
        }
        entries.push((name.to_owned(), value));
        self.entries = entries;
        proof {
            let n = kept.len() as int;
            assert(self.entries@ == kept.push((self.entries@[n].0, value)));
            assert forall|a: int, b: int|
                0 <= a < self.entries@.len() && 0 <= b < self.entries@.len() && a != b implies #[trigger] self.entries@[a].0@
                != #[trigger] self.entries@[b].0@ by {
                if a < n && b < n {
                    assert(kept[a].0@ != kept[b].0@);
                } else if a < n {
                    assert(kept[a].0@ != key);
                } else {
                    assert(kept[b].0@ != key);
                }
            }
            assert forall|k: Seq<char>| #[trigger] self.has(k) == (k == key || old_view.contains_key(k)) by {
                if k == key {
                    assert(self.entries@[n].0@ == k);
                } else {
                    if old_view.contains_key(k) {
                        let a = choose|a: int| 0 <= a < kept.len() && #[trigger] kept[a].0@ == k;
                        assert(self.entries@[a].0@ == k);
                    }
                    if self.has(k) {
                        let a = choose|a: int|
                            0 <= a < self.entries@.len() && #[trigger] self.entries@[a].0@ == k;
                        assert(a < n);
                        assert(kept[a].0@ == k);
                    }
                }
            }
            assert forall|k: Seq<char>| #[trigger] self.has(k) implies self.value_of(k) == (if k == key {
                value
            } else {
                old_view[k]
            }) by {
                let a = choose|a: int| 0 <= a < self.entries@.len() && #[trigger] self.entries@[a].0@ == k;
                if k == key {
                    assert(self.entries@[n].0@ == k);
                    if a < n {
                        assert(kept[a].0@ != key);
                    }
                } else {
                    assert(a < n);
                    assert(kept[a].0@ == k);
                    assert(self.entries@[a] == kept[a]);
                }
            }
            assert(self@ =~= old_view.insert(key, value));
        }
        prev
    }
}

} // verus!
