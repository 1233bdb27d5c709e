//! A small map keyed by names, for the per-device state of the collectors.
use vstd::prelude::*;

verus! {

/// Values by name; each name occurs at most once.
pub struct NameMap<V> {
    entries: Vec<(String, V)>,
}

impl<V> NameMap<V> {
    #[verifier::type_invariant]
    spec fn names_distinct(self) -> bool {
        forall|i: int, j: int|
            0 <= i < self.entries@.len() && 0 <= j < self.entries@.len() && i != j
                ==> #[trigger] self.entries@[i].0@ != #[trigger] self.entries@[j].0@
    }

    /// Whether some entry is called `name`.
    pub closed spec fn has(&self, name: Seq<char>) -> bool {
        exists|i: int| 0 <= i < self.entries@.len() && #[trigger] self.entries@[i].0@ == name
    }

    /// The value of the entry called `name` (meaningful where `has(name)`).
    pub closed spec fn value_of(&self, name: Seq<char>) -> V {
        self.entries@[choose|i: int| 0 <= i < self.entries@.len() && #[trigger] self.entries@[i].0@ == name].1
    }
}

impl<V> View for NameMap<V> {
    type V = Map<Seq<char>, V>;

    closed spec fn view(&self) -> Map<Seq<char>, V> {
        Map::new(|k: Seq<char>| self.has(k), |k: Seq<char>| self.value_of(k))
    }
}

impl<V: Copy> NameMap<V> {
    /// The empty map.
    pub fn new() -> (r: Self)
        ensures
            r@ == Map::<Seq<char>, V>::empty(),
    {
        let r = NameMap { entries: Vec::new() };
        assert(r@ =~= Map::<Seq<char>, V>::empty());
        r
    }

    /// Where the entry called `name` is, if there is one.
    fn position(&self, name: &str) -> (r: Option<usize>)
        ensures
            r matches Some(i) ==> i < self.entries@.len() && self.entries@[i as int].0@ == name@,
            r is None ==> !self.has(name@),
    {
        let target = name.to_owned();
        let mut i: usize = 0;
        while i < self.entries.len()
            invariant
                0 <= i <= self.entries@.len(),
                target@ == name@,
                forall|j: int| 0 <= j < i ==> #[trigger] self.entries@[j].0@ != name@,
            decreases self.entries@.len() - i,
        {
            if self.entries[i].0 == target {
                return Some(i);
            }
            i = i + 1;
        }
        None
    }

    /// The value stored under `name`.
    pub fn get(&self, name: &str) -> (r: Option<V>)
        ensures
            r == if self@.contains_key(name@) {
                Some(self@[name@])
            } else {
                None::<V>
            },
    {
        proof {
            use_type_invariant(self);
        }
        match self.position(name) {
            Some(i) => {
                assert(self.has(name@));
                let ghost c = choose|j: int|
                    0 <= j < self.entries@.len() && #[trigger] self.entries@[j].0@ == name@;
                assert(c == i);
                Some(self.entries[i].1)
            },
            None => None,
        }
    }

    /// Stores `value` under `name` and gives back the value stored there
    /// before.
    pub fn insert(&mut self, name: &str, value: V) -> (r: Option<V>)
        ensures
            final(self)@ == old(self)@.insert(name@, value),
            r == if old(self)@.contains_key(name@) {
                Some(old(self)@[name@])
            } else {
                None::<V>
            },
    {
        proof {
            use_type_invariant(&*self);
        }
        let prev = self.get(name);
        let ghost before = self.entries@;
        let ghost old_view = self@;
        match self.position(name) {
            Some(i) => {
                let key = name.to_owned();
                let mut entries: Vec<(String, V)> = Vec::new();
                std::mem::swap(&mut entries, &mut self.entries);
                proof {
                    assert(entries@ == before);
                }
                entries.set(i, (key, value));
                proof {
                    assert forall|a: int, b: int|
                        0 <= a < entries@.len() && 0 <= b < entries@.len() && a != b implies #[trigger] entries@[a].0@
                        != #[trigger] entries@[b].0@ by {
                        assert(before[a].0@ != before[b].0@);
                    }
                }
                self.entries = entries;
                proof {
                    assert forall|k: Seq<char>| #[trigger] self.has(k) == old_view.contains_key(k) by {
                        if k == name@ {
                            assert(self.entries@[i as int].0@ == k);
                        } else if old_view.contains_key(k) {
                            let j = choose|j: int| 0 <= j < before.len() && #[trigger] before[j].0@ == k;
                            assert(self.entries@[j].0@ == k);
                        } else if self.has(k) {
                            let j = choose|j: int|
                                0 <= j < self.entries@.len() && #[trigger] self.entries@[j].0@ == k;
                            assert(before[j].0@ == k);
                        }
                    }
                    assert forall|k: Seq<char>| #[trigger] self.has(k) implies self.value_of(k) == (
                    if k == name@ {
                        value
                    } else {
                        old_view[k]
                    }) by {
                        let j = choose|j: int|
                            0 <= j < self.entries@.len() && #[trigger] self.entries@[j].0@ == k;
                        if k == name@ {
                            assert(self.entries@[i as int].0@ == k);
                        } else {
                            let jb = choose|jb: int| 0 <= jb < before.len() && #[trigger] before[jb].0@ == k;
                            assert(before[j].0@ == k);
                            assert(self.entries@[jb].0@ == k);
                        }
                    }
                    assert(self@ =~= old_view.insert(name@, value));
                }
            },
            None => {
                let key = name.to_owned();
                let mut entries: Vec<(String, V)> = Vec::new();
                std::mem::swap(&mut entries, &mut self.entries);
                proof {
                    assert(entries@ == before);
                }
                entries.push((key, value));
                proof {
                    assert forall|a: int, b: int|
                        0 <= a < entries@.len() && 0 <= b < entries@.len() && a != b implies #[trigger] entries@[a].0@
                        != #[trigger] entries@[b].0@ by {
                        if a < before.len() && b < before.len() {
                            assert(before[a].0@ != before[b].0@);
                        } else if a < before.len() {
                            assert(before[a].0@ != name@);
                        } else {
                            assert(before[b].0@ != name@);
                        }
                    }
                }
                self.entries = entries;
                proof {
                    let n = before.len() as int;
                    assert forall|k: Seq<char>| #[trigger] self.has(k) == (k == name@
                        || old_view.contains_key(k)) by {
                        if k == name@ {
                            assert(self.entries@[n].0@ == k);
                        } else if old_view.contains_key(k) {
                            let j = choose|j: int| 0 <= j < before.len() && #[trigger] before[j].0@ == k;
                            assert(self.entries@[j].0@ == k);
                        } else if self.has(k) {
                            let j = choose|j: int|
                                0 <= j < self.entries@.len() && #[trigger] self.entries@[j].0@ == k;
                            assert(before[j].0@ == k);
                        }
                    }
                    assert forall|k: Seq<char>| #[trigger] self.has(k) implies self.value_of(k) == (
                    if k == name@ {
                        value
                    } else {
                        old_view[k]
                    }) by {
                        let j = choose|j: int|
                            0 <= j < self.entries@.len() && #[trigger] self.entries@[j].0@ == k;
                        if k == name@ {
                            assert(self.entries@[n].0@ == k);
                        } else {
                            let jb = choose|jb: int| 0 <= jb < before.len() && #[trigger] before[jb].0@ == k;
                            assert(self.entries@[jb].0@ == k);
                        }
                    }
                    assert(self@ =~= old_view.insert(name@, value));
                }
            },
        }
        prev
    }
}

} // verus!
