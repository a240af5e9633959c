//! A small insertion-ordered header map.
//!
//! Names are case-sensitive as received and pairwise distinct; setting a name
//! again replaces its value in place, so the last value wins.

use vstd::map::*;
use vstd::prelude::*;

verus! {

/// Some entry of `s` has the name `k`.
pub open spec fn has_name(s: Seq<(String, String)>, k: Seq<char>) -> bool {
    exists|i: int| 0 <= i < s.len() && s[i].0@ == k
}

/// The index of the entry named `k`; meaningful under unique names.
pub open spec fn index_of(s: Seq<(String, String)>, k: Seq<char>) -> int {
    choose|i: int| 0 <= i < s.len() && s[i].0@ == k
}

/// No two entries share a name.
pub open spec fn names_unique(s: Seq<(String, String)>) -> bool {
    forall|i: int, j: int| 0 <= i < j < s.len() ==> s[i].0@ != s[j].0@
}

/// Under unique names, `index_of` returns the one matching index.
pub proof fn lemma_index_of(s: Seq<(String, String)>, k: Seq<char>, i: int)
    requires
        names_unique(s),
        0 <= i < s.len(),
        s[i].0@ == k,
    ensures
        has_name(s, k),
        index_of(s, k) == i,
{
    assert(has_name(s, k));
    let j = index_of(s, k);
    assert(0 <= j < s.len() && s[j].0@ == k);
    if i < j {
        assert(s[i].0@ != s[j].0@);
    }
    if j < i {
        assert(s[j].0@ != s[i].0@);
    }
}

/// Header entries in insertion order, behaving as a map from names to values.
#[derive(Debug, Clone)]
pub struct HeaderMap {
    /// The entries; well-formedness keeps their names pairwise distinct.
    pub entries: Vec<(String, String)>,
}

impl View for HeaderMap {
    type V = Map<Seq<char>, Seq<char>>;

    open spec fn view(&self) -> Map<Seq<char>, Seq<char>> {
        Map::new(
            |k: Seq<char>| has_name(self.entries@, k),
            |k: Seq<char>| self.entries@[index_of(self.entries@, k)].1@,
        )
    }
}

impl HeaderMap {
    /// The entries' names are pairwise distinct, so the map view is faithful.
    pub open spec fn wf(self) -> bool {
        names_unique(self.entries@)
    }

    /// An empty header map.
    pub fn new() -> (r: HeaderMap)
        ensures
            r.wf(),
            r@ == Map::<Seq<char>, Seq<char>>::empty(),
            r.entries@.len() == 0,
    {
        let r = HeaderMap { entries: Vec::new() };
        proof {
            assert(r@ =~= Map::<Seq<char>, Seq<char>>::empty());
        }
        r
    }

    /// The number of headers held; zero exactly when the map view is empty.
    pub fn len(&self) -> (n: usize)
        ensures
            n == self.entries@.len(),
            (n == 0) <==> self@ == Map::<Seq<char>, Seq<char>>::empty(),
    {
        proof {
            if self.entries@.len() == 0 {
                assert(self@ =~= Map::<Seq<char>, Seq<char>>::empty());
            } else {
                assert(has_name(self.entries@, self.entries@[0].0@));
                assert(self@.contains_key(self.entries@[0].0@));
            }
        }
        self.entries.len()
    }

    /// Sets `value` under `name`, replacing in place when the name is present.
    /// Returns the value previously held under that name, if any.
    pub fn insert(&mut self, name: String, value: String) -> (r: Option<String>)
        requires
            old(self).wf(),
        ensures
            final(self).wf(),
            final(self)@ == old(self)@.insert(name@, value@),
            r is Some <==> old(self)@.contains_key(name@),
            (r matches Some(v) ==> v@ == old(self)@[name@]),
    {
        let ghost nv = name@;
        let ghost vv = value@;
        let ghost s_old = self.entries@;
        let n = self.entries.len();
        let mut i: usize = 0;
        while i < n
            invariant
                self.entries@ == s_old,
                old(self).entries@ == s_old,
                n == s_old.len(),
                i <= n,
                names_unique(s_old),
                forall|j: int| 0 <= j < i ==> s_old[j].0@ != nv,
                nv == name@,
                vv == value@,
            decreases n - i,
        {
            if self.entries[i].0 == name {
                self.entries.push((name, value));
                let ghost s1 = self.entries@;
                let prev = self.entries.swap_remove(i);
                proof {
                    let s_new = self.entries@;
                    assert(s1.last() == s1[s_old.len() as int]);
                    assert(s_new.len() == s_old.len());
                    assert(prev == s_old[i as int]);
                    assert(s_new[i as int].0@ == nv && s_new[i as int].1@ == vv);
                    assert(forall|j: int|
                        0 <= j < s_old.len() && j != i ==> s_new[j] == s_old[j]);
                    assert(forall|j: int|
                        0 <= j < s_old.len() ==> s_new[j].0@ == s_old[j].0@);
                    assert(names_unique(s_new));
                    lemma_index_of(s_old, nv, i as int);
                    lemma_index_of(s_new, nv, i as int);
                    assert_maps_equal!(self@, old(self)@.insert(nv, vv), k => {
                        if k == nv {
                            assert(has_name(s_new, nv));
                            assert(has_name(s_old, nv));
                        } else {
                            if has_name(s_new, k) {
                                let j = choose|j: int| 0 <= j < s_new.len() && s_new[j].0@ == k;
                                lemma_index_of(s_new, k, j);
                                lemma_index_of(s_old, k, j);
                            }
                            if has_name(s_old, k) {
                                let j = choose|j: int| 0 <= j < s_old.len() && s_old[j].0@ == k;
                                lemma_index_of(s_old, k, j);
                                lemma_index_of(s_new, k, j);
                            }
                        }
                    });
                    assert(old(self)@.contains_key(nv));
                    assert(prev.1@ == old(self)@[nv]);
                }
                return Some(prev.1);
            }
            i = i + 1;
        }
        proof {
            assert(!has_name(s_old, nv));
        }
        self.entries.push((name, value));
        proof {
            let s_new = self.entries@;
            assert(s_new[s_old.len() as int].0@ == nv && s_new[s_old.len() as int].1@ == vv);
            assert(names_unique(s_new));
            lemma_index_of(s_new, nv, s_old.len() as int);
            assert forall|k: Seq<char>|
                #[trigger] has_name(s_new, k) == (has_name(s_old, k) || k == nv) by {
                if has_name(s_new, k) && k != nv {
                    let j = choose|j: int| 0 <= j < s_new.len() && s_new[j].0@ == k;
                    assert(s_old[j].0@ == k);
                }
                if has_name(s_old, k) {
                    let j = choose|j: int| 0 <= j < s_old.len() && s_old[j].0@ == k;
                    assert(s_new[j].0@ == k);
                }
            };
            assert forall|k: Seq<char>|
                #[trigger] has_name(s_old, k) && k != nv implies s_new[index_of(s_new, k)].1@
                == s_old[index_of(s_old, k)].1@ by {
                let j = choose|j: int| 0 <= j < s_old.len() && s_old[j].0@ == k;
                lemma_index_of(s_old, k, j);
                lemma_index_of(s_new, k, j);
            };
            assert(self@ =~= old(self)@.insert(nv, vv));
        }
        None
    }

    /// Looks up the value currently held under `name`.
    pub fn get(&self, name: &String) -> (r: Option<String>)
        requires
            self.wf(),
        ensures
            r is Some <==> self@.contains_key(name@),
            (r matches Some(v) ==> v@ == self@[name@]),
    {
        let n = self.entries.len();
        let mut i: usize = 0;
        while i < n
            invariant
                n == self.entries@.len(),
                i <= n,
                names_unique(self.entries@),
                forall|j: int| 0 <= j < i ==> self.entries@[j].0@ != name@,
            decreases n - i,
        {
            if self.entries[i].0 == *name {
                proof {
                    lemma_index_of(self.entries@, name@, i as int);
                }
                return Some(self.entries[i].1.clone());
            }
            i = i + 1;
        }
        proof {
            assert(!has_name(self.entries@, name@));
        }
        None
    }
}

} // verus!
