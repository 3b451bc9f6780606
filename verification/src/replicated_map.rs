//! The replicated key-value container.
//!
//! Every replica holds its own copy of each map and mutates it locally;
//! `reconcile` folds a version received from another replica into the local
//! one through the entity's merge policy. Entries are kept in ascending key
//! order so that iteration is deterministic across replicas.

use vstd::map::*;
use vstd::pervasive::VecAdditionalExecFns;
use vstd::prelude::*;

use crate::mergeable::Mergeable;
use crate::text::lemma_lex_lt_connected;
use crate::text::lemma_lex_lt_irreflexive;
use crate::text::lemma_lex_lt_transitive;
use crate::text::lex_lt;
use crate::text::str_eq;
use crate::text::str_lt;

verus! {

/// Keys in strictly ascending lexicographic order.
pub open spec fn keys_sorted(ks: Seq<Seq<char>>) -> bool {
    forall|i: int, j: int| 0 <= i < j < ks.len() ==> lex_lt(ks[i], ks[j])
}

/// The position of a key in a sequence of distinct keys.
pub open spec fn key_index(ks: Seq<Seq<char>>, k: Seq<char>) -> int {
    choose|i: int| 0 <= i < ks.len() && ks[i] == k
}

/// A present key has a position in range that holds it.
pub proof fn lemma_key_index_valid(ks: Seq<Seq<char>>, k: Seq<char>)
    requires
        ks.contains(k),
    ensures
        0 <= key_index(ks, k) < ks.len(),
        ks[key_index(ks, k)] == k,
{
}

/// In a sorted key sequence, the position of a key is the only index that
/// holds it.
pub proof fn lemma_sorted_key_index(ks: Seq<Seq<char>>, k: Seq<char>, i: int)
    requires
        keys_sorted(ks),
        0 <= i < ks.len(),
        ks[i] == k,
    ensures
        ks.contains(k),
        key_index(ks, k) == i,
{
    assert(ks.contains(k));
    let j = key_index(ks, k);
    if j != i {
        assert(lex_lt(ks[if j < i {
            j
        } else {
            i
        }], ks[if j < i {
            i
        } else {
            j
        }]));
        lemma_lex_lt_irreflexive(k);
    }
}

/// A key-indexed container exposing get, insert, ordered iteration, and
/// merge-based reconciliation of remote versions.
pub struct ReplicatedMap<V> {
    keys: Vec<String>,
    vals: Vec<V>,
}

impl<V: Mergeable> ReplicatedMap<V> {
    /// The stored keys, in order.
    pub closed spec fn key_seq(&self) -> Seq<Seq<char>> {
        self.keys@.map_values(|k: String| k@)
    }

    /// The stored values, in key order.
    pub closed spec fn val_seq(&self) -> Seq<V::V> {
        self.vals@.map_values(|v: V| v@)
    }

    /// Every key has a value and the keys are strictly ascending, so each
    /// key occurs once.
    pub open spec fn wf(&self) -> bool {
        &&& self.val_seq().len() == self.key_seq().len()
        &&& keys_sorted(self.key_seq())
    }

    /// How many entries the map holds.
    pub open spec fn spec_len(&self) -> nat {
        self.key_seq().len()
    }

    /// Whether a key is present.
    pub open spec fn contains_key(&self, k: Seq<char>) -> bool {
        self.key_seq().contains(k)
    }

    /// The contents as a mathematical map.
    pub open spec fn as_map(&self) -> Map<Seq<char>, V::V> {
        Map::new(
            |k: Seq<char>| self.key_seq().contains(k),
            |k: Seq<char>| self.val_seq()[key_index(self.key_seq(), k)],
        )
    }

    /// An empty map.
    pub fn new() -> (m: Self)
        ensures
            m.wf(),
            m.spec_len() == 0,
            m.as_map() == Map::<Seq<char>, V::V>::empty(),
    {
        let m = ReplicatedMap { keys: Vec::new(), vals: Vec::new() };
        proof {
            assert(m.key_seq() =~= Seq::<Seq<char>>::empty());
            assert(m.val_seq() =~= Seq::<V::V>::empty());
            assert(m.as_map() =~= Map::<Seq<char>, V::V>::empty());
        }
        m
    }

    /// The index of the first stored key not below `key`, or the length.
    fn position(&self, key: &String) -> (p: usize)
        requires
            self.wf(),
        ensures
            p <= self.spec_len(),
            forall|j: int| 0 <= j < p ==> lex_lt(self.key_seq()[j], key@),
            p < self.spec_len() ==> !lex_lt(self.key_seq()[p as int], key@),
    {
        let n = self.keys.len();
        let mut p: usize = 0;
        while p < n
            invariant
                self.wf(),
                n == self.spec_len(),
                p <= n,
                forall|j: int| 0 <= j < p ==> lex_lt(self.key_seq()[j], key@),
            decreases n - p,
        {
            if !str_lt(self.keys[p].as_str(), key.as_str()) {
                return p;
            }
            p = p + 1;
        }
        p
    }

    /// No stored key equals `k` when the scan stopped at `p` without a match.
    proof fn lemma_absent(&self, k: Seq<char>, p: int)
        requires
            self.wf(),
            0 <= p <= self.spec_len(),
            forall|j: int| 0 <= j < p ==> lex_lt(self.key_seq()[j], k),
            p < self.spec_len() ==> !lex_lt(self.key_seq()[p], k) && self.key_seq()[p] != k,
        ensures
            !self.contains_key(k),
    {
        let ks = self.key_seq();
        assert forall|j: int| 0 <= j < ks.len() implies ks[j] != k by {
            if j < p {
                if ks[j] == k {
                    lemma_lex_lt_irreflexive(k);
                }
            } else if j == p {
            } else {
                if !lex_lt(k, ks[p]) {
                    lemma_lex_lt_connected(ks[p], k);
                }
                lemma_lex_lt_transitive(k, ks[p], ks[j]);
                if ks[j] == k {
                    lemma_lex_lt_irreflexive(k);
                }
            }
        }
    }

    /// Looks a key up, returning the value stored for it.
    pub fn get(&self, key: &String) -> (r: Option<&V>)
        requires
            self.wf(),
        ensures
            match r {
                Some(v) => self.contains_key(key@) && v@ == self.as_map()[key@],
                None => !self.contains_key(key@),
            },
    {
        let p = self.position(key);
        if p < self.keys.len() && str_eq(self.keys[p].as_str(), key.as_str()) {
            proof {
                lemma_sorted_key_index(self.key_seq(), key@, p as int);
            }
            Some(&self.vals[p])
        } else {
            proof {
                self.lemma_absent(key@, p as int);
            }
            None
        }
    }

    /// Stores a value under a key, overwriting any value already there.
    /// This is the unconditional local write; conflict resolution is
    /// `reconcile`.
    pub fn insert(&mut self, key: String, value: V)
        requires
            old(self).wf(),
        ensures
            final(self).wf(),
            final(self).as_map() == old(self).as_map().insert(key@, value@),
            final(self).contains_key(key@),
            old(self).contains_key(key@) ==> final(self).spec_len() == old(self).spec_len(),
            !old(self).contains_key(key@) ==> final(self).spec_len() == old(self).spec_len()
                + 1,
    {
        let ghost ok = old(self).key_seq();
        let ghost ov = old(self).val_seq();
        let p = self.position(&key);
        if p < self.keys.len() && str_eq(self.keys[p].as_str(), key.as_str()) {
            self.vals.set(p, value);
            proof {
                assert(self.key_seq() =~= ok);
                assert(self.val_seq() =~= ov.update(p as int, value@));
                lemma_sorted_key_index(ok, key@, p as int);
                assert_maps_equal!(self.as_map(), old(self).as_map().insert(key@, value@), q => {
                    if self.contains_key(q) {
                        lemma_key_index_valid(ok, q);
                        let i = key_index(ok, q);
                        if q == key@ {
                            assert(i == p);
                        } else {
                            assert(self.val_seq()[i] == ov[i]);
                        }
                    }
                });
            }
        } else {
            proof {
                self.lemma_absent(key@, p as int);
            }
            let ghost k = key@;
            self.keys.insert(p, key);
            self.vals.insert(p, value);
            proof {
                let nk = self.key_seq();
                let nv = self.val_seq();
                ok.insert_ensures(p as int, k);
                assert(nk =~= ok.insert(p as int, k));
                assert(nv =~= ov.insert(p as int, value@));
                // entries before the slot stay below the key, entries at or
                // after it stay above
                assert forall|j: int| p <= j < ok.len() implies lex_lt(k, ok[j]) by {
                    if !lex_lt(k, ok[p as int]) {
                        lemma_lex_lt_connected(ok[p as int], k);
                    }
                    if j > p {
                        lemma_lex_lt_transitive(k, ok[p as int], ok[j]);
                    }
                }
                assert forall|i: int, j: int| 0 <= i < j < nk.len() implies lex_lt(
                    nk[i],
                    nk[j],
                ) by {
                    if i < p && j < p {
                    } else if i < p && j == p {
                    } else if i < p && j > p {
                        assert(nk[j] == ok[j - 1]);
                    } else if i == p {
                        assert(nk[j] == ok[j - 1]);
                    } else {
                        assert(nk[i] == ok[i - 1]);
                        assert(nk[j] == ok[j - 1]);
                    }
                }
                assert_maps_equal!(self.as_map(), old(self).as_map().insert(k, value@), q => {
                    if q == k {
                        lemma_sorted_key_index(nk, k, p as int);
                    } else {
                        if ok.contains(q) {
                            lemma_key_index_valid(ok, q);
                            let i = key_index(ok, q);
                            if i < p {
                                assert(nk[i] == q);
                                lemma_sorted_key_index(nk, q, i);
                            } else {
                                assert(nk[i + 1] == q);
                                lemma_sorted_key_index(nk, q, i + 1);
                            }
                        }
                        if nk.contains(q) {
                            lemma_key_index_valid(nk, q);
                            let j = key_index(nk, q);
                            if j < p {
                                assert(ok[j] == q);
                                lemma_sorted_key_index(ok, q, j);
                            } else if j == p {
                            } else {
                                assert(ok[j - 1] == q);
                                lemma_sorted_key_index(ok, q, j - 1);
                            }
                        }
                    }
                });
            }
        }
    }

    /// Folds a version of a key received from another replica into the
    /// local state: a held key is resolved through the entity's merge
    /// policy, an unknown key is adopted as it came.
    pub fn reconcile(&mut self, key: &String, remote: V)
        requires
            old(self).wf(),
        ensures
            final(self).wf(),
            old(self).contains_key(key@) ==> final(self).as_map() == old(self).as_map().insert(
                key@,
                V::merged(old(self).as_map()[key@], remote@),
            ),
            !old(self).contains_key(key@) ==> final(self).as_map() == old(self).as_map().insert(
                key@,
                remote@,
            ),
    {
        let resolved = match self.get(key) {
            Some(local) => {
                let mut r = local.duplicate();
                r.merge(&remote);
                r
            },
            None => remote,
        };
        self.insert(key.clone(), resolved);
    }

    /// All entries, in ascending key order.
    pub fn entries(&self) -> (r: Vec<(String, V)>)
        requires
            self.wf(),
        ensures
            r@.len() == self.spec_len(),
            forall|i: int|
                0 <= i < r@.len() ==> r@[i].0@ == self.key_seq()[i] && r@[i].1@
                    == self.val_seq()[i],
            forall|i: int|
                0 <= i < r@.len() ==> self.contains_key(#[trigger] r@[i].0@) && r@[i].1@
                    == self.as_map()[r@[i].0@],
            forall|k: Seq<char>|
                self.contains_key(k) ==> exists|i: int| 0 <= i < r@.len() && #[trigger] r@[i].0@
                    == k,
            forall|i: int, j: int| 0 <= i < j < r@.len() ==> lex_lt(r@[i].0@, r@[j].0@),
    {
        let n = self.keys.len();
        let mut r: Vec<(String, V)> = Vec::new();
        let mut i: usize = 0;
        while i < n
            invariant
                self.wf(),
                n == self.spec_len(),
                i <= n,
                r@.len() == i,
                forall|j: int|
                    0 <= j < i ==> r@[j].0@ == self.key_seq()[j] && r@[j].1@ == self.val_seq()[j],
            decreases n - i,
        {
            r.push((self.keys[i].clone(), self.vals[i].duplicate()));
            i = i + 1;
        }
        proof {
            assert forall|i: int|
                0 <= i < r@.len() implies self.contains_key(#[trigger] r@[i].0@) && r@[i].1@
                == self.as_map()[r@[i].0@] by {
                lemma_sorted_key_index(self.key_seq(), self.key_seq()[i], i);
            }
            assert forall|k: Seq<char>| self.contains_key(k) implies exists|i: int|
                0 <= i < r@.len() && #[trigger] r@[i].0@ == k by {
                lemma_key_index_valid(self.key_seq(), k);
                let i = key_index(self.key_seq(), k);
                assert(r@[i].0@ == k);
            }
            assert forall|i: int, j: int| 0 <= i < j < r@.len() implies lex_lt(
                r@[i].0@,
                r@[j].0@,
            ) by {
                assert(r@[i].0@ == self.key_seq()[i]);
                assert(r@[j].0@ == self.key_seq()[j]);
            }
        }
        r
    }
}

} // verus!
