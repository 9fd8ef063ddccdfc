//! A finite set of peer identifiers, viewed in specifications as a
//! `Set<int>`. It stands in for the hash sets the protocol keeps
//! (`crashed_peers`, `confirmed_alive`, `known_peers`, `assumed_dead`):
//! membership, one-shot insertion and removal are all the protocol needs.

use vstd::prelude::*;

verus! {

use crate::PeerId;

/// A set of `PeerId`s backed by a vector holding each member exactly once,
/// in any order. Contracts speak of the view; the duplicate-free invariant
/// makes the vector's length the set's cardinality.
#[derive(Debug)]
pub struct PeerSet {
    ids: Vec<PeerId>,
}

impl View for PeerSet {
    type V = Set<int>;

    closed spec fn view(&self) -> Set<int> {
        self.ids@.map_values(|p: PeerId| p as int).to_set()
    }
}

impl PeerSet {
    #[verifier::type_invariant]
    closed spec fn wf(self) -> bool {
        self.ids@.no_duplicates()
    }
    /// The view is a finite set: its cardinality is meaningful.
    pub proof fn lemma_finite(&self)
        ensures
            self@.finite(),
    {
        broadcast use vstd::seq_lib::seq_to_set_is_finite;

    }

    pub fn new() -> (s: Self)
        ensures
            s@ == Set::<int>::empty(),
    {
        let s = Self { ids: Vec::new() };
        proof {
            assert(s@ =~= Set::<int>::empty());
        }
        s
    }

    pub fn contains(&self, p: PeerId) -> (r: bool)
        ensures
            r == self@.contains(p as int),
    {
        let n = self.ids.len();
        let mut k: usize = 0;
        while k < n
            invariant
                n == self.ids@.len(),
                k <= n,
                forall|j: int| 0 <= j < k ==> self.ids@[j] != p,
            decreases n - k,
        {
            if self.ids[k] == p {
                proof {
                    let m = self.ids@.map_values(|q: PeerId| q as int);
                    assert(m[k as int] == p as int);
                    assert(m.contains(p as int));
                }
                return true;
            }
            k += 1;
        }
        proof {
            let m = self.ids@.map_values(|q: PeerId| q as int);
            assert forall|j: int| 0 <= j < m.len() implies m[j] != p as int by {
                assert(self.ids@[j] != p);
            }
            assert(!m.contains(p as int));
        }
        false
    }

    /// Inserts `p`; returns whether it was newly added (i.e. was absent).
    pub fn insert(&mut self, p: PeerId) -> (newly: bool)
        ensures
            final(self)@ == old(self)@.insert(p as int),
            newly == !old(self)@.contains(p as int),
    {
        proof {
            use_type_invariant(&*self);
        }
        if self.contains(p) {
            proof {
                assert(self@.insert(p as int) =~= self@);
            }
            false
        } else {
            let ghost pre = self.ids@;
            let n = self.ids.len();
            let mut next: Vec<PeerId> = Vec::new();
            let mut k: usize = 0;
            while k < n
                invariant
                    n == self.ids@.len(),
                    k <= n,
                    self.ids@ == pre,
                    next@ == pre.subrange(0, k as int),
                decreases n - k,
            {
                next.push(self.ids[k]);
                proof {
                    assert(next@ =~= pre.subrange(0, k as int + 1));
                }
                k += 1;
            }
            next.push(p);
            proof {
                assert(pre.subrange(0, n as int) =~= pre);
                assert(next@ =~= pre.push(p));
                let m0 = pre.map_values(|q: PeerId| q as int);
                assert forall|j: int| 0 <= j < pre.len() implies pre[j] != p by {
                    assert(m0[j] == pre[j] as int);
                    assert(m0.contains(m0[j]));
                }
                assert(next@.no_duplicates()) by {
                    assert forall|i: int, j: int|
                        0 <= i < j < next@.len() implies next@[i] != next@[j] by {
                        if j == next@.len() - 1 {
                            assert(pre[i] != p);
                        } else {
                            assert(pre[i] != pre[j]);
                        }
                    }
                }
            }
            self.ids = next;
            proof {
                let m0 = pre.map_values(|q: PeerId| q as int);
                let m1 = self.ids@.map_values(|q: PeerId| q as int);
                assert(m1 =~= m0.push(p as int));
                assert forall|x: int| m1.contains(x) implies m0.to_set().insert(p as int).contains(
                    x,
                ) by {
                    let j = choose|j: int| 0 <= j < m1.len() && m1[j] == x;
                    if j < m0.len() {
                        assert(m0[j] == x);
                    }
                }
                assert forall|x: int| m0.to_set().insert(p as int).contains(x) implies m1.contains(
                    x,
                ) by {
                    if m0.contains(x) {
                        let j = choose|j: int| 0 <= j < m0.len() && m0[j] == x;
                        assert(m1[j] == x);
                    } else {
                        assert(m1[m1.len() - 1] == p as int);
                    }
                }
                assert(self@ =~= old(self)@.insert(p as int));
            }
            true
        }
    }

    /// Removes `p`; returns whether it was present.
    pub fn remove(&mut self, p: PeerId) -> (was_present: bool)
        ensures
            final(self)@ == old(self)@.remove(p as int),
            was_present == old(self)@.contains(p as int),
    {
        proof {
            use_type_invariant(&*self);
        }
        let n = self.ids.len();
        let mut kept: Vec<PeerId> = Vec::new();
        let mut found = false;
        let mut k: usize = 0;
        while k < n
            invariant
                n == self.ids@.len(),
                k <= n,
                self.ids@.no_duplicates(),
                kept@.no_duplicates(),
                found == self.ids@.subrange(0, k as int).contains(p),
                forall|x: PeerId| #[trigger]
                    kept@.contains(x) <==> (self.ids@.subrange(0, k as int).contains(x) && x != p),
            decreases n - k,
        {
            let ghost before = self.ids@.subrange(0, k as int);
            let ghost after = self.ids@.subrange(0, k as int + 1);
            proof {
                assert(after =~= before.push(self.ids@[k as int]));
                assert forall|x: PeerId| #[trigger] after.contains(x) implies (before.contains(x)
                    || x == self.ids@[k as int]) by {
                    let j = choose|j: int| 0 <= j < after.len() && after[j] == x;
                    if j < before.len() {
                        assert(before[j] == x);
                    }
                }
                assert(after.contains(self.ids@[k as int])) by {
                    assert(after[k as int] == self.ids@[k as int]);
                }
                assert forall|x: PeerId| before.contains(x) implies #[trigger] after.contains(
                    x,
                ) by {
                    let j = choose|j: int| 0 <= j < before.len() && before[j] == x;
                    assert(after[j] == x);
                }
            }
            let x = self.ids[k];
            if x == p {
                found = true;
            } else {
                let ghost kept_before = kept@;
                proof {
                    assert(!kept_before.contains(x)) by {
                        if before.contains(x) {
                            let j = choose|j: int| 0 <= j < before.len() && before[j] == x;
                            assert(self.ids@[j] == self.ids@[k as int]);
                        }
                    }
                }
                kept.push(x);
                proof {
                    assert(kept@.no_duplicates()) by {
                        assert forall|i: int, j: int|
                            0 <= i < j < kept@.len() implies kept@[i] != kept@[j] by {
                            if j == kept@.len() - 1 {
                                assert(kept_before[i] == kept@[i]);
                                assert(kept_before.contains(kept_before[i]));
                            } else {
                                assert(kept_before[i] != kept_before[j]);
                            }
                        }
                    }
                    assert(kept@.contains(x)) by {
                        assert(kept@[kept@.len() - 1] == x);
                    }
                    assert forall|y: PeerId| #[trigger] kept@.contains(y) implies (after.contains(y)
                        && y != p) by {
                        let j = choose|j: int| 0 <= j < kept@.len() && kept@[j] == y;
                        if j < kept@.len() - 1 {
                            assert(kept_before[j] == y);
                            assert(kept_before.contains(y));
                        }
                    }
                    assert forall|y: PeerId| after.contains(y) && y != p implies #[trigger] kept@.contains(
                        y,
                    ) by {
                        if kept_before.contains(y) {
                            let j = choose|j: int| 0 <= j < kept_before.len() && kept_before[j] == y;
                            assert(kept@[j] == y);
                        }
                    }
                }
            }
            k += 1;
        }
        proof {
            assert(self.ids@.subrange(0, n as int) =~= self.ids@);
        }
        let ghost pre = self.ids@;
        self.ids = kept;
        proof {
            let m0 = pre.map_values(|q: PeerId| q as int);
            let m1 = self.ids@.map_values(|q: PeerId| q as int);
            assert forall|y: int| m1.contains(y) implies (m0.to_set().contains(y) && y != p
                as int) by {
                let j = choose|j: int| 0 <= j < m1.len() && m1[j] == y;
                assert(self.ids@.contains(self.ids@[j]));
                let x = self.ids@[j];
                let jj = choose|jj: int| 0 <= jj < pre.len() && pre[jj] == x;
                assert(m0[jj] == y);
            }
            assert forall|y: int| m0.to_set().contains(y) && y != p as int implies m1.contains(
                y,
            ) by {
                let j = choose|j: int| 0 <= j < m0.len() && m0[j] == y;
                let x = pre[j];
                assert(pre.contains(x));
                assert(self.ids@.contains(x));
                let jj = choose|jj: int| 0 <= jj < self.ids@.len() && self.ids@[jj] == x;
                assert(m1[jj] == y);
            }
            assert(self@ =~= old(self)@.remove(p as int));
            if old(self)@.contains(p as int) {
                let j = choose|j: int| 0 <= j < m0.len() && m0[j] == p as int;
                assert(pre.contains(pre[j]));
            } else {
                assert forall|j: int| 0 <= j < pre.len() implies pre[j] != p by {
                    assert(m0[j] == pre[j] as int);
                }
                assert(!pre.contains(p));
            }
        }
        found
    }

    /// The set's cardinality. Each member is held exactly once, so the
    /// backing vector's length is exact.
    pub fn len(&self) -> (n: usize)
        ensures
            n == self@.len(),
    {
        proof {
            use_type_invariant(&*self);
            let m = self.ids@.map_values(|p: PeerId| p as int);
            assert(m.no_duplicates()) by {
                assert forall|i: int, j: int| 0 <= i < j < m.len() implies m[i] != m[j] by {
                    assert(self.ids@[i] != self.ids@[j]);
                }
            }
            m.unique_seq_to_set();
        }
        self.ids.len()
    }

    /// Empties the set.
    pub fn clear(&mut self)
        ensures
            final(self)@ == Set::<int>::empty(),
    {
        self.ids = Vec::new();
        proof {
            assert(self@ =~= Set::<int>::empty());
        }
    }
}

} // verus!
