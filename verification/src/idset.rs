//! A small set of 64-bit identifiers, kept as a duplicate-free vector.
use vstd::prelude::*;

verus! {

/// A finite set of request identifiers.
#[derive(Debug, Clone)]
pub struct IdSet {
    ids: Vec<u64>,
}

impl View for IdSet {
    type V = Set<u64>;

    closed spec fn view(&self) -> Set<u64> {
        self.ids@.to_set()
    }
}

impl IdSet {
    /// The representation holds every identifier once.
    pub closed spec fn wf(&self) -> bool {
        self.ids@.no_duplicates()
    }

    proof fn lemma_len(&self)
        requires
            self.wf(),
        ensures
            self@.finite(),
            self@.len() == self.ids@.len(),
    {
        broadcast use vstd::seq_lib::seq_to_set_is_finite;
        self.ids@.unique_seq_to_set();
    }

    /// The set is finite and its size is that of the representation.
    pub proof fn lemma_finite(&self)
        requires
            self.wf(),
        ensures
            self@.finite(),
    {
        self.lemma_len();
    }

    pub fn new() -> (s: IdSet)
        ensures
            s.wf(),
            s@ == Set::<u64>::empty(),
    {
        let s = IdSet { ids: Vec::new() };
        assert(s@ =~= Set::<u64>::empty());
        s
    }

    fn position(&self, id: u64) -> (r: Option<usize>)
        ensures
            match r {
                Some(i) => i < self.ids@.len() && self.ids@[i as int] == id,
                None => !self.ids@.contains(id),
            },
    {
        let mut i: usize = 0;
        while i < self.ids.len()
            invariant
                i <= self.ids@.len(),
                forall|j: int| 0 <= j < i ==> self.ids@[j] != id,
            decreases self.ids@.len() - i,
        {
            if self.ids[i] == id {
                return Some(i);
            }
            i = i + 1;
        }
        None
    }

    pub fn contains(&self, id: u64) -> (r: bool)
        ensures
            r == self@.contains(id),
    {
        self.position(id).is_some()
    }

    pub fn insert(&mut self, id: u64)
        requires
            old(self).wf(),
        ensures
            final(self).wf(),
            final(self)@ == old(self)@.insert(id),
    {
        if self.position(id).is_none() {
            let ghost before = self.ids@;
            self.ids.push(id);
            proof {
                before.lemma_push_to_set_commute(id);
                assert(self.ids@ == before.push(id));
            }
        } else {
            assert(self@ =~= old(self)@.insert(id));
        }
    }

    /// Removes `id`; says whether it was present.
    pub fn remove(&mut self, id: u64) -> (r: bool)
        requires
            old(self).wf(),
        ensures
            final(self).wf(),
            final(self)@ == old(self)@.remove(id),
            r == old(self)@.contains(id),
    {
        match self.position(id) {
            Some(i) => {
                let ghost before = self.ids@;
                self.ids.remove(i);
                proof {
                    assert(self.ids@ == before.remove(i as int));
                    assert forall|a: int, b: int| 0 <= a < b < self.ids@.len() implies self.ids@[a] != self.ids@[b] by {
                        if a < i {
                            if b < i {
                            } else {
                                assert(self.ids@[b] == before[b + 1]);
                            }
                        } else {
                            assert(self.ids@[a] == before[a + 1]);
                            assert(self.ids@[b] == before[b + 1]);
                        }
                    }
                    assert forall|x: u64| self@.contains(x) <==> old(self)@.remove(id).contains(x) by {
                        if self@.contains(x) {
                            let k = choose|k: int| 0 <= k < self.ids@.len() && self.ids@[k] == x;
                            if k < i {
                                assert(before[k] == x);
                            } else {
                                assert(before[k + 1] == x);
                            }
                        }
                        if old(self)@.remove(id).contains(x) {
                            let k = choose|k: int| 0 <= k < before.len() && before[k] == x;
                            assert(k != i);
                            if k < i {
                                assert(self.ids@[k] == x);
                            } else {
                                assert(self.ids@[k - 1] == x);
                            }
                        }
                    }
                    assert(self@ =~= old(self)@.remove(id));
                }
                true
            },
            None => {
                assert(self@ =~= old(self)@.remove(id));
                false
            },
        }
    }

    pub fn len(&self) -> (r: usize)
        requires
            self.wf(),
        ensures
            r == self@.len(),
    {
        proof {
            self.lemma_len();
        }
        self.ids.len()
    }

    /// Removes every identifier and returns them.
    pub fn take_all(&mut self) -> (all: Vec<u64>)
        requires
            old(self).wf(),
        ensures
            final(self).wf(),
            final(self)@ == Set::<u64>::empty(),
            all@.to_set() == old(self)@,
            all@.no_duplicates(),
    {
        let mut all: Vec<u64> = Vec::new();
        std::mem::swap(&mut all, &mut self.ids);
        assert(self@ =~= Set::<u64>::empty());
        all
    }

    /// The smallest identifier, if any.
    pub fn min(&self) -> (r: Option<u64>)
        ensures
            match r {
                Some(m) => self@.contains(m) && forall|x: u64| self@.contains(x) ==> m <= x,
                None => self@ == Set::<u64>::empty(),
            },
    {
        if self.ids.len() == 0 {
            assert(self@ =~= Set::<u64>::empty());
            return None;
        }
        let mut best = self.ids[0];
        let mut k: usize = 0;
        let mut i: usize = 1;
        while i < self.ids.len()
            invariant
                1 <= i <= self.ids@.len(),
                k < self.ids@.len(),
                self.ids@[k as int] == best,
                forall|j: int| 0 <= j < i ==> best <= self.ids@[j],
            decreases self.ids@.len() - i,
        {
            if self.ids[i] < best {
                best = self.ids[i];
                k = i;
            }
            i = i + 1;
        }
        assert(self.ids@.contains(best)) by {
            assert(self.ids@[k as int] == best);
        }
        Some(best)
    }

    /// The largest identifier above `floor`, if any.
    pub fn max_above(&self, floor: u64) -> (r: Option<u64>)
        ensures
            match r {
                Some(m) => self@.contains(m) && m > floor && forall|x: u64| self@.contains(x) && x > floor ==> x <= m,
                None => forall|x: u64| self@.contains(x) ==> x <= floor,
            },
    {
        let mut best: Option<u64> = None;
        let mut i: usize = 0;
        while i < self.ids.len()
            invariant
                i <= self.ids@.len(),
                match best {
                    Some(m) => self.ids@.contains(m) && m > floor
                        && forall|j: int| 0 <= j < i && self.ids@[j] > floor ==> self.ids@[j] <= m,
                    None => forall|j: int| 0 <= j < i ==> self.ids@[j] <= floor,
                },
            decreases self.ids@.len() - i,
        {
            let x = self.ids[i];
            if x > floor {
                match best {
                    Some(m) => {
                        if x > m {
                            best = Some(x);
                        }
                    },
                    None => {
                        best = Some(x);
                    },
                }
            }
            proof {
                assert(self.ids@[i as int] == x);
            }
            i = i + 1;
        }
        best
    }

    /// Keeps only identifiers at or above `floor`.
    pub fn retain_at_least(&mut self, floor: u64)
        requires
            old(self).wf(),
        ensures
            final(self).wf(),
            final(self)@ == old(self)@.filter(|x: u64| x >= floor),
    {
        let mut kept: Vec<u64> = Vec::new();
        let mut i: usize = 0;
        while i < self.ids.len()
            invariant
                i <= self.ids@.len(),
                self.ids@ == old(self).ids@,
                self.ids@.no_duplicates(),
                kept@.no_duplicates(),
                forall|x: u64| kept@.contains(x) <==> (exists|j: int| 0 <= j < i && self.ids@[j] == x && x >= floor),
            decreases self.ids@.len() - i,
        {
            let x = self.ids[i];
            let ghost prev = kept@;
            if x >= floor {
                proof {
                    assert(!prev.contains(x)) by {
                        if prev.contains(x) {
                            let j = choose|j: int| 0 <= j < i && self.ids@[j] == x && x >= floor;
                            assert(self.ids@[j] == self.ids@[i as int]);
                        }
                    }
                }
                kept.push(x);
                proof {
                    assert(kept@ == prev.push(x));
                    assert forall|y: u64| kept@.contains(y) <==> (exists|j: int| 0 <= j < i + 1 && self.ids@[j] == y && y >= floor) by {
                        if kept@.contains(y) {
                            let k = choose|k: int| 0 <= k < kept@.len() && kept@[k] == y;
                            if k == prev.len() {
                                assert(self.ids@[i as int] == y);
                            } else {
                                assert(prev[k] == y);
                                assert(prev.contains(y));
                            }
                        }
                        if exists|j: int| 0 <= j < i + 1 && self.ids@[j] == y && y >= floor {
                            let j = choose|j: int| 0 <= j < i + 1 && self.ids@[j] == y && y >= floor;
                            if j == i {
                                assert(kept@[prev.len() as int] == y);
                            } else {
                                assert(prev.contains(y));
                                let k = choose|k: int| 0 <= k < prev.len() && prev[k] == y;
                                assert(kept@[k] == y);
                            }
                        }
                    }
                }
            } else {
                proof {
                    assert forall|y: u64| kept@.contains(y) <==> (exists|j: int| 0 <= j < i + 1 && self.ids@[j] == y && y >= floor) by {
                        if exists|j: int| 0 <= j < i + 1 && self.ids@[j] == y && y >= floor {
                            let j = choose|j: int| 0 <= j < i + 1 && self.ids@[j] == y && y >= floor;
                            assert(j != i);
                        }
                    }
                }
            }
            i = i + 1;
        }
        self.ids = kept;
        proof {
            assert forall|x: u64| #[trigger] self@.contains(x) <==> old(self)@.filter(|x: u64| x >= floor).contains(x) by {
                if self@.contains(x) {
                    let j = choose|j: int| 0 <= j < old(self).ids@.len() && old(self).ids@[j] == x && x >= floor;
                    assert(old(self).ids@.contains(x));
                }
                if old(self)@.filter(|x: u64| x >= floor).contains(x) {
                    assert(old(self).ids@.contains(x));
                    let j = choose|j: int| 0 <= j < old(self).ids@.len() && old(self).ids@[j] == x;
                    assert(0 <= j < old(self).ids@.len() && old(self).ids@[j] == x && x >= floor);
                }
            }
            assert(self@ =~= old(self)@.filter(|x: u64| x >= floor));
        }
    }
}

} // verus!
