//! Verified balance maps backing the ledger state.
//!
//! Both maps are association lists over `Vec` with pairwise-distinct
//! keys (a type invariant).  A missing key reads as a zero balance,
//! matching a ledger in which every account and token starts empty.
//! `TokenMap` keys balances by a token identifier; `PairMap` keys them
//! by an (account, token) pair.

use vstd::prelude::*;

verus! {

/// Pairwise-distinct keys in an association list.
spec fn distinct_token_keys(s: Seq<(u64, u128)>) -> bool {
    forall|i: int, j: int| 0 <= i < j < s.len() ==> (#[trigger] s[i]).0 != (#[trigger] s[j]).0
}

/// Balances keyed by a single `u64` identifier.
pub struct TokenMap {
    entries: Vec<(u64, u128)>,
}

impl TokenMap {
    #[verifier::type_invariant]
    spec fn wf(self) -> bool {
        distinct_token_keys(self.entries@)
    }

    /// The balance stored under `key`; zero when the key is absent.
    pub closed spec fn val(self, key: u64) -> u128 {
        if exists|i: int| 0 <= i < self.entries@.len() && (#[trigger] self.entries@[i]).0 == key {
            self.entries@[choose|i: int|
                0 <= i < self.entries@.len() && (#[trigger] self.entries@[i]).0 == key].1
        } else {
            0
        }
    }

    proof fn lemma_val_at(self, i: int)
        requires
            self.wf(),
            0 <= i < self.entries@.len(),
        ensures
            self.val(self.entries@[i].0) == self.entries@[i].1,
    {
        let key = self.entries@[i].0;
        assert(0 <= i < self.entries@.len() && self.entries@[i].0 == key);
        let j = choose|j: int|
            0 <= j < self.entries@.len() && (#[trigger] self.entries@[j]).0 == key;
        if j < i {
            assert(self.entries@[j].0 != self.entries@[i].0);
        } else if i < j {
            assert(self.entries@[i].0 != self.entries@[j].0);
        }
    }

    proof fn lemma_val_absent(self, key: u64)
        requires
            forall|i: int| 0 <= i < self.entries@.len() ==> (#[trigger] self.entries@[i]).0 != key,
        ensures
            self.val(key) == 0,
    {
    }

    /// An empty map: every balance reads as zero.
    pub fn new() -> (m: Self)
        ensures
            forall|k: u64| m.val(k) == 0,
    {
        let m = TokenMap { entries: Vec::new() };
        proof {
            assert forall|k: u64| m.val(k) == 0 by {
                m.lemma_val_absent(k);
            }
        }
        m
    }

    /// The index at which `key` is stored, if any.
    fn find_in(entries: &Vec<(u64, u128)>, key: u64) -> (r: Option<usize>)
        ensures
            match r {
                Some(i) => i < entries@.len() && entries@[i as int].0 == key,
                None => forall|j: int|
                    0 <= j < entries@.len() ==> (#[trigger] entries@[j]).0 != key,
            },
    {
        let n = entries.len();
        let mut i: usize = 0;
        while i < n
            invariant
                n == entries@.len(),
                i <= n,
                forall|j: int| 0 <= j < i ==> (#[trigger] entries@[j]).0 != key,
            decreases n - i,
        {
            if entries[i].0 == key {
                return Some(i);
            }
            i += 1;
        }
        None
    }

    /// Reads the balance under `key` (zero when absent).
    pub fn get(&self, key: u64) -> (r: u128)
        ensures
            r == self.val(key),
    {
        match Self::find_in(&self.entries, key) {
            Some(i) => {
                proof {
                    use_type_invariant(&*self);
                    self.lemma_val_at(i as int);
                }
                self.entries[i].1
            },
            None => {
                proof {
                    self.lemma_val_absent(key);
                }
                0
            },
        }
    }

    /// Stores `value` under `key`, leaving every other key's balance as
    /// it was.
    pub fn set(&mut self, key: u64, value: u128)
        ensures
            final(self).val(key) == value,
            forall|k: u64| k != key ==> final(self).val(k) == old(self).val(k),
    {
        proof {
            use_type_invariant(&*self);
        }
        let ghost prior = *self;
        let mut entries: Vec<(u64, u128)> = Vec::new();
        std::mem::swap(&mut entries, &mut self.entries);
        match Self::find_in(&entries, key) {
            Some(i) => {
                entries[i] = (key, value);
                proof {
                    assert(entries@ == prior.entries@.update(i as int, (key, value)));
                    assert forall|p: int, q: int| 0 <= p < q < entries@.len() implies (
                    #[trigger] entries@[p]).0 != (#[trigger] entries@[q]).0 by {
                        assert(prior.entries@[p].0 != prior.entries@[q].0);
                    }
                }
                self.entries = entries;
                proof {
                    assert(self.entries@[i as int] == (key, value));
                    self.lemma_val_at(i as int);
                    assert forall|k: u64| k != key implies self.val(k) == prior.val(k) by {
                        self.lemma_val_agree(prior, k);
                    }
                }
            },
            None => {
                entries.push((key, value));
                proof {
                    assert(entries@ == prior.entries@.push((key, value)));
                    assert forall|p: int, q: int| 0 <= p < q < entries@.len() implies (
                    #[trigger] entries@[p]).0 != (#[trigger] entries@[q]).0 by {
                        if q < prior.entries@.len() {
                            assert(prior.entries@[p].0 != prior.entries@[q].0);
                        } else {
                            assert(entries@[q] == (key, value));
                            assert(prior.entries@[p].0 != key);
                        }
                    }
                }
                self.entries = entries;
                proof {
                    let last = self.entries@.len() - 1;
                    assert(self.entries@[last] == (key, value));
                    self.lemma_val_at(last);
                    assert forall|k: u64| k != key implies self.val(k) == prior.val(k) by {
                        self.lemma_val_agree(prior, k);
                    }
                }
            },
        }
    }

    /// When every position holding `key` in either map holds the same
    /// pair in both, the balance under `key` agrees.
    proof fn lemma_val_agree(self, other: Self, key: u64)
        requires
            self.wf(),
            other.wf(),
            forall|i: int|
                0 <= i < other.entries@.len() && (#[trigger] other.entries@[i]).0 == key ==> i
                    < self.entries@.len() && self.entries@[i] == other.entries@[i],
            forall|i: int|
                0 <= i < self.entries@.len() && (#[trigger] self.entries@[i]).0 == key ==> i
                    < other.entries@.len() && other.entries@[i] == self.entries@[i],
        ensures
            self.val(key) == other.val(key),
    {
        if exists|i: int|
            0 <= i < other.entries@.len() && (#[trigger] other.entries@[i]).0 == key {
            let i = choose|i: int|
                0 <= i < other.entries@.len() && (#[trigger] other.entries@[i]).0 == key;
            other.lemma_val_at(i);
            assert(self.entries@[i] == other.entries@[i]);
            self.lemma_val_at(i);
        } else {
            other.lemma_val_absent(key);
            assert forall|i: int|
                0 <= i < self.entries@.len() implies (#[trigger] self.entries@[i]).0 != key by {
                if self.entries@[i].0 == key {
                    assert(i < other.entries@.len() && other.entries@[i] == self.entries@[i]);
                }
            }
            self.lemma_val_absent(key);
        }
    }
}

/// Pairwise-distinct keys in an association list keyed by a pair.
spec fn distinct_pair_keys(s: Seq<((u64, u64), u128)>) -> bool {
    forall|i: int, j: int| 0 <= i < j < s.len() ==> (#[trigger] s[i]).0 != (#[trigger] s[j]).0
}

/// Balances keyed by an (account, token) pair.
pub struct PairMap {
    entries: Vec<((u64, u64), u128)>,
}

impl PairMap {
    #[verifier::type_invariant]
    spec fn wf(self) -> bool {
        distinct_pair_keys(self.entries@)
    }

    /// The balance stored under `key`; zero when the key is absent.
    pub closed spec fn val(self, key: (u64, u64)) -> u128 {
        if exists|i: int| 0 <= i < self.entries@.len() && (#[trigger] self.entries@[i]).0 == key {
            self.entries@[choose|i: int|
                0 <= i < self.entries@.len() && (#[trigger] self.entries@[i]).0 == key].1
        } else {
            0
        }
    }

    proof fn lemma_val_at(self, i: int)
        requires
            self.wf(),
            0 <= i < self.entries@.len(),
        ensures
            self.val(self.entries@[i].0) == self.entries@[i].1,
    {
        let key = self.entries@[i].0;
        assert(0 <= i < self.entries@.len() && self.entries@[i].0 == key);
        let j = choose|j: int|
            0 <= j < self.entries@.len() && (#[trigger] self.entries@[j]).0 == key;
        if j < i {
            assert(self.entries@[j].0 != self.entries@[i].0);
        } else if i < j {
            assert(self.entries@[i].0 != self.entries@[j].0);
        }
    }

    proof fn lemma_val_absent(self, key: (u64, u64))
        requires
            forall|i: int| 0 <= i < self.entries@.len() ==> (#[trigger] self.entries@[i]).0 != key,
        ensures
            self.val(key) == 0,
    {
    }

    /// An empty map: every balance reads as zero.
    pub fn new() -> (m: Self)
        ensures
            forall|k: (u64, u64)| m.val(k) == 0,
    {
        let m = PairMap { entries: Vec::new() };
        proof {
            assert forall|k: (u64, u64)| m.val(k) == 0 by {
                m.lemma_val_absent(k);
            }
        }
        m
    }

    /// The index at which `key` is stored, if any.
    fn find_in(entries: &Vec<((u64, u64), u128)>, key: (u64, u64)) -> (r: Option<usize>)
        ensures
            match r {
                Some(i) => i < entries@.len() && entries@[i as int].0 == key,
                None => forall|j: int|
                    0 <= j < entries@.len() ==> (#[trigger] entries@[j]).0 != key,
            },
    {
        let n = entries.len();
        let mut i: usize = 0;
        while i < n
            invariant
                n == entries@.len(),
                i <= n,
                forall|j: int| 0 <= j < i ==> (#[trigger] entries@[j]).0 != key,
            decreases n - i,
        {
            let at = entries[i].0;
            if at.0 == key.0 && at.1 == key.1 {
                return Some(i);
            }
            i += 1;
        }
        None
    }

    /// Reads the balance under `key` (zero when absent).
    pub fn get(&self, key: (u64, u64)) -> (r: u128)
        ensures
            r == self.val(key),
    {
        match Self::find_in(&self.entries, key) {
            Some(i) => {
                proof {
                    use_type_invariant(&*self);
                    self.lemma_val_at(i as int);
                }
                self.entries[i].1
            },
            None => {
                proof {
                    self.lemma_val_absent(key);
                }
                0
            },
        }
    }

    /// Stores `value` under `key`, leaving every other key's balance as
    /// it was.
    pub fn set(&mut self, key: (u64, u64), value: u128)
        ensures
            final(self).val(key) == value,
            forall|k: (u64, u64)| k != key ==> final(self).val(k) == old(self).val(k),
    {
        proof {
            use_type_invariant(&*self);
        }
        let ghost prior = *self;
        let mut entries: Vec<((u64, u64), u128)> = Vec::new();
        std::mem::swap(&mut entries, &mut self.entries);
        match Self::find_in(&entries, key) {
            Some(i) => {
                entries[i] = (key, value);
                proof {
                    assert(entries@ == prior.entries@.update(i as int, (key, value)));
                    assert forall|p: int, q: int| 0 <= p < q < entries@.len() implies (
                    #[trigger] entries@[p]).0 != (#[trigger] entries@[q]).0 by {
                        assert(prior.entries@[p].0 != prior.entries@[q].0);
                    }
                }
                self.entries = entries;
                proof {
                    assert(self.entries@[i as int] == (key, value));
                    self.lemma_val_at(i as int);
                    assert forall|k: (u64, u64)| k != key implies self.val(k) == prior.val(k) by {
                        self.lemma_val_agree(prior, k);
                    }
                }
            },
            None => {
                entries.push((key, value));
                proof {
                    assert(entries@ == prior.entries@.push((key, value)));
                    assert forall|p: int, q: int| 0 <= p < q < entries@.len() implies (
                    #[trigger] entries@[p]).0 != (#[trigger] entries@[q]).0 by {
                        if q < prior.entries@.len() {
                            assert(prior.entries@[p].0 != prior.entries@[q].0);
                        } else {
                            assert(entries@[q] == (key, value));
                            assert(prior.entries@[p].0 != key);
                        }
                    }
                }
                self.entries = entries;
                proof {
                    let last = self.entries@.len() - 1;
                    assert(self.entries@[last] == (key, value));
                    self.lemma_val_at(last);
                    assert forall|k: (u64, u64)| k != key implies self.val(k) == prior.val(k) by {
                        self.lemma_val_agree(prior, k);
                    }
                }
            },
        }
    }

    /// When every position holding `key` in either map holds the same
    /// pair in both, the balance under `key` agrees.
    proof fn lemma_val_agree(self, other: Self, key: (u64, u64))
        requires
            self.wf(),
            other.wf(),
            forall|i: int|
                0 <= i < other.entries@.len() && (#[trigger] other.entries@[i]).0 == key ==> i
                    < self.entries@.len() && self.entries@[i] == other.entries@[i],
            forall|i: int|
                0 <= i < self.entries@.len() && (#[trigger] self.entries@[i]).0 == key ==> i
                    < other.entries@.len() && other.entries@[i] == self.entries@[i],
        ensures
            self.val(key) == other.val(key),
    {
        if exists|i: int|
            0 <= i < other.entries@.len() && (#[trigger] other.entries@[i]).0 == key {
            let i = choose|i: int|
                0 <= i < other.entries@.len() && (#[trigger] other.entries@[i]).0 == key;
            other.lemma_val_at(i);
            assert(self.entries@[i] == other.entries@[i]);
            self.lemma_val_at(i);
        } else {
            other.lemma_val_absent(key);
            assert forall|i: int|
                0 <= i < self.entries@.len() implies (#[trigger] self.entries@[i]).0 != key by {
                if self.entries@[i].0 == key {
                    assert(i < other.entries@.len() && other.entries@[i] == self.entries@[i]);
                }
            }
            self.lemma_val_absent(key);
        }
    }
}

} // verus!
