//! A small association map with `u128` keys, backed by a pair of vectors.
//!
//! The scene keys it by entity id and by content GUID. Insertion order is
//! kept, keys are unique, and every operation is specified against the
//! mathematical `Map` view.

use vstd::prelude::*;

verus! {

/// Index of `k` in `s`, or -1.
pub(crate) open spec fn find_key(s: Seq<u128>, k: u128) -> int
    decreases s.len(),
{
    if s.len() == 0 {
        -1
    } else if s.last() == k {
        s.len() - 1
    } else {
        find_key(s.drop_last(), k)
    }
}

pub(crate) proof fn lemma_find_key_props(s: Seq<u128>, k: u128)
    ensures
        find_key(s, k) == -1 || (0 <= find_key(s, k) < s.len() && s[find_key(s, k)] == k),
        find_key(s, k) == -1 ==> !s.contains(k),
        s.contains(k) ==> find_key(s, k) >= 0,
    decreases s.len(),
{
    if s.len() > 0 && s.last() != k {
        lemma_find_key_props(s.drop_last(), k);
        if s.contains(k) {
            let i = choose|i: int| 0 <= i < s.len() && s[i] == k;
            assert(s.drop_last()[i] == k);
            assert(s.drop_last().contains(k));
        }
        if s.drop_last().contains(k) {
            assert(s.contains(k));
        }
    }
}

pub(crate) proof fn lemma_find_key_unique(s: Seq<u128>, k: u128, i: int)
    requires
        s.no_duplicates(),
        0 <= i < s.len(),
        s[i] == k,
    ensures
        find_key(s, k) == i,
    decreases s.len(),
{
    if s.last() == k {
        assert(i == s.len() - 1);
    } else {
        assert(i < s.len() - 1);
        assert(s.drop_last().no_duplicates());
        lemma_find_key_unique(s.drop_last(), k, i);
    }
}

/// An insertion-ordered map from `u128` keys to values.
pub struct KMap<V> {
    keys: Vec<u128>,
    vals: Vec<V>,
}

impl<V> KMap<V> {
    /// Unique keys, and one value per key.
    pub closed spec fn wf(self) -> bool {
        &&& self.keys@.no_duplicates()
        &&& self.keys@.len() == self.vals@.len()
    }

    /// The keys in insertion order.
    pub closed spec fn keys_seq(self) -> Seq<u128> {
        self.keys@
    }

    /// The mathematical map this value denotes.
    pub closed spec fn as_map(self) -> Map<u128, V> {
        Map::new(
            |k: u128| self.keys@.contains(k),
            |k: u128| self.vals@[find_key(self.keys@, k)],
        )
    }

    pub fn new() -> (r: KMap<V>)
        ensures
            r.wf(),
            r.as_map() == Map::<u128, V>::empty(),
            r.keys_seq() == Seq::<u128>::empty(),
    {
        let r = KMap { keys: Vec::new(), vals: Vec::new() };
        proof {
            assert(r.as_map() =~= Map::<u128, V>::empty());
        }
        r
    }

    /// Number of entries.
    pub fn len(&self) -> (r: usize)
        requires
            self.wf(),
        ensures
            r == self.keys_seq().len(),
    {
        self.keys.len()
    }

    /// Index of `k`, if present.
    fn find(&self, k: u128) -> (r: Option<usize>)
        requires
            self.wf(),
        ensures
            match r {
                Some(i) => find_key(self.keys@, k) == i as int && i < self.keys.len(),
                None => find_key(self.keys@, k) == -1,
            },
    {
        let n = self.keys.len();
        let mut i: usize = 0;
        while i < n
            invariant
                self.wf(),
                n == self.keys@.len(),
                i <= n,
                forall|j: int| 0 <= j < i ==> self.keys@[j] != k,
            decreases n - i,
        {
            if self.keys[i] == k {
                proof {
                    lemma_find_key_unique(self.keys@, k, i as int);
                }
                return Some(i);
            }
            i = i + 1;
        }
        proof {
            lemma_find_key_props(self.keys@, k);
        }
        None
    }

    /// Whether `k` is present.
    pub fn contains(&self, k: u128) -> (r: bool)
        requires
            self.wf(),
        ensures
            r == self.as_map().dom().contains(k),
    {
        let r = self.find(k);
        proof {
            lemma_find_key_props(self.keys@, k);
        }
        r.is_some()
    }

    /// The value under `k`, if present.
    pub fn get(&self, k: u128) -> (r: Option<&V>)
        requires
            self.wf(),
        ensures
            match r {
                Some(v) => self.as_map().dom().contains(k) && *v == self.as_map()[k],
                None => !self.as_map().dom().contains(k),
            },
    {
        proof {
            lemma_find_key_props(self.keys@, k);
        }
        match self.find(k) {
            Some(i) => Some(&self.vals[i]),
            None => None,
        }
    }

    /// A copy of the keys, in insertion order.
    pub fn keys(&self) -> (r: Vec<u128>)
        requires
            self.wf(),
        ensures
            r@ == self.keys_seq(),
    {
        let n = self.keys.len();
        let mut r: Vec<u128> = Vec::new();
        let mut i: usize = 0;
        while i < n
            invariant
                n == self.keys@.len(),
                i <= n,
                r@ == self.keys@.take(i as int),
            decreases n - i,
        {
            r.push(self.keys[i]);
            proof {
                assert(r@ =~= self.keys@.take(i + 1));
            }
            i = i + 1;
        }
        proof {
            assert(r@ =~= self.keys@);
        }
        r
    }

    /// The key list and the map domain hold the same keys, each once.
    pub proof fn lemma_keys_dom(self)
        requires
            self.wf(),
        ensures
            forall|k: u128|
                #[trigger] self.keys_seq().contains(k) == self.as_map().dom().contains(k),
            self.keys_seq().no_duplicates(),
    {
    }

    /// Insert or overwrite the value under `k`.
    pub fn insert(&mut self, k: u128, v: V)
        requires
            old(self).wf(),
        ensures
            final(self).wf(),
            final(self).as_map() == old(self).as_map().insert(k, v),
            old(self).as_map().dom().contains(k) ==> final(self).keys_seq() == old(
                self,
            ).keys_seq(),
            !old(self).as_map().dom().contains(k) ==> final(self).keys_seq() == old(
                self,
            ).keys_seq().push(k),
    {
        let ghost ks = self.keys@;
        proof {
            lemma_find_key_props(ks, k);
        }
        match self.find(k) {
            Some(i) => {
                self.vals.set(i, v);
                proof {
                    assert forall|q: u128| self.keys@.contains(q) implies #[trigger] self.vals@[
                        find_key(self.keys@, q)] == old(self).as_map().insert(k, v)[q] by {
                        lemma_find_key_props(ks, q);
                        if q == k {
                        } else {
                            assert(find_key(ks, q) != i as int);
                        }
                    }
                    assert(final(self).as_map() =~= old(self).as_map().insert(k, v));
                }
            },
            None => {
                self.keys.push(k);
                self.vals.push(v);
                proof {
                    let ks2 = self.keys@;
                    assert(ks2.drop_last() =~= ks);
                    assert(find_key(ks2, k) == ks.len());
                    assert forall|q: u128| q != k implies find_key(ks2, q) == find_key(ks, q) by {
                        assert(ks2.last() != q);
                    }
                    assert forall|q: u128| #[trigger] ks2.contains(q) implies q == k
                        || ks.contains(q) by {
                        let i = choose|i: int| 0 <= i < ks2.len() && ks2[i] == q;
                        if i < ks.len() {
                            assert(ks[i] == q);
                        }
                    }
                    assert forall|q: u128| #[trigger] ks.contains(q) implies ks2.contains(q) by {
                        let i = choose|i: int| 0 <= i < ks.len() && ks[i] == q;
                        assert(ks2[i] == q);
                    }
                    assert(ks2.contains(k)) by {
                        assert(ks2[ks2.len() - 1] == k);
                    }
                    assert(!ks.contains(k)) by {
                        lemma_find_key_props(ks, k);
                    }
                    assert(ks2.no_duplicates()) by {
                        assert forall|i: int, j: int|
                            0 <= i < ks2.len() && 0 <= j < ks2.len() && i != j implies ks2[i]
                            != ks2[j] by {
                            if i < ks.len() && j < ks.len() {
                            } else if i < ks.len() && j == ks.len() {
                                assert(ks.contains(ks[i]));
                            } else if j < ks.len() && i == ks.len() {
                                assert(ks.contains(ks[j]));
                            }
                        }
                    }
                    assert forall|q: u128| self.keys@.contains(q) implies #[trigger] self.vals@[
                        find_key(self.keys@, q)] == old(self).as_map().insert(k, v)[q] by {
                        lemma_find_key_props(ks, q);
                        if q != k {
                            assert(find_key(ks, q) < ks.len());
                        }
                    }
                    assert(final(self).as_map() =~= old(self).as_map().insert(k, v));
                }
            },
        }
    }
}

} // verus!
