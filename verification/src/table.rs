//! A keyed table of records held in insertion order, viewed as a map.
use vstd::prelude::*;

verus! {

/// A key that can be compared and copied by value.
pub trait TableKey: View + Sized {
    fn same_key(&self, other: &Self) -> (r: bool)
        ensures
            r == (self@ == other@),
    ;

    fn dup_key(&self) -> (r: Self)
        ensures
            r@ == self@,
    ;
}

/// A record that can be copied by value.
pub trait TableValue: View + Sized {
    fn dup_value(&self) -> (r: Self)
        ensures
            r@ == self@,
    ;
}

/// Records keyed by `K`, one per key, kept in the order their keys first arrived.
pub struct Table<K: TableKey, V: TableValue> {
    keys: Vec<K>,
    values: Vec<V>,
    contents: Ghost<Map<<K as View>::V, <V as View>::V>>,
}

impl<K: TableKey, V: TableValue> View for Table<K, V> {
    type V = Map<<K as View>::V, <V as View>::V>;

    closed spec fn view(&self) -> Map<<K as View>::V, <V as View>::V> {
        self.contents@
    }
}

impl<K: TableKey, V: TableValue> Table<K, V> {
    /// The keys, in table order.
    pub closed spec fn key_seq(&self) -> Seq<<K as View>::V> {
        self.keys@.map_values(|k: K| k@)
    }

    /// Parallel storage agrees with the map: every key once, each with its record.
    pub closed spec fn wf(&self) -> bool {
        &&& self.keys@.len() == self.values@.len()
        &&& self.key_seq().no_duplicates()
        &&& forall|i: int|
            0 <= i < self.keys@.len() ==> #[trigger] self.contents@.contains_key(self.keys@[i]@)
                && self.contents@[self.keys@[i]@] == self.values@[i]@
        &&& forall|k: <K as View>::V| #[trigger]
            self.contents@.contains_key(k) ==> self.key_seq().contains(k)
    }

    /// What a well-formed table promises about its key order.
    pub open spec fn enumerates(&self) -> bool {
        &&& self.key_seq().no_duplicates()
        &&& forall|i: int| 0 <= i < self.key_seq().len() ==> #[trigger] self@.contains_key(self.key_seq()[i])
        &&& forall|k: <K as View>::V| #[trigger] self@.contains_key(k) ==> self.key_seq().contains(k)
    }

    pub proof fn lemma_enumerates(&self)
        requires
            self.wf(),
        ensures
            self.enumerates(),
    {
        assert forall|i: int| 0 <= i < self.key_seq().len() implies #[trigger] self@.contains_key(
            self.key_seq()[i],
        ) by {
            assert(self.key_seq()[i] == self.keys@[i]@);
        }
    }

    pub fn new() -> (r: Self)
        ensures
            r.wf(),
            r@ == Map::<<K as View>::V, <V as View>::V>::empty(),
            r.key_seq() == Seq::<<K as View>::V>::empty(),
    {
        let r = Table { keys: Vec::new(), values: Vec::new(), contents: Ghost(Map::empty()) };
        assert(r.key_seq() =~= Seq::<<K as View>::V>::empty());
        r
    }

    pub fn len(&self) -> (r: usize)
        requires
            self.wf(),
        ensures
            r == self.key_seq().len(),
    {
        self.keys.len()
    }

    /// The position of `k`, if present.
    pub fn find(&self, k: &K) -> (r: Option<usize>)
        requires
            self.wf(),
        ensures
            match r {
                Some(i) => i < self.key_seq().len() && self.key_seq()[i as int] == k@
                    && self@.contains_key(k@),
                None => !self@.contains_key(k@),
            },
    {
        let mut i: usize = 0;
        while i < self.keys.len()
            invariant
                self.wf(),
                i <= self.keys@.len(),
                forall|j: int| 0 <= j < i ==> self.keys@[j]@ != k@,
            decreases self.keys@.len() - i,
        {
            if self.keys[i].same_key(k) {
                assert(self.key_seq()[i as int] == self.keys@[i as int]@);
                return Some(i);
            }
            i = i + 1;
        }
        proof {
            if self@.contains_key(k@) {
                let j = choose|j: int| 0 <= j < self.key_seq().len() && self.key_seq()[j] == k@;
                assert(self.keys@[j]@ == k@);
            }
        }
        None
    }

    /// The record under `k`, if present.
    pub fn get(&self, k: &K) -> (r: Option<&V>)
        requires
            self.wf(),
        ensures
            match r {
                Some(v) => self@.contains_key(k@) && v@ == self@[k@],
                None => !self@.contains_key(k@),
            },
    {
        match self.find(k) {
            Some(i) => {
                assert(self.keys@[i as int]@ == self.key_seq()[i as int]);
                Some(&self.values[i])
            },
            None => None,
        }
    }

    pub fn contains_key(&self, k: &K) -> (r: bool)
        requires
            self.wf(),
        ensures
            r == self@.contains_key(k@),
    {
        self.find(k).is_some()
    }

    /// The key at position `i`.
    pub fn key_at(&self, i: usize) -> (r: &K)
        requires
            self.wf(),
            i < self.key_seq().len(),
        ensures
            r@ == self.key_seq()[i as int],
    {
        &self.keys[i]
    }

    /// The record at position `i`.
    pub fn value_at(&self, i: usize) -> (r: &V)
        requires
            self.wf(),
            i < self.key_seq().len(),
        ensures
            self@.contains_key(self.key_seq()[i as int]),
            r@ == self@[self.key_seq()[i as int]],
    {
        assert(self.keys@[i as int]@ == self.key_seq()[i as int]);
        &self.values[i]
    }

    /// Replaces the record at position `i`.
    pub fn set_value_at(&mut self, i: usize, v: V)
        requires
            old(self).wf(),
            i < old(self).key_seq().len(),
        ensures
            final(self).wf(),
            final(self).key_seq() == old(self).key_seq(),
            final(self)@ == old(self)@.insert(old(self).key_seq()[i as int], v@),
    {
        let ghost k = self.keys@[i as int]@;
        let ghost vm = v@;
        let ghost vg = v;
        self.values[i] = v;
        self.contents = Ghost(self.contents@.insert(k, vm));
        proof {
            assert(self.key_seq() =~= old(self).key_seq());
            assert(self.values@ == old(self).values@.update(i as int, vg));
            assert forall|j: int| 0 <= j < self.keys@.len() implies #[trigger] self.contents@.contains_key(
                self.keys@[j]@,
            ) && self.contents@[self.keys@[j]@] == self.values@[j]@ by {
                if j != i {
                    assert(old(self).key_seq()[j] != old(self).key_seq()[i as int]);
                    assert(old(self).key_seq()[j] == old(self).keys@[j]@);
                    assert(old(self).contents@.contains_key(old(self).keys@[j]@));
                    assert(self.values@[j] == old(self).values@[j]);
                } else {
                    assert(self.values@[j] == vg);
                }
            }
            assert forall|kk: <K as View>::V| #[trigger] self.contents@.contains_key(kk) implies self.key_seq().contains(kk) by {
                if kk == k {
                    assert(self.key_seq()[i as int] == k);
                }
            }
        }
    }

    /// Stores `v` under `k`, replacing any record there; a new key goes last.
    pub fn insert(&mut self, k: K, v: V)
        requires
            old(self).wf(),
        ensures
            final(self).wf(),
            final(self)@ == old(self)@.insert(k@, v@),
            old(self)@.contains_key(k@) ==> final(self).key_seq() == old(self).key_seq(),
            !old(self)@.contains_key(k@) ==> final(self).key_seq() == old(self).key_seq().push(k@),
    {
        match self.find(&k) {
            Some(i) => {
                self.set_value_at(i, v);
            },
            None => {
                let ghost km = k@;
                let ghost vm = v@;
                let ghost kg = k;
                let ghost vg = v;
                self.keys.push(k);
                self.values.push(v);
                assert(self.keys@ == old(self).keys@.push(kg));
                assert(self.values@ == old(self).values@.push(vg));
                self.contents = Ghost(self.contents@.insert(km, vm));
                proof {
                    assert(self.key_seq() =~= old(self).key_seq().push(km));
                    assert(!old(self).key_seq().contains(km));
                    assert forall|j: int| 0 <= j < self.keys@.len() implies #[trigger] self.contents@.contains_key(
                        self.keys@[j]@,
                    ) && self.contents@[self.keys@[j]@] == self.values@[j]@ by {
                        if j < old(self).keys@.len() {
                            assert(old(self).key_seq()[j] == self.keys@[j]@);
                            assert(self.keys@[j]@ != km);
                            assert(old(self).contents@.contains_key(old(self).keys@[j]@));
                            assert(old(self).keys@[j] == self.keys@[j]);
                            assert(old(self).values@[j] == self.values@[j]);
                        } else {
                            assert(self.keys@[j] == kg);
                            assert(self.values@[j] == vg);
                        }
                    }
                    assert forall|kk: <K as View>::V| #[trigger] self.contents@.contains_key(kk) implies self.key_seq().contains(kk) by {
                        if kk == km {
                            assert(self.key_seq()[old(self).key_seq().len() as int] == km);
                        } else {
                            let j = choose|j: int| 0 <= j < old(self).key_seq().len() && old(self).key_seq()[j] == kk;
                            assert(self.key_seq()[j] == kk);
                        }
                    }
                }
            },
        }
    }

    /// Drops the record under `k`, if any, keeping the order of the others.
    pub fn remove(&mut self, k: &K)
        requires
            old(self).wf(),
        ensures
            final(self).wf(),
            final(self)@ == old(self)@.remove(k@),
    {
        let mut next: Table<K, V> = Table::new();
        let mut i: usize = 0;
        while i < self.keys.len()
            invariant
                self.wf(),
                next.wf(),
                i <= self.keys@.len(),
                forall|kk: <K as View>::V| #[trigger] next@.contains_key(kk) ==> self@.contains_key(kk)
                    && kk != k@ && next@[kk] == self@[kk],
                forall|j: int| 0 <= j < i && #[trigger] self.keys@[j]@ != k@ ==> next@.contains_key(
                    self.keys@[j]@,
                ),
                forall|kk: <K as View>::V| #[trigger] next@.contains_key(kk) ==> exists|j: int|
                    0 <= j < i && self.keys@[j]@ == kk,
            decreases self.keys@.len() - i,
        {
            if !self.keys[i].same_key(k) {
                proof {
                    assert forall|j: int| 0 <= j < i implies self.keys@[j]@ != self.keys@[i as int]@ by {
                        assert(self.key_seq()[j] != self.key_seq()[i as int]);
                    }
                }
                let kk = self.keys[i].dup_key();
                let vv = self.values[i].dup_value();
                assert(self.contents@.contains_key(self.keys@[i as int]@));
                next.insert(kk, vv);
            }
            i = i + 1;
        }
        proof {
            assert forall|kk: <K as View>::V| #[trigger] self@.contains_key(kk) && kk != k@ implies next@.contains_key(kk) by {
                assert(self.key_seq().contains(kk));
                let j = choose|j: int| 0 <= j < self.key_seq().len() && self.key_seq()[j] == kk;
                assert(self.keys@[j]@ == kk);
            }
            assert(next@ =~= self@.remove(k@));
        }
        *self = next;
    }

    /// A copy of the table.
    pub fn dup_table(&self) -> (r: Self)
        requires
            self.wf(),
        ensures
            r.wf(),
            r@ == self@,
            r.key_seq() == self.key_seq(),
    {
        let mut keys: Vec<K> = Vec::new();
        let mut values: Vec<V> = Vec::new();
        let mut i: usize = 0;
        while i < self.keys.len()
            invariant
                self.wf(),
                i <= self.keys@.len(),
                keys@.len() == i,
                values@.len() == i,
                forall|j: int| 0 <= j < i ==> #[trigger] keys@[j]@ == self.keys@[j]@,
                forall|j: int| 0 <= j < i ==> #[trigger] values@[j]@ == self.values@[j]@,
            decreases self.keys@.len() - i,
        {
            keys.push(self.keys[i].dup_key());
            values.push(self.values[i].dup_value());
            i = i + 1;
        }
        let r = Table { keys, values, contents: Ghost(self.contents@) };
        assert(r.key_seq() =~= self.key_seq());
        r
    }
}

} // verus!
