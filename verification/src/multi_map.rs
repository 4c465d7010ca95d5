//! A table whose values are each reachable by two independent keys.
//!
//! Every entry is stored once, under a first key (a service digest) and a
//! second key (a nonce). No first key and no second key occurs twice, so a
//! lookup by either key finds at most one entry, and removing an entry by one
//! key removes it for the other key too.

use vstd::prelude::*;
use crate::protocol::{digest_eq, Digest};

verus! {

struct Entry<V> {
    k1: Digest,
    k2: Digest,
    value: V,
}

/// A map from `(first key, second key)` to one value, indexed by both keys.
pub struct MultiMap<V> {
    entries: Vec<Entry<V>>,
}

spec fn has1<V>(es: Seq<Entry<V>>, k: Seq<u8>) -> bool {
    exists|i: int| #![trigger es[i]] 0 <= i < es.len() && es[i].k1@ == k
}

spec fn idx1<V>(es: Seq<Entry<V>>, k: Seq<u8>) -> int {
    choose|i: int| #![trigger es[i]] 0 <= i < es.len() && es[i].k1@ == k
}

spec fn has2<V>(es: Seq<Entry<V>>, k: Seq<u8>) -> bool {
    exists|i: int| #![trigger es[i]] 0 <= i < es.len() && es[i].k2@ == k
}

spec fn distinct_keys<V>(es: Seq<Entry<V>>) -> bool {
    forall|i: int, j: int|
        #![trigger es[i], es[j]]
        0 <= i < es.len() && 0 <= j < es.len() && i != j ==> es[i].k1@ != es[j].k1@ && es[i].k2@
            != es[j].k2@
}

spec fn model<V>(es: Seq<Entry<V>>) -> Map<Seq<u8>, (Seq<u8>, V)> {
    Map::new(|k: Seq<u8>| has1(es, k), |k: Seq<u8>| (es[idx1(es, k)].k2@, es[idx1(es, k)].value))
}

proof fn lemma_entry_found<V>(es: Seq<Entry<V>>, i: int)
    requires
        distinct_keys(es),
        0 <= i < es.len(),
    ensures
        has1(es, es[i].k1@),
        has2(es, es[i].k2@),
        idx1(es, es[i].k1@) == i,
        model(es).contains_key(es[i].k1@),
        model(es)[es[i].k1@] == (es[i].k2@, es[i].value),
{
    let k = es[i].k1@;
    assert(es[i].k1@ == k);
    let j = idx1(es, k);
    assert(0 <= j < es.len() && es[j].k1@ == k);
    if j != i {
        assert(es[i].k1@ != es[j].k1@);
    }
}

proof fn lemma_model_push<V>(es: Seq<Entry<V>>, e: Entry<V>)
    requires
        distinct_keys(es),
        !has1(es, e.k1@),
        !has2(es, e.k2@),
    ensures
        distinct_keys(es.push(e)),
        model(es.push(e)) == model(es).insert(e.k1@, (e.k2@, e.value)),
{
    let es2 = es.push(e);
    assert forall|i: int, j: int|
        #![trigger es2[i], es2[j]]
        0 <= i < es2.len() && 0 <= j < es2.len() && i != j implies es2[i].k1@ != es2[j].k1@
        && es2[i].k2@ != es2[j].k2@ by {
        if i < es.len() && j < es.len() {
            assert(es[i].k1@ != es[j].k1@ && es[i].k2@ != es[j].k2@);
        } else if i < es.len() {
            assert(es[i].k1@ == es[i].k1@);
            assert(es[i].k2@ == es[i].k2@);
        } else {
            assert(es[j].k1@ == es[j].k1@);
            assert(es[j].k2@ == es[j].k2@);
        }
    }
    let target = model(es).insert(e.k1@, (e.k2@, e.value));
    assert forall|k: Seq<u8>| #[trigger] model(es2).contains_key(k) <==> target.contains_key(k) by {
        if has1(es2, k) {
            let i = idx1(es2, k);
            assert(es2[i].k1@ == k);
            if i < es.len() {
                assert(es[i].k1@ == k);
            }
        }
        if has1(es, k) {
            let i = idx1(es, k);
            assert(es2[i].k1@ == k);
        }
        if k == e.k1@ {
            assert(es2[es.len() as int].k1@ == k);
        }
    }
    assert forall|k: Seq<u8>| #[trigger] model(es2).contains_key(k) implies model(es2)[k]
        == target[k] by {
        let i = idx1(es2, k);
        assert(es2[i].k1@ == k);
        lemma_entry_found(es2, i);
        if i < es.len() {
            lemma_entry_found(es, i);
        }
    }
    assert(model(es2) =~= target);
}

proof fn lemma_model_remove<V>(es: Seq<Entry<V>>, i: int)
    requires
        distinct_keys(es),
        0 <= i < es.len(),
    ensures
        distinct_keys(es.remove(i)),
        model(es.remove(i)) == model(es).remove(es[i].k1@),
        !has2(es.remove(i), es[i].k2@),
{
    let es2 = es.remove(i);
    assert(es2.len() == es.len() - 1);
    assert forall|a: int, b: int|
        #![trigger es2[a], es2[b]]
        0 <= a < es2.len() && 0 <= b < es2.len() && a != b implies es2[a].k1@ != es2[b].k1@
        && es2[a].k2@ != es2[b].k2@ by {
        let oa = if a < i { a } else { a + 1 };
        let ob = if b < i { b } else { b + 1 };
        assert(es2[a] == es[oa]);
        assert(es2[b] == es[ob]);
        assert(es[oa].k1@ != es[ob].k1@ && es[oa].k2@ != es[ob].k2@);
    }
    let target = model(es).remove(es[i].k1@);
    assert forall|k: Seq<u8>| #[trigger] model(es2).contains_key(k) <==> target.contains_key(k) by {
        if has1(es2, k) {
            let a = idx1(es2, k);
            let oa = if a < i { a } else { a + 1 };
            assert(es2[a] == es[oa]);
            assert(es[oa].k1@ == k);
            assert(es[oa].k1@ != es[i].k1@);
        }
        if has1(es, k) && k != es[i].k1@ {
            let j = idx1(es, k);
            assert(es[j].k1@ == k);
            let a = if j < i { j } else { j - 1 };
            assert(es2[a] == es[j]);
            assert(es2[a].k1@ == k);
        }
    }
    assert forall|k: Seq<u8>| #[trigger] model(es2).contains_key(k) implies model(es2)[k]
        == target[k] by {
        let a = idx1(es2, k);
        assert(es2[a].k1@ == k);
        lemma_entry_found(es2, a);
        let oa = if a < i { a } else { a + 1 };
        assert(es2[a] == es[oa]);
        lemma_entry_found(es, oa);
    }
    assert(model(es2) =~= target);
    if has2(es2, es[i].k2@) {
        let a = choose|a: int| #![trigger es2[a]] 0 <= a < es2.len() && es2[a].k2@ == es[i].k2@;
        let oa = if a < i { a } else { a + 1 };
        assert(es2[a] == es[oa]);
        assert(es[oa].k1@ != es[i].k1@ && es[oa].k2@ != es[i].k2@);
    }
}

proof fn lemma_model_update<V>(es: Seq<Entry<V>>, i: int, e: Entry<V>)
    requires
        distinct_keys(es),
        0 <= i < es.len(),
        e.k1 == es[i].k1,
        e.k2 == es[i].k2,
    ensures
        distinct_keys(es.update(i, e)),
        model(es.update(i, e)) == model(es).insert(e.k1@, (e.k2@, e.value)),
{
    let es2 = es.update(i, e);
    assert forall|a: int, b: int|
        #![trigger es2[a], es2[b]]
        0 <= a < es2.len() && 0 <= b < es2.len() && a != b implies es2[a].k1@ != es2[b].k1@
        && es2[a].k2@ != es2[b].k2@ by {
        assert(es[a].k1@ != es[b].k1@ && es[a].k2@ != es[b].k2@);
    }
    let target = model(es).insert(e.k1@, (e.k2@, e.value));
    assert forall|k: Seq<u8>| #[trigger] model(es2).contains_key(k) <==> target.contains_key(k) by {
        if has1(es2, k) {
            let a = idx1(es2, k);
            assert(es[a].k1@ == k);
        }
        if has1(es, k) {
            let a = idx1(es, k);
            assert(es2[a].k1@ == k);
        }
        if k == e.k1@ {
            assert(es2[i].k1@ == k);
        }
    }
    assert forall|k: Seq<u8>| #[trigger] model(es2).contains_key(k) implies model(es2)[k]
        == target[k] by {
        let a = idx1(es2, k);
        assert(es2[a].k1@ == k);
        lemma_entry_found(es2, a);
        lemma_entry_found(es, a);
    }
    assert(model(es2) =~= target);
}

proof fn lemma_has2_is_model<V>(es: Seq<Entry<V>>, k2: Seq<u8>)
    requires
        distinct_keys(es),
    ensures
        has2(es, k2) <==> exists|k1: Seq<u8>| #[trigger]
            model(es).contains_key(k1) && model(es)[k1].0 == k2,
{
    if has2(es, k2) {
        let i = choose|i: int| #![trigger es[i]] 0 <= i < es.len() && es[i].k2@ == k2;
        lemma_entry_found(es, i);
        assert(model(es).contains_key(es[i].k1@) && model(es)[es[i].k1@].0 == k2);
    }
    if exists|k1: Seq<u8>| #[trigger] model(es).contains_key(k1) && model(es)[k1].0 == k2 {
        let k1 = choose|k1: Seq<u8>| #[trigger]
            model(es).contains_key(k1) && model(es)[k1].0 == k2;
        let i = idx1(es, k1);
        assert(es[i].k1@ == k1);
        assert(es[i].k2@ == k2);
    }
}

impl<V> View for MultiMap<V> {
    type V = Map<Seq<u8>, (Seq<u8>, V)>;

    /// The entries by first key: each first key with its second key and value.
    closed spec fn view(&self) -> Map<Seq<u8>, (Seq<u8>, V)> {
        model(self.entries@)
    }
}

impl<V> MultiMap<V> {
    /// The table's invariant: no first key and no second key occurs twice.
    pub closed spec fn wf(&self) -> bool {
        distinct_keys(self.entries@)
    }

    /// Whether an entry is stored under the first key `k1`.
    pub open spec fn contains_k1(&self, k1: Seq<u8>) -> bool {
        self@.contains_key(k1)
    }

    /// Whether an entry is stored under the second key `k2`.
    pub open spec fn contains_k2(&self, k2: Seq<u8>) -> bool {
        exists|k1: Seq<u8>| #[trigger] self@.contains_key(k1) && self@[k1].0 == k2
    }

    /// The first key of the entry stored under the second key `k2`.
    pub open spec fn k1_of(&self, k2: Seq<u8>) -> Seq<u8> {
        choose|k1: Seq<u8>| #[trigger] self@.contains_key(k1) && self@[k1].0 == k2
    }

    /// The value stored under the first key `k1`, if any.
    pub open spec fn spec_get1(&self, k1: Seq<u8>) -> Option<V> {
        if self.contains_k1(k1) {
            Some(self@[k1].1)
        } else {
            None
        }
    }

    /// The value stored under the second key `k2`, if any.
    pub open spec fn spec_get2(&self, k2: Seq<u8>) -> Option<V> {
        if self.contains_k2(k2) {
            Some(self@[self.k1_of(k2)].1)
        } else {
            None
        }
    }

    /// An empty table.
    pub fn new() -> (m: MultiMap<V>)
        ensures
            m.wf(),
            m@ == Map::<Seq<u8>, (Seq<u8>, V)>::empty(),
    {
        let m = MultiMap { entries: Vec::new() };
        assert(m@ =~= Map::<Seq<u8>, (Seq<u8>, V)>::empty());
        m
    }

    fn position1(&self, k1: &Digest) -> (at: Option<usize>)
        ensures
            match at {
                Some(i) => i < self.entries@.len() && self.entries@[i as int].k1@ == k1@,
                None => !has1(self.entries@, k1@),
            },
    {
        let n: usize = self.entries.len();
        let mut i: usize = 0;
        while i < n
            invariant
                n == self.entries@.len(),
                i <= n,
                forall|j: int| #![trigger self.entries@[j]] 0 <= j < i ==> self.entries@[j].k1@ != k1@,
            decreases n - i,
        {
            if digest_eq(&self.entries[i].k1, k1) {
                return Some(i);
            }
            i = i + 1;
        }
        None
    }

    fn position2(&self, k2: &Digest) -> (at: Option<usize>)
        ensures
            match at {
                Some(i) => i < self.entries@.len() && self.entries@[i as int].k2@ == k2@,
                None => !has2(self.entries@, k2@),
            },
    {
        let n: usize = self.entries.len();
        let mut i: usize = 0;
        while i < n
            invariant
                n == self.entries@.len(),
                i <= n,
                forall|j: int| #![trigger self.entries@[j]] 0 <= j < i ==> self.entries@[j].k2@ != k2@,
            decreases n - i,
        {
            if digest_eq(&self.entries[i].k2, k2) {
                return Some(i);
            }
            i = i + 1;
        }
        None
    }

    /// Stores `value` under the first key `k1` and the second key `k2`.
    ///
    /// When either key is already in use the table is left as it is and the
    /// value is handed back.
    pub fn insert(&mut self, k1: Digest, k2: Digest, value: V) -> (r: Result<(), V>)
        requires
            old(self).wf(),
        ensures
            final(self).wf(),
            old(self).contains_k1(k1@) || old(self).contains_k2(k2@) ==> r == Err::<(), V>(value)
                && final(self)@ == old(self)@,
            !old(self).contains_k1(k1@) && !old(self).contains_k2(k2@) ==> r.is_ok()
                && final(self)@ == old(self)@.insert(k1@, (k2@, value)),
    {
        proof {
            lemma_has2_is_model(self.entries@, k2@);
        }
        if self.position1(&k1).is_some() || self.position2(&k2).is_some() {
            return Err(value);
        }
        let e = Entry { k1, k2, value };
        proof {
            lemma_model_push(self.entries@, e);
        }
        self.entries.push(e);
        Ok(())
    }

    /// The value stored under the first key `k1`.
    pub fn get1(&self, k1: &Digest) -> (r: Option<&V>)
        requires
            self.wf(),
        ensures
            match r {
                Some(v) => self.spec_get1(k1@) == Some(*v),
                None => self.spec_get1(k1@).is_none(),
            },
    {
        match self.position1(k1) {
            Some(i) => {
                proof {
                    lemma_entry_found(self.entries@, i as int);
                }
                Some(&self.entries[i].value)
            },
            None => None,
        }
    }

    /// The value stored under the second key `k2`.
    pub fn get2(&self, k2: &Digest) -> (r: Option<&V>)
        requires
            self.wf(),
        ensures
            match r {
                Some(v) => self.spec_get2(k2@) == Some(*v),
                None => self.spec_get2(k2@).is_none(),
            },
    {
        proof {
            lemma_has2_is_model(self.entries@, k2@);
        }
        match self.position2(k2) {
            Some(i) => {
                proof {
                    lemma_entry_found(self.entries@, i as int);
                    self.lemma_k1_of(k2@, self.entries@[i as int].k1@);
                }
                Some(&self.entries[i].value)
            },
            None => None,
        }
    }

    /// The value stored under the second key `k2`, to be changed in place.
    /// The entry keeps both of its keys.
    pub fn get2_mut(&mut self, k2: &Digest) -> (r: Option<&mut V>)
        requires
            old(self).wf(),
        ensures
            final(self).wf(),
            match r {
                Some(v) => old(self).spec_get2(k2@) == Some(*v) && final(self)@ == old(self)@.insert(
                    old(self).k1_of(k2@),
                    (k2@, *final(v)),
                ),
                None => old(self).spec_get2(k2@).is_none() && final(self)@ == old(self)@,
            },
    {
        proof {
            lemma_has2_is_model(self.entries@, k2@);
        }
        match self.position2(k2) {
            Some(i) => {
                proof {
                    lemma_entry_found(self.entries@, i as int);
                    self.lemma_k1_of(k2@, self.entries@[i as int].k1@);
                }
                let ghost before = self.entries@;
                let e = &mut self.entries[i];
                let v = &mut e.value;
                proof {
                    let after = Entry {
                        k1: before[i as int].k1,
                        k2: before[i as int].k2,
                        value: *final(v),
                    };
                    lemma_model_update(before, i as int, after);
                }
                Some(v)
            },
            None => None,
        }
    }

    /// Removes the entry stored under the first key `k1` and returns its
    /// value. The entry is gone for its second key too.
    pub fn remove1(&mut self, k1: &Digest) -> (r: Option<V>)
        requires
            old(self).wf(),
        ensures
            final(self).wf(),
            r == old(self).spec_get1(k1@),
            final(self)@ == old(self)@.remove(k1@),
            old(self).contains_k1(k1@) ==> !final(self).contains_k2(old(self)@[k1@].0),
    {
        match self.position1(k1) {
            Some(i) => {
                proof {
                    lemma_entry_found(self.entries@, i as int);
                    lemma_model_remove(self.entries@, i as int);
                    lemma_has2_is_model(self.entries@.remove(i as int), self.entries@[i as int].k2@);
                }
                let e = self.entries.remove(i);
                Some(e.value)
            },
            None => {
                assert(self@ =~= self@.remove(k1@));
                None
            },
        }
    }

    /// Removes the entry stored under the second key `k2` and returns its
    /// value. The entry is gone for its first key too.
    pub fn remove2(&mut self, k2: &Digest) -> (r: Option<V>)
        requires
            old(self).wf(),
        ensures
            final(self).wf(),
            r == old(self).spec_get2(k2@),
            old(self).contains_k2(k2@) ==> final(self)@ == old(self)@.remove(old(self).k1_of(k2@)),
            !old(self).contains_k2(k2@) ==> final(self)@ == old(self)@,
            !final(self).contains_k2(k2@),
    {
        proof {
            lemma_has2_is_model(self.entries@, k2@);
        }
        match self.position2(k2) {
            Some(i) => {
                proof {
                    lemma_entry_found(self.entries@, i as int);
                    self.lemma_k1_of(k2@, self.entries@[i as int].k1@);
                    lemma_model_remove(self.entries@, i as int);
                    lemma_has2_is_model(self.entries@.remove(i as int), k2@);
                }
                let e = self.entries.remove(i);
                Some(e.value)
            },
            None => None,
        }
    }

    proof fn lemma_k1_of(&self, k2: Seq<u8>, k1: Seq<u8>)
        requires
            self.wf(),
            self@.contains_key(k1),
            self@[k1].0 == k2,
        ensures
            self.contains_k2(k2),
            self.k1_of(k2) == k1,
    {
        let other = self.k1_of(k2);
        assert(self@.contains_key(other) && self@[other].0 == k2);
        let i = idx1(self.entries@, k1);
        let j = idx1(self.entries@, other);
        assert(self.entries@[i].k1@ == k1);
        assert(self.entries@[j].k1@ == other);
        if i != j {
            assert(self.entries@[i].k2@ != self.entries@[j].k2@);
        }
    }

    /// Every entry is reachable by both of its keys, and by each key only
    /// that entry is reached: an entry found by its first key is the one found
    /// by its second key, an entry found by a second key is the one stored
    /// under its first key, and no second key belongs to two first keys.
    pub proof fn both_keys_reach_one_entry(&self)
        requires
            self.wf(),
        ensures
            forall|k1: Seq<u8>| #[trigger]
                self.contains_k1(k1) ==> self.contains_k2(self@[k1].0) && self.k1_of(self@[k1].0)
                    == k1 && self.spec_get2(self@[k1].0) == self.spec_get1(k1),
            forall|k2: Seq<u8>| #[trigger]
                self.contains_k2(k2) ==> self.contains_k1(self.k1_of(k2)) && self@[self.k1_of(
                    k2,
                )].0 == k2,
            forall|a: Seq<u8>, b: Seq<u8>|
                #![trigger self.contains_k1(a), self.contains_k1(b)]
                self.contains_k1(a) && self.contains_k1(b) && self@[a].0 == self@[b].0 ==> a == b,
    {
        assert forall|k1: Seq<u8>| #[trigger] self.contains_k1(k1) implies self.contains_k2(
            self@[k1].0,
        ) && self.k1_of(self@[k1].0) == k1 && self.spec_get2(self@[k1].0) == self.spec_get1(
            k1,
        ) by {
            self.lemma_k1_of(self@[k1].0, k1);
        }
        assert forall|a: Seq<u8>, b: Seq<u8>|
            #![trigger self.contains_k1(a), self.contains_k1(b)]
            self.contains_k1(a) && self.contains_k1(b) && self@[a].0 == self@[b].0 implies a
            == b by {
            self.lemma_k1_of(self@[a].0, a);
            self.lemma_k1_of(self@[b].0, b);
        }
    }
}

} // verus!
