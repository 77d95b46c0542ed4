//! A small map: a list of entries, no key twice.
use vstd::prelude::*;

verus! {

/// Values that can be told apart.
pub trait Key: Copy {
    fn same(&self, other: &Self) -> (r: bool)
        ensures
            r == (*self == *other),
    ;
}

impl Key for u32 {
    fn same(&self, other: &Self) -> (r: bool) {
        *self == *other
    }
}

/// No key occurs twice.
pub open spec fn distinct<K, V>(entries: Seq<(K, V)>) -> bool {
    forall|i: int, j: int|
        #![trigger entries[i], entries[j]]
        0 <= i < j < entries.len() ==> entries[i].0 != entries[j].0
}

/// The entries as a map.
pub open spec fn to_map<K, V>(entries: Seq<(K, V)>) -> Map<K, V>
    decreases entries.len(),
{
    if entries.len() == 0 {
        Map::empty()
    } else {
        to_map(entries.drop_last()).insert(entries.last().0, entries.last().1)
    }
}

/// A map of distinct entries holds each of them, and nothing else.
pub proof fn lemma_to_map<K, V>(entries: Seq<(K, V)>)
    requires
        distinct(entries),
    ensures
        to_map(entries).dom().finite(),
        to_map(entries).dom().len() == entries.len(),
        forall|i: int|
            #![trigger entries[i]]
            0 <= i < entries.len() ==> to_map(entries).dom().contains(entries[i].0) && to_map(
                entries,
            )[entries[i].0] == entries[i].1,
        forall|k: K|
            #![trigger to_map(entries).dom().contains(k)]
            to_map(entries).dom().contains(k) ==> exists|i: int|
                0 <= i < entries.len() && (#[trigger] entries[i]).0 == k,
    decreases entries.len(),
{
    if entries.len() > 0 {
        let init = entries.drop_last();
        let last = entries.last();
        assert forall|i: int, j: int|
            #![trigger init[i], init[j]]
            0 <= i < j < init.len() implies init[i].0 != init[j].0 by {
            assert(entries[i] == init[i] && entries[j] == init[j]);
        }
        lemma_to_map(init);
        if to_map(init).dom().contains(last.0) {
            let i = choose|i: int| 0 <= i < init.len() && (#[trigger] init[i]).0 == last.0;
            assert(entries[i] == init[i]);
            assert(entries[entries.len() - 1] == last);
        }
        assert forall|i: int| #![trigger entries[i]] 0 <= i < entries.len() implies to_map(
            entries,
        ).dom().contains(entries[i].0) && to_map(entries)[entries[i].0] == entries[i].1 by {
            if i < init.len() {
                assert(entries[i] == init[i]);
                assert(entries[entries.len() - 1] == last);
            }
        }
        assert forall|k: K|
            #![trigger to_map(entries).dom().contains(k)]
            to_map(entries).dom().contains(k) implies exists|i: int|
            0 <= i < entries.len() && (#[trigger] entries[i]).0 == k by {
            if k == last.0 {
                assert(entries[entries.len() - 1].0 == k);
            } else {
                assert(to_map(init).dom().contains(k));
                let i = choose|i: int| 0 <= i < init.len() && (#[trigger] init[i]).0 == k;
                assert(entries[i] == init[i]);
            }
        }
    }
}

proof fn lemma_without<K, V>(entries: Seq<(K, V)>, at: int)
    requires
        distinct(entries),
        0 <= at < entries.len(),
    ensures
        distinct(entries.remove(at)),
        to_map(entries.remove(at)) == to_map(entries).remove(entries[at].0),
{
    let rest = entries.remove(at);
    assert forall|i: int, j: int|
        #![trigger rest[i], rest[j]]
        0 <= i < j < rest.len() implies rest[i].0 != rest[j].0 by {
        let oi = if i < at { i } else { i + 1 };
        let oj = if j < at { j } else { j + 1 };
        assert(rest[i] == entries[oi] && rest[j] == entries[oj]);
    }
    lemma_to_map(entries);
    lemma_to_map(rest);
    let key = entries[at].0;
    let whole = to_map(entries).remove(key);
    assert forall|k: K| #[trigger] whole.dom().contains(k) implies to_map(rest).dom().contains(k)
        && to_map(rest)[k] == whole[k] by {
        assert(to_map(entries).dom().contains(k));
        let i = choose|i: int| 0 <= i < entries.len() && (#[trigger] entries[i]).0 == k;
        let ri = if i < at { i } else { i - 1 };
        assert(rest[ri] == entries[i]);
    }
    assert forall|k: K| #[trigger] to_map(rest).dom().contains(k) implies whole.dom().contains(
        k,
    ) by {
        let i = choose|i: int| 0 <= i < rest.len() && (#[trigger] rest[i]).0 == k;
        let oi = if i < at { i } else { i + 1 };
        assert(rest[i] == entries[oi]);
        assert(entries[at].0 == key);
    }
    assert(to_map(rest).dom() =~= whole.dom());
    assert(to_map(rest) =~= whole);
}

proof fn lemma_replaced<K, V>(entries: Seq<(K, V)>, at: int, value: V)
    requires
        distinct(entries),
        0 <= at < entries.len(),
    ensures
        distinct(entries.update(at, (entries[at].0, value))),
        to_map(entries.update(at, (entries[at].0, value))) == to_map(entries).insert(
            entries[at].0,
            value,
        ),
{
    let key = entries[at].0;
    let changed = entries.update(at, (key, value));
    assert forall|i: int, j: int|
        #![trigger changed[i], changed[j]]
        0 <= i < j < changed.len() implies changed[i].0 != changed[j].0 by {
        assert(changed[i].0 == entries[i].0 && changed[j].0 == entries[j].0);
    }
    lemma_to_map(entries);
    lemma_to_map(changed);
    let whole = to_map(entries).insert(key, value);
    assert forall|k: K| #[trigger] whole.dom().contains(k) implies to_map(changed).dom().contains(
        k,
    ) && to_map(changed)[k] == whole[k] by {
        if k == key {
            assert(changed[at] == (key, value));
        } else {
            assert(to_map(entries).dom().contains(k));
            let i = choose|i: int| 0 <= i < entries.len() && (#[trigger] entries[i]).0 == k;
            assert(changed[i] == entries[i]);
        }
    }
    assert forall|k: K| #[trigger] to_map(changed).dom().contains(k) implies whole.dom().contains(
        k,
    ) by {
        let i = choose|i: int| 0 <= i < changed.len() && (#[trigger] changed[i]).0 == k;
        assert(changed[i].0 == entries[i].0);
    }
    assert(to_map(changed).dom() =~= whole.dom());
    assert(to_map(changed) =~= whole);
}

pub struct Table<K, V> {
    entries: Vec<(K, V)>,
}

impl<K, V> View for Table<K, V> {
    type V = Map<K, V>;

    closed spec fn view(&self) -> Map<K, V> {
        to_map(self.entries@)
    }
}

impl<K, V> Table<K, V> {
    #[verifier::type_invariant]
    spec fn keys_differ(self) -> bool {
        distinct(self.entries@)
    }
}

impl<K: Key, V> Table<K, V> {
    /// The entries as they lie.
    pub closed spec fn entries(&self) -> Seq<(K, V)> {
        self.entries@
    }

    pub fn new() -> (r: Self)
        ensures
            r@ == Map::<K, V>::empty(),
            r.entries() == Seq::<(K, V)>::empty(),
    {
        Table { entries: Vec::new() }
    }

    pub fn len(&self) -> (r: usize)
        ensures
            r == self@.dom().len(),
            r == self.entries().len(),
            self@.dom().finite(),
            distinct(self.entries()),
            self@ == to_map(self.entries()),
    {
        proof {
            use_type_invariant(self);
            lemma_to_map(self.entries@);
        }
        self.entries.len()
    }

    fn position(&self, key: &K) -> (r: Option<usize>)
        ensures
            match r {
                Some(i) => i < self.entries@.len() && self.entries@[i as int].0 == *key,
                None => !self@.dom().contains(*key),
            },
    {
        proof {
            use_type_invariant(self);
            lemma_to_map(self.entries@);
        }
        let mut i: usize = 0;
        while i < self.entries.len()
            invariant
                i <= self.entries@.len(),
                forall|j: int| 0 <= j < i ==> (#[trigger] self.entries@[j]).0 != *key,
                forall|k: K|
                    #![trigger to_map(self.entries@).dom().contains(k)]
                    to_map(self.entries@).dom().contains(k) ==> exists|i: int|
                        0 <= i < self.entries@.len() && (#[trigger] self.entries@[i]).0 == k,
            decreases self.entries.len() - i,
        {
            if self.entries[i].0.same(key) {
                return Some(i);
            }
            i += 1;
        }
        None
    }

    pub fn contains(&self, key: &K) -> (r: bool)
        ensures
            r == self@.dom().contains(*key),
    {
        proof {
            use_type_invariant(self);
            lemma_to_map(self.entries@);
        }
        self.position(key).is_some()
    }

    pub fn get(&self, key: &K) -> (r: Option<&V>)
        ensures
            match r {
                Some(v) => self@.dom().contains(*key) && *v == self@[*key],
                None => !self@.dom().contains(*key),
            },
    {
        proof {
            use_type_invariant(self);
            lemma_to_map(self.entries@);
        }
        match self.position(key) {
            Some(i) => Some(&self.entries[i].1),
            None => None,
        }
    }

    /// The key and the value at a place.
    pub fn nth(&self, i: usize) -> (r: (K, &V))
        requires
            i < self.entries().len(),
        ensures
            r.0 == self.entries()[i as int].0,
            *r.1 == self.entries()[i as int].1,
            self@.dom().contains(r.0),
            self@[r.0] == *r.1,
    {
        proof {
            use_type_invariant(self);
            lemma_to_map(self.entries@);
        }
        (self.entries[i].0, &self.entries[i].1)
    }

    /// The keys, each once.
    pub fn keys(&self) -> (r: Vec<K>)
        ensures
            r@.no_duplicates(),
            r@.to_set() == self@.dom(),
            forall|i: int| 0 <= i < r@.len() ==> self@.dom().contains(#[trigger] r@[i]),
            self@.dom().finite(),
    {
        proof {
            use_type_invariant(self);
            lemma_to_map(self.entries@);
        }
        let mut out: Vec<K> = Vec::new();
        let mut i: usize = 0;
        while i < self.entries.len()
            invariant
                i <= self.entries@.len(),
                out@.len() == i,
                forall|j: int| 0 <= j < i ==> #[trigger] out@[j] == self.entries@[j].0,
            decreases self.entries.len() - i,
        {
            out.push(self.entries[i].0);
            i += 1;
        }
        proof {
            assert forall|a: int, b: int|
                0 <= a < out@.len() && 0 <= b < out@.len() && a != b implies out@[a]
                != out@[b] by {
                let (low, high) = if a < b {
                    (a, b)
                } else {
                    (b, a)
                };
                assert(self.entries@[low].0 != self.entries@[high].0);
            }
            assert forall|i: int| 0 <= i < out@.len() implies self@.dom().contains(
                #[trigger] out@[i],
            ) by {
                assert(self@.dom().contains(self.entries@[i].0));
            }
            assert forall|k: K| #[trigger] out@.to_set().contains(k) == self@.dom().contains(k) by {
                if self@.dom().contains(k) {
                    assert(to_map(self.entries@).dom().contains(k));
                    let j = choose|j: int|
                        0 <= j < self.entries@.len() && (#[trigger] self.entries@[j]).0 == k;
                    assert(out@[j] == k);
                }
            }
            assert(out@.to_set() =~= self@.dom());
        }
        out
    }

    /// Takes the entries out, to put them back changed.
    fn take(&mut self) -> (r: Vec<(K, V)>)
        ensures
            r@ == old(self).entries(),
            distinct(r@),
    {
        proof {
            use_type_invariant(&*self);
        }
        let mut whole = Table { entries: Vec::new() };
        std::mem::swap(self, &mut whole);
        whole.entries
    }

    pub fn insert(&mut self, key: K, value: V)
        ensures
            final(self)@ == old(self)@.insert(key, value),
    {
        proof {
            use_type_invariant(&*self);
            lemma_to_map(self.entries@);
        }
        let at = self.position(&key);
        let mut entries = self.take();
        match at {
            Some(i) => {
                proof {
                    lemma_replaced(entries@, i as int, value);
                }
                entries.set(i, (key, value));
            },
            None => {
                proof {
                    let more = entries@.push((key, value));
                    assert(more.drop_last() =~= entries@);
                    assert forall|i: int, j: int|
                        #![trigger more[i], more[j]]
                        0 <= i < j < more.len() implies more[i].0 != more[j].0 by {
                        assert(more[i] == entries@[i]);
                        if j < entries@.len() {
                            assert(more[j] == entries@[j]);
                        }
                    }
                }
                entries.push((key, value));
            },
        }
        *self = Table { entries };
    }

    pub fn remove(&mut self, key: &K) -> (r: Option<V>)
        ensures
            final(self)@ == old(self)@.remove(*key),
            match r {
                Some(v) => old(self)@.dom().contains(*key) && v == old(self)@[*key],
                None => !old(self)@.dom().contains(*key),
            },
    {
        proof {
            use_type_invariant(&*self);
            lemma_to_map(self.entries@);
        }
        match self.position(key) {
            Some(i) => {
                let mut entries = self.take();
                proof {
                    lemma_without(entries@, i as int);
                }
                let (_key, value) = entries.remove(i);
                *self = Table { entries };
                Some(value)
            },
            None => {
                proof {
                    assert(self@.remove(*key) =~= self@);
                }
                None
            },
        }
    }
}

} // verus!
