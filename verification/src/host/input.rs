//! Keys that are held down.
use vstd::prelude::*;

verus! {

/// The keys stand in ascending order, no key twice.
pub open spec fn ascending(keys: Seq<u16>) -> bool {
    forall|i: int, j: int|
        #![trigger keys[i], keys[j]]
        0 <= i < j < keys.len() ==> keys[i] < keys[j]
}

/// A set of keys, kept in ascending order.
#[derive(Debug)]
pub struct KeySet {
    keys: Vec<u16>,
}

impl View for KeySet {
    type V = Set<u16>;

    closed spec fn view(&self) -> Set<u16> {
        self.keys@.to_set()
    }
}

impl KeySet {
    #[verifier::type_invariant]
    spec fn in_order(self) -> bool {
        ascending(self.keys@)
    }

    pub fn new() -> (r: Self)
        ensures
            r@ == Set::<u16>::empty(),
    {
        let keys: Vec<u16> = Vec::new();
        proof {
            assert(keys@.to_set() =~= Set::<u16>::empty());
        }
        KeySet { keys }
    }

    /// All keys in ascending order; none is left.
    pub fn take_all(&mut self) -> (r: Vec<u16>)
        ensures
            ascending(r@),
            r@.to_set() == old(self)@,
            final(self)@ == Set::<u16>::empty(),
    {
        proof {
            use_type_invariant(&*self);
        }
        let mut other = KeySet::new();
        std::mem::swap(self, &mut other);
        other.keys
    }

    pub fn insert(&mut self, key: u16)
        ensures
            final(self)@ == old(self)@.insert(key),
    {
        let mut keys = self.take_all();
        let ghost before = keys@;
        let mut at: usize = keys.len();
        while at > 0 && keys[at - 1] >= key
            invariant
                at <= keys@.len(),
                keys@ == before,
                ascending(before),
                forall|i: int| at <= i < before.len() ==> before[i] >= key,
            decreases at,
        {
            at -= 1;
        }
        if at < keys.len() && keys[at] == key {
            proof {
                assert(before.contains(key)) by {
                    assert(before[at as int] == key);
                }
                assert(before.to_set().insert(key) =~= before.to_set());
            }
        } else {
            keys.insert(at, key);
            proof {
                assert forall|i: int, j: int|
                    #![trigger keys@[i], keys@[j]]
                    0 <= i < j < keys@.len() implies keys@[i] < keys@[j] by {
                    let bi = if i < at { i } else { i - 1 };
                    let bj = if j < at { j } else { j - 1 };
                    if i != at {
                        assert(keys@[i] == before[bi]);
                    }
                    if j != at {
                        assert(keys@[j] == before[bj]);
                    }
                    if at < before.len() {
                        assert(before[at as int] != key);
                    }
                    if at > 0 {
                        assert(before[at - 1] < key);
                    }
                }
                assert forall|k: u16| #[trigger] keys@.to_set().contains(k)
                    == before.to_set().insert(key).contains(k) by {
                    if before.contains(k) {
                        let i = before.index_of(k);
                        let ki = if i < at { i } else { i + 1 };
                        assert(keys@[ki] == k);
                    }
                    if keys@.contains(k) && k != key {
                        let i = keys@.index_of(k);
                        let bi = if i < at { i } else { i - 1 };
                        assert(before[bi] == k);
                    }
                    if k == key {
                        assert(keys@[at as int] == k);
                    }
                }
                assert(keys@.to_set() =~= before.to_set().insert(key));
            }
        }
        *self = KeySet { keys };
    }

    pub fn remove(&mut self, key: u16)
        ensures
            final(self)@ == old(self)@.remove(key),
    {
        let mut keys = self.take_all();
        let ghost before = keys@;
        let mut at: usize = 0;
        while at < keys.len() && keys[at] < key
            invariant
                at <= keys@.len(),
                keys@ == before,
                ascending(before),
                forall|i: int| 0 <= i < at ==> before[i] < key,
            decreases keys.len() - at,
        {
            at += 1;
        }
        if at < keys.len() && keys[at] == key {
            let _ = keys.remove(at);
            proof {
                assert forall|i: int, j: int|
                    #![trigger keys@[i], keys@[j]]
                    0 <= i < j < keys@.len() implies keys@[i] < keys@[j] by {
                    let bi = if i < at { i } else { i + 1 };
                    let bj = if j < at { j } else { j + 1 };
                    assert(keys@[i] == before[bi] && keys@[j] == before[bj]);
                }
                assert forall|k: u16| #[trigger] keys@.to_set().contains(k)
                    == before.to_set().remove(key).contains(k) by {
                    if before.contains(k) && k != key {
                        let i = before.index_of(k);
                        let ki = if i < at { i } else { i - 1 };
                        assert(keys@[ki] == k);
                    }
                    if keys@.contains(k) {
                        let i = keys@.index_of(k);
                        let bi = if i < at { i } else { i + 1 };
                        assert(before[bi] == k);
                        assert(before[at as int] == key);
                    }
                }
                assert(keys@.to_set() =~= before.to_set().remove(key));
            }
        } else {
            proof {
                if before.contains(key) {
                    let i = before.index_of(key);
                    if at < before.len() {
                        assert(before[at as int] > key);
                    }
                }
                assert(before.to_set().remove(key) =~= before.to_set());
            }
        }
        *self = KeySet { keys };
    }
}

} // verus!
