//! An insertion-ordered table keyed by interned names. Registration
//! order is kept, every key is registered at most once, and lookups are
//! described against a mathematical `Map` view. The grammar tables and
//! the type registry are built on this.

use vstd::prelude::*;
use crate::intern::InternedString;

verus! {

/// The map described by parallel key and value sequences: later entries
/// win, though a well-formed table never repeats a key.
pub open spec fn map_of<V>(keys: Seq<InternedString>, vals: Seq<V>) -> Map<
    InternedString,
    V,
>
    decreases keys.len(),
{
    if keys.len() == 0 || vals.len() == 0 {
        Map::empty()
    } else {
        map_of(keys.drop_last(), vals.drop_last()).insert(keys.last(), vals.last())
    }
}

/// With as many values as keys, the map's domain is exactly the keys,
/// and each key is bound to the value registered with it (keys distinct).
pub proof fn lemma_map_of<V>(keys: Seq<InternedString>, vals: Seq<V>)
    requires
        keys.len() == vals.len(),
        forall|i: int, j: int| 0 <= i < j < keys.len() ==> keys[i] != keys[j],
    ensures
        forall|k: InternedString| #[trigger]
            map_of(keys, vals).contains_key(k) <==> keys.contains(k),
        forall|i: int|
            0 <= i < keys.len() ==> #[trigger] map_of(keys, vals)[keys[i]] == vals[i],
    decreases keys.len(),
{
    if keys.len() > 0 {
        lemma_map_of(keys.drop_last(), vals.drop_last());
        assert forall|k: InternedString| #[trigger]
            map_of(keys, vals).contains_key(k) implies keys.contains(k) by {
            if k == keys.last() {
                assert(keys[keys.len() - 1] == k);
            } else {
                assert(map_of(keys, vals) == map_of(keys.drop_last(), vals.drop_last()).insert(
                    keys.last(),
                    vals.last(),
                ));
                assert(map_of(keys.drop_last(), vals.drop_last()).contains_key(k));
                assert(keys.drop_last().contains(k));
                let i = choose|i: int|
                    0 <= i < keys.drop_last().len() && keys.drop_last()[i] == k;
                assert(keys[i] == k);
            }
        }
        assert forall|k: InternedString| keys.contains(k) implies #[trigger] map_of(
            keys,
            vals,
        ).contains_key(k) by {
            let i = choose|i: int| 0 <= i < keys.len() && keys[i] == k;
            assert(map_of(keys, vals) == map_of(keys.drop_last(), vals.drop_last()).insert(
                keys.last(),
                vals.last(),
            ));
            if i < keys.len() - 1 {
                assert(keys.drop_last()[i] == k);
                assert(keys.drop_last().contains(k));
                assert(map_of(keys.drop_last(), vals.drop_last()).contains_key(k));
            } else {
                assert(k == keys.last());
            }
        }
        assert forall|i: int| 0 <= i < keys.len() implies #[trigger] map_of(keys, vals)[keys[i]]
            == vals[i] by {
            assert(map_of(keys, vals) == map_of(keys.drop_last(), vals.drop_last()).insert(
                keys.last(),
                vals.last(),
            ));
            if i < keys.len() - 1 {
                assert(keys[i] != keys.last());
                assert(keys.drop_last()[i] == keys[i] && vals.drop_last()[i] == vals[i]);
                assert(map_of(keys.drop_last(), vals.drop_last())[keys.drop_last()[i]]
                    == vals.drop_last()[i]);
            }
        }
    }
}

/// A table from interned names to values, in registration order.
pub struct InternMap<V> {
    keys: Vec<InternedString>,
    vals: Vec<V>,
}

impl<V> InternMap<V> {
    /// The keys, in registration order.
    pub closed spec fn key_seq(&self) -> Seq<InternedString> {
        self.keys@
    }

    /// The values, in registration order.
    pub closed spec fn val_seq(&self) -> Seq<V> {
        self.vals@
    }

    /// One value per key, and no key registered twice.
    pub open spec fn wf(&self) -> bool {
        &&& self.key_seq().len() == self.val_seq().len()
        &&& forall|i: int, j: int|
            0 <= i < j < self.key_seq().len() ==> self.key_seq()[i] != self.key_seq()[j]
    }

    /// The table as a mathematical map.
    pub open spec fn as_map(&self) -> Map<InternedString, V> {
        map_of(self.key_seq(), self.val_seq())
    }

    /// Whether a key is registered.
    pub open spec fn spec_contains(&self, k: InternedString) -> bool {
        self.key_seq().contains(k)
    }

    /// Relates the map view to the key and value sequences.
    pub proof fn lemma_view(&self)
        requires
            self.wf(),
        ensures
            forall|k: InternedString| #[trigger]
                self.as_map().contains_key(k) <==> self.key_seq().contains(k),
            forall|i: int|
                0 <= i < self.key_seq().len() ==> #[trigger] self.as_map()[self.key_seq()[i]]
                    == self.val_seq()[i],
    {
        lemma_map_of(self.keys@, self.vals@);
    }

    pub fn new() -> (r: InternMap<V>)
        ensures
            r.wf(),
            r.key_seq() =~= Seq::<InternedString>::empty(),
            r.val_seq() =~= Seq::<V>::empty(),
            r.as_map() =~= Map::<InternedString, V>::empty(),
    {
        InternMap { keys: Vec::new(), vals: Vec::new() }
    }

    /// How many keys are registered.
    pub fn len(&self) -> (r: usize)
        ensures
            r == self.key_seq().len(),
    {
        self.keys.len()
    }

    /// The key registered at a position.
    pub fn key_at(&self, i: usize) -> (r: InternedString)
        requires
            i < self.key_seq().len(),
        ensures
            r == self.key_seq()[i as int],
    {
        self.keys[i]
    }

    /// The value registered at a position.
    pub fn val_at(&self, i: usize) -> (r: &V)
        requires
            i < self.val_seq().len(),
        ensures
            *r == self.val_seq()[i as int],
    {
        &self.vals[i]
    }

    /// Registers a value under a fresh key. Registering a key twice is
    /// a construction defect: the precondition excludes it, and an
    /// unverified caller that does it anyway is stopped rather than
    /// allowed to overwrite.
    pub fn insert(&mut self, k: InternedString, v: V)
        requires
            old(self).wf(),
            !old(self).spec_contains(k),
        ensures
            final(self).wf(),
            final(self).key_seq() == old(self).key_seq().push(k),
            final(self).val_seq() == old(self).val_seq().push(v),
            final(self).as_map() == old(self).as_map().insert(k, v),
    {
        if self.contains_key(k) {
            proof {
                assert(false);
            }
            unreached()
        }
        self.keys.push(k);
        self.vals.push(v);
        proof {
            assert(self.keys@.drop_last() =~= old(self).keys@);
            assert(self.vals@.drop_last() =~= old(self).vals@);
            assert forall|i: int, j: int|
                0 <= i < j < self.keys@.len() implies self.keys@[i] != self.keys@[j] by {
                if j == self.keys@.len() - 1 {
                    assert(old(self).keys@[i] == self.keys@[i]);
                    assert(old(self).key_seq().contains(self.keys@[i]));
                }
            }
        }
    }

    /// Whether a key is registered.
    #[verifier::loop_isolation(false)]
    pub fn contains_key(&self, k: InternedString) -> (r: bool)
        ensures
            r == self.spec_contains(k),
    {
        let mut i: usize = 0;
        while i < self.keys.len()
            invariant
                i <= self.keys@.len(),
                forall|j: int| 0 <= j < i ==> self.keys@[j] != k,
            decreases self.keys@.len() - i,
        {
            if self.keys[i] == k {
                return true;
            }
            i = i + 1;
        }
        false
    }

    /// The value registered under a key, if any.
    #[verifier::loop_isolation(false)]
    pub fn get(&self, k: InternedString) -> (r: Option<&V>)
        requires
            self.wf(),
        ensures
            match r {
                Some(v) => self.spec_contains(k) && *v == self.as_map()[k],
                None => !self.spec_contains(k),
            },
    {
        proof {
            self.lemma_view();
        }
        let mut i: usize = 0;
        while i < self.keys.len()
            invariant
                i <= self.keys@.len(),
                forall|j: int| 0 <= j < i ==> self.keys@[j] != k,
            decreases self.keys@.len() - i,
        {
            if self.keys[i] == k {
                return Some(&self.vals[i]);
            }
            i = i + 1;
        }
        None
    }

    /// The value registered under a key that is known to be registered.
    pub fn index(&self, k: InternedString) -> (r: &V)
        requires
            self.wf(),
            self.spec_contains(k),
        ensures
            *r == self.as_map()[k],
    {
        let r = self.get(k);
        match r {
            Some(v) => v,
            None => {
                proof {
                    assert(false);
                }
                unreached()
            },
        }
    }
}

} // verus!
