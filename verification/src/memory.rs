//! The two in-memory backends. Both satisfy the uniform storage contract
//! with value semantics: a saved record is an independent copy, so mutating
//! the caller's value afterwards never changes what a later `get` or `all`
//! returns.

use vstd::prelude::*;

use crate::store::Repository;
use crate::StoreError;

use std::collections::HashMap;

verus! {

broadcast use vstd::std_specs::hash::group_hash_axioms;

/// The sequential store: an ordered, growable list. The identity of a
/// record is its position at insertion time, so `all` returns records in
/// insertion order and identities are handed out as 0, 1, 2, ...
pub struct TrivialRepository<T: Clone> {
    pub items: Vec<T>,
}

impl<T: Clone> View for TrivialRepository<T> {
    type V = Seq<T>;

    open spec fn view(&self) -> Seq<T> {
        self.items@
    }
}

impl<T: Clone> TrivialRepository<T> {
    /// An empty sequential store.
    pub fn new() -> (s: Self)
        ensures
            s@.len() == 0,
    {
        TrivialRepository { items: Vec::new() }
    }
}

impl<T: Clone> Repository<T> for TrivialRepository<T> {
    type Id = usize;

    /// `all` never fails and returns a copy of every record, in insertion
    /// order.
    open spec fn all_post(&self, r: Result<Vec<T>, StoreError>) -> bool {
        match r {
            Ok(v) => v@.len() == self@.len() && (forall|i: int|
                0 <= i < self@.len() ==> cloned(self@[i], #[trigger] v@[i])),
            Err(_) => false,
        }
    }

    /// `get` never fails: it returns a copy of the record at position `id`,
    /// or `None` exactly when no record was ever saved under `id`.
    open spec fn get_post(&self, id: usize, r: Result<Option<T>, StoreError>) -> bool {
        match r {
            Ok(o) => match o {
                Some(v) => id < self@.len() && cloned(self@[id as int], v),
                None => id >= self@.len(),
            },
            Err(_) => false,
        }
    }

    /// `save` never fails: it appends a copy of the value and returns the
    /// position it was stored at, which is the store's size before the call.
    open spec fn save_post(&self, post: Self, data: T, r: Result<usize, StoreError>) -> bool {
        match r {
            Ok(id) => {
                &&& id == self@.len()
                &&& post@.len() == self@.len() + 1
                &&& (forall|i: int| 0 <= i < self@.len() ==> post@[i] == self@[i])
                &&& cloned(data, post@[id as int])
            },
            Err(_) => false,
        }
    }

    fn all(&self) -> (r: Result<Vec<T>, StoreError>) {
        let mut out: Vec<T> = Vec::new();
        let mut i: usize = 0;
        while i < self.items.len()
            invariant
                i <= self.items.len(),
                out@.len() == i,
                forall|j: int| 0 <= j < i ==> cloned(self@[j], #[trigger] out@[j]),
            decreases self.items.len() - i,
        {
            out.push(self.items[i].clone());
            i += 1;
        }
        Ok(out)
    }

    fn get(&self, id: &usize) -> (r: Result<Option<T>, StoreError>) {
        if *id < self.items.len() {
            Ok(Some(self.items[*id].clone()))
        } else {
            Ok(None)
        }
    }

    fn save(&mut self, data: &T) -> (r: Result<usize, StoreError>) {
        let id = self.items.len();
        self.items.push(data.clone());
        Ok(id)
    }
}

/// The hash-indexed store: a mapping from a randomly generated 128-bit
/// token to the stored value. `save` draws a fresh token; should the
/// generator ever repeat one held by this store, the save is refused with
/// [`StoreError::DuplicateIdentity`] rather than overwriting the record.
pub struct HashRepository<T: Clone> {
    map: HashMap<u128, T>,
    order: Vec<u128>,
}

impl<T: Clone> View for HashRepository<T> {
    type V = Map<u128, T>;

    closed spec fn view(&self) -> Map<u128, T> {
        self.map@
    }
}

impl<T: Clone> HashRepository<T> {
    #[verifier::type_invariant]
    spec fn inv(self) -> bool {
        self.order@.no_duplicates() && self.order@.to_set() == self.map@.dom()
    }

    /// An empty hash-indexed store.
    pub fn new() -> (s: Self)
        ensures
            s@ == Map::<u128, T>::empty(),
    {
        let map: HashMap<u128, T> = HashMap::new();
        let order: Vec<u128> = Vec::new();
        proof {
            assert(order@.to_set() =~= map@.dom());
        }
        HashRepository { map, order }
    }

    /// The deterministic part of a save: store a copy of `data` under the
    /// given token. The save completes exactly when this store does not
    /// hold the token yet; a token it already holds is refused, and the
    /// store is left unchanged — a record is never overwritten.
    pub fn save_under(&mut self, token: u128, data: &T) -> (r: Result<u128, StoreError>)
        ensures
            old(self)@.dom().contains(token) ==> (r matches Err(e) && e
                matches StoreError::DuplicateIdentity && final(self)@ == old(self)@),
            !old(self)@.dom().contains(token) ==> (r matches Ok(id) && id == token && (exists|
                c: T,
            |
                cloned(*data, c) && final(self)@ == #[trigger] old(self)@.insert(token, c))),
    {
        proof {
            use_type_invariant(&*self);
        }
        if self.map.contains_key(&token) {
            return Err(StoreError::DuplicateIdentity);
        }
        let copy = data.clone();
        let empty_map: HashMap<u128, T> = HashMap::new();
        let empty_order: Vec<u128> = Vec::new();
        proof {
            assert(empty_order@.to_set() =~= empty_map@.dom());
        }
        let mut tmp = HashRepository { map: empty_map, order: empty_order };
        std::mem::swap(&mut tmp, self);
        let HashRepository { mut map, mut order } = tmp;
        map.insert(token, copy);
        order.push(token);
        proof {
            let o0 = old(self).order@;
            assert(order@ == o0.push(token));
            assert(!o0.to_set().contains(token));
            assert(forall|i: int| 0 <= i < o0.len() ==> o0.contains(#[trigger] o0[i]));
            assert(order@.no_duplicates());
            assert forall|x: u128| order@.to_set().contains(x) implies map@.dom().contains(
                x,
            ) by {
                assert(order@.contains(x));
                let i = choose|i: int| 0 <= i < order@.len() && order@[i] == x;
                if i < o0.len() {
                    assert(o0.contains(x));
                    assert(o0.to_set().contains(x));
                }
            }
            assert forall|x: u128| map@.dom().contains(x) implies order@.to_set().contains(
                x,
            ) by {
                if x == token {
                    assert(order@[o0.len() as int] == x);
                    assert(order@.contains(x));
                } else {
                    assert(o0.to_set().contains(x));
                    assert(o0.contains(x));
                    let i = choose|i: int| 0 <= i < o0.len() && o0[i] == x;
                    assert(order@[i] == x);
                    assert(order@.contains(x));
                }
            }
            assert(order@.to_set() =~= map@.dom());
        }
        *self = HashRepository { map, order };
        proof {
            assert(cloned(*data, copy));
            assert(self@ == old(self)@.insert(token, copy));
            assert(!old(self)@.dom().contains(token));
        }
        Ok(token)
    }
}

/// Relies on `uuid::Uuid::new_v4`: a freshly generated random (version 4)
/// token, returned as its 128-bit value. Nothing is assumed of the result —
/// in particular not uniqueness, which the caller must check for itself.
#[verifier::external_body]
fn fresh_token() -> u128 {
    uuid::Uuid::new_v4().as_u128()
}

impl<T: Clone> Repository<T> for HashRepository<T> {
    type Id = u128;

    /// `all` never fails and returns a copy of every record, in an
    /// unspecified order: some duplicate-free enumeration of the store's
    /// keys lists exactly the records returned.
    open spec fn all_post(&self, r: Result<Vec<T>, StoreError>) -> bool {
        match r {
            Ok(v) => exists|ks: Seq<u128>|
                {
                    &&& ks.no_duplicates()
                    &&& ks.len() == v@.len()
                    &&& (forall|i: int|
                        0 <= i < ks.len() ==> self@.dom().contains(#[trigger] ks[i]) && cloned(
                            self@[ks[i]],
                            v@[i],
                        ))
                    &&& (forall|k: u128| self@.dom().contains(k) ==> ks.contains(k))
                },
            Err(_) => false,
        }
    }

    /// `get` never fails: it returns a copy of the record stored under the
    /// token, or `None` exactly when this store never issued the token.
    open spec fn get_post(&self, id: u128, r: Result<Option<T>, StoreError>) -> bool {
        match r {
            Ok(o) => match o {
                Some(v) => self@.dom().contains(id) && cloned(self@[id], v),
                None => !self@.dom().contains(id),
            },
            Err(_) => false,
        }
    }

    /// A completed `save` stored a copy of the value under a token the
    /// store did not hold before; a failed one left the store unchanged and
    /// reported a duplicate generated identity — which can only happen to
    /// a store that already holds at least one record. On an empty store a
    /// save always completes.
    open spec fn save_post(&self, post: Self, data: T, r: Result<u128, StoreError>) -> bool {
        match r {
            Ok(id) => {
                &&& !self@.dom().contains(id)
                &&& exists|c: T| cloned(data, c) && post@ == #[trigger] self@.insert(id, c)
            },
            Err(e) => {
                &&& e matches StoreError::DuplicateIdentity
                &&& post@ == self@
                &&& exists|k: u128| self@.dom().contains(k)
            },
        }
    }

    fn all(&self) -> (r: Result<Vec<T>, StoreError>) {
        proof {
            use_type_invariant(&*self);
        }
        let mut out: Vec<T> = Vec::new();
        let mut i: usize = 0;
        while i < self.order.len()
            invariant
                self.inv(),
                i <= self.order.len(),
                out@.len() == i,
                forall|j: int|
                    0 <= j < i ==> self@.dom().contains(self.order@[j]) && cloned(
                        self@[self.order@[j]],
                        #[trigger] out@[j],
                    ),
            decreases self.order.len() - i,
        {
            proof {
                assert(self.order@.to_set().contains(self.order@[i as int]));
            }
            match self.map.get(&self.order[i]) {
                Some(t) => out.push(t.clone()),
                None => {
                    proof {
                        assert(false);
                    }
                },
            }
            i += 1;
        }
        proof {
            let ks = self.order@;
            assert(forall|k: u128| self@.dom().contains(k) ==> ks.to_set().contains(k));
            assert(forall|k: u128| ks.to_set().contains(k) ==> ks.contains(k));
        }
        Ok(out)
    }

    fn get(&self, id: &u128) -> (r: Result<Option<T>, StoreError>) {
        match self.map.get(id) {
            Some(t) => Ok(Some(t.clone())),
            None => Ok(None),
        }
    }

    fn save(&mut self, data: &T) -> (r: Result<u128, StoreError>) {
        let token = fresh_token();
        let r = self.save_under(token, data);
        proof {
            if r is Err {
                assert(old(self)@.dom().contains(token));
            }
        }
        r
    }
}

/// Law (round trip, sequential store): whatever value a completed `save`
/// stored and whatever a following `get` under the returned identity gave
/// back, the fetched value is a copy of a copy of the saved one.
pub proof fn lemma_round_trip_sequential<T: Clone>(
    store: TrivialRepository<T>,
    post: TrivialRepository<T>,
    data: T,
    id: usize,
    r: Result<Option<T>, StoreError>,
)
    requires
        store.save_post(post, data, Ok(id)),
        post.get_post(id, r),
    ensures
        r matches Ok(o) && o matches Some(v) && cloned(data, post@[id as int]) && cloned(
            post@[id as int],
            v,
        ),
{
}

/// Law (round trip, hash-indexed store): whatever value a completed `save`
/// stored and whatever a following `get` under the returned token gave
/// back, the fetched value is a copy of a copy of the saved one.
pub proof fn lemma_round_trip_hash<T: Clone>(
    store: HashRepository<T>,
    post: HashRepository<T>,
    data: T,
    id: u128,
    r: Result<Option<T>, StoreError>,
)
    requires
        store.save_post(post, data, Ok(id)),
        post.get_post(id, r),
    ensures
        r matches Ok(o) && o matches Some(v) && cloned(data, post@[id]) && cloned(post@[id], v),
{
    let c = choose|c: T| cloned(data, c) && post@ == store@.insert(id, c);
    assert(post@.dom().contains(id));
    assert(post@[id] == c);
}

/// Law (identity uniqueness, sequential store): a completed save returns
/// the store's size at its moment and grows the store by one, so the
/// identities of any two saves in a sequence differ — each later save
/// sees a strictly larger store and returns a strictly larger identity.
pub proof fn lemma_ids_distinct_sequential<T: Clone>(
    s1: TrivialRepository<T>,
    p1: TrivialRepository<T>,
    d1: T,
    id1: usize,
    s2: TrivialRepository<T>,
    p2: TrivialRepository<T>,
    d2: T,
    id2: usize,
)
    requires
        s1.save_post(p1, d1, Ok(id1)),
        s2.save_post(p2, d2, Ok(id2)),
        s1@.len() < s2@.len(),
    ensures
        id1 < id2,
{
}

/// Law (identity uniqueness, hash-indexed store): a completed save's token
/// was not in the store, every token already present stays present, and
/// the fresh token joins them — so over any sequence of saves into one
/// store the returned tokens are pairwise distinct.
pub proof fn lemma_ids_distinct_hash<T: Clone>(
    store: HashRepository<T>,
    post: HashRepository<T>,
    data: T,
    id: u128,
    prior: u128,
)
    requires
        store.save_post(post, data, Ok(id)),
        store@.dom().contains(prior),
    ensures
        id != prior,
        post@.dom().contains(prior),
        post@.dom().contains(id),
{
    let c = choose|c: T| cloned(data, c) && post@ == store@.insert(id, c);
}

/// Law (absence is not failure, sequential store): `get` under an identity
/// this store never issued returns `Ok(None)` — never an error.
pub proof fn lemma_absence_sequential<T: Clone>(
    store: TrivialRepository<T>,
    id: usize,
    r: Result<Option<T>, StoreError>,
)
    requires
        id >= store@.len(),
        store.get_post(id, r),
    ensures
        r matches Ok(o) && o is None,
{
}

/// Law (absence is not failure, hash-indexed store): `get` under a token
/// this store never issued returns `Ok(None)` — never an error.
pub proof fn lemma_absence_hash<T: Clone>(
    store: HashRepository<T>,
    id: u128,
    r: Result<Option<T>, StoreError>,
)
    requires
        !store@.dom().contains(id),
        store.get_post(id, r),
    ensures
        r matches Ok(o) && o is None,
{
}

} // verus!
