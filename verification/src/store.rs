//! The backend-agnostic storage contract. Every store implements the same
//! operation set; what each operation promises is given by the store's own
//! definition of the `*_post` spec functions, so that structurally different
//! backends (sequential, hash-indexed, relational) can state exactly as much
//! as their storage scheme lets them prove.

use vstd::prelude::*;

use crate::StoreError;

verus! {

/// An entity type that carries a closed enumeration of credential shapes by
/// which it may be searched.
pub trait Searchable {
    type Credentials;
}

/// The uniform storage contract: enumerate all records, fetch one by
/// identity, persist a copy and get a fresh identity back.
///
/// The identity type is chosen by the store and identities of different
/// stores are never interchangeable. Absence of a record is a success
/// (`Ok(None)`), never an error; the error branch carries infrastructure
/// failures only.
pub trait Repository<T>: Sized {
    type Id;

    /// What `all` may return on this store.
    spec fn all_post(&self, r: Result<Vec<T>, StoreError>) -> bool;

    /// What `get` may return on this store for the given identity.
    spec fn get_post(&self, id: Self::Id, r: Result<Option<T>, StoreError>) -> bool;

    /// How a completed `save` relates the store before the call (`self`),
    /// the store after it (`post`), the saved value and the result.
    spec fn save_post(&self, post: Self, data: T, r: Result<Self::Id, StoreError>) -> bool;

    /// Every stored record, in a backend-defined order.
    fn all(&self) -> (r: Result<Vec<T>, StoreError>)
        ensures
            self.all_post(r),
    ;

    /// The single record stored under `id`, or `None` if there is none.
    fn get(&self, id: &Self::Id) -> (r: Result<Option<T>, StoreError>)
        ensures
            self.get_post(*id, r),
    ;

    /// Persist a copy of `data` and return the fresh identity assigned to
    /// it. A record already stored is never mutated.
    fn save(&mut self, data: &T) -> (r: Result<Self::Id, StoreError>)
        ensures
            old(self).save_post(*final(self), *data, r),
    ;
}

/// The extension of the storage contract for stores that can search:
/// `find` returns the records matching the conjunction of all given
/// credentials, optionally capped at `limit` records.
pub trait SearchableRepository<T: Searchable>: Repository<T> {
    /// What `find` may return on this store for the given credential list
    /// and cap.
    spec fn find_post(
        &self,
        creds: Seq<T::Credentials>,
        limit: Option<u32>,
        r: Result<Vec<T>, StoreError>,
    ) -> bool;

    /// Records matching every credential in `credentials` (an empty list
    /// matches everything), at most `limit` of them if a cap is given.
    fn find(&self, credentials: &[T::Credentials], limit: Option<u32>) -> (r: Result<
        Vec<T>,
        StoreError,
    >)
        ensures
            self.find_post(credentials@, limit, r),
    ;
}

} // verus!
