//! A small persistence layer: one storage contract (`all`, `get`, `save`,
//! `find`) satisfied by three structurally different backends — a relational
//! store driven by SQLite, a sequential in-memory store keyed by insertion
//! position, and a hash-indexed in-memory store keyed by a random token.

pub mod entities;
pub mod mapping;
pub mod memory;
pub mod relational;
pub mod sql;
pub mod store;
pub mod usecases;

use vstd::prelude::*;

verus! {

/// The failure class of a storage operation. Absence of a record is never an
/// error: `get` signals it with `None`. These variants cover infrastructure
/// failures only.
#[derive(Debug, PartialEq, Eq)]
pub enum StoreError {
    /// The backend refused a statement or lost its connection; the payload is
    /// the backend's own description of the fault.
    Backend(String),
    /// A result row could not be turned back into an entity.
    RowMapping,
    /// The store generated an identity that it already holds.
    DuplicateIdentity,
}

} // verus!
