//! The application state injected into request handling.
//!
//! The state owns the storage backend by value and is handed to each
//! operation explicitly — no ambient or global store — so the core stays
//! testable without a framework.  Credential parsing and validation, like
//! routing, live outside this crate: the core only ever consumes an
//! already-verified [`crate::identity::Identity`].

use vstd::prelude::*;

use crate::data_source::InMemoryStore;

verus! {

/// State shared by all request handlers.
#[derive(Debug)]
pub struct AppState {
    pub storage: InMemoryStore,
}

impl AppState {
    /// Wraps a storage backend for injection into request handling.
    pub fn new(storage: InMemoryStore) -> (s: Self)
        ensures
            s.storage == storage,
    {
        Self { storage }
    }
}

} // verus!
