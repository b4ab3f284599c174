//! Backend composition: one aggregate store owning a per-entity access
//! interface for each record kind.
//!
//! The aggregate is the seam that lets a storage backend be swapped
//! without touching authorization logic: request handling obtains
//! whichever narrow per-entity store an operation needs, and those
//! stores' contracts are the only thing either side depends on.

use vstd::prelude::*;

use crate::report::ReportStore;
use crate::resource::ResourceStore;
use crate::ven::VenStore;

verus! {

/// The concrete in-memory data source: one store per entity kind.
#[derive(Debug)]
pub struct InMemoryStore {
    pub vens: VenStore,
    pub resources: ResourceStore,
    pub reports: ReportStore,
}

impl InMemoryStore {
    /// All per-entity stores satisfy their invariants.
    pub open spec fn wf(&self) -> bool {
        &&& self.vens.wf()
        &&& self.resources.wf()
        &&& self.reports.wf()
    }

    /// An empty data source.
    pub fn new() -> (s: InMemoryStore)
        ensures
            s.wf(),
            s.vens.vens().len() == 0,
            s.resources.resources().len() == 0,
            s.reports.reports().len() == 0,
    {
        InMemoryStore { vens: VenStore::new(), resources: ResourceStore::new(), reports: ReportStore::new() }
    }
}

} // verus!
