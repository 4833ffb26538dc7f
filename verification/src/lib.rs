//! Ingestion core for a periodically published map of named areas: merging
//! per-entity descriptors, extracting typed fields from label-anchored markup,
//! building normalized town records, and a latest-wins snapshot store.

pub mod config;
pub mod currency;
pub mod dates;
pub mod extract;
pub mod merge;
pub mod pipeline;
pub mod repository;
pub mod text;
pub mod town;

use vstd::prelude::*;

verus! {

} // verus!
