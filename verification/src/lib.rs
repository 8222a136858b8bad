//! An embedded browsing-history core: pages, visits, and the reconciliation
//! pipeline that turns one observed navigation event into durable page state.
//!
//! The store keeps one `PageInfo` row per distinct normalized URL and one
//! immutable `VisitRow` per recorded navigation. `storage::apply_observation`
//! applies a single `VisitObservation` atomically: it resolves or creates the
//! page, stages the title / hidden / typed updates, inserts the visit, and
//! recomputes the frecency ranking score. Batched existence lookups and
//! range queries serve the read path.

pub mod error;
pub mod types;
pub mod hash;
pub mod urls;
pub mod observation;
pub mod frecency;
pub mod db;
pub mod storage;
pub mod laws;
