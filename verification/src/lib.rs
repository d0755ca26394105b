//! Object catalog and targeting/migration engine for a remote, paginated
//! object store.
//!
//! The crate holds the verified core of a storage-lifecycle tool:
//!
//! - [`mask`] — the pattern matcher that selects objects by key;
//! - [`models`] — object records, storage tiers, restore lifecycle states
//!   and the restore-eligibility classifier;
//! - [`app`] — the application state: the incrementally loaded catalog with
//!   its pagination cursor, the active mask and filtered view, the
//!   targeting resolver, and the bounded status log;
//! - [`executor`] — admission checks, restore partitioning, per-object
//!   outcome reporting and local reconciliation for bulk operations;
//! - [`pagination`] — the page-by-cursor model of the remote listing and
//!   its termination law;
//! - [`parse`] — the parser for the remote store's restore header;
//! - [`policy`] — saved mask/tier templates;
//! - [`tracker`] — the record of issued restore requests;
//! - [`text`] — substring tests, lexicographic key order and decimal
//!   rendering, specified over character sequences.
//!
//! Remote calls, rendering and persistence live outside this crate; its
//! functions take plain values and state in their contracts exactly what
//! they return or change.

use vstd::prelude::*;

pub mod app;
pub mod executor;
pub mod mask;
pub mod models;
pub mod pagination;
pub mod parse;
pub mod policy;
pub mod text;
pub mod tracker;

verus! {

} // verus!
