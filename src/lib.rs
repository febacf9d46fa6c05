//! Keeps a mirror of starred repositories in sync with the set of stars.
//!
//! The library holds the decisions of a sync pass: which stars need a new
//! mirror record, which records are archived, and which records receive a
//! freshness patch. Talking to the two remote services is left to the caller.

pub mod model;
pub mod freshness;
pub mod store;
pub mod reconcile;
pub mod paging;
pub mod pass;
pub mod laws;
