//! A memory-ownership core for persistent, structurally-shared collections.
//!
//! The crate decouples how a collection node is stored and owned from what
//! the node is.  A pool hands out opaque handles to values; handles can be
//! shared freely, compared for identity, and mutated copy-on-write so that
//! no other holder ever observes the edit.  Two backends implement the same
//! capability set: an in-memory reference-counted pool and an id-indexed
//! side-table store.  A few generic container helpers used by the
//! structures built on top round out the crate.

pub mod fixture;
pub mod pool;
pub mod iter;
pub mod util;
