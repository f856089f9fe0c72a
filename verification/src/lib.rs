//! A DNSSEC zone-signing core.
//!
//! The crate keeps a zone's resource records in canonical order, walks them
//! while respecting delegation (zone-cut) boundaries, builds the canonical
//! signing input for each resource-record set, and synthesizes the NSEC chain
//! that authenticates non-existence of names.  A small companion module holds
//! the result type of a host-address lookup.

pub mod host;
pub mod name;
pub mod nsec;
pub mod record;
pub mod sign;
pub mod store;
pub mod views;
pub mod wire;
pub mod order;

use vstd::prelude::*;

verus! {

} // verus!
