//! Client-side query and resolution engine for decentralized list events.
//!
//! List data lives in an append-only event store reached over a
//! publish/subscribe wire protocol. The store offers only coarse filtering
//! and no reliable pagination, so this crate supplies the logic that turns a
//! primitive, possibly-duplicated event feed into dependable operations:
//! exhaustive enumeration with a shrinking time cursor, header-reference
//! resolution, item aggregation under a header, deterministic sorting,
//! offset/limit pagination, and count/export aggregation.

use vstd::prelude::*;

pub mod aggregate;
pub mod delete;
pub mod dtag;
pub mod enumerate;
pub mod error;
pub mod event;
pub mod header;
pub mod item;
pub mod numbers;
pub mod order;
pub mod paginate;
pub mod params;
pub mod project;
pub mod publish;
pub mod query;
pub mod response;
pub mod resolve;
pub mod strutil;

verus! {

/// Event kind for an immutable list header.
pub const HEADER_KIND: u16 = 9998;

/// Event kind for a mutable (addressable) list header.
pub const HEADER_ADDR_KIND: u16 = 39998;

/// Event kind for an immutable list item.
pub const ITEM_KIND: u16 = 9999;

/// Event kind for a mutable (addressable) list item.
pub const ITEM_ADDR_KIND: u16 = 39999;

} // verus!
