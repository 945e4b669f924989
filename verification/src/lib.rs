//! Storage adapter that persists a single SQL database file onto a growable,
//! page-granular raw memory resource, together with the five-level lock
//! protocol that arbitrates concurrent handles sharing that resource.

use vstd::prelude::*;

pub mod connection;
pub mod header;
pub mod locks;
pub mod memory;
pub mod vfs;

verus! {

/// Size of one memory page in bytes.
pub const PAGE_BYTES: u64 = 65536;

/// Largest page count the resource may reach: the whole capacity in bytes
/// must stay addressable by a signed 64-bit offset.
pub const MAX_PAGES: u64 = 0x7fff_ffff_ffff_ffff / 65536;

} // verus!
