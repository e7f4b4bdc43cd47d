//! Identifiers of pages and frames.
use vstd::prelude::*;

verus! {

/// Identifier of a page in the database file.
pub type PageId = u32;

/// Index of a frame in the buffer pool's frame array.
pub type FrameId = usize;

} // verus!
