//! The constants of pages.
use vstd::prelude::*;
use crate::typedef::PageId;

verus! {

/// The page identifier that names no page; it also ends a chain of table pages.
pub const INVALID_PAGE_ID: PageId = 0;

/// Size in bytes of every page, on disk and in memory.
pub const PAGE_SIZE: usize = 4096;

} // verus!
