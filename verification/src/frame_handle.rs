//! Handles to pinned pages.
use vstd::prelude::*;
use crate::buffer_pool::BufferPoolManager;
use crate::disk_manager::PageFile;
use crate::replacer::Replacer;
use crate::typedef::FrameId;
use crate::typedef::PageId;

verus! {

/// A handle for a read-only `PageFrame`.
///
/// It stands for one pin on the page. Whoever holds it gives it back to the
/// buffer pool exactly once, which unpins the page.
#[derive(Debug)]
pub struct PageFrameRefHandle {
    /// The page that the handle pins.
    pub page_id: PageId,
    /// The frame of the buffer pool that holds the page.
    pub frame_id: FrameId,
}

/// Mutable page handle for write access.
///
/// It stands for one pin on the page. Whoever holds it gives it back to the
/// buffer pool exactly once, which unpins the page and marks it dirty.
#[derive(Debug)]
pub struct PageFrameMutHandle {
    /// The page that the handle pins.
    pub page_id: PageId,
    /// The frame of the buffer pool that holds the page.
    pub frame_id: FrameId,
}

impl PageFrameRefHandle {
    /// The page that the handle pins.
    pub fn page_id(&self) -> (page_id: PageId)
        ensures
            page_id == self.page_id,
    {
        self.page_id
    }

    /// Gives the handle back to the pool it came from: the page loses one
    /// pin, and its frame becomes evictable if that was the last one.
    pub fn release<R: Replacer, F: PageFile>(self, bpm: &mut BufferPoolManager<R, F>)
        requires
            old(bpm).wf(),
            old(bpm)@.holds(self.page_id, self.frame_id),
        ensures
            final(bpm).wf(),
            final(bpm)@ == old(bpm)@.with_unpin(self.page_id, false),
            final(bpm)@.free_frame_count() == old(bpm)@.free_frame_count() + if old(bpm)@.page(
                self.page_id,
            ).pin_count == 1 {
                1nat
            } else {
                0nat
            },
    {
        bpm.unpin_page(self.page_id, false);
    }
}

impl PageFrameMutHandle {
    /// The page that the handle pins.
    pub fn page_id(&self) -> (page_id: PageId)
        ensures
            page_id == self.page_id,
    {
        self.page_id
    }

    /// Gives the handle back to the pool it came from: the page is marked
    /// dirty and loses one pin, and its frame becomes evictable if that was
    /// the last one.
    pub fn release<R: Replacer, F: PageFile>(self, bpm: &mut BufferPoolManager<R, F>)
        requires
            old(bpm).wf(),
            old(bpm)@.holds(self.page_id, self.frame_id),
        ensures
            final(bpm).wf(),
            final(bpm)@ == old(bpm)@.with_unpin(self.page_id, true),
            final(bpm)@.free_frame_count() == old(bpm)@.free_frame_count() + if old(bpm)@.page(
                self.page_id,
            ).pin_count == 1 {
                1nat
            } else {
                0nat
            },
    {
        bpm.unpin_page(self.page_id, true);
    }
}

} // verus!
