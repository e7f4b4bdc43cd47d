//! The buffer pool manager: a fixed set of page frames, a page table, a free
//! list, a replacer and a disk manager, and the handles that pin pages.
use vstd::prelude::*;
use vstd::std_specs::hash::group_hash_axioms;
use std::collections::HashMap;
use std::collections::VecDeque;
use crate::disk_manager::DiskManager;
use crate::disk_manager::DiskView;
use crate::disk_manager::PageFile;
use crate::error::Error;
use crate::frame::spec_zero_page;
use crate::frame::FrameView;
use crate::frame::PageFrame;
use crate::frame_handle::PageFrameMutHandle;
use crate::frame_handle::PageFrameRefHandle;
use crate::page::INVALID_PAGE_ID;
use crate::page::PAGE_SIZE;
use crate::replacer::Replacer;
use crate::text::text_with_number;
use crate::typedef::FrameId;
use crate::typedef::PageId;

verus! {

broadcast use group_hash_axioms;

/// The state of a frame that holds no page.
pub open spec fn spec_empty_frame() -> FrameView {
    FrameView { page_id: INVALID_PAGE_ID, is_dirty: false, pin_count: 0, data: spec_zero_page() }
}

/// The abstract state of a buffer pool.
pub struct PoolView {
    /// The frames of the pool, by frame id.
    pub frames: Seq<FrameView>,
    /// The frame that holds each resident page.
    pub page_table: Map<PageId, FrameId>,
    /// The frames that hold no page, in the order in which they are handed out.
    pub free_list: Seq<FrameId>,
    /// The frames that the replacer may evict.
    pub evictable: Set<FrameId>,
    /// The frames of which the replacer has recorded an access.
    pub accessed: Set<FrameId>,
    /// How many more accesses the replacer can record.
    pub accesses_left: nat,
    /// The bookkeeping of the disk manager.
    pub disk: DiskView,
}

impl PoolView {
    /// Whether a frame of the pool holds the page.
    pub open spec fn is_resident(self, page_id: PageId) -> bool {
        self.page_table.contains_key(page_id)
    }

    /// The state of the frame that holds a resident page.
    pub open spec fn page(self, page_id: PageId) -> FrameView {
        self.frames[self.page_table[page_id] as int]
    }

    /// The number of frames that can take a new page: the free ones and the evictable ones.
    pub open spec fn free_frame_count(self) -> nat {
        self.free_list.len() + self.evictable.len()
    }

    /// The invariant of a pool of which the frame `detached`, if any, has been
    /// taken out to receive a page:
    /// a frame is in the page table iff it holds a page, under that page's id;
    /// a frame is in the free list iff it holds no page, and is then unpinned,
    /// clean and zeroed; an evictable frame holds a page and is unpinned; the
    /// replacer has recorded an access of every evictable and every pinned frame.
    pub open spec fn inv_with(self, detached: Option<FrameId>) -> bool {
        &&& self.page_table.dom().finite()
        &&& self.evictable.finite()
        &&& self.disk.inv()
        &&& self.frames.len() <= usize::MAX
        &&& forall|f: int|
            0 <= f < self.frames.len() ==> (#[trigger] self.frames[f]).data.len() == PAGE_SIZE
        &&& forall|p: PageId| #[trigger]
            self.page_table.contains_key(p) ==> {
                &&& p != INVALID_PAGE_ID
                &&& self.page_table[p] < self.frames.len()
                &&& self.frames[self.page_table[p] as int].page_id == p
            }
        &&& forall|f: int|
            0 <= f < self.frames.len() && (#[trigger] self.frames[f]).page_id != INVALID_PAGE_ID
                ==> self.page_table.contains_key(self.frames[f].page_id)
                && self.page_table[self.frames[f].page_id] == f
        &&& self.free_list.no_duplicates()
        &&& forall|i: int|
            0 <= i < self.free_list.len() ==> {
                &&& (#[trigger] self.free_list[i]) < self.frames.len()
                &&& self.frames[self.free_list[i] as int].page_id == INVALID_PAGE_ID
                &&& Some(self.free_list[i]) != detached
            }
        &&& forall|f: int|
            0 <= f < self.frames.len() && (#[trigger] self.frames[f]).page_id == INVALID_PAGE_ID
                ==> self.frames[f] == spec_empty_frame() && (self.free_list.contains(
                f as FrameId,
            ) || detached == Some(f as FrameId))
        &&& forall|f: int|
            0 <= f < self.frames.len() && (#[trigger] self.frames[f]).pin_count > 0
                ==> self.accessed.contains(f as FrameId)
        &&& forall|f: FrameId| #[trigger]
            self.evictable.contains(f) ==> {
                &&& f < self.frames.len()
                &&& self.frames[f as int].page_id != INVALID_PAGE_ID
                &&& self.frames[f as int].pin_count == 0
                &&& self.accessed.contains(f)
            }
        &&& detached matches Some(f) ==> f < self.frames.len() && self.frames[f as int].page_id
            == INVALID_PAGE_ID
    }

    /// The invariant of a pool.
    pub open spec fn inv(self) -> bool {
        self.inv_with(None)
    }

    /// Whether every page other than `page_id` that is resident in `after` was
    /// resident before, in the same frame and the same state, and every pinned
    /// page other than `page_id` stays resident.
    pub open spec fn keeps_pages_except(self, after: PoolView, page_id: PageId) -> bool {
        &&& after.frames.len() == self.frames.len()
        &&& forall|p: PageId|
            #![trigger after.page_table.contains_key(p)]
            p != page_id && after.is_resident(p) ==> {
                &&& self.is_resident(p)
                &&& after.page_table[p] == self.page_table[p]
                &&& after.page(p) == self.page(p)
            }
        &&& forall|p: PageId|
            #![trigger self.page_table.contains_key(p)]
            p != page_id && self.is_resident(p) && self.page(p).pin_count > 0
                ==> after.is_resident(p)
    }

    /// Whether every page other than `first` and `second` that is resident in
    /// `after` was resident before, in the same frame and the same state, and
    /// every pinned page other than those two stays resident.
    pub open spec fn keeps_pages_except_two(
        self,
        after: PoolView,
        first: PageId,
        second: PageId,
    ) -> bool {
        &&& after.frames.len() == self.frames.len()
        &&& forall|p: PageId|
            #![trigger after.page_table.contains_key(p)]
            p != first && p != second && after.is_resident(p) ==> {
                &&& self.is_resident(p)
                &&& after.page_table[p] == self.page_table[p]
                &&& after.page(p) == self.page(p)
            }
        &&& forall|p: PageId|
            #![trigger self.page_table.contains_key(p)]
            p != first && p != second && self.is_resident(p) && self.page(p).pin_count > 0
                ==> after.is_resident(p)
    }

    /// Whether every page that is resident in `after` has the pins that it
    /// had before, and none if it was not resident, and every page that was
    /// pinned is still resident.
    pub open spec fn restores_pins(self, after: PoolView) -> bool {
        &&& forall|p: PageId|
            #![trigger after.page_table.contains_key(p)]
            after.is_resident(p) ==> after.page(p).pin_count == if self.is_resident(p) {
                self.page(p).pin_count
            } else {
                0
            }
        &&& forall|p: PageId|
            #![trigger self.page_table.contains_key(p)]
            self.is_resident(p) && self.page(p).pin_count > 0 ==> after.is_resident(p)
    }

    /// Whether at most one page left the pool between this state and `after`,
    /// and only a page in an evictable frame while no frame was free.
    pub open spec fn evicts_at_most_one(self, after: PoolView) -> bool {
        &&& forall|p: PageId|
            #![trigger self.page_table.contains_key(p)]
            self.is_resident(p) && !after.is_resident(p) ==> {
                &&& self.free_list.len() == 0
                &&& self.evictable.contains(self.page_table[p])
            }
        &&& forall|p: PageId, q: PageId|
            #![trigger self.page_table.contains_key(p), self.page_table.contains_key(q)]
            self.is_resident(p) && !after.is_resident(p) && self.is_resident(q)
                && !after.is_resident(q) ==> p == q
    }

    /// Whether `after` is this pool after the page `page_id` was brought into
    /// the frame `frame_id` with the bytes `data` and `pin_count` pins: the
    /// page took a free frame, or else the frame of an evicted page; the pool
    /// has one free frame less, and the replacer has recorded one more access.
    pub open spec fn loads(
        self,
        after: PoolView,
        page_id: PageId,
        frame_id: FrameId,
        data: Seq<u8>,
        pin_count: u16,
    ) -> bool {
        &&& self.free_frame_count() > 0
        &&& self.is_resident(page_id) ==> self.page(page_id).pin_count == 0
        &&& after.is_resident(page_id)
        &&& after.page_table[page_id] == frame_id
        &&& after.page(page_id) == (FrameView { page_id, is_dirty: false, pin_count, data })
        &&& !after.evictable.contains(frame_id)
        &&& after.accessed.contains(frame_id)
        &&& after.free_frame_count() == self.free_frame_count() - 1
        &&& after.accesses_left == self.accesses_left - 1
        &&& self.keeps_pages_except(after, page_id)
        &&& self.evicts_at_most_one(after)
        &&& self.takes_frame(after, page_id, frame_id)
    }

    /// The disk manager's state after the frame `frame_id` was taken out to
    /// receive a page: if the frame came from the free list or held a clean
    /// page, nothing was asked of the disk manager; the bytes of a dirty page
    /// were written to disk under the page's id.
    pub open spec fn disk_after_eviction(self, frame_id: FrameId) -> DiskView {
        let victim = self.frames[frame_id as int];
        if self.free_list.len() == 0 && victim.is_dirty {
            self.disk.after_write(victim.page_id, victim.data, true, true)
        } else {
            self.disk
        }
    }

    /// The disk manager's state after the resident page `page_id` was
    /// flushed: the bytes of a dirty page were written to disk under the
    /// page's id, and nothing was asked of the disk manager for a clean page.
    pub open spec fn disk_after_flush(self, page_id: PageId) -> DiskView {
        let page = self.page(page_id);
        if page.is_dirty {
            self.disk.after_write(page_id, page.data, true, true)
        } else {
            self.disk
        }
    }

    /// Whether `after` is this pool after the bytes of the dirty page in the
    /// evictable frame `frame_id` could not be written to disk when the frame
    /// was to be taken out: the page stays where it is, but the replacer has
    /// forgotten the frame.
    pub open spec fn fails_write_back(self, after: PoolView, frame_id: FrameId) -> bool {
        let victim = self.frames[frame_id as int];
        &&& self.free_list.len() == 0
        &&& self.evictable.contains(frame_id)
        &&& victim.is_dirty
        &&& self.same_pages(after)
        &&& after.evictable == self.evictable.remove(frame_id)
        &&& after.accessed == self.accessed.remove(frame_id)
        &&& after.accesses_left == self.accesses_left
        &&& self.disk.fails_write(after.disk, victim.page_id, victim.data)
    }

    /// Whether the pool can hand out the frame `frame_id`: it is the first
    /// frame of the free list, or an evictable frame if no frame is free.
    pub open spec fn hands_out(self, frame_id: FrameId) -> bool {
        if self.free_list.len() > 0 {
            frame_id == self.free_list[0]
        } else {
            self.evictable.contains(frame_id)
        }
    }

    /// This pool after the frame `frame_id`, which it can hand out, was taken
    /// out to receive a page and put back into the free list because the
    /// page could not be had; the disk manager is in the state `disk`.
    pub open spec fn after_return(self, frame_id: FrameId, disk: DiskView) -> PoolView {
        if self.free_list.len() > 0 {
            PoolView { free_list: self.free_list.drop_first().push(frame_id), disk, ..self }
        } else {
            PoolView {
                frames: self.frames.update(frame_id as int, spec_empty_frame()),
                page_table: self.page_table.remove(self.frames[frame_id as int].page_id),
                free_list: self.free_list.push(frame_id),
                evictable: self.evictable.remove(frame_id),
                accessed: self.accessed.remove(frame_id),
                disk,
                ..self
            }
        }
    }

    /// Whether `after` is this pool after the page `page_id` could not be
    /// read from disk into the frame `frame_id`: the frame was taken out
    /// and put back into the free list, and the file failed to give one
    /// page of bytes from the page's offset on.
    pub open spec fn fails_read(self, after: PoolView, page_id: PageId, frame_id: FrameId) -> bool {
        &&& self.hands_out(frame_id)
        &&& self.disk.pages.contains_key(page_id)
        &&& after.disk.calls.len() > 0
        &&& after.disk.calls.last() matches crate::disk_manager::FileCall::Read { bytes, .. } && {
            &&& bytes matches Some(given) ==> given.len() != PAGE_SIZE
            &&& after == self.after_return(
                frame_id,
                self.disk_after_eviction(frame_id).after_read(page_id, bytes),
            )
        }
    }

    /// Whether `after` is this pool after a page could not be created in the
    /// frame `frame_id`, with the error `e`: the frame was taken out and put
    /// back into the free list; the page id was used up; and either the file
    /// could not grow or could not write the page of zeros, which is an I/O
    /// error, or the page id was that of a resident page, which is a buffer
    /// pool error.
    pub open spec fn fails_create(self, after: PoolView, frame_id: FrameId, e: Error) -> bool {
        let disk = self.disk_after_eviction(frame_id);
        &&& self.hands_out(frame_id)
        &&& if e is IO {
            ||| after == self.after_return(frame_id, disk.after_allocate(true, false))
            ||| disk.must_grow() && after == self.after_return(
                frame_id,
                disk.after_allocate(false, false),
            )
        } else {
            &&& e is BufferPoolError
            &&& after == self.after_return(frame_id, disk.after_allocate(true, true))
            &&& after.is_resident((self.disk.last_allocated + 1) as PageId)
        }
    }

    /// Whether `after` is this pool after creating a page failed with the
    /// error `e`: no frame was free or evictable, and nothing has changed; or
    /// the bytes of a dirty victim could not be written; or a frame was
    /// taken out, but the page could not be created in it.
    pub open spec fn create_fails(self, after: PoolView, e: Error) -> bool {
        ||| self.free_frame_count() == 0 && e is BufferPoolError && after == self
        ||| e is IO && exists|frame_id: FrameId| #[trigger] self.fails_write_back(after, frame_id)
        ||| exists|frame_id: FrameId| #[trigger] self.fails_create(after, frame_id, e)
    }

    /// Whether `after` is this pool after fetching the page `page_id`, which
    /// is not resident, failed with the error `e`: the page id is the invalid
    /// one, or no frame was free or evictable, and nothing has changed; or
    /// the bytes of a dirty victim could not be written; or a frame was
    /// taken out, but the page could not be read from disk.
    pub open spec fn fetch_fails(self, after: PoolView, page_id: PageId, e: Error) -> bool {
        &&& !self.is_resident(page_id)
        &&& {
            ||| page_id == INVALID_PAGE_ID && e is InvalidInput && after == self
            ||| page_id != INVALID_PAGE_ID && self.free_frame_count() == 0 && e is BufferPoolError
                && after == self
            ||| page_id != INVALID_PAGE_ID && e is IO && exists|frame_id: FrameId| #[trigger]
                self.fails_write_back(after, frame_id)
            ||| page_id != INVALID_PAGE_ID && e is IO && exists|frame_id: FrameId| #[trigger]
                self.fails_read(after, page_id, frame_id)
        }
    }

    /// Whether a frame can be had without asking anything of the file: a
    /// frame is free, or a frame is evictable and no evictable frame holds
    /// a dirty page.
    pub open spec fn frame_needs_no_file(self) -> bool {
        ||| self.free_list.len() > 0
        ||| self.evictable.len() > 0 && forall|frame_id: FrameId| #[trigger]
            self.evictable.contains(frame_id) ==> !self.frames[frame_id as int].is_dirty
    }

    /// Whether fetching the page `page_id` asks nothing of the file, so
    /// that it cannot fail: the page is resident, or a frame can be had
    /// without the file and the page has no offset in the file.
    pub open spec fn fetch_needs_no_file(self, page_id: PageId) -> bool {
        page_id != INVALID_PAGE_ID && (self.is_resident(page_id) || (self.frame_needs_no_file()
            && !self.disk.pages.contains_key(page_id)))
    }

    /// Whether `detached` is this pool after the frame `frame_id` was taken
    /// out to receive a page: the first frame of the free list if there is
    /// one, or else an evictable frame, whose page has left the pool after
    /// its bytes were written to disk if it was dirty.
    pub open spec fn detaches(self, detached: PoolView, frame_id: FrameId) -> bool {
        &&& detached.disk == self.disk_after_eviction(frame_id)
        &&& self.free_list.len() > 0 ==> {
            &&& frame_id == self.free_list[0]
            &&& detached.frames == self.frames
            &&& detached.page_table == self.page_table
            &&& detached.free_list == self.free_list.drop_first()
            &&& detached.evictable == self.evictable
            &&& detached.accessed == self.accessed
        }
        &&& self.free_list.len() == 0 ==> {
            &&& self.evictable.contains(frame_id)
            &&& detached.evictable == self.evictable.remove(frame_id)
            &&& detached.accessed == self.accessed.remove(frame_id)
            &&& detached.free_list == self.free_list
            &&& detached.page_table == self.page_table.remove(
                self.frames[frame_id as int].page_id,
            )
            &&& detached.frames == self.frames.update(frame_id as int, spec_empty_frame())
        }
    }

    /// Whether the page `page_id` took the frame `frame_id` as the pool hands
    /// frames out: the first frame of the free list if there is one, or else
    /// an evictable frame, whose page has left the pool.
    pub open spec fn takes_frame(self, after: PoolView, page_id: PageId, frame_id: FrameId) -> bool {
        if self.free_list.len() > 0 {
            &&& frame_id == self.free_list[0]
            &&& after.free_list == self.free_list.drop_first()
            &&& after.evictable == self.evictable
            &&& after.page_table == self.page_table.insert(page_id, frame_id)
        } else {
            &&& self.evictable.contains(frame_id)
            &&& after.free_list == self.free_list
            &&& after.evictable == self.evictable.remove(frame_id)
            &&& after.page_table == self.page_table.remove(
                self.frames[frame_id as int].page_id,
            ).insert(page_id, frame_id)
        }
    }

    /// Whether `after` is this pool after a new page was created in the frame
    /// `frame_id` with `pin_count` pins: the page has the next page id, its
    /// bytes are zero, and a page of zeros was written to disk under its id.
    pub open spec fn creates(
        self,
        after: PoolView,
        page_id: PageId,
        frame_id: FrameId,
        pin_count: u16,
    ) -> bool {
        &&& page_id == self.disk.last_allocated + 1
        &&& after.disk.last_allocated == page_id
        &&& after.disk.pages.contains_key(page_id)
        &&& after.disk == self.disk_after_eviction(frame_id).after_allocate(true, true)
        &&& self.loads(after, page_id, frame_id, spec_zero_page(), pin_count)
    }

    /// Whether `after` is this pool after the page `page_id` was fetched into
    /// the frame `frame_id` and got `pins` more pins. A resident page stays
    /// where it is, and its frame is no longer evictable. Another page is
    /// loaded: it was read from disk at its offset in the file, and its frame
    /// holds the bytes that the file gave; a page that has no offset in the
    /// file is not read, and its bytes are zero.
    pub open spec fn fetches(
        self,
        after: PoolView,
        page_id: PageId,
        frame_id: FrameId,
        pins: u16,
    ) -> bool {
        &&& self.writes_back(after)
        &&& if self.is_resident(page_id) {
            &&& frame_id == self.page_table[page_id]
            &&& after.disk == self.disk
            &&& after.page_table == self.page_table
            &&& after.free_list == self.free_list
            &&& after.frames == self.frames.update(
                frame_id as int,
                FrameView {
                    pin_count: (self.page(page_id).pin_count + pins) as u16,
                    ..self.page(page_id)
                },
            )
            &&& after.evictable == self.evictable.remove(frame_id)
            &&& after.accessed == self.accessed.insert(frame_id)
            &&& after.accesses_left == self.accesses_left - 1
        } else {
            &&& self.loads(after, page_id, frame_id, after.page(page_id).data, pins)
            &&& !self.disk.pages.contains_key(page_id) ==> after.page(page_id).data
                == spec_zero_page()
            &&& after.disk == self.disk_after_eviction(frame_id).after_read(
                page_id,
                Some(after.page(page_id).data),
            )
        }
    }

    /// Whether the handle's page is resident in the handle's frame and pinned.
    pub open spec fn holds(self, page_id: PageId, frame_id: FrameId) -> bool {
        &&& self.is_resident(page_id)
        &&& self.page_table[page_id] == frame_id
        &&& self.page(page_id).pin_count > 0
    }

    /// This pool with one more pin on a resident page.
    pub open spec fn with_pin(self, page_id: PageId) -> PoolView {
        PoolView {
            frames: self.frames.update(
                self.page_table[page_id] as int,
                FrameView {
                    pin_count: (self.page(page_id).pin_count + 1) as u16,
                    ..self.page(page_id)
                },
            ),
            ..self
        }
    }

    /// This pool after a pinned page was unpinned once: it has one pin less,
    /// is dirty if it was or if `is_dirty` says so, and its frame is
    /// evictable if no pin is left.
    pub open spec fn with_unpin(self, page_id: PageId, is_dirty: bool) -> PoolView {
        let frame_id = self.page_table[page_id];
        let page = self.page(page_id);
        PoolView {
            frames: self.frames.update(
                frame_id as int,
                FrameView {
                    pin_count: (page.pin_count - 1) as u16,
                    is_dirty: page.is_dirty || is_dirty,
                    ..page
                },
            ),
            evictable: if page.pin_count == 1 {
                self.evictable.insert(frame_id)
            } else {
                self.evictable
            },
            ..self
        }
    }

    /// This pool without a resident page: its frame is reset and appended to
    /// the free list, and the replacer forgets the frame if it was evictable.
    pub open spec fn without_page(self, page_id: PageId) -> PoolView {
        let frame_id = self.page_table[page_id];
        PoolView {
            frames: self.frames.update(frame_id as int, spec_empty_frame()),
            page_table: self.page_table.remove(page_id),
            free_list: self.free_list.push(frame_id),
            evictable: self.evictable.remove(frame_id),
            accessed: if self.evictable.contains(frame_id) {
                self.accessed.remove(frame_id)
            } else {
                self.accessed
            },
            ..self
        }
    }

    /// Whether `source` can be the bytes of the page `page_id` right after it
    /// was fetched: those that a resident page has, one page of bytes
    /// otherwise, which are zero for a page that has no offset in the file.
    pub open spec fn fetched_bytes(self, page_id: PageId, source: Seq<u8>) -> bool {
        &&& source.len() == PAGE_SIZE
        &&& self.is_resident(page_id) ==> source == self.page(page_id).data
        &&& !self.is_resident(page_id) && !self.disk.pages.contains_key(page_id) ==> source
            == spec_zero_page()
    }

    /// Whether `after` is this pool after the page `page_id` was fetched,
    /// its bytes were replaced by `data`, and it was unpinned again, with the
    /// given dirty flag. A resident page keeps its frame and its pins. Another
    /// page is loaded and is left unpinned in an evictable frame. No other page
    /// has changed, and at most one was evicted.
    pub open spec fn visits(self, after: PoolView, page_id: PageId, dirty: bool, data: Seq<u8>) -> bool {
        &&& page_id != INVALID_PAGE_ID
        &&& after.is_resident(page_id)
        &&& after.page(page_id).data == data
        &&& after.accesses_left == self.accesses_left - 1
        &&& self.writes_back(after)
        &&& self.keeps_pages_except(after, page_id)
        &&& self.evicts_at_most_one(after)
        &&& if self.is_resident(page_id) {
            &&& after.page_table == self.page_table
            &&& after.free_list == self.free_list
            &&& after.disk == self.disk
            &&& after.page(page_id) == (FrameView {
                data,
                is_dirty: self.page(page_id).is_dirty || dirty,
                ..self.page(page_id)
            })
            &&& after.evictable == if self.page(page_id).pin_count == 0 {
                self.evictable.insert(self.page_table[page_id])
            } else {
                self.evictable
            }
        } else {
            &&& after.page(page_id) == (FrameView { page_id, pin_count: 0, is_dirty: dirty, data })
            &&& after.evictable.contains(after.page_table[page_id])
            &&& after.free_frame_count() == self.free_frame_count()
        }
    }

    /// Whether the disk manager of `after` differs from this pool's at most
    /// by what writing resident pages to disk changes: no page id was
    /// allocated, and only pages that were resident got an offset in the file.
    pub open spec fn writes_back(self, after: PoolView) -> bool {
        &&& after.disk.last_allocated == self.disk.last_allocated
        &&& forall|p: PageId| #[trigger]
            self.disk.pages.contains_key(p) ==> after.disk.pages.contains_key(p)
        &&& forall|p: PageId|
            #![trigger after.disk.pages.contains_key(p)]
            after.disk.pages.contains_key(p) && !self.disk.pages.contains_key(p)
                ==> self.is_resident(p)
    }

    /// Whether `after` is this pool after an operation that was to bring a
    /// page into the pool failed: no page was changed; at most one page was
    /// evicted; with no frame free or evictable, nothing has changed.
    pub open spec fn fails_to_load(self, after: PoolView) -> bool {
        &&& self.keeps_pages_except(after, INVALID_PAGE_ID)
        &&& self.evicts_at_most_one(after)
        &&& after.accesses_left == self.accesses_left
        &&& after.free_frame_count() <= self.free_frame_count()
        &&& self.free_frame_count() == 0 ==> after == self
    }

    /// Whether the pool changed in nothing but the replacer's and the disk
    /// manager's bookkeeping.
    pub open spec fn same_pages(self, after: PoolView) -> bool {
        &&& after.frames == self.frames
        &&& after.page_table == self.page_table
        &&& after.free_list == self.free_list
    }
}

/// A dirty page that is evicted is read again where it was written: when the
/// frame `frame_id`, which holds a dirty page, is taken out of a pool without
/// a free frame, the file was last asked to write the bytes of that page at
/// the page's offset, so that they are what the file last wrote for the
/// page, and a later read of the page asks the file for one page of bytes
/// from that same offset on.
pub proof fn lemma_evicted_page_is_read_where_written(
    pool: PoolView,
    frame_id: FrameId,
    bytes: Option<Seq<u8>>,
)
    requires
        pool.free_list.len() == 0,
        pool.frames[frame_id as int].is_dirty,
    ensures
        ({
            let victim = pool.frames[frame_id as int];
            let disk = pool.disk_after_eviction(frame_id);
            let offset = disk.pages[victim.page_id];
            &&& disk.pages.contains_key(victim.page_id)
            &&& disk.calls.last() == (crate::disk_manager::FileCall::Write {
                offset,
                data: victim.data,
                done: true,
            })
            &&& disk.after_read(victim.page_id, bytes).calls.last() == (
            crate::disk_manager::FileCall::Read { offset, len: PAGE_SIZE, bytes })
            &&& disk.written(victim.page_id) == Some(victim.data)
        }),
{
    crate::disk_manager::lemma_write_then_written(
        pool.disk,
        pool.frames[frame_id as int].page_id,
        pool.frames[frame_id as int].data,
    );
}

/// Manages page allocation, caching, and eviction in the buffer pool.
pub struct BufferPoolManager<R: Replacer, F: PageFile> {
    /// Storage for all frames in the buffer pool.
    frames: Vec<PageFrame>,
    /// Maps page IDs to frame IDs.
    page_table: HashMap<PageId, FrameId>,
    /// Handles the page replacement policy.
    replacer: R,
    /// List of free frames.
    free_list: VecDeque<FrameId>,
    /// Manages reading and writing pages to disk.
    disk_manager: DiskManager<F>,
}

impl<R: Replacer, F: PageFile> View for BufferPoolManager<R, F> {
    type V = PoolView;

    closed spec fn view(&self) -> PoolView {
        PoolView {
            frames: Seq::new(self.frames@.len(), |f: int| self.frames@[f]@),
            page_table: self.page_table@,
            free_list: self.free_list@,
            evictable: self.replacer.evictable(),
            accessed: self.replacer.accessed(),
            accesses_left: self.replacer.accesses_left(),
            disk: self.disk_manager@,
        }
    }
}

impl<R: Replacer, F: PageFile> BufferPoolManager<R, F> {
    /// The replacer of the pool.
    pub closed spec fn spec_replacer(&self) -> R {
        self.replacer
    }

    /// The invariant of a pool of which the frame `detached`, if any, has been
    /// taken out to receive a page.
    pub open spec fn wf_with(&self, detached: Option<FrameId>) -> bool {
        &&& self.spec_replacer().wf()
        &&& self@.inv_with(detached)
    }

    /// The invariant of the pool.
    pub open spec fn wf(&self) -> bool {
        self.wf_with(None)
    }

    /// Initializes the buffer pool with a given size. Every frame starts out free.
    pub fn new(pool_size: usize, disk_manager: DiskManager<F>, replacer: R) -> (pool: Self)
        requires
            disk_manager.wf(),
            replacer.wf(),
            replacer.evictable() =~= Set::<FrameId>::empty(),
        ensures
            pool.wf(),
            pool.spec_replacer() == replacer,
            pool@.frames == Seq::new(pool_size as nat, |f: int| spec_empty_frame()),
            pool@.page_table == Map::<PageId, FrameId>::empty(),
            pool@.free_list == Seq::new(pool_size as nat, |i: int| i as FrameId),
            pool@.disk == disk_manager@,
            pool@.evictable == replacer.evictable(),
            pool@.accessed == replacer.accessed(),
            pool@.accesses_left == replacer.accesses_left(),
            pool@.free_frame_count() == pool_size,
    {
        let mut frames: Vec<PageFrame> = Vec::new();
        let mut free_list: VecDeque<FrameId> = VecDeque::new();
        let mut i: usize = 0;
        while i < pool_size
            invariant
                i <= pool_size,
                frames@.len() == i,
                free_list@.len() == i,
                forall|f: int| 0 <= f < i ==> (#[trigger] frames@[f])@ == spec_empty_frame(),
                forall|f: int| 0 <= f < i ==> #[trigger] free_list@[f] == f as FrameId,
            decreases pool_size - i,
        {
            frames.push(PageFrame::new());
            free_list.push_back(i);
            i += 1;
        }
        let pool = BufferPoolManager {
            frames,
            page_table: HashMap::new(),
            replacer,
            free_list,
            disk_manager,
        };
        proof {
            assert forall|f: int|
                0 <= f < pool@.frames.len() && (#[trigger] pool@.frames[f]).page_id
                    == INVALID_PAGE_ID implies pool@.free_list.contains(f as FrameId) by {
                assert(pool@.free_list[f] == f as FrameId);
            }
        }
        pool
    }

    /// The replacer of the pool.
    pub fn replacer(&self) -> (replacer: &R)
        ensures
            *replacer == self.spec_replacer(),
    {
        &self.replacer
    }

    /// The disk manager of the pool.
    pub fn disk_manager(&self) -> (disk_manager: &DiskManager<F>)
        ensures
            disk_manager@ == self@.disk,
    {
        &self.disk_manager
    }

    /// Returns the total number of frames in the buffer pool.
    pub fn capacity(&self) -> (frames: usize)
        ensures
            frames == self@.frames.len(),
    {
        self.frames.len()
    }

    /// Returns the number of frames that a new page can take.
    pub fn free_frame_count(&self) -> (count: usize)
        requires
            self.wf(),
        ensures
            count == self@.free_frame_count(),
    {
        proof {
            self.lemma_free_frames_bound();
        }
        self.free_list.len() + self.replacer.evictable_count()
    }

    /// The free frames and the evictable frames are different frames of the
    /// pool, so there are at most as many of them as the pool has frames.
    pub proof fn lemma_free_frames_bound(&self)
        requires
            self.wf(),
        ensures
            self@.free_frame_count() <= self@.frames.len(),
    {
        let view = self@;
        let free = view.free_list.to_set();
        let all = Set::new(|f: FrameId| f < view.frames.len());
        view.free_list.unique_seq_to_set();
        let widen = |f: FrameId| f as int;
        vstd::set_lib::lemma_int_range(0, view.frames.len() as int);
        let range = vstd::set_lib::set_int_range(0, view.frames.len() as int);
        assert forall|i: int| range.contains(i) implies all.map(widen).contains(i) by {
            assert(all.contains(i as FrameId) && widen(i as FrameId) == i);
        }
        assert(all.map(widen) =~= range);
        assert(all.finite()) by {
            let narrow = |i: int| i as FrameId;
            assert forall|f: FrameId| all.contains(f) implies range.map(narrow).contains(f) by {
                assert(range.contains(f as int) && narrow(f as int) == f);
            }
            assert(range.map(narrow) =~= all);
            range.lemma_map_finite(narrow);
        }
        vstd::set_lib::lemma_map_size(all, range, widen);
        vstd::set_lib::lemma_len_subset(free.union(view.evictable), all);
        vstd::set_lib::lemma_set_disjoint_lens(free, view.evictable);
    }

    /// Returns the pin count of a page, or `None` if it is not in the buffer pool.
    pub fn get_pin_count(&self, page_id: PageId) -> (count: Option<u16>)
        requires
            self.wf(),
        ensures
            count == if self@.is_resident(page_id) {
                Some(self@.page(page_id).pin_count)
            } else {
                None
            },
    {
        match self.page_table.get(&page_id) {
            Some(frame_id) => Some(self.frames[*frame_id].pin_count()),
            None => None,
        }
    }

    /// Returns a free frame or evicts a page if necessary. A dirty victim is
    /// written to disk first. The frame that is returned holds no page and is
    /// detached from the free list.
    ///
    /// Succeeds if a frame is free, and if the victim is clean or its bytes
    /// can be written: so always where no evictable frame is dirty. Fails
    /// with a buffer pool error, and changes nothing,
    /// if no frame is free or evictable, and with an I/O error if the bytes of
    /// a dirty victim cannot be written.
    fn get_free_frame(&mut self) -> (result: Result<FrameId, Error>)
        requires
            old(self).wf(),
        ensures
            final(self)@.frames.len() == old(self)@.frames.len(),
            final(self)@.accesses_left == old(self)@.accesses_left,
            old(self)@.writes_back(final(self)@),
            match result {
                Ok(frame_id) => {
                    &&& final(self).wf_with(Some(frame_id))
                    &&& old(self)@.detaches(final(self)@, frame_id)
                },
                Err(e) => {
                    &&& final(self).wf()
                    &&& old(self)@.same_pages(final(self)@)
                    &&& final(self)@.free_frame_count() <= old(self)@.free_frame_count()
                    &&& old(self)@.free_frame_count() == 0 ==> e is BufferPoolError && final(self)@
                        == old(self)@
                    &&& old(self)@.free_frame_count() > 0 ==> e is IO && exists|frame_id: FrameId|
                        #[trigger] old(self)@.fails_write_back(final(self)@, frame_id)
                },
            },
            old(self)@.frame_needs_no_file() ==> result is Ok,
    {
        if let Some(frame_id) = self.free_list.pop_front() {
            proof {
                let before = old(self)@;
                assert forall|f: int|
                    0 <= f < self@.frames.len() && (#[trigger] self@.frames[f]).page_id
                        == INVALID_PAGE_ID && f != frame_id implies self@.free_list.contains(
                    f as FrameId,
                ) by {
                    let i = choose|i: int|
                        0 <= i < before.free_list.len() && before.free_list[i] == f as FrameId;
                    assert(self@.free_list[i - 1] == f as FrameId);
                }
            }
            return Ok(frame_id);
        }
        // Evict a page if no free frames are available
        let frame_id = match self.replacer.evict() {
            Some(frame_id) => frame_id,
            None => {
                return Err(
                    Error::BufferPoolError("No evictable frame in buffer pool".to_string()),
                );
            },
        };
        // Write dirty page back to disk before eviction
        if self.frames[frame_id].is_dirty() {
            let page_id = self.frames[frame_id].page_id();
            match self.disk_manager.write(page_id, self.frames[frame_id].data()) {
                Ok(()) => {},
                Err(e) => {
                    proof {
                        assert(old(self)@.fails_write_back(self@, frame_id));
                    }
                    return Err(e);
                },
            }
        }
        // Remove old page from the page table
        let page_id = self.frames[frame_id].page_id();
        self.page_table.remove(&page_id);
        // Reset the frame for reuse
        self.frames[frame_id].reset();
        proof {
            let before = old(self)@;
            assert(self@.frames =~= before.frames.update(frame_id as int, spec_empty_frame()));
        }
        Ok(frame_id)
    }

    /// Puts a frame that was taken out to receive a page back into the free list.
    fn return_free_frame(&mut self, frame_id: FrameId)
        requires
            old(self).wf_with(Some(frame_id)),
        ensures
            final(self).wf(),
            final(self)@ == (PoolView {
                free_list: old(self)@.free_list.push(frame_id),
                ..old(self)@
            }),
    {
        self.free_list.push_back(frame_id);
        proof {
            let before = old(self)@;
            assert forall|f: int|
                0 <= f < self@.frames.len() && (#[trigger] self@.frames[f]).page_id
                    == INVALID_PAGE_ID implies self@.free_list.contains(f as FrameId) by {
                if f == frame_id {
                    assert(self@.free_list[before.free_list.len() as int] == frame_id);
                } else {
                    let i = choose|i: int|
                        0 <= i < before.free_list.len() && before.free_list[i] == f as FrameId;
                    assert(self@.free_list[i] == f as FrameId);
                }
            }
        }
    }

    /// Binds a frame that was taken out of the pool to a page that is not
    /// resident, and tells the replacer that the frame is accessed and in use.
    fn install_page(&mut self, frame_id: FrameId, page_id: PageId)
        requires
            old(self).wf_with(Some(frame_id)),
            old(self)@.accesses_left > 0,
            page_id != INVALID_PAGE_ID,
            !old(self)@.is_resident(page_id),
        ensures
            final(self).wf(),
            final(self)@ == (PoolView {
                frames: old(self)@.frames.update(
                    frame_id as int,
                    FrameView { page_id, ..old(self)@.frames[frame_id as int] },
                ),
                page_table: old(self)@.page_table.insert(page_id, frame_id),
                accessed: old(self)@.accessed.insert(frame_id),
                accesses_left: (old(self)@.accesses_left - 1) as nat,
                ..old(self)@
            }),
    {
        self.frames[frame_id].set_page_id(page_id);
        self.frames[frame_id].set_dirty(false);
        self.page_table.insert(page_id, frame_id);
        self.replacer.record_access(frame_id);
        self.replacer.pin(frame_id);
        proof {
            let before = old(self)@;
            assert(self@.frames =~= before.frames.update(
                frame_id as int,
                FrameView { page_id, ..before.frames[frame_id as int] },
            ));
            assert(self@.evictable =~= before.evictable);
        }
    }

    /// Allocates a new page and binds it to a free frame. The frame is not
    /// evictable, and its pin count is zero: the handle that wraps it counts the pin.
    fn create_page(&mut self) -> (result: Result<FrameId, Error>)
        requires
            old(self).wf(),
            old(self)@.accesses_left > 0,
            old(self)@.disk.last_allocated < u32::MAX,
        ensures
            final(self).wf(),
            match result {
                Ok(frame_id) => old(self)@.creates(
                    final(self)@,
                    (old(self)@.disk.last_allocated + 1) as PageId,
                    frame_id,
                    0,
                ),
                Err(e) => {
                    &&& old(self)@.fails_to_load(final(self)@)
                    &&& e is IO || (e is BufferPoolError && (old(self)@.free_frame_count() == 0
                        || old(self)@.is_resident((old(self)@.disk.last_allocated + 1) as PageId)))
                    &&& old(self)@.free_frame_count() == 0 ==> e is BufferPoolError
                    &&& old(self)@.disk.last_allocated <= final(self)@.disk.last_allocated
                        <= old(self)@.disk.last_allocated + 1
                    &&& old(self)@.create_fails(final(self)@, e)
                },
            },
    {
        let frame_id = match self.get_free_frame() {
            Ok(frame_id) => frame_id,
            Err(e) => {
                return Err(e);
            },
        };
        let page_id = match self.disk_manager.allocate_page() {
            Ok(page_id) => page_id,
            Err(e) => {
                self.return_free_frame(frame_id);
                proof {
                    assert(old(self)@.fails_create(self@, frame_id, e));
                }
                return Err(e);
            },
        };
        if self.page_table.contains_key(&page_id) {
            self.return_free_frame(frame_id);
            let e = Error::BufferPoolError(
                text_with_number("Page ", page_id as u64, " is already in the buffer pool"),
            );
            proof {
                assert(old(self)@.fails_create(self@, frame_id, e));
            }
            return Err(e);
        }
        self.install_page(frame_id, page_id);
        Ok(frame_id)
    }

    /// Finds the frame of a page, loading the page from disk if it is not
    /// resident. The frame is not evictable afterwards; its pin count is left
    /// as it was: the handle that wraps the frame counts the pin.
    fn fetch_frame(&mut self, page_id: PageId) -> (result: Result<FrameId, Error>)
        requires
            old(self).wf(),
            old(self)@.accesses_left > 0,
        ensures
            final(self).wf(),
            match result {
                Ok(frame_id) => page_id != INVALID_PAGE_ID && old(self)@.fetches(
                    final(self)@,
                    page_id,
                    frame_id,
                    0,
                ),
                Err(e) => {
                    &&& !old(self)@.is_resident(page_id)
                    &&& old(self)@.fails_to_load(final(self)@)
                    &&& old(self)@.writes_back(final(self)@)
                    &&& page_id == INVALID_PAGE_ID ==> e is InvalidInput && final(self)@ == old(
                        self,
                    )@
                    &&& page_id != INVALID_PAGE_ID ==> e is IO || (e is BufferPoolError && old(
                        self,
                    )@.free_frame_count() == 0)
                    &&& page_id != INVALID_PAGE_ID && old(self)@.free_frame_count() == 0 ==> e
                        is BufferPoolError
                    &&& old(self)@.fetch_fails(final(self)@, page_id, e)
                },
            },
            old(self)@.fetch_needs_no_file(page_id) ==> result is Ok,
    {
        if page_id == INVALID_PAGE_ID {
            return Err(Error::InvalidInput("The invalid page id names no page".to_string()));
        }
        let resident = match self.page_table.get(&page_id) {
            Some(frame_id) => Some(*frame_id),
            None => None,
        };
        if let Some(frame_id) = resident {
            self.replacer.record_access(frame_id);
            self.replacer.pin(frame_id);
            proof {
                let before = old(self)@;
                assert(before.frames.update(
                    frame_id as int,
                    FrameView {
                        pin_count: (before.page(page_id).pin_count + 0) as u16,
                        ..before.page(page_id)
                    },
                ) =~= before.frames);
            }
            return Ok(frame_id);
        }
        let frame_id = match self.get_free_frame() {
            Ok(frame_id) => frame_id,
            Err(e) => {
                return Err(e);
            },
        };
        // load page from disk
        let loaded = match self.disk_manager.read(page_id) {
            Ok(loaded) => loaded,
            Err(e) => {
                self.return_free_frame(frame_id);
                proof {
                    assert(old(self)@.fails_read(self@, page_id, frame_id));
                }
                return Err(e);
            },
        };
        self.install_page(frame_id, page_id);
        let ghost installed = self@;
        if let Some(bytes) = loaded {
            self.frames[frame_id].load(bytes);
            proof {
                assert(self@.frames =~= installed.frames.update(
                    frame_id as int,
                    FrameView { data: bytes@, ..installed.frames[frame_id as int] },
                ));
            }
        }
        Ok(frame_id)
    }

    /// Fetches a page for reading, loading it from disk if necessary.
    fn fetch_page(&mut self, page_id: PageId) -> (result: Result<FrameId, Error>)
        requires
            old(self).wf(),
            old(self)@.accesses_left > 0,
        ensures
            final(self).wf(),
            match result {
                Ok(frame_id) => page_id != INVALID_PAGE_ID && old(self)@.fetches(
                    final(self)@,
                    page_id,
                    frame_id,
                    0,
                ),
                Err(e) => {
                    &&& !old(self)@.is_resident(page_id)
                    &&& old(self)@.fails_to_load(final(self)@)
                    &&& old(self)@.writes_back(final(self)@)
                    &&& page_id == INVALID_PAGE_ID ==> e is InvalidInput && final(self)@ == old(
                        self,
                    )@
                    &&& page_id != INVALID_PAGE_ID ==> e is IO || (e is BufferPoolError && old(
                        self,
                    )@.free_frame_count() == 0)
                    &&& page_id != INVALID_PAGE_ID && old(self)@.free_frame_count() == 0 ==> e
                        is BufferPoolError
                    &&& old(self)@.fetch_fails(final(self)@, page_id, e)
                },
            },
            old(self)@.fetch_needs_no_file(page_id) ==> result is Ok,
    {
        self.fetch_frame(page_id)
    }

    /// Fetches a page for writing, loading it from disk if necessary.
    fn fetch_page_mut(&mut self, page_id: PageId) -> (result: Result<FrameId, Error>)
        requires
            old(self).wf(),
            old(self)@.accesses_left > 0,
        ensures
            final(self).wf(),
            match result {
                Ok(frame_id) => page_id != INVALID_PAGE_ID && old(self)@.fetches(
                    final(self)@,
                    page_id,
                    frame_id,
                    0,
                ),
                Err(e) => {
                    &&& !old(self)@.is_resident(page_id)
                    &&& old(self)@.fails_to_load(final(self)@)
                    &&& old(self)@.writes_back(final(self)@)
                    &&& page_id == INVALID_PAGE_ID ==> e is InvalidInput && final(self)@ == old(
                        self,
                    )@
                    &&& page_id != INVALID_PAGE_ID ==> e is IO || (e is BufferPoolError && old(
                        self,
                    )@.free_frame_count() == 0)
                    &&& page_id != INVALID_PAGE_ID && old(self)@.free_frame_count() == 0 ==> e
                        is BufferPoolError
                    &&& old(self)@.fetch_fails(final(self)@, page_id, e)
                },
            },
            old(self)@.fetch_needs_no_file(page_id) ==> result is Ok,
    {
        self.fetch_frame(page_id)
    }

    /// Adds one pin to the page in the given frame.
    fn add_pin(&mut self, page_id: PageId, frame_id: FrameId)
        requires
            old(self).wf(),
            old(self)@.is_resident(page_id),
            old(self)@.page_table[page_id] == frame_id,
            old(self)@.page(page_id).pin_count < u16::MAX,
            !old(self)@.evictable.contains(frame_id),
            old(self)@.accessed.contains(frame_id),
        ensures
            final(self).wf(),
            final(self)@ == old(self)@.with_pin(page_id),
    {
        self.frames[frame_id].increment_pin_count();
        proof {
            let before = old(self)@;
            assert(self@.frames =~= before.with_pin(page_id).frames);
        }
    }

    /// Creates a new page and returns a handle for it. The page has the next
    /// page id, zero bytes and one pin.
    ///
    /// Fails with a buffer pool error if no frame is free or evictable, or if
    /// the new page id is already that of a resident page. Any other failure
    /// is an I/O error.
    pub fn create_page_handle(&mut self) -> (result: Result<PageFrameMutHandle, Error>)
        requires
            old(self).wf(),
            old(self)@.accesses_left > 0,
            old(self)@.disk.last_allocated < u32::MAX,
        ensures
            final(self).wf(),
            match result {
                Ok(handle) => {
                    &&& old(self)@.creates(final(self)@, handle.page_id, handle.frame_id, 1)
                    &&& final(self)@.holds(handle.page_id, handle.frame_id)
                },
                Err(e) => {
                    &&& old(self)@.fails_to_load(final(self)@)
                    &&& e is IO || (e is BufferPoolError && (old(self)@.free_frame_count() == 0
                        || old(self)@.is_resident((old(self)@.disk.last_allocated + 1) as PageId)))
                    &&& old(self)@.free_frame_count() == 0 ==> e is BufferPoolError
                    &&& old(self)@.disk.last_allocated <= final(self)@.disk.last_allocated
                        <= old(self)@.disk.last_allocated + 1
                    &&& old(self)@.create_fails(final(self)@, e)
                },
            },
    {
        let frame_id = match self.create_page() {
            Ok(frame_id) => frame_id,
            Err(e) => {
                return Err(e);
            },
        };
        let page_id = self.frames[frame_id].page_id();
        self.add_pin(page_id, frame_id);
        Ok(PageFrameMutHandle { page_id, frame_id })
    }

    /// Fetches a read-only handle to a page, loading the page from disk if it
    /// is not resident. The page gets one more pin.
    ///
    /// Fails with an invalid-input error for the invalid page id, and with a
    /// buffer pool error if the page is not resident and no frame is free or
    /// evictable. Any other failure is an I/O error.
    pub fn fetch_page_handle(&mut self, page_id: PageId) -> (result: Result<
        PageFrameRefHandle,
        Error,
    >)
        requires
            old(self).wf(),
            old(self)@.accesses_left > 0,
            old(self)@.is_resident(page_id) ==> old(self)@.page(page_id).pin_count < u16::MAX,
        ensures
            final(self).wf(),
            match result {
                Ok(handle) => {
                    &&& handle.page_id == page_id
                    &&& page_id != INVALID_PAGE_ID
                    &&& old(self)@.fetches(final(self)@, page_id, handle.frame_id, 1)
                    &&& final(self)@.holds(handle.page_id, handle.frame_id)
                },
                Err(e) => {
                    &&& !old(self)@.is_resident(page_id)
                    &&& old(self)@.fails_to_load(final(self)@)
                    &&& old(self)@.writes_back(final(self)@)
                    &&& page_id == INVALID_PAGE_ID ==> e is InvalidInput && final(self)@ == old(
                        self,
                    )@
                    &&& page_id != INVALID_PAGE_ID ==> e is IO || (e is BufferPoolError && old(
                        self,
                    )@.free_frame_count() == 0)
                    &&& page_id != INVALID_PAGE_ID && old(self)@.free_frame_count() == 0 ==> e
                        is BufferPoolError
                    &&& old(self)@.fetch_fails(final(self)@, page_id, e)
                },
            },
            old(self)@.fetch_needs_no_file(page_id) ==> result is Ok,
    {
        let frame_id = match self.fetch_page(page_id) {
            Ok(frame_id) => frame_id,
            Err(e) => {
                return Err(e);
            },
        };
        let ghost fetched = self@;
        self.add_pin(page_id, frame_id);
        proof {
            lemma_pin_after_fetch(old(self)@, fetched, self@, page_id, frame_id);
        }
        Ok(PageFrameRefHandle { page_id, frame_id })
    }

    /// Fetches a mutable handle to a page, loading the page from disk if it
    /// is not resident. The page gets one more pin.
    ///
    /// Fails with an invalid-input error for the invalid page id, and with a
    /// buffer pool error if the page is not resident and no frame is free or
    /// evictable. Any other failure is an I/O error.
    pub fn fetch_page_mut_handle(&mut self, page_id: PageId) -> (result: Result<
        PageFrameMutHandle,
        Error,
    >)
        requires
            old(self).wf(),
            old(self)@.accesses_left > 0,
            old(self)@.is_resident(page_id) ==> old(self)@.page(page_id).pin_count < u16::MAX,
        ensures
            final(self).wf(),
            match result {
                Ok(handle) => {
                    &&& handle.page_id == page_id
                    &&& page_id != INVALID_PAGE_ID
                    &&& old(self)@.fetches(final(self)@, page_id, handle.frame_id, 1)
                    &&& final(self)@.holds(handle.page_id, handle.frame_id)
                },
                Err(e) => {
                    &&& !old(self)@.is_resident(page_id)
                    &&& old(self)@.fails_to_load(final(self)@)
                    &&& old(self)@.writes_back(final(self)@)
                    &&& page_id == INVALID_PAGE_ID ==> e is InvalidInput && final(self)@ == old(
                        self,
                    )@
                    &&& page_id != INVALID_PAGE_ID ==> e is IO || (e is BufferPoolError && old(
                        self,
                    )@.free_frame_count() == 0)
                    &&& page_id != INVALID_PAGE_ID && old(self)@.free_frame_count() == 0 ==> e
                        is BufferPoolError
                    &&& old(self)@.fetch_fails(final(self)@, page_id, e)
                },
            },
            old(self)@.fetch_needs_no_file(page_id) ==> result is Ok,
    {
        let frame_id = match self.fetch_page_mut(page_id) {
            Ok(frame_id) => frame_id,
            Err(e) => {
                return Err(e);
            },
        };
        let ghost fetched = self@;
        self.add_pin(page_id, frame_id);
        proof {
            lemma_pin_after_fetch(old(self)@, fetched, self@, page_id, frame_id);
        }
        Ok(PageFrameMutHandle { page_id, frame_id })
    }

    /// Unpins a page, allowing it to be evicted once no pin is left, and
    /// marks it dirty if `is_dirty` says so. The page must be resident and
    /// pinned: each handle is let go once.
    pub fn unpin_page(&mut self, page_id: PageId, is_dirty: bool)
        requires
            old(self).wf(),
            old(self)@.is_resident(page_id),
            old(self)@.page(page_id).pin_count > 0,
        ensures
            final(self).wf(),
            final(self)@ == old(self)@.with_unpin(page_id, is_dirty),
            final(self)@.free_frame_count() == old(self)@.free_frame_count() + if old(
                self,
            )@.page(page_id).pin_count == 1 {
                1nat
            } else {
                0nat
            },
    {
        let frame_id = *self.page_table.get(&page_id).unwrap();
        self.frames[frame_id].decrement_pin_count();
        if is_dirty {
            self.frames[frame_id].set_dirty(true);
        }
        if self.frames[frame_id].pin_count() == 0 {
            self.replacer.unpin(frame_id);
        }
        proof {
            let before = old(self)@;
            assert(self@.frames =~= before.with_unpin(page_id, is_dirty).frames);
        }
    }

    /// Flushes a specific page to disk: the bytes of a resident dirty page
    /// are written to disk under the page's id, and the page is clean
    /// afterwards; a resident clean page is left alone. Fails with a buffer
    /// pool error if the page is not resident, and with an I/O error if
    /// writing fails.
    pub fn flush_page(&mut self, page_id: &PageId) -> (result: Result<(), Error>)
        requires
            old(self).wf(),
        ensures
            final(self).wf(),
            old(self)@.writes_back(final(self)@),
            final(self)@.page_table == old(self)@.page_table,
            final(self)@.free_list == old(self)@.free_list,
            final(self)@.evictable == old(self)@.evictable,
            final(self)@.accessed == old(self)@.accessed,
            final(self)@.accesses_left == old(self)@.accesses_left,
            match result {
                Ok(()) => {
                    &&& old(self)@.is_resident(*page_id)
                    &&& final(self)@.frames == old(self)@.frames.update(
                        old(self)@.page_table[*page_id] as int,
                        FrameView { is_dirty: false, ..old(self)@.page(*page_id) },
                    )
                    &&& old(self)@.page(*page_id).is_dirty ==> final(self)@.disk.pages.contains_key(
                        *page_id,
                    )
                    &&& final(self)@.disk == old(self)@.disk_after_flush(*page_id)
                },
                Err(e) => {
                    &&& final(self)@.frames == old(self)@.frames
                    &&& !old(self)@.is_resident(*page_id) ==> e is BufferPoolError && final(self)@
                        == old(self)@
                    &&& old(self)@.is_resident(*page_id) ==> {
                        let page = old(self)@.page(*page_id);
                        &&& e is IO
                        &&& page.is_dirty
                        &&& old(self)@.disk.fails_write(final(self)@.disk, *page_id, page.data)
                    }
                },
            },
    {
        let frame_id = match self.page_table.get(page_id) {
            Some(frame_id) => *frame_id,
            None => {
                return Err(
                    Error::BufferPoolError(
                        text_with_number("Page ", *page_id as u64, " not found in buffer pool"),
                    ),
                );
            },
        };
        if self.frames[frame_id].is_dirty() {
            match self.disk_manager.write(*page_id, self.frames[frame_id].data()) {
                Ok(()) => {},
                Err(e) => {
                    return Err(e);
                },
            }
            self.frames[frame_id].set_dirty(false);
        }
        proof {
            let before = old(self)@;
            assert(self@.frames =~= before.frames.update(
                frame_id as int,
                FrameView { is_dirty: false, ..before.page(*page_id) },
            ));
        }
        Ok(())
    }

    /// Deletes a page from the buffer pool and from disk.
    ///
    /// Fails with a page-pinned error, and changes nothing, if the page is
    /// resident and pinned. Otherwise a resident page is flushed if dirty and
    /// leaves the pool, its frame becoming free. Then the page is deallocated
    /// on disk, which fails with an invalid-input error if the page has no
    /// offset in the file.
    pub fn delete_page(&mut self, page_id: PageId) -> (result: Result<(), Error>)
        requires
            old(self).wf(),
        ensures
            final(self).wf(),
            final(self)@.accesses_left == old(self)@.accesses_left,
            final(self)@.disk.last_allocated == old(self)@.disk.last_allocated,
            !old(self)@.is_resident(page_id) ==> {
                &&& final(self)@ == (PoolView { disk: final(self)@.disk, ..old(self)@ })
                &&& old(self)@.disk.pages.contains_key(page_id) ==> result is Ok && final(self)@.disk
                    == old(self)@.disk.without_page(page_id)
                &&& !old(self)@.disk.pages.contains_key(page_id) ==> final(self)@.disk == old(
                    self,
                )@.disk && (result matches Err(e) && e is InvalidInput)
            },
            old(self)@.is_resident(page_id) && old(self)@.page(page_id).pin_count > 0 ==> {
                &&& final(self)@ == old(self)@
                &&& result == Err::<(), Error>(Error::PagePinned(page_id))
            },
            old(self)@.is_resident(page_id) && old(self)@.page(page_id).pin_count == 0 ==> {
                let page = old(self)@.page(page_id);
                let flushed = old(self)@.disk_after_flush(page_id);
                match result {
                    Ok(()) => {
                        &&& flushed.pages.contains_key(page_id)
                        &&& final(self)@ == (PoolView {
                            disk: flushed.without_page(page_id),
                            ..old(self)@.without_page(page_id)
                        })
                    },
                    Err(e) => if e is IO {
                        &&& page.is_dirty
                        &&& old(self)@.disk.fails_write(final(self)@.disk, page_id, page.data)
                        &&& final(self)@ == (PoolView { disk: final(self)@.disk, ..old(self)@ })
                    } else {
                        &&& e is InvalidInput
                        &&& !page.is_dirty
                        &&& !old(self)@.disk.pages.contains_key(page_id)
                        &&& final(self)@ == old(self)@.without_page(page_id)
                    },
                }
            },
    {
        let resident = match self.page_table.get(&page_id) {
            Some(frame_id) => Some(*frame_id),
            None => None,
        };
        if let Some(frame_id) = resident {
            // can't delete if the page is pinned
            if self.frames[frame_id].pin_count() > 0 {
                return Err(Error::PagePinned(page_id));
            }
            if self.frames[frame_id].is_dirty() {
                match self.flush_page(&page_id) {
                    Ok(()) => {},
                    Err(e) => {
                        return Err(e);
                    },
                }
            }
            let ghost flushed = self@;
            // remove from page table and replacer
            self.page_table.remove(&page_id);
            self.replacer.remove(frame_id);
            // reset the frame and recycle it
            self.frames[frame_id].reset();
            self.free_list.push_back(frame_id);
            proof {
                let before = old(self)@;
                assert(self@.frames =~= before.without_page(page_id).frames);
                assert(flushed.without_page(page_id).frames =~= before.without_page(
                    page_id,
                ).frames);
                lemma_without_page(flushed, self@, page_id);
            }
        }
        // delete the page from disk
        let result = self.disk_manager.deallocate_page(page_id);
        result
    }

    /// The frame that a handle pins.
    pub fn frame(&self, handle: &PageFrameRefHandle) -> (frame: &PageFrame)
        requires
            self.wf(),
            self@.holds(handle.page_id, handle.frame_id),
        ensures
            frame@ == self@.page(handle.page_id),
            frame.wf(),
    {
        &self.frames[handle.frame_id]
    }

    /// The frame that a mutable handle pins, for reading.
    pub fn frame_ref(&self, handle: &PageFrameMutHandle) -> (frame: &PageFrame)
        requires
            self.wf(),
            self@.holds(handle.page_id, handle.frame_id),
        ensures
            frame@ == self@.page(handle.page_id),
            frame.wf(),
    {
        &self.frames[handle.frame_id]
    }

    /// The frame that a mutable handle pins, for writing. The pool is
    /// consistent again once the borrow ends if nothing but the bytes of the
    /// frame was changed.
    pub fn frame_mut(&mut self, handle: &PageFrameMutHandle) -> (frame: &mut PageFrame)
        requires
            old(self).wf(),
            old(self)@.holds(handle.page_id, handle.frame_id),
        ensures
            frame@ == old(self)@.page(handle.page_id),
            frame.wf(),
            final(self)@ == (PoolView {
                frames: old(self)@.frames.update(handle.frame_id as int, final(frame)@),
                ..old(self)@
            }),
            final(self).spec_replacer() == old(self).spec_replacer(),
    {
        let frame = &mut self.frames[handle.frame_id];
        proof {
            assert(after_borrow(self)@.frames =~= old(self)@.frames.update(
                handle.frame_id as int,
                final(frame)@,
            ));
        }
        frame
    }
}

/// After `n` pages were created in a row and none was unpinned, the pool has
/// `n` free frames less than before. So a pool of `s` frames, all free at
/// first, has `s - n` free frames then, and `n` is at most `s`: with no free
/// frame left, creating a page fails.
pub proof fn lemma_creates_use_free_frames(
    states: Seq<PoolView>,
    pages: Seq<PageId>,
    frames: Seq<FrameId>,
)
    requires
        states.len() == pages.len() + 1,
        frames.len() == pages.len(),
        forall|i: int|
            0 <= i < pages.len() ==> (#[trigger] states[i]).creates(
                states[i + 1],
                pages[i],
                frames[i],
                1,
            ),
    ensures
        states.last().free_frame_count() + pages.len() == states[0].free_frame_count(),
    decreases pages.len(),
{
    if pages.len() > 0 {
        let n = pages.len() - 1;
        lemma_creates_use_free_frames(states.take(n + 1), pages.take(n), frames.take(n));
    }
}

/// The bytes of a dirty page that was flushed are what the file last wrote
/// for the page, and a flush leaves what the file last wrote for every other
/// page that has an offset.
pub proof fn lemma_flushed_page_is_written(pool: PoolView, page_id: PageId, other: PageId)
    requires
        pool.inv(),
        pool.is_resident(page_id),
        pool.page(page_id).is_dirty,
        other != page_id,
        pool.disk.pages.contains_key(other),
    ensures
        pool.disk_after_flush(page_id).written(page_id) == Some(pool.page(page_id).data),
        pool.disk_after_flush(page_id).written(other) == pool.disk.written(other),
{
    crate::disk_manager::lemma_write_then_written(pool.disk, page_id, pool.page(page_id).data);
    crate::disk_manager::lemma_write_keeps_written(
        pool.disk,
        page_id,
        pool.page(page_id).data,
        true,
        true,
        other,
    );
}

/// What one step of a history of a pool does with the handles of one page.
pub enum HandleStep {
    /// A handle of the page is handed out by a fetch of the page.
    Fetch,
    /// A handle of the page is given back; it says whether the page was changed.
    Release { is_dirty: bool },
    /// The step is about another page.
    Other { page_id: PageId },
}

/// By how many the handles of the page that are out have grown over the
/// steps: each fetch counts one up, each release one down.
pub open spec fn spec_handles_out(steps: Seq<HandleStep>) -> int
    decreases steps.len(),
{
    if steps.len() == 0 {
        0
    } else {
        spec_handles_out(steps.drop_last()) + match steps.last() {
            HandleStep::Fetch => 1int,
            HandleStep::Release { .. } => -1int,
            HandleStep::Other { .. } => 0int,
        }
    }
}

/// Whether the pool, in a consistent state, goes from `before` to `after` by
/// the step `step` on the handles of the page `page_id`, which stays
/// resident. A fetch finds the page with fewer pins than a pin count can
/// hold; a release finds it pinned.
pub open spec fn spec_handle_step(
    before: PoolView,
    after: PoolView,
    page_id: PageId,
    step: HandleStep,
) -> bool {
    &&& before.inv()
    &&& before.is_resident(page_id)
    &&& after.is_resident(page_id)
    &&& match step {
        HandleStep::Fetch => before.page(page_id).pin_count < u16::MAX && before.fetches(
            after,
            page_id,
            before.page_table[page_id],
            1,
        ),
        HandleStep::Release { is_dirty } => before.page(page_id).pin_count > 0 && after
            == before.with_unpin(page_id, is_dirty),
        HandleStep::Other { page_id: other } => other != page_id && before.keeps_pages_except(
            after,
            other,
        ),
    }
}

/// The pin count of a page counts the handles of the page that are out:
/// over any history of fetches and releases of the page and of steps about
/// other pages, the pin count grows by the number of handles handed out and
/// falls by the number of handles given back. It never falls below zero: a
/// release finds the page pinned.
pub proof fn lemma_pin_count_counts_handles(
    states: Seq<PoolView>,
    steps: Seq<HandleStep>,
    page_id: PageId,
)
    requires
        states.len() == steps.len() + 1,
        states[0].is_resident(page_id),
        forall|i: int|
            0 <= i < steps.len() ==> spec_handle_step(
                #[trigger] states[i],
                states[i + 1],
                page_id,
                steps[i],
            ),
    ensures
        states.last().is_resident(page_id),
        states.last().page(page_id).pin_count == states[0].page(page_id).pin_count
            + spec_handles_out(steps),
    decreases steps.len(),
{
    if steps.len() > 0 {
        let n = steps.len() - 1;
        lemma_pin_count_counts_handles(states.drop_last(), steps.drop_last(), page_id);
    }
}

/// Fetching a page, changing its bytes and unpinning it again is a visit of the page.
pub proof fn lemma_visit(
    before: PoolView,
    fetched: PoolView,
    changed: PoolView,
    after: PoolView,
    page_id: PageId,
    frame_id: FrameId,
    dirty: bool,
)
    requires
        before.inv(),
        fetched.inv(),
        page_id != INVALID_PAGE_ID,
        before.is_resident(page_id) ==> before.page(page_id).pin_count < u16::MAX,
        before.fetches(fetched, page_id, frame_id, 1),
        changed.frames.len() == fetched.frames.len(),
        changed.frames[frame_id as int].data.len() == PAGE_SIZE,
        changed == (PoolView {
            frames: fetched.frames.update(
                frame_id as int,
                FrameView {
                    data: changed.frames[frame_id as int].data,
                    ..fetched.frames[frame_id as int]
                },
            ),
            ..fetched
        }),
        after == changed.with_unpin(page_id, dirty),
    ensures
        changed.inv(),
        changed.holds(page_id, frame_id),
        before.fetched_bytes(page_id, fetched.page(page_id).data),
        before.visits(after, page_id, dirty, changed.page(page_id).data),
{
    if before.is_resident(page_id) {
        if before.page(page_id).pin_count == 0 {
            assert(after.evictable =~= before.evictable.insert(frame_id));
        } else {
            assert(after.evictable =~= before.evictable);
        }
    }
}

/// Taking an unpinned page out of the pool keeps the pool consistent.
proof fn lemma_without_page(before: PoolView, after: PoolView, page_id: PageId)
    requires
        before.inv(),
        before.is_resident(page_id),
        before.page(page_id).pin_count == 0,
        after == (PoolView { disk: after.disk, ..before.without_page(page_id) }),
        after.disk.inv(),
    ensures
        after.inv(),
{
    let frame_id = before.page_table[page_id];
    assert forall|f: int|
        0 <= f < after.frames.len() && (#[trigger] after.frames[f]).page_id
            == INVALID_PAGE_ID implies after.frames[f] == spec_empty_frame()
        && after.free_list.contains(f as FrameId) by {
        if f == frame_id {
            assert(after.free_list[before.free_list.len() as int] == frame_id);
        } else {
            let i = choose|i: int|
                0 <= i < before.free_list.len() && before.free_list[i] == f as FrameId;
            assert(after.free_list[i] == f as FrameId);
        }
    }
}

/// Pinning a page that was just fetched gives the pool that fetching it with a pin gives.
proof fn lemma_pin_after_fetch(
    before: PoolView,
    fetched: PoolView,
    after: PoolView,
    page_id: PageId,
    frame_id: FrameId,
)
    requires
        before.inv(),
        fetched.inv(),
        before.fetches(fetched, page_id, frame_id, 0),
        before.is_resident(page_id) ==> before.page(page_id).pin_count < u16::MAX,
        after == fetched.with_pin(page_id),
    ensures
        before.fetches(after, page_id, frame_id, 1),
        after.holds(page_id, frame_id),
{
    if before.is_resident(page_id) {
        assert(after.frames =~= before.frames.update(
            frame_id as int,
            FrameView {
                pin_count: (before.page(page_id).pin_count + 1) as u16,
                ..before.page(page_id)
            },
        ));
    }
}

} // verus!
