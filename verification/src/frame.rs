//! A page frame: one page in memory, with its bookkeeping.
use vstd::prelude::*;
use crate::page::INVALID_PAGE_ID;
use crate::page::PAGE_SIZE;
use crate::typedef::PageId;

verus! {

/// The abstract state of a page frame.
pub struct FrameView {
    /// The page held by the frame, or `INVALID_PAGE_ID` if it holds none.
    pub page_id: PageId,
    /// Whether the page bytes differ from what is on disk.
    pub is_dirty: bool,
    /// The number of users that keep the page from being evicted.
    pub pin_count: u16,
    /// The page bytes.
    pub data: Seq<u8>,
}

/// A page of zero bytes.
pub open spec fn spec_zero_page() -> Seq<u8> {
    Seq::new(PAGE_SIZE as nat, |i: int| 0u8)
}

/// The bytes `page` with `bytes` copied over them from position `offset` on.
pub open spec fn spec_overwrite(page: Seq<u8>, offset: int, bytes: Seq<u8>) -> Seq<u8> {
    Seq::new(
        page.len(),
        |i: int|
            if offset <= i < offset + bytes.len() {
                bytes[i - offset]
            } else {
                page[i]
            },
    )
}

/// Represents a page in the buffer pool with metadata and data storage.
#[derive(Debug)]
pub struct PageFrame {
    page_id: PageId,
    is_dirty: bool,
    pin_cnt: u16,
    data: Vec<u8>,
}

impl View for PageFrame {
    type V = FrameView;

    closed spec fn view(&self) -> FrameView {
        FrameView {
            page_id: self.page_id,
            is_dirty: self.is_dirty,
            pin_count: self.pin_cnt,
            data: self.data@,
        }
    }
}

impl PageFrame {
    /// A frame always holds exactly one page of bytes.
    pub open spec fn wf(&self) -> bool {
        self@.data.len() == PAGE_SIZE
    }

    /// Creates a new frame that holds no page: all bytes zero, clean and unpinned.
    pub fn new() -> (frame: PageFrame)
        ensures
            frame.wf(),
            frame@ == (FrameView {
                page_id: INVALID_PAGE_ID,
                is_dirty: false,
                pin_count: 0,
                data: spec_zero_page(),
            }),
    {
        let data = vec![0u8; PAGE_SIZE];
        assert(data@ =~= spec_zero_page());
        PageFrame { page_id: INVALID_PAGE_ID, is_dirty: false, pin_cnt: 0, data }
    }

    /// Returns the page ID.
    pub fn page_id(&self) -> (page_id: PageId)
        ensures
            page_id == self@.page_id,
    {
        self.page_id
    }

    /// Checks if the page is dirty.
    pub fn is_dirty(&self) -> (dirty: bool)
        ensures
            dirty == self@.is_dirty,
    {
        self.is_dirty
    }

    /// Returns the current pin count.
    pub fn pin_count(&self) -> (count: u16)
        ensures
            count == self@.pin_count,
    {
        self.pin_cnt
    }

    /// Provides read-only access to page data.
    pub fn data(&self) -> (bytes: &[u8])
        ensures
            bytes@ == self@.data,
    {
        self.data.as_slice()
    }

    /// Provides mutable access to page data; nothing but the bytes can change through it.
    pub fn data_mut(&mut self) -> (bytes: &mut [u8])
        ensures
            bytes@ == old(self)@.data,
            final(self)@ == (FrameView { data: final(bytes)@, ..old(self)@ }),
    {
        self.data.as_mut_slice()
    }

    /// Sets the page ID.
    pub fn set_page_id(&mut self, page_id: PageId)
        ensures
            final(self)@ == (FrameView { page_id, ..old(self)@ }),
    {
        self.page_id = page_id;
    }

    /// Marks the page as dirty or clean.
    pub fn set_dirty(&mut self, dirty: bool)
        ensures
            final(self)@ == (FrameView { is_dirty: dirty, ..old(self)@ }),
    {
        self.is_dirty = dirty;
    }

    /// Sets the pin count directly (overwrites whatever was there).
    pub fn set_pin_count(&mut self, pin_cnt: u16)
        ensures
            final(self)@ == (FrameView { pin_count: pin_cnt, ..old(self)@ }),
    {
        self.pin_cnt = pin_cnt;
    }

    /// Increments the pin count by 1.
    pub fn increment_pin_count(&mut self)
        requires
            old(self)@.pin_count < u16::MAX,
        ensures
            final(self)@ == (FrameView {
                pin_count: (old(self)@.pin_count + 1) as u16,
                ..old(self)@
            }),
    {
        self.pin_cnt = self.pin_cnt + 1;
    }

    /// Decrements the pin count by 1; the frame must be pinned.
    pub fn decrement_pin_count(&mut self)
        requires
            old(self)@.pin_count > 0,
        ensures
            final(self)@ == (FrameView {
                pin_count: (old(self)@.pin_count - 1) as u16,
                ..old(self)@
            }),
    {
        self.pin_cnt = self.pin_cnt - 1;
    }

    /// Resets the page to its initial state.
    pub fn reset(&mut self)
        ensures
            final(self).wf(),
            final(self)@ == (FrameView {
                page_id: INVALID_PAGE_ID,
                is_dirty: false,
                pin_count: 0,
                data: spec_zero_page(),
            }),
    {
        self.page_id = INVALID_PAGE_ID;
        self.pin_cnt = 0;
        self.is_dirty = false;
        self.data = vec![0u8; PAGE_SIZE];
        assert(self.data@ =~= spec_zero_page());
    }

    /// Replaces the page bytes by `data`, which must be one page long.
    pub fn load(&mut self, data: Vec<u8>)
        requires
            data@.len() == PAGE_SIZE,
        ensures
            final(self).wf(),
            final(self)@ == (FrameView { data: data@, ..old(self)@ }),
    {
        self.data = data;
    }

    /// Writes data to the page at the given offset.
    pub fn write(&mut self, offset: usize, data: &[u8])
        requires
            old(self).wf(),
            offset + data@.len() <= PAGE_SIZE,
        ensures
            final(self).wf(),
            final(self)@ == (FrameView {
                data: spec_overwrite(old(self)@.data, offset as int, data@),
                ..old(self)@
            }),
    {
        let n = data.len();
        let mut i: usize = 0;
        while i < n
            invariant
                i <= n,
                n == data@.len(),
                offset + n <= PAGE_SIZE,
                self.data@.len() == PAGE_SIZE,
                self.page_id == old(self).page_id,
                self.is_dirty == old(self).is_dirty,
                self.pin_cnt == old(self).pin_cnt,
                self.data@ == spec_overwrite(old(self)@.data, offset as int, data@.take(i as int)),
            decreases n - i,
        {
            self.data[offset + i] = data[i];
            i += 1;
        }
        assert(data@.take(n as int) =~= data@);
    }
}

} // verus!
