//! The scan over the live tuples of a table heap.
use vstd::prelude::*;
use crate::buffer_pool::BufferPoolManager;
use crate::buffer_pool::PoolView;
use crate::disk_manager::PageFile;
use crate::error::Error;
use crate::page::INVALID_PAGE_ID;
use crate::record_id::spec_pack;
use crate::record_id::spec_precedes;
use crate::record_id::RecordId;
use crate::replacer::Replacer;
use crate::table_heap::TableHeap;
use crate::table_page::spec_header;
use crate::table_page::spec_readable;
use crate::table_page::spec_slot;
use crate::table_page::spec_tuple_bytes;
use crate::table_page::TablePage;
use crate::tuple::Tuple;
use crate::typedef::PageId;

verus! {

/// Where a scan stands: the page and the slot that it looks at next. A scan
/// that stands on the invalid page id is over.
pub struct ScanView {
    pub current_page_id: PageId,
    pub current_slot: u32,
}

impl ScanView {
    /// The position as a pair of page id and slot.
    pub open spec fn position(self) -> (PageId, u32) {
        (self.current_page_id, self.current_slot)
    }

    /// Whether the scan is over.
    pub open spec fn is_done(self) -> bool {
        self.current_page_id == INVALID_PAGE_ID
    }
}

/// Whether the page bytes `data` hold a live tuple with the bytes `tuple`
/// in the given slot, and nothing but deleted tuples in the slots from
/// `from` up to it.
pub open spec fn spec_next_live(data: Seq<u8>, from: int, slot: int, tuple: Seq<u8>) -> bool {
    &&& from <= slot < spec_header(data).tuple_cnt
    &&& spec_readable(data, slot)
    &&& !spec_slot(data, slot).metadata.spec_is_deleted()
    &&& spec_tuple_bytes(data, slot) == tuple
    &&& forall|skipped: int|
        from <= skipped < slot ==> spec_readable(data, skipped) && (#[trigger] spec_slot(
            data,
            skipped,
        )).metadata.spec_is_deleted()
}

/// What a page holds for a scan from a slot on.
pub enum PageStep {
    /// No slot from there on holds a live tuple.
    End,
    /// The first live tuple from there on is in this slot.
    Live(int),
    /// This slot, which cannot be read, comes before any live tuple.
    Unreadable(int),
}

/// What the page bytes `data` hold for a scan from the slot `from` on.
pub open spec fn spec_first_live(data: Seq<u8>, from: int) -> PageStep
    decreases spec_header(data).tuple_cnt - from,
{
    if from < 0 || from >= spec_header(data).tuple_cnt {
        PageStep::End
    } else if !spec_readable(data, from) {
        PageStep::Unreadable(from)
    } else if !spec_slot(data, from).metadata.spec_is_deleted() {
        PageStep::Live(from)
    } else {
        spec_first_live(data, from + 1)
    }
}

/// What a scan emits next.
pub enum ScanStep {
    /// The scan is over.
    Done,
    /// The scan emits the tuple in this slot of this page.
    Found { page_id: PageId, slot: u32, tuple: Seq<u8> },
    /// The scan stops with an invalid-data error at this slot of this page:
    /// the slot cannot be read, or no live tuple is left on the page and the
    /// page points to a page with a smaller or the same id.
    Broken { page_id: PageId, slot: u32 },
    /// The pool does not tell: a page on the way is not resident, and what
    /// the scan finds depends on what the file gives.
    Unknown,
}

impl ScanStep {
    /// Whether the scan goes on or ends as it should: it emits a tuple or is over.
    pub open spec fn tells(self) -> bool {
        self is Done || self is Found
    }
}

/// Where a scan stands after it went through the page bytes `data` from the
/// slot `from` on and found no live tuple: behind the last slot, or where it
/// stood if that is further on.
pub open spec fn spec_end_slot(data: Seq<u8>, from: u32) -> u32 {
    if from >= spec_header(data).tuple_cnt {
        from
    } else {
        spec_header(data).tuple_cnt as u32
    }
}

/// What a scan that stands at the given position emits next, going by the
/// pages that are resident in the pool: the first live tuple of the page from
/// the slot on, or else of the pages that follow in the chain.
pub open spec fn spec_scan_step(pool: PoolView, page_id: PageId, slot: u32) -> ScanStep
    decreases u32::MAX - page_id,
{
    if page_id == INVALID_PAGE_ID {
        ScanStep::Done
    } else if !pool.is_resident(page_id) {
        ScanStep::Unknown
    } else {
        let data = pool.page(page_id).data;
        match spec_first_live(data, slot as int) {
            PageStep::Unreadable(at) => ScanStep::Broken { page_id, slot: at as u32 },
            PageStep::Live(found) => ScanStep::Found {
                page_id,
                slot: found as u32,
                tuple: spec_tuple_bytes(data, found),
            },
            PageStep::End => {
                let next = spec_header(data).next_page_id;
                if next == INVALID_PAGE_ID {
                    ScanStep::Done
                } else if next <= page_id {
                    ScanStep::Broken { page_id, slot: spec_end_slot(data, slot) }
                } else {
                    spec_scan_step(pool, next, 0)
                }
            },
        }
    }
}

/// Whether a scan that went through the resident page `page_id` from the
/// slot `from` on stops with an invalid-data error at the slot `slot`: that
/// slot is the first that cannot be read, with no live tuple before it; or no
/// live tuple is left on the page, `slot` is where the scan stands then, and
/// the page points to a page with a smaller or the same id.
pub open spec fn spec_breaks_at(pool: PoolView, page_id: PageId, from: u32, slot: u32) -> bool {
    let data = pool.page(page_id).data;
    let next = spec_header(data).next_page_id;
    &&& pool.is_resident(page_id)
    &&& match spec_first_live(data, from as int) {
        PageStep::Unreadable(at) => slot == at,
        PageStep::Live(_) => false,
        PageStep::End => next != INVALID_PAGE_ID && next <= page_id && slot == spec_end_slot(
            data,
            from,
        ),
    }
}

/// Whether a scan that started at `start` is over because it went through
/// the resident page `last`, which holds no live tuple from where the scan
/// went into it, and which is the last page of the chain.
pub open spec fn spec_ends_at(pool: PoolView, start: ScanView, last: PageId) -> bool {
    let data = pool.page(last).data;
    let from = if last == start.current_page_id {
        start.current_slot
    } else {
        0u32
    };
    &&& last != INVALID_PAGE_ID
    &&& start.current_page_id <= last
    &&& pool.is_resident(last)
    &&& spec_first_live(data, from as int) is End
    &&& spec_header(data).next_page_id == INVALID_PAGE_ID
}

/// Whether a scan that started at `start` and stands at `end` failed with
/// the error `e` because the page on which it stands could not be fetched,
/// which left the pool in the state `after`. If the scan still stands on
/// the page on which it started, the pool was in the state `before` when the
/// page was to be fetched.
pub open spec fn spec_scan_fetch_fails(
    before: PoolView,
    after: PoolView,
    start: ScanView,
    end: ScanView,
    e: Error,
) -> bool {
    if end.current_page_id == start.current_page_id {
        before.fetch_fails(after, end.current_page_id, e)
    } else {
        exists|pool: PoolView| #[trigger] pool.fetch_fails(after, end.current_page_id, e)
    }
}

/// Whether a scan that started at `start` and stands at `end` failed with
/// the error `e`, which left the pool in the state `after`: with an
/// invalid-data error at a slot that cannot be read or at the end of a page
/// that points back, or as fetching the page on which the scan stands failed.
pub open spec fn spec_scan_fails(
    before: PoolView,
    after: PoolView,
    start: ScanView,
    end: ScanView,
    e: Error,
) -> bool {
    let from = if end.current_page_id == start.current_page_id {
        start.current_slot
    } else {
        0u32
    };
    if e is InvalidData {
        spec_breaks_at(after, end.current_page_id, from, end.current_slot)
    } else {
        spec_scan_fetch_fails(before, after, start, end, e)
    }
}

/// Whether the same pages are resident in both pools, with the same bytes.
pub open spec fn spec_same_contents(before: PoolView, after: PoolView) -> bool {
    &&& after.page_table == before.page_table
    &&& forall|p: PageId| #[trigger]
        before.is_resident(p) ==> after.page(p).data == before.page(p).data
}

/// What a scan emits next depends only on which pages are resident and on their bytes.
pub proof fn lemma_scan_step_same_contents(
    before: PoolView,
    after: PoolView,
    page_id: PageId,
    slot: u32,
)
    requires
        spec_same_contents(before, after),
    ensures
        spec_scan_step(after, page_id, slot) == spec_scan_step(before, page_id, slot),
    decreases u32::MAX - page_id,
{
    if page_id != INVALID_PAGE_ID && before.is_resident(page_id) {
        let data = before.page(page_id).data;
        let next = spec_header(data).next_page_id;
        if spec_first_live(data, slot as int) is End && next != INVALID_PAGE_ID && next
            > page_id {
            lemma_scan_step_same_contents(before, after, next, 0);
        }
    }
}

/// Whether no pin count of a resident page is at its limit.
pub open spec fn spec_can_pin_all(pool: PoolView) -> bool {
    forall|p: PageId| #[trigger] pool.is_resident(p) ==> pool.page(p).pin_count < u16::MAX
}

/// A forward scan over the tuples of a table heap that are not deleted, in
/// the order of the page chain and, within a page, of the slots.
///
/// The scan fetches one page at a time, so it pins one page at most. It
/// relies on the page ids growing along the chain, as they do in a heap
/// that was built by inserting: a page that points to a page with a smaller
/// or the same id is reported as invalid data.
pub struct TableTupleIterator {
    current_page_id: PageId,
    current_slot: u32,
}

impl View for TableTupleIterator {
    type V = ScanView;

    closed spec fn view(&self) -> ScanView {
        ScanView { current_page_id: self.current_page_id, current_slot: self.current_slot }
    }
}

impl TableTupleIterator {
    /// Creates a scan that starts at the first slot of the first page of the heap.
    pub fn new(table_heap: &TableHeap) -> (scan: TableTupleIterator)
        ensures
            scan@ == (ScanView { current_page_id: table_heap@.first_page_id, current_slot: 0 }),
    {
        TableTupleIterator { current_page_id: table_heap.first_page_id(), current_slot: 0 }
    }

    /// Emits the next tuple of the heap that is not deleted and was not
    /// emitted before, with its record id in 64-bit form, or `None` when the
    /// scan is over.
    ///
    /// A tuple that is emitted is the first live tuple of its page from
    /// where the scan stood, or from the first slot if the scan came from an
    /// earlier page; it comes at or behind the position of the scan, which
    /// then stands right behind it. So record ids are emitted in strictly
    /// growing order.
    ///
    /// Fails with an invalid-data error at a slot that cannot be read, and at
    /// the end of a page that points to a page with a smaller or the same
    /// id; otherwise as fetching a page fails. An error leaves the scan where
    /// the error arose, so that the next call tries again.
    pub fn next<R: Replacer, F: PageFile>(&mut self, bpm: &mut BufferPoolManager<R, F>) -> (result:
        Option<Result<(u64, Tuple), Error>>)
        requires
            old(bpm).wf(),
            spec_can_pin_all(old(bpm)@),
            !old(self)@.is_done() ==> old(bpm)@.accesses_left > u32::MAX - old(
                self,
            )@.current_page_id,
        ensures
            final(bpm).wf(),
            spec_can_pin_all(final(bpm)@),
            old(bpm)@.restores_pins(final(bpm)@),
            final(bpm)@.disk.last_allocated == old(bpm)@.disk.last_allocated,
            final(bpm)@.accesses_left <= old(bpm)@.accesses_left <= final(bpm)@.accesses_left
                + 0x1_0000_0000,
            old(self)@.is_done() ==> result is None && final(bpm)@ == old(bpm)@,
            match spec_scan_step(
                old(bpm)@,
                old(self)@.current_page_id,
                old(self)@.current_slot,
            ) {
                ScanStep::Done => result is None && spec_same_contents(old(bpm)@, final(bpm)@),
                ScanStep::Found { page_id, slot, tuple } => {
                    &&& result matches Some(Ok((id, found))) && id == spec_pack(page_id, slot)
                        && found@ == tuple
                    &&& final(self)@ == (ScanView {
                        current_page_id: page_id,
                        current_slot: (slot + 1) as u32,
                    })
                    &&& spec_same_contents(old(bpm)@, final(bpm)@)
                },
                ScanStep::Broken { page_id, slot } => {
                    &&& result matches Some(Err(e)) && e is InvalidData
                    &&& final(self)@ == (ScanView { current_page_id: page_id, current_slot: slot })
                    &&& spec_same_contents(old(bpm)@, final(bpm)@)
                },
                ScanStep::Unknown => true,
            },
            match result {
                None => {
                    &&& final(self)@.is_done()
                    &&& old(self)@.is_done() || exists|last: PageId| #[trigger]
                        spec_ends_at(final(bpm)@, old(self)@, last)
                },
                Some(Ok((id, tuple))) => {
                    let page_id = final(self)@.current_page_id;
                    let slot = (final(self)@.current_slot - 1) as u32;
                    let from = if page_id == old(self)@.current_page_id {
                        old(self)@.current_slot
                    } else {
                        0u32
                    };
                    &&& final(self)@.current_slot > 0
                    &&& !final(self)@.is_done()
                    &&& id == spec_pack(page_id, slot)
                    &&& old(self)@.current_page_id <= page_id
                    &&& !spec_precedes((page_id, slot), old(self)@.position())
                    &&& final(bpm)@.is_resident(page_id)
                    &&& spec_next_live(
                        final(bpm)@.page(page_id).data,
                        from as int,
                        slot as int,
                        tuple@,
                    )
                },
                Some(Err(e)) => {
                    &&& !final(self)@.is_done()
                    &&& !spec_precedes(final(self)@.position(), old(self)@.position())
                    &&& spec_scan_fails(old(bpm)@, final(bpm)@, old(self)@, final(self)@, e)
                },
            },
    {
        let ghost start = self@;
        let ghost goal = spec_scan_step(old(bpm)@, start.current_page_id, start.current_slot);
        loop
            invariant
                bpm.wf(),
                spec_can_pin_all(bpm@),
                !self@.is_done() ==> bpm@.accesses_left > u32::MAX - self@.current_page_id,
                start == old(self)@,
                start.is_done() ==> self@ == start && bpm@ == old(bpm)@,
                !start.is_done() ==> !self@.is_done(),
                !spec_precedes(self@.position(), start.position()),
                self@.current_page_id != start.current_page_id ==> self@.current_slot == 0,
                self@.current_page_id == start.current_page_id ==> self@ == start && bpm@ == old(
                    bpm,
                )@,
                old(bpm)@.restores_pins(bpm@),
                !(goal is Unknown) ==> spec_same_contents(old(bpm)@, bpm@) && spec_scan_step(
                    old(bpm)@,
                    self@.current_page_id,
                    self@.current_slot,
                ) == goal,
                goal == spec_scan_step(
                    old(bpm)@,
                    start.current_page_id,
                    start.current_slot,
                ),
                bpm@.disk.last_allocated == old(bpm)@.disk.last_allocated,
                bpm@.accesses_left <= old(bpm)@.accesses_left <= bpm@.accesses_left + (
                self@.current_page_id - start.current_page_id),
            decreases u32::MAX - self.current_page_id,
        {
            // stop iterating when we reach the end of the table
            if self.current_page_id == INVALID_PAGE_ID {
                return None;
            }
            let page_id = self.current_page_id;
            let ghost from = self.current_slot;
            // get the current page from the buffer pool
            let ghost reached = bpm@;
            let handle = match bpm.fetch_page_handle(page_id) {
                Ok(handle) => handle,
                Err(e) => {
                    proof {
                        assert(reached.fetch_fails(bpm@, page_id, e));
                    }
                    return Some(Err(e));
                },
            };
            let ghost fetched = bpm@;
            let frame = bpm.frame(&handle);
            let count = TablePage::tuple_count(frame);
            let mut found: Option<(RecordId, Tuple)> = None;
            let mut failure: Option<Error> = None;
            // try the slots from the current one on
            while self.current_slot < count && found.is_none() && failure.is_none()
                invariant
                    frame.wf(),
                    frame@ == fetched.page(page_id),
                    frame@.page_id == page_id,
                    count == spec_header(frame@.data).tuple_cnt,
                    self.current_page_id == page_id,
                    from <= self.current_slot,
                    found is None && failure is None ==> spec_first_live(frame@.data, from as int)
                        == spec_first_live(frame@.data, self.current_slot as int),
                    found is Some ==> spec_first_live(frame@.data, from as int) == PageStep::Live(
                        self.current_slot - 1,
                    ),
                    failure matches Some(e) ==> e is InvalidData && spec_first_live(
                        frame@.data,
                        from as int,
                    ) == PageStep::Unreadable(self.current_slot as int),
                    from < count ==> self.current_slot <= count,
                    from >= count ==> self.current_slot == from,
                    found is None || failure is None,
                    failure is None ==> forall|skipped: int|
                        from <= skipped < self.current_slot - (if found is Some {
                            1int
                        } else {
                            0int
                        }) ==> spec_readable(frame@.data, skipped) && (#[trigger] spec_slot(
                            frame@.data,
                            skipped,
                        )).metadata.spec_is_deleted(),
                    found matches Some((rid, tuple)) ==> {
                        &&& self.current_slot > from
                        &&& rid@ == (page_id, (self.current_slot - 1) as u32)
                        &&& spec_next_live(
                            frame@.data,
                            from as int,
                            self.current_slot - 1,
                            tuple@,
                        )
                    },
                decreases
                        count - self.current_slot + if found is None && failure is None {
                            1int
                        } else {
                            0int
                        },
            {
                let rid = RecordId::new(page_id, self.current_slot);
                match TablePage::get_tuple(frame, &rid) {
                    Ok((metadata, tuple)) => {
                        self.current_slot = self.current_slot + 1;
                        if !metadata.is_deleted() {
                            found = Some((rid, tuple));
                        }
                    },
                    Err(e) => {
                        failure = Some(e);
                    },
                }
            }
            let next_page_id = TablePage::next_page_id(frame);
            handle.release(bpm);
            if let Some(e) = failure {
                return Some(Err(e));
            }
            if let Some((rid, tuple)) = found {
                return Some(Ok((u64::from(rid), tuple)));
            }
            // no more tuples in this page: move to the next page
            if next_page_id == INVALID_PAGE_ID {
                self.current_page_id = INVALID_PAGE_ID;
                proof {
                    assert(spec_ends_at(bpm@, start, page_id));
                }
                return None;
            }
            if next_page_id <= page_id {
                return Some(
                    Err(Error::InvalidData("The page chain does not advance".to_string())),
                );
            }
            self.current_page_id = next_page_id;
            self.current_slot = 0;
        }
    }
}

/// A record that a scan emits: the page and the slot of a tuple, and the tuple's bytes.
pub struct ScanRecord {
    pub page_id: PageId,
    pub slot: u32,
    pub tuple: Seq<u8>,
}

impl ScanRecord {
    /// The position of the record as a pair of page id and slot.
    pub open spec fn position(self) -> (PageId, u32) {
        (self.page_id, self.slot)
    }
}

/// Whether the slot `slot` of the page `page_id` holds a live tuple that
/// can be read, going by the pool.
pub open spec fn spec_is_live(pool: PoolView, page_id: PageId, slot: int) -> bool {
    &&& page_id != INVALID_PAGE_ID
    &&& pool.is_resident(page_id)
    &&& 0 <= slot < spec_header(pool.page(page_id).data).tuple_cnt
    &&& spec_readable(pool.page(page_id).data, slot)
    &&& !spec_slot(pool.page(page_id).data, slot).metadata.spec_is_deleted()
}

/// Whether the page `target` is the page `from` or comes behind it in the
/// chain of pages, going by the pool. Page ids grow along the chain.
pub open spec fn spec_on_chain(pool: PoolView, from: PageId, target: PageId) -> bool
    decreases u32::MAX - from,
{
    from != INVALID_PAGE_ID && (from == target || {
        let next = spec_header(pool.page(from).data).next_page_id;
        &&& pool.is_resident(from)
        &&& next > from
        &&& spec_on_chain(pool, next, target)
    })
}

/// All the records that a scan from the given position emits until it is
/// over, in the order in which it emits them, if the pool tells.
pub open spec fn spec_scan_rest(pool: PoolView, page_id: PageId, slot: u32) -> Option<
    Seq<ScanRecord>,
>
    decreases u32::MAX - page_id, u32::MAX - slot,
{
    match spec_scan_step(pool, page_id, slot) {
        ScanStep::Done => Some(Seq::empty()),
        ScanStep::Broken { .. } => None,
        ScanStep::Unknown => None,
        ScanStep::Found { page_id: found_page, slot: found_slot, tuple } => {
            if found_slot < u32::MAX && (found_page > page_id || (found_page == page_id
                && found_slot >= slot)) {
                match spec_scan_rest(pool, found_page, (found_slot + 1) as u32) {
                    Some(rest) => Some(
                        seq![ScanRecord { page_id: found_page, slot: found_slot, tuple }] + rest,
                    ),
                    None => None,
                }
            } else {
                None
            }
        },
    }
}

/// What the first live tuple of a page from a slot on is: no slot before it
/// holds a live tuple, and every slot before it can be read.
pub proof fn lemma_first_live(data: Seq<u8>, from: int)
    requires
        0 <= from,
    ensures
        match spec_first_live(data, from) {
            PageStep::Live(found) => {
                &&& from <= found < spec_header(data).tuple_cnt
                &&& spec_readable(data, found)
                &&& !spec_slot(data, found).metadata.spec_is_deleted()
                &&& forall|k: int|
                    from <= k < found ==> spec_readable(data, k) && (#[trigger] spec_slot(
                        data,
                        k,
                    )).metadata.spec_is_deleted()
            },
            PageStep::End => forall|k: int|
                from <= k < spec_header(data).tuple_cnt ==> spec_readable(data, k) && (
                #[trigger] spec_slot(data, k)).metadata.spec_is_deleted(),
            PageStep::Unreadable(at) => from <= at < spec_header(data).tuple_cnt && !spec_readable(
                data,
                at,
            ),
        },
    decreases spec_header(data).tuple_cnt - from,
{
    if from < spec_header(data).tuple_cnt && spec_readable(data, from) && spec_slot(
        data,
        from,
    ).metadata.spec_is_deleted() {
        lemma_first_live(data, from + 1);
    }
}

/// A page that comes behind another in the chain has a greater page id.
pub proof fn lemma_chain_grows(pool: PoolView, from: PageId, target: PageId)
    requires
        spec_on_chain(pool, from, target),
    ensures
        from <= target,
    decreases u32::MAX - from,
{
    if from != target {
        lemma_chain_grows(pool, spec_header(pool.page(from).data).next_page_id, target);
    }
}

/// The tuple that a scan emits next is a live tuple of a page of the chain,
/// at or behind the position of the scan.
pub proof fn lemma_scan_step_finds_live(pool: PoolView, page_id: PageId, slot: u32)
    ensures
        match spec_scan_step(pool, page_id, slot) {
            ScanStep::Found { page_id: found_page, slot: found_slot, tuple } => {
                &&& spec_is_live(pool, found_page, found_slot as int)
                &&& tuple == spec_tuple_bytes(pool.page(found_page).data, found_slot as int)
                &&& spec_on_chain(pool, page_id, found_page)
                &&& !spec_precedes((found_page, found_slot), (page_id, slot))
                &&& found_slot < u32::MAX
            },
            _ => true,
        },
    decreases u32::MAX - page_id,
{
    if page_id != INVALID_PAGE_ID && pool.is_resident(page_id) {
        let data = pool.page(page_id).data;
        lemma_first_live(data, slot as int);
        let next = spec_header(data).next_page_id;
        if spec_first_live(data, slot as int) is End && next != INVALID_PAGE_ID && next
            > page_id {
            lemma_scan_step_finds_live(pool, next, 0);
        }
    }
}

/// A scan skips no live tuple: if the pool tells what a scan emits next,
/// and a page of the chain holds a live tuple at or behind the position of
/// the scan, then the scan emits a tuple, which is that tuple or comes before it.
pub proof fn lemma_scan_step_skips_nothing(
    pool: PoolView,
    page_id: PageId,
    slot: u32,
    target: PageId,
    live: int,
)
    requires
        spec_scan_step(pool, page_id, slot).tells(),
        spec_on_chain(pool, page_id, target),
        spec_is_live(pool, target, live),
        target == page_id ==> slot <= live,
    ensures
        spec_scan_step(pool, page_id, slot) matches ScanStep::Found {
            page_id: found_page,
            slot: found_slot,
            tuple,
        } && {
            &&& spec_on_chain(pool, found_page, target)
            &&& found_page < target || (found_page == target && found_slot <= live)
        },
    decreases u32::MAX - page_id,
{
    let data = pool.page(page_id).data;
    let next = spec_header(data).next_page_id;
    lemma_first_live(data, slot as int);
    lemma_chain_grows(pool, page_id, target);
    match spec_first_live(data, slot as int) {
        PageStep::Live(found) => {
        },
        PageStep::End => {
            lemma_scan_step_skips_nothing(pool, next, 0, target, live);
        },
        PageStep::Unreadable(_) => {},
    }
}

/// A scan emits live tuples of the pages of the chain, each with its bytes,
/// at or behind the position where the scan starts, in strictly growing
/// order of their record ids.
pub proof fn lemma_scan_emits_live_records_in_order(
    pool: PoolView,
    page_id: PageId,
    slot: u32,
)
    requires
        spec_scan_rest(pool, page_id, slot) is Some,
    ensures
        ({
            let records = spec_scan_rest(pool, page_id, slot)->Some_0;
            &&& forall|i: int|
                0 <= i < records.len() ==> {
                    let record = #[trigger] records[i];
                    &&& spec_is_live(pool, record.page_id, record.slot as int)
                    &&& record.tuple == spec_tuple_bytes(
                        pool.page(record.page_id).data,
                        record.slot as int,
                    )
                    &&& spec_on_chain(pool, page_id, record.page_id)
                    &&& !spec_precedes(record.position(), (page_id, slot))
                }
            &&& forall|i: int, j: int|
                0 <= i < j < records.len() ==> spec_precedes(
                    (#[trigger] records[i]).position(),
                    (#[trigger] records[j]).position(),
                )
        }),
    decreases u32::MAX - page_id, u32::MAX - slot,
{
    lemma_scan_step_finds_live(pool, page_id, slot);
    match spec_scan_step(pool, page_id, slot) {
        ScanStep::Found { page_id: found_page, slot: found_slot, tuple } => {
            let next_slot = (found_slot + 1) as u32;
            lemma_scan_emits_live_records_in_order(pool, found_page, next_slot);
            let rest = spec_scan_rest(pool, found_page, next_slot)->Some_0;
            let records = spec_scan_rest(pool, page_id, slot)->Some_0;
            assert forall|i: int| 0 <= i < records.len() implies {
                let record = #[trigger] records[i];
                &&& spec_is_live(pool, record.page_id, record.slot as int)
                &&& record.tuple == spec_tuple_bytes(
                    pool.page(record.page_id).data,
                    record.slot as int,
                )
                &&& spec_on_chain(pool, page_id, record.page_id)
                &&& !spec_precedes(record.position(), (page_id, slot))
            } by {
                if i > 0 {
                    lemma_chain_joins(pool, page_id, found_page, rest[i - 1].page_id);
                }
            }
        },
        _ => {},
    }
}

/// A page that comes behind a page of the chain comes behind the pages before that page too.
pub proof fn lemma_chain_joins(pool: PoolView, from: PageId, middle: PageId, target: PageId)
    requires
        spec_on_chain(pool, from, middle),
        spec_on_chain(pool, middle, target),
    ensures
        spec_on_chain(pool, from, target),
    decreases u32::MAX - from,
{
    if from != middle {
        lemma_chain_joins(pool, spec_header(pool.page(from).data).next_page_id, middle, target);
    }
}

/// A scan misses no live tuple: every live tuple of a page of the chain
/// that is at or behind the position where the scan starts is among the
/// records that the scan emits.
pub proof fn lemma_scan_misses_no_live_record(
    pool: PoolView,
    page_id: PageId,
    slot: u32,
    target: PageId,
    live: u32,
)
    requires
        spec_scan_rest(pool, page_id, slot) is Some,
        spec_on_chain(pool, page_id, target),
        spec_is_live(pool, target, live as int),
        target == page_id ==> slot <= live,
    ensures
        exists|i: int|
            0 <= i < spec_scan_rest(pool, page_id, slot)->Some_0.len() && (
            #[trigger] spec_scan_rest(pool, page_id, slot)->Some_0[i]).position() == (
                target,
                live,
            ),
    decreases u32::MAX - page_id, u32::MAX - slot,
{
    lemma_scan_step_skips_nothing(pool, page_id, slot, target, live as int);
    match spec_scan_step(pool, page_id, slot) {
        ScanStep::Found { page_id: found_page, slot: found_slot, tuple } => {
            let next_slot = (found_slot + 1) as u32;
            let rest = spec_scan_rest(pool, found_page, next_slot)->Some_0;
            let records = spec_scan_rest(pool, page_id, slot)->Some_0;
            if found_page == target && found_slot == live {
                assert(records[0].position() == (target, live));
            } else {
                lemma_scan_misses_no_live_record(pool, found_page, next_slot, target, live);
                let i = choose|i: int|
                    0 <= i < rest.len() && (#[trigger] rest[i]).position() == (target, live);
                assert(records[i + 1] == rest[i]);
            }
        },
        _ => {},
    }
}

} // verus!
