//! The table heap: a chain of table pages.
use vstd::prelude::*;
use crate::buffer_pool::lemma_visit;
use crate::buffer_pool::BufferPoolManager;
use crate::buffer_pool::PoolView;
use crate::disk_manager::PageFile;
use crate::error::Error;
use crate::frame::spec_overwrite;
use crate::frame::spec_zero_page;
use crate::page::INVALID_PAGE_ID;
use crate::page::PAGE_SIZE;
use crate::record_id::RecordId;
use crate::replacer::Replacer;
use crate::table_page::lemma_header_field_write;
use crate::table_page::lemma_insert_then_get;
use crate::table_page::lemma_update_metadata_then_get;
use crate::table_page::spec_fits;
use crate::table_page::spec_header;
use crate::table_page::spec_header_bytes;
use crate::table_page::spec_insert;
use crate::table_page::spec_readable;
use crate::table_page::spec_slot;
use crate::table_page::spec_slot_start;
use crate::table_page::spec_tuple_bytes;
use crate::table_page::spec_update_metadata;
use crate::table_page::TablePage;
use crate::table_page::TablePageHeader;
use crate::table_page::TupleMetadata;
use crate::tuple::Tuple;
use crate::typedef::FrameId;
use crate::typedef::PageId;
use vstd::bytes::spec_u32_to_le_bytes;

verus! {

/// The abstract state of a table heap.
pub struct HeapView {
    /// The first page of the chain.
    pub first_page_id: PageId,
    /// The last page of the chain, into which tuples are inserted.
    pub last_page_id: PageId,
    /// The number of pages of the chain.
    pub page_cnt: u32,
}

/// A table stored as a chain of table pages, each of which points to the next.
pub struct TableHeap {
    table_name: String,
    page_cnt: u32,
    first_page_id: PageId,
    last_page_id: PageId,
}

/// The bytes of a new, empty table page: zeros behind a header with no next page.
pub open spec fn spec_empty_table_page() -> Seq<u8> {
    spec_overwrite(
        spec_zero_page(),
        0,
        spec_header_bytes(
            TablePageHeader { next_page_id: INVALID_PAGE_ID, tuple_cnt: 0, deleted_tuple_cnt: 0 },
        ),
    )
}

/// The metadata of a tuple that is not deleted.
pub open spec fn spec_live() -> TupleMetadata {
    TupleMetadata { is_deleted: 0 }
}

/// The metadata of a tuple that is logically deleted.
pub open spec fn spec_deleted() -> TupleMetadata {
    TupleMetadata { is_deleted: 1 }
}

/// Whether the page bytes `data` hold, in the slot that `rid` names, a
/// tuple with the given metadata and bytes that can be read.
pub open spec fn spec_holds_record(
    data: Seq<u8>,
    rid: RecordId,
    metadata: TupleMetadata,
    tuple: Seq<u8>,
) -> bool {
    &&& rid@.1 < spec_header(data).tuple_cnt
    &&& spec_readable(data, rid@.1 as int)
    &&& spec_slot(data, rid@.1 as int).metadata == metadata
    &&& spec_tuple_bytes(data, rid@.1 as int) == tuple
}

/// The page bytes after the tuple in the given slot was logically deleted:
/// the slot is marked, and the header counts one more deleted tuple unless
/// the tuple was marked before.
pub open spec fn spec_delete(data: Seq<u8>, slot: int) -> Seq<u8> {
    let marked = spec_update_metadata(data, slot, spec_deleted());
    if spec_slot(data, slot).metadata.spec_is_deleted() {
        marked
    } else {
        spec_overwrite(
            marked,
            8,
            spec_u32_to_le_bytes((spec_header(data).deleted_tuple_cnt + 1) as u32),
        )
    }
}

/// The largest number of bytes of a tuple that fits into an empty table page.
pub open spec fn spec_max_tuple_len() -> int {
    PAGE_SIZE - spec_slot_start(1)
}

/// Whether `after` is the pool after the tuple that `rid` names was
/// logically deleted on a page whose bytes were `source` when it was fetched:
/// the tuple was there to be read, and the page was visited and left dirty,
/// with the tuple marked.
pub open spec fn spec_deletes(
    before: PoolView,
    after: PoolView,
    rid: RecordId,
    metadata: TupleMetadata,
    tuple: Seq<u8>,
    source: Seq<u8>,
) -> bool {
    &&& before.fetched_bytes(rid@.0, source)
    &&& spec_holds_record(source, rid, metadata, tuple)
    &&& before.visits(after, rid@.0, true, spec_delete(source, rid@.1 as int))
}

/// Whether `after` is the pool after a page whose bytes were `source` when
/// it was fetched was visited for writing and left as it was, but dirty.
pub open spec fn spec_leaves(
    before: PoolView,
    after: PoolView,
    page_id: PageId,
    source: Seq<u8>,
) -> bool {
    &&& before.fetched_bytes(page_id, source)
    &&& before.visits(after, page_id, true, source)
}

/// Whether `after` is the pool after fetching the page of the record id
/// `rid` failed with the error `e`: the page was not resident; the error is an
/// invalid-input error for the invalid page id, a buffer pool error if no
/// frame was free or evictable, and an I/O error otherwise.
pub open spec fn spec_fetch_fails(before: PoolView, after: PoolView, rid: RecordId, e: Error) -> bool {
    &&& !before.is_resident(rid@.0)
    &&& before.fails_to_load(after)
    &&& before.writes_back(after)
    &&& rid@.0 == INVALID_PAGE_ID ==> e is InvalidInput && after == before
    &&& rid@.0 != INVALID_PAGE_ID ==> e is IO || (e is BufferPoolError
        && before.free_frame_count() == 0)
    &&& rid@.0 != INVALID_PAGE_ID && before.free_frame_count() == 0 ==> e is BufferPoolError
    &&& before.fetch_fails(after, rid@.0, e)
}

/// Whether `after` is the pool after inserting the tuple `tuple` failed
/// because the page `last` had no room for it, and the page that was to take
/// it could not be created: `fetched` is the pool after `last` was fetched
/// into the frame `frame_id`, and `failed` the pool after creating a page
/// failed with the error `e`. The page `last` was then let go as a changed
/// page, with its bytes as they were.
pub open spec fn spec_new_page_fails(
    before: PoolView,
    fetched: PoolView,
    failed: PoolView,
    after: PoolView,
    last: PageId,
    frame_id: FrameId,
    tuple: Seq<u8>,
    e: Error,
) -> bool {
    &&& before.fetches(fetched, last, frame_id, 1)
    &&& !spec_fits(fetched.page(last).data, tuple.len() as int)
    &&& fetched.create_fails(failed, e)
    &&& failed.is_resident(last)
    &&& after == failed.with_unpin(last, true)
}

/// Whether `after` is the pool after inserting the tuple `tuple` into a heap
/// whose last page is `last` failed with the error `e`, which is not an
/// out-of-bounds error: either fetching the last page failed, or that page
/// had no room for the tuple and creating the next page failed.
pub open spec fn spec_insert_fails(
    before: PoolView,
    after: PoolView,
    last: PageId,
    tuple: Seq<u8>,
    e: Error,
) -> bool {
    ||| before.fetch_fails(after, last, e)
    ||| exists|fetched: PoolView, failed: PoolView, frame_id: FrameId| #[trigger]
        spec_new_page_fails(before, fetched, failed, after, last, frame_id, tuple, e)
}

/// Whether `after` is the pool after reading the tuple that `rid` names
/// failed with the error `e`: either fetching the page failed, or the page
/// was visited and does not hold the tuple. Then the error is an invalid-input
/// error if the page has no such slot, and an invalid-data error if the slot
/// cannot be read.
pub open spec fn spec_get_fails(before: PoolView, after: PoolView, rid: RecordId, e: Error) -> bool {
    ||| spec_fetch_fails(before, after, rid, e)
    ||| {
        let data = after.page(rid@.0).data;
        &&& before.fetched_bytes(rid@.0, data)
        &&& before.visits(after, rid@.0, false, data)
        &&& rid@.1 >= spec_header(data).tuple_cnt ==> e is InvalidInput
        &&& rid@.1 < spec_header(data).tuple_cnt ==> e is InvalidData && !spec_readable(
            data,
            rid@.1 as int,
        )
    }
}

/// Whether `after` is the pool after deleting the tuple that `rid` names
/// failed with the error `e`: either fetching the page failed, or the page
/// was visited and left as it was, but dirty. Then the error is an
/// invalid-input error if the page has no such slot, and an invalid-data
/// error if the slot cannot be read or the header cannot count another
/// deleted tuple.
pub open spec fn spec_delete_fails(before: PoolView, after: PoolView, rid: RecordId, e: Error) -> bool {
    ||| spec_fetch_fails(before, after, rid, e)
    ||| {
        let data = after.page(rid@.0).data;
        &&& spec_leaves(before, after, rid@.0, data)
        &&& rid@.1 >= spec_header(data).tuple_cnt ==> e is InvalidInput
        &&& rid@.1 < spec_header(data).tuple_cnt ==> e is InvalidData && (!spec_readable(
            data,
            rid@.1 as int,
        ) || spec_header(data).deleted_tuple_cnt == u32::MAX)
    }
}

/// Whether `after` is the pool after a tuple was inserted into the last
/// page of a heap, whose bytes were `source` when it was fetched and had
/// room for the tuple.
pub open spec fn spec_inserts_in_place(
    before: PoolView,
    after: PoolView,
    last: PageId,
    rid: RecordId,
    tuple: Seq<u8>,
    source: Seq<u8>,
) -> bool {
    &&& before.fetched_bytes(last, source)
    &&& spec_fits(source, tuple.len() as int)
    &&& rid@ == (last, spec_header(source).tuple_cnt)
    &&& before.visits(after, last, true, spec_insert(source, spec_live(), tuple))
}

/// Whether `after` is the pool after a tuple was inserted into a heap whose
/// last page, with the bytes `source` when it was fetched, had no room for
/// it: a new page was created, which holds the tuple in its first slot, and
/// the old last page points to it. Both pages are dirty and as pinned as the
/// old last page was before; no other page has changed.
pub open spec fn spec_inserts_in_new_page(
    before: PoolView,
    after: PoolView,
    last: PageId,
    rid: RecordId,
    tuple: Seq<u8>,
    source: Seq<u8>,
) -> bool {
    let new_page = (before.disk.last_allocated + 1) as PageId;
    &&& before.fetched_bytes(last, source)
    &&& !spec_fits(source, tuple.len() as int)
    &&& tuple.len() <= spec_max_tuple_len()
    &&& rid@ == (new_page, 0u32)
    &&& after.disk.last_allocated == new_page
    &&& after.accesses_left == before.accesses_left - 2
    &&& after.is_resident(last)
    &&& after.page(last).data == spec_overwrite(source, 0, spec_u32_to_le_bytes(new_page))
    &&& after.page(last).is_dirty
    &&& after.page(last).pin_count == if before.is_resident(last) {
        before.page(last).pin_count
    } else {
        0
    }
    &&& after.is_resident(new_page)
    &&& after.page(new_page).data == spec_insert(spec_empty_table_page(), spec_live(), tuple)
    &&& after.page(new_page).is_dirty
    &&& after.page(new_page).pin_count == 0
    &&& before.keeps_pages_except_two(after, last, new_page)
}

/// Whether `after` and `heap_after` are the pool and the heap after a tuple
/// was inserted into the heap `heap_before`, whose last page had the bytes
/// `source` when it was fetched: into that page if it had room, and the heap
/// is unchanged; into a new last page otherwise, and the heap has one page more.
pub open spec fn spec_inserts(
    before: PoolView,
    after: PoolView,
    heap_before: HeapView,
    heap_after: HeapView,
    rid: RecordId,
    tuple: Seq<u8>,
    source: Seq<u8>,
) -> bool {
    ||| {
        &&& spec_inserts_in_place(before, after, heap_before.last_page_id, rid, tuple, source)
        &&& heap_after == heap_before
    }
    ||| {
        &&& spec_inserts_in_new_page(before, after, heap_before.last_page_id, rid, tuple, source)
        &&& heap_after == (HeapView {
            last_page_id: rid@.0,
            page_cnt: (heap_before.page_cnt + 1) as u32,
            ..heap_before
        })
    }
}

/// Whether `after` is the pool after a tuple that is too large for any page
/// was refused by a heap whose last page had the bytes `source` when it was
/// fetched: a new page was created all the same, which is empty, and the old
/// last page points to it. Both pages are dirty and as pinned as the old
/// last page was before; no other page has changed.
pub open spec fn spec_refuses_tuple(
    before: PoolView,
    after: PoolView,
    last: PageId,
    tuple: Seq<u8>,
    source: Seq<u8>,
) -> bool {
    let new_page = (before.disk.last_allocated + 1) as PageId;
    &&& before.fetched_bytes(last, source)
    &&& tuple.len() > spec_max_tuple_len()
    &&& after.disk.last_allocated == new_page
    &&& after.accesses_left == before.accesses_left - 2
    &&& after.is_resident(last)
    &&& after.page(last).data == spec_overwrite(source, 0, spec_u32_to_le_bytes(new_page))
    &&& after.page(last).is_dirty
    &&& after.is_resident(new_page)
    &&& after.page(new_page).data == spec_empty_table_page()
    &&& after.page(new_page).is_dirty
    &&& after.page(new_page).pin_count == 0
}

/// After a tuple was logically deleted, its slot reads back the same bytes,
/// marked as deleted; the page has the same slots and the same next page.
pub proof fn lemma_delete_then_get(
    data: Seq<u8>,
    rid: RecordId,
    metadata: TupleMetadata,
    tuple: Seq<u8>,
)
    requires
        data.len() == PAGE_SIZE,
        spec_holds_record(data, rid, metadata, tuple),
    ensures
        spec_delete(data, rid@.1 as int).len() == PAGE_SIZE,
        spec_holds_record(spec_delete(data, rid@.1 as int), rid, spec_deleted(), tuple),
        spec_header(spec_delete(data, rid@.1 as int)).tuple_cnt == spec_header(data).tuple_cnt,
        spec_header(spec_delete(data, rid@.1 as int)).next_page_id == spec_header(
            data,
        ).next_page_id,
{
    let slot = rid@.1 as int;
    lemma_update_metadata_then_get(data, slot, spec_deleted(), slot);
    let marked = spec_update_metadata(data, slot, spec_deleted());
    if !spec_slot(data, slot).metadata.spec_is_deleted() {
        let count = (spec_header(data).deleted_tuple_cnt + 1) as u32;
        let bytes = spec_u32_to_le_bytes(count);
        vstd::bytes::lemma_auto_spec_u32_to_from_le_bytes();
        lemma_header_field_write(marked, 8, count);
        crate::table_page::lemma_tuple_kept(marked, 8, bytes, slot);
    }
}

/// Logically deleting a tuple changes no other slot, and no other tuple that could be read.
pub proof fn lemma_delete_keeps_records(data: Seq<u8>, slot: int, other: int)
    requires
        data.len() == PAGE_SIZE,
        0 <= slot < spec_header(data).tuple_cnt,
        spec_readable(data, slot),
        0 <= other,
        other != slot,
        spec_slot_start(other + 1) <= PAGE_SIZE,
    ensures
        spec_slot(spec_delete(data, slot), other) == spec_slot(data, other),
        spec_readable(data, other) ==> spec_readable(spec_delete(data, slot), other)
            && spec_tuple_bytes(spec_delete(data, slot), other) == spec_tuple_bytes(data, other),
{
    lemma_update_metadata_then_get(data, slot, spec_deleted(), other);
    let marked = spec_update_metadata(data, slot, spec_deleted());
    if !spec_slot(data, slot).metadata.spec_is_deleted() {
        let count = (spec_header(data).deleted_tuple_cnt + 1) as u32;
        let bytes = spec_u32_to_le_bytes(count);
        vstd::bytes::lemma_auto_spec_u32_to_from_le_bytes();
        lemma_header_field_write(marked, 8, count);
        crate::table_page::lemma_slot_kept(marked, 8, bytes, other);
    }
}

/// A tuple that was inserted is read back under the record id that the
/// insertion returned: with the same bytes, and not deleted.
pub proof fn lemma_insert_then_get_tuple(
    before: PoolView,
    after: PoolView,
    last: PageId,
    rid: RecordId,
    tuple: Seq<u8>,
    source: Seq<u8>,
)
    requires
        spec_inserts_in_place(before, after, last, rid, tuple, source)
            || spec_inserts_in_new_page(before, after, last, rid, tuple, source),
    ensures
        after.is_resident(rid@.0),
        spec_holds_record(after.page(rid@.0).data, rid, spec_live(), tuple),
{
    if spec_inserts_in_place(before, after, last, rid, tuple, source) {
        lemma_insert_then_get(source, spec_live(), tuple);
    } else {
        lemma_empty_table_page();
        lemma_insert_then_get(spec_empty_table_page(), spec_live(), tuple);
    }
}

/// An empty table page has no slots and no next page, and room for every
/// tuple of at most the largest length.
pub proof fn lemma_empty_table_page()
    ensures
        spec_empty_table_page().len() == PAGE_SIZE,
        spec_header(spec_empty_table_page()) == (TablePageHeader {
            next_page_id: INVALID_PAGE_ID,
            tuple_cnt: 0,
            deleted_tuple_cnt: 0,
        }),
        forall|len: int|
            0 <= len <= spec_max_tuple_len() <==> 0 <= len && #[trigger] spec_fits(
                spec_empty_table_page(),
                len,
            ),
{
    crate::table_page::lemma_header_write(
        spec_zero_page(),
        TablePageHeader { next_page_id: INVALID_PAGE_ID, tuple_cnt: 0, deleted_tuple_cnt: 0 },
    );
}

impl View for TableHeap {
    type V = HeapView;

    closed spec fn view(&self) -> HeapView {
        HeapView {
            first_page_id: self.first_page_id,
            last_page_id: self.last_page_id,
            page_cnt: self.page_cnt,
        }
    }
}

impl TableHeap {
    /// The name of the table.
    pub closed spec fn spec_name(&self) -> Seq<char> {
        self.table_name@
    }

    /// The invariant of a heap: its pages have valid ids that grow along the
    /// chain, so there are at most as many pages as ids from the first to the last.
    pub open spec fn wf(&self) -> bool {
        &&& self@.first_page_id != INVALID_PAGE_ID
        &&& self@.first_page_id <= self@.last_page_id
        &&& 1 <= self@.page_cnt <= self@.last_page_id - self@.first_page_id + 1
    }

    /// Whether the pages of this heap can have been allocated through the given pool.
    pub open spec fn belongs_to(&self, pool: PoolView) -> bool {
        self@.last_page_id <= pool.disk.last_allocated
    }

    /// Create a new table heap. A new root page is allocated from the buffer
    /// pool and gets the header of an empty table page. Fails as creating a
    /// page fails.
    pub fn new<R: Replacer, F: PageFile>(name: &str, bpm: &mut BufferPoolManager<R, F>) -> (result:
        Result<TableHeap, Error>)
        requires
            old(bpm).wf(),
            old(bpm)@.accesses_left > 0,
            old(bpm)@.disk.last_allocated < u32::MAX,
        ensures
            final(bpm).wf(),
            old(bpm)@.restores_pins(final(bpm)@),
            match result {
                Ok(heap) => {
                    let page_id = (old(bpm)@.disk.last_allocated + 1) as PageId;
                    &&& heap.wf()
                    &&& heap.belongs_to(final(bpm)@)
                    &&& heap.spec_name() == name@
                    &&& heap@ == (HeapView {
                        first_page_id: page_id,
                        last_page_id: page_id,
                        page_cnt: 1,
                    })
                    &&& final(bpm)@.is_resident(page_id)
                    &&& final(bpm)@.page(page_id).data == spec_empty_table_page()
                    &&& final(bpm)@.page(page_id).pin_count == 0
                    &&& final(bpm)@.page(page_id).is_dirty
                    &&& final(bpm)@.disk.last_allocated == page_id
                    &&& final(bpm)@.accesses_left == old(bpm)@.accesses_left - 1
                    &&& final(bpm)@.free_frame_count() == old(bpm)@.free_frame_count()
                    &&& old(bpm)@.keeps_pages_except(final(bpm)@, page_id)
                    &&& old(bpm)@.evicts_at_most_one(final(bpm)@)
                },
                Err(e) => {
                    &&& old(bpm)@.fails_to_load(final(bpm)@)
                    &&& e is IO || (e is BufferPoolError && (old(bpm)@.free_frame_count() == 0
                        || old(bpm)@.is_resident((old(bpm)@.disk.last_allocated + 1) as PageId)))
                    &&& old(bpm)@.free_frame_count() == 0 ==> e is BufferPoolError
                    &&& old(bpm)@.disk.last_allocated <= final(bpm)@.disk.last_allocated
                        <= old(bpm)@.disk.last_allocated + 1
                    &&& old(bpm)@.create_fails(final(bpm)@, e)
                },
            },
    {
        let handle = match bpm.create_page_handle() {
            Ok(handle) => handle,
            Err(e) => {
                return Err(e);
            },
        };
        let page_id = handle.page_id();
        TablePage::init_header(bpm.frame_mut(&handle), INVALID_PAGE_ID);
        handle.release(bpm);
        Ok(
            TableHeap {
                table_name: name.to_string(),
                page_cnt: 1,
                first_page_id: page_id,
                last_page_id: page_id,
            },
        )
    }

    /// The first page of the heap.
    pub fn first_page_id(&self) -> (page_id: PageId)
        ensures
            page_id == self@.first_page_id,
    {
        self.first_page_id
    }

    /// The last page of the heap.
    pub fn last_page_id(&self) -> (page_id: PageId)
        ensures
            page_id == self@.last_page_id,
    {
        self.last_page_id
    }

    /// The number of pages of the heap.
    pub fn page_count(&self) -> (count: u32)
        ensures
            count == self@.page_cnt,
    {
        self.page_cnt
    }

    /// Retrieve a tuple given its record id: the page is fetched for
    /// reading, the tuple is copied out, and the page is unpinned again.
    ///
    /// What comes back is what the page's bytes hold once the page is in the
    /// pool: for a resident page, the bytes that it had before the call.
    pub fn get_tuple<R: Replacer, F: PageFile>(
        &self,
        bpm: &mut BufferPoolManager<R, F>,
        rid: &RecordId,
    ) -> (result: Result<(TupleMetadata, Tuple), Error>)
        requires
            old(bpm).wf(),
            old(bpm)@.accesses_left > 0,
            old(bpm)@.is_resident(rid@.0) ==> old(bpm)@.page(rid@.0).pin_count < u16::MAX,
        ensures
            final(bpm).wf(),
            old(bpm)@.restores_pins(final(bpm)@),
            old(bpm)@.accesses_left - 1 <= final(bpm)@.accesses_left <= old(bpm)@.accesses_left,
            final(bpm)@.disk.last_allocated == old(bpm)@.disk.last_allocated,
            match result {
                Ok((metadata, tuple)) => {
                    &&& old(bpm)@.fetched_bytes(rid@.0, final(bpm)@.page(rid@.0).data)
                    &&& old(bpm)@.visits(
                        final(bpm)@,
                        rid@.0,
                        false,
                        final(bpm)@.page(rid@.0).data,
                    )
                    &&& spec_holds_record(final(bpm)@.page(rid@.0).data, *rid, metadata, tuple@)
                },
                Err(e) => spec_get_fails(old(bpm)@, final(bpm)@, *rid, e),
            },
    {
        let handle = match bpm.fetch_page_handle(rid.page_id()) {
            Ok(handle) => handle,
            Err(e) => {
                return Err(e);
            },
        };
        let ghost fetched = bpm@;
        let ghost frame_id = handle.frame_id;
        let result = TablePage::get_tuple(bpm.frame(&handle), rid);
        handle.release(bpm);
        proof {
            assert(fetched.frames.update(frame_id as int, fetched.frames[frame_id as int])
                =~= fetched.frames);
            lemma_visit(old(bpm)@, fetched, fetched, bpm@, rid@.0, frame_id, false);
        }
        result
    }

    /// Delete a tuple given its record id, returning the deleted tuple and the
    /// metadata that it had before. The deletion is logical: the tuple's slot
    /// is marked, and its bytes stay on the page. Deleting a tuple that is
    /// deleted already succeeds and changes nothing but the dirty flag.
    ///
    /// Fails as fetching the page and reading the tuple fail, and with an
    /// invalid-data error if the header cannot count one more deleted tuple;
    /// the page is then left as it was, but dirty.
    pub fn delete_tuple<R: Replacer, F: PageFile>(
        &self,
        bpm: &mut BufferPoolManager<R, F>,
        rid: &RecordId,
    ) -> (result: Result<(TupleMetadata, Tuple), Error>)
        requires
            old(bpm).wf(),
            old(bpm)@.accesses_left > 0,
            old(bpm)@.is_resident(rid@.0) ==> old(bpm)@.page(rid@.0).pin_count < u16::MAX,
        ensures
            final(bpm).wf(),
            old(bpm)@.restores_pins(final(bpm)@),
            old(bpm)@.accesses_left - 1 <= final(bpm)@.accesses_left <= old(bpm)@.accesses_left,
            final(bpm)@.disk.last_allocated == old(bpm)@.disk.last_allocated,
            match result {
                Ok((metadata, tuple)) => exists|source: Seq<u8>| #[trigger]
                    spec_deletes(old(bpm)@, final(bpm)@, *rid, metadata, tuple@, source),
                Err(e) => spec_delete_fails(old(bpm)@, final(bpm)@, *rid, e),
            },
    {
        let handle = match bpm.fetch_page_mut_handle(rid.page_id()) {
            Ok(handle) => handle,
            Err(e) => {
                return Err(e);
            },
        };
        let ghost fetched = bpm@;
        let ghost frame_id = handle.frame_id;
        let ghost source = fetched.page(rid@.0).data;
        proof {
            assert(fetched.frames.update(frame_id as int, fetched.frames[frame_id as int])
                =~= fetched.frames);
        }
        let (metadata, tuple) = match TablePage::get_tuple(bpm.frame_ref(&handle), rid) {
            Ok(found) => found,
            Err(e) => {
                handle.release(bpm);
                proof {
                    lemma_visit(old(bpm)@, fetched, fetched, bpm@, rid@.0, frame_id, true);
                }
                return Err(e);
            },
        };
        let header = TablePage::header(bpm.frame_ref(&handle));
        if !metadata.is_deleted() && header.deleted_tuple_cnt == u32::MAX {
            handle.release(bpm);
            proof {
                lemma_visit(old(bpm)@, fetched, fetched, bpm@, rid@.0, frame_id, true);
            }
            return Err(
                Error::InvalidData("The page cannot count another deleted tuple".to_string()),
            );
        }
        match TablePage::update_tuple_metadata(
            bpm.frame_mut(&handle),
            rid,
            TupleMetadata::new(true),
        ) {
            Ok(()) => {},
            Err(e) => {
                handle.release(bpm);
                return Err(e);
            },
        }
        if !metadata.is_deleted() {
            TablePage::set_deleted_tuple_count(
                bpm.frame_mut(&handle),
                header.deleted_tuple_cnt + 1,
            );
        }
        let ghost changed = bpm@;
        proof {
            assert(changed.frames =~= fetched.frames.update(
                frame_id as int,
                crate::frame::FrameView {
                    data: changed.frames[frame_id as int].data,
                    ..fetched.frames[frame_id as int]
                },
            ));
        }
        handle.release(bpm);
        proof {
            lemma_visit(old(bpm)@, fetched, changed, bpm@, rid@.0, frame_id, true);
            assert(spec_deletes(old(bpm)@, bpm@, *rid, metadata, tuple@, source));
        }
        Ok((metadata, tuple))
    }

    /// Insert a tuple into the table heap and return its record id.
    ///
    /// The tuple goes into the last page. If that page has no room for it, a
    /// new page is created and initialized, the last page is made to point
    /// to it, and the tuple goes into the new page, which is the last page
    /// from then on.
    ///
    /// Fails with an out-of-bounds error if the tuple is too large for an
    /// empty page, and otherwise as fetching the last page and creating the
    /// new page fail. The heap is unchanged then.
    #[verifier::rlimit(60)]
    pub fn insert_tuple<R: Replacer, F: PageFile>(
        &mut self,
        bpm: &mut BufferPoolManager<R, F>,
        tuple: &Tuple,
    ) -> (result: Result<RecordId, Error>)
        requires
            old(self).wf(),
            old(self).belongs_to(old(bpm)@),
            old(bpm).wf(),
            old(bpm)@.accesses_left >= 2,
            old(bpm)@.disk.last_allocated < u32::MAX,
            old(bpm)@.is_resident(old(self)@.last_page_id) ==> old(bpm)@.page(
                old(self)@.last_page_id,
            ).pin_count < u16::MAX,
        ensures
            final(bpm).wf(),
            old(bpm)@.restores_pins(final(bpm)@),
            old(bpm)@.accesses_left - 2 <= final(bpm)@.accesses_left <= old(bpm)@.accesses_left,
            old(bpm)@.disk.last_allocated <= final(bpm)@.disk.last_allocated <= old(
                bpm,
            )@.disk.last_allocated + 1,
            final(self).wf(),
            final(self).belongs_to(final(bpm)@),
            final(self).spec_name() == old(self).spec_name(),
            final(self)@.first_page_id == old(self)@.first_page_id,
            match result {
                Ok(rid) => exists|source: Seq<u8>| #[trigger]
                    spec_inserts(
                        old(bpm)@,
                        final(bpm)@,
                        old(self)@,
                        final(self)@,
                        rid,
                        tuple@,
                        source,
                    ),
                Err(e) => {
                    &&& final(self)@ == old(self)@
                    &&& e is IO || e is BufferPoolError || e is OutOfBounds
                    &&& e is OutOfBounds ==> exists|source: Seq<u8>| #[trigger]
                        spec_refuses_tuple(
                            old(bpm)@,
                            final(bpm)@,
                            old(self)@.last_page_id,
                            tuple@,
                            source,
                        )
                    &&& e is BufferPoolError ==> old(bpm)@.free_frame_count() <= 1 || old(
                        bpm,
                    )@.is_resident((old(bpm)@.disk.last_allocated + 1) as PageId)
                    &&& !(e is OutOfBounds) ==> spec_insert_fails(
                        old(bpm)@,
                        final(bpm)@,
                        old(self)@.last_page_id,
                        tuple@,
                        e,
                    )
                },
            },
            tuple@.len() > spec_max_tuple_len() ==> result is Err,
            old(bpm)@.is_resident(old(self)@.last_page_id) && spec_fits(
                old(bpm)@.page(old(self)@.last_page_id).data,
                tuple@.len() as int,
            ) ==> result is Ok,
            old(bpm)@.keeps_pages_except_two(
                final(bpm)@,
                old(self)@.last_page_id,
                (old(bpm)@.disk.last_allocated + 1) as PageId,
            ),
    {
        // For a newly inserted tuple the metadata is by default not deleted
        let metadata = TupleMetadata::new(false);
        let last = self.last_page_id;
        let current = match bpm.fetch_page_mut_handle(last) {
            Ok(handle) => handle,
            Err(e) => {
                return Err(e);
            },
        };
        let ghost fetched = bpm@;
        let ghost frame_id = current.frame_id;
        let ghost source = fetched.page(last).data;
        proof {
            assert(fetched.frames.update(frame_id as int, fetched.frames[frame_id as int])
                =~= fetched.frames);
            crate::table_page::lemma_free_end_bounds(
                source,
                spec_header(source).tuple_cnt as nat,
            );
        }
        // Try inserting the tuple into the current page.
        match TablePage::insert_tuple(bpm.frame_mut(&current), &metadata, tuple) {
            Ok(rid) => {
                let ghost changed = bpm@;
                current.release(bpm);
                proof {
                    lemma_visit(old(bpm)@, fetched, changed, bpm@, last, frame_id, true);
                    assert(spec_inserts(
                        old(bpm)@,
                        bpm@,
                        old(self)@,
                        self@,
                        rid,
                        tuple@,
                        source,
                    ));
                }
                Ok(rid)
            },
            Err(_) => {
                // There isn't enough free space in the current page, which is
                // the only way in which inserting into a page fails.
                // Allocate a new page.
                let fresh = match bpm.create_page_handle() {
                    Ok(handle) => handle,
                    Err(e) => {
                        let ghost failed = bpm@;
                        current.release(bpm);
                        proof {
                            assert(spec_new_page_fails(
                                old(bpm)@,
                                fetched,
                                failed,
                                bpm@,
                                last,
                                frame_id,
                                tuple@,
                                e,
                            ));
                        }
                        return Err(e);
                    },
                };
                let new_page_id = fresh.page_id();
                // Update the current page's header to point to the new page.
                TablePage::set_next_page_id(bpm.frame_mut(&current), new_page_id);
                // Initialize the new page (its header's next page is the invalid page id).
                TablePage::init_header(bpm.frame_mut(&fresh), INVALID_PAGE_ID);
                // Try inserting the tuple into the new page.
                let result = TablePage::insert_tuple(bpm.frame_mut(&fresh), &metadata, tuple);
                if result.is_ok() {
                    // Update the table heap's bookkeeping.
                    self.last_page_id = new_page_id;
                    self.page_cnt = self.page_cnt + 1;
                }
                fresh.release(bpm);
                current.release(bpm);
                proof {
                    if result is Ok {
                        assert(spec_inserts(
                            old(bpm)@,
                            bpm@,
                            old(self)@,
                            self@,
                            result->Ok_0,
                            tuple@,
                            source,
                        ));
                    } else {
                        assert(spec_refuses_tuple(old(bpm)@, bpm@, last, tuple@, source));
                    }
                }
                result
            },
        }
    }
}

} // verus!
