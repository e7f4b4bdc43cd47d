//! The disk manager: it assigns page ids and file offsets, and reads and
//! writes whole pages of the database file.
use vstd::prelude::*;
use vstd::std_specs::hash::group_hash_axioms;
use std::collections::HashMap;
use std::collections::VecDeque;
use crate::error::Error;
use crate::frame::spec_zero_page;
use crate::page::PAGE_SIZE;
use crate::text::text_with_number;
use crate::typedef::PageId;

verus! {

broadcast use group_hash_axioms;

/// The number of pages that a new database file has room for.
pub const INITIAL_PAGE_CAPACITY: u64 = 32;

/// The file that backs a database, as the disk manager uses it.
///
/// Nothing is assumed of an implementation: whatever a call returns, the disk
/// manager keeps its own bookkeeping consistent. A failure is reported as the
/// text of its cause.
pub trait PageFile {
    /// Truncates or extends the file to `size` bytes.
    fn set_len(&mut self, size: u64) -> Result<(), String>;

    /// Reads exactly `len` bytes that start at byte `offset`.
    fn read_exact_at(&mut self, offset: u64, len: usize) -> Result<Vec<u8>, String>;

    /// Writes all of `data` at byte `offset` and makes it durable.
    fn write_all_at(&mut self, offset: u64, data: &[u8]) -> Result<(), String>;

    /// The current length of the file in bytes.
    fn len(&self) -> Result<u64, String>;
}

/// A request that the disk manager handed to the file, with what the file
/// made of it.
pub enum FileCall {
    /// The file was asked to take the length `size`, and did so or failed.
    SetLen { size: u64, done: bool },
    /// The file was asked for `len` bytes from the byte `offset` on, and gave
    /// the bytes `bytes` or failed.
    Read { offset: u64, len: usize, bytes: Option<Seq<u8>> },
    /// The file was asked to write the bytes `data` from the byte `offset`
    /// on and to make them durable, and did so or failed.
    Write { offset: u64, data: Seq<u8>, done: bool },
}

/// The bytes that the file was last asked to write from the byte `offset`
/// on, and wrote, among the requests `calls`, if there is such a request.
pub open spec fn spec_last_written(calls: Seq<FileCall>, offset: u64) -> Option<Seq<u8>>
    decreases calls.len(),
{
    if calls.len() == 0 {
        None
    } else {
        match calls.last() {
            FileCall::Write { offset: at, data, done } => if at == offset && done {
                Some(data)
            } else {
                spec_last_written(calls.drop_last(), offset)
            },
            _ => spec_last_written(calls.drop_last(), offset),
        }
    }
}

/// The bookkeeping of a disk manager, and what it has asked of the file.
pub struct DiskView {
    /// The number of pages the file has room for before it must grow.
    pub capacity: u64,
    /// The highest page id allocated so far.
    pub last_allocated: PageId,
    /// The file offset of each page that has one.
    pub pages: Map<PageId, u64>,
    /// The file offsets that deallocated pages left behind, oldest first.
    pub free_slots: Seq<u64>,
    /// The length in bytes that the disk manager last gave the file.
    pub file_len: u64,
    /// The requests that the disk manager has handed to the file, oldest
    /// first, each with what the file made of it.
    pub calls: Seq<FileCall>,
}

/// The length in bytes of a file with room for `capacity` pages and one more.
pub open spec fn spec_file_size(capacity: u64) -> u64 {
    ((capacity + 1) * PAGE_SIZE) as u64
}

/// What the disk manager makes of an answer of the file: a value is passed
/// on, and a failure becomes an I/O error with the text of its cause.
pub open spec fn spec_io_result<T>(answer: Result<T, String>) -> Result<T, Error> {
    match answer {
        Ok(value) => Ok(value),
        Err(cause) => Err(Error::IO(cause)),
    }
}

/// Passes on the value that the file gave, or reports its failure as an I/O
/// error with the text of the cause.
pub fn io_result<T>(answer: Result<T, String>) -> (result: Result<T, Error>)
    ensures
        result == spec_io_result(answer),
{
    match answer {
        Ok(value) => Ok(value),
        Err(cause) => Err(Error::IO(cause)),
    }
}

/// Whether `result` is what the disk manager makes of the file's answer to
/// a request for one page: the bytes if they are one page long, an I/O error
/// if they are not, and an I/O error with the text of the cause if the file
/// failed.
pub open spec fn spec_page_from_file(
    answer: Result<Vec<u8>, String>,
    result: Result<Option<Vec<u8>>, Error>,
) -> bool {
    match answer {
        Ok(bytes) => if bytes@.len() == PAGE_SIZE {
            result == Ok::<Option<Vec<u8>>, Error>(Some(bytes))
        } else {
            result matches Err(e) && e is IO
        },
        Err(cause) => result == Err::<Option<Vec<u8>>, Error>(Error::IO(cause)),
    }
}

/// The bytes that the file gave in answer to a request for bytes, if it gave any.
pub open spec fn spec_bytes_given(answer: Result<Vec<u8>, String>) -> Option<Seq<u8>> {
    match answer {
        Ok(bytes) => Some(bytes@),
        Err(_) => None,
    }
}

/// Makes a page of the file's answer to a request for one page: the bytes
/// that the file gave if they are one page long, and an I/O error otherwise.
pub fn page_from_file(answer: Result<Vec<u8>, String>) -> (result: Result<
    Option<Vec<u8>>,
    Error,
>)
    ensures
        spec_page_from_file(answer, result),
{
    match answer {
        Ok(bytes) => {
            if bytes.len() == PAGE_SIZE {
                Ok(Some(bytes))
            } else {
                Err(Error::IO("failed to fill whole buffer".to_string()))
            }
        },
        Err(cause) => Err(Error::IO(cause)),
    }
}

impl DiskView {
    /// This state with one more request handed to the file.
    pub open spec fn with_call(self, call: FileCall) -> DiskView {
        DiskView { calls: self.calls.push(call), ..self }
    }

    /// The state after the file was asked to take the length that goes with
    /// the capacity, and did so (`done`) or failed.
    pub open spec fn after_resize(self, done: bool) -> DiskView {
        let size = spec_file_size(self.capacity);
        let asked = self.with_call(FileCall::SetLen { size, done });
        if done {
            DiskView { file_len: size, ..asked }
        } else {
            asked
        }
    }

    /// The requests handed to the file once the next page without an offset
    /// got one: one more, to grow, if the file must grow.
    pub open spec fn next_calls(self) -> Seq<FileCall> {
        if self.must_grow() {
            self.calls.push(
                FileCall::SetLen { size: spec_file_size(self.next_capacity()), done: true },
            )
        } else {
            self.calls
        }
    }

    /// The state after the file could not grow for the next page without an
    /// offset: the capacity is doubled, and the file was asked in vain.
    pub open spec fn after_failed_growth(self) -> DiskView {
        DiskView { capacity: self.next_capacity(), ..self }.with_call(
            FileCall::SetLen { size: spec_file_size(self.next_capacity()), done: false },
        )
    }

    /// The state after `data` was to be written to the page `page_id`. The
    /// page gets the next offset if it has none, for which the file is first
    /// asked to grow if it must; `grown` says whether it did. Then the file is
    /// asked to write `data` at the page's offset; `done` says whether it did.
    pub open spec fn after_write(
        self,
        page_id: PageId,
        data: Seq<u8>,
        grown: bool,
        done: bool,
    ) -> DiskView {
        if self.pages.contains_key(page_id) {
            self.with_call(FileCall::Write { offset: self.pages[page_id], data, done })
        } else if self.must_grow() && !grown {
            self.after_failed_growth()
        } else {
            self.with_page(page_id).with_call(
                FileCall::Write { offset: self.next_offset(), data, done },
            )
        }
    }

    /// Whether `after` is the state after `data` could not be written to the
    /// page `page_id`: the file failed to write at the page's offset, or it
    /// could not grow for the offset that the page needed.
    pub open spec fn fails_write(self, after: DiskView, page_id: PageId, data: Seq<u8>) -> bool {
        ||| after == self.after_write(page_id, data, true, false)
        ||| !self.pages.contains_key(page_id) && self.must_grow() && after == self.after_write(
            page_id,
            data,
            false,
            false,
        )
    }

    /// The state after a new page id was to be allocated. The id is used up;
    /// it gets the next offset, for which the file is first asked to grow if
    /// it must; `grown` says whether it did. Then the file is asked to write
    /// a page of zeros at that offset; `done` says whether it did.
    pub open spec fn after_allocate(self, grown: bool, done: bool) -> DiskView {
        if self.must_grow() && !grown {
            DiskView {
                last_allocated: (self.last_allocated + 1) as PageId,
                ..self.after_failed_growth()
            }
        } else {
            self.with_new_page().with_call(
                FileCall::Write { offset: self.next_offset(), data: spec_zero_page(), done },
            )
        }
    }

    /// Whether `after` is the state after a new page id could not be
    /// allocated: the file failed to write the page of zeros, or it could
    /// not grow for the offset of the page.
    pub open spec fn fails_allocate(self, after: DiskView) -> bool {
        ||| after == self.after_allocate(true, false)
        ||| self.must_grow() && after == self.after_allocate(false, false)
    }

    /// The state after the page `page_id` was to be read: if it has an
    /// offset, the file was asked for one page of bytes from that offset on,
    /// and gave `bytes` or failed; a page without an offset is not asked for.
    pub open spec fn after_read(self, page_id: PageId, bytes: Option<Seq<u8>>) -> DiskView {
        if self.pages.contains_key(page_id) {
            self.with_call(
                FileCall::Read { offset: self.pages[page_id], len: PAGE_SIZE, bytes },
            )
        } else {
            self
        }
    }

    /// The bytes that the file last wrote at the offset of the page
    /// `page_id`, if the page has an offset and the file wrote there.
    pub open spec fn written(self, page_id: PageId) -> Option<Seq<u8>> {
        if self.pages.contains_key(page_id) {
            spec_last_written(self.calls, self.pages[page_id])
        } else {
            None
        }
    }

    /// The number of page-sized slots of the file that are in use or free for reuse.
    pub open spec fn slot_count(self) -> nat {
        self.pages.dom().len() + self.free_slots.len()
    }

    /// Whether `offset` is the start of one of the first `slots` page-sized slots.
    pub open spec fn is_slot(offset: u64, slots: nat) -> bool {
        offset % (PAGE_SIZE as u64) == 0 && offset / (PAGE_SIZE as u64) < slots
    }

    /// The offset that the next page without one gets: the oldest free slot,
    /// or the end of the slots in use.
    pub open spec fn next_offset(self) -> u64 {
        if self.free_slots.len() > 0 {
            self.free_slots[0]
        } else {
            (self.pages.dom().len() * PAGE_SIZE) as u64
        }
    }

    /// Whether the file must grow for the next page without an offset: no
    /// slot is free, and the slot that is appended would reach the capacity.
    pub open spec fn must_grow(self) -> bool {
        self.free_slots.len() == 0 && self.pages.dom().len() + 1 >= self.capacity
    }

    /// The capacity after the next page without an offset got one: doubled if
    /// the file must grow.
    pub open spec fn next_capacity(self) -> u64 {
        if self.must_grow() {
            (2 * self.capacity) as u64
        } else {
            self.capacity
        }
    }

    /// The length of the file after the next page without an offset got one:
    /// that of a file with room for the doubled capacity if the file must
    /// grow, and the length that the file had otherwise.
    pub open spec fn next_file_len(self) -> u64 {
        if self.must_grow() {
            spec_file_size(self.next_capacity())
        } else {
            self.file_len
        }
    }

    /// The free slots after the next page without an offset got one.
    pub open spec fn next_free_slots(self) -> Seq<u64> {
        if self.free_slots.len() > 0 {
            self.free_slots.drop_first()
        } else {
            self.free_slots
        }
    }

    /// The state after `page_id`, which had no offset, got the next one, for
    /// which the file has grown if it had to.
    pub open spec fn with_page(self, page_id: PageId) -> DiskView {
        DiskView {
            capacity: self.next_capacity(),
            last_allocated: self.last_allocated,
            pages: self.pages.insert(page_id, self.next_offset()),
            free_slots: self.next_free_slots(),
            file_len: self.next_file_len(),
            calls: self.next_calls(),
        }
    }

    /// The state after a new page id was allocated: the next id gets the next
    /// offset, for which the file has grown if it had to, and an offset that
    /// this id had before becomes free.
    pub open spec fn with_new_page(self) -> DiskView {
        let page_id = (self.last_allocated + 1) as PageId;
        DiskView {
            capacity: self.next_capacity(),
            last_allocated: page_id,
            pages: self.pages.insert(page_id, self.next_offset()),
            free_slots: if self.pages.contains_key(page_id) {
                self.next_free_slots().push(self.pages[page_id])
            } else {
                self.next_free_slots()
            },
            file_len: self.next_file_len(),
            calls: self.next_calls(),
        }
    }

    /// The bookkeeping without `page_id`, whose offset becomes free.
    pub open spec fn without_page(self, page_id: PageId) -> DiskView {
        DiskView {
            pages: self.pages.remove(page_id),
            free_slots: self.free_slots.push(self.pages[page_id]),
            ..self
        }
    }

    /// The invariant of the bookkeeping: every offset starts a slot of the
    /// file below its capacity, and no two pages or free slots share an offset.
    pub open spec fn inv(self) -> bool {
        &&& self.pages.dom().finite()
        &&& INITIAL_PAGE_CAPACITY <= self.capacity <= 0x4_0000_0000
        &&& self.slot_count() < self.capacity
        &&& self.slot_count() <= 0x1_0000_0001
        &&& forall|p: PageId| #[trigger]
            self.pages.contains_key(p) ==> Self::is_slot(self.pages[p], self.slot_count())
        &&& forall|i: int|
            0 <= i < self.free_slots.len() ==> Self::is_slot(
                #[trigger] self.free_slots[i],
                self.slot_count(),
            )
        &&& forall|p: PageId, q: PageId|
            #![trigger self.pages[p], self.pages[q]]
            self.pages.contains_key(p) && self.pages.contains_key(q) && p != q ==> self.pages[p]
                != self.pages[q]
        &&& forall|i: int, j: int|
            #![trigger self.free_slots[i], self.free_slots[j]]
            0 <= i < j < self.free_slots.len() ==> self.free_slots[i] != self.free_slots[j]
        &&& forall|p: PageId, i: int|
            #![trigger self.pages[p], self.free_slots[i]]
            self.pages.contains_key(p) && 0 <= i < self.free_slots.len() ==> self.pages[p]
                != self.free_slots[i]
    }
}

/// A set of page ids has at most as many elements as there are page ids.
pub proof fn lemma_page_id_set_len(ids: Set<PageId>)
    requires
        ids.finite(),
    ensures
        ids.len() <= 0x1_0000_0000,
{
    let widen = |p: PageId| p as int;
    let image = ids.map(widen);
    vstd::set_lib::lemma_map_size(ids, image, widen);
    vstd::set_lib::lemma_int_range(0, 0x1_0000_0000);
    vstd::set_lib::lemma_len_subset(image, vstd::set_lib::set_int_range(0, 0x1_0000_0000));
}

/// A page is read where it was written: after `data` was written to the
/// page `page_id`, the page has an offset; the file was last asked to write
/// `data` there; and a read of the page asks the file for one page of bytes
/// from that same offset on.
pub proof fn lemma_read_asks_where_write_wrote(
    disk: DiskView,
    page_id: PageId,
    data: Seq<u8>,
    bytes: Option<Seq<u8>>,
)
    ensures
        ({
            let written = disk.after_write(page_id, data, true, true);
            let offset = written.pages[page_id];
            &&& written.pages.contains_key(page_id)
            &&& written.calls.last() == (FileCall::Write { offset, data, done: true })
            &&& written.after_read(page_id, bytes).calls.last() == (FileCall::Read {
                offset,
                len: PAGE_SIZE,
                bytes,
            })
            &&& written.after_read(page_id, bytes).pages == written.pages
        }),
{
}

/// A write to a page that has an offset leaves every page at its offset.
pub proof fn lemma_write_keeps_offsets(disk: DiskView, page_id: PageId, data: Seq<u8>, done: bool)
    requires
        disk.pages.contains_key(page_id),
    ensures
        disk.after_write(page_id, data, true, done).pages == disk.pages,
{
}

/// A write to a page that has no offset yet leaves every other page at its
/// offset, and gives the page an offset that no other page has.
pub proof fn lemma_first_write_keeps_offsets(
    disk: DiskView,
    page_id: PageId,
    data: Seq<u8>,
    other: PageId,
)
    requires
        disk.inv(),
        !disk.pages.contains_key(page_id),
        disk.pages.contains_key(other),
    ensures
        ({
            let written = disk.after_write(page_id, data, true, true);
            &&& written.pages.contains_key(other)
            &&& written.pages[other] == disk.pages[other]
            &&& written.pages[page_id] != disk.pages[other]
        }),
{
    if disk.free_slots.len() == 0 {
        assert(disk.pages[other] / 4096 < disk.pages.dom().len());
    }
}

/// After one more request, the file has last written at `offset` what that
/// request made it write there, or else what it had last written there.
pub proof fn lemma_last_written_after(calls: Seq<FileCall>, call: FileCall, offset: u64)
    ensures
        spec_last_written(calls.push(call), offset) == match call {
            FileCall::Write { offset: at, data, done } => if at == offset && done {
                Some(data)
            } else {
                spec_last_written(calls, offset)
            },
            _ => spec_last_written(calls, offset),
        },
{
    assert(calls.push(call).drop_last() =~= calls);
}

/// What was written to a page is what the file last wrote at the page's offset.
pub proof fn lemma_write_then_written(disk: DiskView, page_id: PageId, data: Seq<u8>)
    ensures
        disk.after_write(page_id, data, true, true).written(page_id) == Some(data),
{
    let written = disk.after_write(page_id, data, true, true);
    lemma_last_written_after(
        written.calls.drop_last(),
        written.calls.last(),
        written.pages[page_id],
    );
    assert(written.calls.drop_last().push(written.calls.last()) =~= written.calls);
}

/// The requests that are handed to the file for the next page without an
/// offset leave what the file last wrote everywhere.
proof fn lemma_growth_keeps_written(disk: DiskView, offset: u64)
    ensures
        spec_last_written(disk.next_calls(), offset) == spec_last_written(disk.calls, offset),
        spec_last_written(disk.after_failed_growth().calls, offset) == spec_last_written(
            disk.calls,
            offset,
        ),
{
    lemma_last_written_after(
        disk.calls,
        FileCall::SetLen { size: spec_file_size(disk.next_capacity()), done: true },
        offset,
    );
    lemma_last_written_after(
        disk.calls,
        FileCall::SetLen { size: spec_file_size(disk.next_capacity()), done: false },
        offset,
    );
}

/// A write to a page, whether it succeeds or fails, leaves what the file
/// last wrote for every other page.
pub proof fn lemma_write_keeps_written(
    disk: DiskView,
    page_id: PageId,
    data: Seq<u8>,
    grown: bool,
    done: bool,
    other: PageId,
)
    requires
        disk.inv(),
        other != page_id,
        disk.pages.contains_key(other),
    ensures
        disk.after_write(page_id, data, grown, done).written(other) == disk.written(other),
{
    let offset = disk.pages[other];
    lemma_growth_keeps_written(disk, offset);
    if disk.pages.contains_key(page_id) {
        assert(disk.pages[page_id] != offset);
        lemma_last_written_after(
            disk.calls,
            FileCall::Write { offset: disk.pages[page_id], data, done },
            offset,
        );
    } else if !(disk.must_grow() && !grown) {
        lemma_first_write_keeps_offsets(disk, page_id, data, other);
        lemma_last_written_after(
            disk.next_calls(),
            FileCall::Write { offset: disk.next_offset(), data, done },
            offset,
        );
    }
}

/// A read leaves what the file last wrote for every page.
pub proof fn lemma_read_keeps_written(
    disk: DiskView,
    page_id: PageId,
    bytes: Option<Seq<u8>>,
    other: PageId,
)
    ensures
        disk.after_read(page_id, bytes).written(other) == disk.written(other),
{
    if disk.pages.contains_key(page_id) && disk.pages.contains_key(other) {
        lemma_last_written_after(
            disk.calls,
            FileCall::Read { offset: disk.pages[page_id], len: PAGE_SIZE, bytes },
            disk.pages[other],
        );
    }
}

/// A page that was allocated is a page of zeros in the file, and every other
/// page is left with what the file last wrote for it.
pub proof fn lemma_allocate_then_written(disk: DiskView, other: PageId)
    requires
        disk.inv(),
        disk.last_allocated < u32::MAX,
        other != disk.last_allocated + 1,
        disk.pages.contains_key(other),
    ensures
        ({
            let after = disk.after_allocate(true, true);
            &&& after.written((disk.last_allocated + 1) as PageId) == Some(spec_zero_page())
            &&& after.written(other) == disk.written(other)
        }),
{
    let call = FileCall::Write { offset: disk.next_offset(), data: spec_zero_page(), done: true };
    lemma_growth_keeps_written(disk, disk.pages[other]);
    lemma_last_written_after(disk.next_calls(), call, disk.pages[other]);
    lemma_last_written_after(disk.next_calls(), call, disk.next_offset());
    if disk.free_slots.len() > 0 {
        assert(disk.pages[other] != disk.free_slots[0]);
    } else {
        assert(disk.pages[other] / 4096 < disk.pages.dom().len());
    }
}

/// The pages of two page ids do not overlap in the file.
pub proof fn lemma_pages_do_not_overlap(disk: DiskView, first: PageId, second: PageId)
    requires
        disk.inv(),
        disk.pages.contains_key(first),
        disk.pages.contains_key(second),
        first != second,
    ensures
        disk.pages[first] + PAGE_SIZE <= disk.pages[second] || disk.pages[second] + PAGE_SIZE
            <= disk.pages[first],
{
    assert(disk.pages[first] % 4096 == 0 && disk.pages[second] % 4096 == 0);
}

/// Assigns page ids and the file offsets at which pages are stored, and
/// reads and writes whole pages at those offsets.
pub struct DiskManager<F: PageFile> {
    file: F,
    /// The maximum capacity (in pages) that the file can hold before we resize it.
    page_capacity: u64,
    /// Tracks the highest page_id allocated so far.
    last_allocated_pid: PageId,
    /// Map from page_id -> file offset
    pages: HashMap<PageId, u64>,
    /// Free file offsets to reuse for future page allocations.
    free_slots: VecDeque<u64>,
    /// The length in bytes that the file was last given.
    file_len: Ghost<u64>,
    /// What was asked of the file so far, and what the file made of it.
    calls: Ghost<Seq<FileCall>>,
}

impl<F: PageFile> View for DiskManager<F> {
    type V = DiskView;

    closed spec fn view(&self) -> DiskView {
        DiskView {
            capacity: self.page_capacity,
            last_allocated: self.last_allocated_pid,
            pages: self.pages@,
            free_slots: self.free_slots@,
            file_len: self.file_len@,
            calls: self.calls@,
        }
    }
}

impl<F: PageFile> DiskManager<F> {
    /// The invariant of the disk manager.
    pub open spec fn wf(&self) -> bool {
        self@.inv()
    }

    /// Creates a new disk manager on an open, exclusively held database file,
    /// and gives the file room for the initial capacity plus one page.
    pub fn new(file: F) -> (result: Result<DiskManager<F>, Error>)
        ensures
            match result {
                Ok(disk) => disk.wf() && disk@ == (DiskView {
                    capacity: INITIAL_PAGE_CAPACITY,
                    last_allocated: 0,
                    pages: Map::empty(),
                    free_slots: Seq::empty(),
                    file_len: spec_file_size(INITIAL_PAGE_CAPACITY),
                    calls: seq![
                        FileCall::SetLen {
                            size: spec_file_size(INITIAL_PAGE_CAPACITY),
                            done: true,
                        },
                    ],
                }),
                Err(e) => e is IO,
            },
    {
        let mut dm = DiskManager {
            file,
            page_capacity: INITIAL_PAGE_CAPACITY,
            last_allocated_pid: 0,
            pages: HashMap::new(),
            free_slots: VecDeque::new(),
            file_len: Ghost(0),
            calls: Ghost(Seq::empty()),
        };
        match dm.resize_file() {
            Ok(()) => Ok(dm),
            Err(e) => Err(e),
        }
    }

    /// The highest page id allocated so far, or the invalid page id if there is none.
    pub fn last_allocated_page_id(&self) -> (page_id: PageId)
        ensures
            page_id == self@.last_allocated,
    {
        self.last_allocated_pid
    }

    /// Resizes the underlying file to `(page_capacity + 1) * PAGE_SIZE` bytes:
    /// the file is asked to take that length, which is its length from then on
    /// if it agrees. If it fails, an I/O error with its cause is returned,
    /// and the bookkeeping stays as it is.
    fn resize_file(&mut self) -> (result: Result<(), Error>)
        requires
            old(self).page_capacity <= 0x4_0000_0000,
        ensures
            final(self)@ == old(self)@.after_resize(result is Ok),
            result matches Err(e) ==> e is IO,
    {
        assert((self.page_capacity + 1) * 4096 <= u64::MAX);
        let size = (self.page_capacity + 1) * (PAGE_SIZE as u64);
        let result = io_result(self.file.set_len(size));
        if result.is_ok() {
            self.file_len = Ghost(size);
        }
        self.calls = Ghost(self.calls@.push(FileCall::SetLen { size, done: result is Ok }));
        result
    }

    /// Picks the offset for a page that has none: the oldest free slot, or
    /// else the end of the slots in use, growing the file when that slot
    /// would reach the capacity.
    fn allocate_offset(&mut self) -> (result: Result<u64, Error>)
        requires
            old(self).wf(),
        ensures
            match result {
                Ok(offset) => {
                    &&& offset == old(self)@.next_offset()
                    &&& final(self)@ == (DiskView {
                        capacity: old(self)@.next_capacity(),
                        free_slots: old(self)@.next_free_slots(),
                        file_len: old(self)@.next_file_len(),
                        calls: old(self)@.next_calls(),
                        ..old(self)@
                    })
                },
                Err(e) => {
                    &&& e is IO
                    &&& old(self)@.must_grow()
                    &&& final(self)@ == old(self)@.after_failed_growth()
                    &&& final(self).wf()
                },
            },
    {
        if let Some(off) = self.free_slots.pop_front() {
            return Ok(off);
        }
        let used_pages: u64 = self.pages.len() as u64;
        if used_pages + 1 >= self.page_capacity {
            self.page_capacity = self.page_capacity * 2;
            match self.resize_file() {
                Ok(()) => {},
                Err(e) => {
                    return Err(e);
                },
            }
        }
        assert(used_pages * 4096 <= u64::MAX);
        let offset = used_pages * (PAGE_SIZE as u64);
        Ok(offset)
    }

    /// Allocates a new page id, gives it a file offset and fills the page
    /// with zeros: the file is asked to write one page of zeros at the
    /// offset. Fails with an I/O error if the file cannot grow or cannot
    /// write; the page id is used up all the same.
    pub fn allocate_page(&mut self) -> (result: Result<PageId, Error>)
        requires
            old(self).wf(),
            old(self)@.last_allocated < u32::MAX,
        ensures
            final(self).wf(),
            match result {
                Ok(page_id) => {
                    &&& page_id == old(self)@.last_allocated + 1
                    &&& final(self)@ == old(self)@.after_allocate(true, true)
                },
                Err(e) => {
                    &&& e is IO
                    &&& old(self)@.fails_allocate(final(self)@)
                },
            },
    {
        self.last_allocated_pid = self.last_allocated_pid + 1;
        let pid = self.last_allocated_pid;
        let new_offset = match self.allocate_offset() {
            Ok(offset) => offset,
            Err(e) => {
                return Err(e);
            },
        };
        if let Some(stale_offset) = self.pages.insert(pid, new_offset) {
            self.free_slots.push_back(stale_offset);
        }
        proof {
            lemma_with_new_page_inv(old(self)@);
        }
        let zeros = vec![0u8; PAGE_SIZE];
        assert(zeros@ =~= spec_zero_page());
        match self.write(pid, zeros.as_slice()) {
            Ok(()) => Ok(pid),
            Err(e) => Err(e),
        }
    }

    /// Deallocates a page and adds its offset to the free slots.
    /// Fails if the page has no offset; the file is not shrunk.
    pub fn deallocate_page(&mut self, page_id: PageId) -> (result: Result<(), Error>)
        requires
            old(self).wf(),
        ensures
            final(self).wf(),
            old(self)@.pages.contains_key(page_id) ==> result is Ok && final(self)@ == old(
                self,
            )@.without_page(page_id),
            !old(self)@.pages.contains_key(page_id) ==> final(self)@ == old(self)@ && (
            result matches Err(e) && e is InvalidInput),
    {
        if let Some(offset) = self.pages.remove(&page_id) {
            self.free_slots.push_back(offset);
            Ok(())
        } else {
            assert(self.pages@ =~= old(self).pages@);
            Err(Error::InvalidInput(text_with_number("Page ID ", page_id as u64, " not found")))
        }
    }

    /// The offset in the file at which the page is stored, if it has one.
    fn offset_of(&self, page_id: PageId) -> (offset: Option<u64>)
        ensures
            offset == if self@.pages.contains_key(page_id) {
                Some(self@.pages[page_id])
            } else {
                None::<u64>
            },
    {
        match self.pages.get(&page_id) {
            Some(offset) => Some(*offset),
            None => None,
        }
    }

    /// The offset in the file at which the page is to be written: the
    /// offset that the page has, or the next offset, which the page gets, if
    /// it has none. Fails with an I/O error if the file cannot grow for a
    /// new offset.
    fn offset_for_write(&mut self, page_id: PageId) -> (result: Result<u64, Error>)
        requires
            old(self).wf(),
        ensures
            final(self).wf(),
            match result {
                Ok(offset) => {
                    &&& final(self)@.pages.contains_key(page_id)
                    &&& offset == final(self)@.pages[page_id]
                    &&& final(self)@ == if old(self)@.pages.contains_key(page_id) {
                        old(self)@
                    } else {
                        old(self)@.with_page(page_id)
                    }
                },
                Err(e) => {
                    &&& e is IO
                    &&& !old(self)@.pages.contains_key(page_id)
                    &&& old(self)@.must_grow()
                    &&& final(self)@ == old(self)@.after_failed_growth()
                },
            },
    {
        if let Some(offset) = self.offset_of(page_id) {
            return Ok(offset);
        }
        let offset = match self.allocate_offset() {
            Ok(offset) => offset,
            Err(e) => {
                return Err(e);
            },
        };
        self.pages.insert(page_id, offset);
        proof {
            lemma_with_page_inv(old(self)@, page_id);
        }
        Ok(offset)
    }

    /// Reads a page if it has an offset: the file is asked for one page of
    /// bytes from that offset on, and the bytes that it gives are returned. A
    /// page without an offset gives `None`, and the file is not asked. Fails
    /// with an I/O error if the file fails or gives another number of bytes.
    pub fn read(&mut self, page_id: PageId) -> (result: Result<Option<Vec<u8>>, Error>)
        ensures
            !old(self)@.pages.contains_key(page_id) ==> (result matches Ok(None)) && final(self)@
                == old(self)@,
            old(self)@.pages.contains_key(page_id) ==> match result {
                Ok(Some(bytes)) => bytes@.len() == PAGE_SIZE && final(self)@ == old(
                    self,
                )@.after_read(page_id, Some(bytes@)),
                Ok(None) => false,
                Err(e) => {
                    &&& e is IO
                    &&& final(self)@.calls.len() > 0
                    &&& final(self)@.calls.last() matches FileCall::Read { bytes, .. } && {
                        &&& final(self)@ == old(self)@.after_read(page_id, bytes)
                        &&& bytes matches Some(given) ==> given.len() != PAGE_SIZE
                    }
                },
            },
    {
        let offset = match self.offset_of(page_id) {
            Some(offset) => offset,
            None => {
                return Ok(None);
            },
        };
        let answer = self.file.read_exact_at(offset, PAGE_SIZE);
        self.calls = Ghost(
            self.calls@.push(
                FileCall::Read { offset, len: PAGE_SIZE, bytes: spec_bytes_given(answer) },
            ),
        );
        page_from_file(answer)
    }

    /// Writes data to a page, which gets an offset if it has none: the file
    /// is asked to write the data at the page's offset and to make it
    /// durable. The data must not exceed the page size.
    ///
    /// Fails with an invalid-data error, and changes nothing, if the data is
    /// longer than a page, and with an I/O error if the file cannot grow for
    /// a new offset or cannot write.
    pub fn write(&mut self, page_id: PageId, data: &[u8]) -> (result: Result<(), Error>)
        requires
            old(self).wf(),
        ensures
            final(self).wf(),
            data@.len() > PAGE_SIZE ==> final(self)@ == old(self)@ && (result matches Err(e)
                && e is InvalidData),
            data@.len() <= PAGE_SIZE ==> match result {
                Ok(()) => final(self)@ == old(self)@.after_write(page_id, data@, true, true),
                Err(e) => {
                    &&& e is IO
                    &&& old(self)@.fails_write(final(self)@, page_id, data@)
                },
            },
    {
        if data.len() > PAGE_SIZE {
            return Err(Error::InvalidData("Page data must fit in a page.".to_string()));
        }
        let offset = match self.offset_for_write(page_id) {
            Ok(offset) => offset,
            Err(e) => {
                return Err(e);
            },
        };
        let result = io_result(self.file.write_all_at(offset, data));
        self.calls = Ghost(
            self.calls@.push(FileCall::Write { offset, data: data@, done: result is Ok }),
        );
        result
    }

    /// Returns the current size of the database file: what the file says its
    /// length is, or an I/O error with the cause for which it cannot say.
    pub fn get_db_file_size(&self) -> (result: Result<u64, Error>)
        ensures
            result matches Err(e) ==> e is IO,
    {
        io_result(self.file.len())
    }
}

/// Giving the next offset to a page that has none keeps the bookkeeping consistent.
pub proof fn lemma_with_page_inv(view: DiskView, page_id: PageId)
    requires
        view.inv(),
        !view.pages.contains_key(page_id),
    ensures
        view.with_page(page_id).inv(),
{
    lemma_page_id_set_len(view.pages.dom());
}

/// Allocating a new page id keeps the bookkeeping consistent.
pub proof fn lemma_with_new_page_inv(view: DiskView)
    requires
        view.inv(),
        view.last_allocated < u32::MAX,
    ensures
        view.with_new_page().inv(),
{
    let page_id = (view.last_allocated + 1) as PageId;
    let after = view.with_new_page();
    lemma_page_id_set_len(view.pages.dom());
    if !view.pages.contains_key(page_id) {
    } else {
        assert(after.pages.dom() =~= view.pages.dom());
    }
}

} // verus!
