//! The slotted layout of a table page.
use vstd::prelude::*;
use vstd::bytes::lemma_auto_spec_u16_to_from_le_bytes;
use vstd::bytes::lemma_auto_spec_u32_to_from_le_bytes;
use vstd::bytes::spec_u16_from_le_bytes;
use vstd::bytes::spec_u16_to_le_bytes;
use vstd::bytes::spec_u32_from_le_bytes;
use vstd::bytes::spec_u32_to_le_bytes;
use vstd::bytes::u16_from_le_bytes;
use vstd::bytes::u16_to_le_bytes;
use vstd::bytes::u32_from_le_bytes;
use vstd::bytes::u32_to_le_bytes;
use vstd::slice::slice_subrange;
use vstd::slice::slice_to_vec;
use crate::error::Error;
use crate::frame::spec_overwrite;
use crate::frame::FrameView;
use crate::frame::PageFrame;
use crate::page::PAGE_SIZE;
use crate::record_id::RecordId;
use crate::tuple::Tuple;
use crate::typedef::PageId;

verus! {

/// Size in bytes of the header at the start of a table page.
pub const TABLE_PAGE_HEADER_SIZE: usize = 16;

/// Size in bytes of one entry of the slot array.
pub const TUPLE_INFO_SIZE: usize = 6;

/// The header of a table page. On the page it takes 16 bytes: three 32-bit
/// little-endian numbers and four unused bytes.
#[derive(Clone, Copy, Debug, PartialEq, Eq, Structural)]
pub struct TablePageHeader {
    /// The next page of the table heap, or the invalid page id at the end of the chain.
    pub next_page_id: PageId,
    /// The number of slots, deleted ones included.
    pub tuple_cnt: u32,
    /// The number of slots whose tuple is logically deleted.
    pub deleted_tuple_cnt: u32,
}

/// What is kept of a tuple besides its bytes. On the page it takes 2 bytes,
/// of which the second is unused.
#[derive(Clone, Copy, Debug, PartialEq, Eq, Structural)]
pub struct TupleMetadata {
    /// Zero for a live tuple, anything else for a logically deleted one.
    pub is_deleted: u8,
}

/// One entry of the slot array: where the tuple's bytes are on the page, and
/// its metadata. On the page it takes 6 bytes: two 16-bit little-endian
/// numbers and the metadata.
#[derive(Clone, Copy, Debug, PartialEq, Eq, Structural)]
pub struct TupleInfo {
    /// The position on the page of the first byte of the tuple.
    pub offset: u16,
    /// The number of bytes of the tuple.
    pub size_bytes: u16,
    /// The tuple's metadata.
    pub metadata: TupleMetadata,
}

impl TupleInfo {
    pub fn offset(&self) -> (offset: u16)
        ensures
            offset == self.offset,
    {
        self.offset
    }

    pub fn size_bytes(&self) -> (size: u16)
        ensures
            size == self.size_bytes,
    {
        self.size_bytes
    }
}

impl TupleMetadata {
    pub fn new(is_deleted: bool) -> (metadata: TupleMetadata)
        ensures
            metadata.spec_is_deleted() == is_deleted,
            metadata.is_deleted == if is_deleted {
                1u8
            } else {
                0u8
            },
    {
        TupleMetadata {
            is_deleted: if is_deleted {
                1
            } else {
                0
            },
        }
    }

    /// Whether the tuple is logically deleted.
    pub open spec fn spec_is_deleted(&self) -> bool {
        self.is_deleted != 0
    }

    pub fn is_deleted(&self) -> (deleted: bool)
        ensures
            deleted == self.spec_is_deleted(),
    {
        self.is_deleted != 0
    }

    pub fn set_deleted(&mut self, deleted: bool)
        ensures
            final(self).spec_is_deleted() == deleted,
            final(self).is_deleted == if deleted {
                1u8
            } else {
                0u8
            },
    {
        self.is_deleted = if deleted {
            1
        } else {
            0
        };
    }
}

/// The 16-bit little-endian number at position `at` of `data`.
pub open spec fn spec_u16_at(data: Seq<u8>, at: int) -> u16 {
    spec_u16_from_le_bytes(data.subrange(at, at + 2))
}

/// The 32-bit little-endian number at position `at` of `data`.
pub open spec fn spec_u32_at(data: Seq<u8>, at: int) -> u32 {
    spec_u32_from_le_bytes(data.subrange(at, at + 4))
}

/// The header that the first bytes of a page hold.
pub open spec fn spec_header(data: Seq<u8>) -> TablePageHeader {
    TablePageHeader {
        next_page_id: spec_u32_at(data, 0),
        tuple_cnt: spec_u32_at(data, 4),
        deleted_tuple_cnt: spec_u32_at(data, 8),
    }
}

/// The 16 bytes of a header: the three numbers and four zero bytes.
pub open spec fn spec_header_bytes(header: TablePageHeader) -> Seq<u8> {
    spec_u32_to_le_bytes(header.next_page_id) + spec_u32_to_le_bytes(header.tuple_cnt)
        + spec_u32_to_le_bytes(header.deleted_tuple_cnt) + seq![0u8, 0u8, 0u8, 0u8]
}

/// The position on the page of the slot with the given index.
pub open spec fn spec_slot_start(slot: int) -> int {
    TABLE_PAGE_HEADER_SIZE + TUPLE_INFO_SIZE * slot
}

/// The slot entry with the given index that a page holds.
pub open spec fn spec_slot(data: Seq<u8>, slot: int) -> TupleInfo {
    TupleInfo {
        offset: spec_u16_at(data, spec_slot_start(slot)),
        size_bytes: spec_u16_at(data, spec_slot_start(slot) + 2),
        metadata: TupleMetadata { is_deleted: data[spec_slot_start(slot) + 4] },
    }
}

/// The 2 bytes of a tuple's metadata: the flag and a zero byte.
pub open spec fn spec_metadata_bytes(metadata: TupleMetadata) -> Seq<u8> {
    seq![metadata.is_deleted, 0u8]
}

/// The 6 bytes of a slot entry.
pub open spec fn spec_slot_bytes(info: TupleInfo) -> Seq<u8> {
    spec_u16_to_le_bytes(info.offset) + spec_u16_to_le_bytes(info.size_bytes)
        + spec_metadata_bytes(info.metadata)
}

/// The end of the free space of a page, going by its first `slots` slots:
/// the smallest offset of a tuple, or the page size if there is no slot.
pub open spec fn spec_free_end(data: Seq<u8>, slots: nat) -> int
    decreases slots,
{
    if slots == 0 {
        PAGE_SIZE as int
    } else {
        let rest = spec_free_end(data, (slots - 1) as nat);
        let offset = spec_slot(data, slots - 1).offset as int;
        if offset < rest {
            offset
        } else {
            rest
        }
    }
}

/// Whether a tuple of `len` bytes fits into a page: the free space between
/// the end of the slot array and the first tuple has room for one more slot
/// entry and the tuple.
pub open spec fn spec_fits(data: Seq<u8>, len: int) -> bool {
    let slots = spec_header(data).tuple_cnt;
    spec_slot_start(slots + 1) + len <= spec_free_end(data, slots as nat)
}

/// Whether the slot with the given index can be read: it is one of the
/// page's slots, the slot array lies on the page, and the tuple's bytes lie on
/// the page behind the slot array.
pub open spec fn spec_readable(data: Seq<u8>, slot: int) -> bool {
    let slots = spec_header(data).tuple_cnt;
    let info = spec_slot(data, slot);
    &&& 0 <= slot < slots
    &&& spec_slot_start(slots as int) <= info.offset
    &&& info.offset + info.size_bytes <= PAGE_SIZE
}

/// The bytes of the tuple in the slot with the given index.
pub open spec fn spec_tuple_bytes(data: Seq<u8>, slot: int) -> Seq<u8> {
    let info = spec_slot(data, slot);
    data.subrange(info.offset as int, info.offset + info.size_bytes)
}

/// The page after a tuple that fits was inserted: its bytes go right before
/// the free end, its slot entry goes behind the slot array, and the header
/// counts one more slot.
pub open spec fn spec_insert(data: Seq<u8>, metadata: TupleMetadata, tuple: Seq<u8>) -> Seq<u8> {
    let slots = spec_header(data).tuple_cnt;
    let offset = spec_free_end(data, slots as nat) - tuple.len();
    let info = TupleInfo { offset: offset as u16, size_bytes: tuple.len() as u16, metadata };
    let with_tuple = spec_overwrite(data, offset, tuple);
    let with_slot = spec_overwrite(with_tuple, spec_slot_start(slots as int), spec_slot_bytes(info));
    spec_overwrite(with_slot, 4, spec_u32_to_le_bytes((slots + 1) as u32))
}

/// The page with the metadata of the slot with the given index replaced.
pub open spec fn spec_update_metadata(data: Seq<u8>, slot: int, metadata: TupleMetadata) -> Seq<
    u8,
> {
    spec_overwrite(data, spec_slot_start(slot) + 4, spec_metadata_bytes(metadata))
}

/// Bytes that an overwrite does not reach stay as they were.
pub proof fn lemma_overwrite_elsewhere(
    page: Seq<u8>,
    offset: int,
    bytes: Seq<u8>,
    from: int,
    to: int,
)
    requires
        0 <= from <= to <= page.len(),
        to <= offset || offset + bytes.len() <= from,
    ensures
        spec_overwrite(page, offset, bytes).subrange(from, to) == page.subrange(from, to),
{
}

/// The bytes that an overwrite puts on the page are found there afterwards.
pub proof fn lemma_overwrite_there(
    page: Seq<u8>,
    offset: int,
    bytes: Seq<u8>,
    from: int,
    to: int,
)
    requires
        0 <= offset <= from <= to <= offset + bytes.len() <= page.len(),
    ensures
        spec_overwrite(page, offset, bytes).subrange(from, to) == bytes.subrange(
            from - offset,
            to - offset,
        ),
{
}

/// Every one of the first `slots` slots has its tuple at or behind the free end.
pub proof fn lemma_free_end_is_lower_bound(data: Seq<u8>, slots: nat, slot: int)
    requires
        0 <= slot < slots,
    ensures
        spec_free_end(data, slots) <= spec_slot(data, slot).offset,
        spec_free_end(data, slots) <= PAGE_SIZE,
    decreases slots,
{
    if slot < slots - 1 {
        lemma_free_end_is_lower_bound(data, (slots - 1) as nat, slot);
    } else {
        lemma_free_end_bounds(data, (slots - 1) as nat);
    }
}

/// The free end lies on the page.
pub proof fn lemma_free_end_bounds(data: Seq<u8>, slots: nat)
    ensures
        0 <= spec_free_end(data, slots) <= PAGE_SIZE,
    decreases slots,
{
    if slots > 0 {
        lemma_free_end_bounds(data, (slots - 1) as nat);
    }
}

/// A write that does not reach the header leaves the header as it was.
pub proof fn lemma_header_kept(data: Seq<u8>, offset: int, bytes: Seq<u8>)
    requires
        data.len() == PAGE_SIZE,
        TABLE_PAGE_HEADER_SIZE <= offset,
    ensures
        spec_header(spec_overwrite(data, offset, bytes)) == spec_header(data),
{
    lemma_overwrite_elsewhere(data, offset, bytes, 0, 4);
    lemma_overwrite_elsewhere(data, offset, bytes, 4, 8);
    lemma_overwrite_elsewhere(data, offset, bytes, 8, 12);
}

/// A write that does not reach the bytes of a slot entry leaves the entry as it was.
pub proof fn lemma_slot_kept(data: Seq<u8>, offset: int, bytes: Seq<u8>, slot: int)
    requires
        data.len() == PAGE_SIZE,
        0 <= slot,
        spec_slot_start(slot + 1) <= PAGE_SIZE,
        spec_slot_start(slot + 1) <= offset || offset + bytes.len() <= spec_slot_start(slot),
    ensures
        spec_slot(spec_overwrite(data, offset, bytes), slot) == spec_slot(data, slot),
{
    let start = spec_slot_start(slot);
    lemma_overwrite_elsewhere(data, offset, bytes, start, start + 2);
    lemma_overwrite_elsewhere(data, offset, bytes, start + 2, start + 4);
}

/// A write that reaches neither a slot entry nor the bytes of its tuple
/// leaves the tuple as it was.
pub proof fn lemma_tuple_kept(data: Seq<u8>, offset: int, bytes: Seq<u8>, slot: int)
    requires
        data.len() == PAGE_SIZE,
        0 <= slot,
        spec_slot_start(slot + 1) <= PAGE_SIZE,
        spec_slot_start(slot + 1) <= offset || offset + bytes.len() <= spec_slot_start(slot),
        spec_slot(data, slot).offset + spec_slot(data, slot).size_bytes <= PAGE_SIZE,
        spec_slot(data, slot).offset + spec_slot(data, slot).size_bytes <= offset || offset
            + bytes.len() <= spec_slot(data, slot).offset,
    ensures
        spec_slot(spec_overwrite(data, offset, bytes), slot) == spec_slot(data, slot),
        spec_tuple_bytes(spec_overwrite(data, offset, bytes), slot) == spec_tuple_bytes(
            data,
            slot,
        ),
{
    lemma_slot_kept(data, offset, bytes, slot);
}

/// Writing a number into one of the three fields of the header changes that
/// field and nothing else of the header.
pub proof fn lemma_header_field_write(data: Seq<u8>, field: int, value: u32)
    requires
        data.len() == PAGE_SIZE,
        field == 0 || field == 4 || field == 8,
    ensures
        spec_u32_at(spec_overwrite(data, field, spec_u32_to_le_bytes(value)), field) == value,
        forall|other: int|
            (other == 0 || other == 4 || other == 8) && other != field ==> spec_u32_at(
                spec_overwrite(data, field, spec_u32_to_le_bytes(value)),
                other,
            ) == spec_u32_at(data, other),
{
    lemma_auto_spec_u32_to_from_le_bytes();
    let bytes = spec_u32_to_le_bytes(value);
    lemma_overwrite_there(data, field, bytes, field, field + 4);
    assert(bytes.subrange(0, 4) =~= bytes);
    assert forall|other: int|
        (other == 0 || other == 4 || other == 8) && other != field implies spec_u32_at(
        spec_overwrite(data, field, bytes),
        other,
    ) == spec_u32_at(data, other) by {
        lemma_overwrite_elsewhere(data, field, bytes, other, other + 4);
    }
}

/// The slot entry that was written into the slot array is found there afterwards.
pub proof fn lemma_slot_write(data: Seq<u8>, slot: int, info: TupleInfo)
    requires
        data.len() == PAGE_SIZE,
        0 <= slot,
        spec_slot_start(slot + 1) <= PAGE_SIZE,
    ensures
        spec_slot(spec_overwrite(data, spec_slot_start(slot), spec_slot_bytes(info)), slot)
            == info,
        spec_slot_bytes(info).len() == TUPLE_INFO_SIZE,
{
    lemma_auto_spec_u16_to_from_le_bytes();
    let bytes = spec_slot_bytes(info);
    let start = spec_slot_start(slot);
    lemma_overwrite_there(data, start, bytes, start, start + 2);
    lemma_overwrite_there(data, start, bytes, start + 2, start + 4);
    assert(bytes.subrange(0, 2) =~= spec_u16_to_le_bytes(info.offset));
    assert(bytes.subrange(2, 4) =~= spec_u16_to_le_bytes(info.size_bytes));
}

/// After a tuple that fits was inserted, the page counts one more slot, and
/// the new slot reads back the metadata and the bytes that were inserted.
pub proof fn lemma_insert_then_get(data: Seq<u8>, metadata: TupleMetadata, tuple: Seq<u8>)
    requires
        data.len() == PAGE_SIZE,
        spec_fits(data, tuple.len() as int),
    ensures
        spec_insert(data, metadata, tuple).len() == PAGE_SIZE,
        spec_header(spec_insert(data, metadata, tuple)) == (TablePageHeader {
            tuple_cnt: (spec_header(data).tuple_cnt + 1) as u32,
            ..spec_header(data)
        }),
        spec_readable(spec_insert(data, metadata, tuple), spec_header(data).tuple_cnt as int),
        spec_slot(
            spec_insert(data, metadata, tuple),
            spec_header(data).tuple_cnt as int,
        ).metadata == metadata,
        spec_tuple_bytes(spec_insert(data, metadata, tuple), spec_header(data).tuple_cnt as int)
            == tuple,
{
    let slots = spec_header(data).tuple_cnt;
    lemma_free_end_bounds(data, slots as nat);
    let offset = spec_free_end(data, slots as nat) - tuple.len();
    let info = TupleInfo { offset: offset as u16, size_bytes: tuple.len() as u16, metadata };
    let start = spec_slot_start(slots as int);
    let with_tuple = spec_overwrite(data, offset, tuple);
    let with_slot = spec_overwrite(with_tuple, start, spec_slot_bytes(info));
    let count_bytes = spec_u32_to_le_bytes((slots + 1) as u32);
    lemma_auto_spec_u32_to_from_le_bytes();
    // the header
    lemma_header_kept(data, offset, tuple);
    lemma_slot_write(with_tuple, slots as int, info);
    lemma_header_kept(with_tuple, start, spec_slot_bytes(info));
    lemma_header_field_write(with_slot, 4, (slots + 1) as u32);
    // the new slot
    lemma_slot_kept(with_slot, 4, count_bytes, slots as int);
    // the new tuple
}

/// Inserting a tuple that fits changes no slot that the page had, and no
/// tuple that could be read.
pub proof fn lemma_insert_keeps_records(
    data: Seq<u8>,
    metadata: TupleMetadata,
    tuple: Seq<u8>,
    slot: int,
)
    requires
        data.len() == PAGE_SIZE,
        spec_fits(data, tuple.len() as int),
        0 <= slot < spec_header(data).tuple_cnt,
    ensures
        spec_slot(spec_insert(data, metadata, tuple), slot) == spec_slot(data, slot),
        spec_readable(data, slot) ==> spec_readable(spec_insert(data, metadata, tuple), slot)
            && spec_tuple_bytes(spec_insert(data, metadata, tuple), slot) == spec_tuple_bytes(
            data,
            slot,
        ),
{
    let slots = spec_header(data).tuple_cnt;
    lemma_free_end_is_lower_bound(data, slots as nat, slot);
    lemma_insert_then_get(data, metadata, tuple);
    let offset = spec_free_end(data, slots as nat) - tuple.len();
    let info = TupleInfo { offset: offset as u16, size_bytes: tuple.len() as u16, metadata };
    let start = spec_slot_start(slots as int);
    let with_tuple = spec_overwrite(data, offset, tuple);
    let with_slot = spec_overwrite(with_tuple, start, spec_slot_bytes(info));
    let count_bytes = spec_u32_to_le_bytes((slots + 1) as u32);
    lemma_auto_spec_u32_to_from_le_bytes();
    lemma_slot_write(with_tuple, slots as int, info);
    lemma_slot_kept(data, offset, tuple, slot);
    lemma_slot_kept(with_tuple, start, spec_slot_bytes(info), slot);
    lemma_slot_kept(with_slot, 4, count_bytes, slot);
}

/// Replacing the metadata of a slot changes nothing else: the header, the
/// other slots and every tuple that could be read stay as they were, the
/// tuple of that slot included.
pub proof fn lemma_update_metadata_then_get(
    data: Seq<u8>,
    slot: int,
    metadata: TupleMetadata,
    other: int,
)
    requires
        data.len() == PAGE_SIZE,
        0 <= slot < spec_header(data).tuple_cnt,
        spec_slot_start(slot + 1) <= PAGE_SIZE,
        0 <= other,
        spec_slot_start(other + 1) <= PAGE_SIZE,
    ensures
        spec_update_metadata(data, slot, metadata).len() == PAGE_SIZE,
        spec_header(spec_update_metadata(data, slot, metadata)) == spec_header(data),
        spec_slot(spec_update_metadata(data, slot, metadata), slot) == (TupleInfo {
            metadata,
            ..spec_slot(data, slot)
        }),
        other != slot ==> spec_slot(spec_update_metadata(data, slot, metadata), other)
            == spec_slot(data, other),
        spec_readable(data, other) ==> spec_readable(
            spec_update_metadata(data, slot, metadata),
            other,
        ) && spec_tuple_bytes(spec_update_metadata(data, slot, metadata), other)
            == spec_tuple_bytes(data, other),
{
    let at = spec_slot_start(slot) + 4;
    let bytes = spec_metadata_bytes(metadata);
    lemma_header_kept(data, at, bytes);
    lemma_overwrite_elsewhere(data, at, bytes, at - 4, at - 2);
    lemma_overwrite_elsewhere(data, at, bytes, at - 2, at);
    if other != slot {
        lemma_slot_kept(data, at, bytes, other);
    }
    if spec_readable(data, other) {
    }
}

/// Reads the 16-bit little-endian number at position `at`.
fn read_u16(data: &[u8], at: usize) -> (value: u16)
    requires
        data@.len() == PAGE_SIZE,
        at + 2 <= PAGE_SIZE,
    ensures
        value == spec_u16_at(data@, at as int),
{
    u16_from_le_bytes(slice_subrange(data, at, at + 2))
}

/// Reads the 32-bit little-endian number at position `at`.
fn read_u32(data: &[u8], at: usize) -> (value: u32)
    requires
        data@.len() == PAGE_SIZE,
        at + 4 <= PAGE_SIZE,
    ensures
        value == spec_u32_at(data@, at as int),
{
    u32_from_le_bytes(slice_subrange(data, at, at + 4))
}

/// The slotted layout of a page of a table: a header, a slot array that
/// grows forward behind it, and the tuples' bytes, which grow backward from
/// the end of the page. Its functions read and write that layout in the
/// bytes of a page frame.
pub struct TablePage {}

impl TablePage {
    pub fn page_id(frame: &PageFrame) -> (page_id: PageId)
        ensures
            page_id == frame@.page_id,
    {
        frame.page_id()
    }

    pub fn next_page_id(frame: &PageFrame) -> (next: PageId)
        requires
            frame.wf(),
        ensures
            next == spec_header(frame@.data).next_page_id,
    {
        read_u32(frame.data(), 0)
    }

    pub fn tuple_count(frame: &PageFrame) -> (count: u32)
        requires
            frame.wf(),
        ensures
            count == spec_header(frame@.data).tuple_cnt,
    {
        read_u32(frame.data(), 4)
    }

    /// The header of the page.
    pub fn header(frame: &PageFrame) -> (header: TablePageHeader)
        requires
            frame.wf(),
        ensures
            header == spec_header(frame@.data),
    {
        let data = frame.data();
        TablePageHeader {
            next_page_id: read_u32(data, 0),
            tuple_cnt: read_u32(data, 4),
            deleted_tuple_cnt: read_u32(data, 8),
        }
    }

    /// The slot entry with the given index, which must lie on the page.
    pub fn slot(frame: &PageFrame, slot: u32) -> (info: TupleInfo)
        requires
            frame.wf(),
            spec_slot_start(slot + 1) <= PAGE_SIZE,
        ensures
            info == spec_slot(frame@.data, slot as int),
    {
        let data = frame.data();
        let start: usize = TABLE_PAGE_HEADER_SIZE + TUPLE_INFO_SIZE * (slot as usize);
        TupleInfo {
            offset: read_u16(data, start),
            size_bytes: read_u16(data, start + 2),
            metadata: TupleMetadata { is_deleted: data[start + 4] },
        }
    }

    /// Returns the slot array, which must lie on the page.
    pub fn slot_array(frame: &PageFrame) -> (slots: Vec<TupleInfo>)
        requires
            frame.wf(),
            spec_slot_start(spec_header(frame@.data).tuple_cnt as int) <= PAGE_SIZE,
        ensures
            slots@.len() == spec_header(frame@.data).tuple_cnt,
            forall|i: int| 0 <= i < slots@.len() ==> slots@[i] == spec_slot(frame@.data, i),
    {
        let count = Self::tuple_count(frame);
        let mut slots: Vec<TupleInfo> = Vec::new();
        let mut i: u32 = 0;
        while i < count
            invariant
                frame.wf(),
                i <= count,
                count == spec_header(frame@.data).tuple_cnt,
                spec_slot_start(count as int) <= PAGE_SIZE,
                slots@.len() == i,
                forall|j: int| 0 <= j < i ==> slots@[j] == spec_slot(frame@.data, j),
            decreases count - i,
        {
            slots.push(Self::slot(frame, i));
            i += 1;
        }
        slots
    }

    /// Whether the record id names a slot of this page.
    pub open spec fn spec_valid_record_id(frame: FrameView, rid: RecordId) -> bool {
        rid@.0 == frame.page_id && rid@.1 < spec_header(frame.data).tuple_cnt
    }

    /// Checks that the record id names a slot of this page.
    fn validate_record_id(frame: &PageFrame, rid: &RecordId) -> (result: Result<(), Error>)
        requires
            frame.wf(),
        ensures
            result is Ok <==> Self::spec_valid_record_id(frame@, *rid),
            result matches Err(e) ==> e is InvalidInput,
    {
        if rid.page_id() != Self::page_id(frame) || rid.slot_id() >= Self::tuple_count(frame) {
            Err(Error::InvalidInput(rid.to_string()))
        } else {
            Ok(())
        }
    }

    /// Reads the tuple that a record id names, as a copy of its bytes, with its metadata.
    ///
    /// Fails with an invalid-input error if the record id is of another page
    /// or of no slot of this page, and with an invalid-data error if the slot
    /// entry does not describe bytes on the page behind the slot array.
    pub fn get_tuple(frame: &PageFrame, rid: &RecordId) -> (result: Result<
        (TupleMetadata, Tuple),
        Error,
    >)
        requires
            frame.wf(),
        ensures
            match result {
                Ok((metadata, tuple)) => {
                    &&& Self::spec_valid_record_id(frame@, *rid)
                    &&& spec_readable(frame@.data, rid@.1 as int)
                    &&& metadata == spec_slot(frame@.data, rid@.1 as int).metadata
                    &&& tuple@ == spec_tuple_bytes(frame@.data, rid@.1 as int)
                },
                Err(e) => {
                    &&& !Self::spec_valid_record_id(frame@, *rid) ==> e is InvalidInput
                    &&& Self::spec_valid_record_id(frame@, *rid) ==> e is InvalidData
                        && !spec_readable(frame@.data, rid@.1 as int)
                },
            },
    {
        // 1. check that the record id is valid
        match Self::validate_record_id(frame, rid) {
            Ok(()) => {},
            Err(e) => {
                return Err(e);
            },
        }
        let count = Self::tuple_count(frame);
        let slots_end: u64 = (TABLE_PAGE_HEADER_SIZE as u64) + (TUPLE_INFO_SIZE as u64) * (
        count as u64);
        if slots_end > PAGE_SIZE as u64 {
            return Err(Error::InvalidData("The slot array does not fit on the page".to_string()));
        }
        // 2. get the slot
        let slot = Self::slot(frame, rid.slot_id());
        // 3. read the tuple
        let offset = slot.offset() as usize;
        let size = slot.size_bytes() as usize;
        if offset < slots_end as usize || offset + size > PAGE_SIZE {
            return Err(Error::InvalidData("The slot does not describe a tuple".to_string()));
        }
        let tuple_data = slice_to_vec(slice_subrange(frame.data(), offset, offset + size));
        // 4. return the tuple
        Ok((slot.metadata, Tuple::from_vec(tuple_data)))
    }

    /// Writes a header with the given next pointer and no slots.
    pub fn init_header(frame: &mut PageFrame, next_page_id: PageId)
        requires
            old(frame).wf(),
        ensures
            final(frame).wf(),
            final(frame)@ == (FrameView {
                data: spec_overwrite(
                    old(frame)@.data,
                    0,
                    spec_header_bytes(
                        TablePageHeader { next_page_id, tuple_cnt: 0, deleted_tuple_cnt: 0 },
                    ),
                ),
                ..old(frame)@
            }),
            spec_header(final(frame)@.data) == (TablePageHeader {
                next_page_id,
                tuple_cnt: 0,
                deleted_tuple_cnt: 0,
            }),
    {
        let mut bytes = u32_to_le_bytes(next_page_id);
        let mut count = u32_to_le_bytes(0);
        let mut deleted = u32_to_le_bytes(0);
        let mut padding = vec![0u8, 0u8, 0u8, 0u8];
        bytes.append(&mut count);
        bytes.append(&mut deleted);
        bytes.append(&mut padding);
        proof {
            let header = TablePageHeader { next_page_id, tuple_cnt: 0, deleted_tuple_cnt: 0 };
            lemma_header_write(old(frame)@.data, header);
        }
        frame.write(0, bytes.as_slice());
    }

    pub fn set_next_page_id(frame: &mut PageFrame, next_page_id: PageId)
        requires
            old(frame).wf(),
        ensures
            final(frame).wf(),
            final(frame)@ == (FrameView {
                data: spec_overwrite(old(frame)@.data, 0, spec_u32_to_le_bytes(next_page_id)),
                ..old(frame)@
            }),
            spec_header(final(frame)@.data) == (TablePageHeader {
                next_page_id,
                ..spec_header(old(frame)@.data)
            }),
    {
        let bytes = u32_to_le_bytes(next_page_id);
        proof {
            lemma_header_field_write(old(frame)@.data, 0, next_page_id);
        }
        frame.write(0, bytes.as_slice());
    }

    pub fn set_tuple_count(frame: &mut PageFrame, tuple_count: u32)
        requires
            old(frame).wf(),
        ensures
            final(frame).wf(),
            final(frame)@ == (FrameView {
                data: spec_overwrite(old(frame)@.data, 4, spec_u32_to_le_bytes(tuple_count)),
                ..old(frame)@
            }),
            spec_header(final(frame)@.data) == (TablePageHeader {
                tuple_cnt: tuple_count,
                ..spec_header(old(frame)@.data)
            }),
    {
        let bytes = u32_to_le_bytes(tuple_count);
        proof {
            lemma_header_field_write(old(frame)@.data, 4, tuple_count);
        }
        frame.write(4, bytes.as_slice());
    }

    /// Sets the number of logically deleted tuples in the header.
    pub fn set_deleted_tuple_count(frame: &mut PageFrame, deleted_tuple_count: u32)
        requires
            old(frame).wf(),
        ensures
            final(frame).wf(),
            final(frame)@ == (FrameView {
                data: spec_overwrite(
                    old(frame)@.data,
                    8,
                    spec_u32_to_le_bytes(deleted_tuple_count),
                ),
                ..old(frame)@
            }),
            spec_header(final(frame)@.data) == (TablePageHeader {
                deleted_tuple_cnt: deleted_tuple_count,
                ..spec_header(old(frame)@.data)
            }),
    {
        let bytes = u32_to_le_bytes(deleted_tuple_count);
        proof {
            lemma_header_field_write(old(frame)@.data, 8, deleted_tuple_count);
        }
        frame.write(8, bytes.as_slice());
    }

    /// Writes the slot entry with the given index, which must lie on the page.
    pub fn write_slot(frame: &mut PageFrame, slot: u32, info: TupleInfo)
        requires
            old(frame).wf(),
            spec_slot_start(slot + 1) <= PAGE_SIZE,
        ensures
            final(frame).wf(),
            final(frame)@ == (FrameView {
                data: spec_overwrite(
                    old(frame)@.data,
                    spec_slot_start(slot as int),
                    spec_slot_bytes(info),
                ),
                ..old(frame)@
            }),
            spec_slot(final(frame)@.data, slot as int) == info,
    {
        let mut bytes = u16_to_le_bytes(info.offset);
        let mut size = u16_to_le_bytes(info.size_bytes);
        let mut metadata = vec![info.metadata.is_deleted, 0u8];
        bytes.append(&mut size);
        bytes.append(&mut metadata);
        proof {
            lemma_slot_write(old(frame)@.data, slot as int, info);
        }
        let start: usize = TABLE_PAGE_HEADER_SIZE + TUPLE_INFO_SIZE * (slot as usize);
        frame.write(start, bytes.as_slice());
    }

    /// The end of the free space of the page: the smallest offset of a tuple,
    /// or the page size if there is none. The slot array must lie on the page.
    fn free_end(frame: &PageFrame, count: u32) -> (end: usize)
        requires
            frame.wf(),
            spec_slot_start(count as int) <= PAGE_SIZE,
        ensures
            end == spec_free_end(frame@.data, count as nat),
            end <= PAGE_SIZE,
    {
        let mut end: usize = PAGE_SIZE;
        let mut i: u32 = 0;
        while i < count
            invariant
                frame.wf(),
                i <= count,
                spec_slot_start(count as int) <= PAGE_SIZE,
                end == spec_free_end(frame@.data, i as nat),
                end <= PAGE_SIZE,
            decreases count - i,
        {
            let offset = Self::slot(frame, i).offset() as usize;
            if offset < end {
                end = offset;
            }
            i += 1;
        }
        end
    }

    /// Inserts a tuple with its metadata into the page and returns its record id.
    ///
    /// The tuple's bytes are placed right before the first tuple of the page
    /// (before the end of the page if there is none), and its slot entry
    /// behind the slot array. Fails with an out-of-bounds error, leaving the
    /// page as it is, if the free space between the slot array and the first
    /// tuple is less than the size of a slot entry plus the size of the tuple.
    pub fn insert_tuple(frame: &mut PageFrame, meta: &TupleMetadata, tuple: &Tuple) -> (result:
        Result<RecordId, Error>)
        requires
            old(frame).wf(),
        ensures
            final(frame).wf(),
            match result {
                Ok(rid) => {
                    &&& spec_fits(old(frame)@.data, tuple@.len() as int)
                    &&& rid@ == (old(frame)@.page_id, spec_header(old(frame)@.data).tuple_cnt)
                    &&& final(frame)@ == (FrameView {
                        data: spec_insert(old(frame)@.data, *meta, tuple@),
                        ..old(frame)@
                    })
                },
                Err(e) => {
                    &&& e is OutOfBounds
                    &&& !spec_fits(old(frame)@.data, tuple@.len() as int)
                    &&& final(frame)@ == old(frame)@
                },
            },
    {
        let count = Self::tuple_count(frame);
        let len = tuple.tuple_size();
        let slots_end: u64 = (TABLE_PAGE_HEADER_SIZE as u64) + (TUPLE_INFO_SIZE as u64) * (
        count as u64);
        proof {
            lemma_free_end_bounds(frame@.data, count as nat);
        }
        if slots_end + (TUPLE_INFO_SIZE as u64) > PAGE_SIZE as u64 {
            return Err(Error::OutOfBounds);
        }
        let free_start: usize = slots_end as usize;
        let free_end = Self::free_end(frame, count);
        if free_end < free_start || free_end - free_start < TUPLE_INFO_SIZE || free_end
            - free_start - TUPLE_INFO_SIZE < len {
            return Err(Error::OutOfBounds);
        }
        let offset = free_end - len;
        let info = TupleInfo { offset: offset as u16, size_bytes: len as u16, metadata: *meta };
        frame.write(offset, tuple.as_slice());
        Self::write_slot(frame, count, info);
        Self::set_tuple_count(frame, count + 1);
        Ok(RecordId::new(Self::page_id(frame), count))
    }

    /// Replaces the metadata of the tuple that a record id names; the
    /// tuple's bytes stay as they are.
    ///
    /// Fails with an invalid-input error if the record id is of another page
    /// or of no slot of this page, and with an invalid-data error if the
    /// slot entry does not lie on the page.
    pub fn update_tuple_metadata(frame: &mut PageFrame, rid: &RecordId, metadata: TupleMetadata) -> (result:
        Result<(), Error>)
        requires
            old(frame).wf(),
        ensures
            final(frame).wf(),
            match result {
                Ok(()) => {
                    &&& Self::spec_valid_record_id(old(frame)@, *rid)
                    &&& spec_slot_start(rid@.1 + 1) <= PAGE_SIZE
                    &&& final(frame)@ == (FrameView {
                        data: spec_update_metadata(old(frame)@.data, rid@.1 as int, metadata),
                        ..old(frame)@
                    })
                },
                Err(e) => {
                    &&& final(frame)@ == old(frame)@
                    &&& !Self::spec_valid_record_id(old(frame)@, *rid) ==> e is InvalidInput
                    &&& Self::spec_valid_record_id(old(frame)@, *rid) ==> e is InvalidData
                        && spec_slot_start(rid@.1 + 1) > PAGE_SIZE
                },
            },
    {
        match Self::validate_record_id(frame, rid) {
            Ok(()) => {},
            Err(e) => {
                return Err(e);
            },
        }
        let slot_end: u64 = (TABLE_PAGE_HEADER_SIZE as u64) + (TUPLE_INFO_SIZE as u64) * (
        rid.slot_id() as u64 + 1);
        if slot_end > PAGE_SIZE as u64 {
            return Err(Error::InvalidData("The slot does not lie on the page".to_string()));
        }
        let bytes = vec![metadata.is_deleted, 0u8];
        frame.write(slot_end as usize - 2, bytes.as_slice());
        Ok(())
    }
}

/// The header that was written at the start of a page is found there afterwards.
pub proof fn lemma_header_write(data: Seq<u8>, header: TablePageHeader)
    requires
        data.len() == PAGE_SIZE,
    ensures
        spec_header(spec_overwrite(data, 0, spec_header_bytes(header))) == header,
        spec_header_bytes(header).len() == TABLE_PAGE_HEADER_SIZE,
{
    lemma_auto_spec_u32_to_from_le_bytes();
    let bytes = spec_header_bytes(header);
    lemma_overwrite_there(data, 0, bytes, 0, 4);
    lemma_overwrite_there(data, 0, bytes, 4, 8);
    lemma_overwrite_there(data, 0, bytes, 8, 12);
    assert(bytes.subrange(0, 4) =~= spec_u32_to_le_bytes(header.next_page_id));
    assert(bytes.subrange(4, 8) =~= spec_u32_to_le_bytes(header.tuple_cnt));
    assert(bytes.subrange(8, 12) =~= spec_u32_to_le_bytes(header.deleted_tuple_cnt));
}

} // verus!
