//! Record ids and their 64-bit form.
use vstd::prelude::*;
use vstd::std_specs::cmp::PartialEqSpecImpl;
use vstd::std_specs::cmp::PartialOrdSpecImpl;
use vstd::std_specs::convert::FromSpecImpl;
use core::cmp::Ordering;
use vstd::string::StringExecFns;
use crate::text::decimal_string;
use crate::text::spec_decimal;
use crate::text::text_with_number;
use crate::typedef::PageId;

verus! {

/// Locates a record: the page it lives in and its slot in that page's slot array.
///
/// Record ids are totally ordered by `(page_id, slot_id)`.
#[derive(Clone, Copy, Debug, Hash, Eq, Ord)]
pub struct RecordId {
    /// The ID of the page the record lives inside.
    pub page_id: PageId,
    /// The index of the record in the page's slot array (not a byte offset).
    pub slot_id: u32,
}

impl View for RecordId {
    type V = (PageId, u32);

    open spec fn view(&self) -> (PageId, u32) {
        (self.page_id, self.slot_id)
    }
}

/// The 64-bit form of the record id `(page_id, slot_id)`: the page id in the
/// upper 32 bits, the slot id in the lower 32 bits.
pub open spec fn spec_pack(page_id: PageId, slot_id: u32) -> u64 {
    (page_id * 0x1_0000_0000 + slot_id) as u64
}

/// Whether the pair `a` of page id and slot id comes strictly before the pair `b` in record id order.
pub open spec fn spec_precedes(a: (PageId, u32), b: (PageId, u32)) -> bool {
    a.0 < b.0 || (a.0 == b.0 && a.1 < b.1)
}

impl RecordId {
    pub fn new(page_id: PageId, sid: u32) -> (rid: RecordId)
        ensures
            rid@ == (page_id, sid),
    {
        RecordId { page_id, slot_id: sid }
    }

    /// Writes the record id as the page id and the slot id in decimal, with a colon between.
    pub fn to_string(&self) -> (text: String)
        ensures
            text@ == spec_decimal(self@.0 as nat) + seq![':'] + spec_decimal(self@.1 as nat),
    {
        proof {
            reveal_strlit("");
            reveal_strlit(":");
        }
        let mut text = text_with_number("", self.page_id as u64, ":");
        let slot = decimal_string(self.slot_id as u64);
        text.append(slot.as_str());
        text
    }

    pub fn page_id(&self) -> (page_id: PageId)
        ensures
            page_id == self@.0,
    {
        self.page_id
    }

    pub fn slot_id(&self) -> (slot_id: u32)
        ensures
            slot_id == self@.1,
    {
        self.slot_id
    }
}

impl PartialEq for RecordId {
    fn eq(&self, other: &Self) -> (equal: bool) {
        self.page_id == other.page_id && self.slot_id == other.slot_id
    }
}

impl PartialEqSpecImpl for RecordId {
    open spec fn obeys_eq_spec() -> bool {
        true
    }

    open spec fn eq_spec(&self, other: &Self) -> bool {
        self.page_id == other.page_id && self.slot_id == other.slot_id
    }
}

impl PartialOrd for RecordId {
    fn partial_cmp(&self, other: &Self) -> (order: Option<Ordering>) {
        if self.page_id == other.page_id {
            if self.slot_id < other.slot_id {
                Some(Ordering::Less)
            } else if self.slot_id > other.slot_id {
                Some(Ordering::Greater)
            } else {
                Some(Ordering::Equal)
            }
        } else if self.page_id < other.page_id {
            Some(Ordering::Less)
        } else {
            Some(Ordering::Greater)
        }
    }
}

impl PartialOrdSpecImpl for RecordId {
    open spec fn obeys_partial_cmp_spec() -> bool {
        true
    }

    open spec fn partial_cmp_spec(&self, other: &Self) -> Option<Ordering> {
        if spec_precedes(self@, other@) {
            Some(Ordering::Less)
        } else if spec_precedes(other@, self@) {
            Some(Ordering::Greater)
        } else {
            Some(Ordering::Equal)
        }
    }
}

impl From<u64> for RecordId {
    /// Splits the 64-bit form into the page id (upper half) and the slot id (lower half).
    fn from(value: u64) -> (rid: RecordId) {
        let hi: u64 = value >> 32;
        let lo: u64 = value & 0xffff_ffff;
        assert(hi == value / 0x1_0000_0000 && lo == value % 0x1_0000_0000 && hi <= 0xffff_ffff
            && lo <= 0xffff_ffff) by (bit_vector)
            requires
                hi == value >> 32,
                lo == value & 0xffff_ffff,
        ;
        RecordId { page_id: hi as u32, slot_id: lo as u32 }
    }
}

impl FromSpecImpl<u64> for RecordId {
    open spec fn obeys_from_spec() -> bool {
        true
    }

    open spec fn from_spec(value: u64) -> RecordId {
        RecordId {
            page_id: (value / 0x1_0000_0000) as u32,
            slot_id: (value % 0x1_0000_0000) as u32,
        }
    }
}

impl From<RecordId> for u64 {
    /// Packs the record id as `(page_id << 32) | slot_id`.
    fn from(record: RecordId) -> (value: u64) {
        let hi: u64 = record.page_id as u64;
        let lo: u64 = record.slot_id as u64;
        assert((hi << 32) | lo == hi * 0x1_0000_0000 + lo) by (bit_vector)
            requires
                hi <= 0xffff_ffff,
                lo <= 0xffff_ffff,
        ;
        (hi << 32) | lo
    }
}

impl FromSpecImpl<RecordId> for u64 {
    open spec fn obeys_from_spec() -> bool {
        true
    }

    open spec fn from_spec(record: RecordId) -> u64 {
        spec_pack(record@.0, record@.1)
    }
}

/// Converting a 64-bit value to a record id and back gives the value again.
pub proof fn lemma_u64_round_trip(value: u64)
    ensures
        <u64 as vstd::std_specs::convert::FromSpec<RecordId>>::from_spec(
            <RecordId as vstd::std_specs::convert::FromSpec<u64>>::from_spec(value),
        ) == value,
{
}

/// Converting a record id to its 64-bit form and back gives the record id again.
pub proof fn lemma_record_id_round_trip(record: RecordId)
    ensures
        <RecordId as vstd::std_specs::convert::FromSpec<u64>>::from_spec(
            <u64 as vstd::std_specs::convert::FromSpec<RecordId>>::from_spec(record),
        ) == record,
{
}

/// The 64-bit forms of record ids are ordered as the record ids are.
pub proof fn lemma_pack_is_monotonic(a: RecordId, b: RecordId)
    ensures
        spec_precedes(a@, b@) <==> spec_pack(a@.0, a@.1) < spec_pack(b@.0, b@.1),
{
}

} // verus!
