//! What inserting and deleting do to the tuples that a scan of a table
//! heap emits, as long as the pages of the heap stay in the buffer pool.
use vstd::prelude::*;
use vstd::bytes::spec_u32_to_le_bytes;
use crate::buffer_pool::PoolView;
use crate::page::INVALID_PAGE_ID;
use crate::page::PAGE_SIZE;
use crate::record_id::RecordId;
use crate::table_heap::lemma_delete_keeps_records;
use crate::table_heap::lemma_delete_then_get;
use crate::table_heap::lemma_empty_table_page;
use crate::table_heap::spec_deletes;
use crate::table_heap::spec_empty_table_page;
use crate::table_heap::spec_inserts_in_new_page;
use crate::table_heap::spec_inserts_in_place;
use crate::table_heap::spec_live;
use crate::table_page::lemma_header_field_write;
use crate::table_page::lemma_insert_keeps_records;
use crate::table_page::lemma_insert_then_get;
use crate::table_page::lemma_tuple_kept;
use crate::table_page::spec_header;
use crate::table_page::spec_readable;
use crate::table_page::spec_slot;
use crate::table_page::spec_tuple_bytes;
use crate::table_page::TupleMetadata;
use crate::table_tuple_iterator::lemma_scan_step_finds_live;
use crate::table_tuple_iterator::spec_first_live;
use crate::table_tuple_iterator::spec_is_live;
use crate::table_tuple_iterator::spec_on_chain;
use crate::table_tuple_iterator::spec_scan_rest;
use crate::table_tuple_iterator::spec_scan_step;
use crate::table_tuple_iterator::ScanStep;
use crate::typedef::PageId;

verus! {

/// Whether the bytes are those of a table page of which every slot can be read.
pub open spec fn spec_page_ok(data: Seq<u8>) -> bool {
    &&& data.len() == PAGE_SIZE
    &&& forall|slot: int|
        0 <= slot < spec_header(data).tuple_cnt ==> #[trigger] spec_readable(data, slot)
}

/// Whether the chain of pages that starts at `page_id` is whole, going by
/// the pool: every page of it is resident and can be read, and points to a
/// page with a greater id or ends the chain.
pub open spec fn spec_chain_ok(pool: PoolView, page_id: PageId) -> bool
    decreases u32::MAX - page_id,
{
    &&& page_id != INVALID_PAGE_ID
    &&& pool.is_resident(page_id)
    &&& spec_page_ok(pool.page(page_id).data)
    &&& {
        let next = spec_header(pool.page(page_id).data).next_page_id;
        next == INVALID_PAGE_ID || (next > page_id && spec_chain_ok(pool, next))
    }
}

/// Whether the page `last` ends the chain of pages that starts at `first`.
pub open spec fn spec_chain_ends(pool: PoolView, first: PageId, last: PageId) -> bool {
    &&& spec_on_chain(pool, first, last)
    &&& spec_header(pool.page(last).data).next_page_id == INVALID_PAGE_ID
}

/// The chain behind a page of a whole chain is whole.
pub proof fn lemma_chain_ok_behind(pool: PoolView, from: PageId, target: PageId)
    requires
        spec_chain_ok(pool, from),
        spec_on_chain(pool, from, target),
    ensures
        spec_chain_ok(pool, target),
    decreases u32::MAX - from,
{
    if from != target {
        lemma_chain_ok_behind(pool, spec_header(pool.page(from).data).next_page_id, target);
    }
}

/// No page comes behind the page that ends the chain.
pub proof fn lemma_chain_end_is_last(pool: PoolView, first: PageId, last: PageId, target: PageId)
    requires
        spec_chain_ends(pool, first, last),
        spec_on_chain(pool, first, target),
    ensures
        target <= last,
        spec_on_chain(pool, target, last),
    decreases u32::MAX - first,
{
    let next = spec_header(pool.page(first).data).next_page_id;
    if first == last {
    } else if first == target {
        crate::table_tuple_iterator::lemma_chain_grows(pool, first, last);
    } else {
        lemma_chain_end_is_last(pool, next, last, target);
    }
}

/// The pool tells what a scan of a whole chain emits next.
pub proof fn lemma_chain_ok_scan_step(pool: PoolView, page_id: PageId, slot: u32)
    requires
        spec_chain_ok(pool, page_id),
    ensures
        spec_scan_step(pool, page_id, slot).tells(),
    decreases u32::MAX - page_id,
{
    let data = pool.page(page_id).data;
    lemma_page_ok_first_live(data, slot as int);
    let next = spec_header(data).next_page_id;
    if spec_first_live(data, slot as int) is End && next != INVALID_PAGE_ID {
        lemma_chain_ok_scan_step(pool, next, 0);
    }
}

/// On a page of which every slot can be read, a scan meets no slot that it cannot read.
pub proof fn lemma_page_ok_first_live(data: Seq<u8>, from: int)
    requires
        spec_page_ok(data),
        0 <= from,
    ensures
        !(spec_first_live(data, from) is Unreadable),
    decreases spec_header(data).tuple_cnt - from,
{
    if from < spec_header(data).tuple_cnt {
        if spec_slot(data, from).metadata.spec_is_deleted() {
            lemma_page_ok_first_live(data, from + 1);
        }
    }
}

/// The pool tells all that a scan of a whole chain emits. So the scan
/// emits exactly the live tuples of the chain, in growing order of their
/// record ids.
pub proof fn lemma_chain_ok_scan(pool: PoolView, page_id: PageId, slot: u32)
    requires
        spec_chain_ok(pool, page_id),
    ensures
        spec_scan_rest(pool, page_id, slot) is Some,
    decreases u32::MAX - page_id, u32::MAX - slot,
{
    lemma_chain_ok_scan_step(pool, page_id, slot);
    lemma_scan_step_finds_live(pool, page_id, slot);
    match spec_scan_step(pool, page_id, slot) {
        ScanStep::Found { page_id: found_page, slot: found_slot, tuple } => {
            lemma_chain_ok_behind(pool, page_id, found_page);
            lemma_chain_ok_scan(pool, found_page, (found_slot + 1) as u32);
        },
        _ => {},
    }
}

/// Whether two pools hold the same pages in the same frames, and every page
/// other than `page_id` with the same bytes.
pub open spec fn spec_differ_in_page(before: PoolView, after: PoolView, page_id: PageId) -> bool {
    &&& after.page_table == before.page_table
    &&& forall|p: PageId|
        p != page_id && #[trigger] before.is_resident(p) ==> after.page(p).data == before.page(
            p,
        ).data
}

/// Changing the bytes of a page of the chain, but not the page that it
/// points to, leaves the chain as it is.
pub proof fn lemma_same_chain(
    before: PoolView,
    after: PoolView,
    changed: PageId,
    from: PageId,
    target: PageId,
)
    requires
        spec_differ_in_page(before, after, changed),
        before.is_resident(changed) ==> spec_header(after.page(changed).data).next_page_id
            == spec_header(before.page(changed).data).next_page_id,
    ensures
        spec_on_chain(after, from, target) == spec_on_chain(before, from, target),
    decreases u32::MAX - from,
{
    if from != INVALID_PAGE_ID && from != target && before.is_resident(from) {
        let next = spec_header(before.page(from).data).next_page_id;
        if next > from {
            lemma_same_chain(before, after, changed, next, target);
        }
    }
}

/// Changing the bytes of a page of a whole chain so that every slot of the
/// page can still be read, and the page points where it did, leaves the chain whole.
pub proof fn lemma_same_chain_ok(before: PoolView, after: PoolView, changed: PageId, from: PageId)
    requires
        spec_differ_in_page(before, after, changed),
        spec_chain_ok(before, from),
        before.is_resident(changed) ==> spec_page_ok(after.page(changed).data) && spec_header(
            after.page(changed).data,
        ).next_page_id == spec_header(before.page(changed).data).next_page_id,
    ensures
        spec_chain_ok(after, from),
    decreases u32::MAX - from,
{
    let next = spec_header(before.page(from).data).next_page_id;
    if next != INVALID_PAGE_ID {
        lemma_same_chain_ok(before, after, changed, next);
    }
}

/// An empty table page is a whole chain of one page without a live tuple:
/// a scan of a new heap emits nothing.
pub proof fn lemma_new_heap_is_empty(pool: PoolView, first: PageId)
    requires
        first != INVALID_PAGE_ID,
        pool.is_resident(first),
        pool.page(first).data == spec_empty_table_page(),
    ensures
        spec_chain_ok(pool, first),
        spec_chain_ends(pool, first, first),
        forall|q: PageId, s: int| spec_on_chain(pool, first, q) ==> !spec_is_live(pool, q, s),
        spec_scan_rest(pool, first, 0) == Some(Seq::<crate::table_tuple_iterator::ScanRecord>::empty()),
{
    lemma_empty_table_page();
}

/// Inserting a tuple into the last page of a whole chain, with all pages
/// of the chain resident, leaves the chain whole and as it is, and makes the
/// inserted tuple live under its record id: the live tuples of the chain
/// are those that were live before and the inserted one, with their bytes.
pub proof fn lemma_insert_in_place_makes_live(
    before: PoolView,
    after: PoolView,
    first: PageId,
    last: PageId,
    rid: RecordId,
    tuple: Seq<u8>,
    source: Seq<u8>,
)
    requires
        spec_chain_ok(before, first),
        spec_chain_ends(before, first, last),
        spec_inserts_in_place(before, after, last, rid, tuple, source),
    ensures
        spec_chain_ok(after, first),
        spec_chain_ends(after, first, last),
        forall|q: PageId| spec_on_chain(after, first, q) == spec_on_chain(before, first, q),
        forall|q: PageId, s: int|
            spec_on_chain(before, first, q) ==> (spec_is_live(after, q, s) <==> (spec_is_live(
                before,
                q,
                s,
            ) || (q == rid@.0 && s == rid@.1))),
        forall|q: PageId, s: int|
            spec_on_chain(before, first, q) && spec_is_live(before, q, s) ==> spec_tuple_bytes(
                after.page(q).data,
                s,
            ) == spec_tuple_bytes(before.page(q).data, s),
        spec_tuple_bytes(after.page(rid@.0).data, rid@.1 as int) == tuple,
{
    lemma_chain_ok_behind(before, first, last);
    let data = before.page(last).data;
    let changed = after.page(last).data;
    lemma_insert_then_get(data, spec_live(), tuple);
    assert forall|slot: int| 0 <= slot < spec_header(changed).tuple_cnt implies
        #[trigger] spec_readable(changed, slot) by {
        if slot < spec_header(data).tuple_cnt {
            lemma_insert_keeps_records(data, spec_live(), tuple, slot);
        }
    }
    lemma_same_chain_ok(before, after, last, first);
    assert forall|q: PageId| spec_on_chain(after, first, q) == spec_on_chain(
        before,
        first,
        q,
    ) by {
        lemma_same_chain(before, after, last, first, q);
    }
    assert forall|q: PageId, s: int| spec_on_chain(before, first, q) implies ((spec_is_live(
        after,
        q,
        s,
    ) <==> (spec_is_live(before, q, s) || (q == rid@.0 && s == rid@.1))) && (spec_is_live(
        before,
        q,
        s,
    ) ==> spec_tuple_bytes(after.page(q).data, s) == spec_tuple_bytes(
        before.page(q).data,
        s,
    ))) by {
        if q == last {
            if 0 <= s < spec_header(data).tuple_cnt {
                lemma_insert_keeps_records(data, spec_live(), tuple, s);
            }
        }
    }
}

/// Logically deleting a tuple of a page of a whole chain, with all pages
/// of the chain resident, leaves the chain whole and as it is, and makes the
/// tuple not live: the live tuples of the chain are those that were live
/// before but for the deleted one, with their bytes.
pub proof fn lemma_delete_makes_not_live(
    before: PoolView,
    after: PoolView,
    first: PageId,
    rid: RecordId,
    metadata: TupleMetadata,
    tuple: Seq<u8>,
    source: Seq<u8>,
)
    requires
        spec_chain_ok(before, first),
        spec_on_chain(before, first, rid@.0),
        spec_deletes(before, after, rid, metadata, tuple, source),
    ensures
        spec_chain_ok(after, first),
        forall|q: PageId| spec_on_chain(after, first, q) == spec_on_chain(before, first, q),
        forall|q: PageId, s: int|
            spec_on_chain(before, first, q) ==> (spec_is_live(after, q, s) <==> (spec_is_live(
                before,
                q,
                s,
            ) && !(q == rid@.0 && s == rid@.1))),
        forall|q: PageId, s: int|
            spec_on_chain(before, first, q) && spec_is_live(before, q, s) ==> spec_tuple_bytes(
                after.page(q).data,
                s,
            ) == spec_tuple_bytes(before.page(q).data, s),
{
    let page_id = rid@.0;
    let slot = rid@.1 as int;
    lemma_chain_ok_behind(before, first, page_id);
    let data = before.page(page_id).data;
    let changed = after.page(page_id).data;
    lemma_delete_then_get(data, rid, metadata, tuple);
    assert forall|other: int| 0 <= other < spec_header(changed).tuple_cnt implies
        #[trigger] spec_readable(changed, other) by {
        if other != slot {
            lemma_delete_keeps_records(data, slot, other);
        }
    }
    lemma_same_chain_ok(before, after, page_id, first);
    assert forall|q: PageId| spec_on_chain(after, first, q) == spec_on_chain(
        before,
        first,
        q,
    ) by {
        lemma_same_chain(before, after, page_id, first, q);
    }
    assert forall|q: PageId, s: int| spec_on_chain(before, first, q) implies ((spec_is_live(
        after,
        q,
        s,
    ) <==> (spec_is_live(before, q, s) && !(q == rid@.0 && s == rid@.1))) && (spec_is_live(
        before,
        q,
        s,
    ) ==> spec_tuple_bytes(after.page(q).data, s) == spec_tuple_bytes(
        before.page(q).data,
        s,
    ))) by {
        if q == page_id {
            if 0 <= s < spec_header(data).tuple_cnt && s != slot {
                lemma_delete_keeps_records(data, slot, s);
            }
        }
    }
}

/// Whether `after` holds the pages of the chain that starts at `from` as
/// `before` does, but for the page `last`, which ends the chain in `before`
/// and points to the page `added` in `after`, where `added` ends the chain.
pub open spec fn spec_chain_extended(
    before: PoolView,
    after: PoolView,
    from: PageId,
    last: PageId,
    added: PageId,
) -> bool {
    &&& last < added
    &&& spec_chain_ends(before, from, last)
    &&& forall|q: PageId|
        #![trigger spec_on_chain(before, from, q)]
        spec_on_chain(before, from, q) ==> after.is_resident(q) && (q != last ==> after.page(
            q,
        ).data == before.page(q).data)
    &&& spec_page_ok(after.page(last).data)
    &&& spec_header(after.page(last).data).next_page_id == added
    &&& after.is_resident(added)
    &&& spec_page_ok(after.page(added).data)
    &&& spec_header(after.page(added).data).next_page_id == INVALID_PAGE_ID
}

/// A chain that is extended by a page is whole if it was, and consists of
/// the pages that it had and the added page.
pub proof fn lemma_extended_chain(
    before: PoolView,
    after: PoolView,
    from: PageId,
    last: PageId,
    added: PageId,
    target: PageId,
)
    requires
        spec_chain_ok(before, from),
        spec_chain_extended(before, after, from, last, added),
    ensures
        spec_chain_ok(after, from),
        spec_on_chain(after, from, target) == (spec_on_chain(before, from, target) || target
            == added),
    decreases u32::MAX - from,
{
    let next = spec_header(before.page(from).data).next_page_id;
    assert(spec_on_chain(before, from, from));
    assert(spec_chain_ok(after, added));
    assert(spec_on_chain(after, added, target) == (target == added));
    if !(from == last) {
        assert(spec_chain_extended(before, after, next, last, added)) by {
            assert forall|q: PageId|
                #![trigger spec_on_chain(before, next, q)]
                spec_on_chain(before, next, q) implies after.is_resident(q) && (q != last
                ==> after.page(q).data == before.page(q).data) by {
                assert(spec_on_chain(before, from, q));
            }
        }
        lemma_extended_chain(before, after, next, last, added, target);
    }
}

/// Inserting a tuple into a heap whose last page is full adds a page to the
/// chain: if the chain was whole and no page of it has left the pool, it is
/// whole afterwards, ends in the new page, and consists of the pages that it
/// had and the new page. The live tuples of the chain are those that were
/// live before and the inserted one, with their bytes.
pub proof fn lemma_insert_in_new_page_makes_live(
    before: PoolView,
    after: PoolView,
    first: PageId,
    last: PageId,
    rid: RecordId,
    tuple: Seq<u8>,
    source: Seq<u8>,
)
    requires
        spec_chain_ok(before, first),
        spec_chain_ends(before, first, last),
        last <= before.disk.last_allocated < u32::MAX,
        forall|q: PageId| #[trigger] spec_on_chain(before, first, q) ==> after.is_resident(q),
        spec_inserts_in_new_page(before, after, last, rid, tuple, source),
    ensures
        spec_chain_ok(after, first),
        spec_chain_ends(after, first, rid@.0),
        forall|q: PageId|
            spec_on_chain(after, first, q) == (spec_on_chain(before, first, q) || q == rid@.0),
        forall|q: PageId, s: int|
            spec_on_chain(after, first, q) ==> (spec_is_live(after, q, s) <==> ((spec_on_chain(
                before,
                first,
                q,
            ) && spec_is_live(before, q, s)) || (q == rid@.0 && s == rid@.1))),
        forall|q: PageId, s: int|
            spec_on_chain(before, first, q) && spec_is_live(before, q, s) ==> spec_tuple_bytes(
                after.page(q).data,
                s,
            ) == spec_tuple_bytes(before.page(q).data, s),
        spec_tuple_bytes(after.page(rid@.0).data, rid@.1 as int) == tuple,
{
    let added = rid@.0;
    lemma_chain_ok_behind(before, first, last);
    let data = before.page(last).data;
    let linked = after.page(last).data;
    let pointer = spec_u32_to_le_bytes(added);
    vstd::bytes::lemma_auto_spec_u32_to_from_le_bytes();
    lemma_header_field_write(data, 0, added);
    // the slots and the tuples of the old last page stay as they are
    assert forall|slot: int| 0 <= slot < spec_header(data).tuple_cnt implies spec_slot(
        linked,
        slot,
    ) == spec_slot(data, slot) && #[trigger] spec_readable(linked, slot) && spec_tuple_bytes(
        linked,
        slot,
    ) == spec_tuple_bytes(data, slot) by {
        assert(spec_readable(data, slot));
        lemma_tuple_kept(data, 0, pointer, slot);
    }
    // the new page holds the tuple in its first slot
    lemma_empty_table_page();
    lemma_insert_then_get(spec_empty_table_page(), spec_live(), tuple);
    assert(spec_chain_extended(before, after, first, last, added)) by {
        assert forall|q: PageId|
            #![trigger spec_on_chain(before, first, q)]
            spec_on_chain(before, first, q) implies after.is_resident(q) && (q != last
            ==> after.page(q).data == before.page(q).data) by {
            lemma_chain_end_is_last(before, first, last, q);
        }
    }
    assert forall|q: PageId|
        spec_on_chain(after, first, q) == (spec_on_chain(before, first, q) || q == added) by {
        lemma_extended_chain(before, after, first, last, added, q);
    }
    lemma_extended_chain(before, after, first, last, added, added);
    assert forall|q: PageId, s: int| spec_on_chain(after, first, q) implies (spec_is_live(
        after,
        q,
        s,
    ) <==> ((spec_on_chain(before, first, q) && spec_is_live(before, q, s)) || (q == rid@.0
        && s == rid@.1))) by {
    }
}

} // verus!
