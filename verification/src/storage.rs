//! The storage engine: tables as table heaps in one buffer pool.
use vstd::prelude::*;
use vstd::std_specs::convert::FromSpec;
use vstd::std_specs::hash::group_hash_axioms;
use std::collections::HashMap;
use crate::buffer_pool::BufferPoolManager;
use crate::buffer_pool::PoolView;
use crate::catalog::TableId;
use crate::disk_manager::PageFile;
use crate::error::Error;
use crate::record_id::spec_pack;
use crate::record_id::spec_precedes;
use crate::record_id::RecordId;
use crate::replacer::Replacer;
use crate::table_heap::spec_delete_fails;
use crate::table_heap::spec_deletes;
use crate::table_heap::spec_get_fails;
use crate::table_heap::spec_holds_record;
use crate::table_heap::spec_insert_fails;
use crate::table_heap::spec_inserts;
use crate::table_heap::spec_max_tuple_len;
use crate::table_heap::spec_refuses_tuple;
use crate::table_heap::HeapView;
use crate::table_heap::TableHeap;
use crate::table_page::spec_fits;
use crate::table_page::TupleMetadata;
use crate::table_tuple_iterator::spec_next_live;
use crate::table_tuple_iterator::spec_ends_at;
use crate::table_tuple_iterator::spec_same_contents;
use crate::table_tuple_iterator::spec_scan_fails;
use crate::table_tuple_iterator::spec_scan_step;
use crate::table_tuple_iterator::ScanStep;
use crate::table_tuple_iterator::ScanView;
use crate::table_tuple_iterator::TableTupleIterator;
use crate::tuple::Tuple;
use crate::typedef::PageId;

verus! {

broadcast use group_hash_axioms;

/// The abstract state of a storage engine.
pub struct EngineView {
    /// The buffer pool through which the engine reaches its pages.
    pub pool: PoolView,
    /// The heap of each table, by table id.
    pub tables: Map<TableId, HeapView>,
    /// The name of each table, by table id.
    pub names: Map<TableId, Seq<char>>,
}

/// Whether no page of the pool is pinned.
pub open spec fn spec_unpinned(pool: PoolView) -> bool {
    forall|p: PageId| #[trigger] pool.is_resident(p) ==> pool.page(p).pin_count == 0
}

/// A storage engine that keeps each table in a table heap. It maintains a
/// mapping from table ids to table heaps, all of which live in one buffer pool.
pub struct StorageEngine<R: Replacer, F: PageFile> {
    bpm: BufferPoolManager<R, F>,
    tables: HashMap<TableId, TableHeap>,
}

impl<R: Replacer, F: PageFile> View for StorageEngine<R, F> {
    type V = EngineView;

    closed spec fn view(&self) -> EngineView {
        EngineView {
            pool: self.bpm@,
            tables: Map::new(
                |id: TableId| self.tables@.contains_key(id),
                |id: TableId| self.tables@[id]@,
            ),
            names: Map::new(
                |id: TableId| self.tables@.contains_key(id),
                |id: TableId| self.tables@[id].spec_name(),
            ),
        }
    }
}

impl<R: Replacer, F: PageFile> StorageEngine<R, F> {
    /// The invariant of the engine: the pool is consistent and has no pinned
    /// page between two calls, and every heap is consistent and has its pages
    /// among those that the pool's disk manager has allocated.
    pub closed spec fn wf(&self) -> bool {
        &&& self.bpm.wf()
        &&& spec_unpinned(self.bpm@)
        &&& forall|id: TableId| #[trigger]
            self.tables@.contains_key(id) ==> self.tables@[id].wf() && self.tables@[id].belongs_to(
                self.bpm@,
            )
    }

    /// Creates a new StorageEngine given a BufferPoolManager.
    pub fn new(bpm: BufferPoolManager<R, F>) -> (engine: Self)
        requires
            bpm.wf(),
            spec_unpinned(bpm@),
        ensures
            engine.wf(),
            engine@.pool == bpm@,
            engine@.tables == Map::<TableId, HeapView>::empty(),
            engine@.names == Map::<TableId, Seq<char>>::empty(),
    {
        let engine = StorageEngine { bpm, tables: HashMap::new() };
        engine
    }

    /// The buffer pool of the engine.
    pub fn buffer_pool(&self) -> (bpm: &BufferPoolManager<R, F>)
        ensures
            bpm@ == self@.pool,
            self.wf() ==> bpm.wf(),
    {
        &self.bpm
    }

    /// Creates a new table: a table heap of one empty page, under the given id.
    ///
    /// Fails with an invalid-input error, and changes nothing, if the id is
    /// in use. Otherwise it fails as creating a page fails.
    pub fn create_table(&mut self, table_id: TableId, name: &str) -> (result: Result<(), Error>)
        requires
            old(self).wf(),
            old(self)@.pool.accesses_left > 0,
            old(self)@.pool.disk.last_allocated < u32::MAX,
        ensures
            final(self).wf(),
            old(self)@.tables.contains_key(table_id) ==> final(self)@ == old(self)@ && (
            result matches Err(e) && e is InvalidInput),
            !old(self)@.tables.contains_key(table_id) ==> match result {
                Ok(()) => {
                    let page_id = (old(self)@.pool.disk.last_allocated + 1) as PageId;
                    &&& final(self)@.tables == old(self)@.tables.insert(
                        table_id,
                        HeapView { first_page_id: page_id, last_page_id: page_id, page_cnt: 1 },
                    )
                    &&& final(self)@.names == old(self)@.names.insert(table_id, name@)
                    &&& final(self)@.pool.is_resident(page_id)
                    &&& final(self)@.pool.page(page_id).data
                        == crate::table_heap::spec_empty_table_page()
                    &&& final(self)@.pool.disk.last_allocated == page_id
                    &&& final(self)@.pool.accesses_left == old(self)@.pool.accesses_left - 1
                    &&& old(self)@.pool.keeps_pages_except(final(self)@.pool, page_id)
                },
                Err(e) => {
                    &&& final(self)@.tables == old(self)@.tables
                    &&& final(self)@.names == old(self)@.names
                    &&& old(self)@.pool.fails_to_load(final(self)@.pool)
                    &&& e is IO || (e is BufferPoolError && (old(self)@.pool.free_frame_count()
                        == 0 || old(self)@.pool.is_resident(
                        (old(self)@.pool.disk.last_allocated + 1) as PageId,
                    )))
                    &&& old(self)@.pool.free_frame_count() == 0 ==> e is BufferPoolError
                    &&& old(self)@.pool.create_fails(final(self)@.pool, e)
                },
            },
    {
        if self.tables.contains_key(&table_id) {
            return Err(Error::InvalidInput("Table already exists".to_string()));
        }
        let table_heap = match TableHeap::new(name, &mut self.bpm) {
            Ok(table_heap) => table_heap,
            Err(e) => {
                return Err(e);
            },
        };
        self.tables.insert(table_id, table_heap);
        Ok(())
    }

    /// Retrieves a tuple given its record id, whether it is deleted or not.
    ///
    /// Fails with an invalid-input error, and changes nothing, if there is no
    /// such table. Otherwise it fails as reading the tuple from the heap fails.
    pub fn get_tuple(&mut self, table_id: TableId, rid: u64) -> (result: Result<Tuple, Error>)
        requires
            old(self).wf(),
            old(self)@.pool.accesses_left > 0,
        ensures
            final(self).wf(),
            final(self)@.tables == old(self)@.tables,
            final(self)@.names == old(self)@.names,
            final(self)@.pool.disk.last_allocated == old(self)@.pool.disk.last_allocated,
            old(self)@.pool.accesses_left - 1 <= final(self)@.pool.accesses_left <= old(
                self,
            )@.pool.accesses_left,
            !old(self)@.tables.contains_key(table_id) ==> final(self)@ == old(self)@ && (
            result matches Err(e) && e is InvalidInput),
            match result {
                Ok(tuple) => {
                    let record = RecordId::from_spec(rid);
                    let data = final(self)@.pool.page(record@.0).data;
                    &&& old(self)@.tables.contains_key(table_id)
                    &&& old(self)@.pool.fetched_bytes(record@.0, data)
                    &&& old(self)@.pool.visits(final(self)@.pool, record@.0, false, data)
                    &&& exists|metadata: TupleMetadata| #[trigger]
                        spec_holds_record(data, record, metadata, tuple@)
                },
                Err(e) => old(self)@.tables.contains_key(table_id) ==> spec_get_fails(
                    old(self)@.pool,
                    final(self)@.pool,
                    RecordId::from_spec(rid),
                    e,
                ),
            },
    {
        let table_heap = match self.tables.get(&table_id) {
            Some(table_heap) => table_heap,
            None => {
                return Err(Error::InvalidInput("Table not found".to_string()));
            },
        };
        let record = RecordId::from(rid);
        let result = table_heap.get_tuple(&mut self.bpm, &record);
        let ghost read = result;
        let out = match result {
            Ok((metadata, tuple)) => Ok(tuple),
            Err(e) => Err(e),
        };
        proof {
            if out is Ok {
                let record = RecordId::from_spec(rid);
                assert(spec_holds_record(
                    self@.pool.page(record@.0).data,
                    record,
                    read->Ok_0.0,
                    out->Ok_0@,
                ));
            }
        }
        out
    }

    /// Deletes a tuple given its record id. The deletion is logical.
    ///
    /// Fails with an invalid-input error, and changes nothing, if there is no
    /// such table. Otherwise it fails as deleting the tuple from the heap fails.
    pub fn delete_tuple(&mut self, table_id: TableId, rid: u64) -> (result: Result<(), Error>)
        requires
            old(self).wf(),
            old(self)@.pool.accesses_left > 0,
        ensures
            final(self).wf(),
            final(self)@.tables == old(self)@.tables,
            final(self)@.names == old(self)@.names,
            final(self)@.pool.disk.last_allocated == old(self)@.pool.disk.last_allocated,
            old(self)@.pool.accesses_left - 1 <= final(self)@.pool.accesses_left <= old(
                self,
            )@.pool.accesses_left,
            !old(self)@.tables.contains_key(table_id) ==> final(self)@ == old(self)@ && (
            result matches Err(e) && e is InvalidInput),
            old(self)@.tables.contains_key(table_id) ==> match result {
                Ok(()) => exists|metadata: TupleMetadata, tuple: Seq<u8>, source: Seq<u8>| #[trigger]
                    spec_deletes(
                        old(self)@.pool,
                        final(self)@.pool,
                        RecordId::from_spec(rid),
                        metadata,
                        tuple,
                        source,
                    ),
                Err(e) => spec_delete_fails(
                    old(self)@.pool,
                    final(self)@.pool,
                    RecordId::from_spec(rid),
                    e,
                ),
            },
    {
        let table_heap = match self.tables.get(&table_id) {
            Some(table_heap) => table_heap,
            None => {
                return Err(Error::InvalidInput("Table not found".to_string()));
            },
        };
        let record = RecordId::from(rid);
        let result = table_heap.delete_tuple(&mut self.bpm, &record);
        match result {
            Ok(_) => Ok(()),
            Err(e) => Err(e),
        }
    }

    /// Inserts a tuple into the specified table and returns its record id in 64-bit form.
    ///
    /// Fails with an invalid-input error, and changes nothing, if there is no
    /// such table. Otherwise it fails as inserting the tuple into the heap fails.
    pub fn insert_tuple(&mut self, table_id: TableId, tuple: &Tuple) -> (result: Result<
        u64,
        Error,
    >)
        requires
            old(self).wf(),
            old(self)@.pool.accesses_left >= 2,
            old(self)@.pool.disk.last_allocated < u32::MAX,
        ensures
            final(self).wf(),
            old(self)@.pool.accesses_left - 2 <= final(self)@.pool.accesses_left <= old(
                self,
            )@.pool.accesses_left,
            old(self)@.pool.disk.last_allocated <= final(self)@.pool.disk.last_allocated <= old(
                self,
            )@.pool.disk.last_allocated + 1,
            !old(self)@.tables.contains_key(table_id) ==> final(self)@ == old(self)@ && (
            result matches Err(e) && e is InvalidInput),
            old(self)@.tables.contains_key(table_id) ==> match result {
                Ok(id) => {
                    &&& final(self)@.tables.dom() == old(self)@.tables.dom()
                    &&& final(self)@.names == old(self)@.names
                    &&& forall|other: TableId|
                        other != table_id && old(self)@.tables.contains_key(other)
                            ==> #[trigger] final(self)@.tables[other] == old(self)@.tables[other]
                    &&& exists|source: Seq<u8>| #[trigger]
                        spec_inserts(
                            old(self)@.pool,
                            final(self)@.pool,
                            old(self)@.tables[table_id],
                            final(self)@.tables[table_id],
                            RecordId::from_spec(id),
                            tuple@,
                            source,
                        )
                },
                Err(e) => {
                    &&& final(self)@.tables == old(self)@.tables
                    &&& final(self)@.names == old(self)@.names
                    &&& e is IO || e is BufferPoolError || (e is OutOfBounds && tuple@.len()
                        > spec_max_tuple_len())
                    &&& e is OutOfBounds ==> exists|source: Seq<u8>| #[trigger]
                        spec_refuses_tuple(
                            old(self)@.pool,
                            final(self)@.pool,
                            old(self)@.tables[table_id].last_page_id,
                            tuple@,
                            source,
                        )
                    &&& e is BufferPoolError ==> old(self)@.pool.free_frame_count() <= 1 || old(
                        self,
                    )@.pool.is_resident((old(self)@.pool.disk.last_allocated + 1) as PageId)
                    &&& !(e is OutOfBounds) ==> spec_insert_fails(
                        old(self)@.pool,
                        final(self)@.pool,
                        old(self)@.tables[table_id].last_page_id,
                        tuple@,
                        e,
                    )
                },
            },
            tuple@.len() > spec_max_tuple_len() ==> result is Err,
            old(self)@.tables.contains_key(table_id) && old(self)@.pool.is_resident(
                old(self)@.tables[table_id].last_page_id,
            ) && spec_fits(
                old(self)@.pool.page(old(self)@.tables[table_id].last_page_id).data,
                tuple@.len() as int,
            ) ==> result is Ok,
    {
        let mut table_heap = match self.tables.remove(&table_id) {
            Some(table_heap) => table_heap,
            None => {
                proof {
                    assert(self.tables@ =~= old(self).tables@);
                }
                return Err(Error::InvalidInput("Table not found".to_string()));
            },
        };
        let ghost heap_before = table_heap@;
        let result = table_heap.insert_tuple(&mut self.bpm, tuple);
        let ghost heap_after = table_heap@;
        self.tables.insert(table_id, table_heap);
        let ghost inserted = result;
        let out = match result {
            Ok(record) => Ok(u64::from(record)),
            Err(e) => Err(e),
        };
        proof {
            assert(old(self)@.tables[table_id] == heap_before);
            assert(self@.tables[table_id] == heap_after);
            match inserted {
                Ok(record) => {
                    let source = choose|source: Seq<u8>| #[trigger]
                        spec_inserts(
                            old(self).bpm@,
                            self.bpm@,
                            heap_before,
                            heap_after,
                            record,
                            tuple@,
                            source,
                        );
                    assert(spec_inserts(
                        old(self)@.pool,
                        self@.pool,
                        heap_before,
                        heap_after,
                        RecordId::from_spec(out->Ok_0),
                        tuple@,
                        source,
                    ));
                },
                Err(e) => {
                    if e is OutOfBounds {
                        let source = choose|source: Seq<u8>| #[trigger]
                            spec_refuses_tuple(
                                old(self).bpm@,
                                self.bpm@,
                                heap_before.last_page_id,
                                tuple@,
                                source,
                            );
                        assert(spec_refuses_tuple(
                            old(self)@.pool,
                            self@.pool,
                            heap_before.last_page_id,
                            tuple@,
                            source,
                        ));
                    }
                },
            }
        }
        out
    }

    /// Starts a scan over the tuples of the specified table.
    /// Fails with an invalid-input error if there is no such table.
    pub fn scan(&self, table_id: TableId) -> (result: Result<TableTupleIterator, Error>)
        ensures
            match result {
                Ok(scan) => {
                    &&& self@.tables.contains_key(table_id)
                    &&& scan@.current_page_id == self@.tables[table_id].first_page_id
                    &&& scan@.current_slot == 0
                },
                Err(e) => !self@.tables.contains_key(table_id) && e is InvalidInput,
            },
    {
        match self.tables.get(&table_id) {
            Some(table_heap) => Ok(TableTupleIterator::new(table_heap)),
            None => Err(Error::InvalidInput("Table not found".to_string())),
        }
    }

    /// Emits the next tuple of a scan that is not deleted, with its record id
    /// in 64-bit form, or `None` when the scan is over.
    ///
    /// Fails with an invalid-data error at a slot that cannot be read, and at
    /// the end of a page that points to a page with a smaller or the same
    /// id; otherwise as fetching a page fails. An error leaves the scan where
    /// the error arose.
    pub fn scan_next(&mut self, scan: &mut TableTupleIterator) -> (result: Option<
        Result<(u64, Tuple), Error>,
    >)
        requires
            old(self).wf(),
            !old(scan)@.is_done() ==> old(self)@.pool.accesses_left > u32::MAX - old(
                scan,
            )@.current_page_id,
        ensures
            final(self).wf(),
            final(self)@.tables == old(self)@.tables,
            final(self)@.names == old(self)@.names,
            final(self)@.pool.disk.last_allocated == old(self)@.pool.disk.last_allocated,
            final(self)@.pool.accesses_left <= old(self)@.pool.accesses_left,
            old(self)@.pool.accesses_left <= final(self)@.pool.accesses_left + 0x1_0000_0000,
            old(scan)@.is_done() ==> result is None && final(self)@ == old(self)@,
            match spec_scan_step(
                old(self)@.pool,
                old(scan)@.current_page_id,
                old(scan)@.current_slot,
            ) {
                ScanStep::Done => result is None && spec_same_contents(
                    old(self)@.pool,
                    final(self)@.pool,
                ),
                ScanStep::Found { page_id, slot, tuple } => {
                    &&& result matches Some(Ok((id, found))) && id == spec_pack(page_id, slot)
                        && found@ == tuple
                    &&& final(scan)@ == (ScanView {
                        current_page_id: page_id,
                        current_slot: (slot + 1) as u32,
                    })
                    &&& spec_same_contents(old(self)@.pool, final(self)@.pool)
                },
                ScanStep::Broken { page_id, slot } => {
                    &&& result matches Some(Err(e)) && e is InvalidData
                    &&& final(scan)@ == (ScanView { current_page_id: page_id, current_slot: slot })
                    &&& spec_same_contents(old(self)@.pool, final(self)@.pool)
                },
                ScanStep::Unknown => true,
            },
            match result {
                None => {
                    &&& final(scan)@.is_done()
                    &&& old(scan)@.is_done() || exists|last: PageId| #[trigger]
                        spec_ends_at(final(self)@.pool, old(scan)@, last)
                },
                Some(Ok((id, tuple))) => {
                    let page_id = final(scan)@.current_page_id;
                    let slot = (final(scan)@.current_slot - 1) as u32;
                    let from = if page_id == old(scan)@.current_page_id {
                        old(scan)@.current_slot
                    } else {
                        0u32
                    };
                    &&& final(scan)@.current_slot > 0
                    &&& !final(scan)@.is_done()
                    &&& id == spec_pack(page_id, slot)
                    &&& old(scan)@.current_page_id <= page_id
                    &&& !spec_precedes((page_id, slot), old(scan)@.position())
                    &&& final(self)@.pool.is_resident(page_id)
                    &&& spec_next_live(
                        final(self)@.pool.page(page_id).data,
                        from as int,
                        slot as int,
                        tuple@,
                    )
                },
                Some(Err(e)) => {
                    &&& !final(scan)@.is_done()
                    &&& !spec_precedes(final(scan)@.position(), old(scan)@.position())
                    &&& spec_scan_fails(
                        old(self)@.pool,
                        final(self)@.pool,
                        old(scan)@,
                        final(scan)@,
                        e,
                    )
                },
            },
    {
        let result = scan.next(&mut self.bpm);
        result
    }
}

} // verus!
