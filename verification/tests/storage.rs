use std::cell::RefCell;
use std::collections::HashMap;
use std::rc::Rc;

use rand::Rng;
use rustdb::buffer_pool::BufferPoolManager;
use rustdb::disk_manager::io_result;
use rustdb::disk_manager::page_from_file;
use rustdb::disk_manager::DiskManager;
use rustdb::disk_manager::PageFile;
use rustdb::error::Error;
use rustdb::frame::PageFrame;
use rustdb::frame_handle::PageFrameMutHandle;
use rustdb::frame_handle::PageFrameRefHandle;
use rustdb::lru_k_replacer::LrukReplacer;
use rustdb::page::INVALID_PAGE_ID;
use rustdb::page::PAGE_SIZE;
use rustdb::record_id::RecordId;
use rustdb::replacer::Replacer;
use rustdb::storage::StorageEngine;
use rustdb::table_heap::TableHeap;
use rustdb::table_page::TablePage;
use rustdb::table_page::TupleInfo;
use rustdb::table_page::TupleMetadata;
use rustdb::table_page::TABLE_PAGE_HEADER_SIZE;
use rustdb::table_page::TUPLE_INFO_SIZE;
use rustdb::table_tuple_iterator::TableTupleIterator;
use rustdb::tuple::Tuple;
use rustdb::typedef::PageId;

/// A database file that lives in memory. It can be told to fail, and it
/// keeps a list of what it was asked to write and to read.
struct MemFile {
    bytes: Vec<u8>,
    fail_writes: Rc<RefCell<bool>>,
    writes: Rc<RefCell<Vec<(u64, Vec<u8>)>>>,
    reads: Rc<RefCell<Vec<(u64, usize)>>>,
}

impl MemFile {
    fn new() -> Self {
        MemFile {
            bytes: Vec::new(),
            fail_writes: Rc::new(RefCell::new(false)),
            writes: Rc::new(RefCell::new(Vec::new())),
            reads: Rc::new(RefCell::new(Vec::new())),
        }
    }
}

impl PageFile for MemFile {
    fn set_len(&mut self, size: u64) -> Result<(), String> {
        self.bytes.resize(size as usize, 0);
        Ok(())
    }

    fn read_exact_at(&mut self, offset: u64, len: usize) -> Result<Vec<u8>, String> {
        self.reads.borrow_mut().push((offset, len));
        let start = offset as usize;
        if start + len > self.bytes.len() {
            return Err("failed to fill whole buffer".to_string());
        }
        Ok(self.bytes[start..start + len].to_vec())
    }

    fn write_all_at(&mut self, offset: u64, data: &[u8]) -> Result<(), String> {
        if *self.fail_writes.borrow() {
            return Err("the disk is on fire".to_string());
        }
        self.writes.borrow_mut().push((offset, data.to_vec()));
        let start = offset as usize;
        if start + data.len() > self.bytes.len() {
            self.bytes.resize(start + data.len(), 0);
        }
        self.bytes[start..start + data.len()].copy_from_slice(data);
        Ok(())
    }

    fn len(&self) -> Result<u64, String> {
        Ok(self.bytes.len() as u64)
    }
}

type Pool = BufferPoolManager<LrukReplacer, MemFile>;

fn get_bpm_with_pool_size(pool_size: usize) -> Pool {
    let disk_manager = DiskManager::new(MemFile::new()).unwrap();
    let replacer = LrukReplacer::new(5);
    BufferPoolManager::new(pool_size, disk_manager, replacer)
}

fn get_bpm_arc_with_pool_size(pool_size: usize) -> Rc<RefCell<Pool>> {
    Rc::new(RefCell::new(get_bpm_with_pool_size(pool_size)))
}

/// A read handle that gives itself back to the pool when it is dropped.
struct ReadGuard {
    bpm: Rc<RefCell<Pool>>,
    handle: Option<PageFrameRefHandle>,
}

impl ReadGuard {
    fn page_id(&self) -> PageId {
        self.handle.as_ref().unwrap().page_id()
    }

    fn data(&self) -> Vec<u8> {
        self.frame(|frame| frame.data().to_vec())
    }

    fn frame<T>(&self, read: impl FnOnce(&PageFrame) -> T) -> T {
        let bpm = self.bpm.borrow();
        read(bpm.frame(self.handle.as_ref().unwrap()))
    }
}

impl Drop for ReadGuard {
    fn drop(&mut self) {
        let handle = self.handle.take().unwrap();
        handle.release(&mut *self.bpm.borrow_mut());
    }
}

/// A write handle that gives itself back to the pool when it is dropped.
struct WriteGuard {
    bpm: Rc<RefCell<Pool>>,
    handle: Option<PageFrameMutHandle>,
}

impl WriteGuard {
    fn page_id(&self) -> PageId {
        self.handle.as_ref().unwrap().page_id()
    }

    fn data(&self) -> Vec<u8> {
        self.frame(|frame| frame.data().to_vec())
    }

    fn write(&mut self, offset: usize, data: &[u8]) {
        self.frame_mut(|frame| frame.write(offset, data))
    }

    fn frame<T>(&self, read: impl FnOnce(&PageFrame) -> T) -> T {
        let bpm = self.bpm.borrow();
        read(bpm.frame_ref(self.handle.as_ref().unwrap()))
    }

    fn frame_mut<T>(&mut self, write: impl FnOnce(&mut PageFrame) -> T) -> T {
        let mut bpm = self.bpm.borrow_mut();
        write(bpm.frame_mut(self.handle.as_ref().unwrap()))
    }
}

impl Drop for WriteGuard {
    fn drop(&mut self) {
        let handle = self.handle.take().unwrap();
        handle.release(&mut *self.bpm.borrow_mut());
    }
}

fn create_page_handle(bpm: &Rc<RefCell<Pool>>) -> Result<WriteGuard, Error> {
    let handle = bpm.borrow_mut().create_page_handle()?;
    Ok(WriteGuard {
        bpm: bpm.clone(),
        handle: Some(handle),
    })
}

fn fetch_page_handle(bpm: &Rc<RefCell<Pool>>, page_id: PageId) -> Result<ReadGuard, Error> {
    let handle = bpm.borrow_mut().fetch_page_handle(page_id)?;
    Ok(ReadGuard {
        bpm: bpm.clone(),
        handle: Some(handle),
    })
}

fn fetch_page_mut_handle(bpm: &Rc<RefCell<Pool>>, page_id: PageId) -> Result<WriteGuard, Error> {
    let handle = bpm.borrow_mut().fetch_page_mut_handle(page_id)?;
    Ok(WriteGuard {
        bpm: bpm.clone(),
        handle: Some(handle),
    })
}

fn fetch_page_handle_or_none(bpm: &Rc<RefCell<Pool>>, pid: PageId) -> Option<ReadGuard> {
    match fetch_page_handle(bpm, pid) {
        Ok(h) => Some(h),
        Err(_) => None,
    }
}

fn fetch_page_mut_handle_or_none(bpm: &Rc<RefCell<Pool>>, pid: PageId) -> Option<WriteGuard> {
    match fetch_page_mut_handle(bpm, pid) {
        Ok(h) => Some(h),
        Err(_) => None,
    }
}

// Helper function to create `n` pages in the buffer pool.
fn create_n_pages(bpm: &Rc<RefCell<Pool>>, n: usize) -> Vec<WriteGuard> {
    let mut pages = Vec::new();
    for _ in 0..n {
        let page_handle = create_page_handle(bpm).expect("Failed to create page");
        pages.push(page_handle);
    }
    pages
}

#[test]
fn test_bpm_create_pages_beyond_capacity() {
    let pool_size = 10;
    let bpm = get_bpm_arc_with_pool_size(pool_size);

    assert_eq!(pool_size, bpm.borrow().free_frame_count());

    {
        let mut handles = vec![];

        // fill the buffer pool with newly created pages
        // these pages should all be pinned
        for i in 0..pool_size {
            let page_handle = create_page_handle(&bpm);
            assert!(page_handle.is_ok());
            handles.push(page_handle);
            assert_eq!(pool_size - i - 1, bpm.borrow().free_frame_count());
        }

        assert_eq!(0, bpm.borrow().free_frame_count());

        {
            // Create a new page when buffer pool has no free frame, should return None
            let page_handle = create_page_handle(&bpm);
            assert!(page_handle.is_err());
        }

        handles.pop();
        assert_eq!(1, bpm.borrow().free_frame_count());

        let page_handle = create_page_handle(&bpm);
        assert!(page_handle.is_ok());
    }
    assert_eq!(pool_size, bpm.borrow().free_frame_count());
}

#[test]
fn test_bpm_cannot_create_page_beyond_buffer_pool_size() {
    let pool_size = 2;
    let bpm = get_bpm_arc_with_pool_size(pool_size);

    // Create and pin two pages.
    let page_handle1 = create_page_handle(&bpm).expect("Failed to create page 1");
    let page_handle2 = create_page_handle(&bpm).expect("Failed to create page 2");
    let page_id1 = page_handle1.page_id();
    let page_id2 = page_handle2.page_id();

    // Drop the handles to ensure they are unpinned
    drop(page_handle1);
    drop(page_handle2);

    let _read1 = fetch_page_handle(&bpm, page_id1).expect("Failed to fetch page 1");
    let _read2 = fetch_page_handle(&bpm, page_id2).expect("Failed to fetch page 2");

    // All frames are now pinned, attempt to create another page.
    let result = create_page_handle(&bpm);
    assert!(
        result.is_err(),
        "Should not be able to create a new page when buffer pool is full"
    );
}

#[test]
fn test_bpm_new_page_evict_frame() {
    let pool_size = 10;
    let bpm = get_bpm_arc_with_pool_size(pool_size);

    let mut page_handles = Vec::new(); // Store page handles to prevent dropping

    for _ in 0..pool_size {
        assert!(bpm.borrow().free_frame_count() > 0);
        let page_handle = create_page_handle(&bpm);
        assert!(page_handle.is_ok());
        page_handles.push(page_handle.unwrap()); // Store the handle
    }

    // Free list empty, and no evictable page.
    assert_eq!(bpm.borrow().free_frame_count(), 0);
    assert!(create_page_handle(&bpm).is_err());

    let page_handle = page_handles.pop().unwrap();
    drop(page_handle);
    assert_eq!(bpm.borrow().free_frame_count(), 1);

    let new_page_after_eviction = create_page_handle(&bpm);
    assert!(new_page_after_eviction.is_ok());
    page_handles.push(new_page_after_eviction.unwrap()); // Store the new handle

    assert_eq!(bpm.borrow().free_frame_count(), 0);
    assert!(create_page_handle(&bpm).is_err());
}

#[test]
fn test_bpm_fetch_page_in_buffer() {
    let pool_size = 10;
    let bpm = get_bpm_arc_with_pool_size(pool_size);

    let pages = create_n_pages(&bpm, pool_size);
    let page_ids: Vec<PageId> = pages
        .iter()
        .map(|page_frame_handle| page_frame_handle.page_id())
        .collect();
    drop(pages);
    page_ids.iter().for_each(|&page_id| {
        let page_handle = fetch_page_handle(&bpm, page_id).expect("Failed to fetch page");
        assert_eq!(page_handle.page_id(), page_id);
    });
}

#[test]
fn test_bpm_fetch_page_not_in_buffer() {
    let pool_size = 10;
    let bpm = get_bpm_arc_with_pool_size(pool_size);

    // Fill buffer pool to capacity with new pages.
    let page_id_to_evict = {
        let page_handle = create_page_handle(&bpm).expect("Failed to create page");
        let page_id = page_handle.page_id();
        page_id
    };

    create_n_pages(&bpm, pool_size - 1);

    // Add another page.
    let _another_page_id = {
        let page_handle = create_page_handle(&bpm).expect("Failed to create page");
        let page_id = page_handle.page_id();
        page_id
    };

    // Verify a page was evicted for the new page.
    assert!(bpm.borrow().get_pin_count(page_id_to_evict).is_none());

    // We should still be able to fetch that evicted page (from disk).
    let fetched_page_handle =
        fetch_page_handle(&bpm, page_id_to_evict).expect("Failed to fetch page");
    assert_eq!(fetched_page_handle.page_id(), page_id_to_evict);

    // Another fetch of that page (this time from the buffer pool!)
    let fetched_page_handle_again =
        fetch_page_handle(&bpm, page_id_to_evict).expect("Failed to fetch page");
    assert_eq!(fetched_page_handle_again.page_id(), page_id_to_evict);
}

#[test]
fn test_bpm_unpin_page_changes_dirty_flag() {
    let pool_size = 5;
    let bpm = get_bpm_arc_with_pool_size(pool_size);

    let handle = bpm.borrow_mut().create_page_handle().unwrap();
    let page_id = handle.page_id();

    // Initially, the page should not be dirty
    assert!(!bpm.borrow().frame_ref(&handle).is_dirty());

    // Unpin the page with `is_dirty = true`
    bpm.borrow_mut().unpin_page(page_id, true);

    // Verify the page is now marked as dirty
    let read = bpm.borrow_mut().fetch_page_handle(page_id).unwrap();
    assert!(bpm.borrow().frame(&read).is_dirty());
    read.release(&mut *bpm.borrow_mut());
}

#[test]
fn test_bpm_unpin_page_decrements_multiple_times() {
    let bpm = get_bpm_arc_with_pool_size(5);

    // Pin count: 1
    let page_id = create_page_handle(&bpm)
        .expect("Failed to create new page")
        .page_id();

    let mut page_handles = Vec::new();
    // Pin count: 25
    for _ in 0..25 {
        let page_handle = fetch_page_handle(&bpm, page_id).expect("Failed to fetch page");
        page_handles.push(page_handle);
    }
    assert_eq!(bpm.borrow().get_pin_count(page_id).unwrap(), 25);

    // Pin count: 25 -> 24 -> ... -> 0
    for i in (0..25).rev() {
        let page_handle = page_handles.pop().unwrap();
        drop(page_handle);
        assert_eq!(bpm.borrow().get_pin_count(page_id).unwrap(), i);
    }
}

#[test]
fn test_bpm_flush_page() {
    let pool_size = 5;
    let bpm = get_bpm_arc_with_pool_size(pool_size);

    // Create a new page and modify it
    let page_id = create_page_handle(&bpm)
        .expect("Failed to create new page")
        .page_id();

    let data = b"Test data";
    let page_data = {
        let mut page_handle =
            fetch_page_mut_handle(&bpm, page_id).expect("Failed to fetch page for writing");
        page_handle.write(0, data);
        page_handle.data().to_vec()
    };

    // Flush the page to disk
    bpm.borrow_mut()
        .flush_page(&page_id)
        .expect("Failed to flush page");

    // Fill the buffer pool with new pages
    let mut pages = create_n_pages(&bpm, pool_size);
    // Buffer pool should be full
    assert_eq!(bpm.borrow().free_frame_count(), 0);
    // Drop one of the page and trigger unpin
    drop(pages.pop().unwrap());
    // Buffer pool should now have one free frame
    assert_eq!(bpm.borrow().free_frame_count(), 1);

    // Ensure the page is still in the buffer pool and is no longer dirty
    let frame = fetch_page_handle(&bpm, page_id).expect("Failed to fetch page");
    assert!(
        !frame.frame(|frame| frame.is_dirty()),
        "Page should not be dirty after flush"
    );
    assert_eq!(frame.data(), page_data, "Page data should persist");
}

#[test]
fn test_bpm_evict_flush_page() {
    let pool_size = 5;
    let bpm = get_bpm_arc_with_pool_size(pool_size);

    // Create a new page and modify it
    let page_id = create_page_handle(&bpm)
        .expect("Failed to create new page")
        .page_id();

    let data = b"Test data";
    let page_data = {
        let mut page_handle =
            fetch_page_mut_handle(&bpm, page_id).expect("Failed to fetch page for writing");
        page_handle.write(0, data);
        page_handle.data().to_vec()
    };

    // Fill the buffer pool with new pages
    let mut pages = create_n_pages(&bpm, pool_size);
    // Buffer pool should be full
    assert_eq!(bpm.borrow().free_frame_count(), 0);
    // Drop one of the page and trigger unpin
    drop(pages.pop().unwrap());
    // Buffer pool should now have one free frame
    assert_eq!(bpm.borrow().free_frame_count(), 1);

    // Bring the page back into the buffer pool
    let frame = fetch_page_handle(&bpm, page_id).expect("Failed to fetch page");
    assert!(
        !frame.frame(|frame| frame.is_dirty()),
        "Page should not be dirty after flush"
    );
    assert_eq!(frame.data(), page_data, "Page data should persist");
}

#[test]
fn test_bpm_cannot_delete_pinned_page() {
    let mut bpm = get_bpm_with_pool_size(5);

    // Pin count: 1
    let page = bpm.create_page_handle().unwrap();
    let page_id = page.page_id();

    // Deleting a pinned page should
    assert!(bpm.delete_page(page_id).is_err());
    assert_eq!(bpm.delete_page(page_id), Err(Error::PagePinned(page_id)));

    // Pin count: 0
    bpm.unpin_page(page_id, false);

    assert!(bpm.delete_page(page_id).is_ok());
}

#[test]
fn test_bpm_very_basic_test() {
    let pool_size = 10;
    let bpm = get_bpm_arc_with_pool_size(pool_size);

    // Create a new page
    let pid = {
        let page_handle = create_page_handle(&bpm).expect("Failed to create page");
        page_handle.page_id()
    };
    let str_data = "Hello, world!".as_bytes();

    // Check WritePageGuard basic functionality
    {
        let mut write_guard =
            fetch_page_mut_handle(&bpm, pid).expect("Failed to fetch page for writing");

        write_guard.write(0, str_data);
        let stored_data = &write_guard.data()[..str_data.len()];

        assert_eq!(stored_data, str_data);
    }

    // Check ReadPageGuard basic functionality
    {
        let read_guard = fetch_page_handle(&bpm, pid).expect("Failed to fetch page for reading");

        let stored_data = &read_guard.data()[..str_data.len()];
        assert_eq!(stored_data, str_data);
    }

    // Check ReadPageGuard functionality again
    {
        let read_guard =
            fetch_page_handle(&bpm, pid).expect("Failed to fetch page for reading again");

        let stored_data = &read_guard.data()[..str_data.len()];
        assert_eq!(stored_data, str_data);
    }

    // Delete page
    let result = bpm.borrow_mut().delete_page(pid);
    assert!(result.is_ok(), "Page deletion failed");
}

#[test]
fn test_bpm_page_pin_easy_test() {
    let pool_size = 2;
    let bpm = get_bpm_arc_with_pool_size(pool_size);

    // Create first page
    let pageid0 = create_page_handle(&bpm)
        .expect("Failed to create page 0")
        .page_id();

    // Ensure it's pinned
    assert_eq!(bpm.borrow().get_pin_count(pageid0), Some(0));

    // Create second page
    let pageid1 = create_page_handle(&bpm)
        .expect("Failed to create page 1")
        .page_id();

    // Ensure both pages are pinned
    assert_eq!(bpm.borrow().get_pin_count(pageid0), Some(0));
    assert_eq!(bpm.borrow().get_pin_count(pageid1), Some(0));

    // Write data to pages
    let str0 = b"page0";
    let str1 = b"page1";

    {
        let mut page0_write =
            fetch_page_mut_handle(&bpm, pageid0).expect("Failed to fetch page 0 for writing");
        page0_write.write(0, str0);

        let mut page1_write =
            fetch_page_mut_handle(&bpm, pageid1).expect("Failed to fetch page 1 for writing");
        page1_write.write(0, str1);

        // Ensure pin counts are still 1
        assert_eq!(
            bpm.borrow().get_pin_count(pageid0),
            Some(1),
            "Page 0 should still be pinned"
        );
        assert_eq!(
            bpm.borrow().get_pin_count(pageid1),
            Some(1),
            "Page 1 should still be pinned"
        );

        // Drop the page handles, which should unpin them
        drop(page0_write);
        drop(page1_write);
    }

    // Ensure pages are now unpinned
    assert_eq!(
        bpm.borrow().get_pin_count(pageid0),
        Some(0),
        "Page 0 should be unpinned after dropping the handle"
    );
    assert_eq!(
        bpm.borrow().get_pin_count(pageid1),
        Some(0),
        "Page 1 should be unpinned after dropping the handle"
    );
}

#[test]
fn test_bpm_page_pin_hard() {
    // Build your buffer pool manager with a certain size.
    let bpm = get_bpm_arc_with_pool_size(10);

    let mut page_ids = Vec::new();
    let mut contents = Vec::new();

    // Maps of pinned write/read handles (page_id -> handle).
    let mut pages_write: HashMap<PageId, WriteGuard> = HashMap::new();
    let mut pages_read: HashMap<PageId, ReadGuard> = HashMap::new();

    let num_pages = 10;

    // 1) Create 10 pages, each pinned for write. Write i, store handle.
    for i in 0..num_pages {
        // New page -> pinned handle
        let pid = {
            let page_handle =
                create_page_handle(&bpm).expect("Failed to create page");
            page_handle.page_id()
        };

        // Now fetch page in mut mode for writing.
        let mut page = fetch_page_mut_handle_or_none(&bpm, pid)
            .expect("Expected Some(...) since we have free frames for write");

        // Write i
        let data = i.to_string().into_bytes();
        page.write(0, &data);

        // Keep pinned
        pages_write.insert(pid, page);
        page_ids.push(pid);
        contents.push(i.to_string());
    }

    // 2) For each page, pin_count == 1, then drop handles => pin_count == 0
    for (i, &pid) in page_ids.iter().enumerate() {
        assert_eq!(
            bpm.borrow().get_pin_count(pid),
            Some(1),
            "Pin count should be 1 (pinned) for page {}",
            i
        );
        pages_write.remove(&pid); // Dropping pinned handle => unpin
        assert_eq!(
            bpm.borrow().get_pin_count(pid),
            Some(0),
            "Pin count should be 0 after dropping write handle for page {}",
            i
        );
    }

    // 3) Read each page => pin_count from 0 -> 1 => store read handle
    for (i, &pid) in page_ids.iter().enumerate() {
        let page = fetch_page_handle_or_none(&bpm, pid)
            .expect("fetch_page_handle_or_none => Some(...) expected for read");
        let data = page.data();
        let expected = contents[i].as_bytes();
        assert_eq!(
            &data[..expected.len()],
            expected,
            "Page {} content mismatch",
            i
        );
        assert_eq!(
            bpm.borrow().get_pin_count(pid),
            Some(1),
            "After read, pin_count should be 1 for page {}",
            i
        );
        pages_read.insert(pid, page);
    }

    // 4) Attempt to create new pages, but we have 10 pinned read pages => no free frames => fails
    for _ in 0..num_pages {
        let new_pid = match create_page_handle(&bpm) {
            Ok(h) => h.page_id(),
            Err(_) => 999_999, // dummy
        };
        // read that new_pid => should fail => None
        let page_opt = fetch_page_handle_or_none(&bpm, new_pid);
        assert!(
            page_opt.is_none(),
            "No free frames => fetch_page_handle should return None"
        );
    }

    // 5) Another read of each page => pin_count from 1 -> 2
    for (i, &pid) in page_ids.iter().enumerate() {
        let page2 = fetch_page_handle_or_none(&bpm, pid)
            .expect("Should be able to pin the same page again => second read handle");
        let data = page2.data();
        let expected = contents[i].as_bytes();
        assert_eq!(&data[..expected.len()], expected, "Second read mismatch");
        assert_eq!(
            bpm.borrow().get_pin_count(pid),
            Some(2),
            "Pin count => 2 after second read"
        );
        // Drop page2 immediately => pin_count -> 1
    }
    // Implicit drop => scope ends => pin_count => 1 again

    // 6) Check pin_count is back to 1 for each
    for (i, &pid) in page_ids.iter().enumerate() {
        assert_eq!(
            bpm.borrow().get_pin_count(pid),
            Some(1),
            "Pin count => 1 after dropping second read handle for page {}",
            i
        );
    }

    // 7) Drop read handle for page_ids[4]. => pin_count => 0 => it can be evicted
    {
        let pid4 = page_ids[4];
        pages_read.remove(&pid4);
        // Create new page => success => might evict page4
        let new_pid1 = create_page_handle(&bpm)
            .expect("Failed to create new page1")
            .page_id();

        // read new_pid1 => should succeed => pinned
        let new_page1 = fetch_page_handle_or_none(&bpm, new_pid1)
            .expect("We should be able to read newly created page");
        // Now page4 might be evicted => reading it => None
        let page4_opt = fetch_page_handle_or_none(&bpm, pid4);
        assert!(page4_opt.is_none(), "Page4 got evicted => fetch => None");
        drop(new_page1); // Unpin new_pid1
    }

    // 8) Similarly, drop pages [5], [6], [7] => attempt rewriting them => etc.
    {
        let pid5 = page_ids[5];
        let pid6 = page_ids[6];
        let pid7 = page_ids[7];

        // Drop read handles => pin_count => 0
        pages_read.remove(&pid5);
        pages_read.remove(&pid6);
        pages_read.remove(&pid7);

        // Overwrite them with new data
        let updated5 = b"updatedpage5";
        let updated6 = b"updatedpage6";
        let updated7 = b"updatedpage7";

        // Write updates to page5
        {
            let mut page5 = fetch_page_mut_handle_or_none(&bpm, pid5)
                .expect("Should be able to pin page5 for writing");
            page5.write(0, updated5);
            // Dropping => unpin
        }

        // Write updates to page6
        {
            let mut page6 = fetch_page_mut_handle_or_none(&bpm, pid6)
                .expect("Should be able to pin page6 for writing");
            page6.write(0, updated6);
        }

        // Write updates to page7
        {
            let mut page7 = fetch_page_mut_handle_or_none(&bpm, pid7)
                .expect("Should be able to pin page7 for writing");
            page7.write(0, updated7);
        }

        // After dropping them, each pin count => 0
        assert_eq!(bpm.borrow().get_pin_count(pid5), Some(0));
        assert_eq!(bpm.borrow().get_pin_count(pid6), Some(0));
        assert_eq!(bpm.borrow().get_pin_count(pid7), Some(0));

        // Create a new page => may evict page5, for example
        let new_pid2 = {
            let handle = create_page_handle(&bpm)
                .expect("Failed to create new page2");
            handle.page_id()
        };
        let new_page2_opt = fetch_page_handle_or_none(&bpm, new_pid2);
        assert!(
            new_page2_opt.is_some(),
            "Should read newly created page => possible eviction of old pages"
        );

        // Verify page5 data (reloaded or in memory)
        let page5_opt = fetch_page_handle_or_none(&bpm, pid5);
        assert!(page5_opt.is_some(), "Page5 should be readable again");
        let page5_handle = page5_opt.unwrap();
        assert_eq!(
            &page5_handle.data()[..updated5.len()],
            updated5,
            "page5 => updated content"
        );

        // Verify page7 data
        let page7_opt = fetch_page_handle_or_none(&bpm, pid7);
        assert!(page7_opt.is_some(), "Page7 should be readable");
        let page7_handle = page7_opt.unwrap();
        assert_eq!(
            &page7_handle.data()[..updated7.len()],
            updated7,
            "page7 => updated content"
        );

        let page6_read_opt = fetch_page_handle_or_none(&bpm, pid6);
        assert!(page6_read_opt.is_some());
        drop(page6_read_opt.unwrap());

        // Drop new_page2 => free a frame
        drop(new_page2_opt);

        // Now we can pin page6 for writing again
        let mut page6_write_opt =
            fetch_page_mut_handle_or_none(&bpm, pid6).expect("Should be able to pin page6 now");
        // Confirm we see the old update
        assert_eq!(
            &page6_write_opt.data()[..updated6.len()],
            updated6,
            "page6 => previously updated content"
        );

        // Write another update
        let updated6_12345 = b"12345updatedpage6";
        page6_write_opt.write(0, updated6_12345);

        // Try creating a new page => might fail if everything is pinned
        let new_pid3 = {
            match create_page_handle(&bpm) {
                Ok(h) => h.page_id(),
                Err(_) => 999_999,
            }
        };
        let new_page3 = fetch_page_handle_or_none(&bpm, new_pid3);
        assert!(new_page3.is_some());

        // Drop page7, page6 => free frames
        drop(page7_handle);
        drop(page6_write_opt);

        // Now we can create new_pid3 again => should succeed
        let new_pid3b = create_page_handle(&bpm)
            .expect("Should create page after freeing frames")
            .page_id();

        let new_page3b = fetch_page_handle_or_none(&bpm, new_pid3b);
        assert!(
            new_page3b.is_some(),
            "Now we can read new_pid3b => Some(...)"
        );

        // Re-check page6 => updated6_12345
        let page6_opt2 = fetch_page_handle_or_none(&bpm, pid6);
        assert!(page6_opt2.is_some());
        let page6_handle2 = page6_opt2.unwrap();
        assert_eq!(
            &page6_handle2.data()[..updated6_12345.len()],
            updated6_12345,
            "page6 => new update"
        );

        // If page7 was evicted, we drop new_page3b => try again
        drop(new_page3b);
        let page7_opt2 = fetch_page_handle_or_none(&bpm, pid7);
        assert!(page7_opt2.is_some());
        let page7_handle2 = page7_opt2.unwrap();
        assert_eq!(
            &page7_handle2.data()[..updated7.len()],
            updated7,
            "page7 => updated content"
        );
    }
}

#[test]
fn test_bpm_page_pin_hard_with_random_data() {
    let pool_size = 10;
    let bpm = get_bpm_arc_with_pool_size(pool_size);

    // 2) Create a new page (pid0) and write random data to it.
    let pid0 = {
        let page_handle =
            create_page_handle(&bpm).expect("Failed to create page 0");
        page_handle.page_id()
    };

    // Pin the page for writing.
    let mut page0_write = fetch_page_mut_handle(&bpm, pid0)
        .expect("Failed to fetch page0 for writing");

    // Generate random data of PAGE_SIZE length.
    let mut rng = rand::rng();
    let mut random_data = vec![0u8; PAGE_SIZE];
    for byte in &mut random_data {
        *byte = rng.random();
    }
    // Optionally terminate the last few bytes
    if PAGE_SIZE >= 2 {
        random_data[PAGE_SIZE - 2] = 0;
        random_data[PAGE_SIZE - 1] = 0;
    }

    // Write random data to the page and verify it immediately.
    page0_write.write(0, &random_data);
    assert_eq!(&page0_write.data()[..], &random_data[..]);

    // Unpin page0 by dropping it.
    drop(page0_write);

    // 3) Fill up the buffer pool with pinned pages.
    let mut pages = Vec::new();
    for _ in 0..pool_size {
        let new_pid = create_page_handle(&bpm)
            .expect("Failed to create new page")
            .page_id();
        let page_handle = fetch_page_mut_handle(&bpm, new_pid)
            .expect("Failed to fetch newly created page for writing");
        pages.push(page_handle);
    }

    // 4) Verify all pinned pages have pin_count == 1.
    for page in &pages {
        let pid = page.page_id();
        assert_eq!(
            bpm.borrow().get_pin_count(pid),
            Some(1),
            "All pages should be pinned with pin_count == 1"
        );
    }

    // 5) Because the buffer pool is full, creating more pages should fail.
    for _ in 0..pool_size {
        assert!(
            create_page_handle(&bpm).is_err(),
            "Should not be able to create new page when buffer pool is full"
        );
    }

    // 6) Drop the first 5 pages => unpin them => pin_count => 0.
    for _ in 0..pool_size / 2 {
        let pid = pages[0].page_id();
        assert_eq!(bpm.borrow().get_pin_count(pid), Some(1));
        drop(pages.remove(0));
        assert_eq!(bpm.borrow().get_pin_count(pid), Some(0));
    }

    // 7) The remaining pages are still pinned => pin_count == 1.
    for page in &pages {
        let pid = page.page_id();
        assert_eq!(
            bpm.borrow().get_pin_count(pid),
            Some(1),
            "Remaining pages are still pinned with pin_count == 1"
        );
    }

    // 8) Create new pages (evicting the unpinned ones).
    for _ in 0..pool_size / 2 {
        let page_handle = create_page_handle(&bpm)
            .expect("Failed to create page after unpinning");
        pages.push(page_handle);
    }

    // 9) Buffer pool is full again => creating more pages should fail.
    for _ in 0..pool_size {
        assert!(
            create_page_handle(&bpm).is_err(),
            "Should fail to create page => buffer pool full"
        );
    }

    // 10) Drop the next 5 pages => unpin them => pin_count => 0
    for _ in 0..pool_size / 2 {
        let pid = pages[0].page_id();
        assert_eq!(bpm.borrow().get_pin_count(pid), Some(1));
        drop(pages.remove(0));
        assert_eq!(bpm.borrow().get_pin_count(pid), Some(0));
    }

    // 11) Fetch the original page (pid0) in read mode => compare random data.
    {
        let page0_read = fetch_page_handle(&bpm, pid0)
            .expect("Failed to fetch original page0 for reading");
        assert_eq!(
            &page0_read.data()[..],
            &random_data[..],
            "Original random data should remain intact"
        );
        // Optionally drop page0_read => unpin
        drop(page0_read);
    }

    // 12) Drop the last 5 pinned pages => unpin them => pin_count => 0
    for _ in 0..pool_size / 2 {
        let pid = pages[0].page_id();
        assert_eq!(bpm.borrow().get_pin_count(pid), Some(1));
        drop(pages.remove(0));
        assert_eq!(bpm.borrow().get_pin_count(pid), Some(0));
    }
}

#[test]
fn test_bpm_new_page() {
    let pool_size = 10;
    let bpm = get_bpm_arc_with_pool_size(pool_size);

    // We'll store pinned write handles here
    let mut pgs: Vec<WriteGuard> = Vec::new();

    // 2) Fill up the buffer pool with pinned pages
    for i in 0..pool_size {
        // Create a new page
        let page_id = {
            let handle =
                create_page_handle(&bpm).expect("Failed to create page");
            handle.page_id()
        };

        // Pin the newly created page in write mode
        let mut page_handle = fetch_page_mut_handle(&bpm, page_id)
            .expect("Failed to fetch newly created page for writing");

        // Write data (e.g., the index `i`) for clarity
        let data = i.to_string().into_bytes();
        page_handle.write(0, &data);

        // Store the pinned handle
        pgs.push(page_handle);
    }

    // 3) All pages should be pinned with pin_count == 1
    for handle in &pgs {
        let pid = handle.page_id();
        assert_eq!(
            bpm.borrow().get_pin_count(pid),
            Some(1),
            "All pages should be pinned => pin_count == 1"
        );
    }

    // 4) The buffer pool is full. Creating more pages should fail
    for _ in 0..100 {
        assert!(
            create_page_handle(&bpm).is_err(),
            "No free frames => must fail to create new page"
        );
    }

    // 5) Unpin (drop) the last 5 pages => they become evictable
    for _ in 0..5 {
        pgs.pop().expect("We have enough pages to pop");
    }

    // 6) Create 5 new pages => pinned again
    for _ in 0..5 {
        let page_id = {
            let handle =
                create_page_handle(&bpm).expect("Failed to create page");
            handle.page_id()
        };
        let mut page_handle = fetch_page_mut_handle(&bpm, page_id)
            .expect("Failed to fetch new page for writing");
        // Optionally write some data
        let data = b"some new data";
        page_handle.write(0, data);

        pgs.push(page_handle);
    }

    // 7) The buffer pool is full again. Creating more pages should fail
    for _ in 0..100 {
        assert!(
            create_page_handle(&bpm).is_err(),
            "Again no free frames => must fail"
        );
    }

    // 8) Unpin (drop) the last 5 pages => they become evictable
    for _ in 0..5 {
        pgs.pop().expect("We have enough pages to pop");
    }

    // 9) Create 5 more pages => pinned
    for _ in 0..5 {
        let page_id = {
            let handle =
                create_page_handle(&bpm).expect("Failed to create page");
            handle.page_id()
        };
        let mut page_handle = fetch_page_mut_handle(&bpm, page_id)
            .expect("Failed to fetch page for writing");
        page_handle.write(0, b"some fresh data");
        pgs.push(page_handle);
    }

    // 10) The buffer pool is full again => new pages must fail
    for _ in 0..100 {
        assert!(
            create_page_handle(&bpm).is_err(),
            "No free frames => creation fails"
        );
    }
}

#[test]
fn test_insert_tuple() {
    let bpm = get_bpm_arc_with_pool_size(10);
    let mut table_page = create_page_handle(&bpm).unwrap();

    table_page.frame_mut(|frame| TablePage::init_header(frame, 1));

    let tuple = Tuple::new(vec![1_u8, 2_u8, 3_u8, 4_u8].into());
    let meta = TupleMetadata::new(false);
    let slot = table_page
        .frame_mut(|frame| TablePage::insert_tuple(frame, &meta, &tuple))
        .unwrap();

    assert_eq!(1, table_page.frame(|frame| TablePage::tuple_count(frame)));
    assert_eq!(1, table_page.frame(|frame| TablePage::next_page_id(frame)));

    let rid = RecordId::new(table_page.page_id(), slot.slot_id());
    assert_eq!(
        tuple.data(),
        table_page
            .frame(|frame| TablePage::get_tuple(frame, &rid))
            .unwrap()
            .1
            .data()
    );
}

fn set_slot_offset(frame: &mut PageFrame, slot: u32, offset: u16) {
    let info = TablePage::slot(frame, slot);
    TablePage::write_slot(frame, slot, TupleInfo { offset, ..info });
}

fn set_slot_deleted(frame: &mut PageFrame, slot: u32, deleted: bool) {
    let mut info = TablePage::slot(frame, slot);
    info.metadata.set_deleted(deleted);
    TablePage::write_slot(frame, slot, info);
}

#[test]
fn test_table_page_metadata() {
    let bpm = get_bpm_arc_with_pool_size(10);

    let page_id;
    {
        let mut table_page = create_page_handle(&bpm).unwrap();

        table_page.frame_mut(|frame| TablePage::init_header(frame, 2));

        page_id = table_page.page_id();

        let header = table_page.frame(|frame| TablePage::header(frame));
        assert_eq!(header.next_page_id, 2);
        assert_eq!(header.tuple_cnt, 0);
        assert_eq!(header.deleted_tuple_cnt, 0);

        table_page.frame_mut(|frame| TablePage::set_tuple_count(frame, 5));

        let updated_header = table_page.frame(|frame| TablePage::header(frame));
        assert_eq!(updated_header.tuple_cnt, 5);

        let slots = table_page.frame(|frame| TablePage::slot_array(frame));
        assert_eq!(slots.len(), 5);

        table_page.frame_mut(|frame| {
            set_slot_offset(frame, 0, 55);
            set_slot_offset(frame, 1, 11);
            set_slot_deleted(frame, 1, true);
        });
        let slots_mut = table_page.frame(|frame| TablePage::slot_array(frame));
        assert_eq!(slots_mut[0].offset, 55);
        assert_eq!(slots_mut[1].offset, 11);
        assert_eq!(slots_mut[1].metadata.is_deleted(), true);

        table_page.frame_mut(|frame| TablePage::set_tuple_count(frame, 3));

        let slots = table_page.frame(|frame| TablePage::slot_array(frame));
        assert_eq!(slots.len(), 3);
        assert_eq!(slots[0].offset, 55);
        assert_eq!(slots[1].offset, 11);
        assert_eq!(slots[1].metadata.is_deleted(), true);
    }

    let table_page1 = fetch_page_handle(&bpm, page_id).unwrap();

    assert_eq!(1, table_page1.page_id());
    assert_eq!(1, table_page1.frame(|frame| TablePage::page_id(frame)));
    assert_eq!(2, table_page1.frame(|frame| TablePage::next_page_id(frame)));
    assert_eq!(3, table_page1.frame(|frame| TablePage::tuple_count(frame)));

    let slots = table_page1.frame(|frame| TablePage::slot_array(frame));
    assert_eq!(slots.len(), 3);
    assert_eq!(slots[0].offset, 55);
    assert_eq!(slots[0].offset(), 55);
    assert_eq!(slots[1].offset, 11);
    assert_eq!(slots[1].size_bytes(), 0);
    assert_eq!(slots[1].metadata.is_deleted(), true);
}

#[test]
fn test_insert_and_get_tuple() {
    let bpm = get_bpm_arc_with_pool_size(10);

    let page_id;
    let insert_record_id;

    // tuple metadata
    let metadata = TupleMetadata::new(true);

    let tuple_data = vec![1, 2, 3, 1, 2, 3, 4, 5, 6, 7, 8];
    {
        let mut table_page = create_page_handle(&bpm).unwrap();

        page_id = table_page.page_id();

        // Initialize page header
        table_page.frame_mut(|frame| TablePage::init_header(frame, 2));
        assert_eq!(table_page.frame(|frame| TablePage::header(frame)).tuple_cnt, 0);

        let tuple = Tuple::new(tuple_data.clone().into());

        // Insert the tuple
        let record_id = table_page
            .frame_mut(|frame| TablePage::insert_tuple(frame, &metadata, &tuple))
            .unwrap();
        assert_eq!(table_page.frame(|frame| TablePage::tuple_count(frame)), 1);

        insert_record_id = record_id.clone();

        // Retrieve the tuple
        let (retrieved_meta, retrieved_tuple) = table_page
            .frame(|frame| TablePage::get_tuple(frame, &record_id))
            .unwrap();

        // Ensure retrieved tuple matches inserted tuple
        assert_eq!(retrieved_meta.is_deleted(), metadata.is_deleted());
        assert_eq!(retrieved_tuple.data(), &tuple_data);
    }
    let table_page1 = fetch_page_handle(&bpm, page_id).unwrap();

    // Retrieve the tuple
    let (retrieved_meta, retrieved_tuple) = table_page1
        .frame(|frame| TablePage::get_tuple(frame, &insert_record_id))
        .unwrap();

    // Ensure retrieved tuple matches inserted tuple
    assert_eq!(retrieved_meta.is_deleted(), metadata.is_deleted());
    assert_eq!(retrieved_tuple.data(), &tuple_data);
}

/// Test that we can insert a tuple into the table heap and then retrieve it correctly.
#[test]
fn test_table_heap_insert_and_get() {
    let mut bpm = get_bpm_with_pool_size(10);

    let mut table_heap = TableHeap::new("table", &mut bpm).unwrap();

    let tuple_data = vec![10, 20, 30, 40, 50];
    let tuple = Tuple::new(tuple_data.clone().into());

    let rid = table_heap.insert_tuple(&mut bpm, &tuple).unwrap();
    let (meta, retrieved_tuple) = table_heap.get_tuple(&mut bpm, &rid).unwrap();
    assert_eq!(retrieved_tuple.data(), tuple_data.as_slice());
    assert!(!meta.is_deleted());
}

/// Test that a tuple insertion that would overflow the current page
/// triggers allocation of a new page and that both tuples are correctly stored.
#[test]
fn test_table_heap_new_page_allocation() {
    let mut bpm = get_bpm_with_pool_size(10);

    let mut table_heap = TableHeap::new("table", &mut bpm).unwrap();

    // Create and insert a huge tuple that nearly fills the page.
    let huge_tuple_size = PAGE_SIZE - TABLE_PAGE_HEADER_SIZE - TUPLE_INFO_SIZE - 5;
    let huge_tuple_data = vec![1; huge_tuple_size];
    let huge_tuple = Tuple::new(huge_tuple_data.clone().into());
    let rid1 = table_heap.insert_tuple(&mut bpm, &huge_tuple).unwrap();

    // Insert another tuple. This insertion should detect insufficient space in the
    // current page and cause a new page to be allocated.
    let small_tuple_data = vec![2, 3, 4, 5, 2, 3, 4, 5, 2, 3, 4, 5, 2, 3, 4, 5];
    let small_tuple = Tuple::new(small_tuple_data.clone().into());
    let rid2 = table_heap.insert_tuple(&mut bpm, &small_tuple).unwrap();

    // Verify that the two record IDs have different page ids.
    assert_ne!(rid1.page_id(), rid2.page_id());

    // Retrieve both tuples and verify their data.
    let (_meta1, retrieved_huge) = table_heap.get_tuple(&mut bpm, &rid1).unwrap();
    let (_meta2, retrieved_small) = table_heap.get_tuple(&mut bpm, &rid2).unwrap();
    assert_eq!(retrieved_huge.data(), huge_tuple_data.as_slice());
    assert_eq!(retrieved_small.data(), small_tuple_data.as_slice());
}

#[test]
fn test_tuple_deletion() {
    let mut bpm = get_bpm_with_pool_size(2);
    let mut table_heap = TableHeap::new("table", &mut bpm).unwrap();

    // Insert tuples into table heap
    let tuples: Vec<Tuple> = vec![
        Tuple::new(vec![10, 20, 30].into()),
        Tuple::new(vec![40, 50, 60].into()),
        Tuple::new(vec![70, 80, 90].into()),
    ];

    let mut rids = Vec::new();
    for tuple in &tuples {
        let rid = table_heap.insert_tuple(&mut bpm, tuple).unwrap();
        rids.push(rid);
    }

    // Delete the second tuple
    let (meta_deleted, tuple_deleted) = table_heap.delete_tuple(&mut bpm, &rids[1]).unwrap();
    assert_eq!(meta_deleted.is_deleted(), false);
    assert_eq!(
        table_heap
            .get_tuple(&mut bpm, &rids[1])
            .unwrap()
            .0
            .is_deleted(),
        true
    );
    assert_eq!(tuple_deleted.data(), tuples[1].data());

    // Verify deleted tuple metadata is marked correctly
    let (meta_after, _) = table_heap.get_tuple(&mut bpm, &rids[1]).unwrap();
    assert!(meta_after.is_deleted(), "Tuple should be marked as deleted");

    // Verify other tuples are unaffected
    for (i, rid) in rids.iter().enumerate() {
        if i != 1 {
            let (meta, tuple) = table_heap.get_tuple(&mut bpm, rid).unwrap();
            assert!(!meta.is_deleted(), "Tuple {} should not be deleted", i);
            assert_eq!(tuple.data(), tuples[i].data(), "Tuple {} data mismatch", i);
        }
    }

    // Attempt to delete the same tuple again
    let delete_again_result = table_heap.delete_tuple(&mut bpm, &rids[1]);
    assert!(
        delete_again_result.is_ok(),
        "Deleting an already deleted tuple should succeed"
    );

    // Final check to ensure no unintended side effects.
    for (i, rid) in rids.iter().enumerate() {
        let (meta, tuple) = table_heap.get_tuple(&mut bpm, rid).unwrap();
        if i == 1 {
            assert!(meta.is_deleted(), "Tuple {} should remain deleted", i);
        } else {
            assert!(
                !meta.is_deleted(),
                "Tuple {} should still not be deleted",
                i
            );
            assert_eq!(
                tuple.data(),
                tuples[i].data(),
                "Tuple {} data integrity check failed",
                i
            );
        }
    }
}

fn collect_scan(iter: &mut TableTupleIterator, bpm: &mut Pool) -> Result<Vec<(u64, Tuple)>, Error> {
    let mut tuples = Vec::new();
    while let Some(item) = iter.next(bpm) {
        tuples.push(item?);
    }
    Ok(tuples)
}

/// Test that the iterator correctly visits all non-deleted tuples in the table heap.
#[test]
fn test_table_iterator() {
    // Set up a test disk and buffer pool manager.
    let disk = DiskManager::new(MemFile::new()).unwrap();
    let replacer = LrukReplacer::new(3);
    let mut bpm = BufferPoolManager::new(10, disk, replacer);

    let mut table_heap = TableHeap::new("table", &mut bpm).unwrap();

    let tuple1 = Tuple::new(vec![1, 2, 3].into());
    let tuple2 = Tuple::new(vec![4, 5, 6].into());
    let tuple3 = Tuple::new(vec![7, 8, 9].into());
    let tuple4 = Tuple::new(vec![10, 11, 12].into());
    let tuple5 = Tuple::new(vec![13, 14, 15].into());

    table_heap.insert_tuple(&mut bpm, &tuple1).unwrap();
    table_heap.insert_tuple(&mut bpm, &tuple2).unwrap();
    let rid3 = table_heap.insert_tuple(&mut bpm, &tuple3).unwrap();
    table_heap.insert_tuple(&mut bpm, &tuple4).unwrap();
    table_heap.insert_tuple(&mut bpm, &tuple5).unwrap();

    table_heap.delete_tuple(&mut bpm, &rid3).unwrap();

    let mut iter = TableTupleIterator::new(&table_heap);

    // Collect all tuples from the iterator.
    let tuples = collect_scan(&mut iter, &mut bpm).unwrap();
    assert_eq!(tuples.len(), 4);
    assert_eq!(tuples[0].1.data().to_vec(), &[1, 2, 3]);
    assert_eq!(tuples[1].1.data().to_vec(), &[4, 5, 6]);
    assert_eq!(tuples[2].1.data().to_vec(), &[10, 11, 12]);
    assert_eq!(tuples[3].1.data().to_vec(), &[13, 14, 15]);

    // Deleting the tuple again succeeds.
    assert!(table_heap.delete_tuple(&mut bpm, &rid3).is_ok());

    // A scan that is over stays over.
    assert!(iter.next(&mut bpm).is_none());
}

#[test]
fn test_frame_accessors() {
    let mut frame = PageFrame::new();
    assert_eq!(frame.page_id(), INVALID_PAGE_ID);
    assert!(!frame.is_dirty());
    assert_eq!(frame.pin_count(), 0);
    assert_eq!(frame.data(), &[0u8; PAGE_SIZE][..]);

    frame.write(10, b"abc");
    assert_eq!(&frame.data()[9..14], &[0, b'a', b'b', b'c', 0]);
    frame.write(PAGE_SIZE - 2, &[7, 8]);
    assert_eq!(&frame.data()[PAGE_SIZE - 3..], &[0, 7, 8]);
    frame.data_mut()[0] = 9;
    assert_eq!(frame.data()[0], 9);
    assert_eq!(frame.data().len(), PAGE_SIZE);

    let mut page = vec![0u8; PAGE_SIZE];
    page[5] = 55;
    frame.load(page.clone());
    assert_eq!(frame.data(), &page[..]);
}

#[test]
fn test_disk_manager_allocates_and_recycles() {
    let mut disk = DiskManager::new(MemFile::new()).unwrap();
    // The file has room for the initial capacity plus one page.
    assert_eq!(disk.get_db_file_size(), Ok(33 * PAGE_SIZE as u64));

    // Page ids count up from one.
    assert_eq!(disk.allocate_page(), Ok(1));
    assert_eq!(disk.allocate_page(), Ok(2));
    assert_eq!(disk.allocate_page(), Ok(3));

    // A new page is zero on disk.
    assert_eq!(disk.read(2), Ok(Some(vec![0u8; PAGE_SIZE])));
    // A page that was never allocated has nothing to read.
    assert_eq!(disk.read(9), Ok(None));

    let mut data = vec![0u8; PAGE_SIZE];
    data[0] = 1;
    data[PAGE_SIZE - 1] = 2;
    assert_eq!(disk.write(2, &data), Ok(()));
    assert_eq!(disk.read(2), Ok(Some(data.clone())));
    // The other pages are untouched: no two pages share an offset.
    assert_eq!(disk.read(1), Ok(Some(vec![0u8; PAGE_SIZE])));
    assert_eq!(disk.read(3), Ok(Some(vec![0u8; PAGE_SIZE])));

    // Data must fit in a page.
    assert!(matches!(
        disk.write(2, &vec![0u8; PAGE_SIZE + 1]),
        Err(Error::InvalidData(_))
    ));

    // Deallocating an unknown page fails; a known page leaves a free slot behind.
    assert!(matches!(disk.deallocate_page(9), Err(Error::InvalidInput(_))));
    assert_eq!(disk.deallocate_page(2), Ok(()));
    assert_eq!(disk.read(2), Ok(None));
    assert!(matches!(disk.deallocate_page(2), Err(Error::InvalidInput(_))));

    // The next page takes the free slot, and starts out zero.
    assert_eq!(disk.allocate_page(), Ok(4));
    assert_eq!(disk.read(4), Ok(Some(vec![0u8; PAGE_SIZE])));
    assert_eq!(disk.read(1), Ok(Some(vec![0u8; PAGE_SIZE])));
    // The file has not grown.
    assert_eq!(disk.get_db_file_size(), Ok(33 * PAGE_SIZE as u64));

    // Writing a page that has no offset gives it one.
    let mut other = vec![3u8; PAGE_SIZE];
    other[7] = 4;
    assert_eq!(disk.write(100, &other), Ok(()));
    assert_eq!(disk.read(100), Ok(Some(other)));
    assert_eq!(disk.read(4), Ok(Some(vec![0u8; PAGE_SIZE])));
}

#[test]
fn test_disk_manager_grows_the_file() {
    let mut disk = DiskManager::new(MemFile::new()).unwrap();
    for expected in 1..=31 {
        assert_eq!(disk.allocate_page(), Ok(expected));
    }
    assert_eq!(disk.get_db_file_size(), Ok(33 * PAGE_SIZE as u64));
    // The 32nd page would reach the capacity: the capacity doubles.
    assert_eq!(disk.allocate_page(), Ok(32));
    assert_eq!(disk.get_db_file_size(), Ok(65 * PAGE_SIZE as u64));
    for expected in 33..=63 {
        assert_eq!(disk.allocate_page(), Ok(expected));
    }
    assert_eq!(disk.get_db_file_size(), Ok(65 * PAGE_SIZE as u64));
    for expected in 64..=70 {
        assert_eq!(disk.allocate_page(), Ok(expected));
    }
    assert_eq!(disk.get_db_file_size(), Ok(129 * PAGE_SIZE as u64));
    // Every page can be written and read back on its own.
    for page_id in 1..=70u32 {
        assert_eq!(disk.write(page_id, &vec![page_id as u8; PAGE_SIZE]), Ok(()));
    }
    for page_id in 1..=70u32 {
        assert_eq!(disk.read(page_id), Ok(Some(vec![page_id as u8; PAGE_SIZE])));
    }
}

#[test]
fn test_disk_manager_reports_io_errors() {
    let file = MemFile::new();
    let fail = file.fail_writes.clone();
    let mut disk = DiskManager::new(file).unwrap();
    assert_eq!(disk.allocate_page(), Ok(1));
    *fail.borrow_mut() = true;
    assert_eq!(
        disk.write(1, b"abc"),
        Err(Error::IO("the disk is on fire".to_string()))
    );
    assert!(matches!(disk.allocate_page(), Err(Error::IO(_))));
    *fail.borrow_mut() = false;
    // The failed allocation has used up a page id.
    assert_eq!(disk.allocate_page(), Ok(3));
}

#[test]
fn test_create_and_fetch() {
    let bpm = get_bpm_arc_with_pool_size(10);
    assert_eq!(bpm.borrow().capacity(), 10);
    let page_id = {
        let handle = create_page_handle(&bpm).unwrap();
        handle.page_id()
    };
    assert_eq!(page_id, 1);
    let read = fetch_page_handle(&bpm, 1).unwrap();
    assert_eq!(read.data(), vec![0u8; PAGE_SIZE]);
}

#[test]
fn test_full_pool() {
    let bpm = get_bpm_arc_with_pool_size(2);
    let first = create_page_handle(&bpm).unwrap();
    let second = create_page_handle(&bpm).unwrap();
    assert_eq!(first.page_id(), 1);
    assert_eq!(second.page_id(), 2);
    assert!(matches!(
        create_page_handle(&bpm).map(|handle| handle.page_id()),
        Err(Error::BufferPoolError(_))
    ));
    // A failed creation uses up no page id.
    drop(first);
    let third = create_page_handle(&bpm).unwrap();
    assert_eq!(third.page_id(), 3);
}

#[test]
fn test_evict_and_reread() {
    let bpm = get_bpm_arc_with_pool_size(1);
    {
        let mut page = create_page_handle(&bpm).unwrap();
        assert_eq!(page.page_id(), 1);
        page.write(0, b"abc");
    }
    {
        let page = create_page_handle(&bpm).unwrap();
        assert_eq!(page.page_id(), 2);
        // Page 1 had to leave.
        assert_eq!(bpm.borrow().get_pin_count(1), None);
    }
    let page = fetch_page_handle(&bpm, 1).unwrap();
    assert_eq!(&page.data()[..3], b"abc");
    assert_eq!(bpm.borrow().get_pin_count(2), None);
}

#[test]
fn test_dropping_the_last_handle_frees_a_frame() {
    let bpm = get_bpm_arc_with_pool_size(3);
    let page = create_page_handle(&bpm).unwrap();
    let page_id = page.page_id();
    assert_eq!(bpm.borrow().free_frame_count(), 2);
    let second = fetch_page_handle(&bpm, page_id).unwrap();
    assert_eq!(bpm.borrow().get_pin_count(page_id), Some(2));
    assert_eq!(bpm.borrow().free_frame_count(), 2);
    // With another handle left, dropping one frees no frame.
    drop(second);
    assert_eq!(bpm.borrow().get_pin_count(page_id), Some(1));
    assert_eq!(bpm.borrow().free_frame_count(), 2);
    // Dropping the last handle does.
    drop(page);
    assert_eq!(bpm.borrow().get_pin_count(page_id), Some(0));
    assert_eq!(bpm.borrow().free_frame_count(), 3);
}

#[test]
fn test_fetch_errors() {
    let bpm = get_bpm_arc_with_pool_size(1);
    // The invalid page id names no page.
    assert!(matches!(
        fetch_page_handle(&bpm, INVALID_PAGE_ID).map(|handle| handle.page_id()),
        Err(Error::InvalidInput(_))
    ));
    assert!(matches!(
        fetch_page_mut_handle(&bpm, INVALID_PAGE_ID).map(|handle| handle.page_id()),
        Err(Error::InvalidInput(_))
    ));
    // A page that the disk does not know is a page of zeros.
    {
        let unknown = fetch_page_handle(&bpm, 77).unwrap();
        assert_eq!(unknown.data(), vec![0u8; PAGE_SIZE]);
        // With the only frame pinned, no other page can come in.
        assert!(matches!(
            fetch_page_handle(&bpm, 78).map(|handle| handle.page_id()),
            Err(Error::BufferPoolError(_))
        ));
    }
    assert!(fetch_page_handle(&bpm, 78).is_ok());
}

#[test]
fn test_flush_and_delete_errors() {
    let mut bpm = get_bpm_with_pool_size(2);
    // Flushing a page that is not in the pool fails.
    assert!(matches!(bpm.flush_page(&5), Err(Error::BufferPoolError(_))));
    // Deleting a page that is neither in the pool nor on disk fails.
    assert!(matches!(bpm.delete_page(5), Err(Error::InvalidInput(_))));

    let handle = bpm.create_page_handle().unwrap();
    let page_id = handle.page_id();
    bpm.frame_mut(&handle).write(0, b"xyz");
    handle.release(&mut bpm);
    // A dirty page is written by a flush and is clean afterwards.
    assert_eq!(bpm.flush_page(&page_id), Ok(()));
    let read = bpm.fetch_page_handle(page_id).unwrap();
    assert!(!bpm.frame(&read).is_dirty());
    assert_eq!(&bpm.frame(&read).data()[..3], b"xyz");
    assert_eq!(bpm.delete_page(page_id), Err(Error::PagePinned(page_id)));
    read.release(&mut bpm);
    // Flushing a clean page changes nothing.
    assert_eq!(bpm.flush_page(&page_id), Ok(()));

    assert_eq!(bpm.free_frame_count(), 2);
    assert_eq!(bpm.delete_page(page_id), Ok(()));
    assert_eq!(bpm.get_pin_count(page_id), None);
    assert_eq!(bpm.free_frame_count(), 2);
    // The page is gone from disk too: fetching it gives a page of zeros.
    let again = bpm.fetch_page_handle(page_id).unwrap();
    assert_eq!(bpm.frame(&again).data(), &[0u8; PAGE_SIZE][..]);
    again.release(&mut bpm);
}

#[test]
fn test_write_back_failure_keeps_the_page() {
    let file = MemFile::new();
    let fail = file.fail_writes.clone();
    let disk = DiskManager::new(file).unwrap();
    let mut bpm = BufferPoolManager::new(1, disk, LrukReplacer::new(2));

    let handle = bpm.create_page_handle().unwrap();
    let page_id = handle.page_id();
    bpm.frame_mut(&handle).write(0, b"keep");
    handle.release(&mut bpm);

    // The dirty page cannot be written back, so no other page can take its frame.
    *fail.borrow_mut() = true;
    assert!(matches!(bpm.fetch_page_handle(50), Err(Error::IO(_))));
    assert!(matches!(bpm.flush_page(&page_id), Err(Error::IO(_))));
    *fail.borrow_mut() = false;

    // The page is still in the pool, with its bytes.
    let read = bpm.fetch_page_handle(page_id).unwrap();
    assert_eq!(&bpm.frame(&read).data()[..4], b"keep");
    assert!(bpm.frame(&read).is_dirty());
    read.release(&mut bpm);
    assert_eq!(bpm.free_frame_count(), 1);
}

#[test]
fn test_table_page_boundaries() {
    let mut frame = PageFrame::new();
    TablePage::init_header(&mut frame, INVALID_PAGE_ID);
    let live = TupleMetadata::new(false);

    // One byte more than the free space holds: the page is full for this tuple.
    let free = PAGE_SIZE - TABLE_PAGE_HEADER_SIZE;
    let too_long = Tuple::from_vec(vec![1; free - TUPLE_INFO_SIZE + 1]);
    assert_eq!(
        TablePage::insert_tuple(&mut frame, &live, &too_long),
        Err(Error::OutOfBounds)
    );
    assert_eq!(TablePage::tuple_count(&frame), 0);

    // Leave room for exactly one slot entry and 10 bytes.
    let first = Tuple::from_vec(vec![2; free - 2 * TUPLE_INFO_SIZE - 10]);
    let rid = TablePage::insert_tuple(&mut frame, &live, &first).unwrap();
    assert_eq!(rid, RecordId::new(INVALID_PAGE_ID, 0));
    let slot = TablePage::slot(&frame, 0);
    assert_eq!(slot.offset as usize, PAGE_SIZE - first.tuple_size());
    assert_eq!(slot.size_bytes as usize, first.tuple_size());

    // One byte too many fails and changes nothing.
    let before = frame.data().to_vec();
    assert_eq!(
        TablePage::insert_tuple(&mut frame, &live, &Tuple::from_vec(vec![3; 11])),
        Err(Error::OutOfBounds)
    );
    assert_eq!(frame.data(), &before[..]);

    // Exactly the free space succeeds.
    let exact = Tuple::from_vec(vec![4; 10]);
    let rid = TablePage::insert_tuple(&mut frame, &live, &exact).unwrap();
    assert_eq!(rid.slot_id(), 1);
    assert_eq!(TablePage::tuple_count(&frame), 2);
    let slot = TablePage::slot(&frame, 1);
    assert_eq!(
        slot.offset as usize,
        TABLE_PAGE_HEADER_SIZE + 2 * TUPLE_INFO_SIZE
    );

    // Nothing fits any more, not even an empty tuple.
    assert_eq!(
        TablePage::insert_tuple(&mut frame, &live, &Tuple::from_vec(Vec::new())),
        Err(Error::OutOfBounds)
    );

    // Both tuples read back.
    let (_, tuple) = TablePage::get_tuple(&frame, &RecordId::new(0, 0)).unwrap();
    assert_eq!(tuple.as_slice(), first.as_slice());
    let (_, tuple) = TablePage::get_tuple(&frame, &RecordId::new(0, 1)).unwrap();
    assert_eq!(tuple.as_slice(), exact.as_slice());
}

#[test]
fn test_table_page_layout() {
    let mut frame = PageFrame::new();
    TablePage::init_header(&mut frame, 0x0102_0304);
    let meta = TupleMetadata::new(true);
    TablePage::insert_tuple(&mut frame, &meta, &Tuple::from_vec(vec![0xAA, 0xBB, 0xCC])).unwrap();
    let data = frame.data();
    // The header: next page id, tuple count, deleted tuple count, padding.
    assert_eq!(
        &data[..16],
        &[4, 3, 2, 1, 1, 0, 0, 0, 0, 0, 0, 0, 0, 0, 0, 0]
    );
    // The slot entry: offset 4093 = 0x0ffd, size 3, deleted, padding.
    assert_eq!(&data[16..22], &[0xfd, 0x0f, 3, 0, 1, 0]);
    // The tuple at the end of the page.
    assert_eq!(&data[PAGE_SIZE - 3..], &[0xAA, 0xBB, 0xCC]);
}

#[test]
fn test_table_page_errors() {
    let mut frame = PageFrame::new();
    TablePage::init_header(&mut frame, INVALID_PAGE_ID);
    let live = TupleMetadata::new(false);
    let rid = TablePage::insert_tuple(&mut frame, &live, &Tuple::from_vec(vec![1, 2, 3])).unwrap();

    // A record id of another page, or of no slot, is invalid input.
    assert!(matches!(
        TablePage::get_tuple(&frame, &RecordId::new(5, 0)),
        Err(Error::InvalidInput(_))
    ));
    assert!(matches!(
        TablePage::get_tuple(&frame, &RecordId::new(0, 1)),
        Err(Error::InvalidInput(_))
    ));
    assert_eq!(
        TablePage::get_tuple(&frame, &RecordId::new(0, 1)).err(),
        Some(Error::InvalidInput("0:1".to_string()))
    );
    assert!(matches!(
        TablePage::update_tuple_metadata(&mut frame, &RecordId::new(0, 1), live),
        Err(Error::InvalidInput(_))
    ));
    assert!(matches!(
        TablePage::update_tuple_metadata(&mut frame, &RecordId::new(9, 0), live),
        Err(Error::InvalidInput(_))
    ));

    // Updating the metadata leaves the bytes alone, also for a deleted tuple.
    assert_eq!(
        TablePage::update_tuple_metadata(&mut frame, &rid, TupleMetadata::new(true)),
        Ok(())
    );
    let (meta, tuple) = TablePage::get_tuple(&frame, &rid).unwrap();
    assert!(meta.is_deleted());
    assert_eq!(tuple.as_slice(), &[1, 2, 3]);
    assert_eq!(
        TablePage::update_tuple_metadata(&mut frame, &rid, TupleMetadata::new(false)),
        Ok(())
    );
    let (meta, tuple) = TablePage::get_tuple(&frame, &rid).unwrap();
    assert!(!meta.is_deleted());
    assert_eq!(tuple.as_slice(), &[1, 2, 3]);

    // A slot that points into the slot array, or off the page, is invalid data.
    TablePage::write_slot(
        &mut frame,
        0,
        TupleInfo {
            offset: 10,
            size_bytes: 3,
            metadata: live,
        },
    );
    assert!(matches!(
        TablePage::get_tuple(&frame, &rid),
        Err(Error::InvalidData(_))
    ));
    TablePage::write_slot(
        &mut frame,
        0,
        TupleInfo {
            offset: 4095,
            size_bytes: 2,
            metadata: live,
        },
    );
    assert!(matches!(
        TablePage::get_tuple(&frame, &rid),
        Err(Error::InvalidData(_))
    ));
    // A slot array that does not fit on the page is invalid data too.
    TablePage::set_tuple_count(&mut frame, 1000);
    assert!(matches!(
        TablePage::get_tuple(&frame, &rid),
        Err(Error::InvalidData(_))
    ));
    assert!(matches!(
        TablePage::update_tuple_metadata(&mut frame, &RecordId::new(0, 999), live),
        Err(Error::InvalidData(_))
    ));
    assert_eq!(
        TablePage::insert_tuple(&mut frame, &live, &Tuple::from_vec(vec![1])),
        Err(Error::OutOfBounds)
    );
}

#[test]
fn test_table_page_header_fields() {
    let mut frame = PageFrame::new();
    TablePage::init_header(&mut frame, 9);
    TablePage::set_next_page_id(&mut frame, 12);
    TablePage::set_tuple_count(&mut frame, 3);
    TablePage::set_deleted_tuple_count(&mut frame, 2);
    let header = TablePage::header(&frame);
    assert_eq!(header.next_page_id, 12);
    assert_eq!(header.tuple_cnt, 3);
    assert_eq!(header.deleted_tuple_cnt, 2);
    assert_eq!(TablePage::next_page_id(&frame), 12);
    assert_eq!(TablePage::tuple_count(&frame), 3);

    let mut meta = TupleMetadata::new(false);
    assert!(!meta.is_deleted());
    meta.set_deleted(true);
    assert!(meta.is_deleted());
    meta.set_deleted(false);
    assert!(!meta.is_deleted());
}

#[test]
fn test_heap_chains_pages() {
    let mut bpm = get_bpm_with_pool_size(4);
    let mut heap = TableHeap::new("table", &mut bpm).unwrap();
    assert_eq!(heap.first_page_id(), 1);
    assert_eq!(heap.last_page_id(), 1);
    assert_eq!(heap.page_count(), 1);

    // The first page ends the chain.
    let handle = bpm.fetch_page_handle(1).unwrap();
    assert_eq!(TablePage::next_page_id(bpm.frame(&handle)), INVALID_PAGE_ID);
    handle.release(&mut bpm);

    // Three tuples of 2000 bytes need two pages.
    let big = Tuple::from_vec(vec![5; 2000]);
    assert_eq!(heap.insert_tuple(&mut bpm, &big), Ok(RecordId::new(1, 0)));
    assert_eq!(heap.insert_tuple(&mut bpm, &big), Ok(RecordId::new(1, 1)));
    assert_eq!(heap.page_count(), 1);
    assert_eq!(heap.insert_tuple(&mut bpm, &big), Ok(RecordId::new(2, 0)));
    assert_eq!(heap.first_page_id(), 1);
    assert_eq!(heap.last_page_id(), 2);
    assert_eq!(heap.page_count(), 2);

    // The first page points to the second, which ends the chain.
    let handle = bpm.fetch_page_handle(1).unwrap();
    assert_eq!(TablePage::next_page_id(bpm.frame(&handle)), 2);
    assert_eq!(TablePage::tuple_count(bpm.frame(&handle)), 2);
    handle.release(&mut bpm);
    let handle = bpm.fetch_page_handle(2).unwrap();
    assert_eq!(TablePage::next_page_id(bpm.frame(&handle)), INVALID_PAGE_ID);
    assert_eq!(TablePage::tuple_count(bpm.frame(&handle)), 1);
    handle.release(&mut bpm);

    // Nothing is left pinned.
    assert_eq!(bpm.get_pin_count(1), Some(0));
    assert_eq!(bpm.get_pin_count(2), Some(0));

    // A tuple that is too large for any page is refused.
    let huge = Tuple::from_vec(vec![6; PAGE_SIZE - TABLE_PAGE_HEADER_SIZE - TUPLE_INFO_SIZE + 1]);
    assert_eq!(heap.insert_tuple(&mut bpm, &huge), Err(Error::OutOfBounds));
    assert_eq!(heap.last_page_id(), 2);
    assert_eq!(heap.page_count(), 2);
    // The largest tuple that fits an empty page is accepted.
    let largest = Tuple::from_vec(vec![7; PAGE_SIZE - TABLE_PAGE_HEADER_SIZE - TUPLE_INFO_SIZE]);
    let rid = heap.insert_tuple(&mut bpm, &largest).unwrap();
    assert_eq!(rid.slot_id(), 0);
    let (_, tuple) = heap.get_tuple(&mut bpm, &rid).unwrap();
    assert_eq!(tuple.as_slice(), largest.as_slice());
}

#[test]
fn test_heap_errors() {
    let mut bpm = get_bpm_with_pool_size(2);
    let mut heap = TableHeap::new("table", &mut bpm).unwrap();
    let rid = heap
        .insert_tuple(&mut bpm, &Tuple::from_vec(vec![1, 2]))
        .unwrap();
    assert!(matches!(
        heap.get_tuple(&mut bpm, &RecordId::new(rid.page_id(), 5)),
        Err(Error::InvalidInput(_))
    ));
    assert!(matches!(
        heap.get_tuple(&mut bpm, &RecordId::new(INVALID_PAGE_ID, 0)),
        Err(Error::InvalidInput(_))
    ));
    assert!(matches!(
        heap.delete_tuple(&mut bpm, &RecordId::new(rid.page_id(), 5)),
        Err(Error::InvalidInput(_))
    ));
    // A page that the disk does not know has no slots.
    assert!(matches!(
        heap.get_tuple(&mut bpm, &RecordId::new(40, 0)),
        Err(Error::InvalidInput(_))
    ));
    assert_eq!(bpm.get_pin_count(rid.page_id()), Some(0));

    // Deleting counts the deleted tuple once.
    let (meta, tuple) = heap.delete_tuple(&mut bpm, &rid).unwrap();
    assert!(!meta.is_deleted());
    assert_eq!(tuple.as_slice(), &[1, 2]);
    let (meta, tuple) = heap.delete_tuple(&mut bpm, &rid).unwrap();
    assert!(meta.is_deleted());
    assert_eq!(tuple.as_slice(), &[1, 2]);
    let handle = bpm.fetch_page_handle(rid.page_id()).unwrap();
    assert_eq!(TablePage::header(bpm.frame(&handle)).deleted_tuple_cnt, 1);
    handle.release(&mut bpm);
}

#[test]
fn test_scan_over_pages() {
    // A pool of two frames, so that the scan has to bring pages back in.
    let mut bpm = get_bpm_with_pool_size(2);
    let mut heap = TableHeap::new("table", &mut bpm).unwrap();
    let mut rids = Vec::new();
    for i in 0..10u8 {
        let rid = heap
            .insert_tuple(&mut bpm, &Tuple::from_vec(vec![i; 1500]))
            .unwrap();
        rids.push(rid);
    }
    assert_eq!(heap.page_count(), 5);
    heap.delete_tuple(&mut bpm, &rids[0]).unwrap();
    heap.delete_tuple(&mut bpm, &rids[4]).unwrap();
    heap.delete_tuple(&mut bpm, &rids[5]).unwrap();
    heap.delete_tuple(&mut bpm, &rids[9]).unwrap();

    let mut scan = TableTupleIterator::new(&heap);
    let tuples = collect_scan(&mut scan, &mut bpm).unwrap();
    let found: Vec<u64> = tuples.iter().map(|(rid, _)| *rid).collect();
    let expected: Vec<u64> = [1usize, 2, 3, 6, 7, 8]
        .iter()
        .map(|&i| u64::from(rids[i]))
        .collect();
    assert_eq!(found, expected);
    // Record ids come in strictly growing order.
    assert!(found.windows(2).all(|pair| pair[0] < pair[1]));
    for ((_, tuple), &i) in tuples.iter().zip([1u8, 2, 3, 6, 7, 8].iter()) {
        assert_eq!(tuple.as_slice(), &vec![i; 1500][..]);
    }
    assert!(scan.next(&mut bpm).is_none());
}

#[test]
fn test_scan_refuses_a_chain_that_goes_back() {
    let mut bpm = get_bpm_with_pool_size(4);
    let mut heap = TableHeap::new("table", &mut bpm).unwrap();
    heap.insert_tuple(&mut bpm, &Tuple::from_vec(vec![1]))
        .unwrap();
    // Make the only page point to itself.
    let handle = bpm.fetch_page_mut_handle(1).unwrap();
    TablePage::set_next_page_id(bpm.frame_mut(&handle), 1);
    handle.release(&mut bpm);

    let mut scan = TableTupleIterator::new(&heap);
    assert!(matches!(scan.next(&mut bpm), Some(Ok(_))));
    assert!(matches!(
        scan.next(&mut bpm),
        Some(Err(Error::InvalidData(_)))
    ));
    // The scan stays where the error arose.
    assert!(matches!(
        scan.next(&mut bpm),
        Some(Err(Error::InvalidData(_)))
    ));
}

#[test]
fn test_storage_engine() {
    let bpm = get_bpm_with_pool_size(4);
    let mut engine = StorageEngine::new(bpm);

    assert_eq!(engine.create_table(1, "users"), Ok(()));
    assert_eq!(engine.create_table(2, "orders"), Ok(()));
    assert_eq!(
        engine.create_table(1, "again"),
        Err(Error::InvalidInput("Table already exists".to_string()))
    );

    // An unknown table is invalid input everywhere.
    let tuple = Tuple::from_vec(vec![1, 2, 3]);
    assert_eq!(
        engine.insert_tuple(9, &tuple),
        Err(Error::InvalidInput("Table not found".to_string()))
    );
    assert!(matches!(engine.get_tuple(9, 0), Err(Error::InvalidInput(_))));
    assert!(matches!(
        engine.delete_tuple(9, 0),
        Err(Error::InvalidInput(_))
    ));
    assert!(matches!(engine.scan(9), Err(Error::InvalidInput(_))));

    let first = engine.insert_tuple(1, &tuple).unwrap();
    let second = engine
        .insert_tuple(1, &Tuple::from_vec(vec![4, 5, 6]))
        .unwrap();
    let other = engine.insert_tuple(2, &Tuple::from_vec(vec![7])).unwrap();
    // The record id is the page id in the upper half and the slot in the lower half.
    assert_eq!(first, 1u64 << 32);
    assert_eq!(second, (1u64 << 32) | 1);
    assert_eq!(other, 2u64 << 32);

    assert_eq!(engine.get_tuple(1, first).unwrap().as_slice(), &[1, 2, 3]);
    assert_eq!(engine.get_tuple(1, second).unwrap().as_slice(), &[4, 5, 6]);
    assert_eq!(engine.get_tuple(2, other).unwrap().as_slice(), &[7]);

    assert_eq!(engine.delete_tuple(1, first), Ok(()));
    // A deleted tuple can still be read by its record id.
    assert_eq!(engine.get_tuple(1, first).unwrap().as_slice(), &[1, 2, 3]);
    assert_eq!(engine.delete_tuple(1, first), Ok(()));

    // A scan yields the tuples that are not deleted.
    let mut scan = engine.scan(1).unwrap();
    let (rid, found) = engine.scan_next(&mut scan).unwrap().unwrap();
    assert_eq!(rid, second);
    assert_eq!(found.as_slice(), &[4, 5, 6]);
    assert!(engine.scan_next(&mut scan).is_none());
    assert!(engine.scan_next(&mut scan).is_none());

    let mut scan = engine.scan(2).unwrap();
    let (rid, found) = engine.scan_next(&mut scan).unwrap().unwrap();
    assert_eq!(rid, other);
    assert_eq!(found.as_slice(), &[7]);
    assert!(engine.scan_next(&mut scan).is_none());
}

#[test]
fn test_pool_parts() {
    let mut bpm = get_bpm_with_pool_size(2);
    assert_eq!(bpm.replacer().current_timestamp(), 0);
    assert_eq!(bpm.disk_manager().last_allocated_page_id(), 0);
    let handle = bpm.create_page_handle().unwrap();
    // Creating a page records one access and allocates one page id.
    assert_eq!(bpm.replacer().current_timestamp(), 1);
    assert_eq!(bpm.disk_manager().last_allocated_page_id(), 1);
    assert_eq!(bpm.replacer().evictable_count(), 0);
    handle.release(&mut bpm);
    assert_eq!(bpm.replacer().evictable_count(), 1);

    let engine = StorageEngine::new(bpm);
    assert_eq!(engine.buffer_pool().capacity(), 2);
    assert_eq!(engine.buffer_pool().free_frame_count(), 2);
}

#[test]
fn test_insert_refused_leaves_an_empty_page() {
    let mut bpm = get_bpm_with_pool_size(3);
    let mut heap = TableHeap::new("table", &mut bpm).unwrap();
    let huge = Tuple::from_vec(vec![0; PAGE_SIZE]);
    assert_eq!(heap.insert_tuple(&mut bpm, &huge), Err(Error::OutOfBounds));
    // The heap is as it was, but a new page was created and linked.
    assert_eq!(heap.last_page_id(), 1);
    assert_eq!(heap.page_count(), 1);
    let handle = bpm.fetch_page_handle(1).unwrap();
    assert_eq!(TablePage::next_page_id(bpm.frame(&handle)), 2);
    handle.release(&mut bpm);
    let handle = bpm.fetch_page_handle(2).unwrap();
    assert_eq!(TablePage::tuple_count(bpm.frame(&handle)), 0);
    assert_eq!(TablePage::next_page_id(bpm.frame(&handle)), INVALID_PAGE_ID);
    handle.release(&mut bpm);
    assert_eq!(bpm.get_pin_count(1), Some(0));
    assert_eq!(bpm.get_pin_count(2), Some(0));
    // A tuple that fits still goes into the first page.
    assert_eq!(
        heap.insert_tuple(&mut bpm, &Tuple::from_vec(vec![1, 2])),
        Ok(RecordId::new(1, 0))
    );
}

#[test]
fn test_io_result() {
    assert_eq!(io_result(Ok::<u64, String>(5)), Ok(5));
    assert_eq!(io_result(Ok::<(), String>(())), Ok(()));
    assert_eq!(
        io_result(Err::<u64, String>("no space".to_string())),
        Err(Error::IO("no space".to_string()))
    );
}

#[test]
fn test_file_size_is_what_the_file_says() {
    let file = MemFile::new();
    let mut disk = DiskManager::new(file).unwrap();
    assert_eq!(disk.get_db_file_size(), Ok(33 * PAGE_SIZE as u64));
    // The disk manager reports the length that the file has: it grows when
    // the disk manager doubles the capacity.
    for _ in 0..31 {
        disk.allocate_page().unwrap();
    }
    assert_eq!(disk.get_db_file_size(), Ok(33 * PAGE_SIZE as u64));
    disk.allocate_page().unwrap();
    assert_eq!(disk.get_db_file_size(), Ok(65 * PAGE_SIZE as u64));
}

#[test]
fn test_page_from_file() {
    // One page of bytes is passed on as it is.
    let mut page = vec![0u8; PAGE_SIZE];
    page[0] = 7;
    page[PAGE_SIZE - 1] = 9;
    assert_eq!(page_from_file(Ok(page.clone())), Ok(Some(page)));
    // Any other number of bytes is an I/O error.
    assert!(matches!(
        page_from_file(Ok(vec![1, 2, 3])),
        Err(Error::IO(_))
    ));
    assert!(matches!(
        page_from_file(Ok(vec![0u8; PAGE_SIZE + 1])),
        Err(Error::IO(_))
    ));
    assert!(matches!(page_from_file(Ok(Vec::new())), Err(Error::IO(_))));
    // A failure of the file is an I/O error with the text of the cause.
    assert_eq!(
        page_from_file(Err("no such device".to_string())),
        Err(Error::IO("no such device".to_string()))
    );
}

#[test]
fn test_pages_are_written_and_read_at_their_offsets() {
    let file = MemFile::new();
    let writes = file.writes.clone();
    let reads = file.reads.clone();
    let disk = DiskManager::new(file).unwrap();
    let mut bpm = BufferPoolManager::new(1, disk, LrukReplacer::new(2));

    // A new page is written as a page of zeros at the next offset.
    let handle = bpm.create_page_handle().unwrap();
    assert_eq!(handle.page_id(), 1);
    assert_eq!(writes.borrow().len(), 1);
    assert_eq!(writes.borrow()[0], (0, vec![0u8; PAGE_SIZE]));
    bpm.frame_mut(&handle).write(0, b"abc");
    handle.release(&mut bpm);

    // Flushing the dirty page hands its bytes to the file at its offset.
    assert_eq!(bpm.flush_page(&1), Ok(()));
    let mut expected = vec![0u8; PAGE_SIZE];
    expected[..3].copy_from_slice(b"abc");
    assert_eq!(writes.borrow().len(), 2);
    assert_eq!(writes.borrow()[1], (0, expected.clone()));
    // Flushing a clean page asks nothing of the file.
    assert_eq!(bpm.flush_page(&1), Ok(()));
    assert_eq!(writes.borrow().len(), 2);

    // Taking the frame of a clean page asks for no write-back.
    let handle = bpm.create_page_handle().unwrap();
    assert_eq!(handle.page_id(), 2);
    assert_eq!(writes.borrow().len(), 3);
    assert_eq!(writes.borrow()[2], (PAGE_SIZE as u64, vec![0u8; PAGE_SIZE]));
    bpm.frame_mut(&handle).write(5, b"xy");
    handle.release(&mut bpm);

    // Taking the frame of a dirty page writes that page where it belongs,
    // before the page that comes in is read from its own offset.
    assert!(reads.borrow().is_empty());
    let handle = bpm.fetch_page_handle(1).unwrap();
    let mut second = vec![0u8; PAGE_SIZE];
    second[5..7].copy_from_slice(b"xy");
    assert_eq!(writes.borrow().len(), 4);
    assert_eq!(writes.borrow()[3], (PAGE_SIZE as u64, second.clone()));
    assert_eq!(reads.borrow().len(), 1);
    assert_eq!(reads.borrow()[0], (0, PAGE_SIZE));
    assert_eq!(bpm.frame(&handle).data(), &expected[..]);
    assert!(!bpm.frame(&handle).is_dirty());
    handle.release(&mut bpm);

    let handle = bpm.fetch_page_handle(2).unwrap();
    assert_eq!(writes.borrow().len(), 4);
    assert_eq!(reads.borrow().len(), 2);
    assert_eq!(reads.borrow()[1], (PAGE_SIZE as u64, PAGE_SIZE));
    assert_eq!(bpm.frame(&handle).data(), &second[..]);
    handle.release(&mut bpm);
}

#[test]
fn test_a_free_frame_is_handed_out_without_the_file() {
    let file = MemFile::new();
    let fail = file.fail_writes.clone();
    let writes = file.writes.clone();
    let reads = file.reads.clone();
    let disk = DiskManager::new(file).unwrap();
    let mut bpm = BufferPoolManager::new(2, disk, LrukReplacer::new(2));
    *fail.borrow_mut() = true;
    // A page without an offset comes into a free frame as a page of zeros,
    // whatever the file would do.
    let handle = bpm.fetch_page_handle(9).unwrap();
    assert_eq!(bpm.frame(&handle).data(), &[0u8; PAGE_SIZE][..]);
    assert_eq!(bpm.free_frame_count(), 1);
    // A resident page is fetched without the file too.
    let again = bpm.fetch_page_handle(9).unwrap();
    assert_eq!(bpm.get_pin_count(9), Some(2));
    again.release(&mut bpm);
    handle.release(&mut bpm);
    assert!(writes.borrow().is_empty());
    assert!(reads.borrow().is_empty());
}

#[test]
fn test_scan_stops_at_a_slot_that_cannot_be_read() {
    let mut bpm = get_bpm_with_pool_size(4);
    let mut heap = TableHeap::new("table", &mut bpm).unwrap();
    let first = heap
        .insert_tuple(&mut bpm, &Tuple::from_vec(vec![1, 1]))
        .unwrap();
    let second = heap
        .insert_tuple(&mut bpm, &Tuple::from_vec(vec![2, 2]))
        .unwrap();
    let third = heap
        .insert_tuple(&mut bpm, &Tuple::from_vec(vec![3, 3]))
        .unwrap();
    // Make the second slot point into the page header.
    let handle = bpm.fetch_page_mut_handle(1).unwrap();
    let offset = TablePage::slot(bpm.frame_ref(&handle), 1).offset;
    set_slot_offset(bpm.frame_mut(&handle), 1, 2);
    handle.release(&mut bpm);

    let mut scan = TableTupleIterator::new(&heap);
    let (rid, tuple) = scan.next(&mut bpm).unwrap().unwrap();
    assert_eq!(rid, u64::from(first));
    assert_eq!(tuple.as_slice(), &[1, 1]);
    assert!(matches!(
        scan.next(&mut bpm),
        Some(Err(Error::InvalidData(_)))
    ));
    // The scan is not over, and stays at the slot.
    assert!(matches!(
        scan.next(&mut bpm),
        Some(Err(Error::InvalidData(_)))
    ));
    // Once the slot is mended the scan goes on from it.
    let handle = bpm.fetch_page_mut_handle(1).unwrap();
    set_slot_offset(bpm.frame_mut(&handle), 1, offset);
    handle.release(&mut bpm);
    let (rid, tuple) = scan.next(&mut bpm).unwrap().unwrap();
    assert_eq!(rid, u64::from(second));
    assert_eq!(tuple.as_slice(), &[2, 2]);
    let (rid, tuple) = scan.next(&mut bpm).unwrap().unwrap();
    assert_eq!(rid, u64::from(third));
    assert_eq!(tuple.as_slice(), &[3, 3]);
    assert!(scan.next(&mut bpm).is_none());
    assert_eq!(bpm.get_pin_count(1), Some(0));
}

#[test]
fn test_engine_scan_reports_a_broken_page() {
    let bpm = get_bpm_with_pool_size(4);
    let mut engine = StorageEngine::new(bpm);
    engine.create_table(3, "table").unwrap();
    let first = engine
        .insert_tuple(3, &Tuple::from_vec(vec![5]))
        .unwrap();
    engine.insert_tuple(3, &Tuple::from_vec(vec![6])).unwrap();
    let mut scan = engine.scan(3).unwrap();
    let (rid, tuple) = engine.scan_next(&mut scan).unwrap().unwrap();
    assert_eq!(rid, first);
    assert_eq!(tuple.as_slice(), &[5]);
    let (_, tuple) = engine.scan_next(&mut scan).unwrap().unwrap();
    assert_eq!(tuple.as_slice(), &[6]);
    assert!(engine.scan_next(&mut scan).is_none());
    assert!(engine.scan_next(&mut scan).is_none());
}

#[test]
fn test_insert_fails_when_no_page_can_be_created() {
    // With one frame, the last page holds the frame while the next page is
    // to be created.
    let mut bpm = get_bpm_with_pool_size(1);
    let mut heap = TableHeap::new("table", &mut bpm).unwrap();
    let large = Tuple::from_vec(vec![7; 3000]);
    assert_eq!(heap.insert_tuple(&mut bpm, &large), Ok(RecordId::new(1, 0)));
    assert!(matches!(
        heap.insert_tuple(&mut bpm, &large),
        Err(Error::BufferPoolError(_))
    ));
    // The heap is as it was, and the last page was let go.
    assert_eq!(heap.last_page_id(), 1);
    assert_eq!(heap.page_count(), 1);
    assert_eq!(bpm.get_pin_count(1), Some(0));
    assert_eq!(bpm.disk_manager().last_allocated_page_id(), 1);
    let (_, tuple) = heap.get_tuple(&mut bpm, &RecordId::new(1, 0)).unwrap();
    assert_eq!(tuple.as_slice(), &vec![7u8; 3000][..]);
    // A tuple for which the last page has room goes in.
    assert_eq!(
        heap.insert_tuple(&mut bpm, &Tuple::from_vec(vec![8; 10])),
        Ok(RecordId::new(1, 1))
    );
}

#[test]
fn test_insert_fails_when_the_last_page_cannot_come_in() {
    let file = MemFile::new();
    let fail = file.fail_writes.clone();
    let disk = DiskManager::new(file).unwrap();
    let mut bpm = BufferPoolManager::new(1, disk, LrukReplacer::new(2));
    let mut heap = TableHeap::new("table", &mut bpm).unwrap();
    // Another page takes the only frame and is changed.
    let handle = bpm.create_page_handle().unwrap();
    let other = handle.page_id();
    bpm.frame_mut(&handle).write(0, b"q");
    handle.release(&mut bpm);
    // The last page of the heap cannot come in while the changed page
    // cannot be written.
    *fail.borrow_mut() = true;
    assert!(matches!(
        heap.insert_tuple(&mut bpm, &Tuple::from_vec(vec![1])),
        Err(Error::IO(_))
    ));
    assert_eq!(heap.page_count(), 1);
    assert_eq!(bpm.get_pin_count(other), Some(0));
    *fail.borrow_mut() = false;
    // The replacer has forgotten the frame of the changed page, so that no
    // frame can be had until the page is visited again.
    assert!(matches!(
        heap.insert_tuple(&mut bpm, &Tuple::from_vec(vec![1])),
        Err(Error::BufferPoolError(_))
    ));
    let handle = bpm.fetch_page_handle(other).unwrap();
    handle.release(&mut bpm);
    assert_eq!(
        heap.insert_tuple(&mut bpm, &Tuple::from_vec(vec![1])),
        Ok(RecordId::new(1, 0))
    );
}
