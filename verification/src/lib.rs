//! Storage core of a relational database: a disk manager, an LRU-K frame
//! replacer, a buffer pool, slotted table pages and a table heap on top of
//! them, with the catalog types that describe tables.
//!
//! Every operation has a contract over a mathematical model of the state it
//! works on, and is verified against it. The database file itself stays
//! outside: the disk manager reaches it through the trait
//! [`disk_manager::PageFile`], of which nothing is assumed.
pub mod buffer_pool;
pub mod catalog;
pub mod column;
pub mod disk_manager;
pub mod error;
pub mod frame;
pub mod frame_handle;
pub mod heap_laws;
pub mod lru_k_replacer;
pub mod page;
pub mod record_id;
pub mod replacer;
pub mod schema;
pub mod storage;
pub mod table_heap;
pub mod table_page;
pub mod table_tuple_iterator;
pub mod text;
pub mod tuple;
pub mod types;
pub mod typedef;
