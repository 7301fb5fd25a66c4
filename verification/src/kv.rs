//! An in-memory key-value store with expiring entries and list values.
pub mod linked_list;
pub mod value;
pub mod entry;
pub mod store;
pub mod scanner;
pub mod wal;
