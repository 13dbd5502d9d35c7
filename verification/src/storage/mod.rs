//! Storage-side error values.
pub mod sqlite;

pub use sqlite::StorageError;
