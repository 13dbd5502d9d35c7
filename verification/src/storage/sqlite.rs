//! Errors of the SQLite storage layer. The database driver's and the JSON
//! codec's errors are carried by their message text.
use vstd::prelude::*;

use crate::text::concat_str;

verus! {

/// Errors of the storage layer.
#[derive(Debug)]
pub enum StorageError {
    /// A database error, with the driver's message.
    Database(String),
    /// A JSON (de)serialization error, with the codec's message.
    Serialization(String),
    SessionNotFound,
}

/// The text `Display` shows for a storage error.
pub open spec fn storage_error_text(e: StorageError) -> Seq<char> {
    match e {
        StorageError::Database(m) => "Database error: "@ + m@,
        StorageError::Serialization(m) => "Serialization error: "@ + m@,
        StorageError::SessionNotFound => "Session not found"@,
    }
}

impl StorageError {
    /// The error's display text.
    pub fn message(&self) -> (s: String)
        ensures
            s@ == storage_error_text(*self),
    {
        match self {
            StorageError::Database(m) => concat_str(String::from_str("Database error: "), m.as_str()),
            StorageError::Serialization(m) => concat_str(
                String::from_str("Serialization error: "),
                m.as_str(),
            ),
            StorageError::SessionNotFound => String::from_str("Session not found"),
        }
    }
}

} // verus!
