//! Session checks and the errors of the session manager.
use vstd::prelude::*;

use crate::clock::{later_than, Timestamp};
use crate::storage::sqlite::{storage_error_text, StorageError};
use crate::text::concat_str;

verus! {

/// Errors of the session manager.
#[derive(Debug)]
pub enum RendererError {
    Storage(StorageError),
    SessionError(String),
}

/// The HTTP status a session-manager error is answered with.
pub open spec fn renderer_error_status(e: RendererError) -> u16 {
    match e {
        RendererError::SessionError(_) => 401,
        RendererError::Storage(_) => 500,
    }
}

/// The text `Display` shows for a session-manager error.
pub open spec fn renderer_error_text(e: RendererError) -> Seq<char> {
    match e {
        RendererError::Storage(s) => "Storage error: "@ + storage_error_text(s),
        RendererError::SessionError(m) => "Session error: "@ + m@,
    }
}

impl RendererError {
    /// Get the appropriate HTTP status code for this error: 401 for session
    /// errors, 500 for storage errors.
    pub fn http_status_code(&self) -> (code: u16)
        ensures
            code == renderer_error_status(*self),
    {
        match self {
            Self::SessionError(_) => 401,
            Self::Storage(_) => 500,
        }
    }

    /// The error's display text.
    pub fn message(&self) -> (s: String)
        ensures
            s@ == renderer_error_text(*self),
    {
        match self {
            Self::Storage(e) => concat_str(String::from_str("Storage error: "), e.message().as_str()),
            Self::SessionError(m) => concat_str(String::from_str("Session error: "), m.as_str()),
        }
    }
}

/// Response of the rust-logi bulk insert.
#[derive(Debug)]
pub struct HonoApiResponse {
    pub success: bool,
    pub records_added: i32,
    pub total_records: i32,
    pub message: String,
}

impl Clone for HonoApiResponse {
    fn clone(&self) -> (r: Self)
        ensures
            r == *self,
    {
        HonoApiResponse {
            success: self.success,
            records_added: self.records_added,
            total_records: self.total_records,
            message: self.message.clone(),
        }
    }
}

/// What a session check answers, given what the store returned for the
/// session (its expiry, or nothing, or an error) and the current time.
pub open spec fn session_check_answer(
    lookup: Result<Option<(i64, u32)>, StorageError>,
    now: (i64, u32),
) -> (bool, Seq<char>) {
    match lookup {
        Ok(Some(expires)) => if later_than(expires, now) {
            (true, "Session is valid"@)
        } else {
            (false, "Session expired"@)
        },
        Ok(None) => (false, "Session not found"@),
        Err(e) => (false, "Error checking session: "@ + storage_error_text(e)),
    }
}

/// The view of a stored session's expiry lookup.
pub open spec fn expiry_lookup_view(lookup: Result<Option<Timestamp>, StorageError>) -> Result<
    Option<(i64, u32)>,
    StorageError,
> {
    match lookup {
        Ok(Some(t)) => Ok(Some(t@)),
        Ok(None) => Ok(None),
        Err(e) => Err(e),
    }
}

/// Decides a session check: a stored session is valid while its expiry lies
/// after `now`.
pub fn check_session_outcome(lookup: &Result<Option<Timestamp>, StorageError>, now: &Timestamp) -> (r: (
    bool,
    String,
))
    ensures
        (r.0, r.1@) == session_check_answer(expiry_lookup_view(*lookup), now@),
{
    match lookup {
        Ok(Some(expires)) => {
            if expires.is_after(now) {
                (true, String::from_str("Session is valid"))
            } else {
                (false, String::from_str("Session expired"))
            }
        },
        Ok(None) => (false, String::from_str("Session not found")),
        Err(e) => (false, concat_str(String::from_str("Error checking session: "), e.message().as_str())),
    }
}

} // verus!
