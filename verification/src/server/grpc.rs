//! Answers of the session methods of the gRPC service.
use vstd::prelude::*;

use crate::browser::renderer::{renderer_error_text, RendererError};
use crate::text::concat_str;

verus! {

/// The answer to a session request that names no session: not valid (or not
/// cleared), with the reason.
pub fn session_id_required() -> (r: (bool, String))
    ensures
        !r.0,
        r.1@ == "Session ID is required"@,
{
    (false, String::from_str("Session ID is required"))
}

/// The answer to `ClearSession` for what clearing the session gave: success,
/// or the error's text after `Failed to clear session: `.
pub fn clear_session_answer(outcome: &Result<(), RendererError>) -> (r: (bool, String))
    ensures
        match outcome {
            Ok(()) => r.0 && r.1@ == "Session cleared successfully"@,
            Err(e) => !r.0 && r.1@ == "Failed to clear session: "@ + renderer_error_text(*e),
        },
{
    match outcome {
        Ok(()) => (true, String::from_str("Session cleared successfully")),
        Err(e) => (false, concat_str(String::from_str("Failed to clear session: "), e.message().as_str())),
    }
}

} // verus!
