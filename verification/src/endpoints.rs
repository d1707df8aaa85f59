//! The request-handling layer's decisions. The HTTP plumbing — routing,
//! extraction, serialization — lives outside this library; what is
//! decided about a request's outcome is verified here: which message a
//! malformed body is rejected with, and how a deletion's outcome is
//! reported.

use vstd::prelude::*;

verus! {

/// The ways a request body can fail to yield a value, as the extraction
/// layer classifies them.
#[derive(Clone, Copy, Debug, PartialEq, Eq, Structural)]
pub enum JsonErrorKind {
    DataError,
    SyntaxError,
    MissingContentType,
    BytesError,
    Unknown,
}

/// The message a malformed request body is rejected with, one fixed line
/// per way the body can fail.
pub fn json_error_message(kind: JsonErrorKind) -> (r: &'static str)
    ensures
        kind == JsonErrorKind::DataError ==> r@
            == "Couldn't deserialize the body into the target type"@,
        kind == JsonErrorKind::SyntaxError ==> r@ == "Syntax error in the body"@,
        kind == JsonErrorKind::MissingContentType ==> r@
            == "Request didn't have `Content-Type: application/json` header"@,
        kind == JsonErrorKind::BytesError ==> r@ == "Failed to extract the request body"@,
        kind == JsonErrorKind::Unknown ==> r@ == "Unknown error"@,
{
    match kind {
        JsonErrorKind::DataError => "Couldn't deserialize the body into the target type",
        JsonErrorKind::SyntaxError => "Syntax error in the body",
        JsonErrorKind::MissingContentType => "Request didn't have `Content-Type: application/json` header",
        JsonErrorKind::BytesError => "Failed to extract the request body",
        JsonErrorKind::Unknown => "Unknown error",
    }
}

/// How a deletion is acknowledged: by the number of rows it affected.
/// Deleting an id the store does not hold is no error — it is reported
/// as a normal response carrying this explanatory message.
pub fn delete_task_message(rows_affected: u64) -> (r: &'static str)
    ensures
        rows_affected == 0 ==> r@
            == "Unable to delete the task. Task does not exist with the given id."@,
        rows_affected != 0 ==> r@ == "Successfully deleted the task."@,
{
    if rows_affected == 0 {
        "Unable to delete the task. Task does not exist with the given id."
    } else {
        "Successfully deleted the task."
    }
}

/// How a lookup that finds nothing is reported: a normal response with
/// this message rather than an error.
pub fn task_not_found_message() -> (r: &'static str)
    ensures
        r@ == "Task not found"@,
{
    "Task not found"
}

} // verus!
