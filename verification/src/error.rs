//! The errors that requests end in, and the HTTP answer each one gets.

use vstd::prelude::*;
use vstd::string::*;

verus! {

/// Why a request failed. The first three carry the message shown to the
/// client; the last three carry the description of the failure of the storage
/// back end, the database, or another internal step, which is logged and not
/// shown.
#[derive(Debug)]
pub enum AppError {
    BadRequest(String),
    NotFound(String),
    Forbidden(String),
    Storage(String),
    Database(String),
    Internal(String),
}

/// The HTTP status an error is answered with.
pub open spec fn status_of(e: AppError) -> u16 {
    match e {
        AppError::BadRequest(_) => 400,
        AppError::NotFound(_) => 404,
        AppError::Forbidden(_) => 403,
        AppError::Storage(_) => 500,
        AppError::Database(_) => 500,
        AppError::Internal(_) => 500,
    }
}

/// The message that the body of the answer to an error carries: the error's
/// own message for client errors, a fixed sentence for server failures.
pub open spec fn client_message_of(e: AppError) -> Seq<char> {
    match e {
        AppError::BadRequest(m) => m@,
        AppError::NotFound(m) => m@,
        AppError::Forbidden(m) => m@,
        AppError::Storage(_) => "Storage operation failed"@,
        AppError::Database(_) => "Database operation failed"@,
        AppError::Internal(_) => "Internal server error"@,
    }
}

/// The full text of an error: a label and the message for client errors, the
/// description alone for server failures.
pub open spec fn text_of(e: AppError) -> Seq<char> {
    match e {
        AppError::BadRequest(m) => "Bad request: "@ + m@,
        AppError::NotFound(m) => "Not found: "@ + m@,
        AppError::Forbidden(m) => "Forbidden: "@ + m@,
        AppError::Storage(d) => d@,
        AppError::Database(d) => d@,
        AppError::Internal(d) => d@,
    }
}

/// A string holding the text of a literal.
pub fn text(s: &str) -> (r: String)
    ensures
        r@ == s@,
{
    String::from_str(s)
}

impl AppError {
    /// The HTTP status and the body message that this error is answered with.
    pub fn response_parts(&self) -> (r: (u16, String))
        ensures
            r.0 == status_of(*self),
            r.1@ == client_message_of(*self),
    {
        match self {
            AppError::BadRequest(m) => (400, m.clone()),
            AppError::NotFound(m) => (404, m.clone()),
            AppError::Forbidden(m) => (403, m.clone()),
            AppError::Storage(_) => (500, text("Storage operation failed")),
            AppError::Database(_) => (500, text("Database operation failed")),
            AppError::Internal(_) => (500, text("Internal server error")),
        }
    }

    /// The full text of this error, as it is logged.
    pub fn to_text(&self) -> (r: String)
        ensures
            r@ == text_of(*self),
    {
        match self {
            AppError::BadRequest(m) => text("Bad request: ").concat(m.as_str()),
            AppError::NotFound(m) => text("Not found: ").concat(m.as_str()),
            AppError::Forbidden(m) => text("Forbidden: ").concat(m.as_str()),
            AppError::Storage(d) => d.clone(),
            AppError::Database(d) => d.clone(),
            AppError::Internal(d) => d.clone(),
        }
    }
}

/// Client errors are answered with a 4xx status and their own message;
/// every server failure is answered with 500 and a fixed sentence that does
/// not reveal its description.
pub proof fn law_server_failures_hide_their_description(e: AppError)
    ensures
        (e is BadRequest || e is NotFound || e is Forbidden) ==> 400 <= status_of(e) < 500,
        (e is Storage || e is Database || e is Internal) ==> status_of(e) == 500,
        e matches AppError::Storage(d) ==> client_message_of(e) == "Storage operation failed"@,
        e matches AppError::Database(d) ==> client_message_of(e) == "Database operation failed"@,
        e matches AppError::Internal(d) ==> client_message_of(e) == "Internal server error"@,
{
}

} // verus!
