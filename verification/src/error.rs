//! The errors the service reports, and the shape in which a client sees them.

use vstd::prelude::*;
use vstd::string::StringExecFns;

verus! {

/// An error of the service. Each variant carries its human-readable text.
#[derive(Debug, Clone)]
pub enum AppError {
    /// An unexpected failure; the text is the underlying cause.
    Internal(String),
    BadRequest(String),
    NotFound(String),
    /// A request that breaks a rule on its fields.
    Validation(String),
    /// A query that could not be parsed or run.
    Search(String),
    /// A failure to open, write or commit an index.
    Index(String),
}

/// The body of an error answer.
#[derive(Debug, Clone)]
pub struct ErrorResponse {
    /// The machine-readable kind.
    pub error: String,
    pub message: String,
    /// The underlying cause; present for internal errors only.
    pub details: Option<String>,
}

/// The HTTP status of each kind of error.
pub open spec fn spec_status(e: AppError) -> u16 {
    match e {
        AppError::Internal(_) => 500,
        AppError::BadRequest(_) => 400,
        AppError::NotFound(_) => 404,
        AppError::Validation(_) => 422,
        AppError::Search(_) => 400,
        AppError::Index(_) => 500,
    }
}

/// The machine-readable name of each kind of error.
pub open spec fn spec_kind(e: AppError) -> Seq<char> {
    match e {
        AppError::Internal(_) => "internal_error"@,
        AppError::BadRequest(_) => "bad_request"@,
        AppError::NotFound(_) => "not_found"@,
        AppError::Validation(_) => "validation_error"@,
        AppError::Search(_) => "search_error"@,
        AppError::Index(_) => "index_error"@,
    }
}

/// The text a client reads: the carried text, but a fixed sentence for an
/// internal error, whose cause goes to the details.
pub open spec fn spec_message(e: AppError) -> Seq<char> {
    match e {
        AppError::Internal(_) => "An internal error occurred"@,
        AppError::BadRequest(m) => m@,
        AppError::NotFound(m) => m@,
        AppError::Validation(m) => m@,
        AppError::Search(m) => m@,
        AppError::Index(m) => m@,
    }
}

/// The cause of an internal error; nothing for the other kinds.
pub open spec fn spec_details(e: AppError) -> Option<Seq<char>> {
    match e {
        AppError::Internal(cause) => Some(cause@),
        _ => None,
    }
}

/// The words that stand before the carried text when an error is written out.
pub open spec fn spec_prefix(e: AppError) -> Seq<char> {
    match e {
        AppError::Internal(_) => "Internal server error: "@,
        AppError::BadRequest(_) => "Bad request: "@,
        AppError::NotFound(_) => "Not found: "@,
        AppError::Validation(_) => "Validation error: "@,
        AppError::Search(_) => "Search error: "@,
        AppError::Index(_) => "Index error: "@,
    }
}

/// The text an error carries.
pub open spec fn spec_payload(e: AppError) -> Seq<char> {
    match e {
        AppError::Internal(m) => m@,
        AppError::BadRequest(m) => m@,
        AppError::NotFound(m) => m@,
        AppError::Validation(m) => m@,
        AppError::Search(m) => m@,
        AppError::Index(m) => m@,
    }
}

impl AppError {
    /// The HTTP status under which this error is answered.
    pub fn status_code(&self) -> (status: u16)
        ensures
            status == spec_status(*self),
    {
        match self {
            AppError::Internal(_) => 500,
            AppError::BadRequest(_) => 400,
            AppError::NotFound(_) => 404,
            AppError::Validation(_) => 422,
            AppError::Search(_) => 400,
            AppError::Index(_) => 500,
        }
    }

    /// The machine-readable kind of this error.
    pub fn kind(&self) -> (kind: String)
        ensures
            kind@ == spec_kind(*self),
    {
        match self {
            AppError::Internal(_) => String::from_str("internal_error"),
            AppError::BadRequest(_) => String::from_str("bad_request"),
            AppError::NotFound(_) => String::from_str("not_found"),
            AppError::Validation(_) => String::from_str("validation_error"),
            AppError::Search(_) => String::from_str("search_error"),
            AppError::Index(_) => String::from_str("index_error"),
        }
    }

    /// The error written out in one line: its kind in words, then its text.
    pub fn describe(&self) -> (line: String)
        ensures
            line@ == spec_prefix(*self) + spec_payload(*self),
    {
        match self {
            AppError::Internal(m) => String::from_str("Internal server error: ").concat(m.as_str()),
            AppError::BadRequest(m) => String::from_str("Bad request: ").concat(m.as_str()),
            AppError::NotFound(m) => String::from_str("Not found: ").concat(m.as_str()),
            AppError::Validation(m) => String::from_str("Validation error: ").concat(m.as_str()),
            AppError::Search(m) => String::from_str("Search error: ").concat(m.as_str()),
            AppError::Index(m) => String::from_str("Index error: ").concat(m.as_str()),
        }
    }

    /// The status and body with which this error is answered.
    pub fn into_response(self) -> (answer: (u16, ErrorResponse))
        ensures
            answer.0 == spec_status(self),
            answer.1.error@ == spec_kind(self),
            answer.1.message@ == spec_message(self),
            match spec_details(self) {
                Some(cause) => answer.1.details matches Some(d) && d@ == cause,
                None => answer.1.details is None,
            },
    {
        let status = self.status_code();
        let error = self.kind();
        let (message, details) = match self {
            AppError::Internal(cause) => (
                String::from_str("An internal error occurred"),
                Some(cause),
            ),
            AppError::BadRequest(m) => (m, None),
            AppError::NotFound(m) => (m, None),
            AppError::Validation(m) => (m, None),
            AppError::Search(m) => (m, None),
            AppError::Index(m) => (m, None),
        };
        (status, ErrorResponse { error, message, details })
    }
}

} // verus!
