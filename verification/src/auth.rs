//! Who is asking: the tenant named by the `X-User-Id` header of a request.

use crate::ids::{parse_uuid, uuid_of_text, TenantId};
use vstd::prelude::*;
use vstd::string::StringExecFns;

verus! {

/// The HTTP status of every authentication failure.
pub const UNAUTHORIZED: u16 = 401;

/// The tenant on whose behalf a request is made.
#[derive(Debug, Clone, Copy)]
pub struct CurrentUser {
    pub user_id: TenantId,
}

/// Why a request was not let in. `error` is the machine-readable kind,
/// `missing_auth` or `invalid_auth`.
#[derive(Debug, Clone)]
pub struct AuthError {
    pub error: String,
    pub message: String,
}

/// What a request carries as its `X-User-Id` header.
#[derive(Debug, Clone)]
pub enum AuthHeader {
    /// No such header.
    Missing,
    /// A header whose value is not visible ASCII.
    Unreadable,
    /// A header with this value.
    Text(String),
}

/// The kind and the words of the failure that a header leads to, given the
/// UUID that its text denotes, if it has a text and that denotes one.
/// `None` where the request is let in.
pub open spec fn auth_fault(header: AuthHeader, parsed: Option<u128>) -> Option<
    (Seq<char>, Seq<char>),
> {
    match header {
        AuthHeader::Missing => Some(("missing_auth"@, "X-User-Id header is required"@)),
        AuthHeader::Unreadable => Some(
            ("invalid_auth"@, "X-User-Id header contains invalid characters"@),
        ),
        AuthHeader::Text(_) => match parsed {
            Some(_) => None,
            None => Some(("invalid_auth"@, "X-User-Id must be a valid UUID"@)),
        },
    }
}

/// Whether a request was judged as its header asks: let in as the tenant
/// that the text denotes, or refused with the kind and the words of the
/// fault.
pub open spec fn judged_as(
    outcome: Result<CurrentUser, AuthError>,
    header: AuthHeader,
    parsed: Option<u128>,
) -> bool {
    match auth_fault(header, parsed) {
        None => outcome matches Ok(user) && parsed == Some(user.user_id),
        Some((kind, words)) => outcome matches Err(e) && e.error@ == kind && e.message@ == words,
    }
}

/// The UUID that the text of a header denotes, if it has a text and that
/// denotes one.
pub open spec fn parsed_header(header: AuthHeader) -> Option<u128> {
    match header {
        AuthHeader::Text(text) => uuid_of_text(text@),
        _ => None,
    }
}

fn refused(kind: &str, words: &str) -> (outcome: Result<CurrentUser, AuthError>)
    ensures
        outcome matches Err(e) && e.error@ == kind@ && e.message@ == words@,
{
    Err(AuthError { error: String::from_str(kind), message: String::from_str(words) })
}

impl CurrentUser {
    pub fn new(user_id: TenantId) -> (user: CurrentUser)
        ensures
            user.user_id == user_id,
    {
        CurrentUser { user_id }
    }

    /// Judges a request by its header and by what came of parsing the
    /// header's text as a UUID.
    pub fn from_header(header: &AuthHeader, parsed: Option<u128>) -> (outcome: Result<
        CurrentUser,
        AuthError,
    >)
        ensures
            judged_as(outcome, *header, parsed),
    {
        match header {
            AuthHeader::Missing => refused("missing_auth", "X-User-Id header is required"),
            AuthHeader::Unreadable => refused(
                "invalid_auth",
                "X-User-Id header contains invalid characters",
            ),
            AuthHeader::Text(_) => match parsed {
                Some(user_id) => Ok(CurrentUser { user_id }),
                None => refused("invalid_auth", "X-User-Id must be a valid UUID"),
            },
        }
    }

    /// Judges a request by its `X-User-Id` header: a request without the
    /// header, or with one that is no UUID, is refused.
    pub fn from_request_parts(header: &AuthHeader) -> (outcome: Result<CurrentUser, AuthError>)
        ensures
            judged_as(outcome, *header, parsed_header(*header)),
    {
        let parsed = match header {
            AuthHeader::Text(text) => parse_uuid(text.as_str()),
            _ => None,
        };
        CurrentUser::from_header(header, parsed)
    }
}

impl AuthError {
    /// The HTTP status under which this failure is answered.
    pub fn status_code(&self) -> (status: u16)
        ensures
            status == UNAUTHORIZED,
    {
        UNAUTHORIZED
    }
}

} // verus!
