//! Error outcomes of a single Manager operation, and classification of
//! HTTP status codes into success and failure.

use vstd::prelude::*;

use crate::text::dec_digits;
use crate::text::dec_string;

verus! {

/// Everything that can go wrong inside one Manager operation, apart
/// from a well-formed `FAIL` report by Tomcat itself (which is a normal
/// outcome, carried by `Response::Fail`).
#[derive(Debug, Clone, Copy, PartialEq, Eq, Structural)]
pub enum OperationError {
    /// A parallel deploy was requested at a path holding an unversioned
    /// context, or a plain deploy at a path holding a versioned one.
    DeploymentTypeMismatch,
    /// The HTTP request itself was rejected: the status code was not in
    /// the 2xx range. Carries the status code.
    HttpStatusNotSuccess(u16),
    /// The response body's status line starts with neither `OK` nor
    /// `FAIL - `.
    MalformedResponseBody,
    /// A non-empty data line of a `list` body does not match the
    /// context grammar, or its session count does not fit in 32 bits.
    MalformedContextLine,
    /// An existing context's version tag is not a decimal number small
    /// enough to be stepped to its successor.
    MalformedContextVersion,
}

/// The report a user reads for each error.
pub open spec fn spec_error_message(e: OperationError) -> Seq<char> {
    match e {
        OperationError::DeploymentTypeMismatch => "Deployment type mismatch."@,
        OperationError::HttpStatusNotSuccess(code) => "HTTP status not success: "@ + dec_digits(
            code as int,
        ),
        OperationError::MalformedResponseBody => "Malformed manager response body."@,
        OperationError::MalformedContextLine => "Malformed context list line."@,
        OperationError::MalformedContextVersion => "Malformed context version tag."@,
    }
}

impl OperationError {
    /// The report a user reads for this error.
    pub fn message(&self) -> (r: String)
        ensures
            r@ == spec_error_message(*self),
    {
        match self {
            OperationError::DeploymentTypeMismatch => String::from_str(
                "Deployment type mismatch.",
            ),
            OperationError::HttpStatusNotSuccess(code) => {
                let mut m = String::from_str("HTTP status not success: ");
                let d = dec_string(*code as u32);
                m.append(d.as_str());
                m
            },
            OperationError::MalformedResponseBody => String::from_str(
                "Malformed manager response body.",
            ),
            OperationError::MalformedContextLine => String::from_str(
                "Malformed context list line.",
            ),
            OperationError::MalformedContextVersion => String::from_str(
                "Malformed context version tag.",
            ),
        }
    }
}

/// Whether an HTTP status code counts as success: the 2xx range.
pub open spec fn spec_status_success(code: u16) -> bool {
    200 <= code < 300
}

/// Accept a 2xx HTTP status code and reject every other one as
/// `HttpStatusNotSuccess`, so that a rejected request is told apart
/// from a Tomcat-level `FAIL` report.
pub fn check_status_code(code: u16) -> (r: Result<(), OperationError>)
    ensures
        match r {
            Ok(u) => spec_status_success(code),
            Err(e) => !spec_status_success(code) && e == OperationError::HttpStatusNotSuccess(code),
        },
{
    if 200 <= code && code < 300 {
        Ok(())
    } else {
        Err(OperationError::HttpStatusNotSuccess(code))
    }
}

} // verus!
