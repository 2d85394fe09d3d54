//! Errors reported by the HTTP API.

use vstd::prelude::*;
use crate::json::{Error, ErrorAction};

verus! {

/// HTTP status code of a client error (bad request).
pub const BAD_REQUEST: u16 = 400;

/// HTTP status code of a server error (internal server error).
pub const INTERNAL_SERVER_ERROR: u16 = 500;

/// Error returned by an API handler, serialized to JSON in the response body.
#[derive(Debug)]
pub struct JsonError(pub Error);

impl JsonError {
    /// Builds an error from its description, HTTP status code and suggested
    /// client action.
    pub fn from_error(error_description: String, status_code: u16, suggested_action: ErrorAction) -> (r: JsonError)
        ensures
            r.0.http_status_code == status_code,
            r.0.error_description@ == error_description@,
            r.0.suggested_action == suggested_action,
    {
        JsonError(Error { http_status_code: status_code, error_description, suggested_action })
    }

    /// A client error (400) that the client should show to the user.
    pub fn client_error_alert(error_description: String) -> (r: JsonError)
        ensures
            r.0.http_status_code == BAD_REQUEST,
            r.0.error_description@ == error_description@,
            r.0.suggested_action == ErrorAction::Alert,
    {
        JsonError::from_error(error_description, BAD_REQUEST, ErrorAction::Alert)
    }

    /// A client error (400) that the client should log.
    pub fn client_error(error_description: String) -> (r: JsonError)
        ensures
            r.0.http_status_code == BAD_REQUEST,
            r.0.error_description@ == error_description@,
            r.0.suggested_action == ErrorAction::Log,
    {
        JsonError::from_error(error_description, BAD_REQUEST, ErrorAction::Log)
    }

    /// A server error (500) that the client should log.
    pub fn server_error(error_description: String) -> (r: JsonError)
        ensures
            r.0.http_status_code == INTERNAL_SERVER_ERROR,
            r.0.error_description@ == error_description@,
            r.0.suggested_action == ErrorAction::Log,
    {
        JsonError::from_error(error_description, INTERNAL_SERVER_ERROR, ErrorAction::Log)
    }
}

} // verus!
