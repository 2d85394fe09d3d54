//! Results of HTTP requests.

use vstd::prelude::*;
use wasm_bindgen::JsValue;
use crate::json::Error;

verus! {

/// Request error.
pub enum RequestError {
    /// The request failed on the server, which returned this error.
    RequestFailed(Error),
    /// Some other error happened.
    OtherError(JsValue),
}

impl From<JsValue> for RequestError {
    fn from(value: JsValue) -> (r: RequestError) {
        RequestError::OtherError(value)
    }
}

impl vstd::std_specs::convert::FromSpecImpl<JsValue> for RequestError {
    open spec fn obeys_from_spec() -> bool {
        true
    }

    open spec fn from_spec(v: JsValue) -> RequestError {
        RequestError::OtherError(v)
    }
}

/// Ignores [`RequestError::RequestFailed`] errors: `Ok(x)` gives
/// `Ok(Some(x))`, `Err(RequestFailed(_))` gives `Ok(None)` and
/// `Err(OtherError(err))` gives `Err(err)`.
pub fn ignore_request_failed<T>(x: Result<T, RequestError>) -> (r: Result<Option<T>, JsValue>)
    ensures
        r == match x {
            Ok(y) => Ok::<Option<T>, JsValue>(Some(y)),
            Err(RequestError::RequestFailed(_)) => Ok(None),
            Err(RequestError::OtherError(err)) => Err(err),
        },
{
    match x {
        Ok(y) => Ok(Some(y)),
        Err(RequestError::RequestFailed(_)) => Ok(None),
        Err(RequestError::OtherError(err)) => Err(err),
    }
}

} // verus!
