//! Results of PATCH requests.

use vstd::prelude::*;
use wasm_bindgen::JsValue;

verus! {

/// JavaScript values, which this crate only carries around.
#[verifier::external_type_specification]
#[verifier::external_body]
pub struct ExJsValue(JsValue);

/// PATCH request error.
pub enum PatchError {
    /// The server answered with an error.
    RequestFailed(String),
    /// Some other error happened.
    OtherError(JsValue),
}

impl From<JsValue> for PatchError {
    fn from(value: JsValue) -> (r: PatchError) {
        PatchError::OtherError(value)
    }
}

impl vstd::std_specs::convert::FromSpecImpl<JsValue> for PatchError {
    open spec fn obeys_from_spec() -> bool {
        true
    }

    open spec fn from_spec(v: JsValue) -> PatchError {
        PatchError::OtherError(v)
    }
}

/// Ignores failed requests: `Ok` and `Err(RequestFailed(_))` give `Ok(())`,
/// `Err(OtherError(err))` gives `Err(err)`.
pub fn ignore_request_failed<T>(x: Result<T, PatchError>) -> (r: Result<(), JsValue>)
    ensures
        r == match x {
            Err(PatchError::OtherError(err)) => Err::<(), JsValue>(err),
            _ => Ok(()),
        },
{
    match x {
        Err(PatchError::OtherError(err)) => Err(err),
        _ => Ok(()),
    }
}

} // verus!
