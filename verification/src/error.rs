//! The ways in which one fetch of an entity's state can fail.
//!
//! A failure ends that one fetch and nothing else: the refresh cycle shows an
//! error marker in the field and moves on to the next entity.

use vstd::prelude::*;
use vstd::std_specs::convert::FromSpecImpl;

verus! {

/// `reqwless::Error`, the failure of the HTTP client (DNS, network, TLS, a
/// response that does not fit the buffer). Carried as an opaque value: nothing
/// in this library looks inside it.
#[verifier::external_type_specification]
#[verifier::external_body]
pub struct ExHttpError(reqwless::Error);

/// `core::str::Utf8Error`, what `core::str::from_utf8` returns for bytes that
/// are not UTF-8. Carried as an opaque value.
#[verifier::external_type_specification]
#[verifier::external_body]
pub struct ExUtf8Error(core::str::Utf8Error);

/// `serde_json_core::de::Error`, the failure of the JSON decoder. Carried as an
/// opaque value.
#[verifier::external_type_specification]
#[verifier::external_body]
pub struct ExJsonError(serde_json_core::de::Error);

/// Why a fetch produced no state text.
#[derive(Debug)]
pub enum RequestError {
    /// The request could not be sent or the response could not be received.
    RequestErr(reqwless::Error),
    /// The response body is not UTF-8.
    Utf8Error(core::str::Utf8Error),
    /// The body is not a JSON object with a textual `state` member.
    JsonErr(serde_json_core::de::Error),
}

impl RequestError {
    /// The failure happened on the way to or from the remote side.
    pub open spec fn is_transport(&self) -> bool {
        self is RequestErr
    }

    /// The body arrived but is not text.
    pub open spec fn is_encoding(&self) -> bool {
        self is Utf8Error
    }

    /// The body is text but does not decode to a state.
    pub open spec fn is_decode(&self) -> bool {
        self is JsonErr
    }
}

impl From<reqwless::Error> for RequestError {
    fn from(value: reqwless::Error) -> (err: Self) {
        RequestError::RequestErr(value)
    }
}

impl FromSpecImpl<reqwless::Error> for RequestError {
    open spec fn obeys_from_spec() -> bool {
        true
    }

    open spec fn from_spec(value: reqwless::Error) -> Self {
        RequestError::RequestErr(value)
    }
}

} // verus!
