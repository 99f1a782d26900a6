//! From a response to the state text of an entity.
//!
//! The request itself and the JSON decoder run outside this library. What is
//! decided here is which failure a fetch reports: a transport failure comes
//! first, then a body that is not text, then a text that does not decode.

use vstd::prelude::*;
use vstd::string::StringSliceAdditionalSpecFns;
use crate::error::RequestError;

verus! {

/// `core::str::from_utf8`: the bytes as text if and only if they are valid
/// UTF-8; the text then has exactly these bytes.
#[verifier::external_body]
fn text_of_bytes(bytes: &[u8]) -> (text: Result<&str, core::str::Utf8Error>)
    ensures
        text is Ok <==> vstd::utf8::valid_utf8(bytes@),
        text matches Ok(decoded) ==> decoded.spec_bytes() == bytes@,
{
    core::str::from_utf8(bytes)
}

/// The text of a response body.
///
/// A body that is valid UTF-8 is returned as the text with exactly these
/// bytes. Any other body is an encoding failure.
pub fn body_text(body: &[u8]) -> (text: Result<&str, RequestError>)
    ensures
        text is Ok <==> vstd::utf8::valid_utf8(body@),
        text matches Ok(decoded) ==> decoded.spec_bytes() == body@ && decoded@
            == vstd::utf8::decode_utf8(body@),
        text matches Err(failure) ==> failure.is_encoding(),
{
    match text_of_bytes(body) {
        Ok(decoded) => {
            proof {
                vstd::utf8::encode_utf8_decode_utf8(decoded@);
            }
            Ok(decoded)
        },
        Err(invalid) => Err(RequestError::Utf8Error(invalid)),
    }
}

/// The text of what the transport delivered: the body's text where a body
/// arrived, a transport failure where none did.
pub fn received_text<'a>(received: Result<&'a [u8], reqwless::Error>) -> (text: Result<
    &'a str,
    RequestError,
>)
    ensures
        text is Ok <==> (received matches Ok(body) && vstd::utf8::valid_utf8(body@)),
        text matches Ok(decoded) ==> (received matches Ok(body) && decoded.spec_bytes() == body@
            && decoded@ == vstd::utf8::decode_utf8(body@)),
        received matches Err(failure) ==> text == Err::<&str, RequestError>(
            RequestError::RequestErr(failure),
        ),
        received is Err ==> (text matches Err(failure) && failure.is_transport()),
        received is Ok ==> (text matches Err(failure) ==> failure.is_encoding()),
{
    match received {
        Ok(body) => body_text(body),
        Err(failure) => Err(RequestError::from(failure)),
    }
}

/// The state text of a decoded body: the `state` member where the decoder
/// found one, a decode failure with the decoder's error where it did not.
pub fn state_text<'a>(decoded: Result<&'a str, serde_json_core::de::Error>) -> (state: Result<
    &'a str,
    RequestError,
>)
    ensures
        state == match decoded {
            Ok(text) => Ok::<&str, RequestError>(text),
            Err(failure) => Err::<&str, RequestError>(RequestError::JsonErr(failure)),
        },
        decoded is Err ==> (state matches Err(failure) && failure.is_decode()),
{
    match decoded {
        Ok(text) => Ok(text),
        Err(failure) => Err(RequestError::JsonErr(failure)),
    }
}

} // verus!
