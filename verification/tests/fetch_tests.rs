use vfd_dashboard::error::RequestError;
use vfd_dashboard::fetch::{body_text, received_text, state_text};

#[test]
fn body_of_valid_utf8_is_its_text() {
    let body = "{\"state\":\"21.4\"}".as_bytes();
    assert_eq!(body_text(body).unwrap(), "{\"state\":\"21.4\"}");
    assert_eq!(body_text(&[0xC2, 0xB0, 0x43]).unwrap(), "°C");
    assert_eq!(body_text(&[]).unwrap(), "");
}

#[test]
fn body_of_invalid_utf8_is_an_encoding_failure() {
    assert!(matches!(body_text(&[0x7B, 0xB0, 0x7D]), Err(RequestError::Utf8Error(_))));
    assert!(matches!(body_text(&[0xC2]), Err(RequestError::Utf8Error(_))));
}

#[test]
fn transport_failure_comes_before_decoding() {
    let received: Result<&[u8], reqwless::Error> = Err(reqwless::Error::BufferTooSmall);
    assert!(matches!(
        received_text(received),
        Err(RequestError::RequestErr(reqwless::Error::BufferTooSmall))
    ));
    let received: Result<&[u8], reqwless::Error> = Err(reqwless::Error::Dns);
    assert!(matches!(received_text(received), Err(RequestError::RequestErr(reqwless::Error::Dns))));
}

#[test]
fn received_body_is_decoded_as_text() {
    let body: &[u8] = b"{\"state\":\"on\"}";
    assert_eq!(received_text(Ok(body)).unwrap(), "{\"state\":\"on\"}");
    let broken: &[u8] = &[0xFF, 0xFE];
    assert!(matches!(received_text(Ok(broken)), Err(RequestError::Utf8Error(_))));
}

#[test]
fn decoder_failure_is_a_decode_failure() {
    let missing: Result<&str, serde_json_core::de::Error> =
        Err(serde_json_core::de::Error::CustomError);
    assert!(matches!(
        state_text(missing),
        Err(RequestError::JsonErr(serde_json_core::de::Error::CustomError))
    ));
    let cut: Result<&str, serde_json_core::de::Error> =
        Err(serde_json_core::de::Error::EofWhileParsingObject);
    assert!(matches!(
        state_text(cut),
        Err(RequestError::JsonErr(serde_json_core::de::Error::EofWhileParsingObject))
    ));
}

#[test]
fn decoded_state_is_passed_on() {
    assert_eq!(state_text(Ok("21.4")).unwrap(), "21.4");
    assert_eq!(state_text(Ok("")).unwrap(), "");
}

#[test]
fn request_error_from_transport_error() {
    let failure = RequestError::from(reqwless::Error::Codec);
    assert!(matches!(failure, RequestError::RequestErr(reqwless::Error::Codec)));
}
