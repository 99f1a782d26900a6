//! Request URLs: a base address followed by an entity's identifier, held in a
//! buffer of fixed capacity.

use vstd::prelude::*;
use vstd::string::StringSliceAdditionalSpecFns;
use vstd::utf8::encode_utf8;

verus! {

/// Capacity of a request URL, in bytes.
pub const URL_CAPACITY: usize = 512;

/// `heapless::String`, a string stored inline in a buffer of `N` bytes.
#[verifier::external_type_specification]
#[verifier::external_body]
pub struct ExBoundedString<const N: usize>(heapless::String<N>);

/// The text that a URL buffer holds. Its UTF-8 bytes are what fills the
/// buffer.
pub uninterp spec fn url_text(url: heapless::String<512>) -> Seq<char>;

/// `heapless::String::new`: an empty buffer.
#[verifier::external_body]
fn url_new() -> (url: heapless::String<512>)
    ensures
        url_text(url) == Seq::<char>::empty(),
{
    heapless::String::new()
}

/// `heapless::String::push_str`: appends `part` if its UTF-8 bytes fit in what
/// is left of the 512 bytes, and otherwise fails and leaves the buffer as it
/// was.
#[verifier::external_body]
fn url_push_str(url: &mut heapless::String<512>, part: &str) -> (pushed: Result<(), ()>)
    ensures
        pushed is Ok <==> encode_utf8(url_text(*old(url))).len() + part.spec_bytes().len()
            <= URL_CAPACITY,
        pushed is Ok ==> url_text(*final(url)) == url_text(*old(url)) + part@,
        pushed is Err ==> url_text(*final(url)) == url_text(*old(url)),
{
    url.push_str(part)
}

/// The URL would need more than [`URL_CAPACITY`] bytes.
#[derive(Clone, Copy, Debug, PartialEq, Eq)]
pub struct UrlTooLong;

/// Whether the base address followed by the identifier fits a URL buffer.
pub open spec fn url_fits(base: &str, identifier: &str) -> bool {
    base.spec_bytes().len() + identifier.spec_bytes().len() <= URL_CAPACITY
}

/// Builds the address of an entity's state: `base` followed by `identifier`.
///
/// Fails exactly when the two together exceed [`URL_CAPACITY`] bytes. That is
/// an error of the configuration, to be found once at startup.
pub fn build_url(base: &str, identifier: &str) -> (built: Result<heapless::String<512>, UrlTooLong>)
    ensures
        built is Ok <==> url_fits(base, identifier),
        built matches Ok(url) ==> url_text(url) == base@ + identifier@,
{
    let mut url: heapless::String<512> = url_new();
    assert(encode_utf8(Seq::<char>::empty()).len() == 0);
    match url_push_str(&mut url, base) {
        Ok(()) => {},
        Err(()) => {
            return Err(UrlTooLong);
        },
    }
    assert(url_text(url) =~= base@);
    match url_push_str(&mut url, identifier) {
        Ok(()) => Ok(url),
        Err(()) => Err(UrlTooLong),
    }
}

} // verus!
