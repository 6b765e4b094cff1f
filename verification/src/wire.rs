//! What is read off the values that the HTTP stack hands over: the text of
//! a method, a path, a header and a scheme, the protocol version, and the
//! number of a status code.

use vstd::prelude::*;
use crate::version::HttpVersion;

verus! {

/// `http::Version`, a protocol version of the HTTP stack: carried through, never looked
/// into.
#[verifier::external_type_specification]
#[verifier::external_body]
pub struct ExVersion(http::Version);

/// `http::uri::Scheme`, the scheme of a URI of the HTTP stack: carried through, never looked
/// into.
#[verifier::external_type_specification]
#[verifier::external_body]
pub struct ExScheme(http::uri::Scheme);

/// `http::Method`, a request method of the HTTP stack: carried through, never looked
/// into.
#[verifier::external_type_specification]
#[verifier::external_body]
pub struct ExMethod(http::Method);

/// `http::Uri`, a URI of the HTTP stack: carried through, never looked
/// into.
#[verifier::external_type_specification]
#[verifier::external_body]
pub struct ExUri(http::Uri);

/// `http::HeaderValue`, the value of a header of the HTTP stack: carried through, never looked
/// into.
#[verifier::external_type_specification]
#[verifier::external_body]
pub struct ExHeaderValue(http::HeaderValue);

/// `http::StatusCode`, a status code of the HTTP stack: carried through, never looked
/// into.
#[verifier::external_type_specification]
#[verifier::external_body]
pub struct ExStatusCode(http::StatusCode);

/// Which of the constants of `http::Version` a version is: `Unknown` for
/// one that is none of the five.
pub uninterp spec fn version_kind(version: http::Version) -> HttpVersion;

/// Tells the constants of `http::Version` apart, which depends on the
/// version alone.
#[verifier::external_body]
pub(crate) fn version_of(version: http::Version) -> (out: HttpVersion)
    ensures
        out == version_kind(version),
{
    match version {
        http::Version::HTTP_09 => HttpVersion::Http09,
        http::Version::HTTP_10 => HttpVersion::Http10,
        http::Version::HTTP_11 => HttpVersion::Http11,
        http::Version::HTTP_2 => HttpVersion::Http2,
        http::Version::HTTP_3 => HttpVersion::Http3,
        _ => HttpVersion::Unknown,
    }
}

/// What `http::uri::Scheme::as_str` gives for a scheme: its text.
pub uninterp spec fn scheme_str(scheme: http::uri::Scheme) -> Seq<char>;

/// What `http::Method::as_str` gives for a method: its text.
pub uninterp spec fn method_str(method: http::Method) -> Seq<char>;

/// What `http::Uri::path` gives for a URI: its path.
pub uninterp spec fn uri_path(uri: http::Uri) -> Seq<char>;

/// What `http::StatusCode::as_u16` gives for a status code: its number.
pub uninterp spec fn status_value(code: http::StatusCode) -> u16;

/// The text of a scheme, from `http::uri::Scheme::as_str`, which depends
/// on the scheme alone.
#[verifier::external_body]
pub(crate) fn scheme_text(scheme: &http::uri::Scheme) -> (out: String)
    ensures
        out@ == scheme_str(*scheme),
{
    scheme.as_str().to_owned()
}

/// The text of a method, from `http::Method::as_str`, which depends on the
/// method alone.
#[verifier::external_body]
pub(crate) fn method_text(method: &http::Method) -> (out: String)
    ensures
        out@ == method_str(*method),
{
    method.as_str().to_owned()
}

/// The path of a URI, from `http::Uri::path`, which depends on the URI
/// alone.
#[verifier::external_body]
pub(crate) fn path_text(uri: &http::Uri) -> (out: String)
    ensures
        out@ == uri_path(*uri),
{
    uri.path().to_owned()
}

/// Whether `c` is what a header calls visible ASCII: a tab, or a character
/// from the space to the tilde.
pub open spec fn is_visible_ascii(c: char) -> bool {
    c == '\t' || (32 <= c as u32 && (c as u32) < 127)
}

/// Whether `text` is visible ASCII throughout.
pub open spec fn visible_ascii(text: Seq<char>) -> bool {
    forall|i: int| 0 <= i < text.len() ==> is_visible_ascii(#[trigger] text[i])
}

/// The bytes that a header value holds, as `http::HeaderValue::as_bytes`
/// hands them out.
pub uninterp spec fn header_bytes(value: http::HeaderValue) -> Seq<u8>;

/// Whether `b` is what a header calls visible ASCII: a tab, or a byte from
/// the space to the tilde.
pub open spec fn is_visible_byte(b: u8) -> bool {
    b == 9 || (32 <= b && b < 127)
}

/// Whether `bytes` are visible ASCII throughout.
pub open spec fn visible_bytes(bytes: Seq<u8>) -> bool {
    forall|i: int| 0 <= i < bytes.len() ==> is_visible_byte(#[trigger] bytes[i])
}

/// The text that ASCII bytes write: each byte as the character of its
/// number.
pub open spec fn ascii_text(bytes: Seq<u8>) -> Seq<char> {
    Seq::new(bytes.len(), |i: int| bytes[i] as char)
}

/// The text that is read of a header value that may be missing: the bytes
/// of a value that is there and is visible ASCII throughout, as text; of
/// any other, none.
pub open spec fn header_seen(value: Option<&http::HeaderValue>) -> Option<Seq<char>> {
    match value {
        Some(held) => if visible_bytes(header_bytes(*held)) {
            Some(ascii_text(header_bytes(*held)))
        } else {
            None
        },
        None => None,
    }
}

/// The text of a header value, from `http::HeaderValue::to_str`. That call
/// scans the value's bytes: where every one of them is visible ASCII it
/// gives them as text, and where one is not it gives an error, here none.
#[verifier::external_body]
pub(crate) fn header_text(value: &http::HeaderValue) -> (out: Option<String>)
    ensures
        match out {
            Some(text) => visible_bytes(header_bytes(*value)) && text@ == ascii_text(
                header_bytes(*value),
            ),
            None => !visible_bytes(header_bytes(*value)),
        },
{
    match value.to_str() {
        Ok(text) => Some(text.to_owned()),
        Err(_) => None,
    }
}

/// Visible bytes write visible text.
pub proof fn lemma_visible_text(bytes: Seq<u8>)
    requires
        visible_bytes(bytes),
    ensures
        visible_ascii(ascii_text(bytes)),
{
    assert forall|i: int| 0 <= i < ascii_text(bytes).len() implies is_visible_ascii(
        #[trigger] ascii_text(bytes)[i],
    ) by {
        let b = bytes[i];
        assert(is_visible_byte(b));
        assert((b as char) as u32 == b as u32);
    }
}

/// The number of a status code, from `http::StatusCode::as_u16`, which
/// depends on the code alone. A status code can only be made of a number
/// from 100 to 999.
#[verifier::external_body]
pub(crate) fn status_number(code: &http::StatusCode) -> (number: u16)
    ensures
        number == status_value(*code),
        100 <= number <= 999,
{
    code.as_u16()
}

/// The number of the status code that `http::StatusCode::default` gives,
/// which is `StatusCode::OK`.
#[verifier::external_body]
pub(crate) fn default_status_number() -> (number: u16)
    ensures
        number == 200,
{
    http::StatusCode::default().as_u16()
}

} // verus!
