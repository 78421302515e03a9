//! The request headers that the service reads, held as raw bytes, and the
//! reading of a header value as text.

use vstd::prelude::*;
use vstd::string::*;

use crate::text::push_char;

verus! {

/// The header values that the service's logic reads from a request, each as
/// the raw bytes of the first value under that name, or `None` when the
/// request has no such header.
pub struct RequestHeaders {
    /// The `host` header.
    pub host: Option<Vec<u8>>,
    /// The `x-forwarded-proto` header.
    pub forwarded_proto: Option<Vec<u8>>,
    /// The `Authorization` header.
    pub authorization: Option<Vec<u8>>,
}

impl RequestHeaders {
    /// A request with none of the headers.
    pub fn empty() -> (r: RequestHeaders)
        ensures
            r.host is None,
            r.forwarded_proto is None,
            r.authorization is None,
    {
        RequestHeaders { host: None, forwarded_proto: None, authorization: None }
    }
}

/// The bytes of an optional header value.
pub open spec fn value_bytes(value: Option<Vec<u8>>) -> Option<Seq<u8>> {
    match value {
        Some(v) => Some(v@),
        None => None,
    }
}

/// A byte that a header value may hold when it is read as text: a visible
/// ASCII character, a space or a tab.
pub open spec fn is_visible_ascii(b: u8) -> bool {
    (32 <= b && b < 127) || b == 9
}

/// A header value read as text: the value's characters when every byte is
/// visible ASCII, and `None` otherwise.
pub open spec fn header_text(bytes: Seq<u8>) -> Option<Seq<char>> {
    if forall|i: int| 0 <= i < bytes.len() ==> is_visible_ascii(#[trigger] bytes[i]) {
        Some(bytes.map_values(|b: u8| b as char))
    } else {
        None
    }
}

/// The text of an optional header value, or `default` when the header is
/// absent or cannot be read as text.
pub open spec fn header_text_or(value: Option<Seq<u8>>, default: Seq<char>) -> Seq<char> {
    match value {
        Some(b) => match header_text(b) {
            Some(t) => t,
            None => default,
        },
        None => default,
    }
}

/// Reads a header value as text, accepting exactly the values whose bytes are
/// all visible ASCII (the reading that `HeaderValue::to_str` performs).
pub fn header_value_to_str(bytes: &[u8]) -> (r: Option<String>)
    ensures
        r is Some <==> header_text(bytes@) is Some,
        r matches Some(t) ==> header_text(bytes@) == Some(t@),
{
    let len: usize = bytes.len();
    let mut out = String::new();
    let mut i: usize = 0;
    while i < len
        invariant
            i <= len,
            len == bytes@.len(),
            forall|j: int| 0 <= j < i ==> is_visible_ascii(#[trigger] bytes@[j]),
            out@ =~= bytes@.take(i as int).map_values(|b: u8| b as char),
        decreases len - i,
    {
        let b: u8 = bytes[i];
        if !((32 <= b && b < 127) || b == 9) {
            assert(!is_visible_ascii(bytes@[i as int]));
            return None;
        }
        push_char(&mut out, b as char);
        i = i + 1;
    }
    assert(bytes@.take(len as int) =~= bytes@);
    Some(out)
}

/// The text of an optional header value, or `default` when it is absent or is
/// not visible ASCII.
pub fn header_text_or_default(value: &Option<Vec<u8>>, default: &str) -> (r: String)
    ensures
        r@ == header_text_or(value_bytes(*value), default@),
{
    match value {
        Some(v) => match header_value_to_str(v.as_slice()) {
            Some(t) => t,
            None => String::from_str(default),
        },
        None => String::from_str(default),
    }
}

} // verus!
