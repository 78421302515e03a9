//! The absolute base URL under which a request was made.

use vstd::prelude::*;
use vstd::string::*;

use crate::headers::{
    header_text_or, header_text_or_default, is_visible_ascii, value_bytes, RequestHeaders,
};

verus! {

/// The scheme and host of a request, `scheme://host`: the scheme is the
/// `x-forwarded-proto` header (by default `http`), the host the `host` header
/// (by default `localhost`); a header that is not visible ASCII counts as
/// absent.
pub open spec fn absolute_base_url(headers: RequestHeaders) -> Seq<char> {
    header_text_or(value_bytes(headers.forwarded_proto), "http"@) + "://"@ + header_text_or(
        value_bytes(headers.host),
        "localhost"@,
    )
}

/// Builds `scheme://host` for the request that carried `headers`.
pub fn build_absolute_url(headers: &RequestHeaders) -> (r: String)
    ensures
        r@ == absolute_base_url(*headers),
{
    let mut url = header_text_or_default(&headers.forwarded_proto, "http");
    url.append("://");
    let host = header_text_or_default(&headers.host, "localhost");
    url.append(host.as_str());
    url
}


/// Whether every byte of `b` is visible ASCII (or a tab), so that the header
/// reads as text.
pub open spec fn all_visible(b: Seq<u8>) -> bool {
    forall|i: int| 0 <= i < b.len() ==> is_visible_ascii(#[trigger] b[i])
}

/// The bytes of an ASCII header value as characters.
pub open spec fn ascii_chars(b: Seq<u8>) -> Seq<char> {
    b.map_values(|x: u8| x as char)
}

/// The scheme and the host of the base URL come from their own headers:
/// the part before `://` is the `x-forwarded-proto` value (or `http` when
/// that header is absent or not text), whatever the host is; the part after
/// it is the `host` value (or `localhost` when that header is absent or not
/// text), whatever the scheme is.
pub proof fn law_scheme_and_host_are_independent(headers: RequestHeaders)
    ensures
        ({
            let scheme = match headers.forwarded_proto {
                Some(p) => if all_visible(p@) {
                    ascii_chars(p@)
                } else {
                    "http"@
                },
                None => "http"@,
            };
            let host = match headers.host {
                Some(h) => if all_visible(h@) {
                    ascii_chars(h@)
                } else {
                    "localhost"@
                },
                None => "localhost"@,
            };
            absolute_base_url(headers) == scheme + "://"@ + host
        }),
{
}

} // verus!
