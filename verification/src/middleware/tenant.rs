//! Finding the tenant a request is made for.

use vstd::prelude::*;

use crate::headers::{header_text_or, header_text_or_default, value_bytes, RequestHeaders};

verus! {

/// The query that finds the tenant company served under a domain (`$1`).
pub const TENANT_BY_DOMAIN_SQL: &'static str =
    r#"SELECT id, schema_name, domain_url, cargo_distance
        FROM company_company
        WHERE domain_url = $1"#;

/// The domain a request is made under: its `host` header, or `localhost`
/// when there is none or it is not visible ASCII.
pub open spec fn tenant_domain_spec(headers: RequestHeaders) -> Seq<char> {
    header_text_or(value_bytes(headers.host), "localhost"@)
}

/// The domain whose tenant the request is made for.
pub fn tenant_domain(headers: &RequestHeaders) -> (r: String)
    ensures
        r@ == tenant_domain_spec(*headers),
{
    header_text_or_default(&headers.host, "localhost")
}

} // verus!
