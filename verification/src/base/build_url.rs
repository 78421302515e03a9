//! The absolute URL of one page of a listing.

use vstd::prelude::*;
use vstd::string::*;

use crate::headers::RequestHeaders;
use crate::helper::build_url::absolute_base_url;
use crate::text::{all_digits, decimal, digits_value, law_decimal_is_canonical, push_decimal};

verus! {

/// `scheme://host<path>?page=<page>` for the request that carried `headers`.
pub open spec fn page_url(headers: RequestHeaders, path: Seq<char>, page: nat) -> Seq<char> {
    absolute_base_url(headers) + path + "?page="@ + decimal(page)
}

/// Builds the absolute URL of page `page` of the listing at `path`.
pub fn build_absolute_url(headers: &RequestHeaders, path: &str, page: u32) -> (r: String)
    ensures
        r@ == page_url(*headers, path@, page as nat),
{
    let mut url = crate::helper::build_url::build_absolute_url(headers);
    url.append(path);
    url.append("?page=");
    push_decimal(&mut url, page as u64);
    url
}


/// A page URL is the request's `scheme://host`, the path and `?page=`,
/// followed by the page number spelled canonically in decimal: only digits,
/// no leading zero (except for page 0), reading back as the page number.
pub proof fn law_page_url_names_the_page(headers: RequestHeaders, path: Seq<char>, page: nat)
    ensures
        ({
            let prefix = absolute_base_url(headers) + path + "?page="@;
            let url = page_url(headers, path, page);
            let number = url.skip(prefix.len() as int);
            &&& url.len() > prefix.len()
            &&& url.take(prefix.len() as int) == prefix
            &&& all_digits(number)
            &&& digits_value(number) == page
            &&& (number.len() == 1 || number[0] != '0')
        }),
{
    let prefix = absolute_base_url(headers) + path + "?page="@;
    let url = page_url(headers, path, page);
    law_decimal_is_canonical(page);
    assert(url.take(prefix.len() as int) =~= prefix);
    assert(url.skip(prefix.len() as int) =~= decimal(page));
}

} // verus!
