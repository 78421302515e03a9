//! Page windows of a listing and the `next` / `previous` links between them.

use vstd::prelude::*;

use crate::base::build_url::{build_absolute_url, page_url};
use crate::headers::RequestHeaders;

verus! {

/// One page of a listing: the total number of rows, links to the pages on
/// either side, and the rows of this page.
pub struct PaginatedResponse<T> {
    /// How many rows the whole listing has.
    pub count: i64,
    /// The URL of the following page, when there are rows after this page.
    pub next: Option<String>,
    /// The URL of the preceding page, when this is not the first page.
    pub previous: Option<String>,
    /// The rows of this page.
    pub results: Vec<T>,
}

/// The paging parameters of a listing request, as the query string gave them.
pub struct PaginationParams {
    /// The page number, counted from 1.
    pub page: Option<u32>,
    /// How many rows a page holds.
    pub page_size: Option<u32>,
}

/// Why a listing request was refused.
#[derive(Debug, PartialEq, Eq, Structural)]
pub enum PaginationError {
    /// The page number was 0.
    InvalidPage,
}

impl PaginationError {
    /// The message that goes with the error.
    pub fn message(&self) -> (r: &'static str)
        ensures
            r@ == "Page number must be greater than 0"@,
    {
        "Page number must be greater than 0"
    }
}

/// The window of rows that one page covers.
pub struct PageRequest {
    /// The page number, counted from 1.
    pub page: u32,
    /// How many rows a page holds.
    pub page_size: i64,
    /// How many rows come before this page.
    pub offset: i64,
}

/// The page a request asks for: page 1 when it names none.
pub open spec fn requested_page(params: PaginationParams) -> u32 {
    match params.page {
        Some(p) => p,
        None => 1,
    }
}

/// The page size a request asks for: 50 rows when it names none.
pub open spec fn requested_page_size(params: PaginationParams) -> u32 {
    match params.page_size {
        Some(s) => s,
        None => 50,
    }
}

/// How many rows come before page `page` when pages hold `size` rows.
pub open spec fn page_offset(page: int, size: int) -> int {
    (page - 1) * size
}

/// Whether the offset of the requested page fits in an `i64` (the offset is
/// only computed for pages from 1 on).
pub open spec fn offset_fits(params: PaginationParams) -> bool {
    requested_page(params) == 0 || page_offset(
        requested_page(params) as int,
        requested_page_size(params) as int,
    ) <= i64::MAX
}

impl PageRequest {
    /// A window of a page from 1 on, whose offset counts the rows of the pages
    /// before it.
    pub open spec fn wf(self) -> bool {
        &&& self.page >= 1
        &&& 0 <= self.page_size <= u32::MAX
        &&& self.offset == page_offset(self.page as int, self.page_size as int)
    }
}

/// Turns the paging parameters of a request into the window of rows to fetch:
/// page 1 and 50 rows by default; page 0 is refused.
pub fn page_request(params: &PaginationParams) -> (r: Result<PageRequest, PaginationError>)
    requires
        offset_fits(*params),
    ensures
        r is Err <==> requested_page(*params) == 0,
        r matches Err(e) ==> e == PaginationError::InvalidPage,
        r matches Ok(req) ==> {
            &&& req.wf()
            &&& req.page == requested_page(*params)
            &&& req.page_size == requested_page_size(*params) as i64
        },
{
    let page: u32 = match params.page {
        Some(p) => p,
        None => 1,
    };
    let size: u32 = match params.page_size {
        Some(s) => s,
        None => 50,
    };
    let page_size: i64 = size as i64;
    if page == 0 {
        return Err(PaginationError::InvalidPage);
    }
    proof {
        assert(0 <= (page - 1) * page_size) by (nonlinear_arith)
            requires
                page >= 1,
                page_size >= 0,
        ;
    }
    let offset: i64 = (page as i64 - 1) * page_size;
    Ok(PageRequest { page, page_size, offset })
}

/// The text of an optional link.
pub open spec fn link_text(link: Option<String>) -> Option<Seq<char>> {
    match link {
        Some(s) => Some(s@),
        None => None,
    }
}

/// The row count of a listing: the counting query's answer, or 0 when it gave
/// none.
pub open spec fn count_or_zero(count: Option<i64>) -> i64 {
    match count {
        Some(c) => c,
        None => 0,
    }
}

/// Whether rows of the listing follow the page `req`.
pub open spec fn has_next(req: PageRequest, count: int) -> bool {
    req.offset + req.page_size < count
}

/// Whether pages come before the page `req`.
pub open spec fn has_previous(req: PageRequest) -> bool {
    req.page > 1
}

/// The URL of page `page` of the listing at `base_uri`: the request's
/// `scheme://host`, the URI, then `?page=` and the page number.
pub open spec fn listing_link(headers: RequestHeaders, base_uri: Seq<char>, page: nat) -> Seq<char> {
    page_url(headers, base_uri, page)
}

/// The `next` link of page `req` of a listing of `count` rows.
pub open spec fn next_link(
    req: PageRequest,
    headers: RequestHeaders,
    base_uri: Seq<char>,
    count: int,
) -> Option<Seq<char>> {
    if has_next(req, count) {
        Some(listing_link(headers, base_uri, (req.page + 1) as nat))
    } else {
        None
    }
}

/// The `previous` link of page `req` of a listing.
pub open spec fn previous_link(
    req: PageRequest,
    headers: RequestHeaders,
    base_uri: Seq<char>,
) -> Option<Seq<char>> {
    if has_previous(req) {
        Some(listing_link(headers, base_uri, (req.page - 1) as nat))
    } else {
        None
    }
}

/// Assembles page `req` of the listing at `base_uri` from the counting
/// query's answer (`None` when it failed, which counts as 0 rows) and the
/// page's rows, with links to the neighbouring pages.
pub fn paginated_response<T>(
    req: &PageRequest,
    headers: &RequestHeaders,
    base_uri: &str,
    count: Option<i64>,
    results: Vec<T>,
) -> (r: PaginatedResponse<T>)
    requires
        req.wf(),
        has_next(*req, count_or_zero(count) as int) ==> req.page < u32::MAX,
    ensures
        r.count == count_or_zero(count),
        count matches Some(c) ==> r.count == c,
        count is None ==> r.count == 0,
        link_text(r.next) == next_link(*req, *headers, base_uri@, r.count as int),
        link_text(r.previous) == previous_link(*req, *headers, base_uri@),
        r.results@ == results@,
{
    let count: i64 = match count {
        Some(c) => c,
        None => 0,
    };
    let next = if (req.offset as i128) + (req.page_size as i128) < (count as i128) {
        Some(build_absolute_url(headers, base_uri, req.page + 1))
    } else {
        None
    };
    let previous = if req.page > 1 {
        Some(build_absolute_url(headers, base_uri, req.page - 1))
    } else {
        None
    };
    PaginatedResponse { count, next, previous, results }
}

/// Consecutive pages are adjacent windows: the page after `req` starts right
/// where `req` ends; when `req` has a `next` link, that page starts before the
/// end of the listing; and its `previous` link leads back to `req`.
pub proof fn law_next_page_follows(
    req: PageRequest,
    following: PageRequest,
    headers: RequestHeaders,
    base_uri: Seq<char>,
    count: int,
)
    requires
        req.wf(),
        following.wf(),
        following.page == req.page + 1,
        following.page_size == req.page_size,
    ensures
        following.offset == req.offset + req.page_size,
        has_next(req, count) ==> following.offset < count,
        previous_link(following, headers, base_uri) == Some(
            listing_link(headers, base_uri, req.page as nat),
        ),
{
    assert(page_offset(following.page as int, following.page_size as int) == page_offset(
        req.page as int,
        req.page_size as int,
    ) + req.page_size) by (nonlinear_arith)
        requires
            following.page == req.page + 1,
            following.page_size == req.page_size,
    ;
}


/// The first page starts at the first row, and page `p` skips the rows of
/// the `p - 1` full pages before it.
pub proof fn law_page_window_offset(req: PageRequest)
    requires
        req.wf(),
    ensures
        req.page == 1 ==> req.offset == 0,
        req.offset == (req.page as int - 1) * (req.page_size as int),
        0 <= req.offset,
{
    assert(0 <= (req.page as int - 1) * (req.page_size as int) && (req.page == 1 ==> (req.page as int
        - 1) * (req.page_size as int) == 0)) by (nonlinear_arith)
        requires
            req.page >= 1,
            req.page_size >= 0,
    ;
}

/// The row count of a page is the counting query's answer, unchanged,
/// whatever its size; only a failed count counts as 0.
pub proof fn law_count_is_query_answer(c: i64)
    ensures
        count_or_zero(Some(c)) == c,
        count_or_zero(None) == 0,
{
}

/// On page `p` of pages of `s` rows in a listing of `count` rows, there is a
/// `next` link exactly when `p * s < count` (rows follow the page) and it
/// names page `p + 1`; there is a `previous` link exactly from page 2 on and
/// it names page `p - 1`.
pub proof fn law_links_follow_the_rows(
    req: PageRequest,
    headers: RequestHeaders,
    base_uri: Seq<char>,
    count: int,
)
    requires
        req.wf(),
    ensures
        next_link(req, headers, base_uri, count) is Some <==> (req.page as int) * (
        req.page_size as int) < count,
        next_link(req, headers, base_uri, count) matches Some(u) ==> u == page_url(
            headers,
            base_uri,
            (req.page + 1) as nat,
        ),
        previous_link(req, headers, base_uri) is Some <==> req.page >= 2,
        previous_link(req, headers, base_uri) matches Some(u) ==> u == page_url(
            headers,
            base_uri,
            (req.page - 1) as nat,
        ),
{
    assert(req.offset + req.page_size == (req.page as int) * (req.page_size as int))
        by (nonlinear_arith)
        requires
            req.offset == (req.page - 1) * req.page_size,
    ;
}

} // verus!
