//! Pagination of listing endpoints: page selection, bounds checking, and
//! response metadata.

use vstd::prelude::*;

verus! {

/// A caller's page selection.
#[derive(Debug, Clone)]
pub struct PaginationParams {
    /// The 1-based page number.
    pub page: i64,
    /// How many items one page holds.
    pub limit: i64,
}

/// The page number used when the caller names none.
pub fn default_page() -> (r: i64)
    ensures
        r == 1,
{
    1
}

/// The page size used when the caller names none.
pub fn default_limit() -> (r: i64)
    ensures
        r == 10,
{
    10
}

/// The rejection reported for a page number below one.
pub open spec fn page_error() -> Seq<char> {
    "Page must be greater than 0"@
}

/// The rejection reported for a page size outside one to one hundred.
pub open spec fn limit_error() -> Seq<char> {
    "Limit must be between 1 and 100"@
}

impl PaginationParams {
    /// How many items the selected page skips.
    pub fn skip(&self) -> (r: i64)
        requires
            i64::MIN < self.page,
            i64::MIN <= (self.page - 1) * self.limit <= i64::MAX,
        ensures
            r == (self.page - 1) * self.limit,
    {
        (self.page - 1) * self.limit
    }

    /// How many items the selected page takes.
    pub fn take(&self) -> (r: i64)
        ensures
            r == self.limit,
    {
        self.limit
    }

    /// Accepts exactly the selections with a positive page number and a
    /// page size between one and one hundred.
    pub fn validate(&self) -> (r: Result<(), String>)
        ensures
            r is Ok <==> (self.page >= 1 && 1 <= self.limit <= 100),
            r matches Err(e) ==> e@ == if self.page < 1 {
                page_error()
            } else {
                limit_error()
            },
    {
        if self.page < 1 {
            return Err(crate::strutil::chars_to_string(
                &crate::strutil::str_to_chars("Page must be greater than 0"),
            ));
        }
        if self.limit < 1 || self.limit > 100 {
            return Err(crate::strutil::chars_to_string(
                &crate::strutil::str_to_chars("Limit must be between 1 and 100"),
            ));
        }
        Ok(())
    }
}

/// How many pages a listing spans: the ceiling of items over page size,
/// none for an empty page size.
pub open spec fn spec_total_pages(total_items: int, per_page: int) -> int {
    if per_page > 0 {
        (total_items + per_page - 1) / per_page
    } else {
        0
    }
}

/// The metadata returned beside one page of results.
#[derive(Debug, Clone)]
pub struct PaginationMeta {
    /// The 1-based page number served.
    pub current_page: i64,
    /// How many items one page holds.
    pub per_page: i64,
    /// How many items the whole listing holds.
    pub total_items: i64,
    /// How many pages the whole listing spans.
    pub total_pages: i64,
    /// Whether a page precedes this one.
    pub has_previous: bool,
    /// Whether a page follows this one.
    pub has_next: bool,
}

impl PaginationMeta {
    /// Derives the metadata for one page of a listing.
    pub fn new(current_page: i64, per_page: i64, total_items: i64) -> (r: PaginationMeta)
        requires
            0 <= total_items,
            0 <= per_page,
            total_items + per_page <= i64::MAX,
        ensures
            r.current_page == current_page,
            r.per_page == per_page,
            r.total_items == total_items,
            r.total_pages == spec_total_pages(total_items as int, per_page as int),
            r.has_previous == (current_page > 1),
            r.has_next == (current_page < r.total_pages),
    {
        let total_pages: i64 = if per_page > 0 {
            (total_items + per_page - 1) / per_page
        } else {
            0
        };
        PaginationMeta {
            current_page,
            per_page,
            total_items,
            total_pages,
            has_previous: current_page > 1,
            has_next: current_page < total_pages,
        }
    }
}

/// One page of results with its metadata.
#[derive(Debug)]
pub struct PaginatedResponse<T> {
    /// The items of this page.
    pub data: Vec<T>,
    /// The page's metadata.
    pub pagination: PaginationMeta,
}

impl<T> PaginatedResponse<T> {
    /// Bundles one page of results with its metadata.
    pub fn new(data: Vec<T>, pagination: PaginationMeta) -> (r: PaginatedResponse<T>)
        ensures
            r.data == data,
            r.pagination == pagination,
    {
        PaginatedResponse { data, pagination }
    }
}

} // verus!
