use vstd::prelude::*;

verus! {

/// A requested page; either part may be left out.
#[derive(Clone, Copy, Debug, PartialEq, Eq, Structural)]
pub struct PaginationQuery {
    pub page: Option<i64>,
    pub per_page: Option<i64>,
}

/// The page asked for, 1 when absent, at least 1.
pub open spec fn page_of(query: PaginationQuery) -> int {
    let p = match query.page {
        Some(p) => p as int,
        None => 1,
    };
    if p < 1 { 1 } else { p }
}

/// The page size asked for, 20 when absent, clamped to `[1, max_per_page]`.
pub open spec fn per_page_of(query: PaginationQuery, max_per_page: i64) -> int {
    let n = match query.per_page {
        Some(n) => n as int,
        None => 20,
    };
    if n < 1 { 1 } else if n > max_per_page { max_per_page as int } else { n }
}

/// Normalises a page request to (page, per_page, offset of its first item).
pub fn normalize_pagination(query: &PaginationQuery, max_per_page: i64) -> (r: (i64, i64, i64))
    requires
        max_per_page >= 1,
        (page_of(*query) - 1) * per_page_of(*query, max_per_page) <= i64::MAX,
    ensures
        r.0 == page_of(*query),
        r.1 == per_page_of(*query, max_per_page),
        r.2 == (page_of(*query) - 1) * per_page_of(*query, max_per_page),
{
    let requested: i64 = match query.page {
        Some(p) => p,
        None => 1,
    };
    let page: i64 = if requested < 1 { 1 } else { requested };
    let size: i64 = match query.per_page {
        Some(n) => n,
        None => 20,
    };
    let per_page: i64 = if size < 1 { 1 } else if size > max_per_page { max_per_page } else { size };
    assert(0 <= (page - 1) * per_page) by (nonlinear_arith)
        requires page >= 1, per_page >= 1;
    let offset = (page - 1) * per_page;
    (page, per_page, offset)
}

/// The number of pages that hold `total` items, `per_page` to a page.
pub open spec fn pages_for(total: int, per_page: int) -> int {
    if total <= 0 { 0 } else { (total + per_page - 1) / per_page }
}

pub fn total_pages(total: i64, per_page: i64) -> (r: i64)
    requires
        per_page >= 1,
        total + per_page - 1 <= i64::MAX,
    ensures
        r == pages_for(total as int, per_page as int),
{
    if total <= 0 {
        0
    } else {
        (total + (per_page - 1)) / per_page
    }
}

} // verus!
