//! Page-based listing: which slice of a listing a page holds, and the page
//! metadata returned beside it.

use vstd::prelude::*;

verus! {

pub const DEFAULT_PAGE: i64 = 1;

pub const DEFAULT_PER_PAGE: i64 = 10;

/// The page asked for, after defaults: 1-based, both positive.
#[derive(Debug, Clone, Copy, PartialEq, Eq, Structural)]
pub struct PaginationParams {
    pub page: i64,
    pub per_page: i64,
}

/// One page of a listing, with the numbers a client pages by.
#[derive(Debug, Clone)]
pub struct PaginatedResponse<T> {
    pub items: Vec<T>,
    pub total_items: i64,
    pub total_pages: i64,
    pub page: i64,
    pub per_page: i64,
}

/// A requested value, or its default where it is missing or not positive.
pub open spec fn positive_or(v: Option<i64>, default: i64) -> i64 {
    match v {
        Some(x) => if x > 0 {
            x
        } else {
            default
        },
        None => default,
    }
}

/// The number of pages that `total` items fill, `per_page` to a page.
pub open spec fn pages_for(total: int, per_page: int) -> int {
    if total % per_page == 0 {
        total / per_page
    } else {
        total / per_page + 1
    }
}

/// How many items come before a page.
pub open spec fn offset_of(page: int, per_page: int) -> int {
    (page - 1) * per_page
}

pub fn default_page() -> (r: i64)
    ensures
        r == DEFAULT_PAGE,
{
    DEFAULT_PAGE
}

pub fn default_per_page() -> (r: i64)
    ensures
        r == DEFAULT_PER_PAGE,
{
    DEFAULT_PER_PAGE
}

impl PaginationParams {
    pub open spec fn wf(self) -> bool {
        self.page > 0 && self.per_page > 0
    }

    /// The page asked for; a missing or non-positive value falls back to its
    /// default (page 1, ten to a page) instead of failing.
    pub fn from_query(page: Option<i64>, per_page: Option<i64>) -> (r: PaginationParams)
        ensures
            r.page == positive_or(page, DEFAULT_PAGE),
            r.per_page == positive_or(per_page, DEFAULT_PER_PAGE),
            r.wf(),
    {
        let page = match page {
            Some(p) if p > 0 => p,
            _ => default_page(),
        };
        let per_page = match per_page {
            Some(p) if p > 0 => p,
            _ => default_per_page(),
        };
        PaginationParams { page, per_page }
    }

    /// The number of pages that `total_items` fill.
    pub fn total_pages(self, total_items: i64) -> (r: i64)
        requires
            self.wf(),
            total_items >= 0,
        ensures
            r == pages_for(total_items as int, self.per_page as int),
    {
        let full = total_items / self.per_page;
        if total_items % self.per_page == 0 {
            full
        } else {
            assert(full < total_items) by (nonlinear_arith)
                requires
                    full == total_items / self.per_page,
                    self.per_page > 0,
                    total_items % self.per_page != 0,
                    total_items >= 0,
            {}
            full + 1
        }
    }

    /// The positions `[start, end)` of the items on this page, in a listing
    /// of `total` items; past the last page both are `total`.
    pub fn slice_of(self, total: usize) -> (r: (usize, usize))
        requires
            self.wf(),
        ensures
            r.0 == vstd::math::min(offset_of(self.page as int, self.per_page as int), total as int),
            r.1 == vstd::math::min(
                offset_of(self.page as int, self.per_page as int) + self.per_page,
                total as int,
            ),
    {
        let pm: i128 = self.page as i128 - 1;
        let pp: i128 = self.per_page as i128;
        assert(0 <= pm * pp <= 0x4000_0000_0000_0000_0000_0000_0000_0000) by (nonlinear_arith)
            requires
                0 <= pm < 0x8000_0000_0000_0000,
                0 < pp < 0x8000_0000_0000_0000,
        {}
        let offset: i128 = pm * pp;
        let end: i128 = offset + self.per_page as i128;
        let start = if offset < total as i128 {
            offset as usize
        } else {
            total
        };
        let stop = if end < total as i128 {
            end as usize
        } else {
            total
        };
        (start, stop)
    }
}

/// The items of one page of a listing, with its metadata.
pub fn paginate<T>(items: Vec<T>, params: PaginationParams) -> (r: PaginatedResponse<T>)
    requires
        params.wf(),
        items@.len() <= i64::MAX,
    ensures
        r.items@ == items@.subrange(
            vstd::math::min(offset_of(params.page as int, params.per_page as int), items@.len() as int),
            vstd::math::min(
                offset_of(params.page as int, params.per_page as int) + params.per_page,
                items@.len() as int,
            ),
        ),
        r.total_items == items@.len(),
        r.total_pages == pages_for(items@.len() as int, params.per_page as int),
        r.page == params.page,
        r.per_page == params.per_page,
{
    let total = items.len();
    let (start, stop) = params.slice_of(total);
    let mut page_items: Vec<T> = Vec::new();
    let mut rest = items;
    let mut i: usize = 0;
    let ghost all = rest@;
    while rest.len() > 0
        invariant
            start <= stop <= total,
            total == all.len(),
            i + rest@.len() == total,
            rest@ == all.subrange(i as int, total as int),
            i <= start ==> page_items@.len() == 0,
            start <= i <= stop ==> page_items@ == all.subrange(start as int, i as int),
            i > stop ==> page_items@ == all.subrange(start as int, stop as int),
        decreases rest@.len(),
    {
        let item = rest.remove(0);
        proof {
            assert(item == all[i as int]);
            assert(rest@ =~= all.subrange(i + 1, total as int));
        }
        if start <= i && i < stop {
            page_items.push(item);
            proof {
                assert(page_items@ =~= all.subrange(start as int, i + 1));
            }
        }
        i = i + 1;
    }
    proof {
        assert(page_items@ =~= all.subrange(start as int, stop as int));
    }
    PaginatedResponse {
        items: page_items,
        total_items: total as i64,
        total_pages: params.total_pages(total as i64),
        page: params.page,
        per_page: params.per_page,
    }
}

} // verus!
