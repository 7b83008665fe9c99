//! Page/limit/offset arithmetic shared by every listing endpoint.

use vstd::prelude::*;

verus! {

/// One page of a listing, with the totals a client needs to draw a pager.
pub struct PaginatedResponse<T> {
    pub items: Vec<T>,
    pub total_items: u64,
    pub total_pages: u64,
    pub current_page: u64,
}

/// Query string of a paginated request: a page number, or a raw offset, and a limit.
pub struct PaginationQuery {
    pub page: Option<u64>,
    pub limit: Option<u64>,
    pub offset: Option<u64>,
}

/// Default page size when the client names none.
pub const DEFAULT_LIMIT: u64 = 20;

/// Largest page size a client may ask for.
pub const MAX_LIMIT: u64 = 100;

impl PaginationQuery {
    /// The page size: the requested limit (20 by default) clamped into `1..=100`.
    pub open spec fn spec_limit(self) -> u64 {
        let l = match self.limit {
            Some(l) => l,
            None => DEFAULT_LIMIT,
        };
        if l < 1 {
            1
        } else if l > MAX_LIMIT {
            MAX_LIMIT
        } else {
            l
        }
    }

    /// The 1-based page: an explicit page (at least 1) wins; otherwise the page that
    /// holds the requested offset; otherwise the first page.
    pub open spec fn spec_page(self) -> int {
        match self.page {
            Some(p) => if p < 1 { 1 } else { p as int },
            None => match self.offset {
                Some(off) => off as int / self.spec_limit() as int + 1,
                None => 1,
            },
        }
    }

    /// The row offset: an explicit offset wins; otherwise the first row of the page.
    pub open spec fn spec_offset(self) -> int {
        match self.offset {
            Some(off) => off as int,
            None => (self.spec_page() - 1) * self.spec_limit(),
        }
    }

    /// The page number fits in a `u64`.
    pub open spec fn page_fits(self) -> bool {
        self.spec_page() <= u64::MAX
    }

    /// The offset fits in a `u64`.
    pub open spec fn offset_fits(self) -> bool {
        self.page_fits() && self.spec_offset() <= u64::MAX
    }

    pub fn page_num(&self) -> (p: u64)
        requires
            self.page_fits(),
        ensures
            p == self.spec_page(),
            p >= 1,
    {
        if let Some(p) = self.page {
            if p < 1 {
                return 1;
            }
            return p;
        }
        if let Some(off) = self.offset {
            let lim = self.limit_num();
            return (off / lim) + 1;
        }
        1
    }

    pub fn limit_num(&self) -> (l: u64)
        ensures
            l == self.spec_limit(),
            1 <= l <= MAX_LIMIT,
    {
        let l = match self.limit {
            Some(l) => l,
            None => DEFAULT_LIMIT,
        };
        if l < 1 {
            1
        } else if l > MAX_LIMIT {
            MAX_LIMIT
        } else {
            l
        }
    }

    pub fn offset(&self) -> (o: u64)
        requires
            self.offset_fits(),
        ensures
            o == self.spec_offset(),
    {
        if let Some(off) = self.offset {
            return off;
        }
        let page = self.page_num();
        let lim = self.limit_num();
        proof {
            assert((page - 1) * lim == self.spec_offset());
        }
        (page - 1) * lim
    }
}

/// A query that names an offset at a page boundary, and the query that names the
/// page holding that offset instead, select the same window of rows.
pub proof fn lemma_offset_page_round_trip(limit: Option<u64>, off: u64)
    requires
        (PaginationQuery { page: None, limit, offset: Some(off) }).page_fits(),
        off % (PaginationQuery { page: None, limit, offset: Some(off) }).spec_limit() == 0,
    ensures
        ({
            let by_offset = PaginationQuery { page: None, limit, offset: Some(off) };
            let by_page = PaginationQuery {
                page: Some(by_offset.spec_page() as u64),
                limit,
                offset: None,
            };
            &&& by_page.spec_offset() == off
            &&& by_page.spec_page() == by_offset.spec_page()
        }),
{
    let q = PaginationQuery { page: None, limit, offset: Some(off) };
    let l = q.spec_limit() as int;
    let p = q.spec_page();
    assert(off as int == (off as int / l) * l) by (nonlinear_arith)
        requires
            l >= 1,
            off as int % l == 0,
    ;
    assert(p - 1 == off as int / l);
}

/// A page-numbered query and the query that names its first row as an offset select
/// the same page.
pub proof fn lemma_page_offset_round_trip(page: u64, limit: Option<u64>)
    requires
        page >= 1,
        (PaginationQuery { page: Some(page), limit, offset: None }).offset_fits(),
    ensures
        ({
            let by_page = PaginationQuery { page: Some(page), limit, offset: None };
            let by_offset = PaginationQuery {
                page: None,
                limit,
                offset: Some(by_page.spec_offset() as u64),
            };
            &&& by_offset.spec_page() == page
            &&& by_offset.spec_offset() == by_page.spec_offset()
        }),
{
    let q = PaginationQuery { page: Some(page), limit, offset: None };
    let l = q.spec_limit() as int;
    let o = (page - 1) * l;
    assert(o / l == page - 1) by (nonlinear_arith)
        requires
            l >= 1,
            page >= 1,
            o == (page - 1) * l,
    ;
}

/// The page size is always between 1 and 100, and the page number is at least 1.
pub proof fn lemma_pagination_bounds(q: PaginationQuery)
    ensures
        1 <= q.spec_limit() <= MAX_LIMIT,
        q.spec_page() >= 1,
        q.spec_offset() >= 0,
{
    let l = q.spec_limit() as int;
    if q.offset is None {
        assert((q.spec_page() - 1) * l >= 0) by (nonlinear_arith)
            requires
                q.spec_page() >= 1,
                l >= 1,
        ;
    }
}

} // verus!
