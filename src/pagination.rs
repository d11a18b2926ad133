use vstd::prelude::*;

use crate::error::ValidationError;
use crate::status::{Status, status_named};

verus! {

pub const DEFAULT_LIMIT: i64 = 10;

pub const MAX_LIMIT: i64 = 100;

/// The least number of pages of `limit` items that hold `total` items.
pub open spec fn ceil_div(total: int, limit: int) -> int {
    if total % limit == 0 {
        total / limit
    } else {
        total / limit + 1
    }
}

/// Page and page size as a client asks for them; either may be left out.
#[derive(Clone, Copy, Debug)]
pub struct PaginationQuery {
    pub page: Option<i64>,
    pub limit: Option<i64>,
}

/// The page actually served: 1 when none or one below 1 is asked for, and
/// at most `u32::MAX`.
pub open spec fn effective_page(page: Option<i64>) -> u32 {
    match page {
        None => 1,
        Some(p) => if p < 1 {
            1
        } else if p > u32::MAX {
            u32::MAX
        } else {
            p as u32
        },
    }
}

/// The page size actually served: 10 when none is asked for, else the asked
/// size brought into `[1, 100]`.
pub open spec fn effective_limit(limit: Option<i64>) -> u32 {
    match limit {
        None => 10,
        Some(l) => if l < 1 {
            1
        } else if l > 100 {
            100
        } else {
            l as u32
        },
    }
}

impl PaginationQuery {
    /// Refuses a page below 1 and a limit outside `[1, 100]`, page first.
    pub fn validate(&self) -> (r: Result<(), ValidationError>)
        ensures
            r matches Err(e) ==> e == ValidationError::Page || e == ValidationError::Limit,
            r == Err::<(), ValidationError>(ValidationError::Page) <==> (self.page matches Some(p)
                && p < 1),
            r is Ok <==> !(self.page matches Some(p) && p < 1) && !(self.limit matches Some(l) && (
            l < 1 || l > MAX_LIMIT)),
    {
        if let Some(page) = self.page {
            if page < 1 {
                return Err(ValidationError::Page);
            }
        }
        if let Some(limit) = self.limit {
            if limit < 1 || limit > MAX_LIMIT {
                return Err(ValidationError::Limit);
            }
        }
        Ok(())
    }

    /// The page to serve.
    pub fn page(&self) -> (r: u32)
        ensures
            r == effective_page(self.page),
            r >= 1,
    {
        match self.page {
            None => 1,
            Some(p) => if p < 1 {
                1
            } else if p > u32::MAX as i64 {
                u32::MAX
            } else {
                p as u32
            },
        }
    }

    /// The page size to serve.
    pub fn limit(&self) -> (r: u32)
        ensures
            r == effective_limit(self.limit),
            1 <= r <= 100,
    {
        match self.limit {
            None => DEFAULT_LIMIT as u32,
            Some(l) => if l < 1 {
                1
            } else if l > MAX_LIMIT {
                MAX_LIMIT as u32
            } else {
                l as u32
            },
        }
    }
}

/// A listing request: page (from 1), page size, and an optional status
/// filter by wire name.
#[derive(Clone, Debug)]
pub struct GetTicketPageQuery {
    pub page: u32,
    pub limit: u32,
    pub status: Option<String>,
}

/// Why a listing request is refused, if it is: the page first, then the
/// limit, then the status.
pub open spec fn page_query_error(q: GetTicketPageQuery) -> Option<ValidationError> {
    if q.page < 1 {
        Some(ValidationError::Page)
    } else if q.limit < 1 || q.limit > 100 {
        Some(ValidationError::Limit)
    } else if q.status matches Some(s) && status_named(s@) is None {
        Some(ValidationError::Status)
    } else {
        None
    }
}

/// The status filter of a listing request.
pub open spec fn page_query_filter(q: GetTicketPageQuery) -> Option<Status> {
    match q.status {
        Some(s) => status_named(s@),
        None => None,
    }
}

impl GetTicketPageQuery {
    /// Checks the request and reads its status filter.
    pub fn validate(&self) -> (r: Result<Option<Status>, ValidationError>)
        ensures
            r is Ok <==> page_query_error(*self) is None,
            r matches Ok(f) ==> f == page_query_filter(*self),
            r matches Err(e) ==> page_query_error(*self) == Some(e),
    {
        if self.page < 1 {
            return Err(ValidationError::Page);
        }
        if self.limit < 1 || self.limit > MAX_LIMIT as u32 {
            return Err(ValidationError::Limit);
        }
        match &self.status {
            Some(s) => match Status::parse(s.as_str()) {
                Some(st) => Ok(Some(st)),
                None => Err(ValidationError::Status),
            },
            None => Ok(None),
        }
    }
}

/// One page of items, with the total count and the number of pages.
#[derive(Debug)]
pub struct PaginatedResponse<T> {
    pub items: Vec<T>,
    pub page: u32,
    pub limit: u32,
    pub total_items: u32,
    pub total_pages: u32,
}

impl<T> PaginatedResponse<T> {
    /// Wraps a page of items; the number of pages is `ceil(total_items / limit)`.
    pub fn new(items: Vec<T>, page: u32, limit: u32, total_items: u32) -> (r: Self)
        requires
            limit >= 1,
        ensures
            r.items == items,
            r.page == page,
            r.limit == limit,
            r.total_items == total_items,
            r.total_pages == ceil_div(total_items as int, limit as int),
    {
        let whole = total_items / limit;
        let total_pages = if total_items % limit == 0 {
            whole
        } else {
            assert(limit >= 2 && whole * limit <= total_items) by (nonlinear_arith)
                requires
                    limit >= 1,
                    whole == total_items / limit,
                    total_items % limit != 0,
            ;
            assert(whole < 0xFFFF_FFFFu32) by (nonlinear_arith)
                requires
                    limit >= 2,
                    whole * limit <= total_items,
                    total_items <= 0xFFFF_FFFFu32,
            ;
            whole + 1
        };
        PaginatedResponse { items, page, limit, total_items, total_pages }
    }
}

/// `ceil_div(t, l)` pages of `l` items hold all `t` items, and one page
/// fewer would not.
pub proof fn lemma_ceil_div_is_ceiling(t: int, l: int)
    requires
        t >= 0,
        l >= 1,
    ensures
        ceil_div(t, l) * l >= t,
        (ceil_div(t, l) - 1) * l < t || t == 0,
        ceil_div(t, l) >= 0,
{
    let q = t / l;
    let r = t % l;
    assert(t == q * l + r && 0 <= r < l) by (nonlinear_arith)
        requires
            l >= 1,
            q == t / l,
            r == t % l,
    ;
    assert(q >= 0) by (nonlinear_arith)
        requires
            t >= 0,
            l >= 1,
            q == t / l,
    ;
    if r == 0 {
        assert(q * l >= t);
        assert((q - 1) * l < t || t == 0) by (nonlinear_arith)
            requires
                t == q * l,
                l >= 1,
                q >= 0,
        ;
    } else {
        assert((q + 1) * l >= t) by (nonlinear_arith)
            requires
                t == q * l + r,
                r < l,
        ;
        assert(q * l < t);
    }
}

} // verus!
