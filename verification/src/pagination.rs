//! Page and id parameters of the list queries.

use vstd::prelude::*;

verus! {

/// The page asked for when none is named.
pub const DEFAULT_PAGE: i64 = 1;

/// The page size asked for when none is named.
pub const DEFAULT_PAGE_SIZE: i64 = 10;

/// Why a query's parameters are refused.
#[derive(Clone, Copy, Debug, PartialEq, Eq, Structural)]
pub enum QueryError {
    /// The page or the page size is below one.
    NonPositivePage,
    /// The id is missing or below one.
    NonPositiveId,
    /// The rows to skip are more than can be counted.
    OffsetOverflow,
}

/// The page of a list, as a query names it.
#[derive(Clone, Copy, Debug, PartialEq, Eq, Structural)]
pub struct PaginationParams {
    pub page: Option<i64>,
    pub page_size: Option<i64>,
}

/// A page with its size and the number of rows before it.
#[derive(Clone, Copy, Debug, PartialEq, Eq, Structural)]
pub struct Page {
    pub page: i64,
    pub page_size: i64,
    pub offset: i64,
}

/// The id of one row, as a query names it.
#[derive(Clone, Copy, Debug, PartialEq, Eq, Structural)]
pub struct GetSingleParams {
    pub id: Option<i64>,
}

impl PaginationParams {
    pub open spec fn page_or_default(self) -> i64 {
        match self.page {
            Some(page) => page,
            None => DEFAULT_PAGE,
        }
    }

    pub open spec fn page_size_or_default(self) -> i64 {
        match self.page_size {
            Some(size) => size,
            None => DEFAULT_PAGE_SIZE,
        }
    }

    /// The page that the parameters name: page 1 and 10 rows where they
    /// name none, refused where either is below one, with
    /// `(page - 1) * page_size` rows before it.
    pub open spec fn resolved(self) -> Result<Page, QueryError> {
        let page = self.page_or_default();
        let page_size = self.page_size_or_default();
        if page < 1 || page_size < 1 {
            Err(QueryError::NonPositivePage)
        } else if (page - 1) * page_size > i64::MAX {
            Err(QueryError::OffsetOverflow)
        } else {
            Ok(Page { page, page_size, offset: ((page - 1) * page_size) as i64 })
        }
    }

    pub fn resolve(&self) -> (result: Result<Page, QueryError>)
        ensures
            result == self.resolved(),
    {
        let page = self.page.unwrap_or(DEFAULT_PAGE);
        let page_size = self.page_size.unwrap_or(DEFAULT_PAGE_SIZE);
        if page < 1 || page_size < 1 {
            return Err(QueryError::NonPositivePage);
        }
        assert((page - 1) * page_size >= 0) by (nonlinear_arith)
            requires
                page >= 1,
                page_size >= 1,
        ;
        match (page - 1).checked_mul(page_size) {
            Some(offset) => Ok(Page { page, page_size, offset }),
            None => Err(QueryError::OffsetOverflow),
        }
    }
}

impl GetSingleParams {
    /// The id that the parameters name, refused where it is missing or
    /// below one.
    pub open spec fn resolved(self) -> Result<i64, QueryError> {
        match self.id {
            Some(id) if id >= 1 => Ok(id),
            _ => Err(QueryError::NonPositiveId),
        }
    }

    pub fn resolve(&self) -> (result: Result<i64, QueryError>)
        ensures
            result == self.resolved(),
    {
        let id = self.id.unwrap_or(0);
        if id < 1 {
            Err(QueryError::NonPositiveId)
        } else {
            Ok(id)
        }
    }
}

} // verus!
