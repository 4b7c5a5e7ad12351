//! Models shared by all API calls: filter and sort operators, list parameters
//! and the paging information of list responses.

use vstd::prelude::*;
use crate::text::{append_str, dec, string_of, u64_to_string};

verus! {

/// The comparison of a filter expression.
#[derive(Debug, Clone, Copy, PartialEq, Eq, Structural)]
pub enum FilterOperator {
    Eq,
    Cn,
    Neq,
    Ge,
    Le,
}

/// The text of a filter operator in a query.
pub open spec fn filter_operator_spec(op: FilterOperator) -> Seq<char> {
    match op {
        FilterOperator::Eq => "eq"@,
        FilterOperator::Cn => "cn"@,
        FilterOperator::Neq => "neq"@,
        FilterOperator::Ge => "ge"@,
        FilterOperator::Le => "le"@,
    }
}

impl FilterOperator {
    /// The operator as it appears in a filter expression.
    pub fn to_api_string(&self) -> (r: String)
        ensures
            r@ == filter_operator_spec(*self),
    {
        match self {
            FilterOperator::Eq => "eq".to_owned(),
            FilterOperator::Cn => "cn".to_owned(),
            FilterOperator::Neq => "neq".to_owned(),
            FilterOperator::Ge => "ge".to_owned(),
            FilterOperator::Le => "le".to_owned(),
        }
    }
}

/// The direction of a sort.
#[derive(Debug, Clone, Copy, PartialEq, Eq, Structural)]
pub enum SortOrder {
    Asc,
    Desc,
}

/// The text of a sort order in a query.
pub open spec fn sort_order_spec(order: SortOrder) -> Seq<char> {
    match order {
        SortOrder::Asc => "asc"@,
        SortOrder::Desc => "desc"@,
    }
}

impl SortOrder {
    /// The order as it appears in a sort expression.
    pub fn to_api_string(&self) -> (r: String)
        ensures
            r@ == sort_order_spec(*self),
    {
        match self {
            SortOrder::Asc => "asc".to_owned(),
            SortOrder::Desc => "desc".to_owned(),
        }
    }
}

/// Something that renders as a filter expression (`field:op:value`).
pub trait FilterQuery {
    spec fn filter_spec(&self) -> Seq<char>;

    fn filter_to_string(&self) -> (r: String)
        ensures
            r@ == self.filter_spec(),
    ;
}

/// Something that renders as a sort expression (`field:order`).
pub trait SortQuery {
    spec fn sort_spec(&self) -> Seq<char>;

    fn sort_to_string(&self) -> (r: String)
        ensures
            r@ == self.sort_spec(),
    ;
}

/// Paging, filtering and sorting of a list request.
#[derive(Debug, Clone)]
pub struct ListAllParams {
    pub offset: Option<u64>,
    pub limit: Option<u64>,
    pub filter: Option<String>,
    pub sort: Option<String>,
}

/// The query string of list parameters: `?offset=N` (0 when unset), then
/// `&filter=..`, `&sort=..` and `&limit=N` for those that are set.
pub open spec fn list_query_spec(p: ListAllParams) -> Seq<char> {
    let offset = match p.offset {
        Some(o) => o,
        None => 0,
    };
    let base = "?offset="@ + dec(offset as nat);
    let with_filter = match p.filter {
        Some(f) => base + "&filter="@ + f@,
        None => base,
    };
    let with_sort = match p.sort {
        Some(s) => with_filter + "&sort="@ + s@,
        None => with_filter,
    };
    match p.limit {
        Some(l) => with_sort + "&limit="@ + dec(l as nat),
        None => with_sort,
    }
}

impl ListAllParams {
    /// Parameters that start at offset 0 with nothing else set.
    pub fn default_params() -> (p: Self)
        ensures
            p.offset == Some(0u64),
            p.limit is None,
            p.filter is None,
            p.sort is None,
    {
        ListAllParams { offset: Some(0), limit: None, filter: None, sort: None }
    }

    /// A builder that starts from the default parameters.
    pub fn builder() -> (b: ListAllParamsBuilder)
        ensures
            b.params.offset == Some(0u64),
            b.params.limit is None,
            b.params.filter is None,
            b.params.sort is None,
    {
        ListAllParamsBuilder::new()
    }

    /// The parameters as a query string (see `list_query_spec`).
    pub fn to_query_string(&self) -> (r: String)
        ensures
            r@ == list_query_spec(*self),
    {
        let mut v: Vec<char> = Vec::new();
        append_str(&mut v, "?offset=");
        let offset = match self.offset {
            Some(o) => o,
            None => 0,
        };
        append_str(&mut v, u64_to_string(offset).as_str());
        if let Some(f) = &self.filter {
            append_str(&mut v, "&filter=");
            append_str(&mut v, f.as_str());
        }
        if let Some(s) = &self.sort {
            append_str(&mut v, "&sort=");
            append_str(&mut v, s.as_str());
        }
        if let Some(l) = self.limit {
            append_str(&mut v, "&limit=");
            append_str(&mut v, u64_to_string(l).as_str());
        }
        string_of(v.as_slice())
    }
}

impl Default for ListAllParams {
    fn default() -> (p: Self)
        ensures
            p.offset == Some(0u64),
            p.limit is None,
            p.filter is None,
            p.sort is None,
    {
        Self::default_params()
    }
}

/// Builds `ListAllParams` step by step.
pub struct ListAllParamsBuilder {
    pub params: ListAllParams,
}

impl ListAllParamsBuilder {
    pub fn new() -> (b: Self)
        ensures
            b.params.offset == Some(0u64),
            b.params.limit is None,
            b.params.filter is None,
            b.params.sort is None,
    {
        ListAllParamsBuilder { params: ListAllParams::default_params() }
    }

    pub fn with_offset(self, offset: u64) -> (b: Self)
        ensures
            b.params == (ListAllParams { offset: Some(offset), ..self.params }),
    {
        let mut s = self;
        s.params.offset = Some(offset);
        s
    }

    pub fn with_limit(self, limit: u64) -> (b: Self)
        ensures
            b.params == (ListAllParams { limit: Some(limit), ..self.params }),
    {
        let mut s = self;
        s.params.limit = Some(limit);
        s
    }

    pub fn with_filter(self, filter: String) -> (b: Self)
        ensures
            b.params == (ListAllParams { filter: Some(filter), ..self.params }),
    {
        let mut s = self;
        s.params.filter = Some(filter);
        s
    }

    pub fn with_sort(self, sort: String) -> (b: Self)
        ensures
            b.params == (ListAllParams { sort: Some(sort), ..self.params }),
    {
        let mut s = self;
        s.params.sort = Some(sort);
        s
    }

    pub fn build(self) -> (p: ListAllParams)
        ensures
            p == self.params,
    {
        self.params
    }
}

impl Default for ListAllParamsBuilder {
    fn default() -> (b: Self)
        ensures
            b.params.offset == Some(0u64),
            b.params.limit is None,
            b.params.filter is None,
            b.params.sort is None,
    {
        Self::new()
    }
}

/// The paging information of a list response.
#[derive(Debug, Clone, Copy, PartialEq, Eq, Structural)]
pub struct Range {
    pub offset: u64,
    pub limit: u64,
    pub total: u64,
}

/// An optional expiry date.
#[derive(Debug, Clone, Default)]
pub struct ObjectExpiration {
    pub enable_expiration: bool,
    pub expire_at: Option<String>,
}

/// One page of a list response.
#[derive(Debug, Clone)]
pub struct RangedItems<T> {
    pub range: Range,
    pub items: Vec<T>,
}

} // verus!
