//! Options shared by the listing commands.

use vstd::prelude::*;

verus! {

/// Filtering and paging options of a listing command.
#[derive(Debug, Clone)]
pub struct ListOptions {
    filter: Option<String>,
    offset: Option<u32>,
    limit: Option<u32>,
    all: bool,
    csv: bool,
}

impl ListOptions {
    pub closed spec fn filter_view(&self) -> Option<String> {
        self.filter
    }

    pub closed spec fn offset_view(&self) -> Option<u32> {
        self.offset
    }

    pub closed spec fn limit_view(&self) -> Option<u32> {
        self.limit
    }

    pub closed spec fn all_view(&self) -> bool {
        self.all
    }

    pub closed spec fn csv_view(&self) -> bool {
        self.csv
    }

    pub fn new(filter: Option<String>, offset: Option<u32>, limit: Option<u32>, all: bool, csv: bool) -> (o: Self)
        ensures
            o.filter_view() == filter,
            o.offset_view() == offset,
            o.limit_view() == limit,
            o.all_view() == all,
            o.csv_view() == csv,
    {
        ListOptions { filter, offset, limit, all, csv }
    }

    pub fn filter(&self) -> (f: &Option<String>)
        ensures
            *f == self.filter_view(),
    {
        &self.filter
    }

    pub fn offset(&self) -> (o: Option<u32>)
        ensures
            o == self.offset_view(),
    {
        self.offset
    }

    pub fn limit(&self) -> (l: Option<u32>)
        ensures
            l == self.limit_view(),
    {
        self.limit
    }

    pub fn all(&self) -> (a: bool)
        ensures
            a == self.all_view(),
    {
        self.all
    }

    pub fn csv(&self) -> (c: bool)
        ensures
            c == self.csv_view(),
    {
        self.csv
    }
}

/// The kind of container a create command makes.
#[derive(Debug, Clone, Copy, PartialEq, Eq, Structural)]
pub enum CreateContainerType {
    Folder,
    Room,
}

} // verus!
