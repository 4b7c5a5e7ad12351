//! Sort orders of node listings and searches, rendered as `field:order`.

use vstd::prelude::*;
use crate::api::models::{sort_order_spec, SortOrder, SortQuery};
use crate::text::{append_str, string_of};

verus! {

/// A sort expression: `field:order`.
pub open spec fn sort_expr(field: Seq<char>, order: SortOrder) -> Seq<char> {
    field + ":"@ + sort_order_spec(order)
}

fn sort_expr_string(field: &str, order: SortOrder) -> (r: String)
    ensures
        r@ == sort_expr(field@, order),
{
    let mut v: Vec<char> = Vec::new();
    append_str(&mut v, field);
    append_str(&mut v, ":");
    append_str(&mut v, order.to_api_string().as_str());
    string_of(v.as_slice())
}

/// The sort of a node listing.
#[derive(Debug, Clone, Copy, PartialEq, Eq, Structural)]
pub enum NodesSortBy {
    Name(SortOrder),
    CreatedAt(SortOrder),
    CreatedBy(SortOrder),
    UpdatedAt(SortOrder),
    UpdatedBy(SortOrder),
    FileType(SortOrder),
    Classification(SortOrder),
    Size(SortOrder),
    CntDeletedVersions(SortOrder),
    TimestampCreation(SortOrder),
    TimestampModification(SortOrder),
}

impl SortQuery for NodesSortBy {
    open spec fn sort_spec(&self) -> Seq<char> {
        match self {
            NodesSortBy::Name(order) => sort_expr("name"@, *order),
            NodesSortBy::CreatedAt(order) => sort_expr("createdAt"@, *order),
            NodesSortBy::CreatedBy(order) => sort_expr("createdBy"@, *order),
            NodesSortBy::UpdatedAt(order) => sort_expr("updatedAt"@, *order),
            NodesSortBy::UpdatedBy(order) => sort_expr("updatedBy"@, *order),
            NodesSortBy::FileType(order) => sort_expr("fileType"@, *order),
            NodesSortBy::Classification(order) => sort_expr("classification"@, *order),
            NodesSortBy::Size(order) => sort_expr("size"@, *order),
            NodesSortBy::CntDeletedVersions(order) => sort_expr("cntDeletedVersions"@, *order),
            NodesSortBy::TimestampCreation(order) => sort_expr("timestampCreation"@, *order),
            NodesSortBy::TimestampModification(order) => sort_expr("timestampModification"@, *order),
        }
    }

    fn sort_to_string(&self) -> (r: String) {
        match self {
            NodesSortBy::Name(order) => sort_expr_string("name", *order),
            NodesSortBy::CreatedAt(order) => sort_expr_string("createdAt", *order),
            NodesSortBy::CreatedBy(order) => sort_expr_string("createdBy", *order),
            NodesSortBy::UpdatedAt(order) => sort_expr_string("updatedAt", *order),
            NodesSortBy::UpdatedBy(order) => sort_expr_string("updatedBy", *order),
            NodesSortBy::FileType(order) => sort_expr_string("fileType", *order),
            NodesSortBy::Classification(order) => sort_expr_string("classification", *order),
            NodesSortBy::Size(order) => sort_expr_string("size", *order),
            NodesSortBy::CntDeletedVersions(order) => sort_expr_string("cntDeletedVersions", *order),
            NodesSortBy::TimestampCreation(order) => sort_expr_string("timestampCreation", *order),
            NodesSortBy::TimestampModification(order) => sort_expr_string("timestampModification", *order),
        }
    }
}

/// The sort of a node search.
#[derive(Debug, Clone, Copy, PartialEq, Eq, Structural)]
pub enum NodesSearchSortBy {
    Name(SortOrder),
    CreatedAt(SortOrder),
    CreatedBy(SortOrder),
    UpdatedAt(SortOrder),
    UpdatedBy(SortOrder),
    FileType(SortOrder),
    Classification(SortOrder),
    Size(SortOrder),
    CntDeletedVersions(SortOrder),
    Type(SortOrder),
    ParentPath(SortOrder),
    TimestampCreation(SortOrder),
    TimestampModification(SortOrder),
}

impl SortQuery for NodesSearchSortBy {
    open spec fn sort_spec(&self) -> Seq<char> {
        match self {
            NodesSearchSortBy::Name(order) => sort_expr("name"@, *order),
            NodesSearchSortBy::CreatedAt(order) => sort_expr("createdAt"@, *order),
            NodesSearchSortBy::CreatedBy(order) => sort_expr("createdBy"@, *order),
            NodesSearchSortBy::UpdatedAt(order) => sort_expr("updatedAt"@, *order),
            NodesSearchSortBy::UpdatedBy(order) => sort_expr("updatedBy"@, *order),
            NodesSearchSortBy::FileType(order) => sort_expr("fileType"@, *order),
            NodesSearchSortBy::Classification(order) => sort_expr("classification"@, *order),
            NodesSearchSortBy::Size(order) => sort_expr("size"@, *order),
            NodesSearchSortBy::CntDeletedVersions(order) => sort_expr("cntDeletedVersions"@, *order),
            NodesSearchSortBy::Type(order) => sort_expr("type"@, *order),
            NodesSearchSortBy::ParentPath(order) => sort_expr("parentPath"@, *order),
            NodesSearchSortBy::TimestampCreation(order) => sort_expr("timestampCreation"@, *order),
            NodesSearchSortBy::TimestampModification(order) => sort_expr("timestampModification"@, *order),
        }
    }

    fn sort_to_string(&self) -> (r: String) {
        match self {
            NodesSearchSortBy::Name(order) => sort_expr_string("name", *order),
            NodesSearchSortBy::CreatedAt(order) => sort_expr_string("createdAt", *order),
            NodesSearchSortBy::CreatedBy(order) => sort_expr_string("createdBy", *order),
            NodesSearchSortBy::UpdatedAt(order) => sort_expr_string("updatedAt", *order),
            NodesSearchSortBy::UpdatedBy(order) => sort_expr_string("updatedBy", *order),
            NodesSearchSortBy::FileType(order) => sort_expr_string("fileType", *order),
            NodesSearchSortBy::Classification(order) => sort_expr_string("classification", *order),
            NodesSearchSortBy::Size(order) => sort_expr_string("size", *order),
            NodesSearchSortBy::CntDeletedVersions(order) => sort_expr_string("cntDeletedVersions", *order),
            NodesSearchSortBy::Type(order) => sort_expr_string("type", *order),
            NodesSearchSortBy::ParentPath(order) => sort_expr_string("parentPath", *order),
            NodesSearchSortBy::TimestampCreation(order) => sort_expr_string("timestampCreation", *order),
            NodesSearchSortBy::TimestampModification(order) => sort_expr_string("timestampModification", *order),
        }
    }
}

impl NodesSearchSortBy {
    pub fn parent_path_asc() -> (s: Self)
        ensures
            s == NodesSearchSortBy::ParentPath(SortOrder::Asc),
    {
        NodesSearchSortBy::ParentPath(SortOrder::Asc)
    }

    pub fn parent_path_desc() -> (s: Self)
        ensures
            s == NodesSearchSortBy::ParentPath(SortOrder::Desc),
    {
        NodesSearchSortBy::ParentPath(SortOrder::Desc)
    }

    pub fn name_asc() -> (s: Self)
        ensures
            s == NodesSearchSortBy::Name(SortOrder::Asc),
    {
        NodesSearchSortBy::Name(SortOrder::Asc)
    }

    pub fn name_desc() -> (s: Self)
        ensures
            s == NodesSearchSortBy::Name(SortOrder::Desc),
    {
        NodesSearchSortBy::Name(SortOrder::Desc)
    }

    pub fn created_at_asc() -> (s: Self)
        ensures
            s == NodesSearchSortBy::CreatedAt(SortOrder::Asc),
    {
        NodesSearchSortBy::CreatedAt(SortOrder::Asc)
    }

    pub fn created_at_desc() -> (s: Self)
        ensures
            s == NodesSearchSortBy::CreatedAt(SortOrder::Desc),
    {
        NodesSearchSortBy::CreatedAt(SortOrder::Desc)
    }

    pub fn created_by_asc() -> (s: Self)
        ensures
            s == NodesSearchSortBy::CreatedBy(SortOrder::Asc),
    {
        NodesSearchSortBy::CreatedBy(SortOrder::Asc)
    }

    pub fn created_by_desc() -> (s: Self)
        ensures
            s == NodesSearchSortBy::CreatedBy(SortOrder::Desc),
    {
        NodesSearchSortBy::CreatedBy(SortOrder::Desc)
    }

    pub fn updated_at_asc() -> (s: Self)
        ensures
            s == NodesSearchSortBy::UpdatedAt(SortOrder::Asc),
    {
        NodesSearchSortBy::UpdatedAt(SortOrder::Asc)
    }

    pub fn updated_at_desc() -> (s: Self)
        ensures
            s == NodesSearchSortBy::UpdatedAt(SortOrder::Desc),
    {
        NodesSearchSortBy::UpdatedAt(SortOrder::Desc)
    }

    pub fn updated_by_asc() -> (s: Self)
        ensures
            s == NodesSearchSortBy::UpdatedBy(SortOrder::Asc),
    {
        NodesSearchSortBy::UpdatedBy(SortOrder::Asc)
    }

    pub fn updated_by_desc() -> (s: Self)
        ensures
            s == NodesSearchSortBy::UpdatedBy(SortOrder::Desc),
    {
        NodesSearchSortBy::UpdatedBy(SortOrder::Desc)
    }

    pub fn file_type_asc() -> (s: Self)
        ensures
            s == NodesSearchSortBy::FileType(SortOrder::Asc),
    {
        NodesSearchSortBy::FileType(SortOrder::Asc)
    }

    pub fn file_type_desc() -> (s: Self)
        ensures
            s == NodesSearchSortBy::FileType(SortOrder::Desc),
    {
        NodesSearchSortBy::FileType(SortOrder::Desc)
    }

    pub fn classification_asc() -> (s: Self)
        ensures
            s == NodesSearchSortBy::Classification(SortOrder::Asc),
    {
        NodesSearchSortBy::Classification(SortOrder::Asc)
    }

    pub fn classification_desc() -> (s: Self)
        ensures
            s == NodesSearchSortBy::Classification(SortOrder::Desc),
    {
        NodesSearchSortBy::Classification(SortOrder::Desc)
    }

    pub fn size_asc() -> (s: Self)
        ensures
            s == NodesSearchSortBy::Size(SortOrder::Asc),
    {
        NodesSearchSortBy::Size(SortOrder::Asc)
    }

    pub fn size_desc() -> (s: Self)
        ensures
            s == NodesSearchSortBy::Size(SortOrder::Desc),
    {
        NodesSearchSortBy::Size(SortOrder::Desc)
    }

    pub fn cnt_deleted_versions_asc() -> (s: Self)
        ensures
            s == NodesSearchSortBy::CntDeletedVersions(SortOrder::Asc),
    {
        NodesSearchSortBy::CntDeletedVersions(SortOrder::Asc)
    }

    pub fn cnt_deleted_versions_desc() -> (s: Self)
        ensures
            s == NodesSearchSortBy::CntDeletedVersions(SortOrder::Desc),
    {
        NodesSearchSortBy::CntDeletedVersions(SortOrder::Desc)
    }

    pub fn type_asc() -> (s: Self)
        ensures
            s == NodesSearchSortBy::Type(SortOrder::Asc),
    {
        NodesSearchSortBy::Type(SortOrder::Asc)
    }

    pub fn type_desc() -> (s: Self)
        ensures
            s == NodesSearchSortBy::Type(SortOrder::Desc),
    {
        NodesSearchSortBy::Type(SortOrder::Desc)
    }

    pub fn timestamp_creation_asc() -> (s: Self)
        ensures
            s == NodesSearchSortBy::TimestampCreation(SortOrder::Asc),
    {
        NodesSearchSortBy::TimestampCreation(SortOrder::Asc)
    }

    pub fn timestamp_creation_desc() -> (s: Self)
        ensures
            s == NodesSearchSortBy::TimestampCreation(SortOrder::Desc),
    {
        NodesSearchSortBy::TimestampCreation(SortOrder::Desc)
    }

    pub fn timestamp_modification_asc() -> (s: Self)
        ensures
            s == NodesSearchSortBy::TimestampModification(SortOrder::Asc),
    {
        NodesSearchSortBy::TimestampModification(SortOrder::Asc)
    }

    pub fn timestamp_modification_desc() -> (s: Self)
        ensures
            s == NodesSearchSortBy::TimestampModification(SortOrder::Desc),
    {
        NodesSearchSortBy::TimestampModification(SortOrder::Desc)
    }
}

/// A listing sort as query text (`field:order`, as `sort_to_string`).
impl From<NodesSortBy> for String {
    fn from(value: NodesSortBy) -> (r: String)
        ensures
            r@ == value.sort_spec(),
    {
        value.sort_to_string()
    }
}

impl vstd::std_specs::convert::FromSpecImpl<NodesSortBy> for String {
    open spec fn obeys_from_spec() -> bool {
        false
    }

    open spec fn from_spec(v: NodesSortBy) -> String {
        choose|s: String| s@ == v.sort_spec()
    }
}

/// A search sort as query text (`field:order`, as `sort_to_string`).
impl From<NodesSearchSortBy> for String {
    fn from(value: NodesSearchSortBy) -> (r: String)
        ensures
            r@ == value.sort_spec(),
    {
        value.sort_to_string()
    }
}

impl vstd::std_specs::convert::FromSpecImpl<NodesSearchSortBy> for String {
    open spec fn obeys_from_spec() -> bool {
        false
    }

    open spec fn from_spec(v: NodesSearchSortBy) -> String {
        choose|s: String| s@ == v.sort_spec()
    }
}


} // verus!
