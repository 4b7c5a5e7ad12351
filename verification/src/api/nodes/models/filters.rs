//! Filters of node listings and searches, rendered as `field:operator:value`.

use vstd::prelude::*;
use crate::api::models::{filter_operator_spec, FilterOperator, FilterQuery};
use crate::api::nodes::models::{node_type_spec, NodeType};
use crate::text::{append_str, dec, string_of, u64_to_string};

verus! {

/// `true` or `false`, as `bool` displays.
pub open spec fn bool_spec(b: bool) -> Seq<char> {
    if b {
        "true"@
    } else {
        "false"@
    }
}

/// The text of a boolean.
pub fn bool_string(b: bool) -> (r: String)
    ensures
        r@ == bool_spec(b),
{
    if b {
        "true".to_owned()
    } else {
        "false".to_owned()
    }
}

/// A filter expression: `field:operator:value`.
pub open spec fn filter_expr(field: Seq<char>, op: FilterOperator, value: Seq<char>) -> Seq<char> {
    field + ":"@ + filter_operator_spec(op) + ":"@ + value
}

fn filter_expr_string(field: &str, op: FilterOperator, value: &str) -> (r: String)
    ensures
        r@ == filter_expr(field@, op, value@),
{
    let mut v: Vec<char> = Vec::new();
    append_str(&mut v, field);
    append_str(&mut v, ":");
    append_str(&mut v, op.to_api_string().as_str());
    append_str(&mut v, ":");
    append_str(&mut v, value);
    string_of(v.as_slice())
}

/// A filter of a node listing.
#[derive(Debug, Clone)]
pub enum NodesFilter {
    Name(FilterOperator, String),
    Type(FilterOperator, NodeType),
    Encrypted(FilterOperator, bool),
    BranchVersion(FilterOperator, u64),
    TimestampCreation(FilterOperator, String),
    TimestampModification(FilterOperator, String),
    ReferenceId(FilterOperator, u64),
}

impl FilterQuery for NodesFilter {
    open spec fn filter_spec(&self) -> Seq<char> {
        match self {
            NodesFilter::Name(op, value) => filter_expr("name"@, *op, value@),
            NodesFilter::Type(op, value) => filter_expr("type"@, *op, node_type_spec(*value)),
            NodesFilter::Encrypted(op, value) => filter_expr("encrypted"@, *op, bool_spec(*value)),
            NodesFilter::BranchVersion(op, value) => filter_expr("branchVersion"@, *op, dec(*value as nat)),
            NodesFilter::TimestampCreation(op, value) => filter_expr("timestampCreation"@, *op, value@),
            NodesFilter::TimestampModification(op, value) => filter_expr("timestampModification"@, *op, value@),
            NodesFilter::ReferenceId(op, value) => filter_expr("referenceId"@, *op, dec(*value as nat)),
        }
    }

    fn filter_to_string(&self) -> (r: String) {
        match self {
            NodesFilter::Name(op, value) => filter_expr_string("name", *op, value.as_str()),
            NodesFilter::Type(op, value) => filter_expr_string("type", *op, value.to_api_string().as_str()),
            NodesFilter::Encrypted(op, value) => filter_expr_string("encrypted", *op, bool_string(*value).as_str()),
            NodesFilter::BranchVersion(op, value) => filter_expr_string("branchVersion", *op, u64_to_string(*value).as_str()),
            NodesFilter::TimestampCreation(op, value) => filter_expr_string("timestampCreation", *op, value.as_str()),
            NodesFilter::TimestampModification(op, value) => filter_expr_string("timestampModification", *op, value.as_str()),
            NodesFilter::ReferenceId(op, value) => filter_expr_string("referenceId", *op, u64_to_string(*value).as_str()),
        }
    }
}

impl NodesFilter {
    pub fn name_equals(val: &str) -> (f: Self)
        ensures
            f matches NodesFilter::Name(o, x) && o == FilterOperator::Eq && x@ == val@,
    {
        NodesFilter::Name(FilterOperator::Eq, val.to_owned())
    }

    pub fn name_contains(val: &str) -> (f: Self)
        ensures
            f matches NodesFilter::Name(o, x) && o == FilterOperator::Cn && x@ == val@,
    {
        NodesFilter::Name(FilterOperator::Cn, val.to_owned())
    }

    pub fn is_encrypted(val: bool) -> (f: Self)
        ensures
            f == NodesFilter::Encrypted(FilterOperator::Eq, val),
    {
        NodesFilter::Encrypted(FilterOperator::Eq, val)
    }

    pub fn reference_id_equals(val: u64) -> (f: Self)
        ensures
            f == NodesFilter::ReferenceId(FilterOperator::Eq, val),
    {
        NodesFilter::ReferenceId(FilterOperator::Eq, val)
    }

    pub fn created_before(val: &str) -> (f: Self)
        ensures
            f matches NodesFilter::TimestampCreation(o, x) && o == FilterOperator::Le && x@ == val@,
    {
        NodesFilter::TimestampCreation(FilterOperator::Le, val.to_owned())
    }

    pub fn created_after(val: &str) -> (f: Self)
        ensures
            f matches NodesFilter::TimestampCreation(o, x) && o == FilterOperator::Ge && x@ == val@,
    {
        NodesFilter::TimestampCreation(FilterOperator::Ge, val.to_owned())
    }

    pub fn modified_before(val: &str) -> (f: Self)
        ensures
            f matches NodesFilter::TimestampModification(o, x) && o == FilterOperator::Le && x@ == val@,
    {
        NodesFilter::TimestampModification(FilterOperator::Le, val.to_owned())
    }

    pub fn modified_after(val: &str) -> (f: Self)
        ensures
            f matches NodesFilter::TimestampModification(o, x) && o == FilterOperator::Ge && x@ == val@,
    {
        NodesFilter::TimestampModification(FilterOperator::Ge, val.to_owned())
    }

    pub fn branch_version_before(val: u64) -> (f: Self)
        ensures
            f == NodesFilter::BranchVersion(FilterOperator::Le, val),
    {
        NodesFilter::BranchVersion(FilterOperator::Le, val)
    }

    pub fn branch_version_after(val: u64) -> (f: Self)
        ensures
            f == NodesFilter::BranchVersion(FilterOperator::Ge, val),
    {
        NodesFilter::BranchVersion(FilterOperator::Ge, val)
    }

    pub fn is_file() -> (f: Self)
        ensures
            f == NodesFilter::Type(FilterOperator::Eq, NodeType::File),
    {
        NodesFilter::Type(FilterOperator::Eq, NodeType::File)
    }

    pub fn is_folder() -> (f: Self)
        ensures
            f == NodesFilter::Type(FilterOperator::Eq, NodeType::Folder),
    {
        NodesFilter::Type(FilterOperator::Eq, NodeType::Folder)
    }

    pub fn is_room() -> (f: Self)
        ensures
            f == NodesFilter::Type(FilterOperator::Eq, NodeType::Room),
    {
        NodesFilter::Type(FilterOperator::Eq, NodeType::Room)
    }
}

/// A filter of a node search.
#[derive(Debug, Clone)]
pub enum NodesSearchFilter {
    Type(FilterOperator, NodeType),
    FileType(FilterOperator, String),
    Classification(FilterOperator, u8),
    CreatedBy(FilterOperator, String),
    UpdatedBy(FilterOperator, String),
    CreatedById(FilterOperator, u64),
    UpdatedById(FilterOperator, u64),
    CreatedAt(FilterOperator, String),
    UpdatedAt(FilterOperator, String),
    ExpireAt(FilterOperator, String),
    Size(FilterOperator, u64),
    IsFavorite(FilterOperator, bool),
    BranchVersion(FilterOperator, u64),
    ParentPath(FilterOperator, String),
    TimestampCreation(FilterOperator, String),
    TimestampModification(FilterOperator, String),
    ReferenceId(FilterOperator, u64),
}

impl FilterQuery for NodesSearchFilter {
    open spec fn filter_spec(&self) -> Seq<char> {
        match self {
            NodesSearchFilter::Type(op, value) => filter_expr("type"@, *op, node_type_spec(*value)),
            NodesSearchFilter::FileType(op, value) => filter_expr("fileType"@, *op, value@),
            NodesSearchFilter::Classification(op, value) => filter_expr("classification"@, *op, dec(*value as nat)),
            NodesSearchFilter::CreatedBy(op, value) => filter_expr("createdBy"@, *op, value@),
            NodesSearchFilter::UpdatedBy(op, value) => filter_expr("updatedBy"@, *op, value@),
            NodesSearchFilter::CreatedById(op, value) => filter_expr("createdById"@, *op, dec(*value as nat)),
            NodesSearchFilter::UpdatedById(op, value) => filter_expr("updatedById"@, *op, dec(*value as nat)),
            NodesSearchFilter::CreatedAt(op, value) => filter_expr("createdAt"@, *op, value@),
            NodesSearchFilter::UpdatedAt(op, value) => filter_expr("updatedAt"@, *op, value@),
            NodesSearchFilter::ExpireAt(op, value) => filter_expr("expireAt"@, *op, value@),
            NodesSearchFilter::Size(op, value) => filter_expr("size"@, *op, dec(*value as nat)),
            NodesSearchFilter::IsFavorite(op, value) => filter_expr("isFavorite"@, *op, bool_spec(*value)),
            NodesSearchFilter::BranchVersion(op, value) => filter_expr("branchVersion"@, *op, dec(*value as nat)),
            NodesSearchFilter::ParentPath(op, value) => filter_expr("parentPath"@, *op, value@),
            NodesSearchFilter::TimestampCreation(op, value) => filter_expr("timestampCreation"@, *op, value@),
            NodesSearchFilter::TimestampModification(op, value) => filter_expr("timestampModification"@, *op, value@),
            NodesSearchFilter::ReferenceId(op, value) => filter_expr("referenceId"@, *op, dec(*value as nat)),
        }
    }

    fn filter_to_string(&self) -> (r: String) {
        match self {
            NodesSearchFilter::Type(op, value) => filter_expr_string("type", *op, value.to_api_string().as_str()),
            NodesSearchFilter::FileType(op, value) => filter_expr_string("fileType", *op, value.as_str()),
            NodesSearchFilter::Classification(op, value) => filter_expr_string("classification", *op, u64_to_string(*value as u64).as_str()),
            NodesSearchFilter::CreatedBy(op, value) => filter_expr_string("createdBy", *op, value.as_str()),
            NodesSearchFilter::UpdatedBy(op, value) => filter_expr_string("updatedBy", *op, value.as_str()),
            NodesSearchFilter::CreatedById(op, value) => filter_expr_string("createdById", *op, u64_to_string(*value).as_str()),
            NodesSearchFilter::UpdatedById(op, value) => filter_expr_string("updatedById", *op, u64_to_string(*value).as_str()),
            NodesSearchFilter::CreatedAt(op, value) => filter_expr_string("createdAt", *op, value.as_str()),
            NodesSearchFilter::UpdatedAt(op, value) => filter_expr_string("updatedAt", *op, value.as_str()),
            NodesSearchFilter::ExpireAt(op, value) => filter_expr_string("expireAt", *op, value.as_str()),
            NodesSearchFilter::Size(op, value) => filter_expr_string("size", *op, u64_to_string(*value).as_str()),
            NodesSearchFilter::IsFavorite(op, value) => filter_expr_string("isFavorite", *op, bool_string(*value).as_str()),
            NodesSearchFilter::BranchVersion(op, value) => filter_expr_string("branchVersion", *op, u64_to_string(*value).as_str()),
            NodesSearchFilter::ParentPath(op, value) => filter_expr_string("parentPath", *op, value.as_str()),
            NodesSearchFilter::TimestampCreation(op, value) => filter_expr_string("timestampCreation", *op, value.as_str()),
            NodesSearchFilter::TimestampModification(op, value) => filter_expr_string("timestampModification", *op, value.as_str()),
            NodesSearchFilter::ReferenceId(op, value) => filter_expr_string("referenceId", *op, u64_to_string(*value).as_str()),
        }
    }
}

impl NodesSearchFilter {
    pub fn is_file() -> (f: Self)
        ensures
            f == NodesSearchFilter::Type(FilterOperator::Eq, NodeType::File),
    {
        NodesSearchFilter::Type(FilterOperator::Eq, NodeType::File)
    }

    pub fn is_folder() -> (f: Self)
        ensures
            f == NodesSearchFilter::Type(FilterOperator::Eq, NodeType::Folder),
    {
        NodesSearchFilter::Type(FilterOperator::Eq, NodeType::Folder)
    }

    pub fn is_room() -> (f: Self)
        ensures
            f == NodesSearchFilter::Type(FilterOperator::Eq, NodeType::Room),
    {
        NodesSearchFilter::Type(FilterOperator::Eq, NodeType::Room)
    }

    pub fn is_favorite(val: bool) -> (f: Self)
        ensures
            f == NodesSearchFilter::IsFavorite(FilterOperator::Eq, val),
    {
        NodesSearchFilter::IsFavorite(FilterOperator::Eq, val)
    }

    pub fn parent_path_equals(val: &str) -> (f: Self)
        ensures
            f matches NodesSearchFilter::ParentPath(o, x) && o == FilterOperator::Eq && x@ == val@,
    {
        NodesSearchFilter::ParentPath(FilterOperator::Eq, val.to_owned())
    }

    pub fn parent_path_contains(val: &str) -> (f: Self)
        ensures
            f matches NodesSearchFilter::ParentPath(o, x) && o == FilterOperator::Cn && x@ == val@,
    {
        NodesSearchFilter::ParentPath(FilterOperator::Cn, val.to_owned())
    }

    pub fn size_greater_equals(val: u64) -> (f: Self)
        ensures
            f == NodesSearchFilter::Size(FilterOperator::Ge, val),
    {
        NodesSearchFilter::Size(FilterOperator::Ge, val)
    }

    pub fn size_less_equals(val: u64) -> (f: Self)
        ensures
            f == NodesSearchFilter::Size(FilterOperator::Le, val),
    {
        NodesSearchFilter::Size(FilterOperator::Le, val)
    }

    pub fn branch_version_before(val: u64) -> (f: Self)
        ensures
            f == NodesSearchFilter::BranchVersion(FilterOperator::Le, val),
    {
        NodesSearchFilter::BranchVersion(FilterOperator::Le, val)
    }

    pub fn branch_version_after(val: u64) -> (f: Self)
        ensures
            f == NodesSearchFilter::BranchVersion(FilterOperator::Ge, val),
    {
        NodesSearchFilter::BranchVersion(FilterOperator::Ge, val)
    }

    pub fn created_at_before(val: &str) -> (f: Self)
        ensures
            f matches NodesSearchFilter::CreatedAt(o, x) && o == FilterOperator::Le && x@ == val@,
    {
        NodesSearchFilter::CreatedAt(FilterOperator::Le, val.to_owned())
    }

    pub fn created_at_after(val: &str) -> (f: Self)
        ensures
            f matches NodesSearchFilter::CreatedAt(o, x) && o == FilterOperator::Ge && x@ == val@,
    {
        NodesSearchFilter::CreatedAt(FilterOperator::Ge, val.to_owned())
    }

    pub fn updated_at_before(val: &str) -> (f: Self)
        ensures
            f matches NodesSearchFilter::UpdatedAt(o, x) && o == FilterOperator::Le && x@ == val@,
    {
        NodesSearchFilter::UpdatedAt(FilterOperator::Le, val.to_owned())
    }

    pub fn updated_at_after(val: &str) -> (f: Self)
        ensures
            f matches NodesSearchFilter::UpdatedAt(o, x) && o == FilterOperator::Ge && x@ == val@,
    {
        NodesSearchFilter::UpdatedAt(FilterOperator::Ge, val.to_owned())
    }

    pub fn expire_at_before(val: &str) -> (f: Self)
        ensures
            f matches NodesSearchFilter::ExpireAt(o, x) && o == FilterOperator::Le && x@ == val@,
    {
        NodesSearchFilter::ExpireAt(FilterOperator::Le, val.to_owned())
    }

    pub fn expire_at_after(val: &str) -> (f: Self)
        ensures
            f matches NodesSearchFilter::ExpireAt(o, x) && o == FilterOperator::Ge && x@ == val@,
    {
        NodesSearchFilter::ExpireAt(FilterOperator::Ge, val.to_owned())
    }

    pub fn classification_equals(val: u8) -> (f: Self)
        ensures
            f == NodesSearchFilter::Classification(FilterOperator::Eq, val),
    {
        NodesSearchFilter::Classification(FilterOperator::Eq, val)
    }

    pub fn file_type_equals(val: &str) -> (f: Self)
        ensures
            f matches NodesSearchFilter::FileType(o, x) && o == FilterOperator::Eq && x@ == val@,
    {
        NodesSearchFilter::FileType(FilterOperator::Eq, val.to_owned())
    }

    pub fn file_type_contains(val: &str) -> (f: Self)
        ensures
            f matches NodesSearchFilter::FileType(o, x) && o == FilterOperator::Cn && x@ == val@,
    {
        NodesSearchFilter::FileType(FilterOperator::Cn, val.to_owned())
    }
}

} // verus!
