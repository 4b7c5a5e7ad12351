//! The decisions of creating a folder or a room: which options each kind
//! takes, where a room may be created, which permissions it inherits, and
//! the message once it exists.

use vstd::prelude::*;
use crate::api::nodes::models::NodeType;
use crate::app::models::CreateContainerType;
use crate::errors::DcCmdError;
use crate::text::{append_str, string_of};

verus! {

/// What the platform is asked to create, once the options were checked.
#[derive(Debug, Clone, PartialEq, Eq)]
pub enum ContainerPlan {
    Folder { classification: Option<u8>, notes: Option<String> },
    /// A room; the named admin users are looked up before it is created.
    Room { classification: u8, admin_users: Option<Vec<String>>, inherit_permissions: bool },
}

/// A new room inherits the permissions of its parent unless admin users are
/// named, in which case the flag decides.
pub fn effective_room_inherit_permissions(has_admin_users: bool, inherit_permissions: bool) -> (r: bool)
    ensures
        r == (!has_admin_users || inherit_permissions),
{
    if has_admin_users {
        inherit_permissions
    } else {
        true
    }
}

/// The message of a folder request with room options.
pub open spec fn room_only_options_text() -> Seq<char> {
    "Room-only options are not supported when creating folders."@
}

/// The message of a room request with notes.
pub open spec fn folder_only_notes_text() -> Seq<char> {
    "Notes are only supported when creating folders."@
}

/// What a create request asks for, given the type of the parent node: a
/// folder takes neither admin users nor the inherit flag; a room takes no
/// notes and is only created inside a room (else the source path is
/// refused); its classification defaults to 2.
pub open spec fn container_plan_holds(
    source: Seq<char>,
    container_type: CreateContainerType,
    parent_type: NodeType,
    classification: Option<u8>,
    notes: Option<Seq<char>>,
    admin_users: Option<Seq<Seq<char>>>,
    inherit_permissions: bool,
    r: Result<ContainerPlan, DcCmdError>,
) -> bool {
    match container_type {
        CreateContainerType::Folder => if admin_users is Some || inherit_permissions {
            r matches Err(DcCmdError::InvalidArgument(m)) && m@ == room_only_options_text()
        } else {
            r matches Ok(ContainerPlan::Folder { classification: c, notes: n }) && c == classification
                && match (n, notes) {
                (Some(x), Some(y)) => x@ == y,
                (None, None) => true,
                _ => false,
            }
        },
        CreateContainerType::Room => if notes is Some {
            r matches Err(DcCmdError::InvalidArgument(m)) && m@ == folder_only_notes_text()
        } else if parent_type != NodeType::Room {
            r matches Err(DcCmdError::InvalidPath(m)) && m@ == source
        } else {
            r matches Ok(ContainerPlan::Room { classification: c, admin_users: a, inherit_permissions: i })
                && c == (match classification {
                Some(x) => x,
                None => 2u8,
            }) && i == (admin_users is None || inherit_permissions) && match (a, admin_users) {
                (Some(x), Some(y)) => x@.map_values(|s: String| s@) == y,
                (None, None) => true,
                _ => false,
            }
        },
    }
}

/// Checks the options of a create request against the kind of container and
/// the type of its parent (see `container_plan_holds`).
pub fn plan_container(
    source: &str,
    container_type: CreateContainerType,
    parent_type: NodeType,
    classification: Option<u8>,
    notes: Option<String>,
    admin_users: Option<Vec<String>>,
    inherit_permissions: bool,
) -> (r: Result<ContainerPlan, DcCmdError>)
    ensures
        container_plan_holds(
            source@,
            container_type,
            parent_type,
            classification,
            match notes {
                Some(n) => Some(n@),
                None => None,
            },
            match admin_users {
                Some(a) => Some(a@.map_values(|s: String| s@)),
                None => None,
            },
            inherit_permissions,
            r,
        ),
{
    match container_type {
        CreateContainerType::Folder => {
            if admin_users.is_some() || inherit_permissions {
                Err(
                    DcCmdError::InvalidArgument(
                        "Room-only options are not supported when creating folders.".to_owned(),
                    ),
                )
            } else {
                Ok(ContainerPlan::Folder { classification, notes })
            }
        },
        CreateContainerType::Room => {
            if notes.is_some() {
                return Err(
                    DcCmdError::InvalidArgument("Notes are only supported when creating folders.".to_owned()),
                );
            }
            if parent_type != NodeType::Room {
                return Err(DcCmdError::InvalidPath(source.to_owned()));
            }
            let classification = match classification {
                Some(c) => c,
                None => 2u8,
            };
            let inherit_permissions = effective_room_inherit_permissions(admin_users.is_some(), inherit_permissions);
            Ok(ContainerPlan::Room { classification, admin_users, inherit_permissions })
        },
    }
}

/// The ids of the named room admins: naming admins who are all unknown is
/// refused.
pub fn require_admin_ids(admin_ids: Vec<u64>) -> (r: Result<Vec<u64>, DcCmdError>)
    ensures
        admin_ids@.len() == 0 ==> (r matches Err(DcCmdError::InvalidArgument(m)) && m@
            == "No valid admin users provided."@),
        admin_ids@.len() > 0 ==> (r matches Ok(v) && v@ == admin_ids@),
{
    if admin_ids.len() == 0 {
        Err(DcCmdError::InvalidArgument("No valid admin users provided.".to_owned()))
    } else {
        Ok(admin_ids)
    }
}

/// The message once a container exists: `Folder {name} created.` or
/// `Room {name} created.`.
pub open spec fn container_created_spec(container_type: CreateContainerType, name: Seq<char>) -> Seq<char> {
    match container_type {
        CreateContainerType::Folder => "Folder "@ + name + " created."@,
        CreateContainerType::Room => "Room "@ + name + " created."@,
    }
}

/// The message once a container exists (see `container_created_spec`).
pub fn container_created_message(container_type: CreateContainerType, name: &str) -> (r: String)
    ensures
        r@ == container_created_spec(container_type, name@),
{
    let mut v: Vec<char> = Vec::new();
    match container_type {
        CreateContainerType::Folder => append_str(&mut v, "Folder "),
        CreateContainerType::Room => append_str(&mut v, "Room "),
    }
    append_str(&mut v, name);
    append_str(&mut v, " created.");
    string_of(v.as_slice())
}

} // verus!
