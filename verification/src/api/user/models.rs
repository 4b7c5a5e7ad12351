//! The account of the signed-in user.

use vstd::prelude::*;

verus! {

/// The account of the signed-in user.
#[derive(Debug, Clone)]
pub struct UserAccount {
    pub id: u64,
    pub first_name: String,
    pub last_name: String,
    pub user_name: String,
    pub is_locked: bool,
    pub has_manageable_rooms: bool,
    pub user_roles: RoleList,
    pub language: String,
    pub auth_data: UserAuthData,
    pub must_set_email: Option<bool>,
    pub needs_to_accept_eula: Option<bool>,
    pub expire_at: Option<String>,
    pub is_encryption_enabled: Option<bool>,
    pub last_login_success_at: Option<String>,
    pub last_login_fail_at: Option<String>,
    pub email: Option<String>,
    pub phone: Option<String>,
    pub home_room_id: Option<u64>,
    pub user_groups: Vec<UserGroup>,
}

/// How a user signs in.
#[derive(Debug, Clone)]
pub struct UserAuthData {
    pub method: String,
    pub login: Option<String>,
    pub password: Option<String>,
    pub must_change_password: Option<bool>,
    pub ad_config_id: Option<u64>,
    pub oidc_config_id: Option<u64>,
}

/// One right of a role.
#[derive(Debug, Clone)]
pub struct Right {
    pub id: u64,
    pub name: String,
    pub description: String,
}

/// A role with its rights.
#[derive(Debug, Clone)]
pub struct Role {
    pub id: u64,
    pub name: String,
    pub description: String,
    pub items: Option<Vec<Right>>,
}

/// The roles of a user.
#[derive(Debug, Clone)]
pub struct RoleList {
    pub roles: Vec<Role>,
}

/// A group and whether the user belongs to it.
#[derive(Debug, Clone)]
pub struct UserGroup {
    pub id: u64,
    pub is_member: bool,
    pub name: String,
}

/// The request that changes the signed-in user.
#[derive(Debug, Clone)]
pub struct UpdateUserAccountRequest {
    pub user_name: Option<String>,
    pub accept_eula: Option<bool>,
    pub first_name: Option<String>,
    pub last_name: Option<String>,
    pub email: Option<String>,
    pub phone: Option<String>,
    pub language: Option<String>,
}

} // verus!
