//! What the config command reports about an account and a system.

use vstd::prelude::*;

verus! {

/// The user a stored refresh token belongs to.
#[derive(Debug, Clone)]
pub struct RefreshTokenInfo {
    pub first_name: String,
    pub last_name: String,
    pub email: Option<String>,
    pub user_name: String,
}

/// An OpenID Connect identity provider.
#[derive(Debug, Clone)]
pub struct OpenIdConfigInfo {
    pub id: u64,
    pub name: String,
}

/// An Active Directory configuration.
#[derive(Debug, Clone)]
pub struct ActiveDirectoryConfigInfo {
    pub id: u64,
    pub alias: String,
}

/// The customer of a system with its use of space and accounts.
#[derive(Debug, Clone)]
pub struct CustomerInfo {
    pub name: String,
    pub space_used: u64,
    pub space_limit: u64,
    pub accounts_used: u64,
    pub accounts_limit: u64,
}

/// A system's customer and its identity configurations.
#[derive(Debug, Clone)]
pub struct SystemInfo {
    pub customer: CustomerInfo,
    pub oidc_configs: Vec<OpenIdConfigInfo>,
    pub ad_configs: Vec<ActiveDirectoryConfigInfo>,
}

/// Where the config command reads account and system information from.
pub trait SystemApi {
    fn get_refresh_token_info(&self) -> Result<RefreshTokenInfo, crate::errors::DcCmdError>;

    fn get_system_info(&self) -> Result<SystemInfo, crate::errors::DcCmdError>;
}

} // verus!
