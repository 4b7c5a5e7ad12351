//! The form payloads of the OAuth2 flows and the error bodies of DRACOON.

use vstd::prelude::*;

verus! {

/// The `grant_type` of the password flow.
pub const GRANT_TYPE_PASSWORD: &'static str = "password";

/// The `grant_type` of the authorization code flow.
pub const GRANT_TYPE_AUTH_CODE: &'static str = "authorization_code";

/// The `grant_type` of the refresh token flow.
pub const GRANT_TYPE_REFRESH_TOKEN: &'static str = "refresh_token";

/// The form of the password flow.
#[derive(Debug, Clone)]
pub struct OAuth2PasswordFlow {
    pub username: String,
    pub password: String,
    pub grant_type: String,
}

impl OAuth2PasswordFlow {
    pub fn new(username: &str, password: &str) -> (f: Self)
        ensures
            f.username@ == username@,
            f.password@ == password@,
            f.grant_type@ == GRANT_TYPE_PASSWORD@,
    {
        OAuth2PasswordFlow {
            username: username.to_owned(),
            password: password.to_owned(),
            grant_type: GRANT_TYPE_PASSWORD.to_owned(),
        }
    }
}

/// The form of the authorization code flow.
#[derive(Debug, Clone)]
pub struct OAuth2AuthCodeFlow {
    pub client_id: String,
    pub client_secret: String,
    pub grant_type: String,
    pub code: String,
    pub redirect_uri: String,
}

impl OAuth2AuthCodeFlow {
    pub fn new(client_id: &str, client_secret: &str, code: &str, redirect_uri: &str) -> (f: Self)
        ensures
            f.client_id@ == client_id@,
            f.client_secret@ == client_secret@,
            f.grant_type@ == GRANT_TYPE_AUTH_CODE@,
            f.code@ == code@,
            f.redirect_uri@ == redirect_uri@,
    {
        OAuth2AuthCodeFlow {
            client_id: client_id.to_owned(),
            client_secret: client_secret.to_owned(),
            grant_type: GRANT_TYPE_AUTH_CODE.to_owned(),
            code: code.to_owned(),
            redirect_uri: redirect_uri.to_owned(),
        }
    }
}

/// The form of the refresh token flow.
#[derive(Debug, Clone)]
pub struct OAuth2RefreshTokenFlow {
    pub client_id: String,
    pub client_secret: String,
    pub grant_type: String,
    pub refresh_token: String,
}

impl OAuth2RefreshTokenFlow {
    pub fn new(client_id: &str, client_secret: &str, refresh_token: &str) -> (f: Self)
        ensures
            f.client_id@ == client_id@,
            f.client_secret@ == client_secret@,
            f.grant_type@ == GRANT_TYPE_REFRESH_TOKEN@,
            f.refresh_token@ == refresh_token@,
    {
        OAuth2RefreshTokenFlow {
            client_id: client_id.to_owned(),
            client_secret: client_secret.to_owned(),
            grant_type: GRANT_TYPE_REFRESH_TOKEN.to_owned(),
            refresh_token: refresh_token.to_owned(),
        }
    }
}

/// The token response of DRACOON.
#[derive(Debug, Clone)]
pub struct OAuth2TokenResponse {
    pub access_token: String,
    pub refresh_token: String,
    pub token_type: Option<String>,
    pub expires_in: u64,
    pub expires_in_inactive: Option<u64>,
    pub scope: Option<String>,
}

/// An error body of DRACOON.
#[derive(Debug, Clone)]
pub struct DracoonErrorResponse {
    pub code: i32,
    pub message: String,
    pub debug_info: Option<String>,
    pub error_code: Option<i32>,
}

impl DracoonErrorResponse {
    /// An error with a code and a message and no further details.
    pub fn new(code: i32, message: &str) -> (e: Self)
        ensures
            e.code == code,
            e.message@ == message@,
            e.debug_info is None,
            e.error_code is None,
    {
        DracoonErrorResponse { code, message: message.to_owned(), debug_info: None, error_code: None }
    }
}

/// An OAuth2 error body of DRACOON.
#[derive(Debug, Clone)]
pub struct DracoonAuthErrorResponse {
    pub error: String,
    pub error_description: String,
}

} // verus!
