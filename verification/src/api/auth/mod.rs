//! Authentication with DRACOON: the OAuth2 flows, the client states and the
//! builder of a client configuration.

pub mod models;

use vstd::prelude::*;

verus! {

/// The OAuth2 flows a client can connect with.
#[derive(Debug, Clone)]
pub enum OAuth2Flow {
    PasswordFlow(String, String),
    AuthCodeFlow(String),
    RefreshToken(String),
}

/// A client that holds tokens.
#[derive(Debug, Clone, Copy, PartialEq, Eq, Structural)]
pub struct Connected;

/// A client without tokens.
#[derive(Debug, Clone, Copy, PartialEq, Eq, Structural)]
pub struct Disconnected;

/// Collects what a DRACOON client needs.
#[derive(Debug, Clone)]
pub struct DracoonClientBuilder {
    pub base_url: Option<String>,
    pub redirect_uri: Option<String>,
    pub client_id: Option<String>,
    pub client_secret: Option<String>,
}

impl DracoonClientBuilder {
    pub fn new() -> (b: Self)
        ensures
            b.base_url is None,
            b.redirect_uri is None,
            b.client_id is None,
            b.client_secret is None,
    {
        DracoonClientBuilder { base_url: None, redirect_uri: None, client_id: None, client_secret: None }
    }

    pub fn with_base_url(self, base_url: &str) -> (b: Self)
        ensures
            b.base_url matches Some(u) && u@ == base_url@,
            b.redirect_uri == self.redirect_uri,
            b.client_id == self.client_id,
            b.client_secret == self.client_secret,
    {
        let mut s = self;
        s.base_url = Some(base_url.to_owned());
        s
    }

    pub fn with_redirect_uri(self, redirect_uri: &str) -> (b: Self)
        ensures
            b.redirect_uri matches Some(u) && u@ == redirect_uri@,
            b.base_url == self.base_url,
            b.client_id == self.client_id,
            b.client_secret == self.client_secret,
    {
        let mut s = self;
        s.redirect_uri = Some(redirect_uri.to_owned());
        s
    }

    pub fn with_client_id(self, client_id: &str) -> (b: Self)
        ensures
            b.client_id matches Some(u) && u@ == client_id@,
            b.base_url == self.base_url,
            b.redirect_uri == self.redirect_uri,
            b.client_secret == self.client_secret,
    {
        let mut s = self;
        s.client_id = Some(client_id.to_owned());
        s
    }

    pub fn with_client_secret(self, client_secret: &str) -> (b: Self)
        ensures
            b.client_secret matches Some(u) && u@ == client_secret@,
            b.base_url == self.base_url,
            b.redirect_uri == self.redirect_uri,
            b.client_id == self.client_id,
    {
        let mut s = self;
        s.client_secret = Some(client_secret.to_owned());
        s
    }
}

} // verus!
