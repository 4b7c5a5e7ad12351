//! The builder of a DRACOON client configuration.

use vstd::prelude::*;
use crate::api::auth::DracoonClientBuilder;

verus! {

/// Collects the configuration of a DRACOON client.
#[derive(Debug, Clone)]
pub struct DracoonBuilder {
    pub base_url: Option<String>,
    pub client_id: Option<String>,
    pub client_secret: Option<String>,
    pub redirect_uri: Option<String>,
    pub client_builder: DracoonClientBuilder,
}

impl DracoonBuilder {
    pub fn new() -> (b: Self)
        ensures
            b.base_url is None,
            b.client_id is None,
            b.client_secret is None,
            b.redirect_uri is None,
            b.client_builder.base_url is None,
            b.client_builder.redirect_uri is None,
            b.client_builder.client_id is None,
            b.client_builder.client_secret is None,
    {
        DracoonBuilder {
            base_url: None,
            client_id: None,
            client_secret: None,
            redirect_uri: None,
            client_builder: DracoonClientBuilder::new(),
        }
    }

    pub fn with_base_url(self, base_url: &str) -> (b: Self)
        ensures
            b.client_builder.base_url matches Some(u) && u@ == base_url@,
            b.client_builder.redirect_uri == self.client_builder.redirect_uri,
            b.client_builder.client_id == self.client_builder.client_id,
            b.client_builder.client_secret == self.client_builder.client_secret,
    {
        let mut s = self;
        s.client_builder = s.client_builder.with_base_url(base_url);
        s
    }

    pub fn with_client_id(self, client_id: &str) -> (b: Self)
        ensures
            b.client_builder.client_id matches Some(u) && u@ == client_id@,
            b.client_builder.base_url == self.client_builder.base_url,
            b.client_builder.redirect_uri == self.client_builder.redirect_uri,
            b.client_builder.client_secret == self.client_builder.client_secret,
    {
        let mut s = self;
        s.client_builder = s.client_builder.with_client_id(client_id);
        s
    }

    pub fn with_client_secret(self, client_secret: &str) -> (b: Self)
        ensures
            b.client_builder.client_secret matches Some(u) && u@ == client_secret@,
            b.client_builder.base_url == self.client_builder.base_url,
            b.client_builder.redirect_uri == self.client_builder.redirect_uri,
            b.client_builder.client_id == self.client_builder.client_id,
    {
        let mut s = self;
        s.client_builder = s.client_builder.with_client_secret(client_secret);
        s
    }

    pub fn with_redirect_uri(self, redirect_uri: &str) -> (b: Self)
        ensures
            b.client_builder.redirect_uri matches Some(u) && u@ == redirect_uri@,
            b.client_builder.base_url == self.client_builder.base_url,
            b.client_builder.client_id == self.client_builder.client_id,
            b.client_builder.client_secret == self.client_builder.client_secret,
    {
        let mut s = self;
        s.client_builder = s.client_builder.with_redirect_uri(redirect_uri);
        s
    }
}

} // verus!
