//! Authentication: where a DRACOON url's base lies, how a connection is made
//! (password, stored refresh token or authorization code), where the
//! encryption secret comes from, and how stored secrets are looked up,
//! stored and deleted in the two credential stores of Linux.

pub mod connect;
pub mod encryption;

use vstd::prelude::*;
use crate::errors::DcCmdError;
use crate::text::{
    append_str, chars_of, lemma_split_nonempty, split, split_chars, starts_with, starts_with_chars,
    string_of, slice_to_vec, views,
};

verus! {

/// Connects to DRACOON with a backend, a secret store and prompts.
pub struct AuthService<B, S, P> {
    backend: B,
    store: S,
    prompts: P,
}

/// How a connection is made.
#[derive(Clone, Copy, Debug, Eq, PartialEq, Structural)]
pub enum ConnectMode {
    Password,
    RefreshToken,
    AuthCode,
}

/// Why connecting with a refresh token failed.
#[derive(Debug)]
pub enum RefreshTokenConnectError {
    /// The token was rejected; the reason.
    InvalidToken(String),
    /// Anything else.
    Other(DcCmdError),
}

/// The result of looking up a stored secret.
#[derive(Clone, Debug, Eq, PartialEq)]
pub enum StoredSecretLookup {
    Found(String),
    Missing,
    Unavailable,
}

/// The secret of a lookup, or the error for a missing secret
/// (`InvalidAccount`) or an unusable store (`CredentialStorageFailed`).
pub open spec fn secret_of_lookup(l: StoredSecretLookup) -> Result<String, DcCmdError> {
    match l {
        StoredSecretLookup::Found(s) => Ok(s),
        StoredSecretLookup::Missing => Err(DcCmdError::InvalidAccount),
        StoredSecretLookup::Unavailable => Err(DcCmdError::CredentialStorageFailed),
    }
}

impl StoredSecretLookup {
    /// The secret, or the error for a missing secret (`InvalidAccount`) or an
    /// unusable store (`CredentialStorageFailed`); see `secret_of_lookup`.
    pub fn into_result(self) -> (r: Result<String, DcCmdError>)
        ensures
            r == secret_of_lookup(self),
            match self {
                StoredSecretLookup::Found(s) => r == Ok::<String, DcCmdError>(s),
                StoredSecretLookup::Missing => r matches Err(DcCmdError::InvalidAccount),
                StoredSecretLookup::Unavailable => r matches Err(DcCmdError::CredentialStorageFailed),
            },
    {
        match self {
            StoredSecretLookup::Found(secret) => Ok(secret),
            StoredSecretLookup::Missing => Err(DcCmdError::InvalidAccount),
            StoredSecretLookup::Unavailable => Err(DcCmdError::CredentialStorageFailed),
        }
    }
}

/// Where refresh tokens and encryption secrets are kept. What a store
/// answers is its own affair (a credential store of the operating system
/// answers from its current contents); the predicates below say which answer
/// belongs to which account. A store that says nothing more admits every
/// answer; proofs over any store never see these defaults, so what they
/// prove holds of each store with the account that was asked.
pub trait SecretStore {
    /// Whether `answer` is an answer of this store to a lookup of the
    /// refresh token stored under `base_url`.
    open spec fn refresh_lookup_answer(&self, base_url: Seq<char>, answer: Result<StoredSecretLookup, DcCmdError>) -> bool {
        true
    }

    /// Whether `answer` is an answer of this store to deleting the refresh
    /// token stored under `base_url`.
    open spec fn refresh_delete_answer(&self, base_url: Seq<char>, answer: Result<(), DcCmdError>) -> bool {
        true
    }

    /// Whether `answer` is an answer of this store to a lookup of the
    /// encryption secret stored under `account`.
    open spec fn encryption_lookup_answer(&self, account: Seq<char>, answer: Result<StoredSecretLookup, DcCmdError>) -> bool {
        true
    }

    /// Whether `answer` is an answer of this store to deleting the
    /// encryption secret stored under `account`.
    open spec fn encryption_delete_answer(&self, account: Seq<char>, answer: Result<(), DcCmdError>) -> bool {
        true
    }

    fn lookup_refresh_token(&self, base_url: &str) -> (r: Result<StoredSecretLookup, DcCmdError>)
        ensures
            self.refresh_lookup_answer(base_url@, r),
    ;

    fn get_refresh_token(&self, base_url: &str) -> Result<String, DcCmdError>;

    fn set_refresh_token(&self, base_url: &str, refresh_token: &str) -> Result<(), DcCmdError>;

    fn delete_refresh_token(&self, base_url: &str) -> (r: Result<(), DcCmdError>)
        ensures
            self.refresh_delete_answer(base_url@, r),
    ;

    fn lookup_encryption_secret(&self, account: &str) -> (r: Result<StoredSecretLookup, DcCmdError>)
        ensures
            self.encryption_lookup_answer(account@, r),
    ;

    fn get_encryption_secret(&self, account: &str) -> Result<String, DcCmdError>;

    fn set_encryption_secret(&self, account: &str, secret: &str) -> Result<(), DcCmdError>;

    fn delete_encryption_secret(&self, account: &str) -> (r: Result<(), DcCmdError>)
        ensures
            self.encryption_delete_answer(account@, r),
    ;
}

/// The base url of a DRACOON url: `https://` and the host. Plain `http` is
/// refused, as is a url without a path after the host.
pub open spec fn parse_base_url_spec(url: Seq<char>) -> Option<Seq<char>> {
    if starts_with(url, "http://"@) {
        None
    } else {
        let rest = if starts_with(url, "https://"@) {
            url.subrange(8, url.len() as int)
        } else {
            url
        };
        let fragments = split(rest, '/');
        if fragments.len() >= 2 {
            Some("https://"@ + fragments[0])
        } else {
            None
        }
    }
}

/// The connection mode: a password wins, then a stored refresh token, else
/// the authorization code flow.
pub open spec fn connect_mode_spec(has_password_auth: bool, has_refresh_token: bool) -> ConnectMode {
    if has_password_auth {
        ConnectMode::Password
    } else if has_refresh_token {
        ConnectMode::RefreshToken
    } else {
        ConnectMode::AuthCode
    }
}

impl<B, S, P> AuthService<B, S, P> {
    pub closed spec fn store_view(&self) -> S {
        self.store
    }

    /// A service with the given backend, store and prompts.
    pub fn with_dependencies(backend: B, store: S, prompts: P) -> (s: Self)
        ensures
            s.store_view() == store,
    {
        AuthService { backend, store, prompts }
    }

    /// The base url of a DRACOON url (see `parse_base_url_spec`); an invalid
    /// url is returned in the error.
    pub fn parse_base_url(url_str: String) -> (r: Result<String, DcCmdError>)
        ensures
            match parse_base_url_spec(url_str@) {
                Some(b) => r matches Ok(x) && x@ == b,
                None => r matches Err(DcCmdError::InvalidUrl(u)) && u@ == url_str@,
            },
    {
        let c = chars_of(url_str.as_str());
        let http = chars_of("http://");
        let https = chars_of("https://");
        if starts_with_chars(c.as_slice(), http.as_slice()) {
            return Err(DcCmdError::InvalidUrl(url_str));
        }
        let rest = if starts_with_chars(c.as_slice(), https.as_slice()) {
            proof {
                reveal_strlit("https://");
            }
            slice_to_vec(c.as_slice(), 8, c.len())
        } else {
            c
        };
        let parts = split_chars(rest.as_slice(), '/');
        if parts.len() >= 2 {
            let mut v: Vec<char> = Vec::new();
            append_str(&mut v, "https://");
            crate::text::extend_chars(&mut v, parts[0].as_slice());
            assert(views(parts@)[0] == parts@[0]@);
            Ok(string_of(v.as_slice()))
        } else {
            Err(DcCmdError::InvalidUrl(url_str))
        }
    }

    /// The connection mode (see `connect_mode_spec`).
    pub fn resolve_connect_mode(has_password_auth: bool, has_refresh_token: bool) -> (m: ConnectMode)
        ensures
            m == connect_mode_spec(has_password_auth, has_refresh_token),
    {
        if has_password_auth {
            ConnectMode::Password
        } else if has_refresh_token {
            ConnectMode::RefreshToken
        } else {
            ConnectMode::AuthCode
        }
    }
}

/// The account under which the encryption secret of a base url is kept.
pub open spec fn encryption_account_spec(base_url: Seq<char>) -> Seq<char> {
    base_url + "-crypto"@
}

/// The account under which the encryption secret of a base url is kept.
pub fn encryption_account_for(base_url: &str) -> (r: String)
    ensures
        r@ == encryption_account_spec(base_url@),
{
    let mut v: Vec<char> = Vec::new();
    append_str(&mut v, base_url);
    append_str(&mut v, "-crypto");
    string_of(v.as_slice())
}

/// Where the encryption secret comes from.
#[derive(Debug, Clone, PartialEq, Eq)]
pub enum SecretSource {
    /// Given on the command line.
    Given(String),
    /// Found in the store.
    Stored(String),
    /// Asked for; `persist` says whether it is stored afterwards.
    Prompt { persist: bool },
}

/// Chooses where the encryption secret comes from: a given secret wins; else
/// the stored one; a missing or unavailable stored secret is asked for and
/// then stored; when the store cannot be used at all it is asked for and not
/// stored; any other store error ends the connection.
pub fn encryption_secret_source(
    given: Option<String>,
    lookup: Result<StoredSecretLookup, DcCmdError>,
) -> (r: Result<SecretSource, DcCmdError>)
    ensures
        given matches Some(g) ==> r == Ok::<SecretSource, DcCmdError>(SecretSource::Given(g)),
        given is None ==> match lookup {
            Ok(StoredSecretLookup::Found(s)) => r == Ok::<SecretSource, DcCmdError>(SecretSource::Stored(s)),
            Ok(StoredSecretLookup::Missing) => r == Ok::<SecretSource, DcCmdError>(SecretSource::Prompt { persist: true }),
            Ok(StoredSecretLookup::Unavailable) => r == Ok::<SecretSource, DcCmdError>(SecretSource::Prompt { persist: true }),
            Err(DcCmdError::CredentialStorageFailed) => r == Ok::<SecretSource, DcCmdError>(SecretSource::Prompt { persist: false }),
            Err(e) => r == Err::<SecretSource, DcCmdError>(e),
        },
{
    match given {
        Some(g) => Ok(SecretSource::Given(g)),
        None => match lookup {
            Ok(StoredSecretLookup::Found(s)) => Ok(SecretSource::Stored(s)),
            Ok(StoredSecretLookup::Missing) => Ok(SecretSource::Prompt { persist: true }),
            Ok(StoredSecretLookup::Unavailable) => Ok(SecretSource::Prompt { persist: true }),
            Err(DcCmdError::CredentialStorageFailed) => Ok(SecretSource::Prompt { persist: false }),
            Err(e) => Err(e),
        },
    }
}

/// Whether a rejected refresh token is deleted from the store: only when the
/// server rejected the token itself.
pub fn should_delete_rejected_token(err: &RefreshTokenConnectError) -> (r: bool)
    ensures
        r == (*err is InvalidToken),
{
    match err {
        RefreshTokenConnectError::InvalidToken(_) => true,
        RefreshTokenConnectError::Other(_) => false,
    }
}

/// The error reported when connecting with a given refresh token fails: a
/// rejected token means the account is not valid.
pub fn refresh_token_connect_error(err: RefreshTokenConnectError) -> (r: DcCmdError)
    ensures
        match err {
            RefreshTokenConnectError::InvalidToken(_) => r is InvalidAccount,
            RefreshTokenConnectError::Other(e) => r == e,
        },
{
    match err {
        RefreshTokenConnectError::InvalidToken(_) => DcCmdError::InvalidAccount,
        RefreshTokenConnectError::Other(e) => e,
    }
}

/// How many times an access token is refreshed before the refresh token is
/// rotated: more for long transfers.
pub fn token_rotation(is_transfer: bool) -> (r: u8)
    ensures
        r == if is_transfer { 5u8 } else { 1u8 },
{
    if is_transfer {
        5
    } else {
        1
    }
}

/// What reading one credential store gave.
#[derive(Debug, Clone, PartialEq, Eq)]
pub enum CredentialRead {
    Found(String),
    NoEntry,
    Failed,
}

/// What deleting from one credential store gave.
#[derive(Clone, Copy, Debug, Eq, PartialEq, Structural)]
pub enum DeleteOutcome {
    Deleted,
    Missing,
    Failed,
}

/// The lookup from the keyutils store, when the Secret Service had no entry
/// (or failed, `after_secret_service_failure`): a failure to open or read the
/// store makes the secret unavailable, and so does a missing entry after a
/// Secret Service failure; otherwise a missing entry is missing.
pub fn keyutils_fallback_lookup(
    entry_created: bool,
    read: CredentialRead,
    after_secret_service_failure: bool,
) -> (r: StoredSecretLookup)
    ensures
        !entry_created ==> r == StoredSecretLookup::Unavailable,
        entry_created ==> match read {
            CredentialRead::Found(s) => r == StoredSecretLookup::Found(s),
            CredentialRead::NoEntry => r == if after_secret_service_failure {
                StoredSecretLookup::Unavailable
            } else {
                StoredSecretLookup::Missing
            },
            CredentialRead::Failed => r == StoredSecretLookup::Unavailable,
        },
{
    if !entry_created {
        return StoredSecretLookup::Unavailable;
    }
    match read {
        CredentialRead::Found(s) => StoredSecretLookup::Found(s),
        CredentialRead::NoEntry => {
            if after_secret_service_failure {
                StoredSecretLookup::Unavailable
            } else {
                StoredSecretLookup::Missing
            }
        },
        CredentialRead::Failed => StoredSecretLookup::Unavailable,
    }
}

/// Storing a secret in both stores succeeds when the Secret Service took it or
/// at least the keyutils store did.
pub fn combine_store_results(secret_service_ok: bool, keyutils_ok: bool) -> (r: Result<(), DcCmdError>)
    ensures
        (secret_service_ok || keyutils_ok) ==> r is Ok,
        !(secret_service_ok || keyutils_ok) ==> r matches Err(DcCmdError::CredentialStorageFailed),
{
    if secret_service_ok || keyutils_ok {
        Ok(())
    } else {
        Err(DcCmdError::CredentialStorageFailed)
    }
}

/// Deleting a secret from both stores: missing in both means no such account,
/// a failure in either is a failed deletion, else it succeeded.
pub fn combine_delete_outcomes(secret_service: DeleteOutcome, keyutils: DeleteOutcome) -> (r: Result<
    (),
    DcCmdError,
>)
    ensures
        secret_service == DeleteOutcome::Missing && keyutils == DeleteOutcome::Missing ==> r matches Err(
            DcCmdError::InvalidAccount,
        ),
        !(secret_service == DeleteOutcome::Missing && keyutils == DeleteOutcome::Missing) && (
        secret_service == DeleteOutcome::Failed || keyutils == DeleteOutcome::Failed) ==> r matches Err(
            DcCmdError::CredentialDeletionFailed,
        ),
        !(secret_service == DeleteOutcome::Missing && keyutils == DeleteOutcome::Missing) && !(
        secret_service == DeleteOutcome::Failed || keyutils == DeleteOutcome::Failed) ==> r is Ok,
{
    if secret_service == DeleteOutcome::Missing && keyutils == DeleteOutcome::Missing {
        return Err(DcCmdError::InvalidAccount);
    }
    if secret_service == DeleteOutcome::Failed || keyutils == DeleteOutcome::Failed {
        return Err(DcCmdError::CredentialDeletionFailed);
    }
    Ok(())
}

} // verus!
