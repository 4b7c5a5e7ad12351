//! The config command's service: stored refresh tokens and encryption
//! secrets, found by the normalised base url of a target.

use vstd::prelude::*;
use crate::app::auth::{
    encryption_account_for, encryption_account_spec, parse_base_url_spec, secret_of_lookup, AuthService,
    SecretStore, StoredSecretLookup,
};
use crate::errors::DcCmdError;
use crate::text::{
    append_str, chars_of, is_ws, join, lemma_split_join, lemma_split_pieces_free, split, starts_with,
    starts_with_chars, string_of, trim_end, trim_end_chars, trim_ws, trim_ws_chars, extend_chars,
    leading_ws, trailing_ws,
};

verus! {

/// The text handed to base url parsing for a target: trimmed, with `https://`
/// added when it has no scheme, without trailing slashes, and with a dummy
/// path segment so that a bare host is accepted.
pub open spec fn config_url_spec(target: Seq<char>) -> Seq<char> {
    let t = trim_ws(target);
    let with_scheme = if starts_with(t, "https://"@) || starts_with(t, "http://"@) {
        t
    } else {
        "https://"@ + t
    };
    trim_end(with_scheme, '/') + "/_"@
}

/// Whether a stored-secret lookup says the secret exists; an unusable store is
/// an error.
pub open spec fn presence_of_lookup(lookup: StoredSecretLookup) -> Result<bool, DcCmdError> {
    match lookup {
        StoredSecretLookup::Found(_) => Ok(true),
        StoredSecretLookup::Missing => Ok(false),
        StoredSecretLookup::Unavailable => Err(DcCmdError::CredentialStorageFailed),
    }
}

/// Whether a stored-secret lookup says the secret exists (see
/// `presence_of_lookup`).
pub fn secret_presence(lookup: StoredSecretLookup) -> (r: Result<bool, DcCmdError>)
    ensures
        r == presence_of_lookup(lookup),
        match lookup {
            StoredSecretLookup::Found(_) => r == Ok::<bool, DcCmdError>(true),
            StoredSecretLookup::Missing => r == Ok::<bool, DcCmdError>(false),
            StoredSecretLookup::Unavailable => r matches Err(DcCmdError::CredentialStorageFailed),
        },
{
    match lookup {
        StoredSecretLookup::Found(_) => Ok(true),
        StoredSecretLookup::Missing => Ok(false),
        StoredSecretLookup::Unavailable => Err(DcCmdError::CredentialStorageFailed),
    }
}

/// Reads and removes stored credentials for DRACOON targets.
pub struct ConfigService<S> {
    store: S,
}

impl<S: SecretStore> ConfigService<S> {
    pub closed spec fn store_view(&self) -> S {
        self.store
    }

    /// A service on the given store.
    pub fn with_store(store: S) -> (s: Self)
        ensures
            s.store_view() == store,
    {
        ConfigService { store }
    }

    /// The base url of a target: `https://` and the host (see
    /// `config_url_spec`); an unusable target is an invalid url.
    pub fn normalize_base_url(&self, target: &str) -> (r: Result<String, DcCmdError>)
        ensures
            match parse_base_url_spec(config_url_spec(target@)) {
                Some(b) => r matches Ok(x) && x@ == b,
                None => r matches Err(DcCmdError::InvalidUrl(u)) && u@ == config_url_spec(target@),
            },
    {
        let t = trim_ws_chars(chars_of(target).as_slice());
        let https = chars_of("https://");
        let http = chars_of("http://");
        let with_scheme = if starts_with_chars(t.as_slice(), https.as_slice()) || starts_with_chars(
            t.as_slice(),
            http.as_slice(),
        ) {
            t
        } else {
            let mut v: Vec<char> = Vec::new();
            append_str(&mut v, "https://");
            extend_chars(&mut v, t.as_slice());
            v
        };
        let mut url = trim_end_chars(with_scheme.as_slice(), '/');
        let ghost trimmed = url@;
        append_str(&mut url, "/_");
        AuthService::<(), S, ()>::parse_base_url(string_of(url.as_slice()))
    }

    /// The account of a target's encryption secret: its base url and
    /// `-crypto`.
    pub fn encryption_account(&self, target: &str) -> (r: Result<String, DcCmdError>)
        ensures
            match parse_base_url_spec(config_url_spec(target@)) {
                Some(b) => r matches Ok(x) && x@ == encryption_account_spec(b),
                None => r matches Err(DcCmdError::InvalidUrl(u)) && u@ == config_url_spec(target@),
            },
    {
        match self.normalize_base_url(target) {
            Ok(base) => Ok(encryption_account_for(base.as_str())),
            Err(e) => Err(e),
        }
    }

    /// Whether an encryption secret is stored for the target: the store is
    /// asked under the target's encryption account, and its answer is read
    /// by `presence_of_lookup` (a failing store's error is passed on).
    pub fn has_encryption_secret(&self, target: &str) -> (r: Result<bool, DcCmdError>)
        ensures
            match parse_base_url_spec(config_url_spec(target@)) {
                None => r matches Err(DcCmdError::InvalidUrl(u)) && u@ == config_url_spec(target@),
                Some(b) => exists|a: Result<StoredSecretLookup, DcCmdError>|
                    #[trigger] self.store_view().encryption_lookup_answer(encryption_account_spec(b), a)
                        && r == match a {
                        Ok(l) => presence_of_lookup(l),
                        Err(e) => Err(e),
                    },
            },
    {
        let account = match self.encryption_account(target) {
            Ok(a) => a,
            Err(e) => {
                return Err(e);
            },
        };
        let answer = self.store.lookup_encryption_secret(account.as_str());
        let ghost a = answer;
        let r = match answer {
            Ok(lookup) => secret_presence(lookup),
            Err(e) => Err(e),
        };
        assert(self.store_view().encryption_lookup_answer(account@, a));
        r
    }

    /// Removes the refresh token stored for the target's base url: the
    /// store is asked to delete under that base url, and its answer is the
    /// result.
    pub fn remove_refresh_token(&self, target: &str) -> (r: Result<(), DcCmdError>)
        ensures
            match parse_base_url_spec(config_url_spec(target@)) {
                None => r matches Err(DcCmdError::InvalidUrl(u)) && u@ == config_url_spec(target@),
                Some(b) => self.store_view().refresh_delete_answer(b, r),
            },
    {
        let base_url = match self.normalize_base_url(target) {
            Ok(b) => b,
            Err(e) => {
                return Err(e);
            },
        };
        self.store.delete_refresh_token(base_url.as_str())
    }

    /// Removes the encryption secret stored for the target: the store is
    /// asked to delete under the target's encryption account, and its answer
    /// is the result.
    pub fn remove_encryption_secret(&self, target: &str) -> (r: Result<(), DcCmdError>)
        ensures
            match parse_base_url_spec(config_url_spec(target@)) {
                None => r matches Err(DcCmdError::InvalidUrl(u)) && u@ == config_url_spec(target@),
                Some(b) => self.store_view().encryption_delete_answer(encryption_account_spec(b), r),
            },
    {
        let account = match self.encryption_account(target) {
            Ok(a) => a,
            Err(e) => {
                return Err(e);
            },
        };
        self.store.delete_encryption_secret(account.as_str())
    }

    /// The refresh token stored for the target's base url: the store is
    /// asked under that base url, and its answer is read by
    /// `secret_of_lookup` (a failing store's error is passed on).
    pub fn get_refresh_token(&self, target: &str) -> (r: Result<String, DcCmdError>)
        ensures
            match parse_base_url_spec(config_url_spec(target@)) {
                None => r matches Err(DcCmdError::InvalidUrl(u)) && u@ == config_url_spec(target@),
                Some(b) => exists|a: Result<StoredSecretLookup, DcCmdError>|
                    #[trigger] self.store_view().refresh_lookup_answer(b, a) && r == match a {
                        Ok(l) => secret_of_lookup(l),
                        Err(e) => Err(e),
                    },
            },
    {
        let base_url = match self.normalize_base_url(target) {
            Ok(b) => b,
            Err(e) => {
                return Err(e);
            },
        };
        let answer = self.store.lookup_refresh_token(base_url.as_str());
        let ghost a = answer;
        let r = match answer {
            Ok(lookup) => lookup.into_result(),
            Err(e) => Err(e),
        };
        assert(self.store_view().refresh_lookup_answer(base_url@, a));
        r
    }
}

/// A base url that normalisation produced is normalised to itself: looking a
/// target up by its base url finds what was stored under that base url. This
/// holds when the host is not empty and neither starts nor ends with white
/// space (which trimming would remove).
pub proof fn lemma_normalize_base_url_idempotent(target: Seq<char>)
    requires
        parse_base_url_spec(config_url_spec(target)) is Some,
        parse_base_url_spec(config_url_spec(target))->0.len() > 8,
        !is_ws(parse_base_url_spec(config_url_spec(target))->0[8]),
        !is_ws(parse_base_url_spec(config_url_spec(target))->0.last()),
    ensures
        parse_base_url_spec(config_url_spec(parse_base_url_spec(config_url_spec(target))->0))
            == parse_base_url_spec(config_url_spec(target)),
{
    reveal_strlit("https://");
    reveal_strlit("http://");
    reveal_strlit("/_");
    let url = config_url_spec(target);
    let b = parse_base_url_spec(url)->0;
    let rest = if starts_with(url, "https://"@) {
        url.subrange(8, url.len() as int)
    } else {
        url
    };
    let h = split(rest, '/')[0];
    lemma_split_pieces_free(rest, '/');
    assert(!h.contains('/'));
    assert(b =~= "https://"@ + h);
    assert(h.len() > 0);
    assert(b[8] == h[0]);
    assert(b.last() == h.last());
    // trimming leaves it as it is
    assert(leading_ws(b) == 0) by {
        assert(b[0] == 'h');
        assert(!is_ws('h'));
    }
    assert(b.subrange(0, b.len() as int) =~= b);
    assert(trailing_ws(b) == 0);
    assert(trim_ws(b) =~= b);
    assert(b.subrange(0, 8) =~= "https://"@);
    assert(starts_with(b, "https://"@));
    assert(b.last() != '/') by {
        if b.last() == '/' {
            assert(h[h.len() - 1] == '/');
        }
    }
    assert(trim_end(b, '/') == b);
    let url2 = config_url_spec(b);
    assert(url2 =~= b + "/_"@);
    assert(!starts_with(url2, "http://"@)) by {
        assert(url2[4] == 's');
        assert("http://"@[4] == ':');
        if starts_with(url2, "http://"@) {
            assert(url2.subrange(0, 7)[4] == url2[4]);
        }
    }
    assert(url2.subrange(0, 8) =~= "https://"@);
    assert(starts_with(url2, "https://"@));
    let rest2 = url2.subrange(8, url2.len() as int);
    assert(rest2 =~= h + "/_"@);
    let parts = seq![h, seq!['_']];
    assert(!seq!['_'].contains('/')) by {
        if seq!['_'].contains('/') {
            let k = choose|k: int| 0 <= k < 1 && seq!['_'][k] == '/';
        }
    }
    assert forall|i: int| 0 <= i < parts.len() implies !(#[trigger] parts[i]).contains('/') by {
        if i == 0 {
            assert(parts[0] == h);
        } else {
            assert(parts[1] == seq!['_']);
        }
    }
    lemma_split_join(parts, '/');
    assert(parts.drop_last() =~= seq![h]);
    assert(join(parts.drop_last(), seq!['/']) == h);
    assert(join(parts, seq!['/']) =~= h + "/_"@);
    assert(split(rest2, '/') == parts);
    assert(split(rest2, '/')[0] == h);
}

} // verus!
