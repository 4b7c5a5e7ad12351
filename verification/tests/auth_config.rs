use std::{
    collections::HashMap,
    sync::{Arc, Mutex},
};

use dccmd_rs::app::auth::{
    combine_delete_outcomes, combine_store_results, encryption_account_for,
    encryption_secret_source, keyutils_fallback_lookup, refresh_token_connect_error,
    should_delete_rejected_token, token_rotation, AuthService, ConnectMode, CredentialRead,
    DeleteOutcome, RefreshTokenConnectError, SecretSource, SecretStore, StoredSecretLookup,
};
use dccmd_rs::app::auth::encryption::{encryption_step, EncryptionAction, EncryptionEvent, EncryptionStage};
use dccmd_rs::app::config::service::{secret_presence, ConfigService};
use dccmd_rs::errors::DcCmdError;

struct MockBackend;
struct MockPrompt;

#[derive(Default)]
struct StoreState {
    refresh_tokens: Mutex<HashMap<String, String>>,
    encryption_secrets: Mutex<HashMap<String, String>>,
    unavailable_refresh_accounts: Mutex<Vec<String>>,
    unavailable_encryption_accounts: Mutex<Vec<String>>,
    deleted_refresh_accounts: Mutex<Vec<String>>,
    deleted_encryption_accounts: Mutex<Vec<String>>,
}

#[derive(Clone, Default)]
struct InMemorySecretStore {
    state: Arc<StoreState>,
}

impl InMemorySecretStore {
    fn with_refresh_token(base_url: &str, refresh_token: &str) -> Self {
        let store = Self::default();
        store
            .state
            .refresh_tokens
            .lock()
            .expect("lock poisoned")
            .insert(base_url.to_string(), refresh_token.to_string());
        store
    }

    fn with_encryption_secret(account: &str, secret: &str) -> Self {
        let store = Self::default();
        store
            .state
            .encryption_secrets
            .lock()
            .expect("lock poisoned")
            .insert(account.to_string(), secret.to_string());
        store
    }

    fn with_unavailable_refresh_token(base_url: &str) -> Self {
        let store = Self::default();
        store
            .state
            .unavailable_refresh_accounts
            .lock()
            .expect("lock poisoned")
            .push(base_url.to_string());
        store
    }

    fn deleted_refresh_accounts(&self) -> Vec<String> {
        self.state.deleted_refresh_accounts.lock().expect("lock poisoned").clone()
    }

    fn deleted_encryption_accounts(&self) -> Vec<String> {
        self.state.deleted_encryption_accounts.lock().expect("lock poisoned").clone()
    }
}

impl SecretStore for InMemorySecretStore {
    fn lookup_refresh_token(&self, base_url: &str) -> Result<StoredSecretLookup, DcCmdError> {
        if self
            .state
            .unavailable_refresh_accounts
            .lock()
            .expect("lock poisoned")
            .iter()
            .any(|account| account == base_url)
        {
            return Ok(StoredSecretLookup::Unavailable);
        }

        Ok(self
            .state
            .refresh_tokens
            .lock()
            .expect("lock poisoned")
            .get(base_url)
            .cloned()
            .map(StoredSecretLookup::Found)
            .unwrap_or(StoredSecretLookup::Missing))
    }

    fn get_refresh_token(&self, base_url: &str) -> Result<String, DcCmdError> {
        self.lookup_refresh_token(base_url)?.into_result()
    }

    fn set_refresh_token(&self, _base_url: &str, _refresh_token: &str) -> Result<(), DcCmdError> {
        Ok(())
    }

    fn delete_refresh_token(&self, base_url: &str) -> Result<(), DcCmdError> {
        self.state
            .deleted_refresh_accounts
            .lock()
            .expect("lock poisoned")
            .push(base_url.to_string());
        Ok(())
    }

    fn lookup_encryption_secret(&self, account: &str) -> Result<StoredSecretLookup, DcCmdError> {
        if self
            .state
            .unavailable_encryption_accounts
            .lock()
            .expect("lock poisoned")
            .iter()
            .any(|stored_account| stored_account == account)
        {
            return Ok(StoredSecretLookup::Unavailable);
        }

        Ok(self
            .state
            .encryption_secrets
            .lock()
            .expect("lock poisoned")
            .get(account)
            .cloned()
            .map(StoredSecretLookup::Found)
            .unwrap_or(StoredSecretLookup::Missing))
    }

    fn get_encryption_secret(&self, account: &str) -> Result<String, DcCmdError> {
        self.lookup_encryption_secret(account)?.into_result()
    }

    fn set_encryption_secret(&self, _account: &str, _secret: &str) -> Result<(), DcCmdError> {
        Ok(())
    }

    fn delete_encryption_secret(&self, account: &str) -> Result<(), DcCmdError> {
        self.state
            .deleted_encryption_accounts
            .lock()
            .expect("lock poisoned")
            .push(account.to_string());
        Ok(())
    }
}

#[test]
fn test_resolve_connect_mode_password() {
    let mode = AuthService::<MockBackend, InMemorySecretStore, MockPrompt>::resolve_connect_mode(
        true, true,
    );
    assert_eq!(mode, ConnectMode::Password);
}

#[test]
fn test_resolve_connect_mode_refresh_token() {
    let mode = AuthService::<MockBackend, InMemorySecretStore, MockPrompt>::resolve_connect_mode(
        false, true,
    );
    assert_eq!(mode, ConnectMode::RefreshToken);
}

#[test]
fn test_resolve_connect_mode_auth_code() {
    let mode = AuthService::<MockBackend, InMemorySecretStore, MockPrompt>::resolve_connect_mode(
        false, false,
    );
    assert_eq!(mode, ConnectMode::AuthCode);
}

#[test]
fn test_parse_base_url_cases() {
    type Service = AuthService<MockBackend, InMemorySecretStore, MockPrompt>;
    assert_eq!(Service::parse_base_url("https://dracoon.example.com/room/x".to_string()).unwrap(), "https://dracoon.example.com");
    assert_eq!(Service::parse_base_url("dracoon.example.com/room".to_string()).unwrap(), "https://dracoon.example.com");
    assert!(matches!(
        Service::parse_base_url("dracoon.example.com".to_string()),
        Err(DcCmdError::InvalidUrl(u)) if u == "dracoon.example.com"
    ));
    assert!(matches!(
        Service::parse_base_url("http://dracoon.example.com/x".to_string()),
        Err(DcCmdError::InvalidUrl(u)) if u == "http://dracoon.example.com/x"
    ));
}

#[test]
fn test_auth_decisions() {
    assert_eq!(encryption_account_for("https://d.example.com"), "https://d.example.com-crypto");
    assert_eq!(
        encryption_secret_source(Some("pw".to_string()), Ok(StoredSecretLookup::Missing)).unwrap(),
        SecretSource::Given("pw".to_string())
    );
    assert_eq!(
        encryption_secret_source(None, Ok(StoredSecretLookup::Found("s".to_string()))).unwrap(),
        SecretSource::Stored("s".to_string())
    );
    assert_eq!(
        encryption_secret_source(None, Ok(StoredSecretLookup::Unavailable)).unwrap(),
        SecretSource::Prompt { persist: true }
    );
    assert_eq!(
        encryption_secret_source(None, Err(DcCmdError::CredentialStorageFailed)).unwrap(),
        SecretSource::Prompt { persist: false }
    );
    assert!(matches!(encryption_secret_source(None, Err(DcCmdError::IoError)), Err(DcCmdError::IoError)));
    assert!(should_delete_rejected_token(&RefreshTokenConnectError::InvalidToken("bad".to_string())));
    assert!(!should_delete_rejected_token(&RefreshTokenConnectError::Other(DcCmdError::IoError)));
    assert!(matches!(
        refresh_token_connect_error(RefreshTokenConnectError::InvalidToken("bad".to_string())),
        DcCmdError::InvalidAccount
    ));
    assert_eq!(token_rotation(true), 5);
    assert_eq!(token_rotation(false), 1);
    assert!(matches!(StoredSecretLookup::Missing.into_result(), Err(DcCmdError::InvalidAccount)));
    assert!(matches!(StoredSecretLookup::Unavailable.into_result(), Err(DcCmdError::CredentialStorageFailed)));
}

#[test]
fn test_credential_store_rules() {
    assert_eq!(keyutils_fallback_lookup(false, CredentialRead::Found("s".to_string()), false), StoredSecretLookup::Unavailable);
    assert_eq!(keyutils_fallback_lookup(true, CredentialRead::Found("s".to_string()), true), StoredSecretLookup::Found("s".to_string()));
    assert_eq!(keyutils_fallback_lookup(true, CredentialRead::NoEntry, true), StoredSecretLookup::Unavailable);
    assert_eq!(keyutils_fallback_lookup(true, CredentialRead::NoEntry, false), StoredSecretLookup::Missing);
    assert_eq!(keyutils_fallback_lookup(true, CredentialRead::Failed, false), StoredSecretLookup::Unavailable);
    assert!(combine_store_results(false, true).is_ok());
    assert!(matches!(combine_store_results(false, false), Err(DcCmdError::CredentialStorageFailed)));
    assert!(matches!(combine_delete_outcomes(DeleteOutcome::Missing, DeleteOutcome::Missing), Err(DcCmdError::InvalidAccount)));
    assert!(matches!(combine_delete_outcomes(DeleteOutcome::Deleted, DeleteOutcome::Failed), Err(DcCmdError::CredentialDeletionFailed)));
    assert!(combine_delete_outcomes(DeleteOutcome::Deleted, DeleteOutcome::Missing).is_ok());
}

#[test]
fn test_normalize_base_url_strips_path_and_scheme() {
    let service = ConfigService::with_store(InMemorySecretStore::default());

    let normalized = service
        .normalize_base_url("dracoon.example.com/some/path")
        .unwrap();

    assert_eq!(normalized, "https://dracoon.example.com");
}

#[test]
fn test_normalize_base_url_other_forms() {
    let service = ConfigService::with_store(InMemorySecretStore::default());
    assert_eq!(service.normalize_base_url("  https://dracoon.example.com/  ").unwrap(), "https://dracoon.example.com");
    assert!(matches!(
        service.normalize_base_url("http://dracoon.example.com"),
        Err(DcCmdError::InvalidUrl(u)) if u == "http://dracoon.example.com/_"
    ));
    assert_eq!(service.encryption_account("dracoon.example.com").unwrap(), "https://dracoon.example.com-crypto");
}

#[test]
fn test_has_encryption_secret_returns_false_when_missing() {
    let service = ConfigService::with_store(InMemorySecretStore::default());

    let has_secret = service
        .has_encryption_secret("dracoon.example.com")
        .unwrap();

    assert!(!has_secret);
}

#[test]
fn test_has_encryption_secret_returns_true_when_present() {
    let store =
        InMemorySecretStore::with_encryption_secret("https://dracoon.example.com-crypto", "secret");
    let service = ConfigService::with_store(store);

    let has_secret = service
        .has_encryption_secret("dracoon.example.com")
        .unwrap();

    assert!(has_secret);
}

#[test]
fn test_get_refresh_token_uses_normalized_base_url() {
    let store = InMemorySecretStore::with_refresh_token(
        "https://dracoon.example.com",
        "stored-refresh-token",
    );
    let service = ConfigService::with_store(store);

    let refresh_token = service
        .get_refresh_token("dracoon.example.com/some/path")
        .unwrap();

    assert_eq!(refresh_token, "stored-refresh-token");
}

#[test]
fn test_get_refresh_token_errors_when_storage_is_unavailable() {
    let store = InMemorySecretStore::with_unavailable_refresh_token("https://dracoon.example.com");
    let service = ConfigService::with_store(store);

    let err = service
        .get_refresh_token("dracoon.example.com/some/path")
        .unwrap_err();

    assert!(matches!(err, DcCmdError::CredentialStorageFailed));
}

#[test]
fn test_remove_refresh_token_uses_normalized_base_url() {
    let store = InMemorySecretStore::default();
    let view = store.clone();
    let service = ConfigService::with_store(store);

    service
        .remove_refresh_token("dracoon.example.com/some/path")
        .unwrap();

    assert_eq!(
        view.deleted_refresh_accounts(),
        vec!["https://dracoon.example.com".to_string()]
    );
}

#[test]
fn test_remove_encryption_secret_uses_crypto_account() {
    let store = InMemorySecretStore::default();
    let view = store.clone();
    let service = ConfigService::with_store(store);

    service
        .remove_encryption_secret("dracoon.example.com")
        .unwrap();

    assert_eq!(
        view.deleted_encryption_accounts(),
        vec!["https://dracoon.example.com-crypto".to_string()]
    );
}

#[test]
fn test_secret_presence() {
    assert!(secret_presence(StoredSecretLookup::Found("x".to_string())).unwrap());
    assert!(!secret_presence(StoredSecretLookup::Missing).unwrap());
    assert!(matches!(secret_presence(StoredSecretLookup::Unavailable), Err(DcCmdError::CredentialStorageFailed)));
}

#[test]
fn normalized_base_url_normalizes_to_itself() {
    let service = ConfigService::with_store(InMemorySecretStore::default());
    for target in ["dracoon.example.com/a/b", " https://dracoon.example.com ", "team.dracoon.com/"] {
        let once = service.normalize_base_url(target).unwrap();
        let twice = service.normalize_base_url(&once).unwrap();
        assert_eq!(once, twice);
    }
}

#[test]
fn targets_on_one_host_share_the_base_url() {
    let service = ConfigService::with_store(InMemorySecretStore::default());
    for host in ["dracoon.example.com", "localhost:8443", "h"] {
        let expected = format!("https://{host}");
        for path in ["", "/", "/a", "/a/b/", "//x"] {
            let target = format!("{host}{path}");
            assert_eq!(service.normalize_base_url(&target).unwrap(), expected, "{target}");
        }
    }
}

#[test]
fn unlocking_stores_only_an_asked_secret_that_proved_right() {
    // a missing stored secret is asked for, checked, then stored
    let (stage, action) = encryption_step(EncryptionStage::Start, EncryptionEvent::Begin { given: None });
    assert!(matches!(action, EncryptionAction::LookupSecret));
    let (stage, action) =
        encryption_step(stage, EncryptionEvent::LookupResult(Ok(StoredSecretLookup::Missing)));
    assert!(matches!(action, EncryptionAction::AskSecret));
    let (stage, action) = encryption_step(stage, EncryptionEvent::Prompted(Ok("s3cret".to_string())));
    assert!(matches!(action, EncryptionAction::VerifySecret(ref s) if s == "s3cret"));
    let (stage, action) = encryption_step(stage, EncryptionEvent::Verified(Ok(())));
    assert!(matches!(action, EncryptionAction::StoreSecret(ref s) if s == "s3cret"));
    let (_, action) = encryption_step(stage, EncryptionEvent::Stored(Ok(())));
    assert!(matches!(action, EncryptionAction::Unlocked));

    // a given secret is checked and never stored
    let (stage, action) =
        encryption_step(EncryptionStage::Start, EncryptionEvent::Begin { given: Some("given".to_string()) });
    assert!(matches!(action, EncryptionAction::VerifySecret(ref s) if s == "given"));
    let (_, action) = encryption_step(stage, EncryptionEvent::Verified(Ok(())));
    assert!(matches!(action, EncryptionAction::Unlocked));

    // an unusable store: asked for, not stored
    let (stage, _) = encryption_step(EncryptionStage::Start, EncryptionEvent::Begin { given: None });
    let (stage, action) =
        encryption_step(stage, EncryptionEvent::LookupResult(Err(DcCmdError::CredentialStorageFailed)));
    assert!(matches!(action, EncryptionAction::AskSecret));
    let (stage, _) = encryption_step(stage, EncryptionEvent::Prompted(Ok("x".to_string())));
    let (_, action) = encryption_step(stage, EncryptionEvent::Verified(Ok(())));
    assert!(matches!(action, EncryptionAction::Unlocked));

    // a rejected secret ends with the server's error
    let (stage, _) =
        encryption_step(EncryptionStage::Start, EncryptionEvent::Begin { given: Some("bad".to_string()) });
    let (_, action) = encryption_step(stage, EncryptionEvent::Verified(Err(DcCmdError::ConnectionFailed)));
    assert!(matches!(action, EncryptionAction::Fail(DcCmdError::ConnectionFailed)));
}
