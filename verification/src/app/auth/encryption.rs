//! Unlocking encryption for a session: where the encryption secret comes
//! from (given, stored or asked for), checking it with the server, and
//! storing an asked-for secret once it is known to be right.

use vstd::prelude::*;
use crate::app::auth::{encryption_secret_source, SecretSource, StoredSecretLookup};
use crate::errors::DcCmdError;

verus! {

/// Where unlocking stands.
#[derive(Debug, Clone)]
pub enum EncryptionStage {
    /// Nothing done yet.
    Start,
    /// Looking up the stored secret.
    AwaitLookup,
    /// Asking the user for the secret; `persist` says whether it is stored
    /// once it proves right.
    AwaitPrompt { persist: bool },
    /// Checking the secret with the server.
    AwaitVerify { secret: String, persist: bool },
    /// Storing the secret that proved right.
    AwaitStore,
    /// Unlocked, or given up.
    Done,
}

/// What the caller does next.
#[derive(Debug)]
pub enum EncryptionAction {
    LookupSecret,
    AskSecret,
    VerifySecret(String),
    StoreSecret(String),
    /// Encryption is unlocked.
    Unlocked,
    /// Unlocking failed.
    Fail(DcCmdError),
}

/// What came of the last action.
#[derive(Debug)]
pub enum EncryptionEvent {
    Begin { given: Option<String> },
    LookupResult(Result<StoredSecretLookup, DcCmdError>),
    Prompted(Result<String, DcCmdError>),
    Verified(Result<(), DcCmdError>),
    Stored(Result<(), DcCmdError>),
}

/// Whether an event answers the action of a stage.
pub open spec fn encryption_event_fits(stage: EncryptionStage, event: EncryptionEvent) -> bool {
    match stage {
        EncryptionStage::Start => event is Begin,
        EncryptionStage::AwaitLookup => event is LookupResult,
        EncryptionStage::AwaitPrompt { .. } => event is Prompted,
        EncryptionStage::AwaitVerify { .. } => event is Verified,
        EncryptionStage::AwaitStore => event is Stored,
        EncryptionStage::Done => false,
    }
}

/// The step after a secret is known: check it with the server.
pub open spec fn verify_next(secret: String, persist: bool) -> (EncryptionStage, EncryptionAction) {
    (EncryptionStage::AwaitVerify { secret, persist }, EncryptionAction::VerifySecret(secret))
}

/// The next stage and action: a given secret is checked and never stored; a
/// stored secret is checked; a missing or unavailable one is asked for and
/// stored once it proves right; when the store cannot be used at all it is
/// asked for and not stored; any other store error, a failed prompt, a
/// secret the server rejects or a failed store ends with that error.
pub open spec fn encryption_next(stage: EncryptionStage, event: EncryptionEvent) -> (EncryptionStage, EncryptionAction) {
    match event {
        EncryptionEvent::Begin { given } => match given {
            Some(g) => verify_next(g, false),
            None => (EncryptionStage::AwaitLookup, EncryptionAction::LookupSecret),
        },
        EncryptionEvent::LookupResult(l) => match l {
            Ok(StoredSecretLookup::Found(s)) => verify_next(s, false),
            Ok(_) => (EncryptionStage::AwaitPrompt { persist: true }, EncryptionAction::AskSecret),
            Err(DcCmdError::CredentialStorageFailed) => (
                EncryptionStage::AwaitPrompt { persist: false },
                EncryptionAction::AskSecret,
            ),
            Err(e) => (EncryptionStage::Done, EncryptionAction::Fail(e)),
        },
        EncryptionEvent::Prompted(p) => match p {
            Ok(s) => verify_next(
                s,
                match stage {
                    EncryptionStage::AwaitPrompt { persist } => persist,
                    _ => false,
                },
            ),
            Err(e) => (EncryptionStage::Done, EncryptionAction::Fail(e)),
        },
        EncryptionEvent::Verified(v) => match v {
            Ok(()) => match stage {
                EncryptionStage::AwaitVerify { secret, persist } => if persist {
                    (EncryptionStage::AwaitStore, EncryptionAction::StoreSecret(secret))
                } else {
                    (EncryptionStage::Done, EncryptionAction::Unlocked)
                },
                _ => (EncryptionStage::Done, EncryptionAction::Unlocked),
            },
            Err(e) => (EncryptionStage::Done, EncryptionAction::Fail(e)),
        },
        EncryptionEvent::Stored(s) => match s {
            Ok(()) => (EncryptionStage::Done, EncryptionAction::Unlocked),
            Err(e) => (EncryptionStage::Done, EncryptionAction::Fail(e)),
        },
    }
}

/// One step of unlocking encryption (see `encryption_next`). A secret is
/// stored only right after the server accepted it, and only when it was
/// asked for.
pub fn encryption_step(stage: EncryptionStage, event: EncryptionEvent) -> (r: (EncryptionStage, EncryptionAction))
    requires
        encryption_event_fits(stage, event),
    ensures
        r == encryption_next(stage, event),
        r.1 is StoreSecret ==> (stage matches EncryptionStage::AwaitVerify { persist, .. } && persist && event
            matches EncryptionEvent::Verified(Ok(_))),
{
    match event {
        EncryptionEvent::Begin { given } => match given {
            Some(g) => (EncryptionStage::AwaitVerify { secret: g.clone(), persist: false }, EncryptionAction::VerifySecret(g)),
            None => (EncryptionStage::AwaitLookup, EncryptionAction::LookupSecret),
        },
        EncryptionEvent::LookupResult(l) => match encryption_secret_source(None, l) {
            Ok(SecretSource::Stored(s)) => (EncryptionStage::AwaitVerify { secret: s.clone(), persist: false }, EncryptionAction::VerifySecret(s)),
            Ok(SecretSource::Prompt { persist }) => (EncryptionStage::AwaitPrompt { persist }, EncryptionAction::AskSecret),
            Ok(SecretSource::Given(g)) => (EncryptionStage::AwaitVerify { secret: g.clone(), persist: false }, EncryptionAction::VerifySecret(g)),
            Err(e) => (EncryptionStage::Done, EncryptionAction::Fail(e)),
        },
        EncryptionEvent::Prompted(p) => match p {
            Ok(s) => {
                let persist = match stage {
                    EncryptionStage::AwaitPrompt { persist } => persist,
                    _ => false,
                };
                (EncryptionStage::AwaitVerify { secret: s.clone(), persist }, EncryptionAction::VerifySecret(s))
            },
            Err(e) => (EncryptionStage::Done, EncryptionAction::Fail(e)),
        },
        EncryptionEvent::Verified(v) => match v {
            Ok(()) => match stage {
                EncryptionStage::AwaitVerify { secret, persist } => if persist {
                    (EncryptionStage::AwaitStore, EncryptionAction::StoreSecret(secret))
                } else {
                    (EncryptionStage::Done, EncryptionAction::Unlocked)
                },
                _ => (EncryptionStage::Done, EncryptionAction::Unlocked),
            },
            Err(e) => (EncryptionStage::Done, EncryptionAction::Fail(e)),
        },
        EncryptionEvent::Stored(s) => match s {
            Ok(()) => (EncryptionStage::Done, EncryptionAction::Unlocked),
            Err(e) => (EncryptionStage::Done, EncryptionAction::Fail(e)),
        },
    }
}

} // verus!
