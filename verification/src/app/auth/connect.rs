//! The decisions of connecting to DRACOON, as a machine: the caller performs
//! each action (a call to the backend, the store or the user) and hands back
//! what came of it; the machine says what to do next.

use vstd::prelude::*;
use crate::app::auth::{RefreshTokenConnectError, StoredSecretLookup};
use crate::errors::DcCmdError;

verus! {

/// How a session was authenticated.
#[derive(Debug, Clone, Copy, PartialEq, Eq, Structural)]
pub enum AuthMode {
    PasswordFlow,
    RefreshToken,
    AuthCode,
}

/// Where a connection stands.
#[derive(Debug, Clone, Copy, PartialEq, Eq, Structural)]
pub enum ConnectStage {
    /// Nothing done yet.
    Start,
    /// Connecting with user name and password.
    AwaitPassword,
    /// Looking up a stored refresh token.
    AwaitLookup,
    /// Connecting with the stored refresh token.
    AwaitRefresh,
    /// Deleting a stored refresh token the server rejected.
    AwaitDelete,
    /// Fetching the rotated refresh token after connecting with the stored one.
    AwaitRefreshedToken,
    /// Storing the rotated refresh token.
    AwaitStoreRefreshed,
    /// Getting the url where the user signs in.
    AwaitAuthorizeUrl,
    /// Asking the user for the authorization code.
    AwaitAuthCode,
    /// Connecting with the authorization code.
    AwaitAuthCodeConnect,
    /// Fetching the refresh token of the new session.
    AwaitNewToken,
    /// Storing the refresh token of the new session.
    AwaitStoreNewToken,
    /// Connected, or given up.
    Done,
}

/// What the caller does next.
#[derive(Debug)]
pub enum ConnectAction {
    ConnectPassword,
    LookupRefreshToken,
    ConnectRefreshToken(String),
    DeleteRefreshToken,
    FetchRefreshToken,
    StoreRefreshToken(String),
    RequestAuthorizeUrl,
    AskAuthCode(String),
    ConnectAuthCode(String),
    /// The session is established.
    Connected(AuthMode),
    /// The connection failed.
    Fail(DcCmdError),
}

/// What came of the last action.
#[derive(Debug)]
pub enum ConnectEvent {
    Begin { has_password: bool },
    PasswordResult(Result<(), DcCmdError>),
    LookupResult(Result<StoredSecretLookup, DcCmdError>),
    RefreshResult(Result<(), RefreshTokenConnectError>),
    Deleted,
    FetchedToken(Result<String, DcCmdError>),
    Stored(Result<(), DcCmdError>),
    AuthorizeUrl(Result<String, DcCmdError>),
    AuthCode(Result<String, DcCmdError>),
    AuthCodeResult(Result<(), DcCmdError>),
}

/// Whether an event answers the action of a stage.
pub open spec fn event_fits(stage: ConnectStage, event: ConnectEvent) -> bool {
    match stage {
        ConnectStage::Start => event is Begin,
        ConnectStage::AwaitPassword => event is PasswordResult,
        ConnectStage::AwaitLookup => event is LookupResult,
        ConnectStage::AwaitRefresh => event is RefreshResult,
        ConnectStage::AwaitDelete => event is Deleted,
        ConnectStage::AwaitRefreshedToken => event is FetchedToken,
        ConnectStage::AwaitStoreRefreshed => event is Stored,
        ConnectStage::AwaitAuthorizeUrl => event is AuthorizeUrl,
        ConnectStage::AwaitAuthCode => event is AuthCode,
        ConnectStage::AwaitAuthCodeConnect => event is AuthCodeResult,
        ConnectStage::AwaitNewToken => event is FetchedToken,
        ConnectStage::AwaitStoreNewToken => event is Stored,
        ConnectStage::Done => false,
    }
}

/// The next stage: a password connects directly; otherwise a stored refresh
/// token is tried first (a rejected one is deleted) and the authorization code
/// flow is the fallback; the refreshed token is stored on a best-effort basis,
/// the token of a new session must be stored.
pub open spec fn next_stage(stage: ConnectStage, event: ConnectEvent) -> ConnectStage {
    match event {
        ConnectEvent::Begin { has_password } => if has_password {
            ConnectStage::AwaitPassword
        } else {
            ConnectStage::AwaitLookup
        },
        ConnectEvent::PasswordResult(_) => ConnectStage::Done,
        ConnectEvent::LookupResult(r) => match r {
            Ok(StoredSecretLookup::Found(_)) => ConnectStage::AwaitRefresh,
            Ok(_) => ConnectStage::AwaitAuthorizeUrl,
            Err(_) => ConnectStage::Done,
        },
        ConnectEvent::RefreshResult(r) => match r {
            Ok(_) => ConnectStage::AwaitRefreshedToken,
            Err(RefreshTokenConnectError::InvalidToken(_)) => ConnectStage::AwaitDelete,
            Err(RefreshTokenConnectError::Other(_)) => ConnectStage::AwaitAuthorizeUrl,
        },
        ConnectEvent::Deleted => ConnectStage::AwaitAuthorizeUrl,
        ConnectEvent::FetchedToken(r) => if stage == ConnectStage::AwaitRefreshedToken {
            if r is Ok {
                ConnectStage::AwaitStoreRefreshed
            } else {
                ConnectStage::Done
            }
        } else {
            if r is Ok {
                ConnectStage::AwaitStoreNewToken
            } else {
                ConnectStage::Done
            }
        },
        ConnectEvent::Stored(_) => ConnectStage::Done,
        ConnectEvent::AuthorizeUrl(r) => if r is Ok {
            ConnectStage::AwaitAuthCode
        } else {
            ConnectStage::Done
        },
        ConnectEvent::AuthCode(r) => if r is Ok {
            ConnectStage::AwaitAuthCodeConnect
        } else {
            ConnectStage::Done
        },
        ConnectEvent::AuthCodeResult(r) => if r is Ok {
            ConnectStage::AwaitNewToken
        } else {
            ConnectStage::Done
        },
    }
}

/// The action that goes with a step: see `next_stage` for the order; an error
/// of the password, lookup, url, code, new-session connect, fetch or store of
/// a new session ends the connection with that error; the failures of the
/// best-effort steps are passed over.
pub open spec fn step_action_fits(stage: ConnectStage, event: ConnectEvent, action: ConnectAction) -> bool {
    match event {
        ConnectEvent::Begin { has_password } => if has_password {
            action is ConnectPassword
        } else {
            action is LookupRefreshToken
        },
        ConnectEvent::PasswordResult(r) => match r {
            Ok(_) => action == ConnectAction::Connected(AuthMode::PasswordFlow),
            Err(e) => action == ConnectAction::Fail(e),
        },
        ConnectEvent::LookupResult(r) => match r {
            Ok(StoredSecretLookup::Found(t)) => action == ConnectAction::ConnectRefreshToken(t),
            Ok(_) => action is RequestAuthorizeUrl,
            Err(e) => action == ConnectAction::Fail(e),
        },
        ConnectEvent::RefreshResult(r) => match r {
            Ok(_) => action is FetchRefreshToken,
            Err(RefreshTokenConnectError::InvalidToken(_)) => action is DeleteRefreshToken,
            Err(RefreshTokenConnectError::Other(_)) => action is RequestAuthorizeUrl,
        },
        ConnectEvent::Deleted => action is RequestAuthorizeUrl,
        ConnectEvent::FetchedToken(r) => match r {
            Ok(t) => action == ConnectAction::StoreRefreshToken(t),
            Err(e) => if stage == ConnectStage::AwaitRefreshedToken {
                action == ConnectAction::Connected(AuthMode::RefreshToken)
            } else {
                action == ConnectAction::Fail(e)
            },
        },
        ConnectEvent::Stored(r) => if stage == ConnectStage::AwaitStoreRefreshed {
            action == ConnectAction::Connected(AuthMode::RefreshToken)
        } else {
            match r {
                Ok(_) => action == ConnectAction::Connected(AuthMode::AuthCode),
                Err(e) => action == ConnectAction::Fail(e),
            }
        },
        ConnectEvent::AuthorizeUrl(r) => match r {
            Ok(u) => action == ConnectAction::AskAuthCode(u),
            Err(e) => action == ConnectAction::Fail(e),
        },
        ConnectEvent::AuthCode(r) => match r {
            Ok(c) => action == ConnectAction::ConnectAuthCode(c),
            Err(e) => action == ConnectAction::Fail(e),
        },
        ConnectEvent::AuthCodeResult(r) => match r {
            Ok(_) => action is FetchRefreshToken,
            Err(e) => action == ConnectAction::Fail(e),
        },
    }
}

/// Whether an event answers the action of a stage (see `event_fits`).
pub fn accepts(stage: ConnectStage, event: &ConnectEvent) -> (r: bool)
    ensures
        r == event_fits(stage, *event),
{
    match (stage, event) {
        (ConnectStage::Start, ConnectEvent::Begin { .. }) => true,
        (ConnectStage::AwaitPassword, ConnectEvent::PasswordResult(_)) => true,
        (ConnectStage::AwaitLookup, ConnectEvent::LookupResult(_)) => true,
        (ConnectStage::AwaitRefresh, ConnectEvent::RefreshResult(_)) => true,
        (ConnectStage::AwaitDelete, ConnectEvent::Deleted) => true,
        (ConnectStage::AwaitRefreshedToken, ConnectEvent::FetchedToken(_)) => true,
        (ConnectStage::AwaitStoreRefreshed, ConnectEvent::Stored(_)) => true,
        (ConnectStage::AwaitAuthorizeUrl, ConnectEvent::AuthorizeUrl(_)) => true,
        (ConnectStage::AwaitAuthCode, ConnectEvent::AuthCode(_)) => true,
        (ConnectStage::AwaitAuthCodeConnect, ConnectEvent::AuthCodeResult(_)) => true,
        (ConnectStage::AwaitNewToken, ConnectEvent::FetchedToken(_)) => true,
        (ConnectStage::AwaitStoreNewToken, ConnectEvent::Stored(_)) => true,
        _ => false,
    }
}

/// One step of a connection: the next stage and what to do (see
/// `next_stage` and `step_action_fits`).
pub fn connect_step(stage: ConnectStage, event: ConnectEvent) -> (r: (ConnectStage, ConnectAction))
    requires
        event_fits(stage, event),
    ensures
        r.0 == next_stage(stage, event),
        step_action_fits(stage, event, r.1),
{
    match event {
        ConnectEvent::Begin { has_password } => {
            if has_password {
                (ConnectStage::AwaitPassword, ConnectAction::ConnectPassword)
            } else {
                (ConnectStage::AwaitLookup, ConnectAction::LookupRefreshToken)
            }
        },
        ConnectEvent::PasswordResult(r) => match r {
            Ok(_) => (ConnectStage::Done, ConnectAction::Connected(AuthMode::PasswordFlow)),
            Err(e) => (ConnectStage::Done, ConnectAction::Fail(e)),
        },
        ConnectEvent::LookupResult(r) => match r {
            Ok(StoredSecretLookup::Found(t)) => (ConnectStage::AwaitRefresh, ConnectAction::ConnectRefreshToken(t)),
            Ok(_) => (ConnectStage::AwaitAuthorizeUrl, ConnectAction::RequestAuthorizeUrl),
            Err(e) => (ConnectStage::Done, ConnectAction::Fail(e)),
        },
        ConnectEvent::RefreshResult(r) => match r {
            Ok(_) => (ConnectStage::AwaitRefreshedToken, ConnectAction::FetchRefreshToken),
            Err(RefreshTokenConnectError::InvalidToken(_)) => (ConnectStage::AwaitDelete, ConnectAction::DeleteRefreshToken),
            Err(RefreshTokenConnectError::Other(_)) => (ConnectStage::AwaitAuthorizeUrl, ConnectAction::RequestAuthorizeUrl),
        },
        ConnectEvent::Deleted => (ConnectStage::AwaitAuthorizeUrl, ConnectAction::RequestAuthorizeUrl),
        ConnectEvent::FetchedToken(r) => {
            if stage == ConnectStage::AwaitRefreshedToken {
                match r {
                    Ok(t) => (ConnectStage::AwaitStoreRefreshed, ConnectAction::StoreRefreshToken(t)),
                    Err(_) => (ConnectStage::Done, ConnectAction::Connected(AuthMode::RefreshToken)),
                }
            } else {
                match r {
                    Ok(t) => (ConnectStage::AwaitStoreNewToken, ConnectAction::StoreRefreshToken(t)),
                    Err(e) => (ConnectStage::Done, ConnectAction::Fail(e)),
                }
            }
        },
        ConnectEvent::Stored(r) => {
            if stage == ConnectStage::AwaitStoreRefreshed {
                (ConnectStage::Done, ConnectAction::Connected(AuthMode::RefreshToken))
            } else {
                match r {
                    Ok(_) => (ConnectStage::Done, ConnectAction::Connected(AuthMode::AuthCode)),
                    Err(e) => (ConnectStage::Done, ConnectAction::Fail(e)),
                }
            }
        },
        ConnectEvent::AuthorizeUrl(r) => match r {
            Ok(u) => (ConnectStage::AwaitAuthCode, ConnectAction::AskAuthCode(u)),
            Err(e) => (ConnectStage::Done, ConnectAction::Fail(e)),
        },
        ConnectEvent::AuthCode(r) => match r {
            Ok(c) => (ConnectStage::AwaitAuthCodeConnect, ConnectAction::ConnectAuthCode(c)),
            Err(e) => (ConnectStage::Done, ConnectAction::Fail(e)),
        },
        ConnectEvent::AuthCodeResult(r) => match r {
            Ok(_) => (ConnectStage::AwaitNewToken, ConnectAction::FetchRefreshToken),
            Err(e) => (ConnectStage::Done, ConnectAction::Fail(e)),
        },
    }
}

/// How far a stage is from the end: every step strictly lowers it.
pub open spec fn stage_rank(stage: ConnectStage) -> nat {
    match stage {
        ConnectStage::Start => 12,
        ConnectStage::AwaitLookup => 11,
        ConnectStage::AwaitRefresh => 10,
        ConnectStage::AwaitRefreshedToken => 9,
        ConnectStage::AwaitStoreRefreshed => 8,
        ConnectStage::AwaitDelete => 7,
        ConnectStage::AwaitAuthorizeUrl => 6,
        ConnectStage::AwaitAuthCode => 5,
        ConnectStage::AwaitAuthCodeConnect => 4,
        ConnectStage::AwaitNewToken => 3,
        ConnectStage::AwaitStoreNewToken => 2,
        ConnectStage::AwaitPassword => 1,
        ConnectStage::Done => 0,
    }
}

/// A connection always comes to an end: every accepted event moves it
/// strictly closer to `Done`, so it takes at most twelve steps.
pub proof fn lemma_connect_progresses(stage: ConnectStage, event: ConnectEvent)
    requires
        event_fits(stage, event),
    ensures
        stage_rank(next_stage(stage, event)) < stage_rank(stage),
{
}

/// A session made with the authorization code flow is only reported once its
/// refresh token was stored; a password is always used when given; a
/// rejected stored token is always deleted before the code flow begins.
pub proof fn lemma_connect_guarantees(stage: ConnectStage, event: ConnectEvent, action: ConnectAction)
    requires
        event_fits(stage, event),
        step_action_fits(stage, event, action),
    ensures
        action == ConnectAction::Connected(AuthMode::AuthCode) ==> (stage == ConnectStage::AwaitStoreNewToken
            && (event matches ConnectEvent::Stored(Ok(_)))),
        (stage == ConnectStage::Start && (event matches ConnectEvent::Begin { has_password: true }))
            ==> action is ConnectPassword,
        (event matches ConnectEvent::RefreshResult(Err(RefreshTokenConnectError::InvalidToken(_))))
            ==> (action is DeleteRefreshToken && next_stage(stage, event) == ConnectStage::AwaitDelete),
{
}

} // verus!
