use dccmd_rs::app::auth::connect::{
    accepts, connect_step, AuthMode, ConnectAction, ConnectEvent, ConnectStage,
};
use dccmd_rs::app::auth::{RefreshTokenConnectError, StoredSecretLookup};
use dccmd_rs::app::handlers::{
    config_declined, config_needs_confirmation, download_report, transfer_status, upload_report,
};
use dccmd_rs::app::nodes::download::{DownloadFailure, DownloadOutcome};
use dccmd_rs::app::nodes::upload::{UploadFailure, UploadOutcome};
use dccmd_rs::app::outcome::OutcomeMessageKind;
use dccmd_rs::app::requests::config::{ConfigAuthRequest, ConfigCryptoRequest, ConfigRequest};
use dccmd_rs::app::results::{AppPayload, AppStatus};
use dccmd_rs::errors::DcCmdError;

fn download_failure(name: &str) -> DownloadFailure {
    DownloadFailure {
        node_id: Some(1),
        node_name: name.to_string(),
        target: format!("/tmp/{name}"),
        reason: "boom".to_string(),
    }
}

#[test]
fn transfer_status_follows_counts() {
    assert_eq!(transfer_status(0, 0), AppStatus::Success);
    assert_eq!(transfer_status(0, 4), AppStatus::Success);
    assert_eq!(transfer_status(2, 1), AppStatus::PartialFailure);
    assert_eq!(transfer_status(2, 0), AppStatus::Failure);
}

#[test]
fn download_report_success_has_one_line() {
    let outcome = DownloadOutcome::success("/tmp/out", 3);
    let result = download_report(outcome.clone());
    assert_eq!(result.status(), AppStatus::Success);
    let messages = &result.outcome().messages;
    assert_eq!(messages.len(), 1);
    assert_eq!(messages[0].kind, OutcomeMessageKind::Success);
    assert_eq!(messages[0].text, "Downloaded 3 item(s) to /tmp/out.");
    assert_eq!(result.payload(), Some(&AppPayload::Download(outcome)));
}

#[test]
fn download_report_lists_first_failures_and_counts_the_rest() {
    let failures: Vec<DownloadFailure> =
        ["a", "b", "c", "d", "e"].iter().map(|n| download_failure(n)).collect();
    let outcome = DownloadOutcome::from_failures("/tmp/out", 7, 2, failures);
    let result = download_report(outcome);
    assert_eq!(result.status(), AppStatus::PartialFailure);
    let messages = &result.outcome().messages;
    assert_eq!(messages.len(), 5);
    assert_eq!(messages[0].kind, OutcomeMessageKind::Warning);
    assert_eq!(messages[0].text, "Downloaded 2/7 item(s) to /tmp/out; 5 failed.");
    assert_eq!(messages[1].text, "Failed a -> /tmp/a (boom)");
    assert_eq!(messages[3].text, "Failed c -> /tmp/c (boom)");
    assert_eq!(messages[4].kind, OutcomeMessageKind::Info);
    assert_eq!(messages[4].text, "... and 2 more failed item(s).");
}

#[test]
fn download_report_total_failure_is_an_error() {
    let outcome = DownloadOutcome::from_failures("/x", 1, 0, vec![download_failure("a")]);
    let result = download_report(outcome);
    assert_eq!(result.status(), AppStatus::Failure);
    let messages = &result.outcome().messages;
    assert_eq!(messages.len(), 2);
    assert_eq!(messages[0].kind, OutcomeMessageKind::Error);
}

#[test]
fn upload_report_share_message_then_failures() {
    let failures = vec![UploadFailure { file: "f.txt".to_string(), reason: "denied".to_string() }];
    let outcome = UploadOutcome::from_failures("/room", 2, 1, failures)
        .with_share_message(Some("Share: https://x/s/1".to_string()));
    let result = upload_report(outcome);
    assert_eq!(result.status(), AppStatus::PartialFailure);
    let messages = &result.outcome().messages;
    assert_eq!(messages.len(), 2);
    assert_eq!(messages[0].kind, OutcomeMessageKind::Success);
    assert_eq!(messages[0].text, "Share: https://x/s/1");
    assert_eq!(messages[1].kind, OutcomeMessageKind::Warning);
    assert_eq!(messages[1].text, "Uploaded 1/2 file(s) to /room; 1 failed.\nFailed f.txt (denied)");
}

#[test]
fn upload_report_success_without_share_has_no_messages() {
    let result = upload_report(UploadOutcome::success("/room", 2));
    assert_eq!(result.status(), AppStatus::Success);
    assert!(result.outcome().messages.is_empty());
}

#[test]
fn only_removing_a_token_needs_confirmation() {
    let rm = ConfigRequest::Auth { cmd: ConfigAuthRequest::Rm { target: "x".to_string() } };
    let ls = ConfigRequest::Auth { cmd: ConfigAuthRequest::Ls { target: "x".to_string() } };
    let crypto = ConfigRequest::Crypto { cmd: ConfigCryptoRequest::Rm { target: "x".to_string() } };
    assert!(config_needs_confirmation(&rm));
    assert!(!config_needs_confirmation(&ls));
    assert!(!config_needs_confirmation(&crypto));
}

#[test]
fn connect_with_password_takes_one_round() {
    let begin = ConnectEvent::Begin { has_password: true };
    assert!(accepts(ConnectStage::Start, &begin));
    let (stage, action) = connect_step(ConnectStage::Start, begin);
    assert_eq!(stage, ConnectStage::AwaitPassword);
    assert!(matches!(action, ConnectAction::ConnectPassword));
    let (stage, action) = connect_step(stage, ConnectEvent::PasswordResult(Ok(())));
    assert_eq!(stage, ConnectStage::Done);
    assert!(matches!(action, ConnectAction::Connected(AuthMode::PasswordFlow)));
}

#[test]
fn rejected_refresh_token_is_deleted_then_code_flow_runs() {
    let (stage, _) = connect_step(ConnectStage::Start, ConnectEvent::Begin { has_password: false });
    let (stage, action) = connect_step(
        stage,
        ConnectEvent::LookupResult(Ok(StoredSecretLookup::Found("tok".to_string()))),
    );
    assert!(matches!(action, ConnectAction::ConnectRefreshToken(ref t) if t == "tok"));
    let event = ConnectEvent::RefreshResult(Err(RefreshTokenConnectError::InvalidToken("gone".to_string())));
    assert!(accepts(stage, &event));
    let (stage, action) = connect_step(stage, event);
    assert_eq!(stage, ConnectStage::AwaitDelete);
    assert!(matches!(action, ConnectAction::DeleteRefreshToken));
    let (stage, action) = connect_step(stage, ConnectEvent::Deleted);
    assert!(matches!(action, ConnectAction::RequestAuthorizeUrl));
    let (stage, action) = connect_step(stage, ConnectEvent::AuthorizeUrl(Ok("https://auth".to_string())));
    assert!(matches!(action, ConnectAction::AskAuthCode(ref u) if u == "https://auth"));
    let (stage, action) = connect_step(stage, ConnectEvent::AuthCode(Ok("code".to_string())));
    assert!(matches!(action, ConnectAction::ConnectAuthCode(ref c) if c == "code"));
    let (stage, action) = connect_step(stage, ConnectEvent::AuthCodeResult(Ok(())));
    assert!(matches!(action, ConnectAction::FetchRefreshToken));
    let (stage, action) = connect_step(stage, ConnectEvent::FetchedToken(Ok("new".to_string())));
    assert!(matches!(action, ConnectAction::StoreRefreshToken(ref t) if t == "new"));
    let (stage, action) = connect_step(stage, ConnectEvent::Stored(Ok(())));
    assert_eq!(stage, ConnectStage::Done);
    assert!(matches!(action, ConnectAction::Connected(AuthMode::AuthCode)));
}

#[test]
fn refreshed_token_store_failure_still_connects() {
    let (stage, _) = connect_step(
        ConnectStage::AwaitRefresh,
        ConnectEvent::RefreshResult(Ok(())),
    );
    let (stage, _) = connect_step(stage, ConnectEvent::FetchedToken(Ok("r".to_string())));
    let (stage, action) = connect_step(stage, ConnectEvent::Stored(Err(DcCmdError::CredentialStorageFailed)));
    assert_eq!(stage, ConnectStage::Done);
    assert!(matches!(action, ConnectAction::Connected(AuthMode::RefreshToken)));
}

#[test]
fn new_session_token_store_failure_fails() {
    let (stage, action) = connect_step(
        ConnectStage::AwaitStoreNewToken,
        ConnectEvent::Stored(Err(DcCmdError::CredentialStorageFailed)),
    );
    assert_eq!(stage, ConnectStage::Done);
    assert!(matches!(action, ConnectAction::Fail(DcCmdError::CredentialStorageFailed)));
    assert!(!accepts(ConnectStage::Done, &ConnectEvent::Deleted));
}

#[test]
fn declined_token_removal_ends_successfully_with_nothing_done() {
    let rm = ConfigRequest::Auth { cmd: ConfigAuthRequest::Rm { target: "x".to_string() } };
    let ls = ConfigRequest::Auth { cmd: ConfigAuthRequest::Ls { target: "x".to_string() } };
    let declined = config_declined(&rm, false).expect("declined removal ends here");
    assert_eq!(declined.status(), AppStatus::Success);
    assert!(declined.outcome().messages.is_empty());
    assert!(declined.payload().is_none());
    assert!(config_declined(&rm, true).is_none());
    assert!(config_declined(&ls, false).is_none());
}
