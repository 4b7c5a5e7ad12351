use dccmd_rs::api::nodes::models::{Node, NodeType};
use dccmd_rs::app::config::api::{
    ActiveDirectoryConfigInfo, CustomerInfo, OpenIdConfigInfo, RefreshTokenInfo, SystemInfo,
};
use dccmd_rs::app::groups::{dedup_ids, require_user_ids, user_name_to_lookup, UniqueIds};
use dccmd_rs::app::nodes::common::{is_search_query, page_offsets};
use dccmd_rs::app::nodes::transfer::{
    join_failure_of, transfer_complete_message, transfer_join_error, JoinFailure,
};
use dccmd_rs::app::nodes::{listing_path, prepare_delete_single, DeleteNodesPreparation};
use dccmd_rs::app::outcome::{CommandOutcome, OutcomeMessageKind};
use dccmd_rs::app::reports::check_api_version;
use dccmd_rs::app::results::{
    app_result_from_status, config_report, AppStatus, ConfigPlatformResult, ConfigReportLine,
};
use dccmd_rs::errors::DcCmdError;

fn message_texts(lines: &[ConfigReportLine]) -> Vec<String> {
    lines
        .iter()
        .map(|l| match l {
            ConfigReportLine::Message(_, t) => t.clone(),
            ConfigReportLine::SpaceUsage { used, limit } => format!("space {used}/{limit}"),
            ConfigReportLine::AccountUsage { used, limit } => format!("accounts {used}/{limit}"),
        })
        .collect()
}

#[test]
fn test_config_report_token_info() {
    let (lines, status) = config_report(ConfigPlatformResult::AuthTokenInfo {
        base_url: "https://d.example.com".to_string(),
        user_info: RefreshTokenInfo {
            first_name: "Ada".to_string(),
            last_name: "Lovelace".to_string(),
            email: None,
            user_name: "ada".to_string(),
        },
    });
    assert_eq!(status, AppStatus::Success);
    assert_eq!(
        message_texts(&lines),
        vec![
            "► Token stored for: https://d.example.com".to_string(),
            "► User: Ada Lovelace".to_string(),
            "► Email: N/A".to_string(),
            "► Username: ada".to_string(),
        ]
    );
}

#[test]
fn test_config_report_system_info_and_missing() {
    let (lines, status) = config_report(ConfigPlatformResult::SystemInfo {
        base_url: "https://d".to_string(),
        system_info: SystemInfo {
            customer: CustomerInfo {
                name: "ACME".to_string(),
                space_used: 5,
                space_limit: 10,
                accounts_used: 1,
                accounts_limit: 2,
            },
            oidc_configs: vec![OpenIdConfigInfo { id: 7, name: "idp".to_string() }],
            ad_configs: vec![],
        },
    });
    assert_eq!(status, AppStatus::Success);
    assert_eq!(
        message_texts(&lines),
        vec![
            "► System info for: https://d".to_string(),
            "► Customer: ACME".to_string(),
            "space 5/10".to_string(),
            "accounts 1/2".to_string(),
            "\n► OpenID Connect IDP configurations:".to_string(),
            "► idp (7)".to_string(),
            "\n► No Active Directory configurations found.".to_string(),
        ]
    );
    let _ = ActiveDirectoryConfigInfo { id: 1, alias: "ad".to_string() };
    let (lines, status) = config_report(ConfigPlatformResult::MissingCryptoSecret);
    assert_eq!(status, AppStatus::Failure);
    assert!(matches!(&lines[0], ConfigReportLine::Message(OutcomeMessageKind::Error, t) if t == "No encryption secret found."));
}

#[test]
fn test_app_result_from_status_and_outcome() {
    let mut outcome = CommandOutcome::new();
    outcome.push(OutcomeMessageKind::Warning, "careful");
    let result = app_result_from_status(AppStatus::PartialFailure, outcome.clone());
    assert_eq!(result.status(), AppStatus::PartialFailure);
    assert_eq!(result.outcome().messages[0].text, "careful");
    assert!(result.payload().is_none());
}

#[test]
fn test_groups_user_ids() {
    assert_eq!(dedup_ids(&[3, 1, 3, 2, 1]), vec![3, 1, 2]);
    assert_eq!(user_name_to_lookup("  alice "), Some("alice".to_string()));
    assert_eq!(user_name_to_lookup("   "), None);
    let mut ids = UniqueIds::new();
    assert!(ids.insert(5));
    assert!(!ids.insert(5));
    assert_eq!(require_user_ids(ids).unwrap(), vec![5]);
    assert!(matches!(
        require_user_ids(UniqueIds::new()),
        Err(DcCmdError::InvalidArgument(m)) if m == "Either user name or id must be provided"
    ));
}

#[test]
fn test_reports_api_version() {
    assert!(check_api_version("4.44.0").is_ok());
    assert!(check_api_version("+4").is_ok());
    assert!(check_api_version("abc").is_ok());
    assert!(check_api_version("300.1").is_ok());
    assert!(matches!(
        check_api_version("5.0.0"),
        Err(DcCmdError::InvalidArgument(m)) if m == "Permissions report is only available for API version 4.x (DRACOON Server)"
    ));
}

#[test]
fn test_pagination_and_search_queries() {
    assert!(is_search_query("*.pdf"));
    assert!(!is_search_query("report.pdf"));
    assert_eq!(page_offsets(400, 500), Vec::<u64>::new());
    assert_eq!(page_offsets(500, 500), Vec::<u64>::new());
    assert_eq!(page_offsets(1200, 500), vec![500, 1000]);
    assert_eq!(page_offsets(1000, 500), vec![500, 1000]);
}

#[test]
fn test_transfer_messages() {
    assert!(matches!(
        transfer_join_error("download", JoinFailure::Cancelled),
        DcCmdError::InvalidArgument(m) if m == "Transfer download task was cancelled."
    ));
    assert!(matches!(
        transfer_join_error("upload", JoinFailure::Panicked),
        DcCmdError::InvalidArgument(m) if m == "Transfer upload task panicked."
    ));
    assert_eq!(transfer_complete_message("a.txt", "s", "t"), "Node a.txt uploaded from s to t.");
}

#[test]
fn test_delete_and_list_decisions() {
    assert!(matches!(
        prepare_delete_single(1, "f".to_string(), NodeType::Folder, false),
        DeleteNodesPreparation::ContainerRequiresRecursive
    ));
    assert!(matches!(
        prepare_delete_single(1, "f".to_string(), NodeType::File, false),
        DeleteNodesPreparation::SingleNode { node_id: 1, .. }
    ));
    assert_eq!(listing_path("//".to_string()), None);
    assert_eq!(listing_path("/room/".to_string()), Some("/room/".to_string()));
    let _ = std::mem::size_of::<Node>();
}

fn join_error_of<F: std::future::Future<Output = ()> + Send + 'static>(task: F, abort: bool) -> tokio::task::JoinError {
    let rt = tokio::runtime::Builder::new_current_thread()
        .enable_time()
        .build()
        .expect("runtime");
    rt.block_on(async move {
        let handle = tokio::spawn(task);
        if abort {
            handle.abort();
        }
        handle.await.expect_err("task should not finish")
    })
}

#[test]
fn test_map_transfer_join_error_for_cancelled_task() {
    let join_error = join_error_of(
        async {
            tokio::time::sleep(std::time::Duration::from_millis(50)).await;
        },
        true,
    );
    let err = dccmd_rs::app::nodes::transfer::map_transfer_join_error("download", join_error);

    assert!(
        matches!(err, DcCmdError::InvalidArgument(message) if message == "Transfer download task was cancelled.")
    );
}

#[test]
fn test_map_transfer_join_error_for_panicked_task() {
    let join_error = join_error_of(
        async {
            panic!("boom");
        },
        false,
    );
    let err = dccmd_rs::app::nodes::transfer::map_transfer_join_error("upload", join_error);

    assert!(
        matches!(err, DcCmdError::InvalidArgument(message) if message == "Transfer upload task panicked.")
    );
}

#[test]
fn join_failure_prefers_cancellation_then_panic() {
    assert_eq!(join_failure_of(true, true, "x".to_string()), JoinFailure::Cancelled);
    assert_eq!(join_failure_of(false, true, "x".to_string()), JoinFailure::Panicked);
    assert_eq!(join_failure_of(false, false, "boom".to_string()), JoinFailure::Other("boom".to_string()));
}
