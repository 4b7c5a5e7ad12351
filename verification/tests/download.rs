use std::collections::{HashMap, HashSet};

use dccmd_rs::api::auth::models::DracoonErrorResponse;
use dccmd_rs::api::nodes::models::{Node, NodeType, S3FileUploadStatus, S3UploadStatus};
use dccmd_rs::api::nodes::upload::{upload_poll_step, UploadPollStep, POLLING_START_DELAY};
use dccmd_rs::app::nodes::download::containers::{
    filter_containers, filter_files, filter_files_outside_sub_rooms, sub_room_path,
};
use dccmd_rs::app::nodes::download::files::{
    plan_download_tasks, tally_download, total_task_size, DownloadEvent, DownloadTally, DownloadTask,
};
use dccmd_rs::app::nodes::download::{
    check_public_download, choose_download_kind, download_lookup_path, is_public_download_source,
    should_complete_job, split_remote_path, DownloadFailure, DownloadKind, DownloadOutcome, NodesDownloadService,
    NoopTransferStateStore, RemoteNodeRef, TransferStateStore,
};
use dccmd_rs::app::nodes::filesystem::{MockFilesystem, PathStyle};
use dccmd_rs::app::nodes::{delete_lookup, prepare_delete_found, DeleteLookup, DeleteNodesPreparation};
use dccmd_rs::app::nodes::progress::NoopProgressReporter;
use dccmd_rs::errors::DcCmdError;

type MockService = NodesDownloadService<MockFilesystem, NoopTransferStateStore, NoopProgressReporter>;

fn node(id: u64, name: &str, parent_path: &str) -> RemoteNodeRef {
    RemoteNodeRef {
        id,
        name: name.to_string(),
        parent_path: Some(parent_path.to_string()),
    }
}

fn api_node(id: u64, name: &str, node_type: NodeType, parent_path: &str, size: Option<u64>) -> Node {
    Node {
        id,
        reference_id: None,
        node_type,
        name: name.to_string(),
        timestamp_creation: None,
        timestamp_modification: None,
        parent_id: None,
        created_at: None,
        created_by: None,
        updated_at: None,
        updated_by: None,
        expire_at: None,
        hash: None,
        file_type: None,
        media_type: None,
        size,
        classification: None,
        notes: None,
        permissions: None,
        inherit_permissions: None,
        is_encrypted: None,
        encryption_info: None,
        cnt_deleted_versions: None,
        cnt_comments: None,
        cnt_upload_shares: None,
        cnt_download_shares: None,
        recycle_bin_retention_period: None,
        has_activities_log: None,
        quota: None,
        is_favorite: None,
        branch_version: None,
        media_token: None,
        is_browsable: None,
        cnt_rooms: None,
        cnt_folders: None,
        cnt_files: None,
        auth_parent_id: None,
        parent_path: Some(parent_path.to_string()),
    }
}

#[test]
fn test_resolve_single_file_target_unix() {
    let fs = MockFilesystem::with_directories(PathStyle::Unix, &["/tmp"]);
    let service = NodesDownloadService::with_dependencies(fs, NoopTransferStateStore);

    assert_eq!(
        service.resolve_single_file_target("/tmp", "report.pdf"),
        "/tmp/report.pdf"
    );
}

#[test]
fn test_resolve_single_file_target_windows() {
    let fs = MockFilesystem::with_directories(PathStyle::Windows, &[r"C:\Downloads"]);
    let service = NodesDownloadService::with_dependencies(fs, NoopTransferStateStore);

    assert_eq!(
        service.resolve_single_file_target("C:/Downloads", "report.pdf"),
        r"C:\Downloads\report.pdf"
    );
}

#[test]
fn test_resolve_single_file_target_not_a_directory() {
    let fs = MockFilesystem::new(PathStyle::Unix);
    let service = NodesDownloadService::with_dependencies(fs, NoopTransferStateStore);

    assert_eq!(
        service.resolve_single_file_target("/tmp//out.pdf", "report.pdf"),
        "/tmp/out.pdf"
    );
}

#[test]
fn test_resolve_targets_from_base_windows() {
    let fs = MockFilesystem::new(PathStyle::Windows);
    let service = NodesDownloadService::with_dependencies(fs, NoopTransferStateStore);
    let files = vec![
        node(11, "a.txt", "/team/room/"),
        node(22, "b.txt", "/team/room/"),
    ];

    let targets = service.resolve_targets_from_base(r"C:\downloads", &files);

    assert_eq!(targets.get(&11), Some(&r"C:\downloads\a.txt".to_string()));
    assert_eq!(targets.get(&22), Some(&r"C:\downloads\b.txt".to_string()));
}

#[test]
fn test_plan_container_download_unix() {
    let fs = MockFilesystem::new(PathStyle::Unix);
    let service = NodesDownloadService::with_dependencies(fs, NoopTransferStateStore);
    let container = node(1, "parent", "/room/");
    let folders = vec![
        node(2, "sub", "/room/parent/"),
        node(3, "inner", "/room/parent/sub/"),
    ];
    let files = vec![
        node(10, "a.txt", "/room/parent/"),
        node(11, "b.txt", "/room/parent/sub/"),
    ];

    let plan = service
        .plan_container_download("/downloads", &container, &folders, &files)
        .unwrap();

    assert_eq!(plan.root_target, "/downloads/parent");
    assert_eq!(
        plan.directories,
        vec![
            "/downloads/parent".to_string(),
            "/downloads/parent/sub".to_string(),
            "/downloads/parent/sub/inner".to_string(),
        ]
    );
    assert_eq!(
        plan.file_targets,
        HashMap::from([
            (10, "/downloads/parent/a.txt".to_string()),
            (11, "/downloads/parent/sub/b.txt".to_string()),
        ])
    );
}

#[test]
fn test_plan_container_download_windows() {
    let fs = MockFilesystem::new(PathStyle::Windows);
    let service = NodesDownloadService::with_dependencies(fs, NoopTransferStateStore);
    let container = node(1, "parent", "/room/");
    let folders = vec![
        node(2, "sub", "/room/parent/"),
        node(3, "inner", "/room/parent/sub/"),
    ];
    let files = vec![
        node(10, "a.txt", "/room/parent/"),
        node(11, "b.txt", "/room/parent/sub/"),
    ];

    let plan = service
        .plan_container_download(r"C:\downloads", &container, &folders, &files)
        .unwrap();

    assert_eq!(plan.root_target, r"C:\downloads\parent");
    assert_eq!(
        plan.directories,
        vec![
            r"C:\downloads\parent".to_string(),
            r"C:\downloads\parent\sub".to_string(),
            r"C:\downloads\parent\sub\inner".to_string(),
        ]
    );
    assert_eq!(
        plan.file_targets,
        HashMap::from([
            (10, r"C:\downloads\parent\a.txt".to_string()),
            (11, r"C:\downloads\parent\sub\b.txt".to_string()),
        ])
    );
}

#[test]
fn test_plan_container_download_rejects_path_escape() {
    let fs = MockFilesystem::new(PathStyle::Unix);
    let service = NodesDownloadService::with_dependencies(fs, NoopTransferStateStore);
    let container = node(1, "parent", "/room/");
    let files = vec![node(10, "a.txt", "/other/")];

    let err = service
        .plan_container_download("/downloads", &container, &[], &files)
        .unwrap_err();

    assert!(matches!(err, DcCmdError::InvalidPath(_)));
}

#[test]
fn test_plan_container_download_messages_and_order() {
    let fs = MockFilesystem::new(PathStyle::Unix);
    let service = NodesDownloadService::with_dependencies(fs, NoopTransferStateStore);
    let container = node(1, "parent", "/room/");

    let outside = service
        .plan_container_download("/d", &container, &[], &[node(10, "a.txt", "/other/")])
        .unwrap_err();
    assert!(matches!(outside, DcCmdError::InvalidPath(m) if m == "Node 'a.txt' is outside container 'parent'"));

    let orphan = RemoteNodeRef { id: 5, name: "x".to_string(), parent_path: None };
    let missing = service
        .plan_container_download("/d", &container, &[orphan], &[])
        .unwrap_err();
    assert!(matches!(missing, DcCmdError::InvalidPath(m) if m == "Node 'x' has no parent path"));

    let itself = service
        .plan_container_download("/d", &container, &[], &[node(1, "parent", "/room/")])
        .unwrap_err();
    assert!(matches!(itself, DcCmdError::InvalidPath(m) if m == "Invalid relative file target for node parent"));

    let folders = vec![node(3, "zeta", "/room/parent/"), node(2, "alpha", "/room/parent/"), node(4, "alpha", "/room/parent/")];
    let plan = service.plan_container_download("/d", &container, &folders, &[]).unwrap();
    assert_eq!(
        plan.directories,
        vec!["/d/parent".to_string(), "/d/parent/alpha".to_string(), "/d/parent/zeta".to_string()]
    );
    assert!(plan.file_targets.is_empty());
}

#[test]
fn test_create_directories_unix() {
    let fs = MockFilesystem::new(PathStyle::Unix);
    let mut service = NodesDownloadService::with_dependencies(fs, NoopTransferStateStore);

    service
        .create_directories(&["/tmp/a".to_string(), "/tmp/a/b".to_string()])
        .unwrap();

    assert!(service.filesystem().path_exists("/tmp/a"));
    assert!(service.filesystem().path_exists("/tmp/a/b"));
}

#[test]
fn test_create_directories_windows() {
    let fs = MockFilesystem::new(PathStyle::Windows);
    let mut service = NodesDownloadService::with_dependencies(fs, NoopTransferStateStore);

    service
        .create_directories(&[r"C:\tmp\a".to_string(), r"C:\tmp\a\b".to_string()])
        .unwrap();

    assert!(service.filesystem().path_exists(r"C:\tmp\a"));
    assert!(service.filesystem().path_exists(r"C:\tmp\a\b"));
}

#[test]
fn test_download_outcome_success_marks_no_failures() {
    let outcome = DownloadOutcome::success("/tmp", 2);

    assert_eq!(outcome.requested_total, 2);
    assert_eq!(outcome.succeeded, 2);
    assert_eq!(outcome.failed, 0);
    assert!(outcome.failures.is_empty());
    assert!(!outcome.partial);
}

#[test]
fn test_download_outcome_from_failures_marks_partial() {
    let outcome = DownloadOutcome::from_failures(
        "/tmp",
        2,
        1,
        vec![DownloadFailure {
            node_id: Some(99),
            node_name: "broken.txt".to_string(),
            target: "/tmp/broken.txt".to_string(),
            reason: "network".to_string(),
        }],
    );

    assert_eq!(outcome.requested_total, 2);
    assert_eq!(outcome.succeeded, 1);
    assert_eq!(outcome.failed, 1);
    assert!(outcome.partial);
}

#[test]
fn test_parse_public_download_access_key() {
    let access_key = MockService::parse_public_download_access_key(
        "https://example.com/public/download-shares/abc123",
    )
    .expect("access key");

    assert_eq!(access_key, "abc123");
}

#[test]
fn test_parse_public_download_access_key_rejects_empty_tail() {
    let err = MockService::parse_public_download_access_key(
        "https://example.com/public/download-shares/",
    )
    .expect_err("empty tail should fail");

    assert!(matches!(err, DcCmdError::InvalidPath(_)));
}

#[test]
fn test_download_error_reason_uses_messages() {
    assert_eq!(MockService::download_error_reason(&DcCmdError::InvalidPath("gone".to_string())), "gone");
    assert_eq!(MockService::download_error_reason(&DcCmdError::IoError), "IO error");
    assert_eq!(MockService::effective_velocity(Some(42)), 10);
}

#[test]
fn test_download_routing_decisions() {
    assert!(is_public_download_source("https://x.example/public/download-shares/k"));
    assert!(!is_public_download_source("https://x.example/room/file"));
    assert!(check_public_download(false).is_ok());
    assert!(matches!(
        check_public_download(true),
        Err(DcCmdError::InvalidArgument(m)) if m == "Recursive download not supported for public download shares"
    ));
    assert_eq!(download_lookup_path("/room/", "*.pdf"), "/room/");
    assert_eq!(download_lookup_path("/room/", "file.pdf"), "/room/file.pdf/");
    assert_eq!(choose_download_kind("*.pdf", NodeType::Folder, false).unwrap(), DownloadKind::SearchResults);
    assert_eq!(choose_download_kind("a.pdf", NodeType::File, false).unwrap(), DownloadKind::SingleFile);
    assert_eq!(choose_download_kind("docs", NodeType::Room, true).unwrap(), DownloadKind::Container);
    assert!(matches!(
        choose_download_kind("docs", NodeType::Folder, false),
        Err(DcCmdError::InvalidArgument(m)) if m == "Container download requires recursive flag"
    ));
    assert_eq!(split_remote_path("//a///b/"), vec!["a".to_string(), "b".to_string()]);
}

#[test]
fn test_plan_download_tasks_skips_completed_and_requires_targets() {
    let files = vec![
        api_node(1, "a.txt", NodeType::File, "/r/", Some(10)),
        api_node(2, "b.txt", NodeType::File, "/r/", None),
        api_node(3, "c.txt", NodeType::File, "/r/", Some(5)),
    ];
    let targets = HashMap::from([(1, "/t/a.txt".to_string()), (2, "/t/b.txt".to_string()), (3, "/t/c.txt".to_string())]);
    let completed = HashSet::from([2]);
    let tasks = plan_download_tasks(&files, &targets, &completed).unwrap();
    let ids: Vec<u64> = tasks.iter().map(|t| t.node_id).collect();
    assert_eq!(ids, vec![1, 3]);
    assert_eq!(tasks[1].target, "/t/c.txt");
    assert_eq!(total_task_size(&tasks), 15);

    let err = plan_download_tasks(&files, &HashMap::new(), &HashSet::new()).unwrap_err();
    assert!(matches!(err, DcCmdError::InvalidPath(m) if m == "Target not found for node 1"));
}

#[test]
fn test_download_tally_builds_outcome() {
    let files = vec![
        api_node(1, "a.txt", NodeType::File, "/r/", Some(1)),
        api_node(2, "b.txt", NodeType::File, "/r/", Some(1)),
        api_node(3, "c.txt", NodeType::File, "/r/", Some(1)),
    ];
    let targets = HashMap::from([(1, "/t/a".to_string()), (2, "/t/b".to_string()), (3, "/t/c".to_string())]);
    let tasks = plan_download_tasks(&files, &targets, &HashSet::new()).unwrap();
    let mut tally = DownloadTally::new();
    tally.record(&tasks[0], DownloadEvent::Downloaded);
    tally.record(&tasks[1], DownloadEvent::DownloadFailed("network".to_string()));
    tally.record(&tasks[2], DownloadEvent::CheckpointFailed("disk full".to_string()));
    let outcome = tally.into_outcome("/t", 3);
    assert_eq!(outcome.succeeded, 1);
    assert_eq!(outcome.failed, 2);
    assert!(outcome.partial);
    assert_eq!(outcome.failures[0].reason, "network");
    assert_eq!(outcome.failures[1].reason, "checkpoint error: disk full");
    assert_eq!(outcome.failures[1].node_id, Some(3));
}

#[test]
fn test_sub_rooms_and_containers() {
    let room = api_node(5, "sub", NodeType::Room, "/top/", None);
    assert_eq!(sub_room_path(&room), "/top/sub/");
    let files = vec![
        api_node(1, "a", NodeType::File, "/top/", None),
        api_node(2, "b", NodeType::File, "/top/sub/", None),
        api_node(3, "c", NodeType::File, "/top/sub/deep/", None),
    ];
    let kept = filter_files_outside_sub_rooms(files, &["/top/sub/".to_string()]);
    let ids: Vec<u64> = kept.iter().map(|n| n.id).collect();
    assert_eq!(ids, vec![1]);

    let nodes = vec![
        api_node(1, "f", NodeType::Folder, "/", None),
        api_node(2, "r", NodeType::Room, "/", None),
        api_node(3, "x", NodeType::File, "/", None),
    ];
    let only_folders: Vec<u64> = filter_containers(nodes.clone(), false).iter().map(|n| n.id).collect();
    assert_eq!(only_folders, vec![1]);
    let with_rooms: Vec<u64> = filter_containers(nodes.clone(), true).iter().map(|n| n.id).collect();
    assert_eq!(with_rooms, vec![1, 2]);
    let only_files: Vec<u64> = filter_files(nodes).iter().map(|n| n.id).collect();
    assert_eq!(only_files, vec![3]);
}

#[test]
fn test_noop_state_store() {
    let mut store = NoopTransferStateStore;
    assert_eq!(store.get_or_create_job("src", "dst").unwrap(), "noop:src->dst");
    assert!(store.get_completed_file_ids("job").unwrap().is_empty());
    assert!(store.mark_complete("job", 1).is_ok());
    assert!(store.complete_job("job").is_ok());
}

#[test]
fn job_closes_only_without_failures() {
    let ok = DownloadOutcome::success("/t", 2);
    assert!(should_complete_job(&ok));
    let failed = DownloadOutcome::from_failures(
        "/t",
        2,
        1,
        vec![DownloadFailure {
            node_id: Some(1),
            node_name: "a".to_string(),
            target: "/t/a".to_string(),
            reason: "x".to_string(),
        }],
    );
    assert!(!should_complete_job(&failed));
}

#[test]
fn tally_counts_every_task_once() {
    let task = |id: u64| DownloadTask {
        node_id: id,
        node_name: format!("f{id}"),
        size: 1,
        target: format!("/t/f{id}"),
    };
    let tasks = vec![task(1), task(2), task(3)];
    let events = vec![
        DownloadEvent::Downloaded,
        DownloadEvent::DownloadFailed("network".to_string()),
        DownloadEvent::Downloaded,
    ];
    let o = tally_download(&tasks, events, "/t");
    assert_eq!((o.requested_total, o.succeeded, o.failed), (3, 2, 1));
    assert!(o.partial);
    let o = tally_download(&tasks, vec![DownloadEvent::Downloaded, DownloadEvent::Downloaded, DownloadEvent::Downloaded], "/t");
    assert_eq!((o.succeeded, o.failed, o.partial), (3, 0, false));
    let events = vec![
        DownloadEvent::CheckpointFailed("disk full".to_string()),
        DownloadEvent::Downloaded,
        DownloadEvent::DownloadFailed("timeout".to_string()),
    ];
    let o = tally_download(&tasks, events, "/t");
    assert_eq!((o.succeeded, o.failed, o.partial), (1, 2, true));
    let failures: Vec<(Option<u64>, &str, &str, &str)> = o
        .failures
        .iter()
        .map(|f| (f.node_id, f.node_name.as_str(), f.target.as_str(), f.reason.as_str()))
        .collect();
    assert_eq!(
        failures,
        vec![
            (Some(1), "f1", "/t/f1", "checkpoint error: disk full"),
            (Some(3), "f3", "/t/f3", "timeout"),
        ]
    );
}

#[test]
fn container_plan_stays_inside_its_root() {
    let fs = MockFilesystem::new(PathStyle::Unix);
    let service = NodesDownloadService::with_dependencies(fs, NoopTransferStateStore);
    let container = node(1, "parent", "/room/");
    let folders = vec![node(2, "x", "/room/parent/a/b/"), node(3, "y", "/room/parent/")];
    let files = vec![node(10, "f", "/room/parent/x/"), node(11, "g", "/room/parent/")];
    for base in ["/downloads/", "relative/./dir", "/"] {
        let plan = service
            .plan_container_download(base, &container, &folders, &files)
            .unwrap();
        let root = plan.root_target.clone();
        let prefix = if root == "/" { root.clone() } else { format!("{root}/") };
        assert!(plan.directories.contains(&root));
        for dir in plan.directories.iter().filter(|d| **d != root) {
            assert!(dir.starts_with(&prefix), "{dir} outside {root}");
        }
        for target in plan.file_targets.values() {
            assert!(target.starts_with(&prefix), "{target} outside {root}");
        }
    }
}

#[test]
fn upload_polling_doubles_its_delay_until_done_or_failed() {
    let running = |status| S3FileUploadStatus { status, node: None, error_details: None };
    let mut delay = POLLING_START_DELAY;
    let mut sleeps = Vec::new();
    for status in [S3UploadStatus::Transfer, S3UploadStatus::Finishing, S3UploadStatus::Transfer] {
        match upload_poll_step(delay, running(status)) {
            UploadPollStep::Wait { sleep_ms, next_delay } => {
                sleeps.push(sleep_ms);
                delay = next_delay;
            }
            other => panic!("unexpected {other:?}"),
        }
    }
    assert_eq!(sleeps, vec![300, 600, 1200]);
    assert_eq!(delay, 2400);

    let done = S3FileUploadStatus {
        status: S3UploadStatus::Done,
        node: Some(api_node(42, "a.txt", NodeType::File, "/room/", Some(3))),
        error_details: None,
    };
    match upload_poll_step(delay, done) {
        UploadPollStep::Done(node) => assert_eq!(node.id, 42),
        other => panic!("unexpected {other:?}"),
    }

    let failed = S3FileUploadStatus {
        status: S3UploadStatus::Error,
        node: None,
        error_details: Some(DracoonErrorResponse::new(500, "S3 failed")),
    };
    match upload_poll_step(delay, failed) {
        UploadPollStep::Failed(e) => assert_eq!((e.code, e.message.as_str()), (500, "S3 failed")),
        other => panic!("unexpected {other:?}"),
    }
}

#[test]
fn windows_container_plan_stays_inside_its_root() {
    let fs = MockFilesystem::new(PathStyle::Windows);
    let service = NodesDownloadService::with_dependencies(fs, NoopTransferStateStore);
    let container = node(1, "parent", "/room/");
    let folders = vec![node(2, "x", "/room/parent/a/b/"), node(3, "y", "/room/parent/")];
    let files = vec![node(10, "f", "/room/parent/x/"), node(11, "g", "/room/parent/")];
    for base in [r"C:\downloads\", "C:", r"\\server\share", r"rel\.\dir", ""] {
        let plan = service
            .plan_container_download(base, &container, &folders, &files)
            .unwrap();
        let root = plan.root_target.clone();
        let prefix = if root.is_empty() || root.ends_with('\\') { root.clone() } else { format!("{root}\\") };
        assert!(plan.directories.contains(&root));
        for dir in plan.directories.iter().filter(|d| **d != root) {
            assert!(dir.starts_with(&prefix), "{dir} outside {root}");
        }
        for target in plan.file_targets.values() {
            assert!(target.starts_with(&prefix), "{target} outside {root}");
        }
    }
}

#[test]
fn delete_chooses_search_or_the_node_at_the_path() {
    assert_eq!(delete_lookup("*.txt", true), DeleteLookup::Search);
    assert_eq!(delete_lookup("*.txt", false), DeleteLookup::RefuseSearch);
    assert_eq!(delete_lookup("report.txt", false), DeleteLookup::NodeAtPath);

    let missing = prepare_delete_found(None, "/room/gone", "gone".to_string(), true);
    assert!(matches!(missing, Err(DcCmdError::InvalidPath(p)) if p == "/room/gone"));
    let folder = api_node(7, "dir", NodeType::Folder, "/room/", None);
    assert!(matches!(
        prepare_delete_found(Some(folder.clone()), "/room/dir", "dir".to_string(), false),
        Ok(DeleteNodesPreparation::ContainerRequiresRecursive)
    ));
    assert!(matches!(
        prepare_delete_found(Some(folder), "/room/dir", "dir".to_string(), true),
        Ok(DeleteNodesPreparation::SingleNode { node_id: 7, ref node_name, node_type: NodeType::Folder }) if node_name == "dir"
    ));
}
