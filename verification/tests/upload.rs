use std::path::PathBuf;

use dccmd_rs::api::nodes::models::ResolutionStrategy;
use dccmd_rs::app::nodes::upload::files::{
    calculate_buffer_size, concurrent_requests_for_velocity, effective_velocity, share_message,
    should_share_upload, upload_classification, upload_conflict_options, upload_results,
};
use dccmd_rs::app::nodes::upload::folders::{component_count, group_folders_by_depth, normalize_path};
use dccmd_rs::app::nodes::upload::{
    check_public_upload, choose_upload_kind, UploadFailure, UploadKind, UploadOutcome,
};
use dccmd_rs::errors::DcCmdError;

#[test]
fn test_effective_velocity_applies_defaults_and_clamps() {
    assert_eq!(effective_velocity(None), 1);
    assert_eq!(effective_velocity(Some(0)), 1);
    assert_eq!(effective_velocity(Some(255)), 10);
    assert_eq!(effective_velocity(Some(3)), 3);
}

#[test]
fn test_concurrent_requests_for_velocity_scales_by_multiplier() {
    assert_eq!(concurrent_requests_for_velocity(None), 10);
    assert_eq!(concurrent_requests_for_velocity(Some(1)), 10);
    assert_eq!(concurrent_requests_for_velocity(Some(3)), 30);
    assert_eq!(concurrent_requests_for_velocity(Some(10)), 100);
    assert_eq!(concurrent_requests_for_velocity(Some(255)), 100);
}

#[test]
fn test_calculate_buffer_size_steps() {
    assert_eq!(calculate_buffer_size(0), 16 * 1024);
    assert_eq!(calculate_buffer_size(1024 * 1024), 16 * 1024);
    assert_eq!(calculate_buffer_size(1024 * 1024 + 1), 64 * 1024);
    assert_eq!(calculate_buffer_size(10 * 1024 * 1024), 64 * 1024);
    assert_eq!(calculate_buffer_size(100 * 1024 * 1024), 128 * 1024);
    assert_eq!(calculate_buffer_size(100 * 1024 * 1024 + 1), 256 * 1024);
}

#[test]
fn test_upload_options_decisions() {
    assert_eq!(upload_classification(None), 2);
    assert_eq!(upload_classification(Some(4)), 4);
    assert_eq!(upload_conflict_options(true, true), (ResolutionStrategy::Overwrite, true));
    assert_eq!(upload_conflict_options(false, true), (ResolutionStrategy::AutoRename, false));
    assert!(should_share_upload(true, Some(false)));
    assert!(should_share_upload(true, None));
    assert!(!should_share_upload(true, Some(true)));
    assert!(!should_share_upload(false, None));
    assert_eq!(
        share_message("file.txt", "https://example.com/public/download-shares/mock-link"),
        "Shared file.txt.\n▶︎▶︎ https://example.com/public/download-shares/mock-link"
    );
}

#[test]
fn test_upload_kind_decisions() {
    assert!(matches!(
        choose_upload_kind(Some(true), true, true, false, false, "/x"),
        Err(DcCmdError::InvalidArgument(m)) if m == "Sharing encrypted files currently not supported (remove --share flag)."
    ));
    assert_eq!(choose_upload_kind(Some(true), false, true, false, false, "/x").unwrap(), UploadKind::File);
    assert_eq!(choose_upload_kind(None, true, false, true, true, "/x").unwrap(), UploadKind::Container);
    assert!(matches!(
        choose_upload_kind(None, false, false, true, false, "/x"),
        Err(DcCmdError::InvalidArgument(m)) if m == "Container upload requires recursive flag"
    ));
    assert!(matches!(
        choose_upload_kind(None, false, false, false, true, "/x"),
        Err(DcCmdError::InvalidPath(m)) if m == "/x"
    ));
    assert!(check_public_upload(true, "/x").is_ok());
    assert!(matches!(check_public_upload(false, "/dir"), Err(DcCmdError::InvalidPath(m)) if m == "/dir"));
}

#[test]
fn test_upload_outcome_failure_message() {
    assert_eq!(UploadOutcome::success("root", 3).failure_message(), None);
    let failures: Vec<UploadFailure> = (1..=7)
        .map(|i| UploadFailure { file: format!("f{i}"), reason: "boom".to_string() })
        .collect();
    let outcome = UploadOutcome::from_failures("root", 10, 3, failures);
    assert!(outcome.partial);
    let message = outcome.failure_message().unwrap();
    assert_eq!(
        message,
        "Uploaded 3/10 file(s) to root; 7 failed.\nFailed f1 (boom)\nFailed f2 (boom)\nFailed f3 (boom)\nFailed f4 (boom)\nFailed f5 (boom)\n... and 2 more failed file(s)."
    );
    let one = UploadOutcome::from_failures("r", 1, 0, vec![UploadFailure { file: "a".to_string(), reason: "x".to_string() }]);
    assert!(!one.partial);
    assert_eq!(one.failure_message().unwrap(), "Uploaded 0/1 file(s) to r; 1 failed.\nFailed a (x)");
    let shared = UploadOutcome::success("r", 1).with_share_message(Some("s".to_string()));
    assert_eq!(shared.share_message, Some("s".to_string()));
}

#[test]
fn test_group_folders_by_depth() {
    let folders = vec![
        "/a/b/c".to_string(),
        "/a/b/d".to_string(),
        "/a/e".to_string(),
        "/f".to_string(),
    ];

    let grouped = group_folders_by_depth(folders);

    assert_eq!(grouped.len(), 3);

    let first_depth = grouped.first().unwrap();
    assert_eq!(first_depth.len(), 1);
    assert_eq!(*first_depth.first().unwrap(), ("/f".to_string(), 1));

    let second_depth = grouped.get(1).unwrap();
    assert_eq!(second_depth.len(), 1);
    assert_eq!(*second_depth.first().unwrap(), ("/a/e".to_string(), 2));

    let third_depth = grouped.last().unwrap();
    assert_eq!(third_depth.len(), 2);
    assert_eq!(*third_depth.first().unwrap(), ("/a/b/c".to_string(), 3));
    assert_eq!(*third_depth.last().unwrap(), ("/a/b/d".to_string(), 3));
}

#[test]
fn test_component_count_matches_path_components() {
    for path in ["/a/b/c", "/", "a", "./a", "a/./b/", "//a//", "../x", "."] {
        assert_eq!(component_count(path), std::path::Path::new(path).components().count(), "{path}");
    }
}

#[test]
fn test_basic_path() {
    let root = PathBuf::from("/root");
    let path = PathBuf::from("/root/folder1/folder2");
    assert_eq!(
        normalize_path(path.to_str().unwrap(), root.to_str().unwrap()),
        "/folder1/folder2"
    );
}

#[test]
fn test_windows_path() {
    let root = PathBuf::from(r"C:\root");
    let path = PathBuf::from(r"C:\root\folder1\folder2");
    assert_eq!(
        normalize_path(path.to_str().unwrap(), root.to_str().unwrap()),
        "/folder1/folder2"
    );
}

#[test]
fn test_just_root() {
    let root = PathBuf::from("/root");
    let path = PathBuf::from("/root");
    assert_eq!(normalize_path(path.to_str().unwrap(), root.to_str().unwrap()), "/");
}

#[test]
fn test_nested_paths() {
    let root = PathBuf::from("/root/base");
    let path = PathBuf::from("/root/base/folder1/folder2/folder3");
    assert_eq!(
        normalize_path(path.to_str().unwrap(), root.to_str().unwrap()),
        "/folder1/folder2/folder3"
    );
}

#[test]
fn test_already_normalized() {
    let root = PathBuf::from("/root");
    let path = PathBuf::from("/folder1/folder2");
    assert_eq!(
        normalize_path(path.to_str().unwrap(), root.to_str().unwrap()),
        "/folder1/folder2"
    );
}

#[test]
fn test_parent_paths() {
    let root = PathBuf::from("/root/base");
    let path = PathBuf::from("/root/base/folder1/folder2");
    let parent = path.parent().unwrap();
    assert_eq!(normalize_path(parent.to_str().unwrap(), root.to_str().unwrap()), "/folder1");
}

#[test]
fn test_mac_path_normalization() {
    let root = PathBuf::from("/root");

    // A macOS-style NFD input path
    let path_nfd = PathBuf::from("/root/fo\u{308}lde\u{301}r");

    let normalized = normalize_path(path_nfd.to_str().unwrap(), root.to_str().unwrap());

    // The output is in NFC
    assert_eq!(normalized, "/földér");
}

#[test]
fn grouping_keeps_every_folder_once() {
    let folders: Vec<String> = ["/r/a", "/r/a/b", "/r/c", "/r/a/b/d", "/r/e"].iter().map(|s| s.to_string()).collect();
    let groups = group_folders_by_depth(folders.clone());
    let mut flat: Vec<String> = groups.into_iter().flatten().map(|(p, _)| p).collect();
    let mut expected = folders;
    flat.sort();
    expected.sort();
    assert_eq!(flat, expected);
}

#[test]
fn upload_results_report_the_first_failure_in_task_order() {
    assert!(matches!(upload_results(vec![Ok(()), Ok(()), Ok(())]), Ok(3)));
    assert!(matches!(upload_results(Vec::new()), Ok(0)));
    let r = upload_results(vec![
        Ok(()),
        Err(DcCmdError::InvalidPath("a".to_string())),
        Err(DcCmdError::IoError),
    ]);
    assert!(matches!(r, Err(DcCmdError::InvalidPath(p)) if p == "a"));
}
