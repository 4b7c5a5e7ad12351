use dccmd_rs::app::nodes::filesystem::{
    join_paths_with_style, normalize_path_with_style, Filesystem, MockFilesystem, PathStyle,
};

#[test]
fn test_normalize_unix_path() {
    assert_eq!(
        normalize_path_with_style(PathStyle::Unix, "/tmp//a\\b/./c"),
        "/tmp/a/b/c"
    );
}

#[test]
fn test_normalize_windows_path() {
    assert_eq!(
        normalize_path_with_style(PathStyle::Windows, "C:/tmp//a\\b/./c"),
        r"C:\tmp\a\b\c"
    );
}

#[test]
fn test_join_paths_windows() {
    assert_eq!(
        join_paths_with_style(PathStyle::Windows, r"C:\tmp", "sub/file.txt"),
        r"C:\tmp\sub\file.txt"
    );
}

#[test]
fn test_join_paths_unix() {
    assert_eq!(
        join_paths_with_style(PathStyle::Unix, "/tmp", "sub\\file.txt"),
        "/tmp/sub/file.txt"
    );
}

#[test]
fn test_join_paths_windows_drive_root() {
    assert_eq!(
        join_paths_with_style(PathStyle::Windows, r"C:\", "tmp/file.txt"),
        r"C:\tmp\file.txt"
    );
}

#[test]
fn test_join_paths_windows_absolute_child_stays_absolute() {
    assert_eq!(
        join_paths_with_style(PathStyle::Windows, r"C:\tmp", r"D:\target\file.txt"),
        r"D:\target\file.txt"
    );
}

#[test]
fn test_mock_filesystem_create_file_adds_parent_dirs_unix() {
    let mut fs = MockFilesystem::new(PathStyle::Unix);
    fs.create_file("/tmp/a/b/report.txt").unwrap();

    assert!(fs.path_exists("/tmp/a/b/report.txt"));
    assert!(fs.is_dir("/tmp/a/b"));
}

#[test]
fn test_mock_filesystem_create_file_adds_parent_dirs_windows() {
    let mut fs = MockFilesystem::new(PathStyle::Windows);
    fs.create_file("C:/tmp/a/b/report.txt").unwrap();

    assert!(fs.path_exists(r"C:\tmp\a\b\report.txt"));
    assert!(fs.is_dir(r"C:\tmp\a\b"));
    assert!(!fs.is_dir(r"C:\tmp\a\b\report.txt"));
}

#[test]
fn test_normalize_unix_is_idempotent_on_examples() {
    for path in ["", "/", "a/../../b", "/x/./y/..", "..", "./a//b/"] {
        let once = normalize_path_with_style(PathStyle::Unix, path);
        assert_eq!(normalize_path_with_style(PathStyle::Unix, &once), once);
    }
    assert_eq!(normalize_path_with_style(PathStyle::Unix, "/.."), "/");
    assert_eq!(normalize_path_with_style(PathStyle::Unix, "a/../../b"), "b");
}

#[test]
fn test_normalize_windows_prefixes() {
    assert_eq!(normalize_path_with_style(PathStyle::Windows, r"\\server\share\.."), r"\\server");
    assert_eq!(normalize_path_with_style(PathStyle::Windows, "C:"), "C:");
    assert_eq!(normalize_path_with_style(PathStyle::Windows, "C:/"), r"C:\");
    assert_eq!(normalize_path_with_style(PathStyle::Windows, r"\a\b"), r"\\a\b");
    assert_eq!(normalize_path_with_style(PathStyle::Windows, ""), "");
}

#[test]
fn test_join_paths_edge_cases() {
    assert_eq!(join_paths_with_style(PathStyle::Unix, "/", "a"), "/a");
    assert_eq!(join_paths_with_style(PathStyle::Unix, "/tmp", ""), "/tmp");
    assert_eq!(join_paths_with_style(PathStyle::Unix, "", "a/b"), "a/b");
    assert_eq!(join_paths_with_style(PathStyle::Unix, "/tmp", "/etc"), "/etc");
}

#[test]
fn test_mock_filesystem_with_directories_normalizes() {
    let fs = MockFilesystem::with_directories(PathStyle::Unix, &["/tmp//x/"]);
    assert!(fs.is_dir("/tmp/x"));
    assert!(!fs.path_exists("/tmp"));
}

#[test]
fn normalized_unix_paths_have_clean_segments() {
    for p in ["a//b/./c/../", "/x\\y//./z/", "/..", "./", "//"] {
        let n = normalize_path_with_style(PathStyle::Unix, p);
        assert!(!n.contains('\\'));
        assert!(!n.contains("//"));
        assert!(n == "/" || !n.ends_with('/'));
        assert!(n.split('/').all(|s| s != "." && s != ".."));
        assert_eq!(n.starts_with('/'), p.replace('\\', "/").starts_with('/'));
        assert_eq!(normalize_path_with_style(PathStyle::Unix, &n), n);
    }
}

#[test]
fn normalized_windows_paths_are_stable() {
    for p in [r"\\srv\a/b\..\c", r"C:x\..\y", r"\a\.\b", "C:/", "C:", r"a\\b/./", r"\.."] {
        let n = normalize_path_with_style(PathStyle::Windows, p);
        assert!(!n.contains('/'));
        assert!(n.split('\\').all(|s| s != "." && s != ".."));
        assert_eq!(normalize_path_with_style(PathStyle::Windows, &n), n);
        if p.replace('/', r"\").starts_with(r"\\") {
            assert!(n.starts_with(r"\\"));
        }
    }
    assert_eq!(normalize_path_with_style(PathStyle::Windows, r"\\srv\a/b\..\c"), r"\\srv\a\c");
}
