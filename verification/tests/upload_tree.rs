use dccmd_rs::api::nodes::models::NodeType;
use dccmd_rs::app::models::CreateContainerType;
use dccmd_rs::app::nodes::create::{
    container_created_message, effective_room_inherit_permissions, plan_container,
    require_admin_ids, ContainerPlan,
};
use dccmd_rs::app::nodes::transfer::{check_transfer_share, transfer_unlocks};
use dccmd_rs::app::nodes::upload::public_upload_access_key;
use dccmd_rs::app::nodes::upload::tree::{
    file_parent_ids, folder_key, folder_name, folder_parent_id, parent_key, upload_root_key,
    CreatedFolders,
};
use dccmd_rs::errors::DcCmdError;

#[test]
fn root_key_is_slash_and_nfc_name() {
    assert_eq!(upload_root_key("fo\u{308}lder"), "/f\u{f6}lder");
    assert_eq!(upload_root_key("root"), "/root");
}

#[test]
fn parent_keys_of_nested_folders() {
    assert_eq!(parent_key("/src/root/a", "/src"), "/root");
    assert_eq!(parent_key("/src/root/a/b", "/src"), "/root/a");
    assert_eq!(parent_key("/src/root", "/src"), "/");
    assert_eq!(parent_key("C:\\src\\root\\a", "C:\\src"), "/root");
}

#[test]
fn folder_keys_join_parent_and_name() {
    assert_eq!(folder_key("/root", "a"), "/root/a");
    assert_eq!(folder_key("/root/a", "e\u{301}"), "/root/a/\u{e9}");
    assert_eq!(folder_name("e\u{301}"), "\u{e9}");
}

#[test]
fn created_folders_record_and_replace() {
    let mut created = CreatedFolders::new();
    assert_eq!(created.id_of("/root"), None);
    created.record("/root".to_string(), 1);
    created.record("/root/a".to_string(), 2);
    created.record("/root".to_string(), 3);
    assert_eq!(created.id_of("/root"), Some(3));
    assert_eq!(created.id_of("/root/a"), Some(2));
    assert!(matches!(folder_parent_id(&created, "/root/a", "/src/root/a"), Ok(2)));
    assert!(matches!(
        folder_parent_id(&created, "/root/x", "/src/root/x"),
        Err(DcCmdError::InvalidPath(ref p)) if p == "/src/root/x"
    ));
}

#[test]
fn files_are_placed_under_their_recorded_parents() {
    let mut created = CreatedFolders::new();
    created.record("/root".to_string(), 10);
    created.record("/root/a".to_string(), 11);
    let files = vec!["/src/root/f.txt".to_string(), "/src/root/a/g.txt".to_string()];
    let ids = file_parent_ids(&created, &files, "/src").expect("all parents exist");
    assert_eq!(ids, vec![10, 11]);
    let files = vec!["/src/root/f.txt".to_string(), "/src/root/b/h.txt".to_string()];
    assert!(matches!(
        file_parent_ids(&created, &files, "/src"),
        Err(DcCmdError::InvalidPath(ref k)) if k == "/root/b"
    ));
}

#[test]
fn folder_options_are_checked() {
    let r = plan_container("/a/b", CreateContainerType::Folder, NodeType::Room, Some(3), None, Some(vec!["x".to_string()]), false);
    assert!(matches!(r, Err(DcCmdError::InvalidArgument(ref m)) if m == "Room-only options are not supported when creating folders."));
    let r = plan_container("/a/b", CreateContainerType::Folder, NodeType::Folder, Some(3), Some("n".to_string()), None, false);
    assert_eq!(r.ok(), Some(ContainerPlan::Folder { classification: Some(3), notes: Some("n".to_string()) }));
}

#[test]
fn room_options_are_checked() {
    let r = plan_container("/a/b", CreateContainerType::Room, NodeType::Room, None, Some("n".to_string()), None, false);
    assert!(matches!(r, Err(DcCmdError::InvalidArgument(ref m)) if m == "Notes are only supported when creating folders."));
    let r = plan_container("/a/b", CreateContainerType::Room, NodeType::Folder, None, None, None, false);
    assert!(matches!(r, Err(DcCmdError::InvalidPath(ref m)) if m == "/a/b"));
    let r = plan_container("/a/b", CreateContainerType::Room, NodeType::Room, None, None, None, false);
    assert_eq!(r.ok(), Some(ContainerPlan::Room { classification: 2, admin_users: None, inherit_permissions: true }));
    let r = plan_container("/a/b", CreateContainerType::Room, NodeType::Room, Some(4), None, Some(vec!["adm".to_string()]), false);
    assert_eq!(
        r.ok(),
        Some(ContainerPlan::Room { classification: 4, admin_users: Some(vec!["adm".to_string()]), inherit_permissions: false })
    );
}

#[test]
fn room_inheritance_and_admins() {
    assert!(effective_room_inherit_permissions(false, false));
    assert!(!effective_room_inherit_permissions(true, false));
    assert!(effective_room_inherit_permissions(true, true));
    assert!(matches!(require_admin_ids(vec![]), Err(DcCmdError::InvalidArgument(ref m)) if m == "No valid admin users provided."));
    assert_eq!(require_admin_ids(vec![5, 6]).ok(), Some(vec![5, 6]));
    assert_eq!(container_created_message(CreateContainerType::Folder, "x"), "Folder x created.");
    assert_eq!(container_created_message(CreateContainerType::Room, "y"), "Room y created.");
}

#[test]
fn transfer_checks() {
    assert_eq!(transfer_unlocks(Some(true), None), (false, true));
    assert_eq!(transfer_unlocks(Some(false), Some(true)), (true, false));
    assert!(check_transfer_share(Some(true), false).is_ok());
    assert!(check_transfer_share(None, true).is_ok());
    assert!(matches!(
        check_transfer_share(Some(true), true),
        Err(DcCmdError::InvalidArgument(ref m)) if m == "Sharing encrypted files currently not supported (remove --share flag)."
    ));
}

#[test]
fn public_upload_access_key_is_last_segment() {
    assert_eq!(public_upload_access_key("https://dracoon.team/public/upload-shares/abc123"), "abc123");
    assert_eq!(public_upload_access_key("https://dracoon.team/public/upload-shares/"), "");
    assert_eq!(public_upload_access_key("key"), "key");
}
