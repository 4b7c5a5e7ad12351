use dccmd_rs::api::nodes::models::NodeType;
use dccmd_rs::app::groups::{
    find_group_by_name, further_page_offsets, group_users_source, select_group, GroupSelector,
    GroupUsersSource,
};
use dccmd_rs::app::messages::{
    copy_report, groups_report, list_report, mkdir_report, remove_confirmation, remove_decision,
    users_report, GroupsReport, RemoveTarget, UsersReport, MKROOM_DEPRECATION_WARNING,
};
use dccmd_rs::app::nodes::{CopyNodesResult, DeleteNodesPreparation};
use dccmd_rs::app::outcome::OutcomeMessageKind;
use dccmd_rs::app::results::{AppResult, AppStatus};
use dccmd_rs::errors::DcCmdError;

fn lines(r: &AppResult) -> Vec<(OutcomeMessageKind, String)> {
    r.outcome().messages.iter().map(|m| (m.kind, m.text.clone())).collect()
}

#[test]
fn copy_report_names_count_and_paths() {
    let r = copy_report(&CopyNodesResult {
        count_nodes: 3,
        source_parent_path: "/a/".to_string(),
        target_path: "/b/".to_string(),
    });
    assert_eq!(r.status(), AppStatus::Success);
    assert_eq!(lines(&r), vec![(OutcomeMessageKind::Success, "Copied 3 node(s) from /a/ to /b/.".to_string())]);
}

#[test]
fn list_report_defaults_to_root() {
    let r = list_report(None, 0);
    assert_eq!(lines(&r), vec![(OutcomeMessageKind::Info, "Listed 0 node(s) in /.".to_string())]);
    let r = list_report(Some("/room/"), 12);
    assert_eq!(lines(&r), vec![(OutcomeMessageKind::Info, "Listed 12 node(s) in /room/.".to_string())]);
}

#[test]
fn mkdir_report_warns_for_the_old_command() {
    let r = mkdir_report(true, "Room x created.");
    assert_eq!(
        lines(&r),
        vec![
            (OutcomeMessageKind::Warning, MKROOM_DEPRECATION_WARNING.to_string()),
            (OutcomeMessageKind::Success, "Room x created.".to_string()),
        ]
    );
    let r = mkdir_report(false, "Folder y created.");
    assert_eq!(lines(&r), vec![(OutcomeMessageKind::Success, "Folder y created.".to_string())]);
}

#[test]
fn users_report_created_lists_details() {
    let r = users_report(&UsersReport::Created {
        user_name: "jdoe".to_string(),
        user_id: 42,
        auth_method: "basic".to_string(),
    });
    assert_eq!(r.status(), AppStatus::Success);
    assert_eq!(
        lines(&r),
        vec![
            (OutcomeMessageKind::Success, "User jdoe created".to_string()),
            (OutcomeMessageKind::Info, "► user id: 42".to_string()),
            (OutcomeMessageKind::Info, "► user login: jdoe".to_string()),
            (OutcomeMessageKind::Info, "► auth method: basic".to_string()),
        ]
    );
}

#[test]
fn users_report_import_and_mfa() {
    let r = users_report(&UsersReport::Imported { imported: 8, total: 10, failed: 2 });
    assert_eq!(
        lines(&r),
        vec![
            (OutcomeMessageKind::Success, "8 users imported".to_string()),
            (OutcomeMessageKind::Info, "Import summary: 10 total, 2 failed.".to_string()),
        ]
    );
    let r = users_report(&UsersReport::EnforcedMfa { success_count: 5, failed_count: 1 });
    assert_eq!(
        lines(&r),
        vec![
            (OutcomeMessageKind::Success, "Enforced MFA for 5 users successfully.".to_string()),
            (OutcomeMessageKind::Info, "Failed MFA updates: 1".to_string()),
        ]
    );
    let r = users_report(&UsersReport::SwitchedAuth {
        current_method: "basic".to_string(),
        new_method: "openid".to_string(),
        updated_users: 3,
    });
    assert_eq!(
        lines(&r),
        vec![(OutcomeMessageKind::Success, "Switched auth method from basic to openid for 3 users.".to_string())]
    );
    assert!(lines(&users_report(&UsersReport::Listed)).is_empty());
    let r = users_report(&UsersReport::Invited { first_name: "Jo".to_string(), last_name: "Do".to_string() });
    assert_eq!(lines(&r), vec![(OutcomeMessageKind::Success, "User Jo Do invited".to_string())]);
}

#[test]
fn groups_report_messages() {
    let r = groups_report(&GroupsReport::Created { group_name: "team".to_string(), group_id: 7 });
    assert_eq!(lines(&r), vec![(OutcomeMessageKind::Success, "Group team (7) created".to_string())]);
    let r = groups_report(&GroupsReport::Removed { group_id: 7 });
    assert_eq!(lines(&r), vec![(OutcomeMessageKind::Success, "Group 7 deleted".to_string())]);
    let r = groups_report(&GroupsReport::UserAdded { group_id: 7, user_id: 9 });
    assert_eq!(lines(&r), vec![(OutcomeMessageKind::Success, "User 9 added to group 7".to_string())]);
    assert!(lines(&groups_report(&GroupsReport::UsersListed)).is_empty());
}

#[test]
fn remove_asks_before_search_and_room_deletes() {
    let search = DeleteNodesPreparation::Search { node_ids: vec![1, 2, 3] };
    assert_eq!(remove_confirmation(&search), Some("Do you really want to delete 3 items?".to_string()));
    let room = DeleteNodesPreparation::SingleNode {
        node_id: 4,
        node_name: "R".to_string(),
        node_type: NodeType::Room,
    };
    assert_eq!(remove_confirmation(&room), Some("Do you really want to delete room R?".to_string()));
    let file = DeleteNodesPreparation::SingleNode {
        node_id: 5,
        node_name: "f".to_string(),
        node_type: NodeType::File,
    };
    assert_eq!(remove_confirmation(&file), None);
    assert_eq!(remove_confirmation(&DeleteNodesPreparation::ContainerRequiresRecursive), None);
}

#[test]
fn remove_decisions() {
    let d = remove_decision(DeleteNodesPreparation::InvalidSearchRequiresRecursive, true);
    assert_eq!(d.delete, RemoveTarget::Nothing);
    assert_eq!(d.result.status(), AppStatus::Failure);
    assert_eq!(
        lines(&d.result),
        vec![(
            OutcomeMessageKind::Error,
            "Deleting search results not allowed. Use --recursive flag to delete recursively.".to_string()
        )]
    );
    let d = remove_decision(DeleteNodesPreparation::Search { node_ids: vec![1, 2] }, true);
    assert_eq!(d.delete, RemoveTarget::Nodes(vec![1, 2]));
    assert_eq!(d.result.status(), AppStatus::Success);
    let d = remove_decision(DeleteNodesPreparation::Search { node_ids: vec![1, 2] }, false);
    assert_eq!(d.delete, RemoveTarget::Nothing);
    let room = DeleteNodesPreparation::SingleNode {
        node_id: 4,
        node_name: "R".to_string(),
        node_type: NodeType::Room,
    };
    let d = remove_decision(room.clone(), false);
    assert_eq!(d.delete, RemoveTarget::Nothing);
    assert_eq!(d.result.status(), AppStatus::Failure);
    assert_eq!(lines(&d.result), vec![(OutcomeMessageKind::Error, "Deleting room not confirmed.".to_string())]);
    let d = remove_decision(room, true);
    assert_eq!(d.delete, RemoveTarget::Node(4));
    assert_eq!(lines(&d.result), vec![(OutcomeMessageKind::Success, "Node R deleted.".to_string())]);
}

#[test]
fn group_selection() {
    assert!(matches!(select_group(Some("x".to_string()), Some(3)), Ok(GroupSelector::ById(3))));
    assert!(matches!(select_group(Some("x".to_string()), None), Ok(GroupSelector::ByName(ref n)) if n == "x"));
    assert!(matches!(
        select_group(None, None),
        Err(DcCmdError::InvalidArgument(ref m)) if m == "Either group name or id must be provided"
    ));
    assert_eq!(group_users_source(Some("x"), Some(2)), GroupUsersSource::ById(2));
    assert_eq!(group_users_source(Some("x"), None), GroupUsersSource::ByName("x".to_string()));
    assert_eq!(group_users_source(Some(""), None), GroupUsersSource::All);
    assert_eq!(group_users_source(None, None), GroupUsersSource::All);
}

#[test]
fn find_group_by_exact_name() {
    let names = vec!["team-a".to_string(), "team".to_string(), "team".to_string()];
    assert!(matches!(find_group_by_name(&names, "team"), Ok(1)));
    assert!(matches!(
        find_group_by_name(&names, "tea"),
        Err(DcCmdError::InvalidArgument(ref m)) if m == "No group found with name: tea"
    ));
}

#[test]
fn further_pages_include_the_total() {
    assert_eq!(further_page_offsets(499, 500), Vec::<u64>::new());
    assert_eq!(further_page_offsets(500, 500), vec![500]);
    assert_eq!(further_page_offsets(1200, 500), vec![500, 1000]);
}
