//! What the node, user and group commands report once the platform has done
//! its work: the messages, in order, and the status.

use vstd::prelude::*;
use crate::api::nodes::models::NodeType;
use crate::app::nodes::{CopyNodesResult, DeleteNodesPreparation};
use crate::app::outcome::{message_view, CommandOutcome, OutcomeMessageKind};
use crate::app::results::{app_result_from_status, AppResult, AppStatus};
use crate::text::{append_str, dec, string_of, u64_to_string};

verus! {

/// A message seen as its kind and text.
pub type Line = (OutcomeMessageKind, Seq<char>);

/// The messages of a command result, seen as kinds and texts.
pub open spec fn lines_of(r: AppResult) -> Seq<Line> {
    r.outcome_view().messages@.map_values(|m| message_view(m))
}

/// Appends a message whose text is the given characters.
fn push_chars(outcome: &mut CommandOutcome, kind: OutcomeMessageKind, text: Vec<char>)
    ensures
        final(outcome).messages@.map_values(|m| message_view(m)) == old(outcome).messages@.map_values(
            |m| message_view(m),
        ).push((kind, text@)),
{
    let ghost before = outcome.messages@;
    outcome.push(kind, string_of(text.as_slice()).as_str());
    assert(outcome.messages@.map_values(|m| message_view(m)) =~= before.map_values(
        |m| message_view(m),
    ).push((kind, text@)));
}

/// The text of a count.
fn count_text(n: u64) -> (s: String)
    ensures
        s@ == dec(n as nat),
{
    u64_to_string(n)
}

// ----- copy -----

/// The message of a copy: how many nodes went from where to where.
pub open spec fn copy_report_spec(r: CopyNodesResult) -> Seq<Line> {
    seq![
        (
            OutcomeMessageKind::Success,
            "Copied "@ + dec(r.count_nodes as nat) + " node(s) from "@ + r.source_parent_path@ + " to "@
                + r.target_path@ + "."@,
        ),
    ]
}

/// The report of a copy: a success with one message (see `copy_report_spec`).
pub fn copy_report(r: &CopyNodesResult) -> (a: AppResult)
    ensures
        a.status_view() == AppStatus::Success,
        lines_of(a) == copy_report_spec(*r),
        a.payload_view() is None,
{
    let mut outcome = CommandOutcome::new();
    let mut v: Vec<char> = Vec::new();
    append_str(&mut v, "Copied ");
    append_str(&mut v, count_text(r.count_nodes as u64).as_str());
    append_str(&mut v, " node(s) from ");
    append_str(&mut v, r.source_parent_path.as_str());
    append_str(&mut v, " to ");
    append_str(&mut v, r.target_path.as_str());
    append_str(&mut v, ".");
    assert(outcome.messages@.map_values(|m| message_view(m)) =~= Seq::<Line>::empty());
    push_chars(&mut outcome, OutcomeMessageKind::Success, v);
    AppResult::success(outcome)
}

// ----- list -----

/// The message of a listing: how many nodes were listed, and where (the root
/// when no path is known).
pub open spec fn list_report_spec(node_path: Option<Seq<char>>, count: nat) -> Seq<Line> {
    let path = match node_path {
        Some(p) => p,
        None => "/"@,
    };
    seq![(OutcomeMessageKind::Info, "Listed "@ + dec(count) + " node(s) in "@ + path + "."@)]
}

/// The report of a listing of `count` nodes (see `list_report_spec`); the
/// nodes themselves are printed by the user interface.
pub fn list_report(node_path: Option<&str>, count: u64) -> (a: AppResult)
    ensures
        a.status_view() == AppStatus::Success,
        lines_of(a) == list_report_spec(
            match node_path {
                Some(p) => Some(p@),
                None => None,
            },
            count as nat,
        ),
        a.payload_view() is None,
{
    let mut outcome = CommandOutcome::new();
    let mut v: Vec<char> = Vec::new();
    append_str(&mut v, "Listed ");
    append_str(&mut v, count_text(count).as_str());
    append_str(&mut v, " node(s) in ");
    match node_path {
        Some(p) => append_str(&mut v, p),
        None => append_str(&mut v, "/"),
    }
    append_str(&mut v, ".");
    assert(outcome.messages@.map_values(|m| message_view(m)) =~= Seq::<Line>::empty());
    push_chars(&mut outcome, OutcomeMessageKind::Info, v);
    AppResult::success(outcome)
}

// ----- mkdir -----

/// The warning for the deprecated `mkroom` command.
pub const MKROOM_DEPRECATION_WARNING: &'static str =
    "Warning: `mkroom` is deprecated and will be removed in a future release. Use `mkdir --type room` instead.";

/// The messages of a created container: the deprecation warning when the
/// old command name was used, then the platform's success message.
pub open spec fn mkdir_report_spec(deprecated_alias: bool, success_message: Seq<char>) -> Seq<Line> {
    let warning = if deprecated_alias {
        seq![(OutcomeMessageKind::Warning, MKROOM_DEPRECATION_WARNING@)]
    } else {
        Seq::empty()
    };
    warning.push((OutcomeMessageKind::Success, success_message))
}

/// The report of a created container (see `mkdir_report_spec`).
pub fn mkdir_report(deprecated_alias: bool, success_message: &str) -> (a: AppResult)
    ensures
        a.status_view() == AppStatus::Success,
        lines_of(a) == mkdir_report_spec(deprecated_alias, success_message@),
        a.payload_view() is None,
{
    let mut outcome = CommandOutcome::new();
    assert(outcome.messages@.map_values(|m| message_view(m)) =~= Seq::<Line>::empty());
    if deprecated_alias {
        outcome.push(OutcomeMessageKind::Warning, MKROOM_DEPRECATION_WARNING);
        assert(outcome.messages@.map_values(|m| message_view(m)) =~= seq![
            (OutcomeMessageKind::Warning, MKROOM_DEPRECATION_WARNING@),
        ]);
    }
    let ghost before = outcome.messages@;
    outcome.push(OutcomeMessageKind::Success, success_message);
    assert(outcome.messages@.map_values(|m| message_view(m)) =~= before.map_values(
        |m| message_view(m),
    ).push((OutcomeMessageKind::Success, success_message@)));
    AppResult::success(outcome)
}

// ----- users -----

/// What a users command produced, as far as its report reads it. Listings
/// and user details are printed by the user interface.
#[derive(Debug, Clone, PartialEq, Eq)]
pub enum UsersReport {
    Created { user_name: String, user_id: u64, auth_method: String },
    Invited { first_name: String, last_name: String },
    Listed,
    Removed { message: String },
    Imported { imported: u64, total: u64, failed: u64 },
    Info,
    SwitchedAuth { current_method: String, new_method: String, updated_users: u64 },
    EnforcedMfa { success_count: u64, failed_count: u64 },
}

/// The messages of a users command.
pub open spec fn users_report_spec(r: UsersReport) -> Seq<Line> {
    match r {
        UsersReport::Created { user_name, user_id, auth_method } => seq![
            (OutcomeMessageKind::Success, "User "@ + user_name@ + " created"@),
            (OutcomeMessageKind::Info, "► user id: "@ + dec(user_id as nat)),
            (OutcomeMessageKind::Info, "► user login: "@ + user_name@),
            (OutcomeMessageKind::Info, "► auth method: "@ + auth_method@),
        ],
        UsersReport::Invited { first_name, last_name } => seq![
            (OutcomeMessageKind::Success, "User "@ + first_name@ + " "@ + last_name@ + " invited"@),
        ],
        UsersReport::Listed => Seq::empty(),
        UsersReport::Removed { message } => seq![(OutcomeMessageKind::Success, message@)],
        UsersReport::Imported { imported, total, failed } => seq![
            (OutcomeMessageKind::Success, dec(imported as nat) + " users imported"@),
            (
                OutcomeMessageKind::Info,
                "Import summary: "@ + dec(total as nat) + " total, "@ + dec(failed as nat) + " failed."@,
            ),
        ],
        UsersReport::Info => Seq::empty(),
        UsersReport::SwitchedAuth { current_method, new_method, updated_users } => seq![
            (
                OutcomeMessageKind::Success,
                "Switched auth method from "@ + current_method@ + " to "@ + new_method@ + " for "@ + dec(
                    updated_users as nat,
                ) + " users."@,
            ),
        ],
        UsersReport::EnforcedMfa { success_count, failed_count } => seq![
            (OutcomeMessageKind::Success, "Enforced MFA for "@ + dec(success_count as nat) + " users successfully."@),
            (OutcomeMessageKind::Info, "Failed MFA updates: "@ + dec(failed_count as nat)),
        ],
    }
}

/// The report of a users command: always a success (see `users_report_spec`).
pub fn users_report(r: &UsersReport) -> (a: AppResult)
    ensures
        a.status_view() == AppStatus::Success,
        lines_of(a) == users_report_spec(*r),
        a.payload_view() is None,
{
    let mut outcome = CommandOutcome::new();
    assert(outcome.messages@.map_values(|m| message_view(m)) =~= Seq::<Line>::empty());
    match r {
        UsersReport::Created { user_name, user_id, auth_method } => {
            let mut v: Vec<char> = Vec::new();
            append_str(&mut v, "User ");
            append_str(&mut v, user_name.as_str());
            append_str(&mut v, " created");
            push_chars(&mut outcome, OutcomeMessageKind::Success, v);
            let mut v: Vec<char> = Vec::new();
            append_str(&mut v, "► user id: ");
            append_str(&mut v, count_text(*user_id).as_str());
            push_chars(&mut outcome, OutcomeMessageKind::Info, v);
            let mut v: Vec<char> = Vec::new();
            append_str(&mut v, "► user login: ");
            append_str(&mut v, user_name.as_str());
            push_chars(&mut outcome, OutcomeMessageKind::Info, v);
            let mut v: Vec<char> = Vec::new();
            append_str(&mut v, "► auth method: ");
            append_str(&mut v, auth_method.as_str());
            push_chars(&mut outcome, OutcomeMessageKind::Info, v);
        },
        UsersReport::Invited { first_name, last_name } => {
            let mut v: Vec<char> = Vec::new();
            append_str(&mut v, "User ");
            append_str(&mut v, first_name.as_str());
            append_str(&mut v, " ");
            append_str(&mut v, last_name.as_str());
            append_str(&mut v, " invited");
            push_chars(&mut outcome, OutcomeMessageKind::Success, v);
        },
        UsersReport::Listed => {},
        UsersReport::Removed { message } => {
            let mut v: Vec<char> = Vec::new();
            append_str(&mut v, message.as_str());
            push_chars(&mut outcome, OutcomeMessageKind::Success, v);
        },
        UsersReport::Imported { imported, total, failed } => {
            let mut v: Vec<char> = Vec::new();
            append_str(&mut v, count_text(*imported).as_str());
            append_str(&mut v, " users imported");
            push_chars(&mut outcome, OutcomeMessageKind::Success, v);
            let mut v: Vec<char> = Vec::new();
            append_str(&mut v, "Import summary: ");
            append_str(&mut v, count_text(*total).as_str());
            append_str(&mut v, " total, ");
            append_str(&mut v, count_text(*failed).as_str());
            append_str(&mut v, " failed.");
            push_chars(&mut outcome, OutcomeMessageKind::Info, v);
        },
        UsersReport::Info => {},
        UsersReport::SwitchedAuth { current_method, new_method, updated_users } => {
            let mut v: Vec<char> = Vec::new();
            append_str(&mut v, "Switched auth method from ");
            append_str(&mut v, current_method.as_str());
            append_str(&mut v, " to ");
            append_str(&mut v, new_method.as_str());
            append_str(&mut v, " for ");
            append_str(&mut v, count_text(*updated_users).as_str());
            append_str(&mut v, " users.");
            push_chars(&mut outcome, OutcomeMessageKind::Success, v);
        },
        UsersReport::EnforcedMfa { success_count, failed_count } => {
            let mut v: Vec<char> = Vec::new();
            append_str(&mut v, "Enforced MFA for ");
            append_str(&mut v, count_text(*success_count).as_str());
            append_str(&mut v, " users successfully.");
            push_chars(&mut outcome, OutcomeMessageKind::Success, v);
            let mut v: Vec<char> = Vec::new();
            append_str(&mut v, "Failed MFA updates: ");
            append_str(&mut v, count_text(*failed_count).as_str());
            push_chars(&mut outcome, OutcomeMessageKind::Info, v);
        },
    }
    assert(outcome.messages@.map_values(|m| message_view(m)) =~= users_report_spec(*r));
    AppResult::success(outcome)
}

// ----- groups -----

/// What a groups command produced, as far as its report reads it. Listings
/// are printed by the user interface.
#[derive(Debug, Clone, PartialEq, Eq)]
pub enum GroupsReport {
    Created { group_name: String, group_id: u64 },
    Listed,
    Removed { group_id: u64 },
    UsersListed,
    UserAdded { group_id: u64, user_id: u64 },
}

/// The messages of a groups command.
pub open spec fn groups_report_spec(r: GroupsReport) -> Seq<Line> {
    match r {
        GroupsReport::Created { group_name, group_id } => seq![
            (OutcomeMessageKind::Success, "Group "@ + group_name@ + " ("@ + dec(group_id as nat) + ") created"@),
        ],
        GroupsReport::Listed => Seq::empty(),
        GroupsReport::Removed { group_id } => seq![
            (OutcomeMessageKind::Success, "Group "@ + dec(group_id as nat) + " deleted"@),
        ],
        GroupsReport::UsersListed => Seq::empty(),
        GroupsReport::UserAdded { group_id, user_id } => seq![
            (
                OutcomeMessageKind::Success,
                "User "@ + dec(user_id as nat) + " added to group "@ + dec(group_id as nat),
            ),
        ],
    }
}

/// The report of a groups command: always a success (see `groups_report_spec`).
pub fn groups_report(r: &GroupsReport) -> (a: AppResult)
    ensures
        a.status_view() == AppStatus::Success,
        lines_of(a) == groups_report_spec(*r),
        a.payload_view() is None,
{
    let mut outcome = CommandOutcome::new();
    assert(outcome.messages@.map_values(|m| message_view(m)) =~= Seq::<Line>::empty());
    match r {
        GroupsReport::Created { group_name, group_id } => {
            let mut v: Vec<char> = Vec::new();
            append_str(&mut v, "Group ");
            append_str(&mut v, group_name.as_str());
            append_str(&mut v, " (");
            append_str(&mut v, count_text(*group_id).as_str());
            append_str(&mut v, ") created");
            push_chars(&mut outcome, OutcomeMessageKind::Success, v);
        },
        GroupsReport::Removed { group_id } => {
            let mut v: Vec<char> = Vec::new();
            append_str(&mut v, "Group ");
            append_str(&mut v, count_text(*group_id).as_str());
            append_str(&mut v, " deleted");
            push_chars(&mut outcome, OutcomeMessageKind::Success, v);
        },
        GroupsReport::UserAdded { group_id, user_id } => {
            let mut v: Vec<char> = Vec::new();
            append_str(&mut v, "User ");
            append_str(&mut v, count_text(*user_id).as_str());
            append_str(&mut v, " added to group ");
            append_str(&mut v, count_text(*group_id).as_str());
            push_chars(&mut outcome, OutcomeMessageKind::Success, v);
        },
        _ => {},
    }
    assert(outcome.messages@.map_values(|m| message_view(m)) =~= groups_report_spec(*r));
    AppResult::success(outcome)
}

// ----- remove -----

/// The question asked before a delete, if any: how many search results go,
/// or whether a room goes.
pub open spec fn remove_confirmation_spec(prep: DeleteNodesPreparation) -> Option<Seq<char>> {
    match prep {
        DeleteNodesPreparation::Search { node_ids } => Some(
            "Do you really want to delete "@ + dec(node_ids@.len()) + " items?"@,
        ),
        DeleteNodesPreparation::SingleNode { node_name, node_type, .. } => if node_type == NodeType::Room {
            Some("Do you really want to delete room "@ + node_name@ + "?"@)
        } else {
            None
        },
        _ => None,
    }
}

/// The question to ask before a delete (see `remove_confirmation_spec`).
pub fn remove_confirmation(prep: &DeleteNodesPreparation) -> (q: Option<String>)
    ensures
        match remove_confirmation_spec(*prep) {
            Some(t) => q matches Some(s) && s@ == t,
            None => q is None,
        },
{
    match prep {
        DeleteNodesPreparation::Search { node_ids } => {
            let mut v: Vec<char> = Vec::new();
            append_str(&mut v, "Do you really want to delete ");
            append_str(&mut v, count_text(node_ids.len() as u64).as_str());
            append_str(&mut v, " items?");
            Some(string_of(v.as_slice()))
        },
        DeleteNodesPreparation::SingleNode { node_name, node_type, .. } => {
            if *node_type == NodeType::Room {
                let mut v: Vec<char> = Vec::new();
                append_str(&mut v, "Do you really want to delete room ");
                append_str(&mut v, node_name.as_str());
                append_str(&mut v, "?");
                Some(string_of(v.as_slice()))
            } else {
                None
            }
        },
        _ => None,
    }
}

/// What a delete command deletes.
#[derive(Debug, Clone, PartialEq, Eq)]
pub enum RemoveTarget {
    Nothing,
    Nodes(Vec<u64>),
    Node(u64),
}

/// What a delete command does once its question, if any, is answered: what
/// it deletes and what it reports when that succeeds.
#[derive(Debug)]
pub struct RemoveDecision {
    pub delete: RemoveTarget,
    pub result: AppResult,
}

/// The message of a refused search delete.
pub open spec fn search_needs_recursive_text() -> Seq<char> {
    "Deleting search results not allowed. Use --recursive flag to delete recursively."@
}

/// The message of a refused container delete.
pub open spec fn container_needs_recursive_text() -> Seq<char> {
    "Deleting non-empty folder or room not allowed. Use --recursive flag to delete recursively."@
}

/// The decision of a delete command, given the answer to its question
/// (`confirmed` is not read where no question is asked): a refusal deletes
/// nothing and fails; search results are deleted when confirmed, with no
/// message; a room that is not confirmed is kept and the command fails; any
/// other single node is deleted and named.
pub open spec fn remove_decision_holds(prep: DeleteNodesPreparation, confirmed: bool, d: RemoveDecision) -> bool {
    match prep {
        DeleteNodesPreparation::InvalidSearchRequiresRecursive => {
            &&& d.delete == RemoveTarget::Nothing
            &&& d.result.status_view() == AppStatus::Failure
            &&& lines_of(d.result) == seq![(OutcomeMessageKind::Error, search_needs_recursive_text())]
        },
        DeleteNodesPreparation::ContainerRequiresRecursive => {
            &&& d.delete == RemoveTarget::Nothing
            &&& d.result.status_view() == AppStatus::Failure
            &&& lines_of(d.result) == seq![(OutcomeMessageKind::Error, container_needs_recursive_text())]
        },
        DeleteNodesPreparation::Search { node_ids } => {
            &&& (if confirmed {
                d.delete matches RemoveTarget::Nodes(ids) && ids@ == node_ids@
            } else {
                d.delete == RemoveTarget::Nothing
            })
            &&& d.result.status_view() == AppStatus::Success
            &&& lines_of(d.result) == Seq::<Line>::empty()
        },
        DeleteNodesPreparation::SingleNode { node_id, node_name, node_type } => if node_type
            == NodeType::Room && !confirmed {
            &&& d.delete == RemoveTarget::Nothing
            &&& d.result.status_view() == AppStatus::Failure
            &&& lines_of(d.result) == seq![(OutcomeMessageKind::Error, "Deleting room not confirmed."@)]
        } else {
            &&& d.delete == RemoveTarget::Node(node_id)
            &&& d.result.status_view() == AppStatus::Success
            &&& lines_of(d.result) == seq![(OutcomeMessageKind::Success, "Node "@ + node_name@ + " deleted."@)]
        },
    }
}

/// The decision of a delete command (see `remove_decision_holds`).
pub fn remove_decision(prep: DeleteNodesPreparation, confirmed: bool) -> (d: RemoveDecision)
    ensures
        remove_decision_holds(prep, confirmed, d),
        d.result.payload_view() is None,
{
    let mut outcome = CommandOutcome::new();
    assert(outcome.messages@.map_values(|m| message_view(m)) =~= Seq::<Line>::empty());
    match prep {
        DeleteNodesPreparation::InvalidSearchRequiresRecursive => {
            let mut v: Vec<char> = Vec::new();
            append_str(&mut v, "Deleting search results not allowed. Use --recursive flag to delete recursively.");
            push_chars(&mut outcome, OutcomeMessageKind::Error, v);
            RemoveDecision { delete: RemoveTarget::Nothing, result: app_result_from_status(AppStatus::Failure, outcome) }
        },
        DeleteNodesPreparation::ContainerRequiresRecursive => {
            let mut v: Vec<char> = Vec::new();
            append_str(
                &mut v,
                "Deleting non-empty folder or room not allowed. Use --recursive flag to delete recursively.",
            );
            push_chars(&mut outcome, OutcomeMessageKind::Error, v);
            RemoveDecision { delete: RemoveTarget::Nothing, result: app_result_from_status(AppStatus::Failure, outcome) }
        },
        DeleteNodesPreparation::Search { node_ids } => {
            let delete = if confirmed {
                RemoveTarget::Nodes(node_ids)
            } else {
                RemoveTarget::Nothing
            };
            RemoveDecision { delete, result: app_result_from_status(AppStatus::Success, outcome) }
        },
        DeleteNodesPreparation::SingleNode { node_id, node_name, node_type } => {
            if node_type == NodeType::Room && !confirmed {
                let mut v: Vec<char> = Vec::new();
                append_str(&mut v, "Deleting room not confirmed.");
                push_chars(&mut outcome, OutcomeMessageKind::Error, v);
                RemoveDecision { delete: RemoveTarget::Nothing, result: AppResult::failure(outcome) }
            } else {
                let mut v: Vec<char> = Vec::new();
                append_str(&mut v, "Node ");
                append_str(&mut v, node_name.as_str());
                append_str(&mut v, " deleted.");
                push_chars(&mut outcome, OutcomeMessageKind::Success, v);
                RemoveDecision { delete: RemoveTarget::Node(node_id), result: app_result_from_status(AppStatus::Success, outcome) }
            }
        },
    }
}

/// Nothing is deleted by a refused request, whatever the answer: deleting
/// search results or a container needs the recursive flag. A room is never
/// deleted without its own confirmation: a question is always asked for it,
/// and a room that is not confirmed is kept and the command fails.
pub proof fn lemma_delete_safety(prep: DeleteNodesPreparation, confirmed: bool, d: RemoveDecision)
    requires
        remove_decision_holds(prep, confirmed, d),
    ensures
        (prep is InvalidSearchRequiresRecursive || prep is ContainerRequiresRecursive) ==> (d.delete
            == RemoveTarget::Nothing && d.result.status_view() == AppStatus::Failure),
        (prep matches DeleteNodesPreparation::SingleNode { node_type, .. } && node_type == NodeType::Room)
            ==> remove_confirmation_spec(prep) is Some,
        (prep matches DeleteNodesPreparation::SingleNode { node_type, .. } && node_type == NodeType::Room)
            && !confirmed ==> (d.delete == RemoveTarget::Nothing && d.result.status_view() == AppStatus::Failure),
        !confirmed && prep is Search ==> d.delete == RemoveTarget::Nothing,
{
}

} // verus!
