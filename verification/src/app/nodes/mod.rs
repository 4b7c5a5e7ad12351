//! Services that work on nodes (files, folders and rooms), and the decisions
//! of the list, copy and delete commands.

pub mod command;
pub mod common;
pub mod create;
pub mod download;
pub mod filesystem;
pub mod path_laws;
pub mod windows_laws;
pub mod progress;
pub mod transfer;
pub mod upload;

use vstd::prelude::*;
use crate::api::nodes::models::{Node, NodeType};
use crate::app::nodes::common::is_search_query;
use crate::errors::DcCmdError;
use crate::text::chars_of;

verus! {

/// What a copy command did.
#[derive(Debug, Clone, PartialEq, Eq)]
pub struct CopyNodesResult {
    pub count_nodes: usize,
    pub source_parent_path: String,
    pub target_path: String,
}

/// What a delete command is about to do.
#[derive(Debug, Clone)]
pub enum DeleteNodesPreparation {
    /// Deleting search results needs the recursive flag.
    InvalidSearchRequiresRecursive,
    /// Deleting a room or folder needs the recursive flag.
    ContainerRequiresRecursive,
    /// Delete these nodes found by a search.
    Search { node_ids: Vec<u64> },
    /// Delete one node.
    SingleNode { node_id: u64, node_name: String, node_type: NodeType },
}

/// The ids of the search results that are deleted: rooms are never deleted
/// by a search.
pub open spec fn deletable_ids_spec(nodes: Seq<Node>) -> Seq<u64>
    decreases nodes.len(),
{
    if nodes.len() == 0 {
        Seq::empty()
    } else if nodes.last().node_type == NodeType::Room {
        deletable_ids_spec(nodes.drop_last())
    } else {
        deletable_ids_spec(nodes.drop_last()).push(nodes.last().id)
    }
}

/// A search deletes exactly the results that are not rooms, folders and
/// files alike, in their order: an id is deleted exactly when some result
/// with that id is not a room, and there are as many ids as such results.
pub proof fn lemma_deletable_ids_law(nodes: Seq<Node>)
    ensures
        forall|x: u64|
            deletable_ids_spec(nodes).contains(x) <==> exists|i: int|
                0 <= i < nodes.len() && (#[trigger] nodes[i]).id == x && nodes[i].node_type != NodeType::Room,
        deletable_ids_spec(nodes).len() == nodes.filter(|n: Node| n.node_type != NodeType::Room).len(),
        deletable_ids_spec(nodes) == nodes.filter(|n: Node| n.node_type != NodeType::Room).map_values(|n: Node| n.id),
    decreases nodes.len(),
{
    let keep = |n: Node| n.node_type != NodeType::Room;
    if nodes.len() > 0 {
        let init = nodes.drop_last();
        lemma_deletable_ids_law(init);
        reveal(Seq::filter);
        assert(nodes.filter(keep) == if keep(nodes.last()) {
            init.filter(keep).push(nodes.last())
        } else {
            init.filter(keep)
        });
        let d = deletable_ids_spec(nodes);
        let di = deletable_ids_spec(init);
        if keep(nodes.last()) {
            assert(init.filter(keep).push(nodes.last()).map_values(|n: Node| n.id) =~= init.filter(keep).map_values(
                |n: Node| n.id,
            ).push(nodes.last().id));
        }
        assert forall|x: u64| d.contains(x) <==> exists|i: int|
            0 <= i < nodes.len() && (#[trigger] nodes[i]).id == x && nodes[i].node_type != NodeType::Room by {
            if d.contains(x) {
                let t = choose|t: int| 0 <= t < d.len() && d[t] == x;
                if t < di.len() {
                    assert(di[t] == x);
                    assert(di.contains(x));
                    let i = choose|i: int| 0 <= i < init.len() && (#[trigger] init[i]).id == x && init[i].node_type != NodeType::Room;
                    assert(nodes[i] == init[i]);
                } else {
                    assert(nodes[nodes.len() - 1] == nodes.last());
                }
            }
            if exists|i: int| 0 <= i < nodes.len() && (#[trigger] nodes[i]).id == x && nodes[i].node_type != NodeType::Room {
                let i = choose|i: int| 0 <= i < nodes.len() && (#[trigger] nodes[i]).id == x && nodes[i].node_type != NodeType::Room;
                if i < init.len() {
                    assert(init[i] == nodes[i]);
                    assert(di.contains(x));
                    let t = choose|t: int| 0 <= t < di.len() && di[t] == x;
                    assert(d[t] == di[t]);
                } else {
                    assert(nodes[i] == nodes.last());
                    assert(d[d.len() - 1] == x);
                }
            }
        }
    } else {
        assert(nodes.filter(keep) =~= Seq::<Node>::empty()) by {
            reveal(Seq::filter);
        }
    }
}

/// The delete of search results: refused without the recursive flag, else
/// every result that is not a room (folders and files alike), in order.
pub fn prepare_delete_search(nodes: &[Node], recursive: bool) -> (r: DeleteNodesPreparation)
    ensures
        !recursive ==> r is InvalidSearchRequiresRecursive,
        recursive ==> (r matches DeleteNodesPreparation::Search { node_ids } && node_ids@
            == deletable_ids_spec(nodes@)),
        recursive ==> (r matches DeleteNodesPreparation::Search { node_ids } && (forall|x: u64|
            node_ids@.contains(x) <==> exists|i: int|
                0 <= i < nodes@.len() && (#[trigger] nodes@[i]).id == x && nodes@[i].node_type != NodeType::Room)
            && node_ids@ == nodes@.filter(|n: Node| n.node_type != NodeType::Room).map_values(|n: Node| n.id)),
{
    proof {
        lemma_deletable_ids_law(nodes@);
    }
    if !recursive {
        return DeleteNodesPreparation::InvalidSearchRequiresRecursive;
    }
    let mut ids: Vec<u64> = Vec::new();
    let mut i: usize = 0;
    while i < nodes.len()
        invariant
            i <= nodes.len(),
            ids@ == deletable_ids_spec(nodes@.subrange(0, i as int)),
        decreases nodes.len() - i,
    {
        assert(nodes@.subrange(0, i + 1).drop_last() =~= nodes@.subrange(0, i as int));
        assert(nodes@.subrange(0, i + 1).last() == nodes@[i as int]);
        if nodes[i].node_type != NodeType::Room {
            ids.push(nodes[i].id);
        }
        i = i + 1;
    }
    assert(nodes@.subrange(0, nodes@.len() as int) =~= nodes@);
    DeleteNodesPreparation::Search { node_ids: ids }
}

/// The delete of one node: a room or folder needs the recursive flag.
pub fn prepare_delete_single(node_id: u64, node_name: String, node_type: NodeType, recursive: bool) -> (r:
    DeleteNodesPreparation)
    ensures
        !recursive && (node_type == NodeType::Folder || node_type == NodeType::Room)
            ==> r is ContainerRequiresRecursive,
        !(!recursive && (node_type == NodeType::Folder || node_type == NodeType::Room)) ==> (r matches DeleteNodesPreparation::SingleNode {
            node_id: i,
            node_name: n,
            node_type: t,
        } && i == node_id && n == node_name && t == node_type),
{
    if !recursive && (node_type == NodeType::Folder || node_type == NodeType::Room) {
        return DeleteNodesPreparation::ContainerRequiresRecursive;
    }
    DeleteNodesPreparation::SingleNode { node_id, node_name, node_type }
}

/// The path listed by the list command: none for the top level (`//`).
pub fn listing_path(node_path: String) -> (r: Option<String>)
    ensures
        node_path@ == seq!['/', '/'] ==> r is None,
        node_path@ != seq!['/', '/'] ==> r == Some(node_path),
{
    let c = chars_of(node_path.as_str());
    if c.len() == 2 && c[0] == '/' && c[1] == '/' {
        assert(c@ =~= seq!['/', '/']);
        None
    } else {
        assert(node_path@ != seq!['/', '/']) by {
            if node_path@ == seq!['/', '/'] {
                assert(c@.len() == 2 && c@[0] == '/' && c@[1] == '/');
            }
        }
        Some(node_path)
    }
}

/// How a delete finds what it deletes.
#[derive(Debug, Clone, Copy, PartialEq, Eq, Structural)]
pub enum DeleteLookup {
    /// A search without the recursive flag: refused before any lookup.
    RefuseSearch,
    /// The name is a search (it holds `*`): the matching nodes are looked up.
    Search,
    /// The node at the path is looked up.
    NodeAtPath,
}

/// How a delete of `node_name` finds its nodes: a name with `*` is a search,
/// which needs the recursive flag; any other name is the node at the path.
pub fn delete_lookup(node_name: &str, recursive: bool) -> (r: DeleteLookup)
    ensures
        r == if node_name@.contains('*') {
            if recursive {
                DeleteLookup::Search
            } else {
                DeleteLookup::RefuseSearch
            }
        } else {
            DeleteLookup::NodeAtPath
        },
{
    if is_search_query(node_name) {
        if recursive {
            DeleteLookup::Search
        } else {
            DeleteLookup::RefuseSearch
        }
    } else {
        DeleteLookup::NodeAtPath
    }
}

/// The delete of the node looked up at a path: no node there is an invalid
/// path (the source as given); a room or folder needs the recursive flag;
/// anything else is deleted by its id.
pub fn prepare_delete_found(found: Option<Node>, source: &str, node_name: String, recursive: bool) -> (r: Result<
    DeleteNodesPreparation,
    DcCmdError,
>)
    ensures
        found is None ==> (r matches Err(DcCmdError::InvalidPath(p)) && p@ == source@),
        found matches Some(n) ==> (r matches Ok(prep) && (!recursive && (n.node_type == NodeType::Folder
            || n.node_type == NodeType::Room) ==> prep is ContainerRequiresRecursive) && (!(!recursive && (
        n.node_type == NodeType::Folder || n.node_type == NodeType::Room)) ==> (prep matches DeleteNodesPreparation::SingleNode {
            node_id: i,
            node_name: nm,
            node_type: t,
        } && i == n.id && nm == node_name && t == n.node_type))),
{
    match found {
        None => Err(DcCmdError::InvalidPath(source.to_owned())),
        Some(node) => Ok(prepare_delete_single(node.id, node_name, node.node_type, recursive)),
    }
}

} // verus!
