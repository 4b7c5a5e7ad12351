//! Downloads of containers: which folders are created and which files are
//! fetched when sub rooms are left out.

use vstd::prelude::*;
use crate::api::nodes::models::{Node, NodeType};
use crate::text::{append_str, chars_of, starts_with, starts_with_chars, string_of};

verus! {

/// The path prefix under which the content of a room lies: its parent path
/// (the root when it has none), its name and a slash.
pub open spec fn sub_room_path_spec(room: Node) -> Seq<char> {
    let parent = match room.parent_path {
        Some(p) => p@,
        None => "/"@,
    };
    parent + room.name@ + "/"@
}

/// The path prefix under which the content of a room lies.
pub fn sub_room_path(room: &Node) -> (r: String)
    ensures
        r@ == sub_room_path_spec(*room),
{
    let mut v: Vec<char> = Vec::new();
    match &room.parent_path {
        Some(p) => append_str(&mut v, p.as_str()),
        None => append_str(&mut v, "/"),
    }
    append_str(&mut v, room.name.as_str());
    append_str(&mut v, "/");
    string_of(v.as_slice())
}

/// Whether a node's parent path lies under one of the given room paths.
pub open spec fn in_sub_room(node: Node, room_paths: Seq<Seq<char>>) -> bool {
    exists|k: int|
        0 <= k < room_paths.len() && (node.parent_path matches Some(pp) && starts_with(
            pp@,
            #[trigger] room_paths[k],
        ))
}

/// The files that do not lie in one of the given sub rooms, in order.
pub open spec fn outside_sub_rooms_spec(files: Seq<Node>, room_paths: Seq<Seq<char>>) -> Seq<Node>
    decreases files.len(),
{
    if files.len() == 0 {
        Seq::empty()
    } else if in_sub_room(files.last(), room_paths) {
        outside_sub_rooms_spec(files.drop_last(), room_paths)
    } else {
        outside_sub_rooms_spec(files.drop_last(), room_paths).push(files.last())
    }
}

fn is_in_sub_room(node: &Node, room_paths: &[String]) -> (r: bool)
    ensures
        r == in_sub_room(*node, crate::text::str_views(room_paths@)),
{
    let pp = match &node.parent_path {
        Some(p) => chars_of(p.as_str()),
        None => {
            return false;
        },
    };
    let mut k: usize = 0;
    while k < room_paths.len()
        invariant
            k <= room_paths.len(),
            node.parent_path matches Some(p) && pp@ == p@,
            forall|j: int| 0 <= j < k ==> !starts_with(pp@, #[trigger] room_paths@[j]@),
        decreases room_paths.len() - k,
    {
        let rp = chars_of(room_paths[k].as_str());
        if starts_with_chars(pp.as_slice(), rp.as_slice()) {
            assert(crate::text::str_views(room_paths@)[k as int] == room_paths@[k as int]@);
            return true;
        }
        k = k + 1;
    }
    assert(!in_sub_room(*node, crate::text::str_views(room_paths@))) by {
        if in_sub_room(*node, crate::text::str_views(room_paths@)) {
            let j = choose|j: int|
                0 <= j < crate::text::str_views(room_paths@).len() && (node.parent_path matches Some(
                    pp,
                ) && starts_with(pp@, #[trigger] crate::text::str_views(room_paths@)[j]));
            assert(crate::text::str_views(room_paths@)[j] == room_paths@[j]@);
        }
    }
    false
}

/// Whether a file's parent path starts with the given room path.
pub open spec fn lies_under(f: Node, room_path: Seq<char>) -> bool {
    f.parent_path matches Some(pp) && starts_with(pp@, room_path)
}

/// Leaving out the files of sub rooms keeps exactly the files that lie under
/// none of the room paths, every room path checked, in their order: no kept
/// file lies under any room path, every file under none of them is kept,
/// and every kept file is one of the files.
pub proof fn lemma_outside_sub_rooms_law(files: Seq<Node>, room_paths: Seq<Seq<char>>)
    ensures
        forall|i: int, k: int|
            0 <= i < outside_sub_rooms_spec(files, room_paths).len() && 0 <= k < room_paths.len() ==> !lies_under(
                #[trigger] outside_sub_rooms_spec(files, room_paths)[i],
                #[trigger] room_paths[k],
            ),
        forall|j: int|
            0 <= j < files.len() && (forall|k: int| 0 <= k < room_paths.len() ==> !lies_under(files[j], #[trigger] room_paths[k]))
                ==> outside_sub_rooms_spec(files, room_paths).contains(#[trigger] files[j]),
        forall|i: int|
            0 <= i < outside_sub_rooms_spec(files, room_paths).len() ==> files.contains(
                #[trigger] outside_sub_rooms_spec(files, room_paths)[i],
            ),
        outside_sub_rooms_spec(files, room_paths).len() <= files.len(),
        outside_sub_rooms_spec(files, room_paths) == files.filter(
            |f: Node| forall|k: int| 0 <= k < room_paths.len() ==> !lies_under(f, #[trigger] room_paths[k]),
        ),
    decreases files.len(),
{
    let keep = |f: Node| forall|k: int| 0 <= k < room_paths.len() ==> !lies_under(f, #[trigger] room_paths[k]);
    reveal(Seq::filter);
    if files.len() == 0 {
        assert(files.filter(keep) =~= Seq::<Node>::empty());
    }
    if files.len() > 0 {
        let init = files.drop_last();
        let last = files.last();
        lemma_outside_sub_rooms_law(init, room_paths);
        assert(keep(last) == !in_sub_room(last, room_paths)) by {
            if in_sub_room(last, room_paths) {
                let k = choose|k: int|
                    0 <= k < room_paths.len() && (last.parent_path matches Some(pp) && starts_with(pp@, #[trigger] room_paths[k]));
                assert(lies_under(last, room_paths[k]));
            } else {
                assert forall|k: int| 0 <= k < room_paths.len() implies !lies_under(last, #[trigger] room_paths[k]) by {
                    if lies_under(last, room_paths[k]) {
                        assert(in_sub_room(last, room_paths));
                    }
                }
            }
        }
        assert(files.filter(keep) == if keep(last) {
            init.filter(keep).push(last)
        } else {
            init.filter(keep)
        });
        let before = outside_sub_rooms_spec(init, room_paths);
        let out = outside_sub_rooms_spec(files, room_paths);
        assert forall|i: int| 0 <= i < before.len() implies files.contains(#[trigger] before[i]) by {
            let t = choose|t: int| 0 <= t < init.len() && init[t] == before[i];
            assert(files[t] == init[t]);
        }
        assert(files[files.len() - 1] == last);
        if in_sub_room(last, room_paths) {
            let k = choose|k: int|
                0 <= k < room_paths.len() && (last.parent_path matches Some(pp) && starts_with(pp@, #[trigger] room_paths[k]));
            assert(lies_under(last, room_paths[k]));
            assert forall|j: int|
                0 <= j < files.len() && (forall|k: int| 0 <= k < room_paths.len() ==> !lies_under(files[j], #[trigger] room_paths[k]))
                    implies out.contains(#[trigger] files[j]) by {
                if j < init.len() {
                    assert(files[j] == init[j]);
                }
            }
        } else {
            assert(out == before.push(last));
            assert forall|i: int, k: int| 0 <= i < out.len() && 0 <= k < room_paths.len() implies !lies_under(
                #[trigger] out[i],
                #[trigger] room_paths[k],
            ) by {
                if i == before.len() {
                    if lies_under(last, room_paths[k]) {
                        assert(in_sub_room(last, room_paths));
                    }
                } else {
                    assert(out[i] == before[i]);
                }
            }
            assert forall|j: int|
                0 <= j < files.len() && (forall|k: int| 0 <= k < room_paths.len() ==> !lies_under(files[j], #[trigger] room_paths[k]))
                    implies out.contains(#[trigger] files[j]) by {
                if j < init.len() {
                    assert(files[j] == init[j]);
                    let t = choose|t: int| 0 <= t < before.len() && before[t] == init[j];
                    assert(out[t] == before[t]);
                } else {
                    assert(out[before.len() as int] == last);
                }
            }
            assert forall|i: int| 0 <= i < out.len() implies files.contains(#[trigger] out[i]) by {
                if i < before.len() {
                    assert(out[i] == before[i]);
                } else {
                    assert(out[i] == files[files.len() - 1]);
                }
            }
        }
    }
}

/// Leaves out the files that lie in one of the given sub rooms: no kept file
/// lies under any of the room paths, every file under none of them is kept,
/// in order.
pub fn filter_files_outside_sub_rooms(files: Vec<Node>, room_paths: &[String]) -> (r: Vec<Node>)
    ensures
        r@ == outside_sub_rooms_spec(files@, crate::text::str_views(room_paths@)),
        forall|i: int, k: int|
            0 <= i < r@.len() && 0 <= k < room_paths@.len() ==> !lies_under(#[trigger] r@[i], (#[trigger] room_paths@[k])@),
        forall|j: int|
            0 <= j < files@.len() && (forall|k: int|
                0 <= k < room_paths@.len() ==> !lies_under(files@[j], (#[trigger] room_paths@[k])@)) ==> r@.contains(
                #[trigger] files@[j],
            ),
        forall|i: int| 0 <= i < r@.len() ==> files@.contains(#[trigger] r@[i]),
        r@ == files@.filter(
            |f: Node| forall|k: int| 0 <= k < room_paths@.len() ==> !lies_under(f, (#[trigger] room_paths@[k])@),
        ),
{
    proof {
        let rv = crate::text::str_views(room_paths@);
        lemma_outside_sub_rooms_law(files@, rv);
        assert forall|k: int| 0 <= k < room_paths@.len() implies rv[k] == (#[trigger] room_paths@[k])@ by {}
        let keep_rv = |f: Node| forall|k: int| 0 <= k < rv.len() ==> !lies_under(f, #[trigger] rv[k]);
        let keep_rp = |f: Node| forall|k: int| 0 <= k < room_paths@.len() ==> !lies_under(f, (#[trigger] room_paths@[k])@);
        assert(keep_rv =~= keep_rp) by {
            assert forall|f: Node| #[trigger] keep_rv(f) == keep_rp(f) by {
                if keep_rv(f) {
                    assert forall|k: int| 0 <= k < room_paths@.len() implies !lies_under(f, (#[trigger] room_paths@[k])@) by {
                        assert(rv[k] == room_paths@[k]@);
                    }
                }
                if keep_rp(f) {
                    assert forall|k: int| 0 <= k < rv.len() implies !lies_under(f, #[trigger] rv[k]) by {
                        assert(rv[k] == room_paths@[k]@);
                    }
                }
            }
        }
    }
    let ghost rp = crate::text::str_views(room_paths@);
    let ghost all = files@;
    let total = files.len();
    let mut rest = files;
    let mut r: Vec<Node> = Vec::new();
    let mut i: usize = 0;
    while rest.len() > 0
        invariant
            i + rest@.len() == all.len(),
            total == all.len(),
            rest@ == all.subrange(i as int, all.len() as int),
            rp == crate::text::str_views(room_paths@),
            r@ == outside_sub_rooms_spec(all.subrange(0, i as int), rp),
        decreases rest.len(),
    {
        assert(all.subrange(0, i + 1).drop_last() =~= all.subrange(0, i as int));
        assert(all.subrange(0, i + 1).last() == all[i as int]);
        let f = rest.remove(0);
        assert(rest@ =~= all.subrange(i + 1, all.len() as int));
        if !is_in_sub_room(&f, room_paths) {
            r.push(f);
        }
        i = i + 1;
    }
    assert(all.subrange(0, all.len() as int) =~= all);
    r
}

/// Whether a node is a container that a recursive download descends into:
/// folders always, rooms only when they are included.
pub open spec fn is_container_spec(t: NodeType, include_rooms: bool) -> bool {
    t == NodeType::Folder || (include_rooms && t == NodeType::Room)
}

/// The containers among the nodes, in order.
pub open spec fn containers_spec(nodes: Seq<Node>, include_rooms: bool) -> Seq<Node>
    decreases nodes.len(),
{
    if nodes.len() == 0 {
        Seq::empty()
    } else if is_container_spec(nodes.last().node_type, include_rooms) {
        containers_spec(nodes.drop_last(), include_rooms).push(nodes.last())
    } else {
        containers_spec(nodes.drop_last(), include_rooms)
    }
}

/// The containers of a search result are its folders, and its rooms when
/// they are included, in order; nothing else.
pub proof fn lemma_containers_law(nodes: Seq<Node>, include_rooms: bool)
    ensures
        containers_spec(nodes, include_rooms) == nodes.filter(
            |n: Node| n.node_type == NodeType::Folder || (include_rooms && n.node_type == NodeType::Room),
        ),
    decreases nodes.len(),
{
    reveal(Seq::filter);
    if nodes.len() == 0 {
        assert(nodes.filter(
            |n: Node| n.node_type == NodeType::Folder || (include_rooms && n.node_type == NodeType::Room),
        ) =~= Seq::<Node>::empty());
    } else {
        lemma_containers_law(nodes.drop_last(), include_rooms);
    }
}

/// The files of a search result are its nodes of type file, in order.
pub proof fn lemma_files_law(nodes: Seq<Node>)
    ensures
        files_spec(nodes) == nodes.filter(|n: Node| n.node_type == NodeType::File),
    decreases nodes.len(),
{
    reveal(Seq::filter);
    if nodes.len() == 0 {
        assert(nodes.filter(|n: Node| n.node_type == NodeType::File) =~= Seq::<Node>::empty());
    } else {
        lemma_files_law(nodes.drop_last());
    }
}

/// Keeps the folders (and, when included, the rooms) of a search result.
pub fn filter_containers(nodes: Vec<Node>, include_rooms: bool) -> (r: Vec<Node>)
    ensures
        r@ == containers_spec(nodes@, include_rooms),
        r@ == nodes@.filter(
            |n: Node| n.node_type == NodeType::Folder || (include_rooms && n.node_type == NodeType::Room),
        ),
{
    proof {
        lemma_containers_law(nodes@, include_rooms);
    }
    let ghost all = nodes@;
    let total = nodes.len();
    let mut rest = nodes;
    let mut r: Vec<Node> = Vec::new();
    let mut i: usize = 0;
    while rest.len() > 0
        invariant
            i + rest@.len() == all.len(),
            total == all.len(),
            rest@ == all.subrange(i as int, all.len() as int),
            r@ == containers_spec(all.subrange(0, i as int), include_rooms),
        decreases rest.len(),
    {
        assert(all.subrange(0, i + 1).drop_last() =~= all.subrange(0, i as int));
        assert(all.subrange(0, i + 1).last() == all[i as int]);
        let n = rest.remove(0);
        assert(rest@ =~= all.subrange(i + 1, all.len() as int));
        let t = n.node_type;
        if t == NodeType::Folder || (include_rooms && t == NodeType::Room) {
            r.push(n);
        }
        i = i + 1;
    }
    assert(all.subrange(0, all.len() as int) =~= all);
    r
}

/// The files among the nodes, in order.
pub open spec fn files_spec(nodes: Seq<Node>) -> Seq<Node>
    decreases nodes.len(),
{
    if nodes.len() == 0 {
        Seq::empty()
    } else if nodes.last().node_type == NodeType::File {
        files_spec(nodes.drop_last()).push(nodes.last())
    } else {
        files_spec(nodes.drop_last())
    }
}

/// Keeps the files of a search result.
pub fn filter_files(nodes: Vec<Node>) -> (r: Vec<Node>)
    ensures
        r@ == files_spec(nodes@),
        r@ == nodes@.filter(|n: Node| n.node_type == NodeType::File),
{
    proof {
        lemma_files_law(nodes@);
    }
    let ghost all = nodes@;
    let total = nodes.len();
    let mut rest = nodes;
    let mut r: Vec<Node> = Vec::new();
    let mut i: usize = 0;
    while rest.len() > 0
        invariant
            i + rest@.len() == all.len(),
            total == all.len(),
            rest@ == all.subrange(i as int, all.len() as int),
            r@ == files_spec(all.subrange(0, i as int)),
        decreases rest.len(),
    {
        assert(all.subrange(0, i + 1).drop_last() =~= all.subrange(0, i as int));
        assert(all.subrange(0, i + 1).last() == all[i as int]);
        let n = rest.remove(0);
        assert(rest@ =~= all.subrange(i + 1, all.len() as int));
        if n.node_type == NodeType::File {
            r.push(n);
        }
        i = i + 1;
    }
    assert(all.subrange(0, all.len() as int) =~= all);
    r
}

} // verus!
