//! Walking a local directory tree for an upload: every directory is listed
//! before what lies inside it, and each directory's entries are visited in
//! the order they were read. The caller reads the entries of each directory
//! that the walk asks for and hands them over.

use vstd::prelude::*;
use crate::text::str_views;

verus! {

/// What a directory entry is.
#[derive(Debug, Clone, Copy, PartialEq, Eq, Structural)]
pub enum EntryKind {
    File,
    Directory,
}

/// An entry seen as its path and kind.
pub open spec fn entry_view(e: (String, EntryKind)) -> (Seq<char>, EntryKind) {
    (e.0@, e.1)
}

/// The entries not yet visited in each open directory, innermost last.
pub type Pending = Seq<Seq<(Seq<char>, EntryKind)>>;

/// How much is left to visit: every entry and every open directory counts.
pub open spec fn pending_size(p: Pending) -> nat
    decreases p.len(),
{
    if p.len() == 0 {
        0
    } else {
        pending_size(p.drop_last()) + p.last().len() + 1
    }
}

/// Visiting from the innermost open directory: a finished directory is
/// closed; a file is recorded and the walk goes on; a directory is recorded
/// and handed out to be read, which ends the step. The result is what is
/// left, the directories and files recorded, and the directory to read.
pub open spec fn advance(p: Pending, dirs: Seq<Seq<char>>, files: Seq<Seq<char>>) -> (
    Pending,
    Seq<Seq<char>>,
    Seq<Seq<char>>,
    Option<Seq<char>>,
)
    decreases pending_size(p),
{
    if p.len() == 0 {
        (p, dirs, files, None)
    } else if p.last().len() == 0 {
        advance(p.drop_last(), dirs, files)
    } else {
        let e = p.last()[0];
        let rest = p.drop_last().push(p.last().drop_first());
        proof {
            assert(rest.drop_last() =~= p.drop_last());
        }
        if e.1 == EntryKind::File {
            advance(rest, dirs, files.push(e.0))
        } else {
            (rest, dirs.push(e.0), files, Some(e.0))
        }
    }
}

/// A walk in progress.
#[derive(Debug)]
pub struct DirectoryWalk {
    frames: Vec<(Vec<(String, EntryKind)>, usize)>,
    directories: Vec<String>,
    files: Vec<String>,
}

/// The entries of a frame that are not visited yet.
pub open spec fn frame_view(f: (Vec<(String, EntryKind)>, usize)) -> Seq<(Seq<char>, EntryKind)> {
    f.0@.subrange(f.1 as int, f.0@.len() as int).map_values(|e: (String, EntryKind)| entry_view(e))
}

impl DirectoryWalk {
    /// Every frame's position lies within its entries.
    pub closed spec fn wf(&self) -> bool {
        forall|i: int| 0 <= i < self.frames@.len() ==> #[trigger] self.frames@[i].1 <= self.frames@[i].0@.len()
    }

    /// The entries not yet visited in each open directory.
    pub closed spec fn pending(&self) -> Pending {
        self.frames@.map_values(|f: (Vec<(String, EntryKind)>, usize)| frame_view(f))
    }

    /// The directories recorded so far, in order.
    pub closed spec fn directories_view(&self) -> Seq<Seq<char>> {
        str_views(self.directories@)
    }

    /// The files recorded so far, in order.
    pub closed spec fn files_view(&self) -> Seq<Seq<char>> {
        str_views(self.files@)
    }

    /// A walk before the root was read.
    pub fn new() -> (w: Self)
        ensures
            w.wf(),
            w.pending().len() == 0,
            w.directories_view().len() == 0,
            w.files_view().len() == 0,
    {
        DirectoryWalk { frames: Vec::new(), directories: Vec::new(), files: Vec::new() }
    }

    /// Hands over the entries of the directory just read (the root first,
    /// then each directory the walk asked for).
    pub fn open(&mut self, entries: Vec<(String, EntryKind)>)
        requires
            old(self).wf(),
        ensures
            final(self).wf(),
            final(self).pending() == old(self).pending().push(
                entries@.map_values(|e: (String, EntryKind)| entry_view(e)),
            ),
            final(self).directories_view() == old(self).directories_view(),
            final(self).files_view() == old(self).files_view(),
    {
        let ghost before = self.frames@;
        let ghost ev = entries@;
        self.frames.push((entries, 0));
        assert(ev.subrange(0, ev.len() as int) =~= ev);
        assert(self.pending() =~= before.map_values(|f: (Vec<(String, EntryKind)>, usize)| frame_view(f)).push(
            ev.map_values(|e: (String, EntryKind)| entry_view(e)),
        ));
    }

    /// Visits entries until a directory comes up, which is recorded and
    /// returned to be read; `None` when nothing is left (see `advance`).
    pub fn next_directory(&mut self) -> (r: Option<String>)
        requires
            old(self).wf(),
        ensures
            final(self).wf(),
            ({
                let (p, d, f, next) = advance(old(self).pending(), old(self).directories_view(), old(self).files_view());
                &&& final(self).pending() == p
                &&& final(self).directories_view() == d
                &&& final(self).files_view() == f
                &&& match next {
                    Some(x) => r matches Some(s) && s@ == x,
                    None => r is None,
                }
            }),
    {
        let ghost target = advance(self.pending(), self.directories_view(), self.files_view());
        loop
            invariant
                self.wf(),
                advance(self.pending(), self.directories_view(), self.files_view()) == target,
                target == advance(old(self).pending(), old(self).directories_view(), old(self).files_view()),
            decreases pending_size(self.pending()),
        {
            let ghost p = self.pending();
            let ghost d = self.directories_view();
            let ghost f = self.files_view();
            let n = self.frames.len();
            if n == 0 {
                assert(p.len() == 0);
                assert(advance(p, d, f) == (p, d, f, None::<Seq<char>>));
                return None;
            }
            let (entries, pos) = self.frames.pop().unwrap();
            let ghost rest_frames = self.frames@;
            assert(p.drop_last() =~= rest_frames.map_values(|fr: (Vec<(String, EntryKind)>, usize)| frame_view(fr)));
            assert(p.last() == frame_view((entries, pos)));
            if pos >= entries.len() {
                assert(frame_view((entries, pos)).len() == 0);
                assert(self.pending() =~= p.drop_last());
                assert(pending_size(p) == pending_size(p.drop_last()) + 1);
                continue;
            }
            let path = entries[pos].0.clone();
            let kind = entries[pos].1;
            assert(path@ == entries@[pos as int].0@);
            let ghost top = frame_view((entries, pos));
            assert(top[0] == (path@, kind));
            assert(frame_view((entries, (pos + 1) as usize)) =~= top.drop_first());
            self.frames.push((entries, pos + 1));
            let ghost rest = p.drop_last().push(top.drop_first());
            assert(self.pending() =~= rest);
            assert(rest.drop_last() =~= p.drop_last());
            assert(pending_size(rest) == pending_size(p.drop_last()) + top.drop_first().len() + 1);
            assert(pending_size(p) == pending_size(p.drop_last()) + top.len() + 1);
            match kind {
                EntryKind::File => {
                    let ghost fb = self.files@;
                    self.files.push(path);
                    assert(self.files_view() =~= f.push(top[0].0));
                },
                EntryKind::Directory => {
                    let ghost db = self.directories@;
                    self.directories.push(path.clone());
                    assert(self.directories_view() =~= d.push(top[0].0));
                    assert(advance(p, d, f) == (rest, d.push(top[0].0), f, Some(top[0].0)));
                    return Some(path);
                },
            }
        }
    }

    /// The directories and the files recorded, in the order they were
    /// visited.
    pub fn into_lists(self) -> (r: (Vec<String>, Vec<String>))
        ensures
            str_views(r.0@) == self.directories_view(),
            str_views(r.1@) == self.files_view(),
    {
        (self.directories, self.files)
    }
}

/// A directory tree as read: the entries of each directory (a directory
/// missing from the map holds nothing).
pub type Tree = Map<Seq<char>, Seq<(Seq<char>, EntryKind)>>;

/// The entries read for a directory.
pub open spec fn entries_in(tree: Tree, dir: Seq<char>) -> Seq<(Seq<char>, EntryKind)> {
    if tree.contains_key(dir) {
        tree[dir]
    } else {
        Seq::empty()
    }
}

/// The directories and files below the given entries, in walking order: for
/// each entry in turn, a file; or a directory followed by everything inside
/// it, at most `depth` levels further down.
pub open spec fn listing(tree: Tree, es: Seq<(Seq<char>, EntryKind)>, depth: nat) -> (Seq<Seq<char>>, Seq<Seq<char>>)
    decreases depth, es.len(),
{
    if es.len() == 0 {
        (Seq::empty(), Seq::empty())
    } else {
        let e = es[0];
        let rest = listing(tree, es.drop_first(), depth);
        if e.1 == EntryKind::File {
            (rest.0, seq![e.0] + rest.1)
        } else if depth == 0 {
            (seq![e.0] + rest.0, rest.1)
        } else {
            let sub = listing(tree, entries_in(tree, e.0), (depth - 1) as nat);
            (seq![e.0] + sub.0 + rest.0, sub.1 + rest.1)
        }
    }
}

/// Whether the directories among the entries nest at most `depth` levels.
pub open spec fn within(tree: Tree, es: Seq<(Seq<char>, EntryKind)>, depth: nat) -> bool
    decreases depth, es.len(),
{
    if es.len() == 0 {
        true
    } else {
        &&& within(tree, es.drop_first(), depth)
        &&& (es[0].1 == EntryKind::Directory ==> depth > 0 && within(
            tree,
            entries_in(tree, es[0].0),
            (depth - 1) as nat,
        ))
    }
}

/// The walk as its caller drives it over a tree: after each step that hands
/// out a directory, that directory's entries are opened; `fuel` bounds the
/// number of directories read. The result is what was recorded.
pub open spec fn drive(tree: Tree, p: Pending, d: Seq<Seq<char>>, f: Seq<Seq<char>>, fuel: nat) -> (
    Seq<Seq<char>>,
    Seq<Seq<char>>,
)
    decreases fuel,
{
    let (p2, d2, f2, next) = advance(p, d, f);
    match next {
        None => (d2, f2),
        Some(x) => if fuel == 0 {
            (d2, f2)
        } else {
            drive(tree, p2.push(entries_in(tree, x)), d2, f2, (fuel - 1) as nat)
        },
    }
}

/// What is left to list for the open directories, innermost first, each
/// with its depth bound.
pub open spec fn pending_listing(tree: Tree, p: Pending, bounds: Seq<nat>) -> (Seq<Seq<char>>, Seq<Seq<char>>)
    decreases p.len(),
{
    if p.len() == 0 {
        (Seq::empty(), Seq::empty())
    } else {
        let top = listing(tree, p.last(), bounds.last());
        let below = pending_listing(tree, p.drop_last(), bounds.drop_last());
        (top.0 + below.0, top.1 + below.1)
    }
}

/// Every open directory's entries nest within its bound.
pub open spec fn pending_within(tree: Tree, p: Pending, bounds: Seq<nat>) -> bool {
    &&& bounds.len() == p.len()
    &&& forall|i: int| 0 <= i < p.len() ==> within(tree, #[trigger] p[i], bounds[i])
}

/// One step of the walk keeps what is left to list: a step that ends the
/// walk has recorded all of it; a step that hands out a directory has
/// recorded that directory, and the rest is what is left once its entries
/// are opened.
proof fn lemma_advance_listing(tree: Tree, p: Pending, d: Seq<Seq<char>>, f: Seq<Seq<char>>, bounds: Seq<nat>) -> (bounds2: Seq<nat>)
    requires
        pending_within(tree, p, bounds),
    ensures
        ({
            let (p2, d2, f2, next) = advance(p, d, f);
            let pl = pending_listing(tree, p, bounds);
            match next {
                None => d2 == d + pl.0 && f2 == f + pl.1,
                Some(x) => {
                    let q = p2.push(entries_in(tree, x));
                    let ql = pending_listing(tree, q, bounds2);
                    &&& pending_within(tree, q, bounds2)
                    &&& d2 == d.push(x)
                    &&& d + pl.0 == d2 + ql.0
                    &&& f + pl.1 == f2 + ql.1
                }
            }
        }),
    decreases pending_size(p),
{
    if p.len() == 0 {
        assert(d + Seq::<Seq<char>>::empty() =~= d);
        assert(f + Seq::<Seq<char>>::empty() =~= f);
        bounds
    } else if p.last().len() == 0 {
        let pd = p.drop_last();
        let bd = bounds.drop_last();
        assert(pending_within(tree, pd, bd)) by {
            assert forall|i: int| 0 <= i < pd.len() implies within(tree, #[trigger] pd[i], bd[i]) by {
                assert(pd[i] == p[i]);
                assert(within(tree, p[i], bounds[i]));
            }
        }
        let pl = pending_listing(tree, p, bounds);
        let below = pending_listing(tree, pd, bd);
        assert(listing(tree, p.last(), bounds.last()) == (Seq::<Seq<char>>::empty(), Seq::<Seq<char>>::empty()));
        assert(pl.0 =~= below.0);
        assert(pl.1 =~= below.1);
        lemma_advance_listing(tree, pd, d, f, bd)
    } else {
        let top = p.last();
        let n = bounds.last();
        let e = top[0];
        let tail = top.drop_first();
        let below_p = p.drop_last();
        let below_b = bounds.drop_last();
        let rest = below_p.push(tail);
        assert(rest.drop_last() =~= below_p);
        assert(rest.last() == tail);
        assert(within(tree, top, n)) by {
            assert(within(tree, p[p.len() - 1], bounds[p.len() - 1]));
        }
        assert(within(tree, tail, n));
        assert(pending_within(tree, rest, below_b.push(n))) by {
            let rb = below_b.push(n);
            assert forall|i: int| 0 <= i < rest.len() implies within(tree, #[trigger] rest[i], rb[i]) by {
                if i < below_p.len() {
                    assert(rest[i] == p[i]);
                    assert(rb[i] == bounds[i]);
                    assert(within(tree, p[i], bounds[i]));
                } else {
                    assert(rest[i] == tail);
                    assert(rb[i] == n);
                }
            }
        }
        assert(below_b.push(n).drop_last() =~= below_b);
        assert(bounds.last() == n);
        let below = pending_listing(tree, below_p, below_b);
        let lt = listing(tree, tail, n);
        let rl = pending_listing(tree, rest, below_b.push(n));
        assert(rl == (lt.0 + below.0, lt.1 + below.1));
        let pl = pending_listing(tree, p, bounds);
        assert(pending_size(rest) < pending_size(p)) by {
            assert(pending_size(rest) == pending_size(below_p) + tail.len() + 1);
            assert(pending_size(p) == pending_size(below_p) + top.len() + 1);
        }
        if e.1 == EntryKind::File {
            assert(listing(tree, top, n) == (lt.0, seq![e.0] + lt.1));
            assert(pl.0 =~= lt.0 + below.0);
            assert(pl.1 =~= seq![e.0] + lt.1 + below.1);
            let b2 = lemma_advance_listing(tree, rest, d, f.push(e.0), below_b.push(n));
            assert(f.push(e.0) + rl.1 =~= f + pl.1);
            assert(d + rl.0 =~= d + pl.0);
            b2
        } else {
            assert(n > 0);
            let ex = entries_in(tree, e.0);
            let m = (n - 1) as nat;
            assert(within(tree, ex, m));
            let sub = listing(tree, ex, m);
            assert(listing(tree, top, n) == (seq![e.0] + sub.0 + lt.0, sub.1 + lt.1));
            let q = rest.push(ex);
            let b2 = below_b.push(n).push(m);
            assert(q.drop_last() =~= rest);
            assert(b2.drop_last() =~= below_b.push(n));
            assert(pending_within(tree, q, b2)) by {
                assert forall|i: int| 0 <= i < q.len() implies within(tree, #[trigger] q[i], b2[i]) by {
                    if i < rest.len() {
                        assert(q[i] == rest[i]);
                        assert(b2[i] == below_b.push(n)[i]);
                        assert(within(tree, rest[i], below_b.push(n)[i]));
                    } else {
                        assert(q[i] == ex);
                        assert(b2[i] == m);
                    }
                }
            }
            let ql = pending_listing(tree, q, b2);
            assert(ql == (sub.0 + rl.0, sub.1 + rl.1));
            assert(d + pl.0 =~= d.push(e.0) + ql.0);
            assert(f + pl.1 =~= f + ql.1);
            b2
        }
    }
}

/// Driving the walk records everything that is left to list, as long as the
/// fuel covers the directories still to be read.
proof fn lemma_drive_listing(tree: Tree, p: Pending, d: Seq<Seq<char>>, f: Seq<Seq<char>>, bounds: Seq<nat>, fuel: nat)
    requires
        pending_within(tree, p, bounds),
        fuel >= pending_listing(tree, p, bounds).0.len(),
    ensures
        drive(tree, p, d, f, fuel) == (d + pending_listing(tree, p, bounds).0, f + pending_listing(tree, p, bounds).1),
    decreases fuel,
{
    let b2 = lemma_advance_listing(tree, p, d, f, bounds);
    let (p2, d2, f2, next) = advance(p, d, f);
    let pl = pending_listing(tree, p, bounds);
    match next {
        None => {},
        Some(x) => {
            let q = p2.push(entries_in(tree, x));
            let ql = pending_listing(tree, q, b2);
            assert((d + pl.0).len() == (d2 + ql.0).len());
            assert(pl.0.len() == ql.0.len() + 1);
            assert(fuel > 0);
            lemma_drive_listing(tree, q, d2, f2, b2, (fuel - 1) as nat);
        },
    }
}

/// Walking a tree whose directories nest at most `depth` levels lists every
/// directory before what lies inside it and visits each directory's entries
/// in the order they were read: opening the root and then every directory
/// the walk hands out records exactly `listing` of the root's entries, after
/// reading as many directories as it lists.
pub proof fn lemma_walk_lists_tree(tree: Tree, root: Seq<char>, depth: nat)
    requires
        within(tree, entries_in(tree, root), depth),
    ensures
        drive(
            tree,
            seq![entries_in(tree, root)],
            Seq::empty(),
            Seq::empty(),
            listing(tree, entries_in(tree, root), depth).0.len(),
        ) == listing(tree, entries_in(tree, root), depth),
{
    let p = seq![entries_in(tree, root)];
    let bounds = seq![depth];
    assert(pending_within(tree, p, bounds)) by {
        assert forall|i: int| 0 <= i < p.len() implies within(tree, #[trigger] p[i], bounds[i]) by {
            assert(p[i] == entries_in(tree, root));
        }
    }
    let l = listing(tree, entries_in(tree, root), depth);
    assert(p.drop_last() =~= Seq::<Seq<(Seq<char>, EntryKind)>>::empty());
    assert(bounds.drop_last() =~= Seq::<nat>::empty());
    let pl = pending_listing(tree, p, bounds);
    assert(p.last() == entries_in(tree, root));
    assert(bounds.last() == depth);
    let below = pending_listing(tree, p.drop_last(), bounds.drop_last());
    assert(below == (Seq::<Seq<char>>::empty(), Seq::<Seq<char>>::empty()));
    assert(pl == (l.0 + below.0, l.1 + below.1));
    assert(pl.0 =~= l.0);
    assert(pl.1 =~= l.1);
    lemma_drive_listing(tree, p, Seq::empty(), Seq::empty(), bounds, l.0.len());
    assert(Seq::<Seq<char>>::empty() + pl.0 =~= l.0);
    assert(Seq::<Seq<char>>::empty() + pl.1 =~= l.1);
}

} // verus!
