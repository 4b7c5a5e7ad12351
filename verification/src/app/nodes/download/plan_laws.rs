//! Laws of container plans on a Unix filesystem: when the remote names are
//! clean path segments, every directory and every file target of a plan lies
//! inside its root target.

use vstd::prelude::*;
use crate::app::nodes::download::{
    container_plan_spec, file_targets_spec, folder_dirs_spec, full_segments_spec, join_segments_spec,
    relative_segments_spec, RemoteNodeRef,
};
use crate::app::nodes::filesystem::{join_spec, normalize_unix, resolve, resolve_step, PathStyle};
use crate::app::nodes::path_laws::{
    all_clean, clean_seg, lemma_join_absent, lemma_join_prefix, lemma_replace_absent,
    lemma_resolve_append_clean, lemma_resolve_clean, lemma_resolve_clean_identity,
    lemma_resolve_single_empty, lemma_split_after_sep, lemma_split_piece_chars,
};
use crate::app::nodes::windows_laws::lemma_join_at;
use crate::text::{join, lemma_split_join, lemma_split_pieces_free, replace_char, split, starts_with, trim_end, trim_start};

verus! {

/// A Unix path made of clean segments, rooted at `/` or not (the root alone
/// is `/`).
pub open spec fn unix_form(rooted: bool, c: Seq<Seq<char>>) -> Seq<char> {
    if rooted {
        if c.len() == 0 {
            seq!['/']
        } else {
            seq!['/'] + join(c, seq!['/'])
        }
    } else {
        join(c, seq!['/'])
    }
}

/// What stands before the segments of a path below `root`: the root and a
/// slash, or the root alone where it is `/` or empty.
pub open spec fn below(root: Seq<char>) -> Seq<char> {
    if root.len() == 0 || root == seq!['/'] {
        root
    } else {
        root + seq!['/']
    }
}

/// Clean segments joined by slashes: no backslash, and neither the first
/// nor the last character is a slash.
proof fn lemma_clean_join(c: Seq<Seq<char>>)
    requires
        all_clean(c),
    ensures
        !join(c, seq!['/']).contains('\\'),
        c.len() == 0 ==> join(c, seq!['/']).len() == 0,
        c.len() > 0 ==> join(c, seq!['/']).len() > 0 && join(c, seq!['/'])[0] != '/' && join(
            c,
            seq!['/'],
        ).last() != '/',
{
    let j = join(c, seq!['/']);
    assert forall|i: int| 0 <= i < c.len() implies !(#[trigger] c[i]).contains('\\') by {
        assert(clean_seg(c[i]));
    }
    assert(!seq!['/'].contains('\\')) by {
        if seq!['/'].contains('\\') {
            let k = choose|k: int| 0 <= k < 1 && seq!['/'][k] == '\\';
        }
    }
    lemma_join_absent(c, seq!['/'], '\\');
    if c.len() > 0 {
        assert(clean_seg(c[0]));
        lemma_join_prefix(c, seq!['/']);
        assert(j[0] == c[0][0]) by {
            assert(j.subrange(0, c[0].len() as int)[0] == c[0][0]);
        }
        assert(j[0] != '/') by {
            if j[0] == '/' {
                assert(c[0].contains('/'));
            }
        }
        assert(clean_seg(c[c.len() - 1]));
        assert(j.last() == c.last().last()) by {
            if c.len() > 1 {
                assert(j == join(c.drop_last(), seq!['/']) + seq!['/'] + c.last());
            } else {
                assert(j == c[0]);
            }
        }
        assert(c.last().last() != '/') by {
            if c.last().last() == '/' {
                assert(c.last()[c.last().len() - 1] == '/');
                assert(c[c.len() - 1].contains('/'));
            }
        }
    }
}

/// A path of clean segments is its own normal form.
proof fn lemma_unix_form_normal(rooted: bool, c: Seq<Seq<char>>)
    requires
        all_clean(c),
    ensures
        normalize_unix(unix_form(rooted, c)) == unix_form(rooted, c),
{
    let n = unix_form(rooted, c);
    let j = join(c, seq!['/']);
    lemma_clean_join(c);
    assert(!n.contains('\\')) by {
        if n.contains('\\') {
            let k = choose|k: int| 0 <= k < n.len() && n[k] == '\\';
            if rooted && c.len() > 0 {
                assert(j[k - 1] == '\\');
            }
        }
    }
    lemma_replace_absent(n, '\\', '/');
    lemma_resolve_single_empty();
    if c.len() == 0 {
        if rooted {
            lemma_split_after_sep(Seq::<char>::empty(), '/');
            assert(seq!['/'] + Seq::<char>::empty() =~= seq!['/']);
            let sp = split(n, '/');
            assert(sp =~= seq![Seq::<char>::empty(), Seq::<char>::empty()]);
            assert(sp.drop_last() =~= seq![Seq::<char>::empty()]);
            assert(resolve(sp) == resolve_step(resolve(sp.drop_last()), sp.last()));
            assert(resolve(sp) =~= Seq::<Seq<char>>::empty());
        } else {
            assert(split(Seq::<char>::empty(), '/') == seq![Seq::<char>::empty()]);
        }
    } else {
        assert forall|i: int| 0 <= i < c.len() implies !(#[trigger] c[i]).contains('/') by {
            assert(clean_seg(c[i]));
        }
        lemma_split_join(c, '/');
        lemma_resolve_clean_identity(c);
        if rooted {
            lemma_split_after_sep(j, '/');
            lemma_resolve_append_clean(seq![Seq::<char>::empty()], c);
            assert(resolve(split(n, '/')) =~= c);
        }
    }
}

/// Every normalised Unix path is a path of clean segments.
proof fn lemma_unix_normal_form(p: Seq<char>) -> (r: (bool, Seq<Seq<char>>))
    ensures
        all_clean(r.1),
        normalize_unix(p) == unix_form(r.0, r.1),
{
    let raw = replace_char(p, '\\', '/');
    let pieces = split(raw, '/');
    lemma_split_pieces_free(raw, '/');
    assert forall|i: int| 0 <= i < pieces.len() implies !(#[trigger] pieces[i]).contains('/') && !pieces[i].contains('\\') by {
        if pieces[i].contains('\\') {
            let k = choose|k: int| 0 <= k < pieces[i].len() && pieces[i][k] == '\\';
            lemma_split_piece_chars(raw, '/', i, k);
        }
    }
    let c = resolve(pieces);
    lemma_resolve_clean(pieces);
    lemma_clean_join(c);
    (raw.len() > 0 && raw[0] == '/', c)
}

/// Joining a clean segment onto a path of clean segments appends it.
proof fn lemma_unix_join_clean(b: Seq<char>, rooted: bool, c: Seq<Seq<char>>, s: Seq<char>)
    requires
        all_clean(c),
        normalize_unix(b) == unix_form(rooted, c),
        clean_seg(s),
    ensures
        join_spec(PathStyle::Unix, b, s) == unix_form(rooted, c.push(s)),
{
    let nb = unix_form(rooted, c);
    let j = join(c, seq!['/']);
    lemma_clean_join(c);
    assert(all_clean(seq![s]));
    lemma_unix_form_normal(false, seq![s]);
    assert(join(seq![s], seq!['/']) == s);
    assert(normalize_unix(s) == s);
    assert(!starts_with(s, seq!['/'])) by {
        if starts_with(s, seq!['/']) {
            assert(s.subrange(0, 1)[0] == s[0]);
            assert(s.contains('/'));
        }
    }
    assert(trim_start(s, '/') == s) by {
        if s[0] == '/' {
            assert(s.contains('/'));
        }
    }
    let cs = c.push(s);
    assert(cs.drop_last() =~= c);
    assert(cs.last() == s);
    if c.len() == 0 {
        assert(cs =~= seq![s]);
        if rooted {
            assert(nb == seq!['/']);
            assert(trim_end(nb, '/') == trim_end(Seq::<char>::empty(), '/')) by {
                assert(nb.drop_last() =~= Seq::<char>::empty());
            }
            assert(trim_end(nb, '/') =~= Seq::<char>::empty());
            assert(Seq::<char>::empty() + seq!['/'] + s =~= seq!['/'] + s);
        }
    } else {
        assert(nb.len() > 0);
        assert(nb.last() == j.last());
        assert(trim_end(nb, '/') == nb);
        assert(nb != seq!['/']) by {
            if nb == seq!['/'] {
                if !rooted {
                    assert(j[0] == '/');
                }
            }
        }
        assert(nb[nb.len() - 1] != '\\') by {
            if nb[nb.len() - 1] == '\\' {
                assert(j.contains('\\')) by {
                    assert(j[j.len() - 1] == '\\');
                }
            }
        }
        assert(join(cs, seq!['/']) == j + seq!['/'] + s);
        if rooted {
            assert(seq!['/'] + (j + seq!['/'] + s) =~= nb + seq!['/'] + s);
        }
    }
}

/// Joining clean segments one after the other onto a path appends them all.
proof fn lemma_unix_join_segments(root: Seq<char>, rooted: bool, c: Seq<Seq<char>>, rel: Seq<Seq<char>>)
    requires
        all_clean(c),
        normalize_unix(root) == unix_form(rooted, c),
        all_clean(rel),
    ensures
        normalize_unix(join_segments_spec(PathStyle::Unix, root, rel)) == unix_form(rooted, c + rel),
    decreases rel.len(),
{
    if rel.len() == 0 {
        assert(c + rel =~= c);
    } else {
        let init = rel.drop_last();
        assert(all_clean(init)) by {
            assert forall|i: int| 0 <= i < init.len() implies clean_seg(#[trigger] init[i]) by {
                assert(init[i] == rel[i]);
            }
        }
        lemma_unix_join_segments(root, rooted, c, init);
        let ci = c + init;
        assert(all_clean(ci)) by {
            assert forall|i: int| 0 <= i < ci.len() implies clean_seg(#[trigger] ci[i]) by {
                if i < c.len() {
                    assert(ci[i] == c[i]);
                } else {
                    assert(ci[i] == init[i - c.len()]);
                }
            }
        }
        let jp = join_segments_spec(PathStyle::Unix, root, init);
        assert(clean_seg(rel[rel.len() - 1]));
        lemma_unix_join_clean(jp, rooted, ci, rel.last());
        assert(ci.push(rel.last()) =~= c + rel);
        assert(all_clean(c + rel)) by {
            assert forall|i: int| 0 <= i < (c + rel).len() implies clean_seg(#[trigger] (c + rel)[i]) by {
                if i < c.len() {
                    assert((c + rel)[i] == c[i]);
                } else {
                    assert((c + rel)[i] == rel[i - c.len()]);
                }
            }
        }
        lemma_unix_form_normal(rooted, c + rel);
    }
}

/// A path of clean segments extended by more of them lies below it.
proof fn lemma_unix_form_below(rooted: bool, c: Seq<Seq<char>>, rel: Seq<Seq<char>>)
    requires
        all_clean(c),
        rel.len() > 0,
    ensures
        unix_form(rooted, c + rel) == below(unix_form(rooted, c)) + join(rel, seq!['/']),
{
    let j = join(c, seq!['/']);
    lemma_clean_join(c);
    if c.len() == 0 {
        assert(c + rel =~= rel);
        assert(Seq::<char>::empty() + join(rel, seq!['/']) =~= join(rel, seq!['/']));
    } else {
        let all = c + rel;
        lemma_join_at(all, seq!['/'], c.len() as int);
        assert(all.subrange(0, c.len() as int) =~= c);
        assert(all.subrange(c.len() as int, all.len() as int) =~= rel);
        assert(unix_form(rooted, c) != seq!['/']) by {
            if !rooted && j == seq!['/'] {
                assert(j[0] == '/');
            }
        }
        if rooted {
            assert(seq!['/'] + (j + seq!['/'] + join(rel, seq!['/'])) =~= (seq!['/'] + j) + seq!['/']
                + join(rel, seq!['/']));
        }
    }
}

/// The segments of a child below its container are clean when all of the
/// child's segments are.
proof fn lemma_relative_clean(container: RemoteNodeRef, child: RemoteNodeRef)
    requires
        full_segments_spec(child) matches Ok(s) ==> all_clean(s),
    ensures
        relative_segments_spec(container, child) matches Ok(rel) ==> all_clean(rel),
{
    if let Ok(rel) = relative_segments_spec(container, child) {
        let ch = full_segments_spec(child)->Ok_0;
        let k = full_segments_spec(container)->Ok_0.len();
        assert forall|i: int| 0 <= i < rel.len() implies clean_seg(#[trigger] rel[i]) by {
            assert(rel[i] == ch[k + i]);
        }
    }
}

/// Each file target lies below the normalised root.
proof fn lemma_file_targets_below(r: Seq<char>, container: RemoteNodeRef, files: Seq<RemoteNodeRef>)
    requires
        forall|i: int| 0 <= i < files.len() ==> (full_segments_spec(#[trigger] files[i]) matches Ok(s) ==> all_clean(s)),
    ensures
        file_targets_spec(PathStyle::Unix, r, container, files) matches Ok(t) ==> forall|id: u64|
            #[trigger] t.dom().contains(id) ==> exists|rel: Seq<Seq<char>>|
                rel.len() > 0 && all_clean(rel) && t[id] == below(normalize_unix(r)) + join(rel, seq!['/']),
    decreases files.len(),
{
    if files.len() > 0 {
        let init = files.drop_last();
        assert forall|i: int| 0 <= i < init.len() implies (full_segments_spec(#[trigger] init[i]) matches Ok(s) ==> all_clean(s)) by {
            assert(init[i] == files[i]);
        }
        lemma_file_targets_below(r, container, init);
        let last = files.last();
        assert(full_segments_spec(files[files.len() - 1]) matches Ok(s) ==> all_clean(s));
        lemma_relative_clean(container, last);
        if let Ok(t) = file_targets_spec(PathStyle::Unix, r, container, files) {
            let rel = relative_segments_spec(container, last)->Ok_0;
            let (rooted, c) = lemma_unix_normal_form(r);
            lemma_unix_join_segments(r, rooted, c, rel);
            lemma_unix_form_below(rooted, c, rel);
            assert(t[last.id] == below(normalize_unix(r)) + join(rel, seq!['/']));
        }
    }
}

/// Each folder directory lies below the normalised root.
proof fn lemma_folder_dirs_below(r: Seq<char>, container: RemoteNodeRef, folders: Seq<RemoteNodeRef>)
    requires
        forall|i: int| 0 <= i < folders.len() ==> (full_segments_spec(#[trigger] folders[i]) matches Ok(s) ==> all_clean(s)),
    ensures
        folder_dirs_spec(PathStyle::Unix, r, container, folders) matches Ok(d) ==> forall|x: Seq<char>|
            #[trigger] d.contains(x) ==> exists|rel: Seq<Seq<char>>|
                rel.len() > 0 && all_clean(rel) && x == below(normalize_unix(r)) + join(rel, seq!['/']),
    decreases folders.len(),
{
    if folders.len() > 0 {
        let init = folders.drop_last();
        assert forall|i: int| 0 <= i < init.len() implies (full_segments_spec(#[trigger] init[i]) matches Ok(s) ==> all_clean(s)) by {
            assert(init[i] == folders[i]);
        }
        lemma_folder_dirs_below(r, container, init);
        let last = folders.last();
        assert(full_segments_spec(folders[folders.len() - 1]) matches Ok(s) ==> all_clean(s));
        lemma_relative_clean(container, last);
        if let Ok(d) = folder_dirs_spec(PathStyle::Unix, r, container, folders) {
            let rel = relative_segments_spec(container, last)->Ok_0;
            if rel.len() > 0 {
                let (rooted, c) = lemma_unix_normal_form(r);
                lemma_unix_join_segments(r, rooted, c, rel);
                lemma_unix_form_below(rooted, c, rel);
            }
        }
    }
}

/// On a Unix filesystem, when every segment of the remote paths of the
/// folders and files is clean (not empty, `.` or `..`, and free of slashes
/// and backslashes), a container plan keeps all it creates inside its root
/// target: the root is one of the directories, and every other directory and
/// every file target is the root followed by clean segments.
pub proof fn lemma_container_plan_inside_root(
    target_base: Seq<char>,
    container: RemoteNodeRef,
    folders: Seq<RemoteNodeRef>,
    files: Seq<RemoteNodeRef>,
)
    requires
        forall|i: int| 0 <= i < folders.len() ==> (full_segments_spec(#[trigger] folders[i]) matches Ok(s) ==> all_clean(s)),
        forall|i: int| 0 <= i < files.len() ==> (full_segments_spec(#[trigger] files[i]) matches Ok(s) ==> all_clean(s)),
    ensures
        container_plan_spec(PathStyle::Unix, target_base, container, folders, files) matches Ok((root, dirs, targets)) ==> {
            &&& dirs.contains(root)
            &&& forall|x: Seq<char>| #[trigger] dirs.contains(x) && x != root ==> exists|rel: Seq<Seq<char>>|
                rel.len() > 0 && all_clean(rel) && x == below(root) + join(rel, seq!['/'])
            &&& forall|id: u64| #[trigger] targets.dom().contains(id) ==> exists|rel: Seq<Seq<char>>|
                rel.len() > 0 && all_clean(rel) && targets[id] == below(root) + join(rel, seq!['/'])
        },
{
    let r = join_spec(PathStyle::Unix, target_base, container.name@);
    lemma_folder_dirs_below(r, container, folders);
    lemma_file_targets_below(r, container, files);
}

/// Nonempty pieces free of a separator, joined by it, never hold two
/// separators in a row, nor one at either end.
proof fn lemma_join_single_seps(c: Seq<Seq<char>>, x: char)
    requires
        forall|i: int| 0 <= i < c.len() ==> (#[trigger] c[i]).len() > 0 && !c[i].contains(x),
    ensures
        forall|k: int| 0 <= k < join(c, seq![x]).len() - 1 ==> !(#[trigger] join(c, seq![x])[k] == x && join(c, seq![x])[k + 1] == x),
        c.len() > 0 ==> join(c, seq![x]).len() > 0 && join(c, seq![x])[0] != x && join(c, seq![x]).last() != x,
    decreases c.len(),
{
    let j = join(c, seq![x]);
    if c.len() == 1 {
        assert(j == c[0]);
        assert forall|k: int| 0 <= k < j.len() implies j[k] != x by {
            if j[k] == x {
                assert(c[0].contains(x));
            }
        }
    } else if c.len() > 1 {
        let d = c.drop_last();
        assert forall|i: int| 0 <= i < d.len() implies (#[trigger] d[i]).len() > 0 && !d[i].contains(x) by {
            assert(d[i] == c[i]);
        }
        lemma_join_single_seps(d, x);
        let a = join(d, seq![x]);
        let l = c.last();
        assert(c[c.len() - 1] == l);
        assert(j == a + seq![x] + l);
        assert forall|k: int| 0 <= k < l.len() implies l[k] != x by {
            if l[k] == x {
                assert(l.contains(x));
            }
        }
        assert forall|k: int| 0 <= k < j.len() - 1 implies !(#[trigger] j[k] == x && j[k + 1] == x) by {
            if k < a.len() - 1 {
                assert(j[k] == a[k] && j[k + 1] == a[k + 1]);
            } else if k == a.len() - 1 {
                assert(j[k] == a.last());
            } else if k == a.len() {
                assert(j[k + 1] == l[0]);
            } else {
                assert(j[k] == l[k - a.len() - 1]);
            }
        }
        assert(j[0] == a[0]);
        assert(j.last() == l.last());
        assert(l[l.len() - 1] == l.last());
    }
}

/// A normalised Unix path never holds two slashes in a row.
pub proof fn lemma_normalize_unix_single_slashes(p: Seq<char>)
    ensures
        forall|k: int| 0 <= k < normalize_unix(p).len() - 1 ==> !(#[trigger] normalize_unix(p)[k] == '/' && normalize_unix(p)[k + 1] == '/'),
{
    let (rooted, c) = lemma_unix_normal_form(p);
    assert forall|i: int| 0 <= i < c.len() implies (#[trigger] c[i]).len() > 0 && !c[i].contains('/') by {
        assert(clean_seg(c[i]));
    }
    lemma_join_single_seps(c, '/');
    let j = join(c, seq!['/']);
    let n = normalize_unix(p);
    if rooted && c.len() > 0 {
        assert(n == seq!['/'] + j);
        assert forall|k: int| 0 <= k < n.len() - 1 implies !(#[trigger] n[k] == '/' && n[k + 1] == '/') by {
            if k == 0 {
                assert(n[1] == j[0]);
            } else {
                assert(n[k] == j[k - 1] && n[k + 1] == j[k]);
            }
        }
    }
}

/// No piece of a normalised Unix path between its slashes is `.` or `..`.
pub proof fn lemma_normalize_unix_no_dots(p: Seq<char>)
    ensures
        forall|i: int| 0 <= i < split(normalize_unix(p), '/').len() ==> #[trigger] split(normalize_unix(p), '/')[i]
            != seq!['.'] && split(normalize_unix(p), '/')[i] != seq!['.', '.'],
{
    let (rooted, c) = lemma_unix_normal_form(p);
    let j = join(c, seq!['/']);
    let n = normalize_unix(p);
    assert(seq!['.'].len() == 1 && seq!['.', '.'].len() == 2);
    assert forall|i: int| 0 <= i < c.len() implies !(#[trigger] c[i]).contains('/') by {
        assert(clean_seg(c[i]));
    }
    let pieces: Seq<Seq<char>> = if c.len() == 0 {
        if rooted {
            seq![Seq::<char>::empty(), Seq::<char>::empty()]
        } else {
            seq![Seq::<char>::empty()]
        }
    } else if rooted {
        seq![Seq::<char>::empty()] + c
    } else {
        c
    };
    if c.len() == 0 {
        assert(j == Seq::<char>::empty());
        if rooted {
            lemma_split_after_sep(Seq::<char>::empty(), '/');
            assert(seq!['/'] + Seq::<char>::empty() =~= seq!['/']);
        }
        assert(split(Seq::<char>::empty(), '/') == seq![Seq::<char>::empty()]);
        assert(split(n, '/') =~= pieces);
    } else {
        lemma_split_join(c, '/');
        if rooted {
            lemma_split_after_sep(j, '/');
        }
        assert(split(n, '/') =~= pieces);
    }
    assert forall|i: int| 0 <= i < pieces.len() implies #[trigger] pieces[i] != seq!['.'] && pieces[i] != seq!['.', '.'] by {
        if c.len() > 0 {
            if rooted {
                if i > 0 {
                    assert(pieces[i] == c[i - 1]);
                    assert(clean_seg(c[i - 1]));
                }
            } else {
                assert(clean_seg(c[i]));
            }
        }
    }
}

/// Whether every folder lies in the container.
pub open spec fn folders_placeable(container: RemoteNodeRef, folders: Seq<RemoteNodeRef>) -> bool {
    forall|i: int| 0 <= i < folders.len() ==> relative_segments_spec(container, #[trigger] folders[i]) is Ok
}

/// Whether every file lies strictly inside the container.
pub open spec fn files_placeable(container: RemoteNodeRef, files: Seq<RemoteNodeRef>) -> bool {
    forall|i: int| 0 <= i < files.len() ==> (relative_segments_spec(container, #[trigger] files[i]) matches Ok(rel)
        && rel.len() > 0)
}

proof fn lemma_folder_dirs_ok(style: PathStyle, r: Seq<char>, container: RemoteNodeRef, folders: Seq<RemoteNodeRef>)
    ensures
        folder_dirs_spec(style, r, container, folders) is Ok <==> folders_placeable(container, folders),
    decreases folders.len(),
{
    if folders.len() > 0 {
        let init = folders.drop_last();
        lemma_folder_dirs_ok(style, r, container, init);
        if folders_placeable(container, folders) {
            assert forall|i: int| 0 <= i < init.len() implies relative_segments_spec(container, #[trigger] init[i]) is Ok by {
                assert(init[i] == folders[i]);
            }
            assert(relative_segments_spec(container, folders[folders.len() - 1]) is Ok);
        }
        if folder_dirs_spec(style, r, container, folders) is Ok {
            assert forall|i: int| 0 <= i < folders.len() implies relative_segments_spec(container, #[trigger] folders[i]) is Ok by {
                if i < init.len() {
                    assert(init[i] == folders[i]);
                }
            }
        }
    }
}

proof fn lemma_file_targets_ok(style: PathStyle, r: Seq<char>, container: RemoteNodeRef, files: Seq<RemoteNodeRef>)
    ensures
        file_targets_spec(style, r, container, files) is Ok <==> files_placeable(container, files),
    decreases files.len(),
{
    if files.len() > 0 {
        let init = files.drop_last();
        lemma_file_targets_ok(style, r, container, init);
        if files_placeable(container, files) {
            assert forall|i: int| 0 <= i < init.len() implies (relative_segments_spec(container, #[trigger] init[i]) matches Ok(rel) && rel.len() > 0) by {
                assert(init[i] == files[i]);
            }
            assert(relative_segments_spec(container, files[files.len() - 1]) matches Ok(rel) && rel.len() > 0);
        }
        if file_targets_spec(style, r, container, files) is Ok {
            assert forall|i: int| 0 <= i < files.len() implies (relative_segments_spec(container, #[trigger] files[i]) matches Ok(rel) && rel.len() > 0) by {
                if i < init.len() {
                    assert(init[i] == files[i]);
                }
            }
        }
    }
}

/// A container plan succeeds exactly when every folder lies in the container
/// (it and its parents have parent paths, and the container's segments begin
/// its own) and every file lies strictly inside it.
pub proof fn lemma_container_plan_ok(
    style: PathStyle,
    target_base: Seq<char>,
    container: RemoteNodeRef,
    folders: Seq<RemoteNodeRef>,
    files: Seq<RemoteNodeRef>,
)
    ensures
        container_plan_spec(style, target_base, container, folders, files) is Ok <==> (folders_placeable(
            container,
            folders,
        ) && files_placeable(container, files)),
{
    let r = join_spec(style, target_base, container.name@);
    lemma_folder_dirs_ok(style, r, container, folders);
    lemma_file_targets_ok(style, r, container, files);
}

} // verus!
