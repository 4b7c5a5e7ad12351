//! Laws of container plans on a Windows filesystem: when the remote names are
//! clean path segments without colons, every directory and every file target
//! of a plan lies inside its root target.

use vstd::prelude::*;
use crate::app::nodes::download::{
    container_plan_spec, file_targets_spec, folder_dirs_spec, full_segments_spec, join_segments_spec,
    relative_segments_spec, RemoteNodeRef,
};
use crate::app::nodes::filesystem::{
    has_drive_prefix, is_ascii_char, join_spec, normalize_windows, resolve, windows_parts, PathStyle,
};
use crate::app::nodes::path_laws::{all_clean, clean_seg, lemma_join_prefix, lemma_replace_absent};
use crate::app::nodes::windows_laws::{
    lemma_concat_absent, lemma_join_at, lemma_no_slash, lemma_plain_first_segment, lemma_rejoin_win,
    lemma_resolve_win_clean, lemma_trim_start_suffix,
};
use crate::text::{join, replace_char, split, starts_with, trim_end, trim_start};

verus! {

/// A Windows path in normal form: the prefix (`\\`, a drive, or nothing),
/// then clean segments joined by backslashes; a drive without segments keeps
/// a backslash when it is rooted.
pub open spec fn win_form(pre: Seq<char>, rooted: bool, c: Seq<Seq<char>>) -> Seq<char> {
    let j = join(c, seq!['\\']);
    if pre == seq!['\\', '\\'] {
        seq!['\\', '\\'] + j
    } else if pre.len() > 0 {
        if c.len() == 0 {
            if rooted {
                pre.push('\\')
            } else {
                pre
            }
        } else {
            pre + seq!['\\'] + j
        }
    } else {
        j
    }
}

/// Whether the parts make a normal form: clean segments after `\\`, after a
/// drive, or after nothing when the first segment does not look like a drive.
pub open spec fn win_ok(pre: Seq<char>, c: Seq<Seq<char>>) -> bool {
    &&& all_clean(c)
    &&& (pre == seq!['\\', '\\'] || (pre.len() == 2 && is_ascii_char(pre[0]) && pre[0] != '/' && pre[1] == ':')
        || (pre.len() == 0 && (c.len() > 0 && c[0].len() >= 2 ==> !(is_ascii_char(c[0][0]) && c[0][1] == ':'))))
}

/// A clean segment without colons.
pub open spec fn win_seg(s: Seq<char>) -> bool {
    clean_seg(s) && !s.contains(':')
}

/// Clean segments without colons.
pub open spec fn all_win_segs(c: Seq<Seq<char>>) -> bool {
    forall|i: int| 0 <= i < c.len() ==> win_seg(#[trigger] c[i])
}

/// What stands before the segments of a path below `root`: the root and a
/// backslash, or the root alone where it is empty or ends with a backslash.
pub open spec fn win_below(root: Seq<char>) -> Seq<char> {
    if root.len() == 0 || root.last() == '\\' {
        root
    } else {
        root + seq!['\\']
    }
}

/// Clean segments joined by backslashes: no slash, and neither the first nor
/// the last character is a backslash.
proof fn lemma_win_clean_join(c: Seq<Seq<char>>)
    requires
        all_clean(c),
    ensures
        !join(c, seq!['\\']).contains('/'),
        c.len() == 0 ==> join(c, seq!['\\']).len() == 0,
        c.len() > 0 ==> join(c, seq!['\\']).len() > 0 && join(c, seq!['\\'])[0] == c[0][0] && join(
            c,
            seq!['\\'],
        )[0] != '\\' && join(c, seq!['\\']).last() != '\\',
{
    let j = join(c, seq!['\\']);
    lemma_rejoin_win(c);
    if c.len() > 0 {
        assert(clean_seg(c[0]));
        assert(j[0] != '\\') by {
            if j[0] == '\\' {
                assert(c[0].contains('\\'));
            }
        }
        assert(clean_seg(c[c.len() - 1]));
        assert(j.last() == c.last().last()) by {
            if c.len() > 1 {
                assert(j == join(c.drop_last(), seq!['\\']) + seq!['\\'] + c.last());
            } else {
                assert(j == c[0]);
            }
        }
        assert(c.last().last() != '\\') by {
            if c.last().last() == '\\' {
                assert(c.last()[c.last().len() - 1] == '\\');
                assert(c[c.len() - 1].contains('\\'));
            }
        }
    }
}

/// The second character of joined segments, when the first segment has one
/// character and more segments follow, is a backslash.
proof fn lemma_win_second_char(c: Seq<Seq<char>>)
    requires
        c.len() >= 2,
        c[0].len() == 1,
    ensures
        join(c, seq!['\\']).len() >= 2,
        join(c, seq!['\\'])[1] == '\\',
{
    lemma_join_at(c, seq!['\\'], 1);
    assert(c.subrange(0, 1) =~= seq![c[0]]);
    assert(join(c.subrange(0, 1), seq!['\\']) == c[0]);
}

/// A normal form is its own normal form.
proof fn lemma_win_form_normal(pre: Seq<char>, rooted: bool, c: Seq<Seq<char>>)
    requires
        win_ok(pre, c),
    ensures
        normalize_windows(win_form(pre, rooted, c)) == win_form(pre, rooted, c),
{
    let n = win_form(pre, rooted, c);
    let j = join(c, seq!['\\']);
    lemma_win_clean_join(c);
    lemma_rejoin_win(c);
    lemma_rejoin_win(Seq::<Seq<char>>::empty());
    assert(join(Seq::<Seq<char>>::empty(), seq!['\\']) == Seq::<char>::empty());
    assert(seq!['\\'] + Seq::<char>::empty() =~= seq!['\\']);
    assert(!pre.contains('/')) by {
        if pre.contains('/') {
            let k = choose|k: int| 0 <= k < pre.len() && pre[k] == '/';
        }
    }
    lemma_no_slash(seq!['\\']);
    lemma_concat_absent(pre, seq!['\\'], '/');
    lemma_concat_absent(pre + seq!['\\'], j, '/');
    lemma_no_slash(seq!['\\', '\\']);
    lemma_concat_absent(seq!['\\', '\\'], j, '/');
    assert(pre.push('\\') =~= pre + seq!['\\']);
    assert(!n.contains('/'));
    lemma_replace_absent(n, '/', '\\');
    if pre == seq!['\\', '\\'] {
        assert(n.subrange(0, 2) =~= seq!['\\', '\\']);
        assert(n.subrange(2, n.len() as int) =~= j);
        assert(windows_parts(n) == (seq!['\\', '\\'], j, true));
        if c.len() == 0 {
            assert(seq!['\\', '\\'] + j =~= seq!['\\', '\\']);
        }
    } else if pre.len() > 0 {
        assert(n[0] == pre[0] && n[1] == ':');
        assert(!starts_with(n, seq!['\\', '\\'])) by {
            if starts_with(n, seq!['\\', '\\']) {
                assert(n.subrange(0, 2)[1] == n[1]);
            }
        }
        assert(has_drive_prefix(n));
        assert(n.subrange(0, 2) =~= pre);
        let rest = n.subrange(2, n.len() as int);
        if c.len() == 0 {
            if rooted {
                assert(rest =~= seq!['\\']);
                assert(rest.subrange(0, 1) =~= seq!['\\']);
            } else {
                assert(rest =~= Seq::<char>::empty());
                assert(split(rest, '\\') == seq![Seq::<char>::empty()]);
            }
        } else {
            assert(rest =~= seq!['\\'] + j);
            assert(rest.subrange(0, 1) =~= seq!['\\']);
        }
    } else {
        if c.len() > 0 {
            assert(n == j);
            assert(!starts_with(n, seq!['\\', '\\'])) by {
                if starts_with(n, seq!['\\', '\\']) {
                    assert(n.subrange(0, 2)[0] == n[0]);
                }
            }
            assert(!starts_with(n, seq!['\\'])) by {
                if starts_with(n, seq!['\\']) {
                    assert(n.subrange(0, 1)[0] == n[0]);
                }
            }
            assert(!has_drive_prefix(n)) by {
                if has_drive_prefix(n) {
                    if c[0].len() >= 2 {
                        lemma_join_prefix(c, seq!['\\']);
                        assert(n[1] == c[0][1]) by {
                            assert(j.subrange(0, c[0].len() as int)[1] == j[1]);
                        }
                    } else {
                        assert(c.len() >= 2) by {
                            if c.len() == 1 {
                                assert(j == c[0]);
                            }
                        }
                        assert(clean_seg(c[0]));
                        lemma_win_second_char(c);
                    }
                }
            }
            assert(windows_parts(n) == (Seq::<char>::empty(), j, false));
        }
    }
}

/// Every Windows path with no colon other than right after its first
/// character normalises to a normal form.
proof fn lemma_win_normal_form(p: Seq<char>) -> (r: (Seq<char>, bool, Seq<Seq<char>>))
    requires
        forall|i: int| 0 <= i < p.len() && p[i] == ':' ==> i == 1,
    ensures
        win_ok(r.0, r.2),
        normalize_windows(p) == win_form(r.0, r.1, r.2),
{
    let raw = replace_char(p, '/', '\\');
    let n = normalize_windows(p);
    assert(!raw.contains('/')) by {
        if raw.contains('/') {
            let k = choose|k: int| 0 <= k < raw.len() && raw[k] == '/';
        }
    }
    assert(forall|i: int| 0 <= i < raw.len() && raw[i] == ':' ==> i == 1);
    if raw.len() == 0 {
        assert(join(Seq::<Seq<char>>::empty(), seq!['\\']) == Seq::<char>::empty());
        return (Seq::<char>::empty(), false, Seq::<Seq<char>>::empty());
    }
    let (prefix, rest, absolute) = windows_parts(raw);
    assert(!rest.contains('/')) by {
        if rest.contains('/') {
            let k = choose|k: int| 0 <= k < rest.len() && rest[k] == '/';
            if starts_with(raw, seq!['\\', '\\']) {
                assert(raw[k + 2] == '/');
            } else if has_drive_prefix(raw) {
                assert(raw[k + 2] == '/');
            } else if starts_with(raw, seq!['\\']) {
                lemma_trim_start_suffix(raw, '\\');
                let m = raw.len() - rest.len();
                assert(raw[m + k] == '/');
            }
        }
    }
    lemma_resolve_win_clean(rest);
    let c = resolve(split(rest, '\\'));
    let j = join(c, seq!['\\']);
    lemma_rejoin_win(c);
    if starts_with(raw, seq!['\\', '\\']) {
        if c.len() == 0 {
            assert(seq!['\\', '\\'] + j =~= seq!['\\', '\\']);
        }
        (seq!['\\', '\\'], true, c)
    } else if has_drive_prefix(raw) {
        assert(prefix == raw.subrange(0, 2));
        assert(prefix[0] == raw[0] && prefix[1] == ':');
        assert(prefix[0] != '/') by {
            if raw[0] == '/' {
                assert(raw.contains('/'));
            }
        }
        assert(prefix != seq!['\\', '\\']) by {
            if prefix == seq!['\\', '\\'] {
                assert(prefix[1] == '\\');
            }
        }
        (prefix, absolute, c)
    } else if starts_with(raw, seq!['\\']) {
        assert(prefix == seq!['\\']);
        assert(prefix != seq!['\\', '\\']);
        assert(prefix + seq!['\\'] =~= seq!['\\', '\\']);
        assert(prefix.push('\\') =~= seq!['\\', '\\']);
        if c.len() == 0 {
            assert(seq!['\\', '\\'] + j =~= seq!['\\', '\\']);
        } else {
            assert(prefix + seq!['\\'] + j =~= seq!['\\', '\\'] + j);
        }
        (seq!['\\', '\\'], true, c)
    } else {
        assert(prefix.len() == 0 && rest == raw && !absolute);
        if c.len() > 0 && c[0].len() >= 2 && c[0][1] == ':' {
            lemma_plain_first_segment(raw);
        }
        (Seq::<char>::empty(), false, c)
    }
}

/// Joining a clean segment without colons onto a normal form appends it.
#[verifier::spinoff_prover]
#[verifier::rlimit(40)]
proof fn lemma_win_join_clean(b: Seq<char>, pre: Seq<char>, rooted: bool, c: Seq<Seq<char>>, s: Seq<char>)
    requires
        win_ok(pre, c),
        normalize_windows(b) == win_form(pre, rooted, c),
        win_seg(s),
    ensures
        win_ok(pre, c.push(s)),
        normalize_windows(join_spec(PathStyle::Windows, b, s)) == win_form(pre, rooted, c.push(s)),
{
    let nb = win_form(pre, rooted, c);
    let j = join(c, seq!['\\']);
    let cs = c.push(s);
    lemma_win_clean_join(c);
    assert(all_clean(seq![s]));
    assert(s.len() >= 2 ==> s[1] != ':') by {
        if s.len() >= 2 && s[1] == ':' {
            assert(s.contains(':'));
        }
    }
    assert(win_ok(Seq::<char>::empty(), seq![s]));
    lemma_win_form_normal(Seq::<char>::empty(), false, seq![s]);
    assert(join(seq![s], seq!['\\']) == s);
    assert(normalize_windows(s) == s);
    assert(s[0] != '\\' && s[0] != '/') by {
        if s[0] == '\\' {
            assert(s.contains('\\'));
        }
        if s[0] == '/' {
            assert(s.contains('/'));
        }
    }
    assert(!starts_with(s, seq!['\\'])) by {
        if starts_with(s, seq!['\\']) {
            assert(s.subrange(0, 1)[0] == s[0]);
        }
    }
    assert(!starts_with(s, seq!['/', '/'])) by {
        if starts_with(s, seq!['/', '/']) {
            assert(s.subrange(0, 2)[0] == s[0]);
        }
    }
    assert(trim_start(s, '\\') == s);
    assert(all_clean(cs)) by {
        assert forall|i: int| 0 <= i < cs.len() implies clean_seg(#[trigger] cs[i]) by {
            if i < c.len() {
                assert(cs[i] == c[i]);
            }
        }
    }
    assert(win_ok(pre, cs)) by {
        if c.len() > 0 {
            assert(cs[0] == c[0]);
        }
    }
    let w = win_form(pre, rooted, cs);
    lemma_win_form_normal(pre, rooted, cs);
    assert(cs.drop_last() =~= c);
    if c.len() > 0 {
        assert(join(cs, seq!['\\']) == j + seq!['\\'] + s);
    } else {
        assert(cs =~= seq![s]);
    }
    let r = join_spec(PathStyle::Windows, b, s);
    if pre == seq!['\\', '\\'] {
        if c.len() == 0 {
            assert(nb =~= seq!['\\', '\\']);
            assert(trim_end(nb, '\\') == trim_end(nb.drop_last(), '\\'));
            assert(nb.drop_last() =~= seq!['\\']);
            assert(trim_end(seq!['\\'], '\\') == trim_end(seq!['\\'].drop_last(), '\\'));
            assert(seq!['\\'].drop_last() =~= Seq::<char>::empty());
            assert(trim_end(nb, '\\') =~= Seq::<char>::empty());
            let x = seq!['\\'] + s;
            assert(r =~= x);
            // a single leading backslash comes out doubled
            assert(!x.contains('/')) by {
                lemma_no_slash(seq!['\\']);
                lemma_concat_absent(seq!['\\'], s, '/');
            }
            lemma_replace_absent(x, '/', '\\');
            assert(x[1] == s[0]);
            assert(!starts_with(x, seq!['\\', '\\'])) by {
                if starts_with(x, seq!['\\', '\\']) {
                    assert(x.subrange(0, 2)[1] == x[1]);
                }
            }
            assert(!has_drive_prefix(x)) by {
                if x[1] == ':' {
                    assert(s.contains(':'));
                }
            }
            assert(x.subrange(0, 1) =~= seq!['\\']);
            assert(x.drop_first() =~= s);
            assert(trim_start(x, '\\') == s);
            assert(windows_parts(x) == (seq!['\\'], s, true));
            lemma_rejoin_win(seq![s]);
            assert(resolve(split(s, '\\')) == seq![s]);
            assert(seq!['\\'] + seq!['\\'] + s =~= seq!['\\', '\\'] + s);
            assert(normalize_windows(x) == seq!['\\', '\\'] + s);
            assert(w == seq!['\\', '\\'] + s);
        } else {
            assert(nb.last() == j.last());
            assert(trim_end(nb, '\\') == nb);
            assert(seq!['\\', '\\'] + (j + seq!['\\'] + s) =~= nb + seq!['\\'] + s);
            assert(r == nb + seq!['\\'] + s);
            assert(r == w);
        }
    } else if pre.len() > 0 {
        assert(trim_end(pre, '\\') == pre) by {
            assert(pre.last() == ':');
        }
        if c.len() == 0 {
            if rooted {
                assert(nb.drop_last() =~= pre);
                assert(trim_end(nb, '\\') == trim_end(pre, '\\'));
            }
            assert(trim_end(nb, '\\') == pre);
            assert(pre != seq!['\\']);
            assert(r == pre + seq!['\\'] + s);
            assert(r == w);
        } else {
            assert(nb.last() == j.last());
            assert(trim_end(nb, '\\') == nb);
            assert(nb.len() > 3);
            assert(pre + seq!['\\'] + (j + seq!['\\'] + s) =~= nb + seq!['\\'] + s);
            assert(r == nb + seq!['\\'] + s);
            assert(r == w);
        }
    } else {
        if c.len() > 0 {
            assert(nb == j);
            assert(trim_end(nb, '\\') == nb);
            assert(nb != seq!['\\']) by {
                if nb == seq!['\\'] {
                    assert(j[0] == '\\');
                }
            }
            assert(!(nb.len() == 3 && is_ascii_char(nb[0]) && nb[1] == ':')) by {
                if nb.len() == 3 && nb[1] == ':' {
                    if c[0].len() >= 2 {
                        lemma_join_prefix(c, seq!['\\']);
                        assert(j[1] == c[0][1]) by {
                            assert(j.subrange(0, c[0].len() as int)[1] == j[1]);
                        }
                    } else {
                        assert(c.len() >= 2) by {
                            if c.len() == 1 {
                                assert(j == c[0]);
                            }
                        }
                        assert(clean_seg(c[0]));
                        lemma_win_second_char(c);
                    }
                }
            }
        }
    }
}

/// Joining clean segments without colons one after the other onto a path in
/// normal form appends them all.
proof fn lemma_win_join_segments(
    root: Seq<char>,
    pre: Seq<char>,
    rooted: bool,
    c: Seq<Seq<char>>,
    rel: Seq<Seq<char>>,
)
    requires
        win_ok(pre, c),
        normalize_windows(root) == win_form(pre, rooted, c),
        all_win_segs(rel),
    ensures
        win_ok(pre, c + rel),
        normalize_windows(join_segments_spec(PathStyle::Windows, root, rel)) == win_form(pre, rooted, c + rel),
    decreases rel.len(),
{
    if rel.len() == 0 {
        assert(c + rel =~= c);
    } else {
        let init = rel.drop_last();
        assert(all_win_segs(init)) by {
            assert forall|i: int| 0 <= i < init.len() implies win_seg(#[trigger] init[i]) by {
                assert(init[i] == rel[i]);
            }
        }
        lemma_win_join_segments(root, pre, rooted, c, init);
        let ci = c + init;
        let jp = join_segments_spec(PathStyle::Windows, root, init);
        assert(win_seg(rel[rel.len() - 1]));
        lemma_win_join_clean(jp, pre, rooted, ci, rel.last());
        assert(ci.push(rel.last()) =~= c + rel);
    }
}

/// A normal form extended by more segments lies below it.
proof fn lemma_win_form_below(pre: Seq<char>, rooted: bool, c: Seq<Seq<char>>, rel: Seq<Seq<char>>)
    requires
        win_ok(pre, c),
        rel.len() > 0,
    ensures
        win_form(pre, rooted, c + rel) == win_below(win_form(pre, rooted, c)) + join(rel, seq!['\\']),
{
    let j = join(c, seq!['\\']);
    let jr = join(rel, seq!['\\']);
    let all = c + rel;
    lemma_win_clean_join(c);
    if c.len() == 0 {
        assert(all =~= rel);
        if pre == seq!['\\', '\\'] {
            assert(seq!['\\', '\\'] + j =~= seq!['\\', '\\']);
        } else if pre.len() > 0 {
            assert(pre.last() == ':');
            assert(pre.push('\\') =~= pre + seq!['\\']);
        } else {
            assert(Seq::<char>::empty() + jr =~= jr);
        }
    } else {
        lemma_join_at(all, seq!['\\'], c.len() as int);
        assert(all.subrange(0, c.len() as int) =~= c);
        assert(all.subrange(c.len() as int, all.len() as int) =~= rel);
        assert(join(all, seq!['\\']) == j + seq!['\\'] + jr);
        if pre == seq!['\\', '\\'] {
            assert((seq!['\\', '\\'] + j).last() == j.last());
            assert(seq!['\\', '\\'] + (j + seq!['\\'] + jr) =~= (seq!['\\', '\\'] + j) + seq!['\\'] + jr);
        } else if pre.len() > 0 {
            assert((pre + seq!['\\'] + j).last() == j.last());
            assert(pre + seq!['\\'] + (j + seq!['\\'] + jr) =~= (pre + seq!['\\'] + j) + seq!['\\'] + jr);
        }
    }
}

/// The segments of a child below its container are clean and free of colons
/// when all of the child's segments are.
proof fn lemma_relative_win(container: RemoteNodeRef, child: RemoteNodeRef)
    requires
        full_segments_spec(child) matches Ok(s) ==> all_win_segs(s),
    ensures
        relative_segments_spec(container, child) matches Ok(rel) ==> all_win_segs(rel),
{
    if let Ok(rel) = relative_segments_spec(container, child) {
        let ch = full_segments_spec(child)->Ok_0;
        let k = full_segments_spec(container)->Ok_0.len();
        assert forall|i: int| 0 <= i < rel.len() implies win_seg(#[trigger] rel[i]) by {
            assert(rel[i] == ch[k + i]);
        }
    }
}

/// Each file target lies below the normalised root.
proof fn lemma_win_file_targets_below(r: Seq<char>, container: RemoteNodeRef, files: Seq<RemoteNodeRef>)
    requires
        forall|i: int| 0 <= i < r.len() && r[i] == ':' ==> i == 1,
        forall|i: int| 0 <= i < files.len() ==> (full_segments_spec(#[trigger] files[i]) matches Ok(s) ==> all_win_segs(s)),
    ensures
        file_targets_spec(PathStyle::Windows, r, container, files) matches Ok(t) ==> forall|id: u64|
            #[trigger] t.dom().contains(id) ==> exists|rel: Seq<Seq<char>>|
                rel.len() > 0 && all_win_segs(rel) && t[id] == win_below(normalize_windows(r)) + join(rel, seq!['\\']),
    decreases files.len(),
{
    if files.len() > 0 {
        let init = files.drop_last();
        assert forall|i: int| 0 <= i < init.len() implies (full_segments_spec(#[trigger] init[i]) matches Ok(s) ==> all_win_segs(s)) by {
            assert(init[i] == files[i]);
        }
        lemma_win_file_targets_below(r, container, init);
        let last = files.last();
        assert(full_segments_spec(files[files.len() - 1]) matches Ok(s) ==> all_win_segs(s));
        lemma_relative_win(container, last);
        if let Ok(t) = file_targets_spec(PathStyle::Windows, r, container, files) {
            let rel = relative_segments_spec(container, last)->Ok_0;
            let (pre, rooted, c) = lemma_win_normal_form(r);
            lemma_win_join_segments(r, pre, rooted, c, rel);
            lemma_win_form_below(pre, rooted, c, rel);
            assert(t[last.id] == win_below(normalize_windows(r)) + join(rel, seq!['\\']));
        }
    }
}

/// Each folder directory lies below the normalised root.
proof fn lemma_win_folder_dirs_below(r: Seq<char>, container: RemoteNodeRef, folders: Seq<RemoteNodeRef>)
    requires
        forall|i: int| 0 <= i < r.len() && r[i] == ':' ==> i == 1,
        forall|i: int| 0 <= i < folders.len() ==> (full_segments_spec(#[trigger] folders[i]) matches Ok(s) ==> all_win_segs(s)),
    ensures
        folder_dirs_spec(PathStyle::Windows, r, container, folders) matches Ok(d) ==> forall|x: Seq<char>|
            #[trigger] d.contains(x) ==> exists|rel: Seq<Seq<char>>|
                rel.len() > 0 && all_win_segs(rel) && x == win_below(normalize_windows(r)) + join(rel, seq!['\\']),
    decreases folders.len(),
{
    if folders.len() > 0 {
        let init = folders.drop_last();
        assert forall|i: int| 0 <= i < init.len() implies (full_segments_spec(#[trigger] init[i]) matches Ok(s) ==> all_win_segs(s)) by {
            assert(init[i] == folders[i]);
        }
        lemma_win_folder_dirs_below(r, container, init);
        let last = folders.last();
        assert(full_segments_spec(folders[folders.len() - 1]) matches Ok(s) ==> all_win_segs(s));
        lemma_relative_win(container, last);
        if let Ok(d) = folder_dirs_spec(PathStyle::Windows, r, container, folders) {
            let rel = relative_segments_spec(container, last)->Ok_0;
            if rel.len() > 0 {
                let (pre, rooted, c) = lemma_win_normal_form(r);
                lemma_win_join_segments(r, pre, rooted, c, rel);
                lemma_win_form_below(pre, rooted, c, rel);
            }
        }
    }
}

/// On a Windows filesystem, when every segment of the remote paths of the
/// folders and files is clean and holds no colon, and the root (the target
/// base joined with the container's name) holds no colon other than right
/// after its first character, a container plan keeps all it creates inside
/// its root target: the root is one of the directories, and every other
/// directory and every file target is the root followed by clean segments.
pub proof fn lemma_container_plan_inside_root_windows(
    target_base: Seq<char>,
    container: RemoteNodeRef,
    folders: Seq<RemoteNodeRef>,
    files: Seq<RemoteNodeRef>,
)
    requires
        forall|i: int| 0 <= i < join_spec(PathStyle::Windows, target_base, container.name@).len()
            && join_spec(PathStyle::Windows, target_base, container.name@)[i] == ':' ==> i == 1,
        forall|i: int| 0 <= i < folders.len() ==> (full_segments_spec(#[trigger] folders[i]) matches Ok(s) ==> all_win_segs(s)),
        forall|i: int| 0 <= i < files.len() ==> (full_segments_spec(#[trigger] files[i]) matches Ok(s) ==> all_win_segs(s)),
    ensures
        container_plan_spec(PathStyle::Windows, target_base, container, folders, files) matches Ok((root, dirs, targets)) ==> {
            &&& dirs.contains(root)
            &&& forall|x: Seq<char>| #[trigger] dirs.contains(x) && x != root ==> exists|rel: Seq<Seq<char>>|
                rel.len() > 0 && all_win_segs(rel) && x == win_below(root) + join(rel, seq!['\\'])
            &&& forall|id: u64| #[trigger] targets.dom().contains(id) ==> exists|rel: Seq<Seq<char>>|
                rel.len() > 0 && all_win_segs(rel) && targets[id] == win_below(root) + join(rel, seq!['\\'])
        },
{
    let r = join_spec(PathStyle::Windows, target_base, container.name@);
    lemma_win_folder_dirs_below(r, container, folders);
    lemma_win_file_targets_below(r, container, files);
}

} // verus!
