//! Uploads of directory trees: the remote path of a local directory below the
//! uploaded root, and the order in which directories are created (by depth).

use unicode_normalization::UnicodeNormalization;
use vstd::prelude::*;
use crate::text::{
    chars_of, join, join_chars, lemma_split_nonempty, replace_char, replace_chars, split,
    split_chars, starts_with, starts_with_chars, string_of, strip_prefix, trim_start,
    trim_start_chars, views, chars_eq, slice_to_vec,
};

verus! {

/// The Unicode canonical composition (NFC) of a text, as the
/// `unicode-normalization` crate computes it.
pub uninterp spec fn nfc(s: Seq<char>) -> Seq<char>;

/// `UnicodeNormalization::nfc` of the `unicode-normalization` crate, collected
/// into a string: the result is the NFC form of the text, named by `nfc`.
#[verifier::external_body]
pub(crate) fn nfc_string(s: &str) -> (r: String)
    ensures
        r@ == nfc(s@),
{
    s.nfc().collect::<String>()
}

/// A local path as the upload compares it: backslashes become slashes,
/// everything up to the last colon (a drive letter) is dropped, and the text
/// is put in NFC.
pub open spec fn clean_local_path(p: Seq<char>) -> Seq<char> {
    nfc(split(replace_char(p, '\\', '/'), ':').last())
}

/// The remote path of a local directory below the uploaded root: `/` for the
/// root itself, else the path with the root (when it is a prefix) and leading
/// slashes removed, each segment put in NFC, after a `/`.
pub open spec fn upload_relative_path_spec(path: Seq<char>, root: Seq<char>) -> Seq<char> {
    let ps = clean_local_path(path);
    let rs = clean_local_path(root);
    if ps == rs {
        seq!['/']
    } else {
        let rest = match strip_prefix(ps, rs) {
            Some(x) => x,
            None => ps,
        };
        let stripped = trim_start(rest, '/');
        seq!['/'] + join(split(stripped, '/').map_values(|c: Seq<char>| nfc(c)), seq!['/'])
    }
}

fn clean_local_path_string(p: &str) -> (r: Vec<char>)
    ensures
        r@ == clean_local_path(p@),
{
    let c = chars_of(p);
    let replaced = replace_chars(c.as_slice(), '\\', '/');
    let mut parts = split_chars(replaced.as_slice(), ':');
    proof {
        lemma_split_nonempty(replaced@, ':');
    }
    let ghost all = views(parts@);
    let last = parts.pop().unwrap();
    assert(last@ == all.last());
    let last_s = string_of(last.as_slice());
    chars_of(nfc_string(last_s.as_str()).as_str())
}

/// The remote path of a local directory below the uploaded root (see
/// `upload_relative_path_spec`).
pub fn normalize_path(path: &str, root_path: &str) -> (r: String)
    ensures
        r@ == upload_relative_path_spec(path@, root_path@),
{
    let ps = clean_local_path_string(path);
    let rs = clean_local_path_string(root_path);
    if chars_eq(ps.as_slice(), rs.as_slice()) {
        return string_of(&['/']);
    }
    let rest = if starts_with_chars(ps.as_slice(), rs.as_slice()) {
        slice_to_vec(ps.as_slice(), rs.len(), ps.len())
    } else {
        ps
    };
    let stripped = trim_start_chars(rest.as_slice(), '/');
    let pieces = split_chars(stripped.as_slice(), '/');
    let mut normalized: Vec<Vec<char>> = Vec::new();
    let mut i: usize = 0;
    while i < pieces.len()
        invariant
            i <= pieces.len(),
            views(normalized@) == views(pieces@).subrange(0, i as int).map_values(
                |c: Seq<char>| nfc(c),
            ),
        decreases pieces.len() - i,
    {
        let piece = string_of(pieces[i].as_slice());
        let n = chars_of(nfc_string(piece.as_str()).as_str());
        let ghost before = normalized@;
        normalized.push(n);
        assert(views(normalized@) =~= views(before).push(n@));
        assert(views(pieces@).subrange(0, i + 1).map_values(|c: Seq<char>| nfc(c)) =~= views(
            pieces@,
        ).subrange(0, i as int).map_values(|c: Seq<char>| nfc(c)).push(nfc(pieces@[i as int]@)));
        i = i + 1;
    }
    assert(views(pieces@).subrange(0, pieces@.len() as int) =~= views(pieces@));
    let joined = join_chars(&normalized, &['/']);
    let mut out: Vec<char> = Vec::new();
    out.push('/');
    let ghost j = joined@;
    crate::text::extend_chars(&mut out, joined.as_slice());
    proof {
        assert(['/']@ =~= seq!['/']);
        assert(out@ =~= seq!['/'] + j);
    }
    string_of(out.as_slice())
}


/// The number of segments that are neither empty nor `.`.
pub open spec fn normal_segment_count(segs: Seq<Seq<char>>) -> nat
    decreases segs.len(),
{
    if segs.len() == 0 {
        0
    } else if segs.last().len() == 0 || segs.last() == seq!['.'] {
        normal_segment_count(segs.drop_last())
    } else {
        normal_segment_count(segs.drop_last()) + 1
    }
}

/// The number of components of a Unix path as `Path::components` yields them:
/// the root when the path starts with `/`, a leading `.` of a relative path,
/// and every segment that is neither empty nor `.`.
pub open spec fn component_count_spec(p: Seq<char>) -> nat {
    let absolute = p.len() > 0 && p[0] == '/';
    let segs = split(p, '/');
    let root: nat = if absolute { 1 } else { 0 };
    let cur: nat = if !absolute && segs[0] == seq!['.'] { 1 } else { 0 };
    root + cur + normal_segment_count(segs)
}

/// The number of components of a Unix path (see `component_count_spec`).
pub fn component_count(p: &str) -> (r: usize)
    requires
        p@.len() + 2 <= usize::MAX,
    ensures
        r == component_count_spec(p@),
{
    let c = chars_of(p);
    let segs = split_chars(c.as_slice(), '/');
    proof {
        lemma_split_nonempty(c@, '/');
        crate::text::lemma_split_len(c@, '/');
    }
    let absolute = c.len() > 0 && c[0] == '/';
    let mut count: usize = 0;
    if absolute {
        count = 1;
    } else if segs[0].len() == 1 && segs[0][0] == '.' {
        assert(segs@[0]@ =~= seq!['.']);
        count = 1;
    } else {
        assert(views(segs@)[0] == segs@[0]@);
        assert(segs@[0]@ != seq!['.']) by {
            if segs@[0]@ == seq!['.'] {
                assert(segs@[0]@.len() == 1 && segs@[0]@[0] == '.');
            }
        }
    }
    let ghost base = count;
    let mut i: usize = 0;
    while i < segs.len()
        invariant
            i <= segs.len(),
            count == base + normal_segment_count(views(segs@).subrange(0, i as int)),
            base <= 1,
            segs@.len() <= c@.len() + 1,
            c@.len() + 2 <= usize::MAX,
            normal_segment_count(views(segs@).subrange(0, i as int)) <= i,
        decreases segs.len() - i,
    {
        assert(views(segs@).subrange(0, i + 1).drop_last() =~= views(segs@).subrange(0, i as int));
        assert(views(segs@).subrange(0, i + 1).last() == segs@[i as int]@);
        let is_dot = segs[i].len() == 1 && segs[i][0] == '.';
        proof {
            if segs@[i as int]@ == seq!['.'] {
                assert(segs@[i as int]@.len() == 1 && segs@[i as int]@[0] == '.');
            }
            if is_dot {
                assert(segs@[i as int]@ =~= seq!['.']);
            }
        }
        if segs[i].len() > 0 && !is_dot {
            count = count + 1;
        }
        i = i + 1;
    }
    assert(views(segs@).subrange(0, segs@.len() as int) =~= views(segs@));
    count
}

/// The depth of a directory below the filesystem root: its number of
/// components less one.
pub open spec fn folder_depth_spec(p: Seq<char>) -> int {
    component_count_spec(p) - 1
}

/// The entries of `input` at depth `d`, in order.
pub open spec fn with_depth(input: Seq<(Seq<char>, usize)>, d: usize) -> Seq<(Seq<char>, usize)>
    decreases input.len(),
{
    if input.len() == 0 {
        Seq::empty()
    } else if input.last().1 == d {
        with_depth(input.drop_last(), d).push(input.last())
    } else {
        with_depth(input.drop_last(), d)
    }
}

/// `out` groups `input` by depth: one non-empty group per depth that occurs,
/// groups in increasing depth, each holding the entries of its depth in their
/// input order.
pub open spec fn grouped_by_depth(
    input: Seq<(Seq<char>, usize)>,
    out: Seq<Seq<(Seq<char>, usize)>>,
) -> bool {
    &&& forall|g: int| 0 <= g < out.len() ==> (#[trigger] out[g]).len() > 0
    &&& forall|g: int, h: int| 0 <= g < h < out.len() ==> (#[trigger] out[g])[0].1 < (#[trigger] out[h])[0].1
    &&& forall|g: int| 0 <= g < out.len() ==> (#[trigger] out[g]) == with_depth(input, out[g][0].1)
    &&& forall|k: int| 0 <= k < input.len() ==> exists|g: int| 0 <= g < out.len() && (#[trigger] out[g])[0].1 == (#[trigger] input[k]).1
}

/// A depth that no entry has selects nothing.
pub proof fn lemma_with_depth_absent(input: Seq<(Seq<char>, usize)>, d: usize)
    requires
        forall|k: int| 0 <= k < input.len() ==> (#[trigger] input[k]).1 != d,
    ensures
        with_depth(input, d) == Seq::<(Seq<char>, usize)>::empty(),
    decreases input.len(),
{
    if input.len() > 0 {
        assert(input[input.len() - 1] == input.last());
        assert forall|k: int| 0 <= k < input.drop_last().len() implies (#[trigger] input.drop_last()[k]).1 != d by {
            assert(input.drop_last()[k] == input[k]);
        }
        lemma_with_depth_absent(input.drop_last(), d);
    }
}

/// A folder path with its depth.
pub open spec fn depth_entry(p: String) -> (Seq<char>, usize) {
    (p@, folder_depth_spec(p@) as usize)
}

/// The view of a group of folders.
pub open spec fn group_view(g: Vec<(String, usize)>) -> Seq<(Seq<char>, usize)> {
    g@.map_values(|e: (String, usize)| (e.0@, e.1))
}

/// The views of all groups.
pub open spec fn groups_view(gs: Seq<Vec<(String, usize)>>) -> Seq<Seq<(Seq<char>, usize)>> {
    gs.map_values(|g: Vec<(String, usize)>| group_view(g))
}

/// Groups folders by depth, shallowest first, keeping the order of the
/// folders within a depth; the groups together hold each folder exactly as
/// often as it was given. Every folder path has at least one component.
pub fn group_folders_by_depth(folders: Vec<String>) -> (r: Vec<Vec<(String, usize)>>)
    requires
        forall|k: int| 0 <= k < folders@.len() ==> component_count_spec(#[trigger] folders@[k]@) >= 1,
        forall|k: int| 0 <= k < folders@.len() ==> (#[trigger] folders@[k]@).len() + 2 <= usize::MAX,
    ensures
        grouped_by_depth(folders@.map_values(|p: String| depth_entry(p)), groups_view(r@)),
        groups_multiset(groups_view(r@)) =~= folders@.map_values(|p: String| depth_entry(p)).to_multiset(),
{
    let ghost input = folders@.map_values(|p: String| depth_entry(p));
    let ghost all = folders@;
    let total = folders.len();
    let mut rest = folders;
    let mut groups: Vec<Vec<(String, usize)>> = Vec::new();
    let mut i: usize = 0;
    while rest.len() > 0
        invariant
            i + rest@.len() == all.len(),
            total == all.len(),
            rest@ == all.subrange(i as int, all.len() as int),
            input == all.map_values(|p: String| depth_entry(p)),
            forall|k: int| 0 <= k < all.len() ==> component_count_spec(#[trigger] all[k]@) >= 1,
            forall|k: int| 0 <= k < all.len() ==> (#[trigger] all[k]@).len() + 2 <= usize::MAX,
            forall|h: int| 0 <= h < groups@.len() ==> (#[trigger] groups@[h])@.len() > 0,
            grouped_by_depth(input.subrange(0, i as int), groups_view(groups@)),
        decreases rest.len(),
    {
        let f = rest.remove(0);
        assert(rest@ =~= all.subrange(i + 1, all.len() as int));
        assert(f == all[i as int]);
        let n = component_count(f.as_str());
        let d = n - 1;
        let ghost x = (f@, d);
        assert(input[i as int] == x);
        let ghost pre = input.subrange(0, i as int);
        let ghost next = input.subrange(0, i + 1);
        assert(next =~= pre.push(x));
        assert(next.drop_last() =~= pre);
        let ghost old_groups = groups_view(groups@);
        // find the first group whose depth is not below d
        let mut g: usize = 0;
        while g < groups.len() && groups[g][0].1 < d
            invariant
                g <= groups.len(),
                old_groups == groups_view(groups@),
                grouped_by_depth(pre, old_groups),
                forall|h: int| 0 <= h < groups@.len() ==> (#[trigger] groups@[h])@.len() > 0,
                forall|h: int| 0 <= h < g ==> (#[trigger] old_groups[h])[0].1 < d,
            decreases groups.len() - g,
        {
            assert(old_groups[g as int][0].1 == groups@[g as int]@[0].1);
            g = g + 1;
        }
        proof {
            if g < groups.len() {
                assert(old_groups[g as int] == group_view(groups@[g as int]));
                assert(old_groups[g as int][0].1 == groups@[g as int]@[0].1);
            }
        }
        if g < groups.len() && groups[g][0].1 == d {
            let mut grp = groups.remove(g);
            let ghost gv = group_view(grp);
            grp.push((f, d));
            assert(group_view(grp) =~= gv.push(x));
            groups.insert(g, grp);
            assert(groups_view(groups@) =~= old_groups.update(g as int, gv.push(x)));
            proof {
                let ng = groups_view(groups@);
                assert forall|h: int| 0 <= h < ng.len() implies (#[trigger] ng[h]) == with_depth(next, ng[h][0].1) by {
                    if h != g {
                        assert(ng[h] == old_groups[h]);
                        assert(old_groups[h] == with_depth(pre, old_groups[h][0].1));
                        if h < g {
                            assert(old_groups[h][0].1 < old_groups[g as int][0].1);
                        } else {
                            assert(old_groups[g as int][0].1 < old_groups[h][0].1);
                        }
                    } else {
                        assert(old_groups[g as int] == with_depth(pre, d));
                        assert(ng[h][0] == old_groups[g as int][0]);
                    }
                }
                assert forall|a: int, b: int| 0 <= a < b < ng.len() implies (#[trigger] ng[a])[0].1 < (#[trigger] ng[b])[0].1 by {
                    assert(ng[a][0] == old_groups[a][0]);
                    assert(ng[b][0] == old_groups[b][0]);
                    assert(old_groups[a][0].1 < old_groups[b][0].1);
                }
                assert forall|k: int| 0 <= k < next.len() implies exists|h: int| 0 <= h < ng.len() && (#[trigger] ng[h])[0].1 == (#[trigger] next[k]).1 by {
                    if k < pre.len() {
                        assert(next[k] == pre[k]);
                        let h = choose|h: int| 0 <= h < old_groups.len() && (#[trigger] old_groups[h])[0].1 == pre[k].1;
                        assert(ng[h][0] == old_groups[h][0]);
                    } else {
                        assert(ng[g as int][0] == old_groups[g as int][0]);
                    }
                }
                assert forall|h: int| 0 <= h < ng.len() implies (#[trigger] ng[h]).len() > 0 by {
                    if h != g {
                        assert(ng[h] == old_groups[h]);
                    }
                }
            }
        } else {
            let mut grp: Vec<(String, usize)> = Vec::new();
            grp.push((f, d));
            assert(group_view(grp) =~= seq![x]);
            groups.insert(g, grp);
            assert(groups_view(groups@) =~= old_groups.insert(g as int, seq![x]));
            proof {
                let ng = groups_view(groups@);
                assert forall|k: int| 0 <= k < pre.len() implies (#[trigger] pre[k]).1 != d by {
                    let h = choose|h: int| 0 <= h < old_groups.len() && (#[trigger] old_groups[h])[0].1 == pre[k].1;
                    if h >= g {
                        if h > g {
                            assert(old_groups[g as int][0].1 < old_groups[h][0].1);
                        }
                    }
                }
                lemma_with_depth_absent(pre, d);
                assert(with_depth(next, d) =~= seq![x]);
                assert forall|h: int| 0 <= h < ng.len() implies (#[trigger] ng[h]) == with_depth(next, ng[h][0].1) by {
                    if h < g {
                        assert(ng[h] == old_groups[h]);
                    } else if h > g {
                        assert(ng[h] == old_groups[h - 1]);
                        if h - 1 >= g as int && (g as int) < old_groups.len() {
                            if h - 1 > g {
                                assert(old_groups[g as int][0].1 < old_groups[h - 1][0].1);
                            }
                        }
                    }
                }
                assert forall|a: int, b: int| 0 <= a < b < ng.len() implies (#[trigger] ng[a])[0].1 < (#[trigger] ng[b])[0].1 by {
                    if b < g {
                        assert(ng[a] == old_groups[a] && ng[b] == old_groups[b]);
                    } else if b == g {
                        assert(ng[a] == old_groups[a]);
                    } else if a == g {
                        assert(ng[b] == old_groups[b - 1]);
                        if b - 1 > g {
                            assert(old_groups[g as int][0].1 < old_groups[b - 1][0].1);
                        }
                    } else if a < g {
                        assert(ng[a] == old_groups[a] && ng[b] == old_groups[b - 1]);
                    } else {
                        assert(ng[a] == old_groups[a - 1] && ng[b] == old_groups[b - 1]);
                    }
                }
                assert forall|k: int| 0 <= k < next.len() implies exists|h: int| 0 <= h < ng.len() && (#[trigger] ng[h])[0].1 == (#[trigger] next[k]).1 by {
                    if k < pre.len() {
                        assert(next[k] == pre[k]);
                        let h = choose|h: int| 0 <= h < old_groups.len() && (#[trigger] old_groups[h])[0].1 == pre[k].1;
                        if h < g {
                            assert(ng[h] == old_groups[h]);
                        } else {
                            assert(ng[h + 1] == old_groups[h]);
                        }
                    } else {
                        assert(ng[g as int][0].1 == d);
                    }
                }
                assert forall|h: int| 0 <= h < ng.len() implies (#[trigger] ng[h]).len() > 0 by {
                    if h < g {
                        assert(ng[h] == old_groups[h]);
                    } else if h > g {
                        assert(ng[h] == old_groups[h - 1]);
                    }
                }
            }
        }
        assert forall|h: int| 0 <= h < groups@.len() implies (#[trigger] groups@[h])@.len() > 0 by {
            assert(groups_view(groups@)[h].len() > 0);
        }
        i = i + 1;
    }
    assert(input.subrange(0, all.len() as int) =~= input);
    proof {
        lemma_grouping_is_permutation(input, groups_view(groups@));
    }
    groups
}

/// The entries of the groups of the given depths, together.
pub open spec fn depth_groups(input: Seq<(Seq<char>, usize)>, ds: Seq<usize>) -> vstd::multiset::Multiset<
    (Seq<char>, usize),
>
    decreases ds.len(),
{
    if ds.len() == 0 {
        vstd::multiset::Multiset::empty()
    } else {
        depth_groups(input, ds.drop_last()).add(with_depth(input, ds.last()).to_multiset())
    }
}

/// The entries of all groups, together.
pub open spec fn groups_multiset(out: Seq<Seq<(Seq<char>, usize)>>) -> vstd::multiset::Multiset<(Seq<char>, usize)>
    decreases out.len(),
{
    if out.len() == 0 {
        vstd::multiset::Multiset::empty()
    } else {
        groups_multiset(out.drop_last()).add(out.last().to_multiset())
    }
}

proof fn lemma_depth_groups_push(input: Seq<(Seq<char>, usize)>, x: (Seq<char>, usize), ds: Seq<usize>)
    requires
        ds.no_duplicates(),
    ensures
        ds.contains(x.1) ==> depth_groups(input.push(x), ds) =~= depth_groups(input, ds).insert(x),
        !ds.contains(x.1) ==> depth_groups(input.push(x), ds) =~= depth_groups(input, ds),
    decreases ds.len(),
{
    broadcast use vstd::seq_lib::group_to_multiset_ensures;
    broadcast use vstd::multiset::group_multiset_axioms;
    if ds.len() > 0 {
        let dl = ds.drop_last();
        let d = ds.last();
        assert(dl.no_duplicates()) by {
            assert forall|a: int, b: int| 0 <= a < dl.len() && 0 <= b < dl.len() && a != b implies dl[a] != dl[b] by {
                assert(dl[a] == ds[a] && dl[b] == ds[b]);
            }
        }
        lemma_depth_groups_push(input, x, dl);
        assert(input.push(x).drop_last() =~= input);
        assert(input.push(x).last() == x);
        if x.1 == d {
            assert(with_depth(input.push(x), d) == with_depth(input, d).push(x));
            assert(!dl.contains(x.1)) by {
                if dl.contains(x.1) {
                    let k = choose|k: int| 0 <= k < dl.len() && dl[k] == x.1;
                    assert(ds[k] == ds[ds.len() - 1]);
                }
            }
            assert(ds.contains(x.1)) by {
                assert(ds[ds.len() - 1] == x.1);
            }
        } else {
            assert(with_depth(input.push(x), d) == with_depth(input, d));
            assert(ds.contains(x.1) <==> dl.contains(x.1)) by {
                if ds.contains(x.1) {
                    let k = choose|k: int| 0 <= k < ds.len() && ds[k] == x.1;
                    assert(k < ds.len() - 1);
                    assert(dl[k] == x.1);
                }
                if dl.contains(x.1) {
                    let k = choose|k: int| 0 <= k < dl.len() && dl[k] == x.1;
                    assert(ds[k] == x.1);
                }
            }
        }
    }
}

proof fn lemma_depth_groups_cover(input: Seq<(Seq<char>, usize)>, ds: Seq<usize>)
    requires
        ds.no_duplicates(),
        forall|k: int| 0 <= k < input.len() ==> ds.contains(#[trigger] input[k].1),
    ensures
        depth_groups(input, ds) =~= input.to_multiset(),
    decreases input.len(),
{
    broadcast use vstd::seq_lib::group_to_multiset_ensures;
    broadcast use vstd::multiset::group_multiset_axioms;
    if input.len() == 0 {
        lemma_depth_groups_empty(input, ds);
    } else {
        let init = input.drop_last();
        let x = input.last();
        assert forall|k: int| 0 <= k < init.len() implies ds.contains(#[trigger] init[k].1) by {
            assert(init[k] == input[k]);
        }
        lemma_depth_groups_cover(init, ds);
        assert(init.push(x) =~= input);
        assert(ds.contains(input[input.len() - 1].1));
        lemma_depth_groups_push(init, x, ds);
    }
}

proof fn lemma_depth_groups_empty(input: Seq<(Seq<char>, usize)>, ds: Seq<usize>)
    requires
        input.len() == 0,
    ensures
        depth_groups(input, ds) =~= vstd::multiset::Multiset::<(Seq<char>, usize)>::empty(),
    decreases ds.len(),
{
    broadcast use vstd::seq_lib::group_to_multiset_ensures;
    broadcast use vstd::multiset::group_multiset_axioms;
    if ds.len() > 0 {
        lemma_depth_groups_empty(input, ds.drop_last());
        assert(with_depth(input, ds.last()) == Seq::<(Seq<char>, usize)>::empty());
        assert(Seq::<(Seq<char>, usize)>::empty().to_multiset() =~= vstd::multiset::Multiset::empty());
    }
}

/// Grouping by depth loses no folder and adds none: the groups together hold
/// exactly the folders given, each as often as it was given.
pub proof fn lemma_grouping_is_permutation(input: Seq<(Seq<char>, usize)>, out: Seq<Seq<(Seq<char>, usize)>>)
    requires
        grouped_by_depth(input, out),
    ensures
        groups_multiset(out) =~= input.to_multiset(),
{
    let ds = Seq::new(out.len(), |g: int| out[g][0].1);
    assert(ds.no_duplicates()) by {
        assert forall|a: int, b: int| 0 <= a < ds.len() && 0 <= b < ds.len() && a != b implies ds[a] != ds[b] by {
            if a < b {
                assert(out[a][0].1 < out[b][0].1);
            } else {
                assert(out[b][0].1 < out[a][0].1);
            }
        }
    }
    assert forall|k: int| 0 <= k < input.len() implies ds.contains(#[trigger] input[k].1) by {
        let g = choose|g: int| 0 <= g < out.len() && (#[trigger] out[g])[0].1 == (#[trigger] input[k]).1;
        assert(ds[g] == input[k].1);
    }
    lemma_depth_groups_cover(input, ds);
    lemma_groups_match(input, out, out.len() as int);
    assert(out.subrange(0, out.len() as int) =~= out);
    assert(ds.subrange(0, out.len() as int) =~= ds);
}

proof fn lemma_groups_match(input: Seq<(Seq<char>, usize)>, out: Seq<Seq<(Seq<char>, usize)>>, n: int)
    requires
        grouped_by_depth(input, out),
        0 <= n <= out.len(),
    ensures
        groups_multiset(out.subrange(0, n)) == depth_groups(
            input,
            Seq::new(out.len(), |g: int| out[g][0].1).subrange(0, n),
        ),
    decreases n,
{
    let ds = Seq::new(out.len(), |g: int| out[g][0].1);
    if n > 0 {
        lemma_groups_match(input, out, n - 1);
        assert(out.subrange(0, n).drop_last() =~= out.subrange(0, n - 1));
        assert(ds.subrange(0, n).drop_last() =~= ds.subrange(0, n - 1));
        assert(out.subrange(0, n).last() == out[n - 1]);
        assert(ds.subrange(0, n).last() == out[n - 1][0].1);
        assert(out[n - 1] == with_depth(input, out[n - 1][0].1));
    } else {
        assert(out.subrange(0, 0) =~= Seq::<Seq<(Seq<char>, usize)>>::empty());
        assert(ds.subrange(0, 0) =~= Seq::<usize>::empty());
    }
}

} // verus!
