//! Laws of Windows path normalisation: a normalised path keeps a UNC prefix,
//! holds no forward slash and no dot segment, and is its own normal form,
//! as long as no colon stands anywhere but right after the first character
//! (such a colon can end up as a drive prefix after `..` removes what came
//! before it).

use vstd::prelude::*;
use crate::app::nodes::filesystem::{
    has_drive_prefix, is_ascii_char, normalize_windows, resolve, resolve_step, windows_parts,
};
use crate::app::nodes::path_laws::{
    all_clean, clean_seg, lemma_join_absent, lemma_join_prefix, lemma_replace_absent,
    lemma_resolve_append_clean, lemma_resolve_clean, lemma_resolve_clean_identity,
    lemma_resolve_single_empty, lemma_split_after_sep, lemma_split_piece_chars,
};
use crate::text::{
    join, lemma_join_split, lemma_split_join, lemma_split_nonempty, lemma_split_pieces_free,
    replace_char, split, starts_with, trim_start,
};

verus! {

/// Joining splits at any inner piece: the pieces before it, the separator,
/// and the pieces from it on.
pub proof fn lemma_join_at(parts: Seq<Seq<char>>, sep: Seq<char>, k: int)
    requires
        1 <= k < parts.len(),
    ensures
        join(parts, sep) == join(parts.subrange(0, k), sep) + sep + join(parts.subrange(k, parts.len() as int), sep),
    decreases parts.len(),
{
    let n = parts.len() as int;
    let dl = parts.drop_last();
    if k == n - 1 {
        assert(parts.subrange(0, k) =~= dl);
        assert(parts.subrange(k, n) =~= seq![parts.last()]);
        assert(join(seq![parts.last()], sep) == parts.last());
    } else {
        lemma_join_at(dl, sep, k);
        let tail = parts.subrange(k, n);
        assert(tail.len() >= 2);
        assert(tail.drop_last() =~= dl.subrange(k, dl.len() as int));
        assert(tail.last() == parts.last());
        assert(dl.subrange(0, k) =~= parts.subrange(0, k));
        assert(join(tail, sep) == join(tail.drop_last(), sep) + sep + tail.last());
        assert(join(parts, sep) == join(dl, sep) + sep + parts.last());
        assert(join(parts, sep) =~= join(parts.subrange(0, k), sep) + sep + join(tail, sep));
    }
}

/// The second character of any piece after the first lies at index 2 or
/// later of the text.
proof fn lemma_later_piece_char(s: Seq<char>, c: char, k: int)
    requires
        1 <= k < split(s, c).len(),
        split(s, c)[k].len() >= 2,
    ensures
        exists|t: int| 2 <= t < s.len() && s[t] == split(s, c)[k][1],
{
    let parts = split(s, c);
    let n = parts.len() as int;
    lemma_join_split(s, c);
    lemma_join_at(parts, seq![c], k);
    let before = join(parts.subrange(0, k), seq![c]);
    let after = join(parts.subrange(k, n), seq![c]);
    assert(parts.subrange(k, n)[0] == parts[k]);
    lemma_join_prefix(parts.subrange(k, n), seq![c]);
    assert(after[1] == parts[k][1]) by {
        assert(after.subrange(0, parts[k].len() as int)[1] == after[1]);
    }
    let t: int = before.len() as int + 2;
    assert(s == before + seq![c] + after);
    assert(s[t] == after[1]);
}

/// Every segment kept by resolution is one of the segments given.
proof fn lemma_resolve_members(segs: Seq<Seq<char>>)
    ensures
        forall|i: int| 0 <= i < resolve(segs).len() ==> exists|k: int| 0 <= k < segs.len() && segs[k] == #[trigger] resolve(segs)[i],
    decreases segs.len(),
{
    if segs.len() > 0 {
        let init = segs.drop_last();
        lemma_resolve_members(init);
        let st = resolve(init);
        let seg = segs.last();
        let r = resolve(segs);
        assert(r == resolve_step(st, seg));
        assert forall|i: int| 0 <= i < r.len() implies exists|k: int| 0 <= k < segs.len() && segs[k] == #[trigger] r[i] by {
            if i < st.len() && r[i] == st[i] {
                let k = choose|k: int| 0 <= k < init.len() && init[k] == st[i];
                assert(segs[k] == init[k]);
            } else {
                assert(r[i] == seg);
                assert(segs[segs.len() - 1] == seg);
            }
        }
    }
}

/// The segments of a backslash-separated text without forward slashes
/// resolve to clean segments.
pub proof fn lemma_resolve_win_clean(rest: Seq<char>)
    requires
        !rest.contains('/'),
    ensures
        all_clean(resolve(split(rest, '\\'))),
{
    let pieces = split(rest, '\\');
    lemma_split_pieces_free(rest, '\\');
    assert forall|i: int| 0 <= i < pieces.len() implies !(#[trigger] pieces[i]).contains('/') && !pieces[i].contains('\\') by {
        if pieces[i].contains('/') {
            let k = choose|k: int| 0 <= k < pieces[i].len() && pieces[i][k] == '/';
            lemma_split_piece_chars(rest, '\\', i, k);
        }
    }
    lemma_resolve_clean(pieces);
}

/// Clean segments joined by backslashes split and resolve back to
/// themselves, with or without a leading backslash.
pub proof fn lemma_rejoin_win(c: Seq<Seq<char>>)
    requires
        all_clean(c),
    ensures
        resolve(split(join(c, seq!['\\']), '\\')) == c,
        resolve(split(seq!['\\'] + join(c, seq!['\\']), '\\')) == c,
        !join(c, seq!['\\']).contains('/'),
        c.len() == 0 ==> join(c, seq!['\\']) == Seq::<char>::empty(),
        c.len() > 0 ==> join(c, seq!['\\']).len() > 0 && join(c, seq!['\\'])[0] == c[0][0],
{
    let j = join(c, seq!['\\']);
    assert forall|i: int| 0 <= i < c.len() implies !(#[trigger] c[i]).contains('/') && !c[i].contains('\\') by {
        assert(clean_seg(c[i]));
    }
    assert(!seq!['\\'].contains('/')) by {
        if seq!['\\'].contains('/') {
            let k = choose|k: int| 0 <= k < 1 && seq!['\\'][k] == '/';
        }
    }
    lemma_join_absent(c, seq!['\\'], '/');
    lemma_split_after_sep(j, '\\');
    lemma_resolve_single_empty();
    if c.len() == 0 {
        assert(j == Seq::<char>::empty());
        assert(split(j, '\\') == seq![Seq::<char>::empty()]);
        let two = seq![Seq::<char>::empty()] + split(j, '\\');
        assert(two.drop_last() =~= seq![Seq::<char>::empty()]);
        assert(resolve(two) == resolve_step(resolve(two.drop_last()), two.last()));
        assert(resolve(two) =~= Seq::<Seq<char>>::empty());
    } else {
        assert(clean_seg(c[0]));
        lemma_join_prefix(c, seq!['\\']);
        assert(j[0] == c[0][0]) by {
            assert(j.subrange(0, c[0].len() as int)[0] == c[0][0]);
        }
        lemma_split_join(c, '\\');
        lemma_resolve_clean_identity(c);
        lemma_resolve_append_clean(seq![Seq::<char>::empty()], c);
        assert(resolve(seq![Seq::<char>::empty()]) + c =~= c);
    }
}

/// Without a drive prefix, a colon right after the first character of the
/// first kept segment comes from a text whose first character is not ASCII.
pub proof fn lemma_plain_first_segment(raw: Seq<char>)
    requires
        forall|i: int| 0 <= i < raw.len() && raw[i] == ':' ==> i == 1,
        !has_drive_prefix(raw),
        resolve(split(raw, '\\')).len() > 0,
        resolve(split(raw, '\\'))[0].len() >= 2,
        resolve(split(raw, '\\'))[0][1] == ':',
    ensures
        !is_ascii_char(resolve(split(raw, '\\'))[0][0]),
{
    let pieces = split(raw, '\\');
    let c = resolve(pieces);
    lemma_resolve_members(pieces);
    let k = choose|k: int| 0 <= k < pieces.len() && pieces[k] == c[0];
    if k == 0 {
        lemma_split_nonempty(raw, '\\');
        lemma_join_split(raw, '\\');
        lemma_join_prefix(pieces, seq!['\\']);
        assert(raw.subrange(0, pieces[0].len() as int) == pieces[0]);
        assert(raw[0] == pieces[0][0]);
        assert(raw[1] == pieces[0][1]);
    } else {
        lemma_later_piece_char(raw, '\\', k);
        let t = choose|t: int| 2 <= t < raw.len() && raw[t] == pieces[k][1];
        assert(raw[t] == ':');
    }
}

/// No piece is `.` or `..`.
pub open spec fn no_dot_pieces(parts: Seq<Seq<char>>) -> bool {
    forall|i: int| 0 <= i < parts.len() ==> #[trigger] parts[i] != seq!['.'] && parts[i] != seq!['.', '.']
}

/// Clean segments joined by backslashes split back into themselves (or into
/// one empty piece when there are none), and no piece is a dot segment.
proof fn lemma_clean_pieces(c: Seq<Seq<char>>)
    requires
        all_clean(c),
    ensures
        no_dot_pieces(split(join(c, seq!['\\']), '\\')),
        c.len() > 0 ==> split(join(c, seq!['\\']), '\\') == c,
{
    if c.len() == 0 {
        assert(join(c, seq!['\\']) == Seq::<char>::empty());
        assert(split(Seq::<char>::empty(), '\\') == seq![Seq::<char>::empty()]);
    } else {
        assert forall|i: int| 0 <= i < c.len() implies !(#[trigger] c[i]).contains('\\') by {
            assert(clean_seg(c[i]));
        }
        lemma_split_join(c, '\\');
        assert forall|i: int| 0 <= i < c.len() implies #[trigger] c[i] != seq!['.'] && c[i] != seq!['.', '.'] by {
            assert(clean_seg(c[i]));
        }
    }
}

/// A leading backslash adds one empty piece in front.
proof fn lemma_lead_pieces(x: Seq<char>)
    requires
        no_dot_pieces(split(x, '\\')),
    ensures
        no_dot_pieces(split(seq!['\\'] + x, '\\')),
{
    lemma_split_after_sep(x, '\\');
    let sp = split(seq!['\\'] + x, '\\');
    assert forall|i: int| 0 <= i < sp.len() implies #[trigger] sp[i] != seq!['.'] && sp[i] != seq!['.', '.'] by {
        if i == 0 {
            assert(sp[0] == Seq::<char>::empty());
            assert(seq!['.'].len() == 1);
        } else {
            assert(sp[i] == split(x, '\\')[i - 1]);
        }
    }
}

/// The pieces of a drive prefix, optionally followed by a backslash and
/// clean segments, are no dot segments.
proof fn lemma_drive_pieces(prefix: Seq<char>, c: Seq<Seq<char>>, with_sep: bool)
    requires
        prefix.len() == 2,
        prefix[1] == ':',
        all_clean(c),
        c.len() > 0 ==> with_sep,
    ensures
        no_dot_pieces(split(
            prefix + (if with_sep { seq!['\\'] + join(c, seq!['\\']) } else { Seq::<char>::empty() }),
            '\\',
        )),
{
    let tail = if with_sep { seq!['\\'] + join(c, seq!['\\']) } else { Seq::<char>::empty() };
    let q = if prefix[0] == '\\' { seq![':'] } else { prefix };
    assert(!q.contains('\\')) by {
        if q.contains('\\') {
            let k = choose|k: int| 0 <= k < q.len() && q[k] == '\\';
        }
    }
    assert(q != seq!['.'] && q != seq!['.', '.']) by {
        if q == seq!['.'] {
            assert(q[0] == '.');
        }
        if q == seq!['.', '.'] {
            assert(q[1] == '.');
        }
    }
    let w = q + tail;
    if !with_sep {
        assert(w =~= q);
        assert(join(seq![q], seq!['\\']) == q);
        lemma_split_join(seq![q], '\\');
        assert(split(w, '\\') == seq![q]);
    } else if c.len() == 0 {
        let parts = seq![q, Seq::<char>::empty()];
        assert(parts.drop_last() =~= seq![q]);
        assert(join(parts, seq!['\\']) == join(seq![q], seq!['\\']) + seq!['\\'] + Seq::<char>::empty());
        assert(join(parts, seq!['\\']) =~= w);
        assert(!Seq::<char>::empty().contains('\\'));
        assert(forall|i: int| 0 <= i < parts.len() ==> !(#[trigger] parts[i]).contains('\\'));
        lemma_split_join(parts, '\\');
        assert(Seq::<char>::empty() != seq!['.'] && Seq::<char>::empty() != seq!['.', '.']) by {
            assert(seq!['.'].len() == 1);
        }
    } else {
        let parts = seq![q] + c;
        lemma_join_at(parts, seq!['\\'], 1);
        assert(parts.subrange(0, 1) =~= seq![q]);
        assert(parts.subrange(1, parts.len() as int) =~= c);
        assert(join(seq![q], seq!['\\']) == q);
        assert(join(parts, seq!['\\']) =~= w);
        assert forall|i: int| 0 <= i < parts.len() implies !(#[trigger] parts[i]).contains('\\') by {
            if i > 0 {
                assert(parts[i] == c[i - 1]);
                assert(clean_seg(c[i - 1]));
            }
        }
        lemma_split_join(parts, '\\');
        assert forall|i: int| 0 <= i < parts.len() implies #[trigger] parts[i] != seq!['.'] && parts[i] != seq!['.', '.'] by {
            if i > 0 {
                assert(parts[i] == c[i - 1]);
                assert(clean_seg(c[i - 1]));
            }
        }
    }
    if prefix[0] == '\\' {
        assert(prefix =~= seq!['\\'] + q);
        assert(prefix + tail =~= seq!['\\'] + w);
        lemma_lead_pieces(w);
    } else {
        assert(prefix + tail == w);
    }
}

/// Two leading backslashes before clean segments add two empty pieces.
proof fn lemma_unc_pieces(n: Seq<char>, c: Seq<Seq<char>>)
    requires
        all_clean(c),
        n == seq!['\\', '\\'] + join(c, seq!['\\']) || (c.len() == 0 && n == seq!['\\', '\\']),
    ensures
        no_dot_pieces(split(n, '\\')),
{
    let j = join(c, seq!['\\']);
    lemma_clean_pieces(c);
    if c.len() == 0 {
        assert(j == Seq::<char>::empty());
    }
    assert(n =~= seq!['\\'] + (seq!['\\'] + j));
    lemma_lead_pieces(j);
    lemma_lead_pieces(seq!['\\'] + j);
}

/// A normalised Windows path holds no forward slash, has no `.` or `..`
/// between its backslashes, and keeps a UNC prefix; normalising it again
/// gives it back when the path holds no colon other than right after its
/// first character.
pub proof fn lemma_normalize_windows_idempotent(p: Seq<char>)
    ensures
        (forall|i: int| 0 <= i < p.len() && p[i] == ':' ==> i == 1) ==> normalize_windows(normalize_windows(p))
            == normalize_windows(p),
        !normalize_windows(p).contains('/'),
        no_dot_pieces(split(normalize_windows(p), '\\')),
        starts_with(replace_char(p, '/', '\\'), seq!['\\', '\\']) ==> starts_with(
            normalize_windows(p),
            seq!['\\', '\\'],
        ),
{
    let raw = replace_char(p, '/', '\\');
    let n = normalize_windows(p);
    assert(!raw.contains('/')) by {
        if raw.contains('/') {
            let k = choose|k: int| 0 <= k < raw.len() && raw[k] == '/';
        }
    }
    let colons_ok = forall|i: int| 0 <= i < p.len() && p[i] == ':' ==> i == 1;
    if colons_ok {
        assert(forall|i: int| 0 <= i < raw.len() && raw[i] == ':' ==> i == 1);
    }
    if raw.len() == 0 {
        assert(n == Seq::<char>::empty());
        assert(split(n, '\\') == seq![Seq::<char>::empty()]);
        assert(Seq::<char>::empty() != seq!['.'] && Seq::<char>::empty() != seq!['.', '.']) by {
            assert(seq!['.'].len() == 1);
        }
        assert(replace_char(n, '/', '\\') =~= n);
        return;
    }
    let (prefix, rest, absolute) = windows_parts(raw);
    assert(!rest.contains('/')) by {
        if rest.contains('/') {
            let k = choose|k: int| 0 <= k < rest.len() && rest[k] == '/';
            if starts_with(raw, seq!['\\', '\\']) {
                assert(raw[k + 2] == '/');
            } else if has_drive_prefix(raw) {
                assert(raw[k + 2] == '/');
            } else if starts_with(raw, seq!['\\']) {
                lemma_trim_start_suffix(raw, '\\');
                let m = raw.len() - rest.len();
                assert(raw[m + k] == '/');
            }
        }
    }
    lemma_resolve_win_clean(rest);
    let c = resolve(split(rest, '\\'));
    let j = join(c, seq!['\\']);
    lemma_rejoin_win(c);
    assert(!prefix.contains('/')) by {
        if prefix.contains('/') {
            let t = choose|t: int| 0 <= t < prefix.len() && prefix[t] == '/';
            if !starts_with(raw, seq!['\\', '\\']) && has_drive_prefix(raw) {
                assert(raw[t] == '/');
            }
        }
    }
    lemma_no_slash(seq!['\\']);
    lemma_no_slash(seq!['\\', '\\']);
    lemma_concat_absent(prefix, seq!['\\'], '/');
    lemma_concat_absent(prefix + seq!['\\'], j, '/');
    lemma_concat_absent(seq!['\\'], j, '/');
    lemma_concat_absent(seq!['\\', '\\'], j, '/');
    assert(prefix.push('\\') =~= prefix + seq!['\\']);
    assert(!n.contains('/'));
    lemma_replace_absent(n, '/', '\\');
    assert(replace_char(n, '/', '\\') == n);
    if starts_with(raw, seq!['\\', '\\']) {
        assert(prefix == seq!['\\', '\\']);
        let m = if j.len() == 0 { seq!['\\', '\\'] } else { seq!['\\', '\\'] + j };
        assert(n == m);
        assert(n.subrange(0, 2) =~= seq!['\\', '\\']);
        assert(starts_with(n, seq!['\\', '\\']));
        let rest2 = n.subrange(2, n.len() as int);
        assert(rest2 =~= j);
        assert(windows_parts(n) == (seq!['\\', '\\'], j, true));
        lemma_unc_pieces(n, c);
    } else if has_drive_prefix(raw) {
        assert(prefix == raw.subrange(0, 2));
        assert(n[0] == raw[0] && n[1] == ':') by {
            if j.len() == 0 {
                if absolute {
                    assert(n == prefix.push('\\'));
                } else {
                    assert(n == prefix);
                }
            } else {
                assert(n == prefix + seq!['\\'] + j);
            }
        }
        assert(!starts_with(n, seq!['\\', '\\'])) by {
            if starts_with(n, seq!['\\', '\\']) {
                assert(n.subrange(0, 2)[1] == n[1]);
            }
        }
        assert(has_drive_prefix(n));
        lemma_drive_pieces(prefix, c, absolute || j.len() > 0);
        assert(n =~= prefix + (if absolute || j.len() > 0 { seq!['\\'] + j } else { Seq::<char>::empty() }));
        assert(n.subrange(0, 2) =~= prefix);
        let rest2 = n.subrange(2, n.len() as int);
        if j.len() == 0 {
            if absolute {
                assert(rest2 =~= seq!['\\']);
                assert(rest2.subrange(0, 1) =~= seq!['\\']);
                assert(starts_with(rest2, seq!['\\']));
            } else {
                assert(rest2 =~= Seq::<char>::empty());
                assert(!starts_with(rest2, seq!['\\']));
            }
        } else {
            assert(rest2 =~= seq!['\\'] + j);
            assert(rest2.subrange(0, 1) =~= seq!['\\']);
            assert(starts_with(rest2, seq!['\\']));
        }
    } else if starts_with(raw, seq!['\\']) {
        // a single leading backslash comes out as a double one
        assert(prefix == seq!['\\']);
        assert(prefix != seq!['\\', '\\']);
        let m = if j.len() == 0 { prefix.push('\\') } else { prefix + seq!['\\'] + j };
        assert(n == m);
        assert(n.subrange(0, 2) =~= seq!['\\', '\\']);
        assert(starts_with(n, seq!['\\', '\\']));
        let rest2 = n.subrange(2, n.len() as int);
        assert(rest2 =~= j);
        assert(windows_parts(n) == (seq!['\\', '\\'], j, true));
        assert(n =~= seq!['\\', '\\'] + j);
        lemma_unc_pieces(n, c);
    } else {
        assert(prefix.len() == 0 && rest == raw && !absolute);
        assert(n == j);
        if c.len() > 0 {
            assert(clean_seg(c[0]));
            assert(n[0] == c[0][0]);
            assert(n[0] != '\\') by {
                if n[0] == '\\' {
                    assert(c[0].contains('\\'));
                }
            }
            assert(!starts_with(n, seq!['\\', '\\'])) by {
                if starts_with(n, seq!['\\', '\\']) {
                    assert(n.subrange(0, 2)[0] == n[0]);
                }
            }
            assert(!starts_with(n, seq!['\\'])) by {
                if starts_with(n, seq!['\\']) {
                    assert(n.subrange(0, 1)[0] == n[0]);
                }
            }
            if colons_ok {
                assert(!has_drive_prefix(n)) by {
                    if has_drive_prefix(n) {
                        if c[0].len() >= 2 {
                            lemma_join_prefix(c, seq!['\\']);
                            assert(n[1] == c[0][1]) by {
                                assert(j.subrange(0, c[0].len() as int)[1] == j[1]);
                            }
                            lemma_plain_first_segment(raw);
                        } else {
                            assert(c.len() >= 2) by {
                                if c.len() == 1 {
                                    assert(j == c[0]);
                                }
                            }
                            lemma_join_at(c, seq!['\\'], 1);
                            assert(c.subrange(0, 1) =~= seq![c[0]]);
                            assert(join(c.subrange(0, 1), seq!['\\']) == c[0]);
                            assert(n[1] == '\\');
                        }
                    }
                }
                assert(windows_parts(n) == (Seq::<char>::empty(), j, false));
            }
            lemma_clean_pieces(c);
        } else {
            assert(n == Seq::<char>::empty());
            assert(split(n, '\\') == seq![Seq::<char>::empty()]);
            assert(Seq::<char>::empty() != seq!['.'] && Seq::<char>::empty() != seq!['.', '.']) by {
                assert(seq!['.'].len() == 1);
            }
        }
    }
}

/// What trimming leading characters leaves is the end of the text.
pub proof fn lemma_trim_start_suffix(s: Seq<char>, c: char)
    ensures
        trim_start(s, c).len() <= s.len(),
        trim_start(s, c) == s.subrange(s.len() - trim_start(s, c).len(), s.len() as int),
        s.len() > 0 && s[0] == c ==> trim_start(s, c).len() < s.len(),
    decreases s.len(),
{
    if s.len() > 0 && s[0] == c {
        lemma_trim_start_suffix(s.drop_first(), c);
        assert(s.drop_first().subrange(
            s.drop_first().len() - trim_start(s.drop_first(), c).len(),
            s.drop_first().len() as int,
        ) =~= s.subrange(s.len() - trim_start(s, c).len(), s.len() as int));
    } else {
        assert(s.subrange(0, s.len() as int) =~= s);
    }
}

/// Neither part holding a character, their concatenation holds none.
pub proof fn lemma_concat_absent(a: Seq<char>, b: Seq<char>, x: char)
    requires
        !a.contains(x),
        !b.contains(x),
    ensures
        !(a + b).contains(x),
{
    if (a + b).contains(x) {
        let k = choose|k: int| 0 <= k < (a + b).len() && (a + b)[k] == x;
        if k < a.len() {
            assert(a[k] == x);
        } else {
            assert(b[k - a.len()] == x);
        }
    }
}

/// Backslashes alone hold no forward slash.
pub proof fn lemma_no_slash(s: Seq<char>)
    requires
        forall|i: int| 0 <= i < s.len() ==> s[i] == '\\',
    ensures
        !s.contains('/'),
{
}

} // verus!
