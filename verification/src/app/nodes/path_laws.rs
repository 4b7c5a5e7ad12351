//! Laws of local path normalisation: a normalised Unix path is its own normal
//! form, and it is made of clean segments.

use vstd::prelude::*;
use crate::app::nodes::filesystem::{normalize_unix, resolve, resolve_step};
use crate::text::{
    join, lemma_split_join, lemma_split_nonempty, lemma_split_pieces_free, replace_char, split,
};

verus! {

/// A segment that survives resolution unchanged: not empty, not `.` or `..`,
/// and free of both separators.
pub open spec fn clean_seg(s: Seq<char>) -> bool {
    &&& s.len() > 0
    &&& s != seq!['.']
    &&& s != seq!['.', '.']
    &&& !s.contains('/')
    &&& !s.contains('\\')
}

/// Every segment is clean.
pub open spec fn all_clean(segs: Seq<Seq<char>>) -> bool {
    forall|i: int| 0 <= i < segs.len() ==> clean_seg(#[trigger] segs[i])
}

/// Resolving segments free of both separators leaves only clean segments.
pub proof fn lemma_resolve_clean(segs: Seq<Seq<char>>)
    requires
        forall|i: int| 0 <= i < segs.len() ==> !(#[trigger] segs[i]).contains('/') && !segs[i].contains('\\'),
    ensures
        all_clean(resolve(segs)),
    decreases segs.len(),
{
    if segs.len() > 0 {
        let init = segs.drop_last();
        assert forall|i: int| 0 <= i < init.len() implies !(#[trigger] init[i]).contains('/') && !init[i].contains('\\') by {
            assert(init[i] == segs[i]);
        }
        lemma_resolve_clean(init);
        let st = resolve(init);
        let seg = segs.last();
        assert(segs[segs.len() - 1] == seg);
        if seg.len() == 0 || seg == seq!['.'] {
        } else if seg == seq!['.', '.'] {
            if st.len() > 0 {
                assert forall|i: int| 0 <= i < st.drop_last().len() implies clean_seg(#[trigger] st.drop_last()[i]) by {
                    assert(st.drop_last()[i] == st[i]);
                }
            }
        } else {
            assert forall|i: int| 0 <= i < st.push(seg).len() implies clean_seg(#[trigger] st.push(seg)[i]) by {
                if i < st.len() {
                    assert(st.push(seg)[i] == st[i]);
                }
            }
        }
    }
}

/// Clean segments after any prefix are kept as they are.
pub proof fn lemma_resolve_append_clean(pre: Seq<Seq<char>>, c: Seq<Seq<char>>)
    requires
        all_clean(c),
    ensures
        resolve(pre + c) == resolve(pre) + c,
    decreases c.len(),
{
    if c.len() == 0 {
        assert(pre + c =~= pre);
        assert(resolve(pre) + c =~= resolve(pre));
    } else {
        let init = c.drop_last();
        assert forall|i: int| 0 <= i < init.len() implies clean_seg(#[trigger] init[i]) by {
            assert(init[i] == c[i]);
        }
        lemma_resolve_append_clean(pre, init);
        assert((pre + c).drop_last() =~= pre + init);
        assert((pre + c).last() == c.last());
        assert(clean_seg(c[c.len() - 1]));
        assert(resolve_step(resolve(pre) + init, c.last()) == (resolve(pre) + init).push(c.last()));
        assert((resolve(pre) + init).push(c.last()) =~= resolve(pre) + c);
    }
}

/// Replacing a character that does not occur changes nothing.
pub proof fn lemma_replace_absent(s: Seq<char>, from: char, to: char)
    requires
        !s.contains(from),
    ensures
        replace_char(s, from, to) == s,
{
    assert forall|i: int| 0 <= i < s.len() implies replace_char(s, from, to)[i] == s[i] by {
        if s[i] == from {
            assert(s.contains(from));
        }
    }
    assert(replace_char(s, from, to) =~= s);
}

/// A join holds no character that neither the pieces nor the separator hold.
pub proof fn lemma_join_absent(parts: Seq<Seq<char>>, sep: Seq<char>, x: char)
    requires
        !sep.contains(x),
        forall|i: int| 0 <= i < parts.len() ==> !(#[trigger] parts[i]).contains(x),
    ensures
        !join(parts, sep).contains(x),
    decreases parts.len(),
{
    if parts.len() > 1 {
        let init = parts.drop_last();
        assert forall|i: int| 0 <= i < init.len() implies !(#[trigger] init[i]).contains(x) by {
            assert(init[i] == parts[i]);
        }
        lemma_join_absent(init, sep, x);
        let j = join(init, sep);
        let l = parts.last();
        assert(parts[parts.len() - 1] == l);
        assert(!(j + sep + l).contains(x)) by {
            if (j + sep + l).contains(x) {
                let k = choose|k: int| 0 <= k < (j + sep + l).len() && (j + sep + l)[k] == x;
                if k < j.len() {
                    assert(j[k] == x);
                } else if k < j.len() + sep.len() {
                    assert(sep[k - j.len()] == x);
                } else {
                    assert(l[k - j.len() - sep.len()] == x);
                }
            }
        }
    } else if parts.len() == 1 {
        assert(parts[0] == join(parts, sep));
    }
}

/// A join starts with its first piece.
pub proof fn lemma_join_prefix(parts: Seq<Seq<char>>, sep: Seq<char>)
    requires
        parts.len() >= 1,
    ensures
        parts[0].len() <= join(parts, sep).len(),
        join(parts, sep).subrange(0, parts[0].len() as int) == parts[0],
    decreases parts.len(),
{
    if parts.len() > 1 {
        let init = parts.drop_last();
        lemma_join_prefix(init, sep);
        assert(init[0] == parts[0]);
        let j = join(init, sep);
        assert((j + sep + parts.last()).subrange(0, parts[0].len() as int) =~= j.subrange(
            0,
            parts[0].len() as int,
        ));
    } else {
        assert(parts[0].subrange(0, parts[0].len() as int) =~= parts[0]);
    }
}

/// Splitting a text that starts with the separator gives an empty first piece
/// and the pieces of the rest.
pub proof fn lemma_split_after_sep(x: Seq<char>, c: char)
    ensures
        split(seq![c] + x, c) == seq![Seq::<char>::empty()] + split(x, c),
    decreases x.len(),
{
    if x.len() == 0 {
        assert(seq![c] + x =~= seq![c]);
        assert(seq![c].drop_last() =~= Seq::<char>::empty());
        assert(seq![c].last() == c);
        assert(split(Seq::<char>::empty(), c) == seq![Seq::<char>::empty()]);
        assert(split(seq![c], c) == split(Seq::<char>::empty(), c).push(Seq::<char>::empty()));
        assert(split(seq![c], c) =~= seq![Seq::<char>::empty(), Seq::<char>::empty()]);
        assert(seq![Seq::<char>::empty()] + split(x, c) =~= seq![Seq::<char>::empty(), Seq::<char>::empty()]);
    } else {
        lemma_split_after_sep(x.drop_last(), c);
        lemma_split_nonempty(x.drop_last(), c);
        assert((seq![c] + x).drop_last() =~= seq![c] + x.drop_last());
        assert((seq![c] + x).last() == x.last());
        let s0 = split(x.drop_last(), c);
        let e = seq![Seq::<char>::empty()];
        if x.last() == c {
            assert((e + s0).push(Seq::<char>::empty()) =~= e + s0.push(Seq::<char>::empty()));
        } else {
            assert((e + s0).update((e + s0).len() - 1, (e + s0).last().push(x.last())) =~= e
                + s0.update(s0.len() - 1, s0.last().push(x.last())));
        }
    }
}

/// A lone empty segment resolves to nothing.
pub proof fn lemma_resolve_single_empty()
    ensures
        resolve(seq![Seq::<char>::empty()]) == Seq::<Seq<char>>::empty(),
{
    let e = seq![Seq::<char>::empty()];
    assert(e.drop_last() =~= Seq::<Seq<char>>::empty());
    assert(e.last() == Seq::<char>::empty());
    assert(resolve(Seq::<Seq<char>>::empty()) == Seq::<Seq<char>>::empty());
    assert(resolve(e) == resolve_step(resolve(e.drop_last()), e.last()));
}

/// Resolving clean segments keeps them all.
pub proof fn lemma_resolve_clean_identity(c: Seq<Seq<char>>)
    requires
        all_clean(c),
    ensures
        resolve(c) == c,
{
    lemma_resolve_append_clean(Seq::<Seq<char>>::empty(), c);
    assert(Seq::<Seq<char>>::empty() + c =~= c);
    assert(resolve(Seq::<Seq<char>>::empty()) + c =~= c);
}

/// Normalising a Unix path twice gives the same as normalising it once.
pub proof fn lemma_normalize_unix_idempotent(p: Seq<char>)
    ensures
        normalize_unix(normalize_unix(p)) == normalize_unix(p),
{
    let raw = replace_char(p, '\\', '/');
    let pieces = split(raw, '/');
    lemma_split_pieces_free(raw, '/');
    assert forall|i: int| 0 <= i < pieces.len() implies !(#[trigger] pieces[i]).contains('/') && !pieces[i].contains('\\') by {
        assert(!pieces[i].contains('/'));
        if pieces[i].contains('\\') {
            let k = choose|k: int| 0 <= k < pieces[i].len() && pieces[i][k] == '\\';
            lemma_split_piece_chars(raw, '/', i, k);
        }
    }
    let c = resolve(pieces);
    lemma_resolve_clean(pieces);
    let j = join(c, seq!['/']);
    let n = normalize_unix(p);
    assert forall|i: int| 0 <= i < c.len() implies !(#[trigger] c[i]).contains('\\') && !c[i].contains('/') by {
        assert(clean_seg(c[i]));
    }
    lemma_join_absent(c, seq!['/'], '\\');
    assert(!n.contains('\\')) by {
        if n.contains('\\') {
            let k = choose|k: int| 0 <= k < n.len() && n[k] == '\\';
            if raw.len() > 0 && raw[0] == '/' && j.len() > 0 {
                assert((seq!['/'] + j)[k] == '\\');
                if k > 0 {
                    assert(j[k - 1] == '\\');
                }
            } else if raw.len() > 0 && raw[0] == '/' {
            } else {
                assert(j[k] == '\\');
            }
        }
    }
    lemma_replace_absent(n, '\\', '/');
    if c.len() == 0 {
        assert(j == Seq::<char>::empty());
        if raw.len() > 0 && raw[0] == '/' {
            assert(n == seq!['/']);
            assert(replace_char(n, '\\', '/') == n);
            lemma_split_after_sep(Seq::<char>::empty(), '/');
            assert(seq!['/'] + Seq::<char>::empty() =~= seq!['/']);
            let sp = split(n, '/');
            assert(sp == seq![Seq::<char>::empty()] + split(Seq::<char>::empty(), '/'));
            assert(sp =~= seq![Seq::<char>::empty(), Seq::<char>::empty()]);
            lemma_resolve_single_empty();
            assert(sp.drop_last() =~= seq![Seq::<char>::empty()]);
            assert(sp.last() == Seq::<char>::empty());
            assert(resolve(sp) == resolve_step(resolve(sp.drop_last()), sp.last()));
            assert(resolve(sp) =~= Seq::<Seq<char>>::empty());
            assert(join(Seq::<Seq<char>>::empty(), seq!['/']) == Seq::<char>::empty());
            assert(normalize_unix(n) == n);
        } else {
            assert(n == Seq::<char>::empty());
            assert(split(Seq::<char>::empty(), '/') == seq![Seq::<char>::empty()]);
            lemma_resolve_single_empty();
            assert(join(Seq::<Seq<char>>::empty(), seq!['/']) == Seq::<char>::empty());
            assert(normalize_unix(n) == n);
        }
    } else {
        assert(clean_seg(c[0]));
        lemma_join_prefix(c, seq!['/']);
        assert(j.len() > 0);
        assert(j[0] == c[0][0]) by {
            assert(j.subrange(0, c[0].len() as int)[0] == c[0][0]);
        }
        assert(j[0] != '/') by {
            if j[0] == '/' {
                assert(c[0].contains('/'));
            }
        }
        assert forall|i: int| 0 <= i < c.len() implies !(#[trigger] c[i]).contains('/') by {
            assert(clean_seg(c[i]));
        }
        lemma_split_join(c, '/');
        lemma_resolve_clean_identity(c);
        if raw.len() > 0 && raw[0] == '/' {
            assert(n == seq!['/'] + j);
            lemma_split_after_sep(j, '/');
            let sp = split(n, '/');
            assert(sp == seq![Seq::<char>::empty()] + c);
            lemma_resolve_append_clean(seq![Seq::<char>::empty()], c);
            lemma_resolve_single_empty();
            assert(resolve(sp) =~= c);
            assert(n[0] == '/');
            assert(normalize_unix(n) == n);
        } else {
            assert(n == j);
            assert(n[0] != '/');
            assert(normalize_unix(n) == n);
        }
    }
}

/// Every character of a piece of a split occurs in the text.
pub proof fn lemma_split_piece_chars(s: Seq<char>, c: char, i: int, k: int)
    requires
        0 <= i < split(s, c).len(),
        0 <= k < split(s, c)[i].len(),
    ensures
        s.contains(split(s, c)[i][k]),
    decreases s.len(),
{
    if s.len() > 0 {
        let init = split(s.drop_last(), c);
        lemma_split_nonempty(s.drop_last(), c);
        if s.last() == c {
            if i < init.len() {
                lemma_split_piece_chars(s.drop_last(), c, i, k);
                let w = choose|w: int| 0 <= w < s.drop_last().len() && s.drop_last()[w] == init[i][k];
                assert(s[w] == init[i][k]);
            }
        } else {
            if i < init.len() - 1 {
                lemma_split_piece_chars(s.drop_last(), c, i, k);
                let w = choose|w: int| 0 <= w < s.drop_last().len() && s.drop_last()[w] == init[i][k];
                assert(s[w] == init[i][k]);
            } else if k < init.last().len() {
                assert(init.last() == init[init.len() - 1]);
                lemma_split_piece_chars(s.drop_last(), c, init.len() - 1, k);
                let w = choose|w: int| 0 <= w < s.drop_last().len() && s.drop_last()[w] == init[init.len() - 1][k];
                assert(s[w] == split(s, c)[i][k]);
            } else {
                assert(split(s, c)[i][k] == s.last());
                assert(s[s.len() - 1] == s.last());
            }
        }
    }
}

/// The shape of a normalised Unix path: it holds no backslash; it starts
/// with a slash exactly when the path (with backslashes read as slashes)
/// does; it does not end with a slash unless it is the root `/`; and every
/// segment after the leading slash is non-empty and neither `.` nor `..`
/// (so there is no `//`).
pub proof fn lemma_normalize_unix_shape(p: Seq<char>)
    ensures
        !normalize_unix(p).contains('\\'),
        (normalize_unix(p).len() > 0 && normalize_unix(p)[0] == '/') <==> (replace_char(p, '\\', '/').len() > 0
            && replace_char(p, '\\', '/')[0] == '/'),
        normalize_unix(p) == seq!['/'] || normalize_unix(p).len() == 0 || normalize_unix(p).last() != '/',
        normalize_unix(p).len() > 0 && normalize_unix(p) != seq!['/'] ==> forall|i: int|
            (if normalize_unix(p)[0] == '/' { 1int } else { 0int }) <= i < split(normalize_unix(p), '/').len()
                ==> clean_seg(#[trigger] split(normalize_unix(p), '/')[i]),
{
    let raw = replace_char(p, '\\', '/');
    let pieces = split(raw, '/');
    lemma_split_pieces_free(raw, '/');
    assert forall|i: int| 0 <= i < pieces.len() implies !(#[trigger] pieces[i]).contains('/') && !pieces[i].contains('\\') by {
        assert(!pieces[i].contains('/'));
        if pieces[i].contains('\\') {
            let k = choose|k: int| 0 <= k < pieces[i].len() && pieces[i][k] == '\\';
            lemma_split_piece_chars(raw, '/', i, k);
        }
    }
    let c = resolve(pieces);
    lemma_resolve_clean(pieces);
    let j = join(c, seq!['/']);
    let n = normalize_unix(p);
    let absolute = raw.len() > 0 && raw[0] == '/';
    assert forall|i: int| 0 <= i < c.len() implies !(#[trigger] c[i]).contains('\\') && !c[i].contains('/') by {
        assert(clean_seg(c[i]));
    }
    lemma_join_absent(c, seq!['/'], '\\');
    assert(!n.contains('\\')) by {
        if n.contains('\\') {
            let k = choose|k: int| 0 <= k < n.len() && n[k] == '\\';
            if absolute && j.len() > 0 {
                assert((seq!['/'] + j)[k] == '\\');
                if k > 0 {
                    assert(j[k - 1] == '\\');
                }
            } else if absolute {
            } else {
                assert(j[k] == '\\');
            }
        }
    }
    if c.len() == 0 {
        assert(j == Seq::<char>::empty());
        if absolute {
            assert(n == seq!['/']);
        } else {
            assert(n.len() == 0);
        }
    } else {
        assert(clean_seg(c[0]));
        lemma_join_prefix(c, seq!['/']);
        assert(j[0] == c[0][0]) by {
            assert(j.subrange(0, c[0].len() as int)[0] == c[0][0]);
        }
        assert(j[0] != '/') by {
            if j[0] == '/' {
                assert(c[0].contains('/'));
            }
        }
        // the last character is that of the last segment
        assert(clean_seg(c[c.len() - 1]));
        assert(j.last() == c.last().last()) by {
            if c.len() > 1 {
                assert(j == join(c.drop_last(), seq!['/']) + seq!['/'] + c.last());
            } else {
                assert(j == c[0]);
            }
        }
        assert(c.last().last() != '/') by {
            if c.last().last() == '/' {
                assert(c.last()[c.last().len() - 1] == '/');
                assert(c[c.len() - 1].contains('/'));
            }
        }
        lemma_split_join(c, '/');
        if absolute {
            assert(n == seq!['/'] + j);
            assert(n.last() == j.last());
            lemma_split_after_sep(j, '/');
            assert(split(n, '/') == seq![Seq::<char>::empty()] + c);
            assert(n != seq!['/']) by {
                assert(n.len() > 1);
            }
            assert forall|i: int| 1 <= i < split(n, '/').len() implies clean_seg(#[trigger] split(n, '/')[i]) by {
                assert(split(n, '/')[i] == c[i - 1]);
            }
        } else {
            assert(n == j);
            assert(n[0] != '/');
            assert forall|i: int| 0 <= i < split(n, '/').len() implies clean_seg(#[trigger] split(n, '/')[i]) by {
                assert(split(n, '/')[i] == c[i]);
            }
        }
    }
}

} // verus!
