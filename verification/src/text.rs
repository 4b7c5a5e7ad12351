//! Character-sequence helpers shared by the whole library: conversions between
//! `str`/`String` and `Vec<char>`, decimal rendering of integers, and the
//! splitting, joining and trimming that path and query handling need.

use vstd::prelude::*;

verus! {

/// Decimal rendering of a natural number, most significant digit first.
pub open spec fn dec(n: nat) -> Seq<char>
    decreases n,
{
    if n < 10 {
        seq![digit_char(n)]
    } else {
        dec(n / 10).push(digit_char(n % 10))
    }
}

/// The ASCII digit for a value below ten.
pub open spec fn digit_char(d: nat) -> char {
    if d == 0 { '0' }
    else if d == 1 { '1' }
    else if d == 2 { '2' }
    else if d == 3 { '3' }
    else if d == 4 { '4' }
    else if d == 5 { '5' }
    else if d == 6 { '6' }
    else if d == 7 { '7' }
    else if d == 8 { '8' }
    else { '9' }
}

/// Appends one character to a string (`String::push`).
#[verifier::external_body]
pub(crate) fn push_char(s: &mut String, c: char)
    ensures
        final(s)@ == old(s)@.push(c),
{
    s.push(c);
}

/// The characters of a string slice, in order.
pub fn chars_of(s: &str) -> (v: Vec<char>)
    ensures
        v@ == s@,
{
    let mut v: Vec<char> = Vec::new();
    let n = s.unicode_len();
    let mut i: usize = 0;
    while i < n
        invariant
            n == s@.len(),
            i <= n,
            v@ == s@.subrange(0, i as int),
        decreases n - i,
    {
        let c = s.get_char(i);
        v.push(c);
        i = i + 1;
        assert(v@ =~= s@.subrange(0, i as int));
    }
    assert(v@ =~= s@);
    v
}

/// A string holding the given characters.
pub fn string_of(v: &[char]) -> (s: String)
    ensures
        s@ == v@,
{
    let mut s = String::new();
    let mut i: usize = 0;
    while i < v.len()
        invariant
            i <= v.len(),
            s@ == v@.subrange(0, i as int),
        decreases v.len() - i,
    {
        push_char(&mut s, v[i]);
        i = i + 1;
        assert(s@ =~= v@.subrange(0, i as int));
    }
    assert(s@ =~= v@);
    s
}

/// A string of one character.
pub fn char_string(c: char) -> (s: String)
    ensures
        s@ == seq![c],
{
    let mut s = String::new();
    push_char(&mut s, c);
    assert(s@ =~= seq![c]);
    s
}

fn digit(d: u64) -> (c: char)
    requires
        d < 10,
    ensures
        c == digit_char(d as nat),
{
    if d == 0 { '0' }
    else if d == 1 { '1' }
    else if d == 2 { '2' }
    else if d == 3 { '3' }
    else if d == 4 { '4' }
    else if d == 5 { '5' }
    else if d == 6 { '6' }
    else if d == 7 { '7' }
    else if d == 8 { '8' }
    else { '9' }
}

/// The decimal digits of `n`.
pub fn dec_chars(n: u64) -> (v: Vec<char>)
    ensures
        v@ == dec(n as nat),
    decreases n,
{
    if n < 10 {
        let mut v = Vec::new();
        v.push(digit(n));
        assert(v@ =~= dec(n as nat));
        v
    } else {
        let mut v = dec_chars(n / 10);
        v.push(digit(n % 10));
        v
    }
}

/// The decimal rendering of `n` as a string, as `format!("{}", n)` gives it.
pub fn u64_to_string(n: u64) -> (s: String)
    ensures
        s@ == dec(n as nat),
{
    let v = dec_chars(n);
    string_of(v.as_slice())
}


/// The character sequences held by a vector of character vectors.
pub open spec fn views(v: Seq<Vec<char>>) -> Seq<Seq<char>> {
    Seq::new(v.len(), |i: int| v[i]@)
}

/// `str::split` on a single character: the maximal pieces between separators,
/// always at least one piece (the empty text gives one empty piece).
pub open spec fn split(s: Seq<char>, c: char) -> Seq<Seq<char>>
    decreases s.len(),
{
    if s.len() == 0 {
        seq![Seq::<char>::empty()]
    } else {
        let init = split(s.drop_last(), c);
        if s.last() == c {
            init.push(Seq::<char>::empty())
        } else {
            init.update(init.len() - 1, init.last().push(s.last()))
        }
    }
}

/// Joins pieces with a separator between consecutive pieces (`[T]::join`).
pub open spec fn join(parts: Seq<Seq<char>>, sep: Seq<char>) -> Seq<char>
    decreases parts.len(),
{
    if parts.len() == 0 {
        Seq::<char>::empty()
    } else if parts.len() == 1 {
        parts[0]
    } else {
        join(parts.drop_last(), sep) + sep + parts.last()
    }
}

/// `str::trim_end_matches` with a single character.
pub open spec fn trim_end(s: Seq<char>, c: char) -> Seq<char>
    decreases s.len(),
{
    if s.len() > 0 && s.last() == c {
        trim_end(s.drop_last(), c)
    } else {
        s
    }
}

/// `str::trim_start_matches` with a single character.
pub open spec fn trim_start(s: Seq<char>, c: char) -> Seq<char>
    decreases s.len(),
{
    if s.len() > 0 && s[0] == c {
        trim_start(s.drop_first(), c)
    } else {
        s
    }
}

/// `str::replace` of one character by another.
pub open spec fn replace_char(s: Seq<char>, from: char, to: char) -> Seq<char> {
    Seq::new(s.len(), |i: int| if s[i] == from { to } else { s[i] })
}

/// `str::starts_with`.
pub open spec fn starts_with(s: Seq<char>, p: Seq<char>) -> bool {
    p.len() <= s.len() && s.subrange(0, p.len() as int) == p
}

/// `str::strip_prefix`.
pub open spec fn strip_prefix(s: Seq<char>, p: Seq<char>) -> Option<Seq<char>> {
    if starts_with(s, p) {
        Some(s.subrange(p.len() as int, s.len() as int))
    } else {
        None
    }
}

pub proof fn lemma_split_nonempty(s: Seq<char>, c: char)
    ensures
        split(s, c).len() >= 1,
    decreases s.len(),
{
    if s.len() > 0 {
        lemma_split_nonempty(s.drop_last(), c);
    }
}

/// A split has at most one piece more than the text has characters.
pub proof fn lemma_split_len(s: Seq<char>, c: char)
    ensures
        split(s, c).len() <= s.len() + 1,
    decreases s.len(),
{
    if s.len() > 0 {
        lemma_split_len(s.drop_last(), c);
        lemma_split_nonempty(s.drop_last(), c);
    }
}

/// No piece of a split holds the separator.
pub proof fn lemma_split_pieces_free(s: Seq<char>, c: char)
    ensures
        forall|i: int| 0 <= i < split(s, c).len() ==> !(#[trigger] split(s, c)[i]).contains(c),
    decreases s.len(),
{
    if s.len() > 0 {
        lemma_split_pieces_free(s.drop_last(), c);
        lemma_split_nonempty(s.drop_last(), c);
        let init = split(s.drop_last(), c);
        if s.last() != c {
            let last = init.last().push(s.last());
            assert forall|k: int| 0 <= k < last.len() implies last[k] != c by {
                if k < init.last().len() {
                    assert(init.last()[k] == last[k]);
                }
            }
        }
    }
}

/// Splitting `x` followed by separator-free `y` extends the last piece of `x` by `y`.
pub proof fn lemma_split_append_free(x: Seq<char>, y: Seq<char>, c: char)
    requires
        !y.contains(c),
    ensures
        split(x + y, c) == split(x, c).update(
            split(x, c).len() - 1,
            split(x, c).last() + y,
        ),
    decreases y.len(),
{
    lemma_split_nonempty(x, c);
    if y.len() == 0 {
        assert(x + y =~= x);
        assert(split(x, c).last() + y =~= split(x, c).last());
        assert(split(x, c).update(split(x, c).len() - 1, split(x, c).last())
            =~= split(x, c));
    } else {
        let y0 = y.drop_last();
        assert(!y0.contains(c)) by {
            if y0.contains(c) {
                let k = choose|k: int| 0 <= k < y0.len() && y0[k] == c;
                assert(y[k] == c);
            }
        }
        lemma_split_append_free(x, y0, c);
        assert((x + y).drop_last() =~= x + y0);
        assert((x + y).last() == y.last());
        assert(y.last() != c) by {
            assert(y[y.len() - 1] == y.last());
        }
        lemma_split_nonempty(x + y0, c);
        let sx = split(x, c);
        let sy0 = split(x + y0, c);
        assert(sy0.len() == sx.len());
        assert(sy0.last() == sx.last() + y0);
        assert(split(x + y, c) == sy0.update(sy0.len() - 1, sy0.last().push(y.last())));
        assert(sx.last() + y0 + seq![y.last()] =~= sx.last() + y);
        assert(sy0.last().push(y.last()) =~= sx.last() + y);
        assert(split(x + y, c) =~= split(x, c).update(
            split(x, c).len() - 1,
            split(x, c).last() + y,
        ));
    }
}

/// Splitting after a trailing separator starts a new, empty piece.
pub proof fn lemma_split_push_sep(x: Seq<char>, c: char)
    ensures
        split(x.push(c), c) == split(x, c).push(Seq::<char>::empty()),
{
    assert(x.push(c).drop_last() =~= x);
}

/// Splitting a join on the same separator gives the pieces back when no piece
/// holds the separator.
pub proof fn lemma_split_join(parts: Seq<Seq<char>>, c: char)
    requires
        parts.len() >= 1,
        forall|i: int| 0 <= i < parts.len() ==> !(#[trigger] parts[i]).contains(c),
    ensures
        split(join(parts, seq![c]), c) == parts,
    decreases parts.len(),
{
    if parts.len() == 1 {
        lemma_split_append_free(Seq::<char>::empty(), parts[0], c);
        assert(Seq::<char>::empty() + parts[0] =~= parts[0]);
        assert(split(Seq::<char>::empty(), c) =~= seq![Seq::<char>::empty()]);
        assert(Seq::<char>::empty() + parts[0] =~= parts[0]);
        assert(split(parts[0], c) =~= parts);
    } else {
        let init = parts.drop_last();
        assert forall|i: int| 0 <= i < init.len() implies !(#[trigger] init[i]).contains(c) by {
            assert(init[i] == parts[i]);
        }
        lemma_split_join(init, c);
        let j = join(init, seq![c]);
        assert(j + seq![c] =~= j.push(c));
        lemma_split_push_sep(j, c);
        assert(!parts.last().contains(c)) by {
            assert(parts[parts.len() - 1] == parts.last());
        }
        lemma_split_append_free(j.push(c), parts.last(), c);
        assert(join(parts, seq![c]) =~= j.push(c) + parts.last());
        assert(Seq::<char>::empty() + parts.last() =~= parts.last());
        assert(split(join(parts, seq![c]), c) =~= parts);
    }
}

/// `str::split` on a character.
pub fn split_chars(s: &[char], c: char) -> (parts: Vec<Vec<char>>)
    ensures
        views(parts@) == split(s@, c),
{
    let mut parts: Vec<Vec<char>> = Vec::new();
    let mut cur: Vec<char> = Vec::new();
    let mut i: usize = 0;
    assert(s@.subrange(0, 0) =~= Seq::<char>::empty());
    assert(views(parts@).push(cur@) =~= split(s@.subrange(0, 0), c));
    while i < s.len()
        invariant
            i <= s.len(),
            views(parts@).push(cur@) == split(s@.subrange(0, i as int), c),
        decreases s.len() - i,
    {
        let ch = s[i];
        let ghost pre = s@.subrange(0, i as int);
        assert(s@.subrange(0, i + 1).drop_last() =~= pre);
        assert(s@.subrange(0, i + 1).last() == ch);
        if ch == c {
            let done = cur;
            parts.push(done);
            cur = Vec::new();
            assert(views(parts@).push(cur@) =~= split(s@.subrange(0, i + 1), c));
        } else {
            cur.push(ch);
            assert(views(parts@).push(cur@) =~= split(s@.subrange(0, i + 1), c));
        }
        i = i + 1;
    }
    parts.push(cur);
    assert(s@.subrange(0, s@.len() as int) =~= s@);
    assert(views(parts@) =~= split(s@, c));
    parts
}

/// Appends all of `src` to `dst`.
pub fn extend_chars(dst: &mut Vec<char>, src: &[char])
    ensures
        final(dst)@ == old(dst)@ + src@,
{
    let mut i: usize = 0;
    let ghost start = dst@;
    while i < src.len()
        invariant
            i <= src.len(),
            dst@ == start + src@.subrange(0, i as int),
        decreases src.len() - i,
    {
        dst.push(src[i]);
        i = i + 1;
        assert(dst@ =~= start + src@.subrange(0, i as int));
    }
    assert(src@.subrange(0, src@.len() as int) =~= src@);
}

/// `[T]::join` with a separator sequence.
pub fn join_chars(parts: &Vec<Vec<char>>, sep: &[char]) -> (r: Vec<char>)
    ensures
        r@ == join(views(parts@), sep@),
{
    let mut r: Vec<char> = Vec::new();
    let mut i: usize = 0;
    while i < parts.len()
        invariant
            i <= parts.len(),
            r@ == join(views(parts@).subrange(0, i as int), sep@),
        decreases parts.len() - i,
    {
        let ghost pre = views(parts@).subrange(0, i as int);
        assert(views(parts@).subrange(0, i + 1).drop_last() =~= pre);
        if i > 0 {
            extend_chars(&mut r, sep);
        }
        extend_chars(&mut r, parts[i].as_slice());
        if i == 0 {
            assert(views(parts@).subrange(0, 1) =~= seq![parts@[0]@]);
            assert(r@ =~= parts@[0]@);
        }
        i = i + 1;
        assert(r@ =~= join(views(parts@).subrange(0, i as int), sep@));
    }
    assert(views(parts@).subrange(0, parts.len() as int) =~= views(parts@));
    r
}

/// `str::trim_end_matches` with a single character.
pub fn trim_end_chars(s: &[char], c: char) -> (r: Vec<char>)
    ensures
        r@ == trim_end(s@, c),
{
    let mut n: usize = s.len();
    assert(s@.subrange(0, s@.len() as int) =~= s@);
    while n > 0 && s[n - 1] == c
        invariant
            n <= s.len(),
            trim_end(s@.subrange(0, n as int), c) == trim_end(s@, c),
        decreases n,
    {
        assert(s@.subrange(0, n as int).drop_last() =~= s@.subrange(0, n - 1));
        n = n - 1;
    }
    let r = slice_to_vec(s, 0, n);
    r
}

/// `str::trim_start_matches` with a single character.
pub fn trim_start_chars(s: &[char], c: char) -> (r: Vec<char>)
    ensures
        r@ == trim_start(s@, c),
{
    let mut k: usize = 0;
    assert(s@.subrange(0, s@.len() as int) =~= s@);
    while k < s.len() && s[k] == c
        invariant
            k <= s.len(),
            trim_start(s@.subrange(k as int, s@.len() as int), c) == trim_start(s@, c),
        decreases s.len() - k,
    {
        assert(s@.subrange(k as int, s@.len() as int).drop_first()
            =~= s@.subrange(k + 1, s@.len() as int));
        k = k + 1;
    }
    let r = slice_to_vec(s, k, s.len());
    r
}

/// A copy of `s[from..to]`.
pub fn slice_to_vec(s: &[char], from: usize, to: usize) -> (r: Vec<char>)
    requires
        from <= to <= s.len(),
    ensures
        r@ == s@.subrange(from as int, to as int),
{
    let mut r: Vec<char> = Vec::new();
    let mut i: usize = from;
    while i < to
        invariant
            from <= i <= to <= s.len(),
            r@ == s@.subrange(from as int, i as int),
        decreases to - i,
    {
        r.push(s[i]);
        i = i + 1;
        assert(r@ =~= s@.subrange(from as int, i as int));
    }
    r
}

/// `str::replace` of one character by another.
pub fn replace_chars(s: &[char], from: char, to: char) -> (r: Vec<char>)
    ensures
        r@ == replace_char(s@, from, to),
{
    let mut r: Vec<char> = Vec::new();
    let mut i: usize = 0;
    while i < s.len()
        invariant
            i <= s.len(),
            r@ == replace_char(s@.subrange(0, i as int), from, to),
        decreases s.len() - i,
    {
        if s[i] == from {
            r.push(to);
        } else {
            r.push(s[i]);
        }
        i = i + 1;
        assert(r@ =~= replace_char(s@.subrange(0, i as int), from, to));
    }
    assert(s@.subrange(0, s@.len() as int) =~= s@);
    r
}

/// `str::starts_with`.
pub fn starts_with_chars(s: &[char], p: &[char]) -> (b: bool)
    ensures
        b == starts_with(s@, p@),
{
    if p.len() > s.len() {
        return false;
    }
    let mut i: usize = 0;
    while i < p.len()
        invariant
            p.len() <= s.len(),
            i <= p.len(),
            forall|k: int| 0 <= k < i ==> s@[k] == p@[k],
        decreases p.len() - i,
    {
        if s[i] != p[i] {
            assert(s@.subrange(0, p@.len() as int)[i as int] != p@[i as int]);
            return false;
        }
        i = i + 1;
    }
    assert(s@.subrange(0, p@.len() as int) =~= p@);
    true
}

/// Whether two character sequences are equal.
pub fn chars_eq(a: &[char], b: &[char]) -> (r: bool)
    ensures
        r == (a@ == b@),
{
    if a.len() != b.len() {
        return false;
    }
    let mut i: usize = 0;
    while i < a.len()
        invariant
            a.len() == b.len(),
            i <= a.len(),
            forall|k: int| 0 <= k < i ==> a@[k] == b@[k],
        decreases a.len() - i,
    {
        if a[i] != b[i] {
            return false;
        }
        i = i + 1;
    }
    assert(a@ =~= b@);
    true
}

/// Whether a character occurs in a sequence.
pub fn contains_char(s: &[char], c: char) -> (r: bool)
    ensures
        r == s@.contains(c),
{
    let mut i: usize = 0;
    while i < s.len()
        invariant
            i <= s.len(),
            forall|k: int| 0 <= k < i ==> s@[k] != c,
        decreases s.len() - i,
    {
        if s[i] == c {
            return true;
        }
        i = i + 1;
    }
    false
}


/// The character sequences held by a sequence of strings.
pub open spec fn str_views(v: Seq<String>) -> Seq<Seq<char>> {
    Seq::new(v.len(), |i: int| v[i]@)
}

/// The index of the last occurrence of `c` (`str::rfind`).
pub open spec fn last_index_of(s: Seq<char>, c: char) -> Option<int>
    decreases s.len(),
{
    if s.len() == 0 {
        None
    } else if s.last() == c {
        Some(s.len() - 1)
    } else {
        last_index_of(s.drop_last(), c)
    }
}

/// The last index of `c` lies inside `s` and holds `c`.
pub proof fn lemma_last_index_of(s: Seq<char>, c: char)
    ensures
        last_index_of(s, c) matches Some(i) ==> 0 <= i < s.len() && s[i] == c,
        last_index_of(s, c) is None ==> !s.contains(c),
    decreases s.len(),
{
    if s.len() > 0 && s.last() != c {
        lemma_last_index_of(s.drop_last(), c);
        if s.contains(c) {
            let k = choose|k: int| 0 <= k < s.len() && s[k] == c;
            assert(s.drop_last()[k] == c);
        }
    }
}

/// `str::rfind` on a character.
pub fn rfind_char(s: &[char], c: char) -> (r: Option<usize>)
    ensures
        match last_index_of(s@, c) {
            Some(i) => r matches Some(j) && j == i,
            None => r is None,
        },
        r matches Some(i) ==> i < s.len(),
{
    proof {
        lemma_last_index_of(s@, c);
    }
    let mut n: usize = s.len();
    assert(s@.subrange(0, s@.len() as int) =~= s@);
    while n > 0
        invariant
            n <= s.len(),
            last_index_of(s@.subrange(0, n as int), c) == last_index_of(s@, c),
        decreases n,
    {
        if s[n - 1] == c {
            return Some(n - 1);
        }
        assert(s@.subrange(0, n as int).drop_last() =~= s@.subrange(0, n - 1));
        n = n - 1;
    }
    None
}

/// Whether a string with the given characters is among `v`.
pub fn contains_string(v: &Vec<String>, s: &String) -> (r: bool)
    ensures
        r == str_views(v@).contains(s@),
{
    let mut i: usize = 0;
    while i < v.len()
        invariant
            i <= v.len(),
            forall|k: int| 0 <= k < i ==> v@[k]@ != s@,
        decreases v.len() - i,
    {
        if v[i] == *s {
            assert(str_views(v@)[i as int] == s@);
            return true;
        }
        i = i + 1;
    }
    assert(!str_views(v@).contains(s@)) by {
        if str_views(v@).contains(s@) {
            let k = choose|k: int| 0 <= k < str_views(v@).len() && str_views(v@)[k] == s@;
            assert(v@[k]@ == s@);
        }
    }
    false
}

} // verus!

verus! {

/// Appends the characters of `s` to `dst`.
pub fn append_str(dst: &mut Vec<char>, s: &str)
    ensures
        final(dst)@ == old(dst)@ + s@,
{
    let c = chars_of(s);
    extend_chars(dst, c.as_slice());
}

/// The non-empty pieces of a sequence of pieces, in order.
pub open spec fn nonempty_pieces(parts: Seq<Seq<char>>) -> Seq<Seq<char>>
    decreases parts.len(),
{
    if parts.len() == 0 {
        Seq::<Seq<char>>::empty()
    } else if parts.last().len() == 0 {
        nonempty_pieces(parts.drop_last())
    } else {
        nonempty_pieces(parts.drop_last()).push(parts.last())
    }
}

/// Lexicographic order of character sequences by code point. For UTF-8 text
/// this is the byte order in which `String`s compare.
pub open spec fn seq_lt(a: Seq<char>, b: Seq<char>) -> bool
    decreases a.len(),
{
    if a.len() == 0 {
        b.len() > 0
    } else if b.len() == 0 {
        false
    } else if a[0] != b[0] {
        (a[0] as int) < (b[0] as int)
    } else {
        seq_lt(a.drop_first(), b.drop_first())
    }
}

/// Strictly increasing in `seq_lt`: sorted and free of duplicates.
pub open spec fn strictly_sorted(s: Seq<Seq<char>>) -> bool {
    forall|i: int, j: int| 0 <= i < j < s.len() ==> seq_lt(#[trigger] s[i], #[trigger] s[j])
}

/// `seq_lt` is irreflexive.
pub proof fn lemma_seq_lt_irrefl(a: Seq<char>)
    ensures
        !seq_lt(a, a),
    decreases a.len(),
{
    if a.len() > 0 {
        lemma_seq_lt_irrefl(a.drop_first());
    }
}

/// `seq_lt` is asymmetric.
pub proof fn lemma_seq_lt_asym(a: Seq<char>, b: Seq<char>)
    ensures
        seq_lt(a, b) ==> !seq_lt(b, a),
    decreases a.len(),
{
    if a.len() > 0 && b.len() > 0 {
        lemma_seq_lt_asym(a.drop_first(), b.drop_first());
    }
}

/// `seq_lt` is transitive.
pub proof fn lemma_seq_lt_trans(a: Seq<char>, b: Seq<char>, c: Seq<char>)
    ensures
        seq_lt(a, b) && seq_lt(b, c) ==> seq_lt(a, c),
    decreases a.len(),
{
    if a.len() > 0 && b.len() > 0 && c.len() > 0 {
        lemma_seq_lt_trans(a.drop_first(), b.drop_first(), c.drop_first());
    }
}

/// Two distinct sequences are ordered one way or the other.
pub proof fn lemma_seq_lt_total(a: Seq<char>, b: Seq<char>)
    ensures
        a != b ==> seq_lt(a, b) || seq_lt(b, a),
    decreases a.len(),
{
    if a.len() > 0 && b.len() > 0 {
        lemma_seq_lt_total(a.drop_first(), b.drop_first());
        if a[0] == b[0] && a != b {
            assert(a.drop_first() != b.drop_first()) by {
                if a.drop_first() == b.drop_first() {
                    assert(a =~= seq![a[0]] + a.drop_first());
                    assert(b =~= seq![b[0]] + b.drop_first());
                }
            }
        }
    }
    if a.len() == 0 && b.len() == 0 {
        assert(a =~= b);
    }
}

/// Whether `a` comes strictly before `b` (`String` ordering).
pub fn chars_lt(a: &[char], b: &[char]) -> (r: bool)
    ensures
        r == seq_lt(a@, b@),
{
    let mut i: usize = 0;
    assert(a@.subrange(0, a@.len() as int) =~= a@);
    assert(b@.subrange(0, b@.len() as int) =~= b@);
    while i < a.len() && i < b.len()
        invariant
            i <= a.len(),
            i <= b.len(),
            a@.subrange(0, i as int) == b@.subrange(0, i as int),
            seq_lt(a@, b@) == seq_lt(a@.subrange(i as int, a@.len() as int), b@.subrange(
                i as int,
                b@.len() as int,
            )),
        decreases a.len() - i,
    {
        let x = a[i];
        let y = b[i];
        if x != y {
            return x < y;
        }
        assert(a@.subrange(i as int, a@.len() as int).drop_first() =~= a@.subrange(
            i + 1,
            a@.len() as int,
        ));
        assert(b@.subrange(i as int, b@.len() as int).drop_first() =~= b@.subrange(
            i + 1,
            b@.len() as int,
        ));
        assert(a@.subrange(0, i + 1) =~= a@.subrange(0, i as int).push(a@[i as int]));
        assert(b@.subrange(0, i + 1) =~= b@.subrange(0, i as int).push(b@[i as int]));
        i = i + 1;
    }
    i < b.len()
}

/// Inserts `s` into a strictly sorted vector of strings, keeping it strictly
/// sorted; a string already present is not added again.
pub fn insert_sorted_unique(v: &mut Vec<String>, s: String)
    requires
        strictly_sorted(str_views(old(v)@)),
    ensures
        strictly_sorted(str_views(final(v)@)),
        str_views(final(v)@).to_set() == str_views(old(v)@).to_set().insert(s@),
{
    let sc = chars_of(s.as_str());
    let mut k: usize = 0;
    while k < v.len()
        invariant
            k <= v.len(),
            sc@ == s@,
            strictly_sorted(str_views(v@)),
            forall|i: int| 0 <= i < k ==> seq_lt(#[trigger] v@[i]@, s@),
        ensures
            k <= v.len(),
            strictly_sorted(str_views(v@)),
            forall|i: int| 0 <= i < k ==> seq_lt(#[trigger] v@[i]@, s@),
            k < v.len() ==> !seq_lt(v@[k as int]@, s@),
        decreases v.len() - k,
    {
        let vc = chars_of(v[k].as_str());
        if !chars_lt(vc.as_slice(), sc.as_slice()) {
            break;
        }
        k = k + 1;
    }
    let ghost before = v@;
    let ghost sv = str_views(before);
    if k < v.len() && v[k] == s {
        assert(sv.to_set().insert(s@) =~= sv.to_set()) by {
            assert(sv[k as int] == s@);
        }
        return;
    }
    proof {
        if k < before.len() {
            lemma_seq_lt_total(before[k as int]@, s@);
        }
    }
    v.insert(k, s);
    assert(str_views(v@) =~= sv.insert(k as int, s@));
    assert(strictly_sorted(str_views(v@))) by {
        assert forall|i: int, j: int| 0 <= i < j < str_views(v@).len() implies seq_lt(
            #[trigger] str_views(v@)[i],
            #[trigger] str_views(v@)[j],
        ) by {
            if j < k {
                assert(str_views(v@)[i] == sv[i] && str_views(v@)[j] == sv[j]);
            } else if j == k {
                assert(str_views(v@)[i] == sv[i]);
            } else if i == k {
                assert(str_views(v@)[j] == sv[j - 1]);
                if j - 1 > k {
                    assert(seq_lt(sv[k as int], sv[j - 1]));
                    lemma_seq_lt_trans(s@, sv[k as int], sv[j - 1]);
                }
            } else if i < k {
                assert(str_views(v@)[j] == sv[j - 1]);
                assert(str_views(v@)[i] == sv[i]);
            } else {
                assert(str_views(v@)[j] == sv[j - 1]);
                assert(str_views(v@)[i] == sv[i - 1]);
            }
        }
    }
    assert(str_views(v@).to_set() =~= sv.to_set().insert(s@)) by {
        assert forall|p: Seq<char>| str_views(v@).to_set().contains(p) implies sv.to_set().insert(
            s@,
        ).contains(p) by {
            let i = choose|i: int| 0 <= i < str_views(v@).len() && str_views(v@)[i] == p;
            if i < k {
                assert(sv[i] == p);
            } else if i > k {
                assert(sv[i - 1] == p);
            }
        }
        assert forall|p: Seq<char>| sv.to_set().insert(s@).contains(p) implies str_views(
            v@,
        ).to_set().contains(p) by {
            if p == s@ {
                assert(str_views(v@)[k as int] == p);
            } else {
                let i = choose|i: int| 0 <= i < sv.len() && sv[i] == p;
                if i < k {
                    assert(str_views(v@)[i] == p);
                } else {
                    assert(str_views(v@)[i + 1] == p);
                }
            }
        }
    }
}

} // verus!

verus! {

/// Whether `p` occurs in `s` as a contiguous piece (`str::contains`).
pub open spec fn contains_seq(s: Seq<char>, p: Seq<char>) -> bool {
    exists|i: int| 0 <= i && i + p.len() <= s.len() && #[trigger] s.subrange(i, i + p.len()) == p
}

/// Whether `p` occurs in `s` as a contiguous piece.
pub fn contains_str(s: &str, p: &str) -> (r: bool)
    ensures
        r == contains_seq(s@, p@),
{
    let sc = chars_of(s);
    let pc = chars_of(p);
    if pc.len() > sc.len() {
        assert(!contains_seq(s@, p@));
        return false;
    }
    let last = sc.len() - pc.len();
    let mut i: usize = 0;
    loop
        invariant
            sc@ == s@,
            pc@ == p@,
            last == sc.len() - pc.len(),
            i <= last,
            forall|j: int| 0 <= j < i ==> #[trigger] s@.subrange(j, j + p@.len()) != p@,
        ensures
            forall|j: int| 0 <= j <= last ==> #[trigger] s@.subrange(j, j + p@.len()) != p@,
        decreases last - i,
    {
        let mut k: usize = 0;
        let mut same = true;
        assert(s@.subrange(i as int, i as int) =~= p@.subrange(0, 0));
        while k < pc.len()
            invariant
                sc@ == s@,
                pc@ == p@,
                i + pc.len() <= sc.len(),
                k <= pc.len(),
                same == (s@.subrange(i as int, i + k) == p@.subrange(0, k as int)),
            decreases pc.len() - k,
        {
            assert(s@.subrange(i as int, i + k + 1) =~= s@.subrange(i as int, i + k).push(s@[i + k]));
            assert(p@.subrange(0, k + 1) =~= p@.subrange(0, k as int).push(p@[k as int]));
            proof {
                if s@.subrange(i as int, i + k + 1) == p@.subrange(0, k + 1) {
                    assert(s@.subrange(i as int, i + k) =~= s@.subrange(i as int, i + k + 1).drop_last());
                    assert(p@.subrange(0, k as int) =~= p@.subrange(0, k + 1).drop_last());
                    assert(s@.subrange(i as int, i + k + 1)[k as int] == p@.subrange(0, k + 1)[k as int]);
                }
            }
            same = same && sc[i + k] == pc[k];
            k = k + 1;
        }
        assert(p@.subrange(0, p@.len() as int) =~= p@);
        if same {
            return true;
        }
        if i == last {
            break;
        }
        i = i + 1;
    }
    assert(!contains_seq(s@, p@)) by {
        if contains_seq(s@, p@) {
            let j = choose|j: int| 0 <= j && j + p@.len() <= s@.len() && #[trigger] s@.subrange(j, j + p@.len()) == p@;
            assert(j <= last);
        }
    }
    false
}

} // verus!

verus! {

/// Unicode white space (`char::is_whitespace`).
pub open spec fn is_ws(c: char) -> bool {
    ('\u{9}' <= c && c <= '\u{d}') || c == ' ' || c == '\u{85}' || c == '\u{a0}' || c == '\u{1680}'
        || ('\u{2000}' <= c && c <= '\u{200a}') || c == '\u{2028}' || c == '\u{2029}' || c
        == '\u{202f}' || c == '\u{205f}' || c == '\u{3000}'
}

/// Whether a character is Unicode white space.
pub fn is_ws_char(c: char) -> (r: bool)
    ensures
        r == is_ws(c),
{
    ('\u{9}' <= c && c <= '\u{d}') || c == ' ' || c == '\u{85}' || c == '\u{a0}' || c == '\u{1680}'
        || ('\u{2000}' <= c && c <= '\u{200a}') || c == '\u{2028}' || c == '\u{2029}' || c
        == '\u{202f}' || c == '\u{205f}' || c == '\u{3000}'
}

/// The text without leading and trailing white space (`str::trim`).
pub open spec fn trim_ws(s: Seq<char>) -> Seq<char> {
    let start = leading_ws(s);
    let end = s.len() - trailing_ws(s.subrange(start as int, s.len() as int));
    s.subrange(start as int, end)
}

/// The number of white-space characters at the start.
pub open spec fn leading_ws(s: Seq<char>) -> nat
    decreases s.len(),
{
    if s.len() > 0 && is_ws(s[0]) {
        1 + leading_ws(s.drop_first())
    } else {
        0
    }
}

/// The number of white-space characters at the end.
pub open spec fn trailing_ws(s: Seq<char>) -> nat
    decreases s.len(),
{
    if s.len() > 0 && is_ws(s.last()) {
        1 + trailing_ws(s.drop_last())
    } else {
        0
    }
}

pub proof fn lemma_leading_ws_bound(s: Seq<char>)
    ensures
        leading_ws(s) <= s.len(),
    decreases s.len(),
{
    if s.len() > 0 && is_ws(s[0]) {
        lemma_leading_ws_bound(s.drop_first());
    }
}

pub proof fn lemma_trailing_ws_bound(s: Seq<char>)
    ensures
        trailing_ws(s) <= s.len(),
    decreases s.len(),
{
    if s.len() > 0 && is_ws(s.last()) {
        lemma_trailing_ws_bound(s.drop_last());
    }
}

/// The text without leading and trailing white space.
pub fn trim_ws_chars(s: &[char]) -> (r: Vec<char>)
    ensures
        r@ == trim_ws(s@),
{
    let mut start: usize = 0;
    assert(s@.subrange(0, s@.len() as int) =~= s@);
    while start < s.len() && is_ws_char(s[start])
        invariant
            start <= s.len(),
            start + leading_ws(s@.subrange(start as int, s@.len() as int)) == leading_ws(s@),
        decreases s.len() - start,
    {
        assert(s@.subrange(start as int, s@.len() as int).drop_first() =~= s@.subrange(
            start + 1,
            s@.len() as int,
        ));
        start = start + 1;
    }
    proof {
        if start < s.len() {
            assert(s@.subrange(start as int, s@.len() as int)[0] == s@[start as int]);
        }
    }
    let ghost mid = s@.subrange(start as int, s@.len() as int);
    let mut end: usize = s.len();
    assert(mid.subrange(0, mid.len() as int) =~= mid);
    while end > start && is_ws_char(s[end - 1])
        invariant
            start <= end <= s.len(),
            mid == s@.subrange(start as int, s@.len() as int),
            (s.len() - end) + trailing_ws(mid.subrange(0, end - start)) == trailing_ws(mid),
        decreases end,
    {
        assert(mid.subrange(0, end - start).drop_last() =~= mid.subrange(0, end - start - 1));
        assert(mid.subrange(0, end - start).last() == s@[end - 1]);
        end = end - 1;
    }
    proof {
        if end > start {
            assert(mid.subrange(0, end - start).last() == s@[end - 1]);
        }
    }
    slice_to_vec(s, start, end)
}

} // verus!

verus! {

/// The first position at or after `start` where `p` occurs in `s`.
pub open spec fn find_from(s: Seq<char>, p: Seq<char>, start: int) -> Option<int>
    decreases s.len() + 1 - start,
{
    if start < 0 || start + p.len() > s.len() {
        None
    } else if s.subrange(start, start + p.len()) == p {
        Some(start)
    } else {
        find_from(s, p, start + 1)
    }
}

/// The second piece of `s` split at `p` (`str::split(p).nth(1)`): the text
/// between the first and the second occurrence of `p`, or up to the end.
pub open spec fn second_piece(s: Seq<char>, p: Seq<char>) -> Option<Seq<char>> {
    match find_from(s, p, 0) {
        None => None,
        Some(i) => {
            let st = i + p.len();
            match find_from(s, p, st) {
                Some(j) => Some(s.subrange(st, j)),
                None => Some(s.subrange(st, s.len() as int)),
            }
        },
    }
}

/// A found position lies inside the text, at or after the start.
pub proof fn lemma_find_from_bounds(s: Seq<char>, p: Seq<char>, start: int)
    ensures
        find_from(s, p, start) matches Some(i) ==> start <= i && i + p.len() <= s.len(),
    decreases s.len() + 1 - start,
{
    if !(start < 0 || start + p.len() > s.len()) && s.subrange(start, start + p.len()) != p {
        lemma_find_from_bounds(s, p, start + 1);
    }
}

/// The first position at or after `start` where `p` occurs in `s`.
pub fn find_chars_from(s: &[char], p: &[char], start: usize) -> (r: Option<usize>)
    ensures
        match find_from(s@, p@, start as int) {
            Some(i) => r == Some(i as usize),
            None => r is None,
        },
        r matches Some(j) ==> start <= j && j + p@.len() <= s@.len(),
{
    proof {
        lemma_find_from_bounds(s@, p@, start as int);
    }
    if p.len() > s.len() || start > s.len() - p.len() {
        return None;
    }
    let mut i: usize = start;
    while i <= s.len() - p.len()
        invariant
            p.len() <= s.len(),
            start <= i,
            i <= s.len() - p.len() + 1,
            find_from(s@, p@, i as int) == find_from(s@, p@, start as int),
        decreases s.len() - p.len() + 1 - i,
    {
        let mut k: usize = 0;
        let mut same = true;
        assert(s@.subrange(i as int, i as int) =~= p@.subrange(0, 0));
        while k < p.len()
            invariant
                i + p.len() <= s.len(),
                k <= p.len(),
                same == (s@.subrange(i as int, i + k) == p@.subrange(0, k as int)),
            decreases p.len() - k,
        {
            assert(s@.subrange(i as int, i + k + 1) =~= s@.subrange(i as int, i + k).push(s@[i + k]));
            assert(p@.subrange(0, k + 1) =~= p@.subrange(0, k as int).push(p@[k as int]));
            proof {
                if s@.subrange(i as int, i + k + 1) == p@.subrange(0, k + 1) {
                    assert(s@.subrange(i as int, i + k) =~= s@.subrange(i as int, i + k + 1).drop_last());
                    assert(p@.subrange(0, k as int) =~= p@.subrange(0, k + 1).drop_last());
                    assert(s@.subrange(i as int, i + k + 1)[k as int] == p@.subrange(0, k + 1)[k as int]);
                }
            }
            same = same && s[i + k] == p[k];
            k = k + 1;
        }
        assert(p@.subrange(0, p@.len() as int) =~= p@);
        if same {
            return Some(i);
        }
        if i == s.len() - p.len() {
            assert(find_from(s@, p@, i + 1) is None);
            return None;
        }
        i = i + 1;
    }
    None
}

/// The second piece of `s` split at the non-empty pattern `p`.
pub fn second_piece_chars(s: &[char], p: &[char]) -> (r: Option<Vec<char>>)
    ensures
        match second_piece(s@, p@) {
            Some(x) => r matches Some(v) && v@ == x,
            None => r is None,
        },
{
    proof {
        lemma_find_from_bounds(s@, p@, 0);
    }
    let n = s.len();
    let first = find_chars_from(s, p, 0);
    match first {
        None => None,
        Some(i) => {
            assert(i + p@.len() <= s@.len());
            let st = i + p.len();
            proof {
                lemma_find_from_bounds(s@, p@, st as int);
            }
            let second = find_chars_from(s, p, st);
            match second {
                Some(j) => Some(slice_to_vec(s, st, j)),
                None => Some(slice_to_vec(s, st, n)),
            }
        },
    }
}

} // verus!

verus! {

/// Joining the pieces of a split with the separator gives the text back.
pub proof fn lemma_join_split(s: Seq<char>, c: char)
    ensures
        join(split(s, c), seq![c]) == s,
    decreases s.len(),
{
    if s.len() == 0 {
        assert(join(split(s, c), seq![c]) == split(s, c)[0]);
    } else {
        let x = s.drop_last();
        lemma_join_split(x, c);
        lemma_split_nonempty(x, c);
        let sx = split(x, c);
        if s.last() == c {
            let sp = sx.push(Seq::<char>::empty());
            assert(sp.drop_last() =~= sx);
            assert(join(sp, seq![c]) == join(sx, seq![c]) + seq![c] + Seq::<char>::empty());
            assert(x + seq![c] + Seq::<char>::empty() =~= s);
        } else {
            let sp = sx.update(sx.len() - 1, sx.last().push(s.last()));
            if sx.len() == 1 {
                assert(join(sx, seq![c]) == sx[0]);
                assert(sp[0] == sx.last().push(s.last()));
                assert(join(sp, seq![c]) == sp[0]);
                assert(x.push(s.last()) =~= s);
            } else {
                assert(sp.drop_last() =~= sx.drop_last());
                assert(join(sp, seq![c]) == join(sx.drop_last(), seq![c]) + seq![c] + sx.last().push(s.last()));
                assert(join(sx, seq![c]) == join(sx.drop_last(), seq![c]) + seq![c] + sx.last());
                assert(join(sx.drop_last(), seq![c]) + seq![c] + sx.last().push(s.last()) =~= (join(
                    sx.drop_last(),
                    seq![c],
                ) + seq![c] + sx.last()).push(s.last()));
                assert(x.push(s.last()) =~= s);
            }
        }
    }
}

/// A text that holds the separator splits into at least two pieces.
pub proof fn lemma_split_two_pieces(s: Seq<char>, c: char)
    requires
        s.contains(c),
    ensures
        split(s, c).len() >= 2,
    decreases s.len(),
{
    let x = s.drop_last();
    lemma_split_nonempty(x, c);
    if s.last() != c {
        let k = choose|k: int| 0 <= k < s.len() && s[k] == c;
        assert(k < s.len() - 1) by {
            if k == s.len() - 1 {
                assert(s[k] == s.last());
            }
        }
        assert(x[k] == c);
        lemma_split_two_pieces(x, c);
    }
}

} // verus!
