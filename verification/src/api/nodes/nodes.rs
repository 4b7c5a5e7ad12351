//! Remote node paths.

use vstd::prelude::*;
use crate::api::errors::DracoonClientError;
use crate::text::{
    chars_of, join, join_chars, lemma_join_split, lemma_split_nonempty, lemma_split_pieces_free,
    lemma_split_two_pieces, split, split_chars, string_of, trim_end, trim_end_chars, views,
};

verus! {

/// A remote path split into its parent path (with a trailing `/`), its last
/// segment (trailing slashes ignored) and its depth below the top level. The
/// root has the parent `/`, an empty name and depth 0.
pub open spec fn parse_node_path_spec(path: Seq<char>) -> (Seq<char>, Seq<char>, u64) {
    if path == seq!['/'] {
        (seq!['/'], Seq::<char>::empty(), 0)
    } else {
        let parts = split(trim_end(path, '/'), '/');
        let depth: u64 = if parts.len() >= 2 {
            (parts.len() - 2) as u64
        } else {
            0
        };
        (join(parts.drop_last(), seq!['/']) + seq!['/'], parts.last(), depth)
    }
}

/// Splits a remote path into parent path, name and depth (see
/// `parse_node_path_spec`). Every path can be split. For a path with a slash
/// before its last segment, parent and name give the path back without
/// trailing slashes, the parent ends in a slash, the name holds none, the
/// depth counts the slashes between segments less one, and a single trailing
/// slash changes nothing.
pub fn parse_node_path(path: &str) -> (r: Result<(String, String, u64), DracoonClientError>)
    ensures
        r matches Ok((parent, name, depth)) && (parent@, name@, depth) == parse_node_path_spec(path@),
        path@ != seq!['/'] && trim_end(path@, '/').contains('/') ==> (r matches Ok((parent, name, depth)) && {
            &&& parent@ + name@ == trim_end(path@, '/')
            &&& parent@.last() == '/'
            &&& !name@.contains('/')
            &&& depth == (split(trim_end(path@, '/'), '/').len() - 2) as u64
            &&& parse_node_path_spec(trim_end(path@, '/').push('/')) == (parent@, name@, depth)
        }),
{
    proof {
        if path@ != seq!['/'] && trim_end(path@, '/').contains('/') {
            lemma_parse_node_path_roundtrip(path@);
        }
    }
    let c = chars_of(path);
    if c.len() == 1 && c[0] == '/' {
        assert(c@ =~= seq!['/']);
        return Ok((string_of(&['/']), String::new(), 0));
    }
    assert(path@ != seq!['/']) by {
        if path@ == seq!['/'] {
            assert(c@.len() == 1 && c@[0] == '/');
        }
    }
    let trimmed = trim_end_chars(c.as_slice(), '/');
    let mut parts = split_chars(trimmed.as_slice(), '/');
    proof {
        lemma_split_nonempty(trimmed@, '/');
    }
    let n = parts.len();
    let depth: u64 = if n >= 2 {
        (n - 2) as u64
    } else {
        0
    };
    let ghost all = views(parts@);
    let last = parts.pop().unwrap();
    assert(views(parts@) =~= all.drop_last());
    let mut parent = join_chars(&parts, &['/']);
    parent.push('/');
    let parent_s = string_of(parent.as_slice());
    let name_s = string_of(last.as_slice());
    proof {
        assert(all.last() == last@);
        assert(['/']@ =~= seq!['/']);
    }
    Ok((parent_s, name_s, depth))
}

/// Trimming trailing characters twice trims nothing more, and what is left
/// does not end with that character.
pub proof fn lemma_trim_end_stable(s: Seq<char>, c: char)
    ensures
        trim_end(trim_end(s, c), c) == trim_end(s, c),
        trim_end(s, c).len() == 0 || trim_end(s, c).last() != c,
    decreases s.len(),
{
    if s.len() > 0 && s.last() == c {
        lemma_trim_end_stable(s.drop_last(), c);
    }
}

/// Trimming never lengthens a text.
pub proof fn lemma_trim_end_len(s: Seq<char>, c: char)
    ensures
        trim_end(s, c).len() <= s.len(),
    decreases s.len(),
{
    if s.len() > 0 && s.last() == c {
        lemma_trim_end_len(s.drop_last(), c);
    }
}

/// A remote path with a slash before its last segment splits into a parent
/// path and a name that give the path back (without trailing slashes): the
/// parent ends in a slash, the name holds none, and the depth counts the
/// slashes between the segments less one.
pub proof fn lemma_parse_node_path_roundtrip(path: Seq<char>)
    requires
        path != seq!['/'],
        trim_end(path, '/').contains('/'),
    ensures
        parse_node_path_spec(path).0 + parse_node_path_spec(path).1 == trim_end(path, '/'),
        parse_node_path_spec(path).0.last() == '/',
        !parse_node_path_spec(path).1.contains('/'),
        parse_node_path_spec(path).2 == (split(trim_end(path, '/'), '/').len() - 2) as u64,
        parse_node_path_spec(trim_end(path, '/').push('/')) == parse_node_path_spec(path),
{
    let t0 = trim_end(path, '/');
    lemma_trim_end_stable(path, '/');
    let tp = t0.push('/');
    assert(tp.drop_last() =~= t0);
    assert(trim_end(tp, '/') == trim_end(t0, '/'));
    assert(tp != seq!['/']) by {
        assert(t0.len() > 0);
    }
    let t = trim_end(path, '/');
    let parts = split(t, '/');
    lemma_split_two_pieces(t, '/');
    lemma_join_split(t, '/');
    lemma_split_pieces_free(t, '/');
    crate::text::lemma_split_len(t, '/');
    lemma_trim_end_len(path, '/');
    assert(parts[parts.len() - 1] == parts.last());
    assert(join(parts, seq!['/']) == join(parts.drop_last(), seq!['/']) + seq!['/'] + parts.last());
}

} // verus!
