//! Laws of the base url of a target: every target on one host shares the
//! base url of the host, so the stored credentials of a host are found from
//! any path on it.

use vstd::prelude::*;
use crate::app::auth::parse_base_url_spec;
use crate::app::config::service::config_url_spec;
use crate::text::{
    is_ws, leading_ws, lemma_split_append_free, lemma_split_push_sep, split, starts_with, trailing_ws, trim_end,
    trim_ws,
};

verus! {

/// Trimming trailing separators keeps a start of the text that reaches past
/// every other character.
proof fn lemma_trim_end_keeps(s: Seq<char>, c: char, i: int)
    requires
        0 <= i < s.len(),
        s[i] != c,
    ensures
        trim_end(s, c).len() > i,
        trim_end(s, c).len() <= s.len(),
        trim_end(s, c) == s.subrange(0, trim_end(s, c).len() as int),
    decreases s.len(),
{
    if s.last() == c {
        let d = s.drop_last();
        lemma_trim_end_keeps(d, c, i);
        assert(d.subrange(0, trim_end(d, c).len() as int) =~= s.subrange(0, trim_end(d, c).len() as int));
    } else {
        assert(s.subrange(0, s.len() as int) =~= s);
    }
}

/// Trimming trailing separators after a fixed start leaves that start alone
/// when the rest does not vanish.
proof fn lemma_trim_end_after(a: Seq<char>, t: Seq<char>, c: char)
    requires
        trim_end(t, c).len() > 0,
    ensures
        trim_end(a + t, c) == a + trim_end(t, c),
    decreases t.len(),
{
    if t.len() > 0 && t.last() == c {
        assert((a + t).drop_last() =~= a + t.drop_last());
        lemma_trim_end_after(a, t.drop_last(), c);
    } else {
        assert(t.len() > 0);
        assert((a + t).last() == t.last());
    }
}

/// Appending text leaves the first piece of a split that already has two.
proof fn lemma_split_first(x: Seq<char>, y: Seq<char>, c: char)
    requires
        split(x, c).len() >= 2,
    ensures
        split(x + y, c).len() >= 2,
        split(x + y, c)[0] == split(x, c)[0],
    decreases y.len(),
{
    if y.len() == 0 {
        assert(x + y =~= x);
    } else {
        let y0 = y.drop_last();
        lemma_split_first(x, y0, c);
        assert((x + y).drop_last() =~= x + y0);
        assert((x + y).last() == y.last());
    }
}

/// A host without slashes, a slash and anything after: the first piece is
/// the host.
proof fn lemma_split_host(h: Seq<char>, q: Seq<char>)
    requires
        !h.contains('/'),
    ensures
        split(h + seq!['/'] + q, '/').len() >= 2,
        split(h + seq!['/'] + q, '/')[0] == h,
{
    lemma_split_append_free(Seq::<char>::empty(), h, '/');
    assert(Seq::<char>::empty() + h =~= h);
    assert(split(Seq::<char>::empty(), '/') == seq![Seq::<char>::empty()]);
    assert(split(h, '/') =~= seq![h]);
    lemma_split_push_sep(h, '/');
    assert(split(h.push('/'), '/') =~= seq![h, Seq::<char>::empty()]);
    lemma_split_first(h.push('/'), q, '/');
    assert(h.push('/') + q =~= h + seq!['/'] + q);
}

/// The base url of a target that is a host, or a host followed by a slash
/// and more, when the host is neither of the scheme names and the target
/// starts and ends with no white space.
proof fn lemma_host_target(h: Seq<char>, t: Seq<char>)
    requires
        h.len() > 0,
        !h.contains('/'),
        h != "http:"@,
        h != "https:"@,
        t.len() >= h.len(),
        t.subrange(0, h.len() as int) == h,
        t.len() > h.len() ==> t[h.len() as int] == '/',
        !is_ws(t[0]),
        !is_ws(t.last()),
    ensures
        parse_base_url_spec(config_url_spec(t)) == Some("https://"@ + h),
{
    reveal_strlit("https://");
    reveal_strlit("http://");
    reveal_strlit("http:");
    reveal_strlit("https:");
    reveal_strlit("/_");
    let n = h.len() as int;
    assert(t[0] == h[0]);
    assert(leading_ws(t) == 0);
    assert(t.subrange(0, t.len() as int) =~= t);
    assert(trailing_ws(t) == 0);
    assert(trim_ws(t) =~= t);
    assert(forall|i: int| 0 <= i < n ==> t[i] == #[trigger] h[i]) by {
        assert forall|i: int| 0 <= i < n implies t[i] == #[trigger] h[i] by {
            assert(t.subrange(0, n)[i] == t[i]);
        }
    }
    assert(!starts_with(t, "http://"@)) by {
        if starts_with(t, "http://"@) {
            assert(t.subrange(0, 7)[5] == '/');
            if n > 5 {
                assert(h[5] == t[5]);
                assert(h.contains('/'));
            } else if n == 5 {
                assert(h =~= "http:"@) by {
                    assert forall|i: int| 0 <= i < 5 implies h[i] == "http:"@[i] by {
                        assert(t.subrange(0, 7)[i] == t[i]);
                    }
                }
            } else {
                assert(t[n] == '/');
                assert(t.subrange(0, 7)[n] == t[n]);
            }
        }
    }
    assert(!starts_with(t, "https://"@)) by {
        if starts_with(t, "https://"@) {
            assert(t.subrange(0, 8)[6] == '/');
            if n > 6 {
                assert(h[6] == t[6]);
                assert(h.contains('/'));
            } else if n == 6 {
                assert(h =~= "https:"@) by {
                    assert forall|i: int| 0 <= i < 6 implies h[i] == "https:"@[i] by {
                        assert(t.subrange(0, 8)[i] == t[i]);
                    }
                }
            } else {
                assert(t[n] == '/');
                assert(t.subrange(0, 8)[n] == t[n]);
            }
        }
    }
    // the last character of the host is no slash, so trimming keeps the host
    assert(t[n - 1] != '/') by {
        assert(t[n - 1] == h[n - 1]);
        if h[n - 1] == '/' {
            assert(h.contains('/'));
        }
    }
    lemma_trim_end_keeps(t, '/', n - 1);
    let te = trim_end(t, '/');
    let k = te.len() as int;
    lemma_trim_end_after("https://"@, t, '/');
    let u = config_url_spec(t);
    assert(u == "https://"@ + te + "/_"@);
    assert(!starts_with(u, "http://"@)) by {
        if starts_with(u, "http://"@) {
            assert(u.subrange(0, 7)[4] == u[4]);
        }
    }
    assert(u.subrange(0, 8) =~= "https://"@);
    let rest = u.subrange(8, u.len() as int);
    assert(rest =~= te + "/_"@);
    let q = if k == n { seq!['_'] } else { te.subrange(n + 1, k) + "/_"@ };
    assert(rest =~= h + seq!['/'] + q) by {
        if k > n {
            assert(te[n] == t[n]);
            assert(te.subrange(0, n) =~= h) by {
                assert forall|i: int| 0 <= i < n implies te.subrange(0, n)[i] == h[i] by {
                    assert(te[i] == t[i]);
                }
            }
            assert(te =~= te.subrange(0, n) + seq![te[n]] + te.subrange(n + 1, k));
        } else {
            assert(te =~= h) by {
                assert forall|i: int| 0 <= i < n implies te[i] == h[i] by {
                    assert(te[i] == t[i]);
                }
            }
        }
    }
    lemma_split_host(h, q);
}

/// Every target on one host has the base url of the host: the host alone and
/// the host followed by a slash and any path give `https://` and the host, so
/// the refresh token and encryption secret stored for the host are found from
/// any of them. This holds when the host holds no slash, is neither `http:`
/// nor `https:`, and the targets start and end with no white space.
pub proof fn lemma_host_paths_share_base_url(h: Seq<char>, p: Seq<char>)
    requires
        h.len() > 0,
        !h.contains('/'),
        h != "http:"@,
        h != "https:"@,
        !is_ws(h[0]),
        !is_ws(h.last()),
        p.len() > 0 ==> !is_ws(p.last()),
    ensures
        parse_base_url_spec(config_url_spec(h)) == Some("https://"@ + h),
        parse_base_url_spec(config_url_spec(h + seq!['/'] + p)) == Some("https://"@ + h),
{
    assert(h.subrange(0, h.len() as int) =~= h);
    lemma_host_target(h, h);
    let t = h + seq!['/'] + p;
    assert(t.subrange(0, h.len() as int) =~= h);
    assert(t[0] == h[0]);
    assert(!is_ws(t.last())) by {
        if p.len() == 0 {
            assert(t.last() == '/');
        } else {
            assert(t.last() == p.last());
        }
    }
    lemma_host_target(h, t);
}

} // verus!
