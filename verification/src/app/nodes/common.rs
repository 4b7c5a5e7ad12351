//! Helpers shared by the node services: recognising search queries and
//! planning how many pages a listing takes.

use vstd::prelude::*;
use crate::text::{chars_of, contains_char};

verus! {

/// The number of nodes requested per page when listing or searching.
pub const PAGE_SIZE: u64 = 500;

/// Walks node listings and searches page by page.
#[derive(Debug, Clone, Copy, Default)]
pub struct NodesPathPaginationHelper;

impl NodesPathPaginationHelper {
    pub fn new() -> (h: Self)
        ensures
            h == NodesPathPaginationHelper,
    {
        NodesPathPaginationHelper
    }
}

/// Whether a remote name is a search query (it holds a `*`).
pub fn is_search_query(query: &str) -> (b: bool)
    ensures
        b == query@.contains('*'),
{
    let c = chars_of(query);
    contains_char(c.as_slice(), '*')
}

/// The offsets of the pages that follow the first one, for a listing of
/// `total` items in pages of `page_size`: none when the first page holds
/// everything, else every multiple of `page_size` up to `total`.
pub open spec fn follow_up_offsets(total: u64, page_size: u64) -> Seq<u64> {
    if total > page_size {
        Seq::new((total / page_size) as nat, |k: int| ((k + 1) * page_size) as u64)
    } else {
        Seq::<u64>::empty()
    }
}

/// The offsets at which the pages after the first are requested.
pub fn page_offsets(total: u64, page_size: u64) -> (r: Vec<u64>)
    requires
        page_size > 0,
        total + page_size <= u64::MAX,
    ensures
        r@ == follow_up_offsets(total, page_size),
{
    let mut r: Vec<u64> = Vec::new();
    if total <= page_size {
        return r;
    }
    let mut offset: u64 = page_size;
    assert(r@.len() == 0);
    assert(offset == (r@.len() + 1) * page_size) by (nonlinear_arith)
        requires
            r@.len() == 0,
            offset == page_size,
    ;
    assert(r@.len() <= total / page_size) by (nonlinear_arith)
        requires
            r@.len() == 0,
            page_size > 0,
    ;
    while offset <= total
        invariant
            page_size > 0,
            total + page_size <= u64::MAX,
            total > page_size,
            offset == (r@.len() + 1) * page_size,
            r@.len() <= total / page_size,
            offset <= total + page_size,
            forall|k: int| 0 <= k < r@.len() ==> #[trigger] r@[k] == ((k + 1) * page_size) as u64,
        decreases total + page_size - offset,
    {
        proof {
            assert(r@.len() + 1 <= total / page_size) by (nonlinear_arith)
                requires
                    (r@.len() + 1) * page_size <= total,
                    page_size > 0,
            ;
        }
        r.push(offset);
        offset = offset + page_size;
        assert(offset == (r@.len() + 1) * page_size) by (nonlinear_arith)
            requires
                offset == (r@.len() - 1 + 1) * page_size + page_size,
        ;
    }
    proof {
        assert(r@.len() == total / page_size) by (nonlinear_arith)
            requires
                (r@.len() + 1) * page_size > total,
                r@.len() <= total / page_size,
                page_size > 0,
        ;
    }
    assert(r@ =~= follow_up_offsets(total, page_size));
    r
}

/// The page of item `i` in a listing paged by `page_size`: the multiple of
/// `page_size` at or below `i` lies among the first `total / page_size`
/// multiples, and every one of those stays within the listing.
pub proof fn lemma_page_of_item(total: u64, page_size: u64, i: int)
    requires
        page_size > 0,
        page_size <= i < total,
    ensures
        1 <= i / (page_size as int) <= total / page_size,
        (i / (page_size as int)) * page_size <= i < (i / (page_size as int)) * page_size + page_size,
{
    let p = page_size as int;
    let t = total as int;
    assert(1 <= i / p <= t / p && (i / p) * p <= i < (i / p) * p + p) by (nonlinear_arith)
        requires
            p > 0,
            p <= i < t,
    {
        assert(i / p >= 1) by {
            vstd::arithmetic::div_mod::lemma_div_is_ordered(p, i, p);
            vstd::arithmetic::div_mod::lemma_div_basics(p);
        }
        vstd::arithmetic::div_mod::lemma_div_is_ordered(i, t, p);
        vstd::arithmetic::div_mod::lemma_fundamental_div_mod(i, p);
        vstd::arithmetic::div_mod::lemma_mod_bound(i, p);
    }
}

/// Whether item `i` of a listing is read by the first page or by the page at
/// one of the given follow-up offsets.
pub open spec fn item_read(offsets: Seq<u64>, page_size: u64, i: int) -> bool {
    i < page_size || exists|k: int| 0 <= k < offsets.len() && #[trigger] offsets[k] <= i < offsets[k] + page_size
}

/// Fetching the first page and then a page at every follow-up offset reads
/// the whole listing: every item below `total` lies in one of those pages,
/// and no page starts past the end of the listing.
pub proof fn lemma_pages_cover_listing(total: u64, page_size: u64)
    requires
        page_size > 0,
    ensures
        forall|i: int| 0 <= i < total ==> #[trigger] item_read(follow_up_offsets(total, page_size), page_size, i),
        forall|k: int|
            0 <= k < follow_up_offsets(total, page_size).len() ==> #[trigger] follow_up_offsets(total, page_size)[k]
                <= total,
{
    let offs = follow_up_offsets(total, page_size);
    assert forall|i: int| 0 <= i < total implies #[trigger] item_read(offs, page_size, i) by {
        if i >= page_size {
            lemma_page_of_item(total, page_size, i);
            let k = i / (page_size as int) - 1;
            assert(offs[k] == ((k + 1) * page_size) as u64);
        }
    }
    assert forall|k: int| 0 <= k < offs.len() implies #[trigger] offs[k] <= total by {
        let p = page_size as int;
        let t = total as int;
        assert((k + 1) * p <= t) by (nonlinear_arith)
            requires
                p > 0,
                0 <= k < t / p,
        {
            vstd::arithmetic::div_mod::lemma_fundamental_div_mod(t, p);
            vstd::arithmetic::mul::lemma_mul_inequality(k + 1, t / p, p);
        }
        assert(offs[k] == ((k + 1) * page_size) as u64);
    }
}

} // verus!
