//! The groups command: which group a request names, which groups a listing
//! of group members covers, and collecting the users to add to a group, each
//! once, in the order they were named.

use vstd::prelude::*;
use crate::app::nodes::common::{item_read, lemma_page_of_item};
use crate::errors::DcCmdError;
use crate::text::{append_str, chars_eq, chars_of, string_of, trim_ws, trim_ws_chars};

verus! {

/// The ids of `s`, each kept at its first occurrence.
pub open spec fn first_occurrences(s: Seq<u64>) -> Seq<u64>
    decreases s.len(),
{
    if s.len() == 0 {
        Seq::empty()
    } else if first_occurrences(s.drop_last()).contains(s.last()) {
        first_occurrences(s.drop_last())
    } else {
        first_occurrences(s.drop_last()).push(s.last())
    }
}

/// Keeping first occurrences loses no id, adds none and repeats none.
pub proof fn lemma_first_occurrences(s: Seq<u64>)
    ensures
        first_occurrences(s).no_duplicates(),
        forall|x: u64| first_occurrences(s).contains(x) <==> s.contains(x),
    decreases s.len(),
{
    if s.len() > 0 {
        let init = s.drop_last();
        lemma_first_occurrences(init);
        let f = first_occurrences(init);
        assert forall|x: u64| first_occurrences(s).contains(x) <==> s.contains(x) by {
            if s.contains(x) && x != s.last() {
                let k = choose|k: int| 0 <= k < s.len() && s[k] == x;
                assert(k < s.len() - 1) by {
                    if k == s.len() - 1 {
                        assert(s[k] == s.last());
                    }
                }
                assert(init[k] == x);
                assert(init.contains(x));
            }
            if x == s.last() {
                assert(s[s.len() - 1] == x);
            }
            if init.contains(x) {
                let k = choose|k: int| 0 <= k < init.len() && init[k] == x;
                assert(s[k] == x);
            }
            if !f.contains(s.last()) {
                assert(f.push(s.last())[f.len() as int] == s.last());
                if f.push(s.last()).contains(x) {
                    let k = choose|k: int| 0 <= k < f.push(s.last()).len() && f.push(s.last())[k] == x;
                    if k < f.len() {
                        assert(f[k] == x);
                    }
                }
                if f.contains(x) {
                    let k = choose|k: int| 0 <= k < f.len() && f[k] == x;
                    assert(f.push(s.last())[k] == x);
                }
            }
        }
        if !f.contains(s.last()) {
            assert(f.push(s.last()).no_duplicates()) by {
                assert forall|a: int, b: int| 0 <= a < b < f.push(s.last()).len() implies f.push(s.last())[a]
                    != f.push(s.last())[b] by {
                    if b == f.len() {
                        assert(f.push(s.last())[a] == f[a]);
                    } else {
                        assert(f.push(s.last())[a] == f[a] && f.push(s.last())[b] == f[b]);
                    }
                }
            }
        }
    }
}

/// A list of user ids without repetitions, in the order they were added.
#[derive(Debug, Clone)]
pub struct UniqueIds {
    ids: Vec<u64>,
}

impl UniqueIds {
    /// The ids added so far, each once.
    pub closed spec fn view(&self) -> Seq<u64> {
        self.ids@
    }

    /// No id occurs twice.
    pub closed spec fn wf(&self) -> bool {
        self.ids@.no_duplicates()
    }

    pub fn new() -> (u: Self)
        ensures
            u.view() == Seq::<u64>::empty(),
            u.wf(),
    {
        UniqueIds { ids: Vec::new() }
    }

    /// Adds an id unless it is already there; says whether it was added.
    pub fn insert(&mut self, id: u64) -> (added: bool)
        requires
            old(self).wf(),
        ensures
            final(self).wf(),
            added == !old(self).view().contains(id),
            final(self).view() == if added {
                old(self).view().push(id)
            } else {
                old(self).view()
            },
    {
        let mut i: usize = 0;
        while i < self.ids.len()
            invariant
                i <= self.ids.len(),
                self.ids@ == old(self).ids@,
                self.ids@.no_duplicates(),
                forall|k: int| 0 <= k < i ==> self.ids@[k] != id,
            decreases self.ids.len() - i,
        {
            if self.ids[i] == id {
                return false;
            }
            i = i + 1;
        }
        let ghost before = self.ids@;
        self.ids.push(id);
        assert(self.ids@.no_duplicates()) by {
            assert forall|a: int, b: int| 0 <= a < b < self.ids@.len() implies self.ids@[a]
                != self.ids@[b] by {
                if b == before.len() {
                    assert(self.ids@[a] == before[a]);
                }
            }
        }
        true
    }

    /// The ids as a vector.
    pub fn into_vec(self) -> (v: Vec<u64>)
        ensures
            v@ == self.view(),
    {
        self.ids
    }
}

/// The ids of a list, each once, at its first occurrence.
pub fn dedup_ids(ids: &[u64]) -> (r: Vec<u64>)
    ensures
        r@ == first_occurrences(ids@),
        r@.no_duplicates(),
{
    let mut u = UniqueIds::new();
    let mut i: usize = 0;
    while i < ids.len()
        invariant
            i <= ids.len(),
            u.wf(),
            u.view() == first_occurrences(ids@.subrange(0, i as int)),
        decreases ids.len() - i,
    {
        assert(ids@.subrange(0, i + 1).drop_last() =~= ids@.subrange(0, i as int));
        assert(ids@.subrange(0, i + 1).last() == ids@[i as int]);
        let _ = u.insert(ids[i]);
        i = i + 1;
    }
    assert(ids@.subrange(0, ids@.len() as int) =~= ids@);
    proof {
        u.lemma_wf();
    }
    u.into_vec()
}

impl UniqueIds {
    proof fn lemma_wf(&self)
        requires
            self.wf(),
        ensures
            self.view().no_duplicates(),
    {
    }
}

/// The user name to look up: the name without surrounding white space, or
/// nothing for a blank name.
pub fn user_name_to_lookup(name: &str) -> (r: Option<String>)
    ensures
        trim_ws(name@).len() == 0 ==> r is None,
        trim_ws(name@).len() > 0 ==> (r matches Some(n) && n@ == trim_ws(name@)),
{
    let t = trim_ws_chars(chars_of(name).as_slice());
    if t.len() == 0 {
        None
    } else {
        Some(string_of(t.as_slice()))
    }
}

/// The users to add: at least one is needed.
pub fn require_user_ids(ids: UniqueIds) -> (r: Result<Vec<u64>, DcCmdError>)
    ensures
        ids.view().len() == 0 ==> (r matches Err(DcCmdError::InvalidArgument(m)) && m@
            == "Either user name or id must be provided"@),
        ids.view().len() > 0 ==> (r matches Ok(v) && v@ == ids.view()),
{
    let v = ids.into_vec();
    if v.len() == 0 {
        Err(DcCmdError::InvalidArgument("Either user name or id must be provided".to_owned()))
    } else {
        Ok(v)
    }
}

/// How a request names one group.
#[derive(Debug, Clone, PartialEq, Eq)]
pub enum GroupSelector {
    ById(u64),
    ByName(String),
}

/// The group a request names: its id when given (the name is then not
/// read), else its name; with neither, the request is refused.
pub fn select_group(group_name: Option<String>, group_id: Option<u64>) -> (r: Result<GroupSelector, DcCmdError>)
    ensures
        group_id matches Some(id) ==> r == Ok::<GroupSelector, DcCmdError>(GroupSelector::ById(id)),
        group_id is None && group_name is Some ==> (r matches Ok(GroupSelector::ByName(n)) && n@
            == group_name->0@),
        group_id is None && group_name is None ==> (r matches Err(DcCmdError::InvalidArgument(m)) && m@
            == "Either group name or id must be provided"@),
{
    match (group_name, group_id) {
        (_, Some(id)) => Ok(GroupSelector::ById(id)),
        (Some(name), None) => Ok(GroupSelector::ByName(name)),
        _ => Err(DcCmdError::InvalidArgument("Either group name or id must be provided".to_owned())),
    }
}

/// Which groups a listing of group members covers.
#[derive(Debug, Clone, PartialEq, Eq)]
pub enum GroupUsersSource {
    ById(u64),
    ByName(String),
    All,
}

/// The groups whose members are listed: the one with the given id, else the
/// one with the given (non-empty) name, else all groups.
pub fn group_users_source(group_name: Option<&str>, group_id: Option<u64>) -> (r: GroupUsersSource)
    ensures
        group_id matches Some(id) ==> r == GroupUsersSource::ById(id),
        group_id is None && (group_name matches Some(n) && n@.len() > 0) ==> (r matches GroupUsersSource::ByName(
            m,
        ) && m@ == group_name->0@),
        group_id is None && !(group_name matches Some(n) && n@.len() > 0) ==> r == GroupUsersSource::All,
{
    match group_id {
        Some(id) => GroupUsersSource::ById(id),
        None => match group_name {
            Some(name) => {
                if chars_of(name).len() > 0 {
                    GroupUsersSource::ByName(name.to_owned())
                } else {
                    GroupUsersSource::All
                }
            },
            None => GroupUsersSource::All,
        },
    }
}

/// The group named exactly `name` among the results of a name search (they
/// only contain it): the first such one, else the request is refused.
pub fn find_group_by_name(group_names: &[String], name: &str) -> (r: Result<usize, DcCmdError>)
    ensures
        match r {
            Ok(i) => i < group_names@.len() && group_names@[i as int]@ == name@ && forall|j: int|
                0 <= j < i ==> #[trigger] group_names@[j]@ != name@,
            Err(e) => (forall|j: int| 0 <= j < group_names@.len() ==> #[trigger] group_names@[j]@ != name@) && (e
                matches DcCmdError::InvalidArgument(m) && m@ == "No group found with name: "@ + name@),
        },
{
    let wanted = chars_of(name);
    let mut i: usize = 0;
    while i < group_names.len()
        invariant
            i <= group_names@.len(),
            wanted@ == name@,
            forall|j: int| 0 <= j < i ==> #[trigger] group_names@[j]@ != name@,
        decreases group_names.len() - i,
    {
        let candidate = chars_of(group_names[i].as_str());
        if chars_eq(candidate.as_slice(), wanted.as_slice()) {
            return Ok(i);
        }
        i = i + 1;
    }
    let mut v: Vec<char> = Vec::new();
    append_str(&mut v, "No group found with name: ");
    append_str(&mut v, name);
    Err(DcCmdError::InvalidArgument(string_of(v.as_slice())))
}

/// The offsets of the further pages of a listing of `total` items in pages
/// of `page_size`: every multiple of `page_size` from `page_size` up to
/// `total`.
pub open spec fn offsets_through(total: u64, page_size: u64) -> Seq<u64> {
    Seq::new((total / page_size) as nat, |k: int| ((k + 1) * page_size) as u64)
}

/// The offsets of the further pages of a group listing (see
/// `offsets_through`).
pub fn further_page_offsets(total: u64, page_size: u64) -> (r: Vec<u64>)
    requires
        page_size > 0,
        total + page_size <= u64::MAX,
    ensures
        r@ == offsets_through(total, page_size),
{
    let mut r: Vec<u64> = Vec::new();
    let mut offset: u64 = page_size;
    assert(offset == (r@.len() + 1) * page_size && r@.len() * page_size <= total) by (nonlinear_arith)
        requires
            r@.len() == 0,
            offset == page_size,
    ;
    while offset <= total
        invariant
            page_size > 0,
            total + page_size <= u64::MAX,
            offset == (r@.len() + 1) * page_size,
            r@.len() * page_size <= total,
            forall|k: int| 0 <= k < r@.len() ==> #[trigger] r@[k] == ((k + 1) * page_size) as u64,
        decreases total + page_size - offset,
    {
        r.push(offset);
        assert(r@.len() * page_size <= total && offset == r@.len() * page_size) by (nonlinear_arith)
            requires
                offset == r@.len() * page_size,
                offset <= total,
        ;
        offset = offset + page_size;
        proof {
            assert(offset == (r@.len() + 1) * page_size) by (nonlinear_arith)
                requires
                    offset == r@.len() * page_size + page_size,
            ;
        }
    }
    proof {
        let n = r@.len();
        assert(n * page_size <= total);
        assert(total < (n + 1) * page_size);
        assert(total / page_size == n) by (nonlinear_arith)
            requires
                page_size > 0,
                n * page_size <= total,
                total < (n + 1) * page_size,
        ;
    }
    assert(r@ =~= offsets_through(total, page_size));
    r
}

/// Fetching the first page and then a page at every further offset reads the
/// whole group listing: every item below `total` lies in one of those pages,
/// and no page starts past the end of the listing.
pub proof fn lemma_further_pages_cover_listing(total: u64, page_size: u64)
    requires
        page_size > 0,
    ensures
        forall|i: int| 0 <= i < total ==> #[trigger] item_read(offsets_through(total, page_size), page_size, i),
        forall|k: int|
            0 <= k < offsets_through(total, page_size).len() ==> #[trigger] offsets_through(total, page_size)[k]
                <= total,
{
    let offs = offsets_through(total, page_size);
    assert forall|i: int| 0 <= i < total implies #[trigger] item_read(offs, page_size, i) by {
        if i >= page_size {
            lemma_page_of_item(total, page_size, i);
            let k = i / (page_size as int) - 1;
            assert(offs[k] == ((k + 1) * page_size) as u64);
        }
    }
    assert forall|k: int| 0 <= k < offs.len() implies #[trigger] offs[k] <= total by {
        let p = page_size as int;
        let t = total as int;
        assert((k + 1) * p <= t) by (nonlinear_arith)
            requires
                p > 0,
                0 <= k < t / p,
        {
            vstd::arithmetic::div_mod::lemma_fundamental_div_mod(t, p);
            vstd::arithmetic::mul::lemma_mul_inequality(k + 1, t / p, p);
        }
        assert(offs[k] == ((k + 1) * page_size) as u64);
    }
}

} // verus!
