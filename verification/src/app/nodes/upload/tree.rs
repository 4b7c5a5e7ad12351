//! Where the folders and files of an uploaded directory tree go: each local
//! directory and file is placed under the remote folder recorded for its
//! parent, found by a key built from its path below the uploaded root.

use vstd::prelude::*;
use crate::app::nodes::upload::folders::{nfc, nfc_string, normalize_path, upload_relative_path_spec};
use crate::errors::DcCmdError;
use crate::text::{
    append_str, chars_eq, chars_of, last_index_of, rfind_char, slice_to_vec, str_views, string_of,
};

verus! {

/// The key of the uploaded root folder: `/` and its name, in NFC.
pub open spec fn root_key_spec(root_name: Seq<char>) -> Seq<char> {
    nfc("/"@ + root_name)
}

/// The key of the uploaded root folder (see `root_key_spec`).
pub fn upload_root_key(root_name: &str) -> (r: String)
    ensures
        r@ == root_key_spec(root_name@),
{
    let mut v: Vec<char> = Vec::new();
    append_str(&mut v, "/");
    append_str(&mut v, root_name);
    nfc_string(string_of(v.as_slice()).as_str())
}

/// The parent of a key: the text before its last slash, or the root `/`
/// when that is empty or there is no slash.
pub open spec fn key_parent(key: Seq<char>) -> Seq<char> {
    match last_index_of(key, '/') {
        Some(i) => if i > 0 {
            key.subrange(0, i)
        } else {
            seq!['/']
        },
        None => seq!['/'],
    }
}

/// The parent of a key (see `key_parent`).
fn key_parent_of(key: &str) -> (r: Vec<char>)
    ensures
        r@ == key_parent(key@),
{
    let c = chars_of(key);
    match rfind_char(c.as_slice(), '/') {
        Some(i) => {
            if i > 0 {
                slice_to_vec(c.as_slice(), 0, i)
            } else {
                let mut v: Vec<char> = Vec::new();
                v.push('/');
                assert(v@ =~= seq!['/']);
                v
            }
        },
        None => {
            let mut v: Vec<char> = Vec::new();
            v.push('/');
            assert(v@ =~= seq!['/']);
            v
        },
    }
}

/// The key of the remote folder that receives a local path: the parent of
/// its path below the root (see `upload_relative_path_spec`), in NFC.
pub open spec fn parent_key_spec(path: Seq<char>, root_path: Seq<char>) -> Seq<char> {
    nfc(key_parent(upload_relative_path_spec(path, root_path)))
}

/// The key of the remote folder that receives a local path (see
/// `parent_key_spec`).
pub fn parent_key(path: &str, root_path: &str) -> (r: String)
    ensures
        r@ == parent_key_spec(path@, root_path@),
{
    let rel = normalize_path(path, root_path);
    let parent = key_parent_of(rel.as_str());
    nfc_string(string_of(parent.as_slice()).as_str())
}

/// The key a new folder is recorded under: its parent's key, a slash and its
/// name, in NFC.
pub open spec fn folder_key_spec(parent_key: Seq<char>, name: Seq<char>) -> Seq<char> {
    nfc(parent_key + "/"@ + name)
}

/// The key a new folder is recorded under (see `folder_key_spec`).
pub fn folder_key(parent_key: &str, name: &str) -> (r: String)
    ensures
        r@ == folder_key_spec(parent_key@, name@),
{
    let mut v: Vec<char> = Vec::new();
    append_str(&mut v, parent_key);
    append_str(&mut v, "/");
    append_str(&mut v, name);
    nfc_string(string_of(v.as_slice()).as_str())
}

/// The name of a new folder: the local name in NFC.
pub fn folder_name(local_name: &str) -> (r: String)
    ensures
        r@ == nfc(local_name@),
{
    nfc_string(local_name)
}

/// Whether the keys are pairwise distinct.
pub open spec fn distinct_keys(entries: Seq<(String, u64)>) -> bool {
    forall|i: int, j: int| 0 <= i < j < entries.len() ==> #[trigger] entries[i].0@ != #[trigger] entries[j].0@
}

/// The remote folders created so far, by key.
#[derive(Debug, Clone)]
pub struct CreatedFolders {
    entries: Vec<(String, u64)>,
}

impl CreatedFolders {
    /// No key occurs twice.
    pub closed spec fn wf(&self) -> bool {
        distinct_keys(self.entries@)
    }

    /// The id recorded under each key.
    pub closed spec fn view(&self) -> Map<Seq<char>, u64> {
        Map::new(
            |k: Seq<char>| exists|i: int| 0 <= i < self.entries@.len() && #[trigger] self.entries@[i].0@ == k,
            |k: Seq<char>|
                self.entries@[choose|i: int| 0 <= i < self.entries@.len() && #[trigger] self.entries@[i].0@ == k].1,
        )
    }

    /// No folder is recorded.
    pub fn new() -> (c: Self)
        ensures
            c.wf(),
            c.view() == Map::<Seq<char>, u64>::empty(),
    {
        let c = CreatedFolders { entries: Vec::new() };
        assert(c.view() =~= Map::<Seq<char>, u64>::empty());
        c
    }

    fn position(&self, key: &str) -> (r: Option<usize>)
        requires
            self.wf(),
        ensures
            match r {
                Some(i) => i < self.entries@.len() && self.entries@[i as int].0@ == key@,
                None => forall|i: int| 0 <= i < self.entries@.len() ==> #[trigger] self.entries@[i].0@ != key@,
            },
    {
        let k = chars_of(key);
        let mut i: usize = 0;
        while i < self.entries.len()
            invariant
                i <= self.entries@.len(),
                k@ == key@,
                forall|j: int| 0 <= j < i ==> #[trigger] self.entries@[j].0@ != key@,
            decreases self.entries.len() - i,
        {
            let e = chars_of(self.entries[i].0.as_str());
            if chars_eq(e.as_slice(), k.as_slice()) {
                return Some(i);
            }
            i = i + 1;
        }
        None
    }

    /// The id recorded under a key, if any.
    pub fn id_of(&self, key: &str) -> (r: Option<u64>)
        requires
            self.wf(),
        ensures
            self.view().contains_key(key@) ==> r == Some(self.view()[key@]),
            !self.view().contains_key(key@) ==> r is None,
    {
        match self.position(key) {
            Some(i) => {
                let ghost k = key@;
                assert(self.view().contains_key(k));
                let ghost j = choose|j: int| 0 <= j < self.entries@.len() && #[trigger] self.entries@[j].0@ == k;
                assert(j == i as int) by {
                    if j != i as int {
                        if j < i as int {
                            assert(self.entries@[j].0@ != self.entries@[i as int].0@);
                        } else {
                            assert(self.entries@[i as int].0@ != self.entries@[j].0@);
                        }
                    }
                }
                Some(self.entries[i].1)
            },
            None => None,
        }
    }

    /// Records a folder under a key; a folder recorded earlier under the
    /// same key is replaced.
    pub fn record(&mut self, key: String, id: u64)
        requires
            old(self).wf(),
        ensures
            final(self).wf(),
            final(self).view() == old(self).view().insert(key@, id),
    {
        let ghost old_entries = self.entries@;
        let ghost k = key@;
        match self.position(key.as_str()) {
            Some(i) => {
                self.entries.set(i, (key, id));
                assert(distinct_keys(self.entries@)) by {
                    assert forall|a: int, b: int| 0 <= a < b < self.entries@.len() implies #[trigger] self.entries@[a].0@
                        != #[trigger] self.entries@[b].0@ by {
                        if a != i as int && b != i as int {
                            assert(old_entries[a].0@ != old_entries[b].0@);
                        } else if a == i as int {
                            assert(old_entries[a].0@ != old_entries[b].0@);
                        } else {
                            assert(old_entries[a].0@ != old_entries[b].0@);
                        }
                    }
                }
                assert forall|q: Seq<char>| #[trigger] self.view().contains_key(q) <==> old(self).view().insert(
                    k,
                    id,
                ).contains_key(q) by {
                    if self.view().contains_key(q) {
                        let j = choose|j: int| 0 <= j < self.entries@.len() && #[trigger] self.entries@[j].0@ == q;
                        if j != i as int {
                            assert(old_entries[j].0@ == q);
                        }
                    }
                    if old(self).view().contains_key(q) {
                        let j = choose|j: int| 0 <= j < old_entries.len() && #[trigger] old_entries[j].0@ == q;
                        if j != i as int {
                            assert(self.entries@[j].0@ == q);
                        } else {
                            assert(self.entries@[i as int].0@ == k);
                        }
                    }
                    if q == k {
                        assert(self.entries@[i as int].0@ == k);
                    }
                }
                assert forall|q: Seq<char>| #[trigger] self.view().contains_key(q) implies self.view()[q] == old(
                    self,
                ).view().insert(k, id)[q] by {
                    let j = choose|j: int| 0 <= j < self.entries@.len() && #[trigger] self.entries@[j].0@ == q;
                    if q == k {
                        assert(j == i as int) by {
                            if j != i as int {
                                if j < i as int {
                                    assert(self.entries@[j].0@ != self.entries@[i as int].0@);
                                } else {
                                    assert(self.entries@[i as int].0@ != self.entries@[j].0@);
                                }
                            }
                        }
                    } else {
                        assert(j != i as int);
                        assert(old_entries[j].0@ == q);
                        let j2 = choose|j2: int| 0 <= j2 < old_entries.len() && #[trigger] old_entries[j2].0@ == q;
                        assert(j2 == j) by {
                            if j2 != j {
                                if j2 < j {
                                    assert(old_entries[j2].0@ != old_entries[j].0@);
                                } else {
                                    assert(old_entries[j].0@ != old_entries[j2].0@);
                                }
                            }
                        }
                    }
                }
                assert(self.view() =~= old(self).view().insert(k, id));
            },
            None => {
                self.entries.push((key, id));
                let ghost n = old_entries.len() as int;
                assert(distinct_keys(self.entries@)) by {
                    assert forall|a: int, b: int| 0 <= a < b < self.entries@.len() implies #[trigger] self.entries@[a].0@
                        != #[trigger] self.entries@[b].0@ by {
                        if b < n {
                            assert(old_entries[a].0@ != old_entries[b].0@);
                        } else {
                            assert(self.entries@[a] == old_entries[a]);
                        }
                    }
                }
                assert forall|q: Seq<char>| #[trigger] self.view().contains_key(q) <==> old(self).view().insert(
                    k,
                    id,
                ).contains_key(q) by {
                    if self.view().contains_key(q) {
                        let j = choose|j: int| 0 <= j < self.entries@.len() && #[trigger] self.entries@[j].0@ == q;
                        if j < n {
                            assert(old_entries[j].0@ == q);
                        }
                    }
                    if old(self).view().contains_key(q) {
                        let j = choose|j: int| 0 <= j < old_entries.len() && #[trigger] old_entries[j].0@ == q;
                        assert(self.entries@[j].0@ == q);
                    }
                    if q == k {
                        assert(self.entries@[n].0@ == k);
                    }
                }
                assert forall|q: Seq<char>| #[trigger] self.view().contains_key(q) implies self.view()[q] == old(
                    self,
                ).view().insert(k, id)[q] by {
                    let j = choose|j: int| 0 <= j < self.entries@.len() && #[trigger] self.entries@[j].0@ == q;
                    if q == k {
                        assert(j == n) by {
                            if j < n {
                                assert(old_entries[j].0@ == k);
                            }
                        }
                    } else {
                        assert(j < n);
                        let j2 = choose|j2: int| 0 <= j2 < old_entries.len() && #[trigger] old_entries[j2].0@ == q;
                        assert(j2 == j) by {
                            if j2 != j {
                                if j2 < j {
                                    assert(old_entries[j2].0@ != old_entries[j].0@);
                                } else {
                                    assert(old_entries[j].0@ != old_entries[j2].0@);
                                }
                            }
                        }
                    }
                }
                assert(self.view() =~= old(self).view().insert(k, id));
            },
        }
    }
}

/// The id of the remote folder that receives a new folder: the one recorded
/// under its parent key; a missing parent refuses the local parent path.
pub fn folder_parent_id(created: &CreatedFolders, parent_key: &str, local_parent: &str) -> (r: Result<
    u64,
    DcCmdError,
>)
    requires
        created.wf(),
    ensures
        created.view().contains_key(parent_key@) ==> r == Ok::<u64, DcCmdError>(created.view()[parent_key@]),
        !created.view().contains_key(parent_key@) ==> (r matches Err(DcCmdError::InvalidPath(m)) && m@
            == local_parent@),
{
    match created.id_of(parent_key) {
        Some(id) => Ok(id),
        None => Err(DcCmdError::InvalidPath(local_parent.to_owned())),
    }
}

/// The ids of the remote folders that receive the given files: the one
/// recorded under each file's parent key; the first file whose parent is
/// missing refuses that key.
pub fn file_parent_ids(created: &CreatedFolders, files: &[String], root_path: &str) -> (r: Result<
    Vec<u64>,
    DcCmdError,
>)
    requires
        created.wf(),
    ensures
        match r {
            Ok(ids) => ids@.len() == files@.len() && forall|i: int|
                0 <= i < files@.len() ==> created.view().contains_key(
                    #[trigger] parent_key_spec(files@[i]@, root_path@),
                ) && ids@[i] == created.view()[parent_key_spec(files@[i]@, root_path@)],
            Err(e) => exists|i: int|
                0 <= i < files@.len() && !created.view().contains_key(
                    #[trigger] parent_key_spec(files@[i]@, root_path@),
                ) && (e matches DcCmdError::InvalidPath(m) && m@ == parent_key_spec(files@[i]@, root_path@))
                    && forall|j: int|
                    0 <= j < i ==> created.view().contains_key(#[trigger] parent_key_spec(files@[j]@, root_path@)),
        },
{
    let mut ids: Vec<u64> = Vec::new();
    let mut i: usize = 0;
    while i < files.len()
        invariant
            created.wf(),
            i <= files@.len(),
            ids@.len() == i,
            forall|j: int|
                0 <= j < i ==> created.view().contains_key(#[trigger] parent_key_spec(files@[j]@, root_path@))
                    && ids@[j] == created.view()[parent_key_spec(files@[j]@, root_path@)],
        decreases files.len() - i,
    {
        let key = parent_key(files[i].as_str(), root_path);
        match created.id_of(key.as_str()) {
            Some(id) => {
                ids.push(id);
            },
            None => {
                return Err(DcCmdError::InvalidPath(key));
            },
        }
        i = i + 1;
    }
    Ok(ids)
}

} // verus!
