//! Downloads: the outcome of a download, the plan that maps a remote
//! container onto local directories and files, and the service that builds
//! and applies such plans.

pub mod containers;
pub mod files;
pub mod plan_laws;
pub mod windows_plan_laws;

use std::collections::HashMap;
use std::collections::HashSet;
use vstd::prelude::*;
use crate::errors::DcCmdError;
use crate::app::nodes::common::NodesPathPaginationHelper;
use crate::app::nodes::filesystem::{
    join_paths_with_style, join_spec, normalize_path_with_style, normalize_spec, Filesystem, PathStyle,
};
use crate::app::nodes::progress::{NoopProgressReporter, ProgressReporter};
use crate::app::nodes::path_laws::all_clean;
use crate::app::nodes::download::plan_laws::{
    below, files_placeable, folders_placeable, lemma_container_plan_inside_root, lemma_container_plan_ok,
};
use crate::app::nodes::download::windows_plan_laws::{
    all_win_segs, lemma_container_plan_inside_root_windows, win_below,
};
use crate::api::nodes::models::NodeType;
use crate::app::nodes::common::is_search_query;
use crate::text::{
    join, contains_seq, contains_str,
    append_str, nonempty_pieces, split, split_chars, str_views, string_of, views, strictly_sorted,
    insert_sorted_unique,
};

verus! {

/// What a download needs to know of a remote node.
#[derive(Debug, Clone, PartialEq, Eq)]
pub struct RemoteNodeRef {
    pub id: u64,
    pub name: String,
    pub parent_path: Option<String>,
}

/// One file that could not be downloaded.
#[derive(Debug, Clone, PartialEq, Eq)]
pub struct DownloadFailure {
    pub node_id: Option<u64>,
    pub node_name: String,
    pub target: String,
    pub reason: String,
}

/// The result of a download command.
#[derive(Debug, Clone, PartialEq, Eq)]
pub struct DownloadOutcome {
    pub requested_total: u64,
    pub succeeded: u64,
    pub failed: u64,
    pub failures: Vec<DownloadFailure>,
    pub target_root: String,
    pub partial: bool,
}

impl DownloadOutcome {
    /// Every one of `count` requested files arrived.
    pub fn success(target_root: &str, count: u64) -> (o: Self)
        ensures
            o.requested_total == count,
            o.succeeded == count,
            o.failed == 0,
            o.failures@.len() == 0,
            o.target_root@ == target_root@,
            !o.partial,
    {
        DownloadOutcome {
            requested_total: count,
            succeeded: count,
            failed: 0,
            failures: Vec::new(),
            target_root: target_root.to_owned(),
            partial: false,
        }
    }

    /// An outcome with the given failures; it is partial when some files
    /// failed and some arrived.
    pub fn from_failures(
        target_root: &str,
        requested_total: u64,
        succeeded: u64,
        failures: Vec<DownloadFailure>,
    ) -> (o: Self)
        ensures
            o.requested_total == requested_total,
            o.succeeded == succeeded,
            o.failed == failures@.len(),
            o.failures@ == failures@,
            o.target_root@ == target_root@,
            o.partial == (failures@.len() > 0 && succeeded > 0),
    {
        let failed = failures.len() as u64;
        DownloadOutcome {
            requested_total,
            succeeded,
            failed,
            failures,
            target_root: target_root.to_owned(),
            partial: failed > 0 && succeeded > 0,
        }
    }
}

/// Where a container download puts things: the local root, every local
/// directory to create (sorted, each once) and the local target of each file
/// by node id.
#[derive(Debug)]
pub struct DownloadContainerPlan {
    pub root_target: String,
    pub directories: Vec<String>,
    pub file_targets: HashMap<u64, String>,
}

/// The number of nodes requested per page when searching a container.
pub const SEARCH_PAGE_SIZE: u64 = 500;

/// Remembers which files of a download job already arrived, so that an
/// interrupted job can be resumed.
pub trait TransferStateStore {
    fn get_or_create_job(&mut self, source: &str, target: &str) -> Result<String, DcCmdError>;

    fn get_completed_file_ids(&self, job_id: &str) -> Result<HashSet<u64>, DcCmdError>;

    fn mark_complete(&mut self, job_id: &str, node_id: u64) -> Result<(), DcCmdError>;

    fn complete_job(&mut self, job_id: &str) -> Result<(), DcCmdError>;
}

/// A state store that remembers nothing: every job starts from scratch.
#[derive(Debug, Clone, Copy, Default)]
pub struct NoopTransferStateStore;

impl TransferStateStore for NoopTransferStateStore {
    fn get_or_create_job(&mut self, source: &str, target: &str) -> (r: Result<String, DcCmdError>)
        ensures
            r matches Ok(id) && id@ == "noop:"@ + source@ + "->"@ + target@,
    {
        let mut v: Vec<char> = Vec::new();
        append_str(&mut v, "noop:");
        append_str(&mut v, source);
        append_str(&mut v, "->");
        append_str(&mut v, target);
        Ok(string_of(v.as_slice()))
    }

    fn get_completed_file_ids(&self, job_id: &str) -> (r: Result<HashSet<u64>, DcCmdError>)
        ensures
            r matches Ok(ids) && ids@ == Set::<u64>::empty(),
    {
        Ok(HashSet::new())
    }

    fn mark_complete(&mut self, job_id: &str, node_id: u64) -> (r: Result<(), DcCmdError>)
        ensures
            r is Ok,
    {
        Ok(())
    }

    fn complete_job(&mut self, job_id: &str) -> (r: Result<(), DcCmdError>)
        ensures
            r is Ok,
    {
        Ok(())
    }
}

// ---------------------------------------------------------------------------
// The model of a container plan.

/// The non-empty segments of a remote path.
pub open spec fn remote_segments(path: Seq<char>) -> Seq<Seq<char>> {
    nonempty_pieces(split(path, '/'))
}

pub open spec fn no_parent_message(name: Seq<char>) -> Seq<char> {
    "Node '"@ + name + "' has no parent path"@
}

pub open spec fn outside_message(child: Seq<char>, container: Seq<char>) -> Seq<char> {
    "Node '"@ + child + "' is outside container '"@ + container + "'"@
}

pub open spec fn invalid_file_target_message(name: Seq<char>) -> Seq<char> {
    "Invalid relative file target for node "@ + name
}

/// The segments of a node's full remote path: those of its parent path and
/// its own name. A node without a parent path has none.
pub open spec fn full_segments_spec(node: RemoteNodeRef) -> Result<Seq<Seq<char>>, Seq<char>> {
    match node.parent_path {
        Some(p) => Ok(remote_segments(p@).push(node.name@)),
        None => Err(no_parent_message(node.name@)),
    }
}

/// The segments of `child`'s path below `container`; an error when the child
/// lies outside the container.
pub open spec fn relative_segments_spec(
    container: RemoteNodeRef,
    child: RemoteNodeRef,
) -> Result<Seq<Seq<char>>, Seq<char>> {
    match full_segments_spec(container) {
        Err(m) => Err(m),
        Ok(c) => match full_segments_spec(child) {
            Err(m) => Err(m),
            Ok(ch) => if ch.len() < c.len() || ch.subrange(0, c.len() as int) != c {
                Err(outside_message(child.name@, container.name@))
            } else {
                Ok(ch.subrange(c.len() as int, ch.len() as int))
            },
        },
    }
}

/// Joins segments onto `base` one after the other.
pub open spec fn join_segments_spec(style: PathStyle, base: Seq<char>, segments: Seq<Seq<char>>) -> Seq<char>
    decreases segments.len(),
{
    if segments.len() == 0 {
        base
    } else {
        join_spec(style, join_segments_spec(style, base, segments.drop_last()), segments.last())
    }
}

/// The local directories of the folders below `root`: the first folder outside
/// the container (or without a parent path) makes it an error; a folder that
/// is the container itself adds nothing.
pub open spec fn folder_dirs_spec(
    style: PathStyle,
    root: Seq<char>,
    container: RemoteNodeRef,
    folders: Seq<RemoteNodeRef>,
) -> Result<Set<Seq<char>>, Seq<char>>
    decreases folders.len(),
{
    if folders.len() == 0 {
        Ok(Set::<Seq<char>>::empty())
    } else {
        match folder_dirs_spec(style, root, container, folders.drop_last()) {
            Err(m) => Err(m),
            Ok(dirs) => match relative_segments_spec(container, folders.last()) {
                Err(m) => Err(m),
                Ok(rel) => if rel.len() == 0 {
                    Ok(dirs)
                } else {
                    Ok(dirs.insert(normalize_spec(style, join_segments_spec(style, root, rel))))
                },
            },
        }
    }
}

/// The local targets of the files below `root`, by node id (a later file with
/// the same id replaces an earlier one): the first file outside the container,
/// or that is the container itself, makes it an error.
pub open spec fn file_targets_spec(
    style: PathStyle,
    root: Seq<char>,
    container: RemoteNodeRef,
    files: Seq<RemoteNodeRef>,
) -> Result<Map<u64, Seq<char>>, Seq<char>>
    decreases files.len(),
{
    if files.len() == 0 {
        Ok(Map::<u64, Seq<char>>::empty())
    } else {
        match file_targets_spec(style, root, container, files.drop_last()) {
            Err(m) => Err(m),
            Ok(targets) => match relative_segments_spec(container, files.last()) {
                Err(m) => Err(m),
                Ok(rel) => if rel.len() == 0 {
                    Err(invalid_file_target_message(files.last().name@))
                } else {
                    Ok(targets.insert(
                        files.last().id,
                        normalize_spec(style, join_segments_spec(style, root, rel)),
                    ))
                },
            },
        }
    }
}

/// The whole plan: the (normalised) root target, the set of directories (the
/// root and those of the folders) and the file targets, or the message of the
/// first node that cannot be placed (folders are checked before files).
pub open spec fn container_plan_spec(
    style: PathStyle,
    target_base: Seq<char>,
    container: RemoteNodeRef,
    folders: Seq<RemoteNodeRef>,
    files: Seq<RemoteNodeRef>,
) -> Result<(Seq<char>, Set<Seq<char>>, Map<u64, Seq<char>>), Seq<char>> {
    let root = join_spec(style, target_base, container.name@);
    match folder_dirs_spec(style, root, container, folders) {
        Err(m) => Err(m),
        Ok(dirs) => match file_targets_spec(style, root, container, files) {
            Err(m) => Err(m),
            Ok(targets) => Ok(
                (normalize_spec(style, root), dirs.insert(normalize_spec(style, root)), targets),
            ),
        },
    }
}

/// The local target of each file joined onto a base directory, by node id.
pub open spec fn base_targets_spec(style: PathStyle, base: Seq<char>, files: Seq<RemoteNodeRef>) -> Map<u64, Seq<char>>
    decreases files.len(),
{
    if files.len() == 0 {
        Map::<u64, Seq<char>>::empty()
    } else {
        base_targets_spec(style, base, files.drop_last()).insert(
            files.last().id,
            join_spec(style, base, files.last().name@),
        )
    }
}

/// Once a prefix of the folders fails, every longer prefix fails the same way.
pub proof fn lemma_folder_dirs_err_prefix(
    style: PathStyle,
    root: Seq<char>,
    container: RemoteNodeRef,
    folders: Seq<RemoteNodeRef>,
    k: int,
)
    requires
        0 <= k <= folders.len(),
        folder_dirs_spec(style, root, container, folders.subrange(0, k)) is Err,
    ensures
        folder_dirs_spec(style, root, container, folders) == folder_dirs_spec(
            style,
            root,
            container,
            folders.subrange(0, k),
        ),
    decreases folders.len() - k,
{
    if k < folders.len() {
        let next = folders.subrange(0, k + 1);
        assert(next.drop_last() =~= folders.subrange(0, k));
        lemma_folder_dirs_err_prefix(style, root, container, folders, k + 1);
    } else {
        assert(folders.subrange(0, k) =~= folders);
    }
}

/// Once a prefix of the files fails, every longer prefix fails the same way.
pub proof fn lemma_file_targets_err_prefix(
    style: PathStyle,
    root: Seq<char>,
    container: RemoteNodeRef,
    files: Seq<RemoteNodeRef>,
    k: int,
)
    requires
        0 <= k <= files.len(),
        file_targets_spec(style, root, container, files.subrange(0, k)) is Err,
    ensures
        file_targets_spec(style, root, container, files) == file_targets_spec(
            style,
            root,
            container,
            files.subrange(0, k),
        ),
    decreases files.len() - k,
{
    if k < files.len() {
        let next = files.subrange(0, k + 1);
        assert(next.drop_last() =~= files.subrange(0, k));
        lemma_file_targets_err_prefix(style, root, container, files, k + 1);
    } else {
        assert(files.subrange(0, k) =~= files);
    }
}

/// A container plan fails whenever one of its folders or files lies outside
/// the container (or has no parent path): a node can never be planned outside
/// the container's root.
pub proof fn lemma_plan_rejects_outside_nodes(
    style: PathStyle,
    target_base: Seq<char>,
    container: RemoteNodeRef,
    folders: Seq<RemoteNodeRef>,
    files: Seq<RemoteNodeRef>,
)
    requires
        (exists|k: int| 0 <= k < folders.len() && relative_segments_spec(container, #[trigger] folders[k]) is Err)
        || (exists|k: int| 0 <= k < files.len() && relative_segments_spec(container, #[trigger] files[k]) is Err),
    ensures
        container_plan_spec(style, target_base, container, folders, files) is Err,
{
    let root = join_spec(style, target_base, container.name@);
    if exists|k: int| 0 <= k < folders.len() && relative_segments_spec(container, #[trigger] folders[k]) is Err {
        let k = choose|k: int| 0 <= k < folders.len() && relative_segments_spec(container, #[trigger] folders[k]) is Err;
        lemma_folder_dirs_first_err(style, root, container, folders, k);
    } else {
        let k = choose|k: int| 0 <= k < files.len() && relative_segments_spec(container, #[trigger] files[k]) is Err;
        lemma_file_targets_first_err(style, root, container, files, k);
    }
}

/// A folder outside the container makes the folder pass fail.
pub proof fn lemma_folder_dirs_first_err(
    style: PathStyle,
    root: Seq<char>,
    container: RemoteNodeRef,
    folders: Seq<RemoteNodeRef>,
    k: int,
)
    requires
        0 <= k < folders.len(),
        relative_segments_spec(container, folders[k]) is Err,
    ensures
        folder_dirs_spec(style, root, container, folders) is Err,
{
    let pre = folders.subrange(0, k + 1);
    assert(pre.drop_last() =~= folders.subrange(0, k));
    assert(pre.last() == folders[k]);
    assert(folder_dirs_spec(style, root, container, pre) is Err);
    lemma_folder_dirs_err_prefix(style, root, container, folders, k + 1);
}

/// A file outside the container makes the file pass fail.
pub proof fn lemma_file_targets_first_err(
    style: PathStyle,
    root: Seq<char>,
    container: RemoteNodeRef,
    files: Seq<RemoteNodeRef>,
    k: int,
)
    requires
        0 <= k < files.len(),
        relative_segments_spec(container, files[k]) is Err,
    ensures
        file_targets_spec(style, root, container, files) is Err,
{
    let pre = files.subrange(0, k + 1);
    assert(pre.drop_last() =~= files.subrange(0, k));
    assert(pre.last() == files[k]);
    assert(file_targets_spec(style, root, container, pre) is Err);
    lemma_file_targets_err_prefix(style, root, container, files, k + 1);
}

/// A map of strings seen as a map of character sequences.
pub open spec fn string_map_view(m: Map<u64, String>) -> Map<u64, Seq<char>> {
    Map::new(|k: u64| m.dom().contains(k), |k: u64| m[k]@)
}

/// The non-empty segments of a remote path (`split('/')` without the empty
/// pieces).
pub fn split_remote_path(path: &str) -> (r: Vec<String>)
    ensures
        str_views(r@) == remote_segments(path@),
{
    let c = crate::text::chars_of(path);
    let pieces = split_chars(c.as_slice(), '/');
    let mut r: Vec<String> = Vec::new();
    let mut i: usize = 0;
    while i < pieces.len()
        invariant
            i <= pieces.len(),
            views(pieces@) == split(path@, '/'),
            str_views(r@) == nonempty_pieces(views(pieces@).subrange(0, i as int)),
        decreases pieces.len() - i,
    {
        let ghost sub = views(pieces@).subrange(0, i as int + 1);
        assert(sub.drop_last() =~= views(pieces@).subrange(0, i as int));
        assert(sub.last() == pieces@[i as int]@);
        if pieces[i].len() > 0 {
            let ghost before = r@;
            r.push(string_of(pieces[i].as_slice()));
            assert(str_views(r@) =~= str_views(before).push(pieces@[i as int]@));
        }
        i = i + 1;
    }
    assert(views(pieces@).subrange(0, pieces@.len() as int) =~= views(pieces@));
    r
}


/// How a download proceeds once its source node is known.
#[derive(Debug, Clone, Copy, PartialEq, Eq, Structural)]
pub enum DownloadKind {
    /// The name is a search query: every matching file in the parent.
    SearchResults,
    /// A single file.
    SingleFile,
    /// A room or folder with everything below it.
    Container,
}

/// Whether a download source is a public download share.
pub open spec fn is_public_share_spec(source: Seq<char>) -> bool {
    contains_seq(source, "/public/download-shares/"@)
}

/// Whether a download source is a public download share.
pub fn is_public_download_source(source: &str) -> (r: bool)
    ensures
        r == is_public_share_spec(source@),
{
    contains_str(source, "/public/download-shares/")
}

/// Public download shares hold single files: a recursive download of one is
/// refused.
pub fn check_public_download(recursive: bool) -> (r: Result<(), DcCmdError>)
    ensures
        !recursive ==> r is Ok,
        recursive ==> (r matches Err(DcCmdError::InvalidArgument(m))
            && m@ == "Recursive download not supported for public download shares"@),
{
    if recursive {
        Err(DcCmdError::InvalidArgument(
            "Recursive download not supported for public download shares".to_owned(),
        ))
    } else {
        Ok(())
    }
}

/// The remote path looked up for a download: the parent for a search query,
/// else the node itself (with a trailing slash).
pub fn download_lookup_path(parent_path: &str, node_name: &str) -> (r: String)
    ensures
        r@ == if node_name@.contains('*') {
            parent_path@
        } else {
            parent_path@ + node_name@ + "/"@
        },
{
    if is_search_query(node_name) {
        parent_path.to_owned()
    } else {
        let mut v: Vec<char> = Vec::new();
        append_str(&mut v, parent_path);
        append_str(&mut v, node_name);
        append_str(&mut v, "/");
        string_of(v.as_slice())
    }
}

/// A resumable download job is closed only when nothing failed; otherwise it
/// stays open so that a later run fetches just the missing files.
pub fn should_complete_job(outcome: &DownloadOutcome) -> (r: bool)
    ensures
        r == (outcome.failed == 0),
{
    outcome.failed == 0
}

/// How a download proceeds: search results for a query, a single file for a
/// file, and a whole container only when the download is recursive.
pub fn choose_download_kind(node_name: &str, node_type: NodeType, recursive: bool) -> (r: Result<
    DownloadKind,
    DcCmdError,
>)
    ensures
        node_name@.contains('*') ==> r == Ok::<DownloadKind, DcCmdError>(DownloadKind::SearchResults),
        !node_name@.contains('*') && node_type == NodeType::File ==> r == Ok::<
            DownloadKind,
            DcCmdError,
        >(DownloadKind::SingleFile),
        !node_name@.contains('*') && node_type != NodeType::File && recursive ==> r == Ok::<
            DownloadKind,
            DcCmdError,
        >(DownloadKind::Container),
        !node_name@.contains('*') && node_type != NodeType::File && !recursive ==> (r matches Err(
            DcCmdError::InvalidArgument(m),
        ) && m@ == "Container download requires recursive flag"@),
{
    if is_search_query(node_name) {
        Ok(DownloadKind::SearchResults)
    } else if node_type == NodeType::File {
        Ok(DownloadKind::SingleFile)
    } else if recursive {
        Ok(DownloadKind::Container)
    } else {
        Err(DcCmdError::InvalidArgument("Container download requires recursive flag".to_owned()))
    }
}

/// Downloads files, search results and whole containers to the local
/// filesystem.
pub struct NodesDownloadService<F: Filesystem, S: TransferStateStore, P: ProgressReporter> {
    fs: F,
    style: PathStyle,
    state_store: S,
    path_pagination: NodesPathPaginationHelper,
    progress: P,
}

impl<F: Filesystem, S: TransferStateStore> NodesDownloadService<F, S, NoopProgressReporter> {
    /// A service on the given filesystem and state store that shows no progress.
    pub fn with_dependencies(fs: F, state_store: S) -> (s: Self)
        ensures
            s.fs_view() == fs,
            fs.style_answer(s.style_view()),
            s.state_store_view() == state_store,
    {
        Self::with_progress(fs, state_store, NoopProgressReporter)
    }
}

impl<F: Filesystem, S: TransferStateStore, P: ProgressReporter> NodesDownloadService<F, S, P> {
    /// The filesystem the service writes to.
    pub closed spec fn fs_view(&self) -> F {
        self.fs
    }

    /// The path style the service works in: the one its filesystem reported
    /// when the service was made.
    pub closed spec fn style_view(&self) -> PathStyle {
        self.style
    }

    /// The store that records finished files.
    pub closed spec fn state_store_view(&self) -> S {
        self.state_store
    }

    /// The progress reporter.
    pub closed spec fn progress_view(&self) -> P {
        self.progress
    }

    /// A service on the given filesystem, state store and progress reporter.
    pub fn with_progress(fs: F, state_store: S, progress: P) -> (s: Self)
        ensures
            s.fs_view() == fs,
            fs.style_answer(s.style_view()),
            s.state_store_view() == state_store,
            s.progress_view() == progress,
    {
        let style = fs.path_style();
        NodesDownloadService {
            fs,
            style,
            state_store,
            path_pagination: NodesPathPaginationHelper::new(),
            progress,
        }
    }

    /// The filesystem the service writes to.
    pub fn filesystem(&self) -> (f: &F)
        ensures
            *f == self.fs_view(),
    {
        &self.fs
    }

    /// The store that records finished files.
    pub fn state_store(&self) -> (s: &S)
        ensures
            *s == self.state_store_view(),
    {
        &self.state_store
    }

    /// The progress reporter.
    pub fn progress(&self) -> (p: &P)
        ensures
            *p == self.progress_view(),
    {
        &self.progress
    }

    /// The local target of a single file: inside `target` when the
    /// filesystem says that is a directory, else `target` itself.
    pub fn resolve_single_file_target(&self, target: &str, file_name: &str) -> (r: String)
        ensures
            exists|is_dir: bool|
                #[trigger] self.fs_view().dir_answer(target@, is_dir) && r@ == if is_dir {
                    join_spec(self.style_view(), target@, file_name@)
                } else {
                    normalize_spec(self.style_view(), target@)
                },
    {
        let is_dir = self.fs.is_dir(target);
        let r = if is_dir {
            join_paths_with_style(self.style, target, file_name)
        } else {
            normalize_path_with_style(self.style, target)
        };
        assert(self.fs_view().dir_answer(target@, is_dir));
        r
    }

    /// The local target of each file inside `target_base`, by node id.
    pub fn resolve_targets_from_base(&self, target_base: &str, files: &[RemoteNodeRef]) -> (r: HashMap<u64, String>)
        ensures
            string_map_view(r@) == base_targets_spec(self.style_view(), target_base@, files@),
    {
        let mut m: HashMap<u64, String> = HashMap::new();
        let mut i: usize = 0;
        while i < files.len()
            invariant
                i <= files.len(),
                string_map_view(m@) == base_targets_spec(
                    self.style_view(),
                    target_base@,
                    files@.subrange(0, i as int),
                ),
            decreases files.len() - i,
        {
            let target = join_paths_with_style(self.style, target_base, files[i].name.as_str());
            let ghost before = m@;
            m.insert(files[i].id, target);
            assert(files@.subrange(0, i + 1).drop_last() =~= files@.subrange(0, i as int));
            assert(string_map_view(m@) =~= string_map_view(before).insert(files@[i as int].id, target@));
            i = i + 1;
        }
        assert(files@.subrange(0, files@.len() as int) =~= files@);
        m
    }

    /// Joins `segments` onto `base` one after the other.
    fn join_segments(&self, base: &str, segments: &[String]) -> (r: String)
        ensures
            r@ == join_segments_spec(self.style_view(), base@, str_views(segments@)),
    {
        let mut acc: String = base.to_owned();
        let mut i: usize = 0;
        while i < segments.len()
            invariant
                i <= segments.len(),
                acc@ == join_segments_spec(
                    self.style_view(),
                    base@,
                    str_views(segments@).subrange(0, i as int),
                ),
            decreases segments.len() - i,
        {
            let next = join_paths_with_style(self.style, acc.as_str(), segments[i].as_str());
            assert(str_views(segments@).subrange(0, i + 1).drop_last() =~= str_views(
                segments@,
            ).subrange(0, i as int));
            acc = next;
            i = i + 1;
        }
        assert(str_views(segments@).subrange(0, segments@.len() as int) =~= str_views(segments@));
        acc
    }

    /// The segments of a node's full remote path.
    fn full_remote_segments(&self, node: &RemoteNodeRef) -> (r: Result<Vec<String>, DcCmdError>)
        ensures
            match full_segments_spec(*node) {
                Ok(segs) => r matches Ok(v) && str_views(v@) == segs,
                Err(m) => r matches Err(DcCmdError::InvalidPath(x)) && x@ == m,
            },
    {
        match &node.parent_path {
            None => {
                let mut v: Vec<char> = Vec::new();
                append_str(&mut v, "Node '");
                append_str(&mut v, node.name.as_str());
                append_str(&mut v, "' has no parent path");
                Err(DcCmdError::InvalidPath(string_of(v.as_slice())))
            },
            Some(parent_path) => {
                let mut segments = split_remote_path(parent_path.as_str());
                let ghost before = segments@;
                segments.push(node.name.clone());
                assert(str_views(segments@) =~= str_views(before).push(node.name@));
                Ok(segments)
            },
        }
    }

    /// The segments of `child`'s remote path below `container`.
    fn relative_path_segments(&self, container: &RemoteNodeRef, child: &RemoteNodeRef) -> (r: Result<
        Vec<String>,
        DcCmdError,
    >)
        ensures
            match relative_segments_spec(*container, *child) {
                Ok(segs) => r matches Ok(v) && str_views(v@) == segs,
                Err(m) => r matches Err(DcCmdError::InvalidPath(x)) && x@ == m,
            },
    {
        let container_path = match self.full_remote_segments(container) {
            Ok(p) => p,
            Err(e) => {
                return Err(e);
            },
        };
        let child_path = match self.full_remote_segments(child) {
            Ok(p) => p,
            Err(e) => {
                return Err(e);
            },
        };
        let ghost c = str_views(container_path@);
        let ghost ch = str_views(child_path@);
        let n = container_path.len();
        let mut inside = child_path.len() >= n;
        if inside {
            let mut i: usize = 0;
            assert(ch.subrange(0, 0) =~= c.subrange(0, 0));
            while i < n
                invariant
                    n == container_path.len(),
                    n <= child_path.len(),
                    i <= n,
                    c == str_views(container_path@),
                    ch == str_views(child_path@),
                    inside == (ch.subrange(0, i as int) == c.subrange(0, i as int)),
                decreases n - i,
            {
                let same = child_path[i] == container_path[i];
                assert(ch.subrange(0, i + 1) =~= ch.subrange(0, i as int).push(ch[i as int]));
                assert(c.subrange(0, i + 1) =~= c.subrange(0, i as int).push(c[i as int]));
                proof {
                    if ch.subrange(0, i + 1) == c.subrange(0, i + 1) {
                        assert(ch.subrange(0, i + 1)[i as int] == c.subrange(0, i + 1)[i as int]);
                        assert(ch.subrange(0, i as int) =~= ch.subrange(0, i + 1).drop_last());
                        assert(c.subrange(0, i as int) =~= c.subrange(0, i + 1).drop_last());
                    }
                }
                inside = inside && same;
                i = i + 1;
            }
            assert(c.subrange(0, n as int) =~= c);
        }
        if !inside {
            let mut v: Vec<char> = Vec::new();
            append_str(&mut v, "Node '");
            append_str(&mut v, child.name.as_str());
            append_str(&mut v, "' is outside container '");
            append_str(&mut v, container.name.as_str());
            append_str(&mut v, "'");
            return Err(DcCmdError::InvalidPath(string_of(v.as_slice())));
        }
        let mut rel: Vec<String> = Vec::new();
        let mut j: usize = n;
        while j < child_path.len()
            invariant
                n <= j <= child_path.len(),
                ch == str_views(child_path@),
                str_views(rel@) == ch.subrange(n as int, j as int),
            decreases child_path.len() - j,
        {
            let ghost before = rel@;
            rel.push(child_path[j].clone());
            assert(str_views(rel@) =~= str_views(before).push(ch[j as int]));
            assert(ch.subrange(n as int, j + 1) =~= ch.subrange(n as int, j as int).push(ch[j as int]));
            j = j + 1;
        }
        Ok(rel)
    }

    /// Plans a container download into `target_base`: the local root, the
    /// directories to create and where each file goes. It fails on the first
    /// node (folders before files) that lies outside the container, and
    /// succeeds exactly when every folder lies in the container and every
    /// file strictly inside it. When the remote names are clean segments
    /// (without colons on Windows, where the root must hold no stray colon
    /// either), every directory and file target lies below the root.
    pub fn plan_container_download(
        &self,
        target_base: &str,
        container: &RemoteNodeRef,
        folders: &[RemoteNodeRef],
        files: &[RemoteNodeRef],
    ) -> (r: Result<DownloadContainerPlan, DcCmdError>)
        ensures
            match container_plan_spec(
                self.style_view(),
                target_base@,
                *container,
                folders@,
                files@,
            ) {
                Ok((root, dirs, targets)) => r matches Ok(plan) && plan.root_target@ == root
                    && strictly_sorted(str_views(plan.directories@)) && str_views(
                    plan.directories@,
                ).to_set() == dirs && string_map_view(plan.file_targets@) == targets,
                Err(m) => r matches Err(DcCmdError::InvalidPath(x)) && x@ == m,
            },
            r matches Ok(plan) ==> str_views(plan.directories@).contains(plan.root_target@),
            r is Ok <==> (folders_placeable(*container, folders@) && files_placeable(*container, files@)),
            self.style_view() == PathStyle::Unix && (forall|i: int|
                0 <= i < folders@.len() ==> (full_segments_spec(#[trigger] folders@[i]) matches Ok(s) ==> all_clean(s)))
                && (forall|i: int|
                0 <= i < files@.len() ==> (full_segments_spec(#[trigger] files@[i]) matches Ok(s) ==> all_clean(s)))
                ==> (r matches Ok(plan) ==> {
                &&& forall|k: int| 0 <= k < plan.directories@.len() && plan.directories@[k]@ != plan.root_target@
                    ==> exists|rel: Seq<Seq<char>>| rel.len() > 0 && all_clean(rel) && (#[trigger] plan.directories@[k])@
                    == below(plan.root_target@) + join(rel, seq!['/'])
                &&& forall|id: u64| #[trigger] string_map_view(plan.file_targets@).dom().contains(id) ==> exists|
                    rel: Seq<Seq<char>>,
                | rel.len() > 0 && all_clean(rel) && string_map_view(plan.file_targets@)[id] == below(plan.root_target@)
                    + join(rel, seq!['/'])
            }),
            self.style_view() == PathStyle::Windows && (forall|i: int|
                0 <= i < join_spec(PathStyle::Windows, target_base@, container.name@).len() && join_spec(
                    PathStyle::Windows,
                    target_base@,
                    container.name@,
                )[i] == ':' ==> i == 1) && (forall|i: int|
                0 <= i < folders@.len() ==> (full_segments_spec(#[trigger] folders@[i]) matches Ok(s) ==> all_win_segs(s)))
                && (forall|i: int|
                0 <= i < files@.len() ==> (full_segments_spec(#[trigger] files@[i]) matches Ok(s) ==> all_win_segs(s)))
                ==> (r matches Ok(plan) ==> {
                &&& forall|k: int| 0 <= k < plan.directories@.len() && plan.directories@[k]@ != plan.root_target@
                    ==> exists|rel: Seq<Seq<char>>| rel.len() > 0 && all_win_segs(rel) && (#[trigger] plan.directories@[k])@
                    == win_below(plan.root_target@) + join(rel, seq!['\\'])
                &&& forall|id: u64| #[trigger] string_map_view(plan.file_targets@).dom().contains(id) ==> exists|
                    rel: Seq<Seq<char>>,
                | rel.len() > 0 && all_win_segs(rel) && string_map_view(plan.file_targets@)[id] == win_below(plan.root_target@)
                    + join(rel, seq!['\\'])
            }),
    {
        let r = self.plan_container_download_exact(target_base, container, folders, files);
        proof {
            let style = self.style_view();
            lemma_container_plan_ok(style, target_base@, *container, folders@, files@);
            if r is Ok {
                let plan = r->Ok_0;
                let dv = str_views(plan.directories@);
                assert forall|k: int| 0 <= k < plan.directories@.len() implies dv.to_set().contains(
                    #[trigger] plan.directories@[k]@,
                ) by {
                    assert(dv[k] == plan.directories@[k]@);
                }
                if style == PathStyle::Unix && (forall|i: int|
                    0 <= i < folders@.len() ==> (full_segments_spec(#[trigger] folders@[i]) matches Ok(s) ==> all_clean(s)))
                    && (forall|i: int|
                    0 <= i < files@.len() ==> (full_segments_spec(#[trigger] files@[i]) matches Ok(s) ==> all_clean(s))) {
                    lemma_container_plan_inside_root(target_base@, *container, folders@, files@);
                }
                if style == PathStyle::Windows && (forall|i: int|
                    0 <= i < join_spec(PathStyle::Windows, target_base@, container.name@).len() && join_spec(
                        PathStyle::Windows,
                        target_base@,
                        container.name@,
                    )[i] == ':' ==> i == 1) && (forall|i: int|
                    0 <= i < folders@.len() ==> (full_segments_spec(#[trigger] folders@[i]) matches Ok(s) ==> all_win_segs(s)))
                    && (forall|i: int|
                    0 <= i < files@.len() ==> (full_segments_spec(#[trigger] files@[i]) matches Ok(s) ==> all_win_segs(s))) {
                    lemma_container_plan_inside_root_windows(target_base@, *container, folders@, files@);
                }
            }
        }
        r
    }

    fn plan_container_download_exact(
        &self,
        target_base: &str,
        container: &RemoteNodeRef,
        folders: &[RemoteNodeRef],
        files: &[RemoteNodeRef],
    ) -> (r: Result<DownloadContainerPlan, DcCmdError>)
        ensures
            match container_plan_spec(
                self.style_view(),
                target_base@,
                *container,
                folders@,
                files@,
            ) {
                Ok((root, dirs, targets)) => r matches Ok(plan) && plan.root_target@ == root
                    && strictly_sorted(str_views(plan.directories@)) && str_views(
                    plan.directories@,
                ).to_set() == dirs && string_map_view(plan.file_targets@) == targets,
                Err(m) => r matches Err(DcCmdError::InvalidPath(x)) && x@ == m,
            },
            r matches Ok(plan) ==> str_views(plan.directories@).contains(plan.root_target@),
    {
        let ghost style = self.style_view();
        let root_target = join_paths_with_style(self.style, target_base, container.name.as_str());
        let root_norm = normalize_path_with_style(self.style, root_target.as_str());
        let mut directories: Vec<String> = Vec::new();
        assert(str_views(directories@) =~= Seq::<Seq<char>>::empty());
        assert(str_views(directories@).to_set() =~= Set::<Seq<char>>::empty());
        insert_sorted_unique(&mut directories, root_norm);
        let mut i: usize = 0;
        while i < folders.len()
            invariant
                i <= folders.len(),
                style == self.style_view(),
                root_target@ == join_spec(style, target_base@, container.name@),
                strictly_sorted(str_views(directories@)),
                folder_dirs_spec(style, root_target@, *container, folders@.subrange(0, i as int)) matches Ok(
                    d,
                ) && str_views(directories@).to_set() == d.insert(normalize_spec(style, root_target@)),
            decreases folders.len() - i,
        {
            assert(folders@.subrange(0, i + 1).drop_last() =~= folders@.subrange(0, i as int));
            assert(folders@.subrange(0, i + 1).last() == folders@[i as int]);
            let relative = match self.relative_path_segments(container, &folders[i]) {
                Ok(rel) => rel,
                Err(e) => {
                    proof {
                        lemma_folder_dirs_err_prefix(style, root_target@, *container, folders@, i as int + 1);
                    }
                    return Err(e);
                },
            };
            if relative.len() > 0 {
                let resolved = self.join_segments(root_target.as_str(), relative.as_slice());
                let normalized = normalize_path_with_style(self.style, resolved.as_str());
                let ghost before = str_views(directories@).to_set();
                insert_sorted_unique(&mut directories, normalized);
            }
            i = i + 1;
        }
        assert(folders@.subrange(0, folders@.len() as int) =~= folders@);
        let mut file_targets: HashMap<u64, String> = HashMap::new();
        assert(string_map_view(file_targets@) =~= Map::<u64, Seq<char>>::empty());
        let mut j: usize = 0;
        while j < files.len()
            invariant
                j <= files.len(),
                style == self.style_view(),
                root_target@ == join_spec(style, target_base@, container.name@),
                strictly_sorted(str_views(directories@)),
                folder_dirs_spec(style, root_target@, *container, folders@) matches Ok(d)
                    && str_views(directories@).to_set() == d.insert(normalize_spec(style, root_target@)),
                file_targets_spec(style, root_target@, *container, files@.subrange(0, j as int)) matches Ok(t)
                    && string_map_view(file_targets@) == t,
            decreases files.len() - j,
        {
            assert(files@.subrange(0, j + 1).drop_last() =~= files@.subrange(0, j as int));
            assert(files@.subrange(0, j + 1).last() == files@[j as int]);
            let relative = match self.relative_path_segments(container, &files[j]) {
                Ok(rel) => rel,
                Err(e) => {
                    proof {
                        lemma_file_targets_err_prefix(style, root_target@, *container, files@, j as int + 1);
                    }
                    return Err(e);
                },
            };
            if relative.len() == 0 {
                let mut v: Vec<char> = Vec::new();
                append_str(&mut v, "Invalid relative file target for node ");
                append_str(&mut v, files[j].name.as_str());
                proof {
                    lemma_file_targets_err_prefix(style, root_target@, *container, files@, j as int + 1);
                }
                return Err(DcCmdError::InvalidPath(string_of(v.as_slice())));
            }
            let resolved = self.join_segments(root_target.as_str(), relative.as_slice());
            let normalized = normalize_path_with_style(self.style, resolved.as_str());
            let ghost before = file_targets@;
            file_targets.insert(files[j].id, normalized);
            assert(string_map_view(file_targets@) =~= string_map_view(before).insert(
                files@[j as int].id,
                normalized@,
            ));
            j = j + 1;
        }
        assert(files@.subrange(0, files@.len() as int) =~= files@);
        let root_final = normalize_path_with_style(self.style, root_target.as_str());
        proof {
            let dv = str_views(directories@);
            assert(dv.to_set().contains(root_final@));
            assert(dv.contains(root_final@));
        }
        Ok(DownloadContainerPlan {
            root_target: root_final,
            directories,
            file_targets,
        })
    }

    /// Creates each of the given directories, stopping at the first failure:
    /// with nothing to create, or on a filesystem whose creations always
    /// succeed, it succeeds; after a success all of them exist; a failure is
    /// the error with which the filesystem refused one of them, all before it
    /// existing; the store and the progress reporter are left as they were.
    pub fn create_directories(&mut self, directories: &[String]) -> (r: Result<(), DcCmdError>)
        ensures
            final(self).style_view() == old(self).style_view(),
            forall|st: PathStyle|
                old(self).fs_view().style_answer(st) ==> #[trigger] final(self).fs_view().style_answer(st),
            directories@.len() == 0 ==> r is Ok,
            old(self).fs_view().always_creates() ==> r is Ok,
            r is Ok ==> forall|i: int|
                0 <= i < directories@.len() ==> final(self).fs_view().has_dir(#[trigger] directories@[i]@),
            r matches Err(e) ==> exists|i: int|
                0 <= i < directories@.len() && #[trigger] final(self).fs_view().has_refused(directories@[i]@, e)
                    && forall|j: int| 0 <= j < i ==> final(self).fs_view().has_dir(#[trigger] directories@[j]@),
            final(self).state_store_view() == old(self).state_store_view(),
            final(self).progress_view() == old(self).progress_view(),
    {
        let mut i: usize = 0;
        while i < directories.len()
            invariant
                i <= directories.len(),
                self.style_view() == old(self).style_view(),
                forall|st: PathStyle|
                    old(self).fs_view().style_answer(st) ==> #[trigger] self.fs_view().style_answer(st),
                forall|j: int| 0 <= j < i ==> self.fs_view().has_dir(#[trigger] directories@[j]@),
                old(self).fs_view().always_creates() ==> self.fs_view().always_creates(),
                self.state_store_view() == old(self).state_store_view(),
                self.progress_view() == old(self).progress_view(),
            decreases directories.len() - i,
        {
            let ghost fs_before = self.fs_view();
            let res = self.fs.create_dir_all(directories[i].as_str());
            assert(forall|j: int| 0 <= j < i ==> self.fs_view().has_dir(#[trigger] directories@[j]@)) by {
                assert forall|j: int| 0 <= j < i implies self.fs_view().has_dir(#[trigger] directories@[j]@) by {
                    assert(fs_before.has_dir(directories@[j]@));
                }
            }
            assert forall|st: PathStyle| old(self).fs_view().style_answer(st) implies #[trigger] self.fs_view().style_answer(
                st,
            ) by {
                assert(fs_before.style_answer(st));
            }
            match res {
                Ok(()) => {},
                Err(e) => {
                    assert(self.fs_view().has_refused(directories@[i as int]@, e));
                    return Err(e);
                },
            }
            i = i + 1;
        }
        Ok(())
    }
}

} // verus!
