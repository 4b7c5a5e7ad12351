//! Local path handling for Unix and Windows path styles: normalisation
//! (collapsing separators, `.` and `..`), joining, and a filesystem abstraction
//! with an in-memory implementation.

use vstd::prelude::*;
use crate::errors::DcCmdError;
use crate::app::nodes::download::plan_laws::{lemma_normalize_unix_no_dots, lemma_normalize_unix_single_slashes};
use crate::app::nodes::path_laws::{lemma_normalize_unix_idempotent, lemma_normalize_unix_shape};
use crate::app::nodes::windows_laws::{lemma_normalize_windows_idempotent, no_dot_pieces};
use crate::text::{
    chars_eq, chars_of, extend_chars, join, join_chars, replace_char, replace_chars,
    slice_to_vec, split, split_chars, starts_with, starts_with_chars, string_of, trim_end,
    trim_end_chars, trim_start, trim_start_chars, views, str_views, last_index_of, rfind_char,
    contains_string, char_string,
};

verus! {

/// The separator convention of a local filesystem.
#[derive(Debug, Clone, Copy, PartialEq, Eq, Structural)]
pub enum PathStyle {
    Unix,
    Windows,
}

/// The separator character of a path style.
pub open spec fn sep_of(style: PathStyle) -> char {
    match style {
        PathStyle::Unix => '/',
        PathStyle::Windows => '\\',
    }
}

/// A character that UTF-8 encodes in a single byte.
pub open spec fn is_ascii_char(c: char) -> bool {
    (c as u32) < 128
}

/// One step of resolving path segments: empty and `.` segments vanish, `..`
/// drops the last kept segment (if any), anything else is kept.
pub open spec fn resolve_step(stack: Seq<Seq<char>>, seg: Seq<char>) -> Seq<Seq<char>> {
    if seg.len() == 0 || seg == seq!['.'] {
        stack
    } else if seg == seq!['.', '.'] {
        if stack.len() > 0 {
            stack.drop_last()
        } else {
            stack
        }
    } else {
        stack.push(seg)
    }
}

/// The segments kept after resolving `segs` from left to right.
pub open spec fn resolve(segs: Seq<Seq<char>>) -> Seq<Seq<char>>
    decreases segs.len(),
{
    if segs.len() == 0 {
        Seq::<Seq<char>>::empty()
    } else {
        resolve_step(resolve(segs.drop_last()), segs.last())
    }
}

/// Unix normalisation: backslashes become slashes, segments are resolved, and a
/// leading slash is kept (the root alone is `/`).
pub open spec fn normalize_unix(path: Seq<char>) -> Seq<char> {
    let raw = replace_char(path, '\\', '/');
    let joined = join(resolve(split(raw, '/')), seq!['/']);
    if raw.len() > 0 && raw[0] == '/' {
        if joined.len() == 0 {
            seq!['/']
        } else {
            seq!['/'] + joined
        }
    } else {
        joined
    }
}

/// Whether a (slash-converted) Windows path begins with a drive like `C:`.
pub open spec fn has_drive_prefix(raw: Seq<char>) -> bool {
    raw.len() >= 2 && is_ascii_char(raw[0]) && raw[1] == ':'
}

/// The prefix (`\\`, a drive, `\` or nothing), the remainder after it, and
/// whether the remainder is rooted, of a backslash-separated Windows path.
pub open spec fn windows_parts(raw: Seq<char>) -> (Seq<char>, Seq<char>, bool) {
    if starts_with(raw, seq!['\\', '\\']) {
        (seq!['\\', '\\'], raw.subrange(2, raw.len() as int), true)
    } else if has_drive_prefix(raw) {
        let rest = raw.subrange(2, raw.len() as int);
        (raw.subrange(0, 2), rest, starts_with(rest, seq!['\\']))
    } else if starts_with(raw, seq!['\\']) {
        (seq!['\\'], trim_start(raw, '\\'), true)
    } else {
        (Seq::<char>::empty(), raw, false)
    }
}

/// Windows normalisation: slashes become backslashes, the prefix is kept, the
/// remaining segments are resolved and joined by backslashes.
pub open spec fn normalize_windows(path: Seq<char>) -> Seq<char> {
    let raw = replace_char(path, '/', '\\');
    if raw.len() == 0 {
        Seq::<char>::empty()
    } else {
        let (prefix, rest, absolute) = windows_parts(raw);
        let joined = join(resolve(split(rest, '\\')), seq!['\\']);
        if prefix == seq!['\\', '\\'] {
            if joined.len() == 0 {
                seq!['\\', '\\']
            } else {
                seq!['\\', '\\'] + joined
            }
        } else if prefix.len() > 0 {
            if joined.len() == 0 {
                if absolute {
                    prefix.push('\\')
                } else {
                    prefix
                }
            } else {
                prefix + seq!['\\'] + joined
            }
        } else if absolute {
            if joined.len() == 0 {
                seq!['\\']
            } else {
                seq!['\\'] + joined
            }
        } else {
            joined
        }
    }
}

/// Normalisation in the given style.
pub open spec fn normalize_spec(style: PathStyle, path: Seq<char>) -> Seq<char> {
    match style {
        PathStyle::Unix => normalize_unix(path),
        PathStyle::Windows => normalize_windows(path),
    }
}

/// A Windows drive root such as `C:\` or `C:/`.
pub open spec fn is_drive_root(p: Seq<char>) -> bool {
    p.len() == 3 && is_ascii_char(p[0]) && p[1] == ':' && (p[2] == '\\' || p[2] == '/')
}

/// Whether a path is absolute in the given style.
pub open spec fn is_absolute(style: PathStyle, p: Seq<char>) -> bool {
    match style {
        PathStyle::Unix => starts_with(p, seq!['/']),
        PathStyle::Windows => starts_with(p, seq!['\\']) || starts_with(p, seq!['/', '/'])
            || (p.len() >= 3 && is_ascii_char(p[0]) && p[1] == ':' && (p[2] == '\\' || p[2]
            == '/')),
    }
}

/// Joining a child path onto a base: both are normalised; an empty child gives
/// the base, an absolute child replaces the base, otherwise the child follows
/// the base after one separator.
pub open spec fn join_spec(style: PathStyle, base: Seq<char>, child: Seq<char>) -> Seq<char> {
    let nb = normalize_spec(style, base);
    let nc = normalize_spec(style, child);
    if nc.len() == 0 {
        nb
    } else if is_absolute(style, nc) {
        nc
    } else if nb.len() == 0 {
        nc
    } else {
        let sep = sep_of(style);
        let b = trim_end(nb, sep);
        if b == seq![sep] {
            b + trim_start(nc, sep)
        } else if is_drive_root(b) {
            b + seq!['\\'] + trim_start(nc, '\\')
        } else {
            b + seq![sep] + trim_start(nc, sep)
        }
    }
}

fn is_ascii(c: char) -> (b: bool)
    ensures
        b == is_ascii_char(c),
{
    (c as u32) < 128
}

fn separator(style: PathStyle) -> (c: char)
    ensures
        c == sep_of(style),
{
    match style {
        PathStyle::Unix => '/',
        PathStyle::Windows => '\\',
    }
}

/// Resolves segments from left to right (see `resolve`).
fn resolve_segments(segs: &Vec<Vec<char>>) -> (stack: Vec<Vec<char>>)
    ensures
        views(stack@) == resolve(views(segs@)),
{
    let mut stack: Vec<Vec<char>> = Vec::new();
    let mut i: usize = 0;
    assert(views(segs@).subrange(0, 0) =~= Seq::<Seq<char>>::empty());
    assert(views(stack@) =~= Seq::<Seq<char>>::empty());
    while i < segs.len()
        invariant
            i <= segs.len(),
            views(stack@) == resolve(views(segs@).subrange(0, i as int)),
        decreases segs.len() - i,
    {
        let seg = &segs[i];
        let ghost pre = views(segs@).subrange(0, i as int);
        assert(views(segs@).subrange(0, i + 1).drop_last() =~= pre);
        assert(views(segs@).subrange(0, i + 1).last() == seg@);
        let is_dot = seg.len() == 1 && seg[0] == '.';
        let is_dotdot = seg.len() == 2 && seg[0] == '.' && seg[1] == '.';
        assert(is_dot == (seg@ == seq!['.'])) by {
            if seg@.len() == 1 && seg@[0] == '.' {
                assert(seg@ =~= seq!['.']);
            }
        }
        assert(is_dotdot == (seg@ == seq!['.', '.'])) by {
            if seg@.len() == 2 && seg@[0] == '.' && seg@[1] == '.' {
                assert(seg@ =~= seq!['.', '.']);
            }
        }
        if seg.len() == 0 || is_dot {
        } else if is_dotdot {
            if stack.len() > 0 {
                let ghost before = stack@;
                let _ = stack.pop();
                assert(views(stack@) =~= views(before).drop_last());
            }
        } else {
            let copy = slice_to_vec(seg.as_slice(), 0, seg.len());
            assert(copy@ =~= seg@);
            stack.push(copy);
            assert(views(stack@) =~= resolve(views(segs@).subrange(0, i + 1)));
        }
        i = i + 1;
    }
    assert(views(segs@).subrange(0, segs.len() as int) =~= views(segs@));
    stack
}


fn normalize_unix_path(path: &[char]) -> (r: Vec<char>)
    ensures
        r@ == normalize_unix(path@),
{
    let raw = replace_chars(path, '\\', '/');
    let absolute = raw.len() > 0 && raw[0] == '/';
    let segs = split_chars(raw.as_slice(), '/');
    let stack = resolve_segments(&segs);
    let joined = join_chars(&stack, &['/']);
    assert(seq!['/'] =~= [ '/' ]@);
    if absolute {
        if joined.len() == 0 {
            let mut r = Vec::new();
            r.push('/');
            assert(r@ =~= seq!['/']);
            r
        } else {
            let mut r = Vec::new();
            r.push('/');
            extend_chars(&mut r, joined.as_slice());
            assert(r@ =~= seq!['/'] + joined@);
            r
        }
    } else {
        joined
    }
}

fn normalize_windows_path(path: &[char]) -> (r: Vec<char>)
    ensures
        r@ == normalize_windows(path@),
{
    let raw = replace_chars(path, '/', '\\');
    if raw.len() == 0 {
        return Vec::new();
    }
    let ghost parts = windows_parts(raw@);
    let mut prefix: Vec<char> = Vec::new();
    let rest: Vec<char>;
    let absolute: bool;
    if starts_with_chars(raw.as_slice(), &['\\', '\\']) {
        assert(seq!['\\', '\\'] =~= ['\\', '\\']@);
        prefix.push('\\');
        prefix.push('\\');
        rest = slice_to_vec(raw.as_slice(), 2, raw.len());
        absolute = true;
        assert(prefix@ =~= parts.0);
    } else if raw.len() >= 2 && is_ascii(raw[0]) && raw[1] == ':' {
        assert(seq!['\\', '\\'] =~= ['\\', '\\']@);
        prefix = slice_to_vec(raw.as_slice(), 0, 2);
        rest = slice_to_vec(raw.as_slice(), 2, raw.len());
        absolute = starts_with_chars(rest.as_slice(), &['\\']);
        assert(seq!['\\'] =~= ['\\']@);
    } else if starts_with_chars(raw.as_slice(), &['\\']) {
        assert(seq!['\\', '\\'] =~= ['\\', '\\']@);
        assert(seq!['\\'] =~= ['\\']@);
        prefix.push('\\');
        rest = trim_start_chars(raw.as_slice(), '\\');
        absolute = true;
        assert(prefix@ =~= parts.0);
    } else {
        assert(seq!['\\', '\\'] =~= ['\\', '\\']@);
        assert(seq!['\\'] =~= ['\\']@);
        rest = raw;
        absolute = false;
        assert(prefix@ =~= parts.0);
    }
    assert(prefix@ == parts.0 && rest@ == parts.1 && absolute == parts.2);
    let segs = split_chars(rest.as_slice(), '\\');
    let stack = resolve_segments(&segs);
    let joined = join_chars(&stack, &['\\']);
    assert(seq!['\\'] =~= ['\\']@);
    let is_unc = chars_eq(prefix.as_slice(), &['\\', '\\']);
    assert(seq!['\\', '\\'] =~= ['\\', '\\']@);
    if is_unc {
        let mut r = Vec::new();
        r.push('\\');
        r.push('\\');
        extend_chars(&mut r, joined.as_slice());
        assert(joined@.len() == 0 ==> r@ =~= seq!['\\', '\\']);
        assert(r@ =~= seq!['\\', '\\'] + joined@);
        r
    } else if prefix.len() > 0 {
        if joined.len() == 0 {
            if absolute {
                prefix.push('\\');
            }
            prefix
        } else {
            let mut r = prefix;
            r.push('\\');
            extend_chars(&mut r, joined.as_slice());
            r
        }
    } else if absolute {
        let mut r = Vec::new();
        r.push('\\');
        extend_chars(&mut r, joined.as_slice());
        assert(joined@.len() == 0 ==> r@ =~= seq!['\\']);
        assert(r@ =~= seq!['\\'] + joined@);
        r
    } else {
        joined
    }
}

fn normalize_chars(style: PathStyle, path: &[char]) -> (r: Vec<char>)
    ensures
        r@ == normalize_spec(style, path@),
{
    match style {
        PathStyle::Unix => normalize_unix_path(path),
        PathStyle::Windows => normalize_windows_path(path),
    }
}

/// Normalises a local path in the given style. A Unix result is its own
/// normal form, holds no backslash, no two slashes in a row and no `.` or
/// `..` segment, starts with a slash exactly when the path did, and ends
/// with none unless it is `/`. A Windows result holds no slash and no `.` or
/// `..` segment, keeps a UNC prefix, and is its own normal form when the
/// path holds no colon other than right after its first character.
pub fn normalize_path_with_style(style: PathStyle, path: &str) -> (r: String)
    ensures
        r@ == normalize_spec(style, path@),
        style == PathStyle::Unix ==> {
            &&& normalize_unix(r@) == r@
            &&& !r@.contains('\\')
            &&& forall|k: int| 0 <= k < r@.len() - 1 ==> !(#[trigger] r@[k] == '/' && r@[k + 1] == '/')
            &&& forall|i: int| 0 <= i < split(r@, '/').len() ==> #[trigger] split(r@, '/')[i] != seq!['.']
                && split(r@, '/')[i] != seq!['.', '.']
            &&& (r@.len() > 0 && r@[0] == '/') == (replace_char(path@, '\\', '/').len() > 0 && replace_char(
                path@,
                '\\',
                '/',
            )[0] == '/')
            &&& (r@ == seq!['/'] || r@.len() == 0 || r@.last() != '/')
        },
        style == PathStyle::Windows ==> {
            &&& !r@.contains('/')
            &&& no_dot_pieces(split(r@, '\\'))
            &&& (starts_with(replace_char(path@, '/', '\\'), seq!['\\', '\\']) ==> starts_with(r@, seq!['\\', '\\']))
            &&& (forall|i: int| 0 <= i < path@.len() && path@[i] == ':' ==> i == 1) ==> normalize_windows(r@) == r@
        },
{
    let p = chars_of(path);
    let r = normalize_chars(style, p.as_slice());
    proof {
        match style {
            PathStyle::Unix => {
                lemma_normalize_unix_idempotent(path@);
                lemma_normalize_unix_shape(path@);
                lemma_normalize_unix_single_slashes(path@);
                lemma_normalize_unix_no_dots(path@);
            },
            PathStyle::Windows => {
                lemma_normalize_windows_idempotent(path@);
            },
        }
    }
    string_of(r.as_slice())
}

fn is_windows_drive_root(p: &[char]) -> (b: bool)
    ensures
        b == is_drive_root(p@),
{
    p.len() == 3 && is_ascii(p[0]) && p[1] == ':' && (p[2] == '\\' || p[2] == '/')
}

fn is_absolute_path(style: PathStyle, p: &[char]) -> (b: bool)
    ensures
        b == is_absolute(style, p@),
{
    assert(seq!['/'] =~= ['/']@);
    assert(seq!['\\'] =~= ['\\']@);
    assert(seq!['/', '/'] =~= ['/', '/']@);
    match style {
        PathStyle::Unix => starts_with_chars(p, &['/']),
        PathStyle::Windows => {
            starts_with_chars(p, &['\\']) || starts_with_chars(p, &['/', '/']) || (p.len() >= 3
                && is_ascii(p[0]) && p[1] == ':' && (p[2] == '\\' || p[2] == '/'))
        },
    }
}

fn join_chars_with_style(style: PathStyle, base: &[char], child: &[char]) -> (r: Vec<char>)
    ensures
        r@ == join_spec(style, base@, child@),
{
    let nb = normalize_chars(style, base);
    let nc = normalize_chars(style, child);
    if nc.len() == 0 {
        return nb;
    }
    if is_absolute_path(style, nc.as_slice()) {
        return nc;
    }
    if nb.len() == 0 {
        return nc;
    }
    let sep = separator(style);
    let mut b = trim_end_chars(nb.as_slice(), sep);
    if b.len() == 1 && b[0] == sep {
        assert(b@ =~= seq![sep]);
        let tail = trim_start_chars(nc.as_slice(), sep);
        extend_chars(&mut b, tail.as_slice());
        return b;
    }
    assert(b@ != seq![sep]) by {
        if b@ == seq![sep] {
            assert(b@.len() == 1 && b@[0] == sep);
        }
    }
    if is_windows_drive_root(b.as_slice()) {
        let tail = trim_start_chars(nc.as_slice(), '\\');
        b.push('\\');
        extend_chars(&mut b, tail.as_slice());
        return b;
    }
    let tail = trim_start_chars(nc.as_slice(), sep);
    b.push(sep);
    extend_chars(&mut b, tail.as_slice());
    b
}

/// Joins `child` onto `base` in the given style (see `join_spec`).
pub fn join_paths_with_style(style: PathStyle, base: &str, child: &str) -> (r: String)
    ensures
        r@ == join_spec(style, base@, child@),
{
    let b = chars_of(base);
    let c = chars_of(child);
    let r = join_chars_with_style(style, b.as_slice(), c.as_slice());
    string_of(r.as_slice())
}


/// The parent of a normalised Unix path, as `Path::parent` gives it for such
/// paths, with an empty parent reported as the root.
pub open spec fn unix_parent(n: Seq<char>) -> Option<Seq<char>> {
    if n.len() == 0 || n == seq!['/'] {
        None
    } else {
        match last_index_of(n, '/') {
            None => Some(seq!['/']),
            Some(i) => if i == 0 {
                Some(seq!['/'])
            } else {
                Some(n.subrange(0, i))
            },
        }
    }
}

/// The parent of a normalised Windows path: everything before the last
/// backslash, with a bare drive completed to its root; the roots have none.
pub open spec fn windows_parent(n: Seq<char>) -> Option<Seq<char>> {
    let t = trim_end(n, '\\');
    if t.len() == 0 || t == seq!['\\'] || t == seq!['\\', '\\'] || is_drive_root(t) {
        None
    } else {
        match last_index_of(t, '\\') {
            None => None,
            Some(i) => {
                let p = t.subrange(0, i);
                if p.len() == 0 {
                    Some(seq!['\\'])
                } else if p.len() == 2 && is_ascii_char(p[0]) && p[1] == ':' {
                    Some(p.push('\\'))
                } else {
                    Some(p)
                }
            },
        }
    }
}

/// The parent of a path in the given style, computed on its normal form.
pub open spec fn parent_spec(style: PathStyle, path: Seq<char>) -> Option<Seq<char>> {
    let n = normalize_spec(style, path);
    match style {
        PathStyle::Unix => unix_parent(n),
        PathStyle::Windows => windows_parent(n),
    }
}

/// Local filesystem operations that downloads need. Paths are normalised and
/// joined in the filesystem's own style.
///
/// What a filesystem answers is its own affair (the disk of the machine
/// answers from its current state); the predicates below say which answers
/// belong together. A filesystem that says nothing more admits every answer;
/// proofs over any filesystem never see these defaults, so what they prove
/// holds of each filesystem with the answers it gave.
pub trait Filesystem {
    /// Whether `style` is the path style of this filesystem.
    open spec fn style_answer(&self, style: PathStyle) -> bool {
        true
    }

    /// Whether the filesystem holds a directory at `path` (a directory that
    /// a successful `create_dir_all` made).
    open spec fn has_dir(&self, path: Seq<char>) -> bool {
        true
    }

    /// Whether every `create_dir_all` of this filesystem succeeds (as on an
    /// in-memory filesystem). A filesystem that says nothing more promises
    /// no such thing.
    open spec fn always_creates(&self) -> bool {
        false
    }

    /// Whether this filesystem has refused to create the directory at
    /// `path` with the error `e` (a refusal stays on record).
    open spec fn has_refused(&self, path: Seq<char>, e: DcCmdError) -> bool {
        true
    }

    /// Whether `answer` is what `is_dir` may say of `path`.
    open spec fn dir_answer(&self, path: Seq<char>, answer: bool) -> bool {
        true
    }

    fn path_style(&self) -> (s: PathStyle)
        ensures
            self.style_answer(s),
    ;

    /// Creates the directory at `path` with its parents; it exists after a
    /// success, no directory disappears and the style stays.
    fn create_dir_all(&mut self, path: &str) -> (r: Result<(), DcCmdError>)
        ensures
            forall|st: PathStyle| old(self).style_answer(st) ==> #[trigger] final(self).style_answer(st),
            r is Ok ==> final(self).has_dir(path@),
            forall|p: Seq<char>| old(self).has_dir(p) ==> #[trigger] final(self).has_dir(p),
            old(self).always_creates() ==> r is Ok && final(self).always_creates(),
            r matches Err(e) ==> final(self).has_refused(path@, e),
            forall|p: Seq<char>, e: DcCmdError| old(self).has_refused(p, e) ==> #[trigger] final(self).has_refused(p, e),
    ;

    fn is_dir(&self, path: &str) -> (b: bool)
        ensures
            self.dir_answer(path@, b),
    ;

    /// The path normalised in this filesystem's style.
    fn normalize(&self, path: &str) -> (r: String)
        ensures
            exists|st: PathStyle| #[trigger] self.style_answer(st) && r@ == normalize_spec(st, path@),
    {
        let st = self.path_style();
        normalize_path_with_style(st, path)
    }

    /// `child` joined onto `base` in this filesystem's style.
    fn join(&self, base: &str, child: &str) -> (r: String)
        ensures
            exists|st: PathStyle| #[trigger] self.style_answer(st) && r@ == join_spec(st, base@, child@),
    {
        let st = self.path_style();
        join_paths_with_style(st, base, child)
    }
}

/// An in-memory filesystem that records created directories and files.
#[derive(Debug)]
pub struct MockFilesystem {
    style: PathStyle,
    directories: Vec<String>,
    files: Vec<String>,
}

impl MockFilesystem {
    /// The (normalised) directories created so far.
    pub closed spec fn dirs(&self) -> Set<Seq<char>> {
        str_views(self.directories@).to_set()
    }

    /// The (normalised) files created so far.
    pub closed spec fn file_set(&self) -> Set<Seq<char>> {
        str_views(self.files@).to_set()
    }

    pub closed spec fn style_view(&self) -> PathStyle {
        self.style
    }

    /// An empty filesystem of the given style.
    pub fn new(style: PathStyle) -> (fs: Self)
        ensures
            fs.style_view() == style,
            fs.dirs() == Set::<Seq<char>>::empty(),
            fs.file_set() == Set::<Seq<char>>::empty(),
    {
        let fs = MockFilesystem { style, directories: Vec::new(), files: Vec::new() };
        assert(str_views(fs.directories@).to_set() =~= Set::<Seq<char>>::empty());
        assert(str_views(fs.files@).to_set() =~= Set::<Seq<char>>::empty());
        fs
    }

    /// A filesystem of the given style that holds the given directories.
    pub fn with_directories(style: PathStyle, directories: &[&str]) -> (fs: Self)
        ensures
            fs.style_view() == style,
            fs.dirs() == Set::new(|p: Seq<char>| exists|i: int| 0 <= i < directories@.len()
                && p == normalize_spec(style, #[trigger] directories@[i]@)),
            fs.file_set() == Set::<Seq<char>>::empty(),
    {
        let mut fs = Self::new(style);
        let mut i: usize = 0;
        while i < directories.len()
            invariant
                i <= directories.len(),
                fs.style_view() == style,
                fs.file_set() == Set::<Seq<char>>::empty(),
                fs.dirs() == Set::new(|p: Seq<char>| exists|k: int| 0 <= k < i
                    && p == normalize_spec(style, #[trigger] directories@[k]@)),
            decreases directories.len() - i,
        {
            let _ = fs.create_dir_all(directories[i]);
            i = i + 1;
            assert(fs.dirs() =~= Set::new(|p: Seq<char>| exists|k: int| 0 <= k < i
                && p == normalize_spec(style, #[trigger] directories@[k]@))) by {
                assert forall|p: Seq<char>| fs.dirs().contains(p) implies exists|k: int|
                    0 <= k < i && p == normalize_spec(style, #[trigger] directories@[k]@) by {
                    if p == normalize_spec(style, directories@[i - 1]@) {
                        assert(0 <= i - 1 < i);
                    }
                }
            }
        }
        fs
    }

    fn insert_unique(v: &mut Vec<String>, s: String)
        ensures
            str_views(final(v)@).to_set() == str_views(old(v)@).to_set().insert(s@),
    {
        if !contains_string(v, &s) {
            let ghost before = v@;
            v.push(s);
            assert(str_views(v@) =~= str_views(before).push(s@));
            proof {
                str_views(before).lemma_push_to_set_commute(s@);
            }
        } else {
            assert(str_views(v@).to_set() =~= str_views(v@).to_set().insert(s@));
        }
    }

    fn parent_path(&self, path: &str) -> (r: Option<String>)
        ensures
            match parent_spec(self.style_view(), path@) {
                Some(p) => r matches Some(q) && q@ == p,
                None => r is None,
            },
    {
        let normalized = normalize_chars(self.style, chars_of(path).as_slice());
        match self.style {
            PathStyle::Unix => {
                assert(parent_spec(self.style_view(), path@) == unix_parent(normalized@));
                if normalized.len() == 0 || (normalized.len() == 1 && normalized[0] == '/') {
                    assert(normalized@.len() == 1 && normalized@[0] == '/' ==> normalized@
                        =~= seq!['/']);
                    return None;
                }
                assert(normalized@ != seq!['/']) by {
                    if normalized@ == seq!['/'] {
                        assert(normalized@.len() == 1 && normalized@[0] == '/');
                    }
                }
                match rfind_char(normalized.as_slice(), '/') {
                    None => {
                        let r = char_string('/');
                        assert(unix_parent(normalized@) == Some(r@));
                        Some(r)
                    },
                    Some(i) => {
                        if i == 0 {
                            let r = char_string('/');
                            assert(unix_parent(normalized@) == Some(r@));
                            Some(r)
                        } else {
                            let r = string_of(slice_to_vec(normalized.as_slice(), 0, i).as_slice());
                            assert(unix_parent(normalized@) == Some(r@));
                            Some(r)
                        }
                    },
                }
            },
            PathStyle::Windows => {
                assert(parent_spec(self.style_view(), path@) == windows_parent(normalized@));
                let t = trim_end_chars(normalized.as_slice(), '\\');
                let is_root1 = t.len() == 1 && t[0] == '\\';
                let is_root2 = t.len() == 2 && t[0] == '\\' && t[1] == '\\';
                assert(is_root1 == (t@ == seq!['\\'])) by {
                    if t@.len() == 1 && t@[0] == '\\' {
                        assert(t@ =~= seq!['\\']);
                    }
                }
                assert(is_root2 == (t@ == seq!['\\', '\\'])) by {
                    if t@.len() == 2 && t@[0] == '\\' && t@[1] == '\\' {
                        assert(t@ =~= seq!['\\', '\\']);
                    }
                }
                if t.len() == 0 || is_root1 || is_root2 || is_windows_drive_root(t.as_slice()) {
                    return None;
                }
                match rfind_char(t.as_slice(), '\\') {
                    None => None,
                    Some(i) => {
                        let mut p = slice_to_vec(t.as_slice(), 0, i);
                        if p.len() == 0 {
                            let r = char_string('\\');
                            assert(windows_parent(normalized@) == Some(r@));
                            Some(r)
                        } else if p.len() == 2 && is_ascii(p[0]) && p[1] == ':' {
                            p.push('\\');
                            let r = string_of(p.as_slice());
                            assert(windows_parent(normalized@) == Some(r@));
                            Some(r)
                        } else {
                            let r = string_of(p.as_slice());
                            assert(windows_parent(normalized@) == Some(r@));
                            Some(r)
                        }
                    },
                }
            },
        }
    }

    /// Records a file, creating its parent directories first.
    pub fn create_file(&mut self, path: &str) -> (r: Result<(), DcCmdError>)
        ensures
            r is Ok,
            final(self).style_view() == old(self).style_view(),
            final(self).dirs() == match parent_spec(old(self).style_view(), path@) {
                Some(p) => old(self).dirs().insert(normalize_spec(old(self).style_view(), p)),
                None => old(self).dirs(),
            },
            final(self).file_set() == old(self).file_set().insert(
                normalize_spec(old(self).style_view(), path@),
            ),
    {
        if let Some(parent) = self.parent_path(path) {
            let _ = self.create_dir_all(parent.as_str());
        }
        let normalized = normalize_path_with_style(self.style, path);
        Self::insert_unique(&mut self.files, normalized);
        Ok(())
    }

    /// Whether a directory or a file with this (normalised) path was created.
    pub fn path_exists(&self, path: &str) -> (b: bool)
        ensures
            b == (self.dirs().contains(normalize_spec(self.style_view(), path@))
                || self.file_set().contains(normalize_spec(self.style_view(), path@))),
    {
        let normalized = normalize_path_with_style(self.style, path);
        contains_string(&self.directories, &normalized) || contains_string(&self.files, &normalized)
    }
}

impl Filesystem for MockFilesystem {
    open spec fn style_answer(&self, style: PathStyle) -> bool {
        style == self.style_view()
    }

    open spec fn has_dir(&self, path: Seq<char>) -> bool {
        self.dirs().contains(normalize_spec(self.style_view(), path))
    }

    open spec fn dir_answer(&self, path: Seq<char>, answer: bool) -> bool {
        answer == self.has_dir(path)
    }

    open spec fn always_creates(&self) -> bool {
        true
    }

    open spec fn has_refused(&self, path: Seq<char>, e: DcCmdError) -> bool {
        false
    }

    fn path_style(&self) -> (s: PathStyle) {
        self.style
    }

    fn create_dir_all(&mut self, path: &str) -> (r: Result<(), DcCmdError>)
        ensures
            r is Ok,
            final(self).style_view() == old(self).style_view(),
            final(self).dirs() == old(self).dirs().insert(
                normalize_spec(old(self).style_view(), path@),
            ),
            final(self).file_set() == old(self).file_set(),
    {
        let normalized = normalize_path_with_style(self.style, path);
        Self::insert_unique(&mut self.directories, normalized);
        Ok(())
    }

    fn is_dir(&self, path: &str) -> (b: bool) {
        let normalized = normalize_path_with_style(self.style, path);
        contains_string(&self.directories, &normalized)
    }
}

} // verus!
