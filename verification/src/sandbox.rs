//! Confines file access to one directory tree.
//!
//! The evaluator asks for five things: whether a path exists, to open it, its
//! type, the entries of a directory, and a path to import. Each goes through
//! one check, [`NixpkgsIo::ensure_inside`], on the canonical form of the path
//! that was asked for. The caller resolves paths on disk and performs what was
//! granted; the library decides what is granted and shapes what comes back:
//! the answer to a question about existence, the kind of a file, and the
//! entries of a directory.

use bytes::Bytes;
use vstd::prelude::*;

verus! {

/// The buffer that holds the name of a directory entry.
#[verifier::external_type_specification]
#[verifier::external_body]
pub struct ExBytes(bytes::Bytes);

/// The bytes that a buffer holds, in order.
pub uninterp spec fn bytes_of(buffer: Bytes) -> Seq<u8>;

/// `Bytes::from` on a `Vec<u8>`: a buffer that holds the bytes of the
/// vector, in order.
#[verifier::external_body]
fn into_bytes(name: Vec<u8>) -> (out: Bytes)
    ensures
        bytes_of(out) == name@,
{
    Bytes::from(name)
}

/// A path by its components: whether it starts at the root of the file
/// system, and the names that follow, each as its bytes. `.` and `..` are
/// names like any other.
#[derive(Clone, Debug, PartialEq, Eq)]
pub struct SandboxPath {
    pub absolute: bool,
    pub parts: Vec<Vec<u8>>,
}

/// The mathematical content of a [`SandboxPath`].
pub struct PathView {
    pub absolute: bool,
    pub parts: Seq<Seq<u8>>,
}

/// The views of the names of `v`.
pub open spec fn names(v: Seq<Vec<u8>>) -> Seq<Seq<u8>> {
    v.map_values(|n: Vec<u8>| n@)
}

impl View for SandboxPath {
    type V = PathView;

    open spec fn view(&self) -> PathView {
        PathView { absolute: self.absolute, parts: names(self.parts@) }
    }
}

/// The kind of a file.
#[derive(Clone, Copy, Debug, PartialEq, Eq, Structural)]
pub enum FileType {
    Regular,
    Directory,
    Symlink,
}

/// Why access was not granted.
#[derive(Clone, Debug, PartialEq, Eq)]
pub enum SandboxError {
    /// The path has no canonical form: it, or a directory on the way to it,
    /// could not be resolved on disk.
    Unresolved,
    /// The canonical form of the path, which lies outside the root.
    Outside(SandboxPath),
}

/// The mathematical content of a [`SandboxError`].
pub enum SandboxErrorView {
    Unresolved,
    Outside(PathView),
}

impl View for SandboxError {
    type V = SandboxErrorView;

    open spec fn view(&self) -> SandboxErrorView {
        match self {
            SandboxError::Unresolved => SandboxErrorView::Unresolved,
            SandboxError::Outside(p) => SandboxErrorView::Outside(p@),
        }
    }
}

/// One entry of a directory as the file system reports it: its name, whether
/// it is a regular file, and whether it is a directory.
#[derive(Clone, Debug, PartialEq, Eq)]
pub struct RawEntry {
    pub name: Vec<u8>,
    pub is_file: bool,
    pub is_dir: bool,
}

/// `path` lies at or below `root`: it has all the components of `root`, in
/// order, where it starts.
pub open spec fn inside(root: PathView, path: PathView) -> bool {
    &&& root.absolute == path.absolute
    &&& root.parts.is_prefix_of(path.parts)
}

/// `path` taken from `root`: itself where it is absolute, else the components
/// of `root` followed by its own.
pub open spec fn resolved(root: PathView, path: PathView) -> PathView {
    if path.absolute {
        path
    } else {
        PathView { absolute: root.absolute, parts: root.parts + path.parts }
    }
}

/// The one check: the canonical path where there is one and it lies inside
/// `root`, else the reason why not.
pub open spec fn admitted(root: PathView, canonical: Option<PathView>) -> Result<
    PathView,
    SandboxErrorView,
> {
    match canonical {
        None => Err(SandboxErrorView::Unresolved),
        Some(path) => if inside(root, path) {
            Ok(path)
        } else {
            Err(SandboxErrorView::Outside(path))
        },
    }
}

/// The path whose existence answers the question, or `None` where the answer
/// is no without a look at the disk.
pub open spec fn probed(root: PathView, canonical: Option<PathView>) -> Option<PathView> {
    match admitted(root, canonical) {
        Ok(path) => Some(path),
        Err(_) => None,
    }
}

/// The kind of a file that is or is not a regular file, is or is not a
/// directory: what is neither counts as a link.
pub open spec fn kind_of(is_file: bool, is_dir: bool) -> FileType {
    if is_file {
        FileType::Regular
    } else if is_dir {
        FileType::Directory
    } else {
        FileType::Symlink
    }
}

/// The view of what a check handed back.
pub open spec fn admission_view(r: Result<SandboxPath, SandboxError>) -> Result<
    PathView,
    SandboxErrorView,
> {
    match r {
        Ok(path) => Ok(path@),
        Err(e) => Err(e@),
    }
}

/// The view of a path that may be there.
pub open spec fn optional_view(p: Option<SandboxPath>) -> Option<PathView> {
    match p {
        Some(path) => Some(path@),
        None => None,
    }
}

/// The index of the first entry of `raw` that could not be read, or the length
/// of `raw` where all could.
pub open spec fn first_unread(raw: Seq<Option<RawEntry>>) -> int
    decreases raw.len(),
{
    if raw.len() == 0 {
        0
    } else if raw[0] is None {
        0
    } else {
        1 + first_unread(raw.skip(1))
    }
}

/// The name and kind of each entry of `raw`, in order.
pub open spec fn listed(raw: Seq<Option<RawEntry>>) -> Seq<(Seq<u8>, FileType)> {
    raw.map_values(|e: Option<RawEntry>| (e->0.name@, kind_of(e->0.is_file, e->0.is_dir)))
}

/// The names in a listing, as their bytes, with the kinds.
pub open spec fn listing(v: Seq<(Bytes, FileType)>) -> Seq<(Seq<u8>, FileType)> {
    v.map_values(|e: (Bytes, FileType)| (bytes_of(e.0), e.1))
}

/// The text of the error for a path outside the root, of which `shown` is the
/// rendering.
pub open spec fn outside_message_spec(shown: Seq<char>) -> Seq<char> {
    "Path "@ + shown + " is outside nixpkgs root"@
}

/// Whether two names are the same bytes.
fn same_name(a: &Vec<u8>, b: &Vec<u8>) -> (r: bool)
    ensures
        r == (a@ == b@),
{
    if a.len() != b.len() {
        return false;
    }
    let mut i: usize = 0;
    while i < a.len()
        invariant
            i <= a@.len(),
            a@.len() == b@.len(),
            forall|k: int| 0 <= k < i ==> a@[k] == b@[k],
        decreases a@.len() - i,
    {
        if a[i] != b[i] {
            return false;
        }
        i += 1;
    }
    assert(a@ =~= b@);
    true
}

/// A copy of `name`.
fn copy_name(name: &Vec<u8>) -> (out: Vec<u8>)
    ensures
        out@ == name@,
{
    let mut out: Vec<u8> = Vec::new();
    let mut i: usize = 0;
    while i < name.len()
        invariant
            i <= name@.len(),
            out@ == name@.take(i as int),
        decreases name@.len() - i,
    {
        out.push(name[i]);
        assert(name@.take(i + 1) == name@.take(i as int).push(name@[i as int]));
        i += 1;
    }
    assert(name@.take(name@.len() as int) == name@);
    out
}

/// Appends copies of the names of `src` to `dst`.
fn push_names(dst: &mut Vec<Vec<u8>>, src: &Vec<Vec<u8>>)
    ensures
        names(final(dst)@) == names(old(dst)@) + names(src@),
{
    let mut i: usize = 0;
    assert(names(src@).take(0) =~= Seq::<Seq<u8>>::empty());
    assert(names(dst@) + Seq::<Seq<u8>>::empty() =~= names(dst@));
    while i < src.len()
        invariant
            i <= src@.len(),
            names(dst@) == names(old(dst)@) + names(src@).take(i as int),
        decreases src@.len() - i,
    {
        let ghost before = dst@;
        let name = copy_name(&src[i]);
        dst.push(name);
        assert(names(dst@) =~= names(before).push(name@));
        assert(names(src@).take(i + 1) =~= names(src@).take(i as int).push(src@[i as int]@));
        assert(names(dst@) =~= names(old(dst)@) + names(src@).take(i + 1));
        i += 1;
    }
    assert(names(src@).take(src@.len() as int) == names(src@));
}

impl SandboxPath {
    /// A path of the components `parts`, from the root of the file system or
    /// not.
    pub fn new(absolute: bool, parts: Vec<Vec<u8>>) -> (path: SandboxPath)
        ensures
            path@ == (PathView { absolute, parts: names(parts@) }),
    {
        SandboxPath { absolute, parts }
    }

    /// A copy of the path.
    pub fn copy(&self) -> (out: SandboxPath)
        ensures
            out@ == self@,
    {
        let mut parts: Vec<Vec<u8>> = Vec::new();
        assert(names(parts@) =~= Seq::<Seq<u8>>::empty());
        push_names(&mut parts, &self.parts);
        assert(names(parts@) =~= names(self.parts@));
        SandboxPath { absolute: self.absolute, parts }
    }

    /// `path` taken from this one: `path` itself where it is absolute, else
    /// this path followed by the components of `path`.
    pub fn join(&self, path: &SandboxPath) -> (out: SandboxPath)
        ensures
            out@ == resolved(self@, path@),
    {
        if path.absolute {
            path.copy()
        } else {
            let mut parts: Vec<Vec<u8>> = Vec::new();
            assert(names(parts@) =~= Seq::<Seq<u8>>::empty());
            push_names(&mut parts, &self.parts);
            push_names(&mut parts, &path.parts);
            assert(names(parts@) =~= names(self.parts@) + names(path.parts@));
            SandboxPath { absolute: self.absolute, parts }
        }
    }

    /// Whether this path lies at or below `base`.
    pub fn starts_with(&self, base: &SandboxPath) -> (r: bool)
        ensures
            r == inside(base@, self@),
    {
        if self.absolute != base.absolute || base.parts.len() > self.parts.len() {
            return false;
        }
        let mut i: usize = 0;
        while i < base.parts.len()
            invariant
                i <= base.parts@.len() <= self.parts@.len(),
                forall|k: int| 0 <= k < i ==> names(base.parts@)[k] == names(self.parts@)[k],
            decreases base.parts@.len() - i,
        {
            if !same_name(&base.parts[i], &self.parts[i]) {
                assert(names(base.parts@)[i as int] != names(self.parts@)[i as int]);
                assert(names(self.parts@).subrange(0, names(base.parts@).len() as int)[i as int]
                    == names(self.parts@)[i as int]);
                return false;
            }
            i += 1;
        }
        assert(names(self.parts@).subrange(0, names(base.parts@).len() as int) =~= names(
            base.parts@,
        ));
        true
    }
}

/// The sandbox: file access confined to what lies at or below its root.
#[derive(Clone, Debug, PartialEq, Eq)]
pub struct NixpkgsIo {
    root: SandboxPath,
}

impl NixpkgsIo {
    /// The root that every access is held to.
    pub closed spec fn root_view(&self) -> PathView {
        self.root@
    }

    /// A sandbox with the root `root`.
    pub fn new(root: SandboxPath) -> (io: NixpkgsIo)
        ensures
            io.root_view() == root@,
    {
        NixpkgsIo { root }
    }

    /// The root.
    pub fn root(&self) -> (root: &SandboxPath)
        ensures
            root@ == self.root_view(),
    {
        &self.root
    }

    /// The path whose canonical form decides about `path`: `path` itself where
    /// it is absolute, else `path` taken from the root.
    pub fn absolute(&self, path: &SandboxPath) -> (out: SandboxPath)
        ensures
            out@ == resolved(self.root_view(), path@),
    {
        self.root.join(path)
    }

    /// The one check. `canonical` is the canonical form of the path that was
    /// asked for, or `None` where it has none. Grants the canonical path where
    /// it lies inside the root, and refuses everything else.
    pub fn ensure_inside(&self, canonical: Option<SandboxPath>) -> (r: Result<
        SandboxPath,
        SandboxError,
    >)
        ensures
            admission_view(r) == admitted(self.root_view(), optional_view(canonical)),
    {
        match canonical {
            None => Err(SandboxError::Unresolved),
            Some(path) => {
                if path.starts_with(&self.root) {
                    Ok(path)
                } else {
                    Err(SandboxError::Outside(path))
                }
            },
        }
    }

    /// Whether a path exists: the canonical path to look for on disk, or
    /// `None` where the answer is no without a look, because the path has no
    /// canonical form or lies outside the root.
    pub fn path_exists(&self, canonical: Option<SandboxPath>) -> (r: Option<SandboxPath>)
        ensures
            optional_view(r) == probed(self.root_view(), optional_view(canonical)),
    {
        match self.ensure_inside(canonical) {
            Ok(path) => Some(path),
            Err(_) => None,
        }
    }

    /// To import a path: the canonical path to import, or the reason for the
    /// refusal. Importing asks no more of a path than the one check does.
    pub fn import_path(&self, canonical: Option<SandboxPath>) -> (r: Result<
        SandboxPath,
        SandboxError,
    >)
        ensures
            admission_view(r) == admitted(self.root_view(), optional_view(canonical)),
    {
        self.ensure_inside(canonical)
    }
}

/// The kind to report for a file of which the file system says whether it is
/// a regular file and whether it is a directory.
pub fn classify(is_file: bool, is_dir: bool) -> (kind: FileType)
    ensures
        kind == kind_of(is_file, is_dir),
{
    if is_file {
        FileType::Regular
    } else if is_dir {
        FileType::Directory
    } else {
        FileType::Symlink
    }
}

/// Shapes the entries of a directory as they were read, `None` standing for
/// one that could not be read: the name and kind of each, in order, or the
/// index of the first that could not be read.
pub fn list_entries(raw: Vec<Option<RawEntry>>) -> (r: Result<Vec<(Bytes, FileType)>, usize>)
    ensures
        match r {
            Ok(entries) => first_unread(raw@) == raw@.len() && listing(entries@) == listed(raw@),
            Err(index) => index == first_unread(raw@) && index < raw@.len(),
        },
{
    let mut out: Vec<(Bytes, FileType)> = Vec::new();
    assert(raw@.skip(0) == raw@);
    assert(listing(out@) =~= listed(raw@.take(0)));
    for entry in it: raw
        invariant
            it.seq() == raw@,
            first_unread(raw@) == it.index() + first_unread(raw@.skip(it.index() as int)),
            listing(out@) == listed(raw@.take(it.index() as int)),
            out@.len() == it.index(),
    {
        let ghost i = it.index() as int;
        let ghost before = out@;
        assert(raw@.skip(i)[0] == raw@[i]);
        assert(raw@.skip(i).skip(1) == raw@.skip(i + 1));
        match entry {
            None => {
                return Err(out.len());
            },
            Some(e) => {
                let kind = classify(e.is_file, e.is_dir);
                let name = into_bytes(e.name);
                out.push((name, kind));
                assert(listing(out@) =~= listed(raw@.take(i + 1))) by {
                    assert(listing(out@) =~= listing(before).push((e.name@, kind)));
                    assert(raw@.take(i + 1) =~= raw@.take(i).push(raw@[i]));
                }
            },
        }
    }
    assert(raw@.skip(raw@.len() as int).len() == 0);
    assert(raw@.take(raw@.len() as int) == raw@);
    Ok(out)
}

/// The text of the error for a path outside the root; `shown` is how the
/// path is shown.
pub fn outside_message(shown: &str) -> (out: String)
    ensures
        out@ == outside_message_spec(shown@),
{
    let mut out = String::from_str("Path ");
    out.append(shown);
    out.append(" is outside nixpkgs root");
    out
}

/// A path whose canonical form lies outside the root is refused whatever is
/// asked for: it is not opened, not imported, its type and entries are not
/// told, and it does not exist.
pub proof fn lemma_outside_is_refused(root: PathView, canonical: PathView)
    requires
        !inside(root, canonical),
    ensures
        admitted(root, Some(canonical)) == Err::<PathView, SandboxErrorView>(
            SandboxErrorView::Outside(canonical),
        ),
        probed(root, Some(canonical)) is None,
{
}

/// A path whose canonical form lies inside the root is granted as it is:
/// whatever is asked for is done on the canonical path itself.
pub proof fn lemma_inside_is_granted(root: PathView, canonical: PathView)
    requires
        inside(root, canonical),
    ensures
        admitted(root, Some(canonical)) == Ok::<PathView, SandboxErrorView>(canonical),
        probed(root, Some(canonical)) == Some(canonical),
{
}

/// A relative path is taken from the root, so what it names lies inside the
/// root as long as nothing on disk leads out of it.
pub proof fn lemma_relative_starts_inside(root: PathView, path: PathView)
    requires
        !path.absolute,
    ensures
        inside(root, resolved(root, path)),
{
    assert((root.parts + path.parts).subrange(0, root.parts.len() as int) =~= root.parts);
}

} // verus!
