//! The filesystem actions that built-ins ask for, and a model of what each
//! does when the operating system carries it out.
use vstd::prelude::*;
use vstd::utf8::encode_utf8;

verus! {

/// What the caller observed at a path before a decision.
#[derive(Clone, Copy, Debug, PartialEq, Eq, Structural)]
pub enum PathKind {
    Missing,
    /// Anything that is not a directory.
    File,
    EmptyDir,
    NonEmptyDir,
}

impl PathKind {
    pub open spec fn is_dir(self) -> bool {
        self == PathKind::EmptyDir || self == PathKind::NonEmptyDir
    }
}

/// One operation on the filesystem, to be carried out by the caller.
#[derive(Debug)]
pub enum FsAction {
    /// Create one directory.
    CreateDir(String),
    /// Create a directory and each missing ancestor.
    CreateDirAll(String),
    /// Remove a file.
    RemoveFile(String),
    /// Remove a directory that has no entries.
    RemoveEmptyDir(String),
    /// Remove a directory and everything under it.
    RemoveTree(String),
    /// Rename the first path to the second.
    Rename(String, String),
    /// Copy the bytes of the first file to the second path.
    CopyFile(String, String),
    /// List the first directory and continue the copy into the second.
    CopyDirContents(String, String),
    /// Create or truncate a file and write the text to it.
    WriteFile(String, String),
}

/// An action over the characters of its paths.
pub enum Action {
    CreateDir(Seq<char>),
    CreateDirAll(Seq<char>),
    RemoveFile(Seq<char>),
    RemoveEmptyDir(Seq<char>),
    RemoveTree(Seq<char>),
    Rename(Seq<char>, Seq<char>),
    CopyFile(Seq<char>, Seq<char>),
    CopyDirContents(Seq<char>, Seq<char>),
    WriteFile(Seq<char>, Seq<char>),
}

impl View for FsAction {
    type V = Action;

    open spec fn view(&self) -> Action {
        match self {
            FsAction::CreateDir(p) => Action::CreateDir(p@),
            FsAction::CreateDirAll(p) => Action::CreateDirAll(p@),
            FsAction::RemoveFile(p) => Action::RemoveFile(p@),
            FsAction::RemoveEmptyDir(p) => Action::RemoveEmptyDir(p@),
            FsAction::RemoveTree(p) => Action::RemoveTree(p@),
            FsAction::Rename(a, b) => Action::Rename(a@, b@),
            FsAction::CopyFile(a, b) => Action::CopyFile(a@, b@),
            FsAction::CopyDirContents(a, b) => Action::CopyDirContents(a@, b@),
            FsAction::WriteFile(p, t) => Action::WriteFile(p@, t@),
        }
    }
}

/// A decision over views: the action, or the error.
pub open spec fn decided(r: Result<FsAction, crate::error::ErrorKind>) -> Result<
    Action,
    crate::error::ErrorKind,
> {
    match r {
        Ok(a) => Ok(a@),
        Err(e) => Err(e),
    }
}

/// What the model keeps at a path.
pub enum Node {
    File(Seq<u8>),
    Dir,
}

/// A filesystem as a map from path to what is there.
pub type FsView = Map<Seq<char>, Node>;

/// `k` is `p` or lies under it.
pub open spec fn within(k: Seq<char>, p: Seq<char>) -> bool {
    k == p || (k.len() > p.len() && k.subrange(0, p.len() as int) == p && k[p.len() as int] == '/')
}

/// What an observation of `p` in `fs` reports.
pub open spec fn kind_of(fs: FsView, p: Seq<char>) -> PathKind {
    if !fs.contains_key(p) {
        PathKind::Missing
    } else {
        match fs[p] {
            Node::File(_) => PathKind::File,
            Node::Dir => if exists|k: Seq<char>| fs.contains_key(k) && k != p && within(k, p) {
                PathKind::NonEmptyDir
            } else {
                PathKind::EmptyDir
            },
        }
    }
}

/// The path under `to` that `k`, under `from`, is moved to.
pub open spec fn moved_from(k: Seq<char>, from: Seq<char>, to: Seq<char>) -> Seq<char> {
    from + k.subrange(to.len() as int, k.len() as int)
}

/// The filesystem after the operating system carried out `a` with success.
pub open spec fn apply(fs: FsView, a: Action) -> FsView {
    match a {
        Action::CreateDir(p) => fs.insert(p, Node::Dir),
        Action::CreateDirAll(p) => Map::new(
            |k: Seq<char>| fs.contains_key(k) || (k.len() > 0 && within(p, k)),
            |k: Seq<char>|
                if fs.contains_key(k) {
                    fs[k]
                } else {
                    Node::Dir
                },
        ),
        Action::RemoveFile(p) => fs.remove(p),
        Action::RemoveEmptyDir(p) => fs.remove(p),
        Action::RemoveTree(p) => Map::new(
            |k: Seq<char>| fs.contains_key(k) && !within(k, p),
            |k: Seq<char>| fs[k],
        ),
        Action::Rename(from, to) => Map::new(
            |k: Seq<char>|
                (fs.contains_key(k) && !within(k, from) && !within(k, to)) || (within(k, to)
                    && fs.contains_key(moved_from(k, from, to))),
            |k: Seq<char>|
                if within(k, to) {
                    fs[moved_from(k, from, to)]
                } else {
                    fs[k]
                },
        ),
        Action::CopyFile(from, to) => if fs.contains_key(from) {
            fs.insert(to, fs[from])
        } else {
            fs
        },
        Action::CopyDirContents(_, _) => fs,
        Action::WriteFile(p, t) => fs.insert(p, Node::File(encode_utf8(t))),
    }
}

} // verus!
