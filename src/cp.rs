//! `cp`: copy a file, or a directory with everything under it.
use vstd::prelude::*;
use crate::error::ErrorKind;
use crate::fs::{Action, FsAction, PathKind};
use crate::path::{join_path, joined, landing, landing_path};

verus! {

/// The views of a sequence of actions.
pub open spec fn actions(v: Seq<FsAction>) -> Seq<Action> {
    v.map_values(|a: FsAction| a@)
}

/// Reads the arguments of `cp`: a source and a destination, which must both
/// be given.
pub fn cp_operands(args: &Vec<String>) -> (r: Result<(String, String), ErrorKind>)
    ensures
        args@.len() < 2 ==> r == Err::<(String, String), ErrorKind>(ErrorKind::MissingOperand),
        args@.len() >= 2 ==> (r matches Ok((s, d)) && s@ == args@[0]@ && d@ == args@[1]@),
{
    if args.len() < 2 {
        return Err(ErrorKind::MissingOperand);
    }
    Ok((args[0].clone(), args[1].clone()))
}

/// What `cp` does first, given what was observed at the source and the
/// destination.
pub open spec fn cp_spec(src: Seq<char>, dst: Seq<char>, src_kind: PathKind, dst_kind: PathKind) -> Result<
    Seq<Action>,
    ErrorKind,
> {
    if src_kind == PathKind::Missing {
        Err(ErrorKind::NotFound)
    } else if src_kind.is_dir() {
        if dst_kind == PathKind::File {
            Err(ErrorKind::IoFailure)
        } else if dst_kind == PathKind::Missing {
            Ok(seq![Action::CreateDirAll(dst), Action::CopyDirContents(src, dst)])
        } else {
            Ok(seq![Action::CopyDirContents(src, dst)])
        }
    } else {
        match landing(src, dst, dst_kind) {
            Some(t) => Ok(seq![Action::CopyFile(src, t)]),
            None => Err(ErrorKind::IoFailure),
        }
    }
}

/// Decides on `cp`: an absent source fails with `NotFound`; a directory is
/// created at the destination where none is there and its entries follow; a
/// file goes into an existing directory under its last component, elsewhere
/// to the destination's path.
pub fn cp(source: &str, destination: &str, source_kind: PathKind, dest_kind: PathKind) -> (r: Result<
    Vec<FsAction>,
    ErrorKind,
>)
    ensures
        match r {
            Ok(v) => cp_spec(source@, destination@, source_kind, dest_kind) == Ok::<
                Seq<Action>,
                ErrorKind,
            >(actions(v@)),
            Err(e) => cp_spec(source@, destination@, source_kind, dest_kind) == Err::<
                Seq<Action>,
                ErrorKind,
            >(e),
        },
{
    let mut steps: Vec<FsAction> = Vec::new();
    match source_kind {
        PathKind::Missing => {
            return Err(ErrorKind::NotFound);
        },
        PathKind::EmptyDir | PathKind::NonEmptyDir => {
            match dest_kind {
                PathKind::File => {
                    return Err(ErrorKind::IoFailure);
                },
                PathKind::Missing => {
                    steps.push(FsAction::CreateDirAll(String::from_str(destination)));
                },
                _ => {},
            }
            steps.push(
                FsAction::CopyDirContents(String::from_str(source), String::from_str(destination)),
            );
        },
        PathKind::File => {
            match landing_path(source, destination, dest_kind) {
                Some(t) => {
                    steps.push(FsAction::CopyFile(String::from_str(source), t));
                },
                None => {
                    return Err(ErrorKind::IoFailure);
                },
            }
        },
    }
    assert(actions(steps@) =~= cp_spec(source@, destination@, source_kind, dest_kind)->Ok_0);
    Ok(steps)
}

/// One entry of a directory being copied.
#[derive(Debug)]
pub struct ChildEntry {
    pub name: String,
    pub is_dir: bool,
}

/// The actions that copy one entry of `src` into `dst`.
pub open spec fn entry_steps(src: Seq<char>, dst: Seq<char>, e: ChildEntry) -> Seq<Action> {
    if e.is_dir {
        seq![
            Action::CreateDirAll(joined(dst, e.name@)),
            Action::CopyDirContents(joined(src, e.name@), joined(dst, e.name@)),
        ]
    } else {
        seq![Action::CopyFile(joined(src, e.name@), joined(dst, e.name@))]
    }
}

/// The actions that copy the entries of `src` into `dst`, in order.
pub open spec fn copy_steps(src: Seq<char>, dst: Seq<char>, entries: Seq<ChildEntry>) -> Seq<Action>
    decreases entries.len(),
{
    if entries.len() == 0 {
        Seq::empty()
    } else {
        copy_steps(src, dst, entries.drop_last()) + entry_steps(src, dst, entries.last())
    }
}

/// Continues a copy of the directory `source_dir` into `dest_dir` with its
/// entries: each file is copied, each subdirectory created and then copied
/// in its turn.
pub fn copy_dir_entries(source_dir: &str, dest_dir: &str, entries: &Vec<ChildEntry>) -> (r: Vec<
    FsAction,
>)
    ensures
        actions(r@) == copy_steps(source_dir@, dest_dir@, entries@),
{
    let mut steps: Vec<FsAction> = Vec::new();
    let mut i: usize = 0;
    assert(actions(steps@) =~= copy_steps(source_dir@, dest_dir@, entries@.take(0)));
    while i < entries.len()
        invariant
            i <= entries@.len(),
            actions(steps@) == copy_steps(source_dir@, dest_dir@, entries@.take(i as int)),
        decreases entries@.len() - i,
    {
        let e = &entries[i];
        let from = join_path(source_dir, e.name.as_str());
        let to = join_path(dest_dir, e.name.as_str());
        let ghost before = actions(steps@);
        if e.is_dir {
            let to2 = join_path(dest_dir, e.name.as_str());
            steps.push(FsAction::CreateDirAll(to2));
            steps.push(FsAction::CopyDirContents(from, to));
        } else {
            steps.push(FsAction::CopyFile(from, to));
        }
        assert(entries@.take(i + 1).drop_last() =~= entries@.take(i as int));
        assert(actions(steps@) =~= before + entry_steps(source_dir@, dest_dir@, entries@[i as int]));
        i += 1;
    }
    assert(entries@.take(i as int) =~= entries@);
    steps
}

} // verus!
