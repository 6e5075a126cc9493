//! `mv`: rename a path, or move it into a directory.
use vstd::prelude::*;
use crate::error::ErrorKind;
use crate::fs::{decided, Action, FsAction, PathKind};
use crate::path::{landing, landing_path};

verus! {

/// Reads the arguments of `mv`: exactly a source and a destination.
pub fn handle_mv(args: &Vec<String>) -> (r: Result<(String, String), ErrorKind>)
    ensures
        args@.len() != 2 ==> r == Err::<(String, String), ErrorKind>(ErrorKind::MissingOperand),
        args@.len() == 2 ==> (r matches Ok((s, d)) && s@ == args@[0]@ && d@ == args@[1]@),
{
    if args.len() != 2 {
        return Err(ErrorKind::MissingOperand);
    }
    Ok((args[0].clone(), args[1].clone()))
}

/// What `mv` does, given what was observed at the source and the destination.
pub open spec fn move_spec(
    src: Seq<char>,
    dst: Seq<char>,
    src_kind: PathKind,
    dst_kind: PathKind,
) -> Result<Action, ErrorKind> {
    if src_kind == PathKind::Missing {
        Err(ErrorKind::NotFound)
    } else {
        match landing(src, dst, dst_kind) {
            Some(t) => Ok(Action::Rename(src, t)),
            None => Err(ErrorKind::IoFailure),
        }
    }
}

/// Decides on `mv`: an absent source fails with `NotFound` before anything is
/// renamed; into an existing directory the source keeps its last component;
/// elsewhere it takes the destination's path.
pub fn move_file(source: &str, destination: &str, source_kind: PathKind, dest_kind: PathKind) -> (r:
    Result<FsAction, ErrorKind>)
    ensures
        decided(r) == move_spec(source@, destination@, source_kind, dest_kind),
{
    if source_kind == PathKind::Missing {
        return Err(ErrorKind::NotFound);
    }
    match landing_path(source, destination, dest_kind) {
        Some(t) => Ok(FsAction::Rename(String::from_str(source), t)),
        None => Err(ErrorKind::IoFailure),
    }
}

} // verus!
