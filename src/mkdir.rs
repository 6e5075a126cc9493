//! `mkdir`: create a directory, or with `-p` a chain of them.
use vstd::prelude::*;
use vstd::string::*;
use crate::args::{all_flags_known, flags_known, has_token, operands, operands_of};
use crate::error::ErrorKind;
use crate::fs::{decided, Action, FsAction, PathKind};
use crate::text::views;

verus! {

/// What `mkdir` was asked to create.
#[derive(Debug)]
pub struct MkdirRequest {
    pub path: String,
    /// `-p`: create missing ancestors, and accept a directory already there.
    pub create_parents: bool,
}

pub open spec fn mkdir_flags() -> Seq<Seq<char>> {
    seq![seq!['-', 'p']]
}

/// Reads the arguments of `mkdir`: `-p` and a path (the last one when several
/// are given).
pub fn mkdir_with_flag(args: &Vec<String>) -> (r: Result<MkdirRequest, ErrorKind>)
    ensures
        !flags_known(views(args@), mkdir_flags()) ==> r == Err::<MkdirRequest, ErrorKind>(
            ErrorKind::InvalidOption,
        ),
        flags_known(views(args@), mkdir_flags()) && operands_of(views(args@)).len() == 0 ==> r
            == Err::<MkdirRequest, ErrorKind>(ErrorKind::MissingOperand),
        flags_known(views(args@), mkdir_flags()) && operands_of(views(args@)).len() > 0 ==> (
        r matches Ok(q) && q.path@ == operands_of(views(args@)).last() && q.create_parents
            == views(args@).contains(seq!['-', 'p'])),
{
    proof {
        reveal_strlit("-p");
    }
    assert("-p"@ =~= seq!['-', 'p']);
    let mut allowed: Vec<String> = Vec::new();
    allowed.push(String::from_str("-p"));
    assert(views(allowed@) =~= mkdir_flags());
    if !all_flags_known(args, &allowed) {
        return Err(ErrorKind::InvalidOption);
    }
    let ops = operands(args);
    if ops.len() == 0 {
        return Err(ErrorKind::MissingOperand);
    }
    Ok(MkdirRequest { path: ops[ops.len() - 1].clone(), create_parents: has_token(args, "-p") })
}

/// What `mkdir` does at a path it observed to be `existing`.
pub open spec fn mkdir_spec(path: Seq<char>, create_parents: bool, existing: PathKind) -> Result<
    Action,
    ErrorKind,
> {
    if create_parents {
        if existing == PathKind::File {
            Err(ErrorKind::AlreadyExists)
        } else {
            Ok(Action::CreateDirAll(path))
        }
    } else if existing != PathKind::Missing {
        Err(ErrorKind::AlreadyExists)
    } else {
        Ok(Action::CreateDir(path))
    }
}

/// Decides on `mkdir`: without `create_parents` a path that is there already
/// fails with `AlreadyExists`; with it, only a path that holds something other
/// than a directory does.
pub fn mkdir(path: &String, create_parents: bool, existing: PathKind) -> (r: Result<
    FsAction,
    ErrorKind,
>)
    ensures
        decided(r) == mkdir_spec(path@, create_parents, existing),
{
    if create_parents {
        if existing == PathKind::File {
            Err(ErrorKind::AlreadyExists)
        } else {
            Ok(FsAction::CreateDirAll(path.clone()))
        }
    } else if existing != PathKind::Missing {
        Err(ErrorKind::AlreadyExists)
    } else {
        Ok(FsAction::CreateDir(path.clone()))
    }
}

} // verus!
