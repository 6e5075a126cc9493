//! `rm`: remove paths, directories with their contents under `-r`.
use vstd::prelude::*;
use vstd::string::*;
use crate::args::{all_flags_known, flags_known, has_token, operands, operands_of};
use crate::error::ErrorKind;
use crate::fs::{Action, FsAction, PathKind};
use crate::text::views;

verus! {

/// What `rm` was asked to remove, and how.
#[derive(Debug)]
pub struct RmRequest {
    pub paths: Vec<String>,
    /// `-r`, `-R` or `--recursive`: directories go with their contents.
    pub recursive: bool,
    /// `-f` or `--force`: an absent path is no failure.
    pub force: bool,
}

pub open spec fn rm_flags() -> Seq<Seq<char>> {
    seq![
        seq!['-', 'r'],
        seq!['-', 'R'],
        seq!['-', '-', 'r', 'e', 'c', 'u', 'r', 's', 'i', 'v', 'e'],
        seq!['-', 'f'],
        seq!['-', '-', 'f', 'o', 'r', 'c', 'e'],
    ]
}

/// Reads the arguments of `rm`: its flags and at least one path.
pub fn handle_rm(args: &Vec<String>) -> (r: Result<RmRequest, ErrorKind>)
    ensures
        !flags_known(views(args@), rm_flags()) ==> r == Err::<RmRequest, ErrorKind>(
            ErrorKind::InvalidOption,
        ),
        flags_known(views(args@), rm_flags()) && operands_of(views(args@)).len() == 0 ==> r
            == Err::<RmRequest, ErrorKind>(ErrorKind::MissingOperand),
        flags_known(views(args@), rm_flags()) && operands_of(views(args@)).len() > 0 ==> (
        r matches Ok(q) && views(q.paths@) == operands_of(views(args@)) && q.recursive == (
        views(args@).contains(rm_flags()[0]) || views(args@).contains(rm_flags()[1]) || views(
            args@,
        ).contains(rm_flags()[2])) && q.force == (views(args@).contains(rm_flags()[3]) || views(
            args@,
        ).contains(rm_flags()[4]))),
{
    proof {
        reveal_strlit("-r");
        reveal_strlit("-R");
        reveal_strlit("--recursive");
        reveal_strlit("-f");
        reveal_strlit("--force");
    }
    assert("-r"@ =~= rm_flags()[0]);
    assert("-R"@ =~= rm_flags()[1]);
    assert("--recursive"@ =~= rm_flags()[2]);
    assert("-f"@ =~= rm_flags()[3]);
    assert("--force"@ =~= rm_flags()[4]);
    let mut allowed: Vec<String> = Vec::new();
    allowed.push(String::from_str("-r"));
    allowed.push(String::from_str("-R"));
    allowed.push(String::from_str("--recursive"));
    allowed.push(String::from_str("-f"));
    allowed.push(String::from_str("--force"));
    assert(views(allowed@) =~= rm_flags());
    if !all_flags_known(args, &allowed) {
        return Err(ErrorKind::InvalidOption);
    }
    let paths = operands(args);
    if paths.len() == 0 {
        return Err(ErrorKind::MissingOperand);
    }
    let recursive = has_token(args, "-r") || has_token(args, "-R") || has_token(
        args,
        "--recursive",
    );
    let force = has_token(args, "-f") || has_token(args, "--force");
    Ok(RmRequest { paths, recursive, force })
}

/// What `rm` does at one path it observed to be `kind`: `None` where nothing
/// is to be done.
pub open spec fn remove_spec(p: Seq<char>, kind: PathKind, recursive: bool, force: bool) -> Result<
    Option<Action>,
    ErrorKind,
> {
    match kind {
        PathKind::Missing => if force {
            Ok(None)
        } else {
            Err(ErrorKind::NotFound)
        },
        PathKind::File => Ok(Some(Action::RemoveFile(p))),
        PathKind::EmptyDir => if recursive {
            Ok(Some(Action::RemoveTree(p)))
        } else {
            Ok(Some(Action::RemoveEmptyDir(p)))
        },
        PathKind::NonEmptyDir => if recursive {
            Ok(Some(Action::RemoveTree(p)))
        } else {
            Err(ErrorKind::DirectoryNotEmpty)
        },
    }
}

pub open spec fn removal_view(r: Result<Option<FsAction>, ErrorKind>) -> Result<
    Option<Action>,
    ErrorKind,
> {
    match r {
        Ok(Some(a)) => Ok(Some(a@)),
        Ok(None) => Ok(None),
        Err(e) => Err(e),
    }
}

/// Decides on removing one path: a directory with entries needs `recursive`,
/// and an absent path fails unless `force` is given.
pub fn remove_item(path: &String, kind: PathKind, recursive: bool, force: bool) -> (r: Result<
    Option<FsAction>,
    ErrorKind,
>)
    ensures
        removal_view(r) == remove_spec(path@, kind, recursive, force),
{
    match kind {
        PathKind::Missing => if force {
            Ok(None)
        } else {
            Err(ErrorKind::NotFound)
        },
        PathKind::File => Ok(Some(FsAction::RemoveFile(path.clone()))),
        PathKind::EmptyDir => if recursive {
            Ok(Some(FsAction::RemoveTree(path.clone())))
        } else {
            Ok(Some(FsAction::RemoveEmptyDir(path.clone())))
        },
        PathKind::NonEmptyDir => if recursive {
            Ok(Some(FsAction::RemoveTree(path.clone())))
        } else {
            Err(ErrorKind::DirectoryNotEmpty)
        },
    }
}

/// What the operating system's answer to a removal amounts to: with `force`
/// an absent path is no failure.
pub fn settle_removal(force: bool, outcome: Result<(), ErrorKind>) -> (r: Result<(), ErrorKind>)
    ensures
        r == (if force && outcome == Err::<(), ErrorKind>(ErrorKind::NotFound) {
            Ok(())
        } else {
            outcome
        }),
{
    match outcome {
        Err(ErrorKind::NotFound) if force => Ok(()),
        _ => outcome,
    }
}

/// The first failure among the outcomes, in order.
pub open spec fn first_failure(s: Seq<Result<(), ErrorKind>>) -> Result<(), ErrorKind>
    decreases s.len(),
{
    if s.len() == 0 {
        Ok(())
    } else if s[0] is Err {
        s[0]
    } else {
        first_failure(s.drop_first())
    }
}

/// The result of `rm` over all its paths: each was attempted, and the first
/// failure is the one reported.
pub fn rm_outcome(outcomes: &Vec<Result<(), ErrorKind>>) -> (r: Result<(), ErrorKind>)
    ensures
        r == first_failure(outcomes@),
{
    let mut i: usize = 0;
    assert(outcomes@.skip(0) =~= outcomes@);
    while i < outcomes.len()
        invariant
            i <= outcomes@.len(),
            first_failure(outcomes@.skip(i as int)) == first_failure(outcomes@),
        decreases outcomes@.len() - i,
    {
        assert(outcomes@.skip(i as int)[0] == outcomes@[i as int]);
        assert(outcomes@.skip(i as int).drop_first() =~= outcomes@.skip(i + 1));
        if outcomes[i].is_err() {
            return outcomes[i];
        }
        i += 1;
    }
    Ok(())
}

} // verus!
