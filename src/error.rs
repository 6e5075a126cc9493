//! The failures a built-in reports, and how they are shown.
use vstd::prelude::*;
use vstd::string::*;

verus! {

/// What went wrong in a built-in command.
#[derive(Clone, Copy, Debug, PartialEq, Eq, Structural)]
pub enum ErrorKind {
    /// The path is absent.
    NotFound,
    /// The operating system denied access.
    PermissionDenied,
    /// The target of a creation is already present.
    AlreadyExists,
    /// A directory with entries was to be removed without recursion.
    DirectoryNotEmpty,
    /// A required argument is absent.
    MissingOperand,
    /// A flag is not recognised.
    InvalidOption,
    /// Any other failure of the operating system.
    IoFailure,
}

/// `command: detail`, the shape of every diagnostic.
pub open spec fn diagnostic(command: Seq<char>, detail: Seq<char>) -> Seq<char> {
    command + seq![':', ' '] + detail
}

/// Prefixes a diagnostic with the name of the command that failed.
pub fn error_line(command: &str, detail: &str) -> (r: String)
    ensures
        r@ == diagnostic(command@, detail@),
{
    let mut out = String::from_str(command);
    crate::text::push_char(&mut out, ':');
    crate::text::push_char(&mut out, ' ');
    out.append(detail);
    assert(out@ =~= diagnostic(command@, detail@));
    out
}

} // verus!
