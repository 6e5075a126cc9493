//! `echo`: print the arguments, or write them to a file after `>`.
use vstd::prelude::*;
use vstd::string::*;
use crate::error::ErrorKind;
use crate::fs::{Action, FsAction};
use crate::text::{join_with_spaces, join_words, push_char, same_text, views};

verus! {

/// The quote characters that `echo` strips from the ends of a word.
pub open spec fn is_quote(c: char) -> bool {
    c == '"' || c == '\''
}

/// `s` without its leading quote characters.
pub open spec fn trim_front(s: Seq<char>) -> Seq<char>
    decreases s.len(),
{
    if s.len() > 0 && is_quote(s[0]) {
        trim_front(s.drop_first())
    } else {
        s
    }
}

/// `s` without its trailing quote characters.
pub open spec fn trim_back(s: Seq<char>) -> Seq<char>
    decreases s.len(),
{
    if s.len() > 0 && is_quote(s.last()) {
        trim_back(s.drop_last())
    } else {
        s
    }
}

/// `s` without the quote characters at either end.
pub open spec fn unquoted(s: Seq<char>) -> Seq<char> {
    trim_back(trim_front(s))
}

/// Strips every single or double quote character from both ends of a word.
pub fn remove_quotes(s: &str) -> (r: String)
    ensures
        r@ == unquoted(s@),
{
    let n = s.unicode_len();
    let mut lo: usize = 0;
    assert(s@.subrange(0, n as int) =~= s@);
    while lo < n && (s.get_char(lo) == '"' || s.get_char(lo) == '\'')
        invariant
            lo <= n == s@.len(),
            trim_front(s@.subrange(lo as int, n as int)) == trim_front(s@),
        decreases n - lo,
    {
        assert(s@.subrange(lo as int, n as int).drop_first() =~= s@.subrange(lo + 1, n as int));
        lo += 1;
    }
    let mut hi: usize = n;
    assert(trim_front(s@) == s@.subrange(lo as int, n as int));
    while hi > lo && (s.get_char(hi - 1) == '"' || s.get_char(hi - 1) == '\'')
        invariant
            lo <= hi <= n == s@.len(),
            trim_back(s@.subrange(lo as int, hi as int)) == unquoted(s@),
        decreases hi - lo,
    {
        assert(s@.subrange(lo as int, hi as int).drop_last() =~= s@.subrange(lo as int, hi - 1));
        hi -= 1;
    }
    String::from_str(s.substring_char(lo, hi))
}


/// Where the text of `echo` goes.
#[derive(Debug)]
pub enum EchoOutput {
    /// To the standard output.
    Print(String),
    /// To a file, by the action given.
    Write(FsAction),
}

/// An `EchoOutput` over views.
pub enum Echoed {
    Print(Seq<char>),
    Write(Action),
}

impl View for EchoOutput {
    type V = Echoed;

    open spec fn view(&self) -> Echoed {
        match self {
            EchoOutput::Print(t) => Echoed::Print(t@),
            EchoOutput::Write(a) => Echoed::Write(a@),
        }
    }
}

/// The index of the first `>` at or after `i`, or the length if there is none.
pub open spec fn redirect_from(a: Seq<Seq<char>>, i: int) -> int
    decreases a.len() - i,
{
    if i < 0 || i >= a.len() {
        a.len() as int
    } else if a[i] == seq!['>'] {
        i
    } else {
        redirect_from(a, i + 1)
    }
}

/// The line that `echo` emits for these words: each one stripped of its
/// quotes, joined by single spaces, ended by a newline.
pub open spec fn echo_line(words: Seq<Seq<char>>) -> Seq<char> {
    join_words(words.map_values(|w: Seq<char>| unquoted(w))) + seq!['\n']
}

/// What `echo` does with these arguments.
pub open spec fn echo_spec(a: Seq<Seq<char>>) -> Result<Echoed, ErrorKind> {
    let i = redirect_from(a, 0);
    if i == a.len() {
        Ok(Echoed::Print(echo_line(a)))
    } else if i + 1 < a.len() {
        Ok(Echoed::Write(Action::WriteFile(a[i + 1], echo_line(a.take(i)))))
    } else {
        Err(ErrorKind::MissingOperand)
    }
}

pub open spec fn echo_view(r: Result<EchoOutput, ErrorKind>) -> Result<Echoed, ErrorKind> {
    match r {
        Ok(o) => Ok(o@),
        Err(e) => Err(e),
    }
}

/// The text `echo` emits for the words in `args[..end]`.
fn echo_text(args: &Vec<String>, end: usize) -> (r: String)
    requires
        end <= args@.len(),
    ensures
        r@ == echo_line(views(args@).take(end as int)),
{
    let mut words: Vec<String> = Vec::new();
    let mut i: usize = 0;
    while i < end
        invariant
            i <= end <= args@.len(),
            views(words@) == views(args@).take(i as int).map_values(|w: Seq<char>| unquoted(w)),
        decreases end - i,
    {
        let w = remove_quotes(args[i].as_str());
        let ghost before = views(words@);
        words.push(w);
        assert(views(words@) =~= before.push(w@));
        assert(views(args@).take(i + 1).map_values(|w: Seq<char>| unquoted(w)) =~= views(
            args@,
        ).take(i as int).map_values(|w: Seq<char>| unquoted(w)).push(unquoted(args@[i as int]@)));
        assert(views(words@) =~= views(args@).take(i + 1).map_values(|w: Seq<char>| unquoted(w)));
        i += 1;
    }
    let mut out = join_with_spaces(&words);
    push_char(&mut out, '\n');
    out
}

/// Decides what `echo` does: without `>`, the arguments go to the standard
/// output; with `>`, the words before it go to the file named after it, which
/// must be there.
pub fn echo(args: &Vec<String>) -> (r: Result<EchoOutput, ErrorKind>)
    ensures
        echo_view(r) == echo_spec(views(args@)),
{
    let ghost a = views(args@);
    let mut i: usize = 0;
    proof {
        reveal_strlit(">");
    }
    while i < args.len() && !same_text(args[i].as_str(), ">")
        invariant
            i <= args@.len(),
            a == views(args@),
            redirect_from(a, i as int) == redirect_from(a, 0),
        decreases args@.len() - i,
    {
        assert(a[i as int] == args@[i as int]@);
        proof {
            reveal_strlit(">");
        }
        assert(">"@ =~= seq!['>']);
        i += 1;
    }
    if i < args.len() {
        assert(a[i as int] == args@[i as int]@);
        assert(">"@ =~= seq!['>']);
    }
    if i == args.len() {
        assert(a.take(i as int) =~= a);
        Ok(EchoOutput::Print(echo_text(args, i)))
    } else if i + 1 < args.len() {
        let path = args[i + 1].clone();
        Ok(EchoOutput::Write(FsAction::WriteFile(path, echo_text(args, i))))
    } else {
        Err(ErrorKind::MissingOperand)
    }
}

} // verus!
