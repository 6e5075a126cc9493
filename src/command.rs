//! Reading a command line: which built-in it names, with which arguments,
//! and the status that `exit` ends with.
use vstd::prelude::*;
use vstd::string::*;
use crate::error::ErrorKind;
use crate::text::{same_text, tokenize, tokens, views};

verus! {

/// The built-in commands, and the rest.
#[derive(Clone, Copy, Debug, PartialEq, Eq, Structural)]
pub enum Builtin {
    Cd,
    Pwd,
    Ls,
    Cat,
    Cp,
    Mv,
    Rm,
    Mkdir,
    Echo,
    Exit,
    /// Not built in: a program to run.
    External,
}

/// The built-in a command name selects, matched exactly and with case.
pub open spec fn builtin_of(n: Seq<char>) -> Builtin {
    if n == seq!['c', 'd'] {
        Builtin::Cd
    } else if n == seq!['p', 'w', 'd'] {
        Builtin::Pwd
    } else if n == seq!['l', 's'] {
        Builtin::Ls
    } else if n == seq!['c', 'a', 't'] {
        Builtin::Cat
    } else if n == seq!['c', 'p'] {
        Builtin::Cp
    } else if n == seq!['m', 'v'] {
        Builtin::Mv
    } else if n == seq!['r', 'm'] {
        Builtin::Rm
    } else if n == seq!['m', 'k', 'd', 'i', 'r'] {
        Builtin::Mkdir
    } else if n == seq!['e', 'c', 'h', 'o'] {
        Builtin::Echo
    } else if n == seq!['e', 'x', 'i', 't'] {
        Builtin::Exit
    } else {
        Builtin::External
    }
}

/// The built-in a command name selects.
pub fn lookup_builtin(name: &str) -> (r: Builtin)
    ensures
        r == builtin_of(name@),
{
    proof {
        reveal_strlit("cd");
        reveal_strlit("pwd");
        reveal_strlit("ls");
        reveal_strlit("cat");
        reveal_strlit("cp");
        reveal_strlit("mv");
        reveal_strlit("rm");
        reveal_strlit("mkdir");
        reveal_strlit("echo");
        reveal_strlit("exit");
    }
    assert("cd"@ =~= seq!['c', 'd']);
    assert("pwd"@ =~= seq!['p', 'w', 'd']);
    assert("ls"@ =~= seq!['l', 's']);
    assert("cat"@ =~= seq!['c', 'a', 't']);
    assert("cp"@ =~= seq!['c', 'p']);
    assert("mv"@ =~= seq!['m', 'v']);
    assert("rm"@ =~= seq!['r', 'm']);
    assert("mkdir"@ =~= seq!['m', 'k', 'd', 'i', 'r']);
    assert("echo"@ =~= seq!['e', 'c', 'h', 'o']);
    assert("exit"@ =~= seq!['e', 'x', 'i', 't']);
    if same_text(name, "cd") {
        Builtin::Cd
    } else if same_text(name, "pwd") {
        Builtin::Pwd
    } else if same_text(name, "ls") {
        Builtin::Ls
    } else if same_text(name, "cat") {
        Builtin::Cat
    } else if same_text(name, "cp") {
        Builtin::Cp
    } else if same_text(name, "mv") {
        Builtin::Mv
    } else if same_text(name, "rm") {
        Builtin::Rm
    } else if same_text(name, "mkdir") {
        Builtin::Mkdir
    } else if same_text(name, "echo") {
        Builtin::Echo
    } else if same_text(name, "exit") {
        Builtin::Exit
    } else {
        Builtin::External
    }
}

/// One command line, read.
#[derive(Debug)]
pub struct CommandLine {
    pub command: Builtin,
    /// The first token, which names the command.
    pub name: String,
    /// The tokens after it.
    pub args: Vec<String>,
}

/// Reads a command line: `None` for a line of white space alone, which is
/// skipped; else the first token names the command and the rest are its
/// arguments.
pub fn parse_line(line: &str) -> (r: Option<CommandLine>)
    ensures
        tokens(line@).len() == 0 <==> r is None,
        r matches Some(c) ==> {
            &&& c.name@ == tokens(line@)[0]
            &&& c.command == builtin_of(c.name@)
            &&& views(c.args@) == tokens(line@).drop_first()
        },
{
    let mut t = tokenize(line);
    if t.len() == 0 {
        return None;
    }
    let ghost all = views(t@);
    let name = t.remove(0);
    assert(views(t@) =~= all.drop_first());
    let command = lookup_builtin(name.as_str());
    Some(CommandLine { command, name, args: t })
}

/// The number a string of decimal digits stands for.
pub open spec fn decimal_value(s: Seq<char>) -> int
    decreases s.len(),
{
    if s.len() == 0 {
        0
    } else {
        decimal_value(s.drop_last()) * 10 + (s.last() as int - '0' as int)
    }
}

/// A string of one or more decimal digits.
pub open spec fn all_digits(s: Seq<char>) -> bool {
    s.len() > 0 && forall|i: int| 0 <= i < s.len() ==> '0' <= #[trigger] s[i] <= '9'
}

/// The status `exit` ends with: 0 without an argument, else the argument,
/// which must be a decimal number no larger than `i32::MAX`.
pub open spec fn exit_spec(a: Seq<Seq<char>>) -> Result<i32, ErrorKind> {
    if a.len() == 0 {
        Ok(0)
    } else if all_digits(a[0]) && decimal_value(a[0]) <= i32::MAX {
        Ok(decimal_value(a[0]) as i32)
    } else {
        Err(ErrorKind::InvalidOption)
    }
}

/// Reads the argument of `exit`.
pub fn exit_code(args: &Vec<String>) -> (r: Result<i32, ErrorKind>)
    ensures
        r == exit_spec(views(args@)),
{
    if args.len() == 0 {
        return Ok(0);
    }
    let s = args[0].as_str();
    let ghost v = s@;
    assert(v == views(args@)[0]);
    let n = s.unicode_len();
    if n == 0 {
        return Err(ErrorKind::InvalidOption);
    }
    let mut acc: u64 = 0;
    let mut i: usize = 0;
    while i < n
        invariant
            n == v.len(),
            v == s@,
            args@.len() > 0,
            v == views(args@)[0],
            i <= n,
            forall|j: int| 0 <= j < i ==> '0' <= #[trigger] v[j] <= '9',
            acc == decimal_value(v.take(i as int)),
            acc <= i32::MAX,
        decreases n - i,
    {
        let c = s.get_char(i);
        assert(v[i as int] == c);
        if c < '0' || c > '9' {
            assert(!all_digits(v));
            return Err(ErrorKind::InvalidOption);
        }
        assert(v.take(i + 1).drop_last() =~= v.take(i as int));
        acc = acc * 10 + (c as u64 - '0' as u64);
        if acc > i32::MAX as u64 {
            proof {
                assert(v.take(i + 1).last() == c);
                assert(acc == decimal_value(v.take(i + 1)));
                if all_digits(v) {
                    lemma_decimal_grows(v, i as int + 1);
                }
            }
            return Err(ErrorKind::InvalidOption);
        }
        i += 1;
    }
    assert(v.take(i as int) =~= v);
    Ok(acc as i32)
}

/// A number written with more digits is no smaller than its leading part.
proof fn lemma_decimal_grows(v: Seq<char>, k: int)
    requires
        0 <= k <= v.len(),
        forall|j: int| 0 <= j < v.len() ==> '0' <= #[trigger] v[j] <= '9',
    ensures
        decimal_value(v) >= decimal_value(v.take(k)),
    decreases v.len() - k,
{
    if k < v.len() {
        lemma_decimal_grows(v, k + 1);
        assert(v.take(k + 1).drop_last() =~= v.take(k));
        lemma_decimal_nonneg(v.take(k));
    } else {
        assert(v.take(k) =~= v);
    }
}

proof fn lemma_decimal_nonneg(v: Seq<char>)
    requires
        forall|j: int| 0 <= j < v.len() ==> '0' <= #[trigger] v[j] <= '9',
    ensures
        decimal_value(v) >= 0,
    decreases v.len(),
{
    if v.len() > 0 {
        lemma_decimal_nonneg(v.drop_last());
    }
}

} // verus!
