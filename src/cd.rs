//! `cd`, and the working directory it changes: the state the interpreter
//! keeps between commands, and the prompt that shows it.
use vstd::prelude::*;
use vstd::string::*;
use crate::error::ErrorKind;
use crate::text::views;

verus! {

/// The state the interpreter keeps between commands.
#[derive(Debug)]
pub struct Shell {
    /// The absolute working directory.
    pub cwd: String,
    /// The operator's home directory, where it is known.
    pub home: Option<String>,
}

/// What the caller saw when it went to change the working directory.
#[derive(Debug)]
pub enum CdEvent {
    /// The target does not exist; nothing was asked of the operating system.
    Missing,
    /// The operating system refused the change.
    Refused,
    /// The change was made; the new absolute working directory.
    Entered(String),
}

/// The directory `cd` goes to: its argument, else the home directory.
pub open spec fn cd_target_spec(a: Seq<Seq<char>>, home: Option<Seq<char>>) -> Result<
    Seq<char>,
    ErrorKind,
> {
    if a.len() > 0 {
        Ok(a[0])
    } else {
        match home {
            Some(h) => Ok(h),
            None => Err(ErrorKind::IoFailure),
        }
    }
}

pub open spec fn home_view(home: Option<String>) -> Option<Seq<char>> {
    match home {
        Some(h) => Some(h@),
        None => None,
    }
}

/// The text of `path` with the home directory at its start shown as `~`.
pub open spec fn abbreviated(path: Seq<char>, home: Option<Seq<char>>) -> Seq<char> {
    match home {
        Some(h) => if h.len() > 0 && path.len() >= h.len() && path.take(h.len() as int) == h && (
        path.len() == h.len() || path[h.len() as int] == '/') {
            seq!['~'] + path.skip(h.len() as int)
        } else {
            path
        },
        None => path,
    }
}

/// Whether `s` starts with `prefix`.
pub fn starts_with_text(s: &str, prefix: &str) -> (r: bool)
    ensures
        r == (prefix@.len() <= s@.len() && s@.take(prefix@.len() as int) == prefix@),
{
    let n = s.unicode_len();
    let m = prefix.unicode_len();
    if m > n {
        return false;
    }
    let mut i: usize = 0;
    while i < m
        invariant
            m <= n,
            n == s@.len(),
            m == prefix@.len(),
            i <= m,
            forall|j: int| 0 <= j < i ==> s@[j] == prefix@[j],
        decreases m - i,
    {
        if s.get_char(i) != prefix.get_char(i) {
            assert(s@.take(m as int)[i as int] != prefix@[i as int]);
            return false;
        }
        i += 1;
    }
    assert(s@.take(m as int) =~= prefix@);
    true
}

impl Shell {
    pub fn new(cwd: String, home: Option<String>) -> (r: Shell)
        ensures
            r.cwd@ == cwd@,
            home_view(r.home) == home_view(home),
    {
        Shell { cwd, home }
    }

    /// The prompt: the working directory, its home prefix shown as `~`,
    /// then ` $ `.
    pub fn prompt(&self) -> (r: String)
        ensures
            r@ == abbreviated(self.cwd@, home_view(self.home)) + seq![' ', '$', ' '],
    {
        let cwd = self.cwd.as_str();
        let mut out = String::new();
        let mut done = false;
        match &self.home {
            Some(h) => {
                let hs = h.as_str();
                let n = cwd.unicode_len();
                let m = hs.unicode_len();
                if m > 0 && starts_with_text(cwd, hs) && (n == m || cwd.get_char(m) == '/') {
                    crate::text::push_char(&mut out, '~');
                    out.append(cwd.substring_char(m, n));
                    assert(cwd@.subrange(m as int, n as int) =~= cwd@.skip(m as int));
                    done = true;
                }
            },
            None => {},
        }
        if !done {
            out.append(cwd);
        }
        crate::text::push_char(&mut out, ' ');
        crate::text::push_char(&mut out, '$');
        crate::text::push_char(&mut out, ' ');
        assert(out@ =~= abbreviated(self.cwd@, home_view(self.home)) + seq![' ', '$', ' ']);
        out
    }
}

/// The directory `cd` with these arguments goes to: the first argument, else
/// the home directory; without one known, the change fails.
pub fn cd_target(args: &Vec<String>, home: &Option<String>) -> (r: Result<String, ErrorKind>)
    ensures
        match r {
            Ok(t) => cd_target_spec(views(args@), home_view(*home)) == Ok::<Seq<char>, ErrorKind>(
                t@,
            ),
            Err(e) => cd_target_spec(views(args@), home_view(*home)) == Err::<Seq<char>, ErrorKind>(
                e,
            ),
        },
{
    if args.len() > 0 {
        Ok(args[0].clone())
    } else {
        match home {
            Some(h) => Ok(h.clone()),
            None => Err(ErrorKind::IoFailure),
        }
    }
}

/// Records the end of a `cd`: a target found missing fails with `NotFound`
/// and a refusal with `IoFailure`, the working directory left as it was in
/// both; a change made becomes the new working directory.
pub fn handle_cd(shell: &mut Shell, event: CdEvent) -> (r: Result<(), ErrorKind>)
    ensures
        event is Missing ==> r == Err::<(), ErrorKind>(ErrorKind::NotFound) && *final(shell)
            == *old(shell),
        event is Refused ==> r == Err::<(), ErrorKind>(ErrorKind::IoFailure) && *final(shell)
            == *old(shell),
        event matches CdEvent::Entered(d) ==> r == Ok::<(), ErrorKind>(()) && final(shell).cwd@
            == d@ && final(shell).home == old(shell).home,
{
    match event {
        CdEvent::Missing => Err(ErrorKind::NotFound),
        CdEvent::Refused => Err(ErrorKind::IoFailure),
        CdEvent::Entered(d) => {
            shell.cwd = d;
            Ok(())
        },
    }
}

} // verus!
