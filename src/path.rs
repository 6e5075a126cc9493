//! Paths as text: the last component of a path, and joining a name to a
//! directory.
use vstd::prelude::*;
use vstd::string::*;
use crate::fs::PathKind;
use crate::text::push_char;

verus! {

/// `s` without its trailing `/` characters.
pub open spec fn trim_slashes(s: Seq<char>) -> Seq<char>
    decreases s.len(),
{
    if s.len() > 0 && s.last() == '/' {
        trim_slashes(s.drop_last())
    } else {
        s
    }
}

/// What follows the last `/` of `s` (all of `s` if it has none).
pub open spec fn after_last_slash(s: Seq<char>) -> Seq<char>
    decreases s.len(),
{
    if s.len() == 0 {
        s
    } else if s.last() == '/' {
        Seq::empty()
    } else {
        after_last_slash(s.drop_last()).push(s.last())
    }
}

/// The last component of a path, if it names an entry: not empty, `.` or `..`.
pub open spec fn base_of(p: Seq<char>) -> Option<Seq<char>> {
    let b = after_last_slash(trim_slashes(p));
    if b.len() == 0 || b == seq!['.'] || b == seq!['.', '.'] {
        None
    } else {
        Some(b)
    }
}

/// The entry `name` inside the directory `dir`.
pub open spec fn joined(dir: Seq<char>, name: Seq<char>) -> Seq<char> {
    if dir.len() == 0 {
        name
    } else if dir.last() == '/' {
        dir + name
    } else {
        dir + seq!['/'] + name
    }
}

/// The last component of a path, or `None` where the path names no entry.
pub fn base_name(p: &str) -> (r: Option<String>)
    ensures
        match r {
            Some(b) => base_of(p@) == Some(b@),
            None => base_of(p@) is None,
        },
{
    let n = p.unicode_len();
    let mut hi: usize = n;
    assert(p@.subrange(0, n as int) =~= p@);
    while hi > 0 && p.get_char(hi - 1) == '/'
        invariant
            hi <= n == p@.len(),
            trim_slashes(p@.subrange(0, hi as int)) == trim_slashes(p@),
        decreases hi,
    {
        assert(p@.subrange(0, hi as int).drop_last() =~= p@.subrange(0, hi - 1));
        hi -= 1;
    }
    let ghost t = p@.subrange(0, hi as int);
    assert(trim_slashes(p@) == t);
    let mut lo: usize = hi;
    assert(p@.subrange(lo as int, hi as int) =~= Seq::<char>::empty());
    assert(t.subrange(0, lo as int) =~= t);
    while lo > 0 && p.get_char(lo - 1) != '/'
        invariant
            lo <= hi <= n == p@.len(),
            t == p@.subrange(0, hi as int),
            after_last_slash(t) == after_last_slash(p@.subrange(0, lo as int)) + p@.subrange(
                lo as int,
                hi as int,
            ),
        decreases lo,
    {
        let ghost s = p@.subrange(0, lo as int);
        assert(s.drop_last() =~= p@.subrange(0, lo - 1));
        assert(p@.subrange(lo - 1, hi as int) =~= seq![s.last()] + p@.subrange(lo as int, hi as int));
        assert(after_last_slash(s) == after_last_slash(p@.subrange(0, lo - 1)).push(s.last()));
        assert(after_last_slash(p@.subrange(0, lo - 1)).push(s.last()) + p@.subrange(lo as int, hi as int)
            =~= after_last_slash(p@.subrange(0, lo - 1)) + p@.subrange(lo - 1, hi as int));
        lo -= 1;
    }
    assert(after_last_slash(p@.subrange(0, lo as int)) =~= Seq::<char>::empty());
    assert(after_last_slash(t) =~= p@.subrange(lo as int, hi as int));
    let len = hi - lo;
    if len == 0 {
        return None;
    }
    if p.get_char(lo) == '.' && (len == 1 || (len == 2 && p.get_char(lo + 1) == '.')) {
        assert(len == 1 ==> p@.subrange(lo as int, hi as int) =~= seq!['.']);
        assert(len == 2 ==> p@.subrange(lo as int, hi as int) =~= seq!['.', '.']);
        return None;
    }
    assert(p@.subrange(lo as int, hi as int) != seq!['.']) by {
        if len == 1 {
            assert(p@.subrange(lo as int, hi as int)[0] == p@[lo as int]);
        }
    }
    assert(p@.subrange(lo as int, hi as int) != seq!['.', '.']) by {
        if len == 2 {
            assert(p@.subrange(lo as int, hi as int)[0] == p@[lo as int]);
            assert(p@.subrange(lo as int, hi as int)[1] == p@[lo + 1]);
        }
    }
    Some(String::from_str(p.substring_char(lo, hi)))
}

/// The path of the entry `name` inside the directory `dir`.
pub fn join_path(dir: &str, name: &str) -> (r: String)
    ensures
        r@ == joined(dir@, name@),
{
    let n = dir.unicode_len();
    let mut out = String::from_str(dir);
    if n > 0 && dir.get_char(n - 1) != '/' {
        push_char(&mut out, '/');
    }
    out.append(name);
    out
}


/// Where a copy or a move of `src` to `dst` lands: inside `dst` under the
/// last component of `src` where `dst` is a directory, else at `dst`.
pub open spec fn landing(src: Seq<char>, dst: Seq<char>, dst_kind: PathKind) -> Option<Seq<char>> {
    if dst_kind.is_dir() {
        match base_of(src) {
            Some(b) => Some(joined(dst, b)),
            None => None,
        }
    } else {
        Some(dst)
    }
}

/// Where a copy or a move of `src` to `dst` lands, or `None` where `dst` is
/// a directory and `src` has no last component to name the entry by.
pub fn landing_path(src: &str, dst: &str, dst_kind: PathKind) -> (r: Option<String>)
    ensures
        match r {
            Some(t) => landing(src@, dst@, dst_kind) == Some(t@),
            None => landing(src@, dst@, dst_kind) is None,
        },
{
    match dst_kind {
        PathKind::EmptyDir | PathKind::NonEmptyDir => match base_name(src) {
            Some(b) => Some(join_path(dst, b.as_str())),
            None => None,
        },
        _ => Some(String::from_str(dst)),
    }
}

} // verus!
