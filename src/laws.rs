//! What holds of the built-ins across several calls, over the model of the
//! filesystem in `fs`.
use vstd::prelude::*;
use crate::cp::cp_spec;
use crate::echo::{echo_spec, Echoed};
use crate::error::ErrorKind;
use crate::fs::{apply, kind_of, moved_from, within, Action, FsView, Node, PathKind};
use crate::ls::{hidden, kept, EntryMeta};
use crate::mkdir::mkdir_spec;
use crate::mv::move_spec;
use crate::path::{base_of, joined};
use crate::rm::remove_spec;

verus! {

/// Once `mkdir d` has created `d`, a second `mkdir d` fails with
/// `AlreadyExists`.
pub proof fn mkdir_twice_fails(fs: FsView, d: Seq<char>)
    requires
        mkdir_spec(d, false, kind_of(fs, d)) is Ok,
    ensures
        mkdir_spec(d, false, kind_of(apply(fs, mkdir_spec(d, false, kind_of(fs, d))->Ok_0), d))
            == Err::<Action, ErrorKind>(ErrorKind::AlreadyExists),
{
    let fs2 = apply(fs, mkdir_spec(d, false, kind_of(fs, d))->Ok_0);
    assert(fs2.contains_key(d));
}

/// `mkdir -p d` is idempotent: once it has succeeded, it succeeds again with
/// the same action, which changes nothing.
pub proof fn mkdir_parents_idempotent(fs: FsView, d: Seq<char>)
    requires
        mkdir_spec(d, true, kind_of(fs, d)) is Ok,
    ensures
        ({
            let a = mkdir_spec(d, true, kind_of(fs, d))->Ok_0;
            let fs2 = apply(fs, a);
            &&& mkdir_spec(d, true, kind_of(fs2, d)) == Ok::<Action, ErrorKind>(a)
            &&& apply(fs2, a) == fs2
        }),
{
    let a = mkdir_spec(d, true, kind_of(fs, d))->Ok_0;
    let fs2 = apply(fs, a);
    if fs.contains_key(d) {
        assert(fs2[d] == fs[d]);
    } else if d.len() > 0 {
        assert(within(d, d));
        assert(fs2[d] == Node::Dir);
    }
    assert(apply(fs2, a) =~= fs2);
}

/// Without recursion a directory with entries is not removed: the removal
/// fails with `DirectoryNotEmpty`. With it, the directory and everything
/// under it are gone, and `d` is then found missing.
pub proof fn rm_non_empty_dir(fs: FsView, d: Seq<char>, force: bool)
    requires
        kind_of(fs, d) == PathKind::NonEmptyDir,
    ensures
        remove_spec(d, kind_of(fs, d), false, force) == Err::<Option<Action>, ErrorKind>(
            ErrorKind::DirectoryNotEmpty,
        ),
        remove_spec(d, kind_of(fs, d), true, force) == Ok::<Option<Action>, ErrorKind>(
            Some(Action::RemoveTree(d)),
        ),
        kind_of(apply(fs, Action::RemoveTree(d)), d) == PathKind::Missing,
        forall|k: Seq<char>| within(k, d) ==> !#[trigger] apply(fs, Action::RemoveTree(d)).contains_key(k),
{
}

/// `mv a b` where `b` is absent renames `a` to `b`: afterwards `a` is
/// missing and `b` holds what `a` held.
pub proof fn mv_renames(fs: FsView, a: Seq<char>, b: Seq<char>)
    requires
        kind_of(fs, a) != PathKind::Missing,
        kind_of(fs, b) == PathKind::Missing,
        !within(a, b),
    ensures
        move_spec(a, b, kind_of(fs, a), kind_of(fs, b)) == Ok::<Action, ErrorKind>(
            Action::Rename(a, b),
        ),
        kind_of(apply(fs, Action::Rename(a, b)), a) == PathKind::Missing,
        apply(fs, Action::Rename(a, b)).contains_key(b),
        apply(fs, Action::Rename(a, b))[b] == fs[a],
        forall|k: Seq<char>|
            within(k, a) && fs.contains_key(k) ==> #[trigger] apply(
                fs,
                Action::Rename(a, b),
            ).contains_key(b + k.subrange(a.len() as int, k.len() as int)) && apply(
                fs,
                Action::Rename(a, b),
            )[b + k.subrange(a.len() as int, k.len() as int)] == fs[k],
{
    assert(a + b.subrange(b.len() as int, b.len() as int) =~= a);
    assert(within(b, b));
    assert forall|k: Seq<char>|
        within(k, a) && fs.contains_key(k) implies #[trigger] apply(
            fs,
            Action::Rename(a, b),
        ).contains_key(b + k.subrange(a.len() as int, k.len() as int)) && apply(
            fs,
            Action::Rename(a, b),
        )[b + k.subrange(a.len() as int, k.len() as int)] == fs[k] by {
        rename_carries(fs, a, b, k);
    }
}

/// `mv a b` where `b` is a directory moves `a` into `b` under its last
/// component: afterwards `a` is missing and that entry holds what `a` held.
pub proof fn mv_into_dir(fs: FsView, a: Seq<char>, b: Seq<char>)
    requires
        kind_of(fs, a) != PathKind::Missing,
        kind_of(fs, b).is_dir(),
        base_of(a) is Some,
        !within(a, joined(b, base_of(a)->Some_0)),
    ensures
        ({
            let t = joined(b, base_of(a)->Some_0);
            let fs2 = apply(fs, Action::Rename(a, t));
            &&& move_spec(a, b, kind_of(fs, a), kind_of(fs, b)) == Ok::<Action, ErrorKind>(
                Action::Rename(a, t),
            )
            &&& kind_of(fs2, a) == PathKind::Missing
            &&& fs2.contains_key(t)
            &&& fs2[t] == fs[a]
            &&& forall|k: Seq<char>|
                within(k, a) && fs.contains_key(k) ==> #[trigger] fs2.contains_key(
                    t + k.subrange(a.len() as int, k.len() as int),
                ) && fs2[t + k.subrange(a.len() as int, k.len() as int)] == fs[k]
        }),
{
    let t = joined(b, base_of(a)->Some_0);
    let fs2 = apply(fs, Action::Rename(a, t));
    assert(a + t.subrange(t.len() as int, t.len() as int) =~= a);
    assert(within(t, t));
    assert forall|k: Seq<char>|
        within(k, a) && fs.contains_key(k) implies #[trigger] fs2.contains_key(
            t + k.subrange(a.len() as int, k.len() as int),
        ) && fs2[t + k.subrange(a.len() as int, k.len() as int)] == fs[k] by {
        rename_carries(fs, a, t, k);
    }
}

/// A path under the source of a rename is found, with what it held, at the
/// same place under the target.
proof fn rename_carries(fs: FsView, a: Seq<char>, t: Seq<char>, k: Seq<char>)
    requires
        within(k, a),
    ensures
        ({
            let k2 = t + k.subrange(a.len() as int, k.len() as int);
            let fs2 = apply(fs, Action::Rename(a, t));
            &&& fs2.contains_key(k2) == fs.contains_key(k)
            &&& fs.contains_key(k) ==> fs2[k2] == fs[k]
        }),
{
    let rest = k.subrange(a.len() as int, k.len() as int);
    let k2 = t + rest;
    assert(k2.subrange(t.len() as int, k2.len() as int) =~= rest);
    if k == a {
        assert(rest =~= Seq::<char>::empty());
        assert(k2 =~= t);
        assert(a + rest =~= k);
    } else {
        assert(k.subrange(0, a.len() as int) + rest =~= k);
        assert(a + rest =~= k);
        if k2 != t {
            assert(k2.subrange(0, t.len() as int) =~= t);
            assert(k2[t.len() as int] == k[a.len() as int]);
        }
    }
    assert(within(k2, t));
    assert(moved_from(k2, a, t) == k);
}

/// `echo ... > f` replaces what `f` held rather than adding to it: running it
/// twice leaves the filesystem as running it once, with `f` holding the
/// encoded line.
pub proof fn echo_overwrites(fs: FsView, args: Seq<Seq<char>>)
    requires
        echo_spec(args) matches Ok(Echoed::Write(_)),
    ensures
        ({
            let a = echo_spec(args)->Ok_0->Write_0;
            &&& apply(apply(fs, a), a) == apply(fs, a)
            &&& a matches Action::WriteFile(p, t) && apply(fs, a)[p] == Node::File(
                vstd::utf8::encode_utf8(t),
            )
        }),
{
    let a = echo_spec(args)->Ok_0->Write_0;
    assert(apply(apply(fs, a), a) =~= apply(fs, a));
}

/// `cp f g` on a file `f` and a path `g` that is no directory copies the
/// bytes: afterwards `g` holds exactly what `f` holds, so reading it gives
/// the same lines.
pub proof fn cp_then_cat(fs: FsView, f: Seq<char>, g: Seq<char>)
    requires
        kind_of(fs, f) == PathKind::File,
        !kind_of(fs, g).is_dir(),
    ensures
        cp_spec(f, g, kind_of(fs, f), kind_of(fs, g)) == Ok::<Seq<Action>, ErrorKind>(
            seq![Action::CopyFile(f, g)],
        ),
        apply(fs, Action::CopyFile(f, g))[g] == fs[f],
        fs[f] is File,
{
}

/// Without `-a` a listing keeps exactly the entries whose name does not
/// start with `.`; with `-a` it keeps all of them.
pub proof fn listing_keeps(s: Seq<EntryMeta>)
    ensures
        kept(s, true) == s,
        forall|e: EntryMeta| #[trigger]
            kept(s, false).contains(e) <==> (s.contains(e) && !hidden(e.name@)),
    decreases s.len(),
{
    if s.len() > 0 {
        let p = s.drop_last();
        let x = s.last();
        listing_keeps(p);
        assert(p.push(x) =~= s);
        assert forall|e: EntryMeta| #[trigger]
            kept(s, false).contains(e) <==> (s.contains(e) && !hidden(e.name@)) by {
            push_contains(p, x, e);
            push_contains(kept(p, false), x, e);
        }
    } else {
        assert(kept(s, false) =~= s);
    }
}

proof fn push_contains<A>(q: Seq<A>, x: A, e: A)
    ensures
        q.push(x).contains(e) <==> (q.contains(e) || e == x),
{
    if q.contains(e) {
        let i = choose|i: int| 0 <= i < q.len() && q[i] == e;
        assert(q.push(x)[i] == e);
    }
    if e == x {
        assert(q.push(x)[q.len() as int] == e);
    }
    if q.push(x).contains(e) {
        let i = choose|i: int| 0 <= i < q.push(x).len() && q.push(x)[i] == e;
        if i < q.len() {
            assert(q[i] == e);
        }
    }
}

} // verus!
