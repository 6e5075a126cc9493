//! Reading the flags and operands of a built-in's arguments.
use vstd::prelude::*;
use vstd::string::*;
use crate::text::{same_text, views};

verus! {

/// A token that starts with `-` is a flag.
pub open spec fn is_flag(t: Seq<char>) -> bool {
    t.len() > 0 && t[0] == '-'
}

/// The tokens that are not flags, in order.
pub open spec fn operands_of(a: Seq<Seq<char>>) -> Seq<Seq<char>>
    decreases a.len(),
{
    if a.len() == 0 {
        Seq::empty()
    } else if is_flag(a.last()) {
        operands_of(a.drop_last())
    } else {
        operands_of(a.drop_last()).push(a.last())
    }
}

/// Every flag among the tokens is one of `allowed`.
pub open spec fn flags_known(a: Seq<Seq<char>>, allowed: Seq<Seq<char>>) -> bool {
    forall|i: int| 0 <= i < a.len() && is_flag(#[trigger] a[i]) ==> allowed.contains(a[i])
}

/// Whether the token is a flag.
pub fn token_is_flag(t: &str) -> (r: bool)
    ensures
        r == is_flag(t@),
{
    t.unicode_len() > 0 && t.get_char(0) == '-'
}

/// Whether the literal is among the tokens.
pub fn has_token(args: &Vec<String>, lit: &str) -> (r: bool)
    ensures
        r == views(args@).contains(lit@),
{
    let ghost a = views(args@);
    let mut i: usize = 0;
    while i < args.len()
        invariant
            i <= args@.len(),
            a == views(args@),
            forall|j: int| 0 <= j < i ==> a[j] != lit@,
        decreases args@.len() - i,
    {
        if same_text(args[i].as_str(), lit) {
            assert(a[i as int] == lit@);
            return true;
        }
        i += 1;
    }
    false
}

/// Whether every flag among the tokens is one of `allowed`.
pub fn all_flags_known(args: &Vec<String>, allowed: &Vec<String>) -> (r: bool)
    ensures
        r == flags_known(views(args@), views(allowed@)),
{
    let ghost a = views(args@);
    let mut i: usize = 0;
    while i < args.len()
        invariant
            i <= args@.len(),
            a == views(args@),
            forall|j: int| 0 <= j < i && is_flag(#[trigger] a[j]) ==> views(allowed@).contains(a[j]),
        decreases args@.len() - i,
    {
        if token_is_flag(args[i].as_str()) && !has_token(allowed, args[i].as_str()) {
            assert(is_flag(a[i as int]));
            return false;
        }
        i += 1;
    }
    true
}

/// The tokens that are not flags, in order.
pub fn operands(args: &Vec<String>) -> (r: Vec<String>)
    ensures
        views(r@) == operands_of(views(args@)),
{
    let ghost a = views(args@);
    let mut out: Vec<String> = Vec::new();
    let mut i: usize = 0;
    assert(a.take(0) =~= Seq::<Seq<char>>::empty());
    assert(views(out@) =~= Seq::<Seq<char>>::empty());
    while i < args.len()
        invariant
            i <= args@.len(),
            a == views(args@),
            views(out@) == operands_of(a.take(i as int)),
        decreases args@.len() - i,
    {
        assert(a.take(i + 1).drop_last() =~= a.take(i as int));
        if !token_is_flag(args[i].as_str()) {
            let ghost before = views(out@);
            out.push(args[i].clone());
            assert(views(out@) =~= before.push(a[i as int]));
        }
        i += 1;
    }
    assert(a.take(i as int) =~= a);
    out
}

} // verus!
