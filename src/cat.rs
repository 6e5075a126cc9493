//! `cat`: the lines of a file's bytes, as text.
use vstd::prelude::*;
use vstd::utf8::{decode_utf8, valid_utf8};
use crate::error::ErrorKind;
use crate::text::views;

verus! {

/// The text `String::from_utf8_lossy` makes of these bytes.
pub uninterp spec fn lossy_text(b: Seq<u8>) -> Seq<char>;

/// Relies on `String::from_utf8_lossy`: the bytes decoded as UTF-8, each
/// invalid sequence replaced; bytes that are valid UTF-8 decode as they are.
#[verifier::external_body]
fn decode_lossy(b: &[u8]) -> (r: String)
    ensures
        r@ == lossy_text(b@),
        valid_utf8(b@) ==> r@ == decode_utf8(b@),
{
    String::from_utf8_lossy(b).into_owned()
}

pub const NEWLINE: u8 = 10;

pub const CARRIAGE_RETURN: u8 = 13;

/// A line without the carriage return that ended it.
pub open spec fn strip_cr(line: Seq<u8>) -> Seq<u8> {
    if line.len() > 0 && line.last() == CARRIAGE_RETURN {
        line.drop_last()
    } else {
        line
    }
}

/// The lines of `b`, given that `cur` is the unfinished line before it:
/// each `\n` ends a line (with a `\r` before it dropped), and what follows
/// the last `\n` is a line only where it is not empty.
pub open spec fn lines_from(b: Seq<u8>, cur: Seq<u8>) -> Seq<Seq<u8>>
    decreases b.len(),
{
    if b.len() == 0 {
        if cur.len() == 0 {
            Seq::empty()
        } else {
            seq![cur]
        }
    } else if b[0] == NEWLINE {
        seq![strip_cr(cur)] + lines_from(b.drop_first(), Seq::empty())
    } else {
        lines_from(b.drop_first(), cur.push(b[0]))
    }
}

/// The lines of a file's bytes.
pub open spec fn lines_of(b: Seq<u8>) -> Seq<Seq<u8>> {
    lines_from(b, Seq::empty())
}

/// The text `cat` prints for a file's bytes, line by line.
pub open spec fn text_lines(b: Seq<u8>) -> Seq<Seq<char>> {
    lines_of(b).map_values(|l: Seq<u8>| lossy_text(l))
}

/// The text of one line; one that a newline ended loses a carriage return
/// before it.
fn finish_line(line: Vec<u8>, ended: bool) -> (r: String)
    ensures
        r@ == lossy_text(if ended {
            strip_cr(line@)
        } else {
            line@
        }),
{
    let mut line = line;
    if ended && line.len() > 0 && line[line.len() - 1] == CARRIAGE_RETURN {
        line.pop();
    }
    decode_lossy(line.as_slice())
}

/// The lines of a file as `cat` prints them, in order: split at each `\n`,
/// a `\r` before it dropped, each line decoded as UTF-8 with invalid bytes
/// replaced, and no empty line after a final `\n`.
pub fn cat(content: &Vec<u8>) -> (r: Vec<String>)
    ensures
        views(r@) == text_lines(content@),
{
    let ghost b = content@;
    let mut out: Vec<String> = Vec::new();
    let mut cur: Vec<u8> = Vec::new();
    let mut i: usize = 0;
    assert(b.skip(0) =~= b);
    assert(views(out@) =~= Seq::<Seq<char>>::empty());
    while i < content.len()
        invariant
            b == content@,
            i <= b.len(),
            views(out@) + lines_from(b.skip(i as int), cur@).map_values(
                |l: Seq<u8>| lossy_text(l),
            ) == text_lines(b),
        decreases b.len() - i,
    {
        let c = content[i];
        let ghost rest = b.skip(i as int);
        assert(rest[0] == c);
        assert(rest.drop_first() =~= b.skip(i + 1));
        if c == NEWLINE {
            let ghost line = cur@;
            let ghost before = views(out@);
            let done = cur;
            cur = Vec::new();
            let text = finish_line(done, true);
            out.push(text);
            assert(views(out@) =~= before.push(lossy_text(strip_cr(line))));
            assert(lines_from(rest, line) == seq![strip_cr(line)] + lines_from(
                b.skip(i + 1),
                cur@,
            ));
            assert((seq![strip_cr(line)] + lines_from(b.skip(i + 1), cur@)).map_values(
                |l: Seq<u8>| lossy_text(l),
            ) =~= seq![lossy_text(strip_cr(line))] + lines_from(b.skip(i + 1), cur@).map_values(
                |l: Seq<u8>| lossy_text(l),
            ));
            assert(views(out@) + lines_from(b.skip(i + 1), cur@).map_values(
                |l: Seq<u8>| lossy_text(l),
            ) =~= before + lines_from(rest, line).map_values(|l: Seq<u8>| lossy_text(l)));
        } else {
            cur.push(c);
        }
        i += 1;
    }
    assert(b.skip(i as int) =~= Seq::<u8>::empty());
    if cur.len() > 0 {
        let ghost line = cur@;
        let ghost before = views(out@);
        let text = finish_line(cur, false);
        out.push(text);
        assert(views(out@) =~= before + seq![line].map_values(|l: Seq<u8>| lossy_text(l)));
    } else {
        assert(views(out@) =~= views(out@) + Seq::<Seq<u8>>::empty().map_values(
            |l: Seq<u8>| lossy_text(l),
        ));
    }
    out
}


/// Reads the arguments of `cat`: the path of the file, which must be given.
pub fn cat_operand(args: &Vec<String>) -> (r: Result<String, ErrorKind>)
    ensures
        args@.len() == 0 ==> r == Err::<String, ErrorKind>(ErrorKind::MissingOperand),
        args@.len() > 0 ==> (r matches Ok(p) && p@ == args@[0]@),
{
    if args.len() == 0 {
        return Err(ErrorKind::MissingOperand);
    }
    Ok(args[0].clone())
}

/// The number of newline bytes in `b`.
pub open spec fn newlines(b: Seq<u8>) -> int
    decreases b.len(),
{
    if b.len() == 0 {
        0
    } else {
        newlines(b.drop_first()) + if b[0] == NEWLINE {
            1int
        } else {
            0int
        }
    }
}

/// Whether the lines of `b` after the unfinished line `cur` end with one
/// that no newline closes.
pub open spec fn open_tail(b: Seq<u8>, cur: Seq<u8>) -> bool {
    if b.len() == 0 {
        cur.len() > 0
    } else {
        b.last() != NEWLINE
    }
}

proof fn lemma_lines_from_count(b: Seq<u8>, cur: Seq<u8>)
    ensures
        lines_from(b, cur).len() == newlines(b) + if open_tail(b, cur) {
            1int
        } else {
            0int
        },
    decreases b.len(),
{
    if b.len() > 0 {
        let rest = b.drop_first();
        if b[0] == NEWLINE {
            lemma_lines_from_count(rest, Seq::empty());
        } else {
            lemma_lines_from_count(rest, cur.push(b[0]));
        }
        if rest.len() > 0 {
            assert(rest.last() == b.last());
        }
    }
}

/// `cat` prints one line for each newline of the file, and one more only
/// where the file does not end with a newline: it adds no blank line at the
/// end.
pub proof fn cat_line_count(b: Seq<u8>)
    ensures
        text_lines(b).len() == newlines(b) + if b.len() > 0 && b.last() != NEWLINE {
            1int
        } else {
            0int
        },
{
    lemma_lines_from_count(b, Seq::empty());
}

} // verus!
