//! `ls`: which entries a listing shows, in which order, and how each line
//! reads.
use vstd::prelude::*;
use vstd::string::*;
use vstd::multiset::Multiset;
use vstd::seq_lib::group_to_multiset_ensures;
use crate::args::{all_flags_known, flags_known, has_token, operands, operands_of};
use crate::error::ErrorKind;
use crate::text::{
    digits, pad_left, pad_right, push_char, push_decimal, push_padded_left, push_padded_right,
    views,
};

verus! {

/// What `ls` was asked to list, and how.
#[derive(Debug)]
pub struct LsRequest {
    pub directory: String,
    /// `-a`: entries whose name starts with `.`, and `.` and `..`.
    pub show_hidden: bool,
    /// `-l`: permissions, links, owner, group, size and time.
    pub long_form: bool,
    /// `-F`: a suffix for the type of each entry.
    pub classify: bool,
}

/// The flags that `ls` knows.
pub open spec fn ls_flags() -> Seq<Seq<char>> {
    seq![seq!['-', 'a'], seq!['-', 'l'], seq!['-', 'F']]
}

/// Reads the arguments of `ls`: any of `-a`, `-l`, `-F`, and a directory,
/// `.` when none is given (the last one when several are).
pub fn handlels(args: &Vec<String>) -> (r: Result<LsRequest, ErrorKind>)
    ensures
        r is Err <==> !flags_known(views(args@), ls_flags()),
        r is Err ==> r == Err::<LsRequest, ErrorKind>(ErrorKind::InvalidOption),
        r matches Ok(q) ==> {
            let ops = operands_of(views(args@));
            &&& q.directory@ == (if ops.len() == 0 {
                seq!['.']
            } else {
                ops.last()
            })
            &&& q.show_hidden == views(args@).contains(seq!['-', 'a'])
            &&& q.long_form == views(args@).contains(seq!['-', 'l'])
            &&& q.classify == views(args@).contains(seq!['-', 'F'])
        },
{
    proof {
        reveal_strlit("-a");
        reveal_strlit("-l");
        reveal_strlit("-F");
        reveal_strlit(".");
    }
    assert("-a"@ =~= seq!['-', 'a']);
    assert("-l"@ =~= seq!['-', 'l']);
    assert("-F"@ =~= seq!['-', 'F']);
    assert("."@ =~= seq!['.']);
    let mut allowed: Vec<String> = Vec::new();
    allowed.push(String::from_str("-a"));
    allowed.push(String::from_str("-l"));
    allowed.push(String::from_str("-F"));
    assert(views(allowed@) =~= ls_flags());
    if !all_flags_known(args, &allowed) {
        return Err(ErrorKind::InvalidOption);
    }
    let ops = operands(args);
    let directory = if ops.len() == 0 {
        String::from_str(".")
    } else {
        ops[ops.len() - 1].clone()
    };
    Ok(
        LsRequest {
            directory,
            show_hidden: has_token(args, "-a"),
            long_form: has_token(args, "-l"),
            classify: has_token(args, "-F"),
        },
    )
}

/// The mode bits that give the type of a file.
pub const TYPE_MASK: u32 = 0o170000;

pub const TYPE_DIR: u32 = 0o040000;

pub const TYPE_FIFO: u32 = 0o010000;

pub const TYPE_SOCKET: u32 = 0o140000;

/// Whether the mode is that of a directory.
pub open spec fn mode_is_dir(mode: u32) -> bool {
    mode & TYPE_MASK == TYPE_DIR
}

/// `c` where the mode has the bit of `mask`, `-` where not.
pub open spec fn bit_char(mode: u32, mask: u32, c: char) -> char {
    if mode & mask != 0 {
        c
    } else {
        '-'
    }
}

/// The permission column: the type (`d` or `-`), read, write and execute for
/// owner, group and others, and `@` where extended attributes are present.
pub open spec fn permission_text(mode: u32, has_xattr: bool) -> Seq<char> {
    seq![
        if mode_is_dir(mode) { 'd' } else { '-' },
        bit_char(mode, 0o400, 'r'),
        bit_char(mode, 0o200, 'w'),
        bit_char(mode, 0o100, 'x'),
        bit_char(mode, 0o040, 'r'),
        bit_char(mode, 0o020, 'w'),
        bit_char(mode, 0o010, 'x'),
        bit_char(mode, 0o004, 'r'),
        bit_char(mode, 0o002, 'w'),
        bit_char(mode, 0o001, 'x'),
        if has_xattr { '@' } else { ' ' },
    ]
}

fn push_bit(out: &mut String, mode: u32, mask: u32, c: char)
    ensures
        final(out)@ == old(out)@.push(bit_char(mode, mask, c)),
{
    if mode & mask != 0 {
        push_char(out, c);
    } else {
        push_char(out, '-');
    }
}

/// The permission column of a long listing.
pub fn convert_to_permission(mode: u32, has_xattr: bool) -> (r: String)
    ensures
        r@ == permission_text(mode, has_xattr),
{
    let mut out = String::new();
    if mode & TYPE_MASK == TYPE_DIR {
        push_char(&mut out, 'd');
    } else {
        push_char(&mut out, '-');
    }
    push_bit(&mut out, mode, 0o400, 'r');
    push_bit(&mut out, mode, 0o200, 'w');
    push_bit(&mut out, mode, 0o100, 'x');
    push_bit(&mut out, mode, 0o040, 'r');
    push_bit(&mut out, mode, 0o020, 'w');
    push_bit(&mut out, mode, 0o010, 'x');
    push_bit(&mut out, mode, 0o004, 'r');
    push_bit(&mut out, mode, 0o002, 'w');
    push_bit(&mut out, mode, 0o001, 'x');
    if has_xattr {
        push_char(&mut out, '@');
    } else {
        push_char(&mut out, ' ');
    }
    assert(out@ =~= permission_text(mode, has_xattr));
    out
}

/// The suffix that `-F` gives an entry of this mode: `/` for a directory, `*`
/// where any execute bit is set, `|` for a FIFO, `=` for a socket.
pub open spec fn indicator_of(mode: u32) -> Option<char> {
    if mode_is_dir(mode) {
        Some('/')
    } else if mode & 0o111 != 0 {
        Some('*')
    } else if mode & TYPE_MASK == TYPE_FIFO {
        Some('|')
    } else if mode & TYPE_MASK == TYPE_SOCKET {
        Some('=')
    } else {
        None
    }
}

/// The `-F` suffix of an entry of this mode, if it has one.
pub fn print_indicator(mode: u32) -> (r: Option<char>)
    ensures
        r == indicator_of(mode),
{
    if mode & TYPE_MASK == TYPE_DIR {
        Some('/')
    } else if mode & 0o111 != 0 {
        Some('*')
    } else if mode & TYPE_MASK == TYPE_FIFO {
        Some('|')
    } else if mode & TYPE_MASK == TYPE_SOCKET {
        Some('=')
    } else {
        None
    }
}

/// A name that starts with `.` is hidden.
pub open spec fn hidden(name: Seq<char>) -> bool {
    name.len() > 0 && name[0] == '.'
}

/// Whether a listing without `-a` leaves this name out.
pub fn is_hidden(name: &str) -> (r: bool)
    ensures
        r == hidden(name@),
{
    name.unicode_len() > 0 && name.get_char(0) == '.'
}


/// What the caller read of one directory entry.
#[derive(Debug)]
pub struct EntryMeta {
    pub name: String,
    /// Type and permission bits.
    pub mode: u32,
    pub nlink: u64,
    pub uid: u32,
    pub gid: u32,
    /// The owner's name, where it could be resolved.
    pub user: Option<String>,
    /// The group's name, where it could be resolved.
    pub group: Option<String>,
    pub size: u64,
    /// 512-byte blocks allocated.
    pub blocks: u64,
    /// Seconds since the epoch of the last modification.
    pub mtime: i64,
    pub has_xattr: bool,
}

/// The sum of the blocks of the entries.
pub open spec fn total_blocks(s: Seq<EntryMeta>) -> int
    decreases s.len(),
{
    if s.len() == 0 {
        0
    } else {
        total_blocks(s.drop_last()) + s.last().blocks
    }
}

/// The `total` figure of a long listing: the blocks of all entries, held at
/// the largest `u64` should the sum go beyond.
pub fn calculate_total_size(entries: &Vec<EntryMeta>) -> (r: u64)
    ensures
        r == (if total_blocks(entries@) > u64::MAX as int {
            u64::MAX as int
        } else {
            total_blocks(entries@)
        }),
{
    let mut total: u64 = 0;
    let mut i: usize = 0;
    while i < entries.len()
        invariant
            i <= entries@.len(),
            total == (if total_blocks(entries@.take(i as int)) > u64::MAX as int {
                u64::MAX as int
            } else {
                total_blocks(entries@.take(i as int))
            }),
            total_blocks(entries@.take(i as int)) >= 0,
        decreases entries@.len() - i,
    {
        assert(entries@.take(i + 1).drop_last() =~= entries@.take(i as int));
        total = total.saturating_add(entries[i].blocks);
        i += 1;
    }
    assert(entries@.take(i as int) =~= entries@);
    total
}

/// Byte-wise order of names: UTF-8 orders bytes as code points are ordered.
pub open spec fn name_le(a: Seq<char>, b: Seq<char>) -> bool
    decreases a.len(),
{
    if a.len() == 0 {
        true
    } else if b.len() == 0 {
        false
    } else if a[0] != b[0] {
        a[0] < b[0]
    } else {
        name_le(a.drop_first(), b.drop_first())
    }
}

/// Any two names are ordered one way or the other.
pub proof fn lemma_name_le_total(a: Seq<char>, b: Seq<char>)
    ensures
        name_le(a, b) || name_le(b, a),
    decreases a.len(),
{
    if a.len() > 0 && b.len() > 0 {
        if a[0] == b[0] {
            lemma_name_le_total(a.drop_first(), b.drop_first());
        }
    }
}

/// The order of names is transitive.
pub proof fn lemma_name_le_trans(a: Seq<char>, b: Seq<char>, c: Seq<char>)
    requires
        name_le(a, b),
        name_le(b, c),
    ensures
        name_le(a, c),
    decreases a.len(),
{
    if a.len() > 0 && a[0] == b[0] && b[0] == c[0] {
        lemma_name_le_trans(a.drop_first(), b.drop_first(), c.drop_first());
    }
}

/// Whether `a` comes no later than `b` in byte-wise order.
pub fn names_in_order(a: &str, b: &str) -> (r: bool)
    ensures
        r == name_le(a@, b@),
{
    let na = a.unicode_len();
    let nb = b.unicode_len();
    let mut i: usize = 0;
    assert(a@.skip(0) =~= a@);
    assert(b@.skip(0) =~= b@);
    while i < na && i < nb && a.get_char(i) == b.get_char(i)
        invariant
            na == a@.len(),
            nb == b@.len(),
            i <= na,
            i <= nb,
            name_le(a@, b@) == name_le(a@.skip(i as int), b@.skip(i as int)),
        decreases na - i,
    {
        assert(a@.skip(i as int).drop_first() =~= a@.skip(i + 1));
        assert(b@.skip(i as int).drop_first() =~= b@.skip(i + 1));
        i += 1;
    }
    if i == na {
        true
    } else if i == nb {
        false
    } else {
        assert(a@.skip(i as int)[0] == a@[i as int]);
        assert(b@.skip(i as int)[0] == b@[i as int]);
        a.get_char(i) < b.get_char(i)
    }
}

/// The entries a listing keeps: all of them with `-a`, else those that are
/// not hidden.
pub open spec fn kept(s: Seq<EntryMeta>, show_hidden: bool) -> Seq<EntryMeta>
    decreases s.len(),
{
    if s.len() == 0 {
        s
    } else if show_hidden || !hidden(s.last().name@) {
        kept(s.drop_last(), show_hidden).push(s.last())
    } else {
        kept(s.drop_last(), show_hidden)
    }
}

/// The entries are in byte-wise order of their names.
pub open spec fn sorted_by_name(s: Seq<EntryMeta>) -> bool {
    forall|i: int, j: int| 0 <= i < j < s.len() ==> name_le(s[i].name@, s[j].name@)
}

/// The entries a listing shows, in byte-wise order of their names: all of
/// them with `show_hidden`, else those whose name does not start with `.`.
pub fn visible_sorted(entries: Vec<EntryMeta>, show_hidden: bool) -> (r: Vec<EntryMeta>)
    ensures
        sorted_by_name(r@),
        r@.to_multiset() == kept(entries@, show_hidden).to_multiset(),
{
    broadcast use group_to_multiset_ensures;

    let ghost orig = entries@;
    let mut rest = entries;
    let mut out: Vec<EntryMeta> = Vec::new();
    assert(rest@.take(rest@.len() as int) =~= rest@);
    while rest.len() > 0
        invariant
            sorted_by_name(out@),
            out@.to_multiset().add(kept(rest@, show_hidden).to_multiset()) == kept(
                orig,
                show_hidden,
            ).to_multiset(),
        decreases rest@.len(),
    {
        let ghost before = rest@;
        let e = rest.pop().unwrap();
        assert(before =~= rest@.push(e));
        assert(before.drop_last() =~= rest@);
        if show_hidden || !is_hidden(e.name.as_str()) {
            let mut pos: usize = 0;
            while pos < out.len() && names_in_order(out[pos].name.as_str(), e.name.as_str())
                invariant
                    pos <= out@.len(),
                    forall|k: int| 0 <= k < pos ==> name_le(out@[k].name@, e.name@),
                decreases out@.len() - pos,
            {
                pos += 1;
            }
            let ghost o = out@;
            proof {
                if pos < o.len() {
                    lemma_name_le_total(o[pos as int].name@, e.name@);
                    assert forall|k: int| pos <= k < o.len() implies name_le(
                        e.name@,
                        o[k].name@,
                    ) by {
                        if k > pos {
                            lemma_name_le_trans(e.name@, o[pos as int].name@, o[k].name@);
                        }
                    }
                }
            }
            out.insert(pos, e);
            proof {
                assert(out@.remove(pos as int) =~= o);
                assert(out@[pos as int] == e);
                out@.to_multiset_ensures();
                assert(out@.remove(pos as int).to_multiset() == out@.to_multiset().remove(
                    out@[pos as int],
                ));
                assert(out@.contains(e));
                assert(out@.to_multiset().count(e) > 0);
                assert(o.to_multiset() == out@.to_multiset().remove(e));
                assert(out@.to_multiset() =~= o.to_multiset().insert(e));
                assert forall|i: int, j: int| 0 <= i < j < out@.len() implies name_le(
                    out@[i].name@,
                    out@[j].name@,
                ) by {
                    if j < pos {
                    } else if j == pos {
                    } else if i < pos {
                        lemma_name_le_trans(o[i].name@, e.name@, o[j - 1].name@);
                    } else if i == pos {
                    } else {
                    }
                }
                assert(kept(before, show_hidden) == kept(rest@, show_hidden).push(e));
                kept(rest@, show_hidden).to_multiset_ensures();
                assert(kept(rest@, show_hidden).push(e).to_multiset() =~= kept(
                    rest@,
                    show_hidden,
                ).to_multiset().insert(e));
                assert(kept(before, show_hidden).to_multiset() =~= kept(
                    rest@,
                    show_hidden,
                ).to_multiset().insert(e));
                assert(out@.to_multiset().add(kept(rest@, show_hidden).to_multiset())
                    =~= o.to_multiset().add(kept(before, show_hidden).to_multiset()));
            }
        } else {
            assert(kept(before, show_hidden) == kept(rest@, show_hidden));
        }
    }
    assert(kept(rest@, show_hidden) =~= Seq::<EntryMeta>::empty());
    assert(kept(rest@, show_hidden).to_multiset() =~= Multiset::<EntryMeta>::empty());
    assert(out@.to_multiset() =~= out@.to_multiset().add(Multiset::<EntryMeta>::empty()));
    out
}


/// A moment in local time, as far as a listing shows it.
#[derive(Clone, Copy, Debug, PartialEq, Eq, Structural)]
pub struct Stamp {
    pub year: i32,
    /// 1 to 12.
    pub month: u32,
    /// 1 to 31.
    pub day: u32,
    /// 0 to 23.
    pub hour: u32,
    /// 0 to 59.
    pub minute: u32,
}

pub open spec fn stamp_valid(s: Stamp) -> bool {
    1 <= s.month <= 12 && 1 <= s.day <= 31 && s.hour < 24 && s.minute < 60
}

/// Relies on chrono's `Local::now` and `Datelike::year`: the year of the
/// present moment in the local time zone.
#[verifier::external_body]
fn local_year_now() -> (r: i32) {
    chrono::Datelike::year(&chrono::Local::now())
}

/// Relies on chrono's `TimeZone::timestamp_opt` for `Local`, and on
/// `Datelike` and `Timelike`, whose documentation gives the ranges of month,
/// day, hour and minute.
#[verifier::external_body]
fn local_stamp(secs: i64) -> (r: Option<Stamp>)
    ensures
        r matches Some(s) ==> stamp_valid(s),
{
    match chrono::TimeZone::timestamp_opt(&chrono::Local, secs, 0).single() {
        Some(t) => Some(
            Stamp {
                year: chrono::Datelike::year(&t),
                month: chrono::Datelike::month(&t),
                day: chrono::Datelike::day(&t),
                hour: chrono::Timelike::hour(&t),
                minute: chrono::Timelike::minute(&t),
            },
        ),
        None => None,
    }
}

/// The abbreviated English name of a month.
pub open spec fn month_name(m: u32) -> Seq<char> {
    if m == 1 {
        seq!['J', 'a', 'n']
    } else if m == 2 {
        seq!['F', 'e', 'b']
    } else if m == 3 {
        seq!['M', 'a', 'r']
    } else if m == 4 {
        seq!['A', 'p', 'r']
    } else if m == 5 {
        seq!['M', 'a', 'y']
    } else if m == 6 {
        seq!['J', 'u', 'n']
    } else if m == 7 {
        seq!['J', 'u', 'l']
    } else if m == 8 {
        seq!['A', 'u', 'g']
    } else if m == 9 {
        seq!['S', 'e', 'p']
    } else if m == 10 {
        seq!['O', 'c', 't']
    } else if m == 11 {
        seq!['N', 'o', 'v']
    } else {
        seq!['D', 'e', 'c']
    }
}

fn push3(out: &mut String, a: char, b: char, c: char)
    ensures
        final(out)@ == old(out)@ + seq![a, b, c],
{
    push_char(out, a);
    push_char(out, b);
    push_char(out, c);
    assert(out@ =~= old(out)@ + seq![a, b, c]);
}

fn push_month(out: &mut String, m: u32)
    ensures
        final(out)@ == old(out)@ + month_name(m),
{
    match m {
        1 => push3(out, 'J', 'a', 'n'),
        2 => push3(out, 'F', 'e', 'b'),
        3 => push3(out, 'M', 'a', 'r'),
        4 => push3(out, 'A', 'p', 'r'),
        5 => push3(out, 'M', 'a', 'y'),
        6 => push3(out, 'J', 'u', 'n'),
        7 => push3(out, 'J', 'u', 'l'),
        8 => push3(out, 'A', 'u', 'g'),
        9 => push3(out, 'S', 'e', 'p'),
        10 => push3(out, 'O', 'c', 't'),
        11 => push3(out, 'N', 'o', 'v'),
        _ => push3(out, 'D', 'e', 'c'),
    }
}

/// A number below 100 with two digits.
pub open spec fn two_digits(n: nat) -> Seq<char> {
    if n < 10 {
        seq!['0'] + digits(n)
    } else {
        digits(n)
    }
}

/// A year, with a sign where it is negative.
pub open spec fn year_text(y: i32) -> Seq<char> {
    if y >= 0 {
        digits(y as nat)
    } else {
        seq!['-'] + digits((-y) as nat)
    }
}

/// The time column: `Mon dd hh:mm` for a moment of the present year,
/// `Mon dd  yyyy` for another year, and nothing where no local time is known.
pub open spec fn time_text(now_year: i32, st: Option<Stamp>) -> Seq<char> {
    match st {
        None => Seq::empty(),
        Some(s) => month_name(s.month) + seq![' '] + pad_left(digits(s.day as nat), 2) + seq![' ']
            + if s.year == now_year {
            two_digits(s.hour as nat) + seq![':'] + two_digits(s.minute as nat)
        } else {
            seq![' '] + year_text(s.year)
        },
    }
}

fn push_two_digits(out: &mut String, n: u32)
    ensures
        final(out)@ == old(out)@ + two_digits(n as nat),
{
    if n < 10 {
        push_char(out, '0');
    }
    push_decimal(out, n as u64);
    assert(final(out)@ =~= old(out)@ + two_digits(n as nat));
}

/// Appends the time column.
pub fn push_time(out: &mut String, now_year: i32, st: Option<Stamp>)
    ensures
        final(out)@ == old(out)@ + time_text(now_year, st),
{
    match st {
        None => {
            assert(out@ =~= old(out)@ + time_text(now_year, st));
        },
        Some(s) => {
            push_month(out, s.month);
            push_char(out, ' ');
            let day = crate::text::decimal(s.day as u64);
            push_padded_left(out, day.as_str(), 2);
            push_char(out, ' ');
            if s.year == now_year {
                push_two_digits(out, s.hour);
                push_char(out, ':');
                push_two_digits(out, s.minute);
            } else {
                push_char(out, ' ');
                if s.year >= 0 {
                    push_decimal(out, s.year as u64);
                } else {
                    push_char(out, '-');
                    push_decimal(out, (-(s.year as i64)) as u64);
                }
            }
            assert(out@ =~= old(out)@ + time_text(now_year, st));
        },
    }
}

/// The name of an owner, or its number where the name is unknown.
pub open spec fn owner_text(name: Option<String>, id: u32) -> Seq<char> {
    match name {
        Some(n) => n@,
        None => digits(id as nat),
    }
}

fn owner_string(name: &Option<String>, id: u32) -> (r: String)
    ensures
        r@ == owner_text(*name, id),
{
    match name {
        Some(n) => n.clone(),
        None => crate::text::decimal(id as u64),
    }
}

/// The columns of a long listing before the name.
pub open spec fn details_text(e: EntryMeta, now_year: i32, st: Option<Stamp>) -> Seq<char> {
    pad_right(permission_text(e.mode, e.has_xattr), 12) + seq![' '] + pad_left(
        digits(e.nlink as nat),
        3,
    ) + seq![' '] + pad_right(owner_text(e.user, e.uid), 20) + seq![' '] + pad_right(
        owner_text(e.group, e.gid),
        10,
    ) + seq![' '] + pad_left(digits(e.size as nat), 6) + seq![' '] + pad_right(
        time_text(now_year, st),
        12,
    )
}

/// Appends the columns of a long listing before the name.
pub fn print_entry_details(out: &mut String, e: &EntryMeta, now_year: i32, st: Option<Stamp>)
    ensures
        final(out)@ == old(out)@ + details_text(*e, now_year, st),
{
    let perm = convert_to_permission(e.mode, e.has_xattr);
    push_padded_right(out, perm.as_str(), 12);
    push_char(out, ' ');
    let links = crate::text::decimal(e.nlink);
    push_padded_left(out, links.as_str(), 3);
    push_char(out, ' ');
    let user = owner_string(&e.user, e.uid);
    push_padded_right(out, user.as_str(), 20);
    push_char(out, ' ');
    let group = owner_string(&e.group, e.gid);
    push_padded_right(out, group.as_str(), 10);
    push_char(out, ' ');
    let size = crate::text::decimal(e.size);
    push_padded_left(out, size.as_str(), 6);
    push_char(out, ' ');
    let mut time = String::new();
    push_time(&mut time, now_year, st);
    assert(time@ =~= time_text(now_year, st));
    push_padded_right(out, time.as_str(), 12);
    assert(final(out)@ =~= old(out)@ + details_text(*e, now_year, st));
}

/// The line of one entry shown under `name`: the long columns and a space
/// with `-l`, the name, and the type suffix with `-F`.
pub open spec fn entry_line(
    e: EntryMeta,
    name: Seq<char>,
    long_form: bool,
    classify: bool,
    now_year: i32,
    st: Option<Stamp>,
) -> Seq<char> {
    (if long_form {
        details_text(e, now_year, st) + seq![' ']
    } else {
        Seq::empty()
    }) + name + (if classify && indicator_of(e.mode) is Some {
        seq![indicator_of(e.mode)->Some_0]
    } else {
        Seq::empty()
    })
}

/// The line of one entry, shown under `name`.
pub fn render_entry(
    e: &EntryMeta,
    name: &str,
    long_form: bool,
    classify: bool,
    now_year: i32,
    st: Option<Stamp>,
) -> (r: String)
    ensures
        r@ == entry_line(*e, name@, long_form, classify, now_year, st),
{
    let mut out = String::new();
    if long_form {
        print_entry_details(&mut out, e, now_year, st);
        push_char(&mut out, ' ');
    }
    out.append(name);
    if classify {
        match print_indicator(e.mode) {
            Some(c) => push_char(&mut out, c),
            None => {},
        }
    }
    assert(out@ =~= entry_line(*e, name@, long_form, classify, now_year, st));
    out
}


/// The first line of a long listing.
pub open spec fn total_line(shown: Seq<EntryMeta>) -> Seq<char> {
    seq!['t', 'o', 't', 'a', 'l', ' '] + digits(
        (if total_blocks(shown) > u64::MAX as int {
            u64::MAX as int
        } else {
            total_blocks(shown)
        }) as nat,
    )
}

/// The line of a pseudo-entry, where the caller could read it.
pub open spec fn pseudo_lines(
    m: Option<EntryMeta>,
    name: Seq<char>,
    req: LsRequest,
    now_year: i32,
    st: Option<Stamp>,
) -> Seq<Seq<char>> {
    match m {
        None => Seq::empty(),
        Some(e) => seq![entry_line(e, name, req.long_form, req.classify, now_year, st)],
    }
}

/// The lines of a listing of `shown`: with `-l` the total first; with `-a`
/// then `.` and `..`; then one line per entry. `stamps` holds the local times
/// of `.`, `..` and the entries, in that order.
pub open spec fn listing_lines(
    req: LsRequest,
    shown: Seq<EntryMeta>,
    dot: Option<EntryMeta>,
    dotdot: Option<EntryMeta>,
    now_year: i32,
    stamps: Seq<Option<Stamp>>,
) -> Seq<Seq<char>> {
    (if req.long_form {
        seq![total_line(shown)]
    } else {
        Seq::empty()
    }) + (if req.show_hidden {
        pseudo_lines(dot, seq!['.'], req, now_year, stamps[0]) + pseudo_lines(
            dotdot,
            seq!['.', '.'],
            req,
            now_year,
            stamps[1],
        )
    } else {
        Seq::empty()
    }) + Seq::new(
        shown.len(),
        |i: int|
            entry_line(shown[i], shown[i].name@, req.long_form, req.classify, now_year, stamps[i + 2]),
    )
}

/// Appends the lines of the `.` and `..` pseudo-entries of a listing with `-a`.
pub fn add_current_and_parent_name_to_entries(
    lines: &mut Vec<String>,
    req: &LsRequest,
    dot: &Option<EntryMeta>,
    dotdot: &Option<EntryMeta>,
    now_year: i32,
    dot_stamp: Option<Stamp>,
    dotdot_stamp: Option<Stamp>,
)
    ensures
        views(final(lines)@) == views(old(lines)@) + pseudo_lines(
            *dot,
            seq!['.'],
            *req,
            now_year,
            dot_stamp,
        ) + pseudo_lines(*dotdot, seq!['.', '.'], *req, now_year, dotdot_stamp),
{
    proof {
        reveal_strlit(".");
        reveal_strlit("..");
    }
    assert("."@ =~= seq!['.']);
    assert(".."@ =~= seq!['.', '.']);
    let ghost start = views(lines@);
    match dot {
        Some(e) => {
            lines.push(render_entry(e, ".", req.long_form, req.classify, now_year, dot_stamp));
        },
        None => {},
    }
    assert(views(lines@) =~= start + pseudo_lines(*dot, seq!['.'], *req, now_year, dot_stamp));
    let ghost mid = views(lines@);
    match dotdot {
        Some(e) => {
            lines.push(render_entry(e, "..", req.long_form, req.classify, now_year, dotdot_stamp));
        },
        None => {},
    }
    assert(views(lines@) =~= mid + pseudo_lines(
        *dotdot,
        seq!['.', '.'],
        *req,
        now_year,
        dotdot_stamp,
    ));
}

/// The lines of a listing of `shown` in this order, at the given local times.
pub fn render_listing(
    req: &LsRequest,
    shown: &Vec<EntryMeta>,
    dot: &Option<EntryMeta>,
    dotdot: &Option<EntryMeta>,
    now_year: i32,
    stamps: &Vec<Option<Stamp>>,
) -> (r: Vec<String>)
    requires
        stamps@.len() == shown@.len() + 2,
    ensures
        views(r@) == listing_lines(*req, shown@, *dot, *dotdot, now_year, stamps@),
{
    let mut lines: Vec<String> = Vec::new();
    if req.long_form {
        let mut total = String::new();
        push3(&mut total, 't', 'o', 't');
        push_char(&mut total, 'a');
        push_char(&mut total, 'l');
        push_char(&mut total, ' ');
        push_decimal(&mut total, calculate_total_size(shown));
        assert(total@ =~= total_line(shown@));
        lines.push(total);
    }
    let ghost head = views(lines@);
    assert(head =~= (if req.long_form {
        seq![total_line(shown@)]
    } else {
        Seq::empty()
    }));
    if req.show_hidden {
        add_current_and_parent_name_to_entries(
            &mut lines,
            req,
            dot,
            dotdot,
            now_year,
            stamps[0],
            stamps[1],
        );
    }
    let ghost prefix = views(lines@);
    let ns = stamps.len();
    let mut i: usize = 0;
    while i < shown.len()
        invariant
            i <= shown@.len(),
            ns == stamps@.len(),
            stamps@.len() == shown@.len() + 2,
            views(lines@) == prefix + Seq::new(
                i as nat,
                |k: int|
                    entry_line(
                        shown@[k],
                        shown@[k].name@,
                        req.long_form,
                        req.classify,
                        now_year,
                        stamps@[k + 2],
                    ),
            ),
        decreases shown@.len() - i,
    {
        let line = render_entry(
            &shown[i],
            shown[i].name.as_str(),
            req.long_form,
            req.classify,
            now_year,
            stamps[i + 2],
        );
        let ghost before = views(lines@);
        lines.push(line);
        assert(views(lines@) =~= before.push(line@));
        assert(views(lines@) =~= prefix + Seq::new(
            (i + 1) as nat,
            |k: int|
                entry_line(
                    shown@[k],
                    shown@[k].name@,
                    req.long_form,
                    req.classify,
                    now_year,
                    stamps@[k + 2],
                ),
        ));
        i += 1;
    }
    assert(views(lines@) =~= listing_lines(*req, shown@, *dot, *dotdot, now_year, stamps@));
    lines
}

/// The local time of a modification, where a long listing shows one.
fn stamp_for(long_form: bool, mtime: i64) -> (r: Option<Stamp>)
    ensures
        r matches Some(s) ==> stamp_valid(s),
{
    if long_form {
        local_stamp(mtime)
    } else {
        None
    }
}

/// The lines `ls` prints for the entries of a directory, and for `.` and
/// `..` where the caller could read them: the entries that `-a` allows, in
/// byte-wise order of their names, each shown as `render_listing` shows it at
/// the local times of this moment.
pub fn print_entries(
    req: &LsRequest,
    entries: Vec<EntryMeta>,
    dot: Option<EntryMeta>,
    dotdot: Option<EntryMeta>,
) -> (r: Vec<String>)
    ensures
        exists|shown: Seq<EntryMeta>, now_year: i32, stamps: Seq<Option<Stamp>>|
            {
                &&& sorted_by_name(shown)
                &&& shown.to_multiset() == kept(entries@, req.show_hidden).to_multiset()
                &&& stamps.len() == shown.len() + 2
                &&& views(r@) == listing_lines(*req, shown, dot, dotdot, now_year, stamps)
            },
{
    let shown = visible_sorted(entries, req.show_hidden);
    let now_year = if req.long_form {
        local_year_now()
    } else {
        0
    };
    let mut stamps: Vec<Option<Stamp>> = Vec::new();
    stamps.push(
        match &dot {
            Some(e) => stamp_for(req.long_form, e.mtime),
            None => None,
        },
    );
    stamps.push(
        match &dotdot {
            Some(e) => stamp_for(req.long_form, e.mtime),
            None => None,
        },
    );
    let mut i: usize = 0;
    while i < shown.len()
        invariant
            i <= shown@.len(),
            stamps@.len() == i + 2,
        decreases shown@.len() - i,
    {
        stamps.push(stamp_for(req.long_form, shown[i].mtime));
        i += 1;
    }
    let r = render_listing(req, &shown, &dot, &dotdot, now_year, &stamps);
    assert(views(r@) == listing_lines(*req, shown@, dot, dotdot, now_year, stamps@));
    r
}

} // verus!
