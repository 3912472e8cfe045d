//! The first line of an interpreter script.
//!
//! A file that starts with `#!` names the program that runs it. The rest of
//! its first line holds the path of that program and, after blanks, at most
//! one argument for it, which may itself hold blanks.

use vstd::prelude::*;
use crate::bytes::{copy_range, optional};

verus! {

pub const HASH: u8 = 35;

pub const BANG: u8 = 33;

pub const NEWLINE: u8 = 10;

pub const SPACE: u8 = 32;

pub const TAB: u8 = 9;

/// How many bytes of a file are looked at to find its interpreter.
pub const HEADER_SIZE: usize = 256;

/// What the head of a file says about how to run it.
#[derive(Clone, Debug, PartialEq, Eq)]
pub enum Header {
    /// The file does not start with `#!`.
    NotScript,
    /// The file starts with `#!` but names no interpreter.
    Malformed,
    /// The file is a script for `interpreter`, to which `argument` is
    /// passed if there is one.
    Script { interpreter: Vec<u8>, argument: Option<Vec<u8>> },
}

/// A header as contracts see it.
pub ghost enum HeaderView {
    NotScript,
    Malformed,
    Script { interpreter: Seq<u8>, argument: Option<Seq<u8>> },
}

impl DeepView for Header {
    type V = HeaderView;

    open spec fn deep_view(&self) -> HeaderView {
        match *self {
            Header::NotScript => HeaderView::NotScript,
            Header::Malformed => HeaderView::Malformed,
            Header::Script { interpreter, argument } => HeaderView::Script {
                interpreter: interpreter@,
                argument: optional(argument),
            },
        }
    }
}

/// Whether `b` separates the words of the line.
pub open spec fn is_blank(b: u8) -> bool {
    b == SPACE || b == TAB
}

/// Whether `b` ends the line.
pub open spec fn ends_line(b: u8) -> bool {
    b == NEWLINE || b == 0
}

/// Whether the bytes start with `#!`.
pub open spec fn is_script(s: Seq<u8>) -> bool {
    s.len() >= 2 && s[0] == HASH && s[1] == BANG
}

/// The position at or after `i` where the line ends: that of the first
/// byte that ends a line, or the end of the bytes.
pub open spec fn line_end(s: Seq<u8>, i: int) -> int
    decreases s.len() - i,
{
    if 0 <= i < s.len() && !ends_line(s[i]) {
        line_end(s, i + 1)
    } else {
        i
    }
}

/// The position at or after `i`, and not behind `end`, of the first byte
/// that is not a blank.
pub open spec fn blanks_end(s: Seq<u8>, i: int, end: int) -> int
    decreases end - i,
{
    if 0 <= i < end <= s.len() && is_blank(s[i]) {
        blanks_end(s, i + 1, end)
    } else {
        i
    }
}

/// The position at or after `i`, and not behind `end`, of the first blank.
pub open spec fn word_end(s: Seq<u8>, i: int, end: int) -> int
    decreases end - i,
{
    if 0 <= i < end <= s.len() && !is_blank(s[i]) {
        word_end(s, i + 1, end)
    } else {
        i
    }
}

/// The position at or before `end`, and not before `start`, behind the last
/// byte that is not a blank.
pub open spec fn trimmed_end(s: Seq<u8>, start: int, end: int) -> int
    decreases end - start,
{
    if 0 <= start < end <= s.len() && is_blank(s[end - 1]) {
        trimmed_end(s, start, end - 1)
    } else {
        end
    }
}

/// What the head `s` of a file says about how to run it.
pub open spec fn header(s: Seq<u8>) -> HeaderView {
    if !is_script(s) {
        HeaderView::NotScript
    } else {
        let end = trimmed_end(s, 2, line_end(s, 2));
        let name = blanks_end(s, 2, end);
        let name_end = word_end(s, name, end);
        let arg = blanks_end(s, name_end, end);
        if name == name_end {
            HeaderView::Malformed
        } else {
            HeaderView::Script {
                interpreter: s.subrange(name, name_end),
                argument: if arg < end {
                    Some(s.subrange(arg, end))
                } else {
                    None
                },
            }
        }
    }
}

/// Where the scans stop.
pub proof fn lemma_scan_bounds(s: Seq<u8>, i: int, end: int)
    requires
        0 <= i <= end <= s.len(),
    ensures
        i <= line_end(s, i) <= s.len(),
        forall|k: int| i <= k < line_end(s, i) ==> !ends_line(#[trigger] s[k]),
        line_end(s, i) < s.len() ==> ends_line(s[line_end(s, i)]),
        i <= blanks_end(s, i, end) <= end,
        forall|k: int| i <= k < blanks_end(s, i, end) ==> is_blank(#[trigger] s[k]),
        blanks_end(s, i, end) < end ==> !is_blank(s[blanks_end(s, i, end)]),
        i <= word_end(s, i, end) <= end,
        forall|k: int| i <= k < word_end(s, i, end) ==> !is_blank(#[trigger] s[k]),
        word_end(s, i, end) < end ==> is_blank(s[word_end(s, i, end)]),
        i <= trimmed_end(s, i, end) <= end,
        forall|k: int| trimmed_end(s, i, end) <= k < end ==> is_blank(#[trigger] s[k]),
        i < trimmed_end(s, i, end) ==> !is_blank(s[trimmed_end(s, i, end) - 1]),
    decreases s.len() - i, end - i,
{
    if i < s.len() && !ends_line(s[i]) {
        lemma_scan_bounds(s, i + 1, s.len() as int);
    }
    if i < end {
        if is_blank(s[i]) {
            lemma_scan_bounds(s, i + 1, end);
        }
        if !is_blank(s[i]) {
            lemma_scan_bounds(s, i + 1, end);
        }
        if is_blank(s[end - 1]) {
            lemma_trim_bounds(s, i, end - 1);
        }
    }
}

/// Where trimming stops.
proof fn lemma_trim_bounds(s: Seq<u8>, start: int, end: int)
    requires
        0 <= start <= end <= s.len(),
    ensures
        start <= trimmed_end(s, start, end) <= end,
        forall|k: int| trimmed_end(s, start, end) <= k < end ==> is_blank(#[trigger] s[k]),
        start < trimmed_end(s, start, end) ==> !is_blank(s[trimmed_end(s, start, end) - 1]),
    decreases end - start,
{
    if start < end && is_blank(s[end - 1]) {
        lemma_trim_bounds(s, start, end - 1);
    }
}

/// The shape of what a script names: the interpreter is a word without
/// blanks and line ends, and the argument neither starts nor ends with a
/// blank.
pub proof fn lemma_header_shape(s: Seq<u8>)
    ensures
        header(s) matches HeaderView::Script { interpreter, argument } ==> {
            &&& interpreter.len() > 0
            &&& forall|k: int|
                0 <= k < interpreter.len() ==> !is_blank(#[trigger] interpreter[k]) && !ends_line(
                    interpreter[k],
                )
            &&& argument matches Some(a) ==> a.len() > 0 && !is_blank(a[0]) && !is_blank(
                a[a.len() - 1],
            ) && forall|k: int| 0 <= k < a.len() ==> !ends_line(#[trigger] a[k])
        },
        header(s) is NotScript <==> !is_script(s),
{
    if is_script(s) {
        let stop = line_end(s, 2);
        lemma_scan_bounds(s, 2, s.len() as int);
        let end = trimmed_end(s, 2, stop);
        lemma_trim_bounds(s, 2, stop);
        let name = blanks_end(s, 2, end);
        lemma_scan_bounds(s, 2, end);
        let name_end = word_end(s, name, end);
        lemma_scan_bounds(s, name, end);
        let arg = blanks_end(s, name_end, end);
        lemma_scan_bounds(s, name_end, end);
        if name != name_end {
            let interpreter = s.subrange(name, name_end);
            assert forall|k: int| 0 <= k < interpreter.len() implies !is_blank(
                #[trigger] interpreter[k],
            ) && !ends_line(interpreter[k]) by {
                assert(interpreter[k] == s[name + k]);
            }
            if arg < end {
                let a = s.subrange(arg, end);
                assert(a[0] == s[arg]);
                assert(a[a.len() - 1] == s[end - 1]);
                assert forall|k: int| 0 <= k < a.len() implies !ends_line(#[trigger] a[k]) by {
                    assert(a[k] == s[arg + k]);
                }
            }
        }
    }
}

/// Decides whether `b` separates the words of the line.
fn blank(b: u8) -> (r: bool)
    ensures
        r == is_blank(b),
{
    b == SPACE || b == TAB
}

/// Reads the head of a file.
pub fn parse_header(bytes: &Vec<u8>) -> (h: Header)
    ensures
        h.deep_view() == header(bytes@),
{
    let n = bytes.len();
    if n < 2 || bytes[0] != HASH || bytes[1] != BANG {
        return Header::NotScript;
    }
    let mut stop: usize = 2;
    while stop < n && bytes[stop] != NEWLINE && bytes[stop] != 0
        invariant
            n == bytes.len(),
            2 <= stop <= n,
            line_end(bytes@, 2) == line_end(bytes@, stop as int),
        decreases n - stop,
    {
        stop += 1;
    }
    let mut end: usize = stop;
    while end > 2 && blank(bytes[end - 1])
        invariant
            n == bytes.len(),
            2 <= end <= stop <= n,
            trimmed_end(bytes@, 2, stop as int) == trimmed_end(bytes@, 2, end as int),
        decreases end,
    {
        end -= 1;
    }
    let mut name: usize = 2;
    while name < end && blank(bytes[name])
        invariant
            2 <= name <= end <= n,
            n == bytes.len(),
            blanks_end(bytes@, 2, end as int) == blanks_end(bytes@, name as int, end as int),
        decreases end - name,
    {
        name += 1;
    }
    let mut name_end: usize = name;
    while name_end < end && !blank(bytes[name_end])
        invariant
            name <= name_end <= end <= n,
            n == bytes.len(),
            word_end(bytes@, name as int, end as int) == word_end(
                bytes@,
                name_end as int,
                end as int,
            ),
        decreases end - name_end,
    {
        name_end += 1;
    }
    if name == name_end {
        return Header::Malformed;
    }
    let mut arg: usize = name_end;
    while arg < end && blank(bytes[arg])
        invariant
            name_end <= arg <= end <= n,
            n == bytes.len(),
            blanks_end(bytes@, name_end as int, end as int) == blanks_end(
                bytes@,
                arg as int,
                end as int,
            ),
        decreases end - arg,
    {
        arg += 1;
    }
    let interpreter = copy_range(bytes, name, name_end);
    let argument = if arg < end {
        Some(copy_range(bytes, arg, end))
    } else {
        None
    };
    Header::Script { interpreter, argument }
}

} // verus!
