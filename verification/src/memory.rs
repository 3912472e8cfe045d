//! What the engine asks to be read from a tracee, and what it asks to be
//! written into it.
//!
//! The engine never reads or writes a process itself. It names what it
//! needs in a `Request`, is handed the answer as a `Fetched`, and returns
//! the bytes to place in the tracee as `MemWrite`s.

use vstd::prelude::*;
use crate::register::Word;

verus! {

/// Bytes below the stack pointer that the tracee may still be using.
pub const RED_ZONE: u64 = 128;

/// Alignment of every scratch buffer.
pub const SCRATCH_ALIGN: u64 = 16;

/// Something the engine needs to see before it can finish a translation.
#[derive(Clone, Debug, PartialEq, Eq)]
pub enum Request {
    /// The string at `addr` in the tracee, without its terminator; at most
    /// `max` bytes of it.
    CString { addr: Word, max: usize },
    /// The `len` bytes at `addr` in the tracee.
    Bytes { addr: Word, len: usize },
    /// The words at `addr` in the tracee up to, and without, the first zero
    /// word; at most `max` of them, each `word_size` bytes wide.
    Words { addr: Word, max: usize, word_size: usize },
    /// The first `len` bytes of the host file `path`.
    FileHead { path: Vec<u8>, len: usize },
}

/// A request as contracts see it.
pub ghost enum RequestView {
    CString { addr: Word, max: usize },
    Bytes { addr: Word, len: usize },
    Words { addr: Word, max: usize, word_size: usize },
    FileHead { path: Seq<u8>, len: usize },
}

impl DeepView for Request {
    type V = RequestView;

    open spec fn deep_view(&self) -> RequestView {
        match *self {
            Request::CString { addr, max } => RequestView::CString { addr, max },
            Request::Bytes { addr, len } => RequestView::Bytes { addr, len },
            Request::Words { addr, max, word_size } => RequestView::Words { addr, max, word_size },
            Request::FileHead { path, len } => RequestView::FileHead { path: path@, len },
        }
    }
}

/// The answer to a request.
#[derive(Clone, Debug, PartialEq, Eq)]
pub enum Fetched {
    /// The bytes that were asked for.
    Data(Vec<u8>),
    /// The bytes could not be read.
    Fault,
}

/// An answer as contracts see it.
pub ghost enum FetchedView {
    Data(Seq<u8>),
    Fault,
}

impl DeepView for Fetched {
    type V = FetchedView;

    open spec fn deep_view(&self) -> FetchedView {
        match *self {
            Fetched::Data(bytes) => FetchedView::Data(bytes@),
            Fetched::Fault => FetchedView::Fault,
        }
    }
}

/// Bytes to place in the memory of a tracee.
#[derive(Clone, Debug, PartialEq, Eq)]
pub struct MemWrite {
    /// Where the first byte goes.
    pub addr: Word,
    /// The bytes to write.
    pub bytes: Vec<u8>,
}

/// A write as contracts see it.
pub ghost struct MemWriteView {
    pub addr: Word,
    pub bytes: Seq<u8>,
}

impl DeepView for MemWrite {
    type V = MemWriteView;

    open spec fn deep_view(&self) -> MemWriteView {
        MemWriteView { addr: self.addr, bytes: self.bytes@ }
    }
}

/// The answers as contracts see them.
pub open spec fn answers(fetched: &Vec<Fetched>) -> Seq<FetchedView> {
    fetched.deep_view()
}

/// The answer at position `i`, if it has been given.
pub fn answer(fetched: &Vec<Fetched>, i: usize) -> (r: Option<&Fetched>)
    ensures
        match r {
            Some(a) => i < fetched.len() && a.deep_view() == answers(fetched)[i as int],
            None => i >= fetched.len(),
        },
        answers(fetched).len() == fetched.len(),
{
    if i < fetched.len() {
        Some(&fetched[i])
    } else {
        None
    }
}

/// The address of a scratch buffer of `size` bytes that ends at or below
/// `top`, if the address space has room for one there.
pub open spec fn spec_reserve(top: Word, size: nat) -> Option<Word> {
    if size <= top {
        Some((top - size - (top - size) % (SCRATCH_ALIGN as int)) as Word)
    } else {
        None
    }
}

/// Places a scratch buffer of `size` bytes at or below `top`.
///
/// The buffer is aligned, and it ends at or below `top`: buffers placed one
/// below the other do not overlap.
pub fn reserve(top: Word, size: u64) -> (r: Option<Word>)
    ensures
        r == spec_reserve(top, size as nat),
        r matches Some(addr) ==> addr + size <= top && addr % SCRATCH_ALIGN == 0,
{
    if size <= top {
        let raw = top - size;
        Some(raw - raw % SCRATCH_ALIGN)
    } else {
        None
    }
}

/// Where scratch buffers of a tracee begin: just below the part of the stack
/// that the tracee may still be using, or at zero, where nothing can be
/// placed, if the stack pointer leaves no room for that.
pub open spec fn spec_scratch_top(stack_pointer: Word) -> Word {
    if stack_pointer >= RED_ZONE {
        (stack_pointer - RED_ZONE) as Word
    } else {
        0
    }
}

/// Where scratch buffers of a tracee begin.
pub fn scratch_top(stack_pointer: Word) -> (top: Word)
    ensures
        top == spec_scratch_top(stack_pointer),
{
    if stack_pointer >= RED_ZONE {
        stack_pointer - RED_ZONE
    } else {
        0
    }
}

/// A string as it lies in memory: its bytes and a terminating zero.
pub open spec fn terminated(s: Seq<u8>) -> Seq<u8> {
    s.push(0)
}

/// A copy of `s` with a terminating zero.
pub fn with_terminator(s: &Vec<u8>) -> (out: Vec<u8>)
    ensures
        out@ == terminated(s@),
{
    let mut out = crate::bytes::copy_of(s);
    out.push(0);
    out
}

/// The `n` low bytes of `value`, lowest first.
pub open spec fn le_bytes(value: nat, n: nat) -> Seq<u8>
    decreases n,
{
    if n == 0 {
        Seq::empty()
    } else {
        seq![(value % 256) as u8] + le_bytes(value / 256, (n - 1) as nat)
    }
}

/// Appends the `n` low bytes of `value` to `out`, lowest first.
pub fn push_le(out: &mut Vec<u8>, value: Word, n: usize)
    ensures
        final(out)@ == old(out)@ + le_bytes(value as nat, n as nat),
{
    let mut rest: u64 = value;
    let mut i: usize = 0;
    let ghost mut done: Seq<u8> = Seq::empty();
    proof {
        assert(out@ =~= old(out)@ + done);
        assert(done + le_bytes(rest as nat, n as nat) =~= le_bytes(value as nat, n as nat));
    }
    while i < n
        invariant
            i <= n,
            out@ == old(out)@ + done,
            done + le_bytes(rest as nat, (n - i) as nat) == le_bytes(value as nat, n as nat),
        decreases n - i,
    {
        let b: u8 = (rest % 256) as u8;
        out.push(b);
        proof {
            let after = done.push(b);
            assert(out@ =~= old(out)@ + after);
            assert(after + le_bytes((rest / 256) as nat, (n - i - 1) as nat) =~= done + le_bytes(
                rest as nat,
                (n - i) as nat,
            ));
            done = after;
        }
        rest = rest / 256;
        i += 1;
    }
    proof {
        assert(done + Seq::<u8>::empty() =~= done);
    }
}

/// The number that the four bytes from position `i` on hold, lowest byte
/// first.
pub open spec fn quad_at(s: Seq<u8>, i: int) -> nat {
    (s[i] + s[i + 1] * 0x100 + s[i + 2] * 0x1_0000 + s[i + 3] * 0x100_0000) as nat
}

/// The word of `word_size` bytes that starts at position `i`, lowest byte
/// first. Words are four or eight bytes wide.
pub open spec fn word_at(s: Seq<u8>, i: int, word_size: nat) -> nat {
    if word_size == 8 {
        quad_at(s, i) + quad_at(s, i + 4) * 0x1_0000_0000
    } else {
        quad_at(s, i)
    }
}

/// Reads the four bytes from position `i` on as a number.
pub fn read_quad(bytes: &Vec<u8>, i: usize) -> (value: u64)
    requires
        i + 4 <= bytes.len(),
    ensures
        value == quad_at(bytes@, i as int),
        value <= 0xffff_ffff,
{
    bytes[i] as u64 + bytes[i + 1] as u64 * 0x100 + bytes[i + 2] as u64 * 0x1_0000 + bytes[i
        + 3] as u64 * 0x100_0000
}

/// Reads the word of `word_size` bytes that starts at position `i`.
pub fn read_word(bytes: &Vec<u8>, i: usize, word_size: usize) -> (value: Word)
    requires
        word_size == 4 || word_size == 8,
        i + word_size <= bytes.len(),
    ensures
        value == word_at(bytes@, i as int, word_size as nat),
{
    if word_size == 8 {
        read_quad(bytes, i) + read_quad(bytes, i + 4) * 0x1_0000_0000
    } else {
        read_quad(bytes, i)
    }
}

} // verus!
