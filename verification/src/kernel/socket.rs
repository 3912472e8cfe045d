//! Translators for the syscalls that carry socket addresses.
//!
//! A socket in the file system is named by a path inside its address.
//! Where a tracee hands such an address to the kernel, the path is
//! translated to the host; where the kernel hands one back, the path is
//! mapped back to the guest.

use vstd::prelude::*;
use crate::bytes::{copy_range, push_from};
use crate::errors::{is_error_result, result_is_error, Errno, Error};
use crate::filesystem::{
    resolution, translation, BindingTable, BindingView, Direction, SLASH,
};
use crate::kernel::enter::{
    denied, enter_denied, enter_noted, enter_rewritten, enter_unchanged, noted, rewritten,
    unchanged, EnterStep, EnterStepView,
};
use crate::kernel::exit::{
    exit_unchanged, ExitOutcome, ExitOutcomeView, ExitStep, ExitStepView, SyscallExitResult,
};
use crate::filesystem::is_absolute;
use crate::memory::{
    answer, answers, le_bytes, push_le, quad_at, read_quad, read_word, reserve, spec_reserve,
    word_at, Fetched, FetchedView, MemWrite, MemWriteView, Request, RequestView,
};
use crate::register::{RegisterSet, SysArg, Word};

verus! {

/// Size of the address of a socket in the file system.
pub const ADDRESS_SIZE: u64 = 110;

/// Length of the longest path that fits in such an address together with
/// its terminator.
pub const SOCKET_PATH_MAX: usize = 107;

/// Size of the word in which the length of an address is passed.
pub const LENGTH_SIZE: usize = 4;

/// What a multiplexed socket call does with an address.
#[derive(Clone, Copy, Debug, PartialEq, Eq, Structural)]
pub enum SocketOp {
    /// It hands an address to the kernel: `bind` and `connect`.
    Names,
    /// It gets an address back: `accept`, `getsockname`, `getpeername` and
    /// `accept4`.
    Returns,
    /// It carries no address that names a path.
    Other,
}

/// What the multiplexed socket call number `call` does with an address.
pub open spec fn spec_socket_op(call: Word) -> SocketOp {
    if call == 2 || call == 3 {
        SocketOp::Names
    } else if call == 5 || call == 6 || call == 7 || call == 18 {
        SocketOp::Returns
    } else {
        SocketOp::Other
    }
}

/// What the multiplexed socket call number `call` does with an address.
pub fn socket_op(call: Word) -> (op: SocketOp)
    ensures
        op == spec_socket_op(call),
{
    match call {
        2 | 3 => SocketOp::Names,
        5 | 6 | 7 | 18 => SocketOp::Returns,
        _ => SocketOp::Other,
    }
}

/// The position at or after `i` of the first zero byte, or the end.
pub open spec fn string_end(s: Seq<u8>, i: int) -> int
    decreases s.len() - i,
{
    if 0 <= i < s.len() && s[i] != 0 {
        string_end(s, i + 1)
    } else {
        i
    }
}

/// The path that an address names, if it is the address of a socket in the
/// file system: the family is that of local sockets and the path does not
/// start with a zero byte.
pub open spec fn unix_path(address: Seq<u8>) -> Option<Seq<u8>> {
    if address.len() > 2 && address[0] == 1 && address[1] == 0 && address[2] != 0 {
        Some(address.subrange(2, string_end(address, 2)))
    } else {
        None
    }
}

/// The address of the socket with the given path in the file system.
pub open spec fn unix_address(path: Seq<u8>) -> Seq<u8> {
    seq![1u8, 0u8] + path + seq![0u8]
}

/// An address that is built from a path names that path again, provided
/// the path is not empty and holds no zero byte.
pub proof fn lemma_address_names_path(path: Seq<u8>)
    requires
        path.len() > 0,
        forall|k: int| 0 <= k < path.len() ==> #[trigger] path[k] != 0,
    ensures
        unix_path(unix_address(path)) == Some(path),
{
    let a = unix_address(path);
    assert(a[2] == path[0]);
    lemma_end_of_path(a, path, 2);
    assert(a.subrange(2, 2 + path.len() as int) =~= path);
}

/// The string in a built address ends where the path ends.
proof fn lemma_end_of_path(a: Seq<u8>, path: Seq<u8>, i: int)
    requires
        a == unix_address(path),
        forall|k: int| 0 <= k < path.len() ==> #[trigger] path[k] != 0,
        2 <= i <= 2 + path.len(),
    ensures
        string_end(a, i) == 2 + path.len(),
    decreases 2 + path.len() - i,
{
    if i < 2 + path.len() {
        assert(a[i] == path[i - 2]);
        lemma_end_of_path(a, path, i + 1);
    }
}

/// Reads the path that an address names.
pub fn read_unix_path(address: &Vec<u8>) -> (path: Option<Vec<u8>>)
    ensures
        crate::bytes::optional(path) == unix_path(address@),
{
    if address.len() > 2 && address[0] == 1 && address[1] == 0 && address[2] != 0 {
        let mut end: usize = 2;
        while end < address.len() && address[end] != 0
            invariant
                2 <= end <= address.len(),
                string_end(address@, 2) == string_end(address@, end as int),
            decreases address.len() - end,
        {
            end += 1;
        }
        Some(copy_range(address, 2, end))
    } else {
        None
    }
}

/// Builds the address of the socket with the given path.
pub fn make_unix_address(path: &Vec<u8>) -> (address: Vec<u8>)
    ensures
        address@ == unix_address(path@),
{
    let mut address: Vec<u8> = Vec::new();
    address.push(1);
    address.push(0);
    assert(address@ =~= seq![1u8, 0u8]);
    push_from(&mut address, path, 0);
    assert(path@.skip(0) =~= path@);
    address.push(0);
    assert(address@ =~= unix_address(path@));
    address
}

/// What is to be done about an address that a tracee hands to the kernel.
#[derive(Clone, Debug, PartialEq, Eq)]
pub enum Naming {
    /// More must be seen first.
    Need(Request),
    /// The address goes to the kernel as it is.
    Leave,
    /// The syscall is to be denied.
    Deny(Error),
    /// The kernel is to be handed `address`, placed at `at`, instead.
    Place { at: Word, address: Vec<u8> },
}

/// A naming as contracts see it.
pub ghost enum NamingView {
    Need(RequestView),
    Leave,
    Deny(Error),
    Place { at: Word, address: Seq<u8> },
}

impl DeepView for Naming {
    type V = NamingView;

    open spec fn deep_view(&self) -> NamingView {
        match *self {
            Naming::Need(r) => NamingView::Need(r.deep_view()),
            Naming::Leave => NamingView::Leave,
            Naming::Deny(e) => NamingView::Deny(e),
            Naming::Place { at, address } => NamingView::Place { at, address: address@ },
        }
    }
}

/// What is to be done about the address of `len` bytes at `addr` that a
/// tracee hands to the kernel, where the answer at position `base` holds
/// the address.
///
/// An address that cannot name a path in the file system, that cannot be
/// read, or that names a relative path is left alone. An absolute path is
/// tidied and translated to the host. If that fails, if the host path does not fit in
/// an address, or if there is no room below `top`, the syscall is denied.
pub open spec fn named(
    table: Seq<BindingView>,
    addr: Word,
    len: Word,
    top: Word,
    fetched: Seq<FetchedView>,
    base: int,
) -> NamingView {
    if len < 3 || len > ADDRESS_SIZE {
        NamingView::Leave
    } else if base >= fetched.len() {
        NamingView::Need(RequestView::Bytes { addr, len: len as usize })
    } else {
        match fetched[base] {
            FetchedView::Fault => NamingView::Leave,
            FetchedView::Data(address) => match unix_path(address) {
                None => NamingView::Leave,
                Some(p) => if !is_absolute(p) {
                    NamingView::Leave
                } else {
                    match resolution(table, p) {
                        Err(e) => NamingView::Deny(Error::PathResolution(e)),
                        Ok(host) => if host.len() > SOCKET_PATH_MAX {
                            NamingView::Deny(Error::Kernel(Errno::ENAMETOOLONG))
                        } else {
                            match spec_reserve(top, host.len() + 3) {
                                None => NamingView::Deny(Error::Kernel(Errno::ENOMEM)),
                                Some(at) => NamingView::Place { at, address: unix_address(host) },
                            }
                        },
                    }
                },
            },
        }
    }
}

/// Decides what is to be done about an address that a tracee hands to the
/// kernel.
pub fn name_address(
    table: &BindingTable,
    addr: Word,
    len: Word,
    top: Word,
    fetched: &Vec<Fetched>,
    base: usize,
) -> (naming: Naming)
    requires
        table.wf(),
    ensures
        naming.deep_view() == named(table@, addr, len, top, answers(fetched), base as int),
{
    if len < 3 || len > ADDRESS_SIZE {
        return Naming::Leave;
    }
    let address = match answer(fetched, base) {
        None => {
            return Naming::Need(Request::Bytes { addr, len: len as usize });
        },
        Some(Fetched::Fault) => {
            return Naming::Leave;
        },
        Some(Fetched::Data(address)) => address,
    };
    let path = match read_unix_path(address) {
        None => {
            return Naming::Leave;
        },
        Some(p) => p,
    };
    if !(path.len() > 0 && path[0] == SLASH) {
        return Naming::Leave;
    }
    match table.resolve(&path) {
        Err(e) => Naming::Deny(Error::PathResolution(e)),
        Ok((host, _)) => {
            if host.len() > SOCKET_PATH_MAX {
                return Naming::Deny(Error::Kernel(Errno::ENAMETOOLONG));
            }
            match reserve(top, host.len() as u64 + 3) {
                None => Naming::Deny(Error::Kernel(Errno::ENOMEM)),
                Some(at) => {
                    let address = make_unix_address(&host);
                    Naming::Place { at, address }
                },
            }
        },
    }
}

/// What entering `bind` or `connect` leads to: the address that the second
/// argument points to, of the length in the third argument, is replaced as
/// `named` says, and both arguments are set to the new address.
pub open spec fn bind_entered(
    table: Seq<BindingView>,
    entry: RegisterSet,
    top: Word,
    fetched: Seq<FetchedView>,
) -> EnterStepView {
    match named(table, entry.arg2, entry.arg3, top, fetched, 0) {
        NamingView::Need(r) => EnterStepView::Need(r),
        NamingView::Leave => enter_unchanged(entry),
        NamingView::Deny(e) => enter_denied(entry, e),
        NamingView::Place { at, address } => enter_rewritten(
            entry.with_arg(SysArg::Arg2, at).with_arg(SysArg::Arg3, address.len() as Word),
            seq![MemWriteView { addr: at, bytes: address }],
        ),
    }
}

/// Translates the address of `bind` or `connect` at syscall entry.
pub fn enter_bind(table: &BindingTable, entry: RegisterSet, top: Word, fetched: &Vec<Fetched>) -> (step:
    EnterStep)
    requires
        table.wf(),
    ensures
        step.deep_view() == bind_entered(table@, entry, top, answers(fetched)),
{
    match name_address(table, entry.arg2, entry.arg3, top, fetched, 0) {
        Naming::Need(r) => EnterStep::Need(r),
        Naming::Leave => unchanged(entry),
        Naming::Deny(e) => denied(entry, e),
        Naming::Place { at, address } => {
            let mut regs = entry;
            regs.set_arg(SysArg::Arg2, at);
            regs.set_arg(SysArg::Arg3, address.len() as u64);
            let mut writes: Vec<MemWrite> = Vec::new();
            let ghost view = MemWriteView { addr: at, bytes: address@ };
            writes.push(MemWrite { addr: at, bytes: address });
            assert(writes.deep_view() =~= seq![view]);
            rewritten(regs, writes)
        },
    }
}

/// What entering a syscall that gets an address back leads to, where the
/// address goes to `addr` and the word at `len_at` holds the size of the
/// buffer there; the answer at position `base` holds that word.
///
/// The size of the buffer is kept for the exit translator. Nothing else
/// changes. Without a buffer nothing is kept.
pub open spec fn receive_entered(
    entry: RegisterSet,
    addr: Word,
    len_at: Word,
    fetched: Seq<FetchedView>,
    base: int,
) -> EnterStepView {
    if addr == 0 || len_at == 0 {
        enter_unchanged(entry)
    } else if base >= fetched.len() {
        EnterStepView::Need(RequestView::Bytes { addr: len_at, len: LENGTH_SIZE })
    } else {
        match fetched[base] {
            FetchedView::Data(word) => if word.len() == LENGTH_SIZE {
                enter_noted(entry, quad_at(word, 0) as Word)
            } else {
                enter_unchanged(entry)
            },
            FetchedView::Fault => enter_unchanged(entry),
        }
    }
}

/// Keeps the size of the buffer of a syscall that gets an address back.
pub fn enter_receive(
    entry: RegisterSet,
    addr: Word,
    len_at: Word,
    fetched: &Vec<Fetched>,
    base: usize,
) -> (step: EnterStep)
    ensures
        step.deep_view() == receive_entered(entry, addr, len_at, answers(fetched), base as int),
{
    if addr == 0 || len_at == 0 {
        return unchanged(entry);
    }
    match answer(fetched, base) {
        None => EnterStep::Need(Request::Bytes { addr: len_at, len: LENGTH_SIZE }),
        Some(Fetched::Fault) => unchanged(entry),
        Some(Fetched::Data(word)) => {
            if word.len() == LENGTH_SIZE {
                noted(entry, read_quad(word, 0))
            } else {
                unchanged(entry)
            }
        },
    }
}

/// The smaller of two numbers.
pub open spec fn least(a: int, b: int) -> int {
    if a <= b {
        a
    } else {
        b
    }
}

/// What leaving a syscall that gets an address back leads to, where the
/// address went to `addr`, the word at `len_at` holds its length, and the
/// buffer at `addr` holds `capacity` bytes; the answers from position
/// `base` on hold the length and the address.
///
/// If the kernel returned the address of a socket in the file system whose
/// path the table maps back to the guest, the address with the guest path
/// replaces it, cut to the size of the buffer, and its full length replaces
/// the length. The result register is never touched. Everything else is
/// left alone.
pub open spec fn receive_left(
    table: Seq<BindingView>,
    addr: Word,
    len_at: Word,
    capacity: Option<Word>,
    seen: RegisterSet,
    fetched: Seq<FetchedView>,
    base: int,
) -> ExitStepView {
    if is_error_result(seen.result) || capacity is None || addr == 0 || len_at == 0 {
        exit_unchanged()
    } else if base >= fetched.len() {
        ExitStepView::Need(RequestView::Bytes { addr: len_at, len: LENGTH_SIZE })
    } else {
        match fetched[base] {
            FetchedView::Fault => exit_unchanged(),
            FetchedView::Data(word) => if word.len() != LENGTH_SIZE || quad_at(word, 0) < 3
                || quad_at(word, 0) > ADDRESS_SIZE {
                exit_unchanged()
            } else if base + 1 >= fetched.len() {
                ExitStepView::Need(
                    RequestView::Bytes {
                        addr,
                        len: least(quad_at(word, 0) as int, capacity.unwrap() as int) as usize,
                    },
                )
            } else {
                match fetched[base + 1] {
                    FetchedView::Fault => exit_unchanged(),
                    FetchedView::Data(address) => match unix_path(address) {
                        None => exit_unchanged(),
                        Some(host) => match translation(table, Direction::ToGuest, host) {
                            Err(_) => exit_unchanged(),
                            Ok(guest) => if guest.len() > SOCKET_PATH_MAX {
                                exit_unchanged()
                            } else {
                                let full = unix_address(guest);
                                let placed = least(full.len() as int, capacity.unwrap() as int);
                                ExitStepView::Done(
                                    ExitOutcomeView {
                                        result: SyscallExitResult::NoChange,
                                        writes: seq![
                                            MemWriteView {
                                                addr,
                                                bytes: full.subrange(0, placed),
                                            },
                                            MemWriteView {
                                                addr: len_at,
                                                bytes: le_bytes(full.len(), LENGTH_SIZE as nat),
                                            },
                                        ],
                                        inconsistency: None,
                                    },
                                )
                            },
                        },
                    },
                }
            },
        }
    }
}

/// Maps the address that a syscall got back to the guest.
pub fn exit_receive(
    table: &BindingTable,
    addr: Word,
    len_at: Word,
    capacity: Option<Word>,
    seen: RegisterSet,
    fetched: &Vec<Fetched>,
    base: usize,
) -> (step: ExitStep)
    requires
        table.wf(),
        base < usize::MAX,
    ensures
        step.deep_view() == receive_left(
            table@,
            addr,
            len_at,
            capacity,
            seen,
            answers(fetched),
            base as int,
        ),
{
    let capacity = match capacity {
        None => {
            return crate::kernel::exit::unchanged();
        },
        Some(c) => c,
    };
    if result_is_error(seen.result) || addr == 0 || len_at == 0 {
        return crate::kernel::exit::unchanged();
    }
    let len = match answer(fetched, base) {
        None => {
            return ExitStep::Need(Request::Bytes { addr: len_at, len: LENGTH_SIZE });
        },
        Some(Fetched::Fault) => {
            return crate::kernel::exit::unchanged();
        },
        Some(Fetched::Data(word)) => {
            if word.len() != LENGTH_SIZE {
                return crate::kernel::exit::unchanged();
            }
            read_quad(word, 0)
        },
    };
    if len < 3 || len > ADDRESS_SIZE {
        return crate::kernel::exit::unchanged();
    }
    let address = match answer(fetched, base + 1) {
        None => {
            let wanted = if len <= capacity {
                len
            } else {
                capacity
            };
            return ExitStep::Need(Request::Bytes { addr, len: wanted as usize });
        },
        Some(Fetched::Fault) => {
            return crate::kernel::exit::unchanged();
        },
        Some(Fetched::Data(address)) => address,
    };
    let host = match read_unix_path(address) {
        None => {
            return crate::kernel::exit::unchanged();
        },
        Some(h) => h,
    };
    match table.to_guest(&host) {
        Err(_) => crate::kernel::exit::unchanged(),
        Ok(guest) => {
            if guest.len() > SOCKET_PATH_MAX {
                return crate::kernel::exit::unchanged();
            }
            let full = make_unix_address(&guest);
            let placed: usize = if full.len() as u64 <= capacity {
                full.len()
            } else {
                capacity as usize
            };
            let mut length: Vec<u8> = Vec::new();
            push_le(&mut length, full.len() as u64, LENGTH_SIZE);
            assert(length@ =~= le_bytes(full@.len(), LENGTH_SIZE as nat));
            let cut = copy_range(&full, 0, placed);
            let mut writes: Vec<MemWrite> = Vec::new();
            let ghost first = MemWriteView { addr, bytes: cut@ };
            let ghost second = MemWriteView { addr: len_at, bytes: length@ };
            writes.push(MemWrite { addr, bytes: cut });
            writes.push(MemWrite { addr: len_at, bytes: length });
            assert(writes.deep_view() =~= seq![first, second]);
            ExitStep::Done(
                ExitOutcome { result: SyscallExitResult::NoChange, writes, inconsistency: None },
            )
        },
    }
}

/// The block of three words that a multiplexed socket call of interest
/// points to: a descriptor, then the two words that say where the address
/// is and how long it is, or where its length is.
pub open spec fn is_block(block: Seq<u8>, word_size: usize) -> bool {
    (word_size == 4 || word_size == 8) && block.len() == 3 * word_size
}

/// The block with its second and third word replaced.
pub open spec fn block_with(block: Seq<u8>, word_size: usize, second: Word, third: Word) -> Seq<
    u8,
> {
    block.subrange(0, word_size as int) + le_bytes(second as nat, word_size as nat) + le_bytes(
        third as nat,
        word_size as nat,
    )
}

/// What entering the multiplexed socket call leads to.
///
/// The first argument says which operation is meant, the second points to
/// a block with the arguments of that operation. For an operation that
/// hands an address to the kernel the address is replaced as `named` says;
/// the kernel is then pointed to a copy of the block that names the new
/// address. For an operation that gets an address back the size of the
/// buffer is kept. Every other operation goes through as it is.
pub open spec fn socketcall_entered(
    table: Seq<BindingView>,
    word_size: usize,
    entry: RegisterSet,
    top: Word,
    fetched: Seq<FetchedView>,
) -> EnterStepView {
    let op = spec_socket_op(entry.arg1);
    if op == SocketOp::Other || !(word_size == 4 || word_size == 8) {
        enter_unchanged(entry)
    } else if fetched.len() == 0 {
        EnterStepView::Need(RequestView::Bytes { addr: entry.arg2, len: (3 * word_size) as usize })
    } else {
        match fetched[0] {
            FetchedView::Fault => enter_unchanged(entry),
            FetchedView::Data(block) => if !is_block(block, word_size) {
                enter_unchanged(entry)
            } else {
                let second = word_at(block, word_size as int, word_size as nat) as Word;
                let third = word_at(block, 2 * word_size, word_size as nat) as Word;
                if op == SocketOp::Returns {
                    receive_entered(entry, second, third, fetched, 1)
                } else {
                    match named(table, second, third, top, fetched, 1) {
                        NamingView::Need(r) => EnterStepView::Need(r),
                        NamingView::Leave => enter_unchanged(entry),
                        NamingView::Deny(e) => enter_denied(entry, e),
                        NamingView::Place { at, address } => match spec_reserve(
                            at,
                            (3 * word_size) as nat,
                        ) {
                            None => enter_denied(entry, Error::Kernel(Errno::ENOMEM)),
                            Some(block_at) => enter_rewritten(
                                entry.with_arg(SysArg::Arg2, block_at),
                                seq![
                                    MemWriteView { addr: at, bytes: address },
                                    MemWriteView {
                                        addr: block_at,
                                        bytes: block_with(
                                            block,
                                            word_size,
                                            at,
                                            address.len() as Word,
                                        ),
                                    },
                                ],
                            ),
                        },
                    }
                }
            },
        }
    }
}

/// Translates the multiplexed socket call at syscall entry.
pub fn enter_socketcall(
    table: &BindingTable,
    word_size: usize,
    entry: RegisterSet,
    top: Word,
    fetched: &Vec<Fetched>,
) -> (step: EnterStep)
    requires
        table.wf(),
    ensures
        step.deep_view() == socketcall_entered(table@, word_size, entry, top, answers(fetched)),
{
    let op = socket_op(entry.arg1);
    let receives = match op {
        SocketOp::Other => {
            return unchanged(entry);
        },
        SocketOp::Returns => true,
        SocketOp::Names => false,
    };
    if !(word_size == 4 || word_size == 8) {
        return unchanged(entry);
    }
    let block = match answer(fetched, 0) {
        None => {
            return EnterStep::Need(Request::Bytes { addr: entry.arg2, len: 3 * word_size });
        },
        Some(Fetched::Fault) => {
            return unchanged(entry);
        },
        Some(Fetched::Data(block)) => block,
    };
    if block.len() != 3 * word_size {
        return unchanged(entry);
    }
    let second = read_word(block, word_size, word_size);
    let third = read_word(block, 2 * word_size, word_size);
    if receives {
        return enter_receive(entry, second, third, fetched, 1);
    }
    match name_address(table, second, third, top, fetched, 1) {
        Naming::Need(r) => EnterStep::Need(r),
        Naming::Leave => unchanged(entry),
        Naming::Deny(e) => denied(entry, e),
        Naming::Place { at, address } => match reserve(at, 3 * word_size as u64) {
            None => denied(entry, Error::Kernel(Errno::ENOMEM)),
            Some(block_at) => {
                let mut copy = copy_range(block, 0, word_size);
                push_le(&mut copy, at, word_size);
                push_le(&mut copy, address.len() as u64, word_size);
                let mut regs = entry;
                regs.set_arg(SysArg::Arg2, block_at);
                let mut writes: Vec<MemWrite> = Vec::new();
                let ghost first = MemWriteView { addr: at, bytes: address@ };
                let ghost second_write = MemWriteView { addr: block_at, bytes: copy@ };
                writes.push(MemWrite { addr: at, bytes: address });
                writes.push(MemWrite { addr: block_at, bytes: copy });
                assert(writes.deep_view() =~= seq![first, second_write]);
                rewritten(regs, writes)
            },
        },
    }
}

/// What leaving the multiplexed socket call leads to.
///
/// Only an operation that gets an address back, and for which the size of
/// the buffer was kept at entry, is looked at: the block of its arguments
/// is read again from where the tracee put it, and the address is mapped
/// back as `receive_left` says.
pub open spec fn socketcall_left(
    table: Seq<BindingView>,
    word_size: usize,
    entry: RegisterSet,
    capacity: Option<Word>,
    seen: RegisterSet,
    fetched: Seq<FetchedView>,
) -> ExitStepView {
    if spec_socket_op(entry.arg1) != SocketOp::Returns || !(word_size == 4 || word_size == 8)
        || capacity is None || is_error_result(seen.result) {
        exit_unchanged()
    } else if fetched.len() == 0 {
        ExitStepView::Need(RequestView::Bytes { addr: entry.arg2, len: (3 * word_size) as usize })
    } else {
        match fetched[0] {
            FetchedView::Fault => exit_unchanged(),
            FetchedView::Data(block) => if !is_block(block, word_size) {
                exit_unchanged()
            } else {
                receive_left(
                    table,
                    word_at(block, word_size as int, word_size as nat) as Word,
                    word_at(block, 2 * word_size, word_size as nat) as Word,
                    capacity,
                    seen,
                    fetched,
                    1,
                )
            },
        }
    }
}

/// Translates the multiplexed socket call at syscall exit.
pub fn exit_socketcall(
    table: &BindingTable,
    word_size: usize,
    entry: RegisterSet,
    capacity: Option<Word>,
    seen: RegisterSet,
    fetched: &Vec<Fetched>,
) -> (step: ExitStep)
    requires
        table.wf(),
    ensures
        step.deep_view() == socketcall_left(
            table@,
            word_size,
            entry,
            capacity,
            seen,
            answers(fetched),
        ),
{
    match socket_op(entry.arg1) {
        SocketOp::Returns => {},
        _ => {
            return crate::kernel::exit::unchanged();
        },
    }
    if !(word_size == 4 || word_size == 8) || capacity.is_none() || result_is_error(seen.result) {
        return crate::kernel::exit::unchanged();
    }
    match answer(fetched, 0) {
        None => ExitStep::Need(Request::Bytes { addr: entry.arg2, len: 3 * word_size }),
        Some(Fetched::Fault) => crate::kernel::exit::unchanged(),
        Some(Fetched::Data(block)) => {
            if block.len() != 3 * word_size {
                return crate::kernel::exit::unchanged();
            }
            let second = read_word(block, word_size, word_size);
            let third = read_word(block, 2 * word_size, word_size);
            exit_receive(table, second, third, capacity, seen, fetched, 1)
        },
    }
}

} // verus!
