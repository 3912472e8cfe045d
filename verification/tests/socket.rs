use syscall_engine::arch::Architecture;
use syscall_engine::errors::{Errno, Error};
use syscall_engine::filesystem::{BindingTable, PathError};
use syscall_engine::kernel::enter::{EnterOutcome, EnterStep, VOID_SYSCALL};
use syscall_engine::kernel::exit::{ExitOutcome, ExitStep, SyscallExitResult};
use syscall_engine::kernel::socket::{
    make_unix_address, read_unix_path, socket_op, SocketOp,
};
use syscall_engine::kernel::uname::Identity;
use syscall_engine::memory::{read_quad, read_word, push_le, Fetched, MemWrite, Request};
use syscall_engine::process::tracee::Tracee;
use syscall_engine::register::RegisterSet;

const SP: u64 = 0x7fff_0000;

fn table() -> BindingTable {
    let mut t = BindingTable::new();
    t.bind(b"/guest".to_vec(), b"/srv/real".to_vec(), false).unwrap();
    t
}

fn regs(sys_num: u64, arg1: u64, arg2: u64, arg3: u64) -> RegisterSet {
    RegisterSet {
        sys_num,
        arg1,
        arg2,
        arg3,
        arg4: 0,
        arg5: 0,
        arg6: 0,
        result: 0,
        stack_pointer: SP,
    }
}

fn entering(arch: Architecture, seen: RegisterSet) -> Tracee {
    let mut t = Tracee::new(42, arch, None);
    t.begin_syscall(seen);
    t
}

fn leaving(arch: Architecture, seen: RegisterSet, result: u64, noted: Option<u64>) -> Tracee {
    let mut t = entering(arch, seen);
    t.noted = noted;
    let mut after = seen;
    after.result = result;
    t.show(after);
    t
}

fn enter(t: &Tracee, fetched: &[Fetched]) -> EnterStep {
    syscall_engine::kernel::enter::translate(t, &table(), &fetched.to_vec())
}

fn exit(t: &Tracee, fetched: &[Fetched]) -> ExitStep {
    syscall_engine::kernel::exit::translate(
        t,
        &table(),
        &Identity { release: None },
        &fetched.to_vec(),
    )
}

fn address(path: &[u8]) -> Vec<u8> {
    let mut a = vec![1u8, 0u8];
    a.extend_from_slice(path);
    a.push(0);
    a
}

fn words32(values: &[u32]) -> Vec<u8> {
    values.iter().flat_map(|v| v.to_le_bytes()).collect()
}

fn passed(seen: RegisterSet) -> EnterStep {
    EnterStep::Done(EnterOutcome { regs: seen, writes: vec![], denied: None, note: None })
}

fn denied(seen: RegisterSet, e: Error) -> EnterStep {
    let mut regs = seen;
    regs.sys_num = VOID_SYSCALL;
    EnterStep::Done(EnterOutcome { regs, writes: vec![], denied: Some(e), note: None })
}

fn untouched() -> ExitStep {
    ExitStep::Done(ExitOutcome {
        result: SyscallExitResult::NoChange,
        writes: vec![],
        inconsistency: None,
    })
}

#[test]
fn socket_addresses_hold_paths() {
    assert_eq!(make_unix_address(&b"/a/b".to_vec()), vec![1, 0, b'/', b'a', b'/', b'b', 0]);
    assert_eq!(read_unix_path(&address(b"/a/b")), Some(b"/a/b".to_vec()));
    assert_eq!(read_unix_path(&vec![1, 0, b'/', b'a']), Some(b"/a".to_vec()));
    assert_eq!(read_unix_path(&vec![1, 0, b'/', b'a', 0, b'x', 0]), Some(b"/a".to_vec()));
    assert_eq!(read_unix_path(&vec![1, 0, 0, b'a', 0]), None);
    assert_eq!(read_unix_path(&vec![2, 0, b'/', b'a', 0]), None);
    assert_eq!(read_unix_path(&vec![1, 1, b'/', b'a', 0]), None);
    assert_eq!(read_unix_path(&vec![1, 0]), None);
    assert_eq!(read_unix_path(&vec![]), None);
}

#[test]
fn words_are_read_lowest_byte_first() {
    let bytes = vec![0x78, 0x56, 0x34, 0x12, 0xef, 0xcd, 0xab, 0x89, 1, 0, 0, 0];
    assert_eq!(read_quad(&bytes, 0), 0x1234_5678);
    assert_eq!(read_quad(&bytes, 8), 1);
    assert_eq!(read_word(&bytes, 0, 4), 0x1234_5678);
    assert_eq!(read_word(&bytes, 4, 4), 0x89ab_cdef);
    assert_eq!(read_word(&bytes, 0, 8), 0x89ab_cdef_1234_5678);
    let mut out = vec![9u8];
    push_le(&mut out, 0x89ab_cdef_1234_5678, 8);
    push_le(&mut out, 0x0102_0304, 4);
    push_le(&mut out, 7, 0);
    assert_eq!(out, vec![9, 0x78, 0x56, 0x34, 0x12, 0xef, 0xcd, 0xab, 0x89, 4, 3, 2, 1]);
}

#[test]
fn multiplexed_calls_are_told_apart() {
    assert_eq!(socket_op(2), SocketOp::Names);
    assert_eq!(socket_op(3), SocketOp::Names);
    for call in [5u64, 6, 7, 18] {
        assert_eq!(socket_op(call), SocketOp::Returns);
    }
    for call in [0u64, 1, 4, 8, 9, 17, 19, 20, u64::MAX] {
        assert_eq!(socket_op(call), SocketOp::Other);
    }
}

#[test]
fn bind_gets_the_host_path_of_the_socket() {
    let seen = regs(49, 3, 0x4000, 14);
    let t = entering(Architecture::X86_64, seen);
    assert_eq!(enter(&t, &[]), EnterStep::Need(Request::Bytes { addr: 0x4000, len: 14 }));
    let mut expected = seen;
    expected.arg2 = 0x7ffe_ff60;
    expected.arg3 = 17;
    assert_eq!(
        enter(&t, &[Fetched::Data(address(b"/guest/sock"))]),
        EnterStep::Done(EnterOutcome {
            regs: expected,
            writes: vec![MemWrite { addr: 0x7ffe_ff60, bytes: address(b"/srv/real/sock") }],
            denied: None,
            note: None,
        })
    );
}

#[test]
fn connect_outside_the_bindings_is_denied() {
    let seen = regs(42, 3, 0x4000, 12);
    let t = entering(Architecture::X86_64, seen);
    assert_eq!(
        enter(&t, &[Fetched::Data(address(b"/run/sock"))]),
        denied(seen, Error::PathResolution(PathError::NoBinding))
    );
    let mut long = b"/guest/".to_vec();
    long.extend(std::iter::repeat(b's').take(98));
    let seen = regs(42, 3, 0x4000, 108);
    let t = entering(Architecture::X86_64, seen);
    assert_eq!(
        enter(&t, &[Fetched::Data(address(&long))]),
        denied(seen, Error::Kernel(Errno::ENAMETOOLONG))
    );
}

#[test]
fn other_addresses_go_through() {
    let seen = regs(49, 3, 0x4000, 16);
    let t = entering(Architecture::X86_64, seen);
    // an internet address, an abstract socket, a relative path, a fault
    assert_eq!(enter(&t, &[Fetched::Data(vec![2, 0, 0, 80, 127, 0, 0, 1, 0, 0, 0, 0, 0, 0, 0, 0])]), passed(seen));
    assert_eq!(enter(&t, &[Fetched::Data(vec![1, 0, 0, b'n', b'a', b'm', b'e'])]), passed(seen));
    assert_eq!(enter(&t, &[Fetched::Data(address(b"sock"))]), passed(seen));
    assert_eq!(enter(&t, &[Fetched::Fault]), passed(seen));
    for len in [0u64, 2, 111, 4096] {
        let seen = regs(49, 3, 0x4000, len);
        assert_eq!(enter(&entering(Architecture::X86_64, seen), &[]), passed(seen));
    }
}

#[test]
fn accept_keeps_the_size_of_the_buffer() {
    let seen = regs(43, 3, 0x4000, 0x4100);
    let t = entering(Architecture::X86_64, seen);
    assert_eq!(enter(&t, &[]), EnterStep::Need(Request::Bytes { addr: 0x4100, len: 4 }));
    assert_eq!(
        enter(&t, &[Fetched::Data(words32(&[110]))]),
        EnterStep::Done(EnterOutcome { regs: seen, writes: vec![], denied: None, note: Some(110) })
    );
    assert_eq!(enter(&t, &[Fetched::Fault]), passed(seen));
    assert_eq!(enter(&t, &[Fetched::Data(vec![1, 2])]), passed(seen));
    let null = regs(43, 3, 0, 0);
    assert_eq!(enter(&entering(Architecture::X86_64, null), &[]), passed(null));
}

#[test]
fn getpeername_returns_the_guest_path_of_the_socket() {
    let seen = regs(52, 3, 0x4000, 0x4100);
    let t = leaving(Architecture::X86_64, seen, 0, Some(110));
    assert_eq!(exit(&t, &[]), ExitStep::Need(Request::Bytes { addr: 0x4100, len: 4 }));
    let mut fetched = vec![Fetched::Data(words32(&[17]))];
    assert_eq!(exit(&t, &fetched), ExitStep::Need(Request::Bytes { addr: 0x4000, len: 17 }));
    fetched.push(Fetched::Data(address(b"/srv/real/sock")));
    assert_eq!(
        exit(&t, &fetched),
        ExitStep::Done(ExitOutcome {
            result: SyscallExitResult::NoChange,
            writes: vec![
                MemWrite { addr: 0x4000, bytes: address(b"/guest/sock") },
                MemWrite { addr: 0x4100, bytes: vec![14, 0, 0, 0] },
            ],
            inconsistency: None,
        })
    );
}

#[test]
fn a_returned_address_is_cut_to_the_buffer() {
    let mut t = BindingTable::new();
    t.bind(b"/guest/long/name".to_vec(), b"/s".to_vec(), false).unwrap();
    let seen = regs(51, 3, 0x4000, 0x4100);
    let tracee = leaving(Architecture::X86_64, seen, 0, Some(8));
    let fetched = vec![Fetched::Data(words32(&[7])), Fetched::Data(address(b"/s/x"))];
    let step = syscall_engine::kernel::exit::translate(
        &tracee,
        &t,
        &Identity { release: None },
        &fetched,
    );
    let full = address(b"/guest/long/name/x");
    assert_eq!(
        step,
        ExitStep::Done(ExitOutcome {
            result: SyscallExitResult::NoChange,
            writes: vec![
                MemWrite { addr: 0x4000, bytes: full[..8].to_vec() },
                MemWrite { addr: 0x4100, bytes: vec![full.len() as u8, 0, 0, 0] },
            ],
            inconsistency: None,
        })
    );
}

#[test]
fn returned_addresses_that_name_no_guest_path_are_left_alone() {
    let seen = regs(52, 3, 0x4000, 0x4100);
    let t = leaving(Architecture::X86_64, seen, 0, Some(110));
    assert_eq!(
        exit(&t, &[Fetched::Data(words32(&[12])), Fetched::Data(address(b"/run/sock"))]),
        untouched()
    );
    assert_eq!(
        exit(&t, &[Fetched::Data(words32(&[16])), Fetched::Data(vec![2, 0, 0, 80, 127, 0, 0, 1])]),
        untouched()
    );
    assert_eq!(exit(&t, &[Fetched::Data(words32(&[2]))]), untouched());
    assert_eq!(exit(&t, &[Fetched::Data(words32(&[111]))]), untouched());
    assert_eq!(exit(&t, &[Fetched::Fault]), untouched());
    assert_eq!(exit(&t, &[Fetched::Data(words32(&[17])), Fetched::Fault]), untouched());
    let failed = leaving(Architecture::X86_64, seen, Errno::EINVAL.as_result(), Some(110));
    assert_eq!(exit(&failed, &[]), untouched());
    let unnoted = leaving(Architecture::X86_64, seen, 0, None);
    assert_eq!(exit(&unnoted, &[]), untouched());
}

#[test]
fn socketcall_bind_gets_a_new_block() {
    let seen = regs(102, 2, 0x5000, 0);
    let t = entering(Architecture::X86, seen);
    assert_eq!(enter(&t, &[]), EnterStep::Need(Request::Bytes { addr: 0x5000, len: 12 }));
    let mut fetched = vec![Fetched::Data(words32(&[3, 0x4000, 14]))];
    assert_eq!(enter(&t, &fetched), EnterStep::Need(Request::Bytes { addr: 0x4000, len: 14 }));
    fetched.push(Fetched::Data(address(b"/guest/sock")));
    let mut expected = seen;
    expected.arg2 = 0x7ffe_ff50;
    assert_eq!(
        enter(&t, &fetched),
        EnterStep::Done(EnterOutcome {
            regs: expected,
            writes: vec![
                MemWrite { addr: 0x7ffe_ff60, bytes: address(b"/srv/real/sock") },
                MemWrite { addr: 0x7ffe_ff50, bytes: words32(&[3, 0x7ffe_ff60, 17]) },
            ],
            denied: None,
            note: None,
        })
    );
}

#[test]
fn socketcall_getsockname_is_mapped_back() {
    let seen = regs(102, 6, 0x5000, 0);
    let t = entering(Architecture::X86, seen);
    let block = Fetched::Data(words32(&[3, 0x4000, 0x4100]));
    assert_eq!(
        enter(&t, &[block.clone()]),
        EnterStep::Need(Request::Bytes { addr: 0x4100, len: 4 })
    );
    assert_eq!(
        enter(&t, &[block.clone(), Fetched::Data(words32(&[110]))]),
        EnterStep::Done(EnterOutcome { regs: seen, writes: vec![], denied: None, note: Some(110) })
    );
    let t = leaving(Architecture::X86, seen, 0, Some(110));
    assert_eq!(exit(&t, &[]), ExitStep::Need(Request::Bytes { addr: 0x5000, len: 12 }));
    assert_eq!(
        exit(&t, &[block.clone()]),
        ExitStep::Need(Request::Bytes { addr: 0x4100, len: 4 })
    );
    assert_eq!(
        exit(
            &t,
            &[block, Fetched::Data(words32(&[17])), Fetched::Data(address(b"/srv/real/sock"))]
        ),
        ExitStep::Done(ExitOutcome {
            result: SyscallExitResult::NoChange,
            writes: vec![
                MemWrite { addr: 0x4000, bytes: address(b"/guest/sock") },
                MemWrite { addr: 0x4100, bytes: vec![14, 0, 0, 0] },
            ],
            inconsistency: None,
        })
    );
}

#[test]
fn other_socketcalls_go_through() {
    for call in [1u64, 4, 9, 10] {
        let seen = regs(102, call, 0x5000, 0);
        assert_eq!(enter(&entering(Architecture::X86, seen), &[]), passed(seen));
        assert_eq!(exit(&leaving(Architecture::X86, seen, 0, Some(110)), &[]), untouched());
    }
    let seen = regs(102, 2, 0x5000, 0);
    let t = entering(Architecture::X86, seen);
    assert_eq!(enter(&t, &[Fetched::Data(vec![0; 11])]), passed(seen));
    assert_eq!(enter(&t, &[Fetched::Fault]), passed(seen));
    assert_eq!(exit(&leaving(Architecture::X86, seen, 0, Some(110)), &[]), untouched());
}
