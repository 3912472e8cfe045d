use syscall_engine::arch::Architecture;
use syscall_engine::dispatch::{Action, Dispatcher};
use syscall_engine::errors::{Errno, ProtocolViolation};
use syscall_engine::filesystem::{BindingTable, PathError};
use syscall_engine::kernel::enter::VOID_SYSCALL;
use syscall_engine::kernel::uname::Identity;
use syscall_engine::memory::{Fetched, MemWrite, Request};
use syscall_engine::process::tracee::{ExecveState, Phase, StopEvent};
use syscall_engine::register::{RegVersion, RegisterSet};

const SP: u64 = 0x7fff_0000;

fn engine() -> Dispatcher {
    let mut t = BindingTable::new();
    t.bind(b"/guest/data".to_vec(), b"/srv/real/data".to_vec(), false).unwrap();
    t.bind(b"/guest".to_vec(), b"/srv/real".to_vec(), false).unwrap();
    Dispatcher::new(t, Identity { release: None }, Architecture::X86_64)
}

fn regs(sys_num: u64, arg1: u64, arg2: u64) -> RegisterSet {
    RegisterSet {
        sys_num,
        arg1,
        arg2,
        arg3: 0,
        arg4: 0,
        arg5: 0,
        arg6: 0,
        result: Errno::ENOSYS.as_result(),
        stack_pointer: SP,
    }
}

fn data(s: &[u8]) -> Fetched {
    Fetched::Data(s.to_vec())
}

fn plain(signal: i32) -> Action {
    Action::Resume { regs: None, writes: vec![], signal, inconsistency: None }
}

#[test]
fn chdir_then_getcwd_shows_the_guest_its_own_path() {
    let mut e = engine();
    let seen = regs(80, 0x1000, 0);
    assert_eq!(
        e.handle_stop(9, StopEvent::SyscallEnter(seen), &vec![]),
        Action::Fetch(Request::CString { addr: 0x1000, max: 4096 })
    );
    assert_eq!(e.tracees.lookup(9).unwrap().phase, Phase::Attached);
    let mut shown = seen;
    shown.arg1 = 0x7ffe_ff70;
    assert_eq!(
        e.handle_stop(9, StopEvent::SyscallEnter(seen), &vec![data(b"/guest/data")]),
        Action::Resume {
            regs: Some(shown),
            writes: vec![MemWrite { addr: 0x7ffe_ff70, bytes: b"/srv/real/data\0".to_vec() }],
            signal: 0,
            inconsistency: None,
        }
    );
    let t = e.tracees.lookup(9).unwrap();
    assert_eq!(t.phase, Phase::EnteringSyscall);
    assert_eq!(t.regs.get(RegVersion::Original), seen);
    assert_eq!(t.regs.get(RegVersion::Current), shown);
    // the kernel has changed directory; the tracee gets its own registers back
    let mut back = shown;
    back.result = 0;
    let mut settled = seen;
    settled.result = 0;
    assert_eq!(
        e.handle_stop(9, StopEvent::SyscallExit(back), &vec![]),
        Action::Resume { regs: Some(settled), writes: vec![], signal: 0, inconsistency: None }
    );
    assert_eq!(e.tracees.lookup(9).unwrap().phase, Phase::ExitingSyscall);

    let seen = regs(79, 0x2000, 256);
    assert_eq!(e.handle_stop(9, StopEvent::SyscallEnter(seen), &vec![]), plain(0));
    let mut back = seen;
    back.result = 15;
    assert_eq!(
        e.handle_stop(9, StopEvent::SyscallExit(back), &vec![]),
        Action::Fetch(Request::CString { addr: 0x2000, max: 4096 })
    );
    assert_eq!(e.tracees.lookup(9).unwrap().phase, Phase::EnteringSyscall);
    let mut settled = back;
    settled.result = 12;
    assert_eq!(
        e.handle_stop(9, StopEvent::SyscallExit(back), &vec![data(b"/srv/real/data")]),
        Action::Resume {
            regs: Some(settled),
            writes: vec![MemWrite { addr: 0x2000, bytes: b"/guest/data\0".to_vec() }],
            signal: 0,
            inconsistency: None,
        }
    );
}

#[test]
fn a_double_enter_detaches_the_tracee_without_translating() {
    let mut e = engine();
    let seen = regs(80, 0x1000, 0);
    e.handle_stop(9, StopEvent::SyscallEnter(seen), &vec![data(b"/guest/data")]);
    assert_eq!(e.tracees.lookup(9).unwrap().phase, Phase::EnteringSyscall);
    assert_eq!(
        e.handle_stop(9, StopEvent::SyscallEnter(seen), &vec![data(b"/guest/data")]),
        Action::Detach(ProtocolViolation::DoubleEnter)
    );
    assert_eq!(e.tracees.lookup(9), None);
}

#[test]
fn an_exit_without_enter_detaches_the_tracee() {
    let mut e = engine();
    let seen = regs(79, 0x2000, 256);
    assert_eq!(
        e.handle_stop(9, StopEvent::SyscallExit(seen), &vec![]),
        Action::Detach(ProtocolViolation::ExitWithoutEnter)
    );
    assert_eq!(e.tracees.lookup(9), None);
    e.handle_stop(9, StopEvent::SyscallEnter(seen), &vec![]);
    assert_eq!(e.handle_stop(9, StopEvent::SyscallExit(seen), &vec![]), plain(0));
    assert_eq!(
        e.handle_stop(9, StopEvent::SyscallExit(seen), &vec![]),
        Action::Detach(ProtocolViolation::ExitWithoutEnter)
    );
}

#[test]
fn one_tracee_failing_leaves_the_others_alone() {
    let mut e = engine();
    let seen = regs(39, 0, 0);
    e.handle_stop(1, StopEvent::SyscallEnter(seen), &vec![]);
    e.handle_stop(2, StopEvent::SyscallEnter(seen), &vec![]);
    assert_eq!(
        e.handle_stop(1, StopEvent::SyscallEnter(seen), &vec![]),
        Action::Detach(ProtocolViolation::DoubleEnter)
    );
    assert_eq!(e.tracees.lookup(2).unwrap().phase, Phase::EnteringSyscall);
    assert_eq!(e.handle_stop(2, StopEvent::SyscallExit(seen), &vec![]), plain(0));
}

#[test]
fn a_denied_syscall_ends_with_its_errno() {
    let mut e = engine();
    let seen = regs(80, 0x1000, 0);
    let mut void = seen;
    void.sys_num = VOID_SYSCALL;
    assert_eq!(
        e.handle_stop(9, StopEvent::SyscallEnter(seen), &vec![data(b"/etc")]),
        Action::Resume { regs: Some(void), writes: vec![], signal: 0, inconsistency: None }
    );
    assert!(e.tracees.lookup(9).unwrap().denied.is_some());
    let mut settled = seen;
    settled.result = (-2i64) as u64;
    assert_eq!(
        e.handle_stop(9, StopEvent::SyscallExit(void), &vec![]),
        Action::Resume { regs: Some(settled), writes: vec![], signal: 0, inconsistency: None }
    );
    let t = e.tracees.lookup(9).unwrap();
    assert_eq!(t.denied, None);
    assert_eq!(t.regs.get(RegVersion::Current), settled);
}

#[test]
fn unsupported_syscalls_change_no_register() {
    let mut e = engine();
    let seen = regs(39, 1, 2);
    assert_eq!(e.handle_stop(9, StopEvent::SyscallEnter(seen), &vec![]), plain(0));
    let mut back = seen;
    back.result = 1234;
    assert_eq!(e.handle_stop(9, StopEvent::SyscallExit(back), &vec![]), plain(0));
    assert_eq!(e.tracees.lookup(9).unwrap().regs.get(RegVersion::Current), back);
}

#[test]
fn signals_are_passed_on_between_entry_and_exit() {
    let mut e = engine();
    let seen = regs(39, 0, 0);
    assert_eq!(e.handle_stop(9, StopEvent::Signal(10), &vec![]), plain(10));
    assert_eq!(e.tracees.lookup(9).unwrap().phase, Phase::Attached);
    e.handle_stop(9, StopEvent::SyscallEnter(seen), &vec![]);
    assert_eq!(e.handle_stop(9, StopEvent::Signal(17), &vec![]), plain(17));
    assert_eq!(e.tracees.lookup(9).unwrap().phase, Phase::EnteringSyscall);
    assert_eq!(e.handle_stop(9, StopEvent::SyscallExit(seen), &vec![]), plain(0));
}

#[test]
fn children_get_records_and_exits_drop_them() {
    let mut e = engine();
    assert_eq!(e.handle_stop(1, StopEvent::Fork(2), &vec![]), plain(0));
    assert_eq!(e.tracees.lookup(2).unwrap().parent, Some(1));
    assert_eq!(e.tracees.lookup(1).unwrap().parent, None);
    // a child whose first stop comes before the news of its creation
    e.handle_stop(3, StopEvent::Signal(19), &vec![]);
    assert_eq!(e.tracees.lookup(3).unwrap().parent, None);
    e.handle_stop(2, StopEvent::Fork(3), &vec![]);
    assert_eq!(e.tracees.lookup(3).unwrap().parent, Some(2));
    assert_eq!(
        e.handle_stop(3, StopEvent::Exited(7), &vec![]),
        Action::Reaped { status: 7, parent: Some(2) }
    );
    assert_eq!(e.tracees.lookup(3), None);
    assert_eq!(
        e.handle_stop(77, StopEvent::Exited(0), &vec![]),
        Action::Reaped { status: 0, parent: None }
    );
}

#[test]
fn execve_goes_through_its_states() {
    let mut e = engine();
    let mut seen = regs(59, 0x1000, 0x2000);
    seen.arg3 = 0x900;
    let mut fetched = vec![];
    assert!(matches!(e.handle_stop(9, StopEvent::SyscallEnter(seen), &fetched), Action::Fetch(_)));
    assert_eq!(e.tracees.lookup(9).unwrap().execve, ExecveState::AwaitingInterpreter);
    assert_eq!(e.tracees.lookup(9).unwrap().phase, Phase::Attached);
    fetched.push(data(b"/guest/bin/tool"));
    assert_eq!(
        e.handle_stop(9, StopEvent::SyscallEnter(seen), &fetched),
        Action::Fetch(Request::FileHead { path: b"/srv/real/bin/tool".to_vec(), len: 256 })
    );
    fetched.push(data(b"\x7fELF"));
    let mut shown = seen;
    shown.arg1 = 0x7ffe_ff60;
    assert_eq!(
        e.handle_stop(9, StopEvent::SyscallEnter(seen), &fetched),
        Action::Resume {
            regs: Some(shown),
            writes: vec![MemWrite { addr: 0x7ffe_ff60, bytes: b"/srv/real/bin/tool\0".to_vec() }],
            signal: 0,
            inconsistency: None,
        }
    );
    assert_eq!(e.tracees.lookup(9).unwrap().execve, ExecveState::AwaitingCompletion);
    // success: the registers belong to the new program and stay as they are
    let fresh = RegisterSet { sys_num: 59, result: 0, stack_pointer: 0x7ffd_0000, ..RegisterSet::zeroed() };
    assert_eq!(e.handle_stop(9, StopEvent::SyscallExit(fresh), &vec![]), plain(0));
    assert_eq!(e.tracees.lookup(9).unwrap().execve, ExecveState::Idle);
}

#[test]
fn a_failed_execve_gives_the_registers_back() {
    let mut e = engine();
    let seen = regs(59, 0x1000, 0x2000);
    let fetched = vec![data(b"/guest/bin/tool"), data(b"\x7fELF")];
    e.handle_stop(9, StopEvent::SyscallEnter(seen), &fetched);
    let mut back = seen;
    back.arg1 = 0x7ffe_ff60;
    back.result = Errno::EACCES.as_result();
    let mut settled = seen;
    settled.result = Errno::EACCES.as_result();
    assert_eq!(
        e.handle_stop(9, StopEvent::SyscallExit(back), &vec![]),
        Action::Resume { regs: Some(settled), writes: vec![], signal: 0, inconsistency: None }
    );
}

#[test]
fn an_inconsistency_is_reported_to_the_front_end_only() {
    let mut e = engine();
    let seen = regs(79, 0x2000, 256);
    e.handle_stop(9, StopEvent::SyscallEnter(seen), &vec![]);
    let mut back = seen;
    back.result = 5;
    assert_eq!(
        e.handle_stop(9, StopEvent::SyscallExit(back), &vec![data(b"/etc")]),
        Action::Resume {
            regs: None,
            writes: vec![],
            signal: 0,
            inconsistency: Some(PathError::NoBinding)
        }
    );
}

#[test]
fn an_exit_with_another_number_runs_no_translator() {
    let mut e = engine();
    let seen = regs(79, 0x2000, 256);
    assert_eq!(e.handle_stop(9, StopEvent::SyscallEnter(seen), &vec![]), plain(0));
    let mut back = seen;
    back.sys_num = 100;
    back.result = 15;
    assert_eq!(e.handle_stop(9, StopEvent::SyscallExit(back), &vec![]), plain(0));
    let t = e.tracees.lookup(9).unwrap();
    assert_eq!(t.phase, Phase::ExitingSyscall);
    assert_eq!(t.regs.get(RegVersion::Original), seen);
    assert_eq!(t.regs.get(RegVersion::Current), back);

    // and the other way round: entered under a number of no group, left
    // with that of getcwd
    let seen = regs(100, 0x2000, 256);
    assert_eq!(e.handle_stop(9, StopEvent::SyscallEnter(seen), &vec![]), plain(0));
    let mut back = seen;
    back.sys_num = 79;
    back.result = 15;
    assert_eq!(
        e.handle_stop(9, StopEvent::SyscallExit(back), &vec![]),
        Action::Fetch(Request::CString { addr: 0x2000, max: 4096 })
    );
}
