use syscall_engine::arch::Architecture;
use syscall_engine::errors::ProtocolViolation;
use syscall_engine::process::table::TraceeTable;
use syscall_engine::process::tracee::{ExecveState, Phase, StopKind, Tracee};
use syscall_engine::register::{RegVersion, RegisterSet};

#[test]
fn a_new_tracee_is_attached_and_idle() {
    let t = Tracee::new(7, Architecture::X86_64, Some(1));
    assert_eq!(t.pid, 7);
    assert_eq!(t.parent, Some(1));
    assert_eq!(t.phase, Phase::Attached);
    assert_eq!(t.execve, ExecveState::Idle);
    assert_eq!(t.denied, None);
    assert_eq!(t.noted, None);
    assert!(!t.pending());
    assert_eq!(t.regs.get(RegVersion::Current), RegisterSet::zeroed());
}

#[test]
fn enter_and_exit_alternate() {
    let mut t = Tracee::new(7, Architecture::X86_64, None);
    assert_eq!(t.expect(StopKind::Enter), Ok(Phase::EnteringSyscall));
    assert_eq!(t.expect(StopKind::Exit), Err(ProtocolViolation::ExitWithoutEnter));
    let mut seen = RegisterSet::zeroed();
    seen.sys_num = 80;
    t.begin_syscall(seen);
    assert!(t.pending());
    assert_eq!(t.expect(StopKind::Enter), Err(ProtocolViolation::DoubleEnter));
    assert_eq!(t.expect(StopKind::Exit), Ok(Phase::ExitingSyscall));
    let mut after = seen;
    after.result = 3;
    t.end_syscall(after);
    assert!(!t.pending());
    assert_eq!(t.regs.get(RegVersion::Original), seen);
    assert_eq!(t.regs.get(RegVersion::Current), after);
    assert_eq!(t.expect(StopKind::Exit), Err(ProtocolViolation::ExitWithoutEnter));
    assert_eq!(t.expect(StopKind::Enter), Ok(Phase::EnteringSyscall));
}

#[test]
fn nothing_is_accepted_after_exit() {
    let mut t = Tracee::new(7, Architecture::X86_64, None);
    t.phase = Phase::Exited;
    assert_eq!(t.expect(StopKind::Enter), Err(ProtocolViolation::StopAfterExit));
    assert_eq!(t.expect(StopKind::Exit), Err(ProtocolViolation::StopAfterExit));
}

#[test]
fn table_keeps_one_record_per_pid() {
    let mut table = TraceeTable::new();
    assert_eq!(table.lookup(1), None);
    table.insert(Tracee::new(1, Architecture::X86_64, None));
    table.insert(Tracee::new(2, Architecture::X86, Some(1)));
    assert_eq!(table.lookup(2).unwrap().arch, Architecture::X86);
    let mut changed = Tracee::new(1, Architecture::Arm, None);
    changed.begin_syscall(RegisterSet::zeroed());
    table.insert(changed);
    assert_eq!(table.lookup(1), Some(changed));
    assert_eq!(table.lookup(2).unwrap().parent, Some(1));
    assert_eq!(table.remove(1), Some(changed));
    assert_eq!(table.remove(1), None);
    assert_eq!(table.lookup(1), None);
    assert!(table.lookup(2).is_some());
}
