use syscall_engine::arch::Architecture;
use syscall_engine::errors::{Errno, Error};
use syscall_engine::filesystem::{BindingTable, PathError};
use syscall_engine::kernel::enter::{EnterOutcome, EnterStep, VOID_SYSCALL};
use syscall_engine::kernel::exit::{ExitOutcome, ExitStep, SyscallExitResult};
use syscall_engine::kernel::uname::Identity;
use syscall_engine::memory::{Fetched, MemWrite, Request};
use syscall_engine::process::tracee::Tracee;
use syscall_engine::register::RegisterSet;

const SP: u64 = 0x7fff_0000;

fn table() -> BindingTable {
    let mut t = BindingTable::new();
    t.bind(b"/guest/data".to_vec(), b"/srv/real/data".to_vec(), false).unwrap();
    t.bind(b"/guest".to_vec(), b"/srv/real".to_vec(), false).unwrap();
    t
}

fn regs(sys_num: u64, args: [u64; 4]) -> RegisterSet {
    RegisterSet {
        sys_num,
        arg1: args[0],
        arg2: args[1],
        arg3: args[2],
        arg4: args[3],
        arg5: 0,
        arg6: 0,
        result: 0,
        stack_pointer: SP,
    }
}

fn entering(arch: Architecture, seen: RegisterSet) -> Tracee {
    let mut t = Tracee::new(42, arch, None);
    t.begin_syscall(seen);
    t
}

fn leaving(arch: Architecture, seen: RegisterSet, result: u64) -> Tracee {
    let mut t = entering(arch, seen);
    let mut after = seen;
    after.result = result;
    t.show(after);
    t
}

fn data(s: &[u8]) -> Fetched {
    Fetched::Data(s.to_vec())
}

fn nobody() -> Identity {
    Identity { release: None }
}

fn enter(t: &Tracee, fetched: &[Fetched]) -> EnterStep {
    syscall_engine::kernel::enter::translate(t, &table(), &fetched.to_vec())
}

fn exit(t: &Tracee, fetched: &[Fetched]) -> ExitStep {
    syscall_engine::kernel::exit::translate(t, &table(), &nobody(), &fetched.to_vec())
}

fn denied(seen: RegisterSet, e: Error) -> EnterStep {
    let mut regs = seen;
    regs.sys_num = VOID_SYSCALL;
    EnterStep::Done(EnterOutcome { regs, writes: vec![], denied: Some(e), note: None })
}

fn passed(seen: RegisterSet) -> EnterStep {
    EnterStep::Done(EnterOutcome { regs: seen, writes: vec![], denied: None, note: None })
}

fn untouched() -> ExitStep {
    ExitStep::Done(ExitOutcome {
        result: SyscallExitResult::NoChange,
        writes: vec![],
        inconsistency: None,
    })
}

#[test]
fn chdir_is_sent_to_the_host_directory() {
    let seen = regs(80, [0x1000, 0, 0, 0]);
    let t = entering(Architecture::X86_64, seen);
    assert_eq!(enter(&t, &[]), EnterStep::Need(Request::CString { addr: 0x1000, max: 4096 }));
    let mut expected = seen;
    expected.arg1 = 0x7ffe_ff70;
    assert_eq!(
        enter(&t, &[data(b"/guest/data")]),
        EnterStep::Done(EnterOutcome {
            regs: expected,
            writes: vec![MemWrite { addr: 0x7ffe_ff70, bytes: b"/srv/real/data\0".to_vec() }],
            denied: None,
            note: None,
        })
    );
}

#[test]
fn getcwd_returns_the_guest_directory() {
    let seen = regs(79, [0x2000, 256, 0, 0]);
    let t = leaving(Architecture::X86_64, seen, 15);
    assert_eq!(exit(&t, &[]), ExitStep::Need(Request::CString { addr: 0x2000, max: 4096 }));
    assert_eq!(
        exit(&t, &[data(b"/srv/real/data")]),
        ExitStep::Done(ExitOutcome {
            result: SyscallExitResult::Value(12),
            writes: vec![MemWrite { addr: 0x2000, bytes: b"/guest/data\0".to_vec() }],
            inconsistency: None,
        })
    );
}

#[test]
fn getcwd_reports_a_buffer_that_is_too_small() {
    let seen = regs(79, [0x2000, 11, 0, 0]);
    let t = leaving(Architecture::X86_64, seen, 10);
    assert_eq!(
        exit(&t, &[data(b"/srv/real/data")]),
        ExitStep::Done(ExitOutcome {
            result: SyscallExitResult::Error(Error::Kernel(Errno::ERANGE)),
            writes: vec![],
            inconsistency: None,
        })
    );
    let seen = regs(79, [0x2000, 12, 0, 0]);
    let t = leaving(Architecture::X86_64, seen, 10);
    assert!(matches!(
        exit(&t, &[data(b"/srv/real/data")]),
        ExitStep::Done(ExitOutcome { result: SyscallExitResult::Value(12), .. })
    ));
}

#[test]
fn getcwd_outside_all_bindings_is_an_inconsistency_the_guest_does_not_see() {
    let seen = regs(79, [0x2000, 256, 0, 0]);
    let t = leaving(Architecture::X86_64, seen, 5);
    assert_eq!(
        exit(&t, &[data(b"/etc")]),
        ExitStep::Done(ExitOutcome {
            result: SyscallExitResult::NoChange,
            writes: vec![],
            inconsistency: Some(PathError::NoBinding),
        })
    );
}

#[test]
fn failed_getcwd_is_left_alone() {
    let seen = regs(79, [0x2000, 256, 0, 0]);
    let t = leaving(Architecture::X86_64, seen, Errno::ERANGE.as_result());
    assert_eq!(exit(&t, &[]), untouched());
    let t = leaving(Architecture::X86_64, seen, 15);
    assert_eq!(exit(&t, &[Fetched::Fault]), untouched());
}

#[test]
fn readlink_target_is_mapped_back_to_the_guest() {
    let seen = regs(89, [0x1000, 0x3000, 64, 0]);
    let t = entering(Architecture::X86_64, seen);
    let mut expected = seen;
    expected.arg1 = 0x7ffe_ff70;
    assert_eq!(
        enter(&t, &[data(b"/guest/link")]),
        EnterStep::Done(EnterOutcome {
            regs: expected,
            writes: vec![MemWrite { addr: 0x7ffe_ff70, bytes: b"/srv/real/link\0".to_vec() }],
            denied: None,
            note: None,
        })
    );
    let t = leaving(Architecture::X86_64, seen, 16);
    assert_eq!(exit(&t, &[]), ExitStep::Need(Request::Bytes { addr: 0x3000, len: 16 }));
    assert_eq!(
        exit(&t, &[data(b"/srv/real/target")]),
        ExitStep::Done(ExitOutcome {
            result: SyscallExitResult::Value(13),
            writes: vec![MemWrite { addr: 0x3000, bytes: b"/guest/target".to_vec() }],
            inconsistency: None,
        })
    );
}

#[test]
fn readlinkat_uses_the_later_arguments() {
    let seen = regs(267, [3, 0x1000, 0x3000, 8]);
    let t = entering(Architecture::X86_64, seen);
    assert_eq!(enter(&t, &[]), EnterStep::Need(Request::CString { addr: 0x1000, max: 4096 }));
    let t = leaving(Architecture::X86_64, seen, 8);
    assert_eq!(exit(&t, &[]), ExitStep::Need(Request::Bytes { addr: 0x3000, len: 8 }));
    assert_eq!(
        exit(&t, &[data(b"/srv/real/target")]),
        ExitStep::Done(ExitOutcome {
            result: SyscallExitResult::Value(8),
            writes: vec![MemWrite { addr: 0x3000, bytes: b"/guest/t".to_vec() }],
            inconsistency: None,
        })
    );
}

#[test]
fn readlink_leaves_other_targets_alone() {
    let seen = regs(89, [0x1000, 0x3000, 64, 0]);
    for target in [&b"../relative"[..], b"/etc/passwd", b"", b"/srv/real/a//b"] {
        let t = leaving(Architecture::X86_64, seen, target.len() as u64);
        assert_eq!(exit(&t, &[data(target)]), untouched());
    }
    let t = leaving(Architecture::X86_64, seen, Errno::ENOENT.as_result());
    assert_eq!(exit(&t, &[]), untouched());
}

#[test]
fn rename_translates_both_paths_one_below_the_other() {
    let seen = regs(82, [0x1000, 0x1100, 0, 0]);
    let t = entering(Architecture::X86_64, seen);
    assert_eq!(enter(&t, &[]), EnterStep::Need(Request::CString { addr: 0x1000, max: 4096 }));
    assert_eq!(
        enter(&t, &[data(b"/guest/a")]),
        EnterStep::Need(Request::CString { addr: 0x1100, max: 4096 })
    );
    let mut expected = seen;
    expected.arg1 = 0x7ffe_ff70;
    expected.arg2 = 0x7ffe_ff50;
    assert_eq!(
        enter(&t, &[data(b"/guest/a"), data(b"/guest/data/b")]),
        EnterStep::Done(EnterOutcome {
            regs: expected,
            writes: vec![
                MemWrite { addr: 0x7ffe_ff70, bytes: b"/srv/real/a\0".to_vec() },
                MemWrite { addr: 0x7ffe_ff50, bytes: b"/srv/real/data/b\0".to_vec() },
            ],
            denied: None,
            note: None,
        })
    );
}

#[test]
fn renameat_leaves_relative_paths_to_the_kernel() {
    let seen = regs(264, [3, 0x1000, 4, 0x1100]);
    let t = entering(Architecture::X86_64, seen);
    let mut expected = seen;
    expected.arg4 = 0x7ffe_ff70;
    assert_eq!(
        enter(&t, &[data(b"old"), data(b"/guest/new")]),
        EnterStep::Done(EnterOutcome {
            regs: expected,
            writes: vec![MemWrite { addr: 0x7ffe_ff70, bytes: b"/srv/real/new\0".to_vec() }],
            denied: None,
            note: None,
        })
    );
    assert_eq!(enter(&t, &[data(b"old"), data(b"new")]), passed(seen));
}

#[test]
fn a_path_outside_all_bindings_denies_the_syscall() {
    let seen = regs(80, [0x1000, 0, 0, 0]);
    let t = entering(Architecture::X86_64, seen);
    assert_eq!(
        enter(&t, &[data(b"/etc")]),
        denied(seen, Error::PathResolution(PathError::NoBinding))
    );
    assert_eq!(
        enter(&t, &[data(b"/guest/../etc")]),
        denied(seen, Error::PathResolution(PathError::NotCanonical))
    );
    let mut long = b"/guest/".to_vec();
    long.resize(4096, b'a');
    assert_eq!(
        enter(&t, &[Fetched::Data(long)]),
        denied(seen, Error::PathResolution(PathError::TooLong))
    );
    let seen = regs(82, [0x1000, 0x1100, 0, 0]);
    let t = entering(Architecture::X86_64, seen);
    assert_eq!(
        enter(&t, &[data(b"/guest/a"), data(b"/tmp/b")]),
        denied(seen, Error::PathResolution(PathError::NoBinding))
    );
}

#[test]
fn a_denied_syscall_reports_its_error_at_exit() {
    let seen = regs(80, [0x1000, 0, 0, 0]);
    let mut t = entering(Architecture::X86_64, seen);
    t.denied = Some(Error::PathResolution(PathError::NoBinding));
    let mut after = seen;
    after.sys_num = VOID_SYSCALL;
    after.result = Errno::ENOSYS.as_result();
    t.show(after);
    let step = exit(&t, &[]);
    assert_eq!(
        step,
        ExitStep::Done(ExitOutcome {
            result: SyscallExitResult::Error(Error::PathResolution(PathError::NoBinding)),
            writes: vec![],
            inconsistency: None,
        })
    );
    let mut committed = after;
    SyscallExitResult::Error(Error::PathResolution(PathError::NoBinding)).apply(&mut committed);
    assert_eq!(committed.result as i64, -2);
}

#[test]
fn no_room_for_scratch_denies_the_syscall() {
    let mut seen = regs(80, [0x1000, 0, 0, 0]);
    seen.stack_pointer = 130;
    let t = entering(Architecture::X86_64, seen);
    assert_eq!(enter(&t, &[data(b"/guest/data")]), denied(seen, Error::Kernel(Errno::ENOMEM)));
}

#[test]
fn a_path_that_cannot_be_read_lets_the_syscall_through() {
    let seen = regs(80, [0x1000, 0, 0, 0]);
    let t = entering(Architecture::X86_64, seen);
    assert_eq!(enter(&t, &[Fetched::Fault]), passed(seen));
    assert_eq!(enter(&t, &[data(b"relative/dir")]), passed(seen));
    assert_eq!(enter(&t, &[data(b"")]), passed(seen));
}

#[test]
fn unsupported_syscall_passes_through() {
    for number in [0u64, 1, 39, 231, 9999, u64::MAX] {
        let seen = regs(number, [1, 2, 3, 4]);
        let t = entering(Architecture::X86_64, seen);
        assert_eq!(enter(&t, &[]), passed(seen));
        let t = leaving(Architecture::X86_64, seen, 77);
        assert_eq!(exit(&t, &[]), untouched());
    }
    let mut kept = regs(0, [1, 2, 3, 4]);
    let before = kept;
    SyscallExitResult::NoChange.apply(&mut kept);
    assert_eq!(kept, before);
    SyscallExitResult::Value(0).apply(&mut kept);
    assert_eq!(kept.result, 0);
    kept.result = 5;
    SyscallExitResult::NoChange.apply(&mut kept);
    assert_eq!(kept.result, 5);
    SyscallExitResult::Value(0).apply(&mut kept);
    assert_eq!(kept.result, 0);
}

#[test]
fn groups_without_translation_are_left_alone() {
    for number in [12u64, 61, 101, 59] {
        let seen = regs(number, [1, 2, 3, 4]);
        let t = leaving(Architecture::X86_64, seen, 0);
        assert_eq!(exit(&t, &[]), untouched());
    }
    for number in [12u64, 61, 101, 79, 63] {
        let seen = regs(number, [1, 2, 3, 4]);
        let t = entering(Architecture::X86_64, seen);
        assert_eq!(enter(&t, &[]), passed(seen));
    }
}

#[test]
fn uname_release_is_rewritten_where_the_layout_is_known() {
    let identity = Identity { release: Some(b"5.10.0-guest".to_vec()) };
    let seen = regs(63, [0x5000, 0, 0, 0]);
    let t = leaving(Architecture::X86_64, seen, 0);
    let step = syscall_engine::kernel::exit::translate(&t, &table(), &identity, &vec![]);
    let mut field = b"5.10.0-guest".to_vec();
    field.resize(65, 0);
    assert_eq!(
        step,
        ExitStep::Done(ExitOutcome {
            result: SyscallExitResult::NoChange,
            writes: vec![MemWrite { addr: 0x5000 + 130, bytes: field }],
            inconsistency: None,
        })
    );
    let failed = leaving(Architecture::X86_64, seen, Errno::EFAULT.as_result());
    assert_eq!(
        syscall_engine::kernel::exit::translate(&failed, &table(), &identity, &vec![]),
        untouched()
    );
    let seen = regs(160, [0x5000, 0, 0, 0]);
    let other = leaving(Architecture::Aarch64, seen, 0);
    assert_eq!(
        syscall_engine::kernel::exit::translate(&other, &table(), &identity, &vec![]),
        untouched()
    );
    assert_eq!(exit(&t, &[]), untouched());
}

#[test]
fn uname_release_is_cut_to_the_field() {
    let long = vec![b'x'; 100];
    let field = syscall_engine::kernel::uname::make_field(&long);
    assert_eq!(field.len(), 65);
    assert_eq!(&field[..64], &long[..64]);
    assert_eq!(field[64], 0);
}

#[test]
fn renaming_below_a_read_only_binding_is_denied() {
    let mut t = BindingTable::new();
    t.bind(b"/guest/ro".to_vec(), b"/srv/ro".to_vec(), true).unwrap();
    t.bind(b"/guest".to_vec(), b"/srv/rw".to_vec(), false).unwrap();
    assert!(t.is_write_protected(&b"/guest/ro/a".to_vec()));
    assert!(!t.is_write_protected(&b"/guest/a".to_vec()));
    assert!(!t.is_write_protected(&b"/elsewhere".to_vec()));
    let seen = regs(82, [0x1000, 0x1100, 0, 0]);
    let tracee = entering(Architecture::X86_64, seen);
    let step = syscall_engine::kernel::enter::translate(
        &tracee,
        &t,
        &vec![data(b"/guest/a"), data(b"/guest/ro/b")],
    );
    assert_eq!(step, denied(seen, Error::Kernel(Errno::EROFS)));
    assert_eq!(Errno::EROFS.code(), 30);
    // reading below it is fine
    let seen = regs(80, [0x1000, 0, 0, 0]);
    let tracee = entering(Architecture::X86_64, seen);
    let step = syscall_engine::kernel::enter::translate(&tracee, &t, &vec![data(b"/guest/ro")]);
    assert!(matches!(step, EnterStep::Done(EnterOutcome { denied: None, .. })));
}

#[test]
fn untidy_paths_are_tidied_before_they_are_translated() {
    let seen = regs(80, [0x1000, 0, 0, 0]);
    let t = entering(Architecture::X86_64, seen);
    let mut expected = seen;
    expected.arg1 = 0x7ffe_ff70;
    for p in [&b"/guest/data/"[..], b"//guest//data", b"/guest/./data/.", b"/./guest/data//"] {
        assert_eq!(
            enter(&t, &[data(p)]),
            EnterStep::Done(EnterOutcome {
                regs: expected,
                writes: vec![MemWrite { addr: 0x7ffe_ff70, bytes: b"/srv/real/data\0".to_vec() }],
                denied: None,
                note: None,
            })
        );
    }
    assert_eq!(
        enter(&t, &[data(b"/guest/data/..")]),
        denied(seen, Error::PathResolution(PathError::NotCanonical))
    );
    assert_eq!(enter(&t, &[data(b"////")]), denied(seen, Error::PathResolution(PathError::NoBinding)));
}

#[test]
fn the_working_number_decides_which_exit_translator_runs() {
    // entered as getcwd, left with a number of no group or with that of brk
    let seen = regs(79, [0x2000, 256, 0, 0]);
    for working in [100u64, 12, 9999, u64::MAX] {
        let mut t = entering(Architecture::X86_64, seen);
        let mut after = seen;
        after.sys_num = working;
        after.result = 15;
        t.show(after);
        assert_eq!(exit(&t, &[]), untouched());
        assert_eq!(exit(&t, &[data(b"/srv/real/data")]), untouched());
    }
    // entered under a number of no group, left with that of getcwd: the
    // getcwd translator runs, on the buffer that the entry snapshot names
    let seen = regs(100, [0x2000, 256, 0, 0]);
    let mut t = entering(Architecture::X86_64, seen);
    let mut after = seen;
    after.sys_num = 79;
    after.arg1 = 0x9999;
    after.result = 15;
    t.show(after);
    assert_eq!(exit(&t, &[]), ExitStep::Need(Request::CString { addr: 0x2000, max: 4096 }));
    assert_eq!(
        exit(&t, &[data(b"/srv/real/data")]),
        ExitStep::Done(ExitOutcome {
            result: SyscallExitResult::Value(12),
            writes: vec![MemWrite { addr: 0x2000, bytes: b"/guest/data\0".to_vec() }],
            inconsistency: None,
        })
    );
    // the same number means another group under another ABI
    let seen = regs(79, [0x2000, 256, 0, 0]);
    let t = leaving(Architecture::Aarch64, seen, 15);
    assert_eq!(exit(&t, &[]), untouched());
}

#[test]
fn a_denial_is_reported_whatever_the_working_number() {
    for working in [VOID_SYSCALL, 79, 100, 59] {
        let seen = regs(80, [0x1000, 0, 0, 0]);
        let mut t = entering(Architecture::X86_64, seen);
        t.denied = Some(Error::Kernel(Errno::ELOOP));
        let mut after = seen;
        after.sys_num = working;
        after.result = Errno::ENOSYS.as_result();
        t.show(after);
        assert_eq!(
            exit(&t, &[]),
            ExitStep::Done(ExitOutcome {
                result: SyscallExitResult::Error(Error::Kernel(Errno::ELOOP)),
                writes: vec![],
                inconsistency: None,
            })
        );
    }
}
