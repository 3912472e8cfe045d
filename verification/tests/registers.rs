use syscall_engine::errors::{result_is_error, Errno, Error, ProtocolViolation};
use syscall_engine::filesystem::PathError;
use syscall_engine::memory::{reserve, scratch_top};
use syscall_engine::register::{RegVersion, RegisterSet, Registers, SysArg};

fn sample() -> RegisterSet {
    RegisterSet {
        sys_num: 80,
        arg1: 11,
        arg2: 12,
        arg3: 13,
        arg4: 14,
        arg5: 15,
        arg6: 16,
        result: 0,
        stack_pointer: 0x7fff_0000,
    }
}

#[test]
fn writes_go_to_the_working_copy_only() {
    let mut regs = Registers::capture(sample());
    regs.set_arg(SysArg::Arg1, 0xdead);
    regs.set_arg(SysArg::Arg6, 0xbeef);
    regs.set_sys_num(1);
    regs.set_result(77);
    assert_eq!(regs.get(RegVersion::Original), sample());
    assert_eq!(regs.get_arg(RegVersion::Current, SysArg::Arg1), 0xdead);
    assert_eq!(regs.get_arg(RegVersion::Current, SysArg::Arg2), 12);
    assert_eq!(regs.get_arg(RegVersion::Current, SysArg::Arg6), 0xbeef);
    assert_eq!(regs.get_arg(RegVersion::Original, SysArg::Arg1), 11);
    assert_eq!(regs.get_sys_num(RegVersion::Current), 1);
    assert_eq!(regs.get_sys_num(RegVersion::Original), 80);
    assert_eq!(regs.get_result(RegVersion::Current), 77);
    assert_eq!(regs.get_result(RegVersion::Original), 0);
    assert_eq!(regs.get_stack_pointer(RegVersion::Current), 0x7fff_0000);
}

#[test]
fn each_argument_slot_is_its_own() {
    let slots = [
        SysArg::Arg1,
        SysArg::Arg2,
        SysArg::Arg3,
        SysArg::Arg4,
        SysArg::Arg5,
        SysArg::Arg6,
    ];
    for (i, slot) in slots.iter().enumerate() {
        assert_eq!(slot.index(), i);
        let mut set = sample();
        set.set_arg(*slot, 999);
        for (j, other) in slots.iter().enumerate() {
            let expected = if i == j { 999 } else { 11 + j as u64 };
            assert_eq!(set.get_arg(*other), expected);
        }
        assert_eq!(set.sys_num, 80);
        assert_eq!(set.result, 0);
    }
}

#[test]
fn refresh_keeps_the_entry_snapshot() {
    let mut regs = Registers::capture(sample());
    let mut later = sample();
    later.result = 5;
    regs.refresh(later);
    assert_eq!(regs.get(RegVersion::Original), sample());
    assert_eq!(regs.get(RegVersion::Current), later);
}

#[test]
fn errno_values_and_result_encoding() {
    assert_eq!(Errno::EPERM.code(), 1);
    assert_eq!(Errno::ENOENT.code(), 2);
    assert_eq!(Errno::E2BIG.code(), 7);
    assert_eq!(Errno::ENOEXEC.code(), 8);
    assert_eq!(Errno::ENOMEM.code(), 12);
    assert_eq!(Errno::ERANGE.code(), 34);
    assert_eq!(Errno::ENAMETOOLONG.code(), 36);
    assert_eq!(Errno::ELOOP.code(), 40);
    assert_eq!(Errno::ENOENT.as_result(), (-2i64) as u64);
    assert_eq!(Errno::ELOOP.as_result(), (-40i64) as u64);
    assert!(result_is_error((-1i64) as u64));
    assert!(result_is_error((-4095i64) as u64));
    assert!(!result_is_error((-4096i64) as u64));
    assert!(!result_is_error(0));
    assert!(!result_is_error(12));
}

#[test]
fn every_error_has_its_errno() {
    assert_eq!(Error::PathResolution(PathError::NoBinding).errno(), Errno::ENOENT);
    assert_eq!(Error::PathResolution(PathError::NotCanonical).errno(), Errno::ENOENT);
    assert_eq!(Error::PathResolution(PathError::TooLong).errno(), Errno::ENAMETOOLONG);
    assert_eq!(Error::Protocol(ProtocolViolation::DoubleEnter).errno(), Errno::EPERM);
    assert_eq!(Error::RegisterAccess.errno(), Errno::ESRCH);
    assert_eq!(Error::Kernel(Errno::ERANGE).errno(), Errno::ERANGE);
}

#[test]
fn scratch_buffers_lie_below_the_red_zone_and_are_aligned() {
    assert_eq!(scratch_top(0x7fff_0000), 0x7ffe_ff80);
    assert_eq!(scratch_top(100), 0);
    assert_eq!(reserve(0x7ffe_ff80, 15), Some(0x7ffe_ff70));
    assert_eq!(reserve(0x7ffe_ff70, 16), Some(0x7ffe_ff60));
    assert_eq!(reserve(0x7ffe_ff70, 17), Some(0x7ffe_ff50));
    assert_eq!(reserve(10, 11), None);
    assert_eq!(reserve(0, 1), None);
    assert_eq!(reserve(0, 0), Some(0));
}
