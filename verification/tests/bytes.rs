use syscall_engine::arch::Architecture;
use syscall_engine::bytes::{copy_of, copy_range, has_prefix, push_from, same};
use syscall_engine::filesystem::check_root;
use syscall_engine::kernel::groups::SyscallGroup;
use syscall_engine::kernel::standard::{modifies, path_slots};
use syscall_engine::memory::{answer, with_terminator, Fetched};
use syscall_engine::register::SysArg;

#[test]
fn byte_strings_compare_and_copy() {
    let a = b"hello".to_vec();
    assert!(same(&a, &b"hello".to_vec()));
    assert!(!same(&a, &b"hellO".to_vec()));
    assert!(!same(&a, &b"hell".to_vec()));
    assert!(same(&vec![], &vec![]));
    assert!(has_prefix(&a, &b"he".to_vec()));
    assert!(has_prefix(&a, &a));
    assert!(has_prefix(&a, &vec![]));
    assert!(!has_prefix(&a, &b"hello!".to_vec()));
    assert!(!has_prefix(&a, &b"ha".to_vec()));
    assert_eq!(copy_of(&a), a);
    assert_eq!(copy_range(&a, 1, 3), b"el".to_vec());
    assert_eq!(copy_range(&a, 5, 5), vec![]);
    let mut out = b"ab".to_vec();
    push_from(&mut out, &a, 3);
    assert_eq!(out, b"ablo".to_vec());
    push_from(&mut out, &a, 5);
    assert_eq!(out, b"ablo".to_vec());
    assert_eq!(with_terminator(&a), b"hello\0".to_vec());
    assert_eq!(with_terminator(&vec![]), vec![0]);
}

#[test]
fn answers_are_found_by_position() {
    let fetched = vec![Fetched::Data(vec![1]), Fetched::Fault];
    assert_eq!(answer(&fetched, 0), Some(&Fetched::Data(vec![1])));
    assert_eq!(answer(&fetched, 1), Some(&Fetched::Fault));
    assert_eq!(answer(&fetched, 2), None);
}

#[test]
fn architectures_have_their_word_sizes() {
    assert_eq!(Architecture::X86_64.word_size(), 8);
    assert_eq!(Architecture::Aarch64.word_size(), 8);
    assert_eq!(Architecture::X86.word_size(), 4);
    assert_eq!(Architecture::Arm.word_size(), 4);
    assert!(Architecture::X86_64.knows_utsname());
    assert!(!Architecture::X86.knows_utsname());
    assert!(!Architecture::Arm.knows_utsname());
    assert!(!Architecture::Aarch64.knows_utsname());
}

#[test]
fn path_groups_name_their_slots() {
    assert_eq!(path_slots(SyscallGroup::Chdir), vec![SysArg::Arg1]);
    assert_eq!(path_slots(SyscallGroup::ReadLink), vec![SysArg::Arg1]);
    assert_eq!(path_slots(SyscallGroup::ReadLinkAt), vec![SysArg::Arg2]);
    assert_eq!(path_slots(SyscallGroup::Rename), vec![SysArg::Arg1, SysArg::Arg2]);
    assert_eq!(path_slots(SyscallGroup::RenameAt), vec![SysArg::Arg2, SysArg::Arg4]);
    for group in [SyscallGroup::Ignored, SyscallGroup::Execve, SyscallGroup::GetCwd, SyscallGroup::Brk] {
        assert_eq!(path_slots(group), vec![]);
        assert!(!modifies(group));
    }
    assert!(modifies(SyscallGroup::Rename));
    assert!(modifies(SyscallGroup::RenameAt));
    assert!(!modifies(SyscallGroup::Chdir));
    assert!(check_root(&b"/".to_vec()));
    assert!(!check_root(&b"/a".to_vec()));
    assert!(!check_root(&vec![]));
}
