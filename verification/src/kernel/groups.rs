//! From a syscall number to the translation contract that applies to it.

use vstd::prelude::*;
use crate::arch::Architecture;
use crate::register::Word;

verus! {

/// The syscalls the engine knows by name.
#[derive(Clone, Copy, Debug, PartialEq, Eq, Structural)]
pub enum Syscall {
    Execve,
    Ptrace,
    Wait4,
    Waitpid,
    Brk,
    Getcwd,
    Chdir,
    Bind,
    Connect,
    Accept,
    Accept4,
    Getsockname,
    Getpeername,
    Socketcall,
    Rename,
    Renameat,
    Renameat2,
    Readlink,
    Readlinkat,
    Uname,
}

/// The translation contract that applies to a syscall.
#[derive(Clone, Copy, Debug, PartialEq, Eq, Structural)]
pub enum SyscallGroup {
    /// Everything the engine does not translate.
    Ignored,
    Execve,
    Ptrace,
    Wait,
    Brk,
    GetCwd,
    Chdir,
    BindConnect,
    Accept,
    GetSockOrPeerName,
    SocketCall,
    Rename,
    RenameAt,
    ReadLink,
    ReadLinkAt,
    Uname,
}

/// The numbering table: the number under which an ABI offers a syscall, if
/// it offers it at all.
pub open spec fn number_of(arch: Architecture, call: Syscall) -> Option<int> {
    match arch {
        Architecture::X86_64 => match call {
            Syscall::Execve => Some(59),
            Syscall::Ptrace => Some(101),
            Syscall::Wait4 => Some(61),
            Syscall::Waitpid => None,
            Syscall::Brk => Some(12),
            Syscall::Getcwd => Some(79),
            Syscall::Chdir => Some(80),
            Syscall::Bind => Some(49),
            Syscall::Connect => Some(42),
            Syscall::Accept => Some(43),
            Syscall::Accept4 => Some(288),
            Syscall::Getsockname => Some(51),
            Syscall::Getpeername => Some(52),
            Syscall::Socketcall => None,
            Syscall::Rename => Some(82),
            Syscall::Renameat => Some(264),
            Syscall::Renameat2 => Some(316),
            Syscall::Readlink => Some(89),
            Syscall::Readlinkat => Some(267),
            Syscall::Uname => Some(63),
        },
        Architecture::X86 => match call {
            Syscall::Execve => Some(11),
            Syscall::Ptrace => Some(26),
            Syscall::Wait4 => Some(114),
            Syscall::Waitpid => Some(7),
            Syscall::Brk => Some(45),
            Syscall::Getcwd => Some(183),
            Syscall::Chdir => Some(12),
            Syscall::Bind => Some(361),
            Syscall::Connect => Some(362),
            Syscall::Accept => None,
            Syscall::Accept4 => Some(364),
            Syscall::Getsockname => Some(367),
            Syscall::Getpeername => Some(368),
            Syscall::Socketcall => Some(102),
            Syscall::Rename => Some(38),
            Syscall::Renameat => Some(302),
            Syscall::Renameat2 => Some(353),
            Syscall::Readlink => Some(85),
            Syscall::Readlinkat => Some(305),
            Syscall::Uname => Some(122),
        },
        Architecture::Arm => match call {
            Syscall::Execve => Some(11),
            Syscall::Ptrace => Some(26),
            Syscall::Wait4 => Some(114),
            Syscall::Waitpid => None,
            Syscall::Brk => Some(45),
            Syscall::Getcwd => Some(183),
            Syscall::Chdir => Some(12),
            Syscall::Bind => Some(282),
            Syscall::Connect => Some(283),
            Syscall::Accept => Some(285),
            Syscall::Accept4 => Some(366),
            Syscall::Getsockname => Some(286),
            Syscall::Getpeername => Some(287),
            Syscall::Socketcall => None,
            Syscall::Rename => Some(38),
            Syscall::Renameat => Some(329),
            Syscall::Renameat2 => Some(382),
            Syscall::Readlink => Some(85),
            Syscall::Readlinkat => Some(332),
            Syscall::Uname => Some(122),
        },
        Architecture::Aarch64 => match call {
            Syscall::Execve => Some(221),
            Syscall::Ptrace => Some(117),
            Syscall::Wait4 => Some(260),
            Syscall::Waitpid => None,
            Syscall::Brk => Some(214),
            Syscall::Getcwd => Some(17),
            Syscall::Chdir => Some(49),
            Syscall::Bind => Some(200),
            Syscall::Connect => Some(203),
            Syscall::Accept => Some(202),
            Syscall::Accept4 => Some(242),
            Syscall::Getsockname => Some(204),
            Syscall::Getpeername => Some(205),
            Syscall::Socketcall => None,
            Syscall::Rename => None,
            Syscall::Renameat => Some(38),
            Syscall::Renameat2 => Some(276),
            Syscall::Readlink => None,
            Syscall::Readlinkat => Some(78),
            Syscall::Uname => Some(160),
        },
    }
}

/// The group a named syscall belongs to.
pub open spec fn group_of(call: Syscall) -> SyscallGroup {
    match call {
        Syscall::Execve => SyscallGroup::Execve,
        Syscall::Ptrace => SyscallGroup::Ptrace,
        Syscall::Wait4 | Syscall::Waitpid => SyscallGroup::Wait,
        Syscall::Brk => SyscallGroup::Brk,
        Syscall::Getcwd => SyscallGroup::GetCwd,
        Syscall::Chdir => SyscallGroup::Chdir,
        Syscall::Bind | Syscall::Connect => SyscallGroup::BindConnect,
        Syscall::Accept | Syscall::Accept4 => SyscallGroup::Accept,
        Syscall::Getsockname | Syscall::Getpeername => SyscallGroup::GetSockOrPeerName,
        Syscall::Socketcall => SyscallGroup::SocketCall,
        Syscall::Rename => SyscallGroup::Rename,
        Syscall::Renameat | Syscall::Renameat2 => SyscallGroup::RenameAt,
        Syscall::Readlink => SyscallGroup::ReadLink,
        Syscall::Readlinkat => SyscallGroup::ReadLinkAt,
        Syscall::Uname => SyscallGroup::Uname,
    }
}

/// Whether an ABI offers a named syscall under the given number.
pub open spec fn names(arch: Architecture, number: Word, call: Syscall) -> bool {
    number_of(arch, call) == Some(number as int)
}

/// Whether the engine knows the syscall behind a number.
pub open spec fn is_known(arch: Architecture, number: Word) -> bool {
    exists|call: Syscall| names(arch, number, call)
}

/// The group of a syscall number: that of the syscall it names, and
/// `Ignored` where it names none the engine knows.
pub open spec fn spec_classify(number: Word, arch: Architecture) -> SyscallGroup {
    if is_known(arch, number) {
        group_of(choose|call: Syscall| names(arch, number, call))
    } else {
        SyscallGroup::Ignored
    }
}

/// No ABI gives two syscalls the same number.
pub proof fn lemma_numbering_is_injective(arch: Architecture, a: Syscall, b: Syscall)
    requires
        number_of(arch, a) is Some,
        number_of(arch, a) == number_of(arch, b),
    ensures
        a == b,
{
}

/// A number that names a syscall is classified by that syscall's group.
pub proof fn lemma_classify_named(arch: Architecture, number: Word, call: Syscall)
    requires
        names(arch, number, call),
    ensures
        spec_classify(number, arch) == group_of(call),
{
    let chosen = choose|c: Syscall| names(arch, number, c);
    lemma_numbering_is_injective(arch, call, chosen);
}

impl Syscall {
    /// The group this syscall belongs to.
    pub fn group(self) -> (group: SyscallGroup)
        ensures
            group == group_of(self),
    {
        match self {
            Syscall::Execve => SyscallGroup::Execve,
            Syscall::Ptrace => SyscallGroup::Ptrace,
            Syscall::Wait4 | Syscall::Waitpid => SyscallGroup::Wait,
            Syscall::Brk => SyscallGroup::Brk,
            Syscall::Getcwd => SyscallGroup::GetCwd,
            Syscall::Chdir => SyscallGroup::Chdir,
            Syscall::Bind | Syscall::Connect => SyscallGroup::BindConnect,
            Syscall::Accept | Syscall::Accept4 => SyscallGroup::Accept,
            Syscall::Getsockname | Syscall::Getpeername => SyscallGroup::GetSockOrPeerName,
            Syscall::Socketcall => SyscallGroup::SocketCall,
            Syscall::Rename => SyscallGroup::Rename,
            Syscall::Renameat | Syscall::Renameat2 => SyscallGroup::RenameAt,
            Syscall::Readlink => SyscallGroup::ReadLink,
            Syscall::Readlinkat => SyscallGroup::ReadLinkAt,
            Syscall::Uname => SyscallGroup::Uname,
        }
    }
}

/// The syscall that `number` names under the ABI `arch`, if the engine knows
/// it.
pub fn identify(number: Word, arch: Architecture) -> (found: Option<Syscall>)
    ensures
        match found {
            Some(call) => names(arch, number, call),
            None => !is_known(arch, number),
        },
{
    match arch {
        Architecture::X86_64 => match number {
            59 => Some(Syscall::Execve),
            101 => Some(Syscall::Ptrace),
            61 => Some(Syscall::Wait4),
            12 => Some(Syscall::Brk),
            79 => Some(Syscall::Getcwd),
            80 => Some(Syscall::Chdir),
            49 => Some(Syscall::Bind),
            42 => Some(Syscall::Connect),
            43 => Some(Syscall::Accept),
            288 => Some(Syscall::Accept4),
            51 => Some(Syscall::Getsockname),
            52 => Some(Syscall::Getpeername),
            82 => Some(Syscall::Rename),
            264 => Some(Syscall::Renameat),
            316 => Some(Syscall::Renameat2),
            89 => Some(Syscall::Readlink),
            267 => Some(Syscall::Readlinkat),
            63 => Some(Syscall::Uname),
            _ => None,
        },
        Architecture::X86 => match number {
            11 => Some(Syscall::Execve),
            26 => Some(Syscall::Ptrace),
            114 => Some(Syscall::Wait4),
            7 => Some(Syscall::Waitpid),
            45 => Some(Syscall::Brk),
            183 => Some(Syscall::Getcwd),
            12 => Some(Syscall::Chdir),
            361 => Some(Syscall::Bind),
            362 => Some(Syscall::Connect),
            364 => Some(Syscall::Accept4),
            367 => Some(Syscall::Getsockname),
            368 => Some(Syscall::Getpeername),
            102 => Some(Syscall::Socketcall),
            38 => Some(Syscall::Rename),
            302 => Some(Syscall::Renameat),
            353 => Some(Syscall::Renameat2),
            85 => Some(Syscall::Readlink),
            305 => Some(Syscall::Readlinkat),
            122 => Some(Syscall::Uname),
            _ => None,
        },
        Architecture::Arm => match number {
            11 => Some(Syscall::Execve),
            26 => Some(Syscall::Ptrace),
            114 => Some(Syscall::Wait4),
            45 => Some(Syscall::Brk),
            183 => Some(Syscall::Getcwd),
            12 => Some(Syscall::Chdir),
            282 => Some(Syscall::Bind),
            283 => Some(Syscall::Connect),
            285 => Some(Syscall::Accept),
            366 => Some(Syscall::Accept4),
            286 => Some(Syscall::Getsockname),
            287 => Some(Syscall::Getpeername),
            38 => Some(Syscall::Rename),
            329 => Some(Syscall::Renameat),
            382 => Some(Syscall::Renameat2),
            85 => Some(Syscall::Readlink),
            332 => Some(Syscall::Readlinkat),
            122 => Some(Syscall::Uname),
            _ => None,
        },
        Architecture::Aarch64 => match number {
            221 => Some(Syscall::Execve),
            117 => Some(Syscall::Ptrace),
            260 => Some(Syscall::Wait4),
            214 => Some(Syscall::Brk),
            17 => Some(Syscall::Getcwd),
            49 => Some(Syscall::Chdir),
            200 => Some(Syscall::Bind),
            203 => Some(Syscall::Connect),
            202 => Some(Syscall::Accept),
            242 => Some(Syscall::Accept4),
            204 => Some(Syscall::Getsockname),
            205 => Some(Syscall::Getpeername),
            38 => Some(Syscall::Renameat),
            276 => Some(Syscall::Renameat2),
            78 => Some(Syscall::Readlinkat),
            160 => Some(Syscall::Uname),
            _ => None,
        },
    }
}

/// The group of the syscall number `number` under the ABI `arch`.
///
/// Total: a number that names nothing the engine translates is `Ignored`.
/// The answer depends on the two arguments alone.
pub fn classify(number: Word, arch: Architecture) -> (group: SyscallGroup)
    ensures
        group == spec_classify(number, arch),
        forall|call: Syscall| names(arch, number, call) ==> group == group_of(call),
        !is_known(arch, number) ==> group == SyscallGroup::Ignored,
{
    match identify(number, arch) {
        Some(call) => {
            proof {
                lemma_classify_named(arch, number, call);
                assert forall|other: Syscall| names(arch, number, other) implies group_of(call)
                    == group_of(other) by {
                    lemma_numbering_is_injective(arch, call, other);
                }
            }
            call.group()
        },
        None => SyscallGroup::Ignored,
    }
}

} // verus!
