//! Translators for the syscalls that only carry paths: `chdir`, `rename`,
//! `renameat`, `readlink`, `readlinkat` and `getcwd`.

use vstd::prelude::*;
use crate::errors::{is_error_result, result_is_error, Errno, Error};
use crate::filesystem::{
    is_absolute, resolution, tidied, translation, write_protected, BindingTable, BindingView, Direction,
    PATH_MAX, SLASH,
};
use crate::kernel::enter::{
    denied, enter_denied, enter_rewritten, enter_unchanged, rewritten, unchanged, EnterStep,
    EnterStepView,
};
use crate::bytes::copy_range;
use crate::kernel::exit::{
    exit_inconsistent, exit_result, exit_rewrite, exit_unchanged, inconsistent, only_result,
    rewrite, ExitStep, ExitStepView, SyscallExitResult,
};
use crate::kernel::groups::SyscallGroup;
use crate::memory::{
    answer, answers, reserve, spec_reserve, terminated, with_terminator, Fetched, FetchedView,
    MemWrite, MemWriteView, Request, RequestView,
};
use crate::register::{RegisterSet, SysArg, Word};

verus! {

/// The argument slots that hold a path, for the groups that only carry
/// paths; empty for every other group.
pub open spec fn spec_path_slots(group: SyscallGroup) -> Seq<SysArg> {
    match group {
        SyscallGroup::Chdir => seq![SysArg::Arg1],
        SyscallGroup::Rename => seq![SysArg::Arg1, SysArg::Arg2],
        SyscallGroup::RenameAt => seq![SysArg::Arg2, SysArg::Arg4],
        SyscallGroup::ReadLink => seq![SysArg::Arg1],
        SyscallGroup::ReadLinkAt => seq![SysArg::Arg2],
        _ => Seq::empty(),
    }
}

/// The argument slots that hold a path.
pub fn path_slots(group: SyscallGroup) -> (slots: Vec<SysArg>)
    ensures
        slots@ == spec_path_slots(group),
{
    let mut slots: Vec<SysArg> = Vec::new();
    match group {
        SyscallGroup::Chdir | SyscallGroup::ReadLink => {
            slots.push(SysArg::Arg1);
        },
        SyscallGroup::Rename => {
            slots.push(SysArg::Arg1);
            slots.push(SysArg::Arg2);
        },
        SyscallGroup::RenameAt => {
            slots.push(SysArg::Arg2);
            slots.push(SysArg::Arg4);
        },
        SyscallGroup::ReadLinkAt => {
            slots.push(SysArg::Arg2);
        },
        _ => {},
    }
    assert(slots@ =~= spec_path_slots(group));
    slots
}

/// Whether the syscalls of a group change what their paths name.
pub open spec fn spec_modifies(group: SyscallGroup) -> bool {
    group == SyscallGroup::Rename || group == SyscallGroup::RenameAt
}

/// Whether the syscalls of a group change what their paths name.
pub fn modifies(group: SyscallGroup) -> (yes: bool)
    ensures
        yes == spec_modifies(group),
{
    match group {
        SyscallGroup::Rename | SyscallGroup::RenameAt => true,
        _ => false,
    }
}

/// What entering a path-carrying syscall leads to, from path number `k` on.
///
/// `entry` holds the registers as the tracee entered the syscall, `regs`
/// the registers rewritten so far, `writes` the strings placed so far, the
/// last of them just above `top`. `modifying` says whether the syscall
/// changes what its paths name.
///
/// Each path is asked for in turn. If one cannot be read, the syscall goes
/// through as it was entered. A relative path is left alone. An absolute
/// path is tidied and translated to the host: if that fails, if the syscall would
/// change something below a read-only binding, or if there is no room for
/// the result below `top`, the syscall is denied; otherwise the host path
/// is placed below `top` and the argument is pointed at it.
pub open spec fn paths_entered(
    table: Seq<BindingView>,
    entry: RegisterSet,
    slots: Seq<SysArg>,
    modifying: bool,
    fetched: Seq<FetchedView>,
    k: int,
    regs: RegisterSet,
    top: Word,
    writes: Seq<MemWriteView>,
) -> EnterStepView
    decreases slots.len() - k,
{
    if k < 0 || k >= slots.len() {
        enter_rewritten(regs, writes)
    } else if k >= fetched.len() {
        EnterStepView::Need(RequestView::CString { addr: entry.arg(slots[k]), max: PATH_MAX })
    } else {
        match fetched[k] {
            FetchedView::Fault => enter_unchanged(entry),
            FetchedView::Data(p) => if !is_absolute(p) {
                paths_entered(table, entry, slots, modifying, fetched, k + 1, regs, top, writes)
            } else {
                match resolution(table, p) {
                    Err(e) => enter_denied(entry, Error::PathResolution(e)),
                    Ok(host) => if modifying && write_protected(table, tidied(p)) {
                        enter_denied(entry, Error::Kernel(Errno::EROFS))
                    } else {
                        match spec_reserve(top, host.len() + 1) {
                            None => enter_denied(entry, Error::Kernel(Errno::ENOMEM)),
                            Some(addr) => paths_entered(
                                table,
                                entry,
                                slots,
                                modifying,
                                fetched,
                                k + 1,
                                regs.with_arg(slots[k], addr),
                                addr,
                                writes.push(MemWriteView { addr, bytes: terminated(host) }),
                            ),
                        }
                    },
                }
            },
        }
    }
}

/// Translates the path arguments in `slots` at syscall entry.
#[verifier::loop_isolation(false)]
pub fn enter_paths(
    table: &BindingTable,
    entry: RegisterSet,
    slots: &Vec<SysArg>,
    modifying: bool,
    top: Word,
    fetched: &Vec<Fetched>,
) -> (step: EnterStep)
    requires
        table.wf(),
    ensures
        step.deep_view() == paths_entered(
            table@,
            entry,
            slots@,
            modifying,
            answers(fetched),
            0,
            entry,
            top,
            Seq::empty(),
        ),
{
    let ghost goal = paths_entered(
        table@,
        entry,
        slots@,
        modifying,
        answers(fetched),
        0,
        entry,
        top,
        Seq::empty(),
    );
    let mut regs = entry;
    let mut top = top;
    let mut writes: Vec<MemWrite> = Vec::new();
    let mut k: usize = 0;
    assert(writes.deep_view() =~= Seq::<MemWriteView>::empty());
    while k < slots.len()
        invariant
            table.wf(),
            k <= slots.len(),
            goal == paths_entered(
                table@,
                entry,
                slots@,
                modifying,
                answers(fetched),
                k as int,
                regs,
                top,
                writes.deep_view(),
            ),
        decreases slots.len() - k,
    {
        let slot = slots[k];
        match answer(fetched, k) {
            None => {
                return EnterStep::Need(Request::CString { addr: entry.get_arg(slot), max: PATH_MAX });
            },
            Some(Fetched::Fault) => {
                return unchanged(entry);
            },
            Some(Fetched::Data(p)) => {
                if p.len() > 0 && p[0] == SLASH {
                    match table.resolve(p) {
                        Err(e) => {
                            return denied(entry, Error::PathResolution(e));
                        },
                        Ok((host, read_only)) => {
                            if modifying && read_only {
                                return denied(entry, Error::Kernel(Errno::EROFS));
                            }
                            match reserve(top, host.len() as u64 + 1) {
                                None => {
                                    return denied(entry, Error::Kernel(Errno::ENOMEM));
                                },
                                Some(addr) => {
                                    let bytes = with_terminator(&host);
                                    let ghost before = writes.deep_view();
                                    let ghost added = MemWriteView { addr, bytes: bytes@ };
                                    writes.push(MemWrite { addr, bytes });
                                    assert(writes.deep_view() =~= before.push(added));
                                    regs.set_arg(slot, addr);
                                    top = addr;
                                },
                            }
                        },
                    }
                }
            },
        }
        k += 1;
    }
    rewritten(regs, writes)
}

/// What leaving `getcwd` leads to.
///
/// The kernel has placed the working directory, a host path, in the buffer
/// that the first argument names and whose size the second argument gives.
/// The path is read and mapped back to the guest; the guest path replaces
/// it, and the result becomes its length with the terminator. A guest path
/// that does not fit in the buffer is reported as `ERANGE`. A host path that
/// the table cannot map back is an inconsistency, of which the tracee is
/// told nothing.
pub open spec fn getcwd_left(
    table: Seq<BindingView>,
    entry: RegisterSet,
    seen: RegisterSet,
    fetched: Seq<FetchedView>,
) -> ExitStepView {
    if is_error_result(seen.result) {
        exit_unchanged()
    } else if fetched.len() == 0 {
        ExitStepView::Need(RequestView::CString { addr: entry.arg1, max: PATH_MAX })
    } else {
        match fetched[0] {
            FetchedView::Fault => exit_unchanged(),
            FetchedView::Data(host) => match translation(table, Direction::ToGuest, host) {
                Err(e) => exit_inconsistent(e),
                Ok(guest) => if guest.len() + 1 > entry.arg2 {
                    exit_result(SyscallExitResult::Error(Error::Kernel(Errno::ERANGE)))
                } else {
                    exit_rewrite(
                        entry.arg1,
                        terminated(guest),
                        SyscallExitResult::Value((guest.len() + 1) as Word),
                    )
                },
            },
        }
    }
}

/// Translates the result of `getcwd`.
pub fn exit_getcwd(
    table: &BindingTable,
    entry: RegisterSet,
    seen: RegisterSet,
    fetched: &Vec<Fetched>,
) -> (step: ExitStep)
    requires
        table.wf(),
    ensures
        step.deep_view() == getcwd_left(table@, entry, seen, answers(fetched)),
{
    if result_is_error(seen.result) {
        return crate::kernel::exit::unchanged();
    }
    match answer(fetched, 0) {
        None => ExitStep::Need(Request::CString { addr: entry.arg1, max: PATH_MAX }),
        Some(Fetched::Fault) => crate::kernel::exit::unchanged(),
        Some(Fetched::Data(host)) => match table.to_guest(host) {
            Err(e) => inconsistent(e),
            Ok(guest) => {
                let needed: u64 = guest.len() as u64 + 1;
                if needed > entry.arg2 {
                    only_result(SyscallExitResult::Error(Error::Kernel(Errno::ERANGE)))
                } else {
                    rewrite(entry.arg1, with_terminator(&guest), SyscallExitResult::Value(needed))
                }
            },
        },
    }
}

/// What leaving `readlink` or `readlinkat` leads to, where the buffer for
/// the link target is at `buffer` and holds `size` bytes.
///
/// The kernel has placed the target of the link in the buffer, without a
/// terminator, and returned its length. If the target is a host path that
/// the table maps back to the guest, the guest path replaces it, cut to the
/// size of the buffer, and the result becomes the number of bytes placed.
/// Any other target is left as it is.
pub open spec fn readlink_left(
    table: Seq<BindingView>,
    buffer: Word,
    size: Word,
    seen: RegisterSet,
    fetched: Seq<FetchedView>,
) -> ExitStepView {
    if is_error_result(seen.result) || seen.result >= PATH_MAX {
        exit_unchanged()
    } else if fetched.len() == 0 {
        ExitStepView::Need(RequestView::Bytes { addr: buffer, len: seen.result as usize })
    } else {
        match fetched[0] {
            FetchedView::Fault => exit_unchanged(),
            FetchedView::Data(target) => match translation(table, Direction::ToGuest, target) {
                Err(_) => exit_unchanged(),
                Ok(guest) => {
                    let placed = if guest.len() <= size {
                        guest.len() as int
                    } else {
                        size as int
                    };
                    exit_rewrite(
                        buffer,
                        guest.subrange(0, placed),
                        SyscallExitResult::Value(placed as Word),
                    )
                },
            },
        }
    }
}

/// Translates the result of `readlink` or `readlinkat`.
pub fn exit_readlink(
    table: &BindingTable,
    buffer: Word,
    size: Word,
    seen: RegisterSet,
    fetched: &Vec<Fetched>,
) -> (step: ExitStep)
    requires
        table.wf(),
    ensures
        step.deep_view() == readlink_left(table@, buffer, size, seen, answers(fetched)),
{
    if result_is_error(seen.result) || seen.result >= PATH_MAX as u64 {
        return crate::kernel::exit::unchanged();
    }
    match answer(fetched, 0) {
        None => ExitStep::Need(Request::Bytes { addr: buffer, len: seen.result as usize }),
        Some(Fetched::Fault) => crate::kernel::exit::unchanged(),
        Some(Fetched::Data(target)) => match table.to_guest(target) {
            Err(_) => crate::kernel::exit::unchanged(),
            Ok(guest) => {
                let placed: usize = if guest.len() as u64 <= size {
                    guest.len()
                } else {
                    size as usize
                };
                rewrite(
                    buffer,
                    copy_range(&guest, 0, placed),
                    SyscallExitResult::Value(placed as u64),
                )
            },
        },
    }
}

} // verus!
