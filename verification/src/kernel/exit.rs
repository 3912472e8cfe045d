//! Translation at the syscall-exit stop.

use vstd::prelude::*;
use crate::errors::{is_error_result, Error};
use crate::filesystem::{BindingTable, BindingView, PathError};
use crate::kernel::groups::{classify, spec_classify, SyscallGroup};
use crate::kernel::socket::{exit_receive, exit_socketcall, receive_left, socketcall_left};
use crate::kernel::standard::{exit_getcwd, exit_readlink, getcwd_left, readlink_left};
use crate::kernel::uname::{exit_uname, release_of, uname_left, Identity};
use crate::memory::{answers, Fetched, FetchedView, MemWrite, MemWriteView, Request, RequestView};
use crate::process::tracee::Tracee;
use crate::register::{RegVersion, RegisterSet, Word};

verus! {

/// What an exit translator wants done with the result register.
#[derive(Clone, Copy, Debug, PartialEq, Eq, Structural)]
pub enum SyscallExitResult {
    /// A new value for the result register that is not an error.
    Value(Word),
    /// An error: the result register is set to minus its error number.
    Error(Error),
    /// The result register is left as the kernel set it.
    NoChange,
}

impl SyscallExitResult {
    /// The registers after this result has been committed to `regs`.
    ///
    /// `NoChange` leaves every register as it is; it does not store a zero.
    pub open spec fn applied(self, regs: RegisterSet) -> RegisterSet {
        match self {
            SyscallExitResult::Value(v) => regs.with_result(v),
            SyscallExitResult::Error(e) => regs.with_result(e.spec_errno().spec_as_result()),
            SyscallExitResult::NoChange => regs,
        }
    }

    /// Commits this result to `regs`.
    pub fn apply(self, regs: &mut RegisterSet)
        ensures
            *final(regs) == self.applied(*old(regs)),
    {
        match self {
            SyscallExitResult::Value(v) => {
                regs.result = v;
            },
            SyscallExitResult::Error(e) => {
                regs.result = e.errno().as_result();
            },
            SyscallExitResult::NoChange => {},
        }
    }
}

/// Everything an exit translator decides.
#[derive(Clone, Debug, PartialEq, Eq)]
pub struct ExitOutcome {
    /// What to do with the result register.
    pub result: SyscallExitResult,
    /// Bytes to place in the tracee.
    pub writes: Vec<MemWrite>,
    /// Set when the kernel returned a path that the binding table cannot
    /// map back. The tracee is told nothing of it.
    pub inconsistency: Option<PathError>,
}

/// An exit outcome as contracts see it.
pub ghost struct ExitOutcomeView {
    pub result: SyscallExitResult,
    pub writes: Seq<MemWriteView>,
    pub inconsistency: Option<PathError>,
}

impl DeepView for ExitOutcome {
    type V = ExitOutcomeView;

    open spec fn deep_view(&self) -> ExitOutcomeView {
        ExitOutcomeView {
            result: self.result,
            writes: self.writes.deep_view(),
            inconsistency: self.inconsistency,
        }
    }
}

/// One step of an exit translation.
#[derive(Clone, Debug, PartialEq, Eq)]
pub enum ExitStep {
    /// The translator needs to see more before it can decide.
    Need(Request),
    /// The translator has decided.
    Done(ExitOutcome),
}

/// A step as contracts see it.
pub ghost enum ExitStepView {
    Need(RequestView),
    Done(ExitOutcomeView),
}

impl DeepView for ExitStep {
    type V = ExitStepView;

    open spec fn deep_view(&self) -> ExitStepView {
        match *self {
            ExitStep::Need(r) => ExitStepView::Need(r.deep_view()),
            ExitStep::Done(o) => ExitStepView::Done(o.deep_view()),
        }
    }
}

/// The outcome that changes nothing.
pub open spec fn exit_unchanged() -> ExitStepView {
    ExitStepView::Done(
        ExitOutcomeView {
            result: SyscallExitResult::NoChange,
            writes: Seq::empty(),
            inconsistency: None,
        },
    )
}

/// The outcome that only sets the result register.
pub open spec fn exit_result(result: SyscallExitResult) -> ExitStepView {
    ExitStepView::Done(ExitOutcomeView { result, writes: Seq::empty(), inconsistency: None })
}

/// The outcome that reports a path the binding table cannot map back.
pub open spec fn exit_inconsistent(e: PathError) -> ExitStepView {
    ExitStepView::Done(
        ExitOutcomeView {
            result: SyscallExitResult::NoChange,
            writes: Seq::empty(),
            inconsistency: Some(e),
        },
    )
}

/// The outcome that places `bytes` at `addr` and sets the result register.
pub open spec fn exit_rewrite(addr: Word, bytes: Seq<u8>, result: SyscallExitResult) -> ExitStepView {
    ExitStepView::Done(
        ExitOutcomeView {
            result,
            writes: seq![MemWriteView { addr, bytes }],
            inconsistency: None,
        },
    )
}

/// Builds the outcome that changes nothing.
pub fn unchanged() -> (step: ExitStep)
    ensures
        step.deep_view() == exit_unchanged(),
{
    let writes: Vec<MemWrite> = Vec::new();
    assert(writes.deep_view() =~= Seq::<MemWriteView>::empty());
    ExitStep::Done(ExitOutcome { result: SyscallExitResult::NoChange, writes, inconsistency: None })
}

/// Builds the outcome that only sets the result register.
pub fn only_result(result: SyscallExitResult) -> (step: ExitStep)
    ensures
        step.deep_view() == exit_result(result),
{
    let writes: Vec<MemWrite> = Vec::new();
    assert(writes.deep_view() =~= Seq::<MemWriteView>::empty());
    ExitStep::Done(ExitOutcome { result, writes, inconsistency: None })
}

/// Builds the outcome that reports a path the table cannot map back.
pub fn inconsistent(e: PathError) -> (step: ExitStep)
    ensures
        step.deep_view() == exit_inconsistent(e),
{
    let writes: Vec<MemWrite> = Vec::new();
    assert(writes.deep_view() =~= Seq::<MemWriteView>::empty());
    ExitStep::Done(ExitOutcome { result: SyscallExitResult::NoChange, writes, inconsistency: Some(e) })
}

/// Builds the outcome that places `bytes` at `addr` and sets the result
/// register.
pub fn rewrite(addr: Word, bytes: Vec<u8>, result: SyscallExitResult) -> (step: ExitStep)
    ensures
        step.deep_view() == exit_rewrite(addr, bytes@, result),
{
    let mut writes: Vec<MemWrite> = Vec::new();
    let ghost view = MemWriteView { addr, bytes: bytes@ };
    writes.push(MemWrite { addr, bytes });
    assert(writes.deep_view() =~= seq![view]);
    ExitStep::Done(ExitOutcome { result, writes, inconsistency: None })
}

/// What leaving a syscall leads to, given the answers so far.
///
/// A syscall that was denied at entry has its error reported, whatever its
/// group. Otherwise the syscall is classified by the number in the working
/// registers of the tracee, those it left the syscall with: `getcwd` and
/// the two `readlink`s have the path that the kernel returned mapped back
/// to the guest, and so have the socket groups that get an address back;
/// `uname` has its release rewritten; every other group is left alone.
/// What the tracee asked for, where its buffers are and how large, is read
/// from the entry snapshot.
pub open spec fn exit_translation(
    table: Seq<BindingView>,
    release: Option<Seq<u8>>,
    tracee: Tracee,
    fetched: Seq<FetchedView>,
) -> ExitStepView {
    let entry = tracee.regs.original();
    let seen = tracee.regs.current();
    match tracee.denied {
        Some(e) => exit_result(SyscallExitResult::Error(e)),
        None => match spec_classify(seen.sys_num, tracee.arch) {
            SyscallGroup::GetCwd => getcwd_left(table, entry, seen, fetched),
            SyscallGroup::ReadLink => readlink_left(table, entry.arg2, entry.arg3, seen, fetched),
            SyscallGroup::ReadLinkAt => readlink_left(
                table,
                entry.arg3,
                entry.arg4,
                seen,
                fetched,
            ),
            SyscallGroup::Uname => uname_left(tracee.arch, release, entry, seen),
            SyscallGroup::Accept | SyscallGroup::GetSockOrPeerName => receive_left(
                table,
                entry.arg2,
                entry.arg3,
                tracee.noted,
                seen,
                fetched,
                0,
            ),
            SyscallGroup::SocketCall => socketcall_left(
                table,
                tracee.arch.spec_word_size() as usize,
                entry,
                tracee.noted,
                seen,
                fetched,
            ),
            _ => exit_unchanged(),
        },
    }
}

/// Runs the exit translator of the syscall that `tracee` is leaving.
///
/// The entry snapshot of the tracee holds what it asked for, the working
/// registers what the kernel returned; the number in the working registers
/// says which translator runs. The answers are those to the requests that
/// earlier calls for this same stop returned, in order.
pub fn translate(
    tracee: &Tracee,
    table: &BindingTable,
    identity: &Identity,
    fetched: &Vec<Fetched>,
) -> (step: ExitStep)
    requires
        table.wf(),
    ensures
        step.deep_view() == exit_translation(
            table@,
            release_of(identity),
            *tracee,
            answers(fetched),
        ),
{
    let entry = tracee.regs.get(RegVersion::Original);
    let seen = tracee.regs.get(RegVersion::Current);
    match tracee.denied {
        Some(e) => only_result(SyscallExitResult::Error(e)),
        None => match classify(seen.sys_num, tracee.arch) {
            SyscallGroup::GetCwd => exit_getcwd(table, entry, seen, fetched),
            SyscallGroup::ReadLink => exit_readlink(table, entry.arg2, entry.arg3, seen, fetched),
            SyscallGroup::ReadLinkAt => exit_readlink(table, entry.arg3, entry.arg4, seen, fetched),
            SyscallGroup::Uname => exit_uname(tracee.arch, identity, entry, seen),
            SyscallGroup::Accept | SyscallGroup::GetSockOrPeerName => exit_receive(
                table,
                entry.arg2,
                entry.arg3,
                tracee.noted,
                seen,
                fetched,
                0,
            ),
            SyscallGroup::SocketCall => exit_socketcall(
                table,
                tracee.arch.word_size(),
                entry,
                tracee.noted,
                seen,
                fetched,
            ),
            _ => unchanged(),
        },
    }
}

/// A denied syscall always ends with a valid error in the result register:
/// never zero, never what the kernel left there.
pub proof fn lemma_denied_result_is_error(
    table: Seq<BindingView>,
    release: Option<Seq<u8>>,
    tracee: Tracee,
    fetched: Seq<FetchedView>,
    regs: RegisterSet,
)
    requires
        tracee.denied is Some,
    ensures
        exit_translation(table, release, tracee, fetched) matches ExitStepView::Done(o) && {
            let after = o.result.applied(regs);
            &&& o.result == SyscallExitResult::Error(tracee.denied.unwrap())
            &&& is_error_result(after.result)
            &&& after.result != 0
            &&& after.result == tracee.denied.unwrap().spec_errno().spec_as_result()
            &&& o.writes.len() == 0
        },
{
}

/// A syscall that was not denied, and whose number in the working registers
/// is of no group that the engine translates, is left exactly as the kernel
/// returned it, whatever the entry snapshot holds and whatever was fetched:
/// no translator runs and nothing is written.
pub proof fn lemma_ignored_is_unchanged(
    table: Seq<BindingView>,
    release: Option<Seq<u8>>,
    tracee: Tracee,
    fetched: Seq<FetchedView>,
    regs: RegisterSet,
)
    requires
        tracee.denied is None,
        spec_classify(tracee.regs.current().sys_num, tracee.arch) == SyscallGroup::Ignored,
    ensures
        exit_translation(table, release, tracee, fetched) == exit_unchanged(),
        SyscallExitResult::NoChange.applied(regs) == regs,
{
}

/// Only `getcwd`, the two `readlink`s, `uname` and the socket groups that get
/// an address back have a translator at exit. A syscall that was not denied
/// is left as it is if the number in the working registers names no syscall
/// that the engine knows, or one of any other group.
pub proof fn lemma_exit_goes_by_working_number(
    table: Seq<BindingView>,
    release: Option<Seq<u8>>,
    tracee: Tracee,
    fetched: Seq<FetchedView>,
)
    requires
        tracee.denied is None,
    ensures
        !crate::kernel::groups::is_known(tracee.arch, tracee.regs.current().sys_num)
            ==> exit_translation(table, release, tracee, fetched) == exit_unchanged(),
        ({
            let group = spec_classify(tracee.regs.current().sys_num, tracee.arch);
            group == SyscallGroup::Ignored || group == SyscallGroup::Brk || group
                == SyscallGroup::Execve || group == SyscallGroup::Ptrace || group
                == SyscallGroup::Wait || group == SyscallGroup::Chdir || group
                == SyscallGroup::Rename || group == SyscallGroup::RenameAt || group
                == SyscallGroup::BindConnect
        }) ==> exit_translation(table, release, tracee, fetched) == exit_unchanged(),
{
}

} // verus!
