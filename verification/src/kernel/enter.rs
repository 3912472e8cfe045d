//! Translation at the syscall-enter stop.

use vstd::prelude::*;
use crate::errors::Error;
use crate::filesystem::{BindingTable, BindingView};
use crate::kernel::execve::{enter_execve, execve_entered};
use crate::kernel::socket::{
    bind_entered, enter_bind, enter_receive, enter_socketcall, receive_entered,
    socketcall_entered,
};
use crate::kernel::groups::{classify, spec_classify, SyscallGroup};
use crate::kernel::standard::{
    enter_paths, modifies, path_slots, paths_entered, spec_modifies, spec_path_slots,
};
use crate::memory::{
    answers, scratch_top, spec_scratch_top, Fetched, FetchedView, MemWrite, MemWriteView, Request,
    RequestView,
};
use crate::process::tracee::Tracee;
use crate::register::{RegVersion, RegisterSet, Word};

verus! {

/// A syscall number that names no syscall. A denied syscall is entered
/// under this number, so that the kernel does nothing.
pub const VOID_SYSCALL: Word = 0xffff_ffff_ffff_ffff;

/// Everything an enter translator decides.
#[derive(Clone, Debug, PartialEq, Eq)]
pub struct EnterOutcome {
    /// The registers the kernel is to see.
    pub regs: RegisterSet,
    /// Bytes to place in the tracee before the kernel runs.
    pub writes: Vec<MemWrite>,
    /// The error the syscall is denied with, if it is denied.
    pub denied: Option<Error>,
    /// A word to keep for the exit translator of the same syscall.
    pub note: Option<Word>,
}

/// An enter outcome as contracts see it.
pub ghost struct EnterOutcomeView {
    pub regs: RegisterSet,
    pub writes: Seq<MemWriteView>,
    pub denied: Option<Error>,
    pub note: Option<Word>,
}

impl DeepView for EnterOutcome {
    type V = EnterOutcomeView;

    open spec fn deep_view(&self) -> EnterOutcomeView {
        EnterOutcomeView {
            regs: self.regs,
            writes: self.writes.deep_view(),
            denied: self.denied,
            note: self.note,
        }
    }
}

/// One step of an enter translation.
#[derive(Clone, Debug, PartialEq, Eq)]
pub enum EnterStep {
    /// The translator needs to see more before it can decide.
    Need(Request),
    /// The translator has decided.
    Done(EnterOutcome),
}

/// A step as contracts see it.
pub ghost enum EnterStepView {
    Need(RequestView),
    Done(EnterOutcomeView),
}

impl DeepView for EnterStep {
    type V = EnterStepView;

    open spec fn deep_view(&self) -> EnterStepView {
        match *self {
            EnterStep::Need(r) => EnterStepView::Need(r.deep_view()),
            EnterStep::Done(o) => EnterStepView::Done(o.deep_view()),
        }
    }
}

/// The outcome that lets the syscall through as it was entered.
pub open spec fn enter_unchanged(entry: RegisterSet) -> EnterStepView {
    EnterStepView::Done(
        EnterOutcomeView { regs: entry, writes: Seq::empty(), denied: None, note: None },
    )
}

/// The outcome that denies the syscall: the kernel is shown a number that
/// names no syscall, nothing is written, and the error is kept for the exit
/// stop.
pub open spec fn enter_denied(entry: RegisterSet, e: Error) -> EnterStepView {
    EnterStepView::Done(
        EnterOutcomeView {
            regs: entry.with_sys_num(VOID_SYSCALL),
            writes: Seq::empty(),
            denied: Some(e),
            note: None,
        },
    )
}

/// The outcome that lets the syscall through with rewritten registers and
/// with bytes placed in the tracee.
pub open spec fn enter_rewritten(regs: RegisterSet, writes: Seq<MemWriteView>) -> EnterStepView {
    EnterStepView::Done(EnterOutcomeView { regs, writes, denied: None, note: None })
}

/// The outcome that lets the syscall through as it was entered and keeps a
/// word for the exit translator.
pub open spec fn enter_noted(entry: RegisterSet, note: Word) -> EnterStepView {
    EnterStepView::Done(
        EnterOutcomeView { regs: entry, writes: Seq::empty(), denied: None, note: Some(note) },
    )
}

/// Builds the outcome that lets the syscall through and keeps a word.
pub fn noted(entry: RegisterSet, note: Word) -> (step: EnterStep)
    ensures
        step.deep_view() == enter_noted(entry, note),
{
    let writes: Vec<MemWrite> = Vec::new();
    assert(writes.deep_view() =~= Seq::<MemWriteView>::empty());
    EnterStep::Done(EnterOutcome { regs: entry, writes, denied: None, note: Some(note) })
}

/// Builds the outcome that lets the syscall through as it was entered.
pub fn unchanged(entry: RegisterSet) -> (step: EnterStep)
    ensures
        step.deep_view() == enter_unchanged(entry),
{
    let writes: Vec<MemWrite> = Vec::new();
    assert(writes.deep_view() =~= Seq::<MemWriteView>::empty());
    EnterStep::Done(EnterOutcome { regs: entry, writes, denied: None, note: None })
}

/// Builds the outcome that denies the syscall with `e`.
pub fn denied(entry: RegisterSet, e: Error) -> (step: EnterStep)
    ensures
        step.deep_view() == enter_denied(entry, e),
{
    let writes: Vec<MemWrite> = Vec::new();
    assert(writes.deep_view() =~= Seq::<MemWriteView>::empty());
    let mut regs = entry;
    regs.sys_num = VOID_SYSCALL;
    EnterStep::Done(EnterOutcome { regs, writes, denied: Some(e), note: None })
}

/// Builds the outcome that lets the syscall through with rewritten
/// registers.
pub fn rewritten(regs: RegisterSet, writes: Vec<MemWrite>) -> (step: EnterStep)
    ensures
        step.deep_view() == enter_rewritten(regs, writes.deep_view()),
{
    EnterStep::Done(EnterOutcome { regs, writes, denied: None, note: None })
}

/// What entering a syscall leads to, given the answers so far.
///
/// The syscall is classified by the number in the working registers of the
/// tracee. The groups that carry paths have them translated to the host;
/// `execve` has its program resolved; the socket groups have the address
/// they hand to the kernel translated, or the size of the buffer for the
/// address they get back kept; every other group goes through as it was
/// entered, with no register changed and nothing written.
pub open spec fn enter_translation(
    table: Seq<BindingView>,
    tracee: Tracee,
    fetched: Seq<FetchedView>,
) -> EnterStepView {
    let entry = tracee.regs.current();
    let top = spec_scratch_top(entry.stack_pointer);
    let group = spec_classify(entry.sys_num, tracee.arch);
    match group {
        SyscallGroup::Chdir
        | SyscallGroup::Rename
        | SyscallGroup::RenameAt
        | SyscallGroup::ReadLink
        | SyscallGroup::ReadLinkAt => paths_entered(
            table,
            entry,
            spec_path_slots(group),
            spec_modifies(group),
            fetched,
            0,
            entry,
            top,
            Seq::empty(),
        ),
        SyscallGroup::Execve => execve_entered(
            table,
            tracee.arch.spec_word_size() as usize,
            entry,
            top,
            fetched,
        ),
        SyscallGroup::BindConnect => bind_entered(table, entry, top, fetched),
        SyscallGroup::Accept | SyscallGroup::GetSockOrPeerName => receive_entered(
            entry,
            entry.arg2,
            entry.arg3,
            fetched,
            0,
        ),
        SyscallGroup::SocketCall => socketcall_entered(
            table,
            tracee.arch.spec_word_size() as usize,
            entry,
            top,
            fetched,
        ),
        _ => enter_unchanged(entry),
    }
}

/// Runs the enter translator of the syscall that `tracee` is entering.
///
/// The answers are those to the requests that earlier calls for this same
/// stop returned, in order. A `Need` asks for one more; a `Done` holds the
/// registers to show the kernel, the bytes to place in the tracee, and the
/// error if the syscall is denied.
pub fn translate(tracee: &Tracee, table: &BindingTable, fetched: &Vec<Fetched>) -> (step: EnterStep)
    requires
        table.wf(),
    ensures
        step.deep_view() == enter_translation(table@, *tracee, answers(fetched)),
{
    let entry = tracee.regs.get(RegVersion::Current);
    let top = scratch_top(entry.stack_pointer);
    let group = classify(entry.sys_num, tracee.arch);
    match group {
        SyscallGroup::Chdir
        | SyscallGroup::Rename
        | SyscallGroup::RenameAt
        | SyscallGroup::ReadLink
        | SyscallGroup::ReadLinkAt => {
            let slots = path_slots(group);
            enter_paths(table, entry, &slots, modifies(group), top, fetched)
        },
        SyscallGroup::Execve => enter_execve(table, tracee.arch.word_size(), entry, top, fetched),
        SyscallGroup::BindConnect => enter_bind(table, entry, top, fetched),
        SyscallGroup::Accept | SyscallGroup::GetSockOrPeerName => enter_receive(
            entry,
            entry.arg2,
            entry.arg3,
            fetched,
            0,
        ),
        SyscallGroup::SocketCall => enter_socketcall(
            table,
            tracee.arch.word_size(),
            entry,
            top,
            fetched,
        ),
        _ => unchanged(entry),
    }
}

/// A syscall that the engine does not translate goes through untouched.
pub proof fn lemma_ignored_is_untouched(
    table: Seq<BindingView>,
    tracee: Tracee,
    fetched: Seq<FetchedView>,
)
    requires
        spec_classify(tracee.regs.current().sys_num, tracee.arch) == SyscallGroup::Ignored,
    ensures
        enter_translation(table, tracee, fetched) == enter_unchanged(tracee.regs.current()),
{
}

/// A path that cannot be mapped denies the syscall. Whenever the first
/// path of a path-carrying syscall is absolute and cannot be resolved, the syscall is denied with that failure, whatever else was
/// fetched: the kernel sees a number that names no syscall, and nothing is
/// written.
pub proof fn lemma_unmapped_path_is_denied(
    table: Seq<BindingView>,
    tracee: Tracee,
    fetched: Seq<FetchedView>,
)
    requires
        spec_path_slots(spec_classify(tracee.regs.current().sys_num, tracee.arch)).len() > 0,
        fetched.len() > 0,
        fetched[0] matches FetchedView::Data(p) && crate::filesystem::is_absolute(p)
            && crate::filesystem::resolution(table, p) is Err,
    ensures
        enter_translation(table, tracee, fetched) == enter_denied(
            tracee.regs.current(),
            Error::PathResolution(
                crate::filesystem::resolution(table, fetched[0]->Data_0)->Err_0,
            ),
        ),
        enter_translation(table, tracee, fetched) matches EnterStepView::Done(o) && o.regs.sys_num
            == VOID_SYSCALL && o.writes.len() == 0 && o.denied is Some,
{
}

} // verus!
