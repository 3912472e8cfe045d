//! The dispatcher: from a stop of a tracee to what is done about it.
//!
//! The front end waits for stops. For each one it calls `handle_stop`; as
//! long as the answer is `Fetch` it reads what is asked for and calls again
//! for the same stop with the answer added. Any other answer ends the stop:
//! the front end carries it out and goes back to waiting.

use vstd::prelude::*;
use crate::arch::Architecture;
use crate::errors::{is_error_result, result_is_error, ProtocolViolation};
use crate::filesystem::{BindingTable, BindingView, PathError};
use crate::kernel::enter::{enter_translation, EnterOutcomeView, EnterStep, EnterStepView};
use crate::kernel::exit::{exit_translation, ExitStep, ExitStepView};
use crate::kernel::groups::{classify, spec_classify, SyscallGroup};
use crate::kernel::uname::{release_of, Identity};
use crate::memory::{answers, Fetched, FetchedView, MemWrite, MemWriteView, Request, RequestView};
use crate::process::table::{records_wf, TraceeTable};
use crate::process::tracee::{next_phase, ExecveState, Phase, StopEvent, StopKind, Tracee};
use crate::register::{RegVersion, RegisterSet, Registers};

verus! {

/// What the front end is to do about a stop.
#[derive(Clone, Debug, PartialEq, Eq)]
pub enum Action {
    /// Read what is asked for and call again for the same stop, with the
    /// answer added behind the answers given so far.
    Fetch(Request),
    /// Place `writes` in the tracee, set its registers to `regs` if there
    /// are any, and let it run on; deliver `signal` to it unless that is
    /// zero. `inconsistency` is set when the kernel returned a path that
    /// the binding table cannot map back: the tracee is told nothing of it.
    Resume {
        regs: Option<RegisterSet>,
        writes: Vec<MemWrite>,
        signal: i32,
        inconsistency: Option<PathError>,
    },
    /// Let go of the tracee and let it run on untraced: its stops arrived
    /// out of order. Its record is dropped.
    Detach(ProtocolViolation),
    /// The tracee is gone and its record is dropped. `parent` is the
    /// tracee that created it, if the engine saw that.
    Reaped { status: i32, parent: Option<i32> },
}

/// An action as contracts see it.
pub ghost enum ActionView {
    Fetch(RequestView),
    Resume {
        regs: Option<RegisterSet>,
        writes: Seq<MemWriteView>,
        signal: i32,
        inconsistency: Option<PathError>,
    },
    Detach(ProtocolViolation),
    Reaped { status: i32, parent: Option<i32> },
}

impl DeepView for Action {
    type V = ActionView;

    open spec fn deep_view(&self) -> ActionView {
        match *self {
            Action::Fetch(r) => ActionView::Fetch(r.deep_view()),
            Action::Resume { regs, writes, signal, inconsistency } => ActionView::Resume {
                regs,
                writes: writes.deep_view(),
                signal,
                inconsistency,
            },
            Action::Detach(v) => ActionView::Detach(v),
            Action::Reaped { status, parent } => ActionView::Reaped { status, parent },
        }
    }
}

/// What handling a stop leads to: the records afterwards and the action.
pub ghost struct Handled {
    pub records: Map<i32, Tracee>,
    pub action: ActionView,
}

/// The record of `pid`, or that of a newly attached tracee if it has none.
pub open spec fn record_of(records: Map<i32, Tracee>, pid: i32, arch: Architecture) -> Tracee {
    if records.dom().contains(pid) {
        records[pid]
    } else {
        Tracee::fresh(pid, arch, None)
    }
}

/// The action that lets a tracee run on with nothing changed.
pub open spec fn resume_plain(signal: i32) -> ActionView {
    ActionView::Resume { regs: None, writes: Seq::empty(), signal, inconsistency: None }
}

/// The registers to set, if they differ from what the tracee holds.
pub open spec fn changed(wanted: RegisterSet, held: RegisterSet) -> Option<RegisterSet> {
    if wanted == held {
        None
    } else {
        Some(wanted)
    }
}

/// The record while the engine waits for an answer at syscall entry: for
/// an `execve` it shows that the program is being resolved.
pub open spec fn waiting(t: Tracee, seen: RegisterSet) -> Tracee {
    Tracee {
        execve: if spec_classify(seen.sys_num, t.arch) == SyscallGroup::Execve {
            ExecveState::AwaitingInterpreter
        } else {
            ExecveState::Idle
        },
        ..t
    }
}

/// The record once the enter translator has decided: the working registers
/// are those it chose, a denial is kept for the exit stop, and an `execve`
/// that goes through awaits its completion.
pub open spec fn admitted(t: Tracee, seen: RegisterSet, outcome: EnterOutcomeView) -> Tracee {
    Tracee {
        regs: Registers::pair(seen, outcome.regs),
        denied: outcome.denied,
        noted: outcome.note,
        execve: if spec_classify(seen.sys_num, t.arch) == SyscallGroup::Execve && outcome.denied
            is None {
            ExecveState::AwaitingCompletion
        } else {
            ExecveState::Idle
        },
        ..t.begun(seen)
    }
}

/// What a syscall-enter stop with the registers `seen` leads to.
///
/// A stop that is out of order drops the record and detaches the tracee;
/// no translator runs. Otherwise the enter translator runs on the
/// registers seen. While it needs more, the phase of the tracee stays as it
/// was. Once it has decided, the syscall is pending.
pub open spec fn entered(
    bindings: Seq<BindingView>,
    records: Map<i32, Tracee>,
    t: Tracee,
    seen: RegisterSet,
    fetched: Seq<FetchedView>,
) -> Handled {
    match next_phase(t.phase, StopKind::Enter) {
        Err(v) => Handled { records: records.remove(t.pid), action: ActionView::Detach(v) },
        Ok(_) => match enter_translation(bindings, t.begun(seen), fetched) {
            EnterStepView::Need(r) => Handled {
                records: records.insert(t.pid, waiting(t, seen)),
                action: ActionView::Fetch(r),
            },
            EnterStepView::Done(o) => Handled {
                records: records.insert(t.pid, admitted(t, seen, o)),
                action: ActionView::Resume {
                    regs: changed(o.regs, seen),
                    writes: o.writes,
                    signal: 0,
                    inconsistency: None,
                },
            },
        },
    }
}

/// The registers from which the result of a syscall is settled.
///
/// If the enter translator rewrote registers, the tracee gets back those it
/// entered the syscall with, and the result that the kernel returned. It
/// keeps what the kernel left if nothing was rewritten, or if an `execve`
/// succeeded: the registers then belong to the new program.
pub open spec fn restored(t: Tracee, seen: RegisterSet) -> RegisterSet {
    if t.regs.current() != t.regs.original() && !(t.execve == ExecveState::AwaitingCompletion
        && !is_error_result(seen.result)) {
        t.regs.original().with_result(seen.result)
    } else {
        seen
    }
}

/// What a syscall-exit stop with the registers `seen` leads to.
///
/// A stop that is out of order drops the record and detaches the tracee;
/// no translator runs. Otherwise the exit translator runs, and once it has
/// decided, its result is committed to the restored registers and nothing
/// is pending any more.
pub open spec fn left(
    bindings: Seq<BindingView>,
    release: Option<Seq<u8>>,
    records: Map<i32, Tracee>,
    t: Tracee,
    seen: RegisterSet,
    fetched: Seq<FetchedView>,
) -> Handled {
    match next_phase(t.phase, StopKind::Exit) {
        Err(v) => Handled { records: records.remove(t.pid), action: ActionView::Detach(v) },
        Ok(_) => match exit_translation(bindings, release, t.showing(seen), fetched) {
            ExitStepView::Need(r) => Handled { records, action: ActionView::Fetch(r) },
            ExitStepView::Done(o) => {
                let settled = o.result.applied(restored(t, seen));
                Handled {
                    records: records.insert(t.pid, t.ended(settled)),
                    action: ActionView::Resume {
                        regs: changed(settled, seen),
                        writes: o.writes,
                        signal: 0,
                        inconsistency: o.inconsistency,
                    },
                }
            },
        },
    }
}

/// The record of a child that `parent` has just created: the record it
/// already has, if its first stop came before the news of its creation, or
/// that of a newly attached tracee with the ABI of its parent.
pub open spec fn child_record(records: Map<i32, Tracee>, parent: Tracee, child: i32) -> Tracee {
    if records.dom().contains(child) {
        Tracee { parent: Some(parent.pid), ..records[child] }
    } else {
        Tracee::fresh(child, parent.arch, Some(parent.pid))
    }
}

/// What a stop leads to.
///
/// A tracee that the engine has not seen before gets a record. Signals are
/// passed on and change nothing else. The news of a child gives the child a
/// record. An exit drops the record.
pub open spec fn handled(
    bindings: Seq<BindingView>,
    release: Option<Seq<u8>>,
    arch: Architecture,
    records: Map<i32, Tracee>,
    pid: i32,
    event: StopEvent,
    fetched: Seq<FetchedView>,
) -> Handled {
    let t = record_of(records, pid, arch);
    match event {
        StopEvent::SyscallEnter(seen) => entered(bindings, records, t, seen, fetched),
        StopEvent::SyscallExit(seen) => left(bindings, release, records, t, seen, fetched),
        StopEvent::Signal(signal) => Handled {
            records: records.insert(pid, t),
            action: resume_plain(signal),
        },
        StopEvent::Fork(child) => Handled {
            records: records.insert(pid, t).insert(child, child_record(records, t, child)),
            action: resume_plain(0),
        },
        StopEvent::Exited(status) => Handled {
            records: records.remove(pid),
            action: ActionView::Reaped { status, parent: t.parent },
        },
    }
}

/// The engine: the live tracees and what they are translated with.
pub struct Dispatcher {
    /// The live tracees.
    pub tracees: TraceeTable,
    /// The bindings through which paths are translated.
    pub bindings: BindingTable,
    /// What tracees are told about the system.
    pub identity: Identity,
    /// The ABI of a tracee of which nothing else is known.
    pub arch: Architecture,
}

/// Builds the action that lets a tracee run on with nothing changed.
fn plain(signal: i32) -> (action: Action)
    ensures
        action.deep_view() == resume_plain(signal),
{
    let writes: Vec<MemWrite> = Vec::new();
    assert(writes.deep_view() =~= Seq::<MemWriteView>::empty());
    Action::Resume { regs: None, writes, signal, inconsistency: None }
}

/// The registers to set, if they differ from what the tracee holds.
fn differing(wanted: RegisterSet, held: RegisterSet) -> (r: Option<RegisterSet>)
    ensures
        r == changed(wanted, held),
{
    if wanted.same(&held) {
        None
    } else {
        Some(wanted)
    }
}

impl Dispatcher {
    /// The tables are well formed.
    pub open spec fn wf(&self) -> bool {
        self.tracees.wf() && self.bindings.wf()
    }

    /// An engine with no tracees yet.
    pub fn new(bindings: BindingTable, identity: Identity, arch: Architecture) -> (d: Dispatcher)
        requires
            bindings.wf(),
        ensures
            d.wf(),
            d.tracees@ == Map::<i32, Tracee>::empty(),
            d.bindings@ == bindings@,
            release_of(&d.identity) == release_of(&identity),
            d.arch == arch,
    {
        Dispatcher { tracees: TraceeTable::new(), bindings, identity, arch }
    }

    /// What handling a stop leads to, from the state of this engine.
    pub open spec fn outcome(&self, pid: i32, event: StopEvent, fetched: Seq<FetchedView>) -> Handled {
        handled(
            self.bindings@,
            release_of(&self.identity),
            self.arch,
            self.tracees@,
            pid,
            event,
            fetched,
        )
    }

    /// Handles a stop of the tracee `pid`.
    ///
    /// `fetched` holds the answers to the requests that earlier calls for
    /// this same stop returned, in order; it is empty on the first call.
    pub fn handle_stop(&mut self, pid: i32, event: StopEvent, fetched: &Vec<Fetched>) -> (action:
        Action)
        requires
            old(self).wf(),
        ensures
            final(self).wf(),
            final(self).tracees@ == old(self).outcome(pid, event, answers(fetched)).records,
            action.deep_view() == old(self).outcome(pid, event, answers(fetched)).action,
            final(self).bindings@ == old(self).bindings@,
            release_of(&final(self).identity) == release_of(&old(self).identity),
            final(self).arch == old(self).arch,
    {
        proof {
            self.tracees.lemma_records();
        }
        let t = match self.tracees.lookup(pid) {
            Some(t) => t,
            None => Tracee::new(pid, self.arch, None),
        };
        match event {
            StopEvent::SyscallEnter(seen) => self.enter(t, seen, fetched),
            StopEvent::SyscallExit(seen) => self.exit(t, seen, fetched),
            StopEvent::Signal(signal) => {
                self.tracees.insert(t);
                plain(signal)
            },
            StopEvent::Fork(child) => {
                let born = match self.tracees.lookup(child) {
                    Some(known) => Tracee { parent: Some(t.pid), ..known },
                    None => Tracee::new(child, t.arch, Some(t.pid)),
                };
                self.tracees.insert(t);
                self.tracees.insert(born);
                plain(0)
            },
            StopEvent::Exited(status) => {
                self.tracees.remove(pid);
                Action::Reaped { status, parent: t.parent }
            },
        }
    }

    /// Handles a syscall-enter stop.
    fn enter(&mut self, t: Tracee, seen: RegisterSet, fetched: &Vec<Fetched>) -> (action: Action)
        requires
            old(self).wf(),
            t.wf(),
        ensures
            final(self).wf(),
            final(self).tracees@ == entered(
                old(self).bindings@,
                old(self).tracees@,
                t,
                seen,
                answers(fetched),
            ).records,
            action.deep_view() == entered(
                old(self).bindings@,
                old(self).tracees@,
                t,
                seen,
                answers(fetched),
            ).action,
            final(self).bindings@ == old(self).bindings@,
            release_of(&final(self).identity) == release_of(&old(self).identity),
            final(self).arch == old(self).arch,
    {
        match t.expect(StopKind::Enter) {
            Err(v) => {
                self.tracees.remove(t.pid);
                Action::Detach(v)
            },
            Ok(_) => {
                let mut at = t;
                at.begin_syscall(seen);
                let is_execve = match classify(seen.sys_num, t.arch) {
                    SyscallGroup::Execve => true,
                    _ => false,
                };
                match crate::kernel::enter::translate(&at, &self.bindings, fetched) {
                    EnterStep::Need(r) => {
                        let mut kept = t;
                        kept.execve = if is_execve {
                            ExecveState::AwaitingInterpreter
                        } else {
                            ExecveState::Idle
                        };
                        self.tracees.insert(kept);
                        Action::Fetch(r)
                    },
                    EnterStep::Done(o) => {
                        at.show(o.regs);
                        at.denied = o.denied;
                        at.noted = o.note;
                        at.execve = if is_execve && o.denied.is_none() {
                            ExecveState::AwaitingCompletion
                        } else {
                            ExecveState::Idle
                        };
                        proof {
                            Registers::lemma_pair_parts(seen, seen);
                        }
                        self.tracees.insert(at);
                        Action::Resume {
                            regs: differing(o.regs, seen),
                            writes: o.writes,
                            signal: 0,
                            inconsistency: None,
                        }
                    },
                }
            },
        }
    }

    /// Handles a syscall-exit stop.
    fn exit(&mut self, t: Tracee, seen: RegisterSet, fetched: &Vec<Fetched>) -> (action: Action)
        requires
            old(self).wf(),
            t.wf(),
            old(self).tracees@.dom().contains(t.pid) ==> old(self).tracees@[t.pid] == t,
        ensures
            final(self).wf(),
            final(self).tracees@ == left(
                old(self).bindings@,
                release_of(&old(self).identity),
                old(self).tracees@,
                t,
                seen,
                answers(fetched),
            ).records,
            action.deep_view() == left(
                old(self).bindings@,
                release_of(&old(self).identity),
                old(self).tracees@,
                t,
                seen,
                answers(fetched),
            ).action,
            final(self).bindings@ == old(self).bindings@,
            release_of(&final(self).identity) == release_of(&old(self).identity),
            final(self).arch == old(self).arch,
    {
        match t.expect(StopKind::Exit) {
            Err(v) => {
                self.tracees.remove(t.pid);
                Action::Detach(v)
            },
            Ok(_) => {
                let mut at = t;
                at.show(seen);
                match crate::kernel::exit::translate(&at, &self.bindings, &self.identity, fetched) {
                    ExitStep::Need(r) => Action::Fetch(r),
                    ExitStep::Done(o) => {
                        let entry = t.regs.get(RegVersion::Original);
                        let shown = t.regs.get(RegVersion::Current);
                        let replaced = match t.execve {
                            ExecveState::AwaitingCompletion => !result_is_error(seen.result),
                            _ => false,
                        };
                        let mut settled = if !shown.same(&entry) && !replaced {
                            let mut back = entry;
                            back.result = seen.result;
                            back
                        } else {
                            seen
                        };
                        o.result.apply(&mut settled);
                        let mut after = t;
                        after.end_syscall(settled);
                        self.tracees.insert(after);
                        Action::Resume {
                            regs: differing(settled, seen),
                            writes: o.writes,
                            signal: 0,
                            inconsistency: o.inconsistency,
                        }
                    },
                }
            },
        }
    }
}

/// The registers a tracee runs on with after a stop: those the action sets,
/// or those it was stopped with if the action sets none.
pub open spec fn registers_after(action: ActionView, seen: RegisterSet) -> RegisterSet {
    match action {
        ActionView::Resume { regs: Some(set), .. } => set,
        _ => seen,
    }
}

/// Entries and exits of one tracee strictly alternate: a second entry in a
/// row is never translated. The tracee is detached and its record dropped,
/// whatever the syscall and whatever was fetched.
pub proof fn lemma_double_enter_detaches(
    bindings: Seq<BindingView>,
    release: Option<Seq<u8>>,
    arch: Architecture,
    records: Map<i32, Tracee>,
    pid: i32,
    seen: RegisterSet,
    fetched: Seq<FetchedView>,
)
    requires
        records_wf(records),
        records.dom().contains(pid),
        records[pid].phase == Phase::EnteringSyscall,
    ensures
        handled(bindings, release, arch, records, pid, StopEvent::SyscallEnter(seen), fetched)
            == (Handled {
            records: records.remove(pid),
            action: ActionView::Detach(ProtocolViolation::DoubleEnter),
        }),
{
}

/// An exit without a pending entry is never translated either: this holds
/// for a tracee that is new, that was only attached, or whose last syscall
/// stop was an exit.
pub proof fn lemma_exit_without_enter_detaches(
    bindings: Seq<BindingView>,
    release: Option<Seq<u8>>,
    arch: Architecture,
    records: Map<i32, Tracee>,
    pid: i32,
    seen: RegisterSet,
    fetched: Seq<FetchedView>,
)
    requires
        records_wf(records),
        records.dom().contains(pid) ==> records[pid].phase == Phase::Attached || records[pid].phase
            == Phase::ExitingSyscall,
    ensures
        handled(bindings, release, arch, records, pid, StopEvent::SyscallExit(seen), fetched)
            == (Handled {
            records: records.remove(pid),
            action: ActionView::Detach(ProtocolViolation::ExitWithoutEnter),
        }),
{
}

/// After an entry that was handled to its end a syscall is pending, and
/// after an exit that was handled to its end none is.
pub proof fn lemma_handled_stop_sets_phase(
    bindings: Seq<BindingView>,
    release: Option<Seq<u8>>,
    arch: Architecture,
    records: Map<i32, Tracee>,
    pid: i32,
    event: StopEvent,
    fetched: Seq<FetchedView>,
)
    requires
        records_wf(records),
        handled(bindings, release, arch, records, pid, event, fetched).action is Resume,
    ensures
        ({
            let after = handled(bindings, release, arch, records, pid, event, fetched).records;
            &&& after.dom().contains(pid)
            &&& event is SyscallEnter ==> after[pid].phase == Phase::EnteringSyscall
            &&& event is SyscallExit ==> after[pid].phase == Phase::ExitingSyscall
            &&& event is Signal ==> after[pid].phase == record_of(records, pid, arch).phase
        }),
{
    let t = record_of(records, pid, arch);
    match event {
        StopEvent::SyscallEnter(seen) => {
            assert(t.pid == pid);
        },
        StopEvent::SyscallExit(seen) => {
            assert(t.pid == pid);
        },
        StopEvent::Signal(_) => {},
        StopEvent::Fork(child) => {},
        StopEvent::Exited(_) => {},
    }
}

/// A denied syscall ends with a valid error in the result register: the
/// tracee runs on with minus the error number there, never with zero and
/// never with what the kernel left. Its other registers are those it
/// entered the syscall with.
pub proof fn lemma_denied_syscall_reports_error(
    bindings: Seq<BindingView>,
    release: Option<Seq<u8>>,
    arch: Architecture,
    records: Map<i32, Tracee>,
    pid: i32,
    seen: RegisterSet,
    fetched: Seq<FetchedView>,
)
    requires
        records_wf(records),
        records.dom().contains(pid),
        records[pid].denied is Some,
    ensures
        ({
            let t = records[pid];
            let h = handled(
                bindings,
                release,
                arch,
                records,
                pid,
                StopEvent::SyscallExit(seen),
                fetched,
            );
            let after = registers_after(h.action, seen);
            &&& h.action is Resume
            &&& after.result == t.denied.unwrap().spec_errno().spec_as_result()
            &&& is_error_result(after.result)
            &&& after.result != 0
            &&& h.records.dom().contains(pid)
            &&& h.records[pid].regs.current() == after
            &&& h.records[pid].denied is None
            &&& h.action matches ActionView::Resume { writes, .. } && writes.len() == 0
        }),
{
    let t = records[pid];
    assert(t.wf() && t.pid == pid);
    Registers::lemma_pair_parts(t.regs.original(), seen);
    let at = t.showing(seen);
    assert(at.denied == t.denied);
    let settled = crate::kernel::exit::SyscallExitResult::Error(t.denied.unwrap()).applied(
        restored(t, seen),
    );
    Registers::lemma_pair_parts(t.regs.original(), settled);
}

/// A syscall that the engine does not translate passes through: where the
/// number at entry and the number at exit are both of no group, the tracee
/// runs on at entry and at exit with no register set and nothing written.
pub proof fn lemma_ignored_syscall_passes_through(
    bindings: Seq<BindingView>,
    release: Option<Seq<u8>>,
    arch: Architecture,
    records: Map<i32, Tracee>,
    pid: i32,
    seen: RegisterSet,
    left_with: RegisterSet,
    fetched: Seq<FetchedView>,
)
    requires
        records_wf(records),
        next_phase(record_of(records, pid, arch).phase, StopKind::Enter) is Ok,
        spec_classify(seen.sys_num, record_of(records, pid, arch).arch) == SyscallGroup::Ignored,
        spec_classify(left_with.sys_num, record_of(records, pid, arch).arch)
            == SyscallGroup::Ignored,
    ensures
        ({
            let at_entry = handled(
                bindings,
                release,
                arch,
                records,
                pid,
                StopEvent::SyscallEnter(seen),
                fetched,
            );
            let at_exit = handled(
                bindings,
                release,
                arch,
                at_entry.records,
                pid,
                StopEvent::SyscallExit(left_with),
                fetched,
            );
            &&& at_entry.action == resume_plain(0)
            &&& at_exit.action == resume_plain(0)
        }),
{
    let t = record_of(records, pid, arch);
    assert(t.pid == pid);
    Registers::lemma_pair_parts(seen, seen);
    let at_entry = handled(
        bindings,
        release,
        arch,
        records,
        pid,
        StopEvent::SyscallEnter(seen),
        fetched,
    );
    let pending = at_entry.records[pid];
    assert(pending == admitted(t, seen, EnterOutcomeView { regs: seen, writes: Seq::empty(), denied: None, note: None }));
    Registers::lemma_pair_parts(seen, left_with);
}

/// At exit the working registers decide. If the pending syscall was not
/// denied and the number that the tracee left it with is of no group, no
/// translator runs, whatever number the syscall was entered with and
/// whatever is fetched: nothing is asked for, nothing is written, and the
/// result register keeps what the kernel left there.
pub proof fn lemma_exit_without_group_runs_no_translator(
    bindings: Seq<BindingView>,
    release: Option<Seq<u8>>,
    arch: Architecture,
    records: Map<i32, Tracee>,
    pid: i32,
    left_with: RegisterSet,
    fetched: Seq<FetchedView>,
)
    requires
        records_wf(records),
        records.dom().contains(pid),
        records[pid].phase == Phase::EnteringSyscall,
        records[pid].denied is None,
        spec_classify(left_with.sys_num, records[pid].arch) == SyscallGroup::Ignored,
    ensures
        ({
            let h = handled(
                bindings,
                release,
                arch,
                records,
                pid,
                StopEvent::SyscallExit(left_with),
                fetched,
            );
            let after = registers_after(h.action, left_with);
            &&& h.action matches ActionView::Resume { writes, signal, inconsistency, .. }
                && writes.len() == 0 && signal == 0 && inconsistency is None
            &&& after == restored(records[pid], left_with)
            &&& after.result == left_with.result
        }),
{
    let t = records[pid];
    assert(t.pid == pid);
    Registers::lemma_pair_parts(t.regs.original(), left_with);
}

/// From denial to error. If the enter translator denies a syscall with an
/// error, then at the exit stop of that syscall, whatever the kernel left in
/// the registers and whatever is fetched, the tracee runs on with minus the
/// number of that error in its result register.
pub proof fn lemma_denial_reaches_the_tracee(
    bindings: Seq<BindingView>,
    release: Option<Seq<u8>>,
    arch: Architecture,
    records: Map<i32, Tracee>,
    pid: i32,
    seen: RegisterSet,
    fetched: Seq<FetchedView>,
    left_with: RegisterSet,
    fetched_at_exit: Seq<FetchedView>,
)
    requires
        records_wf(records),
        next_phase(record_of(records, pid, arch).phase, StopKind::Enter) is Ok,
        enter_translation(bindings, record_of(records, pid, arch).begun(seen), fetched) matches EnterStepView::Done(
            o,
        ) && o.denied is Some,
    ensures
        ({
            let denied_with = enter_translation(
                bindings,
                record_of(records, pid, arch).begun(seen),
                fetched,
            )->Done_0.denied.unwrap();
            let at_entry = handled(
                bindings,
                release,
                arch,
                records,
                pid,
                StopEvent::SyscallEnter(seen),
                fetched,
            );
            let at_exit = handled(
                bindings,
                release,
                arch,
                at_entry.records,
                pid,
                StopEvent::SyscallExit(left_with),
                fetched_at_exit,
            );
            let after = registers_after(at_exit.action, left_with);
            &&& at_exit.action is Resume
            &&& after.result == denied_with.spec_errno().spec_as_result()
            &&& is_error_result(after.result)
        }),
{
    let t = record_of(records, pid, arch);
    assert(t.pid == pid);
    let at_entry = handled(
        bindings,
        release,
        arch,
        records,
        pid,
        StopEvent::SyscallEnter(seen),
        fetched,
    );
    let o = enter_translation(bindings, t.begun(seen), fetched)->Done_0;
    assert(at_entry.records[pid] == admitted(t, seen, o));
    assert(records_wf(at_entry.records)) by {
        assert forall|p: i32| #[trigger] at_entry.records.dom().contains(p) implies at_entry.records[p].pid
            == p && at_entry.records[p].wf() by {
            if p != pid {
                assert(records.dom().contains(p));
            }
        }
    }
    lemma_denied_syscall_reports_error(
        bindings,
        release,
        arch,
        at_entry.records,
        pid,
        left_with,
        fetched_at_exit,
    );
}

} // verus!
