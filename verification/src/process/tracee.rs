//! The record the engine keeps for one traced process or thread.

use vstd::prelude::*;
use crate::arch::Architecture;
use crate::errors::{Error, ProtocolViolation};
use crate::register::{RegisterSet, Registers, Word};

verus! {

/// Where a tracee stands between its syscall stops.
#[derive(Clone, Copy, Debug, PartialEq, Eq, Structural)]
pub enum Phase {
    /// Known to the engine; no syscall stop seen yet.
    Attached,
    /// The last syscall stop was an entry: a syscall is pending in the
    /// kernel and the next syscall stop must be its exit.
    EnteringSyscall,
    /// The last syscall stop was an exit: nothing is pending and the next
    /// syscall stop must be an entry.
    ExitingSyscall,
    /// The tracee is gone. No further stop is accepted.
    Exited,
}

/// How far the replacement of the process image has come.
#[derive(Clone, Copy, Debug, PartialEq, Eq, Structural)]
pub enum ExecveState {
    /// No `execve` is under way.
    Idle,
    /// An `execve` was entered and the program to run is still being
    /// resolved.
    AwaitingInterpreter,
    /// The program is resolved and the kernel is replacing the image.
    AwaitingCompletion,
}

/// The two kinds of syscall stop.
#[derive(Clone, Copy, Debug, PartialEq, Eq, Structural)]
pub enum StopKind {
    Enter,
    Exit,
}

/// What the tracing facility reports about a tracee.
#[derive(Clone, Copy, Debug, PartialEq, Eq, Structural)]
pub enum StopEvent {
    /// The tracee is about to enter a syscall; its registers are attached.
    SyscallEnter(RegisterSet),
    /// The tracee has left a syscall; its registers are attached.
    SyscallExit(RegisterSet),
    /// The tracee was stopped by the delivery of a signal.
    Signal(i32),
    /// The tracee created a child with the given process id.
    Fork(i32),
    /// The tracee has exited with the given status.
    Exited(i32),
}

/// The phase that follows `phase` when a syscall stop of kind `kind`
/// arrives, or the violation that the stop amounts to.
pub open spec fn next_phase(phase: Phase, kind: StopKind) -> Result<Phase, ProtocolViolation> {
    match (phase, kind) {
        (Phase::Exited, _) => Err(ProtocolViolation::StopAfterExit),
        (Phase::EnteringSyscall, StopKind::Enter) => Err(ProtocolViolation::DoubleEnter),
        (Phase::EnteringSyscall, StopKind::Exit) => Ok(Phase::ExitingSyscall),
        (_, StopKind::Enter) => Ok(Phase::EnteringSyscall),
        (_, StopKind::Exit) => Err(ProtocolViolation::ExitWithoutEnter),
    }
}

/// The phase a tracee reaches from `phase` through a run of syscall stops,
/// or the first violation on the way.
pub open spec fn phase_after(phase: Phase, stops: Seq<StopKind>) -> Result<
    Phase,
    ProtocolViolation,
>
    decreases stops.len(),
{
    if stops.len() == 0 {
        Ok(phase)
    } else {
        match phase_after(phase, stops.drop_last()) {
            Err(v) => Err(v),
            Ok(reached) => next_phase(reached, stops.last()),
        }
    }
}

/// The kind of stop that is due at position `i` of a run that starts with
/// nothing pending: entries at even positions, exits at odd ones.
pub open spec fn due_at(i: int) -> StopKind {
    if i % 2 == 0 {
        StopKind::Enter
    } else {
        StopKind::Exit
    }
}

/// Entries and exits strictly alternate. A run of syscall stops, starting
/// with nothing pending, is accepted exactly when it consists of an entry,
/// an exit, an entry, and so on; a syscall is then pending exactly after
/// an odd number of stops.
pub proof fn lemma_stops_alternate(start: Phase, stops: Seq<StopKind>)
    requires
        start == Phase::Attached || start == Phase::ExitingSyscall,
    ensures
        phase_after(start, stops) is Ok <==> forall|i: int|
            0 <= i < stops.len() ==> stops[i] == due_at(i),
        phase_after(start, stops) matches Ok(reached) ==> (reached == Phase::EnteringSyscall
            <==> stops.len() % 2 == 1) && reached != Phase::Exited && (stops.len() > 0 ==> reached
            != Phase::Attached),
    decreases stops.len(),
{
    if stops.len() > 0 {
        let front = stops.drop_last();
        lemma_stops_alternate(start, front);
        if phase_after(start, stops) is Ok {
            assert forall|i: int| 0 <= i < stops.len() implies stops[i] == due_at(i) by {
                if i < front.len() {
                    assert(front[i] == stops[i]);
                }
            }
        }
        if forall|i: int| 0 <= i < stops.len() ==> stops[i] == due_at(i) {
            assert forall|i: int| 0 <= i < front.len() implies front[i] == due_at(i) by {
                assert(front[i] == stops[i]);
            }
            assert(stops.last() == due_at(stops.len() - 1));
        }
    }
}

/// A second entry in a row is a violation, whatever came before.
pub proof fn lemma_double_enter_is_rejected(phase: Phase)
    requires
        next_phase(phase, StopKind::Enter) is Ok,
    ensures
        next_phase(next_phase(phase, StopKind::Enter)->Ok_0, StopKind::Enter) == Err::<
            Phase,
            ProtocolViolation,
        >(ProtocolViolation::DoubleEnter),
{
}

/// A second exit in a row is a violation, whatever came before.
pub proof fn lemma_double_exit_is_rejected(phase: Phase)
    requires
        next_phase(phase, StopKind::Exit) is Ok,
    ensures
        next_phase(next_phase(phase, StopKind::Exit)->Ok_0, StopKind::Exit) == Err::<
            Phase,
            ProtocolViolation,
        >(ProtocolViolation::ExitWithoutEnter),
{
}

/// One traced process or thread.
#[derive(Clone, Copy, Debug, PartialEq, Eq)]
pub struct Tracee {
    /// Process id of the tracee.
    pub pid: i32,
    /// The syscall ABI the tracee runs under.
    pub arch: Architecture,
    /// Process id of the tracee that created this one, if the engine saw
    /// it being created.
    pub parent: Option<i32>,
    /// Where the tracee stands between its syscall stops.
    pub phase: Phase,
    /// The register snapshots of the syscall under way.
    pub regs: Registers,
    /// How far an `execve` under way has come.
    pub execve: ExecveState,
    /// The error that the pending syscall was denied with, if it was.
    pub denied: Option<Error>,
    /// What the enter translator of the pending syscall kept for its exit
    /// translator.
    pub noted: Option<Word>,
}

impl Tracee {
    /// Whether a syscall is pending: entered and not yet left.
    pub open spec fn spec_pending(self) -> bool {
        self.phase == Phase::EnteringSyscall
    }

    /// What the record promises: a denial, or an image being replaced,
    /// belongs to a pending syscall; a program is being resolved only
    /// before its `execve` goes through.
    pub open spec fn wf(self) -> bool {
        &&& self.denied is Some ==> self.spec_pending()
        &&& self.noted is Some ==> self.spec_pending()
        &&& self.execve == ExecveState::AwaitingCompletion ==> self.spec_pending()
        &&& self.execve == ExecveState::AwaitingInterpreter ==> !self.spec_pending() && self.phase
            != Phase::Exited
    }

    /// The record of a tracee that has just been attached.
    pub open spec fn fresh(pid: i32, arch: Architecture, parent: Option<i32>) -> Tracee {
        Tracee {
            pid,
            arch,
            parent,
            phase: Phase::Attached,
            regs: Registers::pair(RegisterSet::spec_zeroed(), RegisterSet::spec_zeroed()),
            execve: ExecveState::Idle,
            denied: None,
            noted: None,
        }
    }

    /// The record once a syscall was entered with the registers `seen`:
    /// both snapshots start from them, nothing is denied yet.
    pub open spec fn begun(self, seen: RegisterSet) -> Tracee {
        Tracee {
            phase: Phase::EnteringSyscall,
            regs: Registers::pair(seen, seen),
            execve: ExecveState::Idle,
            denied: None,
            noted: None,
            ..self
        }
    }

    /// The record with `regs` as its working registers.
    pub open spec fn showing(self, regs: RegisterSet) -> Tracee {
        Tracee { regs: Registers::pair(self.regs.original(), regs), ..self }
    }

    /// The record once the pending syscall was left with the registers
    /// `settled`: the entry snapshot is kept, nothing is pending any more.
    pub open spec fn ended(self, settled: RegisterSet) -> Tracee {
        Tracee {
            phase: Phase::ExitingSyscall,
            regs: Registers::pair(self.regs.original(), settled),
            execve: ExecveState::Idle,
            denied: None,
            noted: None,
            ..self
        }
    }

    /// The record of a tracee that has just been attached.
    pub fn new(pid: i32, arch: Architecture, parent: Option<i32>) -> (t: Tracee)
        ensures
            t == Self::fresh(pid, arch, parent),
            t.wf(),
    {
        Tracee {
            pid,
            arch,
            parent,
            phase: Phase::Attached,
            regs: Registers::capture(RegisterSet::zeroed()),
            execve: ExecveState::Idle,
            denied: None,
            noted: None,
        }
    }

    /// Whether a syscall is pending: entered and not yet left.
    pub fn pending(&self) -> (b: bool)
        ensures
            b == self.spec_pending(),
    {
        match self.phase {
            Phase::EnteringSyscall => true,
            _ => false,
        }
    }

    /// Decides whether a syscall stop of the given kind may arrive now, and
    /// what phase it leads to.
    pub fn expect(&self, kind: StopKind) -> (r: Result<Phase, ProtocolViolation>)
        ensures
            r == next_phase(self.phase, kind),
    {
        match self.phase {
            Phase::Exited => Err(ProtocolViolation::StopAfterExit),
            Phase::EnteringSyscall => match kind {
                StopKind::Enter => Err(ProtocolViolation::DoubleEnter),
                StopKind::Exit => Ok(Phase::ExitingSyscall),
            },
            _ => match kind {
                StopKind::Enter => Ok(Phase::EnteringSyscall),
                StopKind::Exit => Err(ProtocolViolation::ExitWithoutEnter),
            },
        }
    }

    /// Records that a syscall was entered with the registers `seen`.
    pub fn begin_syscall(&mut self, seen: RegisterSet)
        requires
            next_phase(old(self).phase, StopKind::Enter) is Ok,
        ensures
            *final(self) == old(self).begun(seen),
            final(self).wf(),
    {
        self.phase = Phase::EnteringSyscall;
        self.regs = Registers::capture(seen);
        self.execve = ExecveState::Idle;
        self.denied = None;
        self.noted = None;
    }

    /// Takes `regs` as the working registers and keeps the entry snapshot.
    pub fn show(&mut self, regs: RegisterSet)
        ensures
            *final(self) == old(self).showing(regs),
            old(self).wf() ==> final(self).wf(),
    {
        self.regs.refresh(regs);
    }

    /// Records that the pending syscall was left with the registers
    /// `settled`.
    pub fn end_syscall(&mut self, settled: RegisterSet)
        requires
            next_phase(old(self).phase, StopKind::Exit) is Ok,
        ensures
            *final(self) == old(self).ended(settled),
            final(self).wf(),
    {
        self.phase = Phase::ExitingSyscall;
        self.regs.refresh(settled);
        self.execve = ExecveState::Idle;
        self.denied = None;
        self.noted = None;
    }
}

} // verus!
