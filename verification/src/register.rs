//! The saved registers of a traced process at a syscall stop.

use vstd::prelude::*;

verus! {

/// One machine word of a traced process.
pub type Word = u64;

/// Number of argument slots a syscall has.
pub const ARG_COUNT: usize = 6;

/// Which of the two register snapshots of a tracee is meant.
#[derive(Clone, Copy, Debug, PartialEq, Eq, Structural)]
pub enum RegVersion {
    /// The registers as they were captured when the syscall was entered.
    Original,
    /// The working copy: what the kernel sees and returns.
    Current,
}

pub use RegVersion::Original;
pub use RegVersion::Current;

/// One of the six argument slots of a syscall.
#[derive(Clone, Copy, Debug, PartialEq, Eq, Structural)]
pub enum SysArg {
    Arg1,
    Arg2,
    Arg3,
    Arg4,
    Arg5,
    Arg6,
}

impl SysArg {
    /// Position of the slot, counted from zero.
    pub open spec fn spec_index(self) -> int {
        match self {
            SysArg::Arg1 => 0,
            SysArg::Arg2 => 1,
            SysArg::Arg3 => 2,
            SysArg::Arg4 => 3,
            SysArg::Arg5 => 4,
            SysArg::Arg6 => 5,
        }
    }

    /// Position of the slot, counted from zero.
    pub fn index(self) -> (i: usize)
        ensures
            i == self.spec_index(),
            i < ARG_COUNT,
    {
        match self {
            SysArg::Arg1 => 0,
            SysArg::Arg2 => 1,
            SysArg::Arg3 => 2,
            SysArg::Arg4 => 3,
            SysArg::Arg5 => 4,
            SysArg::Arg6 => 5,
        }
    }
}

/// The registers that matter at a syscall stop, by meaning rather than by
/// hardware name.
#[derive(Clone, Copy, Debug, PartialEq, Eq, Structural)]
pub struct RegisterSet {
    /// The syscall number slot.
    pub sys_num: Word,
    /// The six argument slots.
    pub arg1: Word,
    pub arg2: Word,
    pub arg3: Word,
    pub arg4: Word,
    pub arg5: Word,
    pub arg6: Word,
    /// The result slot.
    pub result: Word,
    /// The stack pointer of the tracee.
    pub stack_pointer: Word,
}

impl RegisterSet {
    /// The argument in the given slot.
    pub open spec fn arg(self, index: SysArg) -> Word {
        match index {
            SysArg::Arg1 => self.arg1,
            SysArg::Arg2 => self.arg2,
            SysArg::Arg3 => self.arg3,
            SysArg::Arg4 => self.arg4,
            SysArg::Arg5 => self.arg5,
            SysArg::Arg6 => self.arg6,
        }
    }

    /// This set with one argument slot replaced.
    pub open spec fn with_arg(self, index: SysArg, value: Word) -> RegisterSet {
        match index {
            SysArg::Arg1 => RegisterSet { arg1: value, ..self },
            SysArg::Arg2 => RegisterSet { arg2: value, ..self },
            SysArg::Arg3 => RegisterSet { arg3: value, ..self },
            SysArg::Arg4 => RegisterSet { arg4: value, ..self },
            SysArg::Arg5 => RegisterSet { arg5: value, ..self },
            SysArg::Arg6 => RegisterSet { arg6: value, ..self },
        }
    }

    /// This set with the syscall number replaced.
    pub open spec fn with_sys_num(self, value: Word) -> RegisterSet {
        RegisterSet { sys_num: value, ..self }
    }

    /// This set with the result replaced.
    pub open spec fn with_result(self, value: Word) -> RegisterSet {
        RegisterSet { result: value, ..self }
    }

    /// The set in which every register is zero.
    pub open spec fn spec_zeroed() -> RegisterSet {
        RegisterSet {
            sys_num: 0,
            arg1: 0,
            arg2: 0,
            arg3: 0,
            arg4: 0,
            arg5: 0,
            arg6: 0,
            result: 0,
            stack_pointer: 0,
        }
    }

    /// The set in which every register is zero.
    pub fn zeroed() -> (r: RegisterSet)
        ensures
            r == Self::spec_zeroed(),
    {
        RegisterSet {
            sys_num: 0,
            arg1: 0,
            arg2: 0,
            arg3: 0,
            arg4: 0,
            arg5: 0,
            arg6: 0,
            result: 0,
            stack_pointer: 0,
        }
    }

    /// Decides whether two sets hold the same registers.
    pub fn same(&self, other: &RegisterSet) -> (eq: bool)
        ensures
            eq == (*self == *other),
    {
        self.sys_num == other.sys_num && self.arg1 == other.arg1 && self.arg2 == other.arg2
            && self.arg3 == other.arg3 && self.arg4 == other.arg4 && self.arg5 == other.arg5
            && self.arg6 == other.arg6 && self.result == other.result && self.stack_pointer
            == other.stack_pointer
    }

    /// Reads one argument slot.
    pub fn get_arg(&self, index: SysArg) -> (w: Word)
        ensures
            w == self.arg(index),
    {
        match index {
            SysArg::Arg1 => self.arg1,
            SysArg::Arg2 => self.arg2,
            SysArg::Arg3 => self.arg3,
            SysArg::Arg4 => self.arg4,
            SysArg::Arg5 => self.arg5,
            SysArg::Arg6 => self.arg6,
        }
    }

    /// Replaces one argument slot and leaves every other register alone.
    pub fn set_arg(&mut self, index: SysArg, value: Word)
        ensures
            *final(self) == old(self).with_arg(index, value),
    {
        match index {
            SysArg::Arg1 => { self.arg1 = value; },
            SysArg::Arg2 => { self.arg2 = value; },
            SysArg::Arg3 => { self.arg3 = value; },
            SysArg::Arg4 => { self.arg4 = value; },
            SysArg::Arg5 => { self.arg5 = value; },
            SysArg::Arg6 => { self.arg6 = value; },
        }
    }
}

/// The two register snapshots kept for a tracee.
///
/// `original` is taken when a syscall is entered and is read-only from then
/// on; every rewrite goes to `current`.
#[derive(Clone, Copy, Debug, PartialEq, Eq, Structural)]
pub struct Registers {
    original: RegisterSet,
    current: RegisterSet,
}

impl Registers {
    /// The snapshot taken at syscall entry.
    pub closed spec fn original(self) -> RegisterSet {
        self.original
    }

    /// The working copy.
    pub closed spec fn current(self) -> RegisterSet {
        self.current
    }

    /// The pair of snapshots with the given contents.
    pub closed spec fn pair(original: RegisterSet, current: RegisterSet) -> Registers {
        Registers { original, current }
    }

    /// The snapshots of a pair are those it was made of.
    pub proof fn lemma_pair_parts(original: RegisterSet, current: RegisterSet)
        ensures
            Self::pair(original, current).original() == original,
            Self::pair(original, current).current() == current,
    {
    }

    /// The snapshot named by `version`.
    pub open spec fn snapshot(self, version: RegVersion) -> RegisterSet {
        match version {
            RegVersion::Original => self.original(),
            RegVersion::Current => self.current(),
        }
    }

    /// Captures the registers of a stop: both snapshots start out equal.
    pub fn capture(regs: RegisterSet) -> (r: Registers)
        ensures
            r == Self::pair(regs, regs),
            r.original() == regs,
            r.current() == regs,
    {
        Registers { original: regs, current: regs }
    }

    /// Keeps the entry snapshot and takes `regs` as the new working copy.
    pub fn refresh(&mut self, regs: RegisterSet)
        ensures
            *final(self) == Self::pair(old(self).original(), regs),
            final(self).original() == old(self).original(),
            final(self).current() == regs,
    {
        self.current = regs;
    }

    /// A copy of the snapshot named by `version`.
    pub fn get(&self, version: RegVersion) -> (r: RegisterSet)
        ensures
            r == self.snapshot(version),
    {
        match version {
            RegVersion::Original => self.original,
            RegVersion::Current => self.current,
        }
    }

    /// The syscall number held by a snapshot.
    pub fn get_sys_num(&self, version: RegVersion) -> (n: Word)
        ensures
            n == self.snapshot(version).sys_num,
    {
        match version {
            RegVersion::Original => self.original.sys_num,
            RegVersion::Current => self.current.sys_num,
        }
    }

    /// One argument held by a snapshot.
    pub fn get_arg(&self, version: RegVersion, index: SysArg) -> (w: Word)
        ensures
            w == self.snapshot(version).arg(index),
    {
        match version {
            RegVersion::Original => self.original.get_arg(index),
            RegVersion::Current => self.current.get_arg(index),
        }
    }

    /// The result held by a snapshot.
    pub fn get_result(&self, version: RegVersion) -> (w: Word)
        ensures
            w == self.snapshot(version).result,
    {
        match version {
            RegVersion::Original => self.original.result,
            RegVersion::Current => self.current.result,
        }
    }

    /// The stack pointer held by a snapshot.
    pub fn get_stack_pointer(&self, version: RegVersion) -> (w: Word)
        ensures
            w == self.snapshot(version).stack_pointer,
    {
        match version {
            RegVersion::Original => self.original.stack_pointer,
            RegVersion::Current => self.current.stack_pointer,
        }
    }

    /// Rewrites the syscall number of the working copy.
    pub fn set_sys_num(&mut self, value: Word)
        ensures
            final(self).original() == old(self).original(),
            final(self).current() == old(self).current().with_sys_num(value),
    {
        self.current.sys_num = value;
    }

    /// Rewrites one argument of the working copy.
    pub fn set_arg(&mut self, index: SysArg, value: Word)
        ensures
            final(self).original() == old(self).original(),
            final(self).current() == old(self).current().with_arg(index, value),
    {
        self.current.set_arg(index, value);
    }

    /// Rewrites the result of the working copy.
    pub fn set_result(&mut self, value: Word)
        ensures
            final(self).original() == old(self).original(),
            final(self).current() == old(self).current().with_result(value),
    {
        self.current.result = value;
    }
}

} // verus!
