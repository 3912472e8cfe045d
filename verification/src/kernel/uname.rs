//! Rewriting the kernel release that `uname` reports.

use vstd::prelude::*;
use crate::arch::Architecture;
use crate::kernel::exit::{
    exit_rewrite, exit_unchanged, rewrite, unchanged, ExitStep, ExitStepView, SyscallExitResult,
};
use crate::register::{RegisterSet, Word};

verus! {

/// Size of one field of the system identification record.
pub const FIELD_SIZE: usize = 65;

/// Where the release field starts in the record: behind the system name
/// and the node name.
pub const RELEASE_OFFSET: u64 = 130;

/// What traced processes are told about the system they run on.
#[derive(Clone, Debug, PartialEq, Eq)]
pub struct Identity {
    /// The kernel release to report in place of the real one, if any.
    pub release: Option<Vec<u8>>,
}

/// The release to report, as contracts see it.
pub open spec fn release_of(identity: &Identity) -> Option<Seq<u8>> {
    match identity.release {
        Some(r) => Some(r@),
        None => None,
    }
}

/// A field of the record that holds `text`: as much of it as leaves room
/// for a terminator, and zeros up to the size of the field.
pub open spec fn field(text: Seq<u8>) -> Seq<u8> {
    Seq::new(
        FIELD_SIZE as nat,
        |i: int|
            if i < text.len() && i < FIELD_SIZE - 1 {
                text[i]
            } else {
                0u8
            },
    )
}

/// Builds a field of the record that holds `text`.
pub fn make_field(text: &Vec<u8>) -> (out: Vec<u8>)
    ensures
        out@ == field(text@),
{
    let mut out: Vec<u8> = Vec::new();
    let mut i: usize = 0;
    while i < FIELD_SIZE
        invariant
            i <= FIELD_SIZE,
            out.len() == i,
            forall|j: int| 0 <= j < i ==> out@[j] == field(text@)[j],
        decreases FIELD_SIZE - i,
    {
        if i < text.len() && i < FIELD_SIZE - 1 {
            out.push(text[i]);
        } else {
            out.push(0);
        }
        i += 1;
    }
    assert(out@ =~= field(text@));
    out
}

/// What leaving `uname` leads to.
///
/// Where a release to report is configured, the record layout of the ABI
/// is known and the syscall succeeded, the release field of the record that
/// the first argument names is overwritten. The result register is never
/// touched.
pub open spec fn uname_left(
    arch: Architecture,
    release: Option<Seq<u8>>,
    entry: RegisterSet,
    seen: RegisterSet,
) -> ExitStepView {
    if arch.spec_knows_utsname() && release is Some && seen.result == 0 && entry.arg1
        + RELEASE_OFFSET <= u64::MAX {
        exit_rewrite(
            (entry.arg1 + RELEASE_OFFSET) as Word,
            field(release->Some_0),
            SyscallExitResult::NoChange,
        )
    } else {
        exit_unchanged()
    }
}

/// Translates the result of `uname`.
pub fn exit_uname(arch: Architecture, identity: &Identity, entry: RegisterSet, seen: RegisterSet) -> (step:
    ExitStep)
    ensures
        step.deep_view() == uname_left(arch, release_of(identity), entry, seen),
{
    if !arch.knows_utsname() || seen.result != 0 || entry.arg1 > u64::MAX - RELEASE_OFFSET {
        return unchanged();
    }
    match &identity.release {
        None => unchanged(),
        Some(r) => rewrite(entry.arg1 + RELEASE_OFFSET, make_field(r), SyscallExitResult::NoChange),
    }
}

} // verus!
