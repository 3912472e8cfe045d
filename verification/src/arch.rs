//! The architectures whose syscall conventions the engine knows.

use vstd::prelude::*;

verus! {

/// The syscall ABI a tracee runs under.
///
/// A 32-bit process on a 64-bit host uses the numbering of its own ABI, so
/// the ABI belongs to the tracee, not to the host.
#[derive(Clone, Copy, Debug, PartialEq, Eq, Structural)]
pub enum Architecture {
    X86_64,
    X86,
    Arm,
    Aarch64,
}

impl Architecture {
    /// Size in bytes of a machine word under this ABI.
    pub open spec fn spec_word_size(self) -> int {
        match self {
            Architecture::X86_64 => 8,
            Architecture::X86 => 4,
            Architecture::Arm => 4,
            Architecture::Aarch64 => 8,
        }
    }

    /// Size in bytes of a machine word under this ABI.
    pub fn word_size(self) -> (n: usize)
        ensures
            n == self.spec_word_size(),
            n == 4 || n == 8,
    {
        match self {
            Architecture::X86_64 => 8,
            Architecture::X86 => 4,
            Architecture::Arm => 4,
            Architecture::Aarch64 => 8,
        }
    }

    /// Whether the layout of the system identification record is known for
    /// this ABI, so that its fields can be rewritten.
    pub open spec fn spec_knows_utsname(self) -> bool {
        self == Architecture::X86_64
    }

    /// Whether the layout of the system identification record is known for
    /// this ABI.
    pub fn knows_utsname(self) -> (b: bool)
        ensures
            b == self.spec_knows_utsname(),
    {
        match self {
            Architecture::X86_64 => true,
            _ => false,
        }
    }
}

} // verus!
