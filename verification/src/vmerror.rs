//! The exit qualification that the processor records for an EPT violation.

use vstd::prelude::*;

verus! {

/// The two kinds of guest access that the core tells apart.
#[derive(Debug, Clone, Copy, PartialEq, Eq, Structural)]
pub enum EptAccess {
    /// The guest read or wrote data.
    Data,
    /// The guest fetched an instruction.
    InstructionFetch,
}

/// The decoded exit qualification of an EPT violation.
///
/// Bits 0 to 2 say what the guest tried to do; bits 3 to 5 say what the
/// violated mapping allowed.
#[derive(Debug, Clone, Copy, PartialEq, Eq, Structural)]
pub struct EptViolationExitQualification {
    /// Bit 0: the access was a data read.
    pub data_read: bool,
    /// Bit 1: the access was a data write.
    pub data_write: bool,
    /// Bit 2: the access was an instruction fetch.
    pub instruction_fetch: bool,
    /// Bit 3: the guest-physical address was readable.
    pub readable: bool,
    /// Bit 4: the guest-physical address was writable.
    pub writable: bool,
    /// Bit 5: the guest-physical address was executable.
    pub executable: bool,
}

impl EptViolationExitQualification {
    /// The record that the raw exit qualification `value` stands for.
    pub open spec fn decode(value: u64) -> EptViolationExitQualification {
        EptViolationExitQualification {
            data_read: value & 0x1 != 0,
            data_write: value & 0x2 != 0,
            instruction_fetch: value & 0x4 != 0,
            readable: value & 0x8 != 0,
            writable: value & 0x10 != 0,
            executable: value & 0x20 != 0,
        }
    }

    /// How the access is classified: an instruction fetch where the fetch flag
    /// is set, a data access in every other case.
    pub open spec fn spec_access(&self) -> EptAccess {
        if self.instruction_fetch {
            EptAccess::InstructionFetch
        } else {
            EptAccess::Data
        }
    }

    /// Decodes the raw exit qualification that the processor recorded.
    pub fn from_exit_qualification(value: u64) -> (qualification: EptViolationExitQualification)
        ensures
            qualification == Self::decode(value),
    {
        EptViolationExitQualification {
            data_read: value & 0x1 != 0,
            data_write: value & 0x2 != 0,
            instruction_fetch: value & 0x4 != 0,
            readable: value & 0x8 != 0,
            writable: value & 0x10 != 0,
            executable: value & 0x20 != 0,
        }
    }

    /// Classifies the access by the fetch flag alone.
    #[verifier::when_used_as_spec(spec_access)]
    pub fn access(&self) -> (access: EptAccess)
        ensures
            access == self.spec_access(),
    {
        match self.instruction_fetch {
            false => EptAccess::Data,
            true => EptAccess::InstructionFetch,
        }
    }
}

} // verus!
