//! The errors of the hypervisor core.

use vstd::prelude::*;

verus! {

/// What can go wrong inside the core.
#[derive(Debug, Clone, Copy, PartialEq, Eq, Structural)]
pub enum HypervisorError {
    /// No hook has been installed, so there is no current hook to look at.
    FailedToGetCurrentHookIndex,
    /// The byte pattern does not occur in the scanned image.
    PatternNotFound,
    /// A token of a byte pattern is neither `?` nor a hexadecimal byte.
    HexParseError,
}

} // verus!
