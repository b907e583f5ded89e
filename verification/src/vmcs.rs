//! Encodings of the VMCS fields that the core asks its caller to write.

use vstd::prelude::*;

verus! {

/// Encoding of the 64-bit control field that holds the EPT pointer.
pub const EPTP_FULL: u32 = 0x201A;

/// Reads `x86::vmx::vmcs::control::EPTP_FULL`, the encoding under which the
/// `x86` crate addresses the EPT pointer of the current VMCS.
///
/// Trusted: the contract repeats the value that the crate's source gives the
/// constant; nothing here proves it.
#[verifier::external_body]
pub(crate) fn eptp_full() -> (field: u32)
    ensures
        field == EPTP_FULL,
{
    x86::vmx::vmcs::control::EPTP_FULL
}

} // verus!
