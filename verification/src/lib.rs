//! Write-once anchoring of report digests at deterministically derived
//! addresses.
//!
//! A reporter publishes a fixed-size digest of an off-system report, bound
//! permanently to the reporter's identity and to the identity of the analyzed
//! subject. Anyone can later recompute the same storage address from the
//! `(reporter, report_hash)` pair and read the binding back; the record at
//! that address is created exactly once and never changed.

use vstd::prelude::*;

pub mod addressing;
pub mod laws;
pub mod record;
pub mod registry;

verus! {

/// A 32-byte participant identity or content digest.
pub type Bytes32 = [u8; 32];

/// Why an operation of the registry or of the address deriver failed.
#[derive(Clone, Copy, Debug, PartialEq, Eq, Structural)]
pub enum PrivacyReportError {
    /// The derived address is already occupied: this `(reporter, report_hash)`
    /// pair has been anchored before.
    DuplicateReport,
    /// Reserved for report-hash format validation; no current operation
    /// returns it.
    InvalidHash,
    /// A lookup found no record anchored for the given pair.
    NotFound,
    /// No disambiguation byte yields a valid address for the given inputs.
    AddressSpaceExhausted,
}

/// Compares two 32-byte values for equality of their contents.
pub fn bytes32_equal(a: &Bytes32, b: &Bytes32) -> (r: bool)
    ensures
        r == (a@ == b@),
{
    let mut i: usize = 0;
    while i < 32
        invariant
            i <= 32,
            forall|j: int| 0 <= j < i ==> a@[j] == b@[j],
        decreases 32 - i,
    {
        if a[i] != b[i] {
            return false;
        }
        i = i + 1;
    }
    proof {
        assert(a@ =~= b@);
    }
    true
}

} // verus!
