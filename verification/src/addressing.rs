//! Address derivation: maps `(namespace_tag, reporter, report_hash)` to a
//! deterministic storage address plus a one-byte disambiguator ("bump").
//!
//! The derivation itself is the host store's program-derived-address scheme.
//! Its result is a fixed function of the inputs alone, so this module gives
//! that result a name, [`derived_of`], and every contract in the crate speaks
//! of the name.

use vstd::prelude::*;

use crate::Bytes32;
use crate::PrivacyReportError;

verus! {

/// What the host store's address derivation returns for the given program
/// identity, namespace tag, reporter identity and report hash: `None` when no
/// disambiguation byte yields a valid address, otherwise the 32-byte address
/// and the chosen bump byte.
pub uninterp spec fn derived_of(
    program_id: Seq<u8>,
    namespace_tag: Seq<u8>,
    reporter: Seq<u8>,
    report_hash: Seq<u8>,
) -> Option<(Seq<u8>, u8)>;

/// Relies on `Pubkey::try_find_program_address` (through `anchor_lang`'s
/// re-export): the search over bump bytes is deterministic, depends on the
/// seed bytes and the program identity alone, and returns `None` when no bump
/// byte yields an address off the reserved curve.
#[verifier::external_body]
fn find_address(
    program_id: &Bytes32,
    namespace_tag: &Vec<u8>,
    reporter: &Bytes32,
    report_hash: &Bytes32,
) -> (r: Option<(Bytes32, u8)>)
    ensures
        r is Some <==> derived_of(program_id@, namespace_tag@, reporter@, report_hash@) is Some,
        r matches Some(p) ==> derived_of(program_id@, namespace_tag@, reporter@, report_hash@)
            == Some((p.0@, p.1)),
{
    let pid = anchor_lang::prelude::Pubkey::new_from_array(*program_id);
    let seeds: [&[u8]; 3] = [
        namespace_tag.as_slice(),
        reporter.as_slice(),
        report_hash.as_slice(),
    ];
    match anchor_lang::prelude::Pubkey::try_find_program_address(&seeds, &pid) {
        Some((address, bump)) => Some((address.to_bytes(), bump)),
        None => None,
    }
}

/// The namespace tag under which report records are addressed: the bytes of
/// `"report"`.
pub open spec fn report_namespace() -> Seq<u8> {
    seq![114u8, 101u8, 112u8, 111u8, 114u8, 116u8]
}

/// Builds the report namespace tag as a byte vector.
pub fn report_namespace_bytes() -> (v: Vec<u8>)
    ensures
        v@ == report_namespace(),
{
    let mut v: Vec<u8> = Vec::new();
    v.push(114u8);
    v.push(101u8);
    v.push(112u8);
    v.push(111u8);
    v.push(114u8);
    v.push(116u8);
    proof {
        assert(v@ =~= report_namespace());
    }
    v
}

/// Derives the storage address and bump byte for the given inputs.
///
/// The result is a fixed function of the inputs: calling `derive` twice on
/// the same inputs returns the same pair. When no bump byte yields a valid
/// address, the derivation fails with `AddressSpaceExhausted`.
pub fn derive(
    program_id: &Bytes32,
    namespace_tag: &Vec<u8>,
    reporter: &Bytes32,
    report_hash: &Bytes32,
) -> (r: Result<(Bytes32, u8), PrivacyReportError>)
    ensures
        ({
            let d = derived_of(program_id@, namespace_tag@, reporter@, report_hash@);
            match r {
                Ok(p) => d == Some((p.0@, p.1)),
                Err(e) => d is None && e == PrivacyReportError::AddressSpaceExhausted,
            }
        }),
{
    match find_address(program_id, namespace_tag, reporter, report_hash) {
        Some(p) => Ok(p),
        None => Err(PrivacyReportError::AddressSpaceExhausted),
    }
}

} // verus!
