//! The registry's guarantees, stated and proved over the store model.
//!
//! Each law speaks over [`AnchorRegistry::spec_anchor`] and
//! [`AnchorRegistry::spec_verify`], the exact descriptions that the
//! executable operations are proved to follow, so each holds of any sequence
//! of `anchor_report` and `verify_report` calls.

use vstd::prelude::*;

use crate::addressing::derived_of;
use crate::addressing::report_namespace;
use crate::record::AnchoredReport;
use crate::registry::AnchorRegistry;
use crate::Bytes32;
use crate::PrivacyReportError;

verus! {

/// Write-once: anchoring a pair and then anchoring the same pair again
/// yields success and then `DuplicateReport`; the store after both calls
/// holds exactly the record of the first call at the derived address, no
/// matter what subject or clock value the second call carries.
pub proof fn lemma_write_once(
    store: Map<Seq<u8>, AnchoredReport>,
    program_id: Seq<u8>,
    reporter: Bytes32,
    wallet1: Bytes32,
    report_hash: Bytes32,
    now1: i64,
    wallet2: Bytes32,
    now2: i64,
)
    ensures
        ({
            let first = AnchorRegistry::spec_anchor(
                store,
                program_id,
                reporter,
                wallet1,
                report_hash,
                now1,
            );
            let second = AnchorRegistry::spec_anchor(
                first.0,
                program_id,
                reporter,
                wallet2,
                report_hash,
                now2,
            );
            first.1 matches Ok(rec) ==> {
                &&& second.1 == Err::<AnchoredReport, PrivacyReportError>(
                    PrivacyReportError::DuplicateReport,
                )
                &&& second.0 == first.0
                &&& first.0[(derived_of(
                    program_id,
                    report_namespace(),
                    reporter@,
                    report_hash@,
                )->0).0] == rec
            }
        }),
{
}

/// Round trip: after a successful anchoring, verifying the same
/// `(reporter, report_hash)` pair returns the record that was created, and
/// its fields are exactly the anchoring call's inputs.
pub proof fn lemma_anchor_verify_round_trip(
    store: Map<Seq<u8>, AnchoredReport>,
    program_id: Seq<u8>,
    reporter: Bytes32,
    analyzed_wallet: Bytes32,
    report_hash: Bytes32,
    now: i64,
)
    ensures
        ({
            let outcome = AnchorRegistry::spec_anchor(
                store,
                program_id,
                reporter,
                analyzed_wallet,
                report_hash,
                now,
            );
            outcome.1 matches Ok(rec) ==> {
                &&& AnchorRegistry::spec_verify(outcome.0, program_id, reporter, report_hash)
                    == Ok::<AnchoredReport, PrivacyReportError>(rec)
                &&& rec.reporter == reporter
                &&& rec.analyzed_wallet == analyzed_wallet
                &&& rec.report_hash == report_hash
                &&& rec.created_at == now
            }
        }),
{
}

/// Negative lookup: when the derivation succeeds and nothing occupies the
/// derived address, verification returns `NotFound`.
pub proof fn lemma_negative_lookup(
    store: Map<Seq<u8>, AnchoredReport>,
    program_id: Seq<u8>,
    reporter: Bytes32,
    report_hash: Bytes32,
)
    requires
        ({
            let d = derived_of(program_id, report_namespace(), reporter@, report_hash@);
            d matches Some(ab) ==> !store.contains_key(ab.0)
        }),
    ensures
        derived_of(program_id, report_namespace(), reporter@, report_hash@) is Some
            ==> AnchorRegistry::spec_verify(store, program_id, reporter, report_hash)
            == Err::<AnchoredReport, PrivacyReportError>(PrivacyReportError::NotFound),
{
}

/// Independence: two reporters anchoring the same hash both succeed, and the
/// two records stay independently retrievable, each under its own reporter.
///
/// The hypothesis that the two derived addresses differ cannot be dropped:
/// the derivation hashes its inputs, and nothing rules out a hash collision
/// between two distinct pairs, however unlikely.
pub proof fn lemma_independent_reporters(
    store: Map<Seq<u8>, AnchoredReport>,
    program_id: Seq<u8>,
    reporter1: Bytes32,
    reporter2: Bytes32,
    analyzed_wallet: Bytes32,
    report_hash: Bytes32,
    now1: i64,
    now2: i64,
)
    requires
        ({
            let d1 = derived_of(program_id, report_namespace(), reporter1@, report_hash@);
            let d2 = derived_of(program_id, report_namespace(), reporter2@, report_hash@);
            &&& d1 is Some
            &&& d2 is Some
            &&& (d1->0).0 != (d2->0).0
            &&& !store.contains_key((d1->0).0)
            &&& !store.contains_key((d2->0).0)
        }),
    ensures
        ({
            let first = AnchorRegistry::spec_anchor(
                store,
                program_id,
                reporter1,
                analyzed_wallet,
                report_hash,
                now1,
            );
            let second = AnchorRegistry::spec_anchor(
                first.0,
                program_id,
                reporter2,
                analyzed_wallet,
                report_hash,
                now2,
            );
            &&& first.1 is Ok
            &&& second.1 is Ok
            &&& AnchorRegistry::spec_verify(second.0, program_id, reporter1, report_hash)
                == Ok::<AnchoredReport, PrivacyReportError>(first.1->Ok_0)
            &&& AnchorRegistry::spec_verify(second.0, program_id, reporter2, report_hash)
                == Ok::<AnchoredReport, PrivacyReportError>(second.1->Ok_0)
        }),
{
}

} // verus!
