use privacy_report_anchor::addressing;
use privacy_report_anchor::registry::AnchorRegistry;
use privacy_report_anchor::PrivacyReportError;

use sha2::Digest;

const PROGRAM_ID: [u8; 32] = [9u8; 32];

#[test]
fn derive_is_deterministic() {
    let ns = addressing::report_namespace_bytes();
    let reporter = [1u8; 32];
    let hash = [2u8; 32];
    let first = addressing::derive(&PROGRAM_ID, &ns, &reporter, &hash).unwrap();
    let second = addressing::derive(&PROGRAM_ID, &ns, &reporter, &hash).unwrap();
    assert_eq!(first.0, second.0);
    assert_eq!(first.1, second.1);
}

#[test]
fn derive_matches_host_scheme() {
    let ns = addressing::report_namespace_bytes();
    let reporter = [1u8; 32];
    let hash = [2u8; 32];
    let (address, bump) = addressing::derive(&PROGRAM_ID, &ns, &reporter, &hash).unwrap();
    let pid = anchor_lang::prelude::Pubkey::new_from_array(PROGRAM_ID);
    let (expected, expected_bump) =
        anchor_lang::prelude::Pubkey::find_program_address(&[b"report", &reporter, &hash], &pid);
    assert_eq!(address, expected.to_bytes());
    assert_eq!(bump, expected_bump);
}

#[test]
fn derive_separates_distinct_reporters() {
    let ns = addressing::report_namespace_bytes();
    let hash = [2u8; 32];
    let first = addressing::derive(&PROGRAM_ID, &ns, &[1u8; 32], &hash).unwrap();
    let second = addressing::derive(&PROGRAM_ID, &ns, &[3u8; 32], &hash).unwrap();
    assert_ne!(first.0, second.0);
}

#[test]
fn derive_separates_distinct_hashes() {
    let ns = addressing::report_namespace_bytes();
    let reporter = [1u8; 32];
    let first = addressing::derive(&PROGRAM_ID, &ns, &reporter, &[2u8; 32]).unwrap();
    let second = addressing::derive(&PROGRAM_ID, &ns, &reporter, &[4u8; 32]).unwrap();
    assert_ne!(first.0, second.0);
}

#[test]
fn derive_separates_distinct_namespaces() {
    let reporter = [1u8; 32];
    let hash = [2u8; 32];
    let first =
        addressing::derive(&PROGRAM_ID, &b"report".to_vec(), &reporter, &hash).unwrap();
    let second =
        addressing::derive(&PROGRAM_ID, &b"other".to_vec(), &reporter, &hash).unwrap();
    assert_ne!(first.0, second.0);
}

#[test]
fn anchor_then_anchor_again_is_write_once() {
    let mut registry = AnchorRegistry::new(PROGRAM_ID);
    let reporter = [1u8; 32];
    let wallet = [2u8; 32];
    let hash = [3u8; 32];
    let record = registry.anchor_report(&reporter, &wallet, &hash, 100).unwrap();
    let again = registry.anchor_report(&reporter, &wallet, &hash, 200);
    assert_eq!(again, Err(PrivacyReportError::DuplicateReport));
    assert_eq!(registry.record_count(), 1);
    let stored = registry.verify_report(&reporter, &hash).unwrap();
    assert_eq!(stored, record);
    assert_eq!(stored.created_at, 100);
}

#[test]
fn anchor_then_verify_round_trip() {
    let mut registry = AnchorRegistry::new(PROGRAM_ID);
    let reporter = [5u8; 32];
    let wallet = [6u8; 32];
    let hash = [7u8; 32];
    let record = registry.anchor_report(&reporter, &wallet, &hash, 1_700_000_000).unwrap();
    assert_eq!(record.reporter, reporter);
    assert_eq!(record.analyzed_wallet, wallet);
    assert_eq!(record.report_hash, hash);
    assert_eq!(record.created_at, 1_700_000_000);
    let fetched = registry.verify_report(&reporter, &hash).unwrap();
    assert_eq!(fetched, record);
}

#[test]
fn verify_without_anchor_is_not_found() {
    let registry = AnchorRegistry::new(PROGRAM_ID);
    let result = registry.verify_report(&[1u8; 32], &[2u8; 32]);
    assert_eq!(result, Err(PrivacyReportError::NotFound));
}

#[test]
fn two_reporters_anchor_the_same_hash_independently() {
    let mut registry = AnchorRegistry::new(PROGRAM_ID);
    let reporter1 = [1u8; 32];
    let reporter2 = [2u8; 32];
    let wallet = [3u8; 32];
    let hash = [4u8; 32];
    let first = registry.anchor_report(&reporter1, &wallet, &hash, 10).unwrap();
    let second = registry.anchor_report(&reporter2, &wallet, &hash, 20).unwrap();
    assert_eq!(registry.record_count(), 2);
    assert_eq!(registry.verify_report(&reporter1, &hash).unwrap(), first);
    assert_eq!(registry.verify_report(&reporter2, &hash).unwrap(), second);
    assert_ne!(first, second);
}

#[test]
fn sha256_payload_example_end_to_end() {
    let payload = b"quarterly privacy assessment, full text";
    let digest = sha2::Sha256::digest(payload);
    let mut hash = [0u8; 32];
    hash.copy_from_slice(&digest);

    let reporter = [11u8; 32];
    let subject = [12u8; 32];
    let other_reporter = [13u8; 32];

    let mut registry = AnchorRegistry::new(PROGRAM_ID);
    let record = registry.anchor_report(&reporter, &subject, &hash, 42).unwrap();
    assert_eq!(record.reporter, reporter);
    assert_eq!(record.analyzed_wallet, subject);
    assert_eq!(record.report_hash, hash);
    assert_eq!(record.created_at, 42);

    assert_eq!(registry.verify_report(&reporter, &hash).unwrap(), record);
    assert_eq!(
        registry.verify_report(&other_reporter, &hash),
        Err(PrivacyReportError::NotFound)
    );
}

#[test]
fn anchoring_distinct_hashes_under_one_reporter_succeeds() {
    let mut registry = AnchorRegistry::new(PROGRAM_ID);
    let reporter = [1u8; 32];
    let wallet = [2u8; 32];
    registry.anchor_report(&reporter, &wallet, &[3u8; 32], 1).unwrap();
    registry.anchor_report(&reporter, &wallet, &[4u8; 32], 2).unwrap();
    assert_eq!(registry.record_count(), 2);
    assert_eq!(registry.verify_report(&reporter, &[3u8; 32]).unwrap().created_at, 1);
    assert_eq!(registry.verify_report(&reporter, &[4u8; 32]).unwrap().created_at, 2);
}
