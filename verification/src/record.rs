//! The anchored record and its fixed-size wire layout.

use vstd::bytes::lemma_auto_spec_u64_to_from_le_bytes;
use vstd::bytes::spec_u64_to_le_bytes;
use vstd::prelude::*;

use crate::Bytes32;

verus! {

broadcast use vstd::array::group_array_axioms;

/// The sole persisted entity: an immutable binding of a reporter, an analyzed
/// subject and a report digest, stamped with the time of anchoring.
#[derive(Clone, Copy, Debug, PartialEq, Eq)]
pub struct AnchoredReport {
    /// The identity that submitted the anchoring call.
    pub reporter: Bytes32,
    /// The identity the report describes.
    pub analyzed_wallet: Bytes32,
    /// Content digest of the off-system report payload.
    pub report_hash: Bytes32,
    /// Timestamp at anchoring time, as handed in by the caller's clock.
    pub created_at: i64,
}

impl AnchoredReport {
    /// Serialized size: record-kind tag (8) + reporter (32) + analyzed_wallet
    /// (32) + report_hash (32) + created_at (8).
    pub const SPACE: usize = 8 + 32 + 32 + 32 + 8;
}

/// The fixed record-kind tag that prefixes every serialized record: the bytes
/// of `"anchrept"`.
pub open spec fn record_tag() -> Seq<u8> {
    seq![97u8, 110u8, 99u8, 104u8, 114u8, 101u8, 112u8, 116u8]
}

/// The wire form of a record: tag, then the three 32-byte fields, then the
/// timestamp in 8 little-endian bytes.
pub open spec fn spec_encode(r: AnchoredReport) -> Seq<u8> {
    record_tag() + r.reporter@ + r.analyzed_wallet@ + r.report_hash@ + spec_u64_to_le_bytes(
        r.created_at as u64,
    )
}

/// Appends the contents of a 32-byte value to a byte vector.
fn push_bytes32(out: &mut Vec<u8>, b: &Bytes32)
    ensures
        final(out)@ == old(out)@ + b@,
{
    let mut i: usize = 0;
    while i < 32
        invariant
            i <= 32,
            out@ == old(out)@ + b@.subrange(0, i as int),
        decreases 32 - i,
    {
        out.push(b[i]);
        proof {
            assert(old(out)@ + b@.subrange(0, (i + 1) as int) =~= (old(out)@ + b@.subrange(
                0,
                i as int,
            )).push(b@[i as int]));
        }
        i = i + 1;
    }
    proof {
        assert(b@.subrange(0, 32) =~= b@);
    }
}

/// Serializes a record into its fixed-size wire form.
pub fn encode_record(r: &AnchoredReport) -> (out: Vec<u8>)
    ensures
        out@ == spec_encode(*r),
        out@.len() == 112,
{
    let mut out: Vec<u8> = Vec::new();
    out.push(97u8);
    out.push(110u8);
    out.push(99u8);
    out.push(104u8);
    out.push(114u8);
    out.push(101u8);
    out.push(112u8);
    out.push(116u8);
    proof {
        assert(out@ =~= record_tag());
    }
    push_bytes32(&mut out, &r.reporter);
    push_bytes32(&mut out, &r.analyzed_wallet);
    push_bytes32(&mut out, &r.report_hash);
    let mut ts = vstd::bytes::u64_to_le_bytes(r.created_at as u64);
    out.append(&mut ts);
    proof {
        lemma_auto_spec_u64_to_from_le_bytes();
        assert(out@ =~= spec_encode(*r));
    }
    out
}

/// Copies 32 bytes starting at `start` out of a byte vector.
fn read_bytes32(bytes: &Vec<u8>, start: usize) -> (r: Bytes32)
    requires
        start + 32 <= bytes@.len(),
    ensures
        r@ == bytes@.subrange(start as int, start + 32),
{
    let mut r: Bytes32 = [0u8; 32];
    let n = bytes.len();
    let mut i: usize = 0;
    while i < 32
        invariant
            i <= 32,
            n == bytes@.len(),
            start + 32 <= n,
            forall|j: int| 0 <= j < i ==> r@[j] == bytes@[start + j],
        decreases 32 - i,
    {
        r[i] = bytes[start + i];
        i = i + 1;
    }
    proof {
        assert(r@ =~= bytes@.subrange(start as int, start + 32));
    }
    r
}

/// Deserializes a record from its wire form.
///
/// Succeeds exactly on byte strings that are the encoding of some record:
/// the length must match the fixed layout and the record-kind tag must be
/// present.
pub fn decode_record(bytes: &Vec<u8>) -> (r: Option<AnchoredReport>)
    ensures
        r matches Some(rec) ==> bytes@ == spec_encode(rec),
        (exists|rec: AnchoredReport| bytes@ == spec_encode(rec)) ==> r is Some,
{
    if bytes.len() != 112 {
        proof {
            assert forall|rec: AnchoredReport| bytes@ != spec_encode(rec) by {
                lemma_auto_spec_u64_to_from_le_bytes();
            }
        }
        return None;
    }
    let tag: [u8; 8] = [97u8, 110u8, 99u8, 104u8, 114u8, 101u8, 112u8, 116u8];
    let mut i: usize = 0;
    while i < 8
        invariant
            i <= 8,
            bytes@.len() == 112,
            tag@ == record_tag(),
            forall|j: int| 0 <= j < i ==> bytes@[j] == record_tag()[j],
        decreases 8 - i,
    {
        if bytes[i] != tag[i] {
            proof {
                assert forall|rec: AnchoredReport| bytes@ != spec_encode(rec) by {
                    assert(spec_encode(rec)[i as int] == record_tag()[i as int]);
                }
            }
            return None;
        }
        i = i + 1;
    }
    let reporter = read_bytes32(bytes, 8);
    let analyzed_wallet = read_bytes32(bytes, 40);
    let report_hash = read_bytes32(bytes, 72);
    let ts_slice = vstd::slice::slice_subrange(bytes.as_slice(), 104, 112);
    let ts = vstd::bytes::u64_from_le_bytes(ts_slice);
    let created_at = ts as i64;
    let rec = AnchoredReport { reporter, analyzed_wallet, report_hash, created_at };
    proof {
        lemma_auto_spec_u64_to_from_le_bytes();
        assert(ts as i64 as u64 == ts) by (bit_vector);
        assert(spec_u64_to_le_bytes(ts) =~= bytes@.subrange(104, 112));
        assert(bytes@ =~= spec_encode(rec));
    }
    Some(rec)
}

/// Two distinct records never share a wire form, so decoding a wire string
/// recovers the one record that produced it.
pub proof fn lemma_spec_encode_injective()
    ensures
        forall|a: AnchoredReport, b: AnchoredReport|
            spec_encode(a) == spec_encode(b) ==> a == b,
{
    assert forall|a: AnchoredReport, b: AnchoredReport|
        spec_encode(a) == spec_encode(b) implies a == b by {
        lemma_auto_spec_u64_to_from_le_bytes();
        let eb = spec_encode(b);
        assert(a.reporter@ =~= eb.subrange(8, 40));
        assert(b.reporter@ =~= eb.subrange(8, 40));
        assert(a.analyzed_wallet@ =~= eb.subrange(40, 72));
        assert(b.analyzed_wallet@ =~= eb.subrange(40, 72));
        assert(a.report_hash@ =~= eb.subrange(72, 104));
        assert(b.report_hash@ =~= eb.subrange(72, 104));
        assert(spec_u64_to_le_bytes(a.created_at as u64) =~= eb.subrange(104, 112));
        assert(spec_u64_to_le_bytes(b.created_at as u64) =~= eb.subrange(104, 112));
        assert(a.created_at as u64 == b.created_at as u64);
        let x = a.created_at;
        let y = b.created_at;
        assert(x == y) by (bit_vector)
            requires
                x as u64 == y as u64,
        ;
        assert(a.reporter =~= b.reporter);
        assert(a.analyzed_wallet =~= b.analyzed_wallet);
        assert(a.report_hash =~= b.report_hash);
    }
}

} // verus!
