//! The anchor registry: places and fetches immutable records in an
//! address-keyed store, enforcing create-once semantics.
//!
//! The store is modelled as the map from occupied addresses to the records
//! held there; [`spec_anchor`] and [`spec_verify`] say exactly how the two
//! operations read and change that map, and the executable methods are proved
//! to follow them.

use vstd::prelude::*;

use crate::addressing::derived_of;
use crate::addressing::report_namespace;
use crate::addressing::report_namespace_bytes;
use crate::bytes32_equal;
use crate::record::AnchoredReport;
use crate::Bytes32;
use crate::PrivacyReportError;

verus! {

/// One occupied slot of the store: the derived address and the record
/// created there.
pub struct StoredEntry {
    /// The derived address this record was created at.
    pub address: Bytes32,
    /// The immutable record.
    pub record: AnchoredReport,
}

/// The registry: the program identity under which addresses are derived, and
/// the occupied slots of the store.
pub struct AnchorRegistry {
    /// The 32-byte identity of the registry itself, a fixed input of every
    /// address derivation.
    pub program_id: Bytes32,
    /// The occupied slots, each at a distinct address.
    pub entries: Vec<StoredEntry>,
}

/// The map from occupied addresses to the records held there.
pub open spec fn entries_map(s: Seq<StoredEntry>) -> Map<Seq<u8>, AnchoredReport>
    decreases s.len(),
{
    if s.len() == 0 {
        Map::empty()
    } else {
        entries_map(s.drop_last()).insert(s.last().address@, s.last().record)
    }
}

/// An address is in the map exactly when some slot holds it.
pub proof fn lemma_entries_map_domain(s: Seq<StoredEntry>, a: Seq<u8>)
    ensures
        entries_map(s).contains_key(a) <==> exists|i: int|
            0 <= i < s.len() && s[i].address@ == a,
    decreases s.len(),
{
    if s.len() > 0 {
        lemma_entries_map_domain(s.drop_last(), a);
        if s.last().address@ == a {
            assert(s[s.len() - 1].address@ == a);
        } else if entries_map(s).contains_key(a) {
            let i = choose|i: int| 0 <= i < s.drop_last().len() && s.drop_last()[i].address@ == a;
            assert(s[i].address@ == a);
        } else {
            assert forall|i: int| 0 <= i < s.len() implies s[i].address@ != a by {
                if i < s.len() - 1 {
                    assert(s.drop_last()[i].address@ == s[i].address@);
                }
            }
        }
    }
}

/// A slot whose address no later slot repeats holds the mapped record.
pub proof fn lemma_entries_map_at(s: Seq<StoredEntry>, i: int)
    requires
        0 <= i < s.len(),
        forall|j: int| i < j < s.len() ==> s[j].address@ != s[i].address@,
    ensures
        entries_map(s).contains_key(s[i].address@),
        entries_map(s)[s[i].address@] == s[i].record,
    decreases s.len(),
{
    if i == s.len() - 1 {
    } else {
        assert forall|j: int| i < j < s.drop_last().len() implies s.drop_last()[j].address@
            != s.drop_last()[i].address@ by {
            assert(s.drop_last()[j].address@ == s[j].address@);
        }
        lemma_entries_map_at(s.drop_last(), i);
        assert(s.drop_last()[i] == s[i]);
    }
}

/// Appending a slot inserts its binding and touches nothing else.
pub proof fn lemma_entries_map_push(s: Seq<StoredEntry>, e: StoredEntry)
    ensures
        entries_map(s.push(e)) == entries_map(s).insert(e.address@, e.record),
{
    assert(s.push(e).drop_last() =~= s);
    assert(s.push(e).last() == e);
}

impl AnchorRegistry {
    /// The store's contents: occupied addresses mapped to their records.
    pub open spec fn store(self) -> Map<Seq<u8>, AnchoredReport> {
        entries_map(self.entries@)
    }

    /// Validity: every occupied address is occupied once.
    pub open spec fn wf(self) -> bool {
        forall|i: int, j: int|
            0 <= i < j < self.entries@.len() ==> self.entries@[i].address@
                != self.entries@[j].address@
    }

    /// Creates an empty registry under the given program identity.
    pub fn new(program_id: Bytes32) -> (r: Self)
        ensures
            r.wf(),
            r.program_id == program_id,
            r.store() == Map::<Seq<u8>, AnchoredReport>::empty(),
    {
        AnchorRegistry { program_id, entries: Vec::new() }
    }

    /// Linear scan for the slot that holds `address`.
    fn find_entry(&self, address: &Bytes32) -> (r: Option<usize>)
        requires
            self.wf(),
        ensures
            match r {
                Some(i) => {
                    &&& i < self.entries@.len()
                    &&& self.entries@[i as int].address@ == address@
                    &&& self.store().contains_key(address@)
                    &&& self.store()[address@] == self.entries@[i as int].record
                },
                None => !self.store().contains_key(address@),
            },
    {
        let n = self.entries.len();
        let mut i: usize = 0;
        while i < n
            invariant
                self.wf(),
                n == self.entries@.len(),
                i <= n,
                forall|j: int| 0 <= j < i ==> self.entries@[j].address@ != address@,
            decreases n - i,
        {
            if bytes32_equal(&self.entries[i].address, address) {
                proof {
                    lemma_entries_map_at(self.entries@, i as int);
                }
                return Some(i);
            }
            i = i + 1;
        }
        proof {
            lemma_entries_map_domain(self.entries@, address@);
        }
        None
    }

    /// What `anchor_report` does to the store's contents, and what it
    /// returns, as a function of the state and the inputs: no viable address
    /// fails the derivation; an occupied address is left exactly as it was;
    /// a free address receives a record built from the inputs.
    pub open spec fn spec_anchor(
        store: Map<Seq<u8>, AnchoredReport>,
        program_id: Seq<u8>,
        reporter: Bytes32,
        analyzed_wallet: Bytes32,
        report_hash: Bytes32,
        now: i64,
    ) -> (Map<Seq<u8>, AnchoredReport>, Result<AnchoredReport, PrivacyReportError>) {
        match derived_of(program_id, report_namespace(), reporter@, report_hash@) {
            None => (store, Err(PrivacyReportError::AddressSpaceExhausted)),
            Some(ab) => if store.contains_key(ab.0) {
                (store, Err(PrivacyReportError::DuplicateReport))
            } else {
                let rec = (AnchoredReport {
                    reporter,
                    analyzed_wallet,
                    report_hash,
                    created_at: now,
                });
                (store.insert(ab.0, rec), Ok(rec))
            },
        }
    }

    /// What `verify_report` returns, as a function of the state and the
    /// inputs: the record at the derived address, `NotFound` when that
    /// address is free.
    pub open spec fn spec_verify(
        store: Map<Seq<u8>, AnchoredReport>,
        program_id: Seq<u8>,
        reporter: Bytes32,
        report_hash: Bytes32,
    ) -> Result<AnchoredReport, PrivacyReportError> {
        match derived_of(program_id, report_namespace(), reporter@, report_hash@) {
            None => Err(PrivacyReportError::AddressSpaceExhausted),
            Some(ab) => if store.contains_key(ab.0) {
                Ok(store[ab.0])
            } else {
                Err(PrivacyReportError::NotFound)
            },
        }
    }

    /// Anchors a report digest: creates the record at the address derived
    /// from `(reporter, report_hash)`, exactly once.
    ///
    /// `reporter` must be the authenticated caller's own identity; `now` is
    /// the caller's trusted clock reading, stored untouched as `created_at`.
    /// A second call for the same pair fails with `DuplicateReport` and
    /// leaves the store unchanged.
    pub fn anchor_report(
        &mut self,
        reporter: &Bytes32,
        analyzed_wallet: &Bytes32,
        report_hash: &Bytes32,
        now: i64,
    ) -> (r: Result<AnchoredReport, PrivacyReportError>)
        requires
            old(self).wf(),
        ensures
            final(self).wf(),
            final(self).program_id == old(self).program_id,
            (final(self).store(), r) == Self::spec_anchor(
                old(self).store(),
                old(self).program_id@,
                *reporter,
                *analyzed_wallet,
                *report_hash,
                now,
            ),
    {
        let namespace = report_namespace_bytes();
        let derived = crate::addressing::derive(
            &self.program_id,
            &namespace,
            reporter,
            report_hash,
        );
        match derived {
            Err(e) => Err(e),
            Ok((address, _bump)) => {
                match self.find_entry(&address) {
                    Some(_) => Err(PrivacyReportError::DuplicateReport),
                    None => {
                        let record = AnchoredReport {
                            reporter: *reporter,
                            analyzed_wallet: *analyzed_wallet,
                            report_hash: *report_hash,
                            created_at: now,
                        };
                        let ghost entries_before = self.entries@;
                        self.entries.push(StoredEntry { address, record });
                        proof {
                            lemma_entries_map_push(
                                entries_before,
                                StoredEntry { address, record },
                            );
                            lemma_entries_map_domain(entries_before, address@);
                            assert forall|i: int, j: int|
                                0 <= i < j < self.entries@.len() implies self.entries@[i].address@
                                != self.entries@[j].address@ by {
                                if j == self.entries@.len() - 1 {
                                    assert(self.entries@[i] == entries_before[i]);
                                }
                            }
                        }
                        Ok(record)
                    },
                }
            },
        }
    }

    /// Reads back the record anchored for `(reporter, report_hash)`, without
    /// authentication and without touching the store.
    ///
    /// Returns `NotFound` when no anchoring for that pair has happened: the
    /// address is a pure function of the pair and records are never removed,
    /// so a returned record proves that a past `anchor_report` call for
    /// exactly that pair succeeded.
    pub fn verify_report(&self, reporter: &Bytes32, report_hash: &Bytes32) -> (r: Result<
        AnchoredReport,
        PrivacyReportError,
    >)
        requires
            self.wf(),
        ensures
            r == Self::spec_verify(self.store(), self.program_id@, *reporter, *report_hash),
    {
        let namespace = report_namespace_bytes();
        let derived = crate::addressing::derive(
            &self.program_id,
            &namespace,
            reporter,
            report_hash,
        );
        match derived {
            Err(_) => Err(PrivacyReportError::AddressSpaceExhausted),
            Ok((address, _bump)) => {
                match self.find_entry(&address) {
                    Some(i) => Ok(self.entries[i].record),
                    None => Err(PrivacyReportError::NotFound),
                }
            },
        }
    }

    /// How many records the registry holds.
    pub fn record_count(&self) -> (n: usize)
        ensures
            n == self.entries@.len(),
    {
        self.entries.len()
    }
}

} // verus!
