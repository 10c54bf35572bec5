//! The trusted-network registry: the persisted set of SSIDs the user has
//! designated as acceptable failover targets.
//!
//! The records live in one segment of a persy storage file, one raw SSID per
//! record. Every mutation runs inside a persy transaction, so a concurrent
//! reader observes either the pre- or the post-state, never a partial one.
//! The registry is the sole writer of the segment; its contents are modelled
//! as a multiset of decoded SSIDs, empty while the segment does not exist.

use vstd::multiset::Multiset;
use vstd::prelude::*;

verus! {

broadcast use vstd::seq_lib::group_to_multiset_ensures;

/// A registry mutation or scan that the storage engine refused.
#[derive(Debug)]
pub struct StoreError {
    pub message: String,
}

#[verifier::external_type_specification]
#[verifier::external_body]
pub struct ExPersy(persy::Persy);

#[verifier::external_type_specification]
#[verifier::external_body]
pub struct ExPersyId(persy::PersyId);

// The committed records of the backup-SSID segment of `p`, each decoded as
// text; empty while the segment does not exist. The registry assumes sole
// write access to the segment, through this handle.
pub uninterp spec fn stored_ssids(p: persy::Persy) -> Multiset<Seq<char>>;

// The decoded content of the committed record `id` of the backup-SSID
// segment of `p`.
pub uninterp spec fn record_ssid(p: persy::Persy, id: persy::PersyId) -> Seq<char>;

/// Relies on `persy::Persy::scan`: iterating a segment yields every committed
/// record with its identifier; a missing segment is reported as
/// `SegmentError::SegmentNotFound` and stands for the empty registry. The
/// iterator reads pages from the device and has no error channel of its own,
/// so completeness of the listing rests on the device reading back what was
/// committed.
#[verifier::external_body]
fn scan_store(p: &persy::Persy) -> (r: Result<Vec<(persy::PersyId, String)>, StoreError>)
    ensures
        r matches Ok(pairs) ==> {
            &&& pairs@.map_values(|pr: (persy::PersyId, String)| pr.1@).to_multiset()
                == stored_ssids(*p)
            &&& forall|i: int|
                0 <= i < pairs@.len() ==> record_ssid(*p, (#[trigger] pairs@[i]).0) == pairs@[i].1@
        },
{
    let mut out: Vec<(persy::PersyId, String)> = Vec::new();
    let iter = match p.scan("ssids") {
        Ok(it) => it,
        Err(persy::PE::PE(persy::SegmentError::SegmentNotFound)) => return Ok(out),
        Err(e) => return Err(StoreError { message: e.to_string() }),
    };
    for (id, bytes) in iter {
        match String::from_utf8(bytes) {
            Ok(s) => out.push((id, s)),
            Err(e) => return Err(StoreError { message: e.to_string() }),
        }
    }
    Ok(out)
}

/// Relies on persy transactions: `begin`, `create_segment` (already-existing
/// is tolerated, making the create idempotent), `insert` of the raw SSID
/// bytes, and `commit`; a transaction that fails or is dropped before commit
/// rolls back.
#[verifier::external_body]
fn insert_record(p: &mut persy::Persy, ssid: &str) -> (r: Result<(), StoreError>)
    ensures
        r is Ok ==> stored_ssids(*final(p)) == stored_ssids(*old(p)).insert(ssid@),
        r is Err ==> stored_ssids(*final(p)) == stored_ssids(*old(p)),
{
    let mut tx = p.begin().map_err(|e| StoreError { message: e.to_string() })?;
    match tx.create_segment("ssids") {
        Ok(_) | Err(persy::PE::PE(persy::CreateSegmentError::SegmentAlreadyExists)) => {},
        Err(e) => return Err(StoreError { message: e.to_string() }),
    }
    tx.insert("ssids", ssid.as_bytes()).map_err(|e| StoreError { message: e.to_string() })?;
    tx.commit().map_err(|e| StoreError { message: e.to_string() })
}

/// Relies on persy transactions: `begin`, `delete` of one record by its
/// identifier, and `commit`; a transaction that fails or is dropped before
/// commit rolls back.
#[verifier::external_body]
fn delete_record(p: &mut persy::Persy, id: persy::PersyId) -> (r: Result<(), StoreError>)
    requires
        stored_ssids(*old(p)).count(record_ssid(*old(p), id)) > 0,
    ensures
        r is Ok ==> stored_ssids(*final(p)) == stored_ssids(*old(p)).remove(
            record_ssid(*old(p), id),
        ),
        r is Err ==> stored_ssids(*final(p)) == stored_ssids(*old(p)),
{
    let mut tx = p.begin().map_err(|e| StoreError { message: e.to_string() })?;
    tx.delete("ssids", &id).map_err(|e| StoreError { message: e.to_string() })?;
    tx.commit().map_err(|e| StoreError { message: e.to_string() })
}

/// What a successful `add` leaves in the registry: the SSID is inserted only
/// when absent, so adding is idempotent.
pub open spec fn spec_add(s: Multiset<Seq<char>>, ssid: Seq<char>) -> Multiset<Seq<char>> {
    if s.count(ssid) == 0 {
        s.insert(ssid)
    } else {
        s
    }
}

/// What a successful `remove` leaves in the registry: one occurrence fewer,
/// and an absent SSID leaves the registry unchanged.
pub open spec fn spec_remove(s: Multiset<Seq<char>>, ssid: Seq<char>) -> Multiset<Seq<char>> {
    s.remove(ssid)
}

/// The persisted registry of trusted SSIDs.
pub struct Registry {
    store: persy::Persy,
}

impl Registry {
    /// The persisted contents, as a multiset of SSIDs.
    pub closed spec fn ssids(self) -> Multiset<Seq<char>> {
        stored_ssids(self.store)
    }

    /// A registry over an opened storage handle.
    pub fn new(store: persy::Persy) -> (r: Registry)
        ensures
            r.ssids() == stored_ssids(store),
    {
        Registry { store }
    }

    /// The trusted SSIDs in storage scan order.
    pub fn list(&self) -> (r: Result<Vec<String>, StoreError>)
        ensures
            r matches Ok(l) ==> l.deep_view().to_multiset() == self.ssids(),
    {
        let pairs = match scan_store(&self.store) {
            Ok(p) => p,
            Err(e) => {
                return Err(e);
            },
        };
        let ghost mapped = pairs@.map_values(|pr: (persy::PersyId, String)| pr.1@);
        let mut out: Vec<String> = Vec::new();
        let mut i: usize = 0;
        while i < pairs.len()
            invariant
                0 <= i <= pairs@.len(),
                mapped == pairs@.map_values(|pr: (persy::PersyId, String)| pr.1@),
                mapped.to_multiset() == self.ssids(),
                out.deep_view() =~= mapped.subrange(0, i as int),
            decreases pairs@.len() - i,
        {
            let ghost old_out = out.deep_view();
            out.push(pairs[i].1.clone());
            proof {
                assert(out.deep_view() =~= old_out.push(mapped[i as int]));
                assert(out.deep_view() =~= mapped.subrange(0, i + 1 as int));
            }
            i = i + 1;
        }
        proof {
            assert(mapped.subrange(0, mapped.len() as int) =~= mapped);
            assert(out.deep_view().to_multiset() == self.ssids());
        }
        Ok(out)
    }

    /// Adds `ssid` to the registry.
    ///
    /// The write path checks existence first and inserts only when the SSID
    /// is absent, so a second add of the same SSID commits nothing and still
    /// succeeds. The mutation is one transaction: a refused add leaves the
    /// registry unchanged.
    pub fn add(&mut self, ssid: &String) -> (r: Result<(), StoreError>)
        ensures
            r is Ok ==> final(self).ssids() == spec_add(old(self).ssids(), ssid@),
            r is Err ==> final(self).ssids() == old(self).ssids(),
    {
        let ghost s0 = self.ssids();
        let pairs = match scan_store(&self.store) {
            Ok(p) => p,
            Err(e) => {
                return Err(e);
            },
        };
        let ghost mapped = pairs@.map_values(|pr: (persy::PersyId, String)| pr.1@);
        let mut i: usize = 0;
        while i < pairs.len()
            invariant
                0 <= i <= pairs@.len(),
                s0 == self.ssids(),
                mapped == pairs@.map_values(|pr: (persy::PersyId, String)| pr.1@),
                mapped.to_multiset() == s0,
                forall|j: int| 0 <= j < i ==> #[trigger] mapped[j] != ssid@,
            decreases pairs@.len() - i,
        {
            if pairs[i].1 == *ssid {
                proof {
                    assert(mapped[i as int] == ssid@);
                    assert(mapped.to_multiset().count(ssid@) > 0);
                }
                return Ok(());
            }
            i = i + 1;
        }
        proof {
            assert(forall|j: int| 0 <= j < mapped.len() ==> #[trigger] mapped[j] != ssid@);
            assert(!mapped.contains(ssid@));
            assert(mapped.to_multiset().count(ssid@) == 0);
        }
        insert_record(&mut self.store, ssid.as_str())
    }

    /// Removes `ssid` from the registry.
    ///
    /// The scan looks for a matching record and deletes it inside a
    /// transaction; with no matching record the removal is a no-op success.
    /// A refused removal leaves the registry unchanged.
    pub fn remove(&mut self, ssid: &String) -> (r: Result<(), StoreError>)
        ensures
            r is Ok ==> final(self).ssids() == spec_remove(old(self).ssids(), ssid@),
            r is Err ==> final(self).ssids() == old(self).ssids(),
            old(self).ssids().count(ssid@) == 0 && r is Ok ==> final(self).ssids() == old(
                self,
            ).ssids(),
    {
        let ghost s0 = self.ssids();
        let pairs = match scan_store(&self.store) {
            Ok(p) => p,
            Err(e) => {
                return Err(e);
            },
        };
        let ghost mapped = pairs@.map_values(|pr: (persy::PersyId, String)| pr.1@);
        let mut i: usize = 0;
        while i < pairs.len()
            invariant
                0 <= i <= pairs@.len(),
                self.store == old(self).store,
                s0 == old(self).ssids(),
                s0 == self.ssids(),
                mapped == pairs@.map_values(|pr: (persy::PersyId, String)| pr.1@),
                mapped.to_multiset() == s0,
                forall|j: int|
                    0 <= j < pairs@.len() ==> record_ssid(self.store, (#[trigger] pairs@[j]).0)
                        == pairs@[j].1@,
                forall|j: int| 0 <= j < i ==> #[trigger] mapped[j] != ssid@,
            decreases pairs@.len() - i,
        {
            if pairs[i].1 == *ssid {
                let ghost pre_store = self.store;
                proof {
                    assert(mapped[i as int] == ssid@);
                    assert(mapped.to_multiset().count(ssid@) > 0);
                    assert(record_ssid(pre_store, pairs@[i as int].0) == ssid@);
                    assert(stored_ssids(pre_store).count(ssid@) > 0);
                }
                let res = delete_record(&mut self.store, pairs[i].0);
                proof {
                    if res is Ok {
                        assert(stored_ssids(self.store) == stored_ssids(pre_store).remove(ssid@));
                        assert(self.ssids() == spec_remove(s0, ssid@));
                    }
                }
                return res;
            }
            i = i + 1;
        }
        proof {
            assert(forall|j: int| 0 <= j < mapped.len() ==> #[trigger] mapped[j] != ssid@);
            assert(!mapped.contains(ssid@));
            assert(mapped.to_multiset().count(ssid@) == 0);
            assert(spec_remove(s0, ssid@) =~= s0);
        }
        Ok(())
    }
}

/// Adding is idempotent: a second add of the same SSID changes nothing, and
/// from a registry without the SSID the two adds leave exactly one entry.
pub proof fn lemma_add_idempotent(s: Multiset<Seq<char>>, ssid: Seq<char>)
    ensures
        spec_add(spec_add(s, ssid), ssid) == spec_add(s, ssid),
        s.count(ssid) == 0 ==> spec_add(s, ssid).count(ssid) == 1,
{
    broadcast use vstd::multiset::group_multiset_axioms;

    if s.count(ssid) == 0 {
        assert(spec_add(s, ssid).count(ssid) == 1);
    }
}

/// Removing an absent SSID is a no-op: the registry is left unchanged.
pub proof fn lemma_remove_absent(s: Multiset<Seq<char>>, ssid: Seq<char>)
    requires
        s.count(ssid) == 0,
    ensures
        spec_remove(s, ssid) == s,
{
    broadcast use vstd::multiset::group_multiset_axioms;

    assert(spec_remove(s, ssid) =~= s);
}

/// Round trip: after an add the SSID is present; after a remove from a
/// registry holding it at most once, it is absent.
pub proof fn lemma_round_trip(s: Multiset<Seq<char>>, ssid: Seq<char>)
    requires
        s.count(ssid) <= 1,
    ensures
        spec_add(s, ssid).count(ssid) > 0,
        spec_remove(spec_add(s, ssid), ssid).count(ssid) == 0,
        spec_remove(s, ssid).count(ssid) == 0,
{
    broadcast use vstd::multiset::group_multiset_axioms;

}

/// A registry that holds every SSID at most once keeps that shape across
/// adds and removes.
pub proof fn lemma_mutations_preserve_uniqueness(s: Multiset<Seq<char>>, ssid: Seq<char>)
    requires
        forall|x: Seq<char>| #[trigger] s.count(x) <= 1,
    ensures
        forall|x: Seq<char>| #[trigger] spec_add(s, ssid).count(x) <= 1,
        forall|x: Seq<char>| #[trigger] spec_remove(s, ssid).count(x) <= 1,
{
    broadcast use vstd::multiset::group_multiset_axioms;

}

} // verus!
