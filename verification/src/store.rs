//! Executable models of the two durable stores, specified at their
//! interfaces.
//!
//! The blob store is byte storage addressed by an opaque location; the
//! metadata store is a record store keyed by identifier. Each is a sequence
//! of entries with distinct keys, viewed as a map, and each can be put into a
//! failing state so that callers' handling of a write that fails can be
//! exercised and its guarantees stated. Every operation is total: an
//! operation attempted in the failing state reports a storage error and
//! leaves the contents unchanged.

use vstd::prelude::*;
use vstd::slice::slice_to_vec;

use crate::assoc::{assoc_map, lemma_assoc_contains, lemma_assoc_push, lemma_assoc_remove,
    lemma_assoc_value, lemma_unique_remove, unique_keys};
use crate::error::AppError;
use crate::image_type::ImageType;

verus! {

/// The durable unit of metadata: who uploaded what, where its bytes live,
/// and the format the signature detector assigned to it.
pub struct ImageRecord {
    /// The system-generated identifier; never supplied by the client.
    pub id: String,
    /// The uploading principal, client-supplied and not validated further.
    pub owner_id: String,
    /// The location of the blob, resolvable by the blob store.
    pub location: String,
    /// The format determined by the signature detector at creation time;
    /// immutable once set.
    pub declared_type: ImageType,
}

/// The mathematical shadow of a record.
pub struct RecordView {
    pub id: Seq<char>,
    pub owner_id: Seq<char>,
    pub location: Seq<char>,
    pub declared_type: ImageType,
}

impl View for ImageRecord {
    type V = RecordView;

    open spec fn view(&self) -> RecordView {
        RecordView {
            id: self.id@,
            owner_id: self.owner_id@,
            location: self.location@,
            declared_type: self.declared_type,
        }
    }
}

impl ImageRecord {
    /// A field-for-field copy with the same view.
    pub fn duplicate(&self) -> (r: ImageRecord)
        ensures
            r@ == self@,
    {
        ImageRecord {
            id: self.id.clone(),
            owner_id: self.owner_id.clone(),
            location: self.location.clone(),
            declared_type: self.declared_type,
        }
    }
}

/// Durable byte storage addressed by location. Viewed as a map from
/// locations to byte strings.
pub struct BlobStore {
    entries: Vec<(String, Vec<u8>)>,
    fail: bool,
}

impl View for BlobStore {
    type V = Map<Seq<char>, Seq<u8>>;

    closed spec fn view(&self) -> Map<Seq<char>, Seq<u8>> {
        assoc_map(self.pairs())
    }
}

impl BlobStore {
    pub closed spec fn pairs(&self) -> Seq<(Seq<char>, Seq<u8>)> {
        self.entries@.map(|i: int, e: (String, Vec<u8>)| (e.0@, e.1@))
    }

    /// The entries carry distinct locations.
    pub closed spec fn wf(&self) -> bool {
        unique_keys(self.pairs())
    }

    /// Whether the store is in its failing state: while set, every write
    /// and delete reports a storage error and changes nothing.
    pub closed spec fn spec_fail(&self) -> bool {
        self.fail
    }

    pub fn new() -> (r: BlobStore)
        ensures
            r@ == Map::<Seq<char>, Seq<u8>>::empty(),
            r.wf(),
            !r.spec_fail(),
    {
        let r = BlobStore { entries: Vec::new(), fail: false };
        proof {
            assert(r.pairs() =~= Seq::<(Seq<char>, Seq<u8>)>::empty());
        }
        r
    }

    /// Put the store into, or take it out of, the failing state.
    pub fn set_fail(&mut self, fail: bool)
        ensures
            final(self)@ == old(self)@,
            final(self).wf() == old(self).wf(),
            final(self).spec_fail() == fail,
    {
        self.fail = fail;
    }

    /// The index of the entry at a location, if any.
    fn position(&self, location: &str) -> (r: Option<usize>)
        requires
            self.wf(),
        ensures
            match r {
                Some(i) => i < self.pairs().len() && self.pairs()[i as int].0 == location@
                    && self@.contains_key(location@) && self@[location@] == self.pairs()[i as int].1,
                None => !self@.contains_key(location@),
            },
    {
        let key = String::from_str(location);
        let n = self.entries.len();
        let mut i: usize = 0;
        while i < n
            invariant
                self.wf(),
                n == self.entries.len(),
                i <= n,
                key@ == location@,
                forall|j: int| 0 <= j < i ==> (#[trigger] self.pairs()[j]).0 != location@,
            decreases n - i,
        {
            if self.entries[i].0 == key {
                proof {
                    assert(self.pairs()[i as int].0 == location@);
                    lemma_assoc_value(self.pairs(), i as int);
                }
                return Some(i);
            }
            proof {
                assert(self.pairs()[i as int].0 != location@);
            }
            i += 1;
        }
        proof {
            lemma_assoc_contains(self.pairs(), location@);
        }
        None
    }

    /// Whether a blob is present at the location.
    pub fn contains(&self, location: &str) -> (r: bool)
        requires
            self.wf(),
        ensures
            r == self@.contains_key(location@),
    {
        self.position(location).is_some()
    }

    /// The bytes at a location, or nothing if no blob is there.
    pub fn read(&self, location: &str) -> (r: Option<Vec<u8>>)
        requires
            self.wf(),
        ensures
            match r {
                Some(b) => self@.contains_key(location@) && b@ == self@[location@],
                None => !self@.contains_key(location@),
            },
    {
        match self.position(location) {
            Some(i) => Some(slice_to_vec(self.entries[i].1.as_slice())),
            None => None,
        }
    }

    /// Write a new blob. The write succeeds exactly when the store is not
    /// failing and the location is unoccupied; on failure nothing changes.
    pub fn write_new(&mut self, location: &str, bytes: &[u8]) -> (r: Result<(), AppError>)
        requires
            old(self).wf(),
        ensures
            final(self).wf(),
            final(self).spec_fail() == old(self).spec_fail(),
            match r {
                Ok(()) => !old(self).spec_fail() && !old(self)@.contains_key(location@)
                    && final(self)@ == old(self)@.insert(location@, bytes@),
                Err(e) => e == AppError::Storage
                    && (old(self).spec_fail() || old(self)@.contains_key(location@))
                    && final(self)@ == old(self)@,
            },
    {
        if self.fail {
            return Err(AppError::Storage);
        }
        if self.position(location).is_some() {
            return Err(AppError::Storage);
        }
        let ghost old_pairs = self.pairs();
        self.entries.push((String::from_str(location), slice_to_vec(bytes)));
        proof {
            assert(self.pairs() =~= old_pairs.push((location@, bytes@)));
            lemma_assoc_push(old_pairs, location@, bytes@);
            lemma_assoc_contains(old_pairs, location@);
            assert forall|a: int, b: int|
                0 <= a < b < self.pairs().len() implies (#[trigger] self.pairs()[a]).0 != (
            #[trigger] self.pairs()[b]).0 by {
                if b < old_pairs.len() {
                    assert(old_pairs[a].0 != old_pairs[b].0);
                }
            }
        }
        Ok(())
    }

    /// Remove the blob at a location. Succeeds exactly when the store is not
    /// failing; removing an absent location is a harmless no-op.
    pub fn delete(&mut self, location: &str) -> (r: Result<(), AppError>)
        requires
            old(self).wf(),
        ensures
            final(self).wf(),
            final(self).spec_fail() == old(self).spec_fail(),
            match r {
                Ok(()) => !old(self).spec_fail() && final(self)@ == old(self)@.remove(location@),
                Err(e) => e == AppError::Storage && old(self).spec_fail()
                    && final(self)@ == old(self)@,
            },
    {
        if self.fail {
            return Err(AppError::Storage);
        }
        match self.position(location) {
            Some(i) => {
                let ghost old_pairs = self.pairs();
                self.entries.remove(i);
                proof {
                    assert(self.pairs() =~= old_pairs.remove(i as int));
                    lemma_assoc_remove(old_pairs, i as int);
                    lemma_unique_remove(old_pairs, i as int);
                }
                Ok(())
            },
            None => {
                proof {
                    assert(old(self)@.remove(location@) =~= old(self)@);
                }
                Ok(())
            },
        }
    }
}

/// Durable record storage keyed by identifier. Viewed as a map from
/// identifiers to record views.
pub struct MetadataStore {
    entries: Vec<ImageRecord>,
    fail: bool,
}

impl View for MetadataStore {
    type V = Map<Seq<char>, RecordView>;

    closed spec fn view(&self) -> Map<Seq<char>, RecordView> {
        assoc_map(self.pairs())
    }
}

impl MetadataStore {
    pub closed spec fn pairs(&self) -> Seq<(Seq<char>, RecordView)> {
        self.entries@.map(|i: int, r: ImageRecord| (r.id@, r@))
    }

    /// The entries carry distinct identifiers.
    pub closed spec fn wf(&self) -> bool {
        unique_keys(self.pairs())
    }

    /// Whether the store is in its failing state: while set, every insert
    /// and remove reports a storage error and changes nothing.
    pub closed spec fn spec_fail(&self) -> bool {
        self.fail
    }

    pub fn new() -> (r: MetadataStore)
        ensures
            r@ == Map::<Seq<char>, RecordView>::empty(),
            r.wf(),
            !r.spec_fail(),
    {
        let r = MetadataStore { entries: Vec::new(), fail: false };
        proof {
            assert(r.pairs() =~= Seq::<(Seq<char>, RecordView)>::empty());
        }
        r
    }

    /// Put the store into, or take it out of, the failing state.
    pub fn set_fail(&mut self, fail: bool)
        ensures
            final(self)@ == old(self)@,
            final(self).wf() == old(self).wf(),
            final(self).spec_fail() == fail,
    {
        self.fail = fail;
    }

    /// The index of the record with an identifier, if any.
    fn position(&self, id: &str) -> (r: Option<usize>)
        requires
            self.wf(),
        ensures
            match r {
                Some(i) => i < self.pairs().len() && self.pairs()[i as int].0 == id@
                    && self@.contains_key(id@) && self@[id@] == self.pairs()[i as int].1,
                None => !self@.contains_key(id@),
            },
    {
        let key = String::from_str(id);
        let n = self.entries.len();
        let mut i: usize = 0;
        while i < n
            invariant
                self.wf(),
                n == self.entries.len(),
                i <= n,
                key@ == id@,
                forall|j: int| 0 <= j < i ==> (#[trigger] self.pairs()[j]).0 != id@,
            decreases n - i,
        {
            if self.entries[i].id == key {
                proof {
                    assert(self.pairs()[i as int].0 == id@);
                    lemma_assoc_value(self.pairs(), i as int);
                }
                return Some(i);
            }
            proof {
                assert(self.pairs()[i as int].0 != id@);
            }
            i += 1;
        }
        proof {
            lemma_assoc_contains(self.pairs(), id@);
        }
        None
    }

    /// Whether a record with the identifier exists.
    pub fn contains(&self, id: &str) -> (r: bool)
        requires
            self.wf(),
        ensures
            r == self@.contains_key(id@),
    {
        self.position(id).is_some()
    }

    /// A copy of the record with the identifier, if any.
    pub fn get(&self, id: &str) -> (r: Option<ImageRecord>)
        requires
            self.wf(),
        ensures
            match r {
                Some(rec) => self@.contains_key(id@) && rec@ == self@[id@],
                None => !self@.contains_key(id@),
            },
    {
        match self.position(id) {
            Some(i) => Some(self.entries[i].duplicate()),
            None => None,
        }
    }

    /// Insert a new record. The insert succeeds exactly when the store is
    /// not failing and the identifier is unused; on failure nothing
    /// changes.
    pub fn insert(&mut self, record: ImageRecord) -> (r: Result<(), AppError>)
        requires
            old(self).wf(),
        ensures
            final(self).wf(),
            final(self).spec_fail() == old(self).spec_fail(),
            match r {
                Ok(()) => !old(self).spec_fail() && !old(self)@.contains_key(record@.id)
                    && final(self)@ == old(self)@.insert(record@.id, record@),
                Err(e) => e == AppError::Storage
                    && (old(self).spec_fail() || old(self)@.contains_key(record@.id))
                    && final(self)@ == old(self)@,
            },
    {
        if self.fail {
            return Err(AppError::Storage);
        }
        if self.position(record.id.as_str()).is_some() {
            return Err(AppError::Storage);
        }
        let ghost old_pairs = self.pairs();
        let ghost rv = record@;
        self.entries.push(record);
        proof {
            assert(self.pairs() =~= old_pairs.push((rv.id, rv)));
            lemma_assoc_push(old_pairs, rv.id, rv);
            lemma_assoc_contains(old_pairs, rv.id);
            assert forall|a: int, b: int|
                0 <= a < b < self.pairs().len() implies (#[trigger] self.pairs()[a]).0 != (
            #[trigger] self.pairs()[b]).0 by {
                if b < old_pairs.len() {
                    assert(old_pairs[a].0 != old_pairs[b].0);
                }
            }
        }
        Ok(())
    }

    /// Remove the record with an identifier. Succeeds exactly when the
    /// store is not failing; removing an absent identifier is a harmless
    /// no-op.
    pub fn remove(&mut self, id: &str) -> (r: Result<(), AppError>)
        requires
            old(self).wf(),
        ensures
            final(self).wf(),
            final(self).spec_fail() == old(self).spec_fail(),
            match r {
                Ok(()) => !old(self).spec_fail() && final(self)@ == old(self)@.remove(id@),
                Err(e) => e == AppError::Storage && old(self).spec_fail()
                    && final(self)@ == old(self)@,
            },
    {
        if self.fail {
            return Err(AppError::Storage);
        }
        match self.position(id) {
            Some(i) => {
                let ghost old_pairs = self.pairs();
                self.entries.remove(i);
                proof {
                    assert(self.pairs() =~= old_pairs.remove(i as int));
                    lemma_assoc_remove(old_pairs, i as int);
                    lemma_unique_remove(old_pairs, i as int);
                }
                Ok(())
            },
            None => {
                proof {
                    assert(old(self)@.remove(id@) =~= old(self)@);
                }
                Ok(())
            },
        }
    }
}

} // verus!
