//! The registry of known peers.
//!
//! The registry lives in memory. Its snapshot file is read and written by
//! the driver: `save_to_file` hands out what is to be written, and
//! `load_from_file` takes what reading the file produced.

use vstd::prelude::*;
use crate::assoc::{
    assoc_map, keys_distinct, lemma_assoc_dom, lemma_assoc_len, lemma_assoc_push,
    lemma_assoc_remove, lemma_assoc_update, lemma_assoc_value,
};
use crate::record::peer_record::{rebased, record_key, PeerRecord, PeerRecordView, StoredPeer};

verus! {

/// One entry of the registry.
struct PeerEntry {
    key: String,
    record: PeerRecord,
}

/// What reading the snapshot file produced.
#[derive(Debug)]
pub enum CacheRead {
    /// The file could not be opened: there is no snapshot.
    Missing,
    /// The file was opened and could not be read.
    Unreadable,
    /// The file was read and does not hold a snapshot.
    Malformed,
    /// The entries of the snapshot, each with its key, in the order in which
    /// the file gives them.
    Loaded(Vec<(String, StoredPeer)>),
}

/// Why a snapshot could not be loaded.
#[derive(Clone, Copy, Debug, PartialEq, Eq, Structural)]
pub enum CacheError {
    /// The file was opened and could not be read.
    Unreadable,
    /// The file was read and does not hold a snapshot.
    Malformed,
}

/// The entries of a snapshot as pairs of plain values.
pub open spec fn stored_pairs(entries: Seq<(String, StoredPeer)>) -> Seq<
    (Seq<char>, PeerRecordView),
> {
    entries.map_values(|e: (String, StoredPeer)| (e.0@, e.1@))
}

/// The registry that a snapshot stands for when it is read at time `now`.
/// Of two entries with one key the later one counts.
pub open spec fn restored(entries: Seq<(Seq<char>, PeerRecordView)>, now: u64) -> Map<
    Seq<char>,
    PeerRecordView,
> {
    assoc_map(entries).map_values(|r: PeerRecordView| rebased(r, now))
}

/// The table of known peers, keyed by identity or address text, with the
/// path of its snapshot file.
pub struct PeerManagement {
    known_peers: Vec<PeerEntry>,
    cache_file: String,
}

impl View for PeerManagement {
    type V = Map<Seq<char>, PeerRecordView>;

    /// The records that are filed, each under its key.
    closed spec fn view(&self) -> Map<Seq<char>, PeerRecordView> {
        assoc_map(self.pairs())
    }
}

impl PeerManagement {
    spec fn pairs(&self) -> Seq<(Seq<char>, PeerRecordView)> {
        self.known_peers@.map_values(|e: PeerEntry| (e.key@, e.record@))
    }

    /// No key is filed twice.
    pub closed spec fn wf(&self) -> bool {
        keys_distinct(self.pairs())
    }

    /// The path of the snapshot file.
    pub closed spec fn spec_cache_file(&self) -> Seq<char> {
        self.cache_file@
    }

    /// An empty registry whose snapshot lives at `cache_file`.
    pub fn new(cache_file: String) -> (registry: Self)
        ensures
            registry.wf(),
            registry@ == Map::<Seq<char>, PeerRecordView>::empty(),
            registry.spec_cache_file() == cache_file@,
    {
        let registry = PeerManagement { known_peers: Vec::new(), cache_file };
        assert(registry.pairs() =~= Seq::empty());
        registry
    }

    /// The path of the snapshot file.
    pub fn cache_file(&self) -> (path: &str)
        ensures
            path@ == self.spec_cache_file(),
    {
        self.cache_file.as_str()
    }

    /// The position of `key` in the registry.
    fn position(&self, key: &String) -> (found: Option<usize>)
        requires
            self.wf(),
        ensures
            match found {
                Some(i) => i < self.known_peers.len() && self.known_peers[i as int].key@ == key@
                    && self@.dom().contains(key@) && self@[key@]
                    == self.known_peers[i as int].record@,
                None => !self@.dom().contains(key@),
            },
    {
        let mut i: usize = 0;
        while i < self.known_peers.len()
            invariant
                self.wf(),
                i <= self.known_peers.len(),
                forall|j: int| 0 <= j < i ==> self.known_peers[j].key@ != key@,
            decreases self.known_peers.len() - i,
        {
            if self.known_peers[i].key == *key {
                proof {
                    lemma_assoc_value(self.pairs(), i as int);
                }
                return Some(i);
            }
            i += 1;
        }
        proof {
            lemma_assoc_dom(self.pairs(), key@);
        }
        None
    }

    /// Files `record` under `key`, in place of what was filed there.
    fn insert(&mut self, key: String, record: PeerRecord)
        requires
            old(self).wf(),
        ensures
            final(self).wf(),
            final(self)@ == old(self)@.insert(key@, record@),
            final(self).spec_cache_file() == old(self).spec_cache_file(),
    {
        let ghost before = self.pairs();
        match self.position(&key) {
            Some(i) => {
                proof {
                    lemma_assoc_update(before, i as int, record@);
                }
                self.known_peers.set(i, PeerEntry { key, record });
                assert(self.pairs() =~= before.update(i as int, (key@, record@)));
            },
            None => {
                proof {
                    lemma_assoc_push(before, key@, record@);
                }
                self.known_peers.push(PeerEntry { key, record });
                assert(self.pairs() =~= before.push((key@, record@)));
            },
        }
    }

    /// Inserts the record, or replaces the one that is filed under its key.
    /// Nothing is written to the snapshot file.
    pub fn add_or_update_peer(&mut self, peer: PeerRecord)
        requires
            old(self).wf(),
        ensures
            final(self).wf(),
            final(self)@ == old(self)@.insert(record_key(peer@), peer@),
            final(self).spec_cache_file() == old(self).spec_cache_file(),
    {
        let key = peer.key();
        self.insert(key, peer);
    }

    /// Removes the record that is filed under `peer_id`, if there is one,
    /// and hands back the snapshot to write to the file: the registry as it
    /// is after the removal, stored at time `now`.
    pub fn remove_peer(&mut self, peer_id: &str, now: u64) -> (snapshot: Vec<(String, StoredPeer)>)
        requires
            old(self).wf(),
        ensures
            final(self).wf(),
            final(self)@ == old(self)@.remove(peer_id@),
            final(self).spec_cache_file() == old(self).spec_cache_file(),
            keys_distinct(stored_pairs(snapshot@)),
            assoc_map(stored_pairs(snapshot@)) == final(self)@.map_values(
                |r: PeerRecordView| rebased(r, now),
            ),
    {
        let key = peer_id.to_owned();
        let ghost before = self.pairs();
        match self.position(&key) {
            Some(i) => {
                proof {
                    lemma_assoc_remove(before, i as int);
                }
                self.known_peers.remove(i);
                assert(self.pairs() =~= before.remove(i as int));
            },
            None => {
                assert(self@.remove(peer_id@) =~= self@);
            },
        }
        self.save_to_file(now)
    }

    /// Takes in what reading the snapshot file at time `now` produced.
    ///
    /// A missing file is no error: the registry stays as it is. A file that
    /// cannot be read, or that holds no snapshot, is an error and leaves the
    /// registry as it is. A snapshot replaces the registry.
    pub fn load_from_file(&mut self, read: CacheRead, now: u64) -> (outcome: Result<
        (),
        CacheError,
    >)
        requires
            old(self).wf(),
        ensures
            final(self).wf(),
            final(self).spec_cache_file() == old(self).spec_cache_file(),
            match read {
                CacheRead::Missing => outcome == Ok::<(), CacheError>(()) && final(self)@ == old(
                    self,
                )@,
                CacheRead::Unreadable => outcome == Err::<(), CacheError>(CacheError::Unreadable)
                    && final(self)@ == old(self)@,
                CacheRead::Malformed => outcome == Err::<(), CacheError>(CacheError::Malformed)
                    && final(self)@ == old(self)@,
                CacheRead::Loaded(entries) => outcome == Ok::<(), CacheError>(()) && final(self)@
                    == restored(stored_pairs(entries@), now),
            },
    {
        match read {
            CacheRead::Missing => Ok(()),
            CacheRead::Unreadable => Err(CacheError::Unreadable),
            CacheRead::Malformed => Err(CacheError::Malformed),
            CacheRead::Loaded(entries) => {
                self.known_peers = Vec::new();
                assert(self.pairs() =~= Seq::empty());
                let ghost all = stored_pairs(entries@);
                assert(all.take(0) =~= Seq::empty());
                assert(restored(all.take(0), now) =~= Map::empty());
                let mut i: usize = 0;
                while i < entries.len()
                    invariant
                        self.wf(),
                        self.spec_cache_file() == old(self).spec_cache_file(),
                        i <= entries.len(),
                        all == stored_pairs(entries@),
                        self@ == restored(all.take(i as int), now),
                    decreases entries.len() - i,
                {
                    let key = entries[i].0.clone();
                    let record = PeerRecord::from_stored(&entries[i].1, now);
                    self.insert(key, record);
                    proof {
                        let head = all.take(i as int);
                        let (k, v) = all[i as int];
                        assert(all.take(i as int + 1) =~= head.push((k, v)));
                        lemma_assoc_push(head, k, v);
                        assert(restored(head.push((k, v)), now) =~= restored(head, now).insert(
                            k,
                            rebased(v, now),
                        ));
                    }
                    i += 1;
                }
                assert(all.take(entries.len() as int) =~= all);
                Ok(())
            },
        }
    }

    /// The snapshot to write to the file: every record of the registry with
    /// its key, stored at time `now`.
    pub fn save_to_file(&self, now: u64) -> (snapshot: Vec<(String, StoredPeer)>)
        requires
            self.wf(),
        ensures
            keys_distinct(stored_pairs(snapshot@)),
            assoc_map(stored_pairs(snapshot@)) == self@.map_values(
                |r: PeerRecordView| rebased(r, now),
            ),
    {
        let mut snapshot: Vec<(String, StoredPeer)> = Vec::new();
        let mut i: usize = 0;
        while i < self.known_peers.len()
            invariant
                i <= self.known_peers.len(),
                snapshot@.len() == i,
                forall|j: int|
                    0 <= j < i ==> (#[trigger] snapshot@[j]).0@ == self.known_peers[j].key@
                        && snapshot@[j].1@ == rebased(self.known_peers[j].record@, now),
            decreases self.known_peers.len() - i,
        {
            let entry = &self.known_peers[i];
            snapshot.push((entry.key.clone(), entry.record.to_stored(now)));
            i += 1;
        }
        proof {
            let pairs = self.pairs();
            let stored = stored_pairs(snapshot@);
            assert forall|a: int, b: int| 0 <= a < b < stored.len() implies stored[a].0
                != stored[b].0 by {
                assert(snapshot@[a].0@ == pairs[a].0);
                assert(snapshot@[b].0@ == pairs[b].0);
            }
            let lhs = assoc_map(stored);
            let rhs = self@.map_values(|r: PeerRecordView| rebased(r, now));
            assert forall|k: Seq<char>| lhs.dom().contains(k) <==> rhs.dom().contains(k) by {
                lemma_assoc_dom(stored, k);
                lemma_assoc_dom(pairs, k);
                if lhs.dom().contains(k) {
                    let j = choose|j: int| 0 <= j < stored.len() && stored[j].0 == k;
                    assert(snapshot@[j].0@ == pairs[j].0);
                }
                if rhs.dom().contains(k) {
                    let j = choose|j: int| 0 <= j < pairs.len() && pairs[j].0 == k;
                    assert(snapshot@[j].0@ == pairs[j].0);
                    assert(stored[j].0 == k);
                }
            }
            assert forall|k: Seq<char>| lhs.dom().contains(k) implies lhs[k] == rhs[k] by {
                lemma_assoc_dom(stored, k);
                let j = choose|j: int| 0 <= j < stored.len() && stored[j].0 == k;
                assert(snapshot@[j].0@ == pairs[j].0);
                lemma_assoc_value(stored, j);
                lemma_assoc_value(pairs, j);
            }
            assert(lhs =~= rhs);
        }
        snapshot
    }

    /// A copy of the record that is filed under `peer_id`, if there is one.
    pub fn get_peer(&self, peer_id: &str) -> (found: Option<PeerRecord>)
        requires
            self.wf(),
        ensures
            match found {
                Some(record) => self@.dom().contains(peer_id@) && record@ == self@[peer_id@],
                None => !self@.dom().contains(peer_id@),
            },
    {
        let key = peer_id.to_owned();
        match self.position(&key) {
            Some(i) => Some(self.known_peers[i].record.clone()),
            None => None,
        }
    }

    /// The keys of the registry, each once.
    pub fn get_all_peers(&self) -> (keys: Vec<String>)
        requires
            self.wf(),
        ensures
            keys@.len() == self@.dom().len(),
            forall|a: int, b: int| 0 <= a < b < keys@.len() ==> keys@[a]@ != keys@[b]@,
            forall|a: int| 0 <= a < keys@.len() ==> self@.dom().contains(#[trigger] keys@[a]@),
            forall|k: Seq<char>|
                self@.dom().contains(k) ==> exists|a: int|
                    0 <= a < keys@.len() && #[trigger] keys@[a]@ == k,
    {
        let mut keys: Vec<String> = Vec::new();
        let mut i: usize = 0;
        while i < self.known_peers.len()
            invariant
                i <= self.known_peers.len(),
                keys@.len() == i,
                forall|j: int| 0 <= j < i ==> (#[trigger] keys@[j])@ == self.known_peers[j].key@,
            decreases self.known_peers.len() - i,
        {
            keys.push(self.known_peers[i].key.clone());
            i += 1;
        }
        proof {
            let pairs = self.pairs();
            lemma_assoc_len(pairs);
            assert forall|a: int, b: int| 0 <= a < b < keys@.len() implies keys@[a]@
                != keys@[b]@ by {
                assert(keys@[a]@ == pairs[a].0);
                assert(keys@[b]@ == pairs[b].0);
            }
            assert forall|a: int| 0 <= a < keys@.len() implies self@.dom().contains(
                #[trigger] keys@[a]@,
            ) by {
                assert(keys@[a]@ == pairs[a].0);
                lemma_assoc_dom(pairs, pairs[a].0);
            }
            assert forall|k: Seq<char>| self@.dom().contains(k) implies exists|a: int|
                0 <= a < keys@.len() && #[trigger] keys@[a]@ == k by {
                lemma_assoc_dom(pairs, k);
                let j = choose|j: int| 0 <= j < pairs.len() && pairs[j].0 == k;
                assert(keys@[j]@ == k);
            }
        }
        keys
    }
}

/// Upsert, then get: after a record has been inserted or replaced, the key
/// of the record leads to that record.
pub proof fn lemma_upsert_then_get(registry: Map<Seq<char>, PeerRecordView>, record: PeerRecordView)
    ensures
        registry.insert(record_key(record), record).dom().contains(record_key(record)),
        registry.insert(record_key(record), record)[record_key(record)] == record,
{
}

/// An upsert replaces in place: every other key keeps its record, and the
/// registry holds one record for the key, whether or not it held one before.
pub proof fn lemma_upsert_keeps_others(
    registry: Map<Seq<char>, PeerRecordView>,
    record: PeerRecordView,
    other: Seq<char>,
)
    requires
        other != record_key(record),
    ensures
        registry.insert(record_key(record), record).dom().contains(other)
            == registry.dom().contains(other),
        registry.dom().contains(other) ==> registry.insert(record_key(record), record)[other]
            == registry[other],
{
}

/// Remove, then get: a key that has been removed leads to no record, and
/// what is written to the snapshot file, or fails to be, has no part in
/// that.
pub proof fn lemma_remove_then_get(registry: Map<Seq<char>, PeerRecordView>, key: Seq<char>)
    ensures
        !registry.remove(key).dom().contains(key),
{
}

/// Save, then load: a snapshot that was taken of `registry` at one time
/// and is read at another gives a registry with the same keys, and under
/// each key a record with the same address, identity, public key and
/// liveness. A record that had been seen is seen in the loaded registry
/// too; the time may differ.
pub proof fn lemma_save_then_load(
    registry: Map<Seq<char>, PeerRecordView>,
    snapshot: Seq<(Seq<char>, PeerRecordView)>,
    saved_at: u64,
    loaded_at: u64,
)
    requires
        assoc_map(snapshot) == registry.map_values(|r: PeerRecordView| rebased(r, saved_at)),
    ensures
        restored(snapshot, loaded_at).dom() == registry.dom(),
        forall|k: Seq<char>| #[trigger]
            registry.dom().contains(k) ==> {
                let before = registry[k];
                let after = restored(snapshot, loaded_at)[k];
                &&& after.addr == before.addr
                &&& after.peer_id == before.peer_id
                &&& after.public_key == before.public_key
                &&& after.is_active == before.is_active
                &&& (after.last_seen is Some) == (before.last_seen is Some)
            },
{
    assert(restored(snapshot, loaded_at).dom() =~= registry.dom());
}

} // verus!
