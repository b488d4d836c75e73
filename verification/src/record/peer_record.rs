//! What the node knows of one remote endpoint.

use vstd::prelude::*;
use crate::record::peer_addr::{addr_text, PeerAddr};

verus! {

/// One known remote endpoint.
#[derive(Debug)]
pub struct PeerRecord {
    /// Where the peer is reached.
    pub addr: PeerAddr,
    /// The identity of the peer, once it has one.
    pub peer_id: Option<String>,
    /// The public key of the peer; the registry does not read it.
    pub public_key: Option<String>,
    /// Whether the peer is taken to be alive.
    pub is_active: bool,
    /// When the peer was last heard of, on the node's monotonic clock.
    pub last_seen: Option<u64>,
}

/// A `PeerRecord` with its strings as sequences of characters.
pub struct PeerRecordView {
    pub addr: PeerAddr,
    pub peer_id: Option<Seq<char>>,
    pub public_key: Option<Seq<char>>,
    pub is_active: bool,
    pub last_seen: Option<u64>,
}

/// An optional string as an optional sequence of characters.
pub open spec fn text_view(s: Option<String>) -> Option<Seq<char>> {
    match s {
        Some(s) => Some(s@),
        None => None,
    }
}

impl View for PeerRecord {
    type V = PeerRecordView;

    open spec fn view(&self) -> PeerRecordView {
        PeerRecordView {
            addr: self.addr,
            peer_id: text_view(self.peer_id),
            public_key: text_view(self.public_key),
            is_active: self.is_active,
            last_seen: self.last_seen,
        }
    }
}

/// The key under which the registry files a record: the identity of the
/// peer where it has one, else the text of its address.
pub open spec fn record_key(record: PeerRecordView) -> Seq<char> {
    match record.peer_id {
        Some(id) => id,
        None => addr_text(record.addr),
    }
}

/// A copy of an optional string.
pub fn clone_text(s: &Option<String>) -> (copy: Option<String>)
    ensures
        text_view(copy) == text_view(*s),
{
    match s {
        Some(s) => Some(s.clone()),
        None => None,
    }
}

impl Clone for PeerRecord {
    fn clone(&self) -> (copy: Self)
        ensures
            copy@ == self@,
    {
        PeerRecord {
            addr: self.addr,
            peer_id: clone_text(&self.peer_id),
            public_key: clone_text(&self.public_key),
            is_active: self.is_active,
            last_seen: self.last_seen,
        }
    }
}

/// The record of a peer that was heard of at `now` and of which nothing but
/// the address is known: it is active, without identity or key.
pub open spec fn sighting(addr: PeerAddr, now: u64) -> PeerRecordView {
    PeerRecordView {
        addr,
        peer_id: None,
        public_key: None,
        is_active: true,
        last_seen: Some(now),
    }
}

/// The time units between `earlier` and `now`; none where `earlier` is not
/// before `now`.
pub open spec fn gap(now: u64, earlier: u64) -> u64 {
    if now >= earlier {
        (now - earlier) as u64
    } else {
        0
    }
}

/// A time on the clock as its distance from `now`, and back: a record is
/// stored with the time that has passed since the peer was seen, and read
/// with the time at which it was seen, counted back from the time of
/// reading.
pub open spec fn relative_to(now: u64, time: Option<u64>) -> Option<u64> {
    match time {
        Some(t) => Some(gap(now, t)),
        None => None,
    }
}

/// A record as it is stored: `last_seen` holds the time units that had
/// passed since the peer was seen when the record was stored.
#[derive(Debug)]
pub struct StoredPeer {
    pub addr: PeerAddr,
    pub peer_id: Option<String>,
    pub public_key: Option<String>,
    pub is_active: bool,
    pub last_seen: Option<u64>,
}

impl View for StoredPeer {
    type V = PeerRecordView;

    open spec fn view(&self) -> PeerRecordView {
        PeerRecordView {
            addr: self.addr,
            peer_id: text_view(self.peer_id),
            public_key: text_view(self.public_key),
            is_active: self.is_active,
            last_seen: self.last_seen,
        }
    }
}

/// The record with its `last_seen` taken relative to `now`: the stored form
/// of a live record, and the live form of a stored one.
pub open spec fn rebased(record: PeerRecordView, now: u64) -> PeerRecordView {
    PeerRecordView { last_seen: relative_to(now, record.last_seen), ..record }
}

/// The time units between `earlier` and `now`.
pub fn gap_between(now: u64, earlier: u64) -> (g: u64)
    ensures
        g == gap(now, earlier),
{
    if now >= earlier {
        now - earlier
    } else {
        0
    }
}

impl PeerRecord {
    /// The record of a peer heard of at `now`, known by its address alone.
    pub fn seen(addr: PeerAddr, now: u64) -> (record: PeerRecord)
        ensures
            record@ == sighting(addr, now),
    {
        PeerRecord {
            addr,
            peer_id: None,
            public_key: None,
            is_active: true,
            last_seen: Some(now),
        }
    }

    /// The key under which the registry files this record.
    pub fn key(&self) -> (key: String)
        ensures
            key@ == record_key(self@),
    {
        match &self.peer_id {
            Some(id) => id.clone(),
            None => self.addr.to_text(),
        }
    }

    /// The record as it is stored at time `now`.
    pub fn to_stored(&self, now: u64) -> (stored: StoredPeer)
        ensures
            stored@ == rebased(self@, now),
    {
        StoredPeer {
            addr: self.addr,
            peer_id: clone_text(&self.peer_id),
            public_key: clone_text(&self.public_key),
            is_active: self.is_active,
            last_seen: match self.last_seen {
                Some(t) => Some(gap_between(now, t)),
                None => None,
            },
        }
    }

    /// The live record for a stored one that is read at time `now`.
    pub fn from_stored(stored: &StoredPeer, now: u64) -> (record: PeerRecord)
        ensures
            record@ == rebased(stored@, now),
    {
        PeerRecord {
            addr: stored.addr,
            peer_id: clone_text(&stored.peer_id),
            public_key: clone_text(&stored.public_key),
            is_active: stored.is_active,
            last_seen: match stored.last_seen {
                Some(s) => Some(gap_between(now, s)),
                None => None,
            },
        }
    }
}

} // verus!
