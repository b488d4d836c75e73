//! Stream and datagram channels and the facade over both.

pub mod tcp_transport;
pub mod udp_transport;

use vstd::prelude::*;
use crate::record::peer_addr::addr_text;
use crate::record::peer_management::{restored, stored_pairs};
use crate::record::peer_record::{rebased, sighting, PeerRecordView};
use crate::record::{CacheError, CacheRead, PeerAddr, PeerManagement, PeerRecord, StoredPeer};
use crate::assoc::{assoc_map, keys_distinct};
use tcp_transport::{broadcast_start, Broadcast, PeerPhase, TransportError};

pub use tcp_transport::TcpTransport;
pub use udp_transport::UdpTransport;

verus! {

/// What the dispatch loop observed.
#[derive(Debug)]
pub enum InboxEvent {
    /// The inbox handed over bytes that arrived from this address.
    Message(PeerAddr, Vec<u8>),
    /// The inbox has no sender left.
    Closed,
    /// The shutdown signal changed and now reads this value.
    Shutdown(bool),
}

/// What the dispatch loop does next.
#[derive(Clone, Copy, Debug, PartialEq, Eq, Structural)]
pub enum DispatchAction {
    /// Wait for the next event.
    Continue,
    /// Leave the loop.
    Stop,
}

/// How sending on both channels went. The send as a whole has succeeded
/// whatever the channels reported.
#[derive(Clone, Copy, Debug, PartialEq, Eq, Structural)]
pub struct SendReport {
    /// The failure of the stream channel, if it failed.
    pub tcp_failure: Option<TransportError>,
    /// The failure of the datagram channel, if it failed.
    pub udp_failure: Option<TransportError>,
}

/// The failure in `outcome`, if it is one.
pub open spec fn failure_of(outcome: Result<usize, TransportError>) -> Option<TransportError> {
    match outcome {
        Ok(_) => None,
        Err(e) => Some(e),
    }
}

/// The name of the snapshot file of the registry: `KPR.json`.
pub open spec fn snapshot_file() -> Seq<char> {
    "KPR.json"@
}

/// The stream channel, the datagram channel and the registry of known
/// peers behind one interface.
pub struct NautilusTransport {
    pub tcp: TcpTransport,
    pub udp: UdpTransport,
    peer_manager: PeerManagement,
}

impl NautilusTransport {
    /// The parts are well formed.
    pub closed spec fn wf(&self) -> bool {
        &&& self.tcp.wf()
        &&& self.udp.wf()
        &&& self.peer_manager.wf()
    }

    /// The registry of known peers, as a map from key to record.
    pub closed spec fn peers(&self) -> Map<Seq<char>, PeerRecordView> {
        self.peer_manager@
    }

    /// The connection table of the stream channel.
    pub closed spec fn connections(&self) -> Map<PeerAddr, PeerPhase> {
        self.tcp@
    }

    /// The known peers of the datagram channel.
    pub closed spec fn datagram_peers(&self) -> Set<PeerAddr> {
        self.udp@
    }

    /// The path of the snapshot file of the registry.
    pub closed spec fn spec_cache_file(&self) -> Seq<char> {
        self.peer_manager.spec_cache_file()
    }

    /// The address both channels listen on.
    pub closed spec fn spec_local_addr(&self) -> PeerAddr {
        self.tcp.spec_local_addr()
    }

    /// A transport for `port` on every local address, without connections
    /// and datagram peers, its registry hydrated from what reading the
    /// snapshot file `KPR.json` at time `now` produced.
    ///
    /// A missing snapshot starts an empty registry. A snapshot that cannot
    /// be read, or that is malformed, is an error.
    pub fn new(port: u16, read: CacheRead, now: u64) -> (outcome: Result<Self, CacheError>)
        ensures
            match read {
                CacheRead::Missing => outcome is Ok && outcome->Ok_0.peers() == Map::<
                    Seq<char>,
                    PeerRecordView,
                >::empty(),
                CacheRead::Unreadable => outcome is Err && outcome->Err_0
                    == CacheError::Unreadable,
                CacheRead::Malformed => outcome is Err && outcome->Err_0 == CacheError::Malformed,
                CacheRead::Loaded(entries) => outcome is Ok && outcome->Ok_0.peers() == restored(
                    stored_pairs(entries@),
                    now,
                ),
            },
            outcome matches Ok(transport) ==> {
                &&& transport.wf()
                &&& transport.spec_local_addr() == (PeerAddr::V4 { ip: 0, port })
                &&& transport.connections() == Map::<PeerAddr, PeerPhase>::empty()
                &&& transport.datagram_peers() == Set::<PeerAddr>::empty()
                &&& transport.spec_cache_file() == snapshot_file()
            },
    {
        let addr = PeerAddr::unspecified(port);
        let tcp = TcpTransport::new(addr);
        let udp = UdpTransport::new();
        let path = crate::text::owned("KPR.json");
        let mut peer_manager = PeerManagement::new(path);
        match peer_manager.load_from_file(read, now) {
            Ok(()) => Ok(NautilusTransport { tcp, udp, peer_manager }),
            Err(e) => Err(e),
        }
    }

    /// The path of the snapshot file of the registry.
    pub fn cache_file(&self) -> (path: &str)
        ensures
            path@ == self.spec_cache_file(),
    {
        self.peer_manager.cache_file()
    }

    /// One step of the dispatch loop, at time `now`.
    ///
    /// Bytes that arrived from an address make that address a known peer:
    /// active, seen at `now`, filed under the text of the address. Nothing is
    /// written to the snapshot file. The loop ends when the shutdown signal
    /// reads `true`.
    pub fn start_listeners(&mut self, event: InboxEvent, now: u64) -> (action: DispatchAction)
        requires
            old(self).wf(),
        ensures
            final(self).wf(),
            final(self).connections() == old(self).connections(),
            final(self).datagram_peers() == old(self).datagram_peers(),
            final(self).spec_cache_file() == old(self).spec_cache_file(),
            final(self).spec_local_addr() == old(self).spec_local_addr(),
            match event {
                InboxEvent::Message(addr, _) => {
                    &&& action == DispatchAction::Continue
                    &&& final(self).peers() == old(self).peers().insert(
                        addr_text(addr),
                        sighting(addr, now),
                    )
                },
                InboxEvent::Closed => {
                    &&& action == DispatchAction::Continue
                    &&& final(self).peers() == old(self).peers()
                },
                InboxEvent::Shutdown(stop) => {
                    &&& action == (if stop {
                        DispatchAction::Stop
                    } else {
                        DispatchAction::Continue
                    })
                    &&& final(self).peers() == old(self).peers()
                },
            },
    {
        match event {
            InboxEvent::Message(addr, _) => {
                self.peer_manager.add_or_update_peer(PeerRecord::seen(addr, now));
                DispatchAction::Continue
            },
            InboxEvent::Closed => DispatchAction::Continue,
            InboxEvent::Shutdown(stop) => {
                if stop {
                    DispatchAction::Stop
                } else {
                    DispatchAction::Continue
                }
            },
        }
    }

    /// Sums up a send that was tried on the stream channel and then, whatever
    /// came of that, on the datagram channel. The send has succeeded even
    /// where a channel failed; the failures are reported for the log.
    pub fn send(
        &self,
        tcp: Result<usize, TransportError>,
        udp: Result<usize, TransportError>,
    ) -> (outcome: Result<SendReport, TransportError>)
        ensures
            outcome == Ok::<SendReport, TransportError>(
                SendReport { tcp_failure: failure_of(tcp), udp_failure: failure_of(udp) },
            ),
    {
        let tcp_failure = match tcp {
            Ok(_) => None,
            Err(e) => Some(e),
        };
        let udp_failure = match udp {
            Ok(_) => None,
            Err(e) => Some(e),
        };
        Ok(SendReport { tcp_failure, udp_failure })
    }

    /// Starts a broadcast on both channels: first the one to every
    /// registered connection, then the one to every datagram peer. Each is
    /// driven to its end whatever comes of the other.
    pub fn broadcast(&self) -> (runs: (Broadcast, Broadcast))
        requires
            self.wf(),
        ensures
            runs.0.wf(),
            runs.1.wf(),
            runs.0@ == broadcast_start(runs.0@.targets, true),
            runs.0@.targets.no_duplicates(),
            forall|a: PeerAddr| runs.0@.targets.contains(a) <==> self.connections().dom().contains(a),
            runs.1@ == broadcast_start(runs.1@.targets, false),
            runs.1@.targets.no_duplicates(),
            runs.1@.targets.to_set() == self.datagram_peers(),
    {
        (self.tcp.broadcast(), self.udp.broadcast())
    }

    /// Takes in how connecting to `peer_addr` on the stream channel went.
    /// After a success the address is a known peer: active, seen at `now`.
    /// A failure is handed on and leaves the registry as it is.
    pub fn connect(
        &mut self,
        peer_addr: PeerAddr,
        connected: Result<(), TransportError>,
        now: u64,
    ) -> (outcome: Result<(), TransportError>)
        requires
            old(self).wf(),
        ensures
            final(self).wf(),
            final(self).connections() == old(self).connections(),
            final(self).datagram_peers() == old(self).datagram_peers(),
            final(self).spec_cache_file() == old(self).spec_cache_file(),
            final(self).spec_local_addr() == old(self).spec_local_addr(),
            outcome == connected,
            final(self).peers() == (if connected is Ok {
                old(self).peers().insert(addr_text(peer_addr), sighting(peer_addr, now))
            } else {
                old(self).peers()
            }),
    {
        if connected.is_ok() {
            self.peer_manager.add_or_update_peer(PeerRecord::seen(peer_addr, now));
        }
        connected
    }

    /// Removes the peer that is filed under the text of `peer_addr` and
    /// hands back the snapshot to write to the file.
    pub fn remove_peer(&mut self, peer_addr: PeerAddr, now: u64) -> (snapshot: Vec<
        (String, StoredPeer),
    >)
        requires
            old(self).wf(),
        ensures
            final(self).wf(),
            final(self).connections() == old(self).connections(),
            final(self).datagram_peers() == old(self).datagram_peers(),
            final(self).spec_cache_file() == old(self).spec_cache_file(),
            final(self).spec_local_addr() == old(self).spec_local_addr(),
            final(self).peers() == old(self).peers().remove(addr_text(peer_addr)),
            keys_distinct(stored_pairs(snapshot@)),
            assoc_map(stored_pairs(snapshot@)) == final(self).peers().map_values(
                |r: PeerRecordView| rebased(r, now),
            ),
    {
        let key = peer_addr.to_text();
        self.peer_manager.remove_peer(key.as_str(), now)
    }

    /// The snapshot of the registry to write to the file at shutdown.
    pub fn save_peers(&self, now: u64) -> (snapshot: Vec<(String, StoredPeer)>)
        requires
            self.wf(),
        ensures
            keys_distinct(stored_pairs(snapshot@)),
            assoc_map(stored_pairs(snapshot@)) == self.peers().map_values(
                |r: PeerRecordView| rebased(r, now),
            ),
    {
        self.peer_manager.save_to_file(now)
    }

    /// The keys of the known peers, each once.
    pub fn get_peers(&self) -> (keys: Vec<String>)
        requires
            self.wf(),
        ensures
            keys@.len() == self.peers().dom().len(),
            forall|a: int, b: int| 0 <= a < b < keys@.len() ==> keys@[a]@ != keys@[b]@,
            forall|a: int| 0 <= a < keys@.len() ==> self.peers().dom().contains(#[trigger] keys@[a]@),
            forall|k: Seq<char>|
                self.peers().dom().contains(k) ==> exists|a: int|
                    0 <= a < keys@.len() && #[trigger] keys@[a]@ == k,
    {
        self.peer_manager.get_all_peers()
    }

    /// A copy of the record that is filed under `key`, if there is one.
    pub fn get_peer(&self, key: &str) -> (found: Option<PeerRecord>)
        requires
            self.wf(),
        ensures
            match found {
                Some(record) => self.peers().dom().contains(key@) && record@ == self.peers()[key@],
                None => !self.peers().dom().contains(key@),
            },
    {
        self.peer_manager.get_peer(key)
    }
}

} // verus!
