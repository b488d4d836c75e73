//! The datagram channel: the set of known peers and the receive loop.
//!
//! The socket belongs to the driver. What is decided here is whom a
//! broadcast goes to and what the receive loop does with what it received.

use vstd::prelude::*;
use crate::record::PeerAddr;
use crate::transport::tcp_transport::{broadcast_start, Broadcast};

verus! {

/// What the receive loop observed.
#[derive(Debug)]
pub enum DatagramEvent {
    /// A datagram with these bytes arrived from this address.
    Received(PeerAddr, Vec<u8>),
    /// Receiving failed.
    Failed,
}

/// The datagram that the receive loop hands to the inbox for `event`: the
/// one that arrived, with its sender; none for a failure.
pub open spec fn forwarded(event: DatagramEvent) -> Option<(PeerAddr, Seq<u8>)> {
    match event {
        DatagramEvent::Received(addr, bytes) => Some((addr, bytes@)),
        DatagramEvent::Failed => None,
    }
}

/// A datagram, with its bytes as a sequence.
pub open spec fn datagram_view(datagram: Option<(PeerAddr, Vec<u8>)>) -> Option<
    (PeerAddr, Seq<u8>),
> {
    match datagram {
        Some((addr, bytes)) => Some((addr, bytes@)),
        None => None,
    }
}

/// The peers that a datagram broadcast goes to.
pub struct UdpTransport {
    peers: Vec<PeerAddr>,
}

impl View for UdpTransport {
    type V = Set<PeerAddr>;

    /// The set of known peers.
    closed spec fn view(&self) -> Set<PeerAddr> {
        self.peers@.to_set()
    }
}

impl UdpTransport {
    /// No peer is held twice.
    pub closed spec fn wf(&self) -> bool {
        self.peers@.no_duplicates()
    }

    /// A channel that knows no peer.
    pub fn new() -> (transport: Self)
        ensures
            transport.wf(),
            transport@ == Set::<PeerAddr>::empty(),
    {
        let transport = UdpTransport { peers: Vec::new() };
        assert(transport@ =~= Set::empty());
        transport
    }

    /// The position of `addr` among the peers.
    fn position(&self, addr: PeerAddr) -> (found: Option<usize>)
        ensures
            match found {
                Some(i) => i < self.peers.len() && self.peers[i as int] == addr,
                None => !self@.contains(addr),
            },
    {
        let mut i: usize = 0;
        while i < self.peers.len()
            invariant
                i <= self.peers.len(),
                forall|j: int| 0 <= j < i ==> self.peers[j] != addr,
            decreases self.peers.len() - i,
        {
            if self.peers[i] == addr {
                return Some(i);
            }
            i += 1;
        }
        None
    }

    /// Whether `peer_addr` is a known peer.
    pub fn contains(&self, peer_addr: PeerAddr) -> (known: bool)
        ensures
            known == self@.contains(peer_addr),
    {
        match self.position(peer_addr) {
            Some(i) => {
                assert(self.peers@[i as int] == peer_addr);
                true
            },
            None => false,
        }
    }

    /// Makes `peer_addr` a known peer.
    pub fn add_peer(&mut self, peer_addr: PeerAddr)
        requires
            old(self).wf(),
        ensures
            final(self).wf(),
            final(self)@ == old(self)@.insert(peer_addr),
    {
        if self.contains(peer_addr) {
            assert(self@.insert(peer_addr) =~= self@);
        } else {
            let ghost before = self.peers@;
            self.peers.push(peer_addr);
            assert forall|x: PeerAddr| self.peers@.contains(x) <==> before.contains(x) || x
                == peer_addr by {
                if self.peers@.contains(x) {
                    let j = choose|j: int| 0 <= j < self.peers@.len() && self.peers@[j] == x;
                    if j < before.len() {
                        assert(before[j] == x);
                    }
                }
                if before.contains(x) {
                    let j = choose|j: int| 0 <= j < before.len() && before[j] == x;
                    assert(self.peers@[j] == x);
                }
                if x == peer_addr {
                    assert(self.peers@[before.len() as int] == x);
                }
            }
            assert(self@ =~= old(self)@.insert(peer_addr));
        }
    }

    /// Removes `peer_addr` from the known peers.
    pub fn remove_peer(&mut self, peer_addr: PeerAddr)
        requires
            old(self).wf(),
        ensures
            final(self).wf(),
            final(self)@ == old(self)@.remove(peer_addr),
    {
        match self.position(peer_addr) {
            Some(i) => {
                let ghost before = self.peers@;
                self.peers.remove(i);
                let ghost after = self.peers@;
                assert forall|a: int, b: int| 0 <= a < after.len() && 0 <= b < after.len() && a
                    != b implies after[a] != after[b] by {
                    let a2 = if a < i { a } else { a + 1 };
                    let b2 = if b < i { b } else { b + 1 };
                    assert(after[a] == before[a2]);
                    assert(after[b] == before[b2]);
                }
                assert forall|x: PeerAddr| after.contains(x) <==> before.contains(x) && x
                    != peer_addr by {
                    if after.contains(x) {
                        let j = choose|j: int| 0 <= j < after.len() && after[j] == x;
                        let j2 = if j < i { j } else { j + 1 };
                        assert(after[j] == before[j2]);
                        assert(before[j2] == x);
                    }
                    if before.contains(x) && x != peer_addr {
                        let j = choose|j: int| 0 <= j < before.len() && before[j] == x;
                        let j2 = if j < i { j } else { j - 1 };
                        assert(after[j2] == before[j]);
                    }
                }
                assert(self@ =~= old(self)@.remove(peer_addr));
            },
            None => {
                assert(self@.remove(peer_addr) =~= self@);
            },
        }
    }

    /// Forgets every known peer.
    pub fn clear_peers(&mut self)
        ensures
            final(self).wf(),
            final(self)@ == Set::<PeerAddr>::empty(),
    {
        self.peers = Vec::new();
        assert(self@ =~= Set::empty());
    }

    /// One step of the receive loop: the datagram to hand to the inbox.
    /// Whatever was received, and whether or not receiving failed, the loop
    /// goes on.
    pub fn listen(event: DatagramEvent) -> (datagram: Option<(PeerAddr, Vec<u8>)>)
        ensures
            datagram_view(datagram) == forwarded(event),
    {
        match event {
            DatagramEvent::Received(addr, bytes) => Some((addr, bytes)),
            DatagramEvent::Failed => None,
        }
    }

    /// Starts a broadcast to every known peer. A peer that cannot be sent to
    /// is noted, and the next peer is served.
    pub fn broadcast(&self) -> (run: Broadcast)
        requires
            self.wf(),
        ensures
            run.wf(),
            run@ == broadcast_start(run@.targets, false),
            run@.targets.no_duplicates(),
            run@.targets.to_set() == self@,
    {
        Broadcast::new(self.peers.clone(), false)
    }
}

} // verus!
