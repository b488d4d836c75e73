//! The stream channel: handshake, per-connection state and reconnection.
//!
//! Nothing here touches a socket. The driver performs the reads, writes and
//! sleeps; each function below takes what the driver observed and answers
//! with the next state of the connection table and the action to perform.

use vstd::prelude::*;
use crate::assoc::{
    assoc_map, keys_distinct, lemma_assoc_dom, lemma_assoc_len, lemma_assoc_push,
    lemma_assoc_remove, lemma_assoc_update, lemma_assoc_value,
};
use crate::record::PeerAddr;

verus! {

/// A connection on which nothing arrives for longer than this many time
/// units is closed.
pub const IDLE_TIMEOUT: u64 = 60;

/// The largest number of bytes that one read hands over.
pub const RECEIVE_BUFFER: usize = 1024;

/// How often a broadcast tries to reconnect to a peer it could not write to.
pub const BROADCAST_RECONNECT_ATTEMPTS: usize = 5;

/// The bytes a client sends first on a fresh connection: `HANDSHAKE_REQUEST`.
pub open spec fn handshake_request() -> Seq<u8> {
    seq![72u8, 65, 78, 68, 83, 72, 65, 75, 69, 95, 82, 69, 81, 85, 69, 83, 84]
}

/// The bytes a server answers the request with: `ACK_HANDSHAKE`.
pub open spec fn handshake_ack() -> Seq<u8> {
    seq![65u8, 67, 75, 95, 72, 65, 78, 68, 83, 72, 65, 75, 69]
}

/// The handshake request, ready to be written to a socket.
pub fn request_token() -> (token: Vec<u8>)
    ensures
        token@ == handshake_request(),
{
    let token = vec![72u8, 65, 78, 68, 83, 72, 65, 75, 69, 95, 82, 69, 81, 85, 69, 83, 84];
    assert(token@ =~= handshake_request());
    token
}

/// The handshake acknowledgment, ready to be written to a socket.
pub fn ack_token() -> (token: Vec<u8>)
    ensures
        token@ == handshake_ack(),
{
    let token = vec![65u8, 67, 75, 95, 72, 65, 78, 68, 83, 72, 65, 75, 69];
    assert(token@ =~= handshake_ack());
    token
}

/// Whether two byte strings are the same, byte for byte.
pub fn bytes_equal(a: &Vec<u8>, b: &Vec<u8>) -> (same: bool)
    ensures
        same == (a@ == b@),
{
    if a.len() != b.len() {
        return false;
    }
    let mut i: usize = 0;
    while i < a.len()
        invariant
            i <= a.len(),
            a.len() == b.len(),
            forall|j: int| 0 <= j < i ==> a@[j] == b@[j],
        decreases a.len() - i,
    {
        if a[i] != b[i] {
            return false;
        }
        i += 1;
    }
    assert(a@ =~= b@);
    true
}

/// Why a channel operation failed.
#[derive(Clone, Copy, Debug, PartialEq, Eq, Structural)]
pub enum TransportError {
    /// The connection table has no entry for the address.
    NotConnected,
    /// The peer answered the handshake request with something else than the
    /// acknowledgment.
    HandshakeFailed,
    /// The remote end refused the connection.
    Refused,
    /// The remote end reset the connection.
    Reset,
    /// Any other failure of the socket.
    Io,
}

/// Where a registered connection stands.
#[derive(Clone, Copy, Debug, PartialEq, Eq, Structural)]
pub enum PeerPhase {
    /// Registered at time `since`; the handshake has not completed.
    HandshakePending { since: u64 },
    /// The handshake is done; bytes last arrived at time `last_activity`.
    Established { last_activity: u64 },
}

impl PeerPhase {
    /// The time from which the inactivity window of the connection runs.
    pub open spec fn quiet_since(self) -> u64 {
        match self {
            PeerPhase::HandshakePending { since } => since,
            PeerPhase::Established { last_activity } => last_activity,
        }
    }
}

/// The time units that passed from `since` to `now`; none if the clock
/// reads earlier than `since`.
pub open spec fn elapsed(now: u64, since: u64) -> int {
    if now >= since {
        now - since
    } else {
        0
    }
}

/// Why a connection was torn down.
#[derive(Clone, Copy, Debug, PartialEq, Eq, Structural)]
pub enum CloseReason {
    /// The peer closed its end.
    Eof,
    /// The first message was not the handshake request.
    InvalidHandshake,
    /// Nothing arrived within the inactivity window.
    IdleTimeout,
    /// The peer reset the connection.
    Reset,
    /// A read or a write on the socket failed.
    IoError,
    /// The connection table had no entry for the address.
    NotConnected,
}

/// What the task that serves one connection observed.
#[derive(Debug)]
pub enum PeerEvent {
    /// A read returned these bytes.
    Data(Vec<u8>),
    /// A read returned no bytes: the peer closed its end.
    Eof,
    /// A read would have blocked.
    WouldBlock,
    /// A read failed because the peer reset the connection.
    Reset,
    /// A read failed for another reason.
    ReadFailed,
    /// Writing the reply failed.
    WriteFailed,
    /// Time passed and nothing arrived.
    Tick,
}

/// A `PeerEvent` with its bytes as a sequence.
pub enum PeerEventView {
    Data(Seq<u8>),
    Eof,
    WouldBlock,
    Reset,
    ReadFailed,
    WriteFailed,
    Tick,
}

impl View for PeerEvent {
    type V = PeerEventView;

    open spec fn view(&self) -> PeerEventView {
        match self {
            PeerEvent::Data(bytes) => PeerEventView::Data(bytes@),
            PeerEvent::Eof => PeerEventView::Eof,
            PeerEvent::WouldBlock => PeerEventView::WouldBlock,
            PeerEvent::Reset => PeerEventView::Reset,
            PeerEvent::ReadFailed => PeerEventView::ReadFailed,
            PeerEvent::WriteFailed => PeerEventView::WriteFailed,
            PeerEvent::Tick => PeerEventView::Tick,
        }
    }
}

/// What the task that serves one connection does next.
#[derive(Debug, PartialEq, Eq)]
pub enum PeerAction {
    /// Write these bytes to the peer, then read on.
    Reply(Vec<u8>),
    /// Hand these bytes, with the peer's address, to the inbox, then read on.
    Forward(Vec<u8>),
    /// Read on.
    ReadOn,
    /// The connection has left the table: drop the socket and end the task.
    Close(CloseReason),
}

/// A `PeerAction` with its bytes as a sequence.
pub enum PeerActionView {
    Reply(Seq<u8>),
    Forward(Seq<u8>),
    ReadOn,
    Close(CloseReason),
}

impl View for PeerAction {
    type V = PeerActionView;

    open spec fn view(&self) -> PeerActionView {
        match self {
            PeerAction::Reply(bytes) => PeerActionView::Reply(bytes@),
            PeerAction::Forward(bytes) => PeerActionView::Forward(bytes@),
            PeerAction::ReadOn => PeerActionView::ReadOn,
            PeerAction::Close(reason) => PeerActionView::Close(*reason),
        }
    }
}

/// One step of a served connection: the phase it moves to (`None` when it is
/// torn down) and the action that goes with it.
///
/// Before the handshake only the exact request keeps the connection; it is
/// answered with the acknowledgment. Afterwards every read that brought
/// bytes is forwarded and restarts the inactivity window. A read without
/// bytes is the end of the stream. A tick later than the window closes the
/// connection in either phase.
pub open spec fn peer_step(phase: PeerPhase, event: PeerEventView, now: u64) -> (
    Option<PeerPhase>,
    PeerActionView,
) {
    match event {
        PeerEventView::Tick => if elapsed(now, phase.quiet_since()) > IDLE_TIMEOUT {
            (None, PeerActionView::Close(CloseReason::IdleTimeout))
        } else {
            (Some(phase), PeerActionView::ReadOn)
        },
        PeerEventView::WouldBlock => match phase {
            PeerPhase::HandshakePending { .. } => (
                None,
                PeerActionView::Close(CloseReason::IoError),
            ),
            PeerPhase::Established { .. } => (Some(phase), PeerActionView::ReadOn),
        },
        PeerEventView::Eof => (None, PeerActionView::Close(CloseReason::Eof)),
        PeerEventView::Reset => (None, PeerActionView::Close(CloseReason::Reset)),
        PeerEventView::ReadFailed => (None, PeerActionView::Close(CloseReason::IoError)),
        PeerEventView::WriteFailed => (None, PeerActionView::Close(CloseReason::IoError)),
        PeerEventView::Data(bytes) => if bytes.len() == 0 {
            (None, PeerActionView::Close(CloseReason::Eof))
        } else {
            match phase {
                PeerPhase::HandshakePending { .. } => if bytes == handshake_request() {
                    (
                        Some(PeerPhase::Established { last_activity: now }),
                        PeerActionView::Reply(handshake_ack()),
                    )
                } else {
                    (None, PeerActionView::Close(CloseReason::InvalidHandshake))
                },
                PeerPhase::Established { .. } => (
                    Some(PeerPhase::Established { last_activity: now }),
                    PeerActionView::Forward(bytes),
                ),
            }
        },
    }
}

/// The table after a step of the connection at `addr`.
pub open spec fn table_after(
    table: Map<PeerAddr, PeerPhase>,
    addr: PeerAddr,
    next: Option<PeerPhase>,
) -> Map<PeerAddr, PeerPhase> {
    match next {
        Some(phase) => table.insert(addr, phase),
        None => table.remove(addr),
    }
}

/// One entry of the connection table.
#[derive(Clone, Copy, Debug)]
struct PeerSlot {
    addr: PeerAddr,
    phase: PeerPhase,
}

/// What the accept loop observed.
#[derive(Clone, Copy, Debug, PartialEq, Eq, Structural)]
pub enum ListenEvent {
    /// A connection from this address was accepted.
    Accepted(PeerAddr),
    /// The shutdown signal changed and now reads this value.
    Shutdown(bool),
}

/// What the accept loop does next.
#[derive(Clone, Copy, Debug, PartialEq, Eq, Structural)]
pub enum ListenAction {
    /// Start the task that serves the connection from this address, then
    /// accept on.
    Serve(PeerAddr),
    /// Accept on.
    Continue,
    /// Leave the loop.
    Stop,
}

/// The connection table of the stream channel, keyed by remote address.
pub struct TcpTransport {
    peers: Vec<PeerSlot>,
    addr: PeerAddr,
}

impl View for TcpTransport {
    type V = Map<PeerAddr, PeerPhase>;

    /// The connections that are registered, each with its phase.
    closed spec fn view(&self) -> Map<PeerAddr, PeerPhase> {
        assoc_map(self.pairs())
    }
}

impl TcpTransport {
    spec fn pairs(&self) -> Seq<(PeerAddr, PeerPhase)> {
        self.peers@.map_values(|slot: PeerSlot| (slot.addr, slot.phase))
    }

    /// No address is registered twice.
    pub closed spec fn wf(&self) -> bool {
        keys_distinct(self.pairs())
    }

    /// The address the channel listens on.
    pub closed spec fn spec_local_addr(&self) -> PeerAddr {
        self.addr
    }

    /// A channel for the given local address, with no connection.
    pub fn new(addr: PeerAddr) -> (transport: Self)
        ensures
            transport.wf(),
            transport@ == Map::<PeerAddr, PeerPhase>::empty(),
            transport.spec_local_addr() == addr,
    {
        let transport = TcpTransport { peers: Vec::new(), addr };
        assert(transport.pairs() =~= Seq::empty());
        transport
    }

    /// The address the channel listens on.
    pub fn local_addr(&self) -> (addr: PeerAddr)
        ensures
            addr == self.spec_local_addr(),
    {
        self.addr
    }

    /// The position of `addr` in the table.
    fn position(&self, addr: PeerAddr) -> (found: Option<usize>)
        requires
            self.wf(),
        ensures
            match found {
                Some(i) => i < self.peers.len() && self.peers[i as int].addr == addr
                    && self@.dom().contains(addr) && self@[addr] == self.peers[i as int].phase,
                None => !self@.dom().contains(addr),
            },
    {
        let mut i: usize = 0;
        while i < self.peers.len()
            invariant
                self.wf(),
                i <= self.peers.len(),
                forall|j: int| 0 <= j < i ==> self.peers[j].addr != addr,
            decreases self.peers.len() - i,
        {
            if self.peers[i].addr == addr {
                proof {
                    lemma_assoc_value(self.pairs(), i as int);
                }
                return Some(i);
            }
            i += 1;
        }
        proof {
            lemma_assoc_dom(self.pairs(), addr);
        }
        None
    }

    /// Registers `addr` in `phase`, replacing what was registered for it.
    fn put(&mut self, addr: PeerAddr, phase: PeerPhase)
        requires
            old(self).wf(),
        ensures
            final(self).wf(),
            final(self)@ == old(self)@.insert(addr, phase),
            final(self).spec_local_addr() == old(self).spec_local_addr(),
    {
        match self.position(addr) {
            Some(i) => {
                proof {
                    lemma_assoc_update(self.pairs(), i as int, phase);
                }
                let ghost before = self.pairs();
                self.peers.set(i, PeerSlot { addr, phase });
                assert(self.pairs() =~= before.update(i as int, (addr, phase)));
            },
            None => {
                proof {
                    lemma_assoc_push(self.pairs(), addr, phase);
                }
                let ghost before = self.pairs();
                self.peers.push(PeerSlot { addr, phase });
                assert(self.pairs() =~= before.push((addr, phase)));
            },
        }
    }

    /// Drops the entry of `addr`, if there is one.
    fn drop_entry(&mut self, addr: PeerAddr)
        requires
            old(self).wf(),
        ensures
            final(self).wf(),
            final(self)@ == old(self)@.remove(addr),
            final(self).spec_local_addr() == old(self).spec_local_addr(),
    {
        match self.position(addr) {
            Some(i) => {
                proof {
                    lemma_assoc_remove(self.pairs(), i as int);
                }
                let ghost before = self.pairs();
                self.peers.remove(i);
                assert(self.pairs() =~= before.remove(i as int));
            },
            None => {
                assert(self@.remove(addr) =~= self@);
            },
        }
    }

    /// Whether a connection to `addr` is registered.
    pub fn is_connected(&self, addr: PeerAddr) -> (connected: bool)
        requires
            self.wf(),
        ensures
            connected == self@.dom().contains(addr),
    {
        self.position(addr).is_some()
    }

    /// The phase of the connection to `addr`.
    pub fn phase(&self, addr: PeerAddr) -> (phase: Option<PeerPhase>)
        requires
            self.wf(),
        ensures
            phase == (if self@.dom().contains(addr) {
                Some(self@[addr])
            } else {
                None
            }),
    {
        match self.position(addr) {
            Some(i) => Some(self.peers[i].phase),
            None => None,
        }
    }

    /// The addresses of all registered connections, each once.
    pub fn connected_peers(&self) -> (addrs: Vec<PeerAddr>)
        requires
            self.wf(),
        ensures
            addrs@.no_duplicates(),
            forall|a: PeerAddr| addrs@.contains(a) <==> self@.dom().contains(a),
            addrs@.len() == self@.dom().len(),
    {
        let mut addrs: Vec<PeerAddr> = Vec::new();
        let mut i: usize = 0;
        while i < self.peers.len()
            invariant
                i <= self.peers.len(),
                addrs@.len() == i,
                forall|j: int| 0 <= j < i ==> addrs@[j] == self.peers[j].addr,
            decreases self.peers.len() - i,
        {
            addrs.push(self.peers[i].addr);
            i += 1;
        }
        proof {
            let pairs = self.pairs();
            lemma_assoc_len(pairs);
            assert forall|a: int, b: int| 0 <= a < addrs@.len() && 0 <= b < addrs@.len() && a
                != b implies addrs@[a] != addrs@[b] by {
                if a < b {
                    assert(pairs[a].0 != pairs[b].0);
                } else {
                    assert(pairs[b].0 != pairs[a].0);
                }
            }
            assert forall|a: PeerAddr| addrs@.contains(a) <==> self@.dom().contains(a) by {
                lemma_assoc_dom(pairs, a);
                if addrs@.contains(a) {
                    let j = choose|j: int| 0 <= j < addrs@.len() && addrs@[j] == a;
                    assert(pairs[j].0 == a);
                }
                if self@.dom().contains(a) {
                    let j = choose|j: int| 0 <= j < pairs.len() && pairs[j].0 == a;
                    assert(addrs@[j] == a);
                }
            }
        }
        addrs
    }

    /// Registers an outbound connection to `peer_addr`, opened at `now`, and
    /// hands back the handshake request to write to it.
    ///
    /// An entry that the table held for the address is replaced.
    pub fn connect(&mut self, peer_addr: PeerAddr, now: u64) -> (request: Vec<u8>)
        requires
            old(self).wf(),
        ensures
            final(self).wf(),
            final(self).spec_local_addr() == old(self).spec_local_addr(),
            final(self)@ == old(self)@.insert(
                peer_addr,
                PeerPhase::HandshakePending { since: now },
            ),
            request@ == handshake_request(),
    {
        self.put(peer_addr, PeerPhase::HandshakePending { since: now });
        request_token()
    }

    /// The client side of the handshake, once the request has been written
    /// and the answer read: `reply` is what the read produced.
    ///
    /// Only the exact acknowledgment establishes the connection. Any other
    /// answer, and any failure of the socket, removes the connection from the
    /// table and is returned as the error.
    pub fn handshake_with_peer(
        &mut self,
        peer_addr: PeerAddr,
        reply: Result<Vec<u8>, TransportError>,
        now: u64,
    ) -> (outcome: Result<(), TransportError>)
        requires
            old(self).wf(),
        ensures
            final(self).wf(),
            final(self).spec_local_addr() == old(self).spec_local_addr(),
            !old(self)@.dom().contains(peer_addr) ==> {
                &&& outcome == Err::<(), TransportError>(TransportError::NotConnected)
                &&& final(self)@ == old(self)@
            },
            old(self)@.dom().contains(peer_addr) ==> {
                &&& outcome == handshake_verdict(reply_view(reply))
                &&& final(self)@ == (if outcome is Ok {
                    old(self)@.insert(peer_addr, PeerPhase::Established { last_activity: now })
                } else {
                    old(self)@.remove(peer_addr)
                })
            },
    {
        if !self.is_connected(peer_addr) {
            return Err(TransportError::NotConnected);
        }
        match reply {
            Ok(bytes) => {
                let ack = ack_token();
                if bytes_equal(&bytes, &ack) {
                    self.put(peer_addr, PeerPhase::Established { last_activity: now });
                    Ok(())
                } else {
                    self.drop_entry(peer_addr);
                    Err(TransportError::HandshakeFailed)
                }
            },
            Err(e) => {
                self.drop_entry(peer_addr);
                Err(e)
            },
        }
    }

    /// Whether bytes may be written to `peer_addr`: only a registered
    /// connection can be written to.
    pub fn send(&self, peer_addr: PeerAddr) -> (outcome: Result<(), TransportError>)
        requires
            self.wf(),
        ensures
            outcome == (if self@.dom().contains(peer_addr) {
                Ok::<(), TransportError>(())
            } else {
                Err::<(), TransportError>(TransportError::NotConnected)
            }),
    {
        if self.is_connected(peer_addr) {
            Ok(())
        } else {
            Err(TransportError::NotConnected)
        }
    }

    /// Starts a broadcast to every registered connection. A peer that cannot
    /// be written to gets one reconnection of
    /// `BROADCAST_RECONNECT_ATTEMPTS` attempts before the next peer is
    /// served.
    pub fn broadcast(&self) -> (run: Broadcast)
        requires
            self.wf(),
        ensures
            run.wf(),
            run@ == broadcast_start(run@.targets, true),
            run@.targets.no_duplicates(),
            forall|a: PeerAddr| run@.targets.contains(a) <==> self@.dom().contains(a),
    {
        Broadcast::new(self.connected_peers(), true)
    }

    /// Starts a broadcast to every registered connection, as `broadcast`
    /// does.
    pub fn send_all(&self) -> (run: Broadcast)
        requires
            self.wf(),
        ensures
            run.wf(),
            run@ == broadcast_start(run@.targets, true),
            run@.targets.no_duplicates(),
            forall|a: PeerAddr| run@.targets.contains(a) <==> self@.dom().contains(a),
    {
        self.broadcast()
    }

    /// Empties the connection table and hands back the addresses whose
    /// sockets are to be shut down.
    pub fn close_all(&mut self) -> (closed: Vec<PeerAddr>)
        requires
            old(self).wf(),
        ensures
            final(self).wf(),
            final(self).spec_local_addr() == old(self).spec_local_addr(),
            final(self)@ == Map::<PeerAddr, PeerPhase>::empty(),
            closed@.no_duplicates(),
            forall|a: PeerAddr| closed@.contains(a) <==> old(self)@.dom().contains(a),
    {
        let closed = self.connected_peers();
        self.peers = Vec::new();
        assert(self.pairs() =~= Seq::empty());
        closed
    }

    /// One step of the accept loop.
    ///
    /// An accepted connection is registered under its remote address, with
    /// the handshake pending from `now`, and gets a task of its own. The loop
    /// ends when the shutdown signal reads `true`.
    pub fn listen(&mut self, event: ListenEvent, now: u64) -> (action: ListenAction)
        requires
            old(self).wf(),
        ensures
            final(self).wf(),
            final(self).spec_local_addr() == old(self).spec_local_addr(),
            match event {
                ListenEvent::Accepted(addr) => {
                    &&& action == ListenAction::Serve(addr)
                    &&& final(self)@ == old(self)@.insert(
                        addr,
                        PeerPhase::HandshakePending { since: now },
                    )
                },
                ListenEvent::Shutdown(stop) => {
                    &&& action == (if stop {
                        ListenAction::Stop
                    } else {
                        ListenAction::Continue
                    })
                    &&& final(self)@ == old(self)@
                },
            },
    {
        match event {
            ListenEvent::Accepted(addr) => {
                self.put(addr, PeerPhase::HandshakePending { since: now });
                ListenAction::Serve(addr)
            },
            ListenEvent::Shutdown(stop) => {
                if stop {
                    ListenAction::Stop
                } else {
                    ListenAction::Continue
                }
            },
        }
    }

    /// One step of the task that serves the connection from `addr`.
    ///
    /// The step is `peer_step` on the phase the table holds for `addr`; the
    /// table is updated with the phase it yields, and the entry is removed
    /// when the connection is torn down. For an address that is not
    /// registered the table stays as it is and the task is told to end.
    pub fn handle_peer(&mut self, addr: PeerAddr, event: PeerEvent, now: u64) -> (action:
        PeerAction)
        requires
            old(self).wf(),
        ensures
            final(self).wf(),
            final(self).spec_local_addr() == old(self).spec_local_addr(),
            !old(self)@.dom().contains(addr) ==> {
                &&& final(self)@ == old(self)@
                &&& action@ == PeerActionView::Close(CloseReason::NotConnected)
            },
            old(self)@.dom().contains(addr) ==> {
                let step = peer_step(old(self)@[addr], event@, now);
                &&& action@ == step.1
                &&& final(self)@ == table_after(old(self)@, addr, step.0)
            },
    {
        let phase = match self.phase(addr) {
            Some(phase) => phase,
            None => {
                return PeerAction::Close(CloseReason::NotConnected);
            },
        };
        match event {
            PeerEvent::Tick => {
                let since = match phase {
                    PeerPhase::HandshakePending { since } => since,
                    PeerPhase::Established { last_activity } => last_activity,
                };
                if now >= since && now - since > IDLE_TIMEOUT {
                    self.drop_entry(addr);
                    PeerAction::Close(CloseReason::IdleTimeout)
                } else {
                    assert(self@.insert(addr, phase) =~= self@);
                    PeerAction::ReadOn
                }
            },
            PeerEvent::WouldBlock => match phase {
                PeerPhase::HandshakePending { .. } => {
                    self.drop_entry(addr);
                    PeerAction::Close(CloseReason::IoError)
                },
                PeerPhase::Established { .. } => {
                    assert(self@.insert(addr, phase) =~= self@);
                    PeerAction::ReadOn
                },
            },
            PeerEvent::Eof => {
                self.drop_entry(addr);
                PeerAction::Close(CloseReason::Eof)
            },
            PeerEvent::Reset => {
                self.drop_entry(addr);
                PeerAction::Close(CloseReason::Reset)
            },
            PeerEvent::ReadFailed => {
                self.drop_entry(addr);
                PeerAction::Close(CloseReason::IoError)
            },
            PeerEvent::WriteFailed => {
                self.drop_entry(addr);
                PeerAction::Close(CloseReason::IoError)
            },
            PeerEvent::Data(bytes) => {
                if bytes.len() == 0 {
                    self.drop_entry(addr);
                    return PeerAction::Close(CloseReason::Eof);
                }
                match phase {
                    PeerPhase::HandshakePending { .. } => {
                        let request = request_token();
                        if bytes_equal(&bytes, &request) {
                            self.put(addr, PeerPhase::Established { last_activity: now });
                            PeerAction::Reply(ack_token())
                        } else {
                            self.drop_entry(addr);
                            PeerAction::Close(CloseReason::InvalidHandshake)
                        }
                    },
                    PeerPhase::Established { .. } => {
                        self.put(addr, PeerPhase::Established { last_activity: now });
                        PeerAction::Forward(bytes)
                    },
                }
            },
        }
    }
}

/// What reading the answer to the handshake request produced, with the
/// bytes as a sequence.
pub open spec fn reply_view(reply: Result<Vec<u8>, TransportError>) -> Result<
    Seq<u8>,
    TransportError,
> {
    match reply {
        Ok(bytes) => Ok(bytes@),
        Err(e) => Err(e),
    }
}

/// The client's verdict on the answer to its handshake request.
pub open spec fn handshake_verdict(reply: Result<Seq<u8>, TransportError>) -> Result<
    (),
    TransportError,
> {
    match reply {
        Ok(bytes) => if bytes == handshake_ack() {
            Ok(())
        } else {
            Err(TransportError::HandshakeFailed)
        },
        Err(e) => Err(e),
    }
}

/// The handshake, seen from both ends. A server that reads the client's
/// request as the first message answers with the acknowledgment and keeps
/// the connection, and the client accepts that answer. A server that reads
/// anything else first tears the connection down and writes nothing.
pub proof fn lemma_handshake(since: u64, first: Seq<u8>, now: u64)
    ensures
        first == handshake_request() ==> {
            let step = peer_step(
                PeerPhase::HandshakePending { since },
                PeerEventView::Data(first),
                now,
            );
            &&& step.0 == Some(PeerPhase::Established { last_activity: now })
            &&& step.1 == PeerActionView::Reply(handshake_ack())
            &&& handshake_verdict(Ok(handshake_ack())) is Ok
        },
        first != handshake_request() ==> {
            let step = peer_step(
                PeerPhase::HandshakePending { since },
                PeerEventView::Data(first),
                now,
            );
            &&& step.0 is None
            &&& step.1 is Close
        },
{
    assert(handshake_request().len() == 17);
}

/// A connection on which nothing has arrived for longer than the
/// inactivity window is closed at the next tick, whatever the peer does or
/// leaves undone; within the window a tick leaves it as it is.
pub proof fn lemma_idle_connection_closes(phase: PeerPhase, now: u64)
    ensures
        elapsed(now, phase.quiet_since()) > IDLE_TIMEOUT ==> peer_step(
            phase,
            PeerEventView::Tick,
            now,
        ) == (None::<PeerPhase>, PeerActionView::Close(CloseReason::IdleTimeout)),
        elapsed(now, phase.quiet_since()) <= IDLE_TIMEOUT ==> peer_step(
            phase,
            PeerEventView::Tick,
            now,
        ) == (Some(phase), PeerActionView::ReadOn),
{
}

/// The progress of one reconnection: how many attempts have failed, and the
/// delay to sleep before the next one.
#[derive(Clone, Copy, Debug, PartialEq, Eq, Structural)]
pub struct Backoff {
    pub attempts: usize,
    pub delay: u64,
}

/// What a reconnection does after an attempt.
#[derive(Clone, Copy, Debug, PartialEq, Eq, Structural)]
pub enum ReconnectStep {
    /// The attempt succeeded.
    Connected,
    /// Sleep for `delay` time units, then try again with `next`.
    Retry { delay: u64, next: Backoff },
    /// The attempts are used up: the error of the last one is returned.
    GiveUp(TransportError),
}

/// Twice `delay`, or the largest delay there is where that does not fit.
pub open spec fn doubled(delay: u64) -> u64 {
    if delay * 2 <= u64::MAX {
        (delay * 2) as u64
    } else {
        u64::MAX
    }
}

/// The delay that is slept after the failure of attempt `n + 1`: one time
/// unit, doubled `n` times.
pub open spec fn backoff_delay(n: nat) -> u64
    decreases n,
{
    if n == 0 {
        1
    } else {
        doubled(backoff_delay((n - 1) as nat))
    }
}

impl Backoff {
    /// A reconnection that has not tried yet: the first delay is one time
    /// unit.
    pub open spec fn spec_new() -> Backoff {
        Backoff { attempts: 0, delay: 1 }
    }

    /// A reconnection that has not tried yet.
    #[verifier::when_used_as_spec(spec_new)]
    pub fn new() -> (state: Backoff)
        ensures
            state == Backoff::spec_new(),
    {
        Backoff { attempts: 0, delay: 1 }
    }
}

/// One step of a reconnection, after an attempt that ended in `outcome`.
///
/// Attempts are counted one by one. A failure that brings the count to
/// `max_attempts` ends the reconnection with that failure. Any earlier
/// failure is followed by a sleep of the current delay, which is then
/// doubled.
pub open spec fn reconnect_step(
    state: Backoff,
    max_attempts: usize,
    outcome: Result<(), TransportError>,
) -> ReconnectStep {
    match outcome {
        Ok(_) => ReconnectStep::Connected,
        Err(e) => if state.attempts + 1 >= max_attempts {
            ReconnectStep::GiveUp(e)
        } else {
            ReconnectStep::Retry {
                delay: state.delay,
                next: Backoff {
                    attempts: (state.attempts + 1) as usize,
                    delay: doubled(state.delay),
                },
            }
        },
    }
}

impl TcpTransport {
    /// One step of a reconnection: see `reconnect_step`.
    pub fn reconnect_peer(
        state: Backoff,
        max_attempts: usize,
        outcome: Result<(), TransportError>,
    ) -> (step: ReconnectStep)
        ensures
            step == reconnect_step(state, max_attempts, outcome),
    {
        match outcome {
            Ok(_) => ReconnectStep::Connected,
            Err(e) => {
                if max_attempts == 0 || state.attempts >= max_attempts - 1 {
                    ReconnectStep::GiveUp(e)
                } else {
                    let delay = if state.delay > u64::MAX / 2 {
                        u64::MAX
                    } else {
                        state.delay * 2
                    };
                    ReconnectStep::Retry {
                        delay: state.delay,
                        next: Backoff { attempts: state.attempts + 1, delay },
                    }
                }
            },
        }
    }
}

/// How a reconnection went: the attempts it made, the delays it slept
/// between them, and how it ended (`None` while it is still under way).
pub struct ReconnectRun {
    pub attempts: nat,
    pub sleeps: Seq<u64>,
    pub result: Option<Result<(), TransportError>>,
}

/// A reconnection driven from `state` through the outcomes of its attempts,
/// in order, until it ends or the outcomes run out.
pub open spec fn reconnect_run(
    state: Backoff,
    max_attempts: usize,
    outcomes: Seq<Result<(), TransportError>>,
) -> ReconnectRun
    decreases outcomes.len(),
{
    if outcomes.len() == 0 {
        ReconnectRun { attempts: 0, sleeps: Seq::empty(), result: None }
    } else {
        match reconnect_step(state, max_attempts, outcomes[0]) {
            ReconnectStep::Connected => ReconnectRun {
                attempts: 1,
                sleeps: Seq::empty(),
                result: Some(Ok(())),
            },
            ReconnectStep::GiveUp(e) => ReconnectRun {
                attempts: 1,
                sleeps: Seq::empty(),
                result: Some(Err(e)),
            },
            ReconnectStep::Retry { delay, next } => {
                let rest = reconnect_run(next, max_attempts, outcomes.skip(1));
                ReconnectRun {
                    attempts: rest.attempts + 1,
                    sleeps: seq![delay] + rest.sleeps,
                    result: rest.result,
                }
            },
        }
    }
}

/// The number of attempts that a reconnection with the limit
/// `max_attempts` makes when none succeeds: the limit, and one where the
/// limit is zero.
pub open spec fn attempts_allowed(max_attempts: usize) -> nat {
    if max_attempts == 0 {
        1
    } else {
        max_attempts as nat
    }
}

/// A reconnection whose attempts all fail, continued from a state in which
/// `done` attempts have failed.
proof fn lemma_reconnect_exhausts_from(
    state: Backoff,
    max_attempts: usize,
    outcomes: Seq<Result<(), TransportError>>,
    done: nat,
)
    requires
        state.attempts == done,
        state.delay == backoff_delay(done),
        done < attempts_allowed(max_attempts),
        outcomes.len() >= attempts_allowed(max_attempts) - done,
        forall|i: int| 0 <= i < outcomes.len() ==> outcomes[i] is Err,
    ensures
        ({
            let run = reconnect_run(state, max_attempts, outcomes);
            let left = attempts_allowed(max_attempts) - done;
            &&& run.attempts == left
            &&& run.result == Some(outcomes[left - 1])
            &&& run.sleeps.len() == left - 1
            &&& forall|j: int| 0 <= j < left - 1 ==> run.sleeps[j] == backoff_delay((done + j) as nat)
        }),
    decreases outcomes.len(),
{
    let left = attempts_allowed(max_attempts) - done;
    match reconnect_step(state, max_attempts, outcomes[0]) {
        ReconnectStep::Connected => {},
        ReconnectStep::GiveUp(e) => {
            assert(left == 1);
        },
        ReconnectStep::Retry { delay, next } => {
            let rest_outcomes = outcomes.skip(1);
            lemma_reconnect_exhausts_from(next, max_attempts, rest_outcomes, done + 1);
            let rest = reconnect_run(next, max_attempts, rest_outcomes);
            let run = reconnect_run(state, max_attempts, outcomes);
            assert(rest_outcomes[left - 2] == outcomes[left - 1]);
            assert forall|j: int| 0 <= j < left - 1 implies run.sleeps[j] == backoff_delay(
                (done + j) as nat,
            ) by {
                if j > 0 {
                    assert(run.sleeps[j] == rest.sleeps[j - 1]);
                }
            }
        },
    }
}

/// Reconnecting to a peer that refuses every attempt: the reconnection makes
/// exactly `max_attempts` attempts (one where the limit is zero), sleeps
/// between them for 1, 2, 4, ... time units, each delay twice the one
/// before until the largest delay is reached, and ends with the error of
/// the last attempt.
pub proof fn lemma_reconnect_exhausts(
    max_attempts: usize,
    outcomes: Seq<Result<(), TransportError>>,
)
    requires
        outcomes.len() >= attempts_allowed(max_attempts),
        forall|i: int| 0 <= i < outcomes.len() ==> outcomes[i] is Err,
    ensures
        ({
            let run = reconnect_run(Backoff::spec_new(), max_attempts, outcomes);
            let n = attempts_allowed(max_attempts);
            &&& run.attempts == n
            &&& run.result == Some(outcomes[n - 1])
            &&& run.sleeps.len() == n - 1
            &&& forall|j: int| 0 <= j < n - 1 ==> run.sleeps[j] == backoff_delay(j as nat)
        }),
{
    lemma_reconnect_exhausts_from(Backoff::spec_new(), max_attempts, outcomes, 0);
}

/// The first delays of the schedule: 1, 2 and 4 time units.
pub proof fn lemma_backoff_first_delays()
    ensures
        backoff_delay(0) == 1,
        backoff_delay(1) == 2,
        backoff_delay(2) == 4,
{
    reveal_with_fuel(backoff_delay, 4);
}

/// A reconnection ends at the first attempt that succeeds.
pub proof fn lemma_reconnect_stops_at_success(
    state: Backoff,
    max_attempts: usize,
    outcomes: Seq<Result<(), TransportError>>,
)
    requires
        outcomes.len() > 0,
        outcomes[0] is Ok,
    ensures
        reconnect_run(state, max_attempts, outcomes).attempts == 1,
        reconnect_run(state, max_attempts, outcomes).result == Some(
            Ok::<(), TransportError>(()),
        ),
        reconnect_run(state, max_attempts, outcomes).sleeps.len() == 0,
{
}

/// What a broadcast does next.
#[derive(Clone, Copy, Debug, PartialEq, Eq, Structural)]
pub enum BroadcastAction {
    /// Write the payload to this peer.
    Write(PeerAddr),
    /// Reconnect to this peer, with at most this many attempts.
    Reconnect(PeerAddr, usize),
    /// Every peer has been served.
    Done,
}

/// A broadcast under way, as a plain value.
pub struct BroadcastView {
    /// The peers to serve, in the order in which they are served.
    pub targets: Seq<PeerAddr>,
    /// Whether a failed write is followed by a reconnection.
    pub reconnects: bool,
    /// How many peers have been served.
    pub cursor: nat,
    /// Whether the peer at the cursor is being reconnected to.
    pub reconnecting: bool,
    /// How many writes succeeded.
    pub delivered: nat,
    /// The peers that could not be written to.
    pub failed: Seq<PeerAddr>,
}

/// A broadcast to `targets` that has served nobody yet.
pub open spec fn broadcast_start(targets: Seq<PeerAddr>, reconnects: bool) -> BroadcastView {
    BroadcastView {
        targets,
        reconnects,
        cursor: 0,
        reconnecting: false,
        delivered: 0,
        failed: Seq::empty(),
    }
}

/// The action that a broadcast in this state asks for.
pub open spec fn broadcast_action(run: BroadcastView) -> BroadcastAction {
    if run.cursor >= run.targets.len() {
        BroadcastAction::Done
    } else if run.reconnecting {
        BroadcastAction::Reconnect(run.targets[run.cursor as int], BROADCAST_RECONNECT_ATTEMPTS)
    } else {
        BroadcastAction::Write(run.targets[run.cursor as int])
    }
}

/// The broadcast after the action it asked for has ended in success (`ok`)
/// or failure.
///
/// A write that fails is noted and, where the broadcast reconnects, followed
/// by one reconnection to that peer. Whatever comes of the write or of the
/// reconnection, the next peer is served.
pub open spec fn broadcast_record(run: BroadcastView, ok: bool) -> BroadcastView {
    if run.cursor >= run.targets.len() {
        run
    } else if run.reconnecting {
        BroadcastView { cursor: run.cursor + 1, reconnecting: false, ..run }
    } else if ok {
        BroadcastView { cursor: run.cursor + 1, delivered: run.delivered + 1, ..run }
    } else if run.reconnects {
        BroadcastView {
            reconnecting: true,
            failed: run.failed.push(run.targets[run.cursor as int]),
            ..run
        }
    } else {
        BroadcastView {
            cursor: run.cursor + 1,
            failed: run.failed.push(run.targets[run.cursor as int]),
            ..run
        }
    }
}

/// A broadcast to a fixed list of peers, driven one action at a time.
pub struct Broadcast {
    targets: Vec<PeerAddr>,
    reconnects: bool,
    cursor: usize,
    reconnecting: bool,
    delivered: usize,
    failed: Vec<PeerAddr>,
}

impl View for Broadcast {
    type V = BroadcastView;

    closed spec fn view(&self) -> BroadcastView {
        BroadcastView {
            targets: self.targets@,
            reconnects: self.reconnects,
            cursor: self.cursor as nat,
            reconnecting: self.reconnecting,
            delivered: self.delivered as nat,
            failed: self.failed@,
        }
    }
}

impl Broadcast {
    /// The counters stay within the list of peers.
    pub closed spec fn wf(&self) -> bool {
        &&& self.cursor <= self.targets.len()
        &&& self.delivered <= self.cursor
    }

    /// A broadcast to `targets` that has served nobody yet.
    pub fn new(targets: Vec<PeerAddr>, reconnects: bool) -> (run: Broadcast)
        ensures
            run.wf(),
            run@ == broadcast_start(targets@, reconnects),
    {
        Broadcast {
            targets,
            reconnects,
            cursor: 0,
            reconnecting: false,
            delivered: 0,
            failed: Vec::new(),
        }
    }

    /// The action to perform next.
    pub fn action(&self) -> (action: BroadcastAction)
        requires
            self.wf(),
        ensures
            action == broadcast_action(self@),
    {
        if self.cursor >= self.targets.len() {
            BroadcastAction::Done
        } else if self.reconnecting {
            BroadcastAction::Reconnect(self.targets[self.cursor], BROADCAST_RECONNECT_ATTEMPTS)
        } else {
            BroadcastAction::Write(self.targets[self.cursor])
        }
    }

    /// Takes note of how the action last asked for ended.
    pub fn record(&mut self, ok: bool)
        requires
            old(self).wf(),
        ensures
            final(self).wf(),
            final(self)@ == broadcast_record(old(self)@, ok),
    {
        if self.cursor >= self.targets.len() {
            return ;
        }
        if self.reconnecting {
            self.reconnecting = false;
            self.cursor = self.cursor + 1;
        } else if ok {
            self.delivered = self.delivered + 1;
            self.cursor = self.cursor + 1;
        } else {
            self.failed.push(self.targets[self.cursor]);
            if self.reconnects {
                self.reconnecting = true;
            } else {
                self.cursor = self.cursor + 1;
            }
        }
    }

    /// How many writes succeeded so far.
    pub fn delivered(&self) -> (n: usize)
        ensures
            n == self@.delivered,
    {
        self.delivered
    }

    /// The peers that could not be written to so far, in the order in which
    /// they were tried.
    pub fn failed(&self) -> (peers: Vec<PeerAddr>)
        ensures
            peers@ == self@.failed,
    {
        self.failed.clone()
    }
}

/// A broadcast driven to its end from `run`: the write to the peer at
/// position `i` ends as `write_ok[i]` says, and a reconnection to it as
/// `reconnect_ok[i]` says.
pub open spec fn broadcast_run(
    run: BroadcastView,
    write_ok: Seq<bool>,
    reconnect_ok: Seq<bool>,
) -> BroadcastView
    decreases run.targets.len() - run.cursor, if run.reconnecting { 0nat } else { 1nat },
{
    if run.cursor >= run.targets.len() {
        run
    } else if run.reconnecting {
        broadcast_run(
            broadcast_record(run, reconnect_ok[run.cursor as int]),
            write_ok,
            reconnect_ok,
        )
    } else {
        broadcast_run(broadcast_record(run, write_ok[run.cursor as int]), write_ok, reconnect_ok)
    }
}

/// The peers among the first `upto` targets whose write fails.
pub open spec fn failing_targets(targets: Seq<PeerAddr>, write_ok: Seq<bool>, upto: nat) -> Seq<
    PeerAddr,
>
    decreases upto,
{
    if upto == 0 {
        Seq::empty()
    } else {
        let before = failing_targets(targets, write_ok, (upto - 1) as nat);
        if write_ok[upto - 1] {
            before
        } else {
            before.push(targets[upto - 1])
        }
    }
}

proof fn lemma_broadcast_run_from(run: BroadcastView, write_ok: Seq<bool>, reconnect_ok: Seq<bool>)
    requires
        write_ok.len() == run.targets.len(),
        reconnect_ok.len() == run.targets.len(),
        run.cursor <= run.targets.len(),
        run.reconnecting ==> run.cursor < run.targets.len(),
        run.failed == failing_targets(
            run.targets,
            write_ok,
            if run.reconnecting {
                run.cursor + 1
            } else {
                run.cursor
            },
        ),
        run.delivered + run.failed.len() == (if run.reconnecting {
            run.cursor + 1
        } else {
            run.cursor
        }),
    ensures
        ({
            let end = broadcast_run(run, write_ok, reconnect_ok);
            &&& end.cursor == run.targets.len()
            &&& end.targets == run.targets
            &&& !end.reconnecting
            &&& end.failed == failing_targets(run.targets, write_ok, run.targets.len())
            &&& end.delivered + end.failed.len() == run.targets.len()
        }),
    decreases run.targets.len() - run.cursor, if run.reconnecting { 0nat } else { 1nat },
{
    if run.cursor >= run.targets.len() {
    } else if run.reconnecting {
        lemma_broadcast_run_from(
            broadcast_record(run, reconnect_ok[run.cursor as int]),
            write_ok,
            reconnect_ok,
        );
    } else {
        lemma_broadcast_run_from(
            broadcast_record(run, write_ok[run.cursor as int]),
            write_ok,
            reconnect_ok,
        );
    }
}

/// A broadcast serves every peer, whatever happens on the way: the peers it
/// reports as failed are exactly those whose write failed, in order, and
/// every other peer was delivered to.
pub proof fn lemma_broadcast_serves_all(
    targets: Seq<PeerAddr>,
    reconnects: bool,
    write_ok: Seq<bool>,
    reconnect_ok: Seq<bool>,
)
    requires
        write_ok.len() == targets.len(),
        reconnect_ok.len() == targets.len(),
    ensures
        ({
            let end = broadcast_run(broadcast_start(targets, reconnects), write_ok, reconnect_ok);
            &&& end.cursor == targets.len()
            &&& end.failed == failing_targets(targets, write_ok, targets.len())
            &&& end.delivered + end.failed.len() == targets.len()
        }),
{
    lemma_broadcast_run_from(broadcast_start(targets, reconnects), write_ok, reconnect_ok);
}

proof fn lemma_single_failure(targets: Seq<PeerAddr>, write_ok: Seq<bool>, k: int, upto: nat)
    requires
        write_ok.len() == targets.len(),
        0 <= k < targets.len(),
        upto <= targets.len(),
        forall|i: int| 0 <= i < targets.len() ==> write_ok[i] == (i != k),
    ensures
        failing_targets(targets, write_ok, upto) == (if upto <= k {
            Seq::<PeerAddr>::empty()
        } else {
            seq![targets[k]]
        }),
    decreases upto,
{
    if upto > 0 {
        lemma_single_failure(targets, write_ok, k, (upto - 1) as nat);
        if upto - 1 == k {
            assert(Seq::<PeerAddr>::empty().push(targets[k]) =~= seq![targets[k]]);
        }
    }
}

/// A broadcast to N peers of which exactly one, at position `k`, cannot be
/// written to delivers to the N - 1 others and reports that one peer, and
/// no other, as failed. This holds whether or not the reconnection to it
/// succeeds.
pub proof fn lemma_broadcast_isolates_failure(
    targets: Seq<PeerAddr>,
    reconnects: bool,
    write_ok: Seq<bool>,
    reconnect_ok: Seq<bool>,
    k: int,
)
    requires
        write_ok.len() == targets.len(),
        reconnect_ok.len() == targets.len(),
        0 <= k < targets.len(),
        forall|i: int| 0 <= i < targets.len() ==> write_ok[i] == (i != k),
    ensures
        ({
            let end = broadcast_run(broadcast_start(targets, reconnects), write_ok, reconnect_ok);
            &&& end.cursor == targets.len()
            &&& end.delivered == targets.len() - 1
            &&& end.failed == seq![targets[k]]
        }),
{
    lemma_broadcast_serves_all(targets, reconnects, write_ok, reconnect_ok);
    lemma_single_failure(targets, write_ok, k, targets.len());
}

} // verus!
