use nautilus::record::PeerAddr;
use nautilus::transport::tcp_transport::{
    ack_token, bytes_equal, request_token, Backoff, Broadcast, BroadcastAction, CloseReason,
    ListenAction, ListenEvent, PeerAction, PeerEvent, PeerPhase, ReconnectStep, TransportError,
    BROADCAST_RECONNECT_ATTEMPTS, IDLE_TIMEOUT, RECEIVE_BUFFER,
};
use nautilus::transport::TcpTransport;

fn local() -> PeerAddr {
    PeerAddr::unspecified(7000)
}

fn peer(n: u8) -> PeerAddr {
    PeerAddr::v4(10, 0, 0, n, 5000)
}

#[test]
fn tokens_are_the_fixed_byte_strings() {
    assert_eq!(request_token(), b"HANDSHAKE_REQUEST".to_vec());
    assert_eq!(ack_token(), b"ACK_HANDSHAKE".to_vec());
    assert_eq!(IDLE_TIMEOUT, 60);
    assert_eq!(RECEIVE_BUFFER, 1024);
    assert_eq!(BROADCAST_RECONNECT_ATTEMPTS, 5);
}

#[test]
fn bytes_equal_compares_byte_for_byte() {
    assert!(bytes_equal(&vec![1, 2, 3], &vec![1, 2, 3]));
    assert!(!bytes_equal(&vec![1, 2, 3], &vec![1, 2, 4]));
    assert!(!bytes_equal(&vec![1, 2, 3], &vec![1, 2]));
    assert!(bytes_equal(&vec![], &vec![]));
}

#[test]
fn new_transport_has_no_connection() {
    let tcp = TcpTransport::new(local());
    assert_eq!(tcp.local_addr(), local());
    assert!(tcp.connected_peers().is_empty());
    assert!(!tcp.is_connected(peer(1)));
    assert_eq!(tcp.phase(peer(1)), None);
}

#[test]
fn accepted_connection_is_registered_and_served() {
    let mut tcp = TcpTransport::new(local());
    assert_eq!(tcp.listen(ListenEvent::Accepted(peer(1)), 11), ListenAction::Serve(peer(1)));
    assert_eq!(tcp.phase(peer(1)), Some(PeerPhase::HandshakePending { since: 11 }));
    assert_eq!(tcp.listen(ListenEvent::Shutdown(false), 12), ListenAction::Continue);
    assert_eq!(tcp.listen(ListenEvent::Shutdown(true), 13), ListenAction::Stop);
    assert_eq!(tcp.connected_peers(), vec![peer(1)]);
}

#[test]
fn correct_request_is_acknowledged_and_the_connection_stays() {
    let mut tcp = TcpTransport::new(local());
    tcp.listen(ListenEvent::Accepted(peer(1)), 0);
    let action = tcp.handle_peer(peer(1), PeerEvent::Data(b"HANDSHAKE_REQUEST".to_vec()), 3);
    assert_eq!(action, PeerAction::Reply(b"ACK_HANDSHAKE".to_vec()));
    assert_eq!(tcp.phase(peer(1)), Some(PeerPhase::Established { last_activity: 3 }));
}

#[test]
fn any_other_first_message_closes_without_reply() {
    for first in [
        b"HANDSHAKE_REQUES".to_vec(),
        b"HANDSHAKE_REQUEST ".to_vec(),
        b"handshake_request".to_vec(),
        b"ACK_HANDSHAKE".to_vec(),
        vec![0u8],
    ] {
        let mut tcp = TcpTransport::new(local());
        tcp.listen(ListenEvent::Accepted(peer(1)), 0);
        let action = tcp.handle_peer(peer(1), PeerEvent::Data(first), 1);
        assert_eq!(action, PeerAction::Close(CloseReason::InvalidHandshake));
        assert!(!tcp.is_connected(peer(1)));
    }
}

#[test]
fn end_of_stream_before_the_handshake_closes() {
    let mut tcp = TcpTransport::new(local());
    tcp.listen(ListenEvent::Accepted(peer(1)), 0);
    assert_eq!(
        tcp.handle_peer(peer(1), PeerEvent::Data(vec![]), 1),
        PeerAction::Close(CloseReason::Eof)
    );
    assert!(!tcp.is_connected(peer(1)));
    tcp.listen(ListenEvent::Accepted(peer(2)), 0);
    assert_eq!(tcp.handle_peer(peer(2), PeerEvent::Eof, 1), PeerAction::Close(CloseReason::Eof));
    tcp.listen(ListenEvent::Accepted(peer(3)), 0);
    assert_eq!(
        tcp.handle_peer(peer(3), PeerEvent::WouldBlock, 1),
        PeerAction::Close(CloseReason::IoError)
    );
    assert!(tcp.connected_peers().is_empty());
}

fn established(tcp: &mut TcpTransport, addr: PeerAddr, now: u64) {
    tcp.listen(ListenEvent::Accepted(addr), now);
    tcp.handle_peer(addr, PeerEvent::Data(request_token()), now);
}

#[test]
fn data_is_forwarded_and_restarts_the_idle_window() {
    let mut tcp = TcpTransport::new(local());
    established(&mut tcp, peer(1), 0);
    assert_eq!(
        tcp.handle_peer(peer(1), PeerEvent::Data(vec![7, 8, 9]), 50),
        PeerAction::Forward(vec![7, 8, 9])
    );
    assert_eq!(tcp.phase(peer(1)), Some(PeerPhase::Established { last_activity: 50 }));
    assert_eq!(tcp.handle_peer(peer(1), PeerEvent::Tick, 110), PeerAction::ReadOn);
    assert_eq!(
        tcp.handle_peer(peer(1), PeerEvent::Tick, 111),
        PeerAction::Close(CloseReason::IdleTimeout)
    );
    assert!(!tcp.is_connected(peer(1)));
}

#[test]
fn idle_connection_is_closed_after_the_window() {
    let mut tcp = TcpTransport::new(local());
    established(&mut tcp, peer(1), 100);
    assert_eq!(tcp.handle_peer(peer(1), PeerEvent::Tick, 100), PeerAction::ReadOn);
    assert_eq!(tcp.handle_peer(peer(1), PeerEvent::Tick, 160), PeerAction::ReadOn);
    assert_eq!(tcp.handle_peer(peer(1), PeerEvent::Tick, 90), PeerAction::ReadOn);
    assert_eq!(
        tcp.handle_peer(peer(1), PeerEvent::Tick, 161),
        PeerAction::Close(CloseReason::IdleTimeout)
    );
    assert_eq!(
        tcp.handle_peer(peer(1), PeerEvent::Tick, 162),
        PeerAction::Close(CloseReason::NotConnected)
    );
}

#[test]
fn silent_client_is_closed_before_the_handshake_too() {
    let mut tcp = TcpTransport::new(local());
    tcp.listen(ListenEvent::Accepted(peer(1)), 10);
    assert_eq!(tcp.handle_peer(peer(1), PeerEvent::Tick, 70), PeerAction::ReadOn);
    assert_eq!(
        tcp.handle_peer(peer(1), PeerEvent::Tick, 71),
        PeerAction::Close(CloseReason::IdleTimeout)
    );
}

#[test]
fn read_errors_tear_the_connection_down() {
    let cases = [
        (PeerEvent::Eof, CloseReason::Eof),
        (PeerEvent::Reset, CloseReason::Reset),
        (PeerEvent::ReadFailed, CloseReason::IoError),
        (PeerEvent::WriteFailed, CloseReason::IoError),
    ];
    for (event, reason) in cases {
        let mut tcp = TcpTransport::new(local());
        established(&mut tcp, peer(1), 0);
        established(&mut tcp, peer(2), 0);
        assert_eq!(tcp.handle_peer(peer(1), event, 1), PeerAction::Close(reason));
        assert!(!tcp.is_connected(peer(1)));
        assert!(tcp.is_connected(peer(2)));
    }
    let mut tcp = TcpTransport::new(local());
    established(&mut tcp, peer(1), 0);
    assert_eq!(tcp.handle_peer(peer(1), PeerEvent::WouldBlock, 1), PeerAction::ReadOn);
    assert!(tcp.is_connected(peer(1)));
}

#[test]
fn connect_registers_and_hands_out_the_request() {
    let mut tcp = TcpTransport::new(local());
    assert_eq!(tcp.connect(peer(1), 4), b"HANDSHAKE_REQUEST".to_vec());
    assert_eq!(tcp.phase(peer(1)), Some(PeerPhase::HandshakePending { since: 4 }));
    assert_eq!(tcp.handshake_with_peer(peer(1), Ok(b"ACK_HANDSHAKE".to_vec()), 6), Ok(()));
    assert_eq!(tcp.phase(peer(1)), Some(PeerPhase::Established { last_activity: 6 }));
}

#[test]
fn failed_handshake_removes_the_connection() {
    let mut tcp = TcpTransport::new(local());
    tcp.connect(peer(1), 0);
    assert_eq!(
        tcp.handshake_with_peer(peer(1), Ok(b"ACK_HANDSHAK".to_vec()), 1),
        Err(TransportError::HandshakeFailed)
    );
    assert!(!tcp.is_connected(peer(1)));
    tcp.connect(peer(1), 0);
    assert_eq!(
        tcp.handshake_with_peer(peer(1), Err(TransportError::Reset), 1),
        Err(TransportError::Reset)
    );
    assert!(!tcp.is_connected(peer(1)));
    assert_eq!(
        tcp.handshake_with_peer(peer(1), Ok(ack_token()), 1),
        Err(TransportError::NotConnected)
    );
}

#[test]
fn handshake_between_client_and_server() {
    let mut client = TcpTransport::new(PeerAddr::unspecified(1));
    let mut server = TcpTransport::new(PeerAddr::unspecified(2));
    let request = client.connect(peer(2), 0);
    server.listen(ListenEvent::Accepted(peer(1)), 0);
    let reply = match server.handle_peer(peer(1), PeerEvent::Data(request), 0) {
        PeerAction::Reply(bytes) => bytes,
        other => panic!("no reply: {:?}", other),
    };
    assert_eq!(client.handshake_with_peer(peer(2), Ok(reply), 0), Ok(()));
    assert!(client.is_connected(peer(2)));
    assert!(server.is_connected(peer(1)));
}

#[test]
fn send_needs_a_connection() {
    let mut tcp = TcpTransport::new(local());
    assert_eq!(tcp.send(peer(1)), Err(TransportError::NotConnected));
    tcp.connect(peer(1), 0);
    assert_eq!(tcp.send(peer(1)), Ok(()));
}

#[test]
fn reconnect_gives_up_after_three_attempts() {
    let refused: Result<(), TransportError> = Err(TransportError::Refused);
    let state = Backoff::new();
    assert_eq!(state, Backoff { attempts: 0, delay: 1 });
    let state = match TcpTransport::reconnect_peer(state, 3, refused) {
        ReconnectStep::Retry { delay, next } => {
            assert_eq!(delay, 1);
            next
        }
        other => panic!("{:?}", other),
    };
    let state = match TcpTransport::reconnect_peer(state, 3, refused) {
        ReconnectStep::Retry { delay, next } => {
            assert_eq!(delay, 2);
            next
        }
        other => panic!("{:?}", other),
    };
    assert_eq!(state, Backoff { attempts: 2, delay: 4 });
    assert_eq!(
        TcpTransport::reconnect_peer(state, 3, Err(TransportError::Reset)),
        ReconnectStep::GiveUp(TransportError::Reset)
    );
}

#[test]
fn reconnect_stops_at_the_first_success() {
    assert_eq!(TcpTransport::reconnect_peer(Backoff::new(), 3, Ok(())), ReconnectStep::Connected);
    let state = Backoff { attempts: 1, delay: 2 };
    assert_eq!(TcpTransport::reconnect_peer(state, 3, Ok(())), ReconnectStep::Connected);
}

#[test]
fn reconnect_with_no_or_one_attempt_gives_up_at_once() {
    let refused: Result<(), TransportError> = Err(TransportError::Refused);
    assert_eq!(
        TcpTransport::reconnect_peer(Backoff::new(), 0, refused),
        ReconnectStep::GiveUp(TransportError::Refused)
    );
    assert_eq!(
        TcpTransport::reconnect_peer(Backoff::new(), 1, refused),
        ReconnectStep::GiveUp(TransportError::Refused)
    );
}

#[test]
fn backoff_doubles_and_saturates() {
    let mut state = Backoff::new();
    let mut delays = Vec::new();
    for _ in 0..70 {
        match TcpTransport::reconnect_peer(state, 100, Err(TransportError::Io)) {
            ReconnectStep::Retry { delay, next } => {
                delays.push(delay);
                state = next;
            }
            other => panic!("{:?}", other),
        }
    }
    assert_eq!(&delays[..5], &[1, 2, 4, 8, 16]);
    assert_eq!(delays[63], 1u64 << 63);
    assert_eq!(delays[64], u64::MAX);
    assert_eq!(delays[69], u64::MAX);
    assert_eq!(state.attempts, 70);
}

fn drive(run: &mut Broadcast, closed: &[PeerAddr], reconnect_ok: bool) -> Vec<BroadcastAction> {
    let mut actions = Vec::new();
    loop {
        let action = run.action();
        actions.push(action);
        match action {
            BroadcastAction::Done => return actions,
            BroadcastAction::Write(addr) => run.record(!closed.contains(&addr)),
            BroadcastAction::Reconnect(_, _) => run.record(reconnect_ok),
        }
    }
}

#[test]
fn broadcast_isolates_the_one_closed_peer() {
    for reconnect_ok in [true, false] {
        let mut tcp = TcpTransport::new(local());
        for n in 1..=5 {
            established(&mut tcp, peer(n), 0);
        }
        let mut run = tcp.broadcast();
        let actions = drive(&mut run, &[peer(3)], reconnect_ok);
        assert_eq!(
            actions,
            vec![
                BroadcastAction::Write(peer(1)),
                BroadcastAction::Write(peer(2)),
                BroadcastAction::Write(peer(3)),
                BroadcastAction::Reconnect(peer(3), 5),
                BroadcastAction::Write(peer(4)),
                BroadcastAction::Write(peer(5)),
                BroadcastAction::Done,
            ]
        );
        assert_eq!(run.delivered(), 4);
        assert_eq!(run.failed(), vec![peer(3)]);
    }
}

#[test]
fn broadcast_to_nobody_is_done_at_once() {
    let tcp = TcpTransport::new(local());
    let mut run = tcp.send_all();
    assert_eq!(run.action(), BroadcastAction::Done);
    run.record(false);
    assert_eq!(run.action(), BroadcastAction::Done);
    assert_eq!(run.delivered(), 0);
    assert!(run.failed().is_empty());
}

#[test]
fn broadcast_without_reconnection_moves_on() {
    let mut run = Broadcast::new(vec![peer(1), peer(2), peer(3)], false);
    let actions = drive(&mut run, &[peer(1), peer(3)], false);
    assert_eq!(
        actions,
        vec![
            BroadcastAction::Write(peer(1)),
            BroadcastAction::Write(peer(2)),
            BroadcastAction::Write(peer(3)),
            BroadcastAction::Done,
        ]
    );
    assert_eq!(run.delivered(), 1);
    assert_eq!(run.failed(), vec![peer(1), peer(3)]);
}

#[test]
fn close_all_empties_the_table() {
    let mut tcp = TcpTransport::new(local());
    established(&mut tcp, peer(1), 0);
    tcp.connect(peer(2), 0);
    let mut closed = tcp.close_all();
    closed.sort_by_key(|a| a.to_text());
    assert_eq!(closed, vec![peer(1), peer(2)]);
    assert!(tcp.connected_peers().is_empty());
    assert!(tcp.close_all().is_empty());
}

#[test]
fn reconnecting_replaces_the_entry() {
    let mut tcp = TcpTransport::new(local());
    established(&mut tcp, peer(1), 0);
    tcp.connect(peer(1), 9);
    assert_eq!(tcp.connected_peers(), vec![peer(1)]);
    assert_eq!(tcp.phase(peer(1)), Some(PeerPhase::HandshakePending { since: 9 }));
}
