use nautilus::record::{CacheError, CacheRead, PeerAddr, PeerRecord};
use nautilus::transport::tcp_transport::{BroadcastAction, TransportError};
use nautilus::transport::{DispatchAction, InboxEvent, NautilusTransport, SendReport};

fn peer(n: u8) -> PeerAddr {
    PeerAddr::v4(10, 0, 0, n, 5000)
}

fn fresh() -> NautilusTransport {
    NautilusTransport::new(4000, CacheRead::Missing, 0).unwrap()
}

#[test]
fn new_transport_listens_on_every_address() {
    let transport = fresh();
    assert_eq!(transport.tcp.local_addr(), PeerAddr::V4 { ip: 0, port: 4000 });
    assert_eq!(transport.tcp.local_addr().to_text(), "0.0.0.0:4000");
    assert_eq!(transport.cache_file(), "KPR.json");
    assert!(transport.get_peers().is_empty());
    assert!(transport.tcp.connected_peers().is_empty());
}

#[test]
fn new_transport_is_hydrated_from_the_snapshot() {
    let mut source = fresh();
    source.start_listeners(InboxEvent::Message(peer(1), vec![1]), 10);
    let snapshot = source.save_peers(30);
    let transport = NautilusTransport::new(4000, CacheRead::Loaded(snapshot), 100).unwrap();
    assert_eq!(transport.get_peers(), vec!["10.0.0.1:5000".to_string()]);
    assert_eq!(transport.get_peer("10.0.0.1:5000").unwrap().last_seen, Some(80));
}

#[test]
fn new_transport_fails_on_a_bad_snapshot() {
    assert_eq!(
        NautilusTransport::new(1, CacheRead::Malformed, 0).err(),
        Some(CacheError::Malformed)
    );
    assert_eq!(
        NautilusTransport::new(1, CacheRead::Unreadable, 0).err(),
        Some(CacheError::Unreadable)
    );
}

#[test]
fn inbound_traffic_refreshes_the_registry() {
    let mut transport = fresh();
    assert_eq!(
        transport.start_listeners(InboxEvent::Message(peer(1), b"hi".to_vec()), 7),
        DispatchAction::Continue
    );
    let record: PeerRecord = transport.get_peer("10.0.0.1:5000").unwrap();
    assert_eq!(record.addr, peer(1));
    assert!(record.is_active);
    assert_eq!(record.last_seen, Some(7));
    assert_eq!(record.peer_id, None);
    assert_eq!(record.public_key, None);
    transport.start_listeners(InboxEvent::Message(peer(1), b"again".to_vec()), 9);
    assert_eq!(transport.get_peers().len(), 1);
    assert_eq!(transport.get_peer("10.0.0.1:5000").unwrap().last_seen, Some(9));
}

#[test]
fn dispatch_stops_on_shutdown_only() {
    let mut transport = fresh();
    assert_eq!(transport.start_listeners(InboxEvent::Closed, 0), DispatchAction::Continue);
    assert_eq!(transport.start_listeners(InboxEvent::Shutdown(false), 0), DispatchAction::Continue);
    assert_eq!(transport.start_listeners(InboxEvent::Shutdown(true), 0), DispatchAction::Stop);
    assert!(transport.get_peers().is_empty());
}

#[test]
fn send_succeeds_whatever_the_channels_report() {
    let transport = fresh();
    assert_eq!(
        transport.send(Ok(5), Ok(5)),
        Ok(SendReport { tcp_failure: None, udp_failure: None })
    );
    assert_eq!(
        transport.send(Err(TransportError::NotConnected), Ok(5)),
        Ok(SendReport { tcp_failure: Some(TransportError::NotConnected), udp_failure: None })
    );
    assert_eq!(
        transport.send(Err(TransportError::Reset), Err(TransportError::Io)),
        Ok(SendReport {
            tcp_failure: Some(TransportError::Reset),
            udp_failure: Some(TransportError::Io)
        })
    );
}

#[test]
fn connect_files_the_peer_on_success_only() {
    let mut transport = fresh();
    assert_eq!(
        transport.connect(peer(1), Err(TransportError::Refused), 3),
        Err(TransportError::Refused)
    );
    assert!(transport.get_peers().is_empty());
    assert_eq!(transport.connect(peer(1), Ok(()), 4), Ok(()));
    assert_eq!(transport.get_peers(), vec!["10.0.0.1:5000".to_string()]);
    assert_eq!(transport.get_peer("10.0.0.1:5000").unwrap().last_seen, Some(4));
}

#[test]
fn remove_peer_goes_by_the_text_of_the_address() {
    let mut transport = fresh();
    transport.connect(peer(1), Ok(()), 4);
    transport.connect(peer(2), Ok(()), 5);
    let snapshot = transport.remove_peer(peer(1), 6);
    assert_eq!(snapshot.len(), 1);
    assert_eq!(snapshot[0].0, "10.0.0.2:5000");
    assert_eq!(snapshot[0].1.last_seen, Some(1));
    assert_eq!(transport.get_peers(), vec!["10.0.0.2:5000".to_string()]);
    assert!(transport.get_peer("10.0.0.1:5000").is_none());
}

#[test]
fn broadcast_runs_on_both_channels() {
    let mut transport = fresh();
    transport.tcp.connect(peer(1), 0);
    transport.udp.add_peer(peer(2));
    let (mut tcp_run, mut udp_run) = transport.broadcast();
    assert_eq!(tcp_run.action(), BroadcastAction::Write(peer(1)));
    tcp_run.record(false);
    assert_eq!(tcp_run.action(), BroadcastAction::Reconnect(peer(1), 5));
    tcp_run.record(false);
    assert_eq!(tcp_run.action(), BroadcastAction::Done);
    assert_eq!(udp_run.action(), BroadcastAction::Write(peer(2)));
    udp_run.record(true);
    assert_eq!(udp_run.action(), BroadcastAction::Done);
}
