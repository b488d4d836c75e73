use nautilus::record::PeerAddr;
use nautilus::transport::tcp_transport::BroadcastAction;
use nautilus::transport::udp_transport::DatagramEvent;
use nautilus::transport::UdpTransport;

fn peer(n: u8) -> PeerAddr {
    PeerAddr::v4(10, 0, 0, n, 5000)
}

#[test]
fn new_channel_knows_no_peer() {
    let udp = UdpTransport::new();
    assert!(!udp.contains(peer(1)));
    assert_eq!(udp.broadcast().action(), BroadcastAction::Done);
}

#[test]
fn peers_are_added_once_and_removed() {
    let mut udp = UdpTransport::new();
    udp.add_peer(peer(1));
    udp.add_peer(peer(2));
    udp.add_peer(peer(1));
    assert!(udp.contains(peer(1)));
    assert!(udp.contains(peer(2)));
    let mut run = udp.broadcast();
    assert_eq!(run.action(), BroadcastAction::Write(peer(1)));
    run.record(true);
    assert_eq!(run.action(), BroadcastAction::Write(peer(2)));
    run.record(true);
    assert_eq!(run.action(), BroadcastAction::Done);

    udp.remove_peer(peer(1));
    assert!(!udp.contains(peer(1)));
    assert!(udp.contains(peer(2)));
    udp.remove_peer(peer(9));
    assert!(udp.contains(peer(2)));
    udp.clear_peers();
    assert!(!udp.contains(peer(2)));
}

#[test]
fn datagram_broadcast_goes_on_after_a_failure() {
    let mut udp = UdpTransport::new();
    for n in 1..=3 {
        udp.add_peer(peer(n));
    }
    let mut run = udp.broadcast();
    assert_eq!(run.action(), BroadcastAction::Write(peer(1)));
    run.record(true);
    assert_eq!(run.action(), BroadcastAction::Write(peer(2)));
    run.record(false);
    assert_eq!(run.action(), BroadcastAction::Write(peer(3)));
    run.record(true);
    assert_eq!(run.action(), BroadcastAction::Done);
    assert_eq!(run.delivered(), 2);
    assert_eq!(run.failed(), vec![peer(2)]);
}

#[test]
fn received_datagram_is_forwarded_and_a_failure_is_not() {
    assert_eq!(
        UdpTransport::listen(DatagramEvent::Received(peer(1), vec![1, 2])),
        Some((peer(1), vec![1, 2]))
    );
    assert_eq!(UdpTransport::listen(DatagramEvent::Failed), None);
}
