//! Multicast DNS: names, records, packets, the service that is announced and
//! the responder that announces it.

pub mod name;
pub mod packet;
pub mod record;
pub mod wire;

use vstd::prelude::*;
use vstd::pervasive::unreached;
use name::{first_long_label, split_labels};
use packet::{packet_wire, parse_packet, DnsPacketView, DnsQuestionView};
use record::DnsRecordView;

pub use name::DnsName;
pub use packet::{DnsPacket, DnsQuestion};
pub use record::DnsRecord;

verus! {

/// Why bytes could not be read as DNS data.
#[derive(Clone, Copy, Debug, PartialEq, Eq, Structural)]
pub enum DnsError {
    /// The bytes end before the data does.
    UnexpectedEof,
    /// A label is not valid UTF-8.
    InvalidUtf8,
    /// The record is of a type that is not handled.
    UnknownRecordType,
}

/// The time to live of every announced record, in seconds.
pub const ANNOUNCE_TTL: u32 = 120;

/// Whether dotted text makes a name: no label takes more than 63 bytes.
pub open spec fn valid_name(text: Seq<char>) -> bool {
    first_long_label(split_labels(text)) == split_labels(text).len()
}

/// A service to announce.
#[derive(Debug)]
pub struct MDNSService {
    pub service_name: DnsName,
    pub service_type: DnsName,
    pub hostname: DnsName,
    port: u16,
    txt_data: Option<Vec<u8>>,
}

/// The name for text that is known to make one.
fn name_of(text: &str) -> (name: DnsName)
    requires
        valid_name(text@),
    ensures
        name@ == split_labels(text@),
        name.wf(),
{
    match DnsName::new(text) {
        Ok(name) => name,
        Err(_) => unreached(),
    }
}

impl MDNSService {
    /// The names of the service are well formed.
    pub closed spec fn wf(&self) -> bool {
        &&& self.service_name.wf()
        &&& self.service_type.wf()
        &&& self.hostname.wf()
    }

    /// The labels of the name of the service.
    pub closed spec fn name_labels(&self) -> Seq<Seq<char>> {
        self.service_name@
    }

    /// The labels of the type of the service.
    pub closed spec fn type_labels(&self) -> Seq<Seq<char>> {
        self.service_type@
    }

    /// The labels of the name of the host.
    pub closed spec fn host_labels(&self) -> Seq<Seq<char>> {
        self.hostname@
    }

    /// The port of the service.
    pub closed spec fn spec_port(&self) -> u16 {
        self.port
    }

    /// The text that is announced with the service, if there is any.
    pub closed spec fn spec_txt_data(&self) -> Option<Seq<u8>> {
        match self.txt_data {
            Some(data) => Some(data@),
            None => None,
        }
    }

    /// The service with the given names, port and text. Each name must make
    /// a DNS name.
    pub fn new(
        service_name: &str,
        service_type: &str,
        hostname: &str,
        port: u16,
        txt_data: Option<Vec<u8>>,
    ) -> (service: Self)
        requires
            valid_name(service_name@),
            valid_name(service_type@),
            valid_name(hostname@),
        ensures
            service.wf(),
            service.name_labels() == split_labels(service_name@),
            service.type_labels() == split_labels(service_type@),
            service.host_labels() == split_labels(hostname@),
            service.spec_port() == port,
            service.spec_txt_data() == (match txt_data {
                Some(data) => Some(data@),
                None => None,
            }),
    {
        MDNSService {
            service_name: name_of(service_name),
            service_type: name_of(service_type),
            hostname: name_of(hostname),
            port,
            txt_data,
        }
    }

    /// The port of the service.
    pub fn port(&self) -> (port: u16)
        ensures
            port == self.spec_port(),
    {
        self.port
    }
}

/// The text that is announced for a service: its own, or one zero byte
/// where it has none.
pub open spec fn announced_txt(txt_data: Option<Seq<u8>>) -> Seq<u8> {
    match txt_data {
        Some(data) => data,
        None => seq![0u8],
    }
}

/// The address that is announced: the local one, or the loopback address
/// where none was found.
pub open spec fn announced_ip(local_ip: Option<Seq<u8>>) -> Seq<u8> {
    match local_ip {
        Some(ip) => ip,
        None => seq![127u8, 0, 0, 1],
    }
}

/// The packet that announces a service: a pointer from the type to the
/// name, the service record and the text under the name, and the address of
/// the host as an additional record.
pub open spec fn announcement(service: MDNSService, local_ip: Option<Seq<u8>>) -> DnsPacketView {
    DnsPacketView {
        id: 0,
        flags: packet::RESPONSE_FLAGS,
        questions: Seq::empty(),
        answers: seq![
            DnsRecordView::PTR {
                name: service.type_labels(),
                ttl: ANNOUNCE_TTL,
                ptr_name: service.name_labels(),
            },
            DnsRecordView::SRV {
                name: service.name_labels(),
                ttl: ANNOUNCE_TTL,
                priority: 0,
                weight: 0,
                port: service.spec_port(),
                target: service.host_labels(),
            },
            DnsRecordView::TXT {
                name: service.name_labels(),
                ttl: ANNOUNCE_TTL,
                txt_data: announced_txt(service.spec_txt_data()),
            },
        ],
        authorities: Seq::empty(),
        additionals: seq![
            DnsRecordView::A {
                name: service.host_labels(),
                ttl: ANNOUNCE_TTL,
                ip: announced_ip(local_ip),
            },
        ],
    }
}

/// How many of the questions ask for `name`.
pub open spec fn questions_for(questions: Seq<DnsQuestionView>, name: Seq<Seq<char>>) -> nat
    decreases questions.len(),
{
    if questions.len() == 0 {
        0
    } else {
        questions_for(questions.drop_last(), name) + (if questions.last().qname == name {
            1nat
        } else {
            0nat
        })
    }
}

/// An address as a sequence of bytes.
pub open spec fn ip_view(ip: Option<[u8; 4]>) -> Option<Seq<u8>> {
    match ip {
        Some(ip) => Some(ip@),
        None => None,
    }
}

/// What the responder observed.
#[derive(Debug)]
pub enum ResponderEvent {
    /// A datagram with these bytes arrived.
    Datagram(Vec<u8>),
    /// Receiving failed.
    ReceiveFailed,
    /// The time between two announcements has passed.
    AnnounceDue,
}

/// What the responder does next.
#[derive(Debug)]
pub enum ResponderAction {
    /// Send each of these packets to the sender of the datagram.
    Reply(Vec<Vec<u8>>),
    /// Send this packet to the multicast group.
    Announce(Vec<u8>),
    /// Nothing to send.
    Idle,
}

/// The responder for one service.
#[derive(Debug)]
pub struct MDNSResponder {
    service: MDNSService,
}

impl MDNSResponder {
    /// The service that is announced.
    pub closed spec fn spec_service(&self) -> MDNSService {
        self.service
    }

    /// The responder for `service`.
    pub fn new(service: MDNSService) -> (responder: Self)
        ensures
            responder.spec_service() == service,
    {
        MDNSResponder { service }
    }

    /// The answers to a query: one response packet for each question that
    /// asks for the type of the service.
    pub fn handle_query(&self, packet: &DnsPacket) -> (replies: Vec<Vec<u8>>)
        ensures
            replies@.len() == questions_for(packet@.questions, self.spec_service().type_labels()),
            forall|i: int| 0 <= i < replies@.len() ==> (#[trigger] replies@[i])@ == Seq::<u8>::empty(),
    {
        let mut replies: Vec<Vec<u8>> = Vec::new();
        let mut i: usize = 0;
        let ghost wanted = self.service.service_type@;
        assert(packet@.questions.take(0) =~= Seq::empty());
        while i < packet.questions.len()
            invariant
                i <= packet.questions.len(),
                wanted == self.service.service_type@,
                replies@.len() == questions_for(packet@.questions.take(i as int), wanted),
                forall|j: int|
                    0 <= j < replies@.len() ==> (#[trigger] replies@[j])@ == Seq::<u8>::empty(),
            decreases packet.questions.len() - i,
        {
            proof {
                let next = packet@.questions.take(i as int + 1);
                assert(next.drop_last() =~= packet@.questions.take(i as int));
                assert(next.last() == packet.questions@[i as int]@);
            }
            if packet.questions[i].qname.same_as(&self.service.service_type) {
                replies.push(self.create_response_packet());
            }
            i += 1;
        }
        assert(packet@.questions.take(packet.questions.len() as int) =~= packet@.questions);
        replies
    }

    /// The wire form of the packet that announces the service, with
    /// `local_ip` as the address of the host.
    pub fn create_announcement_packet(&self, local_ip: Option<[u8; 4]>) -> (bytes: Vec<u8>)
        requires
            self.spec_service().wf(),
        ensures
            bytes@ == packet_wire(announcement(self.spec_service(), ip_view(local_ip))),
    {
        let mut packet = DnsPacket::new();
        let pointer = DnsRecord::PTR {
            name: self.service.service_type.clone(),
            ttl: ANNOUNCE_TTL,
            ptr_name: self.service.service_name.clone(),
        };
        let server = DnsRecord::SRV {
            name: self.service.service_name.clone(),
            ttl: ANNOUNCE_TTL,
            priority: 0,
            weight: 0,
            port: self.service.port,
            target: self.service.hostname.clone(),
        };
        let txt_data = match &self.service.txt_data {
            Some(data) => data.clone(),
            None => vec![0x00u8],
        };
        assert(txt_data@ =~= announced_txt(self.spec_service().spec_txt_data()));
        let text = DnsRecord::TXT {
            name: self.service.service_name.clone(),
            ttl: ANNOUNCE_TTL,
            txt_data,
        };
        let ip: [u8; 4] = match local_ip {
            Some(ip) => ip,
            None => [127, 0, 0, 1],
        };
        assert(ip@ =~= announced_ip(ip_view(local_ip)));
        let address = DnsRecord::A { name: self.service.hostname.clone(), ttl: ANNOUNCE_TTL, ip };
        let ghost want = announcement(self.spec_service(), ip_view(local_ip));
        proof {
            assert(pointer@ == want.answers[0]);
            assert(server@ == want.answers[1]);
            assert(text@ == want.answers[2]);
            assert(address@ == want.additionals[0]);
        }
        packet.answers.push(pointer);
        packet.answers.push(server);
        packet.answers.push(text);
        packet.additionals.push(address);
        proof {
            assert(packet@.questions =~= want.questions);
            assert(packet@.answers =~= want.answers);
            assert(packet@.authorities =~= want.authorities);
            assert(packet@.additionals =~= want.additionals);
        }
        packet.serialize()
    }

    /// The response to a question for the service: no bytes.
    pub fn create_response_packet(&self) -> (bytes: Vec<u8>)
        ensures
            bytes@ == Seq::<u8>::empty(),
    {
        Vec::new()
    }

    /// One step of the responder.
    ///
    /// A datagram that holds a packet is answered as `handle_query` says; one
    /// that holds none is passed over. When an announcement is due, the
    /// announcement packet goes out.
    pub fn run(&self, event: ResponderEvent, local_ip: Option<[u8; 4]>) -> (action:
        ResponderAction)
        requires
            self.spec_service().wf(),
        ensures
            match event {
                ResponderEvent::Datagram(bytes) => match parse_packet(bytes@) {
                    Ok(packet) => action matches ResponderAction::Reply(replies) && replies@.len()
                        == questions_for(packet.questions, self.spec_service().type_labels())
                        && forall|i: int|
                        0 <= i < replies@.len() ==> (#[trigger] replies@[i])@ == Seq::<u8>::empty(),
                    Err(_) => action is Idle,
                },
                ResponderEvent::ReceiveFailed => action is Idle,
                ResponderEvent::AnnounceDue => action matches ResponderAction::Announce(bytes)
                    && bytes@ == packet_wire(
                    announcement(self.spec_service(), ip_view(local_ip)),
                ),
            },
    {
        match event {
            ResponderEvent::Datagram(bytes) => match DnsPacket::parse(bytes.as_slice()) {
                Ok(packet) => ResponderAction::Reply(self.handle_query(&packet)),
                Err(_) => ResponderAction::Idle,
            },
            ResponderEvent::ReceiveFailed => ResponderAction::Idle,
            ResponderEvent::AnnounceDue => ResponderAction::Announce(
                self.create_announcement_packet(local_ip),
            ),
        }
    }
}

} // verus!
