//! DNS packets: the header, the questions and three lists of records.

use vstd::prelude::*;
use crate::discovery::mdns::name::{parse_name, DnsName};
use crate::discovery::mdns::record::{
    length_field, parse_record, record_wire, DnsRecord, DnsRecordView,
};
use crate::discovery::mdns::wire::{be16, get_u16, put_u16, u16_at};
use crate::discovery::mdns::DnsError;

verus! {

/// The flags of a packet made here: a response with an authoritative
/// answer.
pub const RESPONSE_FLAGS: u16 = 0x8400;

/// The length of the header of a packet, in bytes.
pub const HEADER_LEN: usize = 12;

/// A question: the name asked for, the type and the class.
#[derive(Debug)]
pub struct DnsQuestion {
    pub qname: DnsName,
    pub qtype: u16,
    pub qclass: u16,
}

/// A `DnsQuestion` as plain values.
pub struct DnsQuestionView {
    pub qname: Seq<Seq<char>>,
    pub qtype: u16,
    pub qclass: u16,
}

impl View for DnsQuestion {
    type V = DnsQuestionView;

    open spec fn view(&self) -> DnsQuestionView {
        DnsQuestionView { qname: self.qname@, qtype: self.qtype, qclass: self.qclass }
    }
}

/// The question that starts at `pos` in `data`, and the position after it:
/// a name, then the type and the class in two bytes each.
pub open spec fn parse_question(data: Seq<u8>, pos: int) -> Result<(DnsQuestionView, int), DnsError> {
    match parse_name(data, pos) {
        Err(e) => Err(e),
        Ok((qname, at)) => if at + 4 > data.len() {
            Err(DnsError::UnexpectedEof)
        } else {
            Ok(
                (
                    DnsQuestionView {
                        qname,
                        qtype: u16_at(data, at),
                        qclass: u16_at(data, at + 2),
                    },
                    at + 4,
                ),
            )
        },
    }
}

impl DnsQuestion {
    /// Reads the question that starts at `pos` in `data`; also gives the
    /// position after the question.
    pub fn parse(data: &[u8], pos: usize) -> (parsed: Result<(DnsQuestion, usize), DnsError>)
        ensures
            match parsed {
                Ok((question, end)) => parse_question(data@, pos as int) == Ok::<
                    (DnsQuestionView, int),
                    DnsError,
                >((question@, end as int)) && question.qname.wf() && pos < end <= data@.len(),
                Err(e) => parse_question(data@, pos as int) == Err::<
                    (DnsQuestionView, int),
                    DnsError,
                >(e),
            },
    {
        let (qname, at) = match DnsName::parse(data, pos) {
            Ok(found) => found,
            Err(e) => {
                return Err(e);
            },
        };
        if data.len() - at < 4 {
            return Err(DnsError::UnexpectedEof);
        }
        let qtype = get_u16(data, at);
        let qclass = get_u16(data, at + 2);
        Ok((DnsQuestion { qname, qtype, qclass }, at + 4))
    }
}

/// A DNS packet.
#[derive(Debug)]
pub struct DnsPacket {
    pub id: u16,
    pub flags: u16,
    pub questions: Vec<DnsQuestion>,
    pub answers: Vec<DnsRecord>,
    pub authorities: Vec<DnsRecord>,
    pub additionals: Vec<DnsRecord>,
}

/// A `DnsPacket` as plain values.
pub struct DnsPacketView {
    pub id: u16,
    pub flags: u16,
    pub questions: Seq<DnsQuestionView>,
    pub answers: Seq<DnsRecordView>,
    pub authorities: Seq<DnsRecordView>,
    pub additionals: Seq<DnsRecordView>,
}

/// The records as plain values.
pub open spec fn records_view(records: Seq<DnsRecord>) -> Seq<DnsRecordView> {
    records.map_values(|r: DnsRecord| r@)
}

/// The questions as plain values.
pub open spec fn questions_view(questions: Seq<DnsQuestion>) -> Seq<DnsQuestionView> {
    questions.map_values(|q: DnsQuestion| q@)
}

impl View for DnsPacket {
    type V = DnsPacketView;

    open spec fn view(&self) -> DnsPacketView {
        DnsPacketView {
            id: self.id,
            flags: self.flags,
            questions: questions_view(self.questions@),
            answers: records_view(self.answers@),
            authorities: records_view(self.authorities@),
            additionals: records_view(self.additionals@),
        }
    }
}

/// The records on the wire, one after the other.
pub open spec fn records_wire(records: Seq<DnsRecordView>) -> Seq<u8>
    decreases records.len(),
{
    if records.len() == 0 {
        Seq::empty()
    } else {
        records_wire(records.drop_last()) + record_wire(records.last())
    }
}

/// The header of a packet on the wire: the identifier, the flags and the
/// four counts, each count in its low 16 bits.
pub open spec fn header_wire(packet: DnsPacketView) -> Seq<u8> {
    be16(packet.id) + be16(packet.flags) + be16(length_field(packet.questions.len())) + be16(
        length_field(packet.answers.len()),
    ) + be16(length_field(packet.authorities.len())) + be16(
        length_field(packet.additionals.len()),
    )
}

/// A packet on the wire: the header, then the answers, the authorities and
/// the additional records. The questions are counted in the header and not
/// written.
pub open spec fn packet_wire(packet: DnsPacketView) -> Seq<u8> {
    header_wire(packet) + records_wire(packet.answers) + records_wire(packet.authorities)
        + records_wire(packet.additionals)
}

/// Parsed items with the items `front` put before them.
pub open spec fn items_after<T>(front: Seq<T>, parsed: Result<(Seq<T>, int), DnsError>) -> Result<
    (Seq<T>, int),
    DnsError,
> {
    match parsed {
        Ok((items, end)) => Ok((front + items, end)),
        Err(e) => Err(e),
    }
}

/// `count` questions from `pos` on, and the position after them.
pub open spec fn parse_questions(data: Seq<u8>, pos: int, count: nat) -> Result<
    (Seq<DnsQuestionView>, int),
    DnsError,
>
    decreases count,
{
    if count == 0 {
        Ok((Seq::empty(), pos))
    } else {
        match parse_question(data, pos) {
            Err(e) => Err(e),
            Ok((question, at)) => items_after(
                seq![question],
                parse_questions(data, at, (count - 1) as nat),
            ),
        }
    }
}

/// `count` records from `pos` on, and the position after them.
pub open spec fn parse_records(data: Seq<u8>, pos: int, count: nat) -> Result<
    (Seq<DnsRecordView>, int),
    DnsError,
>
    decreases count,
{
    if count == 0 {
        Ok((Seq::empty(), pos))
    } else {
        match parse_record(data, pos) {
            Err(e) => Err(e),
            Ok((record, at)) => items_after(
                seq![record],
                parse_records(data, at, (count - 1) as nat),
            ),
        }
    }
}

/// The packet that `data` holds: a header of twelve bytes, then as many
/// questions, answers, authorities and additional records as the header
/// counts, in this order. Bytes after them are not looked at.
pub open spec fn parse_packet(data: Seq<u8>) -> Result<DnsPacketView, DnsError> {
    if data.len() < HEADER_LEN {
        Err(DnsError::UnexpectedEof)
    } else {
        match parse_questions(data, HEADER_LEN as int, u16_at(data, 4) as nat) {
            Err(e) => Err(e),
            Ok((questions, after_questions)) => match parse_records(data, after_questions, u16_at(data, 6) as nat) {
                Err(e) => Err(e),
                Ok((answers, after_answers)) => match parse_records(data, after_answers, u16_at(data, 8) as nat) {
                    Err(e) => Err(e),
                    Ok((authorities, after_authorities)) => match parse_records(
                        data,
                        after_authorities,
                        u16_at(data, 10) as nat,
                    ) {
                        Err(e) => Err(e),
                        Ok((additionals, _)) => Ok(
                            DnsPacketView {
                                id: u16_at(data, 0),
                                flags: u16_at(data, 2),
                                questions,
                                answers,
                                authorities,
                                additionals,
                            },
                        ),
                    },
                },
            },
        }
    }
}

/// Every record of the list is well formed.
pub open spec fn records_wf(records: Seq<DnsRecord>) -> bool {
    forall|i: int| 0 <= i < records.len() ==> (#[trigger] records[i]).wf()
}

/// Appends the wire form of every record of the list to `buffer`.
fn write_records(records: &Vec<DnsRecord>, buffer: &mut Vec<u8>)
    requires
        records_wf(records@),
    ensures
        final(buffer)@ == old(buffer)@ + records_wire(records_view(records@)),
{
    let mut i: usize = 0;
    while i < records.len()
        invariant
            records_wf(records@),
            i <= records.len(),
            buffer@ == old(buffer)@ + records_wire(records_view(records@).take(i as int)),
        decreases records.len() - i,
    {
        records[i].write(buffer);
        proof {
            let next = records_view(records@).take(i as int + 1);
            assert(next.drop_last() =~= records_view(records@).take(i as int));
            assert(next.last() == records@[i as int]@);
            assert(buffer@ =~= old(buffer)@ + records_wire(next));
        }
        i += 1;
    }
    assert(records_view(records@).take(records.len() as int) =~= records_view(records@));
}

/// Reads `count` records from `pos` on.
fn read_records(data: &[u8], pos: usize, count: u16) -> (parsed: Result<
    (Vec<DnsRecord>, usize),
    DnsError,
>)
    requires
        pos <= data@.len(),
    ensures
        match parsed {
            Ok((records, end)) => parse_records(data@, pos as int, count as nat) == Ok::<
                (Seq<DnsRecordView>, int),
                DnsError,
            >((records_view(records@), end as int)) && records_wf(records@) && pos <= end
                <= data@.len(),
            Err(e) => parse_records(data@, pos as int, count as nat) == Err::<
                (Seq<DnsRecordView>, int),
                DnsError,
            >(e),
        },
{
    let mut records: Vec<DnsRecord> = Vec::new();
    let mut at: usize = pos;
    let mut n: u16 = 0;
    assert(records_view(records@) + Seq::<DnsRecordView>::empty() =~= records_view(records@));
    while n < count
        invariant
            n <= count,
            pos <= at <= data@.len(),
            records_wf(records@),
            parse_records(data@, pos as int, count as nat) == items_after(
                records_view(records@),
                parse_records(data@, at as int, (count - n) as nat),
            ),
        decreases count - n,
    {
        let ghost front = records_view(records@);
        let (record, end) = match DnsRecord::parse(data, at) {
            Ok(found) => found,
            Err(e) => {
                return Err(e);
            },
        };
        proof {
            let rest = parse_records(data@, end as int, (count - n - 1) as nat);
            assert(items_after(front, items_after(seq![record@], rest)) == items_after(
                front.push(record@),
                rest,
            )) by {
                if let Ok((more, stop)) = rest {
                    assert(front + (seq![record@] + more) =~= front.push(record@) + more);
                }
            }
        }
        records.push(record);
        proof {
            assert(records_view(records@) =~= front.push(record@));
        }
        at = end;
        n += 1;
    }
    proof {
        assert(records_view(records@) + Seq::<DnsRecordView>::empty() =~= records_view(records@));
    }
    Ok((records, at))
}

/// Reads `count` questions from `pos` on.
fn read_questions(data: &[u8], pos: usize, count: u16) -> (parsed: Result<
    (Vec<DnsQuestion>, usize),
    DnsError,
>)
    requires
        pos <= data@.len(),
    ensures
        match parsed {
            Ok((questions, end)) => parse_questions(data@, pos as int, count as nat) == Ok::<
                (Seq<DnsQuestionView>, int),
                DnsError,
            >((questions_view(questions@), end as int)) && pos <= end <= data@.len(),
            Err(e) => parse_questions(data@, pos as int, count as nat) == Err::<
                (Seq<DnsQuestionView>, int),
                DnsError,
            >(e),
        },
{
    let mut questions: Vec<DnsQuestion> = Vec::new();
    let mut at: usize = pos;
    let mut n: u16 = 0;
    assert(questions_view(questions@) + Seq::<DnsQuestionView>::empty() =~= questions_view(
        questions@,
    ));
    while n < count
        invariant
            n <= count,
            pos <= at <= data@.len(),
            parse_questions(data@, pos as int, count as nat) == items_after(
                questions_view(questions@),
                parse_questions(data@, at as int, (count - n) as nat),
            ),
        decreases count - n,
    {
        let ghost front = questions_view(questions@);
        let (question, end) = match DnsQuestion::parse(data, at) {
            Ok(found) => found,
            Err(e) => {
                return Err(e);
            },
        };
        proof {
            let rest = parse_questions(data@, end as int, (count - n - 1) as nat);
            assert(items_after(front, items_after(seq![question@], rest)) == items_after(
                front.push(question@),
                rest,
            )) by {
                if let Ok((more, stop)) = rest {
                    assert(front + (seq![question@] + more) =~= front.push(question@) + more);
                }
            }
        }
        questions.push(question);
        proof {
            assert(questions_view(questions@) =~= front.push(question@));
        }
        at = end;
        n += 1;
    }
    proof {
        assert(questions_view(questions@) + Seq::<DnsQuestionView>::empty() =~= questions_view(
            questions@,
        ));
    }
    Ok((questions, at))
}

impl DnsPacket {
    /// The records of the packet are well formed.
    pub open spec fn wf(&self) -> bool {
        &&& records_wf(self.answers@)
        &&& records_wf(self.authorities@)
        &&& records_wf(self.additionals@)
    }

    /// An empty response packet.
    pub fn new() -> (packet: Self)
        ensures
            packet@ == (DnsPacketView {
                id: 0,
                flags: RESPONSE_FLAGS,
                questions: Seq::empty(),
                answers: Seq::empty(),
                authorities: Seq::empty(),
                additionals: Seq::empty(),
            }),
            packet.wf(),
    {
        let packet = DnsPacket {
            id: 0,
            flags: RESPONSE_FLAGS,
            questions: Vec::new(),
            answers: Vec::new(),
            authorities: Vec::new(),
            additionals: Vec::new(),
        };
        assert(packet@.questions =~= Seq::empty());
        assert(packet@.answers =~= Seq::empty());
        assert(packet@.authorities =~= Seq::empty());
        assert(packet@.additionals =~= Seq::empty());
        packet
    }

    /// The low 16 bits of a count.
    fn count_field(len: usize) -> (field: u16)
        ensures
            field == length_field(len as nat),
    {
        (len % 0x1_0000) as u16
    }

    /// The wire form of the packet.
    pub fn serialize(&self) -> (buffer: Vec<u8>)
        requires
            self.wf(),
        ensures
            buffer@ == packet_wire(self@),
    {
        let mut buffer: Vec<u8> = Vec::new();
        put_u16(&mut buffer, self.id);
        put_u16(&mut buffer, self.flags);
        put_u16(&mut buffer, Self::count_field(self.questions.len()));
        put_u16(&mut buffer, Self::count_field(self.answers.len()));
        put_u16(&mut buffer, Self::count_field(self.authorities.len()));
        put_u16(&mut buffer, Self::count_field(self.additionals.len()));
        assert(buffer@ =~= header_wire(self@));
        write_records(&self.answers, &mut buffer);
        write_records(&self.authorities, &mut buffer);
        write_records(&self.additionals, &mut buffer);
        buffer
    }

    /// Reads the packet that `data` holds.
    pub fn parse(data: &[u8]) -> (parsed: Result<DnsPacket, DnsError>)
        ensures
            match parsed {
                Ok(packet) => parse_packet(data@) == Ok::<DnsPacketView, DnsError>(packet@)
                    && packet.wf(),
                Err(e) => parse_packet(data@) == Err::<DnsPacketView, DnsError>(e),
            },
    {
        if data.len() < HEADER_LEN {
            return Err(DnsError::UnexpectedEof);
        }
        let id = get_u16(data, 0);
        let flags = get_u16(data, 2);
        let qdcount = get_u16(data, 4);
        let ancount = get_u16(data, 6);
        let nscount = get_u16(data, 8);
        let arcount = get_u16(data, 10);
        let (questions, after_questions) = match read_questions(data, HEADER_LEN, qdcount) {
            Ok(found) => found,
            Err(e) => {
                return Err(e);
            },
        };
        let (answers, after_answers) = match read_records(data, after_questions, ancount) {
            Ok(found) => found,
            Err(e) => {
                return Err(e);
            },
        };
        let (authorities, after_authorities) = match read_records(data, after_answers, nscount) {
            Ok(found) => found,
            Err(e) => {
                return Err(e);
            },
        };
        let (additionals, _) = match read_records(data, after_authorities, arcount) {
            Ok(found) => found,
            Err(e) => {
                return Err(e);
            },
        };
        Ok(DnsPacket { id, flags, questions, answers, authorities, additionals })
    }
}

} // verus!
