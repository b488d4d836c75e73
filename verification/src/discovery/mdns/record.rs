//! Resource records and their wire form.

use vstd::prelude::*;
use crate::discovery::mdns::name::{
    copy_range, labels_fit, lemma_write_then_parse, name_wire, parse_name, DnsName,
};
use crate::discovery::mdns::wire::{
    be16, be32, get_u16, get_u32, lemma_be16_read_back, lemma_be32_read_back, put_u16, put_u32,
    u16_at, u32_at,
};
use crate::discovery::mdns::DnsError;

verus! {

/// The type code of an address record.
pub const TYPE_A: u16 = 1;

/// The type code of a pointer record.
pub const TYPE_PTR: u16 = 12;

/// The type code of a text record.
pub const TYPE_TXT: u16 = 16;

/// The type code of a service record.
pub const TYPE_SRV: u16 = 33;

/// The class code of the Internet.
pub const CLASS_IN: u16 = 1;

/// The longest piece of text that one length byte can announce.
pub const TXT_SEGMENT: usize = 255;

/// A resource record.
#[derive(Debug)]
pub enum DnsRecord {
    A { name: DnsName, ttl: u32, ip: [u8; 4] },
    PTR { name: DnsName, ttl: u32, ptr_name: DnsName },
    SRV { name: DnsName, ttl: u32, priority: u16, weight: u16, port: u16, target: DnsName },
    TXT { name: DnsName, ttl: u32, txt_data: Vec<u8> },
}

/// A `DnsRecord` as plain values.
pub enum DnsRecordView {
    A { name: Seq<Seq<char>>, ttl: u32, ip: Seq<u8> },
    PTR { name: Seq<Seq<char>>, ttl: u32, ptr_name: Seq<Seq<char>> },
    SRV {
        name: Seq<Seq<char>>,
        ttl: u32,
        priority: u16,
        weight: u16,
        port: u16,
        target: Seq<Seq<char>>,
    },
    TXT { name: Seq<Seq<char>>, ttl: u32, txt_data: Seq<u8> },
}

impl View for DnsRecord {
    type V = DnsRecordView;

    open spec fn view(&self) -> DnsRecordView {
        match self {
            DnsRecord::A { name, ttl, ip } => DnsRecordView::A { name: name@, ttl: *ttl, ip: ip@ },
            DnsRecord::PTR { name, ttl, ptr_name } => DnsRecordView::PTR {
                name: name@,
                ttl: *ttl,
                ptr_name: ptr_name@,
            },
            DnsRecord::SRV { name, ttl, priority, weight, port, target } => DnsRecordView::SRV {
                name: name@,
                ttl: *ttl,
                priority: *priority,
                weight: *weight,
                port: *port,
                target: target@,
            },
            DnsRecord::TXT { name, ttl, txt_data } => DnsRecordView::TXT {
                name: name@,
                ttl: *ttl,
                txt_data: txt_data@,
            },
        }
    }
}

/// A length as the 16-bit field of a record holds it: its low 16 bits.
pub open spec fn length_field(len: nat) -> u16 {
    (len % 0x1_0000) as u16
}

/// Text on the wire: cut into pieces of at most 255 bytes, each after a byte
/// that gives its length.
pub open spec fn txt_wire(data: Seq<u8>) -> Seq<u8>
    decreases data.len(),
{
    if data.len() == 0 {
        Seq::empty()
    } else {
        let n = if data.len() < TXT_SEGMENT {
            data.len() as int
        } else {
            TXT_SEGMENT as int
        };
        seq![n as u8] + data.take(n) + txt_wire(data.skip(n))
    }
}

/// The data part of a record on the wire.
pub open spec fn rdata_wire(record: DnsRecordView) -> Seq<u8> {
    match record {
        DnsRecordView::A { ip, .. } => ip,
        DnsRecordView::PTR { ptr_name, .. } => name_wire(ptr_name),
        DnsRecordView::SRV { priority, weight, port, target, .. } => be16(priority) + be16(weight)
            + be16(port) + name_wire(target),
        DnsRecordView::TXT { txt_data, .. } => txt_wire(txt_data),
    }
}

/// The name of a record.
pub open spec fn record_name(record: DnsRecordView) -> Seq<Seq<char>> {
    match record {
        DnsRecordView::A { name, .. } => name,
        DnsRecordView::PTR { name, .. } => name,
        DnsRecordView::SRV { name, .. } => name,
        DnsRecordView::TXT { name, .. } => name,
    }
}

/// The time to live of a record.
pub open spec fn record_ttl(record: DnsRecordView) -> u32 {
    match record {
        DnsRecordView::A { ttl, .. } => ttl,
        DnsRecordView::PTR { ttl, .. } => ttl,
        DnsRecordView::SRV { ttl, .. } => ttl,
        DnsRecordView::TXT { ttl, .. } => ttl,
    }
}

/// The type code of a record.
pub open spec fn record_type(record: DnsRecordView) -> u16 {
    match record {
        DnsRecordView::A { .. } => TYPE_A,
        DnsRecordView::PTR { .. } => TYPE_PTR,
        DnsRecordView::SRV { .. } => TYPE_SRV,
        DnsRecordView::TXT { .. } => TYPE_TXT,
    }
}

/// The ten bytes between the name and the data of a record: type, class,
/// time to live and the length of the data.
pub open spec fn fixed_wire(rtype: u16, ttl: u32, rdlength: u16) -> Seq<u8> {
    be16(rtype) + be16(CLASS_IN) + be32(ttl) + be16(rdlength)
}

/// A record on the wire: the name, the ten bytes of type, class, time to
/// live and length of the data in 16 bits, and the data.
pub open spec fn record_wire(record: DnsRecordView) -> Seq<u8> {
    name_wire(record_name(record)) + fixed_wire(
        record_type(record),
        record_ttl(record),
        length_field(rdata_wire(record).len()),
    ) + rdata_wire(record)
}

/// The data of a record of type `rtype` that starts at `pos`, for a record
/// with the given name, time to live and announced length of data.
pub open spec fn parse_rdata(
    data: Seq<u8>,
    pos: int,
    name: Seq<Seq<char>>,
    rtype: u16,
    ttl: u32,
    rdlength: u16,
) -> Result<(DnsRecordView, int), DnsError> {
    if rtype == TYPE_A {
        if pos + 4 > data.len() {
            Err(DnsError::UnexpectedEof)
        } else {
            Ok((DnsRecordView::A { name, ttl, ip: data.subrange(pos, pos + 4) }, pos + 4))
        }
    } else if rtype == TYPE_PTR {
        match parse_name(data, pos) {
            Ok((ptr_name, end)) => Ok((DnsRecordView::PTR { name, ttl, ptr_name }, end)),
            Err(e) => Err(e),
        }
    } else if rtype == TYPE_SRV {
        if pos + 6 > data.len() {
            Err(DnsError::UnexpectedEof)
        } else {
            match parse_name(data, pos + 6) {
                Ok((target, end)) => Ok(
                    (
                        DnsRecordView::SRV {
                            name,
                            ttl,
                            priority: u16_at(data, pos),
                            weight: u16_at(data, pos + 2),
                            port: u16_at(data, pos + 4),
                            target,
                        },
                        end,
                    ),
                ),
                Err(e) => Err(e),
            }
        }
    } else if rtype == TYPE_TXT {
        if pos + rdlength > data.len() {
            Err(DnsError::UnexpectedEof)
        } else {
            Ok(
                (
                    DnsRecordView::TXT { name, ttl, txt_data: data.subrange(pos, pos + rdlength) },
                    pos + rdlength,
                ),
            )
        }
    } else {
        Err(DnsError::UnknownRecordType)
    }
}

/// The record that starts at `pos` in `data`, and the position after it.
///
/// After the name come the type, the class, the time to live and the
/// announced length of the data, ten bytes in all, and then the data. The
/// class is not looked at. The text of a text record is the data as it
/// stands, `rdlength` bytes of it.
pub open spec fn parse_record(data: Seq<u8>, pos: int) -> Result<(DnsRecordView, int), DnsError> {
    match parse_name(data, pos) {
        Err(e) => Err(e),
        Ok((name, at)) => if at + 10 > data.len() {
            Err(DnsError::UnexpectedEof)
        } else {
            parse_rdata(
                data,
                at + 10,
                name,
                u16_at(data, at),
                u32_at(data, at + 4),
                u16_at(data, at + 8),
            )
        },
    }
}

impl DnsRecord {
    /// The names of the record are well formed.
    pub open spec fn wf(&self) -> bool {
        match self {
            DnsRecord::A { name, .. } => name.wf(),
            DnsRecord::PTR { name, ptr_name, .. } => name.wf() && ptr_name.wf(),
            DnsRecord::SRV { name, target, .. } => name.wf() && target.wf(),
            DnsRecord::TXT { name, .. } => name.wf(),
        }
    }

    /// Appends the wire form of the record to `buffer`.
    pub fn write(&self, buffer: &mut Vec<u8>)
        requires
            self.wf(),
        ensures
            final(buffer)@ == old(buffer)@ + record_wire(self@),
    {
        match self {
            DnsRecord::A { name, ttl, ip } => {
                name.write(buffer);
                put_u16(buffer, TYPE_A);
                put_u16(buffer, CLASS_IN);
                put_u32(buffer, *ttl);
                put_u16(buffer, 4);
                buffer.extend_from_slice(ip.as_slice());
                assert(length_field(ip@.len()) == 4);
                assert(buffer@ =~= old(buffer)@ + record_wire(self@));
            },
            DnsRecord::PTR { name, ttl, ptr_name } => {
                name.write(buffer);
                put_u16(buffer, TYPE_PTR);
                put_u16(buffer, CLASS_IN);
                put_u32(buffer, *ttl);
                let mut rdata: Vec<u8> = Vec::new();
                ptr_name.write(&mut rdata);
                assert(rdata@ =~= rdata_wire(self@));
                put_u16(buffer, Self::low_bits(rdata.len()));
                buffer.extend_from_slice(rdata.as_slice());
                assert(buffer@ =~= old(buffer)@ + record_wire(self@));
            },
            DnsRecord::SRV { name, ttl, priority, weight, port, target } => {
                name.write(buffer);
                put_u16(buffer, TYPE_SRV);
                put_u16(buffer, CLASS_IN);
                put_u32(buffer, *ttl);
                let mut rdata: Vec<u8> = Vec::new();
                put_u16(&mut rdata, *priority);
                put_u16(&mut rdata, *weight);
                put_u16(&mut rdata, *port);
                target.write(&mut rdata);
                assert(rdata@ =~= rdata_wire(self@));
                put_u16(buffer, Self::low_bits(rdata.len()));
                buffer.extend_from_slice(rdata.as_slice());
                assert(buffer@ =~= old(buffer)@ + record_wire(self@));
            },
            DnsRecord::TXT { name, ttl, txt_data } => {
                name.write(buffer);
                put_u16(buffer, TYPE_TXT);
                put_u16(buffer, CLASS_IN);
                put_u32(buffer, *ttl);
                let rdata = Self::txt_segments(txt_data);
                put_u16(buffer, Self::low_bits(rdata.len()));
                buffer.extend_from_slice(rdata.as_slice());
                assert(buffer@ =~= old(buffer)@ + record_wire(self@));
            },
        }
    }

    /// The low 16 bits of a length.
    fn low_bits(len: usize) -> (field: u16)
        ensures
            field == length_field(len as nat),
    {
        (len % 0x1_0000) as u16
    }

    /// The text cut into pieces of at most 255 bytes, each after its length.
    fn txt_segments(txt_data: &Vec<u8>) -> (rdata: Vec<u8>)
        ensures
            rdata@ == txt_wire(txt_data@),
    {
        let mut rdata: Vec<u8> = Vec::new();
        let mut i: usize = 0;
        assert(txt_data@.skip(0) =~= txt_data@);
        while i < txt_data.len()
            invariant
                i <= txt_data.len(),
                rdata@ + txt_wire(txt_data@.skip(i as int)) == txt_wire(txt_data@),
            decreases txt_data.len() - i,
        {
            let left = txt_data.len() - i;
            let n = if left < TXT_SEGMENT {
                left
            } else {
                TXT_SEGMENT
            };
            let ghost before = rdata@;
            let ghost rest = txt_data@.skip(i as int);
            rdata.push(n as u8);
            let mut j: usize = 0;
            while j < n
                invariant
                    j <= n,
                    i + n <= txt_data.len(),
                    rdata@ == before.push(n as u8) + txt_data@.subrange(i as int, i + j),
                decreases n - j,
            {
                rdata.push(txt_data[i + j]);
                assert(txt_data@.subrange(i as int, i + j + 1) =~= txt_data@.subrange(
                    i as int,
                    i + j,
                ).push(txt_data@[i + j]));
                j += 1;
            }
            proof {
                assert(rest.take(n as int) =~= txt_data@.subrange(i as int, i + n));
                assert(rest.skip(n as int) =~= txt_data@.skip(i + n));
                assert(rdata@ + txt_wire(txt_data@.skip(i + n)) =~= before + txt_wire(rest));
            }
            i = i + n;
        }
        assert(rdata@ + Seq::<u8>::empty() =~= rdata@);
        rdata
    }

    /// Reads the record that starts at `pos` in `data`; also gives the
    /// position after the record.
    pub fn parse(data: &[u8], pos: usize) -> (parsed: Result<(DnsRecord, usize), DnsError>)
        ensures
            match parsed {
                Ok((record, end)) => parse_record(data@, pos as int) == Ok::<
                    (DnsRecordView, int),
                    DnsError,
                >((record@, end as int)) && record.wf() && pos < end <= data@.len(),
                Err(e) => parse_record(data@, pos as int) == Err::<(DnsRecordView, int), DnsError>(
                    e,
                ),
            },
    {
        let (name, at) = match DnsName::parse(data, pos) {
            Ok(found) => found,
            Err(e) => {
                return Err(e);
            },
        };
        if data.len() - at < 10 {
            return Err(DnsError::UnexpectedEof);
        }
        let rtype = get_u16(data, at);
        let ttl = get_u32(data, at + 4);
        let rdlength = get_u16(data, at + 8);
        let start = at + 10;
        if rtype == TYPE_A {
            if data.len() - start < 4 {
                return Err(DnsError::UnexpectedEof);
            }
            let ip: [u8; 4] = [data[start], data[start + 1], data[start + 2], data[start + 3]];
            assert(ip@ =~= data@.subrange(start as int, start + 4));
            Ok((DnsRecord::A { name, ttl, ip }, start + 4))
        } else if rtype == TYPE_PTR {
            match DnsName::parse(data, start) {
                Ok((ptr_name, end)) => Ok((DnsRecord::PTR { name, ttl, ptr_name }, end)),
                Err(e) => Err(e),
            }
        } else if rtype == TYPE_SRV {
            if data.len() - start < 6 {
                return Err(DnsError::UnexpectedEof);
            }
            let priority = get_u16(data, start);
            let weight = get_u16(data, start + 2);
            let port = get_u16(data, start + 4);
            match DnsName::parse(data, start + 6) {
                Ok((target, end)) => Ok(
                    (DnsRecord::SRV { name, ttl, priority, weight, port, target }, end),
                ),
                Err(e) => Err(e),
            }
        } else if rtype == TYPE_TXT {
            if data.len() - start < rdlength as usize {
                return Err(DnsError::UnexpectedEof);
            }
            let txt_data = copy_range(data, start, start + rdlength as usize);
            Ok((DnsRecord::TXT { name, ttl, txt_data }, start + rdlength as usize))
        } else {
            Err(DnsError::UnknownRecordType)
        }
    }
}

/// Whether a record is read back as it was written: its names are well
/// formed, and it is an address record of four bytes, a pointer record or a
/// service record. (The text of a text record is read back in its wire
/// form, with the length bytes that writing puts in.)
pub open spec fn reads_back(record: DnsRecordView) -> bool {
    match record {
        DnsRecordView::A { name, ip, .. } => labels_fit(name) && ip.len() == 4,
        DnsRecordView::PTR { name, ptr_name, .. } => labels_fit(name) && labels_fit(ptr_name),
        DnsRecordView::SRV { name, target, .. } => labels_fit(name) && labels_fit(target),
        DnsRecordView::TXT { .. } => false,
    }
}

/// Concatenation may be grouped either way.
proof fn lemma_regroup(a: Seq<u8>, b: Seq<u8>, c: Seq<u8>)
    ensures
        a + (b + c) == a + b + c,
{
    assert(a + (b + c) =~= a + b + c);
}

/// The bytes between two others are found where the first end.
proof fn lemma_middle(a: Seq<u8>, b: Seq<u8>, c: Seq<u8>)
    ensures
        (a + b + c).subrange(a.len() as int, (a.len() + b.len()) as int) == b,
        (a + b + c).len() == a.len() + b.len() + c.len(),
{
    assert((a + b + c).subrange(a.len() as int, (a.len() + b.len()) as int) =~= b);
}

/// The ten bytes after the name are ten bytes, and hold what was written.
proof fn lemma_fixed_read_back(head: Seq<u8>, rtype: u16, ttl: u32, rdlength: u16, rest: Seq<u8>)
    ensures
        ({
            let data = head + fixed_wire(rtype, ttl, rdlength) + rest;
            let at = head.len() as int;
            &&& fixed_wire(rtype, ttl, rdlength).len() == 10
            &&& data.len() == at + 10 + rest.len()
            &&& u16_at(data, at) == rtype
            &&& u32_at(data, at + 4) == ttl
            &&& u16_at(data, at + 8) == rdlength
        }),
{
    let fixed = fixed_wire(rtype, ttl, rdlength);
    let data = head + fixed + rest;
    let at = head.len() as int;
    assert(fixed.len() == 10);
    assert(data.subrange(at, at + 2) =~= be16(rtype));
    assert(data.subrange(at + 4, at + 8) =~= be32(ttl));
    assert(data.subrange(at + 8, at + 10) =~= be16(rdlength));
    lemma_be16_read_back(data, at, rtype);
    lemma_be32_read_back(data, at + 4, ttl);
    lemma_be16_read_back(data, at + 8, rdlength);
}

/// The name and the ten bytes after it are read back as they were written.
proof fn lemma_record_head(
    before: Seq<u8>,
    name: Seq<Seq<char>>,
    rtype: u16,
    ttl: u32,
    rdlength: u16,
    rest: Seq<u8>,
)
    requires
        labels_fit(name),
    ensures
        ({
            let data = before + name_wire(name) + fixed_wire(rtype, ttl, rdlength) + rest;
            let at = (before.len() + name_wire(name).len()) as int;
            &&& parse_name(data, before.len() as int) == Ok::<(Seq<Seq<char>>, int), DnsError>(
                (name, at),
            )
            &&& data.len() == at + 10 + rest.len()
            &&& u16_at(data, at) == rtype
            &&& u32_at(data, at + 4) == ttl
            &&& u16_at(data, at + 8) == rdlength
        }),
{
    let fixed = fixed_wire(rtype, ttl, rdlength);
    let front = before + name_wire(name);
    lemma_regroup(front, fixed, rest);
    lemma_write_then_parse(before, name, fixed + rest);
    lemma_fixed_read_back(front, rtype, ttl, rdlength, rest);
}

/// Three 16-bit integers that were written one after the other are read
/// back.
proof fn lemma_three_numbers(head: Seq<u8>, a: u16, b: u16, c: u16, rest: Seq<u8>)
    ensures
        ({
            let data = head + (be16(a) + be16(b) + be16(c)) + rest;
            let start = head.len() as int;
            &&& (be16(a) + be16(b) + be16(c)).len() == 6
            &&& u16_at(data, start) == a
            &&& u16_at(data, start + 2) == b
            &&& u16_at(data, start + 4) == c
        }),
{
    let data = head + (be16(a) + be16(b) + be16(c)) + rest;
    let start = head.len() as int;
    assert(data.subrange(start, start + 2) =~= be16(a));
    assert(data.subrange(start + 2, start + 4) =~= be16(b));
    assert(data.subrange(start + 4, start + 6) =~= be16(c));
    lemma_be16_read_back(data, start, a);
    lemma_be16_read_back(data, start + 2, b);
    lemma_be16_read_back(data, start + 4, c);
}

/// The layout of a record in a buffer: the bytes before it with its name
/// and its ten fixed bytes, then its data, then the bytes after it.
proof fn lemma_record_layout(before: Seq<u8>, record: DnsRecordView, after: Seq<u8>)
    ensures
        ({
            let head = before + name_wire(record_name(record)) + fixed_wire(
                record_type(record),
                record_ttl(record),
                length_field(rdata_wire(record).len()),
            );
            &&& before + record_wire(record) + after == head + rdata_wire(record) + after
            &&& before + record_wire(record) + after == head + (rdata_wire(record) + after)
            &&& head.len() + rdata_wire(record).len() == before.len() + record_wire(record).len()
        }),
{
    let name = name_wire(record_name(record));
    let fixed = fixed_wire(
        record_type(record),
        record_ttl(record),
        length_field(rdata_wire(record).len()),
    );
    let rdata = rdata_wire(record);
    lemma_regroup(before, name + fixed, rdata);
    lemma_regroup(before, name, fixed);
    lemma_regroup(before + name + fixed, rdata, after);
}

/// An address record is read back as it was written.
proof fn lemma_address_reads_back(
    before: Seq<u8>,
    name: Seq<Seq<char>>,
    ttl: u32,
    ip: Seq<u8>,
    after: Seq<u8>,
)
    requires
        labels_fit(name),
        ip.len() == 4,
    ensures
        ({
            let record = DnsRecordView::A { name, ttl, ip };
            parse_record(before + record_wire(record) + after, before.len() as int) == Ok::<
                (DnsRecordView, int),
                DnsError,
            >((record, (before.len() + record_wire(record).len()) as int))
        }),
{
    let record = DnsRecordView::A { name, ttl, ip };
    let head = before + name_wire(name) + fixed_wire(TYPE_A, ttl, 4);
    lemma_record_layout(before, record, after);
    lemma_record_head(before, name, TYPE_A, ttl, 4, ip + after);
    lemma_middle(head, ip, after);
}

/// A pointer record is read back as it was written.
proof fn lemma_pointer_reads_back(
    before: Seq<u8>,
    name: Seq<Seq<char>>,
    ttl: u32,
    ptr_name: Seq<Seq<char>>,
    after: Seq<u8>,
)
    requires
        labels_fit(name),
        labels_fit(ptr_name),
    ensures
        ({
            let record = DnsRecordView::PTR { name, ttl, ptr_name };
            parse_record(before + record_wire(record) + after, before.len() as int) == Ok::<
                (DnsRecordView, int),
                DnsError,
            >((record, (before.len() + record_wire(record).len()) as int))
        }),
{
    let record = DnsRecordView::PTR { name, ttl, ptr_name };
    let rdata = name_wire(ptr_name);
    let rdlength = length_field(rdata.len());
    let head = before + name_wire(name) + fixed_wire(TYPE_PTR, ttl, rdlength);
    lemma_record_layout(before, record, after);
    lemma_record_head(before, name, TYPE_PTR, ttl, rdlength, rdata + after);
    lemma_write_then_parse(head, ptr_name, after);
}

/// A service record is read back as it was written.
proof fn lemma_service_reads_back(
    before: Seq<u8>,
    name: Seq<Seq<char>>,
    ttl: u32,
    priority: u16,
    weight: u16,
    port: u16,
    target: Seq<Seq<char>>,
    after: Seq<u8>,
)
    requires
        labels_fit(name),
        labels_fit(target),
    ensures
        ({
            let record = DnsRecordView::SRV { name, ttl, priority, weight, port, target };
            parse_record(before + record_wire(record) + after, before.len() as int) == Ok::<
                (DnsRecordView, int),
                DnsError,
            >((record, (before.len() + record_wire(record).len()) as int))
        }),
{
    let record = DnsRecordView::SRV { name, ttl, priority, weight, port, target };
    let numbers = be16(priority) + be16(weight) + be16(port);
    let rdata = numbers + name_wire(target);
    let rdlength = length_field(rdata.len());
    let head = before + name_wire(name) + fixed_wire(TYPE_SRV, ttl, rdlength);
    lemma_record_layout(before, record, after);
    lemma_record_head(before, name, TYPE_SRV, ttl, rdlength, rdata + after);
    lemma_regroup(head, numbers, name_wire(target));
    lemma_regroup(head + numbers, name_wire(target), after);
    lemma_three_numbers(head, priority, weight, port, name_wire(target) + after);
    lemma_write_then_parse(head + numbers, target, after);
}

/// Write, then parse: an address, pointer or service record that was
/// written at some place in a buffer is read back from that place, and
/// reading ends where writing ended, whatever stands before and after the
/// record.
pub proof fn lemma_record_write_then_parse(before: Seq<u8>, record: DnsRecordView, after: Seq<u8>)
    requires
        reads_back(record),
    ensures
        parse_record(before + record_wire(record) + after, before.len() as int) == Ok::<
            (DnsRecordView, int),
            DnsError,
        >((record, (before.len() + record_wire(record).len()) as int)),
{
    match record {
        DnsRecordView::A { name, ttl, ip } => {
            lemma_address_reads_back(before, name, ttl, ip, after);
        },
        DnsRecordView::PTR { name, ttl, ptr_name } => {
            lemma_pointer_reads_back(before, name, ttl, ptr_name, after);
        },
        DnsRecordView::SRV { name, ttl, priority, weight, port, target } => {
            lemma_service_reads_back(before, name, ttl, priority, weight, port, target, after);
        },
        DnsRecordView::TXT { .. } => {},
    }
}

} // verus!
