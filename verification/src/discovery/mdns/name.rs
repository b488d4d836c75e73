//! Domain names as lists of labels, and their wire form.

use vstd::prelude::*;
use vstd::utf8::{decode_utf8, encode_utf8, valid_utf8};
use vstd::utf8::{decode_utf8_encode_utf8, encode_utf8_decode_utf8, encode_utf8_valid_utf8};
use crate::discovery::mdns::DnsError;
use crate::text::{
    byte_len, chars_of, owned, push_char, push_str, string_from_utf8, string_of,
};

verus! {

/// The longest label that a name made from text may hold, in bytes.
pub const MAX_LABEL_LEN: usize = 63;

/// What a scan of `s` from the left has found: the labels that a dot has
/// ended, and the characters since the last dot.
pub open spec fn split_scan(s: Seq<char>) -> (Seq<Seq<char>>, Seq<char>)
    decreases s.len(),
{
    if s.len() == 0 {
        (Seq::empty(), Seq::empty())
    } else {
        let (done, pending) = split_scan(s.drop_last());
        if s.last() == '.' {
            if pending.len() > 0 {
                (done.push(pending), Seq::empty())
            } else {
                (done, Seq::empty())
            }
        } else {
            (done, pending.push(s.last()))
        }
    }
}

/// The labels of a dotted name: the pieces between the dots, without the
/// empty ones.
pub open spec fn split_labels(s: Seq<char>) -> Seq<Seq<char>> {
    let (done, pending) = split_scan(s);
    if pending.len() > 0 {
        done.push(pending)
    } else {
        done
    }
}

/// The position of the first label that takes more than `MAX_LABEL_LEN`
/// bytes, or the number of labels if there is none.
pub open spec fn first_long_label(labels: Seq<Seq<char>>) -> int
    decreases labels.len(),
{
    if labels.len() == 0 {
        0
    } else {
        let before = first_long_label(labels.drop_last());
        if before < labels.len() - 1 {
            before
        } else if encode_utf8(labels.last()).len() > MAX_LABEL_LEN {
            labels.len() - 1
        } else {
            labels.len() as int
        }
    }
}

/// The message for a label that is too long.
pub open spec fn long_label_message(label: Seq<char>) -> Seq<char> {
    "Label '"@ + label + "' exceeds 63 characters"@
}

/// The labels joined by dots.
pub open spec fn joined(labels: Seq<Seq<char>>) -> Seq<char>
    decreases labels.len(),
{
    if labels.len() == 0 {
        Seq::empty()
    } else if labels.len() == 1 {
        labels[0]
    } else {
        joined(labels.drop_last()) + seq!['.'] + labels.last()
    }
}

/// A label on the wire: its length in bytes, then its bytes.
pub open spec fn label_wire(label: Seq<char>) -> Seq<u8> {
    seq![encode_utf8(label).len() as u8] + encode_utf8(label)
}

/// The labels on the wire, one after the other.
pub open spec fn labels_wire(labels: Seq<Seq<char>>) -> Seq<u8>
    decreases labels.len(),
{
    if labels.len() == 0 {
        Seq::empty()
    } else {
        labels_wire(labels.drop_last()) + label_wire(labels.last())
    }
}

/// A name on the wire: its labels, then a zero byte.
pub open spec fn name_wire(labels: Seq<Seq<char>>) -> Seq<u8> {
    labels_wire(labels) + seq![0u8]
}

/// A parsed value with the labels `front` put before its labels.
pub open spec fn with_front(
    front: Seq<Seq<char>>,
    parsed: Result<(Seq<Seq<char>>, int), DnsError>,
) -> Result<(Seq<Seq<char>>, int), DnsError> {
    match parsed {
        Ok((labels, end)) => Ok((front + labels, end)),
        Err(e) => Err(e),
    }
}

/// The name that starts at `pos` in `data`, and the position after it.
///
/// A name is a run of labels, each a length byte followed by that many
/// bytes of UTF-8, ended by a zero byte.
pub open spec fn parse_name(data: Seq<u8>, pos: int) -> Result<(Seq<Seq<char>>, int), DnsError>
    decreases data.len() - pos,
{
    if pos < 0 || pos >= data.len() {
        Err(DnsError::UnexpectedEof)
    } else if data[pos] == 0 {
        Ok((Seq::empty(), pos + 1))
    } else if pos + 1 + data[pos] > data.len() {
        Err(DnsError::UnexpectedEof)
    } else {
        let raw = data.subrange(pos + 1, pos + 1 + data[pos]);
        if !valid_utf8(raw) {
            Err(DnsError::InvalidUtf8)
        } else {
            with_front(seq![decode_utf8(raw)], parse_name(data, pos + 1 + data[pos]))
        }
    }
}

/// A domain name: its labels, from the left.
#[derive(PartialEq, Debug)]
pub struct DnsName {
    labels: Vec<String>,
}

impl View for DnsName {
    type V = Seq<Seq<char>>;

    /// The labels of the name.
    closed spec fn view(&self) -> Seq<Seq<char>> {
        self.labels@.map_values(|label: String| label@)
    }
}

/// Every label takes at least one byte and at most 255.
pub open spec fn labels_fit(labels: Seq<Seq<char>>) -> bool {
    forall|i: int|
        0 <= i < labels.len() ==> 1 <= encode_utf8(#[trigger] labels[i]).len() <= 255
}

/// The bytes of `data` from `from` up to, not including, `to`.
pub(crate) fn copy_range(data: &[u8], from: usize, to: usize) -> (copy: Vec<u8>)
    requires
        from <= to <= data@.len(),
    ensures
        copy@ == data@.subrange(from as int, to as int),
{
    let mut copy: Vec<u8> = Vec::new();
    let mut i: usize = from;
    while i < to
        invariant
            from <= i <= to <= data@.len(),
            copy@ == data@.subrange(from as int, i as int),
        decreases to - i,
    {
        copy.push(data[i]);
        assert(data@.subrange(from as int, i as int + 1) =~= data@.subrange(
            from as int,
            i as int,
        ).push(data@[i as int]));
        i += 1;
    }
    copy
}

impl Clone for DnsName {
    fn clone(&self) -> (copy: Self)
        ensures
            copy@ == self@,
            self.wf() ==> copy.wf(),
    {
        let mut labels: Vec<String> = Vec::new();
        let mut i: usize = 0;
        assert(self@.take(0) =~= labels@.map_values(|label: String| label@));
        while i < self.labels.len()
            invariant
                i <= self.labels.len(),
                labels@.map_values(|label: String| label@) == self@.take(i as int),
            decreases self.labels.len() - i,
        {
            let ghost before = labels@.map_values(|label: String| label@);
            let label = self.labels[i].clone();
            assert(label@ == self@[i as int]);
            labels.push(label);
            assert(labels@.map_values(|label: String| label@) =~= before.push(self@[i as int]));
            assert(self@.take(i as int + 1) =~= self@.take(i as int).push(self@[i as int]));
            i += 1;
        }
        assert(self@.take(self.labels.len() as int) =~= self@);
        DnsName { labels }
    }
}

impl DnsName {
    /// Every label takes at least one byte and at most 255, so that its
    /// length fits the byte that goes before it on the wire.
    pub closed spec fn wf(&self) -> bool {
        labels_fit(self@)
    }

    /// The name for dotted text. Empty labels are left out; a label of more
    /// than 63 bytes is refused, with a message that names the first such
    /// label.
    pub fn new(name: &str) -> (made: Result<Self, String>)
        ensures
            ({
                let labels = split_labels(name@);
                let long = first_long_label(labels);
                match made {
                    Ok(n) => long == labels.len() && n@ == labels && n.wf(),
                    Err(message) => long < labels.len() && message@ == long_label_message(
                        labels[long],
                    ),
                }
            }),
    {
        let chars = chars_of(name);
        let mut labels: Vec<String> = Vec::new();
        let mut pending: Vec<char> = Vec::new();
        let mut i: usize = 0;
        assert(chars@.take(0) =~= Seq::<char>::empty());
        while i < chars.len()
            invariant
                i <= chars.len(),
                chars@ == name@,
                split_scan(chars@.take(i as int)) == (
                    labels@.map_values(|label: String| label@),
                    pending@,
                ),
                first_long_label(labels@.map_values(|label: String| label@)) == labels.len(),
                labels_fit(labels@.map_values(|label: String| label@)),
            decreases chars.len() - i,
        {
            let ghost done = labels@.map_values(|label: String| label@);
            proof {
                assert(chars@.take(i as int + 1).drop_last() =~= chars@.take(i as int));
            }
            if chars[i] == '.' {
                if pending.len() > 0 {
                    let label = string_of(&pending);
                    if byte_len(&label) > MAX_LABEL_LEN {
                        proof {
                            let found = done.push(label@);
                            assert(found.drop_last() =~= done);
                            lemma_scan_extends(chars@, i as int + 1);
                            lemma_long_label_stays(found, split_labels(name@));
                        }
                        return Err(Self::long_label(&label));
                    }
                    proof {
                        lemma_encode_nonempty(label@);
                    }
                    labels.push(label);
                    pending = Vec::new();
                    proof {
                        let now = labels@.map_values(|label: String| label@);
                        assert(now =~= done.push(label@));
                        assert(now.drop_last() =~= done);
                    }
                }
            } else {
                pending.push(chars[i]);
            }
            i += 1;
        }
        assert(chars@.take(i as int) =~= chars@);
        if pending.len() > 0 {
            let ghost done = labels@.map_values(|label: String| label@);
            let label = string_of(&pending);
            if byte_len(&label) > MAX_LABEL_LEN {
                proof {
                    let found = done.push(label@);
                    assert(found.drop_last() =~= done);
                }
                return Err(Self::long_label(&label));
            }
            proof {
                lemma_encode_nonempty(label@);
            }
            labels.push(label);
            proof {
                let now = labels@.map_values(|label: String| label@);
                assert(now =~= done.push(label@));
                assert(now.drop_last() =~= done);
            }
        }
        Ok(DnsName { labels })
    }

    /// The message for a label that is too long.
    fn long_label(label: &String) -> (message: String)
        ensures
            message@ == long_label_message(label@),
    {
        let mut message = owned("Label '");
        push_str(&mut message, label.as_str());
        push_str(&mut message, "' exceeds 63 characters");
        message
    }

    /// The labels joined by dots.
    pub fn to_string(&self) -> (text: String)
        ensures
            text@ == joined(self@),
    {
        let mut text = String::new();
        let mut i: usize = 0;
        while i < self.labels.len()
            invariant
                i <= self.labels.len(),
                text@ == joined(self@.take(i as int)),
            decreases self.labels.len() - i,
        {
            if i > 0 {
                push_char(&mut text, '.');
            }
            push_str(&mut text, self.labels[i].as_str());
            proof {
                let next = self@.take(i as int + 1);
                assert(next.drop_last() =~= self@.take(i as int));
                assert(next.last() == self.labels[i as int]@);
                if i == 0 {
                    assert(text@ =~= joined(next));
                } else {
                    assert(text@ =~= joined(next));
                }
            }
            i += 1;
        }
        assert(self@.take(self.labels.len() as int) =~= self@);
        text
    }

    /// Whether the two names have the same labels.
    pub fn same_as(&self, other: &DnsName) -> (same: bool)
        ensures
            same == (self@ == other@),
    {
        if self.labels.len() != other.labels.len() {
            assert(self@.len() != other@.len());
            return false;
        }
        let mut i: usize = 0;
        while i < self.labels.len()
            invariant
                i <= self.labels.len(),
                self.labels.len() == other.labels.len(),
                forall|j: int| 0 <= j < i ==> self@[j] == other@[j],
            decreases self.labels.len() - i,
        {
            if self.labels[i] != other.labels[i] {
                assert(self@[i as int] != other@[i as int]);
                return false;
            }
            i += 1;
        }
        assert(self@ =~= other@);
        true
    }

    /// Appends the wire form of the name to `buffer`.
    pub fn write(&self, buffer: &mut Vec<u8>)
        requires
            self.wf(),
        ensures
            final(buffer)@ == old(buffer)@ + name_wire(self@),
    {
        let mut i: usize = 0;
        while i < self.labels.len()
            invariant
                self.wf(),
                i <= self.labels.len(),
                buffer@ == old(buffer)@ + labels_wire(self@.take(i as int)),
            decreases self.labels.len() - i,
        {
            let label = &self.labels[i];
            assert(self@[i as int] == label@);
            let bytes = label.as_str().as_bytes();
            buffer.push(bytes.len() as u8);
            buffer.extend_from_slice(bytes);
            proof {
                let next = self@.take(i as int + 1);
                assert(next.drop_last() =~= self@.take(i as int));
                assert(next.last() == label@);
                assert(buffer@ =~= old(buffer)@ + labels_wire(next));
            }
            i += 1;
        }
        buffer.push(0x00);
        assert(self@.take(self.labels.len() as int) =~= self@);
        assert(buffer@ =~= old(buffer)@ + name_wire(self@));
    }

    /// Reads the name that starts at `pos` in `data`; also gives the
    /// position after the name.
    pub fn parse(data: &[u8], pos: usize) -> (parsed: Result<(DnsName, usize), DnsError>)
        ensures
            match parsed {
                Ok((name, end)) => parse_name(data@, pos as int) == Ok::<
                    (Seq<Seq<char>>, int),
                    DnsError,
                >((name@, end as int)) && name.wf() && pos < end <= data@.len(),
                Err(e) => parse_name(data@, pos as int) == Err::<(Seq<Seq<char>>, int), DnsError>(
                    e,
                ),
            },
    {
        let mut labels: Vec<String> = Vec::new();
        let mut at: usize = pos;
        loop
            invariant
                pos <= at,
                at == pos ==> labels@.len() == 0,
                parse_name(data@, pos as int) == with_front(
                    labels@.map_values(|label: String| label@),
                    parse_name(data@, at as int),
                ),
                labels_fit(labels@.map_values(|label: String| label@)),
            decreases data@.len() - at,
        {
            let ghost front = labels@.map_values(|label: String| label@);
            if at >= data.len() {
                return Err(DnsError::UnexpectedEof);
            }
            let len = crate::discovery::mdns::wire::get_u8(data, at) as usize;
            if len == 0 {
                proof {
                    assert(front + Seq::<Seq<char>>::empty() =~= front);
                }
                return Ok((DnsName { labels }, at + 1));
            }
            if len > data.len() - at - 1 {
                return Err(DnsError::UnexpectedEof);
            }
            let raw = copy_range(data, at + 1, at + 1 + len);
            let label = match string_from_utf8(raw) {
                Some(label) => label,
                None => {
                    return Err(DnsError::InvalidUtf8);
                },
            };
            proof {
                let bytes = data@.subrange(at as int + 1, at as int + 1 + len as int);
                decode_utf8_encode_utf8(bytes);
                let rest = parse_name(data@, at as int + 1 + len as int);
                let grown = front.push(label@);
                assert(with_front(front, with_front(seq![label@], rest)) == with_front(
                    grown,
                    rest,
                )) by {
                    if let Ok((more, end)) = rest {
                        assert(front + (seq![label@] + more) =~= grown + more);
                    }
                }
            }
            labels.push(label);
            proof {
                assert(labels@.map_values(|label: String| label@) =~= front.push(label@));
            }
            at = at + 1 + len;
        }
    }
}

/// A label with at least one character takes at least one byte.
proof fn lemma_encode_nonempty(label: Seq<char>)
    requires
        label.len() > 0,
    ensures
        encode_utf8(label).len() > 0,
{
    encode_utf8_decode_utf8(label);
    if encode_utf8(label).len() == 0 {
        assert(encode_utf8(label) =~= Seq::<u8>::empty());
        assert(decode_utf8(Seq::<u8>::empty()) =~= Seq::<char>::empty());
    }
}

/// A scan of a longer prefix keeps the labels that a scan of a shorter one
/// has completed.
proof fn lemma_scan_extends(s: Seq<char>, i: int)
    requires
        0 <= i <= s.len(),
    ensures
        split_scan(s.take(i)).0.len() <= split_labels(s).len(),
        forall|j: int|
            0 <= j < split_scan(s.take(i)).0.len() ==> split_scan(s.take(i)).0[j]
                == split_labels(s)[j],
    decreases s.len() - i,
{
    if i == s.len() {
        assert(s.take(i) =~= s);
    } else {
        lemma_scan_extends(s, i + 1);
        assert(s.take(i + 1).drop_last() =~= s.take(i));
    }
}

/// Where `found` is a prefix of `all` and its last label is the first long
/// one, that label is the first long one of `all` too.
proof fn lemma_long_label_stays(found: Seq<Seq<char>>, all: Seq<Seq<char>>)
    requires
        found.len() > 0,
        found.len() <= all.len(),
        forall|j: int| 0 <= j < found.len() ==> found[j] == all[j],
        first_long_label(found) == found.len() - 1,
    ensures
        first_long_label(all) == found.len() - 1,
    decreases all.len(),
{
    if all.len() == found.len() {
        assert(all =~= found);
    } else {
        let shorter = all.drop_last();
        lemma_long_label_stays(found, shorter);
    }
}

/// A label put before other labels goes before them on the wire.
proof fn lemma_labels_wire_front(first: Seq<char>, rest: Seq<Seq<char>>)
    ensures
        labels_wire(seq![first] + rest) == label_wire(first) + labels_wire(rest),
    decreases rest.len(),
{
    let all = seq![first] + rest;
    if rest.len() == 0 {
        assert(all.len() == 1);
        assert(all.last() == first);
        assert(all.drop_last() =~= Seq::<Seq<char>>::empty());
        assert(labels_wire(all.drop_last()) =~= Seq::<u8>::empty());
        assert(labels_wire(rest) =~= Seq::<u8>::empty());
        assert(labels_wire(all) =~= label_wire(first) + labels_wire(rest));
    } else {
        assert(all.drop_last() =~= seq![first] + rest.drop_last());
        assert(all.last() == rest.last());
        lemma_labels_wire_front(first, rest.drop_last());
        assert(labels_wire(all) =~= label_wire(first) + labels_wire(rest));
    }
}

/// Write, then parse: a well-formed name that was written at some place in
/// a buffer is read back from that place, label for label, and reading ends
/// where writing ended, whatever stands before and after the name.
pub proof fn lemma_write_then_parse(before: Seq<u8>, labels: Seq<Seq<char>>, after: Seq<u8>)
    requires
        labels_fit(labels),
    ensures
        parse_name(before + name_wire(labels) + after, before.len() as int) == Ok::<
            (Seq<Seq<char>>, int),
            DnsError,
        >((labels, (before.len() + name_wire(labels).len()) as int)),
    decreases labels.len(),
{
    let data = before + name_wire(labels) + after;
    let pos = before.len() as int;
    if labels.len() == 0 {
        assert(labels =~= Seq::<Seq<char>>::empty());
        assert(name_wire(labels) =~= seq![0u8]);
        assert(data[pos] == 0);
    } else {
        let first = labels[0];
        let rest = labels.drop_first();
        let bytes = encode_utf8(first);
        let len = bytes.len() as int;
        assert(labels =~= seq![first] + rest);
        lemma_labels_wire_front(first, rest);
        assert(name_wire(labels) =~= label_wire(first) + name_wire(rest));
        assert(data[pos] == len as u8);
        assert(data.subrange(pos + 1, pos + 1 + len) =~= bytes);
        encode_utf8_valid_utf8(first);
        encode_utf8_decode_utf8(first);
        let before_rest = before + label_wire(first);
        assert(data =~= before_rest + name_wire(rest) + after);
        assert(labels_fit(rest)) by {
            assert forall|i: int| 0 <= i < rest.len() implies 1 <= encode_utf8(
                #[trigger] rest[i],
            ).len() <= 255 by {
                assert(rest[i] == labels[i + 1]);
            }
        }
        lemma_write_then_parse(before_rest, rest, after);
        assert(parse_name(data, pos) == with_front(
            seq![first],
            parse_name(data, pos + 1 + len),
        ));
    }
}

} // verus!
