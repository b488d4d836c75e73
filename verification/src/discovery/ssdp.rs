//! SSDP: the service that is advertised, the messages of the responder and
//! what it makes of a request.

use vstd::prelude::*;
use crate::text::{chars_of, owned, push_str, string_of};

verus! {

/// A service to advertise.
#[derive(Debug)]
pub struct SSDPService {
    /// The unique service name.
    pub usn: String,
    /// The search target.
    pub st: String,
    /// Where the description of the service is found.
    pub location: String,
}

impl Clone for SSDPService {
    fn clone(&self) -> (copy: Self)
        ensures
            copy.usn@ == self.usn@,
            copy.st@ == self.st@,
            copy.location@ == self.location@,
    {
        SSDPService {
            usn: self.usn.clone(),
            st: self.st.clone(),
            location: self.location.clone(),
        }
    }
}

impl SSDPService {
    /// The service with the given name, search target and location.
    pub fn new(usn: &str, st: &str, location: &str) -> (service: Self)
        ensures
            service.usn@ == usn@,
            service.st@ == st@,
            service.location@ == location@,
    {
        SSDPService { usn: owned(usn), st: owned(st), location: owned(location) }
    }
}

/// Whether `line` starts with `prefix`.
pub open spec fn has_prefix(line: Seq<char>, prefix: Seq<char>) -> bool {
    prefix.len() <= line.len() && line.take(prefix.len() as int) == prefix
}

/// Whether `needle` occurs in `text`.
pub open spec fn occurs_in(text: Seq<char>, needle: Seq<char>) -> bool {
    exists|i: int| 0 <= i <= text.len() - needle.len() && #[trigger] text.subrange(i, i + needle.len()) == needle
}

/// The position of the first line feed at or after `start`, or the length
/// of the text if there is none.
pub open spec fn line_end(text: Seq<char>, start: int) -> int
    decreases text.len() - start,
{
    if start < 0 || start >= text.len() || text[start] == '\n' {
        start
    } else {
        line_end(text, start + 1)
    }
}

/// The line from `start` up to `end`, the position of its line feed or the
/// end of the text. A carriage return just before the line feed does not
/// belong to the line.
pub open spec fn line_between(text: Seq<char>, start: int, end: int) -> Seq<char> {
    if end < text.len() && start < end && text[end - 1] == '\r' {
        text.subrange(start, end - 1)
    } else {
        text.subrange(start, end)
    }
}

/// What follows `key` on the first line, from `start` on, that begins with
/// `key`.
pub open spec fn header_from(text: Seq<char>, key: Seq<char>, start: int) -> Option<Seq<char>>
    decreases text.len() - start,
{
    if start < 0 || start >= text.len() {
        None
    } else {
        let end = line_end(text, start);
        let line = line_between(text, start, end);
        if has_prefix(line, key) {
            Some(line.skip(key.len() as int))
        } else if end >= text.len() {
            None
        } else {
            proof {
                lemma_line_end_bounds(text, start);
            }
            header_from(text, key, end + 1)
        }
    }
}

/// What follows `key` on the first line of `text` that begins with `key`.
pub open spec fn header_value(text: Seq<char>, key: Seq<char>) -> Option<Seq<char>> {
    header_from(text, key, 0)
}

/// The end of a line lies between its start and the end of the text.
pub proof fn lemma_line_end_bounds(text: Seq<char>, start: int)
    requires
        0 <= start <= text.len(),
    ensures
        start <= line_end(text, start) <= text.len(),
    decreases text.len() - start,
{
    if start < text.len() && text[start] != '\n' {
        lemma_line_end_bounds(text, start + 1);
    }
}

/// Whether the characters of `text` from `at` on begin with `prefix`.
fn starts_at(text: &Vec<char>, at: usize, stop: usize, prefix: &Vec<char>) -> (found: bool)
    requires
        at <= stop <= text.len(),
    ensures
        found == has_prefix(text@.subrange(at as int, stop as int), prefix@),
{
    if prefix.len() > stop - at {
        return false;
    }
    let ghost line = text@.subrange(at as int, stop as int);
    let mut i: usize = 0;
    while i < prefix.len()
        invariant
            i <= prefix.len(),
            at <= stop <= text.len(),
            prefix.len() <= stop - at,
            line == text@.subrange(at as int, stop as int),
            forall|j: int| 0 <= j < i ==> line[j] == prefix@[j],
        decreases prefix.len() - i,
    {
        if text[at + i] != prefix[i] {
            assert(line.take(prefix.len() as int)[i as int] != prefix@[i as int]);
            return false;
        }
        i += 1;
    }
    assert(line.take(prefix.len() as int) =~= prefix@);
    true
}

/// Whether `needle` occurs in `text`.
pub fn contains_text(text: &Vec<char>, needle: &Vec<char>) -> (found: bool)
    ensures
        found == occurs_in(text@, needle@),
{
    if needle.len() > text.len() {
        return false;
    }
    let last = text.len() - needle.len();
    let mut i: usize = 0;
    while i <= last
        invariant
            i <= last + 1,
            last == text.len() - needle.len(),
            forall|j: int| 0 <= j < i ==> #[trigger] text@.subrange(j, j + needle.len()) != needle@,
        decreases last + 1 - i,
    {
        if starts_at(text, i, i + needle.len(), needle) {
            assert(text@.subrange(i as int, i + needle.len()).take(needle.len() as int)
                =~= text@.subrange(i as int, i + needle.len()));
            return true;
        }
        assert(text@.subrange(i as int, i + needle.len()).take(needle.len() as int)
            =~= text@.subrange(i as int, i + needle.len()));
        if i == last {
            return false;
        }
        i += 1;
    }
    false
}

/// What follows `key` on the first line of `text` that begins with `key`.
pub fn find_header(text: &Vec<char>, key: &Vec<char>) -> (value: Option<Vec<char>>)
    ensures
        match value {
            Some(v) => header_value(text@, key@) == Some(v@),
            None => header_value(text@, key@) is None,
        },
{
    let mut start: usize = 0;
    while start < text.len()
        invariant
            start <= text.len(),
            header_value(text@, key@) == header_from(text@, key@, start as int),
        decreases text.len() - start,
    {
        let mut end: usize = start;
        while end < text.len() && text[end] != '\n'
            invariant
                start <= end <= text.len(),
                line_end(text@, start as int) == line_end(text@, end as int),
            decreases text.len() - end,
        {
            end += 1;
        }
        let stop = if end < text.len() && start < end && text[end - 1] == '\r' {
            end - 1
        } else {
            end
        };
        if starts_at(text, start, stop, key) {
            let mut value: Vec<char> = Vec::new();
            let mut i: usize = start + key.len();
            let ghost line = text@.subrange(start as int, stop as int);
            while i < stop
                invariant
                    start + key.len() <= i <= stop <= text.len(),
                    line == text@.subrange(start as int, stop as int),
                    value@ == line.subrange(key.len() as int, i - start),
                decreases stop - i,
            {
                value.push(text[i]);
                assert(line.subrange(key.len() as int, i - start + 1) =~= line.subrange(
                    key.len() as int,
                    i - start,
                ).push(text@[i as int]));
                i += 1;
            }
            assert(value@ =~= line.skip(key.len() as int));
            return Some(value);
        }
        if end == text.len() {
            return None;
        }
        start = end + 1;
    }
    None
}

/// The announcement of a service.
pub open spec fn announcement_text(st: Seq<char>, location: Seq<char>, usn: Seq<char>) -> Seq<
    char,
> {
    "NOTIFY * HTTP/1.1\r\nHOST: 239.255.255.250:1900\r\nNT: "@ + st
        + "\r\nNTS: ssdp:alive\r\nLOCATION: "@ + location + "\r\nUSN: "@ + usn
        + "\r\nCACHE-CONTROL: max-age=1800\r\n\r\n"@
}

/// The response to a search for a service, dated `date`.
pub open spec fn response_text(
    date: Seq<char>,
    location: Seq<char>,
    st: Seq<char>,
    usn: Seq<char>,
) -> Seq<char> {
    "HTTP/1.1 200 OK\r\nCACHE-CONTROL: max-age=1800\r\nDATE: "@ + date + "\r\nEXT: \r\nLOCATION: "@
        + location + "\r\nSERVER: SSDP Test Server\r\nST: "@ + st + "\r\nUSN: "@ + usn
        + "\r\n\r\n"@
}

/// What the responder observed.
#[derive(Debug)]
pub enum SsdpEvent {
    /// A request with this text arrived. `from_self` says whether its sender
    /// has the local address.
    Request { text: String, from_self: bool },
    /// Receiving failed.
    ReceiveFailed,
    /// The time between two announcements has passed.
    AnnounceDue,
}

/// What the responder does next.
#[derive(Debug)]
pub enum SsdpAction {
    /// Send this response to the sender of the request. `peer_found` says
    /// whether the request also announced a peer with the search target of
    /// the service.
    Respond { response: String, peer_found: bool },
    /// Send this announcement to the multicast group.
    Announce(String),
    /// Nothing to send. `peer_found` says whether a request announced a peer
    /// with the search target of the service.
    Idle { peer_found: bool },
}

/// Whether the request announces a peer with the search target `st`: it
/// holds `NOTIFY`, and its first `NT: ` line names `st`.
pub open spec fn announces(text: Seq<char>, st: Seq<char>) -> bool {
    occurs_in(text, "NOTIFY"@) && header_value(text, "NT: "@) == Some(st)
}

/// Whether the request searches for the search target `st`: it holds
/// `M-SEARCH`, and its first `ST: ` line names `st`.
pub open spec fn searches(text: Seq<char>, st: Seq<char>) -> bool {
    occurs_in(text, "M-SEARCH"@) && header_value(text, "ST: "@) == Some(st)
}

/// The responder for one service, with the number of announcements it has
/// sent.
#[derive(Debug)]
pub struct SSDPResponder {
    service: SSDPService,
    announcement_counter: usize,
}

impl SSDPResponder {
    /// The service that is advertised.
    pub closed spec fn spec_service(&self) -> SSDPService {
        self.service
    }

    /// The number of announcements sent.
    pub closed spec fn spec_announcements(&self) -> usize {
        self.announcement_counter
    }

    /// The responder for `service`; it has sent no announcement.
    pub fn new(service: SSDPService) -> (responder: Self)
        ensures
            responder.spec_service() == service,
            responder.spec_announcements() == 0,
    {
        SSDPResponder { service, announcement_counter: 0 }
    }

    /// The number of announcements sent.
    pub fn announcements(&self) -> (n: usize)
        ensures
            n == self.spec_announcements(),
    {
        self.announcement_counter
    }

    /// The value of the first `NT: ` line of the request.
    pub fn extract_nt_from_request(&self, request: &str) -> (nt: Option<String>)
        ensures
            match nt {
                Some(v) => header_value(request@, "NT: "@) == Some(v@),
                None => header_value(request@, "NT: "@) is None,
            },
    {
        let text = chars_of(request);
        let key = chars_of("NT: ");
        match find_header(&text, &key) {
            Some(v) => Some(string_of(&v)),
            None => None,
        }
    }

    /// The value of the first `ST: ` line of the request.
    pub fn extract_st_from_request(&self, request: &str) -> (st: Option<String>)
        ensures
            match st {
                Some(v) => header_value(request@, "ST: "@) == Some(v@),
                None => header_value(request@, "ST: "@) is None,
            },
    {
        let text = chars_of(request);
        let key = chars_of("ST: ");
        match find_header(&text, &key) {
            Some(v) => Some(string_of(&v)),
            None => None,
        }
    }

    /// The response to a search, dated `date`.
    pub fn create_response(&self, date: &str) -> (response: String)
        ensures
            response@ == response_text(
                date@,
                self.spec_service().location@,
                self.spec_service().st@,
                self.spec_service().usn@,
            ),
    {
        let mut response = owned("HTTP/1.1 200 OK\r\nCACHE-CONTROL: max-age=1800\r\nDATE: ");
        push_str(&mut response, date);
        push_str(&mut response, "\r\nEXT: \r\nLOCATION: ");
        push_str(&mut response, self.service.location.as_str());
        push_str(&mut response, "\r\nSERVER: SSDP Test Server\r\nST: ");
        push_str(&mut response, self.service.st.as_str());
        push_str(&mut response, "\r\nUSN: ");
        push_str(&mut response, self.service.usn.as_str());
        push_str(&mut response, "\r\n\r\n");
        response
    }

    /// The announcement of the service.
    pub fn create_announcement(&self) -> (announcement: String)
        ensures
            announcement@ == announcement_text(
                self.spec_service().st@,
                self.spec_service().location@,
                self.spec_service().usn@,
            ),
    {
        let mut announcement = owned("NOTIFY * HTTP/1.1\r\nHOST: 239.255.255.250:1900\r\nNT: ");
        push_str(&mut announcement, self.service.st.as_str());
        push_str(&mut announcement, "\r\nNTS: ssdp:alive\r\nLOCATION: ");
        push_str(&mut announcement, self.service.location.as_str());
        push_str(&mut announcement, "\r\nUSN: ");
        push_str(&mut announcement, self.service.usn.as_str());
        push_str(&mut announcement, "\r\nCACHE-CONTROL: max-age=1800\r\n\r\n");
        announcement
    }

    /// One step of the responder; `date` is the current date as the
    /// response is to show it.
    ///
    /// A request from the local address is passed over. A search for the
    /// search target of the service is answered with the response. When an
    /// announcement is due, the announcement goes out and is counted.
    pub fn run(&mut self, event: SsdpEvent, date: &str) -> (action: SsdpAction)
        ensures
            final(self).spec_service() == old(self).spec_service(),
            match event {
                SsdpEvent::Request { text, from_self } => {
                    let st = old(self).spec_service().st@;
                    &&& final(self).spec_announcements() == old(self).spec_announcements()
                    &&& if from_self {
                        action matches SsdpAction::Idle { peer_found } && !peer_found
                    } else if searches(text@, st) {
                        action matches SsdpAction::Respond { response, peer_found }
                            && peer_found == announces(text@, st) && response@ == response_text(
                            date@,
                            old(self).spec_service().location@,
                            st,
                            old(self).spec_service().usn@,
                        )
                    } else {
                        action matches SsdpAction::Idle { peer_found } && peer_found == announces(
                            text@,
                            st,
                        )
                    }
                },
                SsdpEvent::ReceiveFailed => {
                    &&& final(self).spec_announcements() == old(self).spec_announcements()
                    &&& action matches SsdpAction::Idle { peer_found }
                    &&& !peer_found
                },
                SsdpEvent::AnnounceDue => {
                    &&& final(self).spec_announcements() == (if old(self).spec_announcements()
                        < usize::MAX {
                        (old(self).spec_announcements() + 1) as usize
                    } else {
                        usize::MAX
                    })
                    &&& action matches SsdpAction::Announce(announcement)
                    &&& announcement@ == announcement_text(
                        old(self).spec_service().st@,
                        old(self).spec_service().location@,
                        old(self).spec_service().usn@,
                    )
                },
            },
    {
        match event {
            SsdpEvent::Request { text, from_self } => {
                if from_self {
                    return SsdpAction::Idle { peer_found: false };
                }
                let chars = chars_of(text.as_str());
                let notify = chars_of("NOTIFY");
                let search = chars_of("M-SEARCH");
                let mut peer_found = false;
                if contains_text(&chars, &notify) {
                    if let Some(nt) = self.extract_nt_from_request(text.as_str()) {
                        if nt == self.service.st {
                            peer_found = true;
                        }
                    }
                }
                if contains_text(&chars, &search) {
                    if let Some(st) = self.extract_st_from_request(text.as_str()) {
                        if st == self.service.st {
                            return SsdpAction::Respond {
                                response: self.create_response(date),
                                peer_found,
                            };
                        }
                    }
                }
                SsdpAction::Idle { peer_found }
            },
            SsdpEvent::ReceiveFailed => SsdpAction::Idle { peer_found: false },
            SsdpEvent::AnnounceDue => {
                let announcement = self.create_announcement();
                if self.announcement_counter < usize::MAX {
                    self.announcement_counter = self.announcement_counter + 1;
                }
                SsdpAction::Announce(announcement)
            },
        }
    }
}

} // verus!
