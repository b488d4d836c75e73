use nautilus::discovery::ssdp::{contains_text, find_header, SsdpAction, SsdpEvent};
use nautilus::discovery::{SSDPResponder, SSDPService};

fn service() -> SSDPService {
    SSDPService::new(
        "uuid:example-service-1",
        "urn:schemas-upnp-org:service:ExampleService:1",
        "http://example.local:8080/device-description.xml",
    )
}

fn chars(s: &str) -> Vec<char> {
    s.chars().collect()
}

#[test]
fn service_keeps_its_fields() {
    let s = service();
    assert_eq!(s.usn, "uuid:example-service-1");
    assert_eq!(s.st, "urn:schemas-upnp-org:service:ExampleService:1");
    assert_eq!(s.location, "http://example.local:8080/device-description.xml");
    let copy = s.clone();
    assert_eq!(copy.usn, s.usn);
    assert_eq!(copy.st, s.st);
    assert_eq!(copy.location, s.location);
}

#[test]
fn announcement_text() {
    let responder = SSDPResponder::new(service());
    assert_eq!(
        responder.create_announcement(),
        "NOTIFY * HTTP/1.1\r\nHOST: 239.255.255.250:1900\r\nNT: urn:schemas-upnp-org:service:ExampleService:1\r\nNTS: ssdp:alive\r\nLOCATION: http://example.local:8080/device-description.xml\r\nUSN: uuid:example-service-1\r\nCACHE-CONTROL: max-age=1800\r\n\r\n"
    );
}

#[test]
fn response_text() {
    let responder = SSDPResponder::new(service());
    assert_eq!(
        responder.create_response("2024-01-02 03:04:05 UTC"),
        "HTTP/1.1 200 OK\r\nCACHE-CONTROL: max-age=1800\r\nDATE: 2024-01-02 03:04:05 UTC\r\nEXT: \r\nLOCATION: http://example.local:8080/device-description.xml\r\nSERVER: SSDP Test Server\r\nST: urn:schemas-upnp-org:service:ExampleService:1\r\nUSN: uuid:example-service-1\r\n\r\n"
    );
}

#[test]
fn headers_are_found_line_by_line() {
    let responder = SSDPResponder::new(service());
    let request = "M-SEARCH * HTTP/1.1\r\nHOST: 239.255.255.250:1900\r\nST: a:b\r\nMX: 1\r\n\r\n";
    assert_eq!(responder.extract_st_from_request(request), Some("a:b".to_string()));
    assert_eq!(responder.extract_nt_from_request(request), None);
    assert_eq!(responder.extract_nt_from_request("NT: x\nNT: y\n"), Some("x".to_string()));
    assert_eq!(responder.extract_nt_from_request("NT: x"), Some("x".to_string()));
    assert_eq!(responder.extract_nt_from_request("NT: x\r"), Some("x\r".to_string()));
    assert_eq!(responder.extract_nt_from_request("NT: x\r\r\n"), Some("x\r".to_string()));
    assert_eq!(responder.extract_nt_from_request("NT: "), Some("".to_string()));
    assert_eq!(responder.extract_nt_from_request("NT:"), None);
    assert_eq!(responder.extract_nt_from_request(" NT: x"), None);
    assert_eq!(responder.extract_nt_from_request("a\n\nNT: \u{e9}\u{e9}\n"), Some("\u{e9}\u{e9}".to_string()));
    assert_eq!(responder.extract_nt_from_request(""), None);
    assert_eq!(responder.extract_nt_from_request("\n\n\n"), None);
}

#[test]
fn headers_are_found_as_the_standard_library_finds_them() {
    let responder = SSDPResponder::new(service());
    let requests = [
        "NT: a\r\nNT: b",
        "x\rNT: a\n",
        "x\r\nNT: a\r",
        "NT: \r\n",
        "\r\nNT: q\r\n\r\n",
        "ANT: a\nNT: b\r\n",
        "NT:  two spaces ",
        "nt: lower\nNT: upper",
    ];
    for request in requests {
        let mut expected = None;
        for line in request.lines() {
            if line.starts_with("NT: ") {
                expected = Some(line[4..].to_string());
                break;
            }
        }
        assert_eq!(responder.extract_nt_from_request(request), expected);
        assert_eq!(
            find_header(&chars(request), &chars("NT: ")).map(|v| v.into_iter().collect::<String>()),
            expected
        );
    }
}

#[test]
fn text_is_searched() {
    assert!(contains_text(&chars("a NOTIFY b"), &chars("NOTIFY")));
    assert!(contains_text(&chars("NOTIFY"), &chars("NOTIFY")));
    assert!(!contains_text(&chars("NOTIF"), &chars("NOTIFY")));
    assert!(!contains_text(&chars("NOTIFX NOTIF Y"), &chars("NOTIFY")));
    assert!(contains_text(&chars("abc"), &chars("")));
    assert!(contains_text(&chars(""), &chars("")));
    assert!(contains_text(&chars("xxNOTIFNOTIFY"), &chars("NOTIFY")));
}

fn request(text: &str, from_self: bool) -> SsdpEvent {
    SsdpEvent::Request { text: text.to_string(), from_self }
}

#[test]
fn search_for_the_service_is_answered() {
    let mut responder = SSDPResponder::new(service());
    let text = "M-SEARCH * HTTP/1.1\r\nST: urn:schemas-upnp-org:service:ExampleService:1\r\n\r\n";
    match responder.run(request(text, false), "now") {
        SsdpAction::Respond { response, peer_found } => {
            assert_eq!(response, responder.create_response("now"));
            assert!(!peer_found);
        }
        other => panic!("{:?}", other),
    }
    match responder.run(request(text, true), "now") {
        SsdpAction::Idle { peer_found } => assert!(!peer_found),
        other => panic!("{:?}", other),
    }
    let other_target = "M-SEARCH * HTTP/1.1\r\nST: something:else\r\n\r\n";
    match responder.run(request(other_target, false), "now") {
        SsdpAction::Idle { peer_found } => assert!(!peer_found),
        other => panic!("{:?}", other),
    }
    assert_eq!(responder.announcements(), 0);
}

#[test]
fn notify_for_the_service_finds_a_peer() {
    let mut responder = SSDPResponder::new(service());
    let text = "NOTIFY * HTTP/1.1\r\nNT: urn:schemas-upnp-org:service:ExampleService:1\r\n\r\n";
    match responder.run(request(text, false), "now") {
        SsdpAction::Idle { peer_found } => assert!(peer_found),
        other => panic!("{:?}", other),
    }
    match responder.run(request("NOTIFY * HTTP/1.1\r\nNT: other\r\n", false), "now") {
        SsdpAction::Idle { peer_found } => assert!(!peer_found),
        other => panic!("{:?}", other),
    }
    match responder.run(SsdpEvent::ReceiveFailed, "now") {
        SsdpAction::Idle { peer_found } => assert!(!peer_found),
        other => panic!("{:?}", other),
    }
}

#[test]
fn announcements_are_counted() {
    let mut responder = SSDPResponder::new(service());
    for n in 1..=3 {
        match responder.run(SsdpEvent::AnnounceDue, "now") {
            SsdpAction::Announce(text) => assert_eq!(text, responder.create_announcement()),
            other => panic!("{:?}", other),
        }
        assert_eq!(responder.announcements(), n);
    }
}
