use ssdpserver::ssdp::SsdpRequest;

#[test]
fn msearch_packet_classifies_fully() {
    let payload = b"M-SEARCH * HTTP/1.1\r\nHOST: 239.255.255.250:1900\r\nMAN: \"ssdp:discover\"\r\nMX: 2\r\nST: ssdp:all\r\n\r\n".to_vec();
    let len = payload.len();
    let r = SsdpRequest::new(payload.clone(), false, 77);
    assert_eq!(r.method.as_deref(), Some(b"M-SEARCH".as_slice()));
    assert_eq!(r.uri.as_deref(), Some(b"*".as_slice()));
    assert_eq!(r.protocol.as_deref(), Some(b"HTTP/1.1".as_slice()));
    assert_eq!(r.status, None);
    assert_eq!(r.reason, None);
    assert_eq!(r.host, vec![b"239.255.255.250:1900".to_vec()]);
    assert_eq!(r.man, vec![b"\"ssdp:discover\"".to_vec()]);
    assert_eq!(r.delay, vec![b"2".to_vec()]);
    assert_eq!(r.target, vec![b"ssdp:all".to_vec()]);
    assert!(r.valid_httpu);
    assert!(r.terminated);
    assert!(r.combination);
    assert!(!r.unknown);
    assert!(!r.overwrite);
    assert_eq!(r.length, len);
    assert_eq!(r.raw, payload);
    assert_eq!(r.timestamp, Some(77));
    assert!(r.responded);
}

#[test]
fn empty_payload_classifies_without_error() {
    let r = SsdpRequest::new(Vec::new(), false, 5);
    assert_eq!(r.method, None);
    assert_eq!(r.uri, None);
    assert_eq!(r.protocol, None);
    assert_eq!(r.status, None);
    assert_eq!(r.reason, None);
    assert!(!r.valid_httpu);
    assert!(!r.terminated);
    assert!(!r.combination);
    assert!(!r.unknown);
    assert!(!r.overwrite);
    assert_eq!(r.length, 0);
    assert_eq!(r.raw, Vec::<u8>::new());
    assert!(r.host.is_empty());
}

#[test]
fn notify_packet_checks_nt_and_nts() {
    let payload = b"NOTIFY * HTTP/1.1\r\nHOST: 239.255.255.250:1900\r\nNT: upnp:rootdevice\r\nNTS: ssdp:alive\r\n\r\n".to_vec();
    let r = SsdpRequest::new(payload, false, 1);
    assert_eq!(r.method.as_deref(), Some(b"NOTIFY".as_slice()));
    assert_eq!(r.notification, vec![b"upnp:rootdevice".to_vec()]);
    assert_eq!(r.sub_notification, vec![b"ssdp:alive".to_vec()]);
    assert!(r.combination);
    let missing_nts = SsdpRequest::new(b"NOTIFY * HTTP/1.1\r\nNT: upnp:rootdevice\r\n\r\n".to_vec(), false, 1);
    assert!(!missing_nts.combination);
}

#[test]
fn status_line_packet_classifies_as_response() {
    let payload = b"HTTP/1.1 200 OK\r\nLOCATION: http://192.168.0.1:80/desc.xml\r\nSERVER: Linux UPnP/1.0\r\nUSN: uuid:1234\r\nEXT: \r\n\r\n".to_vec();
    let r = SsdpRequest::new(payload, false, 9);
    assert_eq!(r.method, None);
    assert_eq!(r.uri, None);
    assert_eq!(r.protocol.as_deref(), Some(b"HTTP/1.1".as_slice()));
    assert_eq!(r.status.as_deref(), Some(b"200".as_slice()));
    assert_eq!(r.reason.as_deref(), Some(b"OK".as_slice()));
    assert_eq!(r.location, vec![b"http://192.168.0.1:80/desc.xml".to_vec()]);
    assert_eq!(r.server, vec![b"Linux UPnP/1.0".to_vec()]);
    assert_eq!(r.service, vec![b"uuid:1234".to_vec()]);
    assert_eq!(r.extension, vec![b"".to_vec()]);
    assert!(r.valid_httpu);
    assert!(r.combination);
}

#[test]
fn reason_phrase_keeps_its_spaces() {
    let r = SsdpRequest::new(b"HTTP/1.1 404 Not Found\r\n\r\n".to_vec(), false, 0);
    assert_eq!(r.status.as_deref(), Some(b"404".as_slice()));
    assert_eq!(r.reason.as_deref(), Some(b"Not Found".as_slice()));
    assert!(r.valid_httpu);
    assert!(!r.combination);
}

#[test]
fn duplicate_headers_append_in_order_and_flag() {
    let payload = b"M-SEARCH * HTTP/1.1\r\nHOST: first\r\nHOST: second\r\nMAN: \"ssdp:discover\"\r\nMX: 1\r\nST: ssdp:all\r\n\r\n".to_vec();
    let r = SsdpRequest::new(payload, false, 0);
    assert_eq!(r.host, vec![b"first".to_vec(), b"second".to_vec()]);
    assert!(r.overwrite);
    assert!(!r.combination);
}

#[test]
fn unknown_header_sets_flag_but_is_kept_in_raw() {
    let payload = b"M-SEARCH * HTTP/1.1\r\nX-SNEAKY: yes\r\n\r\n".to_vec();
    let r = SsdpRequest::new(payload.clone(), false, 0);
    assert!(r.unknown);
    assert_eq!(r.raw, payload);
    let known = SsdpRequest::new(b"M-SEARCH * HTTP/1.1\r\nHOST: h\r\n\r\n".to_vec(), false, 0);
    assert!(!known.unknown);
}

#[test]
fn header_without_separator_is_a_bare_name() {
    let r = SsdpRequest::new(b"M-SEARCH * HTTP/1.1\r\nHOST\r\n\r\n".to_vec(), false, 0);
    assert!(r.host.is_empty());
    assert!(!r.unknown);
    let colon_no_space = SsdpRequest::new(b"M-SEARCH * HTTP/1.1\r\nHOST:nospace\r\n\r\n".to_vec(), false, 0);
    assert!(colon_no_space.host.is_empty());
    assert!(colon_no_space.unknown);
}

#[test]
fn truncated_start_lines_leave_fields_absent() {
    let only_method = SsdpRequest::new(b"M-SEARCH".to_vec(), false, 0);
    assert_eq!(only_method.method.as_deref(), Some(b"M-SEARCH".as_slice()));
    assert_eq!(only_method.uri, None);
    assert_eq!(only_method.protocol, None);
    assert!(!only_method.valid_httpu);
    assert!(!only_method.terminated);
    let two_tokens = SsdpRequest::new(b"M-SEARCH *".to_vec(), false, 0);
    assert_eq!(two_tokens.uri.as_deref(), Some(b"*".as_slice()));
    assert_eq!(two_tokens.protocol, None);
    assert!(!two_tokens.valid_httpu);
    let lone_protocol = SsdpRequest::new(b"HTTP/1.1".to_vec(), false, 0);
    assert_eq!(lone_protocol.protocol.as_deref(), Some(b"HTTP/1.1".as_slice()));
    assert_eq!(lone_protocol.method, None);
    assert_eq!(lone_protocol.status, None);
}

#[test]
fn arbitrary_bytes_are_preserved_verbatim() {
    let payload = vec![0u8, 255, 13, 10, 254, 13, 13, 10, 10, 0];
    let r = SsdpRequest::new(payload.clone(), true, 3);
    assert_eq!(r.raw, payload);
    assert_eq!(r.length, payload.len());
    assert!(!r.responded);
}

#[test]
fn classification_is_identical_across_calls() {
    let payload = b"NOTIFY * HTTP/1.1\r\nNT: a\r\nNT: b\r\nWEIRD\r\n".to_vec();
    let a = SsdpRequest::new(payload.clone(), false, 42);
    let b = SsdpRequest::new(payload, false, 42);
    assert_eq!(a.method, b.method);
    assert_eq!(a.uri, b.uri);
    assert_eq!(a.protocol, b.protocol);
    assert_eq!(a.status, b.status);
    assert_eq!(a.reason, b.reason);
    assert_eq!(a.host, b.host);
    assert_eq!(a.notification, b.notification);
    assert_eq!(a.sub_notification, b.sub_notification);
    assert_eq!(a.valid_httpu, b.valid_httpu);
    assert_eq!(a.unknown, b.unknown);
    assert_eq!(a.overwrite, b.overwrite);
    assert_eq!(a.terminated, b.terminated);
    assert_eq!(a.combination, b.combination);
    assert_eq!(a.length, b.length);
    assert_eq!(a.raw, b.raw);
    assert_eq!(a.timestamp, b.timestamp);
    assert_eq!(a.responded, b.responded);
}

#[test]
fn termination_needs_a_final_blank_line() {
    let unterminated = SsdpRequest::new(b"M-SEARCH * HTTP/1.1\r\nHOST: h".to_vec(), false, 0);
    assert!(!unterminated.terminated);
    let terminated = SsdpRequest::new(b"M-SEARCH * HTTP/1.1\r\n\r\n".to_vec(), false, 0);
    assert!(terminated.terminated);
    let bare_crlf = SsdpRequest::new(b"\r\n".to_vec(), false, 0);
    assert!(bare_crlf.terminated);
}
