use ssdpserver::ip::Ip;
use ssdpserver::responder::{handle_datagram, Outcome};

const MAX_FRAME: usize = 4096;

#[test]
fn oversized_payload_is_dropped_untouched() {
    let mut rep = Ip::new();
    rep.update(50);
    let before_seen = rep.last_seen;
    let before_budget = rep.consumed;
    let oversized = vec![65u8; MAX_FRAME + 1];
    let outcome = handle_datagram(oversized, &mut rep, 60, MAX_FRAME);
    assert!(matches!(outcome, Outcome::Oversized));
    assert_eq!(rep.last_seen, before_seen);
    assert_eq!(rep.consumed, before_budget);
    assert_eq!(rep.blacklisted, false);
}

#[test]
fn payload_at_the_limit_is_handled() {
    let mut rep = Ip::new();
    let payload = vec![66u8; MAX_FRAME];
    let outcome = handle_datagram(payload, &mut rep, 60, MAX_FRAME);
    match outcome {
        Outcome::Handled { record, respond } => {
            assert!(respond);
            assert_eq!(record.length, MAX_FRAME);
        },
        Outcome::Oversized => panic!("a payload at the limit must be handled"),
    }
}

#[test]
fn fresh_sender_gets_a_reply_and_an_audit_record() {
    let mut rep = Ip::new();
    let payload = b"M-SEARCH * HTTP/1.1\r\nHOST: 239.255.255.250:1900\r\nMAN: \"ssdp:discover\"\r\nMX: 2\r\nST: ssdp:all\r\n\r\n".to_vec();
    let outcome = handle_datagram(payload, &mut rep, 1000, MAX_FRAME);
    match outcome {
        Outcome::Handled { record, respond } => {
            assert!(respond);
            assert!(record.responded);
            assert_eq!(record.method.as_deref(), Some(b"M-SEARCH".as_slice()));
            assert_eq!(record.timestamp, Some(1000));
        },
        Outcome::Oversized => panic!("a short payload must be handled"),
    }
    assert_eq!(rep.last_seen, Some(1000));
    assert_eq!(rep.consumed, 3600);
}

#[test]
fn bursty_sender_is_silenced_permanently() {
    let mut rep = Ip::new();
    let replies: Vec<bool> = (0..4)
        .map(|k| {
            let outcome = handle_datagram(b"M-SEARCH * HTTP/1.1\r\n\r\n".to_vec(), &mut rep, 1000 + k, MAX_FRAME);
            match outcome {
                Outcome::Handled { record, respond } => {
                    assert_eq!(record.responded, respond);
                    respond
                },
                Outcome::Oversized => panic!("short payloads must be handled"),
            }
        })
        .collect();
    assert_eq!(replies, vec![true, true, false, false]);
    assert!(rep.blacklisted);
}

#[test]
fn blacklisted_sender_is_still_audited_but_not_answered() {
    let mut rep = Ip::new();
    rep.update(10);
    rep.update(11);
    rep.update(12);
    assert!(rep.blacklisted);
    let seen = rep.last_seen;
    let outcome = handle_datagram(b"NOTIFY * HTTP/1.1\r\n\r\n".to_vec(), &mut rep, 500, MAX_FRAME);
    match outcome {
        Outcome::Handled { record, respond } => {
            assert!(!respond);
            assert!(!record.responded);
            assert_eq!(record.method.as_deref(), Some(b"NOTIFY".as_slice()));
        },
        Outcome::Oversized => panic!("a short payload must be handled"),
    }
    assert_eq!(rep.last_seen, seen);
}
