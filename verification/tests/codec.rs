use ssdpserver::ip::Ip;

fn round_trips(ip: &Ip) {
    let bytes = ip.to_bytes();
    assert_eq!(bytes.len(), 14);
    let back = Ip::from_bytes(&bytes).expect("an encoded record must decode");
    assert_eq!(back.blacklisted, ip.blacklisted);
    assert_eq!(back.last_seen, ip.last_seen);
    assert_eq!(back.consumed, ip.consumed);
}

#[test]
fn fresh_record_round_trips() {
    round_trips(&Ip::new());
}

#[test]
fn seen_record_round_trips() {
    let mut ip = Ip::new();
    ip.update(1_700_000_000);
    round_trips(&ip);
}

#[test]
fn blacklisted_record_with_negative_budget_round_trips() {
    let mut ip = Ip::new();
    ip.update(1000);
    ip.update(1001);
    ip.update(1002);
    assert!(ip.blacklisted);
    assert!(ip.consumed < 0);
    round_trips(&ip);
}

#[test]
fn extreme_timestamps_round_trip() {
    let mut ip = Ip::new();
    ip.update(i64::MIN);
    round_trips(&ip);
    let mut ip2 = Ip::new();
    ip2.update(i64::MAX);
    round_trips(&ip2);
}

#[test]
fn garbage_bytes_do_not_decode() {
    assert!(Ip::from_bytes(&Vec::new()).is_none());
    assert!(Ip::from_bytes(&vec![0u8; 13]).is_none());
    assert!(Ip::from_bytes(&vec![0u8; 15]).is_none());
    let mut bad_flag = Ip::new().to_bytes();
    bad_flag[0] = 7;
    assert!(Ip::from_bytes(&bad_flag).is_none());
    let mut bad_tag = Ip::new().to_bytes();
    bad_tag[1] = 200;
    assert!(Ip::from_bytes(&bad_tag).is_none());
}

#[test]
fn from_store_treats_garbage_as_first_contact() {
    let ip = Ip::from_store(&Vec::new(), 4242);
    assert_eq!(ip.blacklisted, false);
    assert_eq!(ip.last_seen, Some(4242));
    assert_eq!(ip.consumed, 3600);
}

#[test]
fn from_store_continues_a_stored_record() {
    let mut ip = Ip::new();
    ip.update(1000);
    let stored = ip.to_bytes();
    let next = Ip::from_store(&stored, 1010);
    assert_eq!(next.consumed, 10);
    assert_eq!(next.blacklisted, false);
    assert_eq!(next.last_seen, Some(1010));
}
