use ssdpserver::ip::Ip;

#[test]
fn first_contact_keeps_default_budget() {
    let mut ip = Ip::new();
    assert_eq!(ip.blacklisted, false);
    assert_eq!(ip.last_seen, None);
    assert_eq!(ip.consumed, 3600);
    ip.update(1000);
    assert_eq!(ip.blacklisted, false);
    assert_eq!(ip.last_seen, Some(1000));
    assert_eq!(ip.consumed, 3600);
}

#[test]
fn two_requests_ten_seconds_apart_then_blacklist() {
    let mut ip = Ip::new();
    ip.update(1000);
    ip.update(1010);
    assert_eq!(ip.consumed, 10);
    assert_eq!(ip.blacklisted, false);
    assert_eq!(ip.last_seen, Some(1010));
    ip.update(1011);
    assert!(ip.consumed <= 0);
    assert_eq!(ip.blacklisted, true);
    assert_eq!(ip.last_seen, Some(1011));
}

#[test]
fn hour_of_silence_restores_budget() {
    let mut ip = Ip::new();
    ip.update(1000);
    ip.update(1010);
    assert_eq!(ip.consumed, 10);
    ip.update(1010 + 3600);
    assert_eq!(ip.consumed, 3600);
    assert_eq!(ip.blacklisted, false);
    let mut idle = Ip::new();
    idle.update(5000);
    idle.update(5000 + 7200);
    assert_eq!(idle.consumed, 3600);
}

#[test]
fn back_to_back_requests_deduct_almost_everything() {
    let mut ip = Ip::new();
    ip.update(2000);
    ip.update(2000);
    assert_eq!(ip.consumed, 0);
    assert_eq!(ip.blacklisted, true);
}

#[test]
fn blacklisted_record_is_frozen() {
    let mut ip = Ip::new();
    ip.update(1000);
    ip.update(1001);
    ip.update(1002);
    assert_eq!(ip.blacklisted, true);
    let seen = ip.last_seen;
    let budget = ip.consumed;
    ip.update(999_999);
    assert_eq!(ip.blacklisted, true);
    assert_eq!(ip.last_seen, seen);
    assert_eq!(ip.consumed, budget);
    ip.update(50);
    assert_eq!(ip.blacklisted, true);
    assert_eq!(ip.last_seen, seen);
    assert_eq!(ip.consumed, budget);
}

#[test]
fn clock_moving_backwards_deducts_more_than_an_hour() {
    let mut ip = Ip::new();
    ip.update(10_000);
    ip.update(9_000);
    assert_eq!(ip.blacklisted, true);
    assert_eq!(ip.consumed, 3600 - (3600 + 1000));
}
