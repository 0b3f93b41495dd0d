use lifx_control::correlator::Correlator;
use lifx_control::correlator::Reply;
use lifx_control::correlator::timeout_failures;
use lifx_control::error::LifxError;
use lifx_control::message::DeviceAddr;
use lifx_control::message::Message;

fn addr(host: u32) -> DeviceAddr {
    DeviceAddr { host, port: 56700 }
}

#[test]
fn concurrent_requests_get_distinct_tokens() {
    let mut c = Correlator::new();
    let t1 = c.begin_request(addr(1), 0, 500);
    let t2 = c.begin_request(addr(2), 0, 500);
    let t3 = c.begin_request(addr(3), 0, 500);
    assert_ne!(t1, t2);
    assert_ne!(t1, t3);
    assert_ne!(t2, t3);
}

#[test]
fn reply_resolves_only_its_own_request() {
    let mut c = Correlator::new();
    let _t1 = c.begin_request(addr(1), 0, 500);
    let t2 = c.begin_request(addr(2), 0, 500);
    let resolved = c
        .on_datagram(Reply { token: t2, body: Message::Acknowledgement }, 100)
        .expect("a pending request carries this token");
    assert_eq!(resolved.pending.token, t2);
    assert_eq!(resolved.pending.addr, addr(2));
    assert!(matches!(resolved.body, Message::Acknowledgement));
    // The same token cannot resolve a second request.
    assert!(c.on_datagram(Reply { token: t2, body: Message::Acknowledgement }, 110).is_none());
}

#[test]
fn stray_datagram_is_discarded() {
    let mut c = Correlator::new();
    assert!(c.on_datagram(Reply { token: 9, body: Message::Acknowledgement }, 0).is_none());
}

#[test]
fn deadline_elapsing_times_the_request_out() {
    let mut c = Correlator::new();
    let t = c.begin_request(addr(1), 0, 500);
    // Still live just before the deadline.
    assert!(c.expire(499).is_empty());
    let timed_out = c.expire(500);
    assert_eq!(timed_out.len(), 1);
    assert_eq!(timed_out[0].token, t);
    let failures = timeout_failures(&timed_out);
    assert_eq!(failures, vec![(t, LifxError::Timeout)]);
}

#[test]
fn late_reply_is_discarded_and_token_not_reused() {
    let mut c = Correlator::new();
    let t = c.begin_request(addr(1), 0, 500);
    // The reply arrives after the deadline, even before the expiry step
    // has run: it resolves nothing.
    assert!(c.on_datagram(Reply { token: t, body: Message::Acknowledgement }, 600).is_none());
    // The timeout is still reported.
    assert_eq!(c.expire(600).len(), 1);
    // A later request never reuses the expired request's token value, so
    // the stray reply cannot resolve it either.
    let t2 = c.begin_request(addr(1), 600, 500);
    assert_ne!(t, t2);
    assert!(c.on_datagram(Reply { token: t, body: Message::Acknowledgement }, 700).is_none());
}

#[test]
fn shared_timeouts_aggregate_in_one_step() {
    // Three requests against unreachable addresses, submitted together
    // with the same 500 ms timeout: all three fail at the 500 ms mark in
    // one expiry step, not one after another.
    let mut c = Correlator::new();
    let t1 = c.begin_request(addr(1), 0, 500);
    let t2 = c.begin_request(addr(2), 0, 500);
    let t3 = c.begin_request(addr(3), 0, 500);
    assert!(c.expire(499).is_empty());
    let timed_out = c.expire(500);
    let failures = timeout_failures(&timed_out);
    assert_eq!(
        failures,
        vec![(t1, LifxError::Timeout), (t2, LifxError::Timeout), (t3, LifxError::Timeout)]
    );
    // Nothing is left pending afterwards.
    assert!(c.expire(10_000).is_empty());
}
