use lifx_control::discovery::DiscoveryAccumulator;
use lifx_control::discovery::ProbeReply;
use lifx_control::discovery::collect_window;
use lifx_control::message::DeviceAddr;

fn addr(host: u32) -> DeviceAddr {
    DeviceAddr { host, port: 56700 }
}

const ID_A: u64 = 0xd0_73_d5_00_00_01;
const ID_B: u64 = 0xd0_73_d5_00_00_02;
const ID_C: u64 = 0xd0_73_d5_00_00_03;

#[test]
fn three_replies_within_window_yield_three_devices() {
    // Window of 2 units (here: 2000 ms), replies at t=0.1, t=1.0, t=1.9.
    let mut acc = DiscoveryAccumulator::begin(0, 2000);
    assert!(acc.on_reply(ProbeReply { id: ID_A, addr: addr(10), at: 100 }));
    assert!(acc.on_reply(ProbeReply { id: ID_B, addr: addr(11), at: 1000 }));
    assert!(acc.on_reply(ProbeReply { id: ID_C, addr: addr(12), at: 1900 }));
    let devices = acc.into_devices();
    let ids: Vec<u64> = devices.iter().map(|d| d.id).collect();
    let mut sorted = ids.clone();
    sorted.sort();
    assert_eq!(sorted, vec![ID_A, ID_B, ID_C]);
}

#[test]
fn reply_after_window_is_dropped() {
    // Same setup, but C's only reply arrives at t=2.1, after the window.
    let mut acc = DiscoveryAccumulator::begin(0, 2000);
    assert!(acc.on_reply(ProbeReply { id: ID_A, addr: addr(10), at: 100 }));
    assert!(acc.on_reply(ProbeReply { id: ID_B, addr: addr(11), at: 1000 }));
    assert!(!acc.on_reply(ProbeReply { id: ID_C, addr: addr(12), at: 2100 }));
    let devices = acc.into_devices();
    let mut ids: Vec<u64> = devices.iter().map(|d| d.id).collect();
    ids.sort();
    assert_eq!(ids, vec![ID_A, ID_B]);
}

#[test]
fn duplicate_replies_yield_the_device_once() {
    // One device sends 3 duplicate replies within the window: it is
    // returned exactly once, under its first reply's address.
    let replies = vec![
        ProbeReply { id: ID_A, addr: addr(10), at: 10 },
        ProbeReply { id: ID_A, addr: addr(10), at: 600 },
        ProbeReply { id: ID_A, addr: addr(10), at: 1200 },
    ];
    let devices = collect_window(0, 2000, &replies);
    assert_eq!(devices.len(), 1);
    assert_eq!(devices[0].id, ID_A);
    assert_eq!(devices[0].addr, addr(10));
    assert!(devices[0].label.is_none());
}

#[test]
fn one_reply_per_device_yields_one_entry_each() {
    // M devices that each send exactly one timely reply: exactly M
    // distinct devices, whatever the arrival order.
    let replies = vec![
        ProbeReply { id: ID_C, addr: addr(12), at: 40 },
        ProbeReply { id: ID_A, addr: addr(10), at: 50 },
        ProbeReply { id: ID_B, addr: addr(11), at: 60 },
    ];
    let devices = collect_window(0, 2000, &replies);
    assert_eq!(devices.len(), 3);
    // First-arrival order is kept.
    assert_eq!(devices[0].id, ID_C);
    assert_eq!(devices[1].id, ID_A);
    assert_eq!(devices[2].id, ID_B);
}

#[test]
fn zero_replies_yield_an_empty_set() {
    let devices = collect_window(0, 2000, &Vec::new());
    assert!(devices.is_empty());
}

#[test]
fn mixed_duplicates_and_stragglers() {
    let replies = vec![
        ProbeReply { id: ID_A, addr: addr(10), at: 100 },
        ProbeReply { id: ID_B, addr: addr(11), at: 300 },
        ProbeReply { id: ID_A, addr: addr(10), at: 400 },
        ProbeReply { id: ID_C, addr: addr(12), at: 2500 },
    ];
    let devices = collect_window(0, 2000, &replies);
    let mut ids: Vec<u64> = devices.iter().map(|d| d.id).collect();
    ids.sort();
    assert_eq!(ids, vec![ID_A, ID_B]);
}
