use lifx_control::discovery::collect_window;
use lifx_control::discovery::ProbeReply;
use lifx_control::error::LifxError;
use lifx_control::message::DeviceAddr;
use lifx_control::message::Message;
use lifx_control::message::PowerLevel;
use lifx_control::registry::Device;
use lifx_control::registry::DeviceRegistry;
use lifx_control::registry::label_from_reply;
use lifx_control::registry::populate_registry;
use lifx_control::registry::same_device;
use lifx_control::registry::same_device_list;

fn addr(host: u32) -> DeviceAddr {
    DeviceAddr { host, port: 56700 }
}

fn device(id: u64, host: u32) -> Device {
    Device { id, addr: addr(host), label: None }
}

#[test]
fn lookup_past_the_end_is_out_of_range() {
    let mut reg = DeviceRegistry::new();
    assert!(matches!(reg.lookup(0), Err(LifxError::OutOfRange)));
    reg.observe(1, addr(10));
    assert_eq!(reg.len(), 1);
    assert_eq!(reg.lookup(0).unwrap().id, 1);
    assert!(matches!(reg.lookup(1), Err(LifxError::OutOfRange)));
}

#[test]
fn observing_a_known_id_refreshes_the_address_in_place() {
    let mut reg = DeviceRegistry::new();
    reg.observe(1, addr(10));
    reg.observe(2, addr(11));
    // Same identity seen again with another address: one entry, updated.
    reg.observe(1, addr(99));
    assert_eq!(reg.len(), 2);
    let first = reg.lookup(0).unwrap();
    assert_eq!(first.id, 1);
    assert_eq!(first.addr, addr(99));
}

#[test]
fn label_reply_of_the_wrong_shape_is_a_protocol_mismatch() {
    assert!(matches!(
        label_from_reply(Message::Acknowledgement),
        Err(LifxError::ProtocolMismatch)
    ));
    assert!(matches!(
        label_from_reply(Message::SetPower { level: PowerLevel::Enabled }),
        Err(LifxError::ProtocolMismatch)
    ));
    let label = label_from_reply(Message::StateLabel { label: String::from("Desk") });
    assert_eq!(label.unwrap(), "Desk");
}

#[test]
fn absorbing_label_outcomes() {
    let mut reg = DeviceRegistry::new();
    reg.observe(1, addr(10));
    reg.observe(2, addr(11));

    // The expected reply shape sets the label.
    let r = reg.absorb_label_outcome(1, Ok(Message::StateLabel { label: String::from("Desk") }));
    assert!(r.is_ok());
    assert_eq!(reg.lookup(0).unwrap().label.as_deref(), Some("Desk"));

    // A wrong shape reports the mismatch; the device is retained, its
    // label still unset.
    let r = reg.absorb_label_outcome(2, Ok(Message::Acknowledgement));
    assert_eq!(r, Err(LifxError::ProtocolMismatch));
    assert_eq!(reg.len(), 2);
    assert!(reg.lookup(1).unwrap().label.is_none());

    // A timed-out request reports the timeout; the device is retained.
    let r = reg.absorb_label_outcome(2, Err(LifxError::Timeout));
    assert_eq!(r, Err(LifxError::Timeout));
    assert_eq!(reg.len(), 2);
    assert!(reg.lookup(1).unwrap().label.is_none());

    // A transport failure passes through unchanged.
    let r = reg.absorb_label_outcome(2, Err(LifxError::IoError));
    assert_eq!(r, Err(LifxError::IoError));
    assert_eq!(reg.len(), 2);
}

#[test]
fn a_discovery_window_feeds_the_registry() {
    let replies = vec![
        ProbeReply { id: 5, addr: addr(10), at: 100 },
        ProbeReply { id: 6, addr: addr(11), at: 200 },
        ProbeReply { id: 5, addr: addr(10), at: 300 },
    ];
    let devices = collect_window(0, 2000, &replies);
    let reg = DeviceRegistry::from_devices(devices);
    assert_eq!(reg.len(), 2);
    assert_eq!(reg.lookup(0).unwrap().id, 5);
    assert_eq!(reg.lookup(1).unwrap().id, 6);
}

#[test]
fn populate_keeps_unlabelled_devices_and_reports_first_failure() {
    let devices = vec![device(1, 10), device(2, 11), device(3, 12)];
    let outcomes = vec![
        Ok(Message::StateLabel { label: String::from("Kitchen") }),
        Err(LifxError::Timeout),
        Ok(Message::StateLabel { label: String::from("Hall") }),
    ];
    let (reg, failure) = populate_registry(devices, &outcomes);
    assert_eq!(reg.len(), 3);
    assert_eq!(reg.lookup(0).unwrap().label.as_deref(), Some("Kitchen"));
    assert!(reg.lookup(1).unwrap().label.is_none());
    assert_eq!(reg.lookup(2).unwrap().label.as_deref(), Some("Hall"));
    assert_eq!(failure, Some(LifxError::Timeout));
}

#[test]
fn populate_with_all_labels_reports_no_failure() {
    let devices = vec![device(1, 10)];
    let outcomes = vec![Ok(Message::StateLabel { label: String::from("Desk") })];
    let (reg, failure) = populate_registry(devices, &outcomes);
    assert_eq!(reg.len(), 1);
    assert_eq!(failure, None);
}

#[test]
fn device_identity_ignores_address_and_label() {
    let a = Device { id: 7, addr: addr(10), label: Some(String::from("Desk")) };
    let b = Device { id: 7, addr: addr(99), label: None };
    let c = Device { id: 8, addr: addr(10), label: Some(String::from("Desk")) };
    assert!(same_device(&a, &b));
    assert!(!same_device(&a, &c));
}

#[test]
fn device_lists_agree_on_ids_and_labels() {
    let a = vec![
        Device { id: 1, addr: addr(10), label: Some(String::from("Desk")) },
        Device { id: 2, addr: addr(11), label: None },
    ];
    // Addresses may differ; identity and label decide.
    let b = vec![
        Device { id: 1, addr: addr(50), label: Some(String::from("Desk")) },
        Device { id: 2, addr: addr(51), label: None },
    ];
    assert!(same_device_list(&a, &b));

    let c = vec![
        Device { id: 1, addr: addr(10), label: Some(String::from("Shelf")) },
        Device { id: 2, addr: addr(11), label: None },
    ];
    assert!(!same_device_list(&a, &c));

    let shorter = vec![Device { id: 1, addr: addr(10), label: Some(String::from("Desk")) }];
    assert!(!same_device_list(&a, &shorter));
}
