use supvan::device::{
    bt_address, checked, connect, dial_and_cache, mock_reachable, open_mock, open_supvan, open_uri,
    register_supvan, Attempt, ConnectStep, MockDevice, Opening, Scheme,
};
use supvan::directory::Directory;

fn text(s: &str) -> Option<String> {
    Some(s.to_string())
}

#[test]
fn schemes_are_told_apart() {
    assert_eq!(open_uri("supvan://t50"), Scheme::Supvan);
    assert_eq!(open_uri("mock://1"), Scheme::Mock);
    assert_eq!(open_uri("usbhid://1"), Scheme::Unsupported);
    assert_eq!(open_uri(""), Scheme::Unsupported);
}

#[test]
fn the_simulator_always_opens() {
    assert_eq!(open_mock("mock://1"), Some(MockDevice));
    assert_eq!(open_mock(""), Some(MockDevice));
    assert!(mock_reachable(false));
    assert!(!mock_reachable(true));
}

#[test]
fn usb_comes_first_and_low_energy_last() {
    let mut map = Directory::new();
    register_supvan(&mut map, "t50", text("/dev/hidraw0"), text("AA:BB"), text("CC:DD"));
    register_supvan(&mut map, "e10", None, text("EE:FF"), None);
    register_supvan(&mut map, "none", None, None, None);
    assert_eq!(
        open_supvan(&map, "supvan://t50"),
        Some(Opening::new(vec![
            Attempt::Usb("/dev/hidraw0".to_string()),
            Attempt::Bt("btrfcomm://bt/AA:BB".to_string()),
            Attempt::Ble("CC:DD".to_string()),
        ]))
    );
    assert_eq!(
        open_supvan(&map, "supvan://e10"),
        Some(Opening::new(vec![Attempt::Bt("btrfcomm://bt/EE:FF".to_string())]))
    );
    assert_eq!(open_supvan(&map, "supvan://none"), Some(Opening::new(Vec::new())));
    assert_eq!(open_supvan(&map, "supvan://other"), None);
    assert_eq!(open_supvan(&map, "mock://t50"), None);
}

#[test]
fn the_last_registration_counts() {
    let mut map = Directory::new();
    register_supvan(&mut map, "a", text("/dev/hidraw0"), None, None);
    register_supvan(&mut map, "b", None, text("11:22"), None);
    register_supvan(&mut map, "a", None, None, text("33:44"));
    assert_eq!(
        open_supvan(&map, "supvan://a"),
        Some(Opening::new(vec![Attempt::Ble("33:44".to_string())]))
    );
    assert_eq!(
        open_supvan(&map, "supvan://b"),
        Some(Opening::new(vec![Attempt::Bt("btrfcomm://bt/11:22".to_string())]))
    );
}

#[test]
fn addresses_are_found_behind_the_host() {
    assert_eq!(bt_address("btrfcomm://bt/AA:BB:CC:DD:EE:FF"), Some("AA:BB:CC:DD:EE:FF"));
    assert_eq!(bt_address("btrfcomm://host/path/AA"), Some("path/AA"));
    assert_eq!(bt_address("btrfcomm:///"), Some(""));
    assert_eq!(bt_address("btrfcomm://AA:BB"), None);
    assert_eq!(bt_address("supvan://bt/AA"), None);
}

#[test]
fn a_live_connection_is_used_again() {
    let mut cache: Directory<u32> = Directory::new();
    assert_eq!(connect(&cache, "AA"), ConnectStep::Dial);
    assert!(!dial_and_cache(&mut cache, "AA", None));
    assert_eq!(connect(&cache, "AA"), ConnectStep::Dial);
    assert!(dial_and_cache(&mut cache, "AA", Some(1)));
    assert!(dial_and_cache(&mut cache, "BB", Some(2)));
    assert_eq!(connect(&cache, "AA"), ConnectStep::Check);
    assert_eq!(checked(&mut cache, "AA", true), ConnectStep::Reuse);
    assert_eq!(cache.get("AA"), Some(&1));
    assert_eq!(checked(&mut cache, "AA", false), ConnectStep::Dial);
    assert_eq!(cache.get("AA"), None);
    assert_eq!(cache.get("BB"), Some(&2));
    assert!(dial_and_cache(&mut cache, "AA", Some(3)));
    assert_eq!(cache.get("AA"), Some(&3));
}

#[test]
fn the_first_attempt_that_opens_is_the_device() {
    let usb = Attempt::Usb("/dev/hidraw0".to_string());
    let bt = Attempt::Bt("btrfcomm://bt/AA".to_string());
    let all = || vec![Attempt::Usb("/dev/hidraw0".to_string()), Attempt::Bt("btrfcomm://bt/AA".to_string())];
    let mut o = Opening::new(all());
    assert_eq!(o.next_attempt(), Some(&usb));
    o.tried(true);
    assert_eq!(o.next_attempt(), None);

    let mut o = Opening::new(all());
    o.tried(false);
    assert_eq!(o.next_attempt(), Some(&bt));
    o.tried(false);
    assert_eq!(o.next_attempt(), None);

    assert_eq!(Opening::new(Vec::new()).next_attempt(), None);
}
