use asteria::capture::CaptureManager;
use asteria::device::{
    classify, device_name, eligible_device_paths, is_eligible, is_event_node, is_excluded_name,
    matches_exclusion_folded, text_le_exec, Capability, DeviceInfo,
};
use asteria::normalize::{normalize, RawEvent};
use asteria::protocol::InputEventType;
use asteria::relay::{RelayAction, RelayController, RelayState};

fn device(path: &str, name: Option<&str>, key: Vec<u8>, rel: Vec<u8>, abs: Vec<u8>) -> DeviceInfo {
    DeviceInfo {
        path: path.to_string(),
        name: name.map(|n| n.to_string()),
        key_bits: key,
        rel_bits: rel,
        abs_bits: abs,
    }
}

#[test]
fn zero_motion_is_dropped_and_motion_passes() {
    assert_eq!(normalize(&RawEvent::PointerMotion { dx: 0, dy: 0 }), None);
    assert_eq!(
        normalize(&RawEvent::PointerMotion { dx: 5, dy: -3 }),
        Some(InputEventType::MouseMove { x: 5, y: -3 })
    );
}

#[test]
fn vertical_scroll_is_inverted() {
    assert_eq!(
        normalize(&RawEvent::PointerScroll { horizontal: 0, vertical: 2 }),
        Some(InputEventType::MouseScroll { dx: 0, dy: -2 })
    );
    assert_eq!(normalize(&RawEvent::PointerScroll { horizontal: 0, vertical: 0 }), None);
    assert_eq!(
        normalize(&RawEvent::PointerScroll { horizontal: 3, vertical: i32::MIN }),
        Some(InputEventType::MouseScroll { dx: 3, dy: i32::MAX })
    );
}

#[test]
fn buttons_map_to_the_canonical_set() {
    assert_eq!(
        normalize(&RawEvent::PointerButton { button: 0x110, pressed: true }),
        Some(InputEventType::MouseButton { button: 1, pressed: true })
    );
    assert_eq!(
        normalize(&RawEvent::PointerButton { button: 0x111, pressed: false }),
        Some(InputEventType::MouseButton { button: 2, pressed: false })
    );
    assert_eq!(
        normalize(&RawEvent::PointerButton { button: 0x112, pressed: true }),
        Some(InputEventType::MouseButton { button: 3, pressed: true })
    );
    assert_eq!(normalize(&RawEvent::PointerButton { button: 0x999, pressed: true }), None);
}

#[test]
fn keys_pass_through_and_other_events_are_ignored() {
    assert_eq!(
        normalize(&RawEvent::Key { key: 30, pressed: true }),
        Some(InputEventType::KeyPress { key_code: 30 })
    );
    assert_eq!(
        normalize(&RawEvent::Key { key: 30, pressed: false }),
        Some(InputEventType::KeyRelease { key_code: 30 })
    );
    assert_eq!(normalize(&RawEvent::Other), None);
}

#[test]
fn toggle_events_are_never_forwarded() {
    let mut relay = RelayController::new(0x1D);
    assert_eq!(relay.state(), RelayState::default());
    // released while disabled
    assert_eq!(relay.on_event(&RawEvent::Key { key: 0x1D, pressed: false }), RelayAction::Ignore);
    // pressed while disabled: grab first
    assert_eq!(relay.on_event(&RawEvent::Key { key: 0x1D, pressed: true }), RelayAction::GrabDevices);
    assert!(!relay.state().relay_enabled);
    relay.grab_finished(true);
    assert_eq!(relay.state(), RelayState { relay_enabled: true, suppress_local_input: true });
    // released while enabled
    assert_eq!(relay.on_event(&RawEvent::Key { key: 0x1D, pressed: false }), RelayAction::Ignore);
    // pressed while enabled: release
    assert_eq!(relay.on_event(&RawEvent::Key { key: 0x1D, pressed: true }), RelayAction::ReleaseDevices);
    assert_eq!(relay.state(), RelayState { relay_enabled: false, suppress_local_input: false });
}

#[test]
fn events_are_forwarded_only_while_enabled() {
    let events = [
        RawEvent::Key { key: 30, pressed: true },
        RawEvent::PointerMotion { dx: 1, dy: 1 },
        RawEvent::PointerButton { button: 0x110, pressed: true },
        RawEvent::PointerScroll { horizontal: 1, vertical: 0 },
    ];
    let mut relay = RelayController::new(0x1D);
    for e in events.iter() {
        assert_eq!(relay.on_event(e), RelayAction::Ignore);
    }
    relay.on_event(&RawEvent::Key { key: 0x1D, pressed: true });
    relay.grab_finished(true);
    for e in events.iter() {
        assert_eq!(relay.on_event(e), RelayAction::Forward(normalize(e).unwrap()));
    }
    assert_eq!(relay.on_event(&RawEvent::PointerMotion { dx: 0, dy: 0 }), RelayAction::Ignore);
    // a toggle mid-batch applies to the events after it
    relay.on_event(&RawEvent::Key { key: 0x1D, pressed: true });
    assert_eq!(relay.on_event(&events[0]), RelayAction::Ignore);
}

#[test]
fn failed_grab_keeps_the_relay_disabled() {
    let mut relay = RelayController::new(58);
    assert_eq!(relay.toggle_key(), 58);
    assert_eq!(relay.on_event(&RawEvent::Key { key: 58, pressed: true }), RelayAction::GrabDevices);
    relay.grab_finished(false);
    assert!(!relay.state().relay_enabled);
    assert!(!relay.state().suppress_local_input);
    assert_eq!(relay.on_event(&RawEvent::Key { key: 30, pressed: true }), RelayAction::Ignore);
}

#[test]
fn shutdown_reports_whether_devices_need_release() {
    let mut relay = RelayController::new(29);
    assert!(!relay.shutdown());
    relay.on_event(&RawEvent::Key { key: 29, pressed: true });
    relay.grab_finished(true);
    assert!(relay.shutdown());
    assert_eq!(relay.state(), RelayState::default());
}

#[test]
fn classification_from_bitmaps() {
    assert_eq!(
        classify(&[0, 0, 4], &[], &[]),
        Capability { keyboard: true, pointer_relative: false, pointer_absolute: false }
    );
    assert_eq!(
        classify(&[0; 96], &[0b10, 0], &[0b1000]),
        Capability { keyboard: false, pointer_relative: true, pointer_absolute: false }
    );
    assert_eq!(
        classify(&[], &[0b100], &[0b1]),
        Capability { keyboard: false, pointer_relative: false, pointer_absolute: true }
    );
    assert!(classify(&[], &[], &[]).none());
}

#[test]
fn devices_without_capability_are_not_eligible() {
    assert!(!is_eligible(&device("/dev/input/event3", Some("Mouse"), vec![0; 96], vec![0; 8], vec![0; 8])));
    assert!(!is_eligible(&device("/dev/input/event4", None, vec![], vec![], vec![])));
    assert!(is_eligible(&device("/dev/input/event5", Some("Logitech Mouse"), vec![], vec![3], vec![])));
    assert!(is_eligible(&device("/dev/input/event6", None, vec![1], vec![], vec![])));
}

#[test]
fn excluded_names_are_not_eligible() {
    for name in ["Virtual core keyboard", "py-evdev-UINPUT", "ASTERIA relay", "my virtual thing"] {
        assert!(is_excluded_name(name), "{}", name);
        assert!(!is_eligible(&device("/dev/input/event1", Some(name), vec![0xff; 96], vec![3], vec![3])));
    }
    assert!(!is_excluded_name("AT Translated Set 2 keyboard"));
    assert!(matches_exclusion_folded("virtual"));
    assert!(!matches_exclusion_folded("VIRTUAL"));
}

#[test]
fn names_come_from_the_query_buffer() {
    assert_eq!(device_name(b"Keyboard\0\0\0"), Some("Keyboard".to_string()));
    assert_eq!(device_name(b""), Some(String::new()));
    assert_eq!(device_name(&[0xff, 0xfe, 0]), None);
}

#[test]
fn event_nodes_by_file_name() {
    assert!(is_event_node("event0"));
    assert!(is_event_node("event12"));
    assert!(!is_event_node("mouse0"));
    assert!(!is_event_node("even"));
    assert!(!is_event_node("by-id"));
}

#[test]
fn eligible_paths_are_sorted() {
    let devices = vec![
        device("/dev/input/event3", Some("kbd"), vec![1], vec![], vec![]),
        device("/dev/input/event10", Some("mouse"), vec![], vec![1], vec![]),
        device("/dev/input/event1", Some("Virtual"), vec![1], vec![], vec![]),
        device("/dev/input/event2", None, vec![], vec![], vec![]),
        device("/dev/input/event0", Some("pad"), vec![], vec![], vec![2]),
    ];
    let paths = eligible_device_paths(&devices);
    assert_eq!(paths, vec!["/dev/input/event0", "/dev/input/event10", "/dev/input/event3"]);
    assert!(text_le_exec("a", "b"));
    assert!(text_le_exec("ab", "ab"));
    assert!(text_le_exec("ab", "abc"));
    assert!(!text_le_exec("b", "abc"));
}

#[test]
fn release_on_empty_set_is_a_no_op() {
    let mut m: CaptureManager<u32> = CaptureManager::new();
    assert!(m.release_all().is_empty());
    assert!(m.is_empty());
    assert!(m.release_all().is_empty());
}

#[test]
fn grabbed_devices_are_tracked_and_released() {
    let mut m: CaptureManager<String> = CaptureManager::new();
    assert_eq!(m.grab("/dev/input/event1".to_string(), "h1".to_string()), None);
    assert_eq!(m.grab("/dev/input/event2".to_string(), "h2".to_string()), None);
    assert_eq!(m.grab("/dev/input/event1".to_string(), "h3".to_string()), Some("h1".to_string()));
    assert_eq!(m.len(), 2);
    assert!(m.contains("/dev/input/event2"));
    assert!(!m.contains("/dev/input/event9"));
    assert_eq!(m.release_all(), vec!["/dev/input/event1".to_string(), "/dev/input/event2".to_string()]);
    assert_eq!(m.len(), 0);
}
