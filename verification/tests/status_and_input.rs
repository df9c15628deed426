use wifi_rssi::event::{event_for_input, key_event_for, Event, InputEvent};
use wifi_rssi::status::{same_ap, ConnectedAp, FastStatus, SampleRate};

#[test]
fn q_and_w_in_either_case_are_the_only_keys() {
    assert!(matches!(key_event_for(Some('q')), Some(Event::Quit)));
    assert!(matches!(key_event_for(Some('Q')), Some(Event::Quit)));
    assert!(matches!(key_event_for(Some('w')), Some(Event::CycleWindow)));
    assert!(matches!(key_event_for(Some('W')), Some(Event::CycleWindow)));
    assert!(key_event_for(Some('x')).is_none());
    assert!(key_event_for(None).is_none());
}

#[test]
fn only_key_presses_count() {
    assert!(matches!(event_for_input(InputEvent::Key { ch: Some('q'), press: true }), Some(Event::Quit)));
    assert!(event_for_input(InputEvent::Key { ch: Some('q'), press: false }).is_none());
}

#[test]
fn a_left_press_is_a_click_where_it_happened() {
    assert!(matches!(
        event_for_input(InputEvent::Mouse { left_down: true, column: 7, row: 3 }),
        Some(Event::Click { x: 7, y: 3 })
    ));
    assert!(event_for_input(InputEvent::Mouse { left_down: false, column: 7, row: 3 }).is_none());
    assert!(event_for_input(InputEvent::Other).is_none());
}

#[test]
fn fixed_statuses_describe_themselves() {
    assert_eq!(
        FastStatus::NotConnected.describe().unwrap(),
        "not connected to this AP - only the connected AP can be sampled fast"
    );
    assert_eq!(FastStatus::Unsupported.describe().unwrap(), "fast sampling unsupported on this platform");
    assert_eq!(FastStatus::Error("boom".to_string()).describe().unwrap(), "error: boom");
    let rate = SampleRate { samples: 1, over_nanos: 50_000_000 };
    assert!(FastStatus::Sampling { rate }.describe().is_none());
    assert!(FastStatus::Sampling { rate }.is_sampling());
    assert!(!FastStatus::NotConnected.is_sampling());
}

#[test]
fn only_an_error_has_error_text() {
    assert_eq!(FastStatus::Error("boom".to_string()).error_text(), "boom");
    assert_eq!(FastStatus::Unsupported.error_text(), "");
}

#[test]
fn access_points_are_the_same_when_ssid_and_mac_are() {
    let a = Some(ConnectedAp { ssid: "x".to_string(), mac: "1".to_string() });
    let b = Some(ConnectedAp { ssid: "x".to_string(), mac: "1".to_string() });
    let c = Some(ConnectedAp { ssid: "x".to_string(), mac: "2".to_string() });
    assert!(same_ap(&a, &b));
    assert!(!same_ap(&a, &c));
    assert!(!same_ap(&a, &None));
    assert!(same_ap(&None, &None));
}
