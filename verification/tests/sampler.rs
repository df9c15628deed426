use wifi_rssi::event::Event;
use wifi_rssi::monitor::AppState;
use wifi_rssi::sampler::{FastSampler, Probe};
use wifi_rssi::status::{ConnectedAp, FastStatus, SampleRate};

const SEC: u128 = 1_000_000_000;

fn ap(ssid: &str, mac: &str) -> ConnectedAp {
    ConnectedAp { ssid: ssid.to_string(), mac: mac.to_string() }
}

fn target_of(e: &Event) -> Option<(Option<(String, String)>, u64)> {
    match e {
        Event::FastTarget { target, generation } => {
            Some((target.as_ref().map(|a| (a.ssid.clone(), a.mac.clone())), *generation))
        }
        _ => None,
    }
}

#[test]
fn first_check_is_due_at_once_and_then_every_two_seconds() {
    let mut s = FastSampler::new();
    assert!(s.check_due(0));
    s.check(10 * SEC, Probe::NotConnected, true);
    assert!(!s.check_due(11 * SEC));
    assert!(!s.check_due(5 * SEC));
    assert!(s.check_due(12 * SEC));
}

#[test]
fn connecting_announces_a_new_target_with_the_next_generation() {
    let mut s = FastSampler::new();
    let probe = Probe::Connected(ap("home", "aa:bb"));
    assert!(s.would_retarget(&probe));
    let events = s.check(0, probe, true);
    assert_eq!(events.len(), 2);
    assert_eq!(target_of(&events[0]), Some((Some(("home".to_string(), "aa:bb".to_string())), 1)));
    match &events[1] {
        Event::FastStatus(FastStatus::Sampling { rate }) => {
            // Nothing measured yet: one reading per 50 ms.
            assert_eq!(*rate, SampleRate { samples: 1, over_nanos: 50_000_000 });
        }
        other => panic!("unexpected {other:?}"),
    }
    assert!(s.wants_sample());
    assert_eq!(s.current_generation(), 1);
}

#[test]
fn the_same_target_is_not_announced_again() {
    let mut s = FastSampler::new();
    s.check(0, Probe::Connected(ap("home", "aa:bb")), true);
    assert!(!s.would_retarget(&Probe::Connected(ap("home", "aa:bb"))));
    let events = s.check(2 * SEC, Probe::Connected(ap("home", "aa:bb")), true);
    assert_eq!(events.len(), 1);
    assert_eq!(s.current_generation(), 1);
}

#[test]
fn a_different_mac_is_a_different_target() {
    let mut s = FastSampler::new();
    s.check(0, Probe::Connected(ap("home", "aa:bb")), true);
    let events = s.check(2 * SEC, Probe::Connected(ap("home", "aa:cc")), true);
    assert_eq!(target_of(&events[0]), Some((Some(("home".to_string(), "aa:cc".to_string())), 2)));
}

#[test]
fn the_rate_is_measured_over_the_time_since_the_last_check() {
    let mut s = FastSampler::new();
    s.check(0, Probe::Connected(ap("home", "aa:bb")), true);
    for dbm in [-40, -41, -42] {
        assert!(matches!(s.record_sample(dbm), Event::FastSample { generation: 1, dbm: d } if d == dbm));
    }
    assert_eq!(s.readings_since_check(), 3);
    let events = s.check(3 * SEC, Probe::Connected(ap("home", "aa:bb")), true);
    match &events[0] {
        Event::FastStatus(FastStatus::Sampling { rate }) => {
            assert_eq!(*rate, SampleRate { samples: 3, over_nanos: 3 * SEC });
        }
        other => panic!("unexpected {other:?}"),
    }
    assert_eq!(s.readings_since_check(), 0);
}

#[test]
fn disconnecting_stops_sampling() {
    let mut s = FastSampler::new();
    s.check(0, Probe::Connected(ap("home", "aa:bb")), true);
    let events = s.check(2 * SEC, Probe::NotConnected, true);
    assert_eq!(target_of(&events[0]), Some((None, 2)));
    assert!(matches!(events[1], Event::FastStatus(FastStatus::NotConnected)));
    assert!(!s.wants_sample());
}

#[test]
fn without_a_live_rssi_the_platform_is_unsupported() {
    let mut s = FastSampler::new();
    let events = s.check(0, Probe::NotConnected, false);
    assert_eq!(events.len(), 1);
    assert!(matches!(events[0], Event::FastStatus(FastStatus::Unsupported)));
    assert_eq!(s.current_generation(), 0);
}

#[test]
fn a_session_error_is_reported() {
    let mut s = FastSampler::new();
    let events = s.check(0, Probe::SessionError("no wlan".to_string()), true);
    assert_eq!(events.len(), 1);
    match &events[0] {
        Event::FastStatus(FastStatus::Error(e)) => assert_eq!(e, "no wlan"),
        other => panic!("unexpected {other:?}"),
    }
    assert!(!s.wants_sample());
}

#[test]
fn readings_in_flight_for_an_old_target_never_land() {
    let mut s = FastSampler::new();
    let mut app = AppState::new();
    for e in s.check(0, Probe::Connected(ap("home", "aa:bb")), true) {
        app.handle_event(e, 0);
    }
    let in_flight = s.record_sample(-40);
    for e in s.check(2 * SEC, Probe::Connected(ap("work", "cc:dd")), true) {
        app.handle_event(e, 2 * SEC);
    }
    app.handle_event(in_flight, 3 * SEC);
    assert_eq!(app.samples().len(), 0);
    let fresh = s.record_sample(-60);
    app.handle_event(fresh, 4 * SEC);
    assert_eq!(app.samples().samples(), vec![(4 * SEC, -60)]);
}

#[test]
fn a_run_numbers_its_targets_and_tags_its_readings() {
    let mut s = FastSampler::new();
    let mut events = Vec::new();
    let probes = [
        Probe::NotConnected,
        Probe::Connected(ap("home", "aa:bb")),
        Probe::Connected(ap("home", "aa:bb")),
        Probe::Connected(ap("work", "cc:dd")),
        Probe::NotConnected,
        Probe::Connected(ap("home", "aa:bb")),
    ];
    for (k, probe) in probes.into_iter().enumerate() {
        events.extend(s.check(k as u128 * 2 * SEC, probe, true));
        if s.wants_sample() {
            events.push(s.record_sample(-40 - k as i32));
        }
    }
    let mut announced = 0u64;
    let mut last_target: Option<(bool, u64)> = None;
    let mut sampling = false;
    for (i, e) in events.iter().enumerate() {
        match e {
            Event::FastTarget { target, generation } => {
                announced += 1;
                assert_eq!(*generation, announced);
                assert!(matches!(events[i + 1], Event::FastStatus(_)));
                last_target = Some((target.is_some(), *generation));
            }
            Event::FastStatus(status) => sampling = matches!(status, FastStatus::Sampling { .. }),
            Event::FastSample { generation, .. } => {
                assert_eq!(last_target, Some((true, *generation)));
                assert!(sampling);
            }
            _ => unreachable!(),
        }
    }
    assert_eq!(announced, 4);
}
