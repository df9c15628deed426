use wifi_rssi::event::Event;
use wifi_rssi::legend::{keybinds, legend_fits, legend_hitboxes, hit_test, HitRect, LegendAction};
use wifi_rssi::monitor::{window_preset_secs, AppState, FastCommand};
use wifi_rssi::status::{ConnectedAp, FastStatus, SampleRate};

const SEC: u128 = 1_000_000_000;

fn ap(ssid: &str, mac: &str) -> ConnectedAp {
    ConnectedAp { ssid: ssid.to_string(), mac: mac.to_string() }
}

#[test]
fn starts_with_the_default_window_and_no_target() {
    let st = AppState::new();
    assert!(!st.should_exit());
    assert_eq!(st.window_secs(), 30);
    assert_eq!(st.samples().window(), 30 * SEC);
    assert_eq!(st.samples().len(), 0);
    assert!(st.fast_target().is_none());
    assert_eq!(st.generation(), 0);
    assert!(matches!(st.fast_status(), FastStatus::NotConnected));
    assert_eq!(st.target_label(), "no network connected");
}

#[test]
fn presets_are_ten_thirty_sixty_and_a_hundred_twenty_seconds() {
    let secs: Vec<u64> = (0..4).map(window_preset_secs).collect();
    assert_eq!(secs, vec![10, 30, 60, 120]);
}

#[test]
fn quit_asks_the_sampler_to_shut_down() {
    let mut st = AppState::new();
    assert_eq!(st.handle_event(Event::Quit, 0), Some(FastCommand::Shutdown));
    assert!(st.should_exit());
}

#[test]
fn tick_changes_nothing() {
    let mut st = AppState::new();
    assert_eq!(st.handle_event(Event::Tick, 5 * SEC), None);
    assert!(!st.should_exit());
    assert_eq!(st.samples().len(), 0);
}

#[test]
fn a_sample_from_a_previous_target_is_dropped() {
    let mut st = AppState::new();
    st.handle_event(Event::FastTarget { target: Some(ap("home", "aa:bb")), generation: 1 }, 0);
    st.handle_event(Event::FastSample { generation: 1, dbm: -40 }, SEC);
    assert_eq!(st.samples().len(), 1);
    st.handle_event(Event::FastTarget { target: Some(ap("work", "cc:dd")), generation: 2 }, 2 * SEC);
    assert_eq!(st.samples().len(), 0);
    assert_eq!(st.generation(), 2);
    // Still in flight from the previous target.
    st.handle_event(Event::FastSample { generation: 1, dbm: -41 }, 3 * SEC);
    assert_eq!(st.samples().len(), 0);
    st.handle_event(Event::FastSample { generation: 2, dbm: -42 }, 4 * SEC);
    assert_eq!(st.samples().samples(), vec![(4 * SEC, -42)]);
    assert_eq!(st.target_label(), "work [cc:dd]");
}

#[test]
fn status_events_replace_the_status() {
    let mut st = AppState::new();
    let rate = SampleRate { samples: 40, over_nanos: 2 * SEC };
    st.handle_event(Event::FastStatus(FastStatus::Sampling { rate }), 0);
    assert!(matches!(st.fast_status(), FastStatus::Sampling { rate: r } if *r == rate));
    st.handle_event(Event::FastStatus(FastStatus::Error("no adapter".to_string())), 0);
    assert_eq!(st.fast_status().error_text(), "no adapter");
}

#[test]
fn cycling_walks_the_presets_and_comes_back() {
    let mut st = AppState::new();
    let mut seen = vec![];
    for _ in 0..4 {
        st.handle_event(Event::CycleWindow, 0);
        seen.push(st.window_secs());
        assert_eq!(st.samples().window(), st.window_secs() as u128 * SEC);
    }
    assert_eq!(seen, vec![60, 120, 10, 30]);
}

#[test]
fn cycling_to_a_narrower_window_trims_at_once() {
    let mut st = AppState::new();
    st.handle_event(Event::CycleWindow, 0);
    st.handle_event(Event::CycleWindow, 0);
    assert_eq!(st.window_secs(), 120);
    for i in 0..=100u128 {
        st.handle_event(Event::FastSample { generation: 0, dbm: -50 }, i * SEC);
    }
    assert_eq!(st.samples().len(), 101);
    st.handle_event(Event::CycleWindow, 0);
    assert_eq!(st.window_secs(), 10);
    assert_eq!(st.samples().len(), 11);
}

#[test]
fn clicks_hit_the_legend_entries() {
    let mut st = AppState::new();
    st.layout_legend(2, 20);
    assert_eq!(
        st.legend_hitboxes(),
        &vec![
            (HitRect { x: 2, y: 20, width: 16, height: 1 }, LegendAction::CycleWindow),
            (HitRect { x: 19, y: 20, width: 8, height: 1 }, LegendAction::Quit),
        ]
    );
    // Left of the legend, the blank cell between entries, and the row above do nothing.
    assert_eq!(st.handle_event(Event::Click { x: 1, y: 20 }, 0), None);
    assert_eq!(st.handle_event(Event::Click { x: 18, y: 20 }, 0), None);
    assert_eq!(st.handle_event(Event::Click { x: 5, y: 19 }, 0), None);
    assert_eq!(st.window_secs(), 30);
    assert_eq!(st.handle_event(Event::Click { x: 17, y: 20 }, 0), None);
    assert_eq!(st.window_secs(), 60);
    assert!(!st.should_exit());
    assert_eq!(st.handle_event(Event::Click { x: 26, y: 20 }, 0), Some(FastCommand::Shutdown));
    assert!(st.should_exit());
}

#[test]
fn clicks_before_any_draw_do_nothing() {
    let mut st = AppState::new();
    assert_eq!(st.handle_click(2, 20), None);
    assert_eq!(st.window_secs(), 30);
}

#[test]
fn the_legend_reads_w_then_q() {
    let binds = keybinds();
    assert_eq!(binds.len(), 2);
    assert_eq!((binds[0].key, binds[0].label, binds[0].action), ("w", "cycle window", LegendAction::CycleWindow));
    assert_eq!((binds[1].key, binds[1].label, binds[1].action), ("q", "quit", LegendAction::Quit));
}

#[test]
fn the_legend_must_fit_on_the_row() {
    assert!(legend_fits(0));
    assert!(legend_fits(u16::MAX - 26));
    assert!(!legend_fits(u16::MAX - 25));
}

#[test]
fn legend_on_the_last_row_is_cut_to_nothing() {
    // The rectangle is cut so it ends inside the coordinate range: on the last row it has no
    // height, so nothing there can be clicked.
    let boxes = legend_hitboxes(0, u16::MAX);
    assert_eq!(boxes[0].0, HitRect { x: 0, y: u16::MAX, width: 16, height: 0 });
    assert_eq!(hit_test(&boxes, 3, u16::MAX), None);
    assert_eq!(hit_test(&boxes, 3, u16::MAX - 1), None);
}

#[test]
fn hit_test_takes_the_first_box_that_holds_the_cell() {
    let boxes = vec![
        (HitRect { x: 0, y: 0, width: 10, height: 10 }, LegendAction::Quit),
        (HitRect { x: 5, y: 5, width: 10, height: 10 }, LegendAction::CycleWindow),
    ];
    assert_eq!(hit_test(&boxes, 6, 6), Some(LegendAction::Quit));
    assert_eq!(hit_test(&boxes, 12, 12), Some(LegendAction::CycleWindow));
    assert_eq!(hit_test(&boxes, 15, 15), None);
    // The right edge saturates at the end of the coordinate range.
    let edge = vec![(HitRect { x: u16::MAX - 1, y: 0, width: 10, height: 1 }, LegendAction::Quit)];
    assert_eq!(hit_test(&edge, u16::MAX - 1, 0), Some(LegendAction::Quit));
    assert_eq!(hit_test(&edge, u16::MAX, 0), None);
}
