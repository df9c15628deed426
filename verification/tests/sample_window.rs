use std::time::Duration;

use wifi_rssi::window::SampleWindow;

fn secs(s: f64) -> u128 {
    Duration::from_secs_f64(s).as_nanos()
}

fn bounds_x(w: &SampleWindow) -> [f64; 2] {
    let (start, end) = w.bounds_x_nanos();
    [start as f64 / 1e9, end as f64 / 1e9]
}

fn bounds_y(w: &SampleWindow) -> [f64; 2] {
    let (lo, hi) = w.bounds_y_half_dbm();
    [lo as f64 / 2.0, hi as f64 / 2.0]
}

fn points(w: &SampleWindow) -> Vec<(f64, f64)> {
    w.samples().iter().map(|&(t, v)| (t as f64 / 1e9, v as f64)).collect()
}

const MIN_Y_SPAN: f64 = 10.0;

#[test]
fn evicts_samples_older_than_the_window() {
    let mut w = SampleWindow::new(secs(10.0));
    for i in 0..=20 {
        w.push(secs(i as f64), -50);
    }
    // Newest is at t=20, so only t=10..=20 may remain.
    assert_eq!(w.len(), 11);
    assert_eq!(w.oldest().unwrap().0, secs(10.0));
    assert_eq!(w.newest().unwrap().0, secs(20.0));
}

#[test]
fn shrinking_the_window_evicts_immediately() {
    let mut w = SampleWindow::new(secs(60.0));
    for i in 0..=20 {
        w.push(secs(i as f64), -50);
    }
    assert_eq!(w.len(), 21);
    w.set_window(secs(5.0));
    assert_eq!(w.len(), 6);
}

#[test]
fn bounds_x_scrolls_at_constant_width() {
    let mut w = SampleWindow::new(secs(30.0));
    w.push(secs(100.0), -50);
    assert_eq!(bounds_x(&w), [70.0, 100.0]);
}

#[test]
fn bounds_y_widens_in_both_directions() {
    let mut w = SampleWindow::new(secs(60.0));
    // Both later values extend the range that the first one seeded, one in each direction.
    for v in [-50, -70, -30] {
        w.push(secs(0.0), v);
    }
    assert_eq!(bounds_y(&w), [-72.0, -28.0]);
}

#[test]
fn bounds_y_enforces_a_minimum_span() {
    let mut w = SampleWindow::new(secs(60.0));
    w.push(secs(0.0), -60);
    let [min, max] = bounds_y(&w);
    assert!((max - min - MIN_Y_SPAN).abs() < f64::EPSILON, "{min}..{max}");
    assert!(min >= -100.0 && max <= 0.0);
}

#[test]
fn bounds_y_stays_inside_the_dbm_range() {
    let mut w = SampleWindow::new(secs(60.0));
    w.push(secs(0.0), -100);
    w.push(secs(1.0), -99);
    let [min, max] = bounds_y(&w);
    assert!(min >= -100.0 && max <= 0.0, "{min}..{max}");
    assert!(max - min >= MIN_Y_SPAN);
}

#[test]
fn clear_empties_the_series() {
    let mut w = SampleWindow::new(secs(30.0));
    w.push(secs(1.0), -50);
    w.clear();
    assert_eq!(w.len(), 0);
    assert!(points(&w).is_empty());
    assert_eq!(bounds_y(&w), [-100.0, 0.0]);
}

#[test]
fn bounds_x_of_an_empty_window_end_at_zero() {
    let w = SampleWindow::new(secs(10.0));
    assert_eq!(w.bounds_x_nanos(), (-10_000_000_000, 0));
}

#[test]
fn bounds_y_recentres_near_the_top_of_the_range() {
    // -1 padded is -3..0 (clamped at the top): span 3, centre -1.5, kept at -5 -> -10..0.
    let mut w = SampleWindow::new(secs(60.0));
    w.push(secs(0.0), -1);
    assert_eq!(w.bounds_y_half_dbm(), (-20, 0));
}

#[test]
fn bounds_y_recentres_on_a_half_dbm_midpoint() {
    // -61..-60 padded is -63..-58: span 5, centre -60.5 -> -65.5..-55.5.
    let mut w = SampleWindow::new(secs(60.0));
    w.push(secs(0.0), -61);
    w.push(secs(0.0), -60);
    assert_eq!(bounds_y(&w), [-65.5, -55.5]);
}

#[test]
fn bounds_y_clamps_out_of_range_readings() {
    let mut w = SampleWindow::new(secs(60.0));
    w.push(secs(0.0), -150);
    w.push(secs(0.0), 20);
    assert_eq!(bounds_y(&w), [-100.0, 0.0]);
}

#[test]
fn the_newest_sample_always_survives() {
    let mut w = SampleWindow::new(0);
    w.push(secs(1.0), -40);
    w.push(secs(5.0), -41);
    assert_eq!(w.len(), 1);
    assert_eq!(w.newest(), Some((secs(5.0), -41)));
}

#[test]
fn a_sample_from_the_past_does_not_evict() {
    // Trimming only looks back from the newest sample; an older one pushed later stays.
    let mut w = SampleWindow::new(secs(10.0));
    w.push(secs(100.0), -40);
    w.push(secs(1.0), -41);
    assert_eq!(w.len(), 2);
    assert_eq!(w.oldest(), Some((secs(100.0), -40)));
}

#[test]
fn widening_the_window_keeps_every_sample() {
    let mut w = SampleWindow::new(secs(5.0));
    for i in 0..=10 {
        w.push(secs(i as f64), -50);
    }
    assert_eq!(w.len(), 6);
    w.set_window(secs(120.0));
    assert_eq!(w.len(), 6);
    assert_eq!(w.window(), secs(120.0));
}

#[test]
fn samples_come_oldest_first() {
    let mut w = SampleWindow::new(secs(30.0));
    w.push(secs(1.0), -50);
    w.push(secs(2.0), -51);
    assert_eq!(w.samples(), vec![(secs(1.0), -50), (secs(2.0), -51)]);
    assert_eq!(points(&w), vec![(1.0, -50.0), (2.0, -51.0)]);
}
