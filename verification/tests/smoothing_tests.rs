//! Tests for the smoothing queue: conservation, zero input, exact shares.

use editor_cam::linear::FxVec2;
use editor_cam::smoothing::InputQueue;

fn v2(x: i64, y: i64) -> FxVec2 {
    FxVec2 { x, y }
}

fn latest(q: &InputQueue) -> FxVec2 {
    q.latest_smoothed().expect("queue is never empty")
}

fn remaining_sum(q: &InputQueue) -> (i64, i64) {
    let mut sx: i64 = 0;
    let mut sy: i64 = 0;
    for e in &q.entries {
        sx += e.remaining.x;
        sy += e.remaining.y;
    }
    (sx, sy)
}

#[test]
fn first_sample_exact_share() {
    // At clock zero the seeded entries sit 16.667 ms apart, so a 40 ms window
    // covers two of them plus the new sample: the share is a third.
    let mut q = InputQueue::default();
    q.process_input(v2(9_000_000_000, -3_000_000_000), 40_000, 0);
    assert_eq!(latest(&q), v2(3_000_000_000, -1_000_000_000));
}

#[test]
fn tiny_window_passes_input_through() {
    // A window shorter than the seed spacing covers only the new sample.
    let mut q = InputQueue::default();
    q.process_input(v2(5_000_000_000, 7), 16_000, 0);
    assert_eq!(latest(&q), v2(5_000_000_000, 7));
}

#[test]
fn conservation_over_changing_windows() {
    // Feed samples at varying intervals with varying windows; the sum of the
    // smoothed outputs plus what the queue still owes equals the sum of the
    // raw inputs, exactly, at every step.
    let mut q = InputQueue::default();
    let feeds: [(i64, i64, u64, i64); 6] = [
        (4_000_000_000, -2_000_000_000, 40_000, 0),
        (1_000_000_001, 999_999_999, 80_000, 16_667),
        (-7_000_000_000, 123_456_789, 16_000, 33_334),
        (333_333_333, -1, 120_000, 50_001),
        (0, 0, 40_000, 66_668),
        (12_345, 678_910, 200_000, 83_335),
    ];
    let mut in_x: i64 = 0;
    let mut in_y: i64 = 0;
    let mut out_x: i64 = 0;
    let mut out_y: i64 = 0;
    for (x, y, window, now) in feeds {
        q.process_input(v2(x, y), window, now);
        let s = latest(&q);
        in_x += x;
        in_y += y;
        out_x += s.x;
        out_y += s.y;
        let (rx, ry) = remaining_sum(&q);
        assert_eq!(out_x + rx, in_x);
        assert_eq!(out_y + ry, in_y);
    }
}

#[test]
fn conservation_drains_once_window_passes() {
    // After the last real input leaves the window, feeding zeros pays out
    // everything: the total output converges to the total input exactly.
    let mut q = InputQueue::default();
    q.process_input(v2(10_000_000_000, -5_000_000_000), 40_000, 0);
    q.process_input(v2(2_000_000_000, 2_000_000_000), 40_000, 16_667);
    let mut out_x: i64 = 0;
    let mut out_y: i64 = 0;
    out_x += q.entries[1].smoothed_value.x + q.entries[0].smoothed_value.x;
    out_y += q.entries[1].smoothed_value.y + q.entries[0].smoothed_value.y;
    // Much later, a zero sample with a small window forces older entries to
    // pay out whatever was left.
    q.process_input(v2(0, 0), 16_000, 1_000_000);
    let s = latest(&q);
    out_x += s.x;
    out_y += s.y;
    assert_eq!(out_x, 12_000_000_000);
    assert_eq!(out_y, -3_000_000_000);
}

#[test]
fn zero_input_yields_zero_output() {
    // Feeding zeros for longer than the window makes the smoothed output
    // exactly zero again.
    let mut q = InputQueue::default();
    q.process_input(v2(8_000_000_000, 1_000_000_000), 40_000, 0);
    let mut now: i64 = 16_667;
    for _ in 0..8 {
        q.process_input(v2(0, 0), 40_000, now);
        now += 16_667;
    }
    assert_eq!(latest(&q), v2(0, 0));
}

#[test]
fn average_smoothed_value_is_exact_mean() {
    let mut q = InputQueue::default();
    q.process_input(v2(6_000_000_000, 0), 16_000, 0);
    // The second window covers the first entry, which has already paid out
    // everything, so only the new sample's half-share is smoothed in.
    q.process_input(v2(12_000_000_000, 0), 16_000, 10);
    assert_eq!(latest(&q).x, 6_000_000_000);
    // Both real entries are newer than one millisecond; the seeds are not.
    let avg = q.average_smoothed_value(1_000, 20);
    assert_eq!(avg.x, 6_000_000_000);
    assert_eq!(avg.y, 0);
}

#[test]
fn average_of_nothing_is_zero() {
    let q = InputQueue::default();
    // Window zero strictly precedes every entry.
    let avg = q.average_smoothed_value(0, 100);
    assert_eq!(avg, v2(0, 0));
}

#[test]
fn approx_smoothed_abs_averages_magnitudes() {
    let mut q = InputQueue::default();
    q.process_input(v2(-4_000_000_000, 0), 16_000, 0);
    q.process_input(v2(2_000_000_000, 0), 16_000, 10);
    let a = q.approx_smoothed_abs_x(1_000, 20);
    assert_eq!(a, 3_000_000_000);
}

#[test]
fn iterators_report_times_and_values() {
    let mut q = InputQueue::default();
    q.process_input(v2(1_000, 2_000), 16_000, 42);
    let sm = q.iter_smoothed();
    let raw = q.iter_unsmoothed();
    assert_eq!(sm.len(), q.entries.len());
    assert_eq!(raw.len(), q.entries.len());
    assert_eq!(sm[0].0, 42);
    assert_eq!(raw[0].1, v2(1_000, 2_000));
}

#[test]
fn queue_capacity_is_bounded() {
    let mut q = InputQueue::default();
    let mut now: i64 = 0;
    for _ in 0..600 {
        q.process_input(v2(1, 1), 16_000, now);
        now += 1_000;
    }
    assert_eq!(q.entries.len(), 256);
}

#[test]
fn conservation_holds_when_the_window_spans_the_whole_queue() {
    // Fill the queue to capacity, then keep feeding with a window so large it
    // covers all 256 entries: the entry evicted at capacity must have been
    // drained first, so the conservation identity still holds exactly.
    let mut q = InputQueue::default();
    let mut in_x: i64 = 0;
    let mut out_x: i64 = 0;
    let mut now: i64 = 0;
    for _ in 0..300 {
        q.process_input(v2(3_333_333_337, 0), 1_000, now);
        in_x += 3_333_333_337;
        out_x += latest(&q).x;
        now += 1_000;
    }
    let huge_window: u64 = 1 << 40;
    for _ in 0..20 {
        q.process_input(v2(7_777_777_771, 0), huge_window, now);
        in_x += 7_777_777_771;
        out_x += latest(&q).x;
        let (rx, _) = remaining_sum(&q);
        assert_eq!(out_x + rx, in_x);
        assert_eq!(q.entries.len(), 256);
        now += 1_000;
    }
}

#[test]
fn zero_feed_stays_zero_for_any_window() {
    // Once the queue owes nothing, an all-zero feed outputs exactly zero at
    // every step, whatever the windows and timings.
    let mut q = InputQueue::default();
    q.process_input(v2(9_999_999_999, -1), 40_000, 0);
    let mut now: i64 = 16_667;
    for _ in 0..8 {
        q.process_input(v2(0, 0), 40_000, now);
        now += 16_667;
    }
    let (rx, ry) = remaining_sum(&q);
    assert_eq!((rx, ry), (0, 0));
    let windows: [u64; 5] = [0, 123, 16_000, 1 << 30, 1 << 45];
    for (k, w) in windows.iter().enumerate() {
        q.process_input(v2(0, 0), *w, now + k as i64 * 7);
        assert_eq!(latest(&q), v2(0, 0));
    }
}
