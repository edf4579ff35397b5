use diagnostic_updater_rs::{
    DelayTexts, DiagnosticStatusWrapper, FrequencyBand, FrequencyStatus, KeyValue,
    TimeStampStatus, WindowSample,
};

const MS: i64 = 1_000_000;

fn band(sample: &WindowSample, min_freq: f64, max_freq: f64, tolerance: f64) -> FrequencyBand {
    let freq = sample.events as f64 / (sample.window_ns as f64 * 1e-9);
    if freq < min_freq * (1.0 - tolerance) {
        FrequencyBand::TooLow
    } else if freq > max_freq * (1.0 + tolerance) {
        FrequencyBand::TooHigh
    } else {
        FrequencyBand::Met
    }
}

fn run_frequency(
    f: &mut FrequencyStatus,
    stat: &mut DiagnosticStatusWrapper,
    now_ns: i64,
    min_freq: f64,
    max_freq: f64,
    tolerance: f64,
) -> WindowSample {
    assert!(f.can_advance(now_ns));
    let sample = f.advance_window(now_ns);
    let b = band(&sample, min_freq, max_freq, tolerance);
    let freq = sample.events as f64 / (sample.window_ns as f64 * 1e-9);
    f.report(stat, &sample, &b, &format!("{}", freq), &Vec::new());
    sample
}

#[test]
fn test_frequency_status() {
    let min_freq = 10.0;
    let max_freq = 20.0;
    let tolerance = 0.5;
    let t0: i64 = 1_000 * MS;
    let mut freq_status = FrequencyStatus::new(2, t0);
    let mut stats: Vec<DiagnosticStatusWrapper> = (0..5).map(|_| DiagnosticStatusWrapper::default()).collect();
    freq_status.tick();
    // Too fast: 20 ms for 1 tick, lower limit 33 ms.
    run_frequency(&mut freq_status, &mut stats[0], t0 + 20 * MS, min_freq, max_freq, tolerance);
    freq_status.tick();
    // Good: 70 ms for 2 ticks, lower limit 66 ms.
    run_frequency(&mut freq_status, &mut stats[1], t0 + 70 * MS, min_freq, max_freq, tolerance);
    freq_status.tick();
    // Good: 350 ms for 2 ticks, upper limit 400 ms.
    run_frequency(&mut freq_status, &mut stats[2], t0 + 370 * MS, min_freq, max_freq, tolerance);
    freq_status.tick();
    // Too slow: 450 ms for 2 ticks, upper limit 400 ms.
    run_frequency(&mut freq_status, &mut stats[3], t0 + 520 * MS, min_freq, max_freq, tolerance);
    freq_status.clear(t0 + 520 * MS);
    // Just cleared.
    run_frequency(&mut freq_status, &mut stats[4], t0 + 520 * MS, min_freq, max_freq, tolerance);

    assert_eq!(1, stats[0].status.level, "max frequency exceeded but not reported");
    assert_eq!(0, stats[1].status.level, "within max frequency but reported error");
    assert_eq!(0, stats[2].status.level, "within min frequency but reported error");
    assert_eq!(1, stats[3].status.level, "min frequency exceeded but not reported");
    assert_eq!(2, stats[4].status.level, "freshly cleared should fail");
    assert_eq!("", stats[0].status.name, "Name should not be set by FrequencyStatus");
    assert_eq!(
        "Frequency Status",
        freq_status.get_name(),
        "Name should be \"Frequency Status\""
    );
}

#[test]
fn frequency_window_counts_events_per_slot() {
    let mut f = FrequencyStatus::with_name(2, "freq", 100);
    assert_eq!(f.get_name(), "freq");
    f.tick();
    let s = f.advance_window(200);
    assert_eq!((s.events, s.window_ns), (1, 100));
    f.tick();
    let s = f.advance_window(300);
    assert_eq!((s.events, s.window_ns), (2, 200));
    let s = f.advance_window(400);
    assert_eq!((s.events, s.window_ns), (1, 200));
    assert_eq!(f.count(), 2);
}

#[test]
fn frequency_without_slot_cannot_advance() {
    let f = FrequencyStatus::new(0, 0);
    assert!(!f.can_advance(10));
    let g = FrequencyStatus::new(1, i64::MIN);
    assert!(!g.can_advance(1));
    assert!(g.can_advance(-1));
}

#[test]
fn frequency_report_lists_the_values() {
    let mut f = FrequencyStatus::new(1, 0);
    f.tick();
    f.tick();
    let sample = f.advance_window(-5);
    assert_eq!(sample.window_ns, -5);
    let mut stat = DiagnosticStatusWrapper::default();
    let limits = vec![KeyValue {
        key: "Minimum acceptable frequency (Hz)".to_string(),
        value: "5".to_string(),
    }];
    f.report(&mut stat, &sample, &FrequencyBand::TooLow, "12.5", &limits);
    assert_eq!(stat.status.level, 1);
    assert_eq!(stat.status.message, "Frequency too low.");
    let pairs: Vec<(&str, &str)> = stat
        .status
        .values
        .iter()
        .map(|kv| (kv.key.as_str(), kv.value.as_str()))
        .collect();
    assert_eq!(
        pairs,
        vec![
            ("Events in window", "2"),
            ("Events since startup", "2"),
            ("Duration of window (s)", "-5"),
            ("Actual frequency (Hz)", "12.5"),
            ("Minimum acceptable frequency (Hz)", "5"),
        ]
    );
    let mut high = DiagnosticStatusWrapper::default();
    f.report(&mut high, &sample, &FrequencyBand::TooHigh, "x", &Vec::new());
    assert_eq!((high.status.level, high.status.message.as_str()), (1, "Frequency too high."));
    let mut met = DiagnosticStatusWrapper::default();
    f.report(&mut met, &sample, &FrequencyBand::Met, "x", &Vec::new());
    assert_eq!((met.status.level, met.status.message.as_str()), (0, "Desired frequency met"));
    let none = WindowSample { events: 0, window_ns: 1 };
    let mut empty = DiagnosticStatusWrapper::default();
    f.report(&mut empty, &none, &FrequencyBand::Met, "0", &Vec::new());
    assert_eq!((empty.status.level, empty.status.message.as_str()), (2, "No events recorded."));
}

fn texts(t: &TimeStampStatus) -> DelayTexts {
    DelayTexts {
        earliest: format!("{}", t.min_delta_ns() as f64 * 1e-9),
        latest: format!("{}", t.max_delta_ns() as f64 * 1e-9),
        earliest_acceptable: "-1".to_string(),
        latest_acceptable: "5".to_string(),
    }
}

fn run_timestamp(t: &mut TimeStampStatus, stat: &mut DiagnosticStatusWrapper) {
    assert!(t.can_run());
    let x = texts(t);
    t.run(stat, &x);
}

#[test]
fn test_timestamp_status() {
    let mut ts_status = TimeStampStatus::new(-1_000_000_000, 5_000_000_000);
    let now: i64 = 1_700_000_000_000_000_000;

    let mut stats: Vec<DiagnosticStatusWrapper> = (0..5).map(|_| DiagnosticStatusWrapper::default()).collect();
    run_timestamp(&mut ts_status, &mut stats[0]); // No data
    ts_status.tick(now + 2_000_000_000, now);
    run_timestamp(&mut ts_status, &mut stats[1]); // Too far in future
    ts_status.tick(now, now);
    run_timestamp(&mut ts_status, &mut stats[2]); // Now
    ts_status.tick(now - 4_000_000_000, now);
    run_timestamp(&mut ts_status, &mut stats[3]); // 4 seconds ago
    ts_status.tick(now - 6_000_000_000, now);
    run_timestamp(&mut ts_status, &mut stats[4]); // Too far in past

    assert_eq!(1, stats[0].status.level, "no data should return a warning");
    assert_eq!(2, stats[1].status.level, "too far future not reported");
    assert_eq!(0, stats[2].status.level, "now not accepted");
    assert_eq!(0, stats[3].status.level, "4 seconds ago not accepted");
    assert_eq!(2, stats[4].status.level, "too far past not reported");
    assert_eq!("", stats[0].status.name, "Name should not be set by TimeStampStatus");
    assert_eq!(
        "Timestamp Status",
        ts_status.get_name(),
        "Name should be \"Timestamp Status\""
    );
}

#[test]
fn timestamp_tracks_extreme_delays() {
    let mut t = TimeStampStatus::with_name(-10, 10, "stamps");
    assert_eq!(t.get_name(), "stamps");
    t.tick(95, 100);
    t.tick(103, 100);
    t.tick(80, 100);
    assert_eq!(t.min_delta_ns(), -3);
    assert_eq!(t.max_delta_ns(), 20);
    let mut stat = DiagnosticStatusWrapper::default();
    run_timestamp(&mut t, &mut stat);
    assert_eq!(stat.status.level, 2);
    assert_eq!(stat.status.message, "Timestamps too far in past seen.");
    let pairs: Vec<(&str, &str)> = stat
        .status
        .values
        .iter()
        .map(|kv| (kv.key.as_str(), kv.value.as_str()))
        .collect();
    assert_eq!(pairs[4], ("Late diagnostic update count:", "1"));
    assert_eq!(pairs[5], ("Early diagnostic update count:", "0"));
    assert_eq!(pairs[6], ("Zero seen diagnostic update count:", "0"));
    assert_eq!(t.min_delta_ns(), 0);
    assert_eq!(t.max_delta_ns(), 0);
}

#[test]
fn timestamp_zero_stamp_is_reported_only_with_data() {
    let mut t = TimeStampStatus::new(-1_000_000_000, 5_000_000_000);
    t.tick(0, 500);
    let mut alone = DiagnosticStatusWrapper::default();
    run_timestamp(&mut t, &mut alone);
    assert_eq!((alone.status.level, alone.status.message.as_str()), (1, "No data since last update."));
    t.tick(0, 500);
    t.tick(400, 500);
    let mut with_data = DiagnosticStatusWrapper::default();
    run_timestamp(&mut t, &mut with_data);
    assert_eq!((with_data.status.level, with_data.status.message.as_str()), (2, "Zero timestamp seen."));
    assert_eq!(with_data.status.values[6].value, "1");
    let mut again = DiagnosticStatusWrapper::default();
    run_timestamp(&mut t, &mut again);
    assert_eq!(again.status.level, 1);
}

#[test]
fn timestamp_tick_rejects_overflowing_delay() {
    let t = TimeStampStatus::new(-1, 1);
    assert!(!t.can_tick(i64::MIN + 1, i64::MAX));
    assert!(t.can_tick(0, i64::MAX));
    assert!(t.can_tick(5, 10));
}
