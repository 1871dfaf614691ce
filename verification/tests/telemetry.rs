use terminal_hell::perf_overlay::{pad, truncate, PerfOverlay};
use terminal_hell::telemetry::{report_due, FrameProfile, ReportLine, REPORT_PERIOD_NANOS};

#[test]
fn totals_accumulate_over_frames() {
    let mut p = FrameProfile::new();
    p.record_scope("a", 3000);
    p.record_scope("b", 1000);
    p.end_frame();
    p.record_scope("a", 1000);
    p.end_frame();
    let t = p.take_totals();
    assert_eq!(t, vec![("a", 4000, 2), ("b", 1000, 1)]);
    assert!(p.take_totals().is_empty());
}

#[test]
fn first_report_is_immediate_and_sorted() {
    let mut p = FrameProfile::new();
    p.record_scope("b", 1000);
    p.record_scope("a", 3000);
    p.record_scope("a", 1000);
    p.end_frame();
    p.end_frame();
    let lines = p.maybe_report().expect("first report is due");
    assert_eq!(lines.len(), 2);
    assert_eq!(lines[0].label, "a");
    assert_eq!(lines[0].total_this_window, 4000);
    assert_eq!(lines[0].avg_per_frame, 2000);
    assert_eq!(lines[0].calls_per_frame, 1);
    assert_eq!(lines[1].label, "b");
    assert_eq!(lines[1].avg_per_frame, 500);
    assert_eq!(lines[1].calls_per_frame, 0);
    assert!(p.maybe_report().is_none());
}

#[test]
fn scopes_close_once() {
    let mut p = FrameProfile::new();
    p.begin("x");
    p.end("x");
    p.end("x");
    p.end_frame();
    let t = p.take_totals();
    assert_eq!(t.len(), 1);
    assert_eq!(t[0].0, "x");
    assert_eq!(t[0].2, 1);
}

#[test]
fn counters_snapshot_in_label_order() {
    let mut p = FrameProfile::new();
    p.set_count("zeta", 3);
    p.set_count("alpha", 7);
    p.set_count("zeta", 4);
    assert_eq!(p.counts_snapshot(), vec![("alpha", 7), ("zeta", 4)]);
}

#[test]
fn report_line_format() {
    let l = ReportLine { label: "a", avg_per_frame: 2_500, total_this_window: 7_000_000, calls_per_frame: 3 };
    let expected = format!("a{} avg     2µs  calls/f    3  window 7ms", " ".repeat(21));
    assert_eq!(l.format(), expected);
}

#[test]
fn truncate_and_pad() {
    assert_eq!(truncate("hello", 3), "hel");
    assert_eq!(truncate("hi", 3), "hi");
    assert_eq!(pad("ab", 4), "ab  ");
    assert_eq!(pad("abcdef", 3), "abc");
}

#[test]
fn overlay_closed_draws_nothing() {
    let mut o = PerfOverlay::default();
    let p = FrameProfile::new();
    assert!(o.panel_lines(120, 40, &p).is_empty());
    o.toggle();
    assert!(o.open);
    assert!(!o.panel_lines(120, 40, &p).is_empty());
}

#[test]
fn overlay_takes_first_report() {
    let mut o = PerfOverlay::default();
    let mut p = FrameProfile::new();
    p.record_scope("tick", 2000);
    p.end_frame();
    o.pull_report(&mut p);
    o.toggle();
    let lines = o.panel_lines(120, 40, &p);
    assert!(lines.iter().any(|l| l.text.contains("tick")));
}

#[test]
fn report_waits_a_full_period() {
    assert!(report_due(None));
    assert!(!report_due(Some(REPORT_PERIOD_NANOS - 1)));
    assert!(report_due(Some(REPORT_PERIOD_NANOS)));
    let at = std::time::Instant::now();
    let mut p = FrameProfile::new();
    p.record_scope("a", 500);
    p.end_frame();
    assert!(p.maybe_report_at(at, None).is_some());
    p.record_scope("a", 700);
    p.end_frame();
    assert!(p.maybe_report_at(at, Some(999_999_999)).is_none());
    let lines = p.maybe_report_at(at, Some(1_000_000_000)).expect("a period has passed");
    assert_eq!(lines[0].total_this_window, 700);
}

#[test]
fn overlay_keeps_the_newest_report() {
    let at = std::time::Instant::now();
    let mut o = PerfOverlay::default();
    o.toggle();
    let mut p = FrameProfile::new();
    p.record_scope("first", 2000);
    p.end_frame();
    o.pull_report_at(&mut p, at, None);
    p.record_scope("second", 3000);
    p.end_frame();
    o.pull_report_at(&mut p, at, Some(10));
    let shown = |o: &PerfOverlay, p: &FrameProfile, label: &str| {
        o.panel_lines(120, 40, p).iter().any(|l| l.text.contains(label))
    };
    assert!(shown(&o, &p, "first") && !shown(&o, &p, "second"));
    o.pull_report_at(&mut p, at, Some(REPORT_PERIOD_NANOS));
    assert!(shown(&o, &p, "second") && !shown(&o, &p, "first"));
}
