use windows_agent::models::UsageSession;
use windows_agent::sessions::{
    merge_and_convert, observed_package, should_track, RawSession, SessionCollector,
    TrackerState, MAX_SESSION_MS, MIN_SESSION_MS,
};

const DAY_MS: i64 = 86_400_000;

fn sample(c: &mut SessionCollector, pkg: Option<&str>, at: i64) {
    c.sample_once(pkg.map(|p| p.to_string()), at);
}

fn assert_bounded(sessions: &[UsageSession]) {
    for s in sessions {
        assert!(s.total_ms >= MIN_SESSION_MS as u64);
        assert!(s.total_ms <= MAX_SESSION_MS as u64);
        assert_eq!((s.window_end - s.window_start) as u64, s.total_ms);
        assert!(s.foreground);
    }
}

#[test]
fn minimum_length_session_survives() {
    let mut c = SessionCollector::new();
    sample(&mut c, Some("a"), 0);
    sample(&mut c, Some("a"), 5_000);
    // The active interval is closed once it has been idle for more than the merge gap.
    let out = c.drain_sessions(16_000, DAY_MS);
    assert_eq!(out.len(), 1);
    assert_eq!(out[0].package, "a");
    assert_eq!(out[0].total_ms, 5_000);
    assert_eq!(out[0].window_start, 0);
    assert_eq!(out[0].window_end, 5_000);
}

#[test]
fn active_session_within_gap_is_not_drained() {
    let mut c = SessionCollector::new();
    sample(&mut c, Some("a"), 0);
    sample(&mut c, Some("a"), 5_000);
    let out = c.drain_sessions(6_000, DAY_MS);
    assert!(out.is_empty());
    assert!(c.state.current.is_some());
}

#[test]
fn sub_minimum_session_drops() {
    let mut c = SessionCollector::new();
    sample(&mut c, Some("a"), 0);
    sample(&mut c, Some("a"), 4_000);
    let out = c.drain_sessions(20_000, DAY_MS);
    assert!(out.is_empty());
}

#[test]
fn short_foreign_sample_between_two_intervals() {
    let mut c = SessionCollector::new();
    sample(&mut c, Some("a"), 0);
    sample(&mut c, Some("a"), 5_000);
    sample(&mut c, Some("b"), 6_000);
    sample(&mut c, Some("a"), 8_000);
    sample(&mut c, Some("a"), 13_000);
    let out = c.drain_sessions(30_000, DAY_MS);
    assert_bounded(&out);
    // "b" is finalized at zero length and never completes, so the two "a"
    // intervals are adjacent after sorting, 3 s apart, and merge.
    assert_eq!(out.len(), 1);
    assert_eq!(out[0].package, "a");
    assert_eq!(out[0].window_start, 0);
    assert_eq!(out[0].window_end, 13_000);
    assert_eq!(out[0].total_ms, 13_000);
    assert!(out.iter().all(|s| s.package != "b"));
}

#[test]
fn separated_by_a_completed_session_do_not_merge() {
    let raw = vec![
        RawSession { package: "a".to_string(), start: 0, end: 5_000 },
        RawSession { package: "a".to_string(), start: 12_000, end: 17_000 },
        RawSession { package: "b".to_string(), start: 5_000, end: 11_000 },
    ];
    let out = merge_and_convert(raw);
    assert_eq!(out.len(), 3);
    assert_eq!(out[0].package, "a");
    assert_eq!(out[1].package, "b");
    assert_eq!(out[2].package, "a");
    assert_eq!(out[0].total_ms, 5_000);
    assert_eq!(out[1].total_ms, 6_000);
    assert_eq!(out[2].total_ms, 5_000);
}

#[test]
fn long_session_is_clipped_to_eight_hours() {
    let raw = vec![RawSession { package: "a".to_string(), start: 0, end: 36_000_000 }];
    let out = merge_and_convert(raw);
    assert_eq!(out.len(), 1);
    assert_eq!(out[0].total_ms, 28_800_000);
    assert_eq!(out[0].window_end, 28_800_000);
}

#[test]
fn merge_gap_boundary() {
    let at_gap = vec![
        RawSession { package: "a".to_string(), start: 0, end: 5_000 },
        RawSession { package: "a".to_string(), start: 15_000, end: 20_000 },
    ];
    let out = merge_and_convert(at_gap);
    assert_eq!(out.len(), 1);
    assert_eq!(out[0].total_ms, 20_000);

    let past_gap = vec![
        RawSession { package: "a".to_string(), start: 0, end: 5_000 },
        RawSession { package: "a".to_string(), start: 15_001, end: 20_001 },
    ];
    let out = merge_and_convert(past_gap);
    assert_eq!(out.len(), 2);
}

#[test]
fn merge_sorts_by_start() {
    let raw = vec![
        RawSession { package: "b".to_string(), start: 50_000, end: 60_000 },
        RawSession { package: "a".to_string(), start: 0, end: 6_000 },
    ];
    let out = merge_and_convert(raw);
    assert_eq!(out.len(), 2);
    assert_eq!(out[0].package, "a");
    assert_eq!(out[1].package, "b");
    assert_bounded(&out);
}

#[test]
fn empty_input_gives_no_sessions() {
    assert!(merge_and_convert(Vec::new()).is_empty());
}

#[test]
fn package_switch_finalizes_previous() {
    let mut t = TrackerState::new();
    t.observe(Some("a".to_string()), 0);
    t.observe(Some("a".to_string()), 10_000);
    t.observe(Some("b".to_string()), 15_000);
    assert_eq!(t.completed.len(), 1);
    assert_eq!(t.completed[0].start, 0);
    assert_eq!(t.completed[0].end, 10_000);
    let cur = t.current.as_ref().unwrap();
    assert_eq!(cur.package, "b");
    assert_eq!(cur.started_at, 15_000);
    t.observe(Some("b".to_string()), 20_000);
    t.observe(None, 25_000);
    assert!(t.current.is_none());
    assert_eq!(t.completed.len(), 2);
    assert_eq!(t.completed[1].end, 20_000);
}

#[test]
fn drain_consumes_and_applies_window() {
    let mut t = TrackerState::new();
    t.completed.push(RawSession { package: "old".to_string(), start: 0, end: 1_000 });
    t.completed.push(RawSession { package: "new".to_string(), start: 90_000, end: 100_000 });
    let out = t.drain(100_000, 50_000);
    assert_eq!(out.len(), 1);
    assert_eq!(out[0].package, "new");
    assert!(t.completed.is_empty());
    let again = t.drain(100_000, 50_000);
    assert!(again.is_empty());
}

#[test]
fn filter_rejects_shell_processes() {
    assert!(!should_track(""));
    assert!(!should_track("explorer.exe"));
    assert!(!should_track("systemsettings.exe"));
    assert!(!should_track("taskmgr.exe"));
    assert!(!should_track("searchui.exe"));
    assert!(!should_track("sihost.exe"));
    assert!(!should_track("fontdrvhost.exe"));
    assert!(!should_track("applicationframehost.exe"));
    assert!(!should_track("shellexperiencehost.exe"));
    assert!(!should_track("startmenuexperiencehost.exe"));
    assert!(!should_track("TaskMgr.exe"));
    assert!(!should_track("EXPLORER.EXE"));
    assert!(!should_track("StartMenuExperienceHost.exe"));
    assert!(should_track("Chrome.exe"));
    assert!(should_track("chrome.exe"));
    assert!(should_track("explorer.exe.bak"));
}

#[test]
fn observed_package_lowercases_and_filters() {
    assert_eq!(observed_package("Chrome.EXE"), Some("chrome.exe".to_string()));
    assert_eq!(observed_package("EXPLORER.EXE"), None);
    assert_eq!(observed_package("FontDrvHost.exe"), None);
    assert_eq!(observed_package(""), None);
}
