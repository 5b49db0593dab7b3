use herdr_espresso::status::status_report;
use herdr_espresso::herdr::HerdrError;
use herdr_espresso::toggle::{decline_message, declines_start, toggle_message, toggle_plan, TogglePlan};

#[test]
fn toggle_turns_off_only_a_live_watcher() {
    assert_eq!(toggle_plan(Some(42), true), TogglePlan::TurnOff(42));
    assert_eq!(toggle_plan(Some(42), false), TogglePlan::ReplaceStale);
    assert_eq!(toggle_plan(None, false), TogglePlan::TurnOn);
    assert_eq!(toggle_message(true, "w1:p1"), "espresso: monitoring on for w1:p1");
    assert_eq!(toggle_message(false, "w1:p1"), "espresso: monitoring off for w1:p1");
}

#[test]
fn status_lists_live_watchers_and_reports_stale_ones() {
    let entries = vec![
        ("w1%3Ap1".to_string(), 101, true),
        ("w2%3Ap2".to_string(), 102, false),
        ("w3".to_string(), -7, true),
    ];
    let (lines, stale) = status_report(&entries);
    assert_eq!(
        lines,
        vec![
            "monitoring: w1%3Ap1 (watcher pid 101)".to_string(),
            "monitoring: w3 (watcher pid -7)".to_string()
        ]
    );
    assert_eq!(stale, vec!["w2%3Ap2".to_string()]);
    let (lines, stale) = status_report(&vec![("a".to_string(), 1, false)]);
    assert_eq!(lines, vec!["no panes monitored".to_string()]);
    assert_eq!(stale, vec!["a".to_string()]);
    let (lines, _) = status_report(&vec![]);
    assert_eq!(lines, vec!["no panes monitored".to_string()]);
}

#[test]
fn toggle_declines_a_pane_without_agent() {
    assert!(declines_start(&Ok(None)));
    assert!(!declines_start(&Ok(Some("idle".to_string()))));
    assert!(!declines_start(&Err(HerdrError::Protocol("eof".to_string()))));
    assert_eq!(decline_message("w1:p1"), "espresso: no agent in w1:p1");
}
