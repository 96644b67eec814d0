use ferdirust::sidebar::badge::{BadgeCounts, BadgeState};

#[test]
fn test_badge_counts_default() {
    let c = BadgeCounts::default();
    assert_eq!(c.direct, 0);
    assert_eq!(c.indirect, 0);
    assert_eq!(c.total(), 0);
}

#[test]
fn test_set_badge_direct_notifies() {
    let mut state = BadgeState::new();
    let (prev, notify) = state.set_badge("test", 3, 0);
    assert_eq!(prev.direct, 0);
    assert!(notify);
}

#[test]
fn test_set_badge_indirect_only_no_notify() {
    let mut state = BadgeState::new();
    let (_prev, notify) = state.set_badge("test", 0, 5);
    assert!(!notify);
}

#[test]
fn test_set_count_wrapper() {
    let mut state = BadgeState::new();
    let (prev, notify) = state.set_count("test", 3);
    assert_eq!(prev.direct, 0);
    assert!(notify);
    assert_eq!(state.get_counts("test").direct, 3);
    assert_eq!(state.get_counts("test").indirect, 0);
}

#[test]
fn test_increment() {
    let mut state = BadgeState::new();
    let counts = state.increment("test");
    assert_eq!(counts.direct, 1);
    assert_eq!(counts.indirect, 0);
    let counts = state.increment("test");
    assert_eq!(counts.direct, 2);
}

#[test]
fn test_to_json() {
    let mut state = BadgeState::new();
    state.set_badge("svc1", 3, 2);
    let json = state.to_json();
    assert!(json.contains("\"svc1\":true"));
}

#[test]
fn test_mark_viewed_clears_unread() {
    let mut state = BadgeState::new();
    state.set_badge("test", 3, 0);
    assert!(state.to_json().contains("\"test\":true"));
    state.mark_viewed("test");
    assert!(state.to_json().contains("\"test\":false"));
}

#[test]
fn test_mark_unread() {
    let mut state = BadgeState::new();
    // Initially no unread
    assert!(!state.to_json().contains("\"test\":true"));
    // mark_unread sets the red dot without changing counts
    state.mark_unread("test");
    assert!(state.to_json().contains("\"test\":true"));
    assert_eq!(state.get_counts("test").direct, 0);
    assert_eq!(state.get_counts("test").indirect, 0);
    // mark_viewed clears it
    state.mark_viewed("test");
    assert!(state.to_json().contains("\"test\":false"));
}

#[test]
fn test_set_active_service_suppresses_unread() {
    let mut state = BadgeState::new();
    state.set_active_service("slack");

    // Badge updates for the active service should NOT set unread
    state.set_badge("slack", 5, 0);
    assert!(state.to_json().contains("\"slack\":false"));

    state.increment("slack");
    assert!(state.to_json().contains("\"slack\":false"));

    state.mark_unread("slack");
    assert!(state.to_json().contains("\"slack\":false"));

    // But a different service should still get unread
    state.set_badge("telegram", 1, 0);
    assert!(state.to_json().contains("\"telegram\":true"));
}

#[test]
fn test_active_service_still_notifies() {
    let mut state = BadgeState::new();
    state.set_active_service("slack");

    // should_notify should still be true even for the active service
    let (_prev, notify) = state.set_badge("slack", 3, 0);
    assert!(notify);
}

#[test]
fn test_switching_active_service() {
    let mut state = BadgeState::new();
    state.set_active_service("slack");
    state.set_badge("slack", 3, 0);
    assert!(state.to_json().contains("\"slack\":false"));

    // Switch to telegram — now slack should accumulate unread
    state.set_active_service("telegram");
    state.set_badge("slack", 5, 0);
    assert!(state.to_json().contains("\"slack\":true"));
    assert!(state.to_json().contains("\"telegram\":false"));
}

#[test]
fn test_no_notify_on_same_count() {
    let mut state = BadgeState::new();
    state.set_badge("test", 3, 0);
    let (_prev, notify) = state.set_badge("test", 3, 0);
    assert!(!notify);
}

#[test]
fn test_no_notify_on_decrease() {
    let mut state = BadgeState::new();
    state.set_badge("test", 5, 0);
    let (_prev, notify) = state.set_badge("test", 2, 0);
    assert!(!notify);
}

// ---------------------------------------------------------------------------
// Further cases
// ---------------------------------------------------------------------------

#[test]
fn to_json_exact_text_in_first_seen_order() {
    let mut state = BadgeState::new();
    assert_eq!(state.to_json(), "{}");
    state.set_badge("slack", 1, 0);
    state.mark_viewed("telegram");
    state.set_badge("slack", 2, 0);
    assert_eq!(state.to_json(), "{\"slack\":true,\"telegram\":false}");
}

#[test]
fn renotify_after_drop_below_peak() {
    // The cooldown is zero seconds: once the count dropped, a rise notifies again.
    let mut state = BadgeState::new();
    assert!(state.set_badge("test", 5, 0).1);
    assert!(!state.set_badge("test", 2, 0).1);
    assert!(state.set_badge("test", 3, 0).1);
    assert_eq!(state.notified_peak("test"), Some(3));
}

#[test]
fn notified_peak_tracks_last_notification() {
    let mut state = BadgeState::new();
    assert_eq!(state.notified_peak("a"), None);
    state.set_badge("a", 4, 0);
    assert_eq!(state.notified_peak("a"), Some(4));
    state.set_badge("a", 0, 9);
    assert_eq!(state.notified_peak("a"), Some(4));
}

#[test]
fn set_badge_returns_previous_counts() {
    let mut state = BadgeState::new();
    state.set_badge("a", 2, 7);
    let (prev, _) = state.set_badge("a", 1, 1);
    assert_eq!((prev.direct, prev.indirect), (2, 7));
    let c = state.get_counts("a");
    assert_eq!((c.direct, c.indirect), (1, 1));
}

#[test]
fn indirect_rise_marks_unread_without_notifying() {
    let mut state = BadgeState::new();
    let (_, notify) = state.set_badge("a", 0, 1);
    assert!(!notify);
    assert_eq!(state.to_json(), "{\"a\":true}");
}

#[test]
fn total_and_total_count() {
    let c = BadgeCounts { direct: 3, indirect: 4 };
    assert_eq!(c.total(), 7);
    let mut state = BadgeState::new();
    assert_eq!(state.total_count(), 0);
    state.set_badge("a", 1, 2);
    state.set_badge("b", 3, 4);
    state.set_badge("a", 5, 0);
    assert_eq!(state.total_count(), 12);
}

#[test]
fn active_service_id_reports_the_active_service() {
    let mut state = BadgeState::new();
    assert_eq!(state.active_service_id(), None);
    state.set_active_service("slack");
    assert_eq!(state.active_service_id(), Some("slack"));
}

#[test]
fn increment_keeps_indirect() {
    let mut state = BadgeState::new();
    state.set_badge("a", 1, 6);
    let c = state.increment("a");
    assert_eq!((c.direct, c.indirect), (2, 6));
}
