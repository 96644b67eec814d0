use ferdirust::handlers::display::{
    badge_from_payload, classify_console_message, on_badge_counts, on_page_notification,
    on_title_change, page_notification_summary_text, parse_badge_from_title,
    trim_badge_decoration, ConsoleMessage,
};
use ferdirust::handlers::load::{
    get_badge_script, get_notification_override_script, get_post_load_script, has_badge_script,
    BadgeScript, MESSENGER_POST_LOAD,
};
use ferdirust::sidebar::badge::BadgeState;

#[test]
fn test_parse_badge() {
    assert_eq!(parse_badge_from_title("(3) Messenger"), 3);
    assert_eq!(parse_badge_from_title("(12) Slack"), 12);
    assert_eq!(parse_badge_from_title("Messenger"), 0);
    assert_eq!(parse_badge_from_title("(0) Test"), 0);
    assert_eq!(parse_badge_from_title(""), 0);
    // Telegram-style: count at end
    assert_eq!(parse_badge_from_title("Telegram Web (5)"), 5);
    assert_eq!(parse_badge_from_title("Telegram Web (0)"), 0);
}

#[test]
fn parse_badge_edge_cases() {
    assert_eq!(parse_badge_from_title("(+7) x"), 7);
    assert_eq!(parse_badge_from_title("(-1) x"), 0);
    assert_eq!(parse_badge_from_title("(4294967296) x"), 0);
    assert_eq!(parse_badge_from_title("(4294967295) x"), 4294967295);
    assert_eq!(parse_badge_from_title("(x) Inbox (9)"), 9);
    assert_eq!(parse_badge_from_title("()"), 0);
    assert_eq!(parse_badge_from_title("(2)"), 2);
    assert_eq!(parse_badge_from_title("a (1) b (8)"), 8);
}

#[test]
fn trim_decoration_strips_leading_count() {
    assert_eq!(trim_badge_decoration("(3) Messenger"), "Messenger");
    assert_eq!(trim_badge_decoration("Telegram (2)"), "Telegram (2)");
    assert_eq!(trim_badge_decoration("(12)(3) 4 x"), "x");
    assert_eq!(trim_badge_decoration(""), "");
}

#[test]
fn title_change_without_script_notifies_on_rise() {
    let mut state = BadgeState::new();
    let up = on_title_change(&mut state, "whatsapp", "(2) WhatsApp");
    assert_eq!(up.badges_json.as_deref(), Some("{\"whatsapp\":true}"));
    let n = up.notification.expect("a rising count notifies");
    assert_eq!(n.summary, "[whatsapp] New message");
    assert_eq!(n.body, "New notification from WhatsApp");
    let up = on_title_change(&mut state, "whatsapp", "(2) WhatsApp");
    assert!(up.notification.is_none());
    assert_eq!(state.get_counts("whatsapp").direct, 2);
}

#[test]
fn title_change_with_script_only_marks_unread() {
    let mut state = BadgeState::new();
    let up = on_title_change(&mut state, "slack", "Slack");
    assert!(up.badges_json.is_none());
    assert!(up.notification.is_none());
    let up = on_title_change(&mut state, "slack", "(4) Slack");
    assert_eq!(up.badges_json.as_deref(), Some("{\"slack\":true}"));
    assert!(up.notification.is_none());
    assert_eq!(state.get_counts("slack").direct, 0);
}

#[test]
fn console_messages_are_sorted_by_prefix() {
    match classify_console_message("ferdirust:badge:{\"direct\":1}") {
        ConsoleMessage::Badge(j) => assert_eq!(j, "{\"direct\":1}"),
        _ => panic!("expected a badge message"),
    }
    match classify_console_message("ferdirust:notify:{}") {
        ConsoleMessage::Notify(j) => assert_eq!(j, "{}"),
        _ => panic!("expected a notification"),
    }
    assert!(matches!(classify_console_message("hello"), ConsoleMessage::Other));
    assert!(matches!(classify_console_message("ferdirust:badge"), ConsoleMessage::Other));
}

#[test]
fn payload_defaults() {
    assert_eq!(badge_from_payload(Some(3), Some(5), None), (3, 5, vec![]));
    assert_eq!(badge_from_payload(None, None, None), (0, 0, vec![]));
    assert_eq!(
        badge_from_payload(Some(2), None, Some(vec!["Alice".to_string()])),
        (2, 0, vec!["Alice".to_string()])
    );
}

#[test]
fn badge_counts_notification_text() {
    let mut state = BadgeState::new();
    let senders = vec!["Alice".to_string(), "Bob".to_string()];
    let up = on_badge_counts(&mut state, "messenger", 2, 0, &senders);
    let n = up.notification.expect("rising direct count");
    assert_eq!(n.summary, "[messenger] New message");
    assert_eq!(n.body, "From: Alice");
    let up = on_badge_counts(&mut state, "messenger", 17, 1, &vec![]);
    assert_eq!(up.notification.expect("rise").body, "17 new direct message(s)");
    let up = on_badge_counts(&mut state, "messenger", 17, 3, &vec![]);
    assert!(up.notification.is_none());
    assert_eq!(up.badges_json.as_deref(), Some("{\"messenger\":true}"));
}

#[test]
fn page_notification_bumps_direct_count() {
    let mut state = BadgeState::new();
    let json = on_page_notification(&mut state, "telegram");
    assert_eq!(json, "{\"telegram\":true}");
    on_page_notification(&mut state, "telegram");
    assert_eq!(state.get_counts("telegram").direct, 2);
}

#[test]
fn page_notification_summaries() {
    assert_eq!(page_notification_summary_text(Some("slack"), Some("Hi")), "[slack] Hi");
    assert_eq!(page_notification_summary_text(None, Some("Hi")), "Hi");
    assert_eq!(page_notification_summary_text(Some("slack"), None), "[slack] New notification");
    assert_eq!(page_notification_summary_text(None, None), "New notification");
}

#[test]
fn badge_scripts_by_service() {
    assert_eq!(get_badge_script("messenger"), Some(BadgeScript::Messenger));
    assert_eq!(get_badge_script("slack"), Some(BadgeScript::Slack));
    assert_eq!(get_badge_script("slack-work"), Some(BadgeScript::Slack));
    assert_eq!(get_badge_script("slackers"), None);
    assert_eq!(get_badge_script("protonmail"), Some(BadgeScript::ProtonMail));
    assert_eq!(get_badge_script("telegram"), Some(BadgeScript::Telegram));
    assert!(!has_badge_script("whatsapp"));
    assert!(has_badge_script("telegram"));
}

#[test]
fn injected_scripts() {
    let s = get_notification_override_script("slack");
    assert!(s.contains("service: 'slack',"));
    assert!(s.contains("window.__ferdirust_notif_injected = true;"));
    assert!(s.contains("ServiceWorkerRegistration.prototype.showNotification"));
    assert!(!s.contains("{{"));
    assert_eq!(get_post_load_script("messenger"), MESSENGER_POST_LOAD);
    assert!(MESSENGER_POST_LOAD.contains("_cs_desktopNotifsEnabled"));
    assert_eq!(get_post_load_script("slack"), "");
}
