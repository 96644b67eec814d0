use ferdirust::handlers::download::{download_complete_body, download_save_path};
use ferdirust::handlers::life_span::{popup_decision, PopupDecision};
use ferdirust::handlers::permission::{accepts_permission_prompt, grants_media_access};
use ferdirust::handlers::request::{navigation_decision, NavigationDecision};
use ferdirust::window_delegate::{key_action, KeyAction};

fn origins(list: &[&str]) -> Vec<String> {
    list.iter().map(|s| s.to_string()).collect()
}

#[test]
fn navigation_within_service_domain_loads() {
    let o = origins(&["slack.com"]);
    assert_eq!(
        navigation_decision("https://app.slack.com", &o, "https://edgeapi.slack.com/x"),
        NavigationDecision::Allow
    );
}

#[test]
fn navigation_to_other_allowed_origin_opens_popup() {
    let o = origins(&["messenger.com", "facebook.com"]);
    assert_eq!(
        navigation_decision("https://www.messenger.com", &o, "https://www.facebook.com/call"),
        NavigationDecision::OpenPopup
    );
    assert_eq!(
        navigation_decision("https://www.messenger.com", &o, "https://www.messenger.com/t/1"),
        NavigationDecision::Allow
    );
}

#[test]
fn navigation_elsewhere_goes_external() {
    let o = origins(&["slack.com"]);
    assert_eq!(
        navigation_decision("https://app.slack.com", &o, "https://example.org"),
        NavigationDecision::OpenExternal
    );
    assert_eq!(
        navigation_decision("https://app.slack.com", &vec![], "https://app.slack.com"),
        NavigationDecision::OpenExternal
    );
}

#[test]
fn popups() {
    let o = origins(&["telegram.org"]);
    assert_eq!(popup_decision(&o, Some("about:blank")), PopupDecision::Allow);
    assert_eq!(popup_decision(&o, Some("https://web.telegram.org/k")), PopupDecision::Allow);
    assert_eq!(popup_decision(&o, Some("https://example.org")), PopupDecision::OpenExternal);
    assert_eq!(popup_decision(&o, None), PopupDecision::Cancel);
}

#[test]
fn permissions() {
    let o = origins(&["slack.com"]);
    assert!(grants_media_access(true, &o, Some("https://app.slack.com")));
    assert!(!grants_media_access(false, &o, Some("https://app.slack.com")));
    assert!(!grants_media_access(true, &o, Some("https://evil.example")));
    assert!(!grants_media_access(true, &o, None));
    assert!(accepts_permission_prompt(&o, Some("https://app.slack.com")));
    assert!(!accepts_permission_prompt(&o, Some("https://evil.example")));
    assert!(!accepts_permission_prompt(&o, None));
}

#[test]
fn downloads() {
    assert_eq!(download_save_path("/home/u/Downloads", "a.pdf"), "/home/u/Downloads/a.pdf");
    assert_eq!(download_complete_body("a.pdf", "/dl"), "a.pdf saved to /dl");
}

#[test]
fn keys() {
    assert_eq!(key_action(true, 4, 0x31), KeyAction::SwitchTo(0));
    assert_eq!(key_action(true, 4 | 1, 0x39), KeyAction::SwitchTo(8));
    assert_eq!(key_action(false, 4, 0x31), KeyAction::Ignore);
    assert_eq!(key_action(true, 0, 0x31), KeyAction::Ignore);
    assert_eq!(key_action(true, 4, 0x52), KeyAction::Reload);
    assert_eq!(key_action(true, 4 | 2, 0x52), KeyAction::HardReload);
    assert_eq!(key_action(true, 4, 0x30), KeyAction::Ignore);
    assert_eq!(key_action(true, 2, 0x52), KeyAction::Ignore);
}
