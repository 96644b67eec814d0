use ferdirust::service::config::{AppConfig, GlobalConfig, ServiceConfig};
use ferdirust::service::manager::{
    replace_text, reset_script, sidebar_active_script, sidebar_badges_script, sidebar_data_url,
    sidebar_favicon_script, urlencoding, Placement, Rect, ServiceManager, RESET_SCRIPT_HEAD,
    SIDEBAR_WIDTH,
};
use ferdirust::sidebar::badge::BadgeState;
use ferdirust::sidebar::bridge::{
    decode_menu_command, menu_command_id, parse_sidebar_title, reload_label, reset_confirm_label,
    service_of_link, ServiceAction, SidebarCommand, MENU_ACTION_HARD_RELOAD, MENU_ACTION_RESET,
    MENU_SUBMENU_REPAIR,
};

fn config() -> AppConfig {
    let svc = |id: &str, enabled: bool| ServiceConfig {
        id: id.to_string(),
        name: format!("N{}", id),
        url: format!("https://{}.test", id),
        icon: id.to_string(),
        enabled,
        notifications: true,
        auto_grant_media: true,
        allowed_origins: vec![format!("{}.test", id)],
    };
    AppConfig {
        global: GlobalConfig { download_dir: "/dl".to_string(), start_minimized: false },
        services: vec![svc("a", true), svc("off", false), svc("b", true), svc("c", true)],
    }
}

#[test]
fn urlencoding_matches_simple_rule() {
    assert_eq!(urlencoding("Az09-_.~"), "Az09-_.~");
    assert_eq!(urlencoding("a b/<"), "a%20b%2F%3C");
    assert_eq!(urlencoding("é"), "%C3%A9");
    assert_eq!(urlencoding(""), "");
    assert_eq!(sidebar_data_url("<p>"), "data:text/html;charset=utf-8,%3Cp%3E");
}

#[test]
fn replace_text_like_str_replace() {
    for (s, p, r) in [
        ("a</body>b</body>", "</body>", "X</body>"),
        ("aaaa", "aa", "b"),
        ("none", "</body>", "x"),
        ("", "x", "y"),
    ] {
        assert_eq!(replace_text(s, p, r), s.replace(p, r));
    }
}

#[test]
fn sidebar_scripts() {
    assert_eq!(
        sidebar_active_script("slack"),
        "if (typeof setActiveService === 'function') setActiveService('slack');"
    );
    assert_eq!(
        sidebar_badges_script("{\"a\":true}"),
        "if (typeof updateBadges === 'function') updateBadges({\"a\":true});"
    );
    assert_eq!(
        sidebar_favicon_script("a", "https://x/it's.ico"),
        "if (typeof updateFavicon === 'function') updateFavicon('a','https://x/it\\'s.ico');"
    );
    let r = reset_script("https://a.test");
    assert!(r.starts_with(RESET_SCRIPT_HEAD));
    assert!(r.contains("location.replace('https://a.test');"));
}

#[test]
fn manager_create_and_sidebar_html() {
    let m = ServiceManager::create(&config());
    assert_eq!(m.service_count(), 3);
    assert_eq!(m.position_of("b"), Some(1));
    assert_eq!(m.position_of("off"), None);
    assert_eq!(m.download_dir, "/dl");
    let html = m.sidebar_html("<html><body></body></html>");
    assert_eq!(
        html,
        "<html><body><script>initServices([{\"id\":\"a\",\"name\":\"Na\",\"url\":\"https://a.test\"},\
{\"id\":\"b\",\"name\":\"Nb\",\"url\":\"https://b.test\"},\
{\"id\":\"c\",\"name\":\"Nc\",\"url\":\"https://c.test\"}]);</script></body></html>"
    );
}

#[test]
fn manager_switching() {
    let mut m = ServiceManager::create(&config());
    let mut badges = BadgeState::new();
    assert!(m.switch_to_index(1, &mut badges).is_none()); // no view, no window
    assert_eq!(m.attach_target("b"), Some(1));
    assert_eq!(m.record_browser_view(1), Placement::NoWindow);
    assert_eq!(m.attach_target("b"), None);
    m.setup_window(&mut badges);
    assert_eq!(badges.active_service_id(), Some("a"));
    assert_eq!(m.record_browser_view(0), Placement::Shown);
    assert_eq!(m.record_browser_view(2), Placement::Hidden);
    badges.set_badge("b", 2, 0);
    let s = m.switch_to_id("b", &mut badges).expect("switch");
    assert_eq!(s.previous, 0);
    assert_eq!(m.active_index, 1);
    assert_eq!(s.badges_json, "{\"a\":false,\"b\":false}");
    assert!(m.switch_to_index(1, &mut badges).is_none()); // already active
    assert!(m.switch_to_index(7, &mut badges).is_none());
    assert_eq!(m.active_browser(), Some(1));
    assert_eq!(m.browser_for("c"), Some(2));
    assert_eq!(m.browser_for("zz"), None);
}

#[test]
fn layout() {
    let mut m = ServiceManager::create(&config());
    let l = m.layout_views(1280, 800);
    assert_eq!(l.sidebar, Rect { x: 0, y: 0, width: SIDEBAR_WIDTH, height: 800 });
    assert!(l.active_service.is_none());
    m.record_browser_view(0);
    let l = m.layout_views(1280, 800);
    assert_eq!(l.active_service, Some(Rect { x: 56, y: 0, width: 1224, height: 800 }));
}

#[test]
fn menu_commands_round_trip() {
    let base = 26500;
    let id = menu_command_id(base, 2, MENU_ACTION_HARD_RELOAD);
    assert_eq!(id, 26517);
    assert_eq!(decode_menu_command(base, id), Some((2, ServiceAction::HardReload)));
    let id = menu_command_id(base, 0, MENU_ACTION_RESET);
    assert_eq!(decode_menu_command(base, id), Some((0, ServiceAction::Reset)));
    assert_eq!(decode_menu_command(base, menu_command_id(base, 1, MENU_SUBMENU_REPAIR)), None);
    assert_eq!(decode_menu_command(base, 100), None);
    assert_eq!(reload_label("Slack"), "Reload Slack");
    assert_eq!(reset_confirm_label("Slack"), "Yes, wipe all data for Slack");
    assert_eq!(service_of_link("ferdisvc:slack").as_deref(), Some("slack"));
    assert_eq!(service_of_link("https://x"), None);
}

#[test]
fn sidebar_titles() {
    match parse_sidebar_title("ferdirust:switch:telegram") {
        Some(SidebarCommand::Switch(id)) => assert_eq!(id, "telegram"),
        _ => panic!("expected a switch"),
    }
    match parse_sidebar_title("ferdirust:action:hardreload:slack") {
        Some(SidebarCommand::Run(a, id)) => {
            assert_eq!(a, ServiceAction::HardReload);
            assert_eq!(id, "slack");
        }
        _ => panic!("expected an action"),
    }
    assert!(parse_sidebar_title("ferdirust:action:explode:slack").is_none());
    assert!(parse_sidebar_title("ferdirust:action:reset").is_none());
    assert!(parse_sidebar_title("Sidebar").is_none());
}
