use ferdirust::ipc::messages::SidebarMessage;

#[test]
fn parse_switch_and_reload() {
    match SidebarMessage::parse("switch:slack") {
        Some(SidebarMessage::SwitchService { id }) => assert_eq!(id, "slack"),
        other => panic!("unexpected {:?}", other),
    }
    match SidebarMessage::parse("reload:a:b") {
        Some(SidebarMessage::ReloadService { id }) => assert_eq!(id, "a:b"),
        other => panic!("unexpected {:?}", other),
    }
    match SidebarMessage::parse("switch:") {
        Some(SidebarMessage::SwitchService { id }) => assert_eq!(id, ""),
        other => panic!("unexpected {:?}", other),
    }
}

#[test]
fn parse_badge_message() {
    match SidebarMessage::parse("badge:slack:3:12") {
        Some(SidebarMessage::UpdateBadge { id, direct, indirect }) => {
            assert_eq!((id.as_str(), direct, indirect), ("slack", 3, 12));
        }
        other => panic!("unexpected {:?}", other),
    }
    match SidebarMessage::parse("badge::+0:007") {
        Some(SidebarMessage::UpdateBadge { id, direct, indirect }) => {
            assert_eq!((id.as_str(), direct, indirect), ("", 0, 7));
        }
        other => panic!("unexpected {:?}", other),
    }
}

#[test]
fn parse_rejects_malformed() {
    assert!(SidebarMessage::parse("").is_none());
    assert!(SidebarMessage::parse("switch").is_none());
    assert!(SidebarMessage::parse("open:slack").is_none());
    assert!(SidebarMessage::parse("badge:slack:3").is_none());
    assert!(SidebarMessage::parse("badge:slack:3:x").is_none());
    assert!(SidebarMessage::parse("badge:slack:-3:1").is_none());
    assert!(SidebarMessage::parse("badge:slack:3:1:9").is_none());
    assert!(SidebarMessage::parse("badge:slack:4294967296:1").is_none());
    assert!(SidebarMessage::parse("Switch:slack").is_none());
}
