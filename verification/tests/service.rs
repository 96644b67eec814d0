use ferdirust::paths::{path_join, path_join_bytes};
use ferdirust::service::config::{
    default_icon, default_true, download_dir_or_default, AppConfig, GlobalConfig, ServiceConfig,
};
use ferdirust::service::partition::{
    cef_root_dir, cef_root_dir_in, cookie_files, indexed_db_entry_belongs, partition_dir,
    partition_dir_in, shared_profile_dir, wipe_marker_path,
};

fn service(id: &str, enabled: bool) -> ServiceConfig {
    ServiceConfig {
        id: id.to_string(),
        name: id.to_uppercase(),
        url: format!("https://{}.example", id),
        icon: default_icon(),
        enabled,
        notifications: default_true(),
        auto_grant_media: false,
        allowed_origins: vec![format!("{}.example", id)],
    }
}

#[test]
fn path_join_follows_path_rules() {
    assert_eq!(path_join("/home/u", "ferdirust"), "/home/u/ferdirust");
    assert_eq!(path_join("/home/u/", "x"), "/home/u/x");
    assert_eq!(path_join("", "x"), "x");
    assert_eq!(path_join("/a", "/etc/passwd"), "/etc/passwd");
    assert_eq!(path_join("a", ""), "a/");
    for (base, comp) in [("/a/b", "c.txt"), ("rel", "x/y"), ("/", "z"), ("/q", "/r")] {
        let ours = path_join(base, comp);
        let std = std::path::PathBuf::from(base).join(comp);
        assert_eq!(ours, std.to_str().unwrap());
    }
}

#[test]
fn path_join_bytes_follows_path_rules() {
    assert_eq!(path_join_bytes(b"/a", b"b"), b"/a/b".to_vec());
    assert_eq!(path_join_bytes(b"/a/", b"b"), b"/a/b".to_vec());
    assert_eq!(path_join_bytes(b"", b"b"), b"b".to_vec());
    assert_eq!(path_join_bytes(b"/a", b"/c"), b"/c".to_vec());
    assert_eq!(path_join_bytes(&[0xfe], b"c"), vec![0xfe, b'/', b'c']);
}

#[test]
fn config_path_layout() {
    assert_eq!(
        AppConfig::config_path_in(Some(b"/cfg".to_vec())),
        b"/cfg/ferdirust/services.toml".to_vec()
    );
    assert_eq!(AppConfig::config_path_in(None), b"~/.config/ferdirust/services.toml".to_vec());
    assert!(AppConfig::config_path().ends_with(b"/ferdirust/services.toml"));
}

#[test]
fn non_utf8_directories_are_kept() {
    let base = vec![b'/', b'h', 0xff, b'x'];
    let mut expected = base.clone();
    expected.extend_from_slice(b"/ferdirust/services.toml");
    assert_eq!(AppConfig::config_path_in(Some(base.clone())), expected);
    let mut expected = base.clone();
    expected.extend_from_slice(b"/ferdirust/cef_cache");
    assert_eq!(cef_root_dir_in(Some(base)), expected);
}

#[test]
fn partition_layout() {
    assert_eq!(cef_root_dir_in(Some(b"/data".to_vec())), b"/data/ferdirust/cef_cache".to_vec());
    assert_eq!(cef_root_dir_in(None), b"~/.local/share/ferdirust/cef_cache".to_vec());
    assert_eq!(partition_dir_in(b"/root/c", "slack"), b"/root/c/svc-slack".to_vec());
    assert_eq!(partition_dir_in(b"/root/c", "é"), "/root/c/svc-é".as_bytes().to_vec());
    let p = partition_dir("slack");
    let mut expected = cef_root_dir();
    expected.extend_from_slice(b"/svc-slack");
    assert_eq!(p, expected);
    assert_eq!(wipe_marker_path(b"/p/svc-a"), b"/p/svc-a/.wipe-on-restart".to_vec());
    assert_eq!(shared_profile_dir(b"/root/c"), b"/root/c/Default".to_vec());
    assert_eq!(
        cookie_files(),
        vec!["Cookies", "Cookies-journal", "Network/Cookies", "Network/Cookies-journal"]
    );
}

#[test]
fn indexed_db_selection() {
    let svc = service("slack", true);
    assert!(indexed_db_entry_belongs(&svc, "https_app.slack.example_0.indexeddb.leveldb"));
    assert!(!indexed_db_entry_belongs(&svc, "https_web.telegram.org_0.indexeddb.leveldb"));
}

#[test]
fn download_dir_fallback() {
    assert_eq!(download_dir_or_default(None), "~/Downloads");
    assert_eq!(download_dir_or_default(Some("/dl".to_string())), "/dl");
    let g = GlobalConfig::with_platform_download_dir(None);
    assert_eq!(g.download_dir, "~/Downloads");
    assert!(!g.start_minimized);
    let g = GlobalConfig::with_platform_download_dir(Some("/home/u/Downloads".to_string()));
    assert_eq!(g.download_dir, "/home/u/Downloads");
}

#[test]
fn defaults_for_missing_fields() {
    assert_eq!(default_icon(), "default");
    assert!(default_true());
}

#[test]
fn default_config_services() {
    let c = AppConfig::default_config(Some("/dl".to_string()));
    assert_eq!(c.global.download_dir, "/dl");
    assert_eq!(AppConfig::default_config(None).global.download_dir, "~/Downloads");
    let ids: Vec<&str> = c.services.iter().map(|s| s.id.as_str()).collect();
    assert_eq!(ids, vec!["messenger", "slack", "protonmail", "telegram"]);
    assert_eq!(c.services[0].allowed_origins, vec!["messenger.com", "facebook.com"]);
    assert_eq!(c.services[2].name, "Proton Mail");
    assert!(!c.services[2].auto_grant_media);
    assert_eq!(c.services[3].url, "https://web.telegram.org");
    assert!(c.services.iter().all(|s| s.enabled && s.notifications));
    assert!(!c.global.start_minimized);
}

#[test]
fn enabled_services_keeps_order() {
    let c = AppConfig {
        global: GlobalConfig { download_dir: "/dl".to_string(), start_minimized: false },
        services: vec![service("a", true), service("b", false), service("c", true)],
    };
    let ids: Vec<&str> = c.enabled_services().iter().map(|s| s.id.as_str()).collect();
    assert_eq!(ids, vec!["a", "c"]);
}

#[test]
fn duplicate_copies_every_field() {
    let s = service("x", false);
    let d = s.duplicate();
    assert_eq!(d.id, s.id);
    assert_eq!(d.name, s.name);
    assert_eq!(d.url, s.url);
    assert_eq!(d.icon, s.icon);
    assert_eq!(d.enabled, s.enabled);
    assert_eq!(d.allowed_origins, s.allowed_origins);
}
