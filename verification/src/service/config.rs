//! The services the shell hosts and its global settings, as stored in
//! `services.toml` (reading and writing the file is left to the caller).

use vstd::prelude::*;
use vstd::utf8::encode_utf8;
use crate::paths::{lemma_join_bytes_below, lemma_relative_name, path_join_bytes, spec_path_join_bytes};
use crate::text::views_of;

verus! {

/// `dirs::config_dir()`: the user's configuration directory, as the raw
/// bytes of the path (`None` when there is none). It depends on the
/// environment, so nothing is claimed of it.
#[verifier::external_body]
fn user_config_dir() -> Option<Vec<u8>> {
    dirs::config_dir().map(|p| p.into_os_string().into_encoded_bytes())
}

/// Settings that apply to the whole shell.
#[derive(Debug, Clone)]
pub struct GlobalConfig {
    pub download_dir: String,
    pub start_minimized: bool,
}

/// The download directory given what the platform reports: `~/Downloads`
/// when it reports none.
pub fn download_dir_or_default(found: Option<String>) -> (r: String)
    ensures
        r@ == match found {
            Some(d) => d@,
            None => "~/Downloads"@,
        },
{
    match found {
        Some(d) => d,
        None => String::from_str("~/Downloads"),
    }
}

impl GlobalConfig {
    /// The default settings, given the download directory the platform
    /// reports (read by the caller, as it reads a file): that directory, or
    /// `~/Downloads`; not started minimized.
    pub fn with_platform_download_dir(found: Option<String>) -> (r: Self)
        ensures
            r.download_dir@ == match found {
                Some(d) => d@,
                None => "~/Downloads"@,
            },
            !r.start_minimized,
    {
        GlobalConfig { download_dir: download_dir_or_default(found), start_minimized: false }
    }
}

/// One hosted web service.
#[derive(Debug, Clone)]
pub struct ServiceConfig {
    pub id: String,
    pub name: String,
    pub url: String,
    pub icon: String,
    pub enabled: bool,
    pub notifications: bool,
    pub auto_grant_media: bool,
    /// Origins the service may navigate to, open popups for and grant media to.
    pub allowed_origins: Vec<String>,
}

/// `a` and `b` hold the same settings.
pub open spec fn same_config(a: ServiceConfig, b: ServiceConfig) -> bool {
    &&& a.id@ == b.id@
    &&& a.name@ == b.name@
    &&& a.url@ == b.url@
    &&& a.icon@ == b.icon@
    &&& a.enabled == b.enabled
    &&& a.notifications == b.notifications
    &&& a.auto_grant_media == b.auto_grant_media
    &&& views_of(a.allowed_origins@) == views_of(b.allowed_origins@)
}

/// A copy of `v`.
pub fn copy_strings(v: &Vec<String>) -> (r: Vec<String>)
    ensures
        views_of(r@) == views_of(v@),
{
    let mut r: Vec<String> = Vec::new();
    let mut i: usize = 0;
    while i < v.len()
        invariant
            i <= v@.len(),
            views_of(r@) == views_of(v@.take(i as int)),
        decreases v@.len() - i,
    {
        let c = v[i].clone();
        assert(c@ == v@[i as int]@);
        let ghost before = r@;
        r.push(c);
        assert(r@ == before.push(c));
        assert(views_of(r@) =~= views_of(before).push(c@));
        assert(v@.take(i + 1) =~= v@.take(i as int).push(v@[i as int]));
        assert(views_of(v@.take(i + 1)) =~= views_of(v@.take(i as int)).push(v@[i as int]@));
        i = i + 1;
    }
    assert(v@.take(i as int) =~= v@);
    r
}

impl ServiceConfig {
    /// A copy of these settings.
    pub fn duplicate(&self) -> (r: Self)
        ensures
            same_config(r, *self),
    {
        ServiceConfig {
            id: self.id.clone(),
            name: self.name.clone(),
            url: self.url.clone(),
            icon: self.icon.clone(),
            enabled: self.enabled,
            notifications: self.notifications,
            auto_grant_media: self.auto_grant_media,
            allowed_origins: copy_strings(&self.allowed_origins),
        }
    }
}

/// The icon of a service that names none.
pub fn default_icon() -> (r: String)
    ensures
        r@ == "default"@,
{
    String::from_str("default")
}

/// The value of a flag that a service leaves out (`enabled`, `notifications`).
pub fn default_true() -> (r: bool)
    ensures
        r,
{
    true
}

/// The whole configuration.
#[derive(Debug, Clone)]
pub struct AppConfig {
    pub global: GlobalConfig,
    pub services: Vec<ServiceConfig>,
}

/// `c` is an enabled service with notifications on and these fields.
pub open spec fn is_service(
    c: ServiceConfig,
    id: Seq<char>,
    name: Seq<char>,
    url: Seq<char>,
    icon: Seq<char>,
    auto_grant_media: bool,
    origins: Seq<Seq<char>>,
) -> bool {
    &&& c.id@ == id
    &&& c.name@ == name
    &&& c.url@ == url
    &&& c.icon@ == icon
    &&& c.enabled
    &&& c.notifications
    &&& c.auto_grant_media == auto_grant_media
    &&& views_of(c.allowed_origins@) == origins
}

/// The services a fresh configuration starts with.
pub open spec fn is_default_services(s: Seq<ServiceConfig>) -> bool {
    &&& s.len() == 4
    &&& is_service(
        s[0],
        "messenger"@,
        "Messenger"@,
        "https://www.messenger.com"@,
        "messenger"@,
        true,
        seq!["messenger.com"@, "facebook.com"@],
    )
    &&& is_service(
        s[1],
        "slack"@,
        "Slack"@,
        "https://app.slack.com"@,
        "slack"@,
        true,
        seq!["slack.com"@],
    )
    &&& is_service(
        s[2],
        "protonmail"@,
        "Proton Mail"@,
        "https://mail.proton.me"@,
        "protonmail"@,
        false,
        seq!["proton.me"@],
    )
    &&& is_service(
        s[3],
        "telegram"@,
        "Telegram"@,
        "https://web.telegram.org"@,
        "telegram"@,
        true,
        seq!["telegram.org"@],
    )
}

/// Where the configuration file lives, as path bytes, given the platform's
/// configuration directory: `<dir or ~/.config>/ferdirust/services.toml`.
pub open spec fn spec_config_path(base: Option<Seq<u8>>) -> Seq<u8> {
    let dir = match base {
        Some(b) => b,
        None => encode_utf8("~/.config"@),
    };
    spec_path_join_bytes(
        spec_path_join_bytes(dir, encode_utf8("ferdirust"@)),
        encode_utf8("services.toml"@),
    )
}

/// The configuration file lies inside the configuration directory the
/// platform reports: its path starts with that directory's path and goes
/// below it.
pub proof fn lemma_config_path_inside_config_dir(dir: Seq<u8>)
    ensures
        spec_config_path(Some(dir)).len() > dir.len(),
        spec_config_path(Some(dir)).subrange(0, dir.len() as int) == dir,
{
    reveal_strlit("ferdirust");
    reveal_strlit("services.toml");
    lemma_relative_name("ferdirust"@);
    lemma_relative_name("services.toml"@);
    let app = spec_path_join_bytes(dir, encode_utf8("ferdirust"@));
    lemma_join_bytes_below(dir, encode_utf8("ferdirust"@));
    lemma_join_bytes_below(app, encode_utf8("services.toml"@));
    assert(spec_config_path(Some(dir)).subrange(0, dir.len() as int) =~= app.subrange(
        0,
        dir.len() as int,
    ));
}

fn one_service(
    id: &str,
    name: &str,
    url: &str,
    auto_grant_media: bool,
    origins: Vec<String>,
) -> (r: ServiceConfig)
    ensures
        is_service(r, id@, name@, url@, id@, auto_grant_media, views_of(origins@)),
{
    ServiceConfig {
        id: String::from_str(id),
        name: String::from_str(name),
        url: String::from_str(url),
        icon: String::from_str(id),
        enabled: true,
        notifications: true,
        auto_grant_media,
        allowed_origins: origins,
    }
}

fn origins_of_one(a: &str) -> (r: Vec<String>)
    ensures
        views_of(r@) == seq![a@],
{
    let mut v = Vec::new();
    v.push(String::from_str(a));
    assert(views_of(v@) =~= seq![a@]);
    v
}

impl AppConfig {
    /// The configuration file's path, given the platform's configuration
    /// directory.
    pub fn config_path_in(base: Option<Vec<u8>>) -> (r: Vec<u8>)
        ensures
            r@ == spec_config_path(
                match base {
                    Some(b) => Some(b@),
                    None => None,
                },
            ),
    {
        let app_dir = match base {
            Some(b) => path_join_bytes(b.as_slice(), "ferdirust".as_bytes()),
            None => path_join_bytes("~/.config".as_bytes(), "ferdirust".as_bytes()),
        };
        path_join_bytes(app_dir.as_slice(), "services.toml".as_bytes())
    }

    /// The configuration file's path (as path bytes) for this user.
    pub fn config_path() -> (r: Vec<u8>)
        ensures
            exists|base: Option<Seq<u8>>| r@ == spec_config_path(base),
    {
        Self::config_path_in(user_config_dir())
    }

    /// The enabled services, in configuration order.
    pub fn enabled_services(&self) -> (r: Vec<&ServiceConfig>)
        ensures
            r@.map_values(|c: &ServiceConfig| *c) == self.services@.filter(
                |c: ServiceConfig| c.enabled,
            ),
    {
        let ghost pred = |c: ServiceConfig| c.enabled;
        let mut r: Vec<&ServiceConfig> = Vec::new();
        let mut i: usize = 0;
        while i < self.services.len()
            invariant
                i <= self.services@.len(),
                pred == (|c: ServiceConfig| c.enabled),
                r@.map_values(|c: &ServiceConfig| *c) == self.services@.take(i as int).filter(pred),
            decreases self.services@.len() - i,
        {
            proof {
                reveal(Seq::filter);
                assert(self.services@.take(i + 1).drop_last() =~= self.services@.take(i as int));
            }
            if self.services[i].enabled {
                r.push(&self.services[i]);
            }
            proof {
                assert(r@.map_values(|c: &ServiceConfig| *c) =~= self.services@.take(i + 1).filter(
                    pred,
                ));
            }
            i = i + 1;
        }
        assert(self.services@.take(i as int) =~= self.services@);
        r
    }

    /// A fresh configuration: Messenger, Slack, Proton Mail and Telegram,
    /// all enabled, with the default global settings for the download
    /// directory the platform reports.
    pub fn default_config(platform_download_dir: Option<String>) -> (r: Self)
        ensures
            is_default_services(r.services@),
            r.global.download_dir@ == match platform_download_dir {
                Some(d) => d@,
                None => "~/Downloads"@,
            },
            !r.global.start_minimized,
    {
        let mut messenger_origins = Vec::new();
        messenger_origins.push(String::from_str("messenger.com"));
        messenger_origins.push(String::from_str("facebook.com"));
        assert(views_of(messenger_origins@) =~= seq!["messenger.com"@, "facebook.com"@]);
        let mut services = Vec::new();
        services.push(
            one_service("messenger", "Messenger", "https://www.messenger.com", true, messenger_origins),
        );
        services.push(
            one_service("slack", "Slack", "https://app.slack.com", true, origins_of_one("slack.com")),
        );
        services.push(
            one_service(
                "protonmail",
                "Proton Mail",
                "https://mail.proton.me",
                false,
                origins_of_one("proton.me"),
            ),
        );
        services.push(
            one_service(
                "telegram",
                "Telegram",
                "https://web.telegram.org",
                true,
                origins_of_one("telegram.org"),
            ),
        );
        AppConfig { global: GlobalConfig::with_platform_download_dir(platform_download_dir), services }
    }
}

} // verus!
