//! Scripts injected into service pages: which services carry a badge
//! script, the notification override, and per-service post-load setup.

use vstd::prelude::*;
use crate::text::{push_str, same_text, starts_with_seq, starts_with_text};

verus! {

/// The text before the service id in the notification override script.
pub const NOTIFICATION_OVERRIDE_HEAD: &'static str = r#"
(function() {
    if (window.__ferdirust_notif_injected) return;
    window.__ferdirust_notif_injected = true;

    var ready = false;
    setTimeout(function() { ready = true; }, 15000);

    function ferdiNotify(title, body) {
        if (!ready) return;
        console.log('ferdirust:notify:' + JSON.stringify({
            service: '"#;

/// The text after the service id in the notification override script.
pub const NOTIFICATION_OVERRIDE_TAIL: &'static str = r#"',
            title: title || '',
            body: body || ''
        }));
    }

    // Override classic Notification constructor
    window.Notification = function(title, options) {
        ferdiNotify(title, options && options.body);
    };
    window.Notification.permission = 'granted';
    window.Notification.requestPermission = function() {
        return Promise.resolve('granted');
    };

    // Override ServiceWorker showNotification (used by modern web apps)
    if (navigator.serviceWorker) {
        ServiceWorkerRegistration.prototype.showNotification = function(title, options) {
            ferdiNotify(title, options && options.body);
            return Promise.resolve();
        };
    }
})();
"#;

/// Messenger needs this localStorage flag to enable desktop notifications.
pub const MESSENGER_POST_LOAD: &'static str = r#"
(function() {
    if (window.__ferdirust_postload_done) return;
    window.__ferdirust_postload_done = true;
    try {
        localStorage.setItem('_cs_desktopNotifsEnabled', JSON.stringify({
            __t: Date.now(),
            __v: true
        }));
    } catch (e) {}
})();
"#;

/// The services that ship a badge-counting script of their own.
#[derive(Debug, Clone, Copy, PartialEq, Eq, Structural)]
pub enum BadgeScript {
    Messenger,
    Slack,
    ProtonMail,
    Telegram,
}

/// Which badge script serves the service `id`: `messenger`, `slack` or any
/// `slack-...` workspace, `protonmail`, `telegram`.
pub open spec fn spec_badge_script(id: Seq<char>) -> Option<BadgeScript> {
    if id == "messenger"@ {
        Some(BadgeScript::Messenger)
    } else if id == "slack"@ || starts_with_seq(id, "slack-"@) {
        Some(BadgeScript::Slack)
    } else if id == "protonmail"@ {
        Some(BadgeScript::ProtonMail)
    } else if id == "telegram"@ {
        Some(BadgeScript::Telegram)
    } else {
        None
    }
}

/// The badge script of `service_id`, if it has one.
pub fn get_badge_script(service_id: &str) -> (r: Option<BadgeScript>)
    ensures
        r == spec_badge_script(service_id@),
{
    if same_text(service_id, "messenger") {
        Some(BadgeScript::Messenger)
    } else if same_text(service_id, "slack") || starts_with_text(service_id, "slack-") {
        Some(BadgeScript::Slack)
    } else if same_text(service_id, "protonmail") {
        Some(BadgeScript::ProtonMail)
    } else if same_text(service_id, "telegram") {
        Some(BadgeScript::Telegram)
    } else {
        None
    }
}

/// Whether `service_id` reports badges through its own script (console IPC).
pub fn has_badge_script(service_id: &str) -> (r: bool)
    ensures
        r == spec_badge_script(service_id@) is Some,
{
    get_badge_script(service_id).is_some()
}

/// The script that routes the page's notifications to the shell, tagged
/// with `service_id`.
pub fn get_notification_override_script(service_id: &str) -> (r: String)
    ensures
        r@ == NOTIFICATION_OVERRIDE_HEAD@ + service_id@ + NOTIFICATION_OVERRIDE_TAIL@,
{
    let mut r = String::new();
    push_str(&mut r, NOTIFICATION_OVERRIDE_HEAD);
    push_str(&mut r, service_id);
    push_str(&mut r, NOTIFICATION_OVERRIDE_TAIL);
    r
}

/// The post-load setup script of `service_id` (empty for most services).
pub fn get_post_load_script(service_id: &str) -> (r: &'static str)
    ensures
        r@ == if service_id@ == "messenger"@ {
            MESSENGER_POST_LOAD@
        } else {
            ""@
        },
{
    if same_text(service_id, "messenger") {
        MESSENGER_POST_LOAD
    } else {
        ""
    }
}

} // verus!
