//! The service deck: which services are hosted, which one is shown, and the
//! text the shell hands the browser (sidebar page, layout, scripts).
//! Browser views themselves live with the caller; here a service only
//! records whether its view exists.

use vstd::prelude::*;
use vstd::utf8::encode_utf8;
use crate::service::config::{same_config, AppConfig, ServiceConfig};
use crate::service::partition::{spec_cef_root, spec_partition_dir, CacheRoot};
use crate::sidebar::badge::{unread_json, BadgeState};
use crate::text::{chars_of, occurs_at_exec, push_char, push_str, same_text};

verus! {

/// Width of the sidebar strip, in pixels.
pub const SIDEBAR_WIDTH: i32 = 56;

/// Clears service workers, Cache Storage and IndexedDB, then reloads; logins
/// (cookies, localStorage) are kept.
pub const REPAIR_SCRIPT: &'static str = r#"(async function() {
            try {
                if (navigator.serviceWorker) {
                    var regs = await navigator.serviceWorker.getRegistrations();
                    await Promise.all(regs.map(function(r) { return r.unregister(); }));
                }
            } catch (e) {}
            try {
                if (window.caches) {
                    var keys = await caches.keys();
                    await Promise.all(keys.map(function(k) { return caches.delete(k); }));
                }
            } catch (e) {}
            try {
                if (window.indexedDB && indexedDB.databases) {
                    var dbs = await indexedDB.databases();
                    await Promise.all(dbs.map(function(db) {
                        return new Promise(function(resolve) {
                            var req = indexedDB.deleteDatabase(db.name);
                            req.onsuccess = req.onerror = req.onblocked = function() { resolve(); };
                        });
                    }));
                }
            } catch (e) {}
            location.reload();
        })();"#;

/// The reset script up to the service URL it navigates to.
pub const RESET_SCRIPT_HEAD: &'static str = r#"(async function() {
            try {
                if (navigator.serviceWorker) {
                    var regs = await navigator.serviceWorker.getRegistrations();
                    await Promise.all(regs.map(function(r) { return r.unregister(); }));
                }
            } catch (e) {}
            try {
                if (window.caches) {
                    var keys = await caches.keys();
                    await Promise.all(keys.map(function(k) { return caches.delete(k); }));
                }
            } catch (e) {}
            try { localStorage.clear(); } catch (e) {}
            try { sessionStorage.clear(); } catch (e) {}
            try {
                if (window.indexedDB && indexedDB.databases) {
                    var dbs = await indexedDB.databases();
                    await Promise.all(dbs.map(function(db) {
                        return new Promise(function(resolve) {
                            var req = indexedDB.deleteDatabase(db.name);
                            req.onsuccess = req.onerror = req.onblocked = function() { resolve(); };
                        });
                    }));
                }
            } catch (e) {}
            location.replace('"#;

/// The reset script after the service URL.
pub const RESET_SCRIPT_TAIL: &'static str = r#"');
        })();"#;

// ---------------------------------------------------------------------------
// Percent-encoding for data: URLs
// ---------------------------------------------------------------------------

/// Bytes left as they are: ASCII letters, digits, `-`, `_`, `.`, `~`.
pub open spec fn is_unreserved(b: u8) -> bool {
    (65 <= b <= 90) || (97 <= b <= 122) || (48 <= b <= 57) || b == 45 || b == 95 || b == 46
        || b == 126
}

/// The upper-case hexadecimal digit for `n < 16`.
pub open spec fn hex_upper(n: nat) -> char {
    if n < 10 {
        (48 + n) as char
    } else {
        (55 + n) as char
    }
}

/// One byte, percent-encoded.
pub open spec fn encode_byte(b: u8) -> Seq<char> {
    if is_unreserved(b) {
        seq![b as char]
    } else {
        seq!['%', hex_upper((b / 16) as nat), hex_upper((b % 16) as nat)]
    }
}

/// The bytes, percent-encoded one by one.
pub open spec fn percent_encode(bytes: Seq<u8>) -> Seq<char>
    decreases bytes.len(),
{
    if bytes.len() == 0 {
        Seq::empty()
    } else {
        percent_encode(bytes.drop_last()) + encode_byte(bytes.last())
    }
}

/// The value of an upper-case hexadecimal digit.
pub open spec fn hex_value(c: char) -> int {
    if '0' <= c <= '9' {
        c as int - 48
    } else {
        c as int - 55
    }
}

/// Reads percent-encoded text back into bytes: `%XY` is the byte with
/// hexadecimal value `XY`, any other character the byte of its code.
pub open spec fn percent_decode(s: Seq<char>) -> Seq<u8>
    decreases s.len(),
{
    if s.len() == 0 {
        Seq::empty()
    } else if s.len() >= 3 && s[s.len() - 3] == '%' {
        percent_decode(s.subrange(0, s.len() - 3)).push(
            (hex_value(s[s.len() - 2]) * 16 + hex_value(s[s.len() - 1])) as u8,
        )
    } else {
        percent_decode(s.drop_last()).push(s.last() as u8)
    }
}

proof fn lemma_encoding_tail(b: Seq<u8>)
    ensures
        ({
            let e = percent_encode(b);
            &&& e.len() > 0 ==> e[e.len() - 1] != '%'
            &&& e.len() > 1 ==> e[e.len() - 2] != '%'
        }),
    decreases b.len(),
{
    if b.len() > 0 {
        lemma_encoding_tail(b.drop_last());
        let x = b.last();
        let p = percent_encode(b.drop_last());
        let e = percent_encode(b);
        assert(e == p + encode_byte(x));
        if is_unreserved(x) {
            assert(e[e.len() - 1] == x as char);
            if e.len() > 1 {
                assert(e[e.len() - 2] == p[p.len() - 1]);
            }
        } else {
            assert(e[e.len() - 1] == hex_upper((x % 16) as nat));
            assert(e[e.len() - 2] == hex_upper((x / 16) as nat));
        }
    }
}

/// Decoding what `urlencoding` produces gives back the encoded bytes: the
/// encoding loses nothing.
pub proof fn lemma_percent_round_trip(b: Seq<u8>)
    ensures
        percent_decode(percent_encode(b)) == b,
    decreases b.len(),
{
    if b.len() > 0 {
        let x = b.last();
        let p = percent_encode(b.drop_last());
        let e = percent_encode(b);
        lemma_percent_round_trip(b.drop_last());
        lemma_encoding_tail(b.drop_last());
        assert(e == p + encode_byte(x));
        if is_unreserved(x) {
            assert(e.drop_last() =~= p);
            if e.len() >= 3 {
                assert(e[e.len() - 3] == p[p.len() - 2]);
            }
            assert(e.last() == x as char);
            assert((x as char) as u8 == x);
        } else {
            assert(e.subrange(0, e.len() - 3) =~= p);
            assert(e[e.len() - 3] == '%');
            let hi = (x / 16) as nat;
            let lo = (x % 16) as nat;
            assert(hex_value(hex_upper(hi)) == hi);
            assert(hex_value(hex_upper(lo)) == lo);
            assert(hi * 16 + lo == x);
        }
        assert(b.drop_last().push(x) =~= b);
    }
}

fn hex_digit(n: u8) -> (c: char)
    requires
        n < 16,
    ensures
        c == hex_upper(n as nat),
{
    if n < 10 {
        (48u8 + n) as char
    } else {
        (55u8 + n) as char
    }
}

/// Percent-encodes the UTF-8 bytes of `s`, keeping unreserved bytes as they
/// are (for `data:` URLs).
pub fn urlencoding(s: &str) -> (r: String)
    ensures
        r@ == percent_encode(encode_utf8(s@)),
{
    let bytes = s.as_bytes();
    let ghost b = bytes@;
    assert(b == encode_utf8(s@));
    let mut r = String::new();
    let mut i: usize = 0;
    while i < bytes.len()
        invariant
            b == bytes@,
            i <= b.len(),
            r@ == percent_encode(b.take(i as int)),
        decreases b.len() - i,
    {
        let byte = bytes[i];
        if (65 <= byte && byte <= 90) || (97 <= byte && byte <= 122) || (48 <= byte && byte <= 57)
            || byte == 45 || byte == 95 || byte == 46 || byte == 126 {
            push_char(&mut r, byte as char);
        } else {
            push_char(&mut r, '%');
            push_char(&mut r, hex_digit(byte / 16));
            push_char(&mut r, hex_digit(byte % 16));
        }
        assert(b.take(i + 1).drop_last() =~= b.take(i as int));
        assert(r@ =~= percent_encode(b.take(i + 1)));
        i = i + 1;
    }
    assert(b.take(i as int) =~= b);
    r
}

// ---------------------------------------------------------------------------
// Text replacement
// ---------------------------------------------------------------------------

/// `s.replace(pat, rep)`: every occurrence of `pat`, scanning left to right
/// without overlaps, replaced by `rep`.
pub open spec fn replace_all(s: Seq<char>, pat: Seq<char>, rep: Seq<char>) -> Seq<char>
    decreases s.len(),
{
    if s.len() == 0 {
        s
    } else if pat.len() > 0 && pat.len() <= s.len() && s.take(pat.len() as int) == pat {
        rep + replace_all(s.skip(pat.len() as int), pat, rep)
    } else {
        seq![s[0]] + replace_all(s.drop_first(), pat, rep)
    }
}

/// Replaces every occurrence of the non-empty `pat` in `s` by `rep`.
pub fn replace_text(s: &str, pat: &str, rep: &str) -> (r: String)
    requires
        pat@.len() > 0,
    ensures
        r@ == replace_all(s@, pat@, rep@),
{
    let cs = chars_of(s);
    let ps = chars_of(pat);
    let n = cs.len();
    let mut r = String::new();
    let mut i: usize = 0;
    assert(s@.skip(0) =~= s@);
    assert(r@ + replace_all(s@.skip(0), pat@, rep@) =~= replace_all(s@, pat@, rep@));
    while i < n
        invariant
            cs@ == s@,
            ps@ == pat@,
            ps@.len() > 0,
            n == cs@.len(),
            i <= n,
            replace_all(s@, pat@, rep@) == r@ + replace_all(s@.skip(i as int), pat@, rep@),
        decreases n - i,
    {
        let ghost t = s@.skip(i as int);
        let ghost before = r@;
        if occurs_at_exec(&cs, &ps, i) {
            proof {
                assert(t.take(pat@.len() as int) =~= s@.subrange(i as int, i + pat@.len()));
                assert(t.skip(pat@.len() as int) =~= s@.skip(i + pat@.len()));
            }
            push_str(&mut r, rep);
            i = i + ps.len();
            assert(r@ + replace_all(s@.skip(i as int), pat@, rep@) =~= before + (rep@
                + replace_all(t.skip(pat@.len() as int), pat@, rep@)));
        } else {
            proof {
                if pat@.len() <= t.len() {
                    assert(t.take(pat@.len() as int) =~= s@.subrange(i as int, i + pat@.len()));
                }
                assert(t.drop_first() =~= s@.skip(i + 1));
            }
            push_char(&mut r, cs[i]);
            i = i + 1;
            assert(r@ + replace_all(s@.skip(i as int), pat@, rep@) =~= before + (seq![t[0]]
                + replace_all(t.drop_first(), pat@, rep@)));
        }
    }
    assert(s@.skip(n as int) =~= Seq::<char>::empty());
    assert(r@ + Seq::<char>::empty() =~= r@);
    r
}

// ---------------------------------------------------------------------------
// The sidebar page
// ---------------------------------------------------------------------------

/// `{"id":"<id>","name":"<name>","url":"<url>"}` (the fields are not
/// escaped).
pub open spec fn service_entry_json(c: ServiceConfig) -> Seq<char> {
    "{\"id\":\""@ + c.id@ + "\",\"name\":\""@ + c.name@ + "\",\"url\":\""@ + c.url@ + "\"}"@
}

/// The parts joined with commas.
pub open spec fn comma_join(parts: Seq<Seq<char>>) -> Seq<char>
    decreases parts.len(),
{
    if parts.len() == 0 {
        Seq::empty()
    } else if parts.len() == 1 {
        parts[0]
    } else {
        comma_join(parts.drop_last()) + seq![','] + parts.last()
    }
}

/// The script that hands the sidebar its list of services.
pub open spec fn sidebar_init_script(configs: Seq<ServiceConfig>) -> Seq<char> {
    "<script>initServices(["@ + comma_join(configs.map_values(|c: ServiceConfig| service_entry_json(c)))
        + "]);</script>"@
}

/// The sidebar page: the template with the init script put before each
/// `</body>`.
pub open spec fn spec_sidebar_html(template: Seq<char>, configs: Seq<ServiceConfig>) -> Seq<char> {
    replace_all(template, "</body>"@, sidebar_init_script(configs) + "</body>"@)
}

/// The `data:` URL that carries a page.
pub open spec fn spec_data_url(html: Seq<char>) -> Seq<char> {
    "data:text/html;charset=utf-8,"@ + percent_encode(encode_utf8(html))
}

/// The `data:` URL that carries the page `html`.
pub fn sidebar_data_url(html: &str) -> (r: String)
    ensures
        r@ == spec_data_url(html@),
{
    let mut r = String::new();
    push_str(&mut r, "data:text/html;charset=utf-8,");
    let enc = urlencoding(html);
    push_str(&mut r, enc.as_str());
    r
}

// ---------------------------------------------------------------------------
// Scripts that update the sidebar
// ---------------------------------------------------------------------------

/// The sidebar call that highlights the active service.
pub fn sidebar_active_script(service_id: &str) -> (r: String)
    ensures
        r@ == "if (typeof setActiveService === 'function') setActiveService('"@ + service_id@
            + "');"@,
{
    let mut r = String::new();
    push_str(&mut r, "if (typeof setActiveService === 'function') setActiveService('");
    push_str(&mut r, service_id);
    push_str(&mut r, "');");
    r
}

/// The sidebar call that shows new unread flags.
pub fn sidebar_badges_script(json: &str) -> (r: String)
    ensures
        r@ == "if (typeof updateBadges === 'function') updateBadges("@ + json@ + ");"@,
{
    let mut r = String::new();
    push_str(&mut r, "if (typeof updateBadges === 'function') updateBadges(");
    push_str(&mut r, json);
    push_str(&mut r, ");");
    r
}

/// `s` with each `'` written as `\'`.
pub open spec fn escape_quotes(s: Seq<char>) -> Seq<char>
    decreases s.len(),
{
    if s.len() == 0 {
        s
    } else {
        escape_quotes(s.drop_last()) + if s.last() == '\'' {
            seq!['\\', '\'']
        } else {
            seq![s.last()]
        }
    }
}

/// The sidebar call that sets a service's icon to its favicon; quotes in
/// the URL are escaped.
pub fn sidebar_favicon_script(service_id: &str, favicon_url: &str) -> (r: String)
    ensures
        r@ == "if (typeof updateFavicon === 'function') updateFavicon('"@ + service_id@ + "','"@
            + escape_quotes(favicon_url@) + "');"@,
{
    let mut r = String::new();
    push_str(&mut r, "if (typeof updateFavicon === 'function') updateFavicon('");
    push_str(&mut r, service_id);
    push_str(&mut r, "','");
    let cs = chars_of(favicon_url);
    let ghost start = r@;
    let mut i: usize = 0;
    while i < cs.len()
        invariant
            cs@ == favicon_url@,
            i <= cs@.len(),
            r@ == start + escape_quotes(cs@.take(i as int)),
        decreases cs@.len() - i,
    {
        if cs[i] == '\'' {
            push_char(&mut r, '\\');
            push_char(&mut r, '\'');
        } else {
            push_char(&mut r, cs[i]);
        }
        assert(cs@.take(i + 1).drop_last() =~= cs@.take(i as int));
        assert(r@ =~= start + escape_quotes(cs@.take(i + 1)));
        i = i + 1;
    }
    assert(cs@.take(i as int) =~= cs@);
    push_str(&mut r, "');");
    r
}

/// The reset script for a service at `url`: wipes every storage API the
/// page reaches, then loads `url` logged out.
pub fn reset_script(url: &str) -> (r: String)
    ensures
        r@ == RESET_SCRIPT_HEAD@ + url@ + RESET_SCRIPT_TAIL@,
{
    let mut r = String::new();
    push_str(&mut r, RESET_SCRIPT_HEAD);
    push_str(&mut r, url);
    push_str(&mut r, RESET_SCRIPT_TAIL);
    r
}

// ---------------------------------------------------------------------------
// The deck
// ---------------------------------------------------------------------------

/// A rectangle in window coordinates.
#[derive(Debug, Clone, Copy, PartialEq, Eq, Structural)]
pub struct Rect {
    pub x: i32,
    pub y: i32,
    pub width: i32,
    pub height: i32,
}

/// Where the views go: the sidebar strip, and the active service's view
/// when it has one.
pub struct Layout {
    pub sidebar: Rect,
    pub active_service: Option<Rect>,
}

/// What became of a newly created service view.
#[derive(Debug, Clone, Copy, PartialEq, Eq, Structural)]
pub enum Placement {
    /// There is no window yet; the view is attached when it is set up.
    NoWindow,
    /// The service is active: show the view and lay it out.
    Shown,
    /// Attach and detach the view once, so the browser initializes it hidden.
    Hidden,
}

/// A switch that took place: the previously active position, and the
/// sidebar's new unread JSON.
pub struct Switched {
    pub previous: usize,
    pub badges_json: String,
}

/// What resetting a service involves: the partition to flag for deletion
/// at the next start, and, when the service's view exists, the script that
/// wipes what the page can reach (its cookies are deleted as well).
pub struct ResetPlan {
    pub partition_dir: Vec<u8>,
    pub wipe_script: Option<String>,
}

/// One hosted service.
pub struct ServiceInstance {
    pub config: ServiceConfig,
    /// Whether its browser view exists (it is created once the service's
    /// storage partition has initialized).
    pub has_browser_view: bool,
    /// Set while the service is being reset.
    pub resetting: bool,
}

/// The hosted services and the one being shown.
pub struct ServiceManager {
    pub services: Vec<ServiceInstance>,
    pub active_index: usize,
    pub download_dir: String,
    /// Whether the main window has been set up.
    pub has_window: bool,
    /// The cache root the services' partitions live under.
    pub cache_root: CacheRoot,
}

/// The service at `index` can be shown: it exists, is not the active one,
/// is not resetting, has its view, and the window is set up.
pub open spec fn can_switch(m: ServiceManager, index: int) -> bool {
    &&& 0 <= index < m.services@.len()
    &&& index != m.active_index
    &&& !m.services@[index].resetting
    &&& m.services@[index].has_browser_view
    &&& m.has_window
}

/// What a switch to `index` does: when it can happen, that service becomes
/// active (in the deck and in the badges, its unread flag cleared) and the
/// new unread JSON is returned with the previous position; otherwise nothing
/// changes and the result is `None`.
pub open spec fn switch_outcome(
    pre: ServiceManager,
    post: ServiceManager,
    pre_badges: BadgeState,
    post_badges: BadgeState,
    index: int,
    r: Option<Switched>,
) -> bool {
    if can_switch(pre, index) {
        &&& r matches Some(s)
        &&& s.previous == pre.active_index
        &&& post.active_index == index
        &&& post_badges.active() == Some(pre.services@[index].config.id@)
        &&& post_badges.unread() == crate::sidebar::keyed::upsert(
            pre_badges.unread(),
            pre.services@[index].config.id@,
            false,
        )
        &&& post_badges.counts() == pre_badges.counts()
        &&& s.badges_json@ == unread_json(post_badges.unread())
    } else {
        &&& r is None
        &&& post.active_index == pre.active_index
        &&& post_badges == pre_badges
    }
}

/// The position of the first service with id `id`.
pub open spec fn spec_position(services: Seq<ServiceInstance>, id: Seq<char>) -> Option<int> {
    if exists|i: int| 0 <= i < services.len() && services[i].config.id@ == id {
        Some(
            choose|i: int|
                0 <= i < services.len() && services[i].config.id@ == id && forall|j: int|
                    0 <= j < i ==> services[j].config.id@ != id,
        )
    } else {
        None
    }
}

impl ServiceManager {
    /// The cache root the services' partitions live under.
    pub open spec fn partition_root(&self) -> Seq<u8> {
        self.cache_root@
    }

    /// A deck of the enabled services of `config`, none with a view yet, the
    /// first one active, no window, its partitions under this user's cache
    /// root.
    pub fn create(config: &AppConfig) -> (r: Self)
        ensures
            r.services@.len() == config.services@.filter(|c: ServiceConfig| c.enabled).len(),
            forall|i: int|
                0 <= i < r.services@.len() ==> {
                    &&& same_config(
                        #[trigger] r.services@[i].config,
                        config.services@.filter(|c: ServiceConfig| c.enabled)[i],
                    )
                    &&& !r.services@[i].has_browser_view
                    &&& !r.services@[i].resetting
                },
            r.active_index == 0,
            r.download_dir@ == config.global.download_dir@,
            !r.has_window,
            exists|base: Option<Seq<u8>>| r.partition_root() == spec_cef_root(base),
    {
        let enabled = config.enabled_services();
        let ghost filtered = config.services@.filter(|c: ServiceConfig| c.enabled);
        assert(enabled@.map_values(|c: &ServiceConfig| *c) == filtered);
        assert(enabled@.len() == filtered.len());
        let mut services: Vec<ServiceInstance> = Vec::new();
        let mut i: usize = 0;
        while i < enabled.len()
            invariant
                i <= enabled@.len(),
                enabled@.map_values(|c: &ServiceConfig| *c) == filtered,
                enabled@.len() == filtered.len(),
                services@.len() == i,
                forall|j: int|
                    0 <= j < i ==> {
                        &&& same_config(#[trigger] services@[j].config, filtered[j])
                        &&& !services@[j].has_browser_view
                        &&& !services@[j].resetting
                    },
            decreases enabled@.len() - i,
        {
            assert(filtered[i as int] == *enabled@[i as int]);
            let c = enabled[i].duplicate();
            services.push(ServiceInstance { config: c, has_browser_view: false, resetting: false });
            i = i + 1;
        }
        ServiceManager {
            services,
            active_index: 0,
            download_dir: config.global.download_dir.clone(),
            has_window: false,
            cache_root: CacheRoot::resolve(),
        }
    }

    /// How many services are hosted.
    pub fn service_count(&self) -> (r: usize)
        ensures
            r == self.services@.len(),
    {
        self.services.len()
    }

    /// The position of the first service with id `id`.
    pub fn position_of(&self, id: &str) -> (r: Option<usize>)
        ensures
            match r {
                Some(i) => spec_position(self.services@, id@) == Some(i as int) && i
                    < self.services@.len(),
                None => spec_position(self.services@, id@) is None,
            },
    {
        let mut i: usize = 0;
        while i < self.services.len()
            invariant
                i <= self.services@.len(),
                forall|j: int| 0 <= j < i ==> self.services@[j].config.id@ != id@,
            decreases self.services@.len() - i,
        {
            if same_text(self.services[i].config.id.as_str(), id) {
                proof {
                    let s = self.services@;
                    let k = choose|k: int|
                        0 <= k < s.len() && s[k].config.id@ == id@ && forall|j: int|
                            0 <= j < k ==> s[j].config.id@ != id@;
                    assert(0 <= k < s.len() && s[k].config.id@ == id@ && forall|j: int|
                        0 <= j < k ==> s[j].config.id@ != id@) by {
                        assert(0 <= i < s.len() && s[i as int].config.id@ == id@ && forall|j: int|
                            0 <= j < i ==> s[j].config.id@ != id@);
                    }
                    if k < i {
                        assert(s[k].config.id@ != id@);
                    }
                    if k > i {
                        assert(s[i as int].config.id@ != id@);
                    }
                }
                return Some(i);
            }
            i = i + 1;
        }
        None
    }

    /// The position of the service a newly initialized partition belongs to,
    /// if it still needs its view.
    pub fn attach_target(&self, service_id: &str) -> (r: Option<usize>)
        ensures
            match r {
                Some(i) => spec_position(self.services@, service_id@) == Some(i as int)
                    && !self.services@[i as int].has_browser_view,
                None => match spec_position(self.services@, service_id@) {
                    Some(i) => self.services@[i].has_browser_view,
                    None => true,
                },
            },
    {
        match self.position_of(service_id) {
            Some(i) => {
                if self.services[i].has_browser_view {
                    None
                } else {
                    Some(i)
                }
            },
            None => None,
        }
    }

    /// Records that the view of the service at `index` now exists; the
    /// service is no longer resetting. Says where the view goes.
    pub fn record_browser_view(&mut self, index: usize) -> (r: Placement)
        requires
            index < old(self).services@.len(),
        ensures
            final(self).services@.len() == old(self).services@.len(),
            final(self).services@[index as int].has_browser_view,
            !final(self).services@[index as int].resetting,
            final(self).services@[index as int].config == old(self).services@[index as int].config,
            forall|j: int|
                0 <= j < old(self).services@.len() && j != index ==> (#[trigger] final(self).services@[j])
                    == old(self).services@[j],
            final(self).active_index == old(self).active_index,
            final(self).has_window == old(self).has_window,
            final(self).download_dir == old(self).download_dir,
            final(self).partition_root() == old(self).partition_root(),
            r == if !old(self).has_window {
                Placement::NoWindow
            } else if index == old(self).active_index {
                Placement::Shown
            } else {
                Placement::Hidden
            },
    {
        let mut inst = self.services.remove(index);
        inst.has_browser_view = true;
        inst.resetting = false;
        self.services.insert(index, inst);
        proof {
            assert forall|j: int|
                0 <= j < old(self).services@.len() && j != index implies #[trigger] self.services@[j]
                == old(self).services@[j] by {}
        }
        if !self.has_window {
            Placement::NoWindow
        } else if index == self.active_index {
            Placement::Shown
        } else {
            Placement::Hidden
        }
    }

    /// Records the main window and makes the first service the active one in
    /// `badges` (so its updates do not raise its unread flag).
    pub fn setup_window(&mut self, badges: &mut BadgeState)
        requires
            old(badges).wf(),
        ensures
            final(badges).wf(),
            final(self).has_window,
            final(self).services == old(self).services,
            final(self).active_index == old(self).active_index,
            final(self).download_dir == old(self).download_dir,
            final(self).partition_root() == old(self).partition_root(),
            if old(self).services@.len() > 0 {
                &&& final(badges).active() == Some(old(self).services@[0].config.id@)
                &&& final(badges).unread() == crate::sidebar::keyed::upsert(
                    old(badges).unread(),
                    old(self).services@[0].config.id@,
                    false,
                )
                &&& final(badges).counts() == old(badges).counts()
            } else {
                *final(badges) == *old(badges)
            },
    {
        self.has_window = true;
        if self.services.len() > 0 {
            badges.set_active_service(self.services[0].config.id.as_str());
        }
    }

    /// The text the sidebar page is given: the template with the service
    /// list injected before `</body>`.
    pub fn sidebar_html(&self, template: &str) -> (r: String)
        ensures
            r@ == spec_sidebar_html(
                template@,
                self.services@.map_values(|s: ServiceInstance| s.config),
            ),
    {
        let ghost configs = self.services@.map_values(|s: ServiceInstance| s.config);
        let ghost parts = configs.map_values(|c: ServiceConfig| service_entry_json(c));
        let mut script = String::new();
        push_str(&mut script, "<script>initServices([");
        let ghost start = script@;
        let mut i: usize = 0;
        while i < self.services.len()
            invariant
                i <= self.services@.len(),
                configs == self.services@.map_values(|s: ServiceInstance| s.config),
                parts == configs.map_values(|c: ServiceConfig| service_entry_json(c)),
                script@ == start + comma_join(parts.take(i as int)),
            decreases self.services@.len() - i,
        {
            if i > 0 {
                push_char(&mut script, ',');
            }
            let c = &self.services[i].config;
            push_str(&mut script, "{\"id\":\"");
            push_str(&mut script, c.id.as_str());
            push_str(&mut script, "\",\"name\":\"");
            push_str(&mut script, c.name.as_str());
            push_str(&mut script, "\",\"url\":\"");
            push_str(&mut script, c.url.as_str());
            push_str(&mut script, "\"}");
            proof {
                let t = parts.take(i + 1);
                assert(t.drop_last() =~= parts.take(i as int));
                assert(t.last() == service_entry_json(*c));
                assert(script@ =~= start + comma_join(t));
            }
            i = i + 1;
        }
        assert(parts.take(i as int) =~= parts);
        push_str(&mut script, "]);</script>");
        let mut rep = String::new();
        push_str(&mut rep, script.as_str());
        push_str(&mut rep, "</body>");
        proof {
            reveal_strlit("</body>");
        }
        replace_text(template, "</body>", rep.as_str())
    }

    /// Where the sidebar and the active service's view go in a window of
    /// this size.
    pub fn layout_views(&self, width: i32, height: i32) -> (r: Layout)
        requires
            width - SIDEBAR_WIDTH >= i32::MIN,
        ensures
            r.sidebar == (Rect { x: 0, y: 0, width: SIDEBAR_WIDTH, height }),
            r.active_service == if self.active_index < self.services@.len()
                && self.services@[self.active_index as int].has_browser_view {
                Some(Rect { x: SIDEBAR_WIDTH, y: 0, width: (width - SIDEBAR_WIDTH) as i32, height })
            } else {
                None
            },
    {
        let sidebar = Rect { x: 0, y: 0, width: SIDEBAR_WIDTH, height };
        let active_service = if self.active_index < self.services.len()
            && self.services[self.active_index].has_browser_view {
            Some(Rect { x: SIDEBAR_WIDTH, y: 0, width: width - SIDEBAR_WIDTH, height })
        } else {
            None
        };
        Layout { sidebar, active_service }
    }

    /// Shows the service at `index` when it exists, is not the active one, is
    /// not resetting, has its view, and the window is set up: it becomes
    /// active, and active in `badges`. Otherwise nothing changes.
    pub fn switch_to_index(&mut self, index: usize, badges: &mut BadgeState) -> (r: Option<Switched>)
        requires
            old(badges).wf(),
        ensures
            final(badges).wf(),
            final(self).services == old(self).services,
            final(self).has_window == old(self).has_window,
            final(self).download_dir == old(self).download_dir,
            final(self).partition_root() == old(self).partition_root(),
            switch_outcome(*old(self), *final(self), *old(badges), *final(badges), index as int, r),
    {
        if index >= self.services.len() || index == self.active_index {
            return None;
        }
        if self.services[index].resetting || !self.services[index].has_browser_view {
            return None;
        }
        if !self.has_window {
            return None;
        }
        let previous = self.active_index;
        self.active_index = index;
        badges.set_active_service(self.services[index].config.id.as_str());
        let badges_json = badges.to_json();
        Some(Switched { previous, badges_json })
    }

    /// Shows the first service with id `id`, as `switch_to_index` does.
    pub fn switch_to_id(&mut self, id: &str, badges: &mut BadgeState) -> (r: Option<Switched>)
        requires
            old(badges).wf(),
        ensures
            final(badges).wf(),
            final(self).services == old(self).services,
            final(self).has_window == old(self).has_window,
            final(self).download_dir == old(self).download_dir,
            final(self).partition_root() == old(self).partition_root(),
            match spec_position(old(self).services@, id@) {
                Some(i) => switch_outcome(*old(self), *final(self), *old(badges), *final(badges), i, r),
                None => r is None && final(self).active_index == old(self).active_index
                    && *final(badges) == *old(badges),
            },
    {
        match self.position_of(id) {
            Some(i) => self.switch_to_index(i, badges),
            None => None,
        }
    }

    /// How to reset the first service with id `service_id`; `None` when no
    /// service has that id. The partition it flags is that service's
    /// partition under the deck's cache root. The browser itself is never
    /// destroyed.
    pub fn reset_service(&self, service_id: &str) -> (r: Option<ResetPlan>)
        ensures
            match spec_position(self.services@, service_id@) {
                Some(i) => r matches Some(p) && (exists|base: Option<Seq<u8>>|
                    p.partition_dir@ == spec_partition_dir(spec_cef_root(base), service_id@))
                    && p.partition_dir@ == spec_partition_dir(self.partition_root(), service_id@)
                    && (
                match p.wipe_script {
                    Some(w) => self.services@[i].has_browser_view && w@ == RESET_SCRIPT_HEAD@
                        + self.services@[i].config.url@ + RESET_SCRIPT_TAIL@,
                    None => !self.services@[i].has_browser_view,
                }),
                None => r is None,
            },
    {
        match self.position_of(service_id) {
            Some(i) => {
                let dir = self.cache_root.partition_of(service_id);
                let wipe_script = if self.services[i].has_browser_view {
                    Some(reset_script(self.services[i].config.url.as_str()))
                } else {
                    None
                };
                Some(ResetPlan { partition_dir: dir, wipe_script })
            },
            None => None,
        }
    }

    /// The active service's position, when its view exists.
    pub fn active_browser(&self) -> (r: Option<usize>)
        ensures
            r == if self.active_index < self.services@.len()
                && self.services@[self.active_index as int].has_browser_view {
                Some(self.active_index)
            } else {
                None
            },
    {
        if self.active_index < self.services.len()
            && self.services[self.active_index].has_browser_view {
            Some(self.active_index)
        } else {
            None
        }
    }

    /// The position of the first service with id `service_id`, when its view
    /// exists.
    pub fn browser_for(&self, service_id: &str) -> (r: Option<usize>)
        ensures
            r == match spec_position(self.services@, service_id@) {
                Some(i) => if self.services@[i].has_browser_view {
                    Some(i as usize)
                } else {
                    None
                },
                None => None,
            },
    {
        match self.position_of(service_id) {
            Some(i) => {
                if self.services[i].has_browser_view {
                    Some(i)
                } else {
                    None
                }
            },
            None => None,
        }
    }
}

} // verus!
