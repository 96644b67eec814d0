//! What a service page's title, console messages and notifications do to the
//! badge state, and which desktop notifications they raise.

use vstd::prelude::*;
use crate::handlers::load::{has_badge_script, spec_badge_script};
use crate::sidebar::badge::{
    increment_spec, mark_unread_spec, set_badge_spec, unread_json, BadgeState,
};
use crate::text::{
    is_digit, is_first_index, is_last_index, lemma_dec_value, lemma_parse_dec,
    chars_of, dec, first_index, last_index, parse_u32_chars, push_chars,
    push_decimal, push_str, spec_parse_u32, strip_prefix_text, find_char, rfind_char,
};

verus! {

/// The count a title announces: `(N) ...` at the start, else `... (N)` at the
/// end, else zero.
pub open spec fn spec_title_badge(s: Seq<char>) -> u32 {
    let front = if s.len() > 0 && s[0] == '(' {
        match first_index(s, ')') {
            Some(e) => spec_parse_u32(s.subrange(1, e)),
            None => None,
        }
    } else {
        None
    };
    match front {
        Some(n) => n,
        None => {
            let back = if s.len() > 0 && s[s.len() - 1] == ')' {
                match last_index(s, '(') {
                    Some(b) => spec_parse_u32(s.subrange(b + 1, s.len() - 1)),
                    None => None,
                }
            } else {
                None
            };
            match back {
                Some(n) => n,
                None => 0,
            }
        },
    }
}

/// Reads the badge count from titles like "(3) Messenger" or
/// "Telegram Web (3)"; zero when there is none.
pub fn parse_badge_from_title(title: &str) -> (r: u32)
    ensures
        r == spec_title_badge(title@),
{
    let chars = chars_of(title);
    let n = chars.len();
    if n > 0 && chars[0] == '(' {
        match find_char(&chars, ')') {
            Some(e) => {
                if let Some(v) = parse_u32_chars(&chars, 1, e) {
                    return v;
                }
            },
            None => {},
        }
    }
    if n > 0 && chars[n - 1] == ')' {
        match rfind_char(&chars, '(') {
            Some(b) => {
                if let Some(v) = parse_u32_chars(&chars, b + 1, n - 1) {
                    return v;
                }
            },
            None => {},
        }
    }
    0
}

/// Characters stripped from the front of a title before it is quoted in a
/// notification: `(`, `)`, ASCII digits and spaces.
pub open spec fn is_badge_decoration(c: char) -> bool {
    c == '(' || c == ')' || c == ' ' || ('0' <= c <= '9')
}

/// `s` without its leading badge decoration
/// (`trim_start_matches(is_badge_decoration)`).
pub open spec fn trim_decoration(s: Seq<char>) -> Seq<char>
    decreases s.len(),
{
    if s.len() > 0 && is_badge_decoration(s[0]) {
        trim_decoration(s.drop_first())
    } else {
        s
    }
}

proof fn lemma_trim_decoration_skip(s: Seq<char>, i: int)
    requires
        0 <= i <= s.len(),
        forall|j: int| 0 <= j < i ==> is_badge_decoration(#[trigger] s[j]),
    ensures
        trim_decoration(s) == trim_decoration(s.skip(i)),
    decreases i,
{
    if i > 0 {
        let t = s.drop_first();
        assert(is_badge_decoration(s[0]));
        assert forall|j: int| 0 <= j < i - 1 implies is_badge_decoration(#[trigger] t[j]) by {
            assert(t[j] == s[j + 1]);
        }
        lemma_trim_decoration_skip(t, i - 1);
        assert(t.skip(i - 1) =~= s.skip(i));
    } else {
        assert(s.skip(0) =~= s);
    }
}

fn is_decoration_char(c: char) -> (r: bool)
    ensures
        r == is_badge_decoration(c),
{
    c == '(' || c == ')' || c == ' ' || ('0' <= c && c <= '9')
}

/// `title` without its leading badge decoration.
pub fn trim_badge_decoration(title: &str) -> (r: String)
    ensures
        r@ == trim_decoration(title@),
{
    let chars = chars_of(title);
    let mut i: usize = 0;
    while i < chars.len() && is_decoration_char(chars[i])
        invariant
            i <= chars@.len(),
            chars@ == title@,
            forall|j: int| 0 <= j < i ==> is_badge_decoration(#[trigger] chars@[j]),
        decreases chars@.len() - i,
    {
        i = i + 1;
    }
    proof {
        lemma_trim_decoration_skip(chars@, i as int);
        let rest = chars@.skip(i as int);
        assert(rest.len() == 0 || !is_badge_decoration(rest[0]));
        assert(chars@.subrange(i as int, chars@.len() as int) =~= rest);
    }
    let mut r = String::new();
    push_chars(&mut r, &chars, i, chars.len());
    r
}

/// A desktop notification: summary line and body.
pub struct Notification {
    pub summary: String,
    pub body: String,
}

/// `[<id>] New message`
pub open spec fn new_message_summary(id: Seq<char>) -> Seq<char> {
    "["@ + id + "] New message"@
}

/// The notification raised by a rising title count.
pub open spec fn title_notification(id: Seq<char>, title: Seq<char>) -> (Seq<char>, Seq<char>) {
    (new_message_summary(id), "New notification from "@ + trim_decoration(title))
}

/// The notification raised by a badge script: it names the first sender, or
/// else gives the direct count.
pub open spec fn badge_notification(id: Seq<char>, direct: u32, senders: Seq<Seq<char>>) -> (
    Seq<char>,
    Seq<char>,
) {
    (
        new_message_summary(id),
        if senders.len() > 0 {
            "From: "@ + senders[0]
        } else {
            dec(direct as nat) + " new direct message(s)"@
        },
    )
}

/// The summary line of a notification the page raised itself.
pub open spec fn page_notification_summary(service: Option<Seq<char>>, title: Option<Seq<char>>) -> Seq<
    char,
> {
    match (service, title) {
        (Some(s), Some(t)) => "["@ + s + "] "@ + t,
        (None, Some(t)) => t,
        (Some(s), None) => "["@ + s + "] New notification"@,
        (None, None) => "New notification"@,
    }
}

fn summary_for(service_id: &str) -> (r: String)
    ensures
        r@ == new_message_summary(service_id@),
{
    let mut r = String::new();
    push_str(&mut r, "[");
    push_str(&mut r, service_id);
    push_str(&mut r, "] New message");
    r
}

/// What a badge event asks of the browser: the sidebar's new unread JSON,
/// and a desktop notification to show.
pub struct BadgeUpdate {
    pub badges_json: Option<String>,
    pub notification: Option<Notification>,
}

/// A title change of the service `service_id`. Services with a badge script
/// only get their unread flag raised when the title shows a count (their
/// script reports the counts); the others take the title's count as their
/// direct count and are notified when it rises.
pub fn on_title_change(state: &mut BadgeState, service_id: &str, title: &str) -> (r: BadgeUpdate)
    requires
        old(state).wf(),
    ensures
        final(state).wf(),
        ({
            let count = spec_title_badge(title@);
            if spec_badge_script(service_id@) is Some {
                if count > 0 {
                    &&& mark_unread_spec(*old(state), *final(state), service_id@)
                    &&& r.badges_json matches Some(j) && j@ == unread_json(final(state).unread())
                    &&& r.notification is None
                } else {
                    &&& *final(state) == *old(state)
                    &&& r.badges_json is None
                    &&& r.notification is None
                }
            } else {
                exists|prev: (crate::sidebar::badge::BadgeCounts, bool)|
                    {
                        &&& set_badge_spec(*old(state), *final(state), service_id@, count, 0, prev)
                        &&& r.badges_json matches Some(j) && j@ == unread_json(
                            final(state).unread(),
                        )
                        &&& match r.notification {
                            Some(n) => prev.1 && (n.summary@, n.body@) == title_notification(
                                service_id@,
                                title@,
                            ),
                            None => !prev.1,
                        }
                    }
            }
        }),
{
    let count = parse_badge_from_title(title);
    if has_badge_script(service_id) {
        if count > 0 {
            state.mark_unread(service_id);
            let json = state.to_json();
            return BadgeUpdate { badges_json: Some(json), notification: None };
        }
        return BadgeUpdate { badges_json: None, notification: None };
    }
    let prev = state.set_count(service_id, count);
    let json = state.to_json();
    let notification = if prev.1 {
        let mut body = String::new();
        push_str(&mut body, "New notification from ");
        let clean = trim_badge_decoration(title);
        push_str(&mut body, clean.as_str());
        Some(Notification { summary: summary_for(service_id), body })
    } else {
        None
    };
    BadgeUpdate { badges_json: Some(json), notification }
}

/// A console message from a service page.
pub enum ConsoleMessage {
    /// `ferdirust:badge:<json>`: badge counts from the service's script.
    Badge(String),
    /// `ferdirust:notify:<json>`: a notification the page raised.
    Notify(String),
    /// Anything else: left to the console.
    Other,
}

/// Sorts a console message by its prefix; the payload follows the prefix.
pub fn classify_console_message(msg: &str) -> (r: ConsoleMessage)
    ensures
        match r {
            ConsoleMessage::Badge(j) => crate::text::starts_with_seq(msg@, "ferdirust:badge:"@)
                && j@ == msg@.skip("ferdirust:badge:"@.len() as int),
            ConsoleMessage::Notify(j) => !crate::text::starts_with_seq(msg@, "ferdirust:badge:"@)
                && crate::text::starts_with_seq(msg@, "ferdirust:notify:"@) && j@ == msg@.skip(
                "ferdirust:notify:"@.len() as int,
            ),
            ConsoleMessage::Other => !crate::text::starts_with_seq(msg@, "ferdirust:badge:"@)
                && !crate::text::starts_with_seq(msg@, "ferdirust:notify:"@),
        },
{
    if let Some(j) = strip_prefix_text(msg, "ferdirust:badge:") {
        return ConsoleMessage::Badge(j);
    }
    if let Some(j) = strip_prefix_text(msg, "ferdirust:notify:") {
        return ConsoleMessage::Notify(j);
    }
    ConsoleMessage::Other
}

/// The counts and senders of a badge payload, absent fields read as zero and
/// no senders.
pub fn badge_from_payload(direct: Option<u32>, indirect: Option<u32>, senders: Option<Vec<String>>) -> (r: (
    u32,
    u32,
    Vec<String>,
))
    ensures
        r.0 == match direct {
            Some(d) => d,
            None => 0,
        },
        r.1 == match indirect {
            Some(d) => d,
            None => 0,
        },
        r.2@ == match senders {
            Some(s) => s@,
            None => Seq::<String>::empty(),
        },
{
    let d = match direct {
        Some(d) => d,
        None => 0,
    };
    let i = match indirect {
        Some(i) => i,
        None => 0,
    };
    let s = match senders {
        Some(s) => s,
        None => Vec::new(),
    };
    (d, i, s)
}

/// Badge counts reported by a service's script: they replace the stored
/// counts; a notification names the first sender or gives the count.
pub fn on_badge_counts(
    state: &mut BadgeState,
    service_id: &str,
    direct: u32,
    indirect: u32,
    senders: &Vec<String>,
) -> (r: BadgeUpdate)
    requires
        old(state).wf(),
    ensures
        final(state).wf(),
        exists|prev: (crate::sidebar::badge::BadgeCounts, bool)|
            {
                &&& set_badge_spec(*old(state), *final(state), service_id@, direct, indirect, prev)
                &&& r.badges_json matches Some(j) && j@ == unread_json(final(state).unread())
                &&& match r.notification {
                    Some(n) => prev.1 && (n.summary@, n.body@) == badge_notification(
                        service_id@,
                        direct,
                        senders@.map_values(|s: String| s@),
                    ),
                    None => !prev.1,
                }
            },
{
    let prev = state.set_badge(service_id, direct, indirect);
    let json = state.to_json();
    let notification = if prev.1 {
        let mut body = String::new();
        if senders.len() > 0 {
            push_str(&mut body, "From: ");
            push_str(&mut body, senders[0].as_str());
        } else {
            push_decimal(&mut body, direct);
            push_str(&mut body, " new direct message(s)");
        }
        Some(Notification { summary: summary_for(service_id), body })
    } else {
        None
    };
    BadgeUpdate { badges_json: Some(json), notification }
}

/// A notification the page raised: the service's direct count goes up by
/// one; returns the sidebar's new unread JSON.
pub fn on_page_notification(state: &mut BadgeState, service_id: &str) -> (r: String)
    requires
        old(state).wf(),
        old(state).counts_of(service_id@).direct < u32::MAX,
    ensures
        final(state).wf(),
        exists|c: crate::sidebar::badge::BadgeCounts|
            increment_spec(*old(state), *final(state), service_id@, c),
        r@ == unread_json(final(state).unread()),
{
    state.increment(service_id);
    state.to_json()
}

/// The summary line of a notification the page raised, from its optional
/// service and title.
pub fn page_notification_summary_text(service: Option<&str>, title: Option<&str>) -> (r: String)
    ensures
        r@ == page_notification_summary(
            match service {
                Some(s) => Some(s@),
                None => None,
            },
            match title {
                Some(t) => Some(t@),
                None => None,
            },
        ),
{
    let mut r = String::new();
    match (service, title) {
        (Some(s), Some(t)) => {
            push_str(&mut r, "[");
            push_str(&mut r, s);
            push_str(&mut r, "] ");
            push_str(&mut r, t);
        },
        (None, Some(t)) => {
            push_str(&mut r, t);
        },
        (Some(s), None) => {
            push_str(&mut r, "[");
            push_str(&mut r, s);
            push_str(&mut r, "] New notification");
        },
        (None, None) => {
            push_str(&mut r, "New notification");
        },
    }
    r
}

/// A title that starts with `(N)` announces `N`.
pub proof fn lemma_leading_count(n: u32, rest: Seq<char>)
    ensures
        spec_title_badge(seq!['('] + dec(n as nat) + seq![')'] + rest) == n,
{
    let d = dec(n as nat);
    lemma_dec_value(n as nat);
    lemma_parse_dec(n);
    let s = seq!['('] + d + seq![')'] + rest;
    let e: int = d.len() as int + 1;
    assert(s[e] == ')');
    assert forall|j: int| 0 <= j < e implies s[j] != ')' by {
        if j > 0 {
            assert(s[j] == d[j - 1]);
            assert(is_digit(d[j - 1]));
        }
    }
    assert(is_first_index(s, ')', e));
    let c = choose|i: int| is_first_index(s, ')', i);
    if c < e {
        assert(s[c] != ')');
    }
    if c > e {
        assert(s[e] != ')');
    }
    assert(s.subrange(1, e) =~= d);
}

/// A title without other parentheses that ends with `(N)` announces `N`.
pub proof fn lemma_trailing_count(rest: Seq<char>, n: u32)
    requires
        forall|j: int| 0 <= j < rest.len() ==> rest[j] != '(' && rest[j] != ')',
    ensures
        spec_title_badge(rest + seq![' ', '('] + dec(n as nat) + seq![')']) == n,
{
    let d = dec(n as nat);
    lemma_dec_value(n as nat);
    lemma_parse_dec(n);
    let s = rest + seq![' ', '('] + d + seq![')'];
    let b: int = rest.len() as int + 1;
    assert(s[b] == '(');
    assert forall|j: int| b < j < s.len() implies s[j] != '(' by {
        if j < s.len() - 1 {
            assert(s[j] == d[j - b - 1]);
            assert(is_digit(d[j - b - 1]));
        }
    }
    assert(is_last_index(s, '(', b));
    let c = choose|i: int| is_last_index(s, '(', i);
    if c < b {
        assert(s[b] != '(');
    }
    if c > b {
        assert(s[c] != '(');
    }
    assert(s.subrange(b + 1, s.len() - 1) =~= d);
    if s[0] == '(' {
        if rest.len() > 0 {
            assert(s[0] == rest[0]);
        }
    }
}

} // verus!
