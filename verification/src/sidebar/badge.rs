//! Per-service badge counts, desktop-notification debouncing and the unread
//! ("red dot") state that the sidebar shows.

use vstd::prelude::*;
use std::time::Duration;
use std::time::Instant;
use crate::sidebar::keyed::{key_pos, keys_unique, lemma_upsert, lookup, upsert, Keyed};
use crate::text::{contains_seq, occurs_at};
use crate::text::push_char;
use crate::text::push_str;
use crate::text::same_text;

verus! {

/// Seconds after the last notification during which a repeat below the
/// notified peak stays silent.
pub const NOTIFY_COOLDOWN_SECS: u64 = 0;

#[verifier::external_type_specification]
#[verifier::external_body]
pub struct ExInstant(Instant);

/// `Instant::now()`: the current monotonic time. Nothing is claimed of the
/// value; it only serves to measure the notification cooldown.
#[verifier::external_body]
fn instant_now() -> Instant {
    Instant::now()
}

/// `Instant::duration_since`: the time from `earlier` to `now` (zero if
/// `earlier` is later). Nothing is claimed of the value.
#[verifier::external_body]
fn duration_since(now: &Instant, earlier: &Instant) -> Duration {
    now.duration_since(*earlier)
}

/// `Duration::as_secs`: the whole seconds in `d`. Nothing is claimed of the
/// value beyond its type.
#[verifier::external_body]
fn duration_secs(d: &Duration) -> u64 {
    d.as_secs()
}

/// Direct (personal) and indirect (channel) unread counts of one service.
#[derive(Debug, Clone, Copy)]
pub struct BadgeCounts {
    pub direct: u32,
    pub indirect: u32,
}

impl Default for BadgeCounts {
    fn default() -> (r: Self)
        ensures
            r == zero_counts(),
    {
        BadgeCounts { direct: 0, indirect: 0 }
    }
}

/// Both counts zero.
pub open spec fn zero_counts() -> BadgeCounts {
    BadgeCounts { direct: 0, indirect: 0 }
}

impl BadgeCounts {
    /// Direct plus indirect.
    pub fn total(&self) -> (r: u32)
        requires
            self.direct + self.indirect <= u32::MAX,
        ensures
            r == self.direct + self.indirect,
    {
        self.direct + self.indirect
    }
}

/// When a service was last notified for, and at which direct count.
#[derive(Clone, Copy)]
pub struct NotifyMark {
    pub peak: u32,
    pub at: Instant,
}

/// The counts stored for `k`, zero when there are none.
pub open spec fn counts_in(s: Seq<(Seq<char>, BadgeCounts)>, k: Seq<char>) -> BadgeCounts {
    match lookup(s, k) {
        Some(c) => c,
        None => zero_counts(),
    }
}

/// The sum of all totals.
pub open spec fn sum_totals(s: Seq<(Seq<char>, BadgeCounts)>) -> nat
    decreases s.len(),
{
    if s.len() == 0 {
        0
    } else {
        sum_totals(s.drop_last()) + s.last().1.direct as nat + s.last().1.indirect as nat
    }
}

/// `true` or `false`, as text.
pub open spec fn flag_text(b: bool) -> Seq<char> {
    if b {
        seq!['t', 'r', 'u', 'e']
    } else {
        seq!['f', 'a', 'l', 's', 'e']
    }
}

/// `"id":flag`
pub open spec fn entry_json(e: (Seq<char>, bool)) -> Seq<char> {
    seq!['"'] + e.0 + seq!['"', ':'] + flag_text(e.1)
}

/// The entries' JSON members, comma-separated, in order.
pub open spec fn entries_json(s: Seq<(Seq<char>, bool)>) -> Seq<char>
    decreases s.len(),
{
    if s.len() == 0 {
        Seq::empty()
    } else if s.len() == 1 {
        entry_json(s[0])
    } else {
        entries_json(s.drop_last()) + seq![','] + entry_json(s.last())
    }
}

/// The JSON object mapping each service id to its unread flag.
pub open spec fn unread_json(s: Seq<(Seq<char>, bool)>) -> Seq<char> {
    seq!['{'] + entries_json(s) + seq!['}']
}

/// The effect of `set_badge(id, direct, indirect)` returning `r`: the counts
/// are replaced, the previous counts returned; a notification is due exactly
/// when the direct count rises above zero and above its previous value; the
/// service is flagged unread when either count rises, unless it is active.
pub open spec fn set_badge_spec(
    pre: BadgeState,
    post: BadgeState,
    id: Seq<char>,
    direct: u32,
    indirect: u32,
    r: (BadgeCounts, bool),
) -> bool {
    &&& post.wf()
    &&& r.0 == pre.counts_of(id)
    &&& r.1 == (direct > 0 && direct > r.0.direct)
    &&& post.counts() == upsert(pre.counts(), id, BadgeCounts { direct, indirect })
    &&& post.unread() == if (direct > r.0.direct || indirect > r.0.indirect) && pre.active() != Some(
        id,
    ) {
        upsert(pre.unread(), id, true)
    } else {
        pre.unread()
    }
    &&& forall|k: Seq<char>|
        #[trigger] post.peak(k) == if r.1 && k == id {
            Some(direct)
        } else {
            pre.peak(k)
        }
    &&& post.active() == pre.active()
}

/// The effect of `mark_unread(id)`: the service is flagged unread unless it
/// is active; nothing else changes.
pub open spec fn mark_unread_spec(pre: BadgeState, post: BadgeState, id: Seq<char>) -> bool {
    &&& post.wf()
    &&& post.counts() == pre.counts()
    &&& post.unread() == if pre.active() == Some(id) {
        pre.unread()
    } else {
        upsert(pre.unread(), id, true)
    }
    &&& forall|k: Seq<char>| #[trigger] post.peak(k) == pre.peak(k)
    &&& post.active() == pre.active()
}

/// The effect of `increment(id)` returning `r`: the direct count goes up by
/// one, `r` is the new counts, and the service is flagged unread unless it is
/// active.
pub open spec fn increment_spec(pre: BadgeState, post: BadgeState, id: Seq<char>, r: BadgeCounts) -> bool {
    &&& r == (BadgeCounts {
        direct: (pre.counts_of(id).direct + 1) as u32,
        indirect: pre.counts_of(id).indirect,
    })
    &&& post.counts() == upsert(pre.counts(), id, r)
    &&& post.wf()
    &&& post.unread() == if pre.active() == Some(id) {
        pre.unread()
    } else {
        upsert(pre.unread(), id, true)
    }
    &&& forall|k: Seq<char>| #[trigger] post.peak(k) == pre.peak(k)
    &&& post.active() == pre.active()
}

/// Badge bookkeeping for all services.
pub struct BadgeState {
    counts: Keyed<BadgeCounts>,
    /// The direct count last notified for, and when.
    notified: Keyed<NotifyMark>,
    /// Whether a service has unread activity since the user last viewed it.
    unread: Keyed<bool>,
    /// The service the user is viewing: it is never marked unread.
    active_service: Option<String>,
}

impl BadgeState {
    /// Counts per service id, in the order the ids first appeared.
    pub closed spec fn counts(&self) -> Seq<(Seq<char>, BadgeCounts)> {
        self.counts.view()
    }

    /// Unread flag per service id, in the order the ids first appeared.
    pub closed spec fn unread(&self) -> Seq<(Seq<char>, bool)> {
        self.unread.view()
    }

    /// The direct count a notification was last sent for, per service id.
    pub closed spec fn peak(&self, k: Seq<char>) -> Option<u32> {
        match lookup(self.notified.view(), k) {
            Some(m) => Some(m.peak),
            None => None,
        }
    }

    /// The service the user is viewing.
    pub closed spec fn active(&self) -> Option<Seq<char>> {
        match self.active_service {
            Some(s) => Some(s@),
            None => None,
        }
    }

    /// The counts of service `k` (zero if it has none).
    pub open spec fn counts_of(&self, k: Seq<char>) -> BadgeCounts {
        counts_in(self.counts(), k)
    }

    /// Ids are unique in every table, and the active service is never
    /// flagged unread.
    pub closed spec fn wf(&self) -> bool {
        &&& keys_unique(self.counts.view())
        &&& keys_unique(self.notified.view())
        &&& keys_unique(self.unread.view())
        &&& match self.active() {
            Some(a) => lookup(self.unread.view(), a) != Some(true),
            None => true,
        }
    }

    pub fn new() -> (r: Self)
        ensures
            r.wf(),
            r.counts() == Seq::<(Seq<char>, BadgeCounts)>::empty(),
            r.unread() == Seq::<(Seq<char>, bool)>::empty(),
            forall|k: Seq<char>| r.peak(k) is None,
            r.active() is None,
    {
        BadgeState {
            counts: Keyed::new(),
            notified: Keyed::new(),
            unread: Keyed::new(),
            active_service: None,
        }
    }

    /// Whether `service_id` is the active service.
    fn is_active(&self, service_id: &str) -> (r: bool)
        ensures
            r == (self.active() == Some(service_id@)),
    {
        match &self.active_service {
            Some(a) => same_text(a.as_str(), service_id),
            None => false,
        }
    }

    /// Flags `service_id` unread unless it is the active service.
    fn flag_unread_unless_active(&mut self, service_id: &str)
        requires
            old(self).wf(),
        ensures
            final(self).wf(),
            final(self).unread() == if old(self).active() == Some(service_id@) {
                old(self).unread()
            } else {
                upsert(old(self).unread(), service_id@, true)
            },
            final(self).counts() == old(self).counts(),
            final(self).notified.view() == old(self).notified.view(),
            final(self).active() == old(self).active(),
    {
        if !self.is_active(service_id) {
            proof {
                lemma_upsert(self.unread.view(), service_id@, true);
            }
            self.unread.insert(service_id, true);
        }
    }

    /// Sets the direct and indirect counts of `service_id`; returns the
    /// previous counts and whether to send a desktop notification. A service
    /// is notified for when its direct count rises; it is flagged unread when
    /// either count rises, unless it is the active service.
    pub fn set_badge(&mut self, service_id: &str, direct: u32, indirect: u32) -> (r: (
        BadgeCounts,
        bool,
    ))
        requires
            old(self).wf(),
        ensures
            set_badge_spec(*old(self), *final(self), service_id@, direct, indirect, r),
    {
        let prev = match self.counts.insert(service_id, BadgeCounts { direct, indirect }) {
            Some(c) => c,
            None => BadgeCounts::default(),
        };
        proof {
            lemma_upsert(old(self).counts.view(), service_id@, BadgeCounts { direct, indirect });
        }
        if direct > prev.direct || indirect > prev.indirect {
            self.flag_unread_unless_active(service_id);
        }
        let should_notify = if direct > 0 && direct > prev.direct {
            let now = instant_now();
            match self.notified.get(service_id) {
                Some(mark) => {
                    if direct > mark.peak {
                        true
                    } else if duration_secs(&duration_since(&now, &mark.at))
                        >= NOTIFY_COOLDOWN_SECS {
                        direct > prev.direct
                    } else {
                        false
                    }
                },
                None => true,
            }
        } else {
            false
        };
        let ghost before = self.notified.view();
        if should_notify {
            let mark = NotifyMark { peak: direct, at: instant_now() };
            proof {
                lemma_upsert(before, service_id@, mark);
            }
            self.notified.insert(service_id, mark);
        }
        (prev, should_notify)
    }

    /// Sets `count` as the direct count and zero as the indirect count.
    pub fn set_count(&mut self, service_id: &str, count: u32) -> (r: (BadgeCounts, bool))
        requires
            old(self).wf(),
        ensures
            set_badge_spec(*old(self), *final(self), service_id@, count, 0, r),
    {
        self.set_badge(service_id, count, 0)
    }

    /// Adds one to the direct count of `service_id` and flags it unread
    /// unless it is active; returns the new counts.
    pub fn increment(&mut self, service_id: &str) -> (r: BadgeCounts)
        requires
            old(self).wf(),
            old(self).counts_of(service_id@).direct < u32::MAX,
        ensures
            increment_spec(*old(self), *final(self), service_id@, r),
    {
        let cur = match self.counts.get(service_id) {
            Some(c) => c,
            None => BadgeCounts::default(),
        };
        let next = BadgeCounts { direct: cur.direct + 1, indirect: cur.indirect };
        self.counts.insert(service_id, next);
        proof {
            lemma_upsert(old(self).counts.view(), service_id@, next);
        }
        self.flag_unread_unless_active(service_id);
        next
    }

    /// Flags `service_id` unread (counts unchanged), unless it is active.
    pub fn mark_unread(&mut self, service_id: &str)
        requires
            old(self).wf(),
        ensures
            mark_unread_spec(*old(self), *final(self), service_id@),
    {
        self.flag_unread_unless_active(service_id);
    }

    /// Clears the unread flag of `service_id`.
    pub fn mark_viewed(&mut self, service_id: &str)
        requires
            old(self).wf(),
        ensures
            final(self).wf(),
            final(self).counts() == old(self).counts(),
            final(self).unread() == upsert(old(self).unread(), service_id@, false),
            forall|k: Seq<char>| #[trigger] final(self).peak(k) == old(self).peak(k),
            final(self).active() == old(self).active(),
    {
        proof {
            lemma_upsert(self.unread.view(), service_id@, false);
        }
        self.unread.insert(service_id, false);
    }

    /// Makes `service_id` the active service and clears its unread flag.
    pub fn set_active_service(&mut self, service_id: &str)
        requires
            old(self).wf(),
        ensures
            final(self).wf(),
            final(self).counts() == old(self).counts(),
            final(self).unread() == upsert(old(self).unread(), service_id@, false),
            forall|k: Seq<char>| #[trigger] final(self).peak(k) == old(self).peak(k),
            final(self).active() == Some(service_id@),
    {
        proof {
            lemma_upsert(self.unread.view(), service_id@, false);
        }
        self.unread.insert(service_id, false);
        self.active_service = Some(String::from_str(service_id));
    }

    /// The active service's id.
    pub fn active_service_id(&self) -> (r: Option<&str>)
        ensures
            match r {
                Some(s) => self.active() == Some(s@),
                None => self.active() is None,
            },
    {
        match &self.active_service {
            Some(s) => Some(s.as_str()),
            None => None,
        }
    }

    /// The direct count last notified for `service_id`.
    pub fn notified_peak(&self, service_id: &str) -> (r: Option<u32>)
        requires
            self.wf(),
        ensures
            r == self.peak(service_id@),
    {
        match self.notified.get(service_id) {
            Some(m) => Some(m.peak),
            None => None,
        }
    }

    /// The counts of `service_id` (zero if none were set).
    pub fn get_counts(&self, service_id: &str) -> (r: BadgeCounts)
        requires
            self.wf(),
        ensures
            r == self.counts_of(service_id@),
    {
        match self.counts.get(service_id) {
            Some(c) => c,
            None => BadgeCounts::default(),
        }
    }

    /// The sum of all services' totals.
    pub fn total_count(&self) -> (r: u32)
        requires
            sum_totals(self.counts()) <= u32::MAX,
        ensures
            r == sum_totals(self.counts()),
    {
        let mut sum: u32 = 0;
        let mut i: usize = 0;
        while i < self.counts.len()
            invariant
                i <= self.counts.view().len(),
                sum == sum_totals(self.counts.view().take(i as int)),
                sum_totals(self.counts.view()) <= u32::MAX,
            decreases self.counts.view().len() - i,
        {
            proof {
                lemma_sum_totals_prefix(self.counts.view(), i as int + 1);
                assert(self.counts.view().take(i + 1).drop_last() =~= self.counts.view().take(
                    i as int,
                ));
            }
            let c = self.counts.value_at(i);
            sum = sum + c.total();
            i = i + 1;
        }
        assert(self.counts.view().take(i as int) =~= self.counts.view());
        sum
    }

    /// A JSON object with each service's unread flag, in the order the
    /// services first appeared, e.g. `{"slack":true,"telegram":false}`.
    pub fn to_json(&self) -> (r: String)
        ensures
            r@ == unread_json(self.unread()),
    {
        let ghost s = self.unread.view();
        let mut r = String::new();
        push_char(&mut r, '{');
        let mut i: usize = 0;
        while i < self.unread.len()
            invariant
                s == self.unread.view(),
                i <= s.len(),
                r@ == seq!['{'] + entries_json(s.take(i as int)),
            decreases s.len() - i,
        {
            if i > 0 {
                push_char(&mut r, ',');
            }
            push_char(&mut r, '"');
            push_str(&mut r, self.unread.key_at(i).as_str());
            push_char(&mut r, '"');
            push_char(&mut r, ':');
            if self.unread.value_at(i) {
                push_char(&mut r, 't');
                push_char(&mut r, 'r');
                push_char(&mut r, 'u');
                push_char(&mut r, 'e');
            } else {
                push_char(&mut r, 'f');
                push_char(&mut r, 'a');
                push_char(&mut r, 'l');
                push_char(&mut r, 's');
                push_char(&mut r, 'e');
            }
            proof {
                let t = s.take(i + 1);
                assert(t.drop_last() =~= s.take(i as int));
                assert(t.last() == s[i as int]);
                assert(r@ =~= seq!['{'] + entries_json(t));
            }
            i = i + 1;
        }
        assert(s.take(i as int) =~= s);
        push_char(&mut r, '}');
        r
    }
}

proof fn lemma_sum_totals_prefix(s: Seq<(Seq<char>, BadgeCounts)>, k: int)
    requires
        0 <= k <= s.len(),
    ensures
        sum_totals(s.take(k)) <= sum_totals(s),
    decreases s.len(),
{
    if k < s.len() {
        assert(s.drop_last().take(k) =~= s.take(k));
        lemma_sum_totals_prefix(s.drop_last(), k);
    } else {
        assert(s.take(k) =~= s);
    }
}

/// The service being viewed never shows an unread dot.
pub proof fn lemma_active_never_unread(s: BadgeState)
    requires
        s.wf(),
    ensures
        match s.active() {
            Some(a) => lookup(s.unread(), a) != Some(true),
            None => true,
        },
{
}

/// After `set_badge(id, direct, indirect)` the counts of `id` read back as
/// exactly those, and every other service's counts are unchanged.
pub proof fn lemma_set_badge_then_get(
    pre: BadgeState,
    post: BadgeState,
    id: Seq<char>,
    direct: u32,
    indirect: u32,
    r: (BadgeCounts, bool),
)
    requires
        pre.wf(),
        set_badge_spec(pre, post, id, direct, indirect, r),
    ensures
        post.counts_of(id) == (BadgeCounts { direct, indirect }),
        forall|k: Seq<char>| k != id ==> post.counts_of(k) == pre.counts_of(k),
{
    lemma_upsert(pre.counts(), id, BadgeCounts { direct, indirect });
}

/// Reporting the same direct count twice in a row never notifies the second
/// time (a blinking title raises one notification).
pub proof fn lemma_same_count_notifies_once(
    s0: BadgeState,
    s1: BadgeState,
    s2: BadgeState,
    id: Seq<char>,
    direct: u32,
    indirect1: u32,
    indirect2: u32,
    r1: (BadgeCounts, bool),
    r2: (BadgeCounts, bool),
)
    requires
        s0.wf(),
        set_badge_spec(s0, s1, id, direct, indirect1, r1),
        set_badge_spec(s1, s2, id, direct, indirect2, r2),
    ensures
        !r2.1,
{
    lemma_set_badge_then_get(s0, s1, id, direct, indirect1, r1);
}

/// Only a rising direct count notifies: lowering or keeping it, or changing
/// only the indirect count, never does.
pub proof fn lemma_no_rise_no_notification(
    pre: BadgeState,
    post: BadgeState,
    id: Seq<char>,
    direct: u32,
    indirect: u32,
    r: (BadgeCounts, bool),
)
    requires
        set_badge_spec(pre, post, id, direct, indirect, r),
        direct <= pre.counts_of(id).direct,
    ensures
        !r.1,
        post.peak(id) == pre.peak(id),
{
}

proof fn lemma_contains_in_context(a: Seq<char>, x: Seq<char>, y: Seq<char>, n: Seq<char>)
    requires
        contains_seq(a, n),
    ensures
        contains_seq(x + a + y, n),
{
    let i = choose|i: int| occurs_at(a, n, i);
    let whole = x + a + y;
    assert(whole.subrange(x.len() + i, x.len() + i + n.len()) =~= a.subrange(i, i + n.len()));
    assert(occurs_at(whole, n, x.len() + i));
}

proof fn lemma_entries_json_shows(s: Seq<(Seq<char>, bool)>, p: int)
    requires
        0 <= p < s.len(),
    ensures
        contains_seq(entries_json(s), entry_json(s[p])),
    decreases s.len(),
{
    let e = entry_json(s[p]);
    if s.len() == 1 {
        assert(entries_json(s) =~= e);
        assert(entries_json(s).subrange(0, e.len() as int) =~= e);
        assert(occurs_at(entries_json(s), e, 0));
    } else if p == s.len() - 1 {
        let pre = entries_json(s.drop_last()) + seq![','];
        assert(entries_json(s) == pre + e);
        assert(e.subrange(0, e.len() as int) =~= e);
        assert(occurs_at(e, e, 0));
        lemma_contains_in_context(e, pre, Seq::empty(), e);
        assert(pre + e + Seq::<char>::empty() =~= pre + e);
    } else {
        lemma_entries_json_shows(s.drop_last(), p);
        assert(s.drop_last()[p] == s[p]);
        let tail = seq![','] + entry_json(s.last());
        lemma_contains_in_context(entries_json(s.drop_last()), Seq::empty(), tail, e);
        assert(Seq::<char>::empty() + entries_json(s.drop_last()) + tail =~= entries_json(s));
    }
}

/// The sidebar JSON shows each service's unread flag as `"id":flag`.
pub proof fn lemma_json_shows_flag(s: Seq<(Seq<char>, bool)>, id: Seq<char>, flag: bool)
    requires
        lookup(s, id) == Some(flag),
    ensures
        contains_seq(unread_json(s), entry_json((id, flag))),
{
    let p = key_pos(s, id);
    assert(s[p] == (id, flag));
    lemma_entries_json_shows(s, p);
    lemma_contains_in_context(entries_json(s), seq!['{'], seq!['}'], entry_json((id, flag)));
}

/// In a valid state each service id occurs once in the counts and once in
/// the unread table, and the service being viewed is not flagged unread.
pub proof fn lemma_wf_tables(s: BadgeState)
    requires
        s.wf(),
    ensures
        keys_unique(s.counts()),
        keys_unique(s.unread()),
        match s.active() {
            Some(a) => lookup(s.unread(), a) != Some(true),
            None => true,
        },
{
}

/// The sidebar JSON of a valid state holds one `"id":flag` member per
/// service id in the unread table, each giving that service's flag.
pub proof fn lemma_json_one_member_per_id(s: BadgeState)
    requires
        s.wf(),
    ensures
        keys_unique(s.unread()),
        forall|k: Seq<char>, b: bool|
            lookup(s.unread(), k) == Some(b) ==> contains_seq(
                unread_json(s.unread()),
                #[trigger] entry_json((k, b)),
            ),
{
    assert forall|k: Seq<char>, b: bool|
        lookup(s.unread(), k) == Some(b) implies contains_seq(
            unread_json(s.unread()),
            #[trigger] entry_json((k, b)),
        ) by {
        lemma_json_shows_flag(s.unread(), k, b);
    }
}

/// After `set_badge(id, direct, indirect)`, the unread flag of `id` is raised
/// when a count rose and `id` is not being viewed; every other flag, and the
/// active service, stay as they were.
pub proof fn lemma_set_badge_unread(
    pre: BadgeState,
    post: BadgeState,
    id: Seq<char>,
    direct: u32,
    indirect: u32,
    r: (BadgeCounts, bool),
)
    requires
        pre.wf(),
        set_badge_spec(pre, post, id, direct, indirect, r),
    ensures
        forall|k: Seq<char>|
            #[trigger] lookup(post.unread(), k) == if k == id && (direct > r.0.direct || indirect
                > r.0.indirect) && pre.active() != Some(id) {
                Some(true)
            } else {
                lookup(pre.unread(), k)
            },
        post.active() == pre.active(),
{
    lemma_upsert(pre.unread(), id, true);
}

/// After `increment(id)` returning `r`: the counts of `id` read back as `r`,
/// other services' counts are unchanged, the unread flag of `id` is raised
/// unless it is being viewed, other flags, the notification peaks and the
/// active service are unchanged.
pub proof fn lemma_increment_then_get(pre: BadgeState, post: BadgeState, id: Seq<char>, r: BadgeCounts)
    requires
        pre.wf(),
        increment_spec(pre, post, id, r),
    ensures
        post.counts_of(id) == r,
        forall|k: Seq<char>| k != id ==> #[trigger] post.counts_of(k) == pre.counts_of(k),
        forall|k: Seq<char>|
            #[trigger] lookup(post.unread(), k) == if k == id && pre.active() != Some(id) {
                Some(true)
            } else {
                lookup(pre.unread(), k)
            },
        forall|k: Seq<char>| #[trigger] post.peak(k) == pre.peak(k),
        post.active() == pre.active(),
{
    lemma_upsert(pre.counts(), id, r);
    lemma_upsert(pre.unread(), id, true);
}

/// After `mark_unread(id)`: the unread flag of `id` is raised unless it is
/// being viewed; every other flag, all counts, the notification peaks and
/// the active service are unchanged.
pub proof fn lemma_mark_unread_then_get(pre: BadgeState, post: BadgeState, id: Seq<char>)
    requires
        pre.wf(),
        mark_unread_spec(pre, post, id),
    ensures
        forall|k: Seq<char>|
            #[trigger] lookup(post.unread(), k) == if k == id && pre.active() != Some(id) {
                Some(true)
            } else {
                lookup(pre.unread(), k)
            },
        forall|k: Seq<char>| #[trigger] post.counts_of(k) == pre.counts_of(k),
        forall|k: Seq<char>| #[trigger] post.peak(k) == pre.peak(k),
        post.active() == pre.active(),
{
    lemma_upsert(pre.unread(), id, true);
}

/// After `mark_viewed(id)` or `set_active_service(id)` (which leave the
/// counts alone and clear the flag of `id`): the flag of `id` reads back as
/// `false`, every other flag and all counts are unchanged.
pub proof fn lemma_cleared_then_get(pre: BadgeState, post: BadgeState, id: Seq<char>)
    requires
        pre.wf(),
        post.counts() == pre.counts(),
        post.unread() == upsert(pre.unread(), id, false),
    ensures
        lookup(post.unread(), id) == Some(false),
        forall|k: Seq<char>| k != id ==> #[trigger] lookup(post.unread(), k) == lookup(pre.unread(), k),
        forall|k: Seq<char>| #[trigger] post.counts_of(k) == pre.counts_of(k),
{
    lemma_upsert(pre.unread(), id, false);
}

} // verus!
