//! Message types for sidebar <-> service communication, written as
//! `switch:<id>`, `reload:<id>` and `badge:<id>:<direct>:<indirect>`.

use vstd::prelude::*;
use crate::text::{chars_of, dec, lemma_parse_dec, parse_u32_chars, same_text, spec_parse_u32, string_of};

verus! {

/// A command from the sidebar.
#[derive(Debug)]
pub enum SidebarMessage {
    SwitchService { id: String },
    ReloadService { id: String },
    UpdateBadge { id: String, direct: u32, indirect: u32 },
}

/// A sidebar command with its ids as character sequences.
pub enum MessageView {
    SwitchService(Seq<char>),
    ReloadService(Seq<char>),
    UpdateBadge(Seq<char>, u32, u32),
}

impl View for SidebarMessage {
    type V = MessageView;

    open spec fn view(&self) -> MessageView {
        match self {
            SidebarMessage::SwitchService { id } => MessageView::SwitchService(id@),
            SidebarMessage::ReloadService { id } => MessageView::ReloadService(id@),
            SidebarMessage::UpdateBadge { id, direct, indirect } => MessageView::UpdateBadge(
                id@,
                *direct,
                *indirect,
            ),
        }
    }
}

/// `i` is the position of the first `:` in `s`.
pub open spec fn is_first_colon(s: Seq<char>, i: int) -> bool {
    &&& 0 <= i < s.len()
    &&& s[i] == ':'
    &&& forall|j: int| 0 <= j < i ==> s[j] != ':'
}

/// `s.splitn(2, ':')`: the text before the first `:`, and the text after it
/// when there is one.
pub open spec fn split_colon(s: Seq<char>) -> (Seq<char>, Option<Seq<char>>) {
    if exists|i: int| is_first_colon(s, i) {
        let i = choose|i: int| is_first_colon(s, i);
        (s.take(i), Some(s.skip(i + 1)))
    } else {
        (s, None)
    }
}

/// What a message text means, if anything.
pub open spec fn spec_parse_message(s: Seq<char>) -> Option<MessageView> {
    let (head, rest) = split_colon(s);
    if head == "switch"@ {
        match rest {
            Some(id) => Some(MessageView::SwitchService(id)),
            None => None,
        }
    } else if head == "reload"@ {
        match rest {
            Some(id) => Some(MessageView::ReloadService(id)),
            None => None,
        }
    } else if head == "badge"@ {
        match rest {
            Some(payload) => {
                let (id, tail) = split_colon(payload);
                match tail {
                    Some(counts) => {
                        let (d, i) = split_colon(counts);
                        match i {
                            Some(i) => match (spec_parse_u32(d), spec_parse_u32(i)) {
                                (Some(direct), Some(indirect)) => Some(
                                    MessageView::UpdateBadge(id, direct, indirect),
                                ),
                                _ => None,
                            },
                            None => None,
                        }
                    },
                    None => None,
                }
            },
            None => None,
        }
    } else {
        None
    }
}

/// With the first `:` at `i`, the split is around `i`.
pub proof fn lemma_split_at_first_colon(s: Seq<char>, i: int)
    requires
        is_first_colon(s, i),
    ensures
        split_colon(s) == (s.take(i), Some(s.skip(i + 1))),
{
    let c = choose|k: int| is_first_colon(s, k);
    assert(is_first_colon(s, c));
    if c < i {
        assert(s[c] != ':');
    }
    if i < c {
        assert(s[i] != ':');
    }
}

/// Without a `:`, there is nothing after the split.
pub proof fn lemma_split_no_colon(s: Seq<char>)
    requires
        forall|j: int| 0 <= j < s.len() ==> s[j] != ':',
    ensures
        split_colon(s) == (s, Option::<Seq<char>>::None),
{
}

/// The first `:` in `chars[lo..]`, if any.
fn find_colon(chars: &Vec<char>, lo: usize) -> (r: Option<usize>)
    requires
        lo <= chars@.len(),
    ensures
        match r {
            Some(i) => lo <= i && is_first_colon(
                chars@.subrange(lo as int, chars@.len() as int),
                i - lo,
            ),
            None => forall|j: int| lo <= j < chars@.len() ==> chars@[j] != ':',
        },
{
    let mut i = lo;
    while i < chars.len()
        invariant
            lo <= i <= chars@.len(),
            forall|j: int| lo <= j < i ==> chars@[j] != ':',
        decreases chars@.len() - i,
    {
        if chars[i] == ':' {
            let ghost s = chars@.subrange(lo as int, chars@.len() as int);
            assert forall|j: int| 0 <= j < i - lo implies s[j] != ':' by {
                assert(s[j] == chars@[lo + j]);
            }
            return Some(i);
        }
        i = i + 1;
    }
    None
}

/// Splits `chars[lo..]` at its first `:`, as `split_colon` does.
pub(crate) fn split_colon_at(chars: &Vec<char>, lo: usize) -> (r: Option<usize>)
    requires
        lo <= chars@.len(),
    ensures
        match r {
            Some(i) => lo <= i < chars@.len() && split_colon(
                chars@.subrange(lo as int, chars@.len() as int),
            ) == (chars@.subrange(lo as int, i as int), Some(
                chars@.subrange(i + 1, chars@.len() as int),
            )),
            None => split_colon(chars@.subrange(lo as int, chars@.len() as int)) == (
                chars@.subrange(lo as int, chars@.len() as int),
                Option::<Seq<char>>::None,
            ),
        },
{
    let ghost s = chars@.subrange(lo as int, chars@.len() as int);
    match find_colon(chars, lo) {
        Some(i) => {
            proof {
                lemma_split_at_first_colon(s, i - lo);
                assert(s.take(i - lo) =~= chars@.subrange(lo as int, i as int));
                assert(s.skip(i - lo + 1) =~= chars@.subrange(i + 1, chars@.len() as int));
            }
            Some(i)
        },
        None => {
            proof {
                assert forall|j: int| 0 <= j < s.len() implies s[j] != ':' by {
                    assert(s[j] == chars@[lo + j]);
                }
                lemma_split_no_colon(s);
            }
            None
        },
    }
}

impl SidebarMessage {
    /// Reads `switch:<id>`, `reload:<id>` or `badge:<id>:<direct>:<indirect>`;
    /// anything else is `None`.
    pub fn parse(msg: &str) -> (r: Option<SidebarMessage>)
        ensures
            match r {
                Some(m) => spec_parse_message(msg@) == Some(m@),
                None => spec_parse_message(msg@) is None,
            },
    {
        let chars = chars_of(msg);
        let n = chars.len();
        assert(chars@.subrange(0, n as int) =~= msg@);
        let first = split_colon_at(&chars, 0);
        let head_end = match first {
            Some(i) => i,
            None => n,
        };
        let head = string_of(&chars, 0, head_end);
        if same_text(head.as_str(), "switch") {
            match first {
                Some(i) => Some(SidebarMessage::SwitchService { id: string_of(&chars, i + 1, n) }),
                None => None,
            }
        } else if same_text(head.as_str(), "reload") {
            match first {
                Some(i) => Some(SidebarMessage::ReloadService { id: string_of(&chars, i + 1, n) }),
                None => None,
            }
        } else if same_text(head.as_str(), "badge") {
            match first {
                Some(i) => {
                    let p0 = i + 1;
                    let second = split_colon_at(&chars, p0);
                    match second {
                        Some(j) => {
                            let third = split_colon_at(&chars, j + 1);
                            match third {
                                Some(k) => {
                                    let direct = parse_u32_chars(&chars, j + 1, k);
                                    let indirect = parse_u32_chars(&chars, k + 1, n);
                                    match (direct, indirect) {
                                        (Some(d), Some(x)) => Some(
                                            SidebarMessage::UpdateBadge {
                                                id: string_of(&chars, p0, j),
                                                direct: d,
                                                indirect: x,
                                            },
                                        ),
                                        _ => None,
                                    }
                                },
                                None => None,
                            }
                        },
                        None => None,
                    }
                },
                None => None,
            }
        } else {
            None
        }
    }
}

/// `switch:<id>` always reads back as a switch to `id`.
pub proof fn lemma_switch_round_trip(id: Seq<char>)
    ensures
        spec_parse_message("switch:"@ + id) == Some(MessageView::SwitchService(id)),
{
    reveal_strlit("switch:");
    reveal_strlit("switch");
    let s = "switch:"@ + id;
    assert(is_first_colon(s, 6));
    lemma_split_at_first_colon(s, 6);
    assert(s.take(6) =~= "switch"@);
    assert(s.skip(7) =~= id);
}

/// `reload:<id>` always reads back as a reload of `id`.
pub proof fn lemma_reload_round_trip(id: Seq<char>)
    ensures
        spec_parse_message("reload:"@ + id) == Some(MessageView::ReloadService(id)),
{
    reveal_strlit("reload:");
    reveal_strlit("reload");
    reveal_strlit("switch");
    let s = "reload:"@ + id;
    assert(is_first_colon(s, 6));
    lemma_split_at_first_colon(s, 6);
    assert(s.take(6) =~= "reload"@);
    assert(s.skip(7) =~= id);
    assert("reload"@[0] != "switch"@[0]);
}

/// The counts part `<direct>:<indirect>` of a badge message splits into the
/// two decimal numbers.
proof fn lemma_counts_split(direct: u32, indirect: u32)
    ensures
        ({
            let counts = dec(direct as nat) + ":"@ + dec(indirect as nat);
            split_colon(counts) == (dec(direct as nat), Some(dec(indirect as nat)))
        }),
{
    reveal_strlit(":");
    crate::text::lemma_dec_value(direct as nat);
    let dd = dec(direct as nat);
    let di = dec(indirect as nat);
    let counts = dd + ":"@ + di;
    assert forall|j: int| 0 <= j < dd.len() implies counts[j] != ':' by {
        assert(counts[j] == dd[j]);
        assert(crate::text::is_digit(dd[j]));
    }
    assert(is_first_colon(counts, dd.len() as int));
    lemma_split_at_first_colon(counts, dd.len() as int);
    assert(counts.take(dd.len() as int) =~= dd);
    assert(counts.skip(dd.len() as int + 1) =~= di);
}

/// The payload `<id>:<counts>` of a badge message splits at the end of a
/// `:`-free id.
proof fn lemma_payload_split(id: Seq<char>, counts: Seq<char>)
    requires
        forall|j: int| 0 <= j < id.len() ==> id[j] != ':',
    ensures
        split_colon(id + ":"@ + counts) == (id, Some(counts)),
{
    reveal_strlit(":");
    let payload = id + ":"@ + counts;
    assert forall|j: int| 0 <= j < id.len() implies payload[j] != ':' by {
        assert(payload[j] == id[j]);
    }
    assert(is_first_colon(payload, id.len() as int));
    lemma_split_at_first_colon(payload, id.len() as int);
    assert(payload.take(id.len() as int) =~= id);
    assert(payload.skip(id.len() as int + 1) =~= counts);
}

/// A badge message written with decimal counts and a `:`-free id reads back
/// as exactly that update.
pub proof fn lemma_badge_round_trip(id: Seq<char>, direct: u32, indirect: u32)
    requires
        forall|j: int| 0 <= j < id.len() ==> id[j] != ':',
    ensures
        spec_parse_message(
            "badge:"@ + id + ":"@ + dec(direct as nat) + ":"@ + dec(indirect as nat),
        ) == Some(MessageView::UpdateBadge(id, direct, indirect)),
{
    reveal_strlit("badge:");
    reveal_strlit("badge");
    reveal_strlit("switch");
    reveal_strlit("reload");
    lemma_parse_dec(direct);
    lemma_parse_dec(indirect);
    let counts = dec(direct as nat) + ":"@ + dec(indirect as nat);
    let payload = id + ":"@ + counts;
    let s = "badge:"@ + payload;
    assert(s =~= "badge:"@ + id + ":"@ + dec(direct as nat) + ":"@ + dec(indirect as nat));
    assert(is_first_colon(s, 5));
    lemma_split_at_first_colon(s, 5);
    assert(s.take(5) =~= "badge"@);
    assert(s.skip(6) =~= payload);
    assert("badge"@[0] != "switch"@[0]);
    assert("badge"@[0] != "reload"@[0]);
    lemma_payload_split(id, counts);
    lemma_counts_split(direct, indirect);
}

} // verus!
