//! Where a main-frame navigation of a service goes.

use vstd::prelude::*;
use crate::text::{contains_seq, contains_text, mentions_any, mentions_any_origin, views_of};

verus! {

/// What becomes of a main-frame navigation.
#[derive(Debug, Clone, Copy, PartialEq, Eq, Structural)]
pub enum NavigationDecision {
    /// Load it in the service's view.
    Allow,
    /// Open it in a popup that shares the service's storage partition.
    OpenPopup,
    /// Hand it to the system browser.
    OpenExternal,
}

/// Some allowed origin occurs both in the service's URL and in `url`.
pub open spec fn within_own_domain(service_url: Seq<char>, origins: Seq<Seq<char>>, url: Seq<char>) -> bool {
    exists|i: int|
        0 <= i < origins.len() && contains_seq(service_url, #[trigger] origins[i]) && contains_seq(
            url,
            origins[i],
        )
}

/// Some allowed origin occurs in `url` but not in the service's URL.
pub open spec fn to_external_allowed(service_url: Seq<char>, origins: Seq<Seq<char>>, url: Seq<char>) -> bool {
    exists|i: int|
        0 <= i < origins.len() && contains_seq(url, #[trigger] origins[i]) && !contains_seq(
            service_url,
            origins[i],
        )
}

/// Navigations within the service's own domain(s) load in place; those to
/// another allowed origin open in a popup; all others go to the system
/// browser.
pub open spec fn spec_navigation(service_url: Seq<char>, origins: Seq<Seq<char>>, url: Seq<char>) -> NavigationDecision {
    if within_own_domain(service_url, origins, url) {
        NavigationDecision::Allow
    } else if to_external_allowed(service_url, origins, url) {
        NavigationDecision::OpenPopup
    } else {
        NavigationDecision::OpenExternal
    }
}

fn any_own_domain(service_url: &str, origins: &Vec<String>, url: &str) -> (r: bool)
    ensures
        r == within_own_domain(service_url@, views_of(origins@), url@),
{
    let ghost o = views_of(origins@);
    let mut i: usize = 0;
    while i < origins.len()
        invariant
            i <= origins@.len(),
            o == views_of(origins@),
            forall|j: int|
                0 <= j < i ==> !(contains_seq(service_url@, #[trigger] o[j]) && contains_seq(
                    url@,
                    o[j],
                )),
        decreases origins@.len() - i,
    {
        if contains_text(service_url, origins[i].as_str()) && contains_text(url, origins[i].as_str()) {
            assert(contains_seq(service_url@, o[i as int]));
            return true;
        }
        i = i + 1;
    }
    false
}

fn any_external_allowed(service_url: &str, origins: &Vec<String>, url: &str) -> (r: bool)
    ensures
        r == to_external_allowed(service_url@, views_of(origins@), url@),
{
    let ghost o = views_of(origins@);
    let mut i: usize = 0;
    while i < origins.len()
        invariant
            i <= origins@.len(),
            o == views_of(origins@),
            forall|j: int|
                0 <= j < i ==> !(contains_seq(url@, #[trigger] o[j]) && !contains_seq(
                    service_url@,
                    o[j],
                )),
        decreases origins@.len() - i,
    {
        if contains_text(url, origins[i].as_str()) && !contains_text(service_url, origins[i].as_str()) {
            assert(contains_seq(url@, o[i as int]));
            return true;
        }
        i = i + 1;
    }
    false
}

/// The decision for a main-frame navigation to `url` of the service at
/// `service_url`.
pub fn navigation_decision(service_url: &str, allowed_origins: &Vec<String>, url: &str) -> (r:
    NavigationDecision)
    ensures
        r == spec_navigation(service_url@, views_of(allowed_origins@), url@),
{
    if any_own_domain(service_url, allowed_origins, url) {
        return NavigationDecision::Allow;
    }
    if any_external_allowed(service_url, allowed_origins, url) {
        return NavigationDecision::OpenPopup;
    }
    if !mentions_any_origin(url, allowed_origins) {
        return NavigationDecision::OpenExternal;
    }
    proof {
        let o = views_of(allowed_origins@);
        let i = choose|i: int| 0 <= i < o.len() && contains_seq(url@, #[trigger] o[i]);
        if contains_seq(service_url@, o[i]) {
            assert(within_own_domain(service_url@, o, url@));
        } else {
            assert(to_external_allowed(service_url@, o, url@));
        }
    }
    NavigationDecision::Allow
}

/// A URL that mentions none of the allowed origins never loads inside the
/// service: it goes to the system browser.
pub proof fn lemma_unlisted_goes_external(service_url: Seq<char>, origins: Seq<Seq<char>>, url: Seq<char>)
    requires
        !mentions_any(url, origins),
    ensures
        spec_navigation(service_url, origins, url) == NavigationDecision::OpenExternal,
{
    if within_own_domain(service_url, origins, url) {
        let i = choose|i: int|
            0 <= i < origins.len() && contains_seq(service_url, #[trigger] origins[i])
                && contains_seq(url, origins[i]);
        assert(contains_seq(url, origins[i]));
    }
    if to_external_allowed(service_url, origins, url) {
        let i = choose|i: int|
            0 <= i < origins.len() && contains_seq(url, #[trigger] origins[i]) && !contains_seq(
                service_url,
                origins[i],
            );
        assert(contains_seq(url, origins[i]));
    }
}

/// A navigation that loads in place mentions an allowed origin that the
/// service's own URL mentions too.
pub proof fn lemma_allowed_stays_in_domain(service_url: Seq<char>, origins: Seq<Seq<char>>, url: Seq<char>)
    requires
        spec_navigation(service_url, origins, url) == NavigationDecision::Allow,
    ensures
        within_own_domain(service_url, origins, url),
{
}

} // verus!
