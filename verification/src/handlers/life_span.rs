//! Which popups a service may open.

use vstd::prelude::*;
use crate::text::{mentions_any, mentions_any_origin, same_text, views_of};

verus! {

/// What becomes of a popup request.
#[derive(Debug, Clone, Copy, PartialEq, Eq, Structural)]
pub enum PopupDecision {
    /// Let the browser create the popup (with a permission-aware client).
    Allow,
    /// Cancel it and hand the URL to the system browser.
    OpenExternal,
    /// Cancel it: there is no target URL.
    Cancel,
}

/// `about:blank` (calls are opened blank, then navigated by script) and URLs
/// that mention an allowed origin may open; other URLs go to the system
/// browser.
pub open spec fn spec_popup_decision(origins: Seq<Seq<char>>, target: Option<Seq<char>>) -> PopupDecision {
    match target {
        Some(u) => if u == "about:blank"@ || mentions_any(u, origins) {
            PopupDecision::Allow
        } else {
            PopupDecision::OpenExternal
        },
        None => PopupDecision::Cancel,
    }
}

/// The decision for a popup to `target_url`.
pub fn popup_decision(allowed_origins: &Vec<String>, target_url: Option<&str>) -> (r: PopupDecision)
    ensures
        r == spec_popup_decision(
            views_of(allowed_origins@),
            match target_url {
                Some(u) => Some(u@),
                None => None,
            },
        ),
{
    match target_url {
        Some(u) => {
            if same_text(u, "about:blank") || mentions_any_origin(u, allowed_origins) {
                PopupDecision::Allow
            } else {
                PopupDecision::OpenExternal
            }
        },
        None => PopupDecision::Cancel,
    }
}

} // verus!
