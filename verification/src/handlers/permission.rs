//! Which permission requests a service is granted without asking.

use vstd::prelude::*;
use crate::text::{mentions_any, mentions_any_origin, views_of};

verus! {

/// A media (camera / microphone) request is granted when the service
/// auto-grants media and the requesting origin mentions an allowed origin.
pub fn grants_media_access(
    auto_grant_media: bool,
    allowed_origins: &Vec<String>,
    requesting_origin: Option<&str>,
) -> (r: bool)
    ensures
        r == (auto_grant_media && match requesting_origin {
            Some(o) => mentions_any(o@, views_of(allowed_origins@)),
            None => false,
        }),
{
    if auto_grant_media {
        match requesting_origin {
            Some(o) => mentions_any_origin(o, allowed_origins),
            None => false,
        }
    } else {
        false
    }
}

/// A permission prompt is accepted when the requesting origin mentions an
/// allowed origin.
pub fn accepts_permission_prompt(allowed_origins: &Vec<String>, requesting_origin: Option<&str>) -> (r:
    bool)
    ensures
        r == match requesting_origin {
            Some(o) => mentions_any(o@, views_of(allowed_origins@)),
            None => false,
        },
{
    match requesting_origin {
        Some(o) => mentions_any_origin(o, allowed_origins),
        None => false,
    }
}

} // verus!
