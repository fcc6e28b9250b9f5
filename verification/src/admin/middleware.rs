//! Who may use the admin surface.

use vstd::prelude::*;
use crate::text::constant_time_eq;
use crate::text::slice_text_of;

verus! {

/// Whether a request may use the admin surface: only if it presents the admin
/// key. The comparison visits the whole key whatever it finds.
pub fn admin_key_accepted(presented: Option<&str>, admin_api_key: &str) -> (accepted: bool)
    ensures
        accepted == (slice_text_of(presented) == Some(admin_api_key@)),
{
    match presented {
        Some(key) => constant_time_eq(key, admin_api_key),
        None => false,
    }
}

} // verus!
