//! The one place the library touches the wall clock.

use vstd::prelude::*;

verus! {

/// Relies on `time::OffsetDateTime::now_utc` and `OffsetDateTime::format`
/// with the RFC 3339 well-known description: reads the wall clock and renders
/// it as text. The result depends on the clock, so nothing is claimed of it;
/// a formatting failure yields the empty string.
#[verifier::external_body]
pub(crate) fn now_utc_rfc3339() -> String {
    match time::OffsetDateTime::now_utc().format(&time::format_description::well_known::Rfc3339) {
        Ok(s) => s,
        Err(_) => String::new(),
    }
}

} // verus!
