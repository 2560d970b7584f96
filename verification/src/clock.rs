//! The one clock read the library needs: the current instant, as unix
//! seconds and as RFC 3339 text. Every function that depends on the time
//! takes it as an argument; this is where the value comes from.

use vstd::prelude::*;

verus! {

/// Relies on time::OffsetDateTime::now_utc, unix_timestamp and the
/// RFC 3339 formatter: the clock's reading, as seconds since the epoch
/// and as text; nothing is promised of the value. `None` only if the
/// reading cannot be formatted.
#[verifier::external_body]
pub fn now_unix_and_rfc3339() -> (r: Option<(u64, String)>)
    ensures
        r matches Some(n) ==> n.1@.len() > 0,
{
    let now = time::OffsetDateTime::now_utc();
    let unix = now.unix_timestamp() as u64;
    match now.format(&time::format_description::well_known::Rfc3339) {
        Ok(text) => Some((unix, text)),
        Err(_) => None,
    }
}

} // verus!
