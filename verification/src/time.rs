//! Timestamp rendering.
//!
//! Blocks carry Unix timestamps; the store and the query parameters
//! want them as RFC 3339 strings. The rendering is delegated to the
//! calendar arithmetic of the `chrono` crate, whose result depends on
//! the numbers alone.

use vstd::prelude::*;

verus! {

/// The RFC 3339 rendering of a Unix timestamp. The result is a pure
/// function of the seconds and nanoseconds; `chrono` computes it.
pub uninterp spec fn rfc3339_of(secs: int, nanos: int) -> Seq<char>;

/// Relies on chrono's `DateTime::<Utc>::from_timestamp` and
/// `to_rfc3339`: the rendering of a Unix timestamp depends on the
/// numbers alone, and an in-range timestamp always renders. The
/// documentation promises `None` only for an out-of-range number of
/// seconds or an invalid nanosecond; timestamps between the epoch and
/// the year 9999 with nanoseconds below one billion are in range.
#[verifier::external_body]
fn rfc3339_exec(secs: i64, nanos: u32) -> (r: Option<String>)
    ensures
        r matches Some(s) ==> s@ == rfc3339_of(secs as int, nanos as int),
        0 <= secs < 253402300800 && nanos < 1000000000 ==> r is Some,
{
    chrono::DateTime::<chrono::Utc>::from_timestamp(secs, nanos).map(|dt| dt.to_rfc3339())
}

/// Render a block timestamp for a query parameter: the RFC 3339 form,
/// or nothing for a timestamp outside chrono's calendar range.
pub fn timestamp_rfc3339(secs: i64) -> (r: Option<String>)
    ensures
        r matches Some(s) ==> s@ == rfc3339_of(secs as int, 0),
        0 <= secs < 253402300800 ==> r is Some,
{
    rfc3339_exec(secs, 0)
}

} // verus!
