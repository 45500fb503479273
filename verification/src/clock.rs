//! The wall clock, read through the `time` crate.

use vstd::prelude::*;

verus! {

/// Reads `time::OffsetDateTime::now_utc()` and gives it as nanoseconds since
/// the Unix epoch (`unix_timestamp_nanos`). The reading depends on the moment
/// of the call, so its value is not stated; being the timestamp of an
/// `OffsetDateTime`, it is one that `from_unix_timestamp_nanos` accepts.
#[verifier::external_body]
pub(crate) fn now_unix_nanos() -> (nanos: i128)
    ensures
        utc_timestamp_text(nanos) is Some,
{
    time::OffsetDateTime::now_utc().unix_timestamp_nanos()
}

} // verus!

verus! {

/// The text that `time`'s `Debug` for `OffsetDateTime` writes for the UTC
/// moment `nanos` nanoseconds after the Unix epoch, or none when
/// `OffsetDateTime::from_unix_timestamp_nanos` refuses that moment as out
/// of range.
pub uninterp spec fn utc_timestamp_text(nanos: i128) -> Option<Seq<char>>;

/// Calls `time::OffsetDateTime::from_unix_timestamp_nanos(nanos)` and
/// formats the moment with its `Debug` impl. Both are functions of `nanos`
/// alone; the contract names the result and says no more of the format.
#[verifier::external_body]
pub(crate) fn format_utc_timestamp(nanos: i128) -> (t: Option<String>)
    ensures
        match t {
            Some(s) => utc_timestamp_text(nanos) == Some(s@),
            None => utc_timestamp_text(nanos) is None,
        },
{
    match time::OffsetDateTime::from_unix_timestamp_nanos(nanos) {
        Ok(moment) => Some(format!("{:?}", moment)),
        Err(_) => None,
    }
}

} // verus!
