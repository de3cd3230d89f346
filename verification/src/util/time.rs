//! Time.

use vstd::prelude::*;

verus! {

/// The sample rate at which voices are compared.
pub const MODEL_SAMPLE_RATE: u32 = 16_000;

/// A point in time of `std`.
#[verifier::external_type_specification]
#[verifier::external_body]
pub struct ExInstant(std::time::Instant);

/// `std::time::Instant::now`: the current point in time. Nothing is claimed of it.
#[verifier::external_body]
pub(crate) fn instant_now() -> (r: std::time::Instant) {
    std::time::Instant::now()
}

/// `std::time::Instant::elapsed`, in whole milliseconds. The time that has passed
/// depends on the clock; nothing is claimed of it.
#[verifier::external_body]
pub(crate) fn elapsed_millis(since: &std::time::Instant) -> (r: u128) {
    since.elapsed().as_millis()
}

/// The RFC 3339 text that the crate `time` writes for a point in time, given in
/// nanoseconds since the Unix epoch, in UTC; or its complaint where the year
/// cannot be written.
pub uninterp spec fn rfc3339_text(unix_nanos: i128) -> Result<Seq<char>, Seq<char>>;

/// `time::OffsetDateTime::now_utc`, in nanoseconds since the Unix epoch. Nothing is
/// claimed of it.
#[verifier::external_body]
fn utc_now_nanos() -> (r: i128) {
    time::OffsetDateTime::now_utc().unix_timestamp_nanos()
}

/// `time::OffsetDateTime::from_unix_timestamp_nanos`, then `format` with the
/// well-known format `Rfc3339`. The text is known only by name.
#[verifier::external_body]
fn format_rfc3339(unix_nanos: i128) -> (r: Result<String, String>)
    ensures
        match r {
            Ok(words) => rfc3339_text(unix_nanos) == Ok::<Seq<char>, Seq<char>>(words@),
            Err(complaint) => rfc3339_text(unix_nanos) == Err::<Seq<char>, Seq<char>>(
                complaint@,
            ),
        },
{
    time::OffsetDateTime::from_unix_timestamp_nanos(unix_nanos).map_err(|e| e.to_string())?.format(
        &time::format_description::well_known::Rfc3339,
    ).map_err(|e| e.to_string())
}

/// The point in time could not be written down.
#[derive(Debug)]
pub struct TimestampError {
    pub detail: String,
}

impl TimestampError {
    /// The error in words.
    pub fn message(&self) -> (r: &'static str)
        ensures
            r@ == "failed to format current UTC timestamp"@,
    {
        "failed to format current UTC timestamp"
    }
}

/// Whether `r` is how a point in time is written down.
pub open spec fn is_timestamp_of(r: Result<String, TimestampError>, unix_nanos: i128) -> bool {
    match rfc3339_text(unix_nanos) {
        Ok(written) => r matches Ok(words) && words@ == written,
        Err(complaint) => r matches Err(error) && error.detail@ == complaint,
    }
}

/// Writes down a point in time, given in nanoseconds since the Unix epoch.
pub fn utc_timestamp_rfc3339(unix_nanos: i128) -> (r: Result<String, TimestampError>)
    ensures
        is_timestamp_of(r, unix_nanos),
{
    match format_rfc3339(unix_nanos) {
        Ok(words) => Ok(words),
        Err(detail) => Err(TimestampError { detail }),
    }
}

/// Writes down the current point in time.
pub fn current_utc_timestamp_rfc3339() -> (r: Result<String, TimestampError>)
    ensures
        exists|unix_nanos: i128| #[trigger] is_timestamp_of(r, unix_nanos),
{
    utc_timestamp_rfc3339(utc_now_nanos())
}

} // verus!
