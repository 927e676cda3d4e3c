use vstd::prelude::*;
use crate::errors::Error;

verus! {

/// The instant an RFC 3339 text denotes, as whole non-leap seconds since the
/// Unix epoch, or `None` when the text is not valid RFC 3339. A function of
/// the text alone.
pub uninterp spec fn rfc3339_secs(s: Seq<char>) -> Option<int>;

/// Relies on chrono's `DateTime::parse_from_rfc3339`, which parses RFC 3339
/// date-and-time texts (plus a few relaxed separator forms), and on
/// `DateTime::timestamp`, which returns the parsed instant as whole non-leap
/// seconds since the Unix epoch; both depend on the text alone.
#[verifier::external_body]
pub(crate) fn parse_rfc3339_secs(s: &str) -> (r: Result<i64, Error>)
    ensures
        match r {
            Ok(t) => rfc3339_secs(s@) == Some(t as int),
            Err(e) => rfc3339_secs(s@) is None && e == Error::TimestampParseError,
        },
{
    match chrono::DateTime::parse_from_rfc3339(s) {
        Ok(dt) => Ok(dt.timestamp()),
        Err(_) => Err(Error::TimestampParseError),
    }
}

} // verus!
