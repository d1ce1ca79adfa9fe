//! Instants at which sessions were created.
use vstd::prelude::*;

verus! {

/// `chrono::ParseError`, which Verus sees only as an opaque value.
#[verifier::external_type_specification]
#[verifier::external_body]
pub struct ExChronoParseError(chrono::ParseError);

/// An instant, as whole seconds since the Unix epoch and the nanoseconds
/// past that second (more than 999,999,999 only within a leap second).
#[derive(Clone, Copy, Debug, PartialEq, Eq, Structural)]
pub struct Timestamp {
    pub seconds: i64,
    pub nanos: u32,
}

/// Whether instant `a` comes strictly before instant `b`.
pub open spec fn earlier(a: Timestamp, b: Timestamp) -> bool {
    a.seconds < b.seconds || (a.seconds == b.seconds && a.nanos < b.nanos)
}

/// Whether instant `a` comes strictly before instant `b`.
pub fn is_earlier(a: Timestamp, b: Timestamp) -> (r: bool)
    ensures
        r == earlier(a, b),
{
    a.seconds < b.seconds || (a.seconds == b.seconds && a.nanos < b.nanos)
}

/// The instant that `chrono::DateTime::parse_from_rfc3339` reads from `text`
/// (whatever offset it names, taken as an instant); `None` where it reports
/// an error.
pub uninterp spec fn rfc3339_instant(text: Seq<char>) -> Option<Timestamp>;

/// Reads an RFC 3339 date and time.
///
/// Trusted: calls `chrono::DateTime::parse_from_rfc3339` and takes the
/// result's `timestamp()` and `timestamp_subsec_nanos()`. The contract claims
/// only that success and the instant are those that [`rfc3339_instant`] names
/// for the text; which texts chrono accepts is left to it.
#[verifier::external_body]
pub(crate) fn parse_rfc3339(text: &str) -> (r: Result<Timestamp, chrono::ParseError>)
    ensures
        r is Ok <==> rfc3339_instant(text@) is Some,
        r matches Ok(t) ==> rfc3339_instant(text@) == Some(t),
{
    match chrono::DateTime::parse_from_rfc3339(text) {
        Ok(t) => Ok(Timestamp { seconds: t.timestamp(), nanos: t.timestamp_subsec_nanos() }),
        Err(e) => Err(e),
    }
}

/// The instant that an RFC 3339 text names, if chrono accepts it.
pub fn instant_of_rfc3339(text: &str) -> (r: Option<Timestamp>)
    ensures
        r == rfc3339_instant(text@),
{
    match parse_rfc3339(text) {
        Ok(t) => Some(t),
        Err(_) => None,
    }
}


/// `earlier` is the order of instants: a smaller second count is earlier,
/// within one second fewer nanoseconds are earlier, and no instant is
/// earlier than itself or than one that is earlier than it.
pub proof fn law_earlier_is_time_order(a: Timestamp, b: Timestamp)
    ensures
        a.seconds < b.seconds ==> earlier(a, b),
        a.seconds == b.seconds && a.nanos < b.nanos ==> earlier(a, b),
        !earlier(a, a),
        earlier(a, b) ==> !earlier(b, a),
{
}

} // verus!
