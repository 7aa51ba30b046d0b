//! What no two calls give alike: identifiers, the time, and the time of
//! day where the machine stands.

use vstd::prelude::*;

verus! {

/// Whether `c` is a digit of base sixteen, in lower case.
pub open spec fn is_lower_hex(c: char) -> bool {
    ('0' <= c && c <= '9') || ('a' <= c && c <= 'f')
}

/// The shape of an identifier: five groups of 8, 4, 4, 4 and 12 digits of
/// base sixteen, with hyphens between them.
pub open spec fn is_id(s: Seq<char>) -> bool {
    &&& s.len() == 36
    &&& forall|i: int| 0 <= i < 36 ==> fits_id(i, #[trigger] s[i])
}

/// Whether `c` may stand at place `i` of an identifier.
pub open spec fn fits_id(i: int, c: char) -> bool {
    if i == 8 || i == 13 || i == 18 || i == 23 {
        c == '-'
    } else {
        is_lower_hex(c)
    }
}

/// `uuid::Uuid::new_v4`, written out by `to_hyphenated`: a random
/// identifier. Only its shape is known.
#[verifier::external_body]
pub(crate) fn new_id() -> (id: String)
    ensures
        is_id(id@),
{
    uuid::Uuid::new_v4().to_hyphenated().to_string()
}

/// `chrono::Utc::now`, as `timestamp` gives it: the seconds since the
/// epoch at the moment of the call.
#[verifier::external_body]
pub(crate) fn now() -> (seconds: i64) {
    chrono::Utc::now().timestamp()
}

/// The first second that is given a time of day: the start of the year 0.
pub open spec fn first_second() -> int {
    -62167219200
}

/// The last second that is given a time of day: the end of the year 9999.
pub open spec fn last_second() -> int {
    253402300799
}

/// `chrono::Local.timestamp_opt` and `DateTime::format` with `%T`: the
/// time of day of a moment, on the clock and in the time zone of this
/// machine. Nothing is known of the text: the zone is read from the
/// environment at every call.
#[verifier::external_body]
pub(crate) fn local_clock(seconds: i64) -> (clock: Option<String>)
    requires
        first_second() <= seconds <= last_second(),
{
    match <chrono::Local as chrono::TimeZone>::timestamp_opt(&chrono::Local, seconds, 0) {
        chrono::LocalResult::Single(time) => Some(time.format("%T").to_string()),
        _ => None,
    }
}

} // verus!
