//! Points in time, as the audit trail and the checkpoints record them.

use vstd::prelude::*;

verus! {

/// A point in time: whole seconds since 1970-01-01 00:00:00 UTC and the
/// nanoseconds past that second.
#[derive(Debug, Clone, Copy, PartialEq, Eq)]
pub struct Timestamp {
    pub secs: i64,
    pub nanos: u32,
}

/// The text that chrono's `Display` gives the UTC date-time with this
/// timestamp, or nothing where `DateTime::from_timestamp` has no such
/// date-time.
pub uninterp spec fn spec_utc_text(secs: i64, nanos: u32) -> Option<Seq<char>>;

/// Calls `chrono::Utc::now` and keeps its `timestamp()` and
/// `timestamp_subsec_nanos()`. The result depends on the clock and is
/// left free; what is stated is that chrono converts it back to a
/// date-time, as it does for the parts of every `DateTime`.
#[verifier::external_body]
pub(crate) fn utc_now() -> (t: Timestamp)
    ensures
        spec_utc_text(t.secs, t.nanos) is Some,
{
    let now = chrono::Utc::now();
    Timestamp { secs: now.timestamp(), nanos: now.timestamp_subsec_nanos() }
}

/// Calls `chrono::DateTime::from_timestamp` and formats the date-time with
/// `Display` (as `{}` does). The text is named, not restated.
#[verifier::external_body]
pub(crate) fn utc_text(t: &Timestamp) -> (r: Option<String>)
    ensures
        match r {
            Some(s) => spec_utc_text(t.secs, t.nanos) == Some(s@),
            None => spec_utc_text(t.secs, t.nanos) is None,
        },
{
    match chrono::DateTime::from_timestamp(t.secs, t.nanos) {
        Some(d) => Some(d.to_string()),
        None => None,
    }
}

/// A lower-case hexadecimal digit.
pub open spec fn is_lower_hex(c: char) -> bool {
    ('0' <= c && c <= '9') || ('a' <= c && c <= 'f')
}

/// The text form of a random (version 4) UUID: 36 characters in groups of
/// 8, 4, 4, 4 and 12 lower-case hexadecimal digits joined by hyphens, with
/// the version digit `4` at index 14 and a variant digit of `8`, `9`, `a`
/// or `b` at index 19.
pub open spec fn is_uuid_v4_text(s: Seq<char>) -> bool {
    &&& s.len() == 36
    &&& forall|i: int| 0 <= i < 36 ==> (if i == 8 || i == 13 || i == 18 || i == 23 {
        #[trigger] s[i] == '-'
    } else {
        is_lower_hex(s[i])
    })
    &&& s[14] == '4'
    &&& (s[19] == '8' || s[19] == '9' || s[19] == 'a' || s[19] == 'b')
}

/// Calls `uuid::Uuid::new_v4` and formats it with `to_string`. The
/// identifier is random; what is stated is the text form that every
/// version 4 UUID has (`Display` writes the hyphenated lower-case form).
#[verifier::external_body]
pub(crate) fn new_uuid_v4() -> (r: String)
    ensures
        is_uuid_v4_text(r@),
{
    uuid::Uuid::new_v4().to_string()
}

} // verus!
