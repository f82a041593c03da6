//! The clock and the random ids that records are stamped with.
use vstd::prelude::*;

verus! {

/// The RFC 3339 text (`DateTime::to_rfc3339`) of the UTC instant `secs` seconds and `nanos`
/// nanoseconds after the Unix epoch, where `DateTime::from_timestamp` accepts them.
pub uninterp spec fn rfc3339_text(secs: int, nanos: int) -> Option<Seq<char>>;

/// The instant, as seconds and nanoseconds after the Unix epoch, that
/// `DateTime::parse_from_rfc3339` reads from a text, where it reads one.
pub uninterp spec fn rfc3339_instant(text: Seq<char>) -> Option<(int, int)>;

/// `TimeDelta::num_seconds` of `DateTime::signed_duration_since` between two instants, each
/// as its timestamp and its nanoseconds (1e9 or more within a leap second): the nanoseconds
/// between them, a leap second counted where one instant's second of the day follows the
/// other's and the other falls in a leap second, in whole seconds rounded towards zero.
pub open spec fn whole_seconds_between(
    later_secs: int,
    later_nanos: int,
    earlier_secs: int,
    earlier_nanos: int,
) -> int {
    let later_of_day = later_secs % 86400;
    let earlier_of_day = earlier_secs % 86400;
    let leap: int = if later_of_day > earlier_of_day && earlier_nanos >= 1_000_000_000 {
        1
    } else if later_of_day < earlier_of_day && later_nanos >= 1_000_000_000 {
        -1
    } else {
        0
    };
    let total = (later_secs - earlier_secs + leap) * 1_000_000_000 + (later_nanos - earlier_nanos);
    if total >= 0 {
        total / 1_000_000_000
    } else {
        -((-total) / 1_000_000_000)
    }
}

pub open spec fn valid_instant(p: (i64, u32)) -> bool {
    rfc3339_text(p.0 as int, p.1 as int) is Some
}

/// A lowercase hexadecimal digit.
pub open spec fn is_lower_hex(c: char) -> bool {
    ('0' <= c && c <= '9') || ('a' <= c && c <= 'f')
}

/// The hyphenated text of a version 4 UUID: 36 chars, hyphens after the 8th, 12th, 16th and
/// 20th hex digit, lowercase hex digits elsewhere, the version digit `4` and the variant
/// digit one of `8`, `9`, `a`, `b`.
pub open spec fn uuid_v4_text(t: Seq<char>) -> bool {
    &&& t.len() == 36
    &&& forall|i: int|
        0 <= i < 36 ==> if i == 8 || i == 13 || i == 18 || i == 23 {
            #[trigger] t[i] == '-'
        } else {
            is_lower_hex(t[i])
        }
    &&& t[14] == '4'
    &&& (t[19] == '8' || t[19] == '9' || t[19] == 'a' || t[19] == 'b')
}

/// `uuid::Uuid::new_v4`, written out by its `Display` impl (the hyphenated lowercase form): a
/// fresh random id. Which id comes back is not stated; `new_v4` sets the version bits to 4 and
/// the variant bits to `10`, so its text has the version 4 form.
#[verifier::external_body]
pub(crate) fn new_uuid_text() -> (r: String)
    ensures
        uuid_v4_text(r@),
{
    uuid::Uuid::new_v4().to_string()
}

/// `chrono::Utc::now`, as `timestamp` and `timestamp_subsec_nanos`. Which instant comes back
/// is not stated; `DateTime::from_timestamp` documents that it takes those two parts of any
/// `DateTime<Utc>` back, so the instant has an RFC 3339 text. `Utc::now` reads the system
/// clock as a duration since the epoch, so the seconds are not negative and the nanoseconds
/// stay within the second.
#[verifier::external_body]
pub(crate) fn utc_now_parts() -> (r: (i64, u32))
    ensures
        valid_instant(r),
        r.0 >= 0,
        r.1 < 1_000_000_000,
{
    let now = chrono::Utc::now();
    (now.timestamp(), now.timestamp_subsec_nanos())
}

/// `chrono::Utc::now`, as `timestamp_millis` and `timestamp`. Which instant comes back is
/// not stated; the milliseconds are the seconds times 1000 plus the milliseconds within the
/// second (`Utc::now` never falls in a leap second), and the seconds are not negative.
#[verifier::external_body]
pub(crate) fn utc_now_millis_and_secs() -> (r: (i64, i64))
    ensures
        r.1 >= 0,
        0 <= r.0 - r.1 * 1000 < 1000,
{
    let now = chrono::Utc::now();
    (now.timestamp_millis(), now.timestamp())
}

/// `chrono::DateTime::from_timestamp`, written out by `to_rfc3339`: the RFC 3339 text of an
/// instant, or `None` where the instant is out of range.
#[verifier::external_body]
pub(crate) fn rfc3339_at(secs: i64, nanos: u32) -> (r: Option<String>)
    ensures
        r matches Some(t) ==> rfc3339_text(secs as int, nanos as int) == Some(t@),
        r is None ==> rfc3339_text(secs as int, nanos as int) is None,
{
    match chrono::DateTime::from_timestamp(secs, nanos) {
        Some(t) => Some(t.to_rfc3339()),
        None => None,
    }
}

/// `chrono::DateTime::parse_from_rfc3339`, read as `timestamp` and `timestamp_subsec_nanos`.
/// Where a text parses, the instant has an RFC 3339 text (the round trip that
/// `DateTime::from_timestamp` documents).
#[verifier::external_body]
pub(crate) fn parse_rfc3339_instant(s: &str) -> (r: Option<(i64, u32)>)
    ensures
        r is None ==> rfc3339_instant(s@) is None,
        r matches Some(p) ==> rfc3339_instant(s@) == Some((p.0 as int, p.1 as int)) && valid_instant(p),
{
    match chrono::DateTime::parse_from_rfc3339(s) {
        Ok(t) => Some((t.timestamp(), t.timestamp_subsec_nanos())),
        Err(_) => None,
    }
}

/// `chrono::DateTime::signed_duration_since` between two instants, as `num_seconds`: the
/// whole seconds from `earlier` to `later`.
#[verifier::external_body]
pub(crate) fn seconds_between(later: (i64, u32), earlier: (i64, u32)) -> (r: i64)
    requires
        valid_instant(later),
        valid_instant(earlier),
    ensures
        r == whole_seconds_between(later.0 as int, later.1 as int, earlier.0 as int, earlier.1 as int),
{
    let l = chrono::DateTime::from_timestamp(later.0, later.1).unwrap();
    let e = chrono::DateTime::from_timestamp(earlier.0, earlier.1).unwrap();
    l.signed_duration_since(e).num_seconds()
}

/// The RFC 3339 text of the instant `secs` seconds and `nanos` nanoseconds after the epoch.
pub open spec fn text_of(secs: int, nanos: int) -> Seq<char> {
    rfc3339_text(secs, nanos).unwrap()
}

/// The RFC 3339 text of the instant `delta` seconds after the given one, where that instant is
/// in range; else the text of the given instant.
pub open spec fn text_after(secs: int, nanos: int, delta: int) -> Seq<char> {
    if i64::MIN <= secs + delta <= i64::MAX && rfc3339_text(secs + delta, nanos) is Some {
        text_of(secs + delta, nanos)
    } else {
        text_of(secs, nanos)
    }
}

/// The RFC 3339 text of the current instant.
pub fn now_text() -> (r: String)
    ensures
        exists|secs: i64, nanos: u32| valid_instant((secs, nanos)) && r@ == #[trigger] text_of(secs as int, nanos as int),
{
    let now = utc_now_parts();
    let t = rfc3339_at(now.0, now.1).unwrap();
    assert(t@ == text_of(now.0 as int, now.1 as int));
    t
}

/// The text of the current instant, and that of the instant `delta` seconds later (the
/// current instant's again where the later one is out of range).
pub fn now_and_later_text(delta: i64) -> (r: (String, String))
    ensures
        exists|secs: i64, nanos: u32|
            valid_instant((secs, nanos)) && r.0@ == #[trigger] text_of(secs as int, nanos as int) && r.1@
                == text_after(secs as int, nanos as int, delta as int),
{
    let now = utc_now_parts();
    let now_text = rfc3339_at(now.0, now.1).unwrap();
    let later = match now.0.checked_add(delta) {
        Some(s) => match rfc3339_at(s, now.1) {
            Some(t) => t,
            None => now_text.clone(),
        },
        None => now_text.clone(),
    };
    assert(now_text@ == text_of(now.0 as int, now.1 as int));
    (now_text, later)
}

} // verus!
