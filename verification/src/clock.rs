//! Instants, their RFC 3339 text, time-to-live parsing and fresh
//! identifiers.
use vstd::prelude::*;
use crate::error::{ErrorView, LatchError};
use crate::text::{
    chars_of, ends_with_char, join2, join3, parse_i64, parse_i64_chars, string_of, trim,
    trim_chars,
};

verus! {

/// The earliest instant that chrono's `DateTime<Utc>` holds
/// (-262143-01-01T00:00:00Z), in nanoseconds since the epoch.
pub const MIN_INSTANT_NS: i128 = -8334601315200000000000i128;

/// The latest instant that chrono's `DateTime<Utc>` holds
/// (+262142-12-31T23:59:59.999999999Z), in nanoseconds since the epoch.
pub const MAX_INSTANT_NS: i128 = 8210266876799999999999i128;

/// The earliest instant, in whole seconds since the epoch.
pub const MIN_INSTANT_SECS: i64 = -8334601315200i64;

/// The largest number of whole seconds that a chrono `TimeDelta` holds
/// (`i64::MAX` milliseconds, rounded down to whole seconds).
pub const MAX_DELTA_SECS: i64 = 9223372036854775i64;

/// `t` is an instant that chrono's `DateTime<Utc>` can represent.
pub open spec fn instant_ok(t: int) -> bool {
    MIN_INSTANT_NS <= t <= MAX_INSTANT_NS
}

/// The RFC 3339 text that chrono's `DateTime::<Utc>::to_rfc3339` gives for
/// the instant `secs` whole seconds and `nanos` nanoseconds after the epoch.
pub uninterp spec fn rfc3339_text(secs: int, nanos: int) -> Seq<char>;

/// The RFC 3339 text of the instant `t` (nanoseconds since the epoch): its
/// whole seconds, rounded down, and the nanoseconds past them.
pub open spec fn instant_text(t: int) -> Seq<char> {
    rfc3339_text(t / 1_000_000_000, t % 1_000_000_000)
}

/// The current time, read once with chrono's `Utc::now()`, as its
/// `DateTime::timestamp` (whole seconds) and `timestamp_subsec_nanos`.
/// chrono builds it from the system clock's `Duration` since the epoch (it
/// panics when the clock reads before the epoch), so the seconds are at least
/// 0 and the nanoseconds below one second; it is a `DateTime<Utc>`, so it
/// lies in that type's range.  Nothing else is known of it.
#[verifier::external_body]
fn clock_parts() -> (t: (i64, u32))
    ensures
        0 <= t.0,
        t.1 < 1_000_000_000,
        t.0 * 1_000_000_000 + t.1 <= MAX_INSTANT_NS,
{
    let now = chrono::Utc::now();
    (now.timestamp(), now.timestamp_subsec_nanos())
}

/// The current time in nanoseconds since the epoch.
pub(crate) fn now_nanos() -> (t: i128)
    ensures
        0 <= t <= MAX_INSTANT_NS,
{
    let (secs, nanos) = clock_parts();
    (secs as i128) * 1_000_000_000 + (nanos as i128)
}

/// chrono's `DateTime::<Utc>::from_timestamp` followed by `to_rfc3339`: the
/// RFC 3339 text of an instant given as whole seconds and nanoseconds below
/// one second.  The conversion succeeds for every such instant in
/// `DateTime<Utc>`'s range.
#[verifier::external_body]
fn format_parts(secs: i64, nanos: u32) -> (s: String)
    requires
        nanos < 1_000_000_000,
        instant_ok(secs * 1_000_000_000 + nanos),
    ensures
        s@ == rfc3339_text(secs as int, nanos as int),
{
    chrono::DateTime::<chrono::Utc>::from_timestamp(secs, nanos).unwrap().to_rfc3339()
}

/// The RFC 3339 text of an instant (nanoseconds since the epoch).
pub(crate) fn format_instant(t: i128) -> (s: String)
    requires
        instant_ok(t as int),
    ensures
        s@ == instant_text(t as int),
{
    let shifted: u128 = (t - MIN_INSTANT_NS) as u128;
    let q: u128 = shifted / 1_000_000_000;
    let r: u128 = shifted % 1_000_000_000;
    let secs: i64 = MIN_INSTANT_SECS + (q as i64);
    let nanos: u32 = r as u32;
    proof {
        assert(t == secs * 1_000_000_000 + nanos);
        vstd::arithmetic::div_mod::lemma_fundamental_div_mod_converse_div(
            t as int,
            1_000_000_000,
            secs as int,
            nanos as int,
        );
        vstd::arithmetic::div_mod::lemma_fundamental_div_mod_converse_mod(
            t as int,
            1_000_000_000,
            secs as int,
            nanos as int,
        );
    }
    format_parts(secs, nanos)
}

/// A character of the Crockford base-32 alphabet that ULIDs are written in.
pub open spec fn is_ulid_char(c: char) -> bool {
    ('0' <= c && c <= '9') || ('A' <= c && c <= 'Z' && c != 'I' && c != 'L' && c != 'O' && c
        != 'U')
}

/// `s` has the shape of a ULID's text: 26 Crockford base-32 characters.
pub open spec fn ulid_shaped(s: Seq<char>) -> bool {
    s.len() == 26 && forall|i: int| 0 <= i < 26 ==> is_ulid_char(#[trigger] s[i])
}

/// A fresh identifier from the `ulid` crate: `Ulid::new().to_string()`.  Its
/// value depends on the clock and on a random number; the text is always 26
/// characters of the Crockford base-32 alphabet.
#[verifier::external_body]
pub(crate) fn new_ulid() -> (s: String)
    ensures
        ulid_shaped(s@),
{
    ulid::Ulid::new().to_string()
}

/// What a time-to-live argument means: a number of seconds, or the message
/// that rejects it.
pub enum TtlParse {
    Seconds(int),
    Invalid(Seq<char>),
}

/// How a time-to-live argument such as `2h` or `30m` is read: after trimming
/// white space, a decimal `i64` followed by `h` (hours) or `m` (minutes).
pub open spec fn ttl_parse(raw: Seq<char>) -> TtlParse {
    let t = trim(raw);
    if ends_with_char(t, 'h') {
        match parse_i64(t.drop_last()) {
            Some(h) => TtlParse::Seconds(h * 3600),
            None => TtlParse::Invalid("Invalid TTL: "@ + t),
        }
    } else if ends_with_char(t, 'm') {
        match parse_i64(t.drop_last()) {
            Some(m) => TtlParse::Seconds(m * 60),
            None => TtlParse::Invalid("Invalid TTL: "@ + t),
        }
    } else {
        TtlParse::Invalid("Invalid TTL format: "@ + t + ". Use e.g. '2h' or '30m'"@)
    }
}

/// The time-to-live is a number that chrono's `TimeDelta::hours` or
/// `TimeDelta::minutes` cannot hold: those functions panic on it.
pub open spec fn ttl_overflows(raw: Seq<char>) -> bool {
    match ttl_parse(raw) {
        TtlParse::Seconds(s) => !(-MAX_DELTA_SECS <= s <= MAX_DELTA_SECS),
        TtlParse::Invalid(_) => false,
    }
}

/// The outcome of parsing a time-to-live: its length in nanoseconds, or
/// the validation error.
pub open spec fn ttl_outcome(raw: Seq<char>) -> Result<int, ErrorView> {
    match ttl_parse(raw) {
        TtlParse::Seconds(s) => Ok(s * 1_000_000_000),
        TtlParse::Invalid(m) => Err(ErrorView::Validation(m)),
    }
}

fn without_last(v: &Vec<char>) -> (out: Vec<char>)
    requires
        v.len() > 0,
    ensures
        out@ == v@.drop_last(),
{
    let mut out: Vec<char> = Vec::new();
    let mut i: usize = 0;
    while i + 1 < v.len()
        invariant
            i < v.len(),
            out@ =~= v@.take(i as int),
        decreases v.len() - i,
    {
        out.push(v[i]);
        i = i + 1;
    }
    out
}

/// Whether a time-to-live argument is one that chrono cannot hold.
pub fn ttl_out_of_range(ttl: &str) -> (r: bool)
    ensures
        r == ttl_overflows(ttl@),
{
    let t = trim_chars(&chars_of(ttl));
    if t.len() > 0 && (t[t.len() - 1] == 'h' || t[t.len() - 1] == 'm') {
        let hours = t[t.len() - 1] == 'h';
        match parse_i64_chars(&without_last(&t)) {
            Some(n) => {
                let lim: i128 = MAX_DELTA_SECS as i128;
                let secs: i128 = if hours {
                    (n as i128) * 3600
                } else {
                    (n as i128) * 60
                };
                !(-lim <= secs && secs <= lim)
            },
            None => false,
        }
    } else {
        false
    }
}

/// Parses a time-to-live such as `2h` or `30m` into nanoseconds.
pub fn parse_ttl(ttl: &str) -> (r: Result<i128, LatchError>)
    requires
        !ttl_overflows(ttl@),
    ensures
        match r {
            Ok(ms) => ttl_outcome(ttl@) == Ok::<int, ErrorView>(ms as int),
            Err(e) => ttl_outcome(ttl@) == Err::<int, ErrorView>(e@),
        },
{
    let t = trim_chars(&chars_of(ttl));
    let text = string_of(&t);
    if t.len() > 0 && (t[t.len() - 1] == 'h' || t[t.len() - 1] == 'm') {
        let hours = t[t.len() - 1] == 'h';
        match parse_i64_chars(&without_last(&t)) {
            Some(n) => {
                if hours {
                    assert(-MAX_DELTA_SECS <= (n as int) * 3600 <= MAX_DELTA_SECS);
                    Ok((n as i128) * 3_600_000_000_000)
                } else {
                    assert(-MAX_DELTA_SECS <= (n as int) * 60 <= MAX_DELTA_SECS);
                    Ok((n as i128) * 60_000_000_000)
                }
            },
            None => Err(LatchError::Validation(join2("Invalid TTL: ", text.as_str()))),
        }
    } else {
        Err(
            LatchError::Validation(
                join3("Invalid TTL format: ", text.as_str(), ". Use e.g. '2h' or '30m'"),
            ),
        )
    }
}

} // verus!
