//! The timestamp normalizer: reads a line's leading token as an instant and
//! writes an instant back in the fixed-width form used in every log.

use vstd::prelude::*;
use crate::instant::Instant;
use crate::text::{commas_to_dots, with_dots};

verus! {

/// Date, time to the microsecond and numeric UTC offset, as every recorded
/// line carries them.
pub const TIME_FORMAT: &'static str = "%Y-%m-%dT%H:%M:%S%.6f%z";

/// chrono's account of why a token is no timestamp. It is handed on as it
/// comes and never looked into.
#[verifier::external_type_specification]
#[verifier::external_body]
pub struct ExChronoParseError(chrono::ParseError);

/// The instant that chrono reads from `token` under [`TIME_FORMAT`], if it
/// accepts the token.
pub uninterp spec fn parsed_stamp(token: Seq<char>) -> Option<Instant>;

/// The text that chrono writes for `t` under [`TIME_FORMAT`], if it can
/// represent `t`.
pub uninterp spec fn stamp_text(t: Instant) -> Option<Seq<char>>;

/// Why a token is not a timestamp.
#[derive(Clone, Debug, PartialEq, Eq)]
pub enum ParseFailure {
    /// There is no token to read.
    Absent,
    /// The token does not encode a date, a time and a UTC offset; the text
    /// is chrono's account of what is wrong with it.
    Malformed(String),
}

/// The text is what some refusal of chrono's says of itself.
pub open spec fn is_refusal(text: String) -> bool {
    exists|cause: chrono::ParseError| #[trigger]
        vstd::string::to_string_from_display_ensures::<chrono::ParseError>(&cause, text)
}

/// The instant a token stands for, whichever of `.` and `,` separates its
/// fractional seconds.
pub open spec fn instant_of(token: Seq<char>) -> Option<Instant> {
    parsed_stamp(with_dots(token))
}

/// `chrono::DateTime::parse_from_str` with [`TIME_FORMAT`]. The result depends
/// on the token alone; on success the instant is returned as the UNIX
/// timestamp, the nanoseconds within that second and the offset that chrono
/// holds for it.
#[verifier::external_body]
pub(crate) fn chrono_parse(token: &str) -> (r: Result<Instant, chrono::ParseError>)
    ensures
        match r {
            Ok(t) => parsed_stamp(token@) == Some(t),
            Err(_) => parsed_stamp(token@) is None,
        },
{
    match chrono::DateTime::parse_from_str(token, TIME_FORMAT) {
        Ok(d) => Ok(
            Instant {
                secs: d.timestamp(),
                nanos: d.timestamp_subsec_nanos(),
                offset: d.offset().local_minus_utc(),
            },
        ),
        Err(e) => Err(e),
    }
}

/// `chrono::DateTime::format` with [`TIME_FORMAT`], written out by
/// `DelayedFormat::write_to`, on the date and time that
/// `chrono::DateTime::from_timestamp`, `chrono::FixedOffset::east_opt` and
/// `chrono::DateTime::with_timezone` make of the three numbers. The result
/// depends on them alone and is `None` where chrono has no date for them or
/// cannot write it.
#[verifier::external_body]
pub(crate) fn chrono_format(t: &Instant) -> (r: Option<String>)
    ensures
        match r {
            Some(s) => stamp_text(*t) == Some(s@),
            None => stamp_text(*t) is None,
        },
{
    let utc = chrono::DateTime::from_timestamp(t.secs, t.nanos)?;
    let zone = chrono::FixedOffset::east_opt(t.offset)?;
    let mut out = String::new();
    utc.with_timezone(&zone).format(TIME_FORMAT).write_to(&mut out).ok()?;
    Some(out)
}

/// `chrono::Local::now`, as the UNIX timestamp, the nanoseconds within that
/// second and the local offset that chrono holds for it. The result depends
/// on the clock and on the time zone of the machine; nothing is claimed of
/// it.
#[verifier::external_body]
pub(crate) fn chrono_now() -> Instant {
    let now = chrono::Local::now();
    Instant {
        secs: now.timestamp(),
        nanos: now.timestamp_subsec_nanos(),
        offset: now.offset().local_minus_utc(),
    }
}

/// Reads a token as an instant. A comma is taken for the decimal separator
/// as a full stop is.
///
/// Fails with `Malformed`, which holds chrono's own account, exactly where
/// chrono refuses the token.
pub fn parse(token: &str) -> (r: Result<Instant, ParseFailure>)
    ensures
        match r {
            Ok(t) => instant_of(token@) == Some(t),
            Err(e) => {
                &&& instant_of(token@) is None
                &&& e matches ParseFailure::Malformed(text)
                &&& is_refusal(text)
            },
        },
{
    let normal = commas_to_dots(token);
    match chrono_parse(normal.as_str()) {
        Ok(t) => Ok(t),
        Err(cause) => {
            let text = cause.to_string();
            assert(vstd::string::to_string_from_display_ensures::<chrono::ParseError>(
                &cause,
                text,
            ));
            Err(ParseFailure::Malformed(text))
        },
    }
}

} // verus!
