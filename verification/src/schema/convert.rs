//! Conversions of message fields that are not what the document holds.
use vstd::prelude::*;

use crate::json::{JsonValue, JsonView};
use crate::number::{parse_u64, read_unsigned};
use crate::text::opt_text;
use crate::time::{
    local_year, local_year_reads, naive_datetime, parse_naive, parse_rfc2822, parse_rfc3339, rfc2822,
    rfc3339, year_str, year_view, Timestamp,
};

verus! {

/// Why a value cannot be converted.
#[derive(Clone, Copy, Debug, PartialEq, Eq)]
pub enum ConvertError {
    /// The value is of a kind that the conversion does not take.
    WrongKind,
    /// The text does not denote what was to be read.
    Unparsable,
    /// The number is not one that the field can hold.
    Unrepresentable,
    /// The time is too far from the epoch, or of the current year where the clock tells
    /// none.
    OutOfRange,
}

/// A signed number in the unsigned type, modulo two to the 64th.
pub open spec fn wrapped(n: i64) -> u64 {
    if n >= 0 {
        n as u64
    } else {
        (n + 0x1_0000_0000_0000_0000) as u64
    }
}

/// A signed number in the unsigned type, modulo two to the 64th.
fn wrap(n: i64) -> (res: u64)
    ensures
        res == wrapped(n),
{
    assert(n < 0 ==> (n as u64) == n + 0x1_0000_0000_0000_0000) by (bit_vector);
    n as u64
}

/// The whole microseconds in so many nanoseconds, towards zero.
pub open spec fn nanos_to_micros(n: i64) -> i64 {
    if n >= 0 {
        (n / 1000) as i64
    } else {
        -((-n) / 1000) as i64
    }
}

/// The whole microseconds in so many nanoseconds.
fn to_micros(n: i64) -> (res: i64)
    ensures
        res == nanos_to_micros(n),
{
    if n >= 0 {
        (n as u64 / 1000) as i64
    } else {
        let m: i128 = -(n as i128);
        let q: i64 = (m as u128 / 1000) as i64;
        -q
    }
}

/// The microseconds of a point in time whose nanoseconds since the epoch fit.
pub open spec fn datetime_micros(t: Timestamp) -> Result<u64, ConvertError> {
    match t.unix_nanos {
        Some(n) => Ok(wrapped(n) / 1000),
        None => Err(ConvertError::OutOfRange),
    }
}

/// Converts a point in time to microseconds since the epoch. Where they lie before
/// it, the nanoseconds wrap around.
pub fn convert_datetime_to_usec(t: &Timestamp) -> (res: Result<u64, ConvertError>)
    ensures
        res == datetime_micros(*t),
{
    match t.unix_nanos {
        Some(n) => Ok(wrap(n) / 1000),
        None => Err(ConvertError::OutOfRange),
    }
}

/// The microseconds in a number of seconds, which may be a string.
pub open spec fn float_micros(v: JsonView) -> Result<u64, ConvertError> {
    match v {
        JsonView::Number { micros: Some(n), .. } => Ok(n),
        JsonView::Number { micros: None, .. } => Err(ConvertError::Unrepresentable),
        JsonView::String { micros: Some(n), .. } => Ok(n),
        JsonView::String { micros: None, .. } => Err(ConvertError::Unparsable),
        _ => Err(ConvertError::WrongKind),
    }
}

/// Converts a number of seconds to microseconds.
pub fn convert_float_sec_to_usec(val: &JsonValue) -> (res: Result<u64, ConvertError>)
    ensures
        res == float_micros(val@),
{
    match val {
        JsonValue::Number(n) => match n.micros {
            Some(m) => Ok(m),
            None => Err(ConvertError::Unrepresentable),
        },
        JsonValue::String(s) => match s.micros {
            Some(m) => Ok(m),
            None => Err(ConvertError::Unparsable),
        },
        _ => Err(ConvertError::WrongKind),
    }
}

/// The number that a string denotes in base sixteen; a number stays what it is.
pub open spec fn hex_uint(v: JsonView) -> Result<u64, ConvertError> {
    match v {
        JsonView::String { text, .. } => match read_unsigned(text, 16, u64::MAX as nat) {
            Some(n) => Ok(n as u64),
            None => Err(ConvertError::Unparsable),
        },
        JsonView::Number { as_u64: Some(n), .. } => Ok(n),
        JsonView::Number { as_u64: None, .. } => Err(ConvertError::Unrepresentable),
        _ => Err(ConvertError::WrongKind),
    }
}

/// Converts a string in base sixteen to a number.
pub fn convert_hex_to_uint(val: &JsonValue) -> (res: Result<u64, ConvertError>)
    ensures
        res == hex_uint(val@),
{
    match val {
        JsonValue::String(s) => match parse_u64(s.text.as_str(), 16) {
            Some(n) => Ok(n),
            None => Err(ConvertError::Unparsable),
        },
        JsonValue::Number(n) => match n.as_u64 {
            Some(n) => Ok(n),
            None => Err(ConvertError::Unrepresentable),
        },
        _ => Err(ConvertError::WrongKind),
    }
}

/// The format of a time that lacks only its year.
pub open spec fn year_format() -> Seq<char> {
    "%Y %b %e %T"@
}

/// The microseconds of a time whose nanoseconds fit.
pub open spec fn fitting(nanos: Option<i64>) -> Result<i64, ConvertError> {
    match nanos {
        Some(n) => Ok(nanos_to_micros(n)),
        None => Err(ConvertError::OutOfRange),
    }
}

/// The microseconds since the epoch of the time that a text denotes: by RFC 3339,
/// else by RFC 2822, else with the year before it. Without a year, it is out of range.
pub open spec fn syslog_micros(s: Seq<char>, year: Option<Seq<char>>) -> Result<i64, ConvertError> {
    match rfc3339(s) {
        Some(t) => fitting(t.unix_nanos),
        None => match rfc2822(s) {
            Some(nanos) => fitting(nanos),
            None => match year {
                Some(y) => match naive_datetime(y + seq![' '] + s, year_format()) {
                    Some(nanos) => fitting(nanos),
                    None => Err(ConvertError::Unparsable),
                },
                None => Err(ConvertError::OutOfRange),
            },
        },
    }
}

/// The microseconds of a time whose nanoseconds fit.
fn fit(nanos: Option<i64>) -> (res: Result<i64, ConvertError>)
    ensures
        res == fitting(nanos),
{
    match nanos {
        Some(n) => Ok(to_micros(n)),
        None => Err(ConvertError::OutOfRange),
    }
}

/// Reads a time from a text, with the year to take where the text has none.
pub fn read_syslog_time(s: &str, year: Option<&str>) -> (res: Result<i64, ConvertError>)
    ensures
        res == syslog_micros(s@, year_view(year)),
{
    match parse_rfc3339(s) {
        Some(t) => fit(t.unix_nanos),
        None => match parse_rfc2822(s) {
            Some(nanos) => fit(nanos),
            None => match year {
                Some(y) => {
                    let mut dated = y.to_owned();
                    dated.push(' ');
                    dated.append(s);
                    assert(dated@ =~= y@ + seq![' '] + s@);
                    match parse_naive(dated.as_str(), "%Y %b %e %T") {
                        Some(nanos) => fit(nanos),
                        None => Err(ConvertError::Unparsable),
                    }
                },
                None => Err(ConvertError::OutOfRange),
            },
        },
    }
}

/// The microseconds since the epoch of the time that a string denotes.
pub open spec fn syslog_timestamp(v: JsonView, year: Option<Seq<char>>) -> Result<u64, ConvertError> {
    match v {
        JsonView::String { text, .. } => match syslog_micros(text, year) {
            Ok(n) => Ok(wrapped(n)),
            Err(e) => Err(e),
        },
        _ => Err(ConvertError::WrongKind),
    }
}

/// Converts the time that a string denotes to microseconds since the epoch, with
/// the year to take where the string has none.
pub fn convert_syslog_timestamp_in(val: &JsonValue, year: Option<&str>) -> (res: Result<
    u64,
    ConvertError,
>)
    ensures
        res == syslog_timestamp(val@, year_view(year)),
{
    match val {
        JsonValue::String(s) => match read_syslog_time(s.text.as_str(), year) {
            Ok(n) => Ok(wrap(n)),
            Err(e) => Err(e),
        },
        _ => Err(ConvertError::WrongKind),
    }
}

/// Converts the time that a string denotes to microseconds since the epoch, in the
/// current year where the string has none.
pub fn convert_syslog_timestamp(val: &JsonValue) -> (res: Result<u64, ConvertError>)
    ensures
        exists|year: Option<Seq<char>>| #[trigger]
            local_year_reads(year) && res == syslog_timestamp(val@, year),
{
    let year = local_year();
    assert(local_year_reads(opt_text(year)));
    convert_syslog_timestamp_in(val, year_str(&year))
}

} // verus!
