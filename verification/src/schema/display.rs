//! Documents as text for people to read.
use chrono::{TimeZone, Utc};
use vstd::prelude::*;

use crate::fieldmap::FieldMap;
use crate::json::{opt_field, FieldValue, FieldView};
use crate::number::{
    decimal, digits, signed_decimal, to_decimal, to_hex, to_signed_decimal,
};
use crate::schema::column::{column_views, Column, ColumnView};
use crate::schema::convert::wrapped;
use crate::schema::extract::value_views;
use crate::schema::generate::{display_kind, display_of, DisplayKind};

verus! {

/// The severity that a syslog priority stands for.
pub open spec fn severity(n: int) -> Seq<char> {
    if n == 0 {
        "Emergency"@
    } else if n == 1 {
        "Alert"@
    } else if n == 2 {
        "Critical"@
    } else if n == 3 {
        "Error"@
    } else if n == 4 {
        "Warning"@
    } else if n == 5 {
        "Notice"@
    } else if n == 6 {
        "Informational"@
    } else if n == 7 {
        "Debug"@
    } else {
        "Unknown"@
    }
}

/// The severity that a syslog priority stands for.
pub fn severity_name(n: u64) -> (res: &'static str)
    ensures
        res@ == severity(n as int),
{
    match n {
        0 => "Emergency",
        1 => "Alert",
        2 => "Critical",
        3 => "Error",
        4 => "Warning",
        5 => "Notice",
        6 => "Informational",
        7 => "Debug",
        _ => "Unknown",
    }
}

/// The date and time in UTC that lie so many seconds and nanoseconds after the epoch,
/// as chrono writes them; nothing where they lie too far from it.
pub uninterp spec fn utc_text(secs: i64, nanos: u32) -> Option<Seq<char>>;

/// `Utc.timestamp_opt`, written out by its `Display`, is fixed by the seconds and the
/// nanoseconds alone.
#[verifier::external_body]
fn format_utc(secs: i64, nanos: u32) -> (res: Option<String>)
    ensures
        (match res {
            Some(t) => Some(t@),
            None => None,
        }) == utc_text(secs, nanos),
{
    Utc.timestamp_opt(secs, nanos).single().map(|t| t.to_string())
}

/// The point in time so many microseconds after the epoch, as text; nothing where it
/// lies too far from it.
pub open spec fn time_text(micros: u64) -> Seq<char> {
    match utc_text((micros / 1_000_000) as i64, ((micros % 1_000_000) * 1000) as u32) {
        Some(t) => t,
        None => ""@,
    }
}

/// The text of a time, or none.
pub fn time_or_empty(t: Option<String>) -> (res: String)
    ensures
        res@ == (match t {
            Some(t) => t@,
            None => ""@,
        }),
{
    match t {
        Some(t) => t,
        None => "".to_owned(),
    }
}

/// The point in time so many microseconds after the epoch, as text.
pub fn format_time(micros: u64) -> (res: String)
    ensures
        res@ == time_text(micros),
{
    time_or_empty(format_utc((micros / 1_000_000) as i64, ((micros % 1_000_000) * 1000) as u32))
}

/// A value as text.
pub open spec fn value_text(v: FieldView) -> Seq<char> {
    match v {
        FieldView::Text(t) => t,
        FieldView::U64(n) => decimal(n as nat),
        FieldView::I64(n) => signed_decimal(n as int),
    }
}

/// A text in quotes, with what `Debug` escapes in it escaped.
pub uninterp spec fn quoted_text(t: Seq<char>) -> Seq<char>;

/// `format!` with `{:?}`, which writes a string by its `Debug`, is fixed by the
/// string alone.
#[verifier::external_body]
fn quote(t: &str) -> (res: String)
    ensures
        res@ == quoted_text(t@),
{
    format!("{:?}", t)
}

/// A value as `Debug` writes it: a text in quotes, a number as it is.
pub open spec fn debug_text(v: FieldView) -> Seq<char> {
    match v {
        FieldView::Text(t) => quoted_text(t),
        _ => value_text(v),
    }
}

/// A number and the severity that it stands for.
pub open spec fn priority_text(v: FieldView) -> Seq<char> {
    match v {
        FieldView::Text(t) => t,
        FieldView::U64(n) => decimal(n as nat) + " ("@ + severity(n as int) + ")"@,
        FieldView::I64(n) => signed_decimal(n as int) + " ("@ + severity(n as int) + ")"@,
    }
}

/// A number in base sixteen, a negative one in two's complement.
pub open spec fn hex_text(v: FieldView) -> Seq<char> {
    match v {
        FieldView::Text(t) => t,
        FieldView::U64(n) => "0x"@ + digits(n as nat, 16),
        FieldView::I64(n) => "0x"@ + digits(wrapped(n) as nat, 16),
    }
}

/// A value as it is shown.
pub open spec fn display_text(kind: DisplayKind, v: FieldView) -> Seq<char> {
    match kind {
        DisplayKind::Text | DisplayKind::Number => value_text(v),
        DisplayKind::Debug => debug_text(v),
        DisplayKind::SyslogPriority => priority_text(v),
        DisplayKind::Hex => hex_text(v),
        DisplayKind::Time => match v {
            FieldView::U64(n) => time_text(n),
            _ => value_text(v),
        },
    }
}

/// Writes a value as text.
fn plain(v: &FieldValue) -> (res: String)
    ensures
        res@ == value_text(v@),
{
    match v {
        FieldValue::Text(t) => t.clone(),
        FieldValue::U64(n) => to_decimal(*n),
        FieldValue::I64(n) => to_signed_decimal(*n),
    }
}

/// Writes a severity behind a number.
fn with_severity(number: String, name: &str) -> (res: String)
    ensures
        res@ == number@ + " ("@ + name@ + ")"@,
{
    let mut res = number;
    res.append(" (");
    res.append(name);
    res.append(")");
    res
}

/// Writes a value as it is shown.
pub fn display_value(kind: DisplayKind, v: &FieldValue) -> (res: String)
    ensures
        res@ == display_text(kind, v@),
{
    match kind {
        DisplayKind::Text | DisplayKind::Number => plain(v),
        DisplayKind::Debug => match v {
            FieldValue::Text(t) => quote(t.as_str()),
            _ => plain(v),
        },
        DisplayKind::SyslogPriority => match v {
            FieldValue::Text(t) => t.clone(),
            FieldValue::U64(n) => with_severity(to_decimal(*n), severity_name(*n)),
            FieldValue::I64(n) => {
                let name = if *n < 0 {
                    "Unknown"
                } else {
                    severity_name(*n as u64)
                };
                with_severity(to_signed_decimal(*n), name)
            },
        },
        DisplayKind::Hex => match v {
            FieldValue::Text(t) => t.clone(),
            FieldValue::U64(n) => {
                let mut res = "0x".to_owned();
                res.append(to_hex(*n).as_str());
                res
            },
            FieldValue::I64(n) => {
                let m: i64 = *n;
                assert(m < 0 ==> (m as u64) == m + 0x1_0000_0000_0000_0000) by (bit_vector);
                let mut res = "0x".to_owned();
                res.append(to_hex(m as u64).as_str());
                res
            },
        },
        DisplayKind::Time => match v {
            FieldValue::U64(n) => format_time(*n),
            _ => plain(v),
        },
    }
}

/// The texts shown, with that of one more column: one for each way in which it is
/// stored, of which the last counts.
pub open spec fn show_column(
    shown: Map<Seq<char>, Seq<char>>,
    c: ColumnView,
    v: Option<FieldView>,
) -> Map<Seq<char>, Seq<char>> {
    match v {
        Some(v) => if c.storage.len() > 0 {
            shown.insert(c.name, display_text(display_of(c.storage.last(), c.format), v))
        } else {
            shown
        },
        None => shown,
    }
}

/// The texts shown of a document: one for each stored column that has a value.
pub open spec fn shown(columns: Seq<ColumnView>, values: Seq<Option<FieldView>>) -> Map<
    Seq<char>,
    Seq<char>,
>
    decreases columns.len(),
{
    if columns.len() == 0 {
        Map::empty()
    } else {
        show_column(
            shown(columns.drop_last(), values),
            columns.last(),
            values[columns.len() - 1],
        )
    }
}

/// Shows a document: a text for each stored column that has a value.
pub fn show(columns: &Vec<Column>, values: &Vec<Option<FieldValue>>) -> (res: FieldMap<String>)
    requires
        columns@.len() == values@.len(),
    ensures
        res@ == shown(column_views(columns@), value_views(values@)),
{
    let ghost cols = column_views(columns@);
    let ghost vals = value_views(values@);
    let mut res: FieldMap<String> = FieldMap::new();
    let mut i: usize = 0;
    assert(cols.take(0) =~= Seq::<ColumnView>::empty());
    while i < columns.len()
        invariant
            i <= columns@.len(),
            columns@.len() == values@.len(),
            cols == column_views(columns@),
            vals == value_views(values@),
            res@ == shown(cols.take(i as int), vals),
        decreases columns@.len() - i,
    {
        proof {
            assert(cols.take(i + 1).drop_last() =~= cols.take(i as int));
            assert(cols.take(i + 1).last() == columns@[i as int]@);
            assert(vals[i as int] == opt_field(values@[i as int]));
        }
        let c = &columns[i];
        let n = c.storage.len();
        match &values[i] {
            Some(v) => {
                if n > 0 {
                    let kind = display_kind(c.storage[n - 1], c.format);
                    res.insert(c.name.clone(), display_value(kind, v));
                }
            },
            None => {},
        }
        i = i + 1;
    }
    assert(cols.take(i as int) =~= cols);
    res
}

} // verus!
