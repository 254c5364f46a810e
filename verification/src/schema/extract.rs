//! From messages to the values of columns.
use vstd::prelude::*;

use crate::gelf::{GELFMessage, GelfView};
use crate::json::{opt_field, FieldValue, FieldView, JsonString, JsonValue, JsonView};
use crate::number::{parse_i64, parse_u64, read_signed, read_unsigned};
use crate::schema::attr::{ConversionView, FieldValueConversion};
use crate::schema::column::{column_views, Column, ColumnView, ValueKind};
use crate::schema::convert::{
    convert_datetime_to_usec, convert_float_sec_to_usec, convert_hex_to_uint,
    convert_syslog_timestamp_in, datetime_micros, float_micros, hex_uint, syslog_timestamp,
    ConvertError,
};
use crate::schema::generate::{
    access, in_every_gelf, source_of, AccessorView, Converter, SourceView,
};
use crate::syslog::{SyslogMessage, SyslogView};
use crate::text::str_eq;
use crate::time::{year_view, Timestamp};

verus! {

/// What a source comes to: a value, none, or an error.
pub type Sourced = Result<Option<FieldView>, ConvertError>;

/// A result, held against what it is to be.
pub open spec fn same_value(res: Result<Option<FieldValue>, ConvertError>, want: Sourced) -> bool {
    match (res, want) {
        (Ok(a), Ok(b)) => opt_field(a) == b,
        (Err(e), Err(f)) => e == f,
        _ => false,
    }
}

/// What the sources of a field come to: an error where any of them is one, else the
/// first value.
pub open spec fn chosen(results: Seq<Sourced>) -> Sourced
    decreases results.len(),
{
    if results.len() == 0 {
        Ok(None)
    } else {
        match chosen(results.drop_last()) {
            Err(e) => Err(e),
            Ok(v) => match results.last() {
                Err(e) => Err(e),
                Ok(w) => Ok(
                    if v is Some {
                        v
                    } else {
                        w
                    },
                ),
            },
        }
    }
}

/// The values that results come to, up to the first error.
pub open spec fn all_values(results: Seq<Sourced>) -> Result<Seq<Option<FieldView>>, ConvertError>
    decreases results.len(),
{
    if results.len() == 0 {
        Ok(Seq::empty())
    } else {
        match all_values(results.drop_last()) {
            Err(e) => Err(e),
            Ok(front) => match results.last() {
                Err(e) => Err(e),
                Ok(v) => Ok(front.push(v)),
            },
        }
    }
}

/// An error among the first results is what all of them come to.
pub proof fn lemma_values_stop(results: Seq<Sourced>, k: int)
    requires
        0 <= k <= results.len(),
        all_values(results.take(k)) is Err,
    ensures
        all_values(results) == all_values(results.take(k)),
    decreases results.len() - k,
{
    if k == results.len() {
        assert(results.take(k) =~= results);
    } else {
        assert(results.take(k + 1).drop_last() =~= results.take(k));
        lemma_values_stop(results, k + 1);
    }
}

/// An error among the first sources is what all of them come to.
proof fn lemma_chosen_stop(results: Seq<Sourced>, k: int)
    requires
        0 <= k <= results.len(),
        chosen(results.take(k)) is Err,
    ensures
        chosen(results) == chosen(results.take(k)),
    decreases results.len() - k,
{
    if k == results.len() {
        assert(results.take(k) =~= results);
    } else {
        assert(results.take(k + 1).drop_last() =~= results.take(k));
        lemma_chosen_stop(results, k + 1);
    }
}

/// The values of a list, seen through their views.
pub open spec fn value_views(v: Seq<Option<FieldValue>>) -> Seq<Option<FieldView>> {
    Seq::new(v.len(), |i: int| opt_field(v[i]))
}

/// The numbers, as values of a field.
pub open spec fn numbered(n: Result<u64, ConvertError>) -> Sourced {
    match n {
        Ok(n) => Ok(Some(FieldView::U64(n))),
        Err(e) => Err(e),
    }
}

/// The number, as the value of a field.
fn number_value(n: Result<u64, ConvertError>) -> (res: Result<Option<FieldValue>, ConvertError>)
    ensures
        same_value(res, numbered(n)),
{
    match n {
        Ok(n) => Ok(Some(FieldValue::U64(n))),
        Err(e) => Err(e),
    }
}

// ---------------------------------------------------------------------------
// GELF messages
// ---------------------------------------------------------------------------

/// A JSON value as a value of the kind: a value of that kind, or for a number also a
/// string that denotes one.
pub open spec fn decoded(kind: ValueKind, v: JsonView) -> Result<FieldView, ConvertError> {
    match (kind, v) {
        (ValueKind::Text, JsonView::String { text, .. }) => Ok(FieldView::Text(text)),
        (ValueKind::Text, _) => Err(ConvertError::WrongKind),
        (ValueKind::U64, JsonView::Number { as_u64: Some(n), .. }) => Ok(FieldView::U64(n)),
        (ValueKind::U64, JsonView::Number { as_u64: None, .. }) => Err(
            ConvertError::Unrepresentable,
        ),
        (ValueKind::U64, JsonView::String { text, .. }) => match read_unsigned(
            text,
            10,
            u64::MAX as nat,
        ) {
            Some(n) => Ok(FieldView::U64(n as u64)),
            None => Err(ConvertError::Unparsable),
        },
        (ValueKind::U64, _) => Err(ConvertError::WrongKind),
        (ValueKind::I64, JsonView::Number { as_i64: Some(n), .. }) => Ok(FieldView::I64(n)),
        (ValueKind::I64, JsonView::Number { as_i64: None, .. }) => Err(
            ConvertError::Unrepresentable,
        ),
        (ValueKind::I64, JsonView::String { text, .. }) => match read_signed(text, 10) {
            Some(n) => Ok(FieldView::I64(n as i64)),
            None => Err(ConvertError::Unparsable),
        },
        (ValueKind::I64, _) => Err(ConvertError::WrongKind),
    }
}

/// Reads a JSON value as a value of the kind.
pub fn decode(kind: ValueKind, v: &JsonValue) -> (res: Result<FieldValue, ConvertError>)
    ensures
        match (res, decoded(kind, v@)) {
            (Ok(a), Ok(b)) => a@ == b,
            (Err(e), Err(f)) => e == f,
            _ => false,
        },
{
    match kind {
        ValueKind::Text => match v {
            JsonValue::String(s) => Ok(FieldValue::Text(s.text.clone())),
            _ => Err(ConvertError::WrongKind),
        },
        ValueKind::U64 => match v {
            JsonValue::Number(n) => match n.as_u64 {
                Some(n) => Ok(FieldValue::U64(n)),
                None => Err(ConvertError::Unrepresentable),
            },
            JsonValue::String(s) => match parse_u64(s.text.as_str(), 10) {
                Some(n) => Ok(FieldValue::U64(n)),
                None => Err(ConvertError::Unparsable),
            },
            _ => Err(ConvertError::WrongKind),
        },
        ValueKind::I64 => match v {
            JsonValue::Number(n) => match n.as_i64 {
                Some(n) => Ok(FieldValue::I64(n)),
                None => Err(ConvertError::Unrepresentable),
            },
            JsonValue::String(s) => match parse_i64(s.text.as_str(), 10) {
                Some(n) => Ok(FieldValue::I64(n)),
                None => Err(ConvertError::Unparsable),
            },
            _ => Err(ConvertError::WrongKind),
        },
    }
}

/// The value of a field of a GELF message. Of the texts that every message has it is
/// not told whether they are numbers of seconds: they are taken for none.
pub open spec fn gelf_get(msg: GelfView, field: Seq<char>) -> Option<JsonView> {
    if field == "version"@ {
        Some(JsonView::String { text: msg.version, micros: None })
    } else if field == "host"@ {
        Some(JsonView::String { text: msg.host, micros: None })
    } else if field == "short_message"@ {
        Some(JsonView::String { text: msg.short_message, micros: None })
    } else if msg.other.contains_key(field) {
        Some(msg.other[field])
    } else {
        None
    }
}

/// What a source comes to in a GELF message, in the given year.
pub open spec fn gelf_source(
    c: ConversionView,
    kind: ValueKind,
    msg: GelfView,
    year: Option<Seq<char>>,
) -> Sourced {
    match c {
        ConversionView::Plain(f) => match gelf_get(msg, f) {
            Some(v) => match decoded(kind, v) {
                Ok(w) => Ok(Some(w)),
                Err(e) => Err(e),
            },
            None => Ok(None),
        },
        ConversionView::FloatSecToUsec(f) => match gelf_get(msg, f) {
            Some(v) => numbered(float_micros(v)),
            None => Ok(None),
        },
        ConversionView::HexToUint(f) => match gelf_get(msg, f) {
            Some(v) => numbered(hex_uint(v)),
            None => Ok(None),
        },
        ConversionView::SyslogTimestamp(f) => match gelf_get(msg, f) {
            Some(v) => numbered(syslog_timestamp(v, year)),
            None => Ok(None),
        },
        ConversionView::DateTimeToUsec(f) => match gelf_get(msg, f) {
            Some(v) => Err(ConvertError::WrongKind),
            None => Ok(None),
        },
    }
}

/// What the conversion makes of a JSON value.
fn convert_gelf(c: &FieldValueConversion, kind: ValueKind, v: &JsonValue, year: Option<&str>) -> (res:
    Result<Option<FieldValue>, ConvertError>)
    ensures
        same_value(
            res,
            match c@ {
                ConversionView::Plain(f) => match decoded(kind, v@) {
                    Ok(w) => Ok(Some(w)),
                    Err(e) => Err(e),
                },
                ConversionView::FloatSecToUsec(f) => numbered(float_micros(v@)),
                ConversionView::HexToUint(f) => numbered(hex_uint(v@)),
                ConversionView::SyslogTimestamp(f) => numbered(syslog_timestamp(v@, year_view(year))),
                ConversionView::DateTimeToUsec(f) => Err(ConvertError::WrongKind),
            },
        ),
{
    match c {
        FieldValueConversion::Plain(_) => match decode(kind, v) {
            Ok(w) => Ok(Some(w)),
            Err(e) => Err(e),
        },
        FieldValueConversion::FloatSecToUsec(_) => number_value(convert_float_sec_to_usec(v)),
        FieldValueConversion::HexToUint(_) => number_value(convert_hex_to_uint(v)),
        FieldValueConversion::SyslogTimestamp(_) => number_value(
            convert_syslog_timestamp_in(v, year),
        ),
        FieldValueConversion::DateTimeToUsec(_) => Err(ConvertError::WrongKind),
    }
}

/// The field that a conversion takes.
pub open spec fn source_field(c: ConversionView) -> Seq<char> {
    match c {
        ConversionView::Plain(f) => f,
        ConversionView::FloatSecToUsec(f) => f,
        ConversionView::HexToUint(f) => f,
        ConversionView::SyslogTimestamp(f) => f,
        ConversionView::DateTimeToUsec(f) => f,
    }
}

impl FieldValueConversion {
    /// The field that the conversion takes.
    pub fn field(&self) -> (res: &str)
        ensures
            res@ == source_field(self@),
    {
        match self {
            FieldValueConversion::Plain(f) => f.as_str(),
            FieldValueConversion::FloatSecToUsec(f) => f.as_str(),
            FieldValueConversion::HexToUint(f) => f.as_str(),
            FieldValueConversion::SyslogTimestamp(f) => f.as_str(),
            FieldValueConversion::DateTimeToUsec(f) => f.as_str(),
        }
    }
}

/// A text as a JSON string.
fn json_text(text: &String) -> (res: JsonValue)
    ensures
        res@ == (JsonView::String { text: text@, micros: None }),
{
    JsonValue::String(JsonString { text: text.clone(), micros: None })
}

/// What a source comes to in a GELF message.
fn eval_gelf(c: &FieldValueConversion, kind: ValueKind, msg: &GELFMessage, year: Option<&str>) -> (res:
    Result<Option<FieldValue>, ConvertError>)
    ensures
        same_value(res, gelf_source(c@, kind, msg@, year_view(year))),
{
    let field = c.field();
    if str_eq(field, "version") {
        convert_gelf(c, kind, &json_text(&msg.version), year)
    } else if str_eq(field, "host") {
        convert_gelf(c, kind, &json_text(&msg.host), year)
    } else if str_eq(field, "short_message") {
        convert_gelf(c, kind, &json_text(&msg.short_message), year)
    } else {
        match msg.other.get(field) {
            Some(v) => convert_gelf(c, kind, v, year),
            None => Ok(None),
        }
    }
}

/// What the sources of a column come to in a GELF message.
pub open spec fn gelf_value(c: ColumnView, msg: GelfView, year: Option<Seq<char>>) -> Sourced {
    chosen(Seq::new(c.gelf.len(), |i: int| gelf_source(c.gelf[i], c.kind, msg, year)))
}

/// Fills a column from a GELF message.
fn fill_gelf(c: &Column, msg: &GELFMessage, year: Option<&str>) -> (res: Result<
    Option<FieldValue>,
    ConvertError,
>)
    ensures
        same_value(res, gelf_value(c@, msg@, year_view(year))),
{
    let ghost results = Seq::new(
        c@.gelf.len(),
        |i: int| gelf_source(c@.gelf[i], c.kind, msg@, year_view(year)),
    );
    let mut value: Option<FieldValue> = None;
    let mut i: usize = 0;
    assert(results.take(0) =~= Seq::<Sourced>::empty());
    while i < c.gelf.len()
        invariant
            i <= c.gelf@.len(),
            results == Seq::new(
                c@.gelf.len(),
                |i: int| gelf_source(c@.gelf[i], c.kind, msg@, year_view(year)),
            ),
            chosen(results.take(i as int)) == Ok::<Option<FieldView>, ConvertError>(
                opt_field(value),
            ),
        decreases c.gelf@.len() - i,
    {
        proof {
            assert(results.take(i + 1).drop_last() =~= results.take(i as int));
            assert(results.take(i + 1).last() == gelf_source(
                c.gelf@[i as int]@,
                c.kind,
                msg@,
                year_view(year),
            ));
        }
        match eval_gelf(&c.gelf[i], c.kind, msg, year) {
            Ok(v) => {
                if value.is_none() {
                    value = v;
                }
            },
            Err(e) => {
                proof {
                    lemma_chosen_stop(results, i + 1);
                }
                return Err(e);
            },
        }
        i = i + 1;
    }
    assert(results.take(i as int) =~= results);
    Ok(value)
}

/// What the columns come to in a GELF message, up to the first error.
pub open spec fn gelf_values(columns: Seq<ColumnView>, msg: GelfView, year: Option<Seq<char>>) -> Result<
    Seq<Option<FieldView>>,
    ConvertError,
> {
    all_values(Seq::new(columns.len(), |i: int| gelf_value(columns[i], msg, year)))
}

/// A list of values, held against what it is to be.
pub open spec fn same_values(
    res: Result<Vec<Option<FieldValue>>, ConvertError>,
    want: Result<Seq<Option<FieldView>>, ConvertError>,
) -> bool {
    match (res, want) {
        (Ok(a), Ok(b)) => value_views(a@) == b,
        (Err(e), Err(f)) => e == f,
        _ => false,
    }
}

/// Fills the columns from a GELF message, with the year to take for times that have
/// none.
pub fn from_gelf_in(columns: &Vec<Column>, msg: &GELFMessage, year: Option<&str>) -> (res: Result<
    Vec<Option<FieldValue>>,
    ConvertError,
>)
    ensures
        same_values(res, gelf_values(column_views(columns@), msg@, year_view(year))),
{
    let ghost views = column_views(columns@);
    let ghost results = Seq::new(views.len(), |i: int| gelf_value(views[i], msg@, year_view(year)));
    let mut values: Vec<Option<FieldValue>> = Vec::new();
    let mut i: usize = 0;
    assert(results.take(0) =~= Seq::<Sourced>::empty());
    assert(value_views(values@) =~= Seq::<Option<FieldView>>::empty());
    while i < columns.len()
        invariant
            i <= columns@.len(),
            views == column_views(columns@),
            results == Seq::new(views.len(), |i: int| gelf_value(views[i], msg@, year_view(year))),
            all_values(results.take(i as int)) == Ok::<Seq<Option<FieldView>>, ConvertError>(
                value_views(values@),
            ),
        decreases columns@.len() - i,
    {
        proof {
            assert(results.take(i + 1).drop_last() =~= results.take(i as int));
            assert(results.take(i + 1).last() == gelf_value(columns@[i as int]@, msg@, year_view(year)));
        }
        match fill_gelf(&columns[i], msg, year) {
            Ok(v) => {
                let ghost done = value_views(values@);
                values.push(v);
                assert(value_views(values@) =~= done.push(opt_field(v)));
            },
            Err(e) => {
                proof {
                    lemma_values_stop(results, i + 1);
                }
                return Err(e);
            },
        }
        i = i + 1;
    }
    assert(results.take(i as int) =~= results);
    Ok(values)
}

// ---------------------------------------------------------------------------
// Syslog messages
// ---------------------------------------------------------------------------

/// The value of a field of a syslog message.
pub enum SyslogValue {
    Text(Seq<char>),
    Byte(u8),
    U64(u64),
    Time(Timestamp),
}

/// The value of a field of a syslog message.
pub open spec fn syslog_get(msg: SyslogView, field: Seq<char>) -> Option<SyslogValue> {
    if field == "priority"@ {
        Some(SyslogValue::Byte(msg.priority))
    } else if field == "facility"@ {
        Some(SyslogValue::Text(msg.facility))
    } else if field == "source_timestamp"@ {
        Some(SyslogValue::Time(msg.source_timestamp))
    } else if field == "message"@ {
        Some(SyslogValue::Text(msg.message))
    } else if field == "full_message"@ {
        Some(SyslogValue::Text(msg.full_message))
    } else if field == "hostname"@ {
        match msg.hostname {
            Some(h) => Some(SyslogValue::Text(h)),
            None => None,
        }
    } else if field == "identifier"@ {
        match msg.identifier {
            Some(i) => Some(SyslogValue::Text(i)),
            None => None,
        }
    } else if field == "pid"@ {
        match msg.pid {
            Some(p) => Some(SyslogValue::U64(p)),
            None => None,
        }
    } else {
        None
    }
}

/// A byte as a number of the kind.
pub open spec fn byte_value(n: u8, kind: ValueKind) -> Sourced {
    match kind {
        ValueKind::U64 => Ok(Some(FieldView::U64(n as u64))),
        ValueKind::I64 => Ok(Some(FieldView::I64(n as i64))),
        _ => Err(ConvertError::WrongKind),
    }
}

/// A value of a syslog message after the conversion: times can be converted to
/// microseconds, and nothing else. A byte is a number with or without a sign, as it is
/// asked for.
pub open spec fn syslog_converted(c: ConversionView, kind: ValueKind, v: SyslogValue) -> Sourced {
    match (c, v) {
        (ConversionView::Plain(_), SyslogValue::Text(t)) => if kind is Text {
            Ok(Some(FieldView::Text(t)))
        } else {
            Err(ConvertError::WrongKind)
        },
        (ConversionView::Plain(_), SyslogValue::Byte(n)) => byte_value(n, kind),
        (ConversionView::Plain(_), SyslogValue::U64(n)) => if kind is U64 {
            Ok(Some(FieldView::U64(n)))
        } else {
            Err(ConvertError::WrongKind)
        },
        (ConversionView::DateTimeToUsec(_), SyslogValue::Time(t)) => numbered(datetime_micros(t)),
        _ => Err(ConvertError::WrongKind),
    }
}

/// What a source comes to in a syslog message.
pub open spec fn syslog_source(c: ConversionView, kind: ValueKind, msg: SyslogView) -> Sourced {
    match syslog_get(msg, source_field(c)) {
        Some(v) => syslog_converted(c, kind, v),
        None => Ok(None),
    }
}

/// A text of a syslog message after the conversion.
fn convert_text(c: &FieldValueConversion, kind: ValueKind, text: &String) -> (res: Result<
    Option<FieldValue>,
    ConvertError,
>)
    ensures
        same_value(res, syslog_converted(c@, kind, SyslogValue::Text(text@))),
{
    match c {
        FieldValueConversion::Plain(_) => match kind {
            ValueKind::Text => Ok(Some(FieldValue::Text(text.clone()))),
            _ => Err(ConvertError::WrongKind),
        },
        _ => Err(ConvertError::WrongKind),
    }
}

/// A byte of a syslog message after the conversion.
fn convert_byte(c: &FieldValueConversion, kind: ValueKind, n: u8) -> (res: Result<
    Option<FieldValue>,
    ConvertError,
>)
    ensures
        same_value(res, syslog_converted(c@, kind, SyslogValue::Byte(n))),
{
    match c {
        FieldValueConversion::Plain(_) => match kind {
            ValueKind::U64 => Ok(Some(FieldValue::U64(n as u64))),
            ValueKind::I64 => Ok(Some(FieldValue::I64(n as i64))),
            _ => Err(ConvertError::WrongKind),
        },
        _ => Err(ConvertError::WrongKind),
    }
}

/// A number of a syslog message after the conversion.
fn convert_number(c: &FieldValueConversion, kind: ValueKind, n: u64) -> (res: Result<
    Option<FieldValue>,
    ConvertError,
>)
    ensures
        same_value(res, syslog_converted(c@, kind, SyslogValue::U64(n))),
{
    match c {
        FieldValueConversion::Plain(_) => match kind {
            ValueKind::U64 => Ok(Some(FieldValue::U64(n))),
            _ => Err(ConvertError::WrongKind),
        },
        _ => Err(ConvertError::WrongKind),
    }
}

/// A text that a syslog message may have, after the conversion.
fn convert_opt_text(c: &FieldValueConversion, kind: ValueKind, text: &Option<String>) -> (res:
    Result<Option<FieldValue>, ConvertError>)
    ensures
        same_value(
            res,
            match *text {
                Some(t) => syslog_converted(c@, kind, SyslogValue::Text(t@)),
                None => Ok(None),
            },
        ),
{
    match text {
        Some(t) => convert_text(c, kind, t),
        None => Ok(None),
    }
}

/// What a source comes to in a syslog message.
fn eval_syslog(c: &FieldValueConversion, kind: ValueKind, msg: &SyslogMessage) -> (res: Result<
    Option<FieldValue>,
    ConvertError,
>)
    ensures
        same_value(res, syslog_source(c@, kind, msg@)),
{
    let field = c.field();
    if str_eq(field, "priority") {
        convert_byte(c, kind, msg.priority)
    } else if str_eq(field, "facility") {
        convert_text(c, kind, &msg.facility)
    } else if str_eq(field, "source_timestamp") {
        match c {
            FieldValueConversion::DateTimeToUsec(_) => number_value(
                convert_datetime_to_usec(&msg.source_timestamp),
            ),
            _ => Err(ConvertError::WrongKind),
        }
    } else if str_eq(field, "message") {
        convert_text(c, kind, &msg.message)
    } else if str_eq(field, "full_message") {
        convert_text(c, kind, &msg.full_message)
    } else if str_eq(field, "hostname") {
        convert_opt_text(c, kind, &msg.hostname)
    } else if str_eq(field, "identifier") {
        convert_opt_text(c, kind, &msg.identifier)
    } else if str_eq(field, "pid") {
        match msg.pid {
            Some(n) => convert_number(c, kind, n),
            None => Ok(None),
        }
    } else {
        Ok(None)
    }
}

/// What the sources of a column come to in a syslog message.
pub open spec fn syslog_value(c: ColumnView, msg: SyslogView) -> Sourced {
    chosen(Seq::new(c.syslog.len(), |i: int| syslog_source(c.syslog[i], c.kind, msg)))
}

/// Fills a column from a syslog message.
fn fill_syslog(c: &Column, msg: &SyslogMessage) -> (res: Result<Option<FieldValue>, ConvertError>)
    ensures
        same_value(res, syslog_value(c@, msg@)),
{
    let ghost results = Seq::new(
        c@.syslog.len(),
        |i: int| syslog_source(c@.syslog[i], c.kind, msg@),
    );
    let mut value: Option<FieldValue> = None;
    let mut i: usize = 0;
    assert(results.take(0) =~= Seq::<Sourced>::empty());
    while i < c.syslog.len()
        invariant
            i <= c.syslog@.len(),
            results == Seq::new(
                c@.syslog.len(),
                |i: int| syslog_source(c@.syslog[i], c.kind, msg@),
            ),
            chosen(results.take(i as int)) == Ok::<Option<FieldView>, ConvertError>(
                opt_field(value),
            ),
        decreases c.syslog@.len() - i,
    {
        proof {
            assert(results.take(i + 1).drop_last() =~= results.take(i as int));
            assert(results.take(i + 1).last() == syslog_source(
                c.syslog@[i as int]@,
                c.kind,
                msg@,
            ));
        }
        match eval_syslog(&c.syslog[i], c.kind, msg) {
            Ok(v) => {
                if value.is_none() {
                    value = v;
                }
            },
            Err(e) => {
                proof {
                    lemma_chosen_stop(results, i + 1);
                }
                return Err(e);
            },
        }
        i = i + 1;
    }
    assert(results.take(i as int) =~= results);
    Ok(value)
}

/// What the columns come to in a syslog message, up to the first error.
pub open spec fn syslog_values(columns: Seq<ColumnView>, msg: SyslogView) -> Result<
    Seq<Option<FieldView>>,
    ConvertError,
> {
    all_values(Seq::new(columns.len(), |i: int| syslog_value(columns[i], msg)))
}

/// Fills the columns from a syslog message.
pub fn from_syslog(columns: &Vec<Column>, msg: &SyslogMessage) -> (res: Result<
    Vec<Option<FieldValue>>,
    ConvertError,
>)
    ensures
        same_values(res, syslog_values(column_views(columns@), msg@)),
{
    let ghost views = column_views(columns@);
    let ghost results = Seq::new(views.len(), |i: int| syslog_value(views[i], msg@));
    let mut values: Vec<Option<FieldValue>> = Vec::new();
    let mut i: usize = 0;
    assert(results.take(0) =~= Seq::<Sourced>::empty());
    assert(value_views(values@) =~= Seq::<Option<FieldView>>::empty());
    while i < columns.len()
        invariant
            i <= columns@.len(),
            views == column_views(columns@),
            results == Seq::new(views.len(), |i: int| syslog_value(views[i], msg@)),
            all_values(results.take(i as int)) == Ok::<Seq<Option<FieldView>>, ConvertError>(
                value_views(values@),
            ),
        decreases columns@.len() - i,
    {
        proof {
            assert(results.take(i + 1).drop_last() =~= results.take(i as int));
            assert(results.take(i + 1).last() == syslog_value(columns@[i as int]@, msg@));
        }
        match fill_syslog(&columns[i], msg) {
            Ok(v) => {
                let ghost done = value_views(values@);
                values.push(v);
                assert(value_views(values@) =~= done.push(opt_field(v)));
            },
            Err(e) => {
                proof {
                    lemma_values_stop(results, i + 1);
                }
                return Err(e);
            },
        }
        i = i + 1;
    }
    assert(results.take(i as int) =~= results);
    Ok(values)
}

// ---------------------------------------------------------------------------
// Laws
// ---------------------------------------------------------------------------

/// The first source that has a value gives it, whatever the later ones have.
pub proof fn first_source_wins(results: Seq<Sourced>, k: int)
    requires
        0 <= k < results.len(),
        forall|i: int| 0 <= i < results.len() ==> (#[trigger] results[i]) is Ok,
        forall|i: int| 0 <= i < k ==> (#[trigger] results[i])->Ok_0 is None,
        results[k]->Ok_0 is Some,
    ensures
        chosen(results) == results[k],
    decreases results.len(),
{
    let front = results.drop_last();
    if k == front.len() {
        lemma_none_chosen(front);
    } else {
        assert(front[k] == results[k]);
        first_source_wins(front, k);
    }
}

/// Sources without a value come to none.
proof fn lemma_none_chosen(results: Seq<Sourced>)
    requires
        forall|i: int|
            0 <= i < results.len() ==> (#[trigger] results[i]) is Ok && results[i]->Ok_0 is None,
    ensures
        chosen(results) == Ok::<Option<FieldView>, ConvertError>(None),
    decreases results.len(),
{
    if results.len() > 0 {
        lemma_none_chosen(results.drop_last());
    }
}

/// A source that fails makes the field fail, even where an earlier one has a value.
pub proof fn failing_source_fails(results: Seq<Sourced>, k: int)
    requires
        0 <= k < results.len(),
        results[k] is Err,
    ensures
        chosen(results) is Err,
    decreases results.len(),
{
    if k < results.len() - 1 {
        let front = results.drop_last();
        assert(front[k] == results[k]);
        failing_source_fails(front, k);
    }
}

/// What an accessor of the generated code gives of a GELF message.
pub open spec fn reach_gelf(a: AccessorView, msg: GelfView) -> Option<JsonView> {
    match a {
        AccessorView::GelfField(f) => if f == "version"@ {
            Some(JsonView::String { text: msg.version, micros: None })
        } else if f == "host"@ {
            Some(JsonView::String { text: msg.host, micros: None })
        } else {
            Some(JsonView::String { text: msg.short_message, micros: None })
        },
        AccessorView::GelfOther(f) => if msg.other.contains_key(f) {
            Some(msg.other[f])
        } else {
            None
        },
        _ => None,
    }
}

/// What an expression of the generated code gives of a GELF message.
pub open spec fn run_gelf(e: SourceView, kind: ValueKind, msg: GelfView, year: Option<Seq<char>>) -> Sourced {
    match e {
        SourceView::Decoded(a) => match reach_gelf(a, msg) {
            Some(v) => match decoded(kind, v) {
                Ok(w) => Ok(Some(w)),
                Err(e) => Err(e),
            },
            None => Ok(None),
        },
        SourceView::Taken(a) => Err(ConvertError::WrongKind),
        SourceView::Converted { accessor, converter, .. } => match reach_gelf(accessor, msg) {
            Some(v) => match converter {
                Converter::FloatSecToUsec => numbered(float_micros(v)),
                Converter::HexToUint => numbered(hex_uint(v)),
                Converter::SyslogTimestamp => numbered(syslog_timestamp(v, year)),
                Converter::DateTimeToUsec => Err(ConvertError::WrongKind),
            },
            None => Ok(None),
        },
    }
}

/// The generated code fills a field from a GELF message as the columns do.
pub proof fn generated_gelf_code_agrees(
    c: ConversionView,
    kind: ValueKind,
    msg: GelfView,
    year: Option<Seq<char>>,
)
    ensures
        run_gelf(source_of(c, false), kind, msg, year) == gelf_source(c, kind, msg, year),
{
    let f = source_field(c);
    assert(reach_gelf(access(f, false), msg) == gelf_get(msg, f)) by {
        if in_every_gelf(f) && f != "version"@ && f != "host"@ {
            assert(f == "short_message"@);
        }
    }
}

/// What an accessor of the generated code gives of a syslog message.
pub open spec fn reach_syslog(a: AccessorView, msg: SyslogView) -> Option<SyslogValue> {
    match a {
        AccessorView::SyslogPresent(f) => syslog_get(msg, f),
        AccessorView::SyslogOptional(f) => syslog_get(msg, f),
        _ => None,
    }
}

/// What an expression of the generated code gives of a syslog message. What goes by way
/// of JSON is of no type that a converter takes.
pub open spec fn run_syslog(e: SourceView, kind: ValueKind, msg: SyslogView) -> Sourced {
    match e {
        SourceView::Taken(a) => match reach_syslog(a, msg) {
            Some(SyslogValue::Text(t)) => if kind is Text {
                Ok(Some(FieldView::Text(t)))
            } else {
                Err(ConvertError::WrongKind)
            },
            Some(SyslogValue::Byte(n)) => byte_value(n, kind),
            Some(SyslogValue::U64(n)) => if kind is U64 {
                Ok(Some(FieldView::U64(n)))
            } else {
                Err(ConvertError::WrongKind)
            },
            Some(SyslogValue::Time(_)) => Err(ConvertError::WrongKind),
            None => Ok(None),
        },
        SourceView::Decoded(_) => Err(ConvertError::WrongKind),
        SourceView::Converted { accessor, via_json, converter, .. } => match reach_syslog(
            accessor,
            msg,
        ) {
            Some(SyslogValue::Time(t)) => if converter is DateTimeToUsec && !via_json {
                numbered(datetime_micros(t))
            } else {
                Err(ConvertError::WrongKind)
            },
            Some(_) => Err(ConvertError::WrongKind),
            None => Ok(None),
        },
    }
}

/// The generated code fills a field from a syslog message as the columns do.
pub proof fn generated_syslog_code_agrees(c: ConversionView, kind: ValueKind, msg: SyslogView)
    ensures
        run_syslog(source_of(c, true), kind, msg) == syslog_source(c, kind, msg),
{
    let f = source_field(c);
    assert(reach_syslog(access(f, true), msg) == syslog_get(msg, f));
}

} // verus!
