//! Declared columns, the clock, and what becomes of messages.
use vstd::prelude::*;

use crate::clock::{micros, micros_of, seconds_of};
use crate::gelf::GelfView;
use crate::ingest::{judged, IncomingView, Verdict};
use crate::json::JsonView;
use crate::laws::schema::{dated_message_is_kept, syslog_message_becomes_document, told};
use crate::schema::attr::{
    conversion_of, inner_conversion, ConversionView, FormatOption, InnerView, TantivyType,
};
use crate::schema::column::{
    column_of, columns_of, inner_conversions, AttributeView, ColumnView, DeclView, DeriveError,
    ValueKind,
};
use crate::schema::generate::{
    declared, gelf_access, source_of, syslog_access, AccessorView, Converter, SourceView,
};
use crate::syslog::SyslogView;
use crate::time::since_epoch;

verus! {

// ---------------------------------------------------------------------------
// Words of attributes
// ---------------------------------------------------------------------------

/// The names of the conversions are different texts.
proof fn lemma_conversion_names()
    ensures
        "none"@.len() == 4,
        "float_sec_to_usec"@.len() == 17,
        "hex_to_uint"@.len() == 11,
        "syslog_timestamp"@.len() == 16,
        "datetime_to_usec"@.len() == 16,
        "syslog_timestamp"@[0] == 's',
        "datetime_to_usec"@[0] == 'd',
{
    reveal_strlit("none");
    reveal_strlit("float_sec_to_usec");
    reveal_strlit("hex_to_uint");
    reveal_strlit("syslog_timestamp");
    reveal_strlit("datetime_to_usec");
}

/// The conversions have these names, and there are no others.
pub proof fn conversions_are_named(field: Seq<char>, word: Seq<char>)
    ensures
        conversion_of(field, "none"@) == Some(ConversionView::Plain(field)),
        conversion_of(field, "float_sec_to_usec"@) == Some(ConversionView::FloatSecToUsec(field)),
        conversion_of(field, "hex_to_uint"@) == Some(ConversionView::HexToUint(field)),
        conversion_of(field, "syslog_timestamp"@) == Some(ConversionView::SyslogTimestamp(field)),
        conversion_of(field, "datetime_to_usec"@) == Some(ConversionView::DateTimeToUsec(field)),
        word != "none"@ && word != "float_sec_to_usec"@ && word != "hex_to_uint"@ && word
            != "syslog_timestamp"@ && word != "datetime_to_usec"@ ==> conversion_of(field, word)
            is None,
{
    lemma_conversion_names();
}

/// The ways to store a field have these names, and there are no others.
pub proof fn storage_types_are_named(word: Seq<char>)
    ensures
        TantivyType::of_attribute("string"@) == Some(TantivyType::String),
        TantivyType::of_attribute("text"@) == Some(TantivyType::Text),
        TantivyType::of_attribute("u64"@) == Some(TantivyType::U64),
        TantivyType::of_attribute("i64"@) == Some(TantivyType::I64),
        TantivyType::of_attribute("timestamp"@) == Some(TantivyType::Timestamp),
        TantivyType::of_attribute("fast_timestamp"@) == Some(TantivyType::FastTimestamp),
        word != "string"@ && word != "text"@ && word != "u64"@ && word != "i64"@ && word
            != "timestamp"@ && word != "fast_timestamp"@ ==> TantivyType::of_attribute(word)
            is None,
{
    reveal_strlit("string");
    reveal_strlit("text");
    reveal_strlit("u64");
    reveal_strlit("i64");
    reveal_strlit("timestamp");
    reveal_strlit("fast_timestamp");
    assert("string"@.len() == 6 && "text"@.len() == 4 && "u64"@.len() == 3 && "i64"@.len() == 3
        && "timestamp"@.len() == 9 && "fast_timestamp"@.len() == 14);
    assert("u64"@[0] == 'u' && "i64"@[0] == 'i');
}

/// The formats have these names, and there are no others.
pub proof fn formats_are_named(word: Seq<char>)
    ensures
        FormatOption::of_attribute("syslog_priority"@) == Some(FormatOption::SyslogPriority),
        FormatOption::of_attribute("hex"@) == Some(FormatOption::Hex),
        word != "syslog_priority"@ && word != "hex"@ ==> FormatOption::of_attribute(word) is None,
{
    reveal_strlit("syslog_priority");
    reveal_strlit("hex");
    assert("syslog_priority"@.len() == 15 && "hex"@.len() == 3);
}

/// What an argument of an attribute asks for: a name alone, or a string, for the field as
/// it is, and a name with a string for the conversion that the string names. Anything else
/// asks for nothing.
pub proof fn arguments_name_fields(name: Seq<char>, word: Seq<char>)
    ensures
        inner_conversion(InnerView::Path(Some(name))) == Some(ConversionView::Plain(name)),
        inner_conversion(InnerView::Str(name)) == Some(ConversionView::Plain(name)),
        inner_conversion(InnerView::NameStr(Some(name), word)) == conversion_of(name, word),
        inner_conversion(InnerView::Path(None)) is None,
        inner_conversion(InnerView::NameStr(None, word)) is None,
        inner_conversion(InnerView::Other) is None,
{
    lemma_conversion_names();
}

/// One more argument asks for one more field, behind the others, or for nothing.
pub proof fn one_more_argument(args: Seq<InnerView>, a: InnerView)
    ensures
        inner_conversions(Seq::empty()).len() == 0,
        inner_conversion(a) is None ==> inner_conversions(args.push(a)) == inner_conversions(args),
        inner_conversion(a) is Some ==> inner_conversions(args.push(a)) == inner_conversions(
            args,
        ).push(inner_conversion(a)->0),
{
    assert(args.push(a).drop_last() =~= args);
}

// ---------------------------------------------------------------------------
// Declarations
// ---------------------------------------------------------------------------

/// A declaration with one more attribute.
pub open spec fn with_one_more(d: DeclView, a: AttributeView) -> DeclView {
    DeclView { name: d.name, kind: d.kind, attrs: d.attrs.push(a) }
}

/// A field without attributes is a column that is filled from nothing and not stored.
pub proof fn field_alone_is_a_column(name: Seq<char>, kind: ValueKind)
    ensures
        column_of(DeclView { name, kind, attrs: Seq::empty() }) matches Ok(c) && c.name == name
            && c.kind == kind && c.gelf.len() == 0 && c.syslog.len() == 0 && c.storage.len() == 0
            && c.format is None,
{
}

/// What one more attribute says of a column: where it is filled from, how it is stored or
/// how it is shown. Of another name it says nothing.
pub proof fn one_more_attribute(
    d: DeclView,
    c: ColumnView,
    args: Seq<InnerView>,
    word: Seq<char>,
    other: Seq<char>,
)
    requires
        column_of(d) == Ok::<ColumnView, DeriveError>(c),
    ensures
        column_of(with_one_more(d, AttributeView::List(Some("from_gelf"@), args))) == Ok::<
            ColumnView,
            DeriveError,
        >(ColumnView { gelf: c.gelf + inner_conversions(args), ..c }),
        column_of(with_one_more(d, AttributeView::List(Some("from_syslog"@), args))) == Ok::<
            ColumnView,
            DeriveError,
        >(ColumnView { syslog: c.syslog + inner_conversions(args), ..c }),
        TantivyType::of_attribute(word) matches Some(t) ==> column_of(
            with_one_more(d, AttributeView::NameStr(Some("storage_type"@), word)),
        ) == Ok::<ColumnView, DeriveError>(ColumnView { storage: c.storage.push(t), ..c }),
        TantivyType::of_attribute(word) is None ==> column_of(
            with_one_more(d, AttributeView::NameStr(Some("storage_type"@), word)),
        ) == Err::<ColumnView, DeriveError>(DeriveError::UnknownStorageType),
        FormatOption::of_attribute(word) matches Some(f) ==> column_of(
            with_one_more(d, AttributeView::NameStr(Some("format"@), word)),
        ) == Ok::<ColumnView, DeriveError>(ColumnView { format: Some(f), ..c }),
        FormatOption::of_attribute(word) is None ==> column_of(
            with_one_more(d, AttributeView::NameStr(Some("format"@), word)),
        ) == Err::<ColumnView, DeriveError>(DeriveError::UnknownFormat),
        other != "from_gelf"@ && other != "from_syslog"@ ==> column_of(
            with_one_more(d, AttributeView::List(Some(other), args)),
        ) == Ok::<ColumnView, DeriveError>(c),
        other != "storage_type"@ && other != "format"@ ==> column_of(
            with_one_more(d, AttributeView::NameStr(Some(other), word)),
        ) == Ok::<ColumnView, DeriveError>(c),
        column_of(with_one_more(d, AttributeView::Other)) == Ok::<ColumnView, DeriveError>(c),
{
    reveal_strlit("from_gelf");
    reveal_strlit("from_syslog");
    reveal_strlit("storage_type");
    reveal_strlit("format");
    assert("from_gelf"@.len() == 9 && "from_syslog"@.len() == 11);
    assert("storage_type"@.len() == 12 && "format"@.len() == 6);
    assert forall|a: AttributeView| (#[trigger] with_one_more(d, a)).attrs.drop_last() == d.attrs by {
        assert(d.attrs.push(a).drop_last() =~= d.attrs);
    }
}

/// One more field is one more column, behind the others; where a field cannot be used, the
/// declaration cannot, and nothing but a struct with named fields can be declared.
pub proof fn one_more_field(ds: Seq<DeclView>, d: DeclView)
    ensures
        columns_of(Seq::empty()) matches Ok(cs) && cs.len() == 0,
        columns_of(ds) is Ok && column_of(d) is Ok ==> columns_of(ds.push(d)) == Ok::<
            Seq<ColumnView>,
            DeriveError,
        >(columns_of(ds)->Ok_0.push(column_of(d)->Ok_0)),
        columns_of(ds) is Ok && column_of(d) is Err ==> columns_of(ds.push(d)) == Err::<
            Seq<ColumnView>,
            DeriveError,
        >(column_of(d)->Err_0),
        columns_of(ds) is Err ==> columns_of(ds.push(d)) == columns_of(ds),
        declared(Some(ds)) == columns_of(ds),
        declared(None) == Err::<Seq<ColumnView>, DeriveError>(DeriveError::NotNamedStruct),
{
    assert(ds.push(d).drop_last() =~= ds);
}

/// How the fields of messages are reached: those that every message has, and those that it
/// may have.
pub proof fn fields_are_reached(f: Seq<char>)
    ensures
        gelf_access("version"@) == AccessorView::GelfField("version"@),
        gelf_access("host"@) == AccessorView::GelfField("host"@),
        gelf_access("short_message"@) == AccessorView::GelfField("short_message"@),
        f != "version"@ && f != "host"@ && f != "short_message"@ ==> gelf_access(f)
            == AccessorView::GelfOther(f),
        syslog_access("priority"@) == AccessorView::SyslogPresent("priority"@),
        syslog_access("facility"@) == AccessorView::SyslogPresent("facility"@),
        syslog_access("source_timestamp"@) == AccessorView::SyslogPresent("source_timestamp"@),
        syslog_access("message"@) == AccessorView::SyslogPresent("message"@),
        syslog_access("full_message"@) == AccessorView::SyslogPresent("full_message"@),
        f != "priority"@ && f != "facility"@ && f != "source_timestamp"@ && f != "message"@ && f
            != "full_message"@ ==> syslog_access(f) == AccessorView::SyslogOptional(f),
{
}

/// How a source gives its value: as it is, or by the converter of its conversion, through
/// JSON where the message is one of syslog. Only the conversion of a point in time cannot
/// fail.
pub proof fn sources_are_converted(f: Seq<char>)
    ensures
        source_of(ConversionView::Plain(f), false) == SourceView::Decoded(gelf_access(f)),
        source_of(ConversionView::Plain(f), true) == SourceView::Taken(syslog_access(f)),
        source_of(ConversionView::FloatSecToUsec(f), false) == (SourceView::Converted {
            accessor: gelf_access(f),
            via_json: false,
            converter: Converter::FloatSecToUsec,
            fallible: true,
        }),
        source_of(ConversionView::HexToUint(f), false) == (SourceView::Converted {
            accessor: gelf_access(f),
            via_json: false,
            converter: Converter::HexToUint,
            fallible: true,
        }),
        source_of(ConversionView::SyslogTimestamp(f), false) == (SourceView::Converted {
            accessor: gelf_access(f),
            via_json: false,
            converter: Converter::SyslogTimestamp,
            fallible: true,
        }),
        source_of(ConversionView::DateTimeToUsec(f), true) matches SourceView::Converted {
            accessor,
            via_json,
            converter,
            fallible,
        } && accessor == syslog_access(f) && converter == Converter::DateTimeToUsec && !fallible,
{
}

// ---------------------------------------------------------------------------
// The clock, and what becomes of messages
// ---------------------------------------------------------------------------

/// What the clock reads in microseconds is no more than a microsecond less than what it
/// reads, and in seconds no more than a second less.
pub proof fn clock_is_read_exactly(secs: u64, nanos: u32)
    requires
        nanos < 1_000_000_000,
    ensures
        micros_of(Some((secs, nanos))) matches Some(n) && 1000 * n <= secs * 1_000_000_000 + nanos
            < 1000 * n + 1000,
        seconds_of(Some((secs, nanos))) == Some(secs),
        micros_of(None) is None,
        seconds_of(None) is None,
{
    let m = micros(secs as nat, nanos as nat);
    assert(m <= u128::MAX);
}

/// A reading of the clock is kept as it is where its seconds fit in 63 bits.
pub proof fn clock_reading_is_kept(secs: u64, nanos: u32)
    ensures
        secs < 0x8000_0000_0000_0000 ==> (since_epoch(Some((secs, nanos))) matches Some((s, n)) && s
            == secs && n == nanos),
        secs >= 0x8000_0000_0000_0000 ==> since_epoch(Some((secs, nanos))) is None,
        since_epoch(None) is None,
{
}

/// A GELF message with a time is kept where the time lies after the epoch and the message
/// says something, and is not where it does not.
pub proof fn gelf_message_is_judged(
    v: Verdict,
    m: GelfView,
    year: Option<Seq<char>>,
    secs: JsonView,
)
    requires
        told(m, "timestamp"@) == Some(secs),
    ensures
        judged(v, IncomingView::Gelf(m), year) && !(v is Failed) ==> (v is Keep <==> {
            &&& m.short_message.len() > 0
            &&& match secs {
                JsonView::Number { micros: Some(m), .. } => m > 0,
                JsonView::String { micros: Some(m), .. } => m > 0,
                _ => false,
            }
        }),
{
    dated_message_is_kept(m, year, secs);
}

/// A syslog message is kept where its time can be told in nanoseconds and lies a
/// microsecond after the epoch, or before it, and the message says something.
pub proof fn syslog_message_is_judged(v: Verdict, m: SyslogView, year: Option<Seq<char>>)
    ensures
        judged(v, IncomingView::Syslog(m), year) ==> {
            &&& v is Failed <==> m.source_timestamp.unix_nanos is None
            &&& v is Keep <==> {
                &&& m.source_timestamp.unix_nanos matches Some(n) && (n < 0 || n >= 1000)
                &&& m.message.len() > 0
            }
        },
{
    syslog_message_becomes_document(m);
}

} // verus!
