//! The documents that messages become.
use tantivy::schema::Schema;
use vstd::prelude::*;

use crate::fieldmap::FieldMap;
use crate::gelf::{GELFMessage, GelfView};
use crate::json::{opt_field, FieldValue, FieldView, JsonValue, JsonView};
use crate::quickwit::{mapping_views, FieldMapping};
use crate::schema::attr::{
    conversion_views, ConversionView, FieldValueConversion, FormatOption, TantivyType,
};
use crate::schema::column::{column_views, Column, ColumnView, ValueKind};
use crate::schema::convert::ConvertError;
use crate::schema::display::{show, shown};
use crate::schema::extract::{
    all_values, chosen, from_gelf_in, from_syslog, gelf_source, gelf_value, gelf_values,
    same_values, syslog_source, syslog_value, syslog_values, value_views, Sourced,
};
use crate::schema::generate::{mapping, quickwit_mapping, stored, stored_fields, stored_views};
use crate::storage::{
    build_schema, field_views, lemma_storable, schema_fields, storable, valid_field_name, StoredAs,
    StoredField,
};
use crate::syslog::{SyslogMessage, SyslogView};
use crate::text::{opt_text, text_key};
use crate::time::{local_year, local_year_reads, year_str, year_view};

verus! {

// ---------------------------------------------------------------------------
// The columns
// ---------------------------------------------------------------------------

/// The kind of the values of a field that is stored in this way.
pub open spec fn kind_of(t: TantivyType) -> ValueKind {
    match t {
        TantivyType::String | TantivyType::Text | TantivyType::JsonObject => ValueKind::Text,
        TantivyType::I64 => ValueKind::I64,
        _ => ValueKind::U64,
    }
}

/// A column with all that can be said of it.
pub open spec fn full(
    name: Seq<char>,
    storage: TantivyType,
    gelf: Seq<ConversionView>,
    syslog: Seq<ConversionView>,
    format: Option<FormatOption>,
) -> ColumnView {
    ColumnView { name, kind: kind_of(storage), gelf, syslog, storage: seq![storage], format }
}

/// A column that is filled from one field of GELF messages as it is.
pub open spec fn simple(name: Seq<char>, storage: TantivyType, source: Seq<char>) -> ColumnView {
    full(name, storage, seq![ConversionView::Plain(source)], seq![], None)
}

/// The columns of a document, one by one.
pub open spec fn document_column(i: int) -> ColumnView {
    if i == 0 {
        full(
            "source_timestamp"@,
            TantivyType::Timestamp,
            seq![
                ConversionView::FloatSecToUsec("timestamp"@),
                ConversionView::Plain("_SOURCE_REALTIME_TIMESTAMP"@),
            ],
            seq![ConversionView::DateTimeToUsec("source_timestamp"@)],
            None,
        )
    } else if i == 1 {
        full(
            "hostname"@,
            TantivyType::String,
            seq![ConversionView::Plain("host"@), ConversionView::Plain("_HOSTNAME"@)],
            seq![ConversionView::Plain("hostname"@)],
            None,
        )
    } else if i == 2 {
        full(
            "message"@,
            TantivyType::Text,
            seq![ConversionView::Plain("short_message"@)],
            seq![ConversionView::Plain("message"@)],
            None,
        )
    } else if i == 3 {
        full(
            "priority"@,
            TantivyType::U64,
            seq![ConversionView::Plain("level"@), ConversionView::Plain("_PRIORITY"@)],
            seq![ConversionView::Plain("priority"@)],
            Some(FormatOption::SyslogPriority),
        )
    } else if i == 4 {
        full(
            "full_message"@,
            TantivyType::Text,
            seq![ConversionView::Plain("full_message"@)],
            seq![ConversionView::Plain("full_message"@)],
            None,
        )
    } else if i == 5 {
        simple("message_id"@, TantivyType::String, "_MESSAGE_ID"@)
    } else if i == 6 {
        full(
            "code_file"@,
            TantivyType::Text,
            seq![ConversionView::Plain("file"@), ConversionView::Plain("_CODE_FILE"@)],
            seq![],
            None,
        )
    } else if i == 7 {
        full(
            "code_line"@,
            TantivyType::U64,
            seq![ConversionView::Plain("line"@), ConversionView::Plain("_CODE_LINE"@)],
            seq![],
            None,
        )
    } else if i == 8 {
        full(
            "code_func"@,
            TantivyType::String,
            seq![ConversionView::Plain("_CODE_FUNC"@), ConversionView::Plain("_function"@)],
            seq![],
            None,
        )
    } else if i == 9 {
        simple("errno"@, TantivyType::I64, "_ERRNO"@)
    } else if i == 10 {
        simple("invocation_id"@, TantivyType::String, "_INVOCATION_ID"@)
    } else if i == 11 {
        simple("user_invocation_id"@, TantivyType::String, "_USER_INVOCATION_ID"@)
    } else if i == 12 {
        full(
            "facility"@,
            TantivyType::String,
            seq![
                ConversionView::Plain("facility"@),
                ConversionView::Plain("_facility"@),
                ConversionView::Plain("_SYSLOG_FACILITY"@),
            ],
            seq![ConversionView::Plain("facility"@)],
            None,
        )
    } else if i == 13 {
        full(
            "syslog_identifier"@,
            TantivyType::String,
            seq![ConversionView::Plain("_SYSLOG_IDENTIFIER"@)],
            seq![ConversionView::Plain("identifier"@)],
            None,
        )
    } else if i == 14 {
        full(
            "syslog_pid"@,
            TantivyType::U64,
            seq![ConversionView::Plain("_SYSLOG_PID"@)],
            seq![ConversionView::Plain("pid"@)],
            None,
        )
    } else if i == 15 {
        full(
            "syslog_timestamp"@,
            TantivyType::Timestamp,
            seq![ConversionView::SyslogTimestamp("_SYSLOG_TIMESTAMP"@)],
            seq![],
            None,
        )
    } else if i == 16 {
        simple("pid"@, TantivyType::U64, "_PID"@)
    } else if i == 17 {
        simple("uid"@, TantivyType::U64, "_UID"@)
    } else if i == 18 {
        simple("gid"@, TantivyType::U64, "_GID"@)
    } else if i == 19 {
        simple("comm"@, TantivyType::String, "_COMM"@)
    } else if i == 20 {
        simple("exe"@, TantivyType::String, "_EXE"@)
    } else if i == 21 {
        simple("cmdline"@, TantivyType::Text, "_CMDLINE"@)
    } else if i == 22 {
        full(
            "cap_effective"@,
            TantivyType::U64,
            seq![ConversionView::HexToUint("_CAP_EFFECTIVE"@)],
            seq![],
            Some(FormatOption::Hex),
        )
    } else if i == 23 {
        simple("audit_session"@, TantivyType::U64, "_AUDIT_SESSION"@)
    } else if i == 24 {
        simple("audit_loginuid"@, TantivyType::U64, "_AUDIT_LOGINUID"@)
    } else if i == 25 {
        simple("systemd_cgroup"@, TantivyType::Text, "_SYSTEMD_CGROUP"@)
    } else if i == 26 {
        simple("systemd_slice"@, TantivyType::Text, "_SYSTEMD_SLICE"@)
    } else if i == 27 {
        simple("systemd_unit"@, TantivyType::Text, "_SYSTEMD_UNIT"@)
    } else if i == 28 {
        simple("systemd_user_unit"@, TantivyType::Text, "_SYSTEMD_USER_UNIT"@)
    } else if i == 29 {
        simple("systemd_user_slice"@, TantivyType::Text, "_SYSTEMD_USER_SLICE"@)
    } else if i == 30 {
        simple("systemd_session"@, TantivyType::String, "_SYSTEMD_SESSION"@)
    } else if i == 31 {
        simple("systemd_owner_uid"@, TantivyType::U64, "_SYSTEMD_OWNER_UID"@)
    } else if i == 32 {
        simple("selinux_context"@, TantivyType::String, "_SELINUX_CONTEXT"@)
    } else if i == 33 {
        simple("boot_id"@, TantivyType::String, "_BOOT_ID"@)
    } else if i == 34 {
        simple("machine_id"@, TantivyType::String, "_MACHINE_ID"@)
    } else if i == 35 {
        simple("systemd_invocation_id"@, TantivyType::String, "_SYSTEMD_INVOCATION_ID"@)
    } else if i == 36 {
        simple("transport"@, TantivyType::String, "_TRANSPORT"@)
    } else if i == 37 {
        simple("stream_id"@, TantivyType::String, "_STREAM_ID"@)
    } else if i == 38 {
        simple("line_break"@, TantivyType::String, "_LINE_BREAK"@)
    } else if i == 39 {
        simple("namespace"@, TantivyType::String, "_NAMESPACE"@)
    } else if i == 40 {
        simple("kernel_device"@, TantivyType::Text, "_KERNEL_DEVICE"@)
    } else if i == 41 {
        simple("kernel_subsystem"@, TantivyType::String, "_KERNEL_SUBSYSTEM"@)
    } else if i == 42 {
        simple("udev_sysname"@, TantivyType::Text, "_UDEV_SYSNAME"@)
    } else if i == 43 {
        simple("udev_devnode"@, TantivyType::Text, "_UDEV_DEVNODE"@)
    } else if i == 44 {
        simple("udev_devlink"@, TantivyType::Text, "_UDEV_DEVLINK"@)
    } else if i == 45 {
        simple("coredump_unit"@, TantivyType::Text, "_COREDUMP_UNIT"@)
    } else if i == 46 {
        simple("coredump_user_unit"@, TantivyType::Text, "_COREDUMP_USER_UNIT"@)
    } else if i == 47 {
        simple("object_pid"@, TantivyType::U64, "_OBJECT_PID"@)
    } else if i == 48 {
        simple("object_uid"@, TantivyType::U64, "_OBJECT_UID"@)
    } else if i == 49 {
        simple("object_gid"@, TantivyType::U64, "_OBJECT_GID"@)
    } else if i == 50 {
        simple("object_comm"@, TantivyType::String, "_OBJECT_COMM"@)
    } else if i == 51 {
        simple("object_exe"@, TantivyType::String, "_OBJECT_EXE"@)
    } else if i == 52 {
        simple("object_cmdline"@, TantivyType::Text, "_OBJECT_CMDLINE"@)
    } else if i == 53 {
        simple("object_audit_session"@, TantivyType::U64, "_OBJECT_AUDIT_SESSION"@)
    } else if i == 54 {
        simple("object_audit_loginuid"@, TantivyType::U64, "_OBJECT_AUDIT_LOGINUID"@)
    } else if i == 55 {
        simple("object_systemd_cgroup"@, TantivyType::Text, "_OBJECT_SYSTEMD_CGROUP"@)
    } else if i == 56 {
        simple("object_systemd_session"@, TantivyType::String, "_OBJECT_SYSTEMD_SESSION"@)
    } else if i == 57 {
        simple("object_systemd_owner_uid"@, TantivyType::U64, "_OBJECT_SYSTEMD_OWNER_UID"@)
    } else if i == 58 {
        simple("object_systemd_unit"@, TantivyType::Text, "_OBJECT_SYSTEMD_UNIT"@)
    } else if i == 59 {
        simple("object_systemd_user_unit"@, TantivyType::Text, "_OBJECT_SYSTEMD_USER_UNIT"@)
    } else if i == 60 {
        simple("recv_rt_timestamp"@, TantivyType::Timestamp, "___REALTIME_TIMESTAMP"@)
    } else {
        simple("recv_mt_timestamp"@, TantivyType::Timestamp, "___MONOTONIC_TIMESTAMP"@)
    }
}

/// The number of columns of a document.
pub const COLUMNS: usize = 62;

/// The columns of a document.
pub open spec fn document_columns() -> Seq<ColumnView> {
    Seq::new(COLUMNS as nat, |i: int| document_column(i))
}

/// No sources.
fn no_sources() -> (res: Vec<FieldValueConversion>)
    ensures
        conversion_views(res@) == Seq::<ConversionView>::empty(),
{
    let res: Vec<FieldValueConversion> = Vec::new();
    assert(conversion_views(res@) =~= Seq::<ConversionView>::empty());
    res
}

/// One source.
fn one_source(a: FieldValueConversion) -> (res: Vec<FieldValueConversion>)
    ensures
        conversion_views(res@) == seq![a@],
{
    let mut res: Vec<FieldValueConversion> = Vec::new();
    res.push(a);
    assert(conversion_views(res@) =~= seq![a@]);
    res
}

/// Two sources.
fn two_sources(a: FieldValueConversion, b: FieldValueConversion) -> (res: Vec<
    FieldValueConversion,
>)
    ensures
        conversion_views(res@) == seq![a@, b@],
{
    let mut res: Vec<FieldValueConversion> = Vec::new();
    res.push(a);
    res.push(b);
    assert(conversion_views(res@) =~= seq![a@, b@]);
    res
}

/// Three sources.
fn three_sources(a: FieldValueConversion, b: FieldValueConversion, c: FieldValueConversion) -> (res:
    Vec<FieldValueConversion>)
    ensures
        conversion_views(res@) == seq![a@, b@, c@],
{
    let mut res: Vec<FieldValueConversion> = Vec::new();
    res.push(a);
    res.push(b);
    res.push(c);
    assert(conversion_views(res@) =~= seq![a@, b@, c@]);
    res
}

/// A field as it is.
fn plain(field: &str) -> (res: FieldValueConversion)
    ensures
        res@ == ConversionView::Plain(field@),
{
    FieldValueConversion::Plain(field.to_owned())
}

/// A field that counts seconds.
fn float_sec(field: &str) -> (res: FieldValueConversion)
    ensures
        res@ == ConversionView::FloatSecToUsec(field@),
{
    FieldValueConversion::FloatSecToUsec(field.to_owned())
}

/// A field in base sixteen.
fn hex(field: &str) -> (res: FieldValueConversion)
    ensures
        res@ == ConversionView::HexToUint(field@),
{
    FieldValueConversion::HexToUint(field.to_owned())
}

/// A field that denotes a time.
fn syslog_time(field: &str) -> (res: FieldValueConversion)
    ensures
        res@ == ConversionView::SyslogTimestamp(field@),
{
    FieldValueConversion::SyslogTimestamp(field.to_owned())
}

/// A field that is a point in time.
fn datetime(field: &str) -> (res: FieldValueConversion)
    ensures
        res@ == ConversionView::DateTimeToUsec(field@),
{
    FieldValueConversion::DateTimeToUsec(field.to_owned())
}

/// The kind of the values of a field that is stored in this way.
fn kind_for(t: TantivyType) -> (res: ValueKind)
    ensures
        res == kind_of(t),
{
    match t {
        TantivyType::String | TantivyType::Text | TantivyType::JsonObject => ValueKind::Text,
        TantivyType::I64 => ValueKind::I64,
        TantivyType::U64 | TantivyType::Timestamp | TantivyType::FastTimestamp => ValueKind::U64,
    }
}

/// A column with all that can be said of it.
fn full_column(
    name: &str,
    storage: TantivyType,
    gelf: Vec<FieldValueConversion>,
    syslog: Vec<FieldValueConversion>,
    format: Option<FormatOption>,
) -> (res: Column)
    ensures
        res@ == full(
            name@,
            storage,
            conversion_views(gelf@),
            conversion_views(syslog@),
            format,
        ),
{
    let mut types: Vec<TantivyType> = Vec::new();
    types.push(storage);
    assert(types@ =~= seq![storage]);
    Column { name: name.to_owned(), kind: kind_for(storage), gelf, syslog, storage: types, format }
}

/// A column that is filled from one field of GELF messages as it is.
fn simple_column(name: &str, storage: TantivyType, source: &str) -> (res: Column)
    ensures
        res@ == simple(name@, storage, source@),
{
    full_column(name, storage, one_source(plain(source)), no_sources(), None)
}

/// The columns of a document, one by one.
fn make_column(i: usize) -> (res: Column)
    requires
        i < COLUMNS,
    ensures
        res@ == document_column(i as int),
{
    match i {
        0 => full_column(
            "source_timestamp",
            TantivyType::Timestamp,
            two_sources(float_sec("timestamp"), plain("_SOURCE_REALTIME_TIMESTAMP")),
            one_source(datetime("source_timestamp")),
            None,
        ),
        1 => full_column(
            "hostname",
            TantivyType::String,
            two_sources(plain("host"), plain("_HOSTNAME")),
            one_source(plain("hostname")),
            None,
        ),
        2 => full_column(
            "message",
            TantivyType::Text,
            one_source(plain("short_message")),
            one_source(plain("message")),
            None,
        ),
        3 => full_column(
            "priority",
            TantivyType::U64,
            two_sources(plain("level"), plain("_PRIORITY")),
            one_source(plain("priority")),
            Some(FormatOption::SyslogPriority),
        ),
        4 => full_column(
            "full_message",
            TantivyType::Text,
            one_source(plain("full_message")),
            one_source(plain("full_message")),
            None,
        ),
        5 => simple_column("message_id", TantivyType::String, "_MESSAGE_ID"),
        6 => full_column(
            "code_file",
            TantivyType::Text,
            two_sources(plain("file"), plain("_CODE_FILE")),
            no_sources(),
            None,
        ),
        7 => full_column(
            "code_line",
            TantivyType::U64,
            two_sources(plain("line"), plain("_CODE_LINE")),
            no_sources(),
            None,
        ),
        8 => full_column(
            "code_func",
            TantivyType::String,
            two_sources(plain("_CODE_FUNC"), plain("_function")),
            no_sources(),
            None,
        ),
        9 => simple_column("errno", TantivyType::I64, "_ERRNO"),
        10 => simple_column("invocation_id", TantivyType::String, "_INVOCATION_ID"),
        11 => simple_column("user_invocation_id", TantivyType::String, "_USER_INVOCATION_ID"),
        12 => full_column(
            "facility",
            TantivyType::String,
            three_sources(plain("facility"), plain("_facility"), plain("_SYSLOG_FACILITY")),
            one_source(plain("facility")),
            None,
        ),
        13 => full_column(
            "syslog_identifier",
            TantivyType::String,
            one_source(plain("_SYSLOG_IDENTIFIER")),
            one_source(plain("identifier")),
            None,
        ),
        14 => full_column(
            "syslog_pid",
            TantivyType::U64,
            one_source(plain("_SYSLOG_PID")),
            one_source(plain("pid")),
            None,
        ),
        15 => full_column(
            "syslog_timestamp",
            TantivyType::Timestamp,
            one_source(syslog_time("_SYSLOG_TIMESTAMP")),
            no_sources(),
            None,
        ),
        16 => simple_column("pid", TantivyType::U64, "_PID"),
        17 => simple_column("uid", TantivyType::U64, "_UID"),
        18 => simple_column("gid", TantivyType::U64, "_GID"),
        19 => simple_column("comm", TantivyType::String, "_COMM"),
        20 => simple_column("exe", TantivyType::String, "_EXE"),
        21 => simple_column("cmdline", TantivyType::Text, "_CMDLINE"),
        22 => full_column(
            "cap_effective",
            TantivyType::U64,
            one_source(hex("_CAP_EFFECTIVE")),
            no_sources(),
            Some(FormatOption::Hex),
        ),
        23 => simple_column("audit_session", TantivyType::U64, "_AUDIT_SESSION"),
        24 => simple_column("audit_loginuid", TantivyType::U64, "_AUDIT_LOGINUID"),
        25 => simple_column("systemd_cgroup", TantivyType::Text, "_SYSTEMD_CGROUP"),
        26 => simple_column("systemd_slice", TantivyType::Text, "_SYSTEMD_SLICE"),
        27 => simple_column("systemd_unit", TantivyType::Text, "_SYSTEMD_UNIT"),
        28 => simple_column("systemd_user_unit", TantivyType::Text, "_SYSTEMD_USER_UNIT"),
        29 => simple_column("systemd_user_slice", TantivyType::Text, "_SYSTEMD_USER_SLICE"),
        30 => simple_column("systemd_session", TantivyType::String, "_SYSTEMD_SESSION"),
        31 => simple_column("systemd_owner_uid", TantivyType::U64, "_SYSTEMD_OWNER_UID"),
        32 => simple_column("selinux_context", TantivyType::String, "_SELINUX_CONTEXT"),
        33 => simple_column("boot_id", TantivyType::String, "_BOOT_ID"),
        34 => simple_column("machine_id", TantivyType::String, "_MACHINE_ID"),
        35 => simple_column("systemd_invocation_id", TantivyType::String, "_SYSTEMD_INVOCATION_ID"),
        36 => simple_column("transport", TantivyType::String, "_TRANSPORT"),
        37 => simple_column("stream_id", TantivyType::String, "_STREAM_ID"),
        38 => simple_column("line_break", TantivyType::String, "_LINE_BREAK"),
        39 => simple_column("namespace", TantivyType::String, "_NAMESPACE"),
        40 => simple_column("kernel_device", TantivyType::Text, "_KERNEL_DEVICE"),
        41 => simple_column("kernel_subsystem", TantivyType::String, "_KERNEL_SUBSYSTEM"),
        42 => simple_column("udev_sysname", TantivyType::Text, "_UDEV_SYSNAME"),
        43 => simple_column("udev_devnode", TantivyType::Text, "_UDEV_DEVNODE"),
        44 => simple_column("udev_devlink", TantivyType::Text, "_UDEV_DEVLINK"),
        45 => simple_column("coredump_unit", TantivyType::Text, "_COREDUMP_UNIT"),
        46 => simple_column("coredump_user_unit", TantivyType::Text, "_COREDUMP_USER_UNIT"),
        47 => simple_column("object_pid", TantivyType::U64, "_OBJECT_PID"),
        48 => simple_column("object_uid", TantivyType::U64, "_OBJECT_UID"),
        49 => simple_column("object_gid", TantivyType::U64, "_OBJECT_GID"),
        50 => simple_column("object_comm", TantivyType::String, "_OBJECT_COMM"),
        51 => simple_column("object_exe", TantivyType::String, "_OBJECT_EXE"),
        52 => simple_column("object_cmdline", TantivyType::Text, "_OBJECT_CMDLINE"),
        53 => simple_column("object_audit_session", TantivyType::U64, "_OBJECT_AUDIT_SESSION"),
        54 => simple_column("object_audit_loginuid", TantivyType::U64, "_OBJECT_AUDIT_LOGINUID"),
        55 => simple_column("object_systemd_cgroup", TantivyType::Text, "_OBJECT_SYSTEMD_CGROUP"),
        56 => simple_column("object_systemd_session", TantivyType::String, "_OBJECT_SYSTEMD_SESSION"),
        57 => simple_column("object_systemd_owner_uid", TantivyType::U64, "_OBJECT_SYSTEMD_OWNER_UID"),
        58 => simple_column("object_systemd_unit", TantivyType::Text, "_OBJECT_SYSTEMD_UNIT"),
        59 => simple_column("object_systemd_user_unit", TantivyType::Text, "_OBJECT_SYSTEMD_USER_UNIT"),
        60 => simple_column("recv_rt_timestamp", TantivyType::Timestamp, "___REALTIME_TIMESTAMP"),
        _ => simple_column("recv_mt_timestamp", TantivyType::Timestamp, "___MONOTONIC_TIMESTAMP"),
    }
}

/// The columns of a document.
pub fn columns() -> (res: Vec<Column>)
    ensures
        column_views(res@) == document_columns(),
{
    let mut res: Vec<Column> = Vec::new();
    let mut i: usize = 0;
    while i < COLUMNS
        invariant
            i <= COLUMNS,
            res@.len() == i,
            forall|k: int| 0 <= k < i ==> (#[trigger] res@[k])@ == document_column(k),
        decreases COLUMNS - i,
    {
        res.push(make_column(i));
        i = i + 1;
    }
    assert(column_views(res@) =~= document_columns());
    res
}

// ---------------------------------------------------------------------------
// Names
// ---------------------------------------------------------------------------

/// The column whose name has a key.
spec fn column_with_key(key: int) -> int {
    if key == 0x736d6165 {
        0
    } else if key == 0x686d6173 {
        1
    } else if key == 0x6d676173 {
        2
    } else if key == 0x70746969 {
        3
    } else if key == 0x6667615f {
        4
    } else if key == 0x6d695f73 {
        5
    } else if key == 0x636c6965 {
        6
    } else if key == 0x636e6965 {
        7
    } else if key == 0x636e7565 {
        8
    } else if key == 0x656e7272 {
        9
    } else if key == 0x69695f63 {
        10
    } else if key == 0x75695f6e {
        11
    } else if key == 0x66746963 {
        12
    } else if key == 0x73656967 {
        13
    } else if key == 0x7369706c {
        14
    } else if key == 0x736d6167 {
        15
    } else if key == 0x70697069 {
        16
    } else if key == 0x75697569 {
        17
    } else if key == 0x67696769 {
        18
    } else if key == 0x636d6f6f {
        19
    } else if key == 0x65786578 {
        20
    } else if key == 0x636e6964 {
        21
    } else if key == 0x63766965 {
        22
    } else if key == 0x616f6974 {
        23
    } else if key == 0x61697574 {
        24
    } else if key == 0x73756f65 {
        25
    } else if key == 0x73636965 {
        26
    } else if key == 0x73696e65 {
        27
    } else if key == 0x73696e6d {
        28
    } else if key == 0x73636964 {
        29
    } else if key == 0x736f696d {
        30
    } else if key == 0x7369756d {
        31
    } else if key == 0x73786575 {
        32
    } else if key == 0x62695f6f {
        33
    } else if key == 0x6d695f68 {
        34
    } else if key == 0x73695f5f {
        35
    } else if key == 0x74726f6e {
        36
    } else if key == 0x73695f65 {
        37
    } else if key == 0x6c616565 {
        38
    } else if key == 0x6e636165 {
        39
    } else if key == 0x6b636965 {
        40
    } else if key == 0x6b65746c {
        41
    } else if key == 0x756d615f {
        42
    } else if key == 0x75646f5f {
        43
    } else if key == 0x756e695f {
        44
    } else if key == 0x63696e64 {
        45
    } else if key == 0x63696e6d {
        46
    } else if key == 0x6f697065 {
        47
    } else if key == 0x6f697565 {
        48
    } else if key == 0x6f696765 {
        49
    } else if key == 0x6f6d6f65 {
        50
    } else if key == 0x6f786565 {
        51
    } else if key == 0x6f6e6963 {
        52
    } else if key == 0x6f6f695f {
        53
    } else if key == 0x6f697561 {
        54
    } else if key == 0x6f756f73 {
        55
    } else if key == 0x6f6f6973 {
        56
    } else if key == 0x6f697579 {
        57
    } else if key == 0x6f696e5f {
        58
    } else if key == 0x6f696e79 {
        59
    } else if key == 0x726d6172 {
        60
    } else if key == 0x726d616d {
        61
    } else {
        -1
    }
}

/// Every name leads to its own column by its key, and can be the name of a field.
proof fn lemma_column_key(i: int)
    requires
        0 <= i < COLUMNS,
    ensures
        column_with_key(text_key(document_column(i).name)) == i,
        valid_field_name(document_column(i).name),
{
    if i == 0 {
        reveal_strlit("source_timestamp");
    } else if i == 1 {
        reveal_strlit("hostname");
    } else if i == 2 {
        reveal_strlit("message");
    } else if i == 3 {
        reveal_strlit("priority");
    } else if i == 4 {
        reveal_strlit("full_message");
    } else if i == 5 {
        reveal_strlit("message_id");
    } else if i == 6 {
        reveal_strlit("code_file");
    } else if i == 7 {
        reveal_strlit("code_line");
    } else if i == 8 {
        reveal_strlit("code_func");
    } else if i == 9 {
        reveal_strlit("errno");
    } else if i == 10 {
        reveal_strlit("invocation_id");
    } else if i == 11 {
        reveal_strlit("user_invocation_id");
    } else if i == 12 {
        reveal_strlit("facility");
    } else if i == 13 {
        reveal_strlit("syslog_identifier");
    } else if i == 14 {
        reveal_strlit("syslog_pid");
    } else if i == 15 {
        reveal_strlit("syslog_timestamp");
    } else if i == 16 {
        reveal_strlit("pid");
    } else if i == 17 {
        reveal_strlit("uid");
    } else if i == 18 {
        reveal_strlit("gid");
    } else if i == 19 {
        reveal_strlit("comm");
    } else if i == 20 {
        reveal_strlit("exe");
    } else if i == 21 {
        reveal_strlit("cmdline");
    } else if i == 22 {
        reveal_strlit("cap_effective");
    } else if i == 23 {
        reveal_strlit("audit_session");
    } else if i == 24 {
        reveal_strlit("audit_loginuid");
    } else if i == 25 {
        reveal_strlit("systemd_cgroup");
    } else if i == 26 {
        reveal_strlit("systemd_slice");
    } else if i == 27 {
        reveal_strlit("systemd_unit");
    } else if i == 28 {
        reveal_strlit("systemd_user_unit");
    } else if i == 29 {
        reveal_strlit("systemd_user_slice");
    } else if i == 30 {
        reveal_strlit("systemd_session");
    } else if i == 31 {
        reveal_strlit("systemd_owner_uid");
    } else if i == 32 {
        reveal_strlit("selinux_context");
    } else if i == 33 {
        reveal_strlit("boot_id");
    } else if i == 34 {
        reveal_strlit("machine_id");
    } else if i == 35 {
        reveal_strlit("systemd_invocation_id");
    } else if i == 36 {
        reveal_strlit("transport");
    } else if i == 37 {
        reveal_strlit("stream_id");
    } else if i == 38 {
        reveal_strlit("line_break");
    } else if i == 39 {
        reveal_strlit("namespace");
    } else if i == 40 {
        reveal_strlit("kernel_device");
    } else if i == 41 {
        reveal_strlit("kernel_subsystem");
    } else if i == 42 {
        reveal_strlit("udev_sysname");
    } else if i == 43 {
        reveal_strlit("udev_devnode");
    } else if i == 44 {
        reveal_strlit("udev_devlink");
    } else if i == 45 {
        reveal_strlit("coredump_unit");
    } else if i == 46 {
        reveal_strlit("coredump_user_unit");
    } else if i == 47 {
        reveal_strlit("object_pid");
    } else if i == 48 {
        reveal_strlit("object_uid");
    } else if i == 49 {
        reveal_strlit("object_gid");
    } else if i == 50 {
        reveal_strlit("object_comm");
    } else if i == 51 {
        reveal_strlit("object_exe");
    } else if i == 52 {
        reveal_strlit("object_cmdline");
    } else if i == 53 {
        reveal_strlit("object_audit_session");
    } else if i == 54 {
        reveal_strlit("object_audit_loginuid");
    } else if i == 55 {
        reveal_strlit("object_systemd_cgroup");
    } else if i == 56 {
        reveal_strlit("object_systemd_session");
    } else if i == 57 {
        reveal_strlit("object_systemd_owner_uid");
    } else if i == 58 {
        reveal_strlit("object_systemd_unit");
    } else if i == 59 {
        reveal_strlit("object_systemd_user_unit");
    } else if i == 60 {
        reveal_strlit("recv_rt_timestamp");
    } else {
        reveal_strlit("recv_mt_timestamp");
    }
}

/// Whether no two columns have the same name.
pub open spec fn distinct_names(columns: Seq<ColumnView>) -> bool {
    forall|i: int, j: int|
        0 <= i < columns.len() && 0 <= j < columns.len() && i != j ==> (#[trigger] columns[i]).name
            != (#[trigger] columns[j]).name
}

/// No two columns of a document have the same name.
pub proof fn column_names_differ()
    ensures
        distinct_names(document_columns()),
{
    assert forall|i: int, j: int|
        0 <= i < COLUMNS && 0 <= j < COLUMNS && i != j implies (#[trigger] document_columns()[i]).name
        != (#[trigger] document_columns()[j]).name by {
        lemma_column_key(i);
        lemma_column_key(j);
    }
}

// ---------------------------------------------------------------------------
// Kinds
// ---------------------------------------------------------------------------

/// Whether a value is of the kind.
pub open spec fn value_fits(kind: ValueKind, v: Option<FieldView>) -> bool {
    match v {
        Some(FieldView::Text(_)) => kind is Text,
        Some(FieldView::U64(_)) => kind is U64,
        Some(FieldView::I64(_)) => kind is I64,
        None => true,
    }
}

/// Whether the values of a document are of the kinds of their columns.
pub open spec fn values_fit(columns: Seq<ColumnView>, values: Seq<Option<FieldView>>) -> bool {
    &&& values.len() == columns.len()
    &&& forall|i: int| 0 <= i < columns.len() ==> value_fits(columns[i].kind, #[trigger] values[i])
}

/// Whether a column is of unsigned numbers if any of its sources is converted.
pub open spec fn well_kinded(c: ColumnView) -> bool {
    &&& forall|i: int| 0 <= i < c.gelf.len() ==> (#[trigger] c.gelf[i]) is Plain || c.kind is U64
    &&& forall|i: int|
        0 <= i < c.syslog.len() ==> (#[trigger] c.syslog[i]) is Plain || c.kind is U64
}

/// The columns of a document are of unsigned numbers where a source is converted.
proof fn lemma_well_kinded(i: int)
    requires
        0 <= i < COLUMNS,
    ensures
        well_kinded(document_column(i)),
{
}

/// What the sources come to is of the kind if each of them is.
proof fn lemma_chosen_fits(kind: ValueKind, results: Seq<Sourced>)
    requires
        forall|i: int|
            0 <= i < results.len() ==> (#[trigger] results[i] matches Ok(v) ==> value_fits(kind, v)),
    ensures
        chosen(results) matches Ok(v) ==> value_fits(kind, v),
    decreases results.len(),
{
    if results.len() > 0 {
        let front = results.drop_last();
        assert forall|i: int| 0 <= i < front.len() implies (#[trigger] front[i] matches Ok(v)
            ==> value_fits(kind, v)) by {
            assert(front[i] == results[i]);
        }
        lemma_chosen_fits(kind, front);
        assert(results[results.len() - 1] == results.last());
    }
}

/// The values that results come to are theirs.
proof fn lemma_all_values(results: Seq<Sourced>)
    ensures
        all_values(results) matches Ok(vs) ==> vs.len() == results.len() && forall|i: int|
            0 <= i < results.len() ==> #[trigger] results[i] == Ok::<
                Option<FieldView>,
                ConvertError,
            >(vs[i]),
    decreases results.len(),
{
    if results.len() > 0 {
        let front = results.drop_last();
        lemma_all_values(front);
        match all_values(front) {
            Ok(vs) => {
                assert forall|i: int| 0 <= i < front.len() implies #[trigger] results[i] == Ok::<
                    Option<FieldView>,
                    ConvertError,
                >(vs[i]) by {
                    assert(front[i] == results[i]);
                }
            },
            Err(_) => {},
        }
    }
}

/// The values that a GELF message gives a document are of the kinds of their columns.
pub proof fn gelf_values_fit(msg: GelfView, year: Option<Seq<char>>)
    ensures
        gelf_values(document_columns(), msg, year) matches Ok(vs) ==> values_fit(
            document_columns(),
            vs,
        ),
{
    let columns = document_columns();
    let results = Seq::new(columns.len(), |i: int| gelf_value(columns[i], msg, year));
    lemma_all_values(results);
    match all_values(results) {
        Ok(vs) => {
            assert forall|i: int| 0 <= i < columns.len() implies value_fits(
                columns[i].kind,
                #[trigger] vs[i],
            ) by {
                let c = columns[i];
                lemma_well_kinded(i);
                let sources = Seq::new(
                    c.gelf.len(),
                    |j: int| gelf_source(c.gelf[j], c.kind, msg, year),
                );
                assert forall|j: int| 0 <= j < sources.len() implies (#[trigger] sources[j] matches Ok(
                    v,
                ) ==> value_fits(c.kind, v)) by {
                    assert(c.gelf[j] is Plain || c.kind is U64);
                }
                lemma_chosen_fits(c.kind, sources);
                assert(results[i] == Ok::<Option<FieldView>, ConvertError>(vs[i]));
            }
        },
        Err(_) => {},
    }
}

/// The values that a syslog message gives a document are of the kinds of their columns.
pub proof fn syslog_values_fit(msg: SyslogView)
    ensures
        syslog_values(document_columns(), msg) matches Ok(vs) ==> values_fit(
            document_columns(),
            vs,
        ),
{
    let columns = document_columns();
    let results = Seq::new(columns.len(), |i: int| syslog_value(columns[i], msg));
    lemma_all_values(results);
    match all_values(results) {
        Ok(vs) => {
            assert forall|i: int| 0 <= i < columns.len() implies value_fits(
                columns[i].kind,
                #[trigger] vs[i],
            ) by {
                let c = columns[i];
                lemma_well_kinded(i);
                let sources = Seq::new(
                    c.syslog.len(),
                    |j: int| syslog_source(c.syslog[j], c.kind, msg),
                );
                assert forall|j: int| 0 <= j < sources.len() implies (#[trigger] sources[j] matches Ok(
                    v,
                ) ==> value_fits(c.kind, v)) by {
                    assert(c.syslog[j] is Plain || c.kind is U64);
                }
                lemma_chosen_fits(c.kind, sources);
                assert(results[i] == Ok::<Option<FieldView>, ConvertError>(vs[i]));
            }
        },
        Err(_) => {},
    }
}

// ---------------------------------------------------------------------------
// Writing and reading
// ---------------------------------------------------------------------------

/// How many columns are written even where they have no value.
pub const ALWAYS_WRITTEN: usize = 3;

/// What is written of a document: its columns with their values, without those that
/// have none, but for the first few.
pub open spec fn written(columns: Seq<ColumnView>, values: Seq<Option<FieldView>>) -> Seq<
    (Seq<char>, Option<FieldView>),
>
    decreases columns.len(),
{
    if columns.len() == 0 {
        Seq::empty()
    } else {
        let i = columns.len() - 1;
        let front = written(columns.drop_last(), values);
        if i < ALWAYS_WRITTEN || values[i] is Some {
            front.push((columns[i].name, values[i]))
        } else {
            front
        }
    }
}

/// What a JSON value found under the name of a column comes to: nothing and `null`
/// are no value, and any other must be of the column's kind.
pub open spec fn read_field(kind: ValueKind, v: Option<JsonView>) -> Sourced {
    match v {
        None => Ok(None),
        Some(JsonView::Null) => Ok(None),
        Some(v) => match (kind, v) {
            (ValueKind::Text, JsonView::String { text, .. }) => Ok(Some(FieldView::Text(text))),
            (ValueKind::U64, JsonView::Number { as_u64: Some(n), .. }) => Ok(
                Some(FieldView::U64(n)),
            ),
            (ValueKind::I64, JsonView::Number { as_i64: Some(n), .. }) => Ok(
                Some(FieldView::I64(n)),
            ),
            _ => Err(ConvertError::WrongKind),
        },
    }
}

/// The value under a name.
pub open spec fn under(hit: Map<Seq<char>, JsonView>, name: Seq<char>) -> Option<JsonView> {
    if hit.contains_key(name) {
        Some(hit[name])
    } else {
        None
    }
}

/// The values that a JSON object gives the columns.
pub open spec fn hit_values(columns: Seq<ColumnView>, hit: Map<Seq<char>, JsonView>) -> Result<
    Seq<Option<FieldView>>,
    ConvertError,
> {
    all_values(
        Seq::new(columns.len(), |i: int| read_field(columns[i].kind, under(hit, columns[i].name))),
    )
}

/// The values that a JSON object gives the columns are of their kinds.
proof fn lemma_hit_fits(columns: Seq<ColumnView>, hit: Map<Seq<char>, JsonView>)
    ensures
        hit_values(columns, hit) matches Ok(vs) ==> values_fit(columns, vs),
{
    let results = Seq::new(
        columns.len(),
        |i: int| read_field(columns[i].kind, under(hit, columns[i].name)),
    );
    lemma_all_values(results);
    match all_values(results) {
        Ok(vs) => {
            assert forall|i: int| 0 <= i < columns.len() implies value_fits(
                columns[i].kind,
                #[trigger] vs[i],
            ) by {
                assert(results[i] == Ok::<Option<FieldView>, ConvertError>(vs[i]));
            }
        },
        Err(_) => {},
    }
}

/// Reads the value found under the name of a column.
fn read_value(kind: ValueKind, v: Option<&JsonValue>) -> (res: Result<
    Option<FieldValue>,
    ConvertError,
>)
    ensures
        crate::schema::extract::same_value(
            res,
            read_field(
                kind,
                match v {
                    Some(j) => Some(j@),
                    None => None,
                },
            ),
        ),
{
    match v {
        None => Ok(None),
        Some(j) => match j {
            JsonValue::Null => Ok(None),
            JsonValue::String(s) => match kind {
                ValueKind::Text => Ok(Some(FieldValue::Text(s.text.clone()))),
                _ => Err(ConvertError::WrongKind),
            },
            JsonValue::Number(n) => match kind {
                ValueKind::U64 => match n.as_u64 {
                    Some(n) => Ok(Some(FieldValue::U64(n))),
                    None => Err(ConvertError::WrongKind),
                },
                ValueKind::I64 => match n.as_i64 {
                    Some(n) => Ok(Some(FieldValue::I64(n))),
                    None => Err(ConvertError::WrongKind),
                },
                ValueKind::Text => Err(ConvertError::WrongKind),
            },
            _ => Err(ConvertError::WrongKind),
        },
    }
}

/// Reads the values that a JSON object gives the columns.
fn read_values(columns: &Vec<Column>, hit: &FieldMap<JsonValue>) -> (res: Result<
    Vec<Option<FieldValue>>,
    ConvertError,
>)
    ensures
        same_values(res, hit_values(column_views(columns@), hit@)),
{
    let ghost views = column_views(columns@);
    let ghost results = Seq::new(
        views.len(),
        |i: int| read_field(views[i].kind, under(hit@, views[i].name)),
    );
    let mut values: Vec<Option<FieldValue>> = Vec::new();
    let mut i: usize = 0;
    assert(results.take(0) =~= Seq::<Sourced>::empty());
    assert(value_views(values@) =~= Seq::<Option<FieldView>>::empty());
    while i < columns.len()
        invariant
            i <= columns@.len(),
            views == column_views(columns@),
            results == Seq::new(
                views.len(),
                |i: int| read_field(views[i].kind, under(hit@, views[i].name)),
            ),
            all_values(results.take(i as int)) == Ok::<Seq<Option<FieldView>>, ConvertError>(
                value_views(values@),
            ),
        decreases columns@.len() - i,
    {
        proof {
            assert(results.take(i + 1).drop_last() =~= results.take(i as int));
            assert(results.take(i + 1).last() == results[i as int]);
        }
        match read_value(columns[i].kind, hit.get(columns[i].name.as_str())) {
            Ok(v) => {
                let ghost done = value_views(values@);
                values.push(v);
                assert(value_views(values@) =~= done.push(opt_field(v)));
            },
            Err(e) => {
                proof {
                    crate::schema::extract::lemma_values_stop(results, i + 1);
                }
                return Err(e);
            },
        }
        i = i + 1;
    }
    assert(results.take(i as int) =~= results);
    Ok(values)
}

// ---------------------------------------------------------------------------
// Documents
// ---------------------------------------------------------------------------

/// A document: a value or none for each of its columns.
#[derive(Debug)]
pub struct Document {
    values: Vec<Option<FieldValue>>,
}

impl View for Document {
    type V = Seq<Option<FieldView>>;

    closed spec fn view(&self) -> Seq<Option<FieldView>> {
        value_views(self.values@)
    }
}

/// Whether a document can be kept: it says when it was sent, not at the epoch, and
/// it has a message.
pub open spec fn valid_document(values: Seq<Option<FieldView>>) -> bool {
    &&& values[0] matches Some(FieldView::U64(micros)) && micros > 0
    &&& values[2] matches Some(FieldView::Text(message)) && message.len() > 0
}

/// A document with a host name: its own, or the name or address it is given.
pub open spec fn with_hostname(
    values: Seq<Option<FieldView>>,
    name: Option<Seq<char>>,
    address: Seq<char>,
) -> Seq<Option<FieldView>> {
    if values[1] is Some {
        values
    } else {
        values.update(
            1,
            Some(
                FieldView::Text(
                    match name {
                        Some(n) => n,
                        None => address,
                    },
                ),
            ),
        )
    }
}

/// How the index engine keeps a field that is stored in this way.
pub open spec fn stored_as(t: TantivyType) -> Option<StoredAs> {
    match t {
        TantivyType::String => Some(StoredAs::String),
        TantivyType::Text => Some(StoredAs::Text),
        TantivyType::U64 => Some(StoredAs::U64),
        TantivyType::I64 => Some(StoredAs::I64),
        TantivyType::Timestamp => Some(StoredAs::Date),
        TantivyType::FastTimestamp => Some(StoredAs::FastDate),
        TantivyType::JsonObject => None,
    }
}

/// The fields that the index engine keeps; none of JSON objects.
pub open spec fn kept_fields(fields: Seq<(Seq<char>, TantivyType)>) -> Option<Seq<StoredField>>
    decreases fields.len(),
{
    if fields.len() == 0 {
        Some(Seq::empty())
    } else {
        match (kept_fields(fields.drop_last()), stored_as(fields.last().1)) {
            (Some(front), Some(kind)) => Some(front.push((fields.last().0, kind))),
            _ => None,
        }
    }
}

/// Where a field cannot be kept, the fields cannot.
proof fn lemma_kept_stop(fields: Seq<(Seq<char>, TantivyType)>, k: int)
    requires
        0 <= k <= fields.len(),
        kept_fields(fields.take(k)) is None,
    ensures
        kept_fields(fields) is None,
    decreases fields.len() - k,
{
    if k == fields.len() {
        assert(fields.take(k) =~= fields);
    } else {
        assert(fields.take(k + 1).drop_last() =~= fields.take(k));
        lemma_kept_stop(fields, k + 1);
    }
}

/// The fields that the index engine keeps.
fn keep_fields(fields: &Vec<(String, TantivyType)>) -> (res: Option<Vec<(String, StoredAs)>>)
    ensures
        match (res, kept_fields(stored_views(fields@))) {
            (Some(v), Some(w)) => field_views(v@) == w,
            (None, None) => true,
            _ => false,
        },
{
    let ghost views = stored_views(fields@);
    let mut res: Vec<(String, StoredAs)> = Vec::new();
    let mut i: usize = 0;
    assert(views.take(0) =~= Seq::<(Seq<char>, TantivyType)>::empty());
    assert(field_views(res@) =~= Seq::<StoredField>::empty());
    while i < fields.len()
        invariant
            i <= fields@.len(),
            views == stored_views(fields@),
            kept_fields(views.take(i as int)) == Some(field_views(res@)),
        decreases fields@.len() - i,
    {
        proof {
            assert(views.take(i + 1).drop_last() =~= views.take(i as int));
            assert(views.take(i + 1).last() == (fields@[i as int].0@, fields@[i as int].1));
        }
        let kind: StoredAs = match fields[i].1 {
            TantivyType::String => StoredAs::String,
            TantivyType::Text => StoredAs::Text,
            TantivyType::U64 => StoredAs::U64,
            TantivyType::I64 => StoredAs::I64,
            TantivyType::Timestamp => StoredAs::Date,
            TantivyType::FastTimestamp => StoredAs::FastDate,
            TantivyType::JsonObject => {
                proof {
                    lemma_kept_stop(views, i + 1);
                }
                return None;
            },
        };
        let ghost done = field_views(res@);
        res.push((fields[i].0.clone(), kind));
        assert(field_views(res@) =~= done.push((fields@[i as int].0@, kind)));
        i = i + 1;
    }
    assert(views.take(i as int) =~= views);
    Some(res)
}

/// The fields that the index engine keeps of documents: one for each column.
pub open spec fn document_fields() -> Seq<StoredField> {
    Seq::new(
        COLUMNS as nat,
        |i: int| (document_column(i).name, stored_as(document_column(i).storage[0])->0),
    )
}

/// A column of a document is stored in one way, and that of no JSON object.
proof fn lemma_stored_once(i: int)
    requires
        0 <= i < COLUMNS,
    ensures
        document_column(i).storage.len() == 1,
        stored_as(document_column(i).storage[0]) is Some,
{
}

/// The fields of the first columns are those that the index engine keeps of them.
proof fn lemma_first_fields(n: int)
    requires
        0 <= n <= COLUMNS,
    ensures
        kept_fields(stored(document_columns().take(n))) == Some(document_fields().take(n)),
    decreases n,
{
    let columns = document_columns().take(n);
    if n == 0 {
        assert(columns =~= Seq::<ColumnView>::empty());
        assert(stored(columns) =~= Seq::<(Seq<char>, TantivyType)>::empty());
        assert(document_fields().take(0) =~= Seq::<StoredField>::empty());
    } else {
        lemma_first_fields(n - 1);
        lemma_stored_once(n - 1);
        let front = document_columns().take(n - 1);
        let c = document_column(n - 1);
        let entry = (c.name, c.storage[0]);
        assert(columns.drop_last() =~= front);
        assert(Seq::new(c.storage.len(), |i: int| (c.name, c.storage[i])) =~= seq![entry]);
        assert(stored(columns) =~= stored(front).push(entry));
        assert(stored(columns).drop_last() =~= stored(front));
        assert(document_fields().take(n) =~= document_fields().take(n - 1).push(
            document_fields()[n - 1],
        ));
    }
}

/// The fields of documents can make up a schema.
proof fn lemma_document_fields()
    ensures
        kept_fields(stored(document_columns())) == Some(document_fields()),
        storable(document_fields()),
{
    let fields = document_fields();
    lemma_first_fields(COLUMNS as int);
    assert(document_columns().take(COLUMNS as int) =~= document_columns());
    assert(fields.take(COLUMNS as int) =~= fields);
    column_names_differ();
    assert forall|i: int| 0 <= i < fields.len() implies valid_field_name(
        (#[trigger] fields[i]).0,
    ) by {
        lemma_column_key(i);
    }
    assert forall|i: int, j: int|
        0 <= i < fields.len() && 0 <= j < fields.len() && i != j implies (#[trigger] fields[i]).0
        != (#[trigger] fields[j]).0 by {
        assert(document_columns()[i].name != document_columns()[j].name);
    }
    lemma_storable(fields);
}

/// Copies values.
fn copy_values(values: &Vec<Option<FieldValue>>) -> (res: Vec<Option<FieldValue>>)
    ensures
        value_views(res@) == value_views(values@),
{
    let mut res: Vec<Option<FieldValue>> = Vec::new();
    let mut i: usize = 0;
    while i < values.len()
        invariant
            i <= values@.len(),
            res@.len() == i,
            forall|k: int|
                0 <= k < i ==> opt_field(#[trigger] res@[k]) == opt_field(values@[k]),
        decreases values@.len() - i,
    {
        res.push(
            match &values[i] {
                Some(v) => Some(v.copy()),
                None => None,
            },
        );
        i = i + 1;
    }
    assert(value_views(res@) =~= value_views(values@));
    res
}

impl Document {
    /// There is a value or none for each column, and each is of its column's kind.
    #[verifier::type_invariant]
    spec fn fits(self) -> bool {
        values_fit(document_columns(), value_views(self.values@))
    }

    /// The document that a GELF message becomes, with the year to take for times that
    /// have none.
    pub fn from_gelf_in(msg: &GELFMessage, year: Option<&str>) -> (res: Result<Document, ConvertError>)
        ensures
            match (res, gelf_values(document_columns(), msg@, year_view(year))) {
                (Ok(d), Ok(v)) => d@ == v && values_fit(document_columns(), d@),
                (Err(e), Err(f)) => e == f,
                _ => false,
            },
    {
        match from_gelf_in(&columns(), msg, year) {
            Ok(values) => {
                proof {
                    gelf_values_fit(msg@, year_view(year));
                }
                Ok(Document { values })
            },
            Err(e) => Err(e),
        }
    }

    /// The document that a GELF message becomes; times that have no year are taken to
    /// be of the current one.
    pub fn from_gelf(msg: &GELFMessage) -> (res: Result<Document, ConvertError>)
        ensures
            exists|year: Option<Seq<char>>| #[trigger]
                local_year_reads(year) && match (res, gelf_values(document_columns(), msg@, year)) {
                    (Ok(d), Ok(v)) => d@ == v && values_fit(document_columns(), d@),
                    (Err(e), Err(f)) => e == f,
                    _ => false,
                },
    {
        let year = local_year();
        assert(local_year_reads(opt_text(year)));
        Document::from_gelf_in(msg, year_str(&year))
    }

    /// The document that a syslog message becomes.
    pub fn from_syslog(msg: &SyslogMessage) -> (res: Result<Document, ConvertError>)
        ensures
            match (res, syslog_values(document_columns(), msg@)) {
                (Ok(d), Ok(v)) => d@ == v && values_fit(document_columns(), d@),
                (Err(e), Err(f)) => e == f,
                _ => false,
            },
    {
        match from_syslog(&columns(), msg) {
            Ok(values) => {
                proof {
                    syslog_values_fit(msg@);
                }
                Ok(Document { values })
            },
            Err(e) => Err(e),
        }
    }

    /// The document that a JSON object stands for.
    pub fn from_hit(hit: &FieldMap<JsonValue>) -> (res: Result<Document, ConvertError>)
        ensures
            match (res, hit_values(document_columns(), hit@)) {
                (Ok(d), Ok(v)) => d@ == v && values_fit(document_columns(), d@),
                (Err(e), Err(f)) => e == f,
                _ => false,
            },
    {
        match read_values(&columns(), hit) {
            Ok(values) => {
                proof {
                    lemma_hit_fits(document_columns(), hit@);
                }
                Ok(Document { values })
            },
            Err(e) => Err(e),
        }
    }

    /// What is written of the document.
    pub fn entries(&self) -> (res: Vec<(String, Option<FieldValue>)>)
        ensures
            entry_views(res@) == written(document_columns(), self@),
    {
        proof {
            use_type_invariant(self);
        }
        let columns = columns();
        let ghost cols = document_columns();
        let ghost vals = self@;
        let mut res: Vec<(String, Option<FieldValue>)> = Vec::new();
        let mut i: usize = 0;
        assert(cols.take(0) =~= Seq::<ColumnView>::empty());
        assert(entry_views(res@) =~= Seq::<(Seq<char>, Option<FieldView>)>::empty());
        while i < columns.len()
            invariant
                i <= columns@.len(),
                columns@.len() == self.values@.len(),
                cols == column_views(columns@),
                vals == value_views(self.values@),
                entry_views(res@) == written(cols.take(i as int), vals),
            decreases columns@.len() - i,
        {
            proof {
                assert(cols.take(i + 1).drop_last() =~= cols.take(i as int));
                assert(cols.take(i + 1)[i as int] == columns@[i as int]@);
                assert(vals[i as int] == opt_field(self.values@[i as int]));
            }
            let ghost done = entry_views(res@);
            let value: Option<FieldValue> = match &self.values[i] {
                Some(v) => Some(v.copy()),
                None => None,
            };
            if i < ALWAYS_WRITTEN || value.is_some() {
                let ghost view = opt_field(value);
                res.push((columns[i].name.clone(), value));
                assert(entry_views(res@) =~= done.push((columns@[i as int].name@, view)));
            }
            i = i + 1;
        }
        assert(cols.take(i as int) =~= cols);
        res
    }

    /// Whether the document can be kept.
    pub fn is_valid(&self) -> (res: bool)
        ensures
            res == valid_document(self@),
    {
        proof {
            use_type_invariant(self);
            assert(self@[0] == opt_field(self.values@[0]));
            assert(self@[2] == opt_field(self.values@[2]));
        }
        let dated = match &self.values[0] {
            Some(FieldValue::U64(micros)) => *micros > 0,
            _ => false,
        };
        let worded = match &self.values[2] {
            Some(FieldValue::Text(message)) => crate::text::chars_of(message.as_str()).len() > 0,
            _ => false,
        };
        dated && worded
    }

    /// Whether the document lacks a host name.
    pub fn lacks_hostname(&self) -> (res: bool)
        ensures
            res == (self@[1] is None),
    {
        proof {
            use_type_invariant(self);
            assert(self@[1] == opt_field(self.values@[1]));
        }
        self.values[1].is_none()
    }

    /// Gives the document a host name where it has none: the name that its sender's
    /// address was found to have, or the address.
    pub fn do_reverse_dns(&mut self, name: Option<String>, address: String)
        ensures
            final(self)@ == with_hostname(
                old(self)@,
                match name {
                    Some(n) => Some(n@),
                    None => None,
                },
                address@,
            ),
            values_fit(document_columns(), old(self)@),
            values_fit(document_columns(), final(self)@),
    {
        proof {
            use_type_invariant(&*self);
            assert(self@[1] == opt_field(self.values@[1]));
            lemma_hostname_kind();
        }
        if self.values[1].is_none() {
            let host: String = match name {
                Some(n) => n,
                None => address,
            };
            let ghost before = self.values@;
            let ghost text = host@;
            let mut values = copy_values(&self.values);
            let ghost copies = values@;
            values.set(1, Some(FieldValue::Text(host)));
            proof {
                let want = value_views(before).update(1, Some(FieldView::Text(text)));
                assert forall|k: int| 0 <= k < want.len() implies #[trigger] value_views(values@)[k]
                    == want[k] by {
                    if k != 1 {
                        assert(value_views(copies)[k] == value_views(before)[k]);
                    }
                }
                assert(value_views(values@) =~= want);
                assert forall|k: int| 0 <= k < document_columns().len() implies value_fits(
                    document_columns()[k].kind,
                    #[trigger] want[k],
                ) by {
                    if k != 1 {
                        assert(want[k] == value_views(before)[k]);
                    }
                }
            }
            self.values = values;
        }
    }

    /// The texts shown of the document.
    pub fn to_display(&self) -> (res: FieldMap<String>)
        ensures
            res@ == shown(document_columns(), self@),
    {
        proof {
            use_type_invariant(self);
        }
        show(&columns(), &self.values)
    }

    /// How the search engine maps the fields of documents.
    pub fn quickwit_mapping() -> (res: Vec<FieldMapping>)
        ensures
            mapping_views(res@) == mapping(document_columns()),
    {
        quickwit_mapping(&columns())
    }

    /// The schema that the index engine keeps documents by.
    pub fn tantivy_schema() -> (res: Schema)
        ensures
            schema_fields(res) == document_fields(),
    {
        let fields = keep_fields(&stored_fields(&columns()));
        proof {
            lemma_document_fields();
        }
        build_schema(&fields.unwrap())
    }
}

/// The host name is a text.
proof fn lemma_hostname_kind()
    ensures
        document_column(1).kind is Text,
{
}

/// What is written of documents, seen through its views.
pub open spec fn entry_views(v: Seq<(String, Option<FieldValue>)>) -> Seq<
    (Seq<char>, Option<FieldView>),
> {
    Seq::new(v.len(), |i: int| (v[i].0@, opt_field(v[i].1)))
}

// ---------------------------------------------------------------------------
// Laws
// ---------------------------------------------------------------------------

/// Whether a JSON value denotes a value of a field.
pub open spec fn denotes(j: JsonView, v: Option<FieldView>) -> bool {
    match v {
        Some(FieldView::Text(t)) => j matches JsonView::String { text, .. } && text == t,
        Some(FieldView::U64(n)) => j matches JsonView::Number { as_u64: Some(m), .. } && m == n,
        Some(FieldView::I64(n)) => j matches JsonView::Number { as_i64: Some(m), .. } && m == n,
        None => j is Null,
    }
}

/// Whether a JSON object holds these entries and nothing else.
pub open spec fn holds_entries(
    hit: Map<Seq<char>, JsonView>,
    entries: Seq<(Seq<char>, Option<FieldView>)>,
) -> bool {
    &&& forall|i: int|
        0 <= i < entries.len() ==> hit.contains_key((#[trigger] entries[i]).0) && denotes(
            hit[entries[i].0],
            entries[i].1,
        )
    &&& forall|name: Seq<char>| #[trigger]
        hit.contains_key(name) ==> exists|i: int|
            0 <= i < entries.len() && (#[trigger] entries[i]).0 == name
}

/// Whether a column is written.
spec fn is_written(values: Seq<Option<FieldView>>, i: int) -> bool {
    i < ALWAYS_WRITTEN || values[i] is Some
}

/// Whether an entry is what is written of a column.
spec fn entry_of(
    columns: Seq<ColumnView>,
    values: Seq<Option<FieldView>>,
    entry: (Seq<char>, Option<FieldView>),
    i: int,
) -> bool {
    0 <= i < columns.len() && is_written(values, i) && entry == (columns[i].name, values[i])
}

/// Whether an entry is what is written of some column.
spec fn is_entry(
    columns: Seq<ColumnView>,
    values: Seq<Option<FieldView>>,
    entry: (Seq<char>, Option<FieldView>),
) -> bool {
    exists|i: int| entry_of(columns, values, entry, i)
}

/// What is written are the columns that are written.
proof fn lemma_written(columns: Seq<ColumnView>, values: Seq<Option<FieldView>>)
    ensures
        forall|i: int|
            0 <= i < columns.len() && #[trigger] is_written(values, i) ==> written(
                columns,
                values,
            ).contains((columns[i].name, values[i])),
        forall|k: int|
            0 <= k < written(columns, values).len() ==> is_entry(
                columns,
                values,
                #[trigger] written(columns, values)[k],
            ),
    decreases columns.len(),
{
    if columns.len() > 0 {
        let last = columns.len() - 1;
        let front = columns.drop_last();
        lemma_written(front, values);
        let w = written(columns, values);
        let wf = written(front, values);
        assert forall|i: int| 0 <= i < columns.len() && #[trigger] is_written(
            values,
            i,
        ) implies w.contains((columns[i].name, values[i])) by {
            if i < last {
                assert(front[i] == columns[i]);
                let k = choose|k: int| 0 <= k < wf.len() && wf[k] == (front[i].name, values[i]);
                assert(w[k] == wf[k]);
            } else {
                assert(w[w.len() - 1] == (columns[last].name, values[last]));
            }
        }
        assert forall|k: int| 0 <= k < w.len() implies is_entry(
            columns,
            values,
            #[trigger] w[k],
        ) by {
            if k < wf.len() {
                assert(w[k] == wf[k]);
                let i = choose|i: int| entry_of(front, values, wf[k], i);
                assert(columns[i] == front[i]);
                assert(entry_of(columns, values, w[k], i));
            } else {
                assert(entry_of(columns, values, w[k], last));
            }
        }
    }
}

/// What is written of a document reads back as the same document: a JSON object that
/// holds what was written, and nothing else, gives the columns their values again.
pub proof fn written_reads_back(
    columns: Seq<ColumnView>,
    values: Seq<Option<FieldView>>,
    hit: Map<Seq<char>, JsonView>,
)
    requires
        distinct_names(columns),
        values_fit(columns, values),
        holds_entries(hit, written(columns, values)),
    ensures
        hit_values(columns, hit) == Ok::<Seq<Option<FieldView>>, ConvertError>(values),
{
    let results = Seq::new(
        columns.len(),
        |i: int| read_field(columns[i].kind, under(hit, columns[i].name)),
    );
    let w = written(columns, values);
    lemma_written(columns, values);
    assert forall|i: int| 0 <= i < columns.len() implies #[trigger] results[i] == Ok::<
        Option<FieldView>,
        ConvertError,
    >(values[i]) by {
        let name = columns[i].name;
        assert(value_fits(columns[i].kind, values[i]));
        if is_written(values, i) {
            let k = choose|k: int| 0 <= k < w.len() && w[k] == (name, values[i]);
            assert(hit.contains_key(w[k].0) && denotes(hit[w[k].0], w[k].1));
        } else {
            if hit.contains_key(name) {
                let k = choose|k: int| 0 <= k < w.len() && (#[trigger] w[k]).0 == name;
                assert(is_entry(columns, values, w[k]));
                let j = choose|j: int| entry_of(columns, values, w[k], j);
                assert(columns[j].name == columns[i].name);
            }
        }
    }
    lemma_values_from(results, values);
}

/// A document that was written reads back as the same document.
pub proof fn document_reads_back(values: Seq<Option<FieldView>>, hit: Map<Seq<char>, JsonView>)
    requires
        values_fit(document_columns(), values),
        holds_entries(hit, written(document_columns(), values)),
    ensures
        hit_values(document_columns(), hit) == Ok::<Seq<Option<FieldView>>, ConvertError>(values),
{
    column_names_differ();
    written_reads_back(document_columns(), values, hit);
}

/// Results that are values come to those values.
proof fn lemma_values_from(results: Seq<Sourced>, values: Seq<Option<FieldView>>)
    requires
        results.len() == values.len(),
        forall|i: int|
            0 <= i < results.len() ==> #[trigger] results[i] == Ok::<
                Option<FieldView>,
                ConvertError,
            >(values[i]),
    ensures
        all_values(results) == Ok::<Seq<Option<FieldView>>, ConvertError>(values),
    decreases results.len(),
{
    if results.len() > 0 {
        let front = results.drop_last();
        assert forall|i: int| 0 <= i < front.len() implies #[trigger] front[i] == Ok::<
            Option<FieldView>,
            ConvertError,
        >(values.drop_last()[i]) by {
            assert(results[i] == Ok::<Option<FieldView>, ConvertError>(values[i]));
        }
        lemma_values_from(front, values.drop_last());
        assert(results[results.len() - 1] == results.last());
        assert(values.drop_last().push(values.last()) =~= values);
    } else {
        assert(values =~= Seq::<Option<FieldView>>::empty());
    }
}

/// A name that was looked up never replaces a host name that a document has, and
/// changes nothing else of it.
pub proof fn reverse_dns_only_fills(
    values: Seq<Option<FieldView>>,
    name: Option<Seq<char>>,
    address: Seq<char>,
)
    requires
        values_fit(document_columns(), values),
    ensures
        with_hostname(values, name, address)[1] is Some,
        values[1] is Some ==> with_hostname(values, name, address) == values,
        forall|i: int|
            0 <= i < values.len() && i != 1 ==> with_hostname(values, name, address)[i]
                == #[trigger] values[i],
        valid_document(with_hostname(values, name, address)) == valid_document(values),
{
}

} // verus!
