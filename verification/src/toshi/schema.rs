//! Documents for the Toshi search engine.
use tantivy::schema::Schema;
use vstd::prelude::*;

use crate::fieldmap::FieldMap;
use crate::gelf::{GELFMessage, GelfView};
use crate::json::{plain_text, FieldValue, FieldView, JsonValue, JsonView};
use crate::number::{parse_i64, parse_u64, read_signed, read_unsigned};
use crate::schema::convert::{read_syslog_time, syslog_micros, ConvertError};
use crate::storage::{
    build_schema, field_views, lemma_storable, schema_fields, storable, valid_field_name, StoredAs,
    StoredField,
};
use crate::text::{opt_text, str_eq, text_key};
use crate::time::{utc_year, utc_year_reads, year_str, year_view};

verus! {

/// Where the search engine is, and the index that is written to.
#[derive(Debug, PartialEq, Eq)]
pub struct Settings {
    pub toshi_url: String,
    pub index_name: String,
}

/// A field of a message, and how it is converted.
#[derive(Debug, PartialEq, Eq)]
pub enum Convert {
    FloatSecToUsec(String),
    SyslogTimestamp(String),
    HexToUint(String),
    Plain(String),
}

/// What a [`Convert`] stands for.
pub enum ConvertView {
    FloatSecToUsec(Seq<char>),
    SyslogTimestamp(Seq<char>),
    HexToUint(Seq<char>),
    Plain(Seq<char>),
}

impl View for Convert {
    type V = ConvertView;

    open spec fn view(&self) -> ConvertView {
        match *self {
            Convert::FloatSecToUsec(f) => ConvertView::FloatSecToUsec(f@),
            Convert::SyslogTimestamp(f) => ConvertView::SyslogTimestamp(f@),
            Convert::HexToUint(f) => ConvertView::HexToUint(f@),
            Convert::Plain(f) => ConvertView::Plain(f@),
        }
    }
}

/// The conversions of a list, seen through their views.
pub open spec fn convert_views(v: Seq<Convert>) -> Seq<ConvertView> {
    Seq::new(v.len(), |i: int| v[i]@)
}

/// What a field holds.
#[derive(Clone, Copy, Debug, PartialEq, Eq, Structural)]
pub enum FieldType {
    String,
    Text,
    U64,
    I64,
    Timestamp,
}

/// A field of a document, and the fields of messages that it is filled from.
#[derive(Debug, PartialEq, Eq)]
pub struct OurSchema {
    pub name: String,
    pub kind: FieldType,
    pub from_gelf: Vec<Convert>,
}

/// What an [`OurSchema`] stands for.
#[verifier::ext_equal]
pub struct EntryView {
    pub name: Seq<char>,
    pub kind: FieldType,
    pub from_gelf: Seq<ConvertView>,
}

impl View for OurSchema {
    type V = EntryView;

    open spec fn view(&self) -> EntryView {
        EntryView {
            name: self.name@,
            kind: self.kind,
            from_gelf: convert_views(self.from_gelf@),
        }
    }
}

impl OurSchema {
    /// What the field holds.
    pub fn get_type(&self) -> (res: &FieldType)
        ensures
            *res == self@.kind,
    {
        &self.kind
    }
}

/// The fields of a list, seen through their views.
pub open spec fn entry_views(v: Seq<OurSchema>) -> Seq<EntryView> {
    Seq::new(v.len(), |i: int| v[i]@)
}

/// A field that is filled from these.
pub open spec fn entry(name: Seq<char>, kind: FieldType, from_gelf: Seq<ConvertView>) -> EntryView {
    EntryView { name, kind, from_gelf }
}

/// A field that is filled from one field of messages as it is.
pub open spec fn direct(name: Seq<char>, kind: FieldType, source: Seq<char>) -> EntryView {
    entry(name, kind, seq![ConvertView::Plain(source)])
}

/// The fields of a document, one by one.
pub open spec fn our_entry(i: int) -> EntryView {
    if i == 0 {
        direct("message"@, FieldType::Text, "short_message"@)
    } else if i == 1 {
        direct("full_message"@, FieldType::Text, "full_message"@)
    } else if i == 2 {
        direct("message_id"@, FieldType::String, "_MESSAGE_ID"@)
    } else if i == 3 {
        entry(
            "priority"@,
            FieldType::U64,
            seq![ConvertView::Plain("level"@), ConvertView::Plain("_PRIORITY"@)],
        )
    } else if i == 4 {
        entry(
            "code_file"@,
            FieldType::Text,
            seq![ConvertView::Plain("file"@), ConvertView::Plain("_CODE_FILE"@)],
        )
    } else if i == 5 {
        entry(
            "code_line"@,
            FieldType::U64,
            seq![ConvertView::Plain("line"@), ConvertView::Plain("_CODE_LINE"@)],
        )
    } else if i == 6 {
        entry(
            "code_func"@,
            FieldType::String,
            seq![ConvertView::Plain("_CODE_FUNC"@), ConvertView::Plain("_function"@)],
        )
    } else if i == 7 {
        direct("errno"@, FieldType::I64, "_ERRNO"@)
    } else if i == 8 {
        direct("invocation_id"@, FieldType::String, "_INVOCATION_ID"@)
    } else if i == 9 {
        direct("user_invocation_id"@, FieldType::String, "_USER_INVOCATION_ID"@)
    } else if i == 10 {
        entry(
            "syslog_facility"@,
            FieldType::String,
            seq![ConvertView::Plain("facility"@), ConvertView::Plain("_SYSLOG_FACILITY"@)],
        )
    } else if i == 11 {
        direct("syslog_identifier"@, FieldType::String, "_SYSLOG_IDENTIFIER"@)
    } else if i == 12 {
        direct("syslog_pid"@, FieldType::U64, "_SYSLOG_PID"@)
    } else if i == 13 {
        entry(
            "syslog_timestamp"@,
            FieldType::Timestamp,
            seq![ConvertView::SyslogTimestamp("_SYSLOG_TIMESTAMP"@)],
        )
    } else if i == 14 {
        direct("pid"@, FieldType::U64, "_PID"@)
    } else if i == 15 {
        direct("uid"@, FieldType::U64, "_UID"@)
    } else if i == 16 {
        direct("gid"@, FieldType::U64, "_GID"@)
    } else if i == 17 {
        direct("comm"@, FieldType::String, "_COMM"@)
    } else if i == 18 {
        direct("exe"@, FieldType::String, "_EXE"@)
    } else if i == 19 {
        direct("cmdline"@, FieldType::Text, "_CMDLINE"@)
    } else if i == 20 {
        entry("cap_effective"@, FieldType::U64, seq![ConvertView::HexToUint("_CAP_EFFECTIVE"@)])
    } else if i == 21 {
        direct("audit_session"@, FieldType::U64, "_AUDIT_SESSION"@)
    } else if i == 22 {
        direct("audit_loginuid"@, FieldType::U64, "_AUDIT_LOGINUID"@)
    } else if i == 23 {
        direct("systemd_cgroup"@, FieldType::Text, "_SYSTEMD_CGROUP"@)
    } else if i == 24 {
        direct("systemd_slice"@, FieldType::Text, "_SYSTEMD_SLICE"@)
    } else if i == 25 {
        direct("systemd_unit"@, FieldType::Text, "_SYSTEMD_UNIT"@)
    } else if i == 26 {
        direct("systemd_user_unit"@, FieldType::Text, "_SYSTEMD_USER_UNIT"@)
    } else if i == 27 {
        direct("systemd_user_slice"@, FieldType::Text, "_SYSTEMD_USER_SLICE"@)
    } else if i == 28 {
        direct("systemd_session"@, FieldType::String, "_SYSTEMD_SESSION"@)
    } else if i == 29 {
        direct("systemd_owner_uid"@, FieldType::U64, "_SYSTEMD_OWNER_UID"@)
    } else if i == 30 {
        direct("selinux_context"@, FieldType::String, "_SELINUX_CONTEXT"@)
    } else if i == 31 {
        entry(
            "source_timestamp"@,
            FieldType::Timestamp,
            seq![
                ConvertView::FloatSecToUsec("timestamp"@),
                ConvertView::Plain("_SOURCE_REALTIME_TIMESTAMP"@),
            ],
        )
    } else if i == 32 {
        direct("boot_id"@, FieldType::String, "_BOOT_ID"@)
    } else if i == 33 {
        direct("machine_id"@, FieldType::String, "_MACHINE_ID"@)
    } else if i == 34 {
        direct("systemd_invocation_id"@, FieldType::String, "_SYSTEMD_INVOCATION_ID"@)
    } else if i == 35 {
        entry(
            "hostname"@,
            FieldType::String,
            seq![ConvertView::Plain("host"@), ConvertView::Plain("_HOSTNAME"@)],
        )
    } else if i == 36 {
        direct("transport"@, FieldType::String, "_TRANSPORT"@)
    } else if i == 37 {
        direct("stream_id"@, FieldType::String, "_STREAM_ID"@)
    } else if i == 38 {
        direct("line_break"@, FieldType::String, "_LINE_BREAK"@)
    } else if i == 39 {
        direct("namespace"@, FieldType::String, "_NAMESPACE"@)
    } else if i == 40 {
        direct("kernel_device"@, FieldType::Text, "_KERNEL_DEVICE"@)
    } else if i == 41 {
        direct("kernel_subsystem"@, FieldType::String, "_KERNEL_SUBSYSTEM"@)
    } else if i == 42 {
        direct("udev_sysname"@, FieldType::Text, "_UDEV_SYSNAME"@)
    } else if i == 43 {
        direct("udev_devnode"@, FieldType::Text, "_UDEV_DEVNODE"@)
    } else if i == 44 {
        direct("udev_devlink"@, FieldType::Text, "_UDEV_DEVLINK"@)
    } else if i == 45 {
        direct("coredump_unit"@, FieldType::Text, "_COREDUMP_UNIT"@)
    } else if i == 46 {
        direct("coredump_user_unit"@, FieldType::Text, "_COREDUMP_USER_UNIT"@)
    } else if i == 47 {
        direct("object_pid"@, FieldType::U64, "_OBJECT_PID"@)
    } else if i == 48 {
        direct("object_uid"@, FieldType::U64, "_OBJECT_UID"@)
    } else if i == 49 {
        direct("object_gid"@, FieldType::U64, "_OBJECT_GID"@)
    } else if i == 50 {
        direct("object_comm"@, FieldType::String, "_OBJECT_COMM"@)
    } else if i == 51 {
        direct("object_exe"@, FieldType::String, "_OBJECT_EXE"@)
    } else if i == 52 {
        direct("object_cmdline"@, FieldType::Text, "_OBJECT_CMDLINE"@)
    } else if i == 53 {
        direct("object_audit_session"@, FieldType::U64, "_OBJECT_AUDIT_SESSION"@)
    } else if i == 54 {
        direct("object_audit_loginuid"@, FieldType::U64, "_OBJECT_AUDIT_LOGINUID"@)
    } else if i == 55 {
        direct("object_systemd_cgroup"@, FieldType::Text, "_OBJECT_SYSTEMD_CGROUP"@)
    } else if i == 56 {
        direct("object_systemd_session"@, FieldType::String, "_OBJECT_SYSTEMD_SESSION"@)
    } else if i == 57 {
        direct("object_systemd_owner_uid"@, FieldType::U64, "_OBJECT_SYSTEMD_OWNER_UID"@)
    } else if i == 58 {
        direct("object_systemd_unit"@, FieldType::Text, "_OBJECT_SYSTEMD_UNIT"@)
    } else if i == 59 {
        direct("object_systemd_user_unit"@, FieldType::Text, "_OBJECT_SYSTEMD_USER_UNIT"@)
    } else if i == 60 {
        direct("recv_rt_timestamp"@, FieldType::Timestamp, "___REALTIME_TIMESTAMP"@)
    } else {
        direct("recv_mt_timestamp"@, FieldType::Timestamp, "___MONOTONIC_TIMESTAMP"@)
    }
}

/// The number of fields of a document.
pub const FIELDS: usize = 62;

/// The fields of a document.
pub open spec fn our_schema() -> Seq<EntryView> {
    Seq::new(FIELDS as nat, |i: int| our_entry(i))
}

/// One source.
fn one(a: Convert) -> (res: Vec<Convert>)
    ensures
        convert_views(res@) == seq![a@],
{
    let mut res: Vec<Convert> = Vec::new();
    res.push(a);
    assert(convert_views(res@) =~= seq![a@]);
    res
}

/// Two sources.
fn two(a: Convert, b: Convert) -> (res: Vec<Convert>)
    ensures
        convert_views(res@) == seq![a@, b@],
{
    let mut res: Vec<Convert> = Vec::new();
    res.push(a);
    res.push(b);
    assert(convert_views(res@) =~= seq![a@, b@]);
    res
}

/// A field that is filled from these.
fn make_entry(name: &str, kind: FieldType, from_gelf: Vec<Convert>) -> (res: OurSchema)
    ensures
        res@ == entry(name@, kind, convert_views(from_gelf@)),
{
    OurSchema { name: name.to_owned(), kind, from_gelf }
}

/// A field that is filled from one field of messages as it is.
fn direct_entry(name: &str, kind: FieldType, source: &str) -> (res: OurSchema)
    ensures
        res@ == direct(name@, kind, source@),
{
    make_entry(name, kind, one(Convert::Plain(source.to_owned())))
}

/// The fields of a document, one by one.
fn nth_entry(i: usize) -> (res: OurSchema)
    requires
        i < FIELDS,
    ensures
        res@ == our_entry(i as int),
{
    match i {
        0 => direct_entry("message", FieldType::Text, "short_message"),
        1 => direct_entry("full_message", FieldType::Text, "full_message"),
        2 => direct_entry("message_id", FieldType::String, "_MESSAGE_ID"),
        3 => make_entry(
            "priority",
            FieldType::U64,
            two(Convert::Plain("level".to_owned()), Convert::Plain("_PRIORITY".to_owned())),
        ),
        4 => make_entry(
            "code_file",
            FieldType::Text,
            two(Convert::Plain("file".to_owned()), Convert::Plain("_CODE_FILE".to_owned())),
        ),
        5 => make_entry(
            "code_line",
            FieldType::U64,
            two(Convert::Plain("line".to_owned()), Convert::Plain("_CODE_LINE".to_owned())),
        ),
        6 => make_entry(
            "code_func",
            FieldType::String,
            two(Convert::Plain("_CODE_FUNC".to_owned()), Convert::Plain("_function".to_owned())),
        ),
        7 => direct_entry("errno", FieldType::I64, "_ERRNO"),
        8 => direct_entry("invocation_id", FieldType::String, "_INVOCATION_ID"),
        9 => direct_entry("user_invocation_id", FieldType::String, "_USER_INVOCATION_ID"),
        10 => make_entry(
            "syslog_facility",
            FieldType::String,
            two(Convert::Plain("facility".to_owned()), Convert::Plain("_SYSLOG_FACILITY".to_owned())),
        ),
        11 => direct_entry("syslog_identifier", FieldType::String, "_SYSLOG_IDENTIFIER"),
        12 => direct_entry("syslog_pid", FieldType::U64, "_SYSLOG_PID"),
        13 => make_entry(
            "syslog_timestamp",
            FieldType::Timestamp,
            one(Convert::SyslogTimestamp("_SYSLOG_TIMESTAMP".to_owned())),
        ),
        14 => direct_entry("pid", FieldType::U64, "_PID"),
        15 => direct_entry("uid", FieldType::U64, "_UID"),
        16 => direct_entry("gid", FieldType::U64, "_GID"),
        17 => direct_entry("comm", FieldType::String, "_COMM"),
        18 => direct_entry("exe", FieldType::String, "_EXE"),
        19 => direct_entry("cmdline", FieldType::Text, "_CMDLINE"),
        20 => make_entry(
            "cap_effective",
            FieldType::U64,
            one(Convert::HexToUint("_CAP_EFFECTIVE".to_owned())),
        ),
        21 => direct_entry("audit_session", FieldType::U64, "_AUDIT_SESSION"),
        22 => direct_entry("audit_loginuid", FieldType::U64, "_AUDIT_LOGINUID"),
        23 => direct_entry("systemd_cgroup", FieldType::Text, "_SYSTEMD_CGROUP"),
        24 => direct_entry("systemd_slice", FieldType::Text, "_SYSTEMD_SLICE"),
        25 => direct_entry("systemd_unit", FieldType::Text, "_SYSTEMD_UNIT"),
        26 => direct_entry("systemd_user_unit", FieldType::Text, "_SYSTEMD_USER_UNIT"),
        27 => direct_entry("systemd_user_slice", FieldType::Text, "_SYSTEMD_USER_SLICE"),
        28 => direct_entry("systemd_session", FieldType::String, "_SYSTEMD_SESSION"),
        29 => direct_entry("systemd_owner_uid", FieldType::U64, "_SYSTEMD_OWNER_UID"),
        30 => direct_entry("selinux_context", FieldType::String, "_SELINUX_CONTEXT"),
        31 => make_entry(
            "source_timestamp",
            FieldType::Timestamp,
            two(Convert::FloatSecToUsec("timestamp".to_owned()), Convert::Plain("_SOURCE_REALTIME_TIMESTAMP".to_owned())),
        ),
        32 => direct_entry("boot_id", FieldType::String, "_BOOT_ID"),
        33 => direct_entry("machine_id", FieldType::String, "_MACHINE_ID"),
        34 => direct_entry("systemd_invocation_id", FieldType::String, "_SYSTEMD_INVOCATION_ID"),
        35 => make_entry(
            "hostname",
            FieldType::String,
            two(Convert::Plain("host".to_owned()), Convert::Plain("_HOSTNAME".to_owned())),
        ),
        36 => direct_entry("transport", FieldType::String, "_TRANSPORT"),
        37 => direct_entry("stream_id", FieldType::String, "_STREAM_ID"),
        38 => direct_entry("line_break", FieldType::String, "_LINE_BREAK"),
        39 => direct_entry("namespace", FieldType::String, "_NAMESPACE"),
        40 => direct_entry("kernel_device", FieldType::Text, "_KERNEL_DEVICE"),
        41 => direct_entry("kernel_subsystem", FieldType::String, "_KERNEL_SUBSYSTEM"),
        42 => direct_entry("udev_sysname", FieldType::Text, "_UDEV_SYSNAME"),
        43 => direct_entry("udev_devnode", FieldType::Text, "_UDEV_DEVNODE"),
        44 => direct_entry("udev_devlink", FieldType::Text, "_UDEV_DEVLINK"),
        45 => direct_entry("coredump_unit", FieldType::Text, "_COREDUMP_UNIT"),
        46 => direct_entry("coredump_user_unit", FieldType::Text, "_COREDUMP_USER_UNIT"),
        47 => direct_entry("object_pid", FieldType::U64, "_OBJECT_PID"),
        48 => direct_entry("object_uid", FieldType::U64, "_OBJECT_UID"),
        49 => direct_entry("object_gid", FieldType::U64, "_OBJECT_GID"),
        50 => direct_entry("object_comm", FieldType::String, "_OBJECT_COMM"),
        51 => direct_entry("object_exe", FieldType::String, "_OBJECT_EXE"),
        52 => direct_entry("object_cmdline", FieldType::Text, "_OBJECT_CMDLINE"),
        53 => direct_entry("object_audit_session", FieldType::U64, "_OBJECT_AUDIT_SESSION"),
        54 => direct_entry("object_audit_loginuid", FieldType::U64, "_OBJECT_AUDIT_LOGINUID"),
        55 => direct_entry("object_systemd_cgroup", FieldType::Text, "_OBJECT_SYSTEMD_CGROUP"),
        56 => direct_entry("object_systemd_session", FieldType::String, "_OBJECT_SYSTEMD_SESSION"),
        57 => direct_entry("object_systemd_owner_uid", FieldType::U64, "_OBJECT_SYSTEMD_OWNER_UID"),
        58 => direct_entry("object_systemd_unit", FieldType::Text, "_OBJECT_SYSTEMD_UNIT"),
        59 => direct_entry("object_systemd_user_unit", FieldType::Text, "_OBJECT_SYSTEMD_USER_UNIT"),
        60 => direct_entry("recv_rt_timestamp", FieldType::Timestamp, "___REALTIME_TIMESTAMP"),
        _ => direct_entry("recv_mt_timestamp", FieldType::Timestamp, "___MONOTONIC_TIMESTAMP"),
    }
}

/// The fields of a document.
pub fn get_our_schema() -> (res: Vec<OurSchema>)
    ensures
        entry_views(res@) == our_schema(),
{
    let mut res: Vec<OurSchema> = Vec::new();
    let mut i: usize = 0;
    while i < FIELDS
        invariant
            i <= FIELDS,
            res@.len() == i,
            forall|k: int| 0 <= k < i ==> (#[trigger] res@[k])@ == our_entry(k),
        decreases FIELDS - i,
    {
        res.push(nth_entry(i));
        i = i + 1;
    }
    assert(entry_views(res@) =~= our_schema());
    res
}

/// The field whose name has a key.
spec fn entry_with_key(key: int) -> int {
    if key == 0x6d676173 {
        0
    } else if key == 0x6667615f {
        1
    } else if key == 0x6d695f73 {
        2
    } else if key == 0x70746969 {
        3
    } else if key == 0x636c6965 {
        4
    } else if key == 0x636e6965 {
        5
    } else if key == 0x636e7565 {
        6
    } else if key == 0x656e7272 {
        7
    } else if key == 0x69695f63 {
        8
    } else if key == 0x75695f6e {
        9
    } else if key == 0x73746967 {
        10
    } else if key == 0x73656967 {
        11
    } else if key == 0x7369706c {
        12
    } else if key == 0x736d6167 {
        13
    } else if key == 0x70697069 {
        14
    } else if key == 0x75697569 {
        15
    } else if key == 0x67696769 {
        16
    } else if key == 0x636d6f6f {
        17
    } else if key == 0x65786578 {
        18
    } else if key == 0x636e6964 {
        19
    } else if key == 0x63766965 {
        20
    } else if key == 0x616f6974 {
        21
    } else if key == 0x61697574 {
        22
    } else if key == 0x73756f65 {
        23
    } else if key == 0x73636965 {
        24
    } else if key == 0x73696e65 {
        25
    } else if key == 0x73696e6d {
        26
    } else if key == 0x73636964 {
        27
    } else if key == 0x736f696d {
        28
    } else if key == 0x7369756d {
        29
    } else if key == 0x73786575 {
        30
    } else if key == 0x736d6165 {
        31
    } else if key == 0x62695f6f {
        32
    } else if key == 0x6d695f68 {
        33
    } else if key == 0x73695f5f {
        34
    } else if key == 0x686d6173 {
        35
    } else if key == 0x74726f6e {
        36
    } else if key == 0x73695f65 {
        37
    } else if key == 0x6c616565 {
        38
    } else if key == 0x6e636165 {
        39
    } else if key == 0x6b636965 {
        40
    } else if key == 0x6b65746c {
        41
    } else if key == 0x756d615f {
        42
    } else if key == 0x75646f5f {
        43
    } else if key == 0x756e695f {
        44
    } else if key == 0x63696e64 {
        45
    } else if key == 0x63696e6d {
        46
    } else if key == 0x6f697065 {
        47
    } else if key == 0x6f697565 {
        48
    } else if key == 0x6f696765 {
        49
    } else if key == 0x6f6d6f65 {
        50
    } else if key == 0x6f786565 {
        51
    } else if key == 0x6f6e6963 {
        52
    } else if key == 0x6f6f695f {
        53
    } else if key == 0x6f697561 {
        54
    } else if key == 0x6f756f73 {
        55
    } else if key == 0x6f6f6973 {
        56
    } else if key == 0x6f697579 {
        57
    } else if key == 0x6f696e5f {
        58
    } else if key == 0x6f696e79 {
        59
    } else if key == 0x726d6172 {
        60
    } else if key == 0x726d616d {
        61
    } else {
        -1
    }
}

/// Every name leads to its own field by its key, and can be the name of a field.
proof fn lemma_entry_key(i: int)
    requires
        0 <= i < FIELDS,
    ensures
        entry_with_key(text_key(our_entry(i).name)) == i,
        valid_field_name(our_entry(i).name),
{
    if i == 0 {
        reveal_strlit("message");
    } else if i == 1 {
        reveal_strlit("full_message");
    } else if i == 2 {
        reveal_strlit("message_id");
    } else if i == 3 {
        reveal_strlit("priority");
    } else if i == 4 {
        reveal_strlit("code_file");
    } else if i == 5 {
        reveal_strlit("code_line");
    } else if i == 6 {
        reveal_strlit("code_func");
    } else if i == 7 {
        reveal_strlit("errno");
    } else if i == 8 {
        reveal_strlit("invocation_id");
    } else if i == 9 {
        reveal_strlit("user_invocation_id");
    } else if i == 10 {
        reveal_strlit("syslog_facility");
    } else if i == 11 {
        reveal_strlit("syslog_identifier");
    } else if i == 12 {
        reveal_strlit("syslog_pid");
    } else if i == 13 {
        reveal_strlit("syslog_timestamp");
    } else if i == 14 {
        reveal_strlit("pid");
    } else if i == 15 {
        reveal_strlit("uid");
    } else if i == 16 {
        reveal_strlit("gid");
    } else if i == 17 {
        reveal_strlit("comm");
    } else if i == 18 {
        reveal_strlit("exe");
    } else if i == 19 {
        reveal_strlit("cmdline");
    } else if i == 20 {
        reveal_strlit("cap_effective");
    } else if i == 21 {
        reveal_strlit("audit_session");
    } else if i == 22 {
        reveal_strlit("audit_loginuid");
    } else if i == 23 {
        reveal_strlit("systemd_cgroup");
    } else if i == 24 {
        reveal_strlit("systemd_slice");
    } else if i == 25 {
        reveal_strlit("systemd_unit");
    } else if i == 26 {
        reveal_strlit("systemd_user_unit");
    } else if i == 27 {
        reveal_strlit("systemd_user_slice");
    } else if i == 28 {
        reveal_strlit("systemd_session");
    } else if i == 29 {
        reveal_strlit("systemd_owner_uid");
    } else if i == 30 {
        reveal_strlit("selinux_context");
    } else if i == 31 {
        reveal_strlit("source_timestamp");
    } else if i == 32 {
        reveal_strlit("boot_id");
    } else if i == 33 {
        reveal_strlit("machine_id");
    } else if i == 34 {
        reveal_strlit("systemd_invocation_id");
    } else if i == 35 {
        reveal_strlit("hostname");
    } else if i == 36 {
        reveal_strlit("transport");
    } else if i == 37 {
        reveal_strlit("stream_id");
    } else if i == 38 {
        reveal_strlit("line_break");
    } else if i == 39 {
        reveal_strlit("namespace");
    } else if i == 40 {
        reveal_strlit("kernel_device");
    } else if i == 41 {
        reveal_strlit("kernel_subsystem");
    } else if i == 42 {
        reveal_strlit("udev_sysname");
    } else if i == 43 {
        reveal_strlit("udev_devnode");
    } else if i == 44 {
        reveal_strlit("udev_devlink");
    } else if i == 45 {
        reveal_strlit("coredump_unit");
    } else if i == 46 {
        reveal_strlit("coredump_user_unit");
    } else if i == 47 {
        reveal_strlit("object_pid");
    } else if i == 48 {
        reveal_strlit("object_uid");
    } else if i == 49 {
        reveal_strlit("object_gid");
    } else if i == 50 {
        reveal_strlit("object_comm");
    } else if i == 51 {
        reveal_strlit("object_exe");
    } else if i == 52 {
        reveal_strlit("object_cmdline");
    } else if i == 53 {
        reveal_strlit("object_audit_session");
    } else if i == 54 {
        reveal_strlit("object_audit_loginuid");
    } else if i == 55 {
        reveal_strlit("object_systemd_cgroup");
    } else if i == 56 {
        reveal_strlit("object_systemd_session");
    } else if i == 57 {
        reveal_strlit("object_systemd_owner_uid");
    } else if i == 58 {
        reveal_strlit("object_systemd_unit");
    } else if i == 59 {
        reveal_strlit("object_systemd_user_unit");
    } else if i == 60 {
        reveal_strlit("recv_rt_timestamp");
    } else {
        reveal_strlit("recv_mt_timestamp");
    }
}

/// No two fields have the same name.
pub proof fn field_names_differ(i: int, j: int)
    requires
        0 <= i < FIELDS,
        0 <= j < FIELDS,
        i != j,
    ensures
        our_entry(i).name != our_entry(j).name,
{
    lemma_entry_key(i);
    lemma_entry_key(j);
}

/// Fields by their names, of two fields of one name the last.
pub open spec fn by_name(entries: Seq<EntryView>) -> Map<Seq<char>, EntryView>
    decreases entries.len(),
{
    if entries.len() == 0 {
        Map::empty()
    } else {
        by_name(entries.drop_last()).insert(entries.last().name, entries.last())
    }
}

/// The fields of a document by their names.
pub fn get_our_schema_map() -> (res: FieldMap<OurSchema>)
    ensures
        res@ == by_name(our_schema()),
{
    let ghost views = our_schema();
    let mut res: FieldMap<OurSchema> = FieldMap::new();
    let mut i: usize = 0;
    assert(views.take(0) =~= Seq::<EntryView>::empty());
    while i < FIELDS
        invariant
            i <= FIELDS,
            views == our_schema(),
            res@ == by_name(views.take(i as int)),
        decreases FIELDS - i,
    {
        proof {
            assert(views.take(i + 1).drop_last() =~= views.take(i as int));
            assert(views.take(i + 1).last() == our_entry(i as int));
        }
        let e = nth_entry(i);
        let name = e.name.clone();
        res.insert(name, e);
        i = i + 1;
    }
    assert(views.take(i as int) =~= views);
    res
}

/// How the index engine keeps a field.
pub open spec fn kept_as(kind: FieldType) -> StoredAs {
    match kind {
        FieldType::String => StoredAs::String,
        FieldType::Text => StoredAs::Text,
        FieldType::U64 => StoredAs::U64,
        FieldType::I64 => StoredAs::I64,
        FieldType::Timestamp => StoredAs::FastU64,
    }
}

/// The fields that the index engine keeps.
pub open spec fn kept(entries: Seq<EntryView>) -> Seq<StoredField> {
    Seq::new(entries.len(), |i: int| (entries[i].name, kept_as(entries[i].kind)))
}

/// The fields of documents can make up a schema.
proof fn lemma_kept()
    ensures
        storable(kept(our_schema())),
{
    let fields = kept(our_schema());
    assert forall|i: int| 0 <= i < fields.len() implies valid_field_name(
        (#[trigger] fields[i]).0,
    ) by {
        lemma_entry_key(i);
    }
    assert forall|i: int, j: int|
        0 <= i < fields.len() && 0 <= j < fields.len() && i != j implies (#[trigger] fields[i]).0
        != (#[trigger] fields[j]).0 by {
        field_names_differ(i, j);
    }
    lemma_storable(fields);
}

/// The schema that the index engine keeps documents by.
pub fn get_tantivy_schema() -> (res: Schema)
    ensures
        schema_fields(res) == kept(our_schema()),
{
    let ghost want = kept(our_schema());
    let mut fields: Vec<(String, StoredAs)> = Vec::new();
    let mut i: usize = 0;
    while i < FIELDS
        invariant
            i <= FIELDS,
            want == kept(our_schema()),
            fields@.len() == i,
            forall|k: int|
                0 <= k < i ==> ((#[trigger] fields@[k]).0@, fields@[k].1) == want[k],
        decreases FIELDS - i,
    {
        let e = nth_entry(i);
        let kind: StoredAs = match e.kind {
            FieldType::String => StoredAs::String,
            FieldType::Text => StoredAs::Text,
            FieldType::U64 => StoredAs::U64,
            FieldType::I64 => StoredAs::I64,
            FieldType::Timestamp => StoredAs::FastU64,
        };
        assert((e.name@, kind) == want[i as int]);
        fields.push((e.name, kind));
        i = i + 1;
    }
    assert(field_views(fields@) =~= want);
    proof {
        lemma_kept();
    }
    build_schema(&fields)
}

// ---------------------------------------------------------------------------
// Extraction
// ---------------------------------------------------------------------------

/// A number read from a text.
pub open spec fn read_u64(s: Seq<char>, base: nat) -> Result<FieldView, ConvertError> {
    match read_unsigned(s, base, u64::MAX as nat) {
        Some(n) => Ok(FieldView::U64(n as u64)),
        None => Err(ConvertError::Unparsable),
    }
}

/// A signed number read from a text.
pub open spec fn read_i64(s: Seq<char>, base: nat) -> Result<FieldView, ConvertError> {
    match read_signed(s, base) {
        Some(n) => Ok(FieldView::I64(n as i64)),
        None => Err(ConvertError::Unparsable),
    }
}

/// The base in which a field is written.
pub open spec fn base_of(c: ConvertView) -> nat {
    if c is HexToUint {
        16
    } else {
        10
    }
}

/// What a value of a message comes to as the value of a field, in the given year.
pub open spec fn converted(v: JsonView, c: ConvertView, kind: FieldType, year: Option<Seq<char>>) -> Result<
    FieldView,
    ConvertError,
> {
    match kind {
        FieldType::String | FieldType::Text => Ok(FieldView::Text(plain_text(v))),
        FieldType::U64 => match v {
            JsonView::String { text, .. } => read_u64(text, base_of(c)),
            JsonView::Number { as_u64: Some(n), .. } => Ok(FieldView::U64(n)),
            _ => Err(ConvertError::Unrepresentable),
        },
        FieldType::I64 => match v {
            JsonView::String { text, .. } => read_i64(text, base_of(c)),
            JsonView::Number { as_i64: Some(n), .. } => Ok(FieldView::I64(n)),
            _ => Err(ConvertError::Unrepresentable),
        },
        FieldType::Timestamp => match v {
            JsonView::String { text, micros } => match c {
                ConvertView::Plain(_) => read_u64(text, 10),
                ConvertView::HexToUint(_) => read_u64(text, 16),
                ConvertView::FloatSecToUsec(_) => match micros {
                    Some(n) => Ok(FieldView::U64(n)),
                    None => Err(ConvertError::Unparsable),
                },
                ConvertView::SyslogTimestamp(_) => match syslog_micros(text, year) {
                    Ok(n) => Ok(FieldView::I64(n)),
                    Err(e) => Err(e),
                },
            },
            JsonView::Number { as_u64, micros, .. } => match c {
                ConvertView::Plain(_) => match as_u64 {
                    Some(n) => Ok(FieldView::U64(n)),
                    None => Err(ConvertError::Unrepresentable),
                },
                ConvertView::FloatSecToUsec(_) => match micros {
                    Some(n) => Ok(FieldView::U64(n)),
                    None => Err(ConvertError::Unrepresentable),
                },
                _ => Err(ConvertError::WrongKind),
            },
            _ => Err(ConvertError::WrongKind),
        },
    }
}

/// A value, held against what it is to be.
pub open spec fn same_field(
    res: Result<FieldValue, ConvertError>,
    want: Result<FieldView, ConvertError>,
) -> bool {
    match (res, want) {
        (Ok(a), Ok(b)) => a@ == b,
        (Err(e), Err(f)) => e == f,
        _ => false,
    }
}

/// Reads a number from a text.
fn text_to_u64(s: &str, base: u64) -> (res: Result<FieldValue, ConvertError>)
    requires
        base == 10 || base == 16,
    ensures
        same_field(res, read_u64(s@, base as nat)),
{
    match parse_u64(s, base) {
        Some(n) => Ok(FieldValue::U64(n)),
        None => Err(ConvertError::Unparsable),
    }
}

/// Reads a signed number from a text.
fn text_to_i64(s: &str, base: u64) -> (res: Result<FieldValue, ConvertError>)
    requires
        base == 10 || base == 16,
    ensures
        same_field(res, read_i64(s@, base as nat)),
{
    match parse_i64(s, base) {
        Some(n) => Ok(FieldValue::I64(n)),
        None => Err(ConvertError::Unparsable),
    }
}

/// A number that was to be one.
fn number_or(n: Option<u64>, error: ConvertError) -> (res: Result<FieldValue, ConvertError>)
    ensures
        same_field(
            res,
            match n {
                Some(n) => Ok(FieldView::U64(n)),
                None => Err(error),
            },
        ),
{
    match n {
        Some(n) => Ok(FieldValue::U64(n)),
        None => Err(error),
    }
}

/// The base in which a field is written.
fn base_for(c: &Convert) -> (res: u64)
    ensures
        res == base_of(c@),
        res == 10 || res == 16,
{
    match c {
        Convert::HexToUint(_) => 16,
        _ => 10,
    }
}

/// Converts a value of a message to the value of a field, with the year to take for
/// times that have none.
pub fn convert(input: &JsonValue, input_conversion: &Convert, field_type: &FieldType, year: Option<&str>) -> (
    res: Result<FieldValue, ConvertError>)
    ensures
        same_field(res, converted(input@, input_conversion@, *field_type, year_view(year))),
{
    match field_type {
        FieldType::String | FieldType::Text => Ok(FieldValue::Text(input.to_text())),
        FieldType::U64 => match input {
            JsonValue::String(s) => text_to_u64(s.text.as_str(), base_for(input_conversion)),
            JsonValue::Number(n) => number_or(n.as_u64, ConvertError::Unrepresentable),
            _ => Err(ConvertError::Unrepresentable),
        },
        FieldType::I64 => match input {
            JsonValue::String(s) => text_to_i64(s.text.as_str(), base_for(input_conversion)),
            JsonValue::Number(n) => match n.as_i64 {
                Some(n) => Ok(FieldValue::I64(n)),
                None => Err(ConvertError::Unrepresentable),
            },
            _ => Err(ConvertError::Unrepresentable),
        },
        FieldType::Timestamp => match input {
            JsonValue::String(s) => match input_conversion {
                Convert::Plain(_) => text_to_u64(s.text.as_str(), 10),
                Convert::HexToUint(_) => text_to_u64(s.text.as_str(), 16),
                Convert::FloatSecToUsec(_) => number_or(s.micros, ConvertError::Unparsable),
                Convert::SyslogTimestamp(_) => match read_syslog_time(s.text.as_str(), year) {
                    Ok(n) => Ok(FieldValue::I64(n)),
                    Err(e) => Err(e),
                },
            },
            JsonValue::Number(n) => match input_conversion {
                Convert::Plain(_) => number_or(n.as_u64, ConvertError::Unrepresentable),
                Convert::FloatSecToUsec(_) => number_or(n.micros, ConvertError::Unrepresentable),
                _ => Err(ConvertError::WrongKind),
            },
            _ => Err(ConvertError::WrongKind),
        },
    }
}

/// The field of messages that a conversion takes.
pub open spec fn taken_field(c: ConvertView) -> Seq<char> {
    match c {
        ConvertView::FloatSecToUsec(f) => f,
        ConvertView::SyslogTimestamp(f) => f,
        ConvertView::HexToUint(f) => f,
        ConvertView::Plain(f) => f,
    }
}

impl Convert {
    /// The field of messages that the conversion takes.
    fn field(&self) -> (res: &str)
        ensures
            res@ == taken_field(self@),
    {
        match self {
            Convert::FloatSecToUsec(f) => f.as_str(),
            Convert::SyslogTimestamp(f) => f.as_str(),
            Convert::HexToUint(f) => f.as_str(),
            Convert::Plain(f) => f.as_str(),
        }
    }

    /// Whether the conversion takes this field as it is.
    fn is_plain(&self, field: &str) -> (res: bool)
        ensures
            res == (self@ == ConvertView::Plain(field@)),
    {
        match self {
            Convert::Plain(f) => str_eq(f.as_str(), field),
            _ => false,
        }
    }
}

/// What the sources from the `i`th on make of the value that the earlier ones gave:
/// each that the message has, and that can be converted, replaces it. The short
/// message and the host are always there, and end the search.
pub open spec fn field_value(
    sources: Seq<ConvertView>,
    i: int,
    value: Option<FieldView>,
    kind: FieldType,
    msg: GelfView,
    year: Option<Seq<char>>,
) -> Option<FieldView>
    decreases sources.len() - i,
{
    if i < 0 || i >= sources.len() {
        value
    } else if sources[i] == ConvertView::Plain("short_message"@) {
        Some(FieldView::Text(msg.short_message))
    } else if sources[i] == ConvertView::Plain("host"@) {
        Some(FieldView::Text(msg.host))
    } else {
        let field = taken_field(sources[i]);
        let next = if msg.other.contains_key(field) {
            match converted(msg.other[field], sources[i], kind, year) {
                Ok(v) => Some(v),
                Err(_) => value,
            }
        } else {
            value
        };
        field_value(sources, i + 1, next, kind, msg, year)
    }
}

/// What a message says, with one more field.
pub open spec fn with_field(
    doc: Map<Seq<char>, FieldView>,
    e: EntryView,
    msg: GelfView,
    year: Option<Seq<char>>,
) -> Map<Seq<char>, FieldView> {
    match field_value(e.from_gelf, 0, None, e.kind, msg, year) {
        Some(v) => doc.insert(e.name, v),
        None => doc,
    }
}

/// What a message says, as the fields of a document.
pub open spec fn extracted(schema: Seq<EntryView>, msg: GelfView, year: Option<Seq<char>>) -> Map<
    Seq<char>,
    FieldView,
>
    decreases schema.len(),
{
    if schema.len() == 0 {
        Map::empty()
    } else {
        with_field(extracted(schema.drop_last(), msg, year), schema.last(), msg, year)
    }
}

/// The value that a message gives a field.
fn find_value(e: &OurSchema, msg: &GELFMessage, year: Option<&str>) -> (res: Option<FieldValue>)
    ensures
        crate::json::opt_field(res) == field_value(e@.from_gelf, 0, None, e@.kind, msg@, year_view(year)),
{
    let ghost sources = e@.from_gelf;
    let mut value: Option<FieldValue> = None;
    let mut i: usize = 0;
    while i < e.from_gelf.len()
        invariant
            i <= e.from_gelf@.len(),
            sources == e@.from_gelf,
            field_value(sources, 0, None, e@.kind, msg@, year_view(year)) == field_value(
                sources,
                i as int,
                crate::json::opt_field(value),
                e@.kind,
                msg@,
                year_view(year),
            ),
        decreases e.from_gelf@.len() - i,
    {
        let source = &e.from_gelf[i];
        assert(sources[i as int] == source@);
        if source.is_plain("short_message") {
            return Some(FieldValue::Text(msg.short_message.clone()));
        }
        if source.is_plain("host") {
            return Some(FieldValue::Text(msg.host.clone()));
        }
        match msg.other.get(source.field()) {
            Some(v) => match convert(v, source, &e.kind, year) {
                Ok(c) => {
                    value = Some(c);
                },
                Err(_) => {},
            },
            None => {},
        }
        i = i + 1;
    }
    value
}

/// The fields of the document that a message becomes, with the year to take for times
/// that have none.
pub fn extract_gelf_fields_in(schema: &Vec<OurSchema>, msg: &GELFMessage, year: Option<&str>) -> (res:
    FieldMap<FieldValue>)
    ensures
        res@ == extracted(entry_views(schema@), msg@, year_view(year)),
{
    let ghost views = entry_views(schema@);
    let mut res: FieldMap<FieldValue> = FieldMap::new();
    let mut i: usize = 0;
    assert(views.take(0) =~= Seq::<EntryView>::empty());
    while i < schema.len()
        invariant
            i <= schema@.len(),
            views == entry_views(schema@),
            res@ == extracted(views.take(i as int), msg@, year_view(year)),
        decreases schema@.len() - i,
    {
        proof {
            assert(views.take(i + 1).drop_last() =~= views.take(i as int));
            assert(views.take(i + 1).last() == schema@[i as int]@);
        }
        match find_value(&schema[i], msg, year) {
            Some(v) => res.insert(schema[i].name.clone(), v),
            None => {},
        }
        i = i + 1;
    }
    assert(views.take(i as int) =~= views);
    res
}

/// The fields of the document that a message becomes; times that have no year are
/// taken to be of the current one.
pub fn extract_gelf_fields(schema: &Vec<OurSchema>, msg: &GELFMessage) -> (res: FieldMap<
    FieldValue,
>)
    ensures
        exists|year: Option<Seq<char>>| #[trigger]
            utc_year_reads(year) && res@ == extracted(entry_views(schema@), msg@, year),
{
    let year = utc_year();
    assert(utc_year_reads(opt_text(year)));
    extract_gelf_fields_in(schema, msg, year_str(&year))
}

// ---------------------------------------------------------------------------
// Laws
// ---------------------------------------------------------------------------

/// The fields of a list up to one of them, by their names, hold that one where no later
/// one has its name.
proof fn lemma_by_name(entries: Seq<EntryView>, i: int)
    requires
        0 <= i < entries.len(),
        forall|j: int| i < j < entries.len() ==> (#[trigger] entries[j]).name != entries[i].name,
    ensures
        by_name(entries).contains_key(entries[i].name),
        by_name(entries)[entries[i].name] == entries[i],
    decreases entries.len(),
{
    if i < entries.len() - 1 {
        let front = entries.drop_last();
        assert forall|j: int| i < j < front.len() implies (#[trigger] front[j]).name
            != front[i].name by {
            assert(entries[j].name != entries[i].name);
        }
        lemma_by_name(front, i);
        assert(entries[entries.len() - 1].name != entries[i].name);
    }
}

/// Every field of the schema is found by its name.
pub proof fn every_field_is_found(i: int)
    requires
        0 <= i < FIELDS,
    ensures
        by_name(our_schema()).contains_key(our_entry(i).name),
        by_name(our_schema())[our_entry(i).name] == our_entry(i),
{
    assert forall|j: int| i < j < our_schema().len() implies (#[trigger] our_schema()[j]).name
        != our_schema()[i].name by {
        field_names_differ(i, j);
    }
    lemma_by_name(our_schema(), i);
}

/// A document has only fields of the schema.
pub proof fn extracted_fields_are_known(
    schema: Seq<EntryView>,
    msg: GelfView,
    year: Option<Seq<char>>,
    name: Seq<char>,
)
    ensures
        extracted(schema, msg, year).contains_key(name) ==> by_name(schema).contains_key(name),
    decreases schema.len(),
{
    if schema.len() > 0 {
        extracted_fields_are_known(schema.drop_last(), msg, year, name);
    }
}

/// A field whose first source is the short message of messages is always filled with
/// it, and so is one whose first source is the host.
pub proof fn certain_fields_are_filled(
    sources: Seq<ConvertView>,
    kind: FieldType,
    msg: GelfView,
    year: Option<Seq<char>>,
)
    requires
        sources.len() > 0,
    ensures
        sources[0] == ConvertView::Plain("short_message"@) ==> field_value(
            sources,
            0,
            None,
            kind,
            msg,
            year,
        ) == Some(FieldView::Text(msg.short_message)),
        sources[0] == ConvertView::Plain("host"@) ==> field_value(
            sources,
            0,
            None,
            kind,
            msg,
            year,
        ) == Some(FieldView::Text(msg.host)),
{
    reveal_strlit("host");
    reveal_strlit("short_message");
    assert("host"@.len() != "short_message"@.len());
}

} // verus!
