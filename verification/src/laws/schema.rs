//! Documents and their columns.
use vstd::prelude::*;

use crate::gelf::GelfView;
use crate::json::{FieldView, JsonView};
use crate::number::{decimal, digits, signed_decimal};
use crate::schema::attr::ConversionView;
use crate::schema::column::{ColumnView, ValueKind};
use crate::schema::convert::ConvertError;
use crate::schema::document::{document_column, document_columns, valid_document};
use crate::schema::extract::{
    all_values, chosen, gelf_source, gelf_value, gelf_values, syslog_get, syslog_source,
    syslog_value, syslog_values, Sourced, SyslogValue,
};
use crate::syslog::SyslogView;
use crate::time::{naive_datetime, rfc2822, rfc3339};

verus! {

// ---------------------------------------------------------------------------
// From GELF messages
// ---------------------------------------------------------------------------

/// What a message tells under a name, where it does.
pub open spec fn told(msg: GelfView, name: Seq<char>) -> Option<JsonView> {
    if msg.other.contains_key(name) {
        Some(msg.other[name])
    } else {
        None
    }
}

/// The first of two where it is there, else the second.
pub open spec fn either(a: Option<JsonView>, b: Option<JsonView>) -> Option<JsonView> {
    if a is Some {
        a
    } else {
        b
    }
}

/// Whether a value is the number, or its decimal text.
pub open spec fn says(v: JsonView, n: u64) -> bool {
    match v {
        JsonView::Number { as_u64, .. } => as_u64 == Some(n),
        JsonView::String { text, .. } => text == decimal(n as nat),
        _ => false,
    }
}

/// Whether a value is the number with its sign, or its decimal text.
pub open spec fn says_signed(v: JsonView, n: i64) -> bool {
    match v {
        JsonView::Number { as_i64, .. } => as_i64 == Some(n),
        JsonView::String { text, .. } => text == signed_decimal(n as int),
        _ => false,
    }
}

/// Whether a value is the number, or its text in base sixteen.
pub open spec fn says_hex(v: JsonView, n: u64) -> bool {
    match v {
        JsonView::Number { as_u64, .. } => as_u64 == Some(n),
        JsonView::String { text, .. } => text == digits(n as nat, 16),
        _ => false,
    }
}

/// Whether a value is a number or a text, where there is one.
pub open spec fn countable(j: Option<JsonView>) -> bool {
    match j {
        Some(JsonView::Number { .. }) | Some(JsonView::String { .. }) | None => true,
        _ => false,
    }
}

/// Whether a value is a text, where there is one.
pub open spec fn wordable(j: Option<JsonView>) -> bool {
    match j {
        Some(JsonView::String { .. }) | None => true,
        _ => false,
    }
}

/// The column has the name, and the document has there the text that is told.
pub open spec fn text_column(
    vs: Seq<Option<FieldView>>,
    i: int,
    name: Seq<char>,
    j: Option<JsonView>,
) -> bool {
    &&& document_columns()[i].name == name
    &&& wordable(j)
    &&& vs[i] == match j {
        Some(JsonView::String { text, .. }) => Some(FieldView::Text(text)),
        _ => None,
    }
}

/// The column has the name, and the document has there the number that is told.
pub open spec fn number_column(
    vs: Seq<Option<FieldView>>,
    i: int,
    name: Seq<char>,
    j: Option<JsonView>,
) -> bool {
    &&& document_columns()[i].name == name
    &&& countable(j)
    &&& vs[i] is Some <==> j is Some
    &&& forall|n: u64| j is Some && #[trigger] says(j->0, n) ==> vs[i] == Some(FieldView::U64(n))
}

/// The column has the name, and the document has there the number that is told, with its
/// sign.
pub open spec fn signed_column(
    vs: Seq<Option<FieldView>>,
    i: int,
    name: Seq<char>,
    j: Option<JsonView>,
) -> bool {
    &&& document_columns()[i].name == name
    &&& countable(j)
    &&& vs[i] is Some <==> j is Some
    &&& forall|n: i64|
        j is Some && #[trigger] says_signed(j->0, n) ==> vs[i] == Some(FieldView::I64(n))
}

/// The column has the name, and the document has there the number that is told in base
/// sixteen.
pub open spec fn hex_column(
    vs: Seq<Option<FieldView>>,
    i: int,
    name: Seq<char>,
    j: Option<JsonView>,
) -> bool {
    &&& document_columns()[i].name == name
    &&& countable(j)
    &&& vs[i] is Some <==> j is Some
    &&& forall|n: u64| j is Some && #[trigger] says_hex(j->0, n) ==> vs[i] == Some(FieldView::U64(n))
}

/// The column has the name, and the document has there the microseconds in the seconds
/// that are told, else the number that is told.
pub open spec fn time_column(
    vs: Seq<Option<FieldView>>,
    i: int,
    name: Seq<char>,
    secs: Option<JsonView>,
    j: Option<JsonView>,
) -> bool {
    &&& document_columns()[i].name == name
    &&& countable(secs)
    &&& match secs {
        Some(JsonView::Number { micros, .. }) | Some(JsonView::String { micros, .. }) => {
            micros matches Some(m) && vs[i] == Some(FieldView::U64(m))
        },
        _ => number_column(vs, i, name, j),
    }
}

/// Whether the number is so many nanoseconds in whole microseconds, where it is taken
/// modulo two to the 64th.
pub open spec fn in_micros(m: u64, nanos: i64) -> bool {
    if nanos >= 0 {
        1000 * m <= nanos < 1000 * m + 1000
    } else {
        1000 * (m - (if m == 0 {
            0int
        } else {
            0x1_0000_0000_0000_0000
        })) - 1000 < nanos <= 1000 * (m - (if m == 0 {
            0int
        } else {
            0x1_0000_0000_0000_0000
        }))
    }
}

/// The column has the name, and the document has there the time that is told: by RFC 3339,
/// else by RFC 2822, else as month, day and time in the year.
pub open spec fn syslog_time_column(
    vs: Seq<Option<FieldView>>,
    i: int,
    name: Seq<char>,
    j: Option<JsonView>,
    year: Option<Seq<char>>,
) -> bool {
    &&& document_columns()[i].name == name
    &&& wordable(j)
    &&& match j {
        Some(JsonView::String { text, .. }) => {
            let nanos = if rfc3339(text) is Some {
                rfc3339(text)->0.unix_nanos
            } else if rfc2822(text) is Some {
                rfc2822(text)->0
            } else {
                naive_datetime(year->0 + seq![' '] + text, "%Y %b %e %T"@)->0
            };
            &&& nanos is Some
            &&& vs[i] matches Some(FieldView::U64(m)) && in_micros(m, nanos->0)
            &&& rfc3339(text) is None && rfc2822(text) is None ==> year is Some && naive_datetime(
                year->0 + seq![' '] + text,
                "%Y %b %e %T"@,
            ) is Some
        },
        _ => vs[i] is None,
    }
}

/// The column has the name, and the document has there the text.
pub open spec fn fixed_column(
    vs: Seq<Option<FieldView>>,
    i: int,
    name: Seq<char>,
    text: Seq<char>,
) -> bool {
    &&& document_columns()[i].name == name
    &&& vs[i] == Some(FieldView::Text(text))
}

/// Whether not every message has a field of the name.
spec fn ordinary(f: Seq<char>) -> bool {
    f.len() > 0 && f[0] != 'v' && f[0] != 'h' && f[0] != 's'
}

/// The values that results come to are theirs.
proof fn lemma_values(results: Seq<Sourced>, i: int)
    requires
        0 <= i < results.len(),
    ensures
        all_values(results) matches Ok(vs) ==> vs.len() == results.len() && results[i] == Ok::<
            Option<FieldView>,
            ConvertError,
        >(vs[i]),
    decreases results.len(),
{
    let front = results.drop_last();
    if i < front.len() {
        lemma_values(front, i);
    } else if front.len() > 0 {
        lemma_values(front, 0);
    }
}

/// Results without an error come to values.
proof fn lemma_no_errors(results: Seq<Sourced>)
    requires
        forall|i: int| 0 <= i < results.len() ==> (#[trigger] results[i]) is Ok,
    ensures
        all_values(results) is Ok,
    decreases results.len(),
{
    if results.len() > 0 {
        let front = results.drop_last();
        assert forall|i: int| 0 <= i < front.len() implies (#[trigger] front[i]) is Ok by {
            assert(front[i] == results[i]);
        }
        lemma_no_errors(front);
        assert(results[results.len() - 1] == results.last());
    }
}

/// What a message that becomes a document gives a column.
proof fn lemma_filled(msg: GelfView, year: Option<Seq<char>>, vs: Seq<Option<FieldView>>, i: int)
    requires
        gelf_values(document_columns(), msg, year) == Ok::<Seq<Option<FieldView>>, ConvertError>(
            vs,
        ),
        0 <= i < 62,
    ensures
        document_columns()[i] == document_column(i),
        gelf_value(document_column(i), msg, year) == Ok::<Option<FieldView>, ConvertError>(vs[i]),
{
    let columns = document_columns();
    lemma_values(Seq::new(columns.len(), |i: int| gelf_value(columns[i], msg, year)), i);
}

/// What a column comes to that is filled from one field.
proof fn lemma_one(c: ColumnView, a: ConversionView, msg: GelfView, year: Option<Seq<char>>)
    requires
        c.gelf == seq![a],
    ensures
        gelf_value(c, msg, year) == gelf_source(a, c.kind, msg, year),
{
    let results = Seq::new(c.gelf.len(), |i: int| gelf_source(c.gelf[i], c.kind, msg, year));
    reveal_with_fuel(chosen, 2);
    assert(results.last() == gelf_source(a, c.kind, msg, year));
}

/// What a column comes to that is filled from the first of two fields.
proof fn lemma_two(
    c: ColumnView,
    a: ConversionView,
    b: ConversionView,
    msg: GelfView,
    year: Option<Seq<char>>,
)
    requires
        c.gelf == seq![a, b],
    ensures
        gelf_value(c, msg, year) is Ok <==> gelf_source(a, c.kind, msg, year) is Ok && gelf_source(
            b,
            c.kind,
            msg,
            year,
        ) is Ok,
        gelf_value(c, msg, year) is Ok ==> gelf_value(c, msg, year)->Ok_0 == (if gelf_source(
            a,
            c.kind,
            msg,
            year,
        )->Ok_0 is Some {
            gelf_source(a, c.kind, msg, year)->Ok_0
        } else {
            gelf_source(b, c.kind, msg, year)->Ok_0
        }),
{
    let results = Seq::new(c.gelf.len(), |i: int| gelf_source(c.gelf[i], c.kind, msg, year));
    reveal_with_fuel(chosen, 3);
    assert(results.last() == gelf_source(b, c.kind, msg, year));
    assert(results.drop_last().last() == gelf_source(a, c.kind, msg, year));
}

/// What a column comes to that is filled from the first of three fields.
proof fn lemma_three(
    c: ColumnView,
    a: ConversionView,
    b: ConversionView,
    d: ConversionView,
    msg: GelfView,
    year: Option<Seq<char>>,
)
    requires
        c.gelf == seq![a, b, d],
    ensures
        gelf_value(c, msg, year) is Ok <==> gelf_source(a, c.kind, msg, year) is Ok && gelf_source(
            b,
            c.kind,
            msg,
            year,
        ) is Ok && gelf_source(d, c.kind, msg, year) is Ok,
        gelf_value(c, msg, year) is Ok ==> gelf_value(c, msg, year)->Ok_0 == (if gelf_source(
            a,
            c.kind,
            msg,
            year,
        )->Ok_0 is Some {
            gelf_source(a, c.kind, msg, year)->Ok_0
        } else if gelf_source(b, c.kind, msg, year)->Ok_0 is Some {
            gelf_source(b, c.kind, msg, year)->Ok_0
        } else {
            gelf_source(d, c.kind, msg, year)->Ok_0
        }),
{
    let results = Seq::new(c.gelf.len(), |i: int| gelf_source(c.gelf[i], c.kind, msg, year));
    reveal_with_fuel(chosen, 4);
    assert(results.last() == gelf_source(d, c.kind, msg, year));
    assert(results.drop_last().last() == gelf_source(b, c.kind, msg, year));
    assert(results.drop_last().drop_last().last() == gelf_source(a, c.kind, msg, year));
}

/// What a field that not every message has comes to as it is.
proof fn lemma_plain(f: Seq<char>, kind: ValueKind, msg: GelfView, year: Option<Seq<char>>)
    requires
        ordinary(f),
    ensures
        ({
            let j = told(msg, f);
            let res = gelf_source(ConversionView::Plain(f), kind, msg, year);
            &&& res matches Ok(v) ==> (v is Some <==> j is Some)
            &&& j is None ==> res is Ok
            &&& kind is U64 && numeric(j) ==> res is Ok
            &&& kind is I64 && numeric_signed(j) ==> res is Ok
            &&& res is Ok && kind is Text ==> wordable(j)
            &&& res is Ok && !(kind is Text) ==> countable(j)
            &&& kind is Text && wordable(j) ==> res == Ok::<Option<FieldView>, ConvertError>(
                match j {
                    Some(JsonView::String { text, .. }) => Some(FieldView::Text(text)),
                    _ => None,
                },
            )
            &&& forall|n: u64|
                kind is U64 && j is Some && #[trigger] says(j->0, n) ==> res == Ok::<
                    Option<FieldView>,
                    ConvertError,
                >(Some(FieldView::U64(n)))
            &&& forall|n: i64|
                kind is I64 && j is Some && #[trigger] says_signed(j->0, n) ==> res == Ok::<
                    Option<FieldView>,
                    ConvertError,
                >(Some(FieldView::I64(n)))
        }),
{
    lemma_ordinary(f);
    let j = told(msg, f);
    let res = gelf_source(ConversionView::Plain(f), kind, msg, year);
    assert forall|n: u64| kind is U64 && j is Some && #[trigger] says(j->0, n) implies res == Ok::<
        Option<FieldView>,
        ConvertError,
    >(Some(FieldView::U64(n))) by {
        crate::number::unsigned_read_back(n, 10);
    }
    assert forall|n: i64|
        kind is I64 && j is Some && #[trigger] says_signed(j->0, n) implies res == Ok::<
        Option<FieldView>,
        ConvertError,
    >(Some(FieldView::I64(n))) by {
        signed_reads_back(n);
    }
}

/// The name of a field that not every message has.
proof fn lemma_ordinary(f: Seq<char>)
    requires
        ordinary(f),
    ensures
        f != "version"@,
        f != "host"@,
        f != "short_message"@,
{
    reveal_strlit("version");
    reveal_strlit("host");
    reveal_strlit("short_message");
}

/// The names of the fields that every message has differ.
proof fn lemma_known()
    ensures
        "version"@ != "host"@,
        "version"@ != "short_message"@,
        "host"@ != "short_message"@,
{
    reveal_strlit("version");
    reveal_strlit("host");
    reveal_strlit("short_message");
    assert("version"@.len() == 7 && "host"@.len() == 4 && "short_message"@.len() == 13);
}

/// A number with its sign is read back from its text.
pub proof fn signed_reads_back(n: i64)
    ensures
        crate::number::read_signed(signed_decimal(n as int), 10) == Some(n as int),
{
    if n < 0 {
        let s = signed_decimal(n as int);
        crate::number::digits_read_back((-n) as nat, 10);
        assert(s.drop_first() =~= decimal((-n) as nat));
    } else {
        let s = signed_decimal(n as int);
        crate::number::digits_read_back(n as nat, 10);
        assert(crate::number::digit_value(s[0], 10) is Some);
    }
}

/// The columns of the document that a GELF message becomes, each by its name, and what
/// it has there of what the message tells: of several fields the first that is told.
#[verifier::rlimit(100)]
#[verifier::spinoff_prover]
pub proof fn gelf_message_becomes_document(msg: GelfView, year: Option<Seq<char>>)
    ensures
        document_columns().len() == 62,
        gelf_values(document_columns(), msg, year) matches Ok(vs) ==> {
            &&& vs.len() == 62
            &&& time_column(
                    vs,
                    0,
                    "source_timestamp"@,
                    told(msg, "timestamp"@),
                    told(msg, "_SOURCE_REALTIME_TIMESTAMP"@),
                )
            &&& fixed_column(vs, 1, "hostname"@, msg.host)
            &&& wordable(told(msg, "_HOSTNAME"@))
            &&& fixed_column(vs, 2, "message"@, msg.short_message)
            &&& number_column(
                    vs,
                    3,
                    "priority"@,
                    either(told(msg, "level"@), told(msg, "_PRIORITY"@)),
                )
            &&& countable(told(msg, "_PRIORITY"@))
            &&& text_column(vs, 4, "full_message"@, told(msg, "full_message"@))
            &&& text_column(vs, 5, "message_id"@, told(msg, "_MESSAGE_ID"@))
            &&& text_column(
                    vs,
                    6,
                    "code_file"@,
                    either(told(msg, "file"@), told(msg, "_CODE_FILE"@)),
                )
            &&& wordable(told(msg, "_CODE_FILE"@))
            &&& number_column(
                    vs,
                    7,
                    "code_line"@,
                    either(told(msg, "line"@), told(msg, "_CODE_LINE"@)),
                )
            &&& countable(told(msg, "_CODE_LINE"@))
            &&& text_column(
                    vs,
                    8,
                    "code_func"@,
                    either(told(msg, "_CODE_FUNC"@), told(msg, "_function"@)),
                )
            &&& wordable(told(msg, "_function"@))
            &&& signed_column(vs, 9, "errno"@, told(msg, "_ERRNO"@))
            &&& text_column(vs, 10, "invocation_id"@, told(msg, "_INVOCATION_ID"@))
            &&& text_column(vs, 11, "user_invocation_id"@, told(msg, "_USER_INVOCATION_ID"@))
            &&& text_column(
                    vs,
                    12,
                    "facility"@,
                    either(
                        told(msg, "facility"@),
                        either(told(msg, "_facility"@), told(msg, "_SYSLOG_FACILITY"@)),
                    ),
                )
            &&& wordable(told(msg, "_facility"@))
            &&& wordable(told(msg, "_SYSLOG_FACILITY"@))
            &&& text_column(vs, 13, "syslog_identifier"@, told(msg, "_SYSLOG_IDENTIFIER"@))
            &&& number_column(vs, 14, "syslog_pid"@, told(msg, "_SYSLOG_PID"@))
            &&& syslog_time_column(
                    vs,
                    15,
                    "syslog_timestamp"@,
                    told(msg, "_SYSLOG_TIMESTAMP"@),
                    year,
                )
            &&& number_column(vs, 16, "pid"@, told(msg, "_PID"@))
            &&& number_column(vs, 17, "uid"@, told(msg, "_UID"@))
            &&& number_column(vs, 18, "gid"@, told(msg, "_GID"@))
            &&& text_column(vs, 19, "comm"@, told(msg, "_COMM"@))
            &&& text_column(vs, 20, "exe"@, told(msg, "_EXE"@))
            &&& text_column(vs, 21, "cmdline"@, told(msg, "_CMDLINE"@))
            &&& hex_column(vs, 22, "cap_effective"@, told(msg, "_CAP_EFFECTIVE"@))
            &&& number_column(vs, 23, "audit_session"@, told(msg, "_AUDIT_SESSION"@))
            &&& number_column(vs, 24, "audit_loginuid"@, told(msg, "_AUDIT_LOGINUID"@))
            &&& text_column(vs, 25, "systemd_cgroup"@, told(msg, "_SYSTEMD_CGROUP"@))
            &&& text_column(vs, 26, "systemd_slice"@, told(msg, "_SYSTEMD_SLICE"@))
            &&& text_column(vs, 27, "systemd_unit"@, told(msg, "_SYSTEMD_UNIT"@))
            &&& text_column(vs, 28, "systemd_user_unit"@, told(msg, "_SYSTEMD_USER_UNIT"@))
            &&& text_column(vs, 29, "systemd_user_slice"@, told(msg, "_SYSTEMD_USER_SLICE"@))
            &&& text_column(vs, 30, "systemd_session"@, told(msg, "_SYSTEMD_SESSION"@))
            &&& number_column(vs, 31, "systemd_owner_uid"@, told(msg, "_SYSTEMD_OWNER_UID"@))
            &&& text_column(vs, 32, "selinux_context"@, told(msg, "_SELINUX_CONTEXT"@))
            &&& text_column(vs, 33, "boot_id"@, told(msg, "_BOOT_ID"@))
            &&& text_column(vs, 34, "machine_id"@, told(msg, "_MACHINE_ID"@))
            &&& text_column(
                    vs,
                    35,
                    "systemd_invocation_id"@,
                    told(msg, "_SYSTEMD_INVOCATION_ID"@),
                )
            &&& text_column(vs, 36, "transport"@, told(msg, "_TRANSPORT"@))
            &&& text_column(vs, 37, "stream_id"@, told(msg, "_STREAM_ID"@))
            &&& text_column(vs, 38, "line_break"@, told(msg, "_LINE_BREAK"@))
            &&& text_column(vs, 39, "namespace"@, told(msg, "_NAMESPACE"@))
            &&& text_column(vs, 40, "kernel_device"@, told(msg, "_KERNEL_DEVICE"@))
            &&& text_column(vs, 41, "kernel_subsystem"@, told(msg, "_KERNEL_SUBSYSTEM"@))
            &&& text_column(vs, 42, "udev_sysname"@, told(msg, "_UDEV_SYSNAME"@))
            &&& text_column(vs, 43, "udev_devnode"@, told(msg, "_UDEV_DEVNODE"@))
            &&& text_column(vs, 44, "udev_devlink"@, told(msg, "_UDEV_DEVLINK"@))
            &&& text_column(vs, 45, "coredump_unit"@, told(msg, "_COREDUMP_UNIT"@))
            &&& text_column(vs, 46, "coredump_user_unit"@, told(msg, "_COREDUMP_USER_UNIT"@))
            &&& number_column(vs, 47, "object_pid"@, told(msg, "_OBJECT_PID"@))
            &&& number_column(vs, 48, "object_uid"@, told(msg, "_OBJECT_UID"@))
            &&& number_column(vs, 49, "object_gid"@, told(msg, "_OBJECT_GID"@))
            &&& text_column(vs, 50, "object_comm"@, told(msg, "_OBJECT_COMM"@))
            &&& text_column(vs, 51, "object_exe"@, told(msg, "_OBJECT_EXE"@))
            &&& text_column(vs, 52, "object_cmdline"@, told(msg, "_OBJECT_CMDLINE"@))
            &&& number_column(
                    vs,
                    53,
                    "object_audit_session"@,
                    told(msg, "_OBJECT_AUDIT_SESSION"@),
                )
            &&& number_column(
                    vs,
                    54,
                    "object_audit_loginuid"@,
                    told(msg, "_OBJECT_AUDIT_LOGINUID"@),
                )
            &&& text_column(
                    vs,
                    55,
                    "object_systemd_cgroup"@,
                    told(msg, "_OBJECT_SYSTEMD_CGROUP"@),
                )
            &&& text_column(
                    vs,
                    56,
                    "object_systemd_session"@,
                    told(msg, "_OBJECT_SYSTEMD_SESSION"@),
                )
            &&& number_column(
                    vs,
                    57,
                    "object_systemd_owner_uid"@,
                    told(msg, "_OBJECT_SYSTEMD_OWNER_UID"@),
                )
            &&& text_column(
                    vs,
                    58,
                    "object_systemd_unit"@,
                    told(msg, "_OBJECT_SYSTEMD_UNIT"@),
                )
            &&& text_column(
                    vs,
                    59,
                    "object_systemd_user_unit"@,
                    told(msg, "_OBJECT_SYSTEMD_USER_UNIT"@),
                )
            &&& number_column(
                    vs,
                    60,
                    "recv_rt_timestamp"@,
                    told(msg, "___REALTIME_TIMESTAMP"@),
                )
            &&& number_column(
                    vs,
                    61,
                    "recv_mt_timestamp"@,
                    told(msg, "___MONOTONIC_TIMESTAMP"@),
                )
        },
{
    if gelf_values(document_columns(), msg, year) is Ok {
        let vs = gelf_values(document_columns(), msg, year)->Ok_0;
        assert({
            &&& time_column(
                    vs,
                    0,
                    "source_timestamp"@,
                    told(msg, "timestamp"@),
                    told(msg, "_SOURCE_REALTIME_TIMESTAMP"@),
                )
        }) by {
            reveal_strlit("timestamp");
            reveal_strlit("_SOURCE_REALTIME_TIMESTAMP");
            lemma_filled(msg, year, vs, 0);
            assert(document_column(0).name == "source_timestamp"@);
            lemma_two(
                document_column(0),
                ConversionView::FloatSecToUsec("timestamp"@),
                ConversionView::Plain("_SOURCE_REALTIME_TIMESTAMP"@),
                msg,
                year,
            );
            lemma_ordinary("timestamp"@);
            lemma_plain("_SOURCE_REALTIME_TIMESTAMP"@, document_column(0).kind, msg, year);
        }
        assert({
            &&& fixed_column(vs, 1, "hostname"@, msg.host)
            &&& wordable(told(msg, "_HOSTNAME"@))
        }) by {
            reveal_strlit("host");
            reveal_strlit("_HOSTNAME");
            lemma_known();
            lemma_filled(msg, year, vs, 1);
            assert(document_column(1).name == "hostname"@);
            lemma_two(
                document_column(1),
                ConversionView::Plain("host"@),
                ConversionView::Plain("_HOSTNAME"@),
                msg,
                year,
            );
            lemma_plain("_HOSTNAME"@, document_column(1).kind, msg, year);
        }
        assert({
            &&& fixed_column(vs, 2, "message"@, msg.short_message)
        }) by {
            reveal_strlit("short_message");
            lemma_known();
            lemma_filled(msg, year, vs, 2);
            assert(document_column(2).name == "message"@);
            lemma_one(document_column(2), ConversionView::Plain("short_message"@), msg, year);
        }
        assert({
            &&& number_column(
                    vs,
                    3,
                    "priority"@,
                    either(told(msg, "level"@), told(msg, "_PRIORITY"@)),
                )
            &&& countable(told(msg, "_PRIORITY"@))
        }) by {
            reveal_strlit("level");
            reveal_strlit("_PRIORITY");
            lemma_filled(msg, year, vs, 3);
            assert(document_column(3).name == "priority"@);
            lemma_two(
                document_column(3),
                ConversionView::Plain("level"@),
                ConversionView::Plain("_PRIORITY"@),
                msg,
                year,
            );
            lemma_plain("level"@, document_column(3).kind, msg, year);
            lemma_plain("_PRIORITY"@, document_column(3).kind, msg, year);
        }
        assert({
            &&& text_column(vs, 4, "full_message"@, told(msg, "full_message"@))
        }) by {
            reveal_strlit("full_message");
            lemma_filled(msg, year, vs, 4);
            assert(document_column(4).name == "full_message"@);
            lemma_one(document_column(4), ConversionView::Plain("full_message"@), msg, year);
            lemma_plain("full_message"@, document_column(4).kind, msg, year);
        }
        assert({
            &&& text_column(vs, 5, "message_id"@, told(msg, "_MESSAGE_ID"@))
        }) by {
            reveal_strlit("_MESSAGE_ID");
            lemma_filled(msg, year, vs, 5);
            assert(document_column(5).name == "message_id"@);
            lemma_one(document_column(5), ConversionView::Plain("_MESSAGE_ID"@), msg, year);
            lemma_plain("_MESSAGE_ID"@, document_column(5).kind, msg, year);
        }
        assert({
            &&& text_column(
                    vs,
                    6,
                    "code_file"@,
                    either(told(msg, "file"@), told(msg, "_CODE_FILE"@)),
                )
            &&& wordable(told(msg, "_CODE_FILE"@))
        }) by {
            reveal_strlit("file");
            reveal_strlit("_CODE_FILE");
            lemma_filled(msg, year, vs, 6);
            assert(document_column(6).name == "code_file"@);
            lemma_two(
                document_column(6),
                ConversionView::Plain("file"@),
                ConversionView::Plain("_CODE_FILE"@),
                msg,
                year,
            );
            lemma_plain("file"@, document_column(6).kind, msg, year);
            lemma_plain("_CODE_FILE"@, document_column(6).kind, msg, year);
        }
        assert({
            &&& number_column(
                    vs,
                    7,
                    "code_line"@,
                    either(told(msg, "line"@), told(msg, "_CODE_LINE"@)),
                )
            &&& countable(told(msg, "_CODE_LINE"@))
        }) by {
            reveal_strlit("line");
            reveal_strlit("_CODE_LINE");
            lemma_filled(msg, year, vs, 7);
            assert(document_column(7).name == "code_line"@);
            lemma_two(
                document_column(7),
                ConversionView::Plain("line"@),
                ConversionView::Plain("_CODE_LINE"@),
                msg,
                year,
            );
            lemma_plain("line"@, document_column(7).kind, msg, year);
            lemma_plain("_CODE_LINE"@, document_column(7).kind, msg, year);
        }
        assert({
            &&& text_column(
                    vs,
                    8,
                    "code_func"@,
                    either(told(msg, "_CODE_FUNC"@), told(msg, "_function"@)),
                )
            &&& wordable(told(msg, "_function"@))
        }) by {
            reveal_strlit("_CODE_FUNC");
            reveal_strlit("_function");
            lemma_filled(msg, year, vs, 8);
            assert(document_column(8).name == "code_func"@);
            lemma_two(
                document_column(8),
                ConversionView::Plain("_CODE_FUNC"@),
                ConversionView::Plain("_function"@),
                msg,
                year,
            );
            lemma_plain("_CODE_FUNC"@, document_column(8).kind, msg, year);
            lemma_plain("_function"@, document_column(8).kind, msg, year);
        }
        assert({
            &&& signed_column(vs, 9, "errno"@, told(msg, "_ERRNO"@))
        }) by {
            reveal_strlit("_ERRNO");
            lemma_filled(msg, year, vs, 9);
            assert(document_column(9).name == "errno"@);
            lemma_one(document_column(9), ConversionView::Plain("_ERRNO"@), msg, year);
            lemma_plain("_ERRNO"@, document_column(9).kind, msg, year);
        }
        assert({
            &&& text_column(vs, 10, "invocation_id"@, told(msg, "_INVOCATION_ID"@))
        }) by {
            reveal_strlit("_INVOCATION_ID");
            lemma_filled(msg, year, vs, 10);
            assert(document_column(10).name == "invocation_id"@);
            lemma_one(
                document_column(10),
                ConversionView::Plain("_INVOCATION_ID"@),
                msg,
                year,
            );
            lemma_plain("_INVOCATION_ID"@, document_column(10).kind, msg, year);
        }
        assert({
            &&& text_column(vs, 11, "user_invocation_id"@, told(msg, "_USER_INVOCATION_ID"@))
        }) by {
            reveal_strlit("_USER_INVOCATION_ID");
            lemma_filled(msg, year, vs, 11);
            assert(document_column(11).name == "user_invocation_id"@);
            lemma_one(
                document_column(11),
                ConversionView::Plain("_USER_INVOCATION_ID"@),
                msg,
                year,
            );
            lemma_plain("_USER_INVOCATION_ID"@, document_column(11).kind, msg, year);
        }
        assert({
            &&& text_column(
                    vs,
                    12,
                    "facility"@,
                    either(
                        told(msg, "facility"@),
                        either(told(msg, "_facility"@), told(msg, "_SYSLOG_FACILITY"@)),
                    ),
                )
            &&& wordable(told(msg, "_facility"@))
            &&& wordable(told(msg, "_SYSLOG_FACILITY"@))
        }) by {
            reveal_strlit("facility");
            reveal_strlit("_facility");
            reveal_strlit("_SYSLOG_FACILITY");
            lemma_filled(msg, year, vs, 12);
            assert(document_column(12).name == "facility"@);
            lemma_three(
                document_column(12),
                ConversionView::Plain("facility"@),
                ConversionView::Plain("_facility"@),
                ConversionView::Plain("_SYSLOG_FACILITY"@),
                msg,
                year,
            );
            lemma_plain("facility"@, document_column(12).kind, msg, year);
            lemma_plain("_facility"@, document_column(12).kind, msg, year);
            lemma_plain("_SYSLOG_FACILITY"@, document_column(12).kind, msg, year);
        }
        assert({
            &&& text_column(vs, 13, "syslog_identifier"@, told(msg, "_SYSLOG_IDENTIFIER"@))
        }) by {
            reveal_strlit("_SYSLOG_IDENTIFIER");
            lemma_filled(msg, year, vs, 13);
            assert(document_column(13).name == "syslog_identifier"@);
            lemma_one(
                document_column(13),
                ConversionView::Plain("_SYSLOG_IDENTIFIER"@),
                msg,
                year,
            );
            lemma_plain("_SYSLOG_IDENTIFIER"@, document_column(13).kind, msg, year);
        }
        assert({
            &&& number_column(vs, 14, "syslog_pid"@, told(msg, "_SYSLOG_PID"@))
        }) by {
            reveal_strlit("_SYSLOG_PID");
            lemma_filled(msg, year, vs, 14);
            assert(document_column(14).name == "syslog_pid"@);
            lemma_one(document_column(14), ConversionView::Plain("_SYSLOG_PID"@), msg, year);
            lemma_plain("_SYSLOG_PID"@, document_column(14).kind, msg, year);
        }
        assert({
            &&& syslog_time_column(
                    vs,
                    15,
                    "syslog_timestamp"@,
                    told(msg, "_SYSLOG_TIMESTAMP"@),
                    year,
                )
        }) by {
            reveal_strlit("_SYSLOG_TIMESTAMP");
            lemma_filled(msg, year, vs, 15);
            assert(document_column(15).name == "syslog_timestamp"@);
            lemma_one(
                document_column(15),
                ConversionView::SyslogTimestamp("_SYSLOG_TIMESTAMP"@),
                msg,
                year,
            );
            lemma_ordinary("_SYSLOG_TIMESTAMP"@);
        }
        assert({
            &&& number_column(vs, 16, "pid"@, told(msg, "_PID"@))
        }) by {
            reveal_strlit("_PID");
            lemma_filled(msg, year, vs, 16);
            assert(document_column(16).name == "pid"@);
            lemma_one(document_column(16), ConversionView::Plain("_PID"@), msg, year);
            lemma_plain("_PID"@, document_column(16).kind, msg, year);
        }
        assert({
            &&& number_column(vs, 17, "uid"@, told(msg, "_UID"@))
        }) by {
            reveal_strlit("_UID");
            lemma_filled(msg, year, vs, 17);
            assert(document_column(17).name == "uid"@);
            lemma_one(document_column(17), ConversionView::Plain("_UID"@), msg, year);
            lemma_plain("_UID"@, document_column(17).kind, msg, year);
        }
        assert({
            &&& number_column(vs, 18, "gid"@, told(msg, "_GID"@))
        }) by {
            reveal_strlit("_GID");
            lemma_filled(msg, year, vs, 18);
            assert(document_column(18).name == "gid"@);
            lemma_one(document_column(18), ConversionView::Plain("_GID"@), msg, year);
            lemma_plain("_GID"@, document_column(18).kind, msg, year);
        }
        assert({
            &&& text_column(vs, 19, "comm"@, told(msg, "_COMM"@))
        }) by {
            reveal_strlit("_COMM");
            lemma_filled(msg, year, vs, 19);
            assert(document_column(19).name == "comm"@);
            lemma_one(document_column(19), ConversionView::Plain("_COMM"@), msg, year);
            lemma_plain("_COMM"@, document_column(19).kind, msg, year);
        }
        assert({
            &&& text_column(vs, 20, "exe"@, told(msg, "_EXE"@))
        }) by {
            reveal_strlit("_EXE");
            lemma_filled(msg, year, vs, 20);
            assert(document_column(20).name == "exe"@);
            lemma_one(document_column(20), ConversionView::Plain("_EXE"@), msg, year);
            lemma_plain("_EXE"@, document_column(20).kind, msg, year);
        }
        assert({
            &&& text_column(vs, 21, "cmdline"@, told(msg, "_CMDLINE"@))
        }) by {
            reveal_strlit("_CMDLINE");
            lemma_filled(msg, year, vs, 21);
            assert(document_column(21).name == "cmdline"@);
            lemma_one(document_column(21), ConversionView::Plain("_CMDLINE"@), msg, year);
            lemma_plain("_CMDLINE"@, document_column(21).kind, msg, year);
        }
        assert({
            &&& hex_column(vs, 22, "cap_effective"@, told(msg, "_CAP_EFFECTIVE"@))
        }) by {
            reveal_strlit("_CAP_EFFECTIVE");
            lemma_filled(msg, year, vs, 22);
            assert(document_column(22).name == "cap_effective"@);
            lemma_one(
                document_column(22),
                ConversionView::HexToUint("_CAP_EFFECTIVE"@),
                msg,
                year,
            );
            lemma_ordinary("_CAP_EFFECTIVE"@);
            assert forall|n: u64| says_hex(told(msg, "_CAP_EFFECTIVE"@)->0, n) && told(
                msg,
                "_CAP_EFFECTIVE"@,
            ) is Some implies vs[22] == Some(FieldView::U64(n)) by {
                crate::number::unsigned_read_back(n, 16);
            }
        }
        assert({
            &&& number_column(vs, 23, "audit_session"@, told(msg, "_AUDIT_SESSION"@))
        }) by {
            reveal_strlit("_AUDIT_SESSION");
            lemma_filled(msg, year, vs, 23);
            assert(document_column(23).name == "audit_session"@);
            lemma_one(
                document_column(23),
                ConversionView::Plain("_AUDIT_SESSION"@),
                msg,
                year,
            );
            lemma_plain("_AUDIT_SESSION"@, document_column(23).kind, msg, year);
        }
        assert({
            &&& number_column(vs, 24, "audit_loginuid"@, told(msg, "_AUDIT_LOGINUID"@))
        }) by {
            reveal_strlit("_AUDIT_LOGINUID");
            lemma_filled(msg, year, vs, 24);
            assert(document_column(24).name == "audit_loginuid"@);
            lemma_one(
                document_column(24),
                ConversionView::Plain("_AUDIT_LOGINUID"@),
                msg,
                year,
            );
            lemma_plain("_AUDIT_LOGINUID"@, document_column(24).kind, msg, year);
        }
        assert({
            &&& text_column(vs, 25, "systemd_cgroup"@, told(msg, "_SYSTEMD_CGROUP"@))
        }) by {
            reveal_strlit("_SYSTEMD_CGROUP");
            lemma_filled(msg, year, vs, 25);
            assert(document_column(25).name == "systemd_cgroup"@);
            lemma_one(
                document_column(25),
                ConversionView::Plain("_SYSTEMD_CGROUP"@),
                msg,
                year,
            );
            lemma_plain("_SYSTEMD_CGROUP"@, document_column(25).kind, msg, year);
        }
        assert({
            &&& text_column(vs, 26, "systemd_slice"@, told(msg, "_SYSTEMD_SLICE"@))
        }) by {
            reveal_strlit("_SYSTEMD_SLICE");
            lemma_filled(msg, year, vs, 26);
            assert(document_column(26).name == "systemd_slice"@);
            lemma_one(
                document_column(26),
                ConversionView::Plain("_SYSTEMD_SLICE"@),
                msg,
                year,
            );
            lemma_plain("_SYSTEMD_SLICE"@, document_column(26).kind, msg, year);
        }
        assert({
            &&& text_column(vs, 27, "systemd_unit"@, told(msg, "_SYSTEMD_UNIT"@))
        }) by {
            reveal_strlit("_SYSTEMD_UNIT");
            lemma_filled(msg, year, vs, 27);
            assert(document_column(27).name == "systemd_unit"@);
            lemma_one(document_column(27), ConversionView::Plain("_SYSTEMD_UNIT"@), msg, year);
            lemma_plain("_SYSTEMD_UNIT"@, document_column(27).kind, msg, year);
        }
        assert({
            &&& text_column(vs, 28, "systemd_user_unit"@, told(msg, "_SYSTEMD_USER_UNIT"@))
        }) by {
            reveal_strlit("_SYSTEMD_USER_UNIT");
            lemma_filled(msg, year, vs, 28);
            assert(document_column(28).name == "systemd_user_unit"@);
            lemma_one(
                document_column(28),
                ConversionView::Plain("_SYSTEMD_USER_UNIT"@),
                msg,
                year,
            );
            lemma_plain("_SYSTEMD_USER_UNIT"@, document_column(28).kind, msg, year);
        }
        assert({
            &&& text_column(vs, 29, "systemd_user_slice"@, told(msg, "_SYSTEMD_USER_SLICE"@))
        }) by {
            reveal_strlit("_SYSTEMD_USER_SLICE");
            lemma_filled(msg, year, vs, 29);
            assert(document_column(29).name == "systemd_user_slice"@);
            lemma_one(
                document_column(29),
                ConversionView::Plain("_SYSTEMD_USER_SLICE"@),
                msg,
                year,
            );
            lemma_plain("_SYSTEMD_USER_SLICE"@, document_column(29).kind, msg, year);
        }
        assert({
            &&& text_column(vs, 30, "systemd_session"@, told(msg, "_SYSTEMD_SESSION"@))
        }) by {
            reveal_strlit("_SYSTEMD_SESSION");
            lemma_filled(msg, year, vs, 30);
            assert(document_column(30).name == "systemd_session"@);
            lemma_one(
                document_column(30),
                ConversionView::Plain("_SYSTEMD_SESSION"@),
                msg,
                year,
            );
            lemma_plain("_SYSTEMD_SESSION"@, document_column(30).kind, msg, year);
        }
        assert({
            &&& number_column(vs, 31, "systemd_owner_uid"@, told(msg, "_SYSTEMD_OWNER_UID"@))
        }) by {
            reveal_strlit("_SYSTEMD_OWNER_UID");
            lemma_filled(msg, year, vs, 31);
            assert(document_column(31).name == "systemd_owner_uid"@);
            lemma_one(
                document_column(31),
                ConversionView::Plain("_SYSTEMD_OWNER_UID"@),
                msg,
                year,
            );
            lemma_plain("_SYSTEMD_OWNER_UID"@, document_column(31).kind, msg, year);
        }
        assert({
            &&& text_column(vs, 32, "selinux_context"@, told(msg, "_SELINUX_CONTEXT"@))
        }) by {
            reveal_strlit("_SELINUX_CONTEXT");
            lemma_filled(msg, year, vs, 32);
            assert(document_column(32).name == "selinux_context"@);
            lemma_one(
                document_column(32),
                ConversionView::Plain("_SELINUX_CONTEXT"@),
                msg,
                year,
            );
            lemma_plain("_SELINUX_CONTEXT"@, document_column(32).kind, msg, year);
        }
        assert({
            &&& text_column(vs, 33, "boot_id"@, told(msg, "_BOOT_ID"@))
        }) by {
            reveal_strlit("_BOOT_ID");
            lemma_filled(msg, year, vs, 33);
            assert(document_column(33).name == "boot_id"@);
            lemma_one(document_column(33), ConversionView::Plain("_BOOT_ID"@), msg, year);
            lemma_plain("_BOOT_ID"@, document_column(33).kind, msg, year);
        }
        assert({
            &&& text_column(vs, 34, "machine_id"@, told(msg, "_MACHINE_ID"@))
        }) by {
            reveal_strlit("_MACHINE_ID");
            lemma_filled(msg, year, vs, 34);
            assert(document_column(34).name == "machine_id"@);
            lemma_one(document_column(34), ConversionView::Plain("_MACHINE_ID"@), msg, year);
            lemma_plain("_MACHINE_ID"@, document_column(34).kind, msg, year);
        }
        assert({
            &&& text_column(
                    vs,
                    35,
                    "systemd_invocation_id"@,
                    told(msg, "_SYSTEMD_INVOCATION_ID"@),
                )
        }) by {
            reveal_strlit("_SYSTEMD_INVOCATION_ID");
            lemma_filled(msg, year, vs, 35);
            assert(document_column(35).name == "systemd_invocation_id"@);
            lemma_one(
                document_column(35),
                ConversionView::Plain("_SYSTEMD_INVOCATION_ID"@),
                msg,
                year,
            );
            lemma_plain("_SYSTEMD_INVOCATION_ID"@, document_column(35).kind, msg, year);
        }
        assert({
            &&& text_column(vs, 36, "transport"@, told(msg, "_TRANSPORT"@))
        }) by {
            reveal_strlit("_TRANSPORT");
            lemma_filled(msg, year, vs, 36);
            assert(document_column(36).name == "transport"@);
            lemma_one(document_column(36), ConversionView::Plain("_TRANSPORT"@), msg, year);
            lemma_plain("_TRANSPORT"@, document_column(36).kind, msg, year);
        }
        assert({
            &&& text_column(vs, 37, "stream_id"@, told(msg, "_STREAM_ID"@))
        }) by {
            reveal_strlit("_STREAM_ID");
            lemma_filled(msg, year, vs, 37);
            assert(document_column(37).name == "stream_id"@);
            lemma_one(document_column(37), ConversionView::Plain("_STREAM_ID"@), msg, year);
            lemma_plain("_STREAM_ID"@, document_column(37).kind, msg, year);
        }
        assert({
            &&& text_column(vs, 38, "line_break"@, told(msg, "_LINE_BREAK"@))
        }) by {
            reveal_strlit("_LINE_BREAK");
            lemma_filled(msg, year, vs, 38);
            assert(document_column(38).name == "line_break"@);
            lemma_one(document_column(38), ConversionView::Plain("_LINE_BREAK"@), msg, year);
            lemma_plain("_LINE_BREAK"@, document_column(38).kind, msg, year);
        }
        assert({
            &&& text_column(vs, 39, "namespace"@, told(msg, "_NAMESPACE"@))
        }) by {
            reveal_strlit("_NAMESPACE");
            lemma_filled(msg, year, vs, 39);
            assert(document_column(39).name == "namespace"@);
            lemma_one(document_column(39), ConversionView::Plain("_NAMESPACE"@), msg, year);
            lemma_plain("_NAMESPACE"@, document_column(39).kind, msg, year);
        }
        assert({
            &&& text_column(vs, 40, "kernel_device"@, told(msg, "_KERNEL_DEVICE"@))
        }) by {
            reveal_strlit("_KERNEL_DEVICE");
            lemma_filled(msg, year, vs, 40);
            assert(document_column(40).name == "kernel_device"@);
            lemma_one(
                document_column(40),
                ConversionView::Plain("_KERNEL_DEVICE"@),
                msg,
                year,
            );
            lemma_plain("_KERNEL_DEVICE"@, document_column(40).kind, msg, year);
        }
        assert({
            &&& text_column(vs, 41, "kernel_subsystem"@, told(msg, "_KERNEL_SUBSYSTEM"@))
        }) by {
            reveal_strlit("_KERNEL_SUBSYSTEM");
            lemma_filled(msg, year, vs, 41);
            assert(document_column(41).name == "kernel_subsystem"@);
            lemma_one(
                document_column(41),
                ConversionView::Plain("_KERNEL_SUBSYSTEM"@),
                msg,
                year,
            );
            lemma_plain("_KERNEL_SUBSYSTEM"@, document_column(41).kind, msg, year);
        }
        assert({
            &&& text_column(vs, 42, "udev_sysname"@, told(msg, "_UDEV_SYSNAME"@))
        }) by {
            reveal_strlit("_UDEV_SYSNAME");
            lemma_filled(msg, year, vs, 42);
            assert(document_column(42).name == "udev_sysname"@);
            lemma_one(document_column(42), ConversionView::Plain("_UDEV_SYSNAME"@), msg, year);
            lemma_plain("_UDEV_SYSNAME"@, document_column(42).kind, msg, year);
        }
        assert({
            &&& text_column(vs, 43, "udev_devnode"@, told(msg, "_UDEV_DEVNODE"@))
        }) by {
            reveal_strlit("_UDEV_DEVNODE");
            lemma_filled(msg, year, vs, 43);
            assert(document_column(43).name == "udev_devnode"@);
            lemma_one(document_column(43), ConversionView::Plain("_UDEV_DEVNODE"@), msg, year);
            lemma_plain("_UDEV_DEVNODE"@, document_column(43).kind, msg, year);
        }
        assert({
            &&& text_column(vs, 44, "udev_devlink"@, told(msg, "_UDEV_DEVLINK"@))
        }) by {
            reveal_strlit("_UDEV_DEVLINK");
            lemma_filled(msg, year, vs, 44);
            assert(document_column(44).name == "udev_devlink"@);
            lemma_one(document_column(44), ConversionView::Plain("_UDEV_DEVLINK"@), msg, year);
            lemma_plain("_UDEV_DEVLINK"@, document_column(44).kind, msg, year);
        }
        assert({
            &&& text_column(vs, 45, "coredump_unit"@, told(msg, "_COREDUMP_UNIT"@))
        }) by {
            reveal_strlit("_COREDUMP_UNIT");
            lemma_filled(msg, year, vs, 45);
            assert(document_column(45).name == "coredump_unit"@);
            lemma_one(
                document_column(45),
                ConversionView::Plain("_COREDUMP_UNIT"@),
                msg,
                year,
            );
            lemma_plain("_COREDUMP_UNIT"@, document_column(45).kind, msg, year);
        }
        assert({
            &&& text_column(vs, 46, "coredump_user_unit"@, told(msg, "_COREDUMP_USER_UNIT"@))
        }) by {
            reveal_strlit("_COREDUMP_USER_UNIT");
            lemma_filled(msg, year, vs, 46);
            assert(document_column(46).name == "coredump_user_unit"@);
            lemma_one(
                document_column(46),
                ConversionView::Plain("_COREDUMP_USER_UNIT"@),
                msg,
                year,
            );
            lemma_plain("_COREDUMP_USER_UNIT"@, document_column(46).kind, msg, year);
        }
        assert({
            &&& number_column(vs, 47, "object_pid"@, told(msg, "_OBJECT_PID"@))
        }) by {
            reveal_strlit("_OBJECT_PID");
            lemma_filled(msg, year, vs, 47);
            assert(document_column(47).name == "object_pid"@);
            lemma_one(document_column(47), ConversionView::Plain("_OBJECT_PID"@), msg, year);
            lemma_plain("_OBJECT_PID"@, document_column(47).kind, msg, year);
        }
        assert({
            &&& number_column(vs, 48, "object_uid"@, told(msg, "_OBJECT_UID"@))
        }) by {
            reveal_strlit("_OBJECT_UID");
            lemma_filled(msg, year, vs, 48);
            assert(document_column(48).name == "object_uid"@);
            lemma_one(document_column(48), ConversionView::Plain("_OBJECT_UID"@), msg, year);
            lemma_plain("_OBJECT_UID"@, document_column(48).kind, msg, year);
        }
        assert({
            &&& number_column(vs, 49, "object_gid"@, told(msg, "_OBJECT_GID"@))
        }) by {
            reveal_strlit("_OBJECT_GID");
            lemma_filled(msg, year, vs, 49);
            assert(document_column(49).name == "object_gid"@);
            lemma_one(document_column(49), ConversionView::Plain("_OBJECT_GID"@), msg, year);
            lemma_plain("_OBJECT_GID"@, document_column(49).kind, msg, year);
        }
        assert({
            &&& text_column(vs, 50, "object_comm"@, told(msg, "_OBJECT_COMM"@))
        }) by {
            reveal_strlit("_OBJECT_COMM");
            lemma_filled(msg, year, vs, 50);
            assert(document_column(50).name == "object_comm"@);
            lemma_one(document_column(50), ConversionView::Plain("_OBJECT_COMM"@), msg, year);
            lemma_plain("_OBJECT_COMM"@, document_column(50).kind, msg, year);
        }
        assert({
            &&& text_column(vs, 51, "object_exe"@, told(msg, "_OBJECT_EXE"@))
        }) by {
            reveal_strlit("_OBJECT_EXE");
            lemma_filled(msg, year, vs, 51);
            assert(document_column(51).name == "object_exe"@);
            lemma_one(document_column(51), ConversionView::Plain("_OBJECT_EXE"@), msg, year);
            lemma_plain("_OBJECT_EXE"@, document_column(51).kind, msg, year);
        }
        assert({
            &&& text_column(vs, 52, "object_cmdline"@, told(msg, "_OBJECT_CMDLINE"@))
        }) by {
            reveal_strlit("_OBJECT_CMDLINE");
            lemma_filled(msg, year, vs, 52);
            assert(document_column(52).name == "object_cmdline"@);
            lemma_one(
                document_column(52),
                ConversionView::Plain("_OBJECT_CMDLINE"@),
                msg,
                year,
            );
            lemma_plain("_OBJECT_CMDLINE"@, document_column(52).kind, msg, year);
        }
        assert({
            &&& number_column(
                    vs,
                    53,
                    "object_audit_session"@,
                    told(msg, "_OBJECT_AUDIT_SESSION"@),
                )
        }) by {
            reveal_strlit("_OBJECT_AUDIT_SESSION");
            lemma_filled(msg, year, vs, 53);
            assert(document_column(53).name == "object_audit_session"@);
            lemma_one(
                document_column(53),
                ConversionView::Plain("_OBJECT_AUDIT_SESSION"@),
                msg,
                year,
            );
            lemma_plain("_OBJECT_AUDIT_SESSION"@, document_column(53).kind, msg, year);
        }
        assert({
            &&& number_column(
                    vs,
                    54,
                    "object_audit_loginuid"@,
                    told(msg, "_OBJECT_AUDIT_LOGINUID"@),
                )
        }) by {
            reveal_strlit("_OBJECT_AUDIT_LOGINUID");
            lemma_filled(msg, year, vs, 54);
            assert(document_column(54).name == "object_audit_loginuid"@);
            lemma_one(
                document_column(54),
                ConversionView::Plain("_OBJECT_AUDIT_LOGINUID"@),
                msg,
                year,
            );
            lemma_plain("_OBJECT_AUDIT_LOGINUID"@, document_column(54).kind, msg, year);
        }
        assert({
            &&& text_column(
                    vs,
                    55,
                    "object_systemd_cgroup"@,
                    told(msg, "_OBJECT_SYSTEMD_CGROUP"@),
                )
        }) by {
            reveal_strlit("_OBJECT_SYSTEMD_CGROUP");
            lemma_filled(msg, year, vs, 55);
            assert(document_column(55).name == "object_systemd_cgroup"@);
            lemma_one(
                document_column(55),
                ConversionView::Plain("_OBJECT_SYSTEMD_CGROUP"@),
                msg,
                year,
            );
            lemma_plain("_OBJECT_SYSTEMD_CGROUP"@, document_column(55).kind, msg, year);
        }
        assert({
            &&& text_column(
                    vs,
                    56,
                    "object_systemd_session"@,
                    told(msg, "_OBJECT_SYSTEMD_SESSION"@),
                )
        }) by {
            reveal_strlit("_OBJECT_SYSTEMD_SESSION");
            lemma_filled(msg, year, vs, 56);
            assert(document_column(56).name == "object_systemd_session"@);
            lemma_one(
                document_column(56),
                ConversionView::Plain("_OBJECT_SYSTEMD_SESSION"@),
                msg,
                year,
            );
            lemma_plain("_OBJECT_SYSTEMD_SESSION"@, document_column(56).kind, msg, year);
        }
        assert({
            &&& number_column(
                    vs,
                    57,
                    "object_systemd_owner_uid"@,
                    told(msg, "_OBJECT_SYSTEMD_OWNER_UID"@),
                )
        }) by {
            reveal_strlit("_OBJECT_SYSTEMD_OWNER_UID");
            lemma_filled(msg, year, vs, 57);
            assert(document_column(57).name == "object_systemd_owner_uid"@);
            lemma_one(
                document_column(57),
                ConversionView::Plain("_OBJECT_SYSTEMD_OWNER_UID"@),
                msg,
                year,
            );
            lemma_plain("_OBJECT_SYSTEMD_OWNER_UID"@, document_column(57).kind, msg, year);
        }
        assert({
            &&& text_column(
                    vs,
                    58,
                    "object_systemd_unit"@,
                    told(msg, "_OBJECT_SYSTEMD_UNIT"@),
                )
        }) by {
            reveal_strlit("_OBJECT_SYSTEMD_UNIT");
            lemma_filled(msg, year, vs, 58);
            assert(document_column(58).name == "object_systemd_unit"@);
            lemma_one(
                document_column(58),
                ConversionView::Plain("_OBJECT_SYSTEMD_UNIT"@),
                msg,
                year,
            );
            lemma_plain("_OBJECT_SYSTEMD_UNIT"@, document_column(58).kind, msg, year);
        }
        assert({
            &&& text_column(
                    vs,
                    59,
                    "object_systemd_user_unit"@,
                    told(msg, "_OBJECT_SYSTEMD_USER_UNIT"@),
                )
        }) by {
            reveal_strlit("_OBJECT_SYSTEMD_USER_UNIT");
            lemma_filled(msg, year, vs, 59);
            assert(document_column(59).name == "object_systemd_user_unit"@);
            lemma_one(
                document_column(59),
                ConversionView::Plain("_OBJECT_SYSTEMD_USER_UNIT"@),
                msg,
                year,
            );
            lemma_plain("_OBJECT_SYSTEMD_USER_UNIT"@, document_column(59).kind, msg, year);
        }
        assert({
            &&& number_column(
                    vs,
                    60,
                    "recv_rt_timestamp"@,
                    told(msg, "___REALTIME_TIMESTAMP"@),
                )
        }) by {
            reveal_strlit("___REALTIME_TIMESTAMP");
            lemma_filled(msg, year, vs, 60);
            assert(document_column(60).name == "recv_rt_timestamp"@);
            lemma_one(
                document_column(60),
                ConversionView::Plain("___REALTIME_TIMESTAMP"@),
                msg,
                year,
            );
            lemma_plain("___REALTIME_TIMESTAMP"@, document_column(60).kind, msg, year);
        }
        assert({
            &&& number_column(
                    vs,
                    61,
                    "recv_mt_timestamp"@,
                    told(msg, "___MONOTONIC_TIMESTAMP"@),
                )
        }) by {
            reveal_strlit("___MONOTONIC_TIMESTAMP");
            lemma_filled(msg, year, vs, 61);
            assert(document_column(61).name == "recv_mt_timestamp"@);
            lemma_one(
                document_column(61),
                ConversionView::Plain("___MONOTONIC_TIMESTAMP"@),
                msg,
                year,
            );
            lemma_plain("___MONOTONIC_TIMESTAMP"@, document_column(61).kind, msg, year);
        }
        lemma_filled(msg, year, vs, 0);
        let columns = document_columns();
        lemma_values(Seq::new(columns.len(), |i: int| gelf_value(columns[i], msg, year)), 0);
    }
}

/// Whether a value is a number or denotes one, where there is one.
pub open spec fn numeric(j: Option<JsonView>) -> bool {
    j is Some ==> exists|n: u64| #[trigger] says(j->0, n)
}

/// Whether a value is a number with its sign or denotes one, where there is one.
pub open spec fn numeric_signed(j: Option<JsonView>) -> bool {
    j is Some ==> exists|n: i64| #[trigger] says_signed(j->0, n)
}

/// Whether a value is a number or denotes one in base sixteen, where there is one.
pub open spec fn numeric_hex(j: Option<JsonView>) -> bool {
    j is Some ==> exists|n: u64| #[trigger] says_hex(j->0, n)
}

/// Whether a value is so many seconds, where there is one.
pub open spec fn lasting(j: Option<JsonView>) -> bool {
    match j {
        Some(JsonView::Number { micros, .. }) | Some(JsonView::String { micros, .. }) => {
            micros is Some
        },
        None => true,
        _ => false,
    }
}

/// A GELF message becomes a document where it tells each column what it can hold, and
/// anything under other names.
#[verifier::rlimit(100)]
#[verifier::spinoff_prover]
pub proof fn readable_message_becomes_document(msg: GelfView, year: Option<Seq<char>>)
    requires
        lasting(told(msg, "timestamp"@)),
        numeric(told(msg, "_SOURCE_REALTIME_TIMESTAMP"@)),
        wordable(told(msg, "_HOSTNAME"@)),
        numeric(told(msg, "level"@)),
        numeric(told(msg, "_PRIORITY"@)),
        wordable(told(msg, "full_message"@)),
        wordable(told(msg, "_MESSAGE_ID"@)),
        wordable(told(msg, "file"@)),
        wordable(told(msg, "_CODE_FILE"@)),
        numeric(told(msg, "line"@)),
        numeric(told(msg, "_CODE_LINE"@)),
        wordable(told(msg, "_CODE_FUNC"@)),
        wordable(told(msg, "_function"@)),
        numeric_signed(told(msg, "_ERRNO"@)),
        wordable(told(msg, "_INVOCATION_ID"@)),
        wordable(told(msg, "_USER_INVOCATION_ID"@)),
        wordable(told(msg, "facility"@)),
        wordable(told(msg, "_facility"@)),
        wordable(told(msg, "_SYSLOG_FACILITY"@)),
        wordable(told(msg, "_SYSLOG_IDENTIFIER"@)),
        numeric(told(msg, "_SYSLOG_PID"@)),
        numeric(told(msg, "_PID"@)),
        numeric(told(msg, "_UID"@)),
        numeric(told(msg, "_GID"@)),
        wordable(told(msg, "_COMM"@)),
        wordable(told(msg, "_EXE"@)),
        wordable(told(msg, "_CMDLINE"@)),
        numeric_hex(told(msg, "_CAP_EFFECTIVE"@)),
        numeric(told(msg, "_AUDIT_SESSION"@)),
        numeric(told(msg, "_AUDIT_LOGINUID"@)),
        wordable(told(msg, "_SYSTEMD_CGROUP"@)),
        wordable(told(msg, "_SYSTEMD_SLICE"@)),
        wordable(told(msg, "_SYSTEMD_UNIT"@)),
        wordable(told(msg, "_SYSTEMD_USER_UNIT"@)),
        wordable(told(msg, "_SYSTEMD_USER_SLICE"@)),
        wordable(told(msg, "_SYSTEMD_SESSION"@)),
        numeric(told(msg, "_SYSTEMD_OWNER_UID"@)),
        wordable(told(msg, "_SELINUX_CONTEXT"@)),
        wordable(told(msg, "_BOOT_ID"@)),
        wordable(told(msg, "_MACHINE_ID"@)),
        wordable(told(msg, "_SYSTEMD_INVOCATION_ID"@)),
        wordable(told(msg, "_TRANSPORT"@)),
        wordable(told(msg, "_STREAM_ID"@)),
        wordable(told(msg, "_LINE_BREAK"@)),
        wordable(told(msg, "_NAMESPACE"@)),
        wordable(told(msg, "_KERNEL_DEVICE"@)),
        wordable(told(msg, "_KERNEL_SUBSYSTEM"@)),
        wordable(told(msg, "_UDEV_SYSNAME"@)),
        wordable(told(msg, "_UDEV_DEVNODE"@)),
        wordable(told(msg, "_UDEV_DEVLINK"@)),
        wordable(told(msg, "_COREDUMP_UNIT"@)),
        wordable(told(msg, "_COREDUMP_USER_UNIT"@)),
        numeric(told(msg, "_OBJECT_PID"@)),
        numeric(told(msg, "_OBJECT_UID"@)),
        numeric(told(msg, "_OBJECT_GID"@)),
        wordable(told(msg, "_OBJECT_COMM"@)),
        wordable(told(msg, "_OBJECT_EXE"@)),
        wordable(told(msg, "_OBJECT_CMDLINE"@)),
        numeric(told(msg, "_OBJECT_AUDIT_SESSION"@)),
        numeric(told(msg, "_OBJECT_AUDIT_LOGINUID"@)),
        wordable(told(msg, "_OBJECT_SYSTEMD_CGROUP"@)),
        wordable(told(msg, "_OBJECT_SYSTEMD_SESSION"@)),
        numeric(told(msg, "_OBJECT_SYSTEMD_OWNER_UID"@)),
        wordable(told(msg, "_OBJECT_SYSTEMD_UNIT"@)),
        wordable(told(msg, "_OBJECT_SYSTEMD_USER_UNIT"@)),
        numeric(told(msg, "___REALTIME_TIMESTAMP"@)),
        numeric(told(msg, "___MONOTONIC_TIMESTAMP"@)),
    ensures
        (match told(msg, "_SYSLOG_TIMESTAMP"@) {
            None => true,
            Some(JsonView::String { text, .. }) => {
                ||| rfc3339(text) matches Some(t) && t.unix_nanos is Some
                ||| rfc3339(text) is None && rfc2822(text) is Some && rfc2822(text)->0 is Some
            },
            _ => false,
        }) ==> gelf_values(document_columns(), msg, year) is Ok,
{
    if match told(msg, "_SYSLOG_TIMESTAMP"@) {
        None => true,
        Some(JsonView::String { text, .. }) => {
            ||| rfc3339(text) matches Some(t) && t.unix_nanos is Some
            ||| rfc3339(text) is None && rfc2822(text) is Some && rfc2822(text)->0 is Some
        },
        _ => false,
    } {
        let columns = document_columns();
        let results = Seq::new(columns.len(), |i: int| gelf_value(columns[i], msg, year));
        assert(results[0] is Ok) by {
            reveal_strlit("timestamp");
            reveal_strlit("_SOURCE_REALTIME_TIMESTAMP");
            lemma_two(
                document_column(0),
                ConversionView::FloatSecToUsec("timestamp"@),
                ConversionView::Plain("_SOURCE_REALTIME_TIMESTAMP"@),
                msg,
                year,
            );
            lemma_ordinary("timestamp"@);
            lemma_plain("_SOURCE_REALTIME_TIMESTAMP"@, document_column(0).kind, msg, year);
        }
        assert(results[1] is Ok) by {
            lemma_known();
            reveal_strlit("host");
            reveal_strlit("_HOSTNAME");
            lemma_two(
                document_column(1),
                ConversionView::Plain("host"@),
                ConversionView::Plain("_HOSTNAME"@),
                msg,
                year,
            );
            lemma_plain("_HOSTNAME"@, document_column(1).kind, msg, year);
        }
        assert(results[2] is Ok) by {
            lemma_known();
            reveal_strlit("short_message");
            lemma_one(document_column(2), ConversionView::Plain("short_message"@), msg, year);
        }
        assert(results[3] is Ok) by {
            reveal_strlit("level");
            reveal_strlit("_PRIORITY");
            lemma_two(
                document_column(3),
                ConversionView::Plain("level"@),
                ConversionView::Plain("_PRIORITY"@),
                msg,
                year,
            );
            lemma_plain("level"@, document_column(3).kind, msg, year);
            lemma_plain("_PRIORITY"@, document_column(3).kind, msg, year);
        }
        assert(results[4] is Ok) by {
            reveal_strlit("full_message");
            lemma_one(document_column(4), ConversionView::Plain("full_message"@), msg, year);
            lemma_plain("full_message"@, document_column(4).kind, msg, year);
        }
        assert(results[5] is Ok) by {
            reveal_strlit("_MESSAGE_ID");
            lemma_one(document_column(5), ConversionView::Plain("_MESSAGE_ID"@), msg, year);
            lemma_plain("_MESSAGE_ID"@, document_column(5).kind, msg, year);
        }
        assert(results[6] is Ok) by {
            reveal_strlit("file");
            reveal_strlit("_CODE_FILE");
            lemma_two(
                document_column(6),
                ConversionView::Plain("file"@),
                ConversionView::Plain("_CODE_FILE"@),
                msg,
                year,
            );
            lemma_plain("file"@, document_column(6).kind, msg, year);
            lemma_plain("_CODE_FILE"@, document_column(6).kind, msg, year);
        }
        assert(results[7] is Ok) by {
            reveal_strlit("line");
            reveal_strlit("_CODE_LINE");
            lemma_two(
                document_column(7),
                ConversionView::Plain("line"@),
                ConversionView::Plain("_CODE_LINE"@),
                msg,
                year,
            );
            lemma_plain("line"@, document_column(7).kind, msg, year);
            lemma_plain("_CODE_LINE"@, document_column(7).kind, msg, year);
        }
        assert(results[8] is Ok) by {
            reveal_strlit("_CODE_FUNC");
            reveal_strlit("_function");
            lemma_two(
                document_column(8),
                ConversionView::Plain("_CODE_FUNC"@),
                ConversionView::Plain("_function"@),
                msg,
                year,
            );
            lemma_plain("_CODE_FUNC"@, document_column(8).kind, msg, year);
            lemma_plain("_function"@, document_column(8).kind, msg, year);
        }
        assert(results[9] is Ok) by {
            reveal_strlit("_ERRNO");
            lemma_one(document_column(9), ConversionView::Plain("_ERRNO"@), msg, year);
            lemma_plain("_ERRNO"@, document_column(9).kind, msg, year);
        }
        assert(results[10] is Ok) by {
            reveal_strlit("_INVOCATION_ID");
            lemma_one(
                document_column(10),
                ConversionView::Plain("_INVOCATION_ID"@),
                msg,
                year,
            );
            lemma_plain("_INVOCATION_ID"@, document_column(10).kind, msg, year);
        }
        assert(results[11] is Ok) by {
            reveal_strlit("_USER_INVOCATION_ID");
            lemma_one(
                document_column(11),
                ConversionView::Plain("_USER_INVOCATION_ID"@),
                msg,
                year,
            );
            lemma_plain("_USER_INVOCATION_ID"@, document_column(11).kind, msg, year);
        }
        assert(results[12] is Ok) by {
            reveal_strlit("facility");
            reveal_strlit("_facility");
            reveal_strlit("_SYSLOG_FACILITY");
            lemma_three(
                document_column(12),
                ConversionView::Plain("facility"@),
                ConversionView::Plain("_facility"@),
                ConversionView::Plain("_SYSLOG_FACILITY"@),
                msg,
                year,
            );
            lemma_plain("facility"@, document_column(12).kind, msg, year);
            lemma_plain("_facility"@, document_column(12).kind, msg, year);
            lemma_plain("_SYSLOG_FACILITY"@, document_column(12).kind, msg, year);
        }
        assert(results[13] is Ok) by {
            reveal_strlit("_SYSLOG_IDENTIFIER");
            lemma_one(
                document_column(13),
                ConversionView::Plain("_SYSLOG_IDENTIFIER"@),
                msg,
                year,
            );
            lemma_plain("_SYSLOG_IDENTIFIER"@, document_column(13).kind, msg, year);
        }
        assert(results[14] is Ok) by {
            reveal_strlit("_SYSLOG_PID");
            lemma_one(document_column(14), ConversionView::Plain("_SYSLOG_PID"@), msg, year);
            lemma_plain("_SYSLOG_PID"@, document_column(14).kind, msg, year);
        }
        assert(results[15] is Ok) by {
            reveal_strlit("_SYSLOG_TIMESTAMP");
            lemma_one(
                document_column(15),
                ConversionView::SyslogTimestamp("_SYSLOG_TIMESTAMP"@),
                msg,
                year,
            );
            lemma_ordinary("_SYSLOG_TIMESTAMP"@);
        }
        assert(results[16] is Ok) by {
            reveal_strlit("_PID");
            lemma_one(document_column(16), ConversionView::Plain("_PID"@), msg, year);
            lemma_plain("_PID"@, document_column(16).kind, msg, year);
        }
        assert(results[17] is Ok) by {
            reveal_strlit("_UID");
            lemma_one(document_column(17), ConversionView::Plain("_UID"@), msg, year);
            lemma_plain("_UID"@, document_column(17).kind, msg, year);
        }
        assert(results[18] is Ok) by {
            reveal_strlit("_GID");
            lemma_one(document_column(18), ConversionView::Plain("_GID"@), msg, year);
            lemma_plain("_GID"@, document_column(18).kind, msg, year);
        }
        assert(results[19] is Ok) by {
            reveal_strlit("_COMM");
            lemma_one(document_column(19), ConversionView::Plain("_COMM"@), msg, year);
            lemma_plain("_COMM"@, document_column(19).kind, msg, year);
        }
        assert(results[20] is Ok) by {
            reveal_strlit("_EXE");
            lemma_one(document_column(20), ConversionView::Plain("_EXE"@), msg, year);
            lemma_plain("_EXE"@, document_column(20).kind, msg, year);
        }
        assert(results[21] is Ok) by {
            reveal_strlit("_CMDLINE");
            lemma_one(document_column(21), ConversionView::Plain("_CMDLINE"@), msg, year);
            lemma_plain("_CMDLINE"@, document_column(21).kind, msg, year);
        }
        assert(results[22] is Ok) by {
            reveal_strlit("_CAP_EFFECTIVE");
            lemma_one(
                document_column(22),
                ConversionView::HexToUint("_CAP_EFFECTIVE"@),
                msg,
                year,
            );
            lemma_ordinary("_CAP_EFFECTIVE"@);
            let j = told(msg, "_CAP_EFFECTIVE"@);
            if j is Some {
                let n = choose|n: u64| says_hex(j->0, n);
                crate::number::unsigned_read_back(n, 16);
            }
        }
        assert(results[23] is Ok) by {
            reveal_strlit("_AUDIT_SESSION");
            lemma_one(
                document_column(23),
                ConversionView::Plain("_AUDIT_SESSION"@),
                msg,
                year,
            );
            lemma_plain("_AUDIT_SESSION"@, document_column(23).kind, msg, year);
        }
        assert(results[24] is Ok) by {
            reveal_strlit("_AUDIT_LOGINUID");
            lemma_one(
                document_column(24),
                ConversionView::Plain("_AUDIT_LOGINUID"@),
                msg,
                year,
            );
            lemma_plain("_AUDIT_LOGINUID"@, document_column(24).kind, msg, year);
        }
        assert(results[25] is Ok) by {
            reveal_strlit("_SYSTEMD_CGROUP");
            lemma_one(
                document_column(25),
                ConversionView::Plain("_SYSTEMD_CGROUP"@),
                msg,
                year,
            );
            lemma_plain("_SYSTEMD_CGROUP"@, document_column(25).kind, msg, year);
        }
        assert(results[26] is Ok) by {
            reveal_strlit("_SYSTEMD_SLICE");
            lemma_one(
                document_column(26),
                ConversionView::Plain("_SYSTEMD_SLICE"@),
                msg,
                year,
            );
            lemma_plain("_SYSTEMD_SLICE"@, document_column(26).kind, msg, year);
        }
        assert(results[27] is Ok) by {
            reveal_strlit("_SYSTEMD_UNIT");
            lemma_one(document_column(27), ConversionView::Plain("_SYSTEMD_UNIT"@), msg, year);
            lemma_plain("_SYSTEMD_UNIT"@, document_column(27).kind, msg, year);
        }
        assert(results[28] is Ok) by {
            reveal_strlit("_SYSTEMD_USER_UNIT");
            lemma_one(
                document_column(28),
                ConversionView::Plain("_SYSTEMD_USER_UNIT"@),
                msg,
                year,
            );
            lemma_plain("_SYSTEMD_USER_UNIT"@, document_column(28).kind, msg, year);
        }
        assert(results[29] is Ok) by {
            reveal_strlit("_SYSTEMD_USER_SLICE");
            lemma_one(
                document_column(29),
                ConversionView::Plain("_SYSTEMD_USER_SLICE"@),
                msg,
                year,
            );
            lemma_plain("_SYSTEMD_USER_SLICE"@, document_column(29).kind, msg, year);
        }
        assert(results[30] is Ok) by {
            reveal_strlit("_SYSTEMD_SESSION");
            lemma_one(
                document_column(30),
                ConversionView::Plain("_SYSTEMD_SESSION"@),
                msg,
                year,
            );
            lemma_plain("_SYSTEMD_SESSION"@, document_column(30).kind, msg, year);
        }
        assert(results[31] is Ok) by {
            reveal_strlit("_SYSTEMD_OWNER_UID");
            lemma_one(
                document_column(31),
                ConversionView::Plain("_SYSTEMD_OWNER_UID"@),
                msg,
                year,
            );
            lemma_plain("_SYSTEMD_OWNER_UID"@, document_column(31).kind, msg, year);
        }
        assert(results[32] is Ok) by {
            reveal_strlit("_SELINUX_CONTEXT");
            lemma_one(
                document_column(32),
                ConversionView::Plain("_SELINUX_CONTEXT"@),
                msg,
                year,
            );
            lemma_plain("_SELINUX_CONTEXT"@, document_column(32).kind, msg, year);
        }
        assert(results[33] is Ok) by {
            reveal_strlit("_BOOT_ID");
            lemma_one(document_column(33), ConversionView::Plain("_BOOT_ID"@), msg, year);
            lemma_plain("_BOOT_ID"@, document_column(33).kind, msg, year);
        }
        assert(results[34] is Ok) by {
            reveal_strlit("_MACHINE_ID");
            lemma_one(document_column(34), ConversionView::Plain("_MACHINE_ID"@), msg, year);
            lemma_plain("_MACHINE_ID"@, document_column(34).kind, msg, year);
        }
        assert(results[35] is Ok) by {
            reveal_strlit("_SYSTEMD_INVOCATION_ID");
            lemma_one(
                document_column(35),
                ConversionView::Plain("_SYSTEMD_INVOCATION_ID"@),
                msg,
                year,
            );
            lemma_plain("_SYSTEMD_INVOCATION_ID"@, document_column(35).kind, msg, year);
        }
        assert(results[36] is Ok) by {
            reveal_strlit("_TRANSPORT");
            lemma_one(document_column(36), ConversionView::Plain("_TRANSPORT"@), msg, year);
            lemma_plain("_TRANSPORT"@, document_column(36).kind, msg, year);
        }
        assert(results[37] is Ok) by {
            reveal_strlit("_STREAM_ID");
            lemma_one(document_column(37), ConversionView::Plain("_STREAM_ID"@), msg, year);
            lemma_plain("_STREAM_ID"@, document_column(37).kind, msg, year);
        }
        assert(results[38] is Ok) by {
            reveal_strlit("_LINE_BREAK");
            lemma_one(document_column(38), ConversionView::Plain("_LINE_BREAK"@), msg, year);
            lemma_plain("_LINE_BREAK"@, document_column(38).kind, msg, year);
        }
        assert(results[39] is Ok) by {
            reveal_strlit("_NAMESPACE");
            lemma_one(document_column(39), ConversionView::Plain("_NAMESPACE"@), msg, year);
            lemma_plain("_NAMESPACE"@, document_column(39).kind, msg, year);
        }
        assert(results[40] is Ok) by {
            reveal_strlit("_KERNEL_DEVICE");
            lemma_one(
                document_column(40),
                ConversionView::Plain("_KERNEL_DEVICE"@),
                msg,
                year,
            );
            lemma_plain("_KERNEL_DEVICE"@, document_column(40).kind, msg, year);
        }
        assert(results[41] is Ok) by {
            reveal_strlit("_KERNEL_SUBSYSTEM");
            lemma_one(
                document_column(41),
                ConversionView::Plain("_KERNEL_SUBSYSTEM"@),
                msg,
                year,
            );
            lemma_plain("_KERNEL_SUBSYSTEM"@, document_column(41).kind, msg, year);
        }
        assert(results[42] is Ok) by {
            reveal_strlit("_UDEV_SYSNAME");
            lemma_one(document_column(42), ConversionView::Plain("_UDEV_SYSNAME"@), msg, year);
            lemma_plain("_UDEV_SYSNAME"@, document_column(42).kind, msg, year);
        }
        assert(results[43] is Ok) by {
            reveal_strlit("_UDEV_DEVNODE");
            lemma_one(document_column(43), ConversionView::Plain("_UDEV_DEVNODE"@), msg, year);
            lemma_plain("_UDEV_DEVNODE"@, document_column(43).kind, msg, year);
        }
        assert(results[44] is Ok) by {
            reveal_strlit("_UDEV_DEVLINK");
            lemma_one(document_column(44), ConversionView::Plain("_UDEV_DEVLINK"@), msg, year);
            lemma_plain("_UDEV_DEVLINK"@, document_column(44).kind, msg, year);
        }
        assert(results[45] is Ok) by {
            reveal_strlit("_COREDUMP_UNIT");
            lemma_one(
                document_column(45),
                ConversionView::Plain("_COREDUMP_UNIT"@),
                msg,
                year,
            );
            lemma_plain("_COREDUMP_UNIT"@, document_column(45).kind, msg, year);
        }
        assert(results[46] is Ok) by {
            reveal_strlit("_COREDUMP_USER_UNIT");
            lemma_one(
                document_column(46),
                ConversionView::Plain("_COREDUMP_USER_UNIT"@),
                msg,
                year,
            );
            lemma_plain("_COREDUMP_USER_UNIT"@, document_column(46).kind, msg, year);
        }
        assert(results[47] is Ok) by {
            reveal_strlit("_OBJECT_PID");
            lemma_one(document_column(47), ConversionView::Plain("_OBJECT_PID"@), msg, year);
            lemma_plain("_OBJECT_PID"@, document_column(47).kind, msg, year);
        }
        assert(results[48] is Ok) by {
            reveal_strlit("_OBJECT_UID");
            lemma_one(document_column(48), ConversionView::Plain("_OBJECT_UID"@), msg, year);
            lemma_plain("_OBJECT_UID"@, document_column(48).kind, msg, year);
        }
        assert(results[49] is Ok) by {
            reveal_strlit("_OBJECT_GID");
            lemma_one(document_column(49), ConversionView::Plain("_OBJECT_GID"@), msg, year);
            lemma_plain("_OBJECT_GID"@, document_column(49).kind, msg, year);
        }
        assert(results[50] is Ok) by {
            reveal_strlit("_OBJECT_COMM");
            lemma_one(document_column(50), ConversionView::Plain("_OBJECT_COMM"@), msg, year);
            lemma_plain("_OBJECT_COMM"@, document_column(50).kind, msg, year);
        }
        assert(results[51] is Ok) by {
            reveal_strlit("_OBJECT_EXE");
            lemma_one(document_column(51), ConversionView::Plain("_OBJECT_EXE"@), msg, year);
            lemma_plain("_OBJECT_EXE"@, document_column(51).kind, msg, year);
        }
        assert(results[52] is Ok) by {
            reveal_strlit("_OBJECT_CMDLINE");
            lemma_one(
                document_column(52),
                ConversionView::Plain("_OBJECT_CMDLINE"@),
                msg,
                year,
            );
            lemma_plain("_OBJECT_CMDLINE"@, document_column(52).kind, msg, year);
        }
        assert(results[53] is Ok) by {
            reveal_strlit("_OBJECT_AUDIT_SESSION");
            lemma_one(
                document_column(53),
                ConversionView::Plain("_OBJECT_AUDIT_SESSION"@),
                msg,
                year,
            );
            lemma_plain("_OBJECT_AUDIT_SESSION"@, document_column(53).kind, msg, year);
        }
        assert(results[54] is Ok) by {
            reveal_strlit("_OBJECT_AUDIT_LOGINUID");
            lemma_one(
                document_column(54),
                ConversionView::Plain("_OBJECT_AUDIT_LOGINUID"@),
                msg,
                year,
            );
            lemma_plain("_OBJECT_AUDIT_LOGINUID"@, document_column(54).kind, msg, year);
        }
        assert(results[55] is Ok) by {
            reveal_strlit("_OBJECT_SYSTEMD_CGROUP");
            lemma_one(
                document_column(55),
                ConversionView::Plain("_OBJECT_SYSTEMD_CGROUP"@),
                msg,
                year,
            );
            lemma_plain("_OBJECT_SYSTEMD_CGROUP"@, document_column(55).kind, msg, year);
        }
        assert(results[56] is Ok) by {
            reveal_strlit("_OBJECT_SYSTEMD_SESSION");
            lemma_one(
                document_column(56),
                ConversionView::Plain("_OBJECT_SYSTEMD_SESSION"@),
                msg,
                year,
            );
            lemma_plain("_OBJECT_SYSTEMD_SESSION"@, document_column(56).kind, msg, year);
        }
        assert(results[57] is Ok) by {
            reveal_strlit("_OBJECT_SYSTEMD_OWNER_UID");
            lemma_one(
                document_column(57),
                ConversionView::Plain("_OBJECT_SYSTEMD_OWNER_UID"@),
                msg,
                year,
            );
            lemma_plain("_OBJECT_SYSTEMD_OWNER_UID"@, document_column(57).kind, msg, year);
        }
        assert(results[58] is Ok) by {
            reveal_strlit("_OBJECT_SYSTEMD_UNIT");
            lemma_one(
                document_column(58),
                ConversionView::Plain("_OBJECT_SYSTEMD_UNIT"@),
                msg,
                year,
            );
            lemma_plain("_OBJECT_SYSTEMD_UNIT"@, document_column(58).kind, msg, year);
        }
        assert(results[59] is Ok) by {
            reveal_strlit("_OBJECT_SYSTEMD_USER_UNIT");
            lemma_one(
                document_column(59),
                ConversionView::Plain("_OBJECT_SYSTEMD_USER_UNIT"@),
                msg,
                year,
            );
            lemma_plain("_OBJECT_SYSTEMD_USER_UNIT"@, document_column(59).kind, msg, year);
        }
        assert(results[60] is Ok) by {
            reveal_strlit("___REALTIME_TIMESTAMP");
            lemma_one(
                document_column(60),
                ConversionView::Plain("___REALTIME_TIMESTAMP"@),
                msg,
                year,
            );
            lemma_plain("___REALTIME_TIMESTAMP"@, document_column(60).kind, msg, year);
        }
        assert(results[61] is Ok) by {
            reveal_strlit("___MONOTONIC_TIMESTAMP");
            lemma_one(
                document_column(61),
                ConversionView::Plain("___MONOTONIC_TIMESTAMP"@),
                msg,
                year,
            );
            lemma_plain("___MONOTONIC_TIMESTAMP"@, document_column(61).kind, msg, year);
        }
        lemma_all_fine(results);
    }
}

/// Sixty-two results without an error come to values.
proof fn lemma_all_fine(results: Seq<Sourced>)
    requires
        results.len() == 62,
        results[0] is Ok,
        results[1] is Ok,
        results[2] is Ok,
        results[3] is Ok,
        results[4] is Ok,
        results[5] is Ok,
        results[6] is Ok,
        results[7] is Ok,
        results[8] is Ok,
        results[9] is Ok,
        results[10] is Ok,
        results[11] is Ok,
        results[12] is Ok,
        results[13] is Ok,
        results[14] is Ok,
        results[15] is Ok,
        results[16] is Ok,
        results[17] is Ok,
        results[18] is Ok,
        results[19] is Ok,
        results[20] is Ok,
        results[21] is Ok,
        results[22] is Ok,
        results[23] is Ok,
        results[24] is Ok,
        results[25] is Ok,
        results[26] is Ok,
        results[27] is Ok,
        results[28] is Ok,
        results[29] is Ok,
        results[30] is Ok,
        results[31] is Ok,
        results[32] is Ok,
        results[33] is Ok,
        results[34] is Ok,
        results[35] is Ok,
        results[36] is Ok,
        results[37] is Ok,
        results[38] is Ok,
        results[39] is Ok,
        results[40] is Ok,
        results[41] is Ok,
        results[42] is Ok,
        results[43] is Ok,
        results[44] is Ok,
        results[45] is Ok,
        results[46] is Ok,
        results[47] is Ok,
        results[48] is Ok,
        results[49] is Ok,
        results[50] is Ok,
        results[51] is Ok,
        results[52] is Ok,
        results[53] is Ok,
        results[54] is Ok,
        results[55] is Ok,
        results[56] is Ok,
        results[57] is Ok,
        results[58] is Ok,
        results[59] is Ok,
        results[60] is Ok,
        results[61] is Ok,
    ensures
        all_values(results) is Ok,
{
    lemma_no_errors(results);
}

/// A GELF message can be kept as a document exactly where it is of a time after the epoch
/// and has a text.
pub proof fn dated_message_is_kept(msg: GelfView, year: Option<Seq<char>>, secs: JsonView)
    requires
        told(msg, "timestamp"@) == Some(secs),
    ensures
        gelf_values(document_columns(), msg, year) matches Ok(vs) ==> (valid_document(vs) <==> {
            &&& msg.short_message.len() > 0
            &&& match secs {
                JsonView::Number { micros: Some(m), .. } => m > 0,
                JsonView::String { micros: Some(m), .. } => m > 0,
                _ => false,
            }
        }),
{
    gelf_message_becomes_document(msg, year);
}

/// A GELF message that tells no time cannot be kept.
pub proof fn undated_message_is_not_kept(msg: GelfView, year: Option<Seq<char>>)
    requires
        told(msg, "timestamp"@) is None,
        told(msg, "_SOURCE_REALTIME_TIMESTAMP"@) is None,
    ensures
        gelf_values(document_columns(), msg, year) matches Ok(vs) ==> !valid_document(vs),
{
    gelf_message_becomes_document(msg, year);
}

// ---------------------------------------------------------------------------
// From syslog messages
// ---------------------------------------------------------------------------

/// What a syslog message gives a column.
proof fn lemma_given(msg: SyslogView, i: int)
    requires
        0 <= i < 62,
    ensures
        document_columns()[i] == document_column(i),
        syslog_values(document_columns(), msg) matches Ok(vs) ==> vs.len() == 62 && syslog_value(
            document_column(i),
            msg,
        ) == Ok::<Option<FieldView>, ConvertError>(vs[i]),
{
    let columns = document_columns();
    lemma_values(Seq::new(columns.len(), |i: int| syslog_value(columns[i], msg)), i);
}

/// What a column comes to that is filled from at most one field.
proof fn lemma_at_most_one(c: ColumnView, msg: SyslogView)
    requires
        c.syslog.len() <= 1,
    ensures
        syslog_value(c, msg) == (if c.syslog.len() == 0 {
            Ok(None)
        } else {
            syslog_source(c.syslog[0], c.kind, msg)
        }),
{
    let results = Seq::new(c.syslog.len(), |i: int| syslog_source(c.syslog[i], c.kind, msg));
    reveal_with_fuel(chosen, 2);
}

/// The columns that a syslog message fills, by their names.
proof fn lemma_syslog_columns(msg: SyslogView)
    ensures
        document_column(0).syslog =~= seq![ConversionView::DateTimeToUsec("source_timestamp"@)],
        document_column(1).syslog =~= seq![ConversionView::Plain("hostname"@)],
        document_column(2).syslog =~= seq![ConversionView::Plain("message"@)],
        document_column(3).syslog =~= seq![ConversionView::Plain("priority"@)],
        document_column(4).syslog =~= seq![ConversionView::Plain("full_message"@)],
        document_column(12).syslog =~= seq![ConversionView::Plain("facility"@)],
        document_column(13).syslog =~= seq![ConversionView::Plain("identifier"@)],
        document_column(14).syslog =~= seq![ConversionView::Plain("pid"@)],
        forall|i: int|
            0 <= i < 62 && i != 0 && i != 1 && i != 2 && i != 3 && i != 4 && i != 12 && i != 13 && i != 14 ==> (
            #[trigger] document_column(i)).syslog.len() == 0,
{
}

/// The columns of the document that a syslog message becomes, each by its name, and what
/// it has there: a message whose time fits in nanoseconds becomes one, and no other.
#[verifier::rlimit(100)]
#[verifier::spinoff_prover]
pub proof fn syslog_message_becomes_document(msg: SyslogView)
    ensures
        syslog_values(document_columns(), msg) is Ok <==> msg.source_timestamp.unix_nanos is Some,
        syslog_values(document_columns(), msg) matches Ok(vs) ==> {
            &&& vs.len() == 62
            &&& document_columns()[0].name == "source_timestamp"@
            &&& msg.source_timestamp.unix_nanos matches Some(n) && vs[0] == Some(
                FieldView::U64(
                    (if n >= 0 {
                        n / 1000
                    } else {
                        (n + 0x1_0000_0000_0000_0000) / 1000
                    }) as u64,
                ),
            )
            &&& document_columns()[1].name == "hostname"@
            &&& vs[1] == match msg.hostname {
                Some(h) => Some(FieldView::Text(h)),
                None => None,
            }
            &&& document_columns()[2].name == "message"@
            &&& vs[2] == Some(FieldView::Text(msg.message))
            &&& document_columns()[3].name == "priority"@
            &&& vs[3] == Some(FieldView::U64(msg.priority as u64))
            &&& document_columns()[4].name == "full_message"@
            &&& vs[4] == Some(FieldView::Text(msg.full_message))
            &&& document_columns()[12].name == "facility"@
            &&& vs[12] == Some(FieldView::Text(msg.facility))
            &&& document_columns()[13].name == "syslog_identifier"@
            &&& vs[13] == match msg.identifier {
                Some(t) => Some(FieldView::Text(t)),
                None => None,
            }
            &&& document_columns()[14].name == "syslog_pid"@
            &&& vs[14] == match msg.pid {
                Some(n) => Some(FieldView::U64(n)),
                None => None,
            }
            &&& forall|i: int|
                0 <= i < 62 && i != 0 && i != 1 && i != 2 && i != 3 && i != 4 && i != 12 && i != 13 && i != 14 ==> (
                #[trigger] vs[i]) is None
        },
{
    lemma_syslog_columns(msg);
    lemma_syslog_names(msg);
    let columns = document_columns();
    let results = Seq::new(columns.len(), |i: int| syslog_value(columns[i], msg));
    lemma_at_most_one(document_column(0), msg);
    lemma_at_most_one(document_column(1), msg);
    lemma_at_most_one(document_column(2), msg);
    lemma_at_most_one(document_column(3), msg);
    lemma_at_most_one(document_column(4), msg);
    lemma_at_most_one(document_column(12), msg);
    lemma_at_most_one(document_column(13), msg);
    lemma_at_most_one(document_column(14), msg);
    assert(results[1] is Ok);
    assert(results[2] is Ok);
    assert(results[3] is Ok);
    assert(results[4] is Ok);
    assert(results[12] is Ok);
    assert(results[13] is Ok);
    assert(results[14] is Ok);
    assert forall|i: int| 0 <= i < 62 && i != 0 implies (#[trigger] results[i]) is Ok by {
        lemma_at_most_one(document_column(i), msg);
    }
    lemma_values(results, 0);
    if msg.source_timestamp.unix_nanos is Some {
        assert(results[0] is Ok);
        lemma_no_errors(results);
    }
    if syslog_values(columns, msg) is Ok {
        let vs = syslog_values(columns, msg)->Ok_0;
        lemma_given(msg, 0);
        lemma_given(msg, 1);
        lemma_given(msg, 2);
        lemma_given(msg, 3);
        lemma_given(msg, 4);
        lemma_given(msg, 12);
        lemma_given(msg, 13);
        lemma_given(msg, 14);
        assert forall|i: int|
            0 <= i < 62 && i != 0 && i != 1 && i != 2 && i != 3 && i != 4 && i != 12 && i != 13 && i != 14 implies (
        #[trigger] vs[i]) is None by {
            lemma_given(msg, i);
            lemma_at_most_one(document_column(i), msg);
        }
    }
}

/// The names of the fields of a syslog message differ.
proof fn lemma_syslog_names(msg: SyslogView)
    ensures
        syslog_get(msg, "priority"@) == Some(SyslogValue::Byte(msg.priority)),
        syslog_get(msg, "facility"@) == Some(SyslogValue::Text(msg.facility)),
        syslog_get(msg, "source_timestamp"@) == Some(SyslogValue::Time(msg.source_timestamp)),
        syslog_get(msg, "message"@) == Some(SyslogValue::Text(msg.message)),
        syslog_get(msg, "full_message"@) == Some(SyslogValue::Text(msg.full_message)),
        syslog_get(msg, "hostname"@) == (match msg.hostname {
            Some(h) => Some(SyslogValue::Text(h)),
            None => None,
        }),
        syslog_get(msg, "identifier"@) == (match msg.identifier {
            Some(t) => Some(SyslogValue::Text(t)),
            None => None,
        }),
        syslog_get(msg, "pid"@) == (match msg.pid {
            Some(n) => Some(SyslogValue::U64(n)),
            None => None,
        }),
{
    reveal_strlit("priority");
    reveal_strlit("facility");
    reveal_strlit("source_timestamp");
    reveal_strlit("message");
    reveal_strlit("full_message");
    reveal_strlit("hostname");
    reveal_strlit("identifier");
    reveal_strlit("pid");
    assert("priority"@[0] == 'p' && "facility"@[0] == 'f' && "source_timestamp"@[0] == 's'
        && "message"@[0] == 'm' && "full_message"@[0] == 'f' && "hostname"@[0] == 'h'
        && "identifier"@[0] == 'i' && "pid"@[0] == 'p');
    assert("facility"@[1] == 'a' && "full_message"@[1] == 'u' && "priority"@[1] == 'r'
        && "pid"@[1] == 'i');
}

} // verus!
