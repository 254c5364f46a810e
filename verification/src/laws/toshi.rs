//! Documents for the Toshi search engine.
use vstd::prelude::*;

use crate::gelf::GelfView;
use crate::json::{FieldView, JsonView};
use crate::laws::schema::{either, says, says_hex, says_signed, told};
use crate::number::{decimal, signed_decimal};
use crate::storage::StoredAs;
use crate::time::{naive_datetime, rfc2822, rfc3339};
use crate::toshi::schema::{
    extracted, field_names_differ, field_value, kept, our_entry, our_schema, ConvertView,
    EntryView,
};

verus! {

/// The document has the text under the name.
pub open spec fn has_fixed(
    doc: Map<Seq<char>, FieldView>,
    name: Seq<char>,
    text: Seq<char>,
) -> bool {
    doc.contains_key(name) && doc[name] == FieldView::Text(text)
}

/// The document has under the name what is told, as a text: a string as it is, any other
/// value as JSON. Where nothing is told it has nothing.
pub open spec fn has_text(
    doc: Map<Seq<char>, FieldView>,
    name: Seq<char>,
    j: Option<JsonView>,
) -> bool {
    match j {
        None => !doc.contains_key(name),
        Some(JsonView::String { text, .. }) => has_fixed(doc, name, text),
        Some(JsonView::Number { text, .. }) => has_fixed(doc, name, text),
        Some(JsonView::Compound(text)) => has_fixed(doc, name, text),
        Some(JsonView::Null) => has_fixed(doc, name, seq!['n', 'u', 'l', 'l']),
        Some(JsonView::Bool(true)) => has_fixed(doc, name, seq!['t', 'r', 'u', 'e']),
        Some(JsonView::Bool(false)) => has_fixed(doc, name, seq!['f', 'a', 'l', 's', 'e']),
    }
}

/// Whether a value cannot be a number.
pub open spec fn no_number(v: JsonView) -> bool {
    match v {
        JsonView::Number { as_u64, .. } => as_u64 is None,
        JsonView::String { text, .. } => text.len() == 0,
        _ => true,
    }
}

/// The document has under the name the number that is told, and nothing where none is.
pub open spec fn has_number(
    doc: Map<Seq<char>, FieldView>,
    name: Seq<char>,
    j: Option<JsonView>,
) -> bool {
    match j {
        None => !doc.contains_key(name),
        Some(v) => {
            &&& no_number(v) ==> !doc.contains_key(name)
            &&& forall|n: u64| #[trigger]
                says(v, n) ==> doc.contains_key(name) && doc[name] == FieldView::U64(n)
        },
    }
}

/// The document has under the name the number that is told with its sign, and nothing
/// where none is.
pub open spec fn has_signed(
    doc: Map<Seq<char>, FieldView>,
    name: Seq<char>,
    j: Option<JsonView>,
) -> bool {
    match j {
        None => !doc.contains_key(name),
        Some(v) => forall|n: i64| #[trigger]
            says_signed(v, n) ==> doc.contains_key(name) && doc[name] == FieldView::I64(n),
    }
}

/// The document has under the name the number that is told in base sixteen, and nothing
/// where none is.
pub open spec fn has_hex(
    doc: Map<Seq<char>, FieldView>,
    name: Seq<char>,
    j: Option<JsonView>,
) -> bool {
    match j {
        None => !doc.contains_key(name),
        Some(v) => {
            &&& no_number(v) ==> !doc.contains_key(name)
            &&& forall|n: u64| #[trigger]
                says_hex(v, n) ==> doc.contains_key(name) && doc[name] == FieldView::U64(n)
        },
    }
}

/// The document has under the name the later of two numbers, and the earlier one where
/// the later is not told or is none.
pub open spec fn has_later_number(
    doc: Map<Seq<char>, FieldView>,
    name: Seq<char>,
    a: Option<JsonView>,
    b: Option<JsonView>,
) -> bool {
    match b {
        None => has_number(doc, name, a),
        Some(v) => {
            &&& no_number(v) ==> has_number(doc, name, a)
            &&& forall|n: u64| #[trigger]
                says(v, n) ==> doc.contains_key(name) && doc[name] == FieldView::U64(n)
        },
    }
}

/// The document has under the name the number that is told, else the microseconds in the
/// seconds that are told.
pub open spec fn has_time(
    doc: Map<Seq<char>, FieldView>,
    name: Seq<char>,
    secs: Option<JsonView>,
    j: Option<JsonView>,
) -> bool {
    let lasting = match secs {
        Some(JsonView::Number { micros: Some(m), .. }) | Some(
            JsonView::String { micros: Some(m), .. },
        ) => { doc.contains_key(name) && doc[name] == FieldView::U64(m) },
        _ => !doc.contains_key(name),
    };
    match j {
        None => lasting,
        Some(v) => {
            &&& no_number(v) ==> lasting
            &&& forall|n: u64| #[trigger]
                says(v, n) ==> doc.contains_key(name) && doc[name] == FieldView::U64(n)
        },
    }
}

/// The document has under the name the time that is told, in whole microseconds: by RFC
/// 3339, else by RFC 2822, else as month, day and time in the year.
pub open spec fn has_syslog_time(
    doc: Map<Seq<char>, FieldView>,
    name: Seq<char>,
    j: Option<JsonView>,
    year: Option<Seq<char>>,
) -> bool {
    match j {
        Some(JsonView::String { text, .. }) => {
            let nanos = if rfc3339(text) is Some {
                rfc3339(text)->0.unix_nanos
            } else if rfc2822(text) is Some {
                rfc2822(text)->0
            } else if year is Some && naive_datetime(
                year->0 + seq![' '] + text,
                "%Y %b %e %T"@,
            ) is Some {
                naive_datetime(year->0 + seq![' '] + text, "%Y %b %e %T"@)->0
            } else {
                None
            };
            match nanos {
                Some(n) => {
                    &&& doc.contains_key(name)
                    &&& doc[name] matches FieldView::I64(m) && if n >= 0 {
                        1000 * m <= n < 1000 * m + 1000
                    } else {
                        1000 * m - 1000 < n <= 1000 * m
                    }
                },
                None => !doc.contains_key(name),
            }
        },
        _ => !doc.contains_key(name),
    }
}

/// A document has what the message gives each field, under the name of the field.
proof fn lemma_extracted(n: int, msg: GelfView, year: Option<Seq<char>>, i: int)
    requires
        0 <= i < n <= 62,
    ensures
        ({
            let doc = extracted(our_schema().take(n), msg, year);
            let e = our_entry(i);
            match field_value(e.from_gelf, 0, None, e.kind, msg, year) {
                Some(v) => doc.contains_key(e.name) && doc[e.name] == v,
                None => !doc.contains_key(e.name),
            }
        }),
    decreases n,
{
    let schema = our_schema().take(n);
    assert(schema.drop_last() =~= our_schema().take(n - 1));
    assert(schema.last() == our_entry(n - 1));
    if i < n - 1 {
        lemma_extracted(n - 1, msg, year, i);
        field_names_differ(i, n - 1);
    } else {
        lemma_not_yet(n - 1, msg, year, our_entry(i).name, i);
    }
}

/// The first fields leave the name of a later one free.
proof fn lemma_not_yet(n: int, msg: GelfView, year: Option<Seq<char>>, name: Seq<char>, i: int)
    requires
        0 <= n <= i < 62,
        name == our_entry(i).name,
    ensures
        !extracted(our_schema().take(n), msg, year).contains_key(name),
    decreases n,
{
    let schema = our_schema().take(n);
    if n > 0 {
        assert(schema.drop_last() =~= our_schema().take(n - 1));
        assert(schema.last() == our_entry(n - 1));
        lemma_not_yet(n - 1, msg, year, name, i);
        field_names_differ(i, n - 1);
    }
}

/// What a message gives a field of a document.
proof fn lemma_field(msg: GelfView, year: Option<Seq<char>>, i: int)
    requires
        0 <= i < 62,
    ensures
        ({
            let doc = extracted(our_schema(), msg, year);
            let e = our_entry(i);
            match field_value(e.from_gelf, 0, None, e.kind, msg, year) {
                Some(v) => doc.contains_key(e.name) && doc[e.name] == v,
                None => !doc.contains_key(e.name),
            }
        }),
{
    assert(our_schema().take(62) =~= our_schema());
    lemma_extracted(62, msg, year, i);
}

/// Numbers are read back from their texts, and none from nothing.
proof fn lemma_numbers()
    ensures
        forall|n: u64|
            crate::number::read_unsigned(
                #[trigger] decimal(n as nat),
                10,
                0xffff_ffff_ffff_ffff,
            ) == Some(n as nat),
        forall|n: u64|
            crate::number::read_unsigned(
                #[trigger] crate::number::digits(n as nat, 16),
                16,
                0xffff_ffff_ffff_ffff,
            ) == Some(n as nat),
        forall|n: i64|
            crate::number::read_signed(#[trigger] signed_decimal(n as int), 10) == Some(n as int),
{
    assert forall|n: u64|
        crate::number::read_unsigned(
            #[trigger] decimal(n as nat),
            10,
            0xffff_ffff_ffff_ffff,
        ) == Some(n as nat) by {
        crate::number::unsigned_read_back(n, 10);
    }
    assert forall|n: u64|
        crate::number::read_unsigned(
            #[trigger] crate::number::digits(n as nat, 16),
            16,
            0xffff_ffff_ffff_ffff,
        ) == Some(n as nat) by {
        crate::number::unsigned_read_back(n, 16);
    }
    assert forall|n: i64|
        crate::number::read_signed(#[trigger] signed_decimal(n as int), 10) == Some(n as int) by {
        crate::laws::schema::signed_reads_back(n);
    }
}

/// What a field comes to that is filled from one field of messages, which not every
/// message has.
proof fn lemma_one_source(e: EntryView, a: ConvertView, msg: GelfView, year: Option<Seq<char>>)
    requires
        e.from_gelf == seq![a],
        ordinary(crate::toshi::schema::taken_field(a)),
    ensures
        field_value(e.from_gelf, 0, None, e.kind, msg, year) == taken(a, None, e, msg, year),
{
    lemma_ordinary(crate::toshi::schema::taken_field(a));
    reveal_with_fuel(field_value, 2);
}

/// What a field comes to that is filled from two fields of messages, which not every
/// message has.
proof fn lemma_two_sources(
    e: EntryView,
    a: ConvertView,
    b: ConvertView,
    msg: GelfView,
    year: Option<Seq<char>>,
)
    requires
        e.from_gelf == seq![a, b],
        ordinary(crate::toshi::schema::taken_field(a)),
        ordinary(crate::toshi::schema::taken_field(b)),
    ensures
        field_value(e.from_gelf, 0, None, e.kind, msg, year) == taken(
            b,
            taken(a, None, e, msg, year),
            e,
            msg,
            year,
        ),
{
    lemma_ordinary(crate::toshi::schema::taken_field(a));
    lemma_ordinary(crate::toshi::schema::taken_field(b));
    reveal_with_fuel(field_value, 3);
}

/// Whether not every message has a field of the name.
spec fn ordinary(f: Seq<char>) -> bool {
    f.len() > 0 && f[0] != 'h' && f[0] != 's'
}

/// The name of a field that not every message has.
proof fn lemma_ordinary(f: Seq<char>)
    requires
        ordinary(f),
    ensures
        f != "host"@,
        f != "short_message"@,
{
    reveal_strlit("host");
    reveal_strlit("short_message");
}

/// What a source makes of the value so far.
spec fn taken(
    c: ConvertView,
    value: Option<FieldView>,
    e: EntryView,
    msg: GelfView,
    year: Option<Seq<char>>,
) -> Option<FieldView> {
    match told(msg, crate::toshi::schema::taken_field(c)) {
        Some(v) => match crate::toshi::schema::converted(v, c, e.kind, year) {
            Ok(w) => Some(w),
            Err(_) => value,
        },
        None => value,
    }
}

/// The texts of values that are no strings.
proof fn lemma_words()
    ensures
        "null"@ =~= seq!['n', 'u', 'l', 'l'],
        "true"@ =~= seq!['t', 'r', 'u', 'e'],
        "false"@ =~= seq!['f', 'a', 'l', 's', 'e'],
{
    reveal_strlit("null");
    reveal_strlit("true");
    reveal_strlit("false");
}

/// A field of texts that is filled from one field of messages.
proof fn lemma_text(msg: GelfView, year: Option<Seq<char>>, i: int, f: Seq<char>)
    requires
        0 <= i < 62,
        our_entry(i).from_gelf == seq![ConvertView::Plain(f)],
        our_entry(i).kind is String || our_entry(i).kind is Text,
        ordinary(f),
    ensures
        has_text(extracted(our_schema(), msg, year), our_entry(i).name, told(msg, f)),
{
    lemma_words();
    lemma_field(msg, year, i);
    lemma_one_source(our_entry(i), ConvertView::Plain(f), msg, year);
}

/// A field of texts that is filled from two fields of messages.
proof fn lemma_texts(msg: GelfView, year: Option<Seq<char>>, i: int, f: Seq<char>, g: Seq<char>)
    requires
        0 <= i < 62,
        our_entry(i).from_gelf == seq![ConvertView::Plain(f), ConvertView::Plain(g)],
        our_entry(i).kind is String || our_entry(i).kind is Text,
        ordinary(f),
        ordinary(g),
    ensures
        has_text(
            extracted(our_schema(), msg, year),
            our_entry(i).name,
            either(told(msg, g), told(msg, f)),
        ),
{
    lemma_words();
    lemma_field(msg, year, i);
    lemma_two_sources(our_entry(i), ConvertView::Plain(f), ConvertView::Plain(g), msg, year);
}

/// A field of numbers that is filled from one field of messages.
proof fn lemma_number(msg: GelfView, year: Option<Seq<char>>, i: int, f: Seq<char>)
    requires
        0 <= i < 62,
        our_entry(i).from_gelf == seq![ConvertView::Plain(f)],
        our_entry(i).kind is U64 || our_entry(i).kind is Timestamp,
        ordinary(f),
    ensures
        has_number(extracted(our_schema(), msg, year), our_entry(i).name, told(msg, f)),
{
    lemma_numbers();
    lemma_field(msg, year, i);
    lemma_one_source(our_entry(i), ConvertView::Plain(f), msg, year);
}

/// A field of numbers that is filled from two fields of messages.
proof fn lemma_two_numbers(
    msg: GelfView,
    year: Option<Seq<char>>,
    i: int,
    f: Seq<char>,
    g: Seq<char>,
)
    requires
        0 <= i < 62,
        our_entry(i).from_gelf == seq![ConvertView::Plain(f), ConvertView::Plain(g)],
        our_entry(i).kind is U64,
        ordinary(f),
        ordinary(g),
    ensures
        has_later_number(
            extracted(our_schema(), msg, year),
            our_entry(i).name,
            told(msg, f),
            told(msg, g),
        ),
{
    lemma_numbers();
    lemma_field(msg, year, i);
    lemma_two_sources(our_entry(i), ConvertView::Plain(f), ConvertView::Plain(g), msg, year);
}

/// The fields that are filled in ways of their own.
#[verifier::rlimit(60)]
#[verifier::spinoff_prover]
proof fn lemma_special(msg: GelfView, year: Option<Seq<char>>)
    ensures
        ({
            let doc = extracted(our_schema(), msg, year);
            &&& has_fixed(doc, our_entry(0).name, msg.short_message)
            &&& has_signed(doc, our_entry(7).name, told(msg, "_ERRNO"@))
            &&& has_syslog_time(doc, our_entry(13).name, told(msg, "_SYSLOG_TIMESTAMP"@), year)
            &&& has_hex(doc, our_entry(20).name, told(msg, "_CAP_EFFECTIVE"@))
            &&& has_time(
                doc,
                our_entry(31).name,
                told(msg, "timestamp"@),
                told(msg, "_SOURCE_REALTIME_TIMESTAMP"@),
            )
            &&& has_fixed(doc, our_entry(35).name, msg.host)
        }),
{
    let doc = extracted(our_schema(), msg, year);
    assert(has_fixed(doc, our_entry(0).name, msg.short_message)) by {
        lemma_field(msg, year, 0);
        crate::toshi::schema::certain_fields_are_filled(
            our_entry(0).from_gelf,
            our_entry(0).kind,
            msg,
            year,
        );
    }
    assert(has_signed(doc, our_entry(7).name, told(msg, "_ERRNO"@))) by {
        reveal_strlit("_ERRNO");
        lemma_numbers();
        lemma_field(msg, year, 7);
        lemma_one_source(our_entry(7), ConvertView::Plain("_ERRNO"@), msg, year);
    }
    assert(has_syslog_time(doc, our_entry(13).name, told(msg, "_SYSLOG_TIMESTAMP"@), year)) by {
        reveal_strlit("_SYSLOG_TIMESTAMP");
        lemma_field(msg, year, 13);
        lemma_one_source(
            our_entry(13),
            ConvertView::SyslogTimestamp("_SYSLOG_TIMESTAMP"@),
            msg,
            year,
        );
    }
    assert(has_hex(doc, our_entry(20).name, told(msg, "_CAP_EFFECTIVE"@))) by {
        reveal_strlit("_CAP_EFFECTIVE");
        lemma_numbers();
        lemma_field(msg, year, 20);
        lemma_one_source(our_entry(20), ConvertView::HexToUint("_CAP_EFFECTIVE"@), msg, year);
    }
    assert(has_time(
        doc,
        our_entry(31).name,
        told(msg, "timestamp"@),
        told(msg, "_SOURCE_REALTIME_TIMESTAMP"@),
    )) by {
        reveal_strlit("timestamp");
        reveal_strlit("_SOURCE_REALTIME_TIMESTAMP");
        lemma_numbers();
        lemma_field(msg, year, 31);
        lemma_two_sources(
            our_entry(31),
            ConvertView::FloatSecToUsec("timestamp"@),
            ConvertView::Plain("_SOURCE_REALTIME_TIMESTAMP"@),
            msg,
            year,
        );
    }
    assert(has_fixed(doc, our_entry(35).name, msg.host)) by {
        lemma_field(msg, year, 35);
        crate::toshi::schema::certain_fields_are_filled(
            our_entry(35).from_gelf,
            our_entry(35).kind,
            msg,
            year,
        );
    }
}

/// The fields of the document that a message becomes, each by its name, and what it has
/// there of what the message tells: of two fields the later one that can be read. Each
/// is kept as what it is.
#[verifier::rlimit(100)]
#[verifier::spinoff_prover]
pub proof fn message_becomes_toshi_document(msg: GelfView, year: Option<Seq<char>>)
    ensures
        ({
            let doc = extracted(our_schema(), msg, year);
            &&& our_schema().len() == 62
            &&& kept(our_schema())[0] == ("message"@, StoredAs::Text)
            &&& has_fixed(doc, "message"@, msg.short_message)
            &&& kept(our_schema())[1] == ("full_message"@, StoredAs::Text)
            &&& has_text(doc, "full_message"@, told(msg, "full_message"@))
            &&& kept(our_schema())[2] == ("message_id"@, StoredAs::String)
            &&& has_text(doc, "message_id"@, told(msg, "_MESSAGE_ID"@))
            &&& kept(our_schema())[3] == ("priority"@, StoredAs::U64)
            &&& has_later_number(doc, "priority"@, told(msg, "level"@), told(msg, "_PRIORITY"@))
            &&& kept(our_schema())[4] == ("code_file"@, StoredAs::Text)
            &&& has_text(
                    doc,
                    "code_file"@,
                    either(told(msg, "_CODE_FILE"@), told(msg, "file"@)),
                )
            &&& kept(our_schema())[5] == ("code_line"@, StoredAs::U64)
            &&& has_later_number(
                    doc,
                    "code_line"@,
                    told(msg, "line"@),
                    told(msg, "_CODE_LINE"@),
                )
            &&& kept(our_schema())[6] == ("code_func"@, StoredAs::String)
            &&& has_text(
                    doc,
                    "code_func"@,
                    either(told(msg, "_function"@), told(msg, "_CODE_FUNC"@)),
                )
            &&& kept(our_schema())[7] == ("errno"@, StoredAs::I64)
            &&& has_signed(doc, "errno"@, told(msg, "_ERRNO"@))
            &&& kept(our_schema())[8] == ("invocation_id"@, StoredAs::String)
            &&& has_text(doc, "invocation_id"@, told(msg, "_INVOCATION_ID"@))
            &&& kept(our_schema())[9] == ("user_invocation_id"@, StoredAs::String)
            &&& has_text(doc, "user_invocation_id"@, told(msg, "_USER_INVOCATION_ID"@))
            &&& kept(our_schema())[10] == ("syslog_facility"@, StoredAs::String)
            &&& has_text(
                    doc,
                    "syslog_facility"@,
                    either(told(msg, "_SYSLOG_FACILITY"@), told(msg, "facility"@)),
                )
            &&& kept(our_schema())[11] == ("syslog_identifier"@, StoredAs::String)
            &&& has_text(doc, "syslog_identifier"@, told(msg, "_SYSLOG_IDENTIFIER"@))
            &&& kept(our_schema())[12] == ("syslog_pid"@, StoredAs::U64)
            &&& has_number(doc, "syslog_pid"@, told(msg, "_SYSLOG_PID"@))
            &&& kept(our_schema())[13] == ("syslog_timestamp"@, StoredAs::FastU64)
            &&& has_syslog_time(doc, "syslog_timestamp"@, told(msg, "_SYSLOG_TIMESTAMP"@), year)
            &&& kept(our_schema())[14] == ("pid"@, StoredAs::U64)
            &&& has_number(doc, "pid"@, told(msg, "_PID"@))
            &&& kept(our_schema())[15] == ("uid"@, StoredAs::U64)
            &&& has_number(doc, "uid"@, told(msg, "_UID"@))
            &&& kept(our_schema())[16] == ("gid"@, StoredAs::U64)
            &&& has_number(doc, "gid"@, told(msg, "_GID"@))
            &&& kept(our_schema())[17] == ("comm"@, StoredAs::String)
            &&& has_text(doc, "comm"@, told(msg, "_COMM"@))
            &&& kept(our_schema())[18] == ("exe"@, StoredAs::String)
            &&& has_text(doc, "exe"@, told(msg, "_EXE"@))
            &&& kept(our_schema())[19] == ("cmdline"@, StoredAs::Text)
            &&& has_text(doc, "cmdline"@, told(msg, "_CMDLINE"@))
            &&& kept(our_schema())[20] == ("cap_effective"@, StoredAs::U64)
            &&& has_hex(doc, "cap_effective"@, told(msg, "_CAP_EFFECTIVE"@))
            &&& kept(our_schema())[21] == ("audit_session"@, StoredAs::U64)
            &&& has_number(doc, "audit_session"@, told(msg, "_AUDIT_SESSION"@))
            &&& kept(our_schema())[22] == ("audit_loginuid"@, StoredAs::U64)
            &&& has_number(doc, "audit_loginuid"@, told(msg, "_AUDIT_LOGINUID"@))
            &&& kept(our_schema())[23] == ("systemd_cgroup"@, StoredAs::Text)
            &&& has_text(doc, "systemd_cgroup"@, told(msg, "_SYSTEMD_CGROUP"@))
            &&& kept(our_schema())[24] == ("systemd_slice"@, StoredAs::Text)
            &&& has_text(doc, "systemd_slice"@, told(msg, "_SYSTEMD_SLICE"@))
            &&& kept(our_schema())[25] == ("systemd_unit"@, StoredAs::Text)
            &&& has_text(doc, "systemd_unit"@, told(msg, "_SYSTEMD_UNIT"@))
            &&& kept(our_schema())[26] == ("systemd_user_unit"@, StoredAs::Text)
            &&& has_text(doc, "systemd_user_unit"@, told(msg, "_SYSTEMD_USER_UNIT"@))
            &&& kept(our_schema())[27] == ("systemd_user_slice"@, StoredAs::Text)
            &&& has_text(doc, "systemd_user_slice"@, told(msg, "_SYSTEMD_USER_SLICE"@))
            &&& kept(our_schema())[28] == ("systemd_session"@, StoredAs::String)
            &&& has_text(doc, "systemd_session"@, told(msg, "_SYSTEMD_SESSION"@))
            &&& kept(our_schema())[29] == ("systemd_owner_uid"@, StoredAs::U64)
            &&& has_number(doc, "systemd_owner_uid"@, told(msg, "_SYSTEMD_OWNER_UID"@))
            &&& kept(our_schema())[30] == ("selinux_context"@, StoredAs::String)
            &&& has_text(doc, "selinux_context"@, told(msg, "_SELINUX_CONTEXT"@))
            &&& kept(our_schema())[31] == ("source_timestamp"@, StoredAs::FastU64)
            &&& has_time(
                    doc,
                    "source_timestamp"@,
                    told(msg, "timestamp"@),
                    told(msg, "_SOURCE_REALTIME_TIMESTAMP"@),
                )
            &&& kept(our_schema())[32] == ("boot_id"@, StoredAs::String)
            &&& has_text(doc, "boot_id"@, told(msg, "_BOOT_ID"@))
            &&& kept(our_schema())[33] == ("machine_id"@, StoredAs::String)
            &&& has_text(doc, "machine_id"@, told(msg, "_MACHINE_ID"@))
            &&& kept(our_schema())[34] == ("systemd_invocation_id"@, StoredAs::String)
            &&& has_text(doc, "systemd_invocation_id"@, told(msg, "_SYSTEMD_INVOCATION_ID"@))
            &&& kept(our_schema())[35] == ("hostname"@, StoredAs::String)
            &&& has_fixed(doc, "hostname"@, msg.host)
            &&& kept(our_schema())[36] == ("transport"@, StoredAs::String)
            &&& has_text(doc, "transport"@, told(msg, "_TRANSPORT"@))
            &&& kept(our_schema())[37] == ("stream_id"@, StoredAs::String)
            &&& has_text(doc, "stream_id"@, told(msg, "_STREAM_ID"@))
            &&& kept(our_schema())[38] == ("line_break"@, StoredAs::String)
            &&& has_text(doc, "line_break"@, told(msg, "_LINE_BREAK"@))
            &&& kept(our_schema())[39] == ("namespace"@, StoredAs::String)
            &&& has_text(doc, "namespace"@, told(msg, "_NAMESPACE"@))
            &&& kept(our_schema())[40] == ("kernel_device"@, StoredAs::Text)
            &&& has_text(doc, "kernel_device"@, told(msg, "_KERNEL_DEVICE"@))
            &&& kept(our_schema())[41] == ("kernel_subsystem"@, StoredAs::String)
            &&& has_text(doc, "kernel_subsystem"@, told(msg, "_KERNEL_SUBSYSTEM"@))
            &&& kept(our_schema())[42] == ("udev_sysname"@, StoredAs::Text)
            &&& has_text(doc, "udev_sysname"@, told(msg, "_UDEV_SYSNAME"@))
            &&& kept(our_schema())[43] == ("udev_devnode"@, StoredAs::Text)
            &&& has_text(doc, "udev_devnode"@, told(msg, "_UDEV_DEVNODE"@))
            &&& kept(our_schema())[44] == ("udev_devlink"@, StoredAs::Text)
            &&& has_text(doc, "udev_devlink"@, told(msg, "_UDEV_DEVLINK"@))
            &&& kept(our_schema())[45] == ("coredump_unit"@, StoredAs::Text)
            &&& has_text(doc, "coredump_unit"@, told(msg, "_COREDUMP_UNIT"@))
            &&& kept(our_schema())[46] == ("coredump_user_unit"@, StoredAs::Text)
            &&& has_text(doc, "coredump_user_unit"@, told(msg, "_COREDUMP_USER_UNIT"@))
            &&& kept(our_schema())[47] == ("object_pid"@, StoredAs::U64)
            &&& has_number(doc, "object_pid"@, told(msg, "_OBJECT_PID"@))
            &&& kept(our_schema())[48] == ("object_uid"@, StoredAs::U64)
            &&& has_number(doc, "object_uid"@, told(msg, "_OBJECT_UID"@))
            &&& kept(our_schema())[49] == ("object_gid"@, StoredAs::U64)
            &&& has_number(doc, "object_gid"@, told(msg, "_OBJECT_GID"@))
            &&& kept(our_schema())[50] == ("object_comm"@, StoredAs::String)
            &&& has_text(doc, "object_comm"@, told(msg, "_OBJECT_COMM"@))
            &&& kept(our_schema())[51] == ("object_exe"@, StoredAs::String)
            &&& has_text(doc, "object_exe"@, told(msg, "_OBJECT_EXE"@))
            &&& kept(our_schema())[52] == ("object_cmdline"@, StoredAs::Text)
            &&& has_text(doc, "object_cmdline"@, told(msg, "_OBJECT_CMDLINE"@))
            &&& kept(our_schema())[53] == ("object_audit_session"@, StoredAs::U64)
            &&& has_number(doc, "object_audit_session"@, told(msg, "_OBJECT_AUDIT_SESSION"@))
            &&& kept(our_schema())[54] == ("object_audit_loginuid"@, StoredAs::U64)
            &&& has_number(doc, "object_audit_loginuid"@, told(msg, "_OBJECT_AUDIT_LOGINUID"@))
            &&& kept(our_schema())[55] == ("object_systemd_cgroup"@, StoredAs::Text)
            &&& has_text(doc, "object_systemd_cgroup"@, told(msg, "_OBJECT_SYSTEMD_CGROUP"@))
            &&& kept(our_schema())[56] == ("object_systemd_session"@, StoredAs::String)
            &&& has_text(doc, "object_systemd_session"@, told(msg, "_OBJECT_SYSTEMD_SESSION"@))
            &&& kept(our_schema())[57] == ("object_systemd_owner_uid"@, StoredAs::U64)
            &&& has_number(
                    doc,
                    "object_systemd_owner_uid"@,
                    told(msg, "_OBJECT_SYSTEMD_OWNER_UID"@),
                )
            &&& kept(our_schema())[58] == ("object_systemd_unit"@, StoredAs::Text)
            &&& has_text(doc, "object_systemd_unit"@, told(msg, "_OBJECT_SYSTEMD_UNIT"@))
            &&& kept(our_schema())[59] == ("object_systemd_user_unit"@, StoredAs::Text)
            &&& has_text(
                    doc,
                    "object_systemd_user_unit"@,
                    told(msg, "_OBJECT_SYSTEMD_USER_UNIT"@),
                )
            &&& kept(our_schema())[60] == ("recv_rt_timestamp"@, StoredAs::FastU64)
            &&& has_number(doc, "recv_rt_timestamp"@, told(msg, "___REALTIME_TIMESTAMP"@))
            &&& kept(our_schema())[61] == ("recv_mt_timestamp"@, StoredAs::FastU64)
            &&& has_number(doc, "recv_mt_timestamp"@, told(msg, "___MONOTONIC_TIMESTAMP"@))
        }),
{
    let doc = extracted(our_schema(), msg, year);
    lemma_special(msg, year);
    assert(our_entry(0).name == "message"@);
    assert(kept(our_schema())[0] == ("message"@, StoredAs::Text));
    assert({
        &&& kept(our_schema())[1] == ("full_message"@, StoredAs::Text)
        &&& has_text(doc, "full_message"@, told(msg, "full_message"@))
    }) by {
        reveal_strlit("full_message");
        lemma_text(msg, year, 1, "full_message"@);
    }
    assert({
        &&& kept(our_schema())[2] == ("message_id"@, StoredAs::String)
        &&& has_text(doc, "message_id"@, told(msg, "_MESSAGE_ID"@))
    }) by {
        reveal_strlit("_MESSAGE_ID");
        lemma_text(msg, year, 2, "_MESSAGE_ID"@);
    }
    assert({
        &&& kept(our_schema())[3] == ("priority"@, StoredAs::U64)
        &&& has_later_number(doc, "priority"@, told(msg, "level"@), told(msg, "_PRIORITY"@))
    }) by {
        reveal_strlit("level");
        reveal_strlit("_PRIORITY");
        lemma_two_numbers(msg, year, 3, "level"@, "_PRIORITY"@);
    }
    assert({
        &&& kept(our_schema())[4] == ("code_file"@, StoredAs::Text)
        &&& has_text(doc, "code_file"@, either(told(msg, "_CODE_FILE"@), told(msg, "file"@)))
    }) by {
        reveal_strlit("file");
        reveal_strlit("_CODE_FILE");
        lemma_texts(msg, year, 4, "file"@, "_CODE_FILE"@);
    }
    assert({
        &&& kept(our_schema())[5] == ("code_line"@, StoredAs::U64)
        &&& has_later_number(doc, "code_line"@, told(msg, "line"@), told(msg, "_CODE_LINE"@))
    }) by {
        reveal_strlit("line");
        reveal_strlit("_CODE_LINE");
        lemma_two_numbers(msg, year, 5, "line"@, "_CODE_LINE"@);
    }
    assert({
        &&& kept(our_schema())[6] == ("code_func"@, StoredAs::String)
        &&& has_text(
                doc,
                "code_func"@,
                either(told(msg, "_function"@), told(msg, "_CODE_FUNC"@)),
            )
    }) by {
        reveal_strlit("_CODE_FUNC");
        reveal_strlit("_function");
        lemma_texts(msg, year, 6, "_CODE_FUNC"@, "_function"@);
    }
    assert(our_entry(7).name == "errno"@);
    assert(kept(our_schema())[7] == ("errno"@, StoredAs::I64));
    assert({
        &&& kept(our_schema())[8] == ("invocation_id"@, StoredAs::String)
        &&& has_text(doc, "invocation_id"@, told(msg, "_INVOCATION_ID"@))
    }) by {
        reveal_strlit("_INVOCATION_ID");
        lemma_text(msg, year, 8, "_INVOCATION_ID"@);
    }
    assert({
        &&& kept(our_schema())[9] == ("user_invocation_id"@, StoredAs::String)
        &&& has_text(doc, "user_invocation_id"@, told(msg, "_USER_INVOCATION_ID"@))
    }) by {
        reveal_strlit("_USER_INVOCATION_ID");
        lemma_text(msg, year, 9, "_USER_INVOCATION_ID"@);
    }
    assert({
        &&& kept(our_schema())[10] == ("syslog_facility"@, StoredAs::String)
        &&& has_text(
                doc,
                "syslog_facility"@,
                either(told(msg, "_SYSLOG_FACILITY"@), told(msg, "facility"@)),
            )
    }) by {
        reveal_strlit("facility");
        reveal_strlit("_SYSLOG_FACILITY");
        lemma_texts(msg, year, 10, "facility"@, "_SYSLOG_FACILITY"@);
    }
    assert({
        &&& kept(our_schema())[11] == ("syslog_identifier"@, StoredAs::String)
        &&& has_text(doc, "syslog_identifier"@, told(msg, "_SYSLOG_IDENTIFIER"@))
    }) by {
        reveal_strlit("_SYSLOG_IDENTIFIER");
        lemma_text(msg, year, 11, "_SYSLOG_IDENTIFIER"@);
    }
    assert({
        &&& kept(our_schema())[12] == ("syslog_pid"@, StoredAs::U64)
        &&& has_number(doc, "syslog_pid"@, told(msg, "_SYSLOG_PID"@))
    }) by {
        reveal_strlit("_SYSLOG_PID");
        lemma_number(msg, year, 12, "_SYSLOG_PID"@);
    }
    assert(our_entry(13).name == "syslog_timestamp"@);
    assert(kept(our_schema())[13] == ("syslog_timestamp"@, StoredAs::FastU64));
    assert({
        &&& kept(our_schema())[14] == ("pid"@, StoredAs::U64)
        &&& has_number(doc, "pid"@, told(msg, "_PID"@))
    }) by {
        reveal_strlit("_PID");
        lemma_number(msg, year, 14, "_PID"@);
    }
    assert({
        &&& kept(our_schema())[15] == ("uid"@, StoredAs::U64)
        &&& has_number(doc, "uid"@, told(msg, "_UID"@))
    }) by {
        reveal_strlit("_UID");
        lemma_number(msg, year, 15, "_UID"@);
    }
    assert({
        &&& kept(our_schema())[16] == ("gid"@, StoredAs::U64)
        &&& has_number(doc, "gid"@, told(msg, "_GID"@))
    }) by {
        reveal_strlit("_GID");
        lemma_number(msg, year, 16, "_GID"@);
    }
    assert({
        &&& kept(our_schema())[17] == ("comm"@, StoredAs::String)
        &&& has_text(doc, "comm"@, told(msg, "_COMM"@))
    }) by {
        reveal_strlit("_COMM");
        lemma_text(msg, year, 17, "_COMM"@);
    }
    assert({
        &&& kept(our_schema())[18] == ("exe"@, StoredAs::String)
        &&& has_text(doc, "exe"@, told(msg, "_EXE"@))
    }) by {
        reveal_strlit("_EXE");
        lemma_text(msg, year, 18, "_EXE"@);
    }
    assert({
        &&& kept(our_schema())[19] == ("cmdline"@, StoredAs::Text)
        &&& has_text(doc, "cmdline"@, told(msg, "_CMDLINE"@))
    }) by {
        reveal_strlit("_CMDLINE");
        lemma_text(msg, year, 19, "_CMDLINE"@);
    }
    assert(our_entry(20).name == "cap_effective"@);
    assert(kept(our_schema())[20] == ("cap_effective"@, StoredAs::U64));
    assert({
        &&& kept(our_schema())[21] == ("audit_session"@, StoredAs::U64)
        &&& has_number(doc, "audit_session"@, told(msg, "_AUDIT_SESSION"@))
    }) by {
        reveal_strlit("_AUDIT_SESSION");
        lemma_number(msg, year, 21, "_AUDIT_SESSION"@);
    }
    assert({
        &&& kept(our_schema())[22] == ("audit_loginuid"@, StoredAs::U64)
        &&& has_number(doc, "audit_loginuid"@, told(msg, "_AUDIT_LOGINUID"@))
    }) by {
        reveal_strlit("_AUDIT_LOGINUID");
        lemma_number(msg, year, 22, "_AUDIT_LOGINUID"@);
    }
    assert({
        &&& kept(our_schema())[23] == ("systemd_cgroup"@, StoredAs::Text)
        &&& has_text(doc, "systemd_cgroup"@, told(msg, "_SYSTEMD_CGROUP"@))
    }) by {
        reveal_strlit("_SYSTEMD_CGROUP");
        lemma_text(msg, year, 23, "_SYSTEMD_CGROUP"@);
    }
    assert({
        &&& kept(our_schema())[24] == ("systemd_slice"@, StoredAs::Text)
        &&& has_text(doc, "systemd_slice"@, told(msg, "_SYSTEMD_SLICE"@))
    }) by {
        reveal_strlit("_SYSTEMD_SLICE");
        lemma_text(msg, year, 24, "_SYSTEMD_SLICE"@);
    }
    assert({
        &&& kept(our_schema())[25] == ("systemd_unit"@, StoredAs::Text)
        &&& has_text(doc, "systemd_unit"@, told(msg, "_SYSTEMD_UNIT"@))
    }) by {
        reveal_strlit("_SYSTEMD_UNIT");
        lemma_text(msg, year, 25, "_SYSTEMD_UNIT"@);
    }
    assert({
        &&& kept(our_schema())[26] == ("systemd_user_unit"@, StoredAs::Text)
        &&& has_text(doc, "systemd_user_unit"@, told(msg, "_SYSTEMD_USER_UNIT"@))
    }) by {
        reveal_strlit("_SYSTEMD_USER_UNIT");
        lemma_text(msg, year, 26, "_SYSTEMD_USER_UNIT"@);
    }
    assert({
        &&& kept(our_schema())[27] == ("systemd_user_slice"@, StoredAs::Text)
        &&& has_text(doc, "systemd_user_slice"@, told(msg, "_SYSTEMD_USER_SLICE"@))
    }) by {
        reveal_strlit("_SYSTEMD_USER_SLICE");
        lemma_text(msg, year, 27, "_SYSTEMD_USER_SLICE"@);
    }
    assert({
        &&& kept(our_schema())[28] == ("systemd_session"@, StoredAs::String)
        &&& has_text(doc, "systemd_session"@, told(msg, "_SYSTEMD_SESSION"@))
    }) by {
        reveal_strlit("_SYSTEMD_SESSION");
        lemma_text(msg, year, 28, "_SYSTEMD_SESSION"@);
    }
    assert({
        &&& kept(our_schema())[29] == ("systemd_owner_uid"@, StoredAs::U64)
        &&& has_number(doc, "systemd_owner_uid"@, told(msg, "_SYSTEMD_OWNER_UID"@))
    }) by {
        reveal_strlit("_SYSTEMD_OWNER_UID");
        lemma_number(msg, year, 29, "_SYSTEMD_OWNER_UID"@);
    }
    assert({
        &&& kept(our_schema())[30] == ("selinux_context"@, StoredAs::String)
        &&& has_text(doc, "selinux_context"@, told(msg, "_SELINUX_CONTEXT"@))
    }) by {
        reveal_strlit("_SELINUX_CONTEXT");
        lemma_text(msg, year, 30, "_SELINUX_CONTEXT"@);
    }
    assert(our_entry(31).name == "source_timestamp"@);
    assert(kept(our_schema())[31] == ("source_timestamp"@, StoredAs::FastU64));
    assert({
        &&& kept(our_schema())[32] == ("boot_id"@, StoredAs::String)
        &&& has_text(doc, "boot_id"@, told(msg, "_BOOT_ID"@))
    }) by {
        reveal_strlit("_BOOT_ID");
        lemma_text(msg, year, 32, "_BOOT_ID"@);
    }
    assert({
        &&& kept(our_schema())[33] == ("machine_id"@, StoredAs::String)
        &&& has_text(doc, "machine_id"@, told(msg, "_MACHINE_ID"@))
    }) by {
        reveal_strlit("_MACHINE_ID");
        lemma_text(msg, year, 33, "_MACHINE_ID"@);
    }
    assert({
        &&& kept(our_schema())[34] == ("systemd_invocation_id"@, StoredAs::String)
        &&& has_text(doc, "systemd_invocation_id"@, told(msg, "_SYSTEMD_INVOCATION_ID"@))
    }) by {
        reveal_strlit("_SYSTEMD_INVOCATION_ID");
        lemma_text(msg, year, 34, "_SYSTEMD_INVOCATION_ID"@);
    }
    assert(our_entry(35).name == "hostname"@);
    assert(kept(our_schema())[35] == ("hostname"@, StoredAs::String));
    assert({
        &&& kept(our_schema())[36] == ("transport"@, StoredAs::String)
        &&& has_text(doc, "transport"@, told(msg, "_TRANSPORT"@))
    }) by {
        reveal_strlit("_TRANSPORT");
        lemma_text(msg, year, 36, "_TRANSPORT"@);
    }
    assert({
        &&& kept(our_schema())[37] == ("stream_id"@, StoredAs::String)
        &&& has_text(doc, "stream_id"@, told(msg, "_STREAM_ID"@))
    }) by {
        reveal_strlit("_STREAM_ID");
        lemma_text(msg, year, 37, "_STREAM_ID"@);
    }
    assert({
        &&& kept(our_schema())[38] == ("line_break"@, StoredAs::String)
        &&& has_text(doc, "line_break"@, told(msg, "_LINE_BREAK"@))
    }) by {
        reveal_strlit("_LINE_BREAK");
        lemma_text(msg, year, 38, "_LINE_BREAK"@);
    }
    assert({
        &&& kept(our_schema())[39] == ("namespace"@, StoredAs::String)
        &&& has_text(doc, "namespace"@, told(msg, "_NAMESPACE"@))
    }) by {
        reveal_strlit("_NAMESPACE");
        lemma_text(msg, year, 39, "_NAMESPACE"@);
    }
    assert({
        &&& kept(our_schema())[40] == ("kernel_device"@, StoredAs::Text)
        &&& has_text(doc, "kernel_device"@, told(msg, "_KERNEL_DEVICE"@))
    }) by {
        reveal_strlit("_KERNEL_DEVICE");
        lemma_text(msg, year, 40, "_KERNEL_DEVICE"@);
    }
    assert({
        &&& kept(our_schema())[41] == ("kernel_subsystem"@, StoredAs::String)
        &&& has_text(doc, "kernel_subsystem"@, told(msg, "_KERNEL_SUBSYSTEM"@))
    }) by {
        reveal_strlit("_KERNEL_SUBSYSTEM");
        lemma_text(msg, year, 41, "_KERNEL_SUBSYSTEM"@);
    }
    assert({
        &&& kept(our_schema())[42] == ("udev_sysname"@, StoredAs::Text)
        &&& has_text(doc, "udev_sysname"@, told(msg, "_UDEV_SYSNAME"@))
    }) by {
        reveal_strlit("_UDEV_SYSNAME");
        lemma_text(msg, year, 42, "_UDEV_SYSNAME"@);
    }
    assert({
        &&& kept(our_schema())[43] == ("udev_devnode"@, StoredAs::Text)
        &&& has_text(doc, "udev_devnode"@, told(msg, "_UDEV_DEVNODE"@))
    }) by {
        reveal_strlit("_UDEV_DEVNODE");
        lemma_text(msg, year, 43, "_UDEV_DEVNODE"@);
    }
    assert({
        &&& kept(our_schema())[44] == ("udev_devlink"@, StoredAs::Text)
        &&& has_text(doc, "udev_devlink"@, told(msg, "_UDEV_DEVLINK"@))
    }) by {
        reveal_strlit("_UDEV_DEVLINK");
        lemma_text(msg, year, 44, "_UDEV_DEVLINK"@);
    }
    assert({
        &&& kept(our_schema())[45] == ("coredump_unit"@, StoredAs::Text)
        &&& has_text(doc, "coredump_unit"@, told(msg, "_COREDUMP_UNIT"@))
    }) by {
        reveal_strlit("_COREDUMP_UNIT");
        lemma_text(msg, year, 45, "_COREDUMP_UNIT"@);
    }
    assert({
        &&& kept(our_schema())[46] == ("coredump_user_unit"@, StoredAs::Text)
        &&& has_text(doc, "coredump_user_unit"@, told(msg, "_COREDUMP_USER_UNIT"@))
    }) by {
        reveal_strlit("_COREDUMP_USER_UNIT");
        lemma_text(msg, year, 46, "_COREDUMP_USER_UNIT"@);
    }
    assert({
        &&& kept(our_schema())[47] == ("object_pid"@, StoredAs::U64)
        &&& has_number(doc, "object_pid"@, told(msg, "_OBJECT_PID"@))
    }) by {
        reveal_strlit("_OBJECT_PID");
        lemma_number(msg, year, 47, "_OBJECT_PID"@);
    }
    assert({
        &&& kept(our_schema())[48] == ("object_uid"@, StoredAs::U64)
        &&& has_number(doc, "object_uid"@, told(msg, "_OBJECT_UID"@))
    }) by {
        reveal_strlit("_OBJECT_UID");
        lemma_number(msg, year, 48, "_OBJECT_UID"@);
    }
    assert({
        &&& kept(our_schema())[49] == ("object_gid"@, StoredAs::U64)
        &&& has_number(doc, "object_gid"@, told(msg, "_OBJECT_GID"@))
    }) by {
        reveal_strlit("_OBJECT_GID");
        lemma_number(msg, year, 49, "_OBJECT_GID"@);
    }
    assert({
        &&& kept(our_schema())[50] == ("object_comm"@, StoredAs::String)
        &&& has_text(doc, "object_comm"@, told(msg, "_OBJECT_COMM"@))
    }) by {
        reveal_strlit("_OBJECT_COMM");
        lemma_text(msg, year, 50, "_OBJECT_COMM"@);
    }
    assert({
        &&& kept(our_schema())[51] == ("object_exe"@, StoredAs::String)
        &&& has_text(doc, "object_exe"@, told(msg, "_OBJECT_EXE"@))
    }) by {
        reveal_strlit("_OBJECT_EXE");
        lemma_text(msg, year, 51, "_OBJECT_EXE"@);
    }
    assert({
        &&& kept(our_schema())[52] == ("object_cmdline"@, StoredAs::Text)
        &&& has_text(doc, "object_cmdline"@, told(msg, "_OBJECT_CMDLINE"@))
    }) by {
        reveal_strlit("_OBJECT_CMDLINE");
        lemma_text(msg, year, 52, "_OBJECT_CMDLINE"@);
    }
    assert({
        &&& kept(our_schema())[53] == ("object_audit_session"@, StoredAs::U64)
        &&& has_number(doc, "object_audit_session"@, told(msg, "_OBJECT_AUDIT_SESSION"@))
    }) by {
        reveal_strlit("_OBJECT_AUDIT_SESSION");
        lemma_number(msg, year, 53, "_OBJECT_AUDIT_SESSION"@);
    }
    assert({
        &&& kept(our_schema())[54] == ("object_audit_loginuid"@, StoredAs::U64)
        &&& has_number(doc, "object_audit_loginuid"@, told(msg, "_OBJECT_AUDIT_LOGINUID"@))
    }) by {
        reveal_strlit("_OBJECT_AUDIT_LOGINUID");
        lemma_number(msg, year, 54, "_OBJECT_AUDIT_LOGINUID"@);
    }
    assert({
        &&& kept(our_schema())[55] == ("object_systemd_cgroup"@, StoredAs::Text)
        &&& has_text(doc, "object_systemd_cgroup"@, told(msg, "_OBJECT_SYSTEMD_CGROUP"@))
    }) by {
        reveal_strlit("_OBJECT_SYSTEMD_CGROUP");
        lemma_text(msg, year, 55, "_OBJECT_SYSTEMD_CGROUP"@);
    }
    assert({
        &&& kept(our_schema())[56] == ("object_systemd_session"@, StoredAs::String)
        &&& has_text(doc, "object_systemd_session"@, told(msg, "_OBJECT_SYSTEMD_SESSION"@))
    }) by {
        reveal_strlit("_OBJECT_SYSTEMD_SESSION");
        lemma_text(msg, year, 56, "_OBJECT_SYSTEMD_SESSION"@);
    }
    assert({
        &&& kept(our_schema())[57] == ("object_systemd_owner_uid"@, StoredAs::U64)
        &&& has_number(
                doc,
                "object_systemd_owner_uid"@,
                told(msg, "_OBJECT_SYSTEMD_OWNER_UID"@),
            )
    }) by {
        reveal_strlit("_OBJECT_SYSTEMD_OWNER_UID");
        lemma_number(msg, year, 57, "_OBJECT_SYSTEMD_OWNER_UID"@);
    }
    assert({
        &&& kept(our_schema())[58] == ("object_systemd_unit"@, StoredAs::Text)
        &&& has_text(doc, "object_systemd_unit"@, told(msg, "_OBJECT_SYSTEMD_UNIT"@))
    }) by {
        reveal_strlit("_OBJECT_SYSTEMD_UNIT");
        lemma_text(msg, year, 58, "_OBJECT_SYSTEMD_UNIT"@);
    }
    assert({
        &&& kept(our_schema())[59] == ("object_systemd_user_unit"@, StoredAs::Text)
        &&& has_text(doc, "object_systemd_user_unit"@, told(msg, "_OBJECT_SYSTEMD_USER_UNIT"@))
    }) by {
        reveal_strlit("_OBJECT_SYSTEMD_USER_UNIT");
        lemma_text(msg, year, 59, "_OBJECT_SYSTEMD_USER_UNIT"@);
    }
    assert({
        &&& kept(our_schema())[60] == ("recv_rt_timestamp"@, StoredAs::FastU64)
        &&& has_number(doc, "recv_rt_timestamp"@, told(msg, "___REALTIME_TIMESTAMP"@))
    }) by {
        reveal_strlit("___REALTIME_TIMESTAMP");
        lemma_number(msg, year, 60, "___REALTIME_TIMESTAMP"@);
    }
    assert({
        &&& kept(our_schema())[61] == ("recv_mt_timestamp"@, StoredAs::FastU64)
        &&& has_number(doc, "recv_mt_timestamp"@, told(msg, "___MONOTONIC_TIMESTAMP"@))
    }) by {
        reveal_strlit("___MONOTONIC_TIMESTAMP");
        lemma_number(msg, year, 61, "___MONOTONIC_TIMESTAMP"@);
    }
}

/// A document has no other fields.
pub proof fn toshi_document_has_no_other_fields(
    msg: GelfView,
    year: Option<Seq<char>>,
    name: Seq<char>,
)
    ensures
        extracted(our_schema(), msg, year).contains_key(name) ==> exists|i: int|
            0 <= i < 62 && (#[trigger] our_schema()[i]).name == name,
{
    lemma_no_others(our_schema(), msg, year, name);
}

/// A document has no fields but those of the schema.
proof fn lemma_no_others(
    schema: Seq<EntryView>,
    msg: GelfView,
    year: Option<Seq<char>>,
    name: Seq<char>,
)
    ensures
        extracted(schema, msg, year).contains_key(name) ==> exists|i: int|
            0 <= i < schema.len() && (#[trigger] schema[i]).name == name,
    decreases schema.len(),
{
    if schema.len() > 0 {
        let front = schema.drop_last();
        lemma_no_others(front, msg, year, name);
        assert(schema[schema.len() - 1] == schema.last());
        if exists|i: int| 0 <= i < front.len() && (#[trigger] front[i]).name == name {
            let i = choose|i: int| 0 <= i < front.len() && (#[trigger] front[i]).name == name;
            assert(schema[i].name == name);
        }
    }
}

} // verus!
