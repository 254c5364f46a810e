//! Columns as they are stored, written and read.
use vstd::prelude::*;

use crate::json::{FieldView, JsonView};
use crate::quickwit::{DatePrecision, MappingView, RecordOption, Tokenizer};
use crate::schema::attr::TantivyType;
use crate::schema::column::ColumnView;
use crate::schema::convert::ConvertError;
use crate::schema::document::{
    column_names_differ, document_column, document_columns, document_fields, hit_values,
    read_field, under, written,
};
use crate::schema::extract::{all_values, Sourced};
use crate::schema::generate::{mapping, stored};
use crate::storage::StoredAs;

verus! {

/// A field is stored and indexed as a text that is one term.
pub open spec fn maps_term(m: MappingView, kept: (Seq<char>, StoredAs), name: Seq<char>) -> bool {
    &&& kept == (name, StoredAs::String)
    &&& m.name == name && m.type_ == "text"@
    &&& m.tokenizer == Some(Tokenizer::Raw) && m.record is None
    &&& m.input_formats.len() == 0 && m.precision is None
    &&& as_usual(m)
}

/// A field is stored and indexed as a text by its words and their places.
pub open spec fn maps_words(m: MappingView, kept: (Seq<char>, StoredAs), name: Seq<char>) -> bool {
    &&& kept == (name, StoredAs::Text)
    &&& m.name == name && m.type_ == "text"@
    &&& m.tokenizer is None && m.record == Some(RecordOption::Position)
    &&& m.input_formats.len() == 0 && m.precision is None
    &&& as_usual(m)
}

/// A field is stored and indexed as an unsigned number.
pub open spec fn maps_number(m: MappingView, kept: (Seq<char>, StoredAs), name: Seq<char>) -> bool {
    &&& kept == (name, StoredAs::U64)
    &&& m.name == name && m.type_ == "u64"@
    &&& m.tokenizer is None && m.record is None
    &&& m.input_formats.len() == 0 && m.precision is None
    &&& as_usual(m)
}

/// A field is stored and indexed as a number with its sign.
pub open spec fn maps_signed(m: MappingView, kept: (Seq<char>, StoredAs), name: Seq<char>) -> bool {
    &&& kept == (name, StoredAs::I64)
    &&& m.name == name && m.type_ == "i64"@
    &&& m.tokenizer is None && m.record is None
    &&& m.input_formats.len() == 0 && m.precision is None
    &&& as_usual(m)
}

/// A field is stored and indexed as a time, to the microsecond.
pub open spec fn maps_time(m: MappingView, kept: (Seq<char>, StoredAs), name: Seq<char>) -> bool {
    &&& kept == (name, StoredAs::Date)
    &&& m.name == name && m.type_ == "datetime"@
    &&& m.tokenizer is None && m.record is None
    &&& m.input_formats == seq!["unix_timestamp"@]
    &&& m.precision == Some(DatePrecision::Microseconds)
    &&& as_usual(m)
}

/// What holds of every field: it is stored and indexed, and no more.
pub open spec fn as_usual(m: MappingView) -> bool {
    &&& m.stored && m.indexed && !m.fieldnorms && !m.fast
    &&& m.description is None && m.output_format is None
}

/// The stored fields of the first columns: one for each.
proof fn lemma_stored(n: int)
    requires
        0 <= n <= 62,
    ensures
        stored(document_columns().take(n)) =~= Seq::new(
            n as nat,
            |i: int| (document_column(i).name, document_column(i).storage[0]),
        ),
    decreases n,
{
    let columns = document_columns().take(n);
    if n > 0 {
        lemma_stored(n - 1);
        assert(columns.drop_last() =~= document_columns().take(n - 1));
        assert(columns.last() == document_column(n - 1));
        assert(document_column(n - 1).storage.len() == 1);
    }
}

/// How each column is mapped and kept, by its name.
#[verifier::rlimit(100)]
#[verifier::spinoff_prover]
pub proof fn columns_are_mapped()
    ensures
        ({
            let m = mapping(document_columns());
            let kept = document_fields();
            &&& m.len() == 62
            &&& kept.len() == 62
            &&& maps_time(m[0], kept[0], "source_timestamp"@)
            &&& maps_term(m[1], kept[1], "hostname"@)
            &&& maps_words(m[2], kept[2], "message"@)
            &&& maps_number(m[3], kept[3], "priority"@)
            &&& maps_words(m[4], kept[4], "full_message"@)
            &&& maps_term(m[5], kept[5], "message_id"@)
            &&& maps_words(m[6], kept[6], "code_file"@)
            &&& maps_number(m[7], kept[7], "code_line"@)
            &&& maps_term(m[8], kept[8], "code_func"@)
            &&& maps_signed(m[9], kept[9], "errno"@)
            &&& maps_term(m[10], kept[10], "invocation_id"@)
            &&& maps_term(m[11], kept[11], "user_invocation_id"@)
            &&& maps_term(m[12], kept[12], "facility"@)
            &&& maps_term(m[13], kept[13], "syslog_identifier"@)
            &&& maps_number(m[14], kept[14], "syslog_pid"@)
            &&& maps_time(m[15], kept[15], "syslog_timestamp"@)
            &&& maps_number(m[16], kept[16], "pid"@)
            &&& maps_number(m[17], kept[17], "uid"@)
            &&& maps_number(m[18], kept[18], "gid"@)
            &&& maps_term(m[19], kept[19], "comm"@)
            &&& maps_term(m[20], kept[20], "exe"@)
            &&& maps_words(m[21], kept[21], "cmdline"@)
            &&& maps_number(m[22], kept[22], "cap_effective"@)
            &&& maps_number(m[23], kept[23], "audit_session"@)
            &&& maps_number(m[24], kept[24], "audit_loginuid"@)
            &&& maps_words(m[25], kept[25], "systemd_cgroup"@)
            &&& maps_words(m[26], kept[26], "systemd_slice"@)
            &&& maps_words(m[27], kept[27], "systemd_unit"@)
            &&& maps_words(m[28], kept[28], "systemd_user_unit"@)
            &&& maps_words(m[29], kept[29], "systemd_user_slice"@)
            &&& maps_term(m[30], kept[30], "systemd_session"@)
            &&& maps_number(m[31], kept[31], "systemd_owner_uid"@)
            &&& maps_term(m[32], kept[32], "selinux_context"@)
            &&& maps_term(m[33], kept[33], "boot_id"@)
            &&& maps_term(m[34], kept[34], "machine_id"@)
            &&& maps_term(m[35], kept[35], "systemd_invocation_id"@)
            &&& maps_term(m[36], kept[36], "transport"@)
            &&& maps_term(m[37], kept[37], "stream_id"@)
            &&& maps_term(m[38], kept[38], "line_break"@)
            &&& maps_term(m[39], kept[39], "namespace"@)
            &&& maps_words(m[40], kept[40], "kernel_device"@)
            &&& maps_term(m[41], kept[41], "kernel_subsystem"@)
            &&& maps_words(m[42], kept[42], "udev_sysname"@)
            &&& maps_words(m[43], kept[43], "udev_devnode"@)
            &&& maps_words(m[44], kept[44], "udev_devlink"@)
            &&& maps_words(m[45], kept[45], "coredump_unit"@)
            &&& maps_words(m[46], kept[46], "coredump_user_unit"@)
            &&& maps_number(m[47], kept[47], "object_pid"@)
            &&& maps_number(m[48], kept[48], "object_uid"@)
            &&& maps_number(m[49], kept[49], "object_gid"@)
            &&& maps_term(m[50], kept[50], "object_comm"@)
            &&& maps_term(m[51], kept[51], "object_exe"@)
            &&& maps_words(m[52], kept[52], "object_cmdline"@)
            &&& maps_number(m[53], kept[53], "object_audit_session"@)
            &&& maps_number(m[54], kept[54], "object_audit_loginuid"@)
            &&& maps_words(m[55], kept[55], "object_systemd_cgroup"@)
            &&& maps_term(m[56], kept[56], "object_systemd_session"@)
            &&& maps_number(m[57], kept[57], "object_systemd_owner_uid"@)
            &&& maps_words(m[58], kept[58], "object_systemd_unit"@)
            &&& maps_words(m[59], kept[59], "object_systemd_user_unit"@)
            &&& maps_time(m[60], kept[60], "recv_rt_timestamp"@)
            &&& maps_time(m[61], kept[61], "recv_mt_timestamp"@)
        }),
{
    lemma_stored(62);
    assert(document_columns().take(62) =~= document_columns());
    let m = mapping(document_columns());
    let kept = document_fields();
    assert(maps_time(m[0], kept[0], "source_timestamp"@)) by {
        assert(document_column(0).storage[0] == TantivyType::Timestamp);
    }
    assert(maps_term(m[1], kept[1], "hostname"@)) by {
        assert(document_column(1).storage[0] == TantivyType::String);
    }
    assert(maps_words(m[2], kept[2], "message"@)) by {
        assert(document_column(2).storage[0] == TantivyType::Text);
    }
    assert(maps_number(m[3], kept[3], "priority"@)) by {
        assert(document_column(3).storage[0] == TantivyType::U64);
    }
    assert(maps_words(m[4], kept[4], "full_message"@)) by {
        assert(document_column(4).storage[0] == TantivyType::Text);
    }
    assert(maps_term(m[5], kept[5], "message_id"@)) by {
        assert(document_column(5).storage[0] == TantivyType::String);
    }
    assert(maps_words(m[6], kept[6], "code_file"@)) by {
        assert(document_column(6).storage[0] == TantivyType::Text);
    }
    assert(maps_number(m[7], kept[7], "code_line"@)) by {
        assert(document_column(7).storage[0] == TantivyType::U64);
    }
    assert(maps_term(m[8], kept[8], "code_func"@)) by {
        assert(document_column(8).storage[0] == TantivyType::String);
    }
    assert(maps_signed(m[9], kept[9], "errno"@)) by {
        assert(document_column(9).storage[0] == TantivyType::I64);
    }
    assert(maps_term(m[10], kept[10], "invocation_id"@)) by {
        assert(document_column(10).storage[0] == TantivyType::String);
    }
    assert(maps_term(m[11], kept[11], "user_invocation_id"@)) by {
        assert(document_column(11).storage[0] == TantivyType::String);
    }
    assert(maps_term(m[12], kept[12], "facility"@)) by {
        assert(document_column(12).storage[0] == TantivyType::String);
    }
    assert(maps_term(m[13], kept[13], "syslog_identifier"@)) by {
        assert(document_column(13).storage[0] == TantivyType::String);
    }
    assert(maps_number(m[14], kept[14], "syslog_pid"@)) by {
        assert(document_column(14).storage[0] == TantivyType::U64);
    }
    assert(maps_time(m[15], kept[15], "syslog_timestamp"@)) by {
        assert(document_column(15).storage[0] == TantivyType::Timestamp);
    }
    assert(maps_number(m[16], kept[16], "pid"@)) by {
        assert(document_column(16).storage[0] == TantivyType::U64);
    }
    assert(maps_number(m[17], kept[17], "uid"@)) by {
        assert(document_column(17).storage[0] == TantivyType::U64);
    }
    assert(maps_number(m[18], kept[18], "gid"@)) by {
        assert(document_column(18).storage[0] == TantivyType::U64);
    }
    assert(maps_term(m[19], kept[19], "comm"@)) by {
        assert(document_column(19).storage[0] == TantivyType::String);
    }
    assert(maps_term(m[20], kept[20], "exe"@)) by {
        assert(document_column(20).storage[0] == TantivyType::String);
    }
    assert(maps_words(m[21], kept[21], "cmdline"@)) by {
        assert(document_column(21).storage[0] == TantivyType::Text);
    }
    assert(maps_number(m[22], kept[22], "cap_effective"@)) by {
        assert(document_column(22).storage[0] == TantivyType::U64);
    }
    assert(maps_number(m[23], kept[23], "audit_session"@)) by {
        assert(document_column(23).storage[0] == TantivyType::U64);
    }
    assert(maps_number(m[24], kept[24], "audit_loginuid"@)) by {
        assert(document_column(24).storage[0] == TantivyType::U64);
    }
    assert(maps_words(m[25], kept[25], "systemd_cgroup"@)) by {
        assert(document_column(25).storage[0] == TantivyType::Text);
    }
    assert(maps_words(m[26], kept[26], "systemd_slice"@)) by {
        assert(document_column(26).storage[0] == TantivyType::Text);
    }
    assert(maps_words(m[27], kept[27], "systemd_unit"@)) by {
        assert(document_column(27).storage[0] == TantivyType::Text);
    }
    assert(maps_words(m[28], kept[28], "systemd_user_unit"@)) by {
        assert(document_column(28).storage[0] == TantivyType::Text);
    }
    assert(maps_words(m[29], kept[29], "systemd_user_slice"@)) by {
        assert(document_column(29).storage[0] == TantivyType::Text);
    }
    assert(maps_term(m[30], kept[30], "systemd_session"@)) by {
        assert(document_column(30).storage[0] == TantivyType::String);
    }
    assert(maps_number(m[31], kept[31], "systemd_owner_uid"@)) by {
        assert(document_column(31).storage[0] == TantivyType::U64);
    }
    assert(maps_term(m[32], kept[32], "selinux_context"@)) by {
        assert(document_column(32).storage[0] == TantivyType::String);
    }
    assert(maps_term(m[33], kept[33], "boot_id"@)) by {
        assert(document_column(33).storage[0] == TantivyType::String);
    }
    assert(maps_term(m[34], kept[34], "machine_id"@)) by {
        assert(document_column(34).storage[0] == TantivyType::String);
    }
    assert(maps_term(m[35], kept[35], "systemd_invocation_id"@)) by {
        assert(document_column(35).storage[0] == TantivyType::String);
    }
    assert(maps_term(m[36], kept[36], "transport"@)) by {
        assert(document_column(36).storage[0] == TantivyType::String);
    }
    assert(maps_term(m[37], kept[37], "stream_id"@)) by {
        assert(document_column(37).storage[0] == TantivyType::String);
    }
    assert(maps_term(m[38], kept[38], "line_break"@)) by {
        assert(document_column(38).storage[0] == TantivyType::String);
    }
    assert(maps_term(m[39], kept[39], "namespace"@)) by {
        assert(document_column(39).storage[0] == TantivyType::String);
    }
    assert(maps_words(m[40], kept[40], "kernel_device"@)) by {
        assert(document_column(40).storage[0] == TantivyType::Text);
    }
    assert(maps_term(m[41], kept[41], "kernel_subsystem"@)) by {
        assert(document_column(41).storage[0] == TantivyType::String);
    }
    assert(maps_words(m[42], kept[42], "udev_sysname"@)) by {
        assert(document_column(42).storage[0] == TantivyType::Text);
    }
    assert(maps_words(m[43], kept[43], "udev_devnode"@)) by {
        assert(document_column(43).storage[0] == TantivyType::Text);
    }
    assert(maps_words(m[44], kept[44], "udev_devlink"@)) by {
        assert(document_column(44).storage[0] == TantivyType::Text);
    }
    assert(maps_words(m[45], kept[45], "coredump_unit"@)) by {
        assert(document_column(45).storage[0] == TantivyType::Text);
    }
    assert(maps_words(m[46], kept[46], "coredump_user_unit"@)) by {
        assert(document_column(46).storage[0] == TantivyType::Text);
    }
    assert(maps_number(m[47], kept[47], "object_pid"@)) by {
        assert(document_column(47).storage[0] == TantivyType::U64);
    }
    assert(maps_number(m[48], kept[48], "object_uid"@)) by {
        assert(document_column(48).storage[0] == TantivyType::U64);
    }
    assert(maps_number(m[49], kept[49], "object_gid"@)) by {
        assert(document_column(49).storage[0] == TantivyType::U64);
    }
    assert(maps_term(m[50], kept[50], "object_comm"@)) by {
        assert(document_column(50).storage[0] == TantivyType::String);
    }
    assert(maps_term(m[51], kept[51], "object_exe"@)) by {
        assert(document_column(51).storage[0] == TantivyType::String);
    }
    assert(maps_words(m[52], kept[52], "object_cmdline"@)) by {
        assert(document_column(52).storage[0] == TantivyType::Text);
    }
    assert(maps_number(m[53], kept[53], "object_audit_session"@)) by {
        assert(document_column(53).storage[0] == TantivyType::U64);
    }
    assert(maps_number(m[54], kept[54], "object_audit_loginuid"@)) by {
        assert(document_column(54).storage[0] == TantivyType::U64);
    }
    assert(maps_words(m[55], kept[55], "object_systemd_cgroup"@)) by {
        assert(document_column(55).storage[0] == TantivyType::Text);
    }
    assert(maps_term(m[56], kept[56], "object_systemd_session"@)) by {
        assert(document_column(56).storage[0] == TantivyType::String);
    }
    assert(maps_number(m[57], kept[57], "object_systemd_owner_uid"@)) by {
        assert(document_column(57).storage[0] == TantivyType::U64);
    }
    assert(maps_words(m[58], kept[58], "object_systemd_unit"@)) by {
        assert(document_column(58).storage[0] == TantivyType::Text);
    }
    assert(maps_words(m[59], kept[59], "object_systemd_user_unit"@)) by {
        assert(document_column(59).storage[0] == TantivyType::Text);
    }
    assert(maps_time(m[60], kept[60], "recv_rt_timestamp"@)) by {
        assert(document_column(60).storage[0] == TantivyType::Timestamp);
    }
    assert(maps_time(m[61], kept[61], "recv_mt_timestamp"@)) by {
        assert(document_column(61).storage[0] == TantivyType::Timestamp);
    }
}

/// An entry is written of each column that has a value, and of the first three in any
/// case.
proof fn lemma_entries(columns: Seq<ColumnView>, vs: Seq<Option<FieldView>>, e: (Seq<char>, Option<
    FieldView,
>))
    ensures
        written(columns, vs).contains(e) <==> exists|i: int|
            0 <= i < columns.len() && e == ((#[trigger] columns[i]).name, vs[i]) && (i < 3 || vs[i] is Some),
    decreases columns.len(),
{
    if columns.len() > 0 {
        let last = columns.len() - 1;
        let front = columns.drop_last();
        let done = written(front, vs);
        lemma_entries(front, vs, e);
        let w = written(columns, vs);
        if w.contains(e) {
            let k = choose|k: int| 0 <= k < w.len() && w[k] == e;
            if k < done.len() {
                assert(done[k] == e);
                let i = choose|i: int|
                    0 <= i < front.len() && e == ((#[trigger] front[i]).name, vs[i]) && (i < 3 || vs[i] is Some);
                assert(e == (columns[i].name, vs[i]));
            } else {
                assert(e == (columns[last].name, vs[last]));
            }
        }
        if exists|i: int|
            0 <= i < columns.len() && e == ((#[trigger] columns[i]).name, vs[i]) && (i < 3 || vs[i] is Some) {
            let i = choose|i: int|
                0 <= i < columns.len() && e == ((#[trigger] columns[i]).name, vs[i]) && (i < 3 || vs[i] is Some);
            if i < last {
                assert(front[i] == columns[i]);
                let k = choose|k: int| 0 <= k < done.len() && done[k] == e;
                assert(w[k] == e);
            } else {
                assert(w[w.len() - 1] == e);
            }
        }
    }
}

/// Which entries a document is written as: each value under the name of its column, and
/// of a column without a value none, but that the time, the host and the message are
/// written as nothing.
pub proof fn document_is_written(vs: Seq<Option<FieldView>>, name: Seq<char>, v: Option<FieldView>)
    requires
        vs.len() == 62,
    ensures
        written(document_columns(), vs).contains((name, v)) <==> (exists|i: int|
            0 <= i < 62 && (#[trigger] document_columns()[i]).name == name && vs[i] == v) && (v is Some
            || name == "source_timestamp"@ || name == "hostname"@ || name == "message"@),
{
    lemma_entries(document_columns(), vs, (name, v));
    column_names_differ();
    let columns = document_columns();
    assert(columns[0].name == "source_timestamp"@);
    assert(columns[1].name == "hostname"@);
    assert(columns[2].name == "message"@);
    if exists|i: int| 0 <= i < 62 && (#[trigger] columns[i]).name == name && vs[i] == v {
        let i = choose|i: int| 0 <= i < 62 && (#[trigger] columns[i]).name == name && vs[i] == v;
        assert((name, v) == (columns[i].name, vs[i]));
        assert(i != 0 ==> columns[i].name != columns[0].name);
        assert(i != 1 ==> columns[i].name != columns[1].name);
        assert(i != 2 ==> columns[i].name != columns[2].name);
    }
}

/// A document all of whose columns have values is written in their order.
pub proof fn full_document_is_written_in_order(vs: Seq<Option<FieldView>>)
    requires
        vs.len() == 62,
        forall|i: int| 0 <= i < 62 ==> (#[trigger] vs[i]) is Some,
    ensures
        written(document_columns(), vs) == Seq::new(
            62,
            |i: int| (document_columns()[i].name, vs[i]),
        ),
{
    lemma_all_written(vs, 62);
    assert(document_columns().take(62) =~= document_columns());
}

/// The first columns, all of which have values, are written in their order.
proof fn lemma_all_written(vs: Seq<Option<FieldView>>, n: int)
    requires
        vs.len() == 62,
        forall|i: int| 0 <= i < 62 ==> (#[trigger] vs[i]) is Some,
        0 <= n <= 62,
    ensures
        written(document_columns().take(n), vs) =~= Seq::new(
            n as nat,
            |i: int| (document_columns()[i].name, vs[i]),
        ),
    decreases n,
{
    let columns = document_columns().take(n);
    if n > 0 {
        lemma_all_written(vs, n - 1);
        assert(columns.drop_last() =~= document_columns().take(n - 1));
        assert(columns[n - 1] == document_columns()[n - 1]);
    }
}

/// A text is read from a hit as it is; where there is none, none.
pub open spec fn reads_text(v: Option<FieldView>, j: Option<JsonView>) -> bool {
    match j {
        None | Some(JsonView::Null) => v is None,
        Some(JsonView::String { text, .. }) => v == Some(FieldView::Text(text)),
        _ => false,
    }
}

/// A number is read from a hit as it is; where there is none, none.
pub open spec fn reads_number(v: Option<FieldView>, j: Option<JsonView>) -> bool {
    match j {
        None | Some(JsonView::Null) => v is None,
        Some(JsonView::Number { as_u64, .. }) => as_u64 matches Some(n) && v == Some(
            FieldView::U64(n),
        ),
        _ => false,
    }
}

/// A number with its sign is read from a hit as it is; where there is none, none.
pub open spec fn reads_signed(v: Option<FieldView>, j: Option<JsonView>) -> bool {
    match j {
        None | Some(JsonView::Null) => v is None,
        Some(JsonView::Number { as_i64, .. }) => as_i64 matches Some(n) && v == Some(
            FieldView::I64(n),
        ),
        _ => false,
    }
}

/// The values that results come to are theirs.
proof fn lemma_values(results: Seq<Sourced>, i: int)
    requires
        0 <= i < results.len(),
    ensures
        all_values(results) matches Ok(vs) ==> vs.len() == results.len() && results[i] == Ok::<
            Option<FieldView>,
            ConvertError,
        >(vs[i]),
    decreases results.len(),
{
    let front = results.drop_last();
    if i < front.len() {
        lemma_values(front, i);
    } else if front.len() > 0 {
        lemma_values(front, 0);
    }
}

/// What a column of a hit is read as.
proof fn lemma_hit(hit: Map<Seq<char>, JsonView>, i: int)
    requires
        0 <= i < 62,
    ensures
        hit_values(document_columns(), hit) matches Ok(vs) ==> vs.len() == 62 && read_field(
            document_column(i).kind,
            under(hit, document_column(i).name),
        ) == Ok::<Option<FieldView>, ConvertError>(vs[i]),
{
    let columns = document_columns();
    lemma_values(
        Seq::new(columns.len(), |i: int| read_field(columns[i].kind, under(hit, columns[i].name))),
        i,
    );
}

/// What a hit tells under a name, where it does.
pub open spec fn found(hit: Map<Seq<char>, JsonView>, name: Seq<char>) -> Option<JsonView> {
    if hit.contains_key(name) {
        Some(hit[name])
    } else {
        None
    }
}

/// A hit that can be read has each column under its name.
#[verifier::rlimit(100)]
#[verifier::spinoff_prover]
pub proof fn hit_is_read(hit: Map<Seq<char>, JsonView>)
    ensures
        hit_values(document_columns(), hit) matches Ok(vs) ==> {
            &&& vs.len() == 62
            &&& reads_number(vs[0], found(hit, "source_timestamp"@))
            &&& reads_text(vs[1], found(hit, "hostname"@))
            &&& reads_text(vs[2], found(hit, "message"@))
            &&& reads_number(vs[3], found(hit, "priority"@))
            &&& reads_text(vs[4], found(hit, "full_message"@))
            &&& reads_text(vs[5], found(hit, "message_id"@))
            &&& reads_text(vs[6], found(hit, "code_file"@))
            &&& reads_number(vs[7], found(hit, "code_line"@))
            &&& reads_text(vs[8], found(hit, "code_func"@))
            &&& reads_signed(vs[9], found(hit, "errno"@))
            &&& reads_text(vs[10], found(hit, "invocation_id"@))
            &&& reads_text(vs[11], found(hit, "user_invocation_id"@))
            &&& reads_text(vs[12], found(hit, "facility"@))
            &&& reads_text(vs[13], found(hit, "syslog_identifier"@))
            &&& reads_number(vs[14], found(hit, "syslog_pid"@))
            &&& reads_number(vs[15], found(hit, "syslog_timestamp"@))
            &&& reads_number(vs[16], found(hit, "pid"@))
            &&& reads_number(vs[17], found(hit, "uid"@))
            &&& reads_number(vs[18], found(hit, "gid"@))
            &&& reads_text(vs[19], found(hit, "comm"@))
            &&& reads_text(vs[20], found(hit, "exe"@))
            &&& reads_text(vs[21], found(hit, "cmdline"@))
            &&& reads_number(vs[22], found(hit, "cap_effective"@))
            &&& reads_number(vs[23], found(hit, "audit_session"@))
            &&& reads_number(vs[24], found(hit, "audit_loginuid"@))
            &&& reads_text(vs[25], found(hit, "systemd_cgroup"@))
            &&& reads_text(vs[26], found(hit, "systemd_slice"@))
            &&& reads_text(vs[27], found(hit, "systemd_unit"@))
            &&& reads_text(vs[28], found(hit, "systemd_user_unit"@))
            &&& reads_text(vs[29], found(hit, "systemd_user_slice"@))
            &&& reads_text(vs[30], found(hit, "systemd_session"@))
            &&& reads_number(vs[31], found(hit, "systemd_owner_uid"@))
            &&& reads_text(vs[32], found(hit, "selinux_context"@))
            &&& reads_text(vs[33], found(hit, "boot_id"@))
            &&& reads_text(vs[34], found(hit, "machine_id"@))
            &&& reads_text(vs[35], found(hit, "systemd_invocation_id"@))
            &&& reads_text(vs[36], found(hit, "transport"@))
            &&& reads_text(vs[37], found(hit, "stream_id"@))
            &&& reads_text(vs[38], found(hit, "line_break"@))
            &&& reads_text(vs[39], found(hit, "namespace"@))
            &&& reads_text(vs[40], found(hit, "kernel_device"@))
            &&& reads_text(vs[41], found(hit, "kernel_subsystem"@))
            &&& reads_text(vs[42], found(hit, "udev_sysname"@))
            &&& reads_text(vs[43], found(hit, "udev_devnode"@))
            &&& reads_text(vs[44], found(hit, "udev_devlink"@))
            &&& reads_text(vs[45], found(hit, "coredump_unit"@))
            &&& reads_text(vs[46], found(hit, "coredump_user_unit"@))
            &&& reads_number(vs[47], found(hit, "object_pid"@))
            &&& reads_number(vs[48], found(hit, "object_uid"@))
            &&& reads_number(vs[49], found(hit, "object_gid"@))
            &&& reads_text(vs[50], found(hit, "object_comm"@))
            &&& reads_text(vs[51], found(hit, "object_exe"@))
            &&& reads_text(vs[52], found(hit, "object_cmdline"@))
            &&& reads_number(vs[53], found(hit, "object_audit_session"@))
            &&& reads_number(vs[54], found(hit, "object_audit_loginuid"@))
            &&& reads_text(vs[55], found(hit, "object_systemd_cgroup"@))
            &&& reads_text(vs[56], found(hit, "object_systemd_session"@))
            &&& reads_number(vs[57], found(hit, "object_systemd_owner_uid"@))
            &&& reads_text(vs[58], found(hit, "object_systemd_unit"@))
            &&& reads_text(vs[59], found(hit, "object_systemd_user_unit"@))
            &&& reads_number(vs[60], found(hit, "recv_rt_timestamp"@))
            &&& reads_number(vs[61], found(hit, "recv_mt_timestamp"@))
        },
{
    if hit_values(document_columns(), hit) is Ok {
        let vs = hit_values(document_columns(), hit)->Ok_0;
        assert(reads_number(vs[0], found(hit, "source_timestamp"@))) by {
            lemma_hit(hit, 0);
        }
        assert(reads_text(vs[1], found(hit, "hostname"@))) by {
            lemma_hit(hit, 1);
        }
        assert(reads_text(vs[2], found(hit, "message"@))) by {
            lemma_hit(hit, 2);
        }
        assert(reads_number(vs[3], found(hit, "priority"@))) by {
            lemma_hit(hit, 3);
        }
        assert(reads_text(vs[4], found(hit, "full_message"@))) by {
            lemma_hit(hit, 4);
        }
        assert(reads_text(vs[5], found(hit, "message_id"@))) by {
            lemma_hit(hit, 5);
        }
        assert(reads_text(vs[6], found(hit, "code_file"@))) by {
            lemma_hit(hit, 6);
        }
        assert(reads_number(vs[7], found(hit, "code_line"@))) by {
            lemma_hit(hit, 7);
        }
        assert(reads_text(vs[8], found(hit, "code_func"@))) by {
            lemma_hit(hit, 8);
        }
        assert(reads_signed(vs[9], found(hit, "errno"@))) by {
            lemma_hit(hit, 9);
        }
        assert(reads_text(vs[10], found(hit, "invocation_id"@))) by {
            lemma_hit(hit, 10);
        }
        assert(reads_text(vs[11], found(hit, "user_invocation_id"@))) by {
            lemma_hit(hit, 11);
        }
        assert(reads_text(vs[12], found(hit, "facility"@))) by {
            lemma_hit(hit, 12);
        }
        assert(reads_text(vs[13], found(hit, "syslog_identifier"@))) by {
            lemma_hit(hit, 13);
        }
        assert(reads_number(vs[14], found(hit, "syslog_pid"@))) by {
            lemma_hit(hit, 14);
        }
        assert(reads_number(vs[15], found(hit, "syslog_timestamp"@))) by {
            lemma_hit(hit, 15);
        }
        assert(reads_number(vs[16], found(hit, "pid"@))) by {
            lemma_hit(hit, 16);
        }
        assert(reads_number(vs[17], found(hit, "uid"@))) by {
            lemma_hit(hit, 17);
        }
        assert(reads_number(vs[18], found(hit, "gid"@))) by {
            lemma_hit(hit, 18);
        }
        assert(reads_text(vs[19], found(hit, "comm"@))) by {
            lemma_hit(hit, 19);
        }
        assert(reads_text(vs[20], found(hit, "exe"@))) by {
            lemma_hit(hit, 20);
        }
        assert(reads_text(vs[21], found(hit, "cmdline"@))) by {
            lemma_hit(hit, 21);
        }
        assert(reads_number(vs[22], found(hit, "cap_effective"@))) by {
            lemma_hit(hit, 22);
        }
        assert(reads_number(vs[23], found(hit, "audit_session"@))) by {
            lemma_hit(hit, 23);
        }
        assert(reads_number(vs[24], found(hit, "audit_loginuid"@))) by {
            lemma_hit(hit, 24);
        }
        assert(reads_text(vs[25], found(hit, "systemd_cgroup"@))) by {
            lemma_hit(hit, 25);
        }
        assert(reads_text(vs[26], found(hit, "systemd_slice"@))) by {
            lemma_hit(hit, 26);
        }
        assert(reads_text(vs[27], found(hit, "systemd_unit"@))) by {
            lemma_hit(hit, 27);
        }
        assert(reads_text(vs[28], found(hit, "systemd_user_unit"@))) by {
            lemma_hit(hit, 28);
        }
        assert(reads_text(vs[29], found(hit, "systemd_user_slice"@))) by {
            lemma_hit(hit, 29);
        }
        assert(reads_text(vs[30], found(hit, "systemd_session"@))) by {
            lemma_hit(hit, 30);
        }
        assert(reads_number(vs[31], found(hit, "systemd_owner_uid"@))) by {
            lemma_hit(hit, 31);
        }
        assert(reads_text(vs[32], found(hit, "selinux_context"@))) by {
            lemma_hit(hit, 32);
        }
        assert(reads_text(vs[33], found(hit, "boot_id"@))) by {
            lemma_hit(hit, 33);
        }
        assert(reads_text(vs[34], found(hit, "machine_id"@))) by {
            lemma_hit(hit, 34);
        }
        assert(reads_text(vs[35], found(hit, "systemd_invocation_id"@))) by {
            lemma_hit(hit, 35);
        }
        assert(reads_text(vs[36], found(hit, "transport"@))) by {
            lemma_hit(hit, 36);
        }
        assert(reads_text(vs[37], found(hit, "stream_id"@))) by {
            lemma_hit(hit, 37);
        }
        assert(reads_text(vs[38], found(hit, "line_break"@))) by {
            lemma_hit(hit, 38);
        }
        assert(reads_text(vs[39], found(hit, "namespace"@))) by {
            lemma_hit(hit, 39);
        }
        assert(reads_text(vs[40], found(hit, "kernel_device"@))) by {
            lemma_hit(hit, 40);
        }
        assert(reads_text(vs[41], found(hit, "kernel_subsystem"@))) by {
            lemma_hit(hit, 41);
        }
        assert(reads_text(vs[42], found(hit, "udev_sysname"@))) by {
            lemma_hit(hit, 42);
        }
        assert(reads_text(vs[43], found(hit, "udev_devnode"@))) by {
            lemma_hit(hit, 43);
        }
        assert(reads_text(vs[44], found(hit, "udev_devlink"@))) by {
            lemma_hit(hit, 44);
        }
        assert(reads_text(vs[45], found(hit, "coredump_unit"@))) by {
            lemma_hit(hit, 45);
        }
        assert(reads_text(vs[46], found(hit, "coredump_user_unit"@))) by {
            lemma_hit(hit, 46);
        }
        assert(reads_number(vs[47], found(hit, "object_pid"@))) by {
            lemma_hit(hit, 47);
        }
        assert(reads_number(vs[48], found(hit, "object_uid"@))) by {
            lemma_hit(hit, 48);
        }
        assert(reads_number(vs[49], found(hit, "object_gid"@))) by {
            lemma_hit(hit, 49);
        }
        assert(reads_text(vs[50], found(hit, "object_comm"@))) by {
            lemma_hit(hit, 50);
        }
        assert(reads_text(vs[51], found(hit, "object_exe"@))) by {
            lemma_hit(hit, 51);
        }
        assert(reads_text(vs[52], found(hit, "object_cmdline"@))) by {
            lemma_hit(hit, 52);
        }
        assert(reads_number(vs[53], found(hit, "object_audit_session"@))) by {
            lemma_hit(hit, 53);
        }
        assert(reads_number(vs[54], found(hit, "object_audit_loginuid"@))) by {
            lemma_hit(hit, 54);
        }
        assert(reads_text(vs[55], found(hit, "object_systemd_cgroup"@))) by {
            lemma_hit(hit, 55);
        }
        assert(reads_text(vs[56], found(hit, "object_systemd_session"@))) by {
            lemma_hit(hit, 56);
        }
        assert(reads_number(vs[57], found(hit, "object_systemd_owner_uid"@))) by {
            lemma_hit(hit, 57);
        }
        assert(reads_text(vs[58], found(hit, "object_systemd_unit"@))) by {
            lemma_hit(hit, 58);
        }
        assert(reads_text(vs[59], found(hit, "object_systemd_user_unit"@))) by {
            lemma_hit(hit, 59);
        }
        assert(reads_number(vs[60], found(hit, "recv_rt_timestamp"@))) by {
            lemma_hit(hit, 60);
        }
        assert(reads_number(vs[61], found(hit, "recv_mt_timestamp"@))) by {
            lemma_hit(hit, 61);
        }
        lemma_hit(hit, 0);
    }
}

} // verus!
