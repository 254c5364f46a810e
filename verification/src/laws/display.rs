//! Documents as they are shown.
use vstd::prelude::*;

use crate::json::FieldView;
use crate::number::{decimal, digits, signed_decimal};
use crate::schema::column::ColumnView;
use crate::schema::display::{display_text, shown, time_text, utc_text};
use crate::schema::document::{
    column_names_differ, distinct_names, document_column, document_columns, values_fit,
};
use crate::schema::generate::display_of;

verus! {

/// A text is shown as it is.
pub open spec fn shows_text(
    m: Map<Seq<char>, Seq<char>>,
    name: Seq<char>,
    v: Option<FieldView>,
) -> bool {
    match v {
        Some(v) => m.contains_key(name) && FieldView::Text(m[name]) == v,
        None => !m.contains_key(name),
    }
}

/// A number is shown in decimal notation.
pub open spec fn shows_number(
    m: Map<Seq<char>, Seq<char>>,
    name: Seq<char>,
    v: Option<FieldView>,
) -> bool {
    match v {
        Some(FieldView::U64(n)) => m.contains_key(name) && m[name] == decimal(n as nat),
        Some(FieldView::I64(n)) => m.contains_key(name) && m[name] == signed_decimal(n as int),
        Some(_) => false,
        None => !m.contains_key(name),
    }
}

/// The severity that a number stands for, by the order of their names.
pub open spec fn severity_called(n: int) -> Seq<char> {
    if 0 <= n < 8 {
        seq![
            "Emergency"@,
            "Alert"@,
            "Critical"@,
            "Error"@,
            "Warning"@,
            "Notice"@,
            "Informational"@,
            "Debug"@,
        ][n]
    } else {
        "Unknown"@
    }
}

/// A priority is shown in decimal notation, with its severity in parentheses.
pub open spec fn shows_priority(
    m: Map<Seq<char>, Seq<char>>,
    name: Seq<char>,
    v: Option<FieldView>,
) -> bool {
    match v {
        Some(FieldView::U64(n)) => m.contains_key(name) && m[name] == decimal(n as nat) + seq![
            ' ',
            '(',
        ] + severity_called(n as int) + seq![')'],
        Some(_) => false,
        None => !m.contains_key(name),
    }
}

/// A number is shown in base sixteen.
pub open spec fn shows_hex(
    m: Map<Seq<char>, Seq<char>>,
    name: Seq<char>,
    v: Option<FieldView>,
) -> bool {
    match v {
        Some(FieldView::U64(n)) => m.contains_key(name) && m[name] == seq!['0', 'x'] + digits(
            n as nat,
            16,
        ),
        Some(_) => false,
        None => !m.contains_key(name),
    }
}

/// Microseconds are shown as the date and time of the seconds in them and the nanoseconds
/// behind those.
pub open spec fn shows_time(
    m: Map<Seq<char>, Seq<char>>,
    name: Seq<char>,
    v: Option<FieldView>,
) -> bool {
    match v {
        Some(FieldView::U64(n)) => m.contains_key(name) && forall|secs: i64, nanos: u32|
            secs * 1_000_000_000 + nanos == n * 1000 && nanos < 1_000_000_000
                ==> match #[trigger] utc_text(secs, nanos) {
                Some(t) => m[name] == t,
                None => m[name].len() == 0,
            },
        Some(_) => false,
        None => !m.contains_key(name),
    }
}

/// Each column with a value is shown under its name, and no other.
proof fn lemma_shown(columns: Seq<ColumnView>, vs: Seq<Option<FieldView>>, i: int)
    requires
        distinct_names(columns),
        columns.len() <= vs.len(),
        0 <= i < columns.len(),
        forall|j: int| 0 <= j < columns.len() ==> (#[trigger] columns[j]).storage.len() > 0,
    ensures
        ({
            let m = shown(columns, vs);
            let c = columns[i];
            match vs[i] {
                Some(v) => m.contains_key(c.name) && m[c.name] == display_text(
                    display_of(c.storage.last(), c.format),
                    v,
                ),
                None => !m.contains_key(c.name),
            }
        }),
    decreases columns.len(),
{
    let front = columns.drop_last();
    let last = columns.len() - 1;
    assert(columns[last] == columns.last());
    assert forall|j: int, k: int| 0 <= j < front.len() && 0 <= k < front.len() && j != k implies (
    #[trigger] front[j]).name != (#[trigger] front[k]).name by {
        assert(columns[j].name != columns[k].name);
    }
    if i < last {
        lemma_shown(front, vs, i);
        assert(columns[i].name != columns[last].name);
    } else {
        lemma_only_columns(front, vs, columns[last].name);
    }
}

/// Only the names of columns are shown.
proof fn lemma_only_columns(columns: Seq<ColumnView>, vs: Seq<Option<FieldView>>, name: Seq<char>)
    ensures
        shown(columns, vs).contains_key(name) ==> exists|i: int|
            0 <= i < columns.len() && (#[trigger] columns[i]).name == name,
    decreases columns.len(),
{
    if columns.len() > 0 {
        let front = columns.drop_last();
        lemma_only_columns(front, vs, name);
        assert(columns[columns.len() - 1] == columns.last());
        if exists|i: int| 0 <= i < front.len() && (#[trigger] front[i]).name == name {
            let i = choose|i: int| 0 <= i < front.len() && (#[trigger] front[i]).name == name;
            assert(columns[i].name == name);
        }
    }
}

/// What is shown of a column of a document.
proof fn lemma_column_shown(vs: Seq<Option<FieldView>>, i: int)
    requires
        values_fit(document_columns(), vs),
        0 <= i < 62,
    ensures
        ({
            let m = shown(document_columns(), vs);
            let c = document_column(i);
            match vs[i] {
                Some(v) => m.contains_key(c.name) && m[c.name] == display_text(
                    display_of(c.storage.last(), c.format),
                    v,
                ),
                None => !m.contains_key(c.name),
            }
        }),
        crate::schema::document::value_fits(document_column(i).kind, vs[i]),
{
    column_names_differ();
    lemma_shown(document_columns(), vs, i);
    assert(document_columns()[i] == document_column(i));
}

/// A time is shown by its seconds and nanoseconds.
proof fn lemma_time_shown(m: Map<Seq<char>, Seq<char>>, name: Seq<char>, n: u64)
    requires
        m.contains_key(name),
        m[name] == time_text(n),
    ensures
        shows_time(m, name, Some(FieldView::U64(n))),
{
    reveal_strlit("");
    assert forall|secs: i64, nanos: u32|
        secs * 1_000_000_000 + nanos == n * 1000 && nanos < 1_000_000_000 implies match #[trigger] utc_text(
        secs,
        nanos,
    ) {
        Some(t) => m[name] == t,
        None => m[name].len() == 0,
    } by {
        assert(secs == n / 1_000_000);
        assert(nanos == (n % 1_000_000) * 1000);
    }
}

/// What is shown of a document: each column that has a value by its name, and no other.
#[verifier::rlimit(100)]
#[verifier::spinoff_prover]
pub proof fn columns_are_shown(vs: Seq<Option<FieldView>>)
    requires
        values_fit(document_columns(), vs),
    ensures
        ({
            let m = shown(document_columns(), vs);
            &&& vs.len() == 62
            &&& shows_time(m, "source_timestamp"@, vs[0])
            &&& shows_text(m, "hostname"@, vs[1])
            &&& shows_text(m, "message"@, vs[2])
            &&& shows_priority(m, "priority"@, vs[3])
            &&& shows_text(m, "full_message"@, vs[4])
            &&& shows_text(m, "message_id"@, vs[5])
            &&& shows_text(m, "code_file"@, vs[6])
            &&& shows_number(m, "code_line"@, vs[7])
            &&& shows_text(m, "code_func"@, vs[8])
            &&& shows_number(m, "errno"@, vs[9])
            &&& shows_text(m, "invocation_id"@, vs[10])
            &&& shows_text(m, "user_invocation_id"@, vs[11])
            &&& shows_text(m, "facility"@, vs[12])
            &&& shows_text(m, "syslog_identifier"@, vs[13])
            &&& shows_number(m, "syslog_pid"@, vs[14])
            &&& shows_time(m, "syslog_timestamp"@, vs[15])
            &&& shows_number(m, "pid"@, vs[16])
            &&& shows_number(m, "uid"@, vs[17])
            &&& shows_number(m, "gid"@, vs[18])
            &&& shows_text(m, "comm"@, vs[19])
            &&& shows_text(m, "exe"@, vs[20])
            &&& shows_text(m, "cmdline"@, vs[21])
            &&& shows_hex(m, "cap_effective"@, vs[22])
            &&& shows_number(m, "audit_session"@, vs[23])
            &&& shows_number(m, "audit_loginuid"@, vs[24])
            &&& shows_text(m, "systemd_cgroup"@, vs[25])
            &&& shows_text(m, "systemd_slice"@, vs[26])
            &&& shows_text(m, "systemd_unit"@, vs[27])
            &&& shows_text(m, "systemd_user_unit"@, vs[28])
            &&& shows_text(m, "systemd_user_slice"@, vs[29])
            &&& shows_text(m, "systemd_session"@, vs[30])
            &&& shows_number(m, "systemd_owner_uid"@, vs[31])
            &&& shows_text(m, "selinux_context"@, vs[32])
            &&& shows_text(m, "boot_id"@, vs[33])
            &&& shows_text(m, "machine_id"@, vs[34])
            &&& shows_text(m, "systemd_invocation_id"@, vs[35])
            &&& shows_text(m, "transport"@, vs[36])
            &&& shows_text(m, "stream_id"@, vs[37])
            &&& shows_text(m, "line_break"@, vs[38])
            &&& shows_text(m, "namespace"@, vs[39])
            &&& shows_text(m, "kernel_device"@, vs[40])
            &&& shows_text(m, "kernel_subsystem"@, vs[41])
            &&& shows_text(m, "udev_sysname"@, vs[42])
            &&& shows_text(m, "udev_devnode"@, vs[43])
            &&& shows_text(m, "udev_devlink"@, vs[44])
            &&& shows_text(m, "coredump_unit"@, vs[45])
            &&& shows_text(m, "coredump_user_unit"@, vs[46])
            &&& shows_number(m, "object_pid"@, vs[47])
            &&& shows_number(m, "object_uid"@, vs[48])
            &&& shows_number(m, "object_gid"@, vs[49])
            &&& shows_text(m, "object_comm"@, vs[50])
            &&& shows_text(m, "object_exe"@, vs[51])
            &&& shows_text(m, "object_cmdline"@, vs[52])
            &&& shows_number(m, "object_audit_session"@, vs[53])
            &&& shows_number(m, "object_audit_loginuid"@, vs[54])
            &&& shows_text(m, "object_systemd_cgroup"@, vs[55])
            &&& shows_text(m, "object_systemd_session"@, vs[56])
            &&& shows_number(m, "object_systemd_owner_uid"@, vs[57])
            &&& shows_text(m, "object_systemd_unit"@, vs[58])
            &&& shows_text(m, "object_systemd_user_unit"@, vs[59])
            &&& shows_time(m, "recv_rt_timestamp"@, vs[60])
            &&& shows_time(m, "recv_mt_timestamp"@, vs[61])
        }),
        forall|name: Seq<char>| #[trigger]
            shown(document_columns(), vs).contains_key(name) ==> exists|i: int|
                0 <= i < 62 && (#[trigger] document_columns()[i]).name == name && vs[i] is Some,
{
    reveal_strlit(" (");
    reveal_strlit(")");
    reveal_strlit("0x");
    assert(" ("@ =~= seq![' ', '(']);
    assert(")"@ =~= seq![')']);
    assert("0x"@ =~= seq!['0', 'x']);
    let m = shown(document_columns(), vs);
    assert(shows_time(m, "source_timestamp"@, vs[0])) by {
        lemma_column_shown(vs, 0);
        if vs[0] is Some {
            lemma_time_shown(m, "source_timestamp"@, vs[0]->0->U64_0);
        }
    }
    assert(shows_text(m, "hostname"@, vs[1])) by {
        lemma_column_shown(vs, 1);
    }
    assert(shows_text(m, "message"@, vs[2])) by {
        lemma_column_shown(vs, 2);
    }
    assert(shows_priority(m, "priority"@, vs[3])) by {
        lemma_column_shown(vs, 3);
    }
    assert(shows_text(m, "full_message"@, vs[4])) by {
        lemma_column_shown(vs, 4);
    }
    assert(shows_text(m, "message_id"@, vs[5])) by {
        lemma_column_shown(vs, 5);
    }
    assert(shows_text(m, "code_file"@, vs[6])) by {
        lemma_column_shown(vs, 6);
    }
    assert(shows_number(m, "code_line"@, vs[7])) by {
        lemma_column_shown(vs, 7);
    }
    assert(shows_text(m, "code_func"@, vs[8])) by {
        lemma_column_shown(vs, 8);
    }
    assert(shows_number(m, "errno"@, vs[9])) by {
        lemma_column_shown(vs, 9);
    }
    assert(shows_text(m, "invocation_id"@, vs[10])) by {
        lemma_column_shown(vs, 10);
    }
    assert(shows_text(m, "user_invocation_id"@, vs[11])) by {
        lemma_column_shown(vs, 11);
    }
    assert(shows_text(m, "facility"@, vs[12])) by {
        lemma_column_shown(vs, 12);
    }
    assert(shows_text(m, "syslog_identifier"@, vs[13])) by {
        lemma_column_shown(vs, 13);
    }
    assert(shows_number(m, "syslog_pid"@, vs[14])) by {
        lemma_column_shown(vs, 14);
    }
    assert(shows_time(m, "syslog_timestamp"@, vs[15])) by {
        lemma_column_shown(vs, 15);
        if vs[15] is Some {
            lemma_time_shown(m, "syslog_timestamp"@, vs[15]->0->U64_0);
        }
    }
    assert(shows_number(m, "pid"@, vs[16])) by {
        lemma_column_shown(vs, 16);
    }
    assert(shows_number(m, "uid"@, vs[17])) by {
        lemma_column_shown(vs, 17);
    }
    assert(shows_number(m, "gid"@, vs[18])) by {
        lemma_column_shown(vs, 18);
    }
    assert(shows_text(m, "comm"@, vs[19])) by {
        lemma_column_shown(vs, 19);
    }
    assert(shows_text(m, "exe"@, vs[20])) by {
        lemma_column_shown(vs, 20);
    }
    assert(shows_text(m, "cmdline"@, vs[21])) by {
        lemma_column_shown(vs, 21);
    }
    assert(shows_hex(m, "cap_effective"@, vs[22])) by {
        lemma_column_shown(vs, 22);
    }
    assert(shows_number(m, "audit_session"@, vs[23])) by {
        lemma_column_shown(vs, 23);
    }
    assert(shows_number(m, "audit_loginuid"@, vs[24])) by {
        lemma_column_shown(vs, 24);
    }
    assert(shows_text(m, "systemd_cgroup"@, vs[25])) by {
        lemma_column_shown(vs, 25);
    }
    assert(shows_text(m, "systemd_slice"@, vs[26])) by {
        lemma_column_shown(vs, 26);
    }
    assert(shows_text(m, "systemd_unit"@, vs[27])) by {
        lemma_column_shown(vs, 27);
    }
    assert(shows_text(m, "systemd_user_unit"@, vs[28])) by {
        lemma_column_shown(vs, 28);
    }
    assert(shows_text(m, "systemd_user_slice"@, vs[29])) by {
        lemma_column_shown(vs, 29);
    }
    assert(shows_text(m, "systemd_session"@, vs[30])) by {
        lemma_column_shown(vs, 30);
    }
    assert(shows_number(m, "systemd_owner_uid"@, vs[31])) by {
        lemma_column_shown(vs, 31);
    }
    assert(shows_text(m, "selinux_context"@, vs[32])) by {
        lemma_column_shown(vs, 32);
    }
    assert(shows_text(m, "boot_id"@, vs[33])) by {
        lemma_column_shown(vs, 33);
    }
    assert(shows_text(m, "machine_id"@, vs[34])) by {
        lemma_column_shown(vs, 34);
    }
    assert(shows_text(m, "systemd_invocation_id"@, vs[35])) by {
        lemma_column_shown(vs, 35);
    }
    assert(shows_text(m, "transport"@, vs[36])) by {
        lemma_column_shown(vs, 36);
    }
    assert(shows_text(m, "stream_id"@, vs[37])) by {
        lemma_column_shown(vs, 37);
    }
    assert(shows_text(m, "line_break"@, vs[38])) by {
        lemma_column_shown(vs, 38);
    }
    assert(shows_text(m, "namespace"@, vs[39])) by {
        lemma_column_shown(vs, 39);
    }
    assert(shows_text(m, "kernel_device"@, vs[40])) by {
        lemma_column_shown(vs, 40);
    }
    assert(shows_text(m, "kernel_subsystem"@, vs[41])) by {
        lemma_column_shown(vs, 41);
    }
    assert(shows_text(m, "udev_sysname"@, vs[42])) by {
        lemma_column_shown(vs, 42);
    }
    assert(shows_text(m, "udev_devnode"@, vs[43])) by {
        lemma_column_shown(vs, 43);
    }
    assert(shows_text(m, "udev_devlink"@, vs[44])) by {
        lemma_column_shown(vs, 44);
    }
    assert(shows_text(m, "coredump_unit"@, vs[45])) by {
        lemma_column_shown(vs, 45);
    }
    assert(shows_text(m, "coredump_user_unit"@, vs[46])) by {
        lemma_column_shown(vs, 46);
    }
    assert(shows_number(m, "object_pid"@, vs[47])) by {
        lemma_column_shown(vs, 47);
    }
    assert(shows_number(m, "object_uid"@, vs[48])) by {
        lemma_column_shown(vs, 48);
    }
    assert(shows_number(m, "object_gid"@, vs[49])) by {
        lemma_column_shown(vs, 49);
    }
    assert(shows_text(m, "object_comm"@, vs[50])) by {
        lemma_column_shown(vs, 50);
    }
    assert(shows_text(m, "object_exe"@, vs[51])) by {
        lemma_column_shown(vs, 51);
    }
    assert(shows_text(m, "object_cmdline"@, vs[52])) by {
        lemma_column_shown(vs, 52);
    }
    assert(shows_number(m, "object_audit_session"@, vs[53])) by {
        lemma_column_shown(vs, 53);
    }
    assert(shows_number(m, "object_audit_loginuid"@, vs[54])) by {
        lemma_column_shown(vs, 54);
    }
    assert(shows_text(m, "object_systemd_cgroup"@, vs[55])) by {
        lemma_column_shown(vs, 55);
    }
    assert(shows_text(m, "object_systemd_session"@, vs[56])) by {
        lemma_column_shown(vs, 56);
    }
    assert(shows_number(m, "object_systemd_owner_uid"@, vs[57])) by {
        lemma_column_shown(vs, 57);
    }
    assert(shows_text(m, "object_systemd_unit"@, vs[58])) by {
        lemma_column_shown(vs, 58);
    }
    assert(shows_text(m, "object_systemd_user_unit"@, vs[59])) by {
        lemma_column_shown(vs, 59);
    }
    assert(shows_time(m, "recv_rt_timestamp"@, vs[60])) by {
        lemma_column_shown(vs, 60);
        if vs[60] is Some {
            lemma_time_shown(m, "recv_rt_timestamp"@, vs[60]->0->U64_0);
        }
    }
    assert(shows_time(m, "recv_mt_timestamp"@, vs[61])) by {
        lemma_column_shown(vs, 61);
        if vs[61] is Some {
            lemma_time_shown(m, "recv_mt_timestamp"@, vs[61]->0->U64_0);
        }
    }
    assert forall|name: Seq<char>| #[trigger] m.contains_key(name) implies exists|i: int|
        0 <= i < 62 && (#[trigger] document_columns()[i]).name == name && vs[i] is Some by {
        lemma_only_columns(document_columns(), vs, name);
        let i = choose|i: int|
            0 <= i < document_columns().len() && (#[trigger] document_columns()[i]).name == name;
        lemma_column_shown(vs, i);
        assert(document_columns()[i].name == name && vs[i] is Some);
    }
}

} // verus!
