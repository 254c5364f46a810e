//! Values on a page and indexes in the search engines.
use vstd::prelude::*;

use crate::json::JsonView;
use crate::laws::display::severity_called;
use crate::number::{decimal, digits};
use crate::quickwit::{
    create_uri, describe_uri, index_request, ingest_uri, next_wait, wait_after, without_slash,
    MappingView,
};
use crate::schema::display::utc_text;
use crate::toshi::index::{
    first_step, index_name, is_open, next_step, probe, total_docs, Search, Step,
};
use crate::toshi::schema::{by_name, every_field_is_found, our_entry, our_schema, EntryView};
use crate::web::format::{formatted, formatted_field, formatted_seconds};

verus! {

// ---------------------------------------------------------------------------
// Values on a page
// ---------------------------------------------------------------------------

/// Whether the values of the field are written as they are.
pub open spec fn written_as_is(name: Seq<char>, v: JsonView) -> bool {
    match v {
        JsonView::Number { text, .. } => formatted(v, name) == Ok::<Seq<char>, Seq<char>>(text),
        _ => as_it_is(formatted(v, name), v),
    }
}

/// Whether a value that is no number is written as it is: a string without quotes, any
/// other value as JSON.
pub open spec fn as_it_is(res: Result<Seq<char>, Seq<char>>, v: JsonView) -> bool {
    match v {
        JsonView::String { text, .. } => res == Ok::<Seq<char>, Seq<char>>(text),
        JsonView::Compound(text) => res == Ok::<Seq<char>, Seq<char>>(text),
        JsonView::Null => res == Ok::<Seq<char>, Seq<char>>(seq!['n', 'u', 'l', 'l']),
        JsonView::Bool(true) => res == Ok::<Seq<char>, Seq<char>>(seq!['t', 'r', 'u', 'e']),
        JsonView::Bool(false) => res == Ok::<Seq<char>, Seq<char>>(
            seq!['f', 'a', 'l', 's', 'e'],
        ),
        JsonView::Number { .. } => true,
    }
}

/// Whether a number in the field is written as the time so many microseconds after the
/// epoch, and one that is none is an error that names the field.
pub open spec fn written_as_time(name: Seq<char>, v: JsonView) -> bool {
    match v {
        JsonView::Number { as_u64: Some(n), .. } => {
            forall|secs: i64, nanos: u32|
                secs * 1_000_000_000 + nanos == n * 1000 && nanos < 1_000_000_000
                    ==> match #[trigger] utc_text(secs, nanos) {
                    Some(t) => formatted(v, name) == Ok::<Seq<char>, Seq<char>>(t),
                    None => formatted(v, name) == Ok::<Seq<char>, Seq<char>>(Seq::empty()),
                }
        },
        JsonView::Number { as_u64: None, .. } => formatted(v, name) == Err::<
            Seq<char>,
            Seq<char>,
        >("Can't get "@ + name + " as "@ + "u64"@),
        _ => as_it_is(formatted(v, name), v),
    }
}

/// Whether a number in the field is written with its severity in parentheses.
pub open spec fn written_as_priority(name: Seq<char>, v: JsonView) -> bool {
    match v {
        JsonView::Number { text, as_u64, .. } => formatted(v, name) == Ok::<Seq<char>, Seq<char>>(
            text + seq![' ', '('] + (match as_u64 {
                Some(n) => severity_called(n as int),
                None => seq!['N', 'o', 'n', 'e'],
            }) + seq![')'],
        ),
        _ => as_it_is(formatted(v, name), v),
    }
}

/// Whether a number in the field is written in base sixteen.
pub open spec fn written_as_hex(name: Seq<char>, v: JsonView) -> bool {
    match v {
        JsonView::Number { as_u64: Some(n), .. } => formatted(v, name) == Ok::<
            Seq<char>,
            Seq<char>,
        >(seq!['0', 'x'] + digits(n as nat, 16)),
        JsonView::Number { text, as_u64: None, .. } => formatted(v, name) == Ok::<
            Seq<char>,
            Seq<char>,
        >(text),
        _ => as_it_is(formatted(v, name), v),
    }
}

/// The texts that values are written with.
proof fn lemma_words()
    ensures
        "null"@ =~= seq!['n', 'u', 'l', 'l'],
        "true"@ =~= seq!['t', 'r', 'u', 'e'],
        "false"@ =~= seq!['f', 'a', 'l', 's', 'e'],
        "None"@ =~= seq!['N', 'o', 'n', 'e'],
        " ("@ =~= seq![' ', '('],
        ")"@ =~= seq![')'],
        "0x"@ =~= seq!['0', 'x'],
        ""@ =~= Seq::<char>::empty(),
{
    reveal_strlit("null");
    reveal_strlit("true");
    reveal_strlit("false");
    reveal_strlit("None");
    reveal_strlit(" (");
    reveal_strlit(")");
    reveal_strlit("0x");
    reveal_strlit("");
}

/// A field of times.
proof fn lemma_time_field(i: int, v: JsonView)
    requires
        0 <= i < 62,
        our_entry(i).kind is Timestamp,
    ensures
        written_as_time(our_entry(i).name, v),
{
    let name = our_entry(i).name;
    every_field_is_found(i);
    lemma_words();
    if let JsonView::Number { as_u64: Some(n), .. } = v {
        assert forall|secs: i64, nanos: u32|
            secs * 1_000_000_000 + nanos == n * 1000 && nanos < 1_000_000_000 implies match #[trigger] utc_text(
            secs,
            nanos,
        ) {
            Some(t) => formatted(v, name) == Ok::<Seq<char>, Seq<char>>(t),
            None => formatted(v, name) == Ok::<Seq<char>, Seq<char>>(Seq::empty()),
        } by {
            assert(secs == n / 1_000_000);
            assert(nanos == (n % 1_000_000) * 1000);
        }
    }
}

/// A field whose values are written as they are.
proof fn lemma_plain_field(i: int, v: JsonView)
    requires
        0 <= i < 62,
        !(our_entry(i).kind is Timestamp),
        our_entry(i).name != "priority"@,
        our_entry(i).name != "cap_effective"@,
    ensures
        written_as_is(our_entry(i).name, v),
{
    every_field_is_found(i);
    lemma_words();
}

/// How the values of each field are written on a page, by the name of the field.
#[verifier::rlimit(100)]
#[verifier::spinoff_prover]
pub proof fn fields_are_written_on_a_page(v: JsonView)
    ensures
        written_as_is("message"@, v),
        written_as_is("full_message"@, v),
        written_as_is("message_id"@, v),
        written_as_priority("priority"@, v),
        written_as_is("code_file"@, v),
        written_as_is("code_line"@, v),
        written_as_is("code_func"@, v),
        written_as_is("errno"@, v),
        written_as_is("invocation_id"@, v),
        written_as_is("user_invocation_id"@, v),
        written_as_is("syslog_facility"@, v),
        written_as_is("syslog_identifier"@, v),
        written_as_is("syslog_pid"@, v),
        written_as_time("syslog_timestamp"@, v),
        written_as_is("pid"@, v),
        written_as_is("uid"@, v),
        written_as_is("gid"@, v),
        written_as_is("comm"@, v),
        written_as_is("exe"@, v),
        written_as_is("cmdline"@, v),
        written_as_hex("cap_effective"@, v),
        written_as_is("audit_session"@, v),
        written_as_is("audit_loginuid"@, v),
        written_as_is("systemd_cgroup"@, v),
        written_as_is("systemd_slice"@, v),
        written_as_is("systemd_unit"@, v),
        written_as_is("systemd_user_unit"@, v),
        written_as_is("systemd_user_slice"@, v),
        written_as_is("systemd_session"@, v),
        written_as_is("systemd_owner_uid"@, v),
        written_as_is("selinux_context"@, v),
        written_as_time("source_timestamp"@, v),
        written_as_is("boot_id"@, v),
        written_as_is("machine_id"@, v),
        written_as_is("systemd_invocation_id"@, v),
        written_as_is("hostname"@, v),
        written_as_is("transport"@, v),
        written_as_is("stream_id"@, v),
        written_as_is("line_break"@, v),
        written_as_is("namespace"@, v),
        written_as_is("kernel_device"@, v),
        written_as_is("kernel_subsystem"@, v),
        written_as_is("udev_sysname"@, v),
        written_as_is("udev_devnode"@, v),
        written_as_is("udev_devlink"@, v),
        written_as_is("coredump_unit"@, v),
        written_as_is("coredump_user_unit"@, v),
        written_as_is("object_pid"@, v),
        written_as_is("object_uid"@, v),
        written_as_is("object_gid"@, v),
        written_as_is("object_comm"@, v),
        written_as_is("object_exe"@, v),
        written_as_is("object_cmdline"@, v),
        written_as_is("object_audit_session"@, v),
        written_as_is("object_audit_loginuid"@, v),
        written_as_is("object_systemd_cgroup"@, v),
        written_as_is("object_systemd_session"@, v),
        written_as_is("object_systemd_owner_uid"@, v),
        written_as_is("object_systemd_unit"@, v),
        written_as_is("object_systemd_user_unit"@, v),
        written_as_time("recv_rt_timestamp"@, v),
        written_as_time("recv_mt_timestamp"@, v),
{
    reveal_strlit("priority");
    reveal_strlit("cap_effective");
    assert("priority"@[0] == 'p' && "priority"@.len() == 8);
    assert("cap_effective"@[2] == 'p' && "cap_effective"@.len() == 13);
    lemma_words();
    assert(written_as_is("message"@, v)) by {
        assert(our_entry(0).name == "message"@);
        crate::toshi::schema::field_names_differ(0, 3);
        crate::toshi::schema::field_names_differ(0, 20);
        lemma_plain_field(0, v);
    }
    assert(written_as_is("full_message"@, v)) by {
        assert(our_entry(1).name == "full_message"@);
        crate::toshi::schema::field_names_differ(1, 3);
        crate::toshi::schema::field_names_differ(1, 20);
        lemma_plain_field(1, v);
    }
    assert(written_as_is("message_id"@, v)) by {
        assert(our_entry(2).name == "message_id"@);
        crate::toshi::schema::field_names_differ(2, 3);
        crate::toshi::schema::field_names_differ(2, 20);
        lemma_plain_field(2, v);
    }
    assert(written_as_priority("priority"@, v)) by {
        assert(our_entry(3).name == "priority"@);
        every_field_is_found(3);
    }
    assert(written_as_is("code_file"@, v)) by {
        assert(our_entry(4).name == "code_file"@);
        crate::toshi::schema::field_names_differ(4, 3);
        crate::toshi::schema::field_names_differ(4, 20);
        lemma_plain_field(4, v);
    }
    assert(written_as_is("code_line"@, v)) by {
        assert(our_entry(5).name == "code_line"@);
        crate::toshi::schema::field_names_differ(5, 3);
        crate::toshi::schema::field_names_differ(5, 20);
        lemma_plain_field(5, v);
    }
    assert(written_as_is("code_func"@, v)) by {
        assert(our_entry(6).name == "code_func"@);
        crate::toshi::schema::field_names_differ(6, 3);
        crate::toshi::schema::field_names_differ(6, 20);
        lemma_plain_field(6, v);
    }
    assert(written_as_is("errno"@, v)) by {
        assert(our_entry(7).name == "errno"@);
        crate::toshi::schema::field_names_differ(7, 3);
        crate::toshi::schema::field_names_differ(7, 20);
        lemma_plain_field(7, v);
    }
    assert(written_as_is("invocation_id"@, v)) by {
        assert(our_entry(8).name == "invocation_id"@);
        crate::toshi::schema::field_names_differ(8, 3);
        crate::toshi::schema::field_names_differ(8, 20);
        lemma_plain_field(8, v);
    }
    assert(written_as_is("user_invocation_id"@, v)) by {
        assert(our_entry(9).name == "user_invocation_id"@);
        crate::toshi::schema::field_names_differ(9, 3);
        crate::toshi::schema::field_names_differ(9, 20);
        lemma_plain_field(9, v);
    }
    assert(written_as_is("syslog_facility"@, v)) by {
        assert(our_entry(10).name == "syslog_facility"@);
        crate::toshi::schema::field_names_differ(10, 3);
        crate::toshi::schema::field_names_differ(10, 20);
        lemma_plain_field(10, v);
    }
    assert(written_as_is("syslog_identifier"@, v)) by {
        assert(our_entry(11).name == "syslog_identifier"@);
        crate::toshi::schema::field_names_differ(11, 3);
        crate::toshi::schema::field_names_differ(11, 20);
        lemma_plain_field(11, v);
    }
    assert(written_as_is("syslog_pid"@, v)) by {
        assert(our_entry(12).name == "syslog_pid"@);
        crate::toshi::schema::field_names_differ(12, 3);
        crate::toshi::schema::field_names_differ(12, 20);
        lemma_plain_field(12, v);
    }
    assert(written_as_time("syslog_timestamp"@, v)) by {
        assert(our_entry(13).name == "syslog_timestamp"@);
        lemma_time_field(13, v);
    }
    assert(written_as_is("pid"@, v)) by {
        assert(our_entry(14).name == "pid"@);
        crate::toshi::schema::field_names_differ(14, 3);
        crate::toshi::schema::field_names_differ(14, 20);
        lemma_plain_field(14, v);
    }
    assert(written_as_is("uid"@, v)) by {
        assert(our_entry(15).name == "uid"@);
        crate::toshi::schema::field_names_differ(15, 3);
        crate::toshi::schema::field_names_differ(15, 20);
        lemma_plain_field(15, v);
    }
    assert(written_as_is("gid"@, v)) by {
        assert(our_entry(16).name == "gid"@);
        crate::toshi::schema::field_names_differ(16, 3);
        crate::toshi::schema::field_names_differ(16, 20);
        lemma_plain_field(16, v);
    }
    assert(written_as_is("comm"@, v)) by {
        assert(our_entry(17).name == "comm"@);
        crate::toshi::schema::field_names_differ(17, 3);
        crate::toshi::schema::field_names_differ(17, 20);
        lemma_plain_field(17, v);
    }
    assert(written_as_is("exe"@, v)) by {
        assert(our_entry(18).name == "exe"@);
        crate::toshi::schema::field_names_differ(18, 3);
        crate::toshi::schema::field_names_differ(18, 20);
        lemma_plain_field(18, v);
    }
    assert(written_as_is("cmdline"@, v)) by {
        assert(our_entry(19).name == "cmdline"@);
        crate::toshi::schema::field_names_differ(19, 3);
        crate::toshi::schema::field_names_differ(19, 20);
        lemma_plain_field(19, v);
    }
    assert(written_as_hex("cap_effective"@, v)) by {
        assert(our_entry(20).name == "cap_effective"@);
        every_field_is_found(20);
    }
    assert(written_as_is("audit_session"@, v)) by {
        assert(our_entry(21).name == "audit_session"@);
        crate::toshi::schema::field_names_differ(21, 3);
        crate::toshi::schema::field_names_differ(21, 20);
        lemma_plain_field(21, v);
    }
    assert(written_as_is("audit_loginuid"@, v)) by {
        assert(our_entry(22).name == "audit_loginuid"@);
        crate::toshi::schema::field_names_differ(22, 3);
        crate::toshi::schema::field_names_differ(22, 20);
        lemma_plain_field(22, v);
    }
    assert(written_as_is("systemd_cgroup"@, v)) by {
        assert(our_entry(23).name == "systemd_cgroup"@);
        crate::toshi::schema::field_names_differ(23, 3);
        crate::toshi::schema::field_names_differ(23, 20);
        lemma_plain_field(23, v);
    }
    assert(written_as_is("systemd_slice"@, v)) by {
        assert(our_entry(24).name == "systemd_slice"@);
        crate::toshi::schema::field_names_differ(24, 3);
        crate::toshi::schema::field_names_differ(24, 20);
        lemma_plain_field(24, v);
    }
    assert(written_as_is("systemd_unit"@, v)) by {
        assert(our_entry(25).name == "systemd_unit"@);
        crate::toshi::schema::field_names_differ(25, 3);
        crate::toshi::schema::field_names_differ(25, 20);
        lemma_plain_field(25, v);
    }
    assert(written_as_is("systemd_user_unit"@, v)) by {
        assert(our_entry(26).name == "systemd_user_unit"@);
        crate::toshi::schema::field_names_differ(26, 3);
        crate::toshi::schema::field_names_differ(26, 20);
        lemma_plain_field(26, v);
    }
    assert(written_as_is("systemd_user_slice"@, v)) by {
        assert(our_entry(27).name == "systemd_user_slice"@);
        crate::toshi::schema::field_names_differ(27, 3);
        crate::toshi::schema::field_names_differ(27, 20);
        lemma_plain_field(27, v);
    }
    assert(written_as_is("systemd_session"@, v)) by {
        assert(our_entry(28).name == "systemd_session"@);
        crate::toshi::schema::field_names_differ(28, 3);
        crate::toshi::schema::field_names_differ(28, 20);
        lemma_plain_field(28, v);
    }
    assert(written_as_is("systemd_owner_uid"@, v)) by {
        assert(our_entry(29).name == "systemd_owner_uid"@);
        crate::toshi::schema::field_names_differ(29, 3);
        crate::toshi::schema::field_names_differ(29, 20);
        lemma_plain_field(29, v);
    }
    assert(written_as_is("selinux_context"@, v)) by {
        assert(our_entry(30).name == "selinux_context"@);
        crate::toshi::schema::field_names_differ(30, 3);
        crate::toshi::schema::field_names_differ(30, 20);
        lemma_plain_field(30, v);
    }
    assert(written_as_time("source_timestamp"@, v)) by {
        assert(our_entry(31).name == "source_timestamp"@);
        lemma_time_field(31, v);
    }
    assert(written_as_is("boot_id"@, v)) by {
        assert(our_entry(32).name == "boot_id"@);
        crate::toshi::schema::field_names_differ(32, 3);
        crate::toshi::schema::field_names_differ(32, 20);
        lemma_plain_field(32, v);
    }
    assert(written_as_is("machine_id"@, v)) by {
        assert(our_entry(33).name == "machine_id"@);
        crate::toshi::schema::field_names_differ(33, 3);
        crate::toshi::schema::field_names_differ(33, 20);
        lemma_plain_field(33, v);
    }
    assert(written_as_is("systemd_invocation_id"@, v)) by {
        assert(our_entry(34).name == "systemd_invocation_id"@);
        crate::toshi::schema::field_names_differ(34, 3);
        crate::toshi::schema::field_names_differ(34, 20);
        lemma_plain_field(34, v);
    }
    assert(written_as_is("hostname"@, v)) by {
        assert(our_entry(35).name == "hostname"@);
        crate::toshi::schema::field_names_differ(35, 3);
        crate::toshi::schema::field_names_differ(35, 20);
        lemma_plain_field(35, v);
    }
    assert(written_as_is("transport"@, v)) by {
        assert(our_entry(36).name == "transport"@);
        crate::toshi::schema::field_names_differ(36, 3);
        crate::toshi::schema::field_names_differ(36, 20);
        lemma_plain_field(36, v);
    }
    assert(written_as_is("stream_id"@, v)) by {
        assert(our_entry(37).name == "stream_id"@);
        crate::toshi::schema::field_names_differ(37, 3);
        crate::toshi::schema::field_names_differ(37, 20);
        lemma_plain_field(37, v);
    }
    assert(written_as_is("line_break"@, v)) by {
        assert(our_entry(38).name == "line_break"@);
        crate::toshi::schema::field_names_differ(38, 3);
        crate::toshi::schema::field_names_differ(38, 20);
        lemma_plain_field(38, v);
    }
    assert(written_as_is("namespace"@, v)) by {
        assert(our_entry(39).name == "namespace"@);
        crate::toshi::schema::field_names_differ(39, 3);
        crate::toshi::schema::field_names_differ(39, 20);
        lemma_plain_field(39, v);
    }
    assert(written_as_is("kernel_device"@, v)) by {
        assert(our_entry(40).name == "kernel_device"@);
        crate::toshi::schema::field_names_differ(40, 3);
        crate::toshi::schema::field_names_differ(40, 20);
        lemma_plain_field(40, v);
    }
    assert(written_as_is("kernel_subsystem"@, v)) by {
        assert(our_entry(41).name == "kernel_subsystem"@);
        crate::toshi::schema::field_names_differ(41, 3);
        crate::toshi::schema::field_names_differ(41, 20);
        lemma_plain_field(41, v);
    }
    assert(written_as_is("udev_sysname"@, v)) by {
        assert(our_entry(42).name == "udev_sysname"@);
        crate::toshi::schema::field_names_differ(42, 3);
        crate::toshi::schema::field_names_differ(42, 20);
        lemma_plain_field(42, v);
    }
    assert(written_as_is("udev_devnode"@, v)) by {
        assert(our_entry(43).name == "udev_devnode"@);
        crate::toshi::schema::field_names_differ(43, 3);
        crate::toshi::schema::field_names_differ(43, 20);
        lemma_plain_field(43, v);
    }
    assert(written_as_is("udev_devlink"@, v)) by {
        assert(our_entry(44).name == "udev_devlink"@);
        crate::toshi::schema::field_names_differ(44, 3);
        crate::toshi::schema::field_names_differ(44, 20);
        lemma_plain_field(44, v);
    }
    assert(written_as_is("coredump_unit"@, v)) by {
        assert(our_entry(45).name == "coredump_unit"@);
        crate::toshi::schema::field_names_differ(45, 3);
        crate::toshi::schema::field_names_differ(45, 20);
        lemma_plain_field(45, v);
    }
    assert(written_as_is("coredump_user_unit"@, v)) by {
        assert(our_entry(46).name == "coredump_user_unit"@);
        crate::toshi::schema::field_names_differ(46, 3);
        crate::toshi::schema::field_names_differ(46, 20);
        lemma_plain_field(46, v);
    }
    assert(written_as_is("object_pid"@, v)) by {
        assert(our_entry(47).name == "object_pid"@);
        crate::toshi::schema::field_names_differ(47, 3);
        crate::toshi::schema::field_names_differ(47, 20);
        lemma_plain_field(47, v);
    }
    assert(written_as_is("object_uid"@, v)) by {
        assert(our_entry(48).name == "object_uid"@);
        crate::toshi::schema::field_names_differ(48, 3);
        crate::toshi::schema::field_names_differ(48, 20);
        lemma_plain_field(48, v);
    }
    assert(written_as_is("object_gid"@, v)) by {
        assert(our_entry(49).name == "object_gid"@);
        crate::toshi::schema::field_names_differ(49, 3);
        crate::toshi::schema::field_names_differ(49, 20);
        lemma_plain_field(49, v);
    }
    assert(written_as_is("object_comm"@, v)) by {
        assert(our_entry(50).name == "object_comm"@);
        crate::toshi::schema::field_names_differ(50, 3);
        crate::toshi::schema::field_names_differ(50, 20);
        lemma_plain_field(50, v);
    }
    assert(written_as_is("object_exe"@, v)) by {
        assert(our_entry(51).name == "object_exe"@);
        crate::toshi::schema::field_names_differ(51, 3);
        crate::toshi::schema::field_names_differ(51, 20);
        lemma_plain_field(51, v);
    }
    assert(written_as_is("object_cmdline"@, v)) by {
        assert(our_entry(52).name == "object_cmdline"@);
        crate::toshi::schema::field_names_differ(52, 3);
        crate::toshi::schema::field_names_differ(52, 20);
        lemma_plain_field(52, v);
    }
    assert(written_as_is("object_audit_session"@, v)) by {
        assert(our_entry(53).name == "object_audit_session"@);
        crate::toshi::schema::field_names_differ(53, 3);
        crate::toshi::schema::field_names_differ(53, 20);
        lemma_plain_field(53, v);
    }
    assert(written_as_is("object_audit_loginuid"@, v)) by {
        assert(our_entry(54).name == "object_audit_loginuid"@);
        crate::toshi::schema::field_names_differ(54, 3);
        crate::toshi::schema::field_names_differ(54, 20);
        lemma_plain_field(54, v);
    }
    assert(written_as_is("object_systemd_cgroup"@, v)) by {
        assert(our_entry(55).name == "object_systemd_cgroup"@);
        crate::toshi::schema::field_names_differ(55, 3);
        crate::toshi::schema::field_names_differ(55, 20);
        lemma_plain_field(55, v);
    }
    assert(written_as_is("object_systemd_session"@, v)) by {
        assert(our_entry(56).name == "object_systemd_session"@);
        crate::toshi::schema::field_names_differ(56, 3);
        crate::toshi::schema::field_names_differ(56, 20);
        lemma_plain_field(56, v);
    }
    assert(written_as_is("object_systemd_owner_uid"@, v)) by {
        assert(our_entry(57).name == "object_systemd_owner_uid"@);
        crate::toshi::schema::field_names_differ(57, 3);
        crate::toshi::schema::field_names_differ(57, 20);
        lemma_plain_field(57, v);
    }
    assert(written_as_is("object_systemd_unit"@, v)) by {
        assert(our_entry(58).name == "object_systemd_unit"@);
        crate::toshi::schema::field_names_differ(58, 3);
        crate::toshi::schema::field_names_differ(58, 20);
        lemma_plain_field(58, v);
    }
    assert(written_as_is("object_systemd_user_unit"@, v)) by {
        assert(our_entry(59).name == "object_systemd_user_unit"@);
        crate::toshi::schema::field_names_differ(59, 3);
        crate::toshi::schema::field_names_differ(59, 20);
        lemma_plain_field(59, v);
    }
    assert(written_as_time("recv_rt_timestamp"@, v)) by {
        assert(our_entry(60).name == "recv_rt_timestamp"@);
        lemma_time_field(60, v);
    }
    assert(written_as_time("recv_mt_timestamp"@, v)) by {
        assert(our_entry(61).name == "recv_mt_timestamp"@);
        lemma_time_field(61, v);
    }
}

/// Of a field that documents do not have, the page says so. A document without a value is
/// written as nothing.
pub proof fn unknown_fields_are_errors(name: Seq<char>, v: JsonView)
    requires
        forall|i: int| 0 <= i < 62 ==> (#[trigger] our_schema()[i]).name != name,
    ensures
        formatted(v, name) == Err::<Seq<char>, Seq<char>>(
            "No such field named "@ + name + " in schema"@,
        ),
        formatted_field(Some(v), name) == formatted(v, name),
        formatted_field(None, name) == Ok::<Seq<char>, Seq<char>>(Seq::empty()),
{
    lemma_words();
    lemma_not_by_name(our_schema(), name);
}

/// A name that no field has is not found.
proof fn lemma_not_by_name(entries: Seq<EntryView>, name: Seq<char>)
    requires
        forall|i: int| 0 <= i < entries.len() ==> (#[trigger] entries[i]).name != name,
    ensures
        !by_name(entries).contains_key(name),
    decreases entries.len(),
{
    if entries.len() > 0 {
        let front = entries.drop_last();
        assert forall|i: int| 0 <= i < front.len() implies (#[trigger] front[i]).name != name by {
            assert(front[i] == entries[i]);
        }
        lemma_not_by_name(front, name);
        assert(entries[entries.len() - 1] == entries.last());
    }
}

/// Where times count seconds, a number in a field of times is written as the time that is
/// given for it, and every other value as it is.
pub proof fn seconds_are_written_on_a_page(i: int, v: JsonView, time: Option<Seq<char>>)
    requires
        0 <= i < 62,
    ensures
        ({
            let name = our_schema()[i].name;
            let res = formatted_seconds(v, name, time);
            &&& as_it_is(res, v)
            &&& v matches JsonView::Number { text, .. } ==> if name == "source_timestamp"@ || name
                == "syslog_timestamp"@ || name == "recv_rt_timestamp"@ || name
                == "recv_mt_timestamp"@ {
                res == match time {
                    Some(t) => Ok::<Seq<char>, Seq<char>>(t),
                    None => Err("Can't get "@ + name + " as "@ + "f64"@),
                }
            } else {
                res == Ok::<Seq<char>, Seq<char>>(text)
            }
        }),
{
    every_field_is_found(i);
    lemma_words();
    assert(our_entry(13).name == "syslog_timestamp"@);
    assert(our_entry(31).name == "source_timestamp"@);
    assert(our_entry(60).name == "recv_rt_timestamp"@);
    assert(our_entry(61).name == "recv_mt_timestamp"@);
    if i != 13 {
        crate::toshi::schema::field_names_differ(i, 13);
    }
    if i != 31 {
        crate::toshi::schema::field_names_differ(i, 31);
    }
    if i != 60 {
        crate::toshi::schema::field_names_differ(i, 60);
    }
    if i != 61 {
        crate::toshi::schema::field_names_differ(i, 61);
    }
}

// ---------------------------------------------------------------------------
// Indexes
// ---------------------------------------------------------------------------

/// What is asked for when an index is made: it is named, its documents are told apart by
/// their time and kept for ninety days, and searches look at their messages.
pub proof fn index_is_asked_for(index: Seq<char>, mappings: Seq<MappingView>)
    ensures
        ({
            let r = index_request(index, mappings);
            &&& r.field_mappings == mappings
            &&& r.index_id == index
            &&& r.timestamp_field == "source_timestamp"@
            &&& r.period == "90 days"@
            &&& r.schedule == "daily"@
            &&& r.default_search_fields == seq!["message"@, "full_message"@]
            &&& r.version == "0.5"@
            &&& r.mode is None
            &&& r.tag_fields.len() == 0
            &&& !r.store_source
        }),
{
}

/// The addresses of an index: where it is described lies below where indexes are made, and
/// where documents are sent to beside it.
pub proof fn addresses_of_an_index(server: Seq<char>, index: Seq<char>)
    ensures
        create_uri(server) == server + "/api/v1/indexes"@,
        describe_uri(server, index) == create_uri(server) + seq!['/'] + index + "/describe"@,
        ingest_uri(server, index) == server + "/api/v1/"@ + index + "/ingest"@,
{
    reveal_strlit("/api/v1/indexes/");
    reveal_strlit("/api/v1/indexes");
    assert("/api/v1/indexes/"@ =~= "/api/v1/indexes"@ + seq!['/']);
    assert(describe_uri(server, index) =~= create_uri(server) + seq!['/'] + index
        + "/describe"@);
}

/// The slash that an address ends with is taken away, one of them, and nothing else.
pub proof fn one_slash_is_taken_away(url: Seq<char>)
    ensures
        without_slash(url + seq!['/']) == url,
        url.len() > 0 && url.last() != '/' ==> without_slash(url) == url,
        without_slash(Seq::empty()).len() == 0,
{
    assert((url + seq!['/']).last() == '/');
    assert((url + seq!['/']).drop_last() =~= url);
}

/// Each wait is twice the one before, up to ten seconds: one, two, four, eight, and ten
/// from there on.
pub proof fn waits_double(secs: u64, failures: nat)
    ensures
        2 * secs <= 10 ==> next_wait(secs) == 2 * secs,
        2 * secs > 10 ==> next_wait(secs) == 10,
        wait_after(0) == 1,
        wait_after(1) == 2,
        wait_after(2) == 4,
        wait_after(3) == 8,
        failures >= 4 ==> wait_after(failures) == 10,
{
    reveal_with_fuel(wait_after, 6);
    crate::quickwit::waits_grow_to_ten(failures);
}

/// An index is named by its number.
pub proof fn index_is_named(index: nat)
    ensures
        index_name(index) == seq!['y', 'a', 'f', 'f', 'l', 'e', '_'] + decimal(index),
{
    reveal_strlit("yaffle_");
    assert("yaffle_"@ =~= seq!['y', 'a', 'f', 'f', 'l', 'e', '_']);
}

/// The documents of two lists of segments are those of the first and those of the second.
pub proof fn documents_add_up(a: Seq<u32>, b: Seq<u32>, n: u32)
    ensures
        total_docs(a + b) == total_docs(a) + total_docs(b),
        total_docs(seq![n]) == n,
        total_docs(Seq::empty()) == 0,
    decreases b.len(),
{
    reveal_with_fuel(total_docs, 2);
    assert(seq![n].drop_last() =~= Seq::<u32>::empty());
    if b.len() == 0 {
        assert(a + b =~= a);
    } else {
        documents_add_up(a, b.drop_last(), n);
        assert((a + b).drop_last() =~= a + b.drop_last());
    }
}

/// An index is open while its segments have fewer documents than the limit; one whose
/// segments are not known is not.
pub proof fn index_is_open_below_its_limit(a: u32, b: u32, max_docs: u32)
    ensures
        is_open(Some(seq![a, b]), max_docs) <==> a + b < max_docs,
        is_open(Some(seq![a]), max_docs) <==> a < max_docs,
        is_open(Some(Seq::empty()), max_docs) <==> 0 < max_docs,
        !is_open(None, max_docs),
{
    documents_add_up(seq![a], seq![b], a);
    documents_add_up(seq![a], seq![b], b);
    assert(seq![a] + seq![b] =~= seq![a, b]);
}

/// The search for an index begins with the highest tenth, goes down by tens, and then over
/// the indexes behind those.
pub proof fn indexes_are_looked_for_by_tens(k: int)
    requires
        0 <= k < 199,
    ensures
        first_step() == (Search::Probing(0), Step::Check(190)),
        probe(0) == 190,
        probe(k) >= 10 ==> probe(k + 1) == probe(k) - 10,
        probe(k) < 10 ==> probe(k + 1) == 190 + probe(k) + 1,
{
    let q = k / 20;
    let r = k % 20;
    assert(k == 20 * q + r && 0 <= r < 20 && 0 <= q < 10);
    if r < 19 {
        assert((k + 1) / 20 == q && (k + 1) % 20 == r + 1);
    } else {
        assert((k + 1) / 20 == q + 1 && (k + 1) % 20 == 0);
    }
}

/// What follows when an index was looked at: of the first that is there, and of those
/// behind it, an open one is used, a missing one created, and behind a full one the next
/// is looked at. Where none is there, the first is created.
pub proof fn search_for_an_index_goes_on(k: u32, i: u32, open: bool)
    requires
        k < 200,
    ensures
        next_step(Search::Probing(k), true, open) == (
            Search::Walking(probe(k as int) as u32),
            Step::Check(probe(k as int) as u32),
        ),
        k < 199 ==> next_step(Search::Probing(k), false, open) == (
            Search::Probing((k + 1) as u32),
            Step::Check(probe(k + 1) as u32),
        ),
        k == 199 ==> next_step(Search::Probing(k), false, open).1 == Step::Create(0),
        next_step(Search::Walking(i), true, true).1 == Step::Use(i),
        next_step(Search::Walking(i), false, false).1 == Step::Create(i),
        i < 0xffff_ffff ==> next_step(Search::Walking(i), true, false) == (
            Search::Walking((i + 1) as u32),
            Step::Check((i + 1) as u32),
        ),
        i == 0xffff_ffff ==> next_step(Search::Walking(i), true, false).1 == Step::Exhausted,
{
}

} // verus!
