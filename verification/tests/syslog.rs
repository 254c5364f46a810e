//! Syslog datagrams, and what they say.
use chrono::{Datelike, Local};
use yaffle::syslog::{
    find_local_time, parse_syslog, parse_syslog_at, prio_and_facility, rfc3164_civil_at,
    rfc3164_timestamp, rfc3164_timestamp_at, Malformed,
};
use yaffle::time::{fit_reading, Civil, Timestamp};

fn civil(year: i32, month: u32, day: u32, hour: u32, minute: u32, second: u32) -> Civil {
    Civil { year, month, day, hour, minute, second, nano: 0 }
}

fn noon() -> Timestamp {
    Timestamp {
        civil: civil(2020, 6, 1, 12, 0, 0),
        offset: 0,
        unix_nanos: Some(1_591_012_800_000_000_000),
    }
}

#[test]
fn priority_test() {
    let result = prio_and_facility(b"<165>");
    assert!(result.is_ok());
    let (remaining, (prio, facility)) = result.unwrap();
    assert_eq!(remaining, b"");
    assert_eq!(prio, 5u8);
    assert_eq!(facility, "local4".to_string());
}

#[test]
fn test_rfc3164_timestamp() {
    let result = rfc3164_timestamp(b"Jan  2 12:24:59 ");
    assert!(result.is_ok());
    let (remaining, ts) = result.unwrap();
    assert_eq!(remaining, b"");
    assert_eq!(ts.civil.year, Local::now().year());
    assert_eq!(ts.civil.month, 1);
    assert_eq!(ts.civil.day, 2);
    assert_eq!(ts.civil.hour, 12);
    assert_eq!(ts.civil.minute, 24);
    assert_eq!(ts.civil.second, 59);
}

#[test]
fn test_full_msg_with_timestamp() {
    let result = parse_syslog(b"<78>Aug  2 09:00:00 crond[926]: USER root pid 14786 cmd logger -p syslog.info -- -- MARK --");
    assert!(result.is_ok());
    let (remaining, msg) = result.unwrap();
    assert_eq!(remaining, b"");
    assert_eq!(msg.priority, 6);
    assert_eq!(msg.facility, "cron");
    assert_eq!(msg.source_timestamp.civil.year, Local::now().year());
    assert_eq!(msg.source_timestamp.civil.month, 8);
    assert_eq!(msg.source_timestamp.civil.day, 2);
    assert_eq!(msg.source_timestamp.civil.hour, 9);
    assert_eq!(msg.source_timestamp.civil.minute, 0);
    assert_eq!(msg.source_timestamp.civil.second, 0);
    assert_eq!(msg.identifier, Some("crond".to_string()));
    assert_eq!(msg.pid, Some(926));
    assert_eq!(
        msg.message,
        "USER root pid 14786 cmd logger -p syslog.info -- -- MARK --".to_string()
    )
}

#[test]
fn test_full_message_ident_no_pid() {
    let result = parse_syslog(b"<46>Aug  1 19:00:00 root: -- MARK --");
    assert!(result.is_ok());
    let (remaining, msg) = result.unwrap();
    assert_eq!(remaining, b"");
    assert_eq!(msg.priority, 6);
    assert_eq!(msg.facility, "syslog");
    assert_eq!(msg.source_timestamp.civil.year, Local::now().year());
    assert_eq!(msg.source_timestamp.civil.month, 8);
    assert_eq!(msg.source_timestamp.civil.day, 1);
    assert_eq!(msg.source_timestamp.civil.hour, 19);
    assert_eq!(msg.source_timestamp.civil.minute, 0);
    assert_eq!(msg.source_timestamp.civil.second, 0);
    assert_eq!(msg.hostname, None);
    assert_eq!(msg.identifier, Some("root".to_string()));
    assert_eq!(msg.pid, None);
    assert_eq!(msg.message, "-- MARK --".to_string())
}

#[test]
fn test_full_msg_no_timestamp() {
    let result = parse_syslog(b"<7> [0]DAA FXO: ON-HOOK, PARA HANDSET: OFF-HOOK");
    assert!(result.is_ok());
    let (remaining, msg) = result.unwrap();
    assert_eq!(remaining, b"");
    assert_eq!(msg.priority, 7);
    assert_eq!(msg.facility, "kern");
    assert_eq!(msg.source_timestamp.civil.year, Local::now().year());
    assert_eq!(msg.source_timestamp.civil.month, Local::now().month());
    assert_eq!(msg.source_timestamp.civil.day, Local::now().day());
    assert_eq!(msg.hostname, None);
    assert_eq!(msg.identifier, None);
    assert_eq!(msg.pid, None);
    assert_eq!(
        msg.message,
        "[0]DAA FXO: ON-HOOK, PARA HANDSET: OFF-HOOK".to_string()
    )
}

#[test]
fn test_bare_message() {
    let result = parse_syslog(b"<7> register callback");
    assert!(result.is_ok());
    let (remaining, msg) = result.unwrap();
    assert_eq!(remaining, b"");
    assert_eq!(msg.priority, 7);
    assert_eq!(msg.facility, "kern");
    assert_eq!(msg.source_timestamp.civil.year, Local::now().year());
    assert_eq!(msg.source_timestamp.civil.month, Local::now().month());
    assert_eq!(msg.source_timestamp.civil.day, Local::now().day());
    assert_eq!(msg.hostname, None);
    assert_eq!(msg.identifier, None);
    assert_eq!(msg.pid, None);
    assert_eq!(msg.message, "register callback".to_string())
}

#[test]
fn priorities_read_back() {
    for facility in 0u32..32 {
        for priority in 0u8..8 {
            let text = format!("<{}>rest", facility * 8 + u32::from(priority));
            let (rest, (p, f)) = prio_and_facility(text.as_bytes()).unwrap();
            assert_eq!(rest, b"rest");
            assert_eq!(p, priority);
            if facility >= 16 {
                assert_eq!(f, format!("local{}", facility - 16));
            }
        }
    }
    let names: Vec<String> = (0u32..16)
        .map(|f| prio_and_facility(format!("<{}>", f * 8).as_bytes()).unwrap().1 .1)
        .collect();
    assert_eq!(
        names,
        [
            "kern", "user", "mail", "daemon", "auth", "syslog", "lpr", "news", "uucp", "cron",
            "authpriv", "ftp", "ntp", "audit", "alert", "clock"
        ]
    );
}

#[test]
fn malformed_priorities() {
    for text in ["", "<", "<>", "<1", "1>", "<256>", "<999999999999>", "<-1>", "< 1>", " <1>"] {
        assert_eq!(prio_and_facility(text.as_bytes()), Err(Malformed));
    }
    // Leading zeros count for nothing.
    assert_eq!(prio_and_facility(b"<0007>").unwrap().1 .0, 7);
}

#[test]
fn times_by_rfc3164() {
    let read = |text: &str, year: i32| rfc3164_civil_at(text.as_bytes(), 0, year).map(|r| r.1);
    assert_eq!(read("Dec 31 23:59:59 x", 2021), Some(civil(2021, 12, 31, 23, 59, 59)));
    assert_eq!(read("Feb 29 00:00:00 ", 2020), Some(civil(2020, 2, 29, 0, 0, 0)));
    assert_eq!(read("Feb 29 00:00:00 ", 2021), None);
    assert_eq!(read("Feb 29 00:00:00 ", 1900), None);
    assert_eq!(read("Feb 29 00:00:00 ", 2000), Some(civil(2000, 2, 29, 0, 0, 0)));
    assert_eq!(read("Apr 31 00:00:00 ", 2021), None);
    assert_eq!(read("May 00 00:00:00 ", 2021), None);
    assert_eq!(read("May  0 00:00:00 ", 2021), None);
    assert_eq!(read("May 1  00:00:00 ", 2021), None);
    assert_eq!(read("may  1 00:00:00 ", 2021), None);
    assert_eq!(read("Jun  1 24:00:00 ", 2021), None);
    assert_eq!(read("Jun  1 23:60:00 ", 2021), None);
    assert_eq!(read("Jun  1 23:59:61 ", 2021), None);
    assert_eq!(
        read("Jun 30 23:59:60 ", 2021),
        Some(Civil { nano: 1_000_000_000, ..civil(2021, 6, 30, 23, 59, 59) })
    );
    assert_eq!(read("Jun 30 23:59:59", 2021), None);
    assert_eq!(read("Jun 30 23.59.59 ", 2021), None);
    assert_eq!(read("Jan  1 00:00:00 ", 300_000), None);
    let months = [
        "Jan", "Feb", "Mar", "Apr", "May", "Jun", "Jul", "Aug", "Sep", "Oct", "Nov", "Dec",
    ];
    for (i, month) in months.iter().enumerate() {
        let text = format!("{} 10 01:02:03 ", month);
        assert_eq!(read(&text, 2021), Some(civil(2021, i as u32 + 1, 10, 1, 2, 3)));
    }
    assert_eq!(rfc3164_timestamp(b"Jan 32 00:00:00 "), Err(Malformed));
}

#[test]
fn local_times_that_resolve_or_not() {
    let text = b"Feb 29 00:00:01 rest";
    let t = Timestamp { civil: civil(2020, 2, 29, 0, 0, 1), offset: 3600, unix_nanos: Some(7) };
    assert_eq!(rfc3164_timestamp_at(text, 2020, Some(t)), Ok((b"rest".to_vec(), t)));
    assert_eq!(rfc3164_timestamp_at(text, 2020, None), Err(Malformed));
    assert_eq!(rfc3164_timestamp_at(text, 2021, Some(t)), Err(Malformed));
    assert_eq!(rfc3164_timestamp_at(b"Feb 29 00:00:01", 2020, Some(t)), Err(Malformed));
}

#[test]
fn every_part_of_a_message() {
    let text = b"<34>Oct 11 22:14:15 mymachine.example su[77]: 'su root' failed";
    let sent = civil(2022, 10, 11, 22, 14, 15);
    assert_eq!(find_local_time(text, 2022), Some(sent));
    let t = Timestamp { civil: sent, offset: 3600, unix_nanos: Some(7) };
    let msg = parse_syslog_at(text, 2022, Some(t), noon());
    assert_eq!(msg.priority, 2);
    assert_eq!(msg.facility, "auth");
    assert_eq!(msg.source_timestamp, t);
    assert_eq!(msg.hostname.as_deref(), Some("mymachine.example"));
    assert_eq!(msg.identifier.as_deref(), Some("su"));
    assert_eq!(msg.pid, Some(77));
    assert_eq!(msg.message, "'su root' failed");
    assert_eq!(msg.full_message.as_bytes(), text);
    // A local time that never was leaves the text where it is.
    let msg = parse_syslog_at(text, 2022, None, noon());
    assert_eq!(msg.source_timestamp, noon());
    assert_eq!(msg.hostname.as_deref(), Some("Oct"));
    assert_eq!(msg.identifier, None);
    assert_eq!(msg.message, "11 22:14:15 mymachine.example su[77]: 'su root' failed");
}

#[test]
fn times_by_rfc3339() {
    let text = b"<34>1 2003-10-11T22:14:15.003Z mymachine su - text";
    assert_eq!(find_local_time(text, 2022), None);
    let msg = parse_syslog_at(text, 2022, None, noon());
    assert_eq!(
        msg.source_timestamp,
        Timestamp {
            civil: Civil { nano: 3_000_000, ..civil(2003, 10, 11, 22, 14, 15) },
            offset: 0,
            unix_nanos: Some(1_065_910_455_003_000_000),
        }
    );
    // The space behind the time belongs to the message.
    assert_eq!(msg.hostname, None);
    assert_eq!(msg.message, " mymachine su - text");
    let msg = parse_syslog_at(b"1 2003-10-11T22:14:15+02:00 x", 2022, None, noon());
    assert_eq!(msg.source_timestamp.offset, 7200);
    assert_eq!(msg.source_timestamp.civil.hour, 22);
    let msg = parse_syslog_at(b"1 9999-10-11T22:14:15Z x", 2022, None, noon());
    assert_eq!(msg.source_timestamp.unix_nanos, None);
    let msg = parse_syslog_at(b"1 not-a-time x", 2022, None, noon());
    assert_eq!(msg.source_timestamp, noon());
    assert_eq!(msg.hostname.as_deref(), Some("1"));
}

#[test]
fn messages_without_parts() {
    let msg = parse_syslog_at(b"", 2022, None, noon());
    assert_eq!(msg.priority, 5);
    assert_eq!(msg.facility, "user");
    assert_eq!(msg.message, "");
    let msg = parse_syslog_at(b"  two spaces", 2022, None, noon());
    assert_eq!(msg.message, " two spaces");
    let msg = parse_syslog_at(b"name: text", 2022, None, noon());
    assert_eq!(msg.identifier.as_deref(), Some("name"));
    assert_eq!(msg.message, "text");
    let msg = parse_syslog_at(b"name[x]: text", 2022, None, noon());
    assert_eq!(msg.identifier, None);
    assert_eq!(msg.message, "name[x]: text");
    let msg = parse_syslog_at(b"name[99999999999999999999]: text", 2022, None, noon());
    assert_eq!(msg.identifier, None);
    assert_eq!(msg.pid, None);
}

#[test]
fn bytes_that_are_no_text() {
    let msg = parse_syslog_at(b"\xffid: a\xfe\xc3\xa9", 2022, None, noon());
    assert_eq!(msg.identifier.as_deref(), Some("\u{fffd}id"));
    assert_eq!(msg.message, "a\u{fffd}\u{e9}");
    assert_eq!(msg.full_message, "\u{fffd}id: a\u{fffd}\u{e9}");
}

#[test]
fn readings_that_fit_a_timestamp() {
    assert_eq!(fit_reading(None), None);
    assert_eq!(fit_reading(Some((7, 9))), Some((7, 9)));
    assert_eq!(fit_reading(Some((i64::MAX as u64, 0))), Some((i64::MAX, 0)));
    assert_eq!(fit_reading(Some((i64::MAX as u64 + 1, 0))), None);
}

#[test]
fn a_message_of_now() {
    let before = Local::now().timestamp_nanos_opt();
    let (_, msg) = parse_syslog(b"no time").unwrap();
    let after = Local::now().timestamp_nanos_opt();
    assert!(before <= msg.source_timestamp.unix_nanos && msg.source_timestamp.unix_nanos <= after);
}
