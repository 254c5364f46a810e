//! Syslog messages: what the bytes of a datagram say.
use vstd::prelude::*;
use vstd::utf8::{decode_utf8, valid_utf8};

use crate::bytes::{
    ascii_chars, ascii_is_utf8, ascii_of, byte_at, byte_in, byte_run, copy_bytes, is_byte_at,
    lemma_byte_run, lossy_string, scan_bytes, text_of, utf8_string, ByteClass,
};
use crate::number::{
    decimal, digit_value, digits_read_back, parse_digits, read_digits, to_decimal,
};
use crate::text::{opt_text, str_eq, string_of};
use crate::time::{
    calendar_date, civil_exists, date_exists, local_clock_reads, local_now, local_time_resolves,
    parse_rfc3339, parse_time, resolve, rfc3339, time_form, time_of_day, Civil, Timestamp,
};

verus! {

/// A message of the syslog protocol.
#[derive(Debug, PartialEq, Eq)]
pub struct SyslogMessage {
    pub priority: u8,
    pub facility: String,
    pub source_timestamp: Timestamp,
    pub hostname: Option<String>,
    pub identifier: Option<String>,
    pub pid: Option<u64>,
    pub message: String,
    pub full_message: String,
}

/// What a [`SyslogMessage`] says.
pub struct SyslogView {
    pub priority: u8,
    pub facility: Seq<char>,
    pub source_timestamp: Timestamp,
    pub hostname: Option<Seq<char>>,
    pub identifier: Option<Seq<char>>,
    pub pid: Option<u64>,
    pub message: Seq<char>,
    pub full_message: Seq<char>,
}

impl View for SyslogMessage {
    type V = SyslogView;

    open spec fn view(&self) -> SyslogView {
        SyslogView {
            priority: self.priority,
            facility: self.facility@,
            source_timestamp: self.source_timestamp,
            hostname: opt_text(self.hostname),
            identifier: opt_text(self.identifier),
            pid: self.pid,
            message: self.message@,
            full_message: self.full_message@,
        }
    }
}

// ---------------------------------------------------------------------------
// Priority and facility
// ---------------------------------------------------------------------------

/// The names of the facilities that have one of their own.
pub open spec fn facility_names() -> Seq<Seq<char>> {
    seq![
        "kern"@,
        "user"@,
        "mail"@,
        "daemon"@,
        "auth"@,
        "syslog"@,
        "lpr"@,
        "news"@,
        "uucp"@,
        "cron"@,
        "authpriv"@,
        "ftp"@,
        "ntp"@,
        "audit"@,
        "alert"@,
        "clock"@,
    ]
}

/// The name of a facility: its own, or `local` and a number.
pub open spec fn facility_name(n: nat) -> Seq<char> {
    if n < 16 {
        facility_names()[n as int]
    } else {
        "local"@ + decimal((n - 16) as nat)
    }
}

/// The name of a facility.
fn name_facility(n: u8) -> (res: String)
    ensures
        res@ == facility_name(n as nat),
{
    let name: &str = match n {
        0 => "kern",
        1 => "user",
        2 => "mail",
        3 => "daemon",
        4 => "auth",
        5 => "syslog",
        6 => "lpr",
        7 => "news",
        8 => "uucp",
        9 => "cron",
        10 => "authpriv",
        11 => "ftp",
        12 => "ntp",
        13 => "audit",
        14 => "alert",
        15 => "clock",
        _ => {
            let mut local = "local".to_owned();
            local.append(to_decimal((n - 16) as u64).as_str());
            return local;
        },
    };
    name.to_owned()
}

/// The priority and the facility at `i`: a number of a byte in angle brackets,
/// eight times the facility and the priority.
pub open spec fn prio_reading(s: Seq<u8>, i: int) -> Option<(int, (u8, Seq<char>))> {
    let j = byte_run(s, i + 1, ByteClass::Digit);
    if byte_at(s, i, 0x3c) && j > i + 1 && byte_at(s, j, 0x3e) {
        match read_digits(ascii_chars(s.subrange(i + 1, j)), 10, 255) {
            Some(n) => Some((j + 1, ((n % 8) as u8, facility_name(n / 8)))),
            None => None,
        }
    } else {
        None
    }
}

/// Reads the priority and the facility at `i`.
fn prio_and_facility_at(bytes: &[u8], i: usize) -> (res: Option<(usize, (u8, String))>)
    requires
        i <= bytes@.len(),
    ensures
        match (res, prio_reading(bytes@, i as int)) {
            (Some((j, (p, f))), Some((j2, (p2, f2)))) => j == j2 && p == p2 && f@ == f2 && i < j
                <= bytes@.len(),
            (None, None) => true,
            _ => false,
        },
{
    if !is_byte_at(bytes, i, 0x3c) {
        return None;
    }
    let j = scan_bytes(bytes, i + 1, ByteClass::Digit);
    if j == i + 1 || !is_byte_at(bytes, j, 0x3e) {
        return None;
    }
    let digits = ascii_of(bytes, i + 1, j);
    assert(digits@.subrange(0, digits@.len() as int) =~= digits@);
    match parse_digits(&digits, 0, digits.len(), 10, 255) {
        Some(n) => {
            let combined: u8 = n as u8;
            Some((j + 1, (combined % 8, name_facility(combined / 8))))
        },
        None => None,
    }
}

// ---------------------------------------------------------------------------
// Timestamps
// ---------------------------------------------------------------------------

/// The point in time at `i`: a version number, a space and a time by RFC 3339,
/// which a space follows.
pub open spec fn rfc3339_reading(s: Seq<u8>, i: int) -> Option<(int, Timestamp)> {
    let k = byte_run(s, i, ByteClass::Digit);
    let j = byte_run(s, k + 1, ByteClass::Solid);
    let text = s.subrange(k + 1, j);
    if k > i && byte_at(s, k, 0x20) && byte_at(s, j, 0x20) && valid_utf8(text) {
        match rfc3339(decode_utf8(text)) {
            Some(t) => Some((j, t)),
            None => None,
        }
    } else {
        None
    }
}

/// Reads a version number and a time by RFC 3339 at `i`.
fn rfc3339_timestamp_at(bytes: &[u8], i: usize) -> (res: Option<(usize, Timestamp)>)
    requires
        i <= bytes@.len(),
    ensures
        match (res, rfc3339_reading(bytes@, i as int)) {
            (Some((j, t)), Some((j2, t2))) => j == j2 && t == t2 && i < j <= bytes@.len(),
            (None, None) => true,
            _ => false,
        },
{
    let k = scan_bytes(bytes, i, ByteClass::Digit);
    if k == i || !is_byte_at(bytes, k, 0x20) {
        return None;
    }
    let j = scan_bytes(bytes, k + 1, ByteClass::Solid);
    if !is_byte_at(bytes, j, 0x20) {
        return None;
    }
    match utf8_string(bytes, k + 1, j) {
        Some(text) => match parse_rfc3339(text.as_str()) {
            Some(t) => Some((j, t)),
            None => None,
        },
        None => None,
    }
}

/// The month that the word names: the first three letters of its name and a space.
pub open spec fn month_of(word: Seq<char>) -> Option<u32> {
    if word == "Jan "@ {
        Some(1u32)
    } else if word == "Feb "@ {
        Some(2u32)
    } else if word == "Mar "@ {
        Some(3u32)
    } else if word == "Apr "@ {
        Some(4u32)
    } else if word == "May "@ {
        Some(5u32)
    } else if word == "Jun "@ {
        Some(6u32)
    } else if word == "Jul "@ {
        Some(7u32)
    } else if word == "Aug "@ {
        Some(8u32)
    } else if word == "Sep "@ {
        Some(9u32)
    } else if word == "Oct "@ {
        Some(10u32)
    } else if word == "Nov "@ {
        Some(11u32)
    } else if word == "Dec "@ {
        Some(12u32)
    } else {
        None
    }
}

/// The month that the word names.
fn read_month(word: &str) -> (res: Option<u32>)
    ensures
        res == month_of(word@),
{
    if str_eq(word, "Jan ") {
        Some(1)
    } else if str_eq(word, "Feb ") {
        Some(2)
    } else if str_eq(word, "Mar ") {
        Some(3)
    } else if str_eq(word, "Apr ") {
        Some(4)
    } else if str_eq(word, "May ") {
        Some(5)
    } else if str_eq(word, "Jun ") {
        Some(6)
    } else if str_eq(word, "Jul ") {
        Some(7)
    } else if str_eq(word, "Aug ") {
        Some(8)
    } else if str_eq(word, "Sep ") {
        Some(9)
    } else if str_eq(word, "Oct ") {
        Some(10)
    } else if str_eq(word, "Nov ") {
        Some(11)
    } else if str_eq(word, "Dec ") {
        Some(12)
    } else {
        None
    }
}

/// The day of the month that two bytes denote: two digits, or a space and a digit.
pub open spec fn day_of(a: u8, b: u8) -> Option<u32> {
    if a == 0x20 && crate::bytes::is_digit(b) {
        Some((b - 0x30) as u32)
    } else if crate::bytes::is_digit(a) && crate::bytes::is_digit(b) {
        Some(((a - 0x30) * 10 + (b - 0x30)) as u32)
    } else {
        None
    }
}

/// The day of the month that two bytes denote.
fn read_day(a: u8, b: u8) -> (res: Option<u32>)
    ensures
        res == day_of(a, b),
{
    if b < 0x30 || b > 0x39 {
        return None;
    }
    if a == 0x20 {
        Some((b - 0x30) as u32)
    } else if 0x30 <= a && a <= 0x39 {
        Some((a - 0x30) as u32 * 10 + (b - 0x30) as u32)
    } else {
        None
    }
}

/// The date and time at `i` by RFC 3164, in the given year: month, day and time,
/// with a space behind each.
pub open spec fn civil_reading(s: Seq<u8>, i: int, year: i32) -> Option<(int, Civil)> {
    let clock = ascii_chars(s.subrange(i + 7, i + 15));
    if 0 <= i && i + 16 <= s.len() && s[i + 6] == 0x20 && time_form(clock) && s[i + 15] == 0x20 {
        match (
            month_of(ascii_chars(s.subrange(i, i + 4))),
            day_of(s[i + 4], s[i + 5]),
            time_of_day(clock),
        ) {
            (Some(month), Some(day), Some((hour, minute, second, nano))) => if calendar_date(
                year as int,
                month as int,
                day as int,
            ) {
                Some((i + 16, Civil { year, month, day, hour, minute, second, nano }))
            } else {
                None
            },
            _ => None,
        }
    } else {
        None
    }
}

/// Whether the characters have the form of a time of day.
fn has_time_form(chars: &Vec<char>) -> (res: bool)
    ensures
        res == time_form(chars@),
{
    if chars.len() != 8 {
        return false;
    }
    let mut i: usize = 0;
    while i < 8
        invariant
            chars@.len() == 8,
            i <= 8,
            forall|k: int|
                0 <= k < i ==> (if k == 2 || k == 5 {
                    #[trigger] chars@[k] == ':'
                } else {
                    '0' <= chars@[k] && chars@[k] <= '9'
                }),
        decreases 8 - i,
    {
        let c: char = chars[i];
        let fits = if i == 2 || i == 5 {
            c == ':'
        } else {
            '0' <= c && c <= '9'
        };
        if !fits {
            assert(chars@[i as int] == c);
            return false;
        }
        i = i + 1;
    }
    true
}

/// Reads a date and time by RFC 3164 at `i`, in the given year.
pub fn rfc3164_civil_at(bytes: &[u8], i: usize, year: i32) -> (res: Option<(usize, Civil)>)
    requires
        i <= bytes@.len(),
    ensures
        match (res, civil_reading(bytes@, i as int, year)) {
            (Some((j, c)), Some((j2, c2))) => j == j2 && c == c2 && i < j <= bytes@.len()
                && civil_exists(c),
            (None, None) => true,
            _ => false,
        },
{
    if bytes.len() - i < 16 || bytes[i + 6] != 0x20 || bytes[i + 15] != 0x20 {
        return None;
    }
    let clock = ascii_of(bytes, i + 7, i + 15);
    if !has_time_form(&clock) {
        return None;
    }
    let word = ascii_of(bytes, i, i + 4);
    assert(word@.subrange(0, 4) =~= word@);
    assert(clock@.subrange(0, 8) =~= clock@);
    let month: u32 = match read_month(string_of(&word, 0, 4).as_str()) {
        Some(month) => month,
        None => {
            return None;
        },
    };
    let day: u32 = match read_day(bytes[i + 4], bytes[i + 5]) {
        Some(day) => day,
        None => {
            return None;
        },
    };
    match parse_time(string_of(&clock, 0, 8).as_str()) {
        Some((hour, minute, second, nano)) => if date_exists(year, month, day) {
            Some((i + 16, Civil { year, month, day, hour, minute, second, nano }))
        } else {
            None
        },
        None => None,
    }
}

/// What stands where a timestamp is due.
pub enum Stamp {
    /// A point in time, up to this place.
    Exact(int, Timestamp),
    /// What local clocks showed, up to this place.
    Local(int, Civil),
    /// No timestamp.
    Absent,
}

/// What stands at `i`, where a timestamp is due.
pub open spec fn stamp_reading(s: Seq<u8>, i: int, year: i32) -> Stamp {
    match rfc3339_reading(s, i) {
        Some((j, t)) => Stamp::Exact(j, t),
        None => match civil_reading(s, i, year) {
            Some((j, c)) => Stamp::Local(j, c),
            None => Stamp::Absent,
        },
    }
}

/// The point in time that a stamp denotes, given what its local time came to.
pub open spec fn stamped(stamp: Stamp, resolved: Option<Timestamp>) -> Option<(int, Timestamp)> {
    match stamp {
        Stamp::Exact(j, t) => Some((j, t)),
        Stamp::Local(j, c) => match resolved {
            Some(t) => Some((j, t)),
            None => None,
        },
        Stamp::Absent => None,
    }
}

// ---------------------------------------------------------------------------
// Host, program and message
// ---------------------------------------------------------------------------

/// The host name at `i`: letters, digits and dots, which a space follows.
pub open spec fn hostname_reading(s: Seq<u8>, i: int) -> Option<(int, Seq<char>)> {
    let j = byte_run(s, i, ByteClass::Host);
    if j > i && byte_at(s, j, 0x20) {
        Some((j + 1, text_of(s.subrange(i, j))))
    } else {
        None
    }
}

/// Reads a host name at `i`.
fn hostname_at(bytes: &[u8], i: usize) -> (res: Option<(usize, String)>)
    requires
        i <= bytes@.len(),
    ensures
        match (res, hostname_reading(bytes@, i as int)) {
            (Some((j, h)), Some((j2, h2))) => j == j2 && h@ == h2 && i < j <= bytes@.len(),
            (None, None) => true,
            _ => false,
        },
{
    let j = scan_bytes(bytes, i, ByteClass::Host);
    if j > i && is_byte_at(bytes, j, 0x20) {
        Some((j + 1, lossy_string(bytes, i, j)))
    } else {
        None
    }
}

/// The process number in brackets at `i`.
pub open spec fn pid_reading(s: Seq<u8>, i: int) -> Option<(int, u64)> {
    let k = byte_run(s, i + 1, ByteClass::Digit);
    if byte_at(s, i, 0x5b) && k > i + 1 && byte_at(s, k, 0x5d) {
        match read_digits(ascii_chars(s.subrange(i + 1, k)), 10, u64::MAX as nat) {
            Some(n) => Some((k + 1, n as u64)),
            None => None,
        }
    } else {
        None
    }
}

/// Reads a process number in brackets at `i`.
fn pid_at(bytes: &[u8], i: usize) -> (res: Option<(usize, u64)>)
    requires
        i <= bytes@.len(),
    ensures
        match (res, pid_reading(bytes@, i as int)) {
            (Some((j, n)), Some((j2, n2))) => j == j2 && n == n2 && i < j <= bytes@.len(),
            (None, None) => true,
            _ => false,
        },
{
    if !is_byte_at(bytes, i, 0x5b) {
        return None;
    }
    let k = scan_bytes(bytes, i + 1, ByteClass::Digit);
    if k == i + 1 || !is_byte_at(bytes, k, 0x5d) {
        return None;
    }
    let digits = ascii_of(bytes, i + 1, k);
    assert(digits@.subrange(0, digits@.len() as int) =~= digits@);
    match parse_digits(&digits, 0, digits.len(), 10, u64::MAX) {
        Some(n) => Some((k + 1, n)),
        None => None,
    }
}

/// The program at `i`: its name, perhaps its process number in brackets, a colon
/// and a space.
pub open spec fn identifier_reading(s: Seq<u8>, i: int) -> Option<(int, (Seq<char>, Option<u64>))> {
    let j = byte_run(s, i, ByteClass::Identifier);
    let (end, pid) = match pid_reading(s, j) {
        Some((k, n)) => (k, Some(n)),
        None => (j, None),
    };
    if j > i && byte_at(s, end, 0x3a) && byte_at(s, end + 1, 0x20) {
        Some((end + 2, (text_of(s.subrange(i, j)), pid)))
    } else {
        None
    }
}

/// Reads a program's name and process number at `i`.
fn identifier_and_pid_at(bytes: &[u8], i: usize) -> (res: Option<
    (usize, (String, Option<u64>)),
>)
    requires
        i <= bytes@.len(),
    ensures
        match (res, identifier_reading(bytes@, i as int)) {
            (Some((j, (name, pid))), Some((j2, (name2, pid2)))) => j == j2 && name@ == name2 && pid
                == pid2 && i < j <= bytes@.len(),
            (None, None) => true,
            _ => false,
        },
{
    let j = scan_bytes(bytes, i, ByteClass::Identifier);
    if j == i {
        return None;
    }
    let (end, pid): (usize, Option<u64>) = match pid_at(bytes, j) {
        Some((k, n)) => (k, Some(n)),
        None => (j, None),
    };
    if is_byte_at(bytes, end, 0x3a) && is_byte_at(bytes, end + 1, 0x20) {
        Some((end + 2, (lossy_string(bytes, i, j), pid)))
    } else {
        None
    }
}

/// Where a reading ends; at its start where there is none.
pub open spec fn end_of<T>(r: Option<(int, T)>, i: int) -> int {
    match r {
        Some((j, t)) => j,
        None => i,
    }
}

/// What was read.
pub open spec fn value_of<T>(r: Option<(int, T)>) -> Option<T> {
    match r {
        Some((j, t)) => Some(t),
        None => None,
    }
}

/// A text without the space that it begins with.
pub open spec fn without_space(s: Seq<char>) -> Seq<char> {
    if s.len() > 0 && s[0] == ' ' {
        s.skip(1)
    } else {
        s
    }
}

/// What a datagram says in the given year, where its local time comes to
/// `resolved` and it is read at `now`. Every part but the message may be missing: a
/// notice from `user` is taken to come from now. Where the message is all there is
/// behind the priority, a space before it is dropped.
pub open spec fn message_of(
    s: Seq<u8>,
    year: i32,
    resolved: Option<Timestamp>,
    now: Timestamp,
) -> SyslogView {
    let prio = prio_reading(s, 0);
    let i1 = end_of(prio, 0);
    let time = stamped(stamp_reading(s, i1, year), resolved);
    let i2 = end_of(time, i1);
    let host = hostname_reading(s, i2);
    let i3 = end_of(host, i2);
    let ident = identifier_reading(s, i3);
    let rest = text_of(s.skip(end_of(ident, i3)));
    SyslogView {
        priority: match prio {
            Some((_, (p, _))) => p,
            None => 5,
        },
        facility: match prio {
            Some((_, (_, f))) => f,
            None => "user"@,
        },
        source_timestamp: match time {
            Some((_, t)) => t,
            None => now,
        },
        hostname: value_of(host),
        identifier: match ident {
            Some((_, (name, _))) => Some(name),
            None => None,
        },
        pid: match ident {
            Some((_, (_, pid))) => pid,
            None => None,
        },
        message: if time is None && host is None && ident is None {
            without_space(rest)
        } else {
            rest
        },
        full_message: text_of(s),
    }
}

/// Drops a space at the start of a text.
fn strip_space(s: String) -> (res: String)
    ensures
        res@ == without_space(s@),
{
    let chars = crate::text::chars_of(s.as_str());
    if chars.len() > 0 && chars[0] == ' ' {
        string_of(&chars, 1, chars.len())
    } else {
        s
    }
}

/// The local time at which a datagram says it was sent, in the given year, where it
/// says so by RFC 3164.
pub open spec fn local_time(s: Seq<u8>, year: i32) -> Option<Civil> {
    match stamp_reading(s, end_of(prio_reading(s, 0), 0), year) {
        Stamp::Local(_, c) => Some(c),
        _ => None,
    }
}

/// Finds the local time at which a datagram says it was sent.
pub fn find_local_time(bytes: &[u8], year: i32) -> (res: Option<Civil>)
    ensures
        res == local_time(bytes@, year),
        res matches Some(c) ==> civil_exists(c),
{
    let i1: usize = match prio_and_facility_at(bytes, 0) {
        Some((j, _)) => j,
        None => 0,
    };
    match rfc3339_timestamp_at(bytes, i1) {
        Some(_) => None,
        None => match rfc3164_civil_at(bytes, i1, year) {
            Some((_, c)) => Some(c),
            None => None,
        },
    }
}

/// Reads a datagram, given the year, what its local time comes to and the time now.
pub fn parse_syslog_at(
    bytes: &[u8],
    year: i32,
    resolved: Option<Timestamp>,
    now: Timestamp,
) -> (res: SyslogMessage)
    ensures
        res@ == message_of(bytes@, year, resolved, now),
{
    let prio = prio_and_facility_at(bytes, 0);
    let (i1, priority, facility): (usize, u8, String) = match prio {
        Some((j, (p, f))) => (j, p, f),
        None => (0, 5, "user".to_owned()),
    };
    let time: Option<(usize, Timestamp)> = match rfc3339_timestamp_at(bytes, i1) {
        Some(r) => Some(r),
        None => match rfc3164_civil_at(bytes, i1, year) {
            Some((j, _)) => match resolved {
                Some(t) => Some((j, t)),
                None => None,
            },
            None => None,
        },
    };
    let (i2, source_timestamp): (usize, Timestamp) = match time {
        Some((j, t)) => (j, t),
        None => (i1, now),
    };
    let (i3, hostname): (usize, Option<String>) = match hostname_at(bytes, i2) {
        Some((j, h)) => (j, Some(h)),
        None => (i2, None),
    };
    let (i4, identifier, pid): (usize, Option<String>, Option<u64>) = match identifier_and_pid_at(
        bytes,
        i3,
    ) {
        Some((j, (name, pid))) => (j, Some(name), pid),
        None => (i3, None, None),
    };
    assert(bytes@.skip(i4 as int) =~= bytes@.subrange(i4 as int, bytes@.len() as int));
    assert(bytes@.subrange(0, bytes@.len() as int) =~= bytes@);
    let rest = lossy_string(bytes, i4, bytes.len());
    let message = if time.is_none() && hostname.is_none() && identifier.is_none() {
        strip_space(rest)
    } else {
        rest
    };
    SyslogMessage {
        priority,
        facility,
        source_timestamp,
        hostname,
        identifier,
        pid,
        message,
        full_message: lossy_string(bytes, 0, bytes.len()),
    }
}

/// The bytes are not of the form that was to be read, or no time can be told that they
/// are read by.
#[derive(Clone, Copy, Debug, PartialEq, Eq)]
pub struct Malformed;

/// The point in time that a datagram states by RFC 3339, where it does.
pub open spec fn stated_time(s: Seq<u8>) -> Option<Timestamp> {
    value_of(rfc3339_reading(s, end_of(prio_reading(s, 0), 0)))
}

/// Finds the point in time that a datagram states by RFC 3339.
fn find_stated_time(bytes: &[u8]) -> (res: Option<Timestamp>)
    ensures
        res == stated_time(bytes@),
{
    let i1: usize = match prio_and_facility_at(bytes, 0) {
        Some((j, _)) => j,
        None => 0,
    };
    match rfc3339_timestamp_at(bytes, i1) {
        Some((_, t)) => Some(t),
        None => None,
    }
}

/// Whether this is the message that a datagram becomes, with none of it left over.
pub open spec fn whole_message(
    res: Result<(Vec<u8>, SyslogMessage), Malformed>,
    m: SyslogView,
) -> bool {
    res matches Ok((rest, msg)) && rest@.len() == 0 && msg@ == m
}

/// Whether this is what reading a datagram at `now` comes to, where its local time comes
/// to `resolved`.
pub open spec fn read_now(
    res: Result<(Vec<u8>, SyslogMessage), Malformed>,
    s: Seq<u8>,
    now: Timestamp,
    resolved: Option<Timestamp>,
) -> bool {
    &&& match local_time(s, now.civil.year) {
        Some(c) => local_time_resolves(c, resolved) && (resolved matches Some(t) ==> t.civil == c),
        None => resolved is None,
    }
    &&& whole_message(res, message_of(s, now.civil.year, resolved, now))
}

/// Reads a datagram. Every datagram is a message, and none of it is left over. A time by
/// RFC 3164 is taken to be of the current year in the machine's time zone, and a datagram
/// without a time to be of now; the clock is read unless the datagram states its time by
/// RFC 3339, and where the clock tells no time there is no message.
pub fn parse_syslog(bytes: &[u8]) -> (res: Result<(Vec<u8>, SyslogMessage), Malformed>)
    ensures
        stated_time(bytes@) matches Some(t) ==> whole_message(res, message_of(bytes@, 0, None, t)),
        stated_time(bytes@) is None ==> exists|now: Option<Timestamp>| #[trigger]
            local_clock_reads(now) && match now {
                Some(n) => exists|resolved: Option<Timestamp>| #[trigger]
                    read_now(res, bytes@, n, resolved),
                None => res is Err,
            },
{
    match find_stated_time(bytes) {
        Some(t) => {
            return Ok((Vec::new(), parse_syslog_at(bytes, 0, None, t)));
        },
        None => {},
    }
    let reading = local_now();
    assert(local_clock_reads(reading));
    let now = match reading {
        Some(now) => now,
        None => {
            return Err(Malformed);
        },
    };
    let year: i32 = now.civil.year;
    let resolved = match find_local_time(bytes, year) {
        Some(c) => resolve(c),
        None => None,
    };
    let msg = parse_syslog_at(bytes, year, resolved, now);
    let res = Ok((Vec::new(), msg));
    assert(read_now(res, bytes@, now, resolved));
    res
}

/// Reads the priority and the facility that bytes begin with.
pub fn prio_and_facility(bytes: &[u8]) -> (res: Result<(Vec<u8>, (u8, String)), Malformed>)
    ensures
        match (res, prio_reading(bytes@, 0)) {
            (Ok((rest, (p, f))), Some((j, (p2, f2)))) => rest@ == bytes@.skip(j) && p == p2 && f@
                == f2,
            (Err(_), None) => true,
            _ => false,
        },
{
    match prio_and_facility_at(bytes, 0) {
        Some((j, pf)) => Ok((copy_bytes(bytes, j, bytes.len()), pf)),
        None => Err(Malformed),
    }
}

/// The point in time by RFC 3164 that bytes begin with, in the given year, where its
/// local time comes to `resolved`.
pub open spec fn local_stamp(s: Seq<u8>, year: i32, resolved: Option<Timestamp>) -> Option<
    (int, Timestamp),
> {
    match civil_reading(s, 0, year) {
        Some((j, c)) => stamped(Stamp::Local(j, c), resolved),
        None => None,
    }
}

/// Whether this is what comes of reading a timestamp off bytes: the timestamp and the
/// bytes behind it, or an error where there is none.
pub open spec fn stamp_result(
    res: Result<(Vec<u8>, Timestamp), Malformed>,
    s: Seq<u8>,
    stamp: Option<(int, Timestamp)>,
) -> bool {
    match (res, stamp) {
        (Ok((rest, t)), Some((j, t2))) => rest@ == s.skip(j) && t == t2,
        (Err(_), None) => true,
        _ => false,
    }
}

/// Reads the time by RFC 3164 that bytes begin with, given the year and what its local
/// time comes to.
pub fn rfc3164_timestamp_at(bytes: &[u8], year: i32, resolved: Option<Timestamp>) -> (res: Result<
    (Vec<u8>, Timestamp),
    Malformed,
>)
    ensures
        stamp_result(res, bytes@, local_stamp(bytes@, year, resolved)),
{
    match rfc3164_civil_at(bytes, 0, year) {
        Some((j, _)) => match resolved {
            Some(t) => {
                assert(bytes@.skip(j as int) =~= bytes@.subrange(j as int, bytes@.len() as int));
                Ok((copy_bytes(bytes, j, bytes.len()), t))
            },
            None => Err(Malformed),
        },
        None => Err(Malformed),
    }
}

/// Whether this is what reading a time by RFC 3164 at `now` comes to, where the local time
/// comes to `resolved`.
pub open spec fn stamp_read_now(
    res: Result<(Vec<u8>, Timestamp), Malformed>,
    s: Seq<u8>,
    now: Timestamp,
    resolved: Option<Timestamp>,
) -> bool {
    &&& match civil_reading(s, 0, now.civil.year) {
        Some((_, c)) => local_time_resolves(c, resolved) && (resolved matches Some(t) ==> t.civil
            == c),
        None => resolved is None,
    }
    &&& stamp_result(res, s, local_stamp(s, now.civil.year, resolved))
}

/// Reads the time by RFC 3164 that bytes begin with, taken to be of the current
/// year in the machine's time zone. There is none where the clock tells no time.
pub fn rfc3164_timestamp(bytes: &[u8]) -> (res: Result<(Vec<u8>, Timestamp), Malformed>)
    ensures
        res matches Ok((rest, t)) ==> civil_reading(bytes@, 0, t.civil.year) == Some(
            (16int, t.civil),
        ) && rest@ == bytes@.skip(16),
        exists|now: Option<Timestamp>| #[trigger]
            local_clock_reads(now) && match now {
                Some(n) => exists|resolved: Option<Timestamp>| #[trigger]
                    stamp_read_now(res, bytes@, n, resolved),
                None => res is Err,
            },
{
    let reading = local_now();
    assert(local_clock_reads(reading));
    let now = match reading {
        Some(now) => now,
        None => {
            return Err(Malformed);
        },
    };
    let year: i32 = now.civil.year;
    let resolved = match rfc3164_civil_at(bytes, 0, year) {
        Some((_, c)) => resolve(c),
        None => None,
    };
    let res = rfc3164_timestamp_at(bytes, year, resolved);
    assert(stamp_read_now(res, bytes@, now, resolved));
    res
}

// ---------------------------------------------------------------------------
// Laws
// ---------------------------------------------------------------------------

/// A run ends where its class does.
proof fn lemma_byte_run_to(s: Seq<u8>, i: int, to: int, class: ByteClass)
    requires
        0 <= i <= to <= s.len(),
        forall|j: int| i <= j < to ==> byte_in(class, #[trigger] s[j]),
        to < s.len() ==> !byte_in(class, s[to]),
    ensures
        byte_run(s, i, class) == to,
    decreases to - i,
{
    if i < to {
        lemma_byte_run_to(s, i + 1, to, class);
    }
}

/// The number that a facility and a priority are sent as is read back as the same
/// two.
pub proof fn priority_reads_back(s: Seq<u8>, facility: nat, priority: nat)
    requires
        facility < 32,
        priority < 8,
        ascii_chars(s) == seq!['<'] + decimal(facility * 8 + priority) + seq!['>'],
    ensures
        prio_reading(s, 0) == Some((s.len() as int, (priority as u8, facility_name(facility)))),
{
    let n = facility * 8 + priority;
    let d = decimal(n);
    digits_read_back(n, 10);
    let chars = ascii_chars(s);
    let j = s.len() - 1;
    assert(chars.len() == d.len() + 2);
    assert(chars[0] == '<' && chars[j] == '>');
    assert(s[0] == 0x3c && s[j] == 0x3e);
    assert forall|k: int| 1 <= k < j implies byte_in(ByteClass::Digit, #[trigger] s[k]) by {
        assert(chars[k] == d[k - 1]);
        assert(digit_value(d[k - 1], 10) is Some);
    }
    lemma_byte_run_to(s, 1, j, ByteClass::Digit);
    assert(ascii_chars(s.subrange(1, j)) =~= d) by {
        assert forall|k: int| 0 <= k < d.len() implies ascii_chars(s.subrange(1, j))[k] == d[k] by {
            assert(chars[k + 1] == d[k]);
        }
    }
    assert(n % 8 == priority && n / 8 == facility);
}

/// A host name is the text that its bytes spell in ASCII.
pub proof fn hostname_is_ascii(s: Seq<u8>, i: int)
    requires
        0 <= i <= s.len(),
    ensures
        hostname_reading(s, i) matches Some((j, host)) ==> i < j <= s.len() && host == ascii_chars(
            s.subrange(i, j - 1),
        ),
{
    let j = byte_run(s, i, ByteClass::Host);
    lemma_byte_run(s, i, ByteClass::Host);
    let part = s.subrange(i, j);
    assert forall|k: int| 0 <= k < part.len() implies #[trigger] part[k] <= 0x7f by {
        assert(byte_in(ByteClass::Host, s[i + k]));
    }
    ascii_is_utf8(part);
}

} // verus!
