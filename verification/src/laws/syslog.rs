//! What syslog datagrams are read as.
use vstd::prelude::*;

use crate::bytes::{ascii_chars, byte_in, byte_run, lemma_byte_run, text_of, ByteClass};
use crate::number::{decimal, digit_value, digits_read_back, read_digits};
use crate::syslog::{
    civil_reading, day_of, hostname_reading, identifier_reading, local_time, message_of, month_of,
    pid_reading, prio_reading, rfc3339_reading, SyslogView,
};
use crate::time::{time_form, time_of_day, Civil, Timestamp};

verus! {

/// The bytes of a text of ASCII.
pub open spec fn code(t: Seq<char>) -> Seq<u8> {
    Seq::new(t.len(), |i: int| t[i] as u8)
}

/// Whether the bytes `part` stand at `i`.
pub open spec fn holds(s: Seq<u8>, i: int, part: Seq<u8>) -> bool {
    &&& 0 <= i && i + part.len() <= s.len()
    &&& forall|k: int| 0 <= k < part.len() ==> #[trigger] s[i + k] == part[k]
}

/// What stands at a place in two parts stands there one behind the other.
proof fn lemma_parts(s: Seq<u8>, i: int, a: Seq<u8>, b: Seq<u8>)
    ensures
        holds(s, i, a + b) <==> holds(s, i, a) && holds(s, i + a.len(), b),
{
    let ab = a + b;
    if holds(s, i, ab) {
        assert forall|k: int| 0 <= k < a.len() implies #[trigger] s[i + k] == a[k] by {
            assert(s[i + k] == ab[k]);
        }
        assert forall|k: int| 0 <= k < b.len() implies #[trigger] s[(i + a.len()) + k] == b[k] by {
            assert(s[i + (a.len() + k)] == ab[a.len() + k]);
        }
    }
    if holds(s, i, a) && holds(s, i + a.len(), b) {
        assert forall|k: int| 0 <= k < ab.len() implies #[trigger] s[i + k] == ab[k] by {
            if k < a.len() {
                assert(s[i + k] == a[k]);
            } else {
                assert(s[(i + a.len()) + (k - a.len())] == b[k - a.len()]);
            }
        }
    }
}

/// What stands at a place is the part between its ends.
proof fn lemma_part(s: Seq<u8>, i: int, part: Seq<u8>)
    requires
        holds(s, i, part),
    ensures
        s.subrange(i, i + part.len()) == part,
{
    assert forall|k: int| 0 <= k < part.len() implies s.subrange(i, i + part.len())[k] == part[k] by {
        assert(s[i + k] == part[k]);
    }
    assert(s.subrange(i, i + part.len()) =~= part);
}

/// The bytes of a text spell the text.
proof fn lemma_code(t: Seq<char>)
    requires
        forall|i: int| 0 <= i < t.len() ==> 0 <= #[trigger] t[i] as int <= 0x7f,
    ensures
        ascii_chars(code(t)) == t,
{
    assert forall|i: int| 0 <= i < t.len() implies #[trigger] ascii_chars(code(t))[i] == t[i] by {
        assert(0 <= t[i] as int <= 0x7f);
    }
    assert(ascii_chars(code(t)) =~= t);
}

/// A run ends where its class does.
proof fn lemma_run_to(s: Seq<u8>, i: int, to: int, class: ByteClass)
    requires
        0 <= i <= to <= s.len(),
        forall|j: int| i <= j < to ==> byte_in(class, #[trigger] s[j]),
        to < s.len() ==> !byte_in(class, s[to]),
    ensures
        byte_run(s, i, class) == to,
    decreases to - i,
{
    if i < to {
        lemma_run_to(s, i + 1, to, class);
    }
}

/// The digits of a number are decimal digits.
proof fn lemma_decimal(n: nat)
    ensures
        decimal(n).len() > 0,
        forall|i: int|
            0 <= i < decimal(n).len() ==> '0' <= #[trigger] decimal(n)[i] && decimal(n)[i] <= '9',
        forall|max: nat| n <= max ==> #[trigger] read_digits(decimal(n), 10, max) == Some(n),
        forall|max: nat| n > max ==> #[trigger] read_digits(decimal(n), 10, max) is None,
        ascii_chars(code(decimal(n))) == decimal(n),
{
    let g = decimal(n);
    digits_read_back(n, 10);
    assert forall|i: int| 0 <= i < g.len() implies '0' <= #[trigger] g[i] && g[i] <= '9' by {
        assert(digit_value(g[i], 10) is Some);
    }
    assert forall|i: int| 0 <= i < g.len() implies 0 <= #[trigger] g[i] as int <= 0x7f by {
        assert('0' <= g[i] && g[i] <= '9');
    }
    lemma_code(g);
}

/// The digits of a number that another byte follows are a run.
proof fn lemma_number(s: Seq<u8>, i: int, n: nat)
    requires
        holds(s, i, code(decimal(n))),
        i + decimal(n).len() < s.len(),
        !(0x30 <= s[i + decimal(n).len()] <= 0x39),
    ensures
        byte_run(s, i, ByteClass::Digit) == i + decimal(n).len(),
        ascii_chars(s.subrange(i, i + decimal(n).len())) == decimal(n),
{
    let g = decimal(n);
    let b = code(g);
    lemma_decimal(n);
    assert forall|j: int| i <= j < i + g.len() implies byte_in(
        ByteClass::Digit,
        #[trigger] s[j],
    ) by {
        assert(s[i + (j - i)] == b[j - i]);
        assert('0' <= g[j - i] && g[j - i] <= '9');
    }
    lemma_run_to(s, i, i + g.len(), ByteClass::Digit);
    lemma_part(s, i, b);
}

// ---------------------------------------------------------------------------
// Priority and facility
// ---------------------------------------------------------------------------

/// The name of a facility.
pub open spec fn facility_called(n: nat) -> Seq<char> {
    if n == 0 {
        "kern"@
    } else if n == 1 {
        "user"@
    } else if n == 2 {
        "mail"@
    } else if n == 3 {
        "daemon"@
    } else if n == 4 {
        "auth"@
    } else if n == 5 {
        "syslog"@
    } else if n == 6 {
        "lpr"@
    } else if n == 7 {
        "news"@
    } else if n == 8 {
        "uucp"@
    } else if n == 9 {
        "cron"@
    } else if n == 10 {
        "authpriv"@
    } else if n == 11 {
        "ftp"@
    } else if n == 12 {
        "ntp"@
    } else if n == 13 {
        "audit"@
    } else if n == 14 {
        "alert"@
    } else if n == 15 {
        "clock"@
    } else {
        "local"@ + decimal((n - 16) as nat)
    }
}

/// The number in angle brackets that a datagram begins with.
pub open spec fn mark(n: nat) -> Seq<u8> {
    seq![0x3cu8] + code(decimal(n)) + seq![0x3eu8]
}

/// A number below 256 in angle brackets is eight times the facility and the priority; a
/// larger one is not read.
pub proof fn mark_is_read(s: Seq<u8>, n: nat)
    requires
        holds(s, 0, mark(n)),
    ensures
        n < 256 ==> prio_reading(s, 0) == Some(
            (mark(n).len() as int, ((n % 8) as u8, facility_called(n / 8))),
        ),
        n >= 256 ==> prio_reading(s, 0) is None,
{
    let g = code(decimal(n));
    let e = 1 + g.len() as int;
    lemma_decimal(n);
    lemma_parts(s, 0, seq![0x3cu8] + g, seq![0x3eu8]);
    lemma_parts(s, 0, seq![0x3cu8], g);
    assert(s[0int + 0] == seq![0x3cu8][0]);
    assert(s[e + 0] == seq![0x3eu8][0]);
    lemma_number(s, 1, n);
}

/// Without an angle bracket there is no priority.
pub proof fn no_mark_is_read(s: Seq<u8>)
    requires
        s.len() == 0 || s[0] != 0x3c,
    ensures
        prio_reading(s, 0) is None,
{
}

// ---------------------------------------------------------------------------
// The program
// ---------------------------------------------------------------------------

/// Whether bytes can be the name of a program: none of them is a colon, an opening bracket,
/// a space or a tab.
pub open spec fn is_program(name: Seq<u8>) -> bool {
    &&& name.len() > 0
    &&& forall|i: int|
        0 <= i < name.len() ==> #[trigger] name[i] != 0x3a && name[i] != 0x5b && name[i] != 0x20
            && name[i] != 0x09
}

/// What stands behind the name of a program: its process number, where it has one, a colon
/// and a space.
pub open spec fn behind_name(pid: Option<u64>) -> Seq<u8> {
    match pid {
        Some(n) => seq![0x5bu8] + code(decimal(n as nat)) + seq![0x5du8, 0x3au8, 0x20u8],
        None => seq![0x3au8, 0x20u8],
    }
}

/// The name and the process number of a program are read where they stand.
pub proof fn program_is_read(s: Seq<u8>, i: int, name: Seq<u8>, pid: Option<u64>)
    requires
        is_program(name),
        holds(s, i, name + behind_name(pid)),
    ensures
        identifier_reading(s, i) == Some(
            (i + name.len() + behind_name(pid).len() as int, (text_of(name), pid)),
        ),
{
    let tail = behind_name(pid);
    let j = i + name.len();
    lemma_parts(s, i, name, tail);
    assert forall|k: int| i <= k < j implies byte_in(ByteClass::Identifier, #[trigger] s[k]) by {
        assert(s[i + (k - i)] == name[k - i]);
    }
    assert(s[j + 0] == tail[0]);
    lemma_run_to(s, i, j, ByteClass::Identifier);
    lemma_part(s, i, name);
    match pid {
        Some(n) => {
            let g = code(decimal(n as nat));
            let end = seq![0x5du8, 0x3au8, 0x20u8];
            lemma_decimal(n as nat);
            lemma_parts(s, j, seq![0x5bu8] + g, end);
            lemma_parts(s, j, seq![0x5bu8], g);
            let e = j + 1 + g.len();
            assert(s[e + 0] == end[0] && s[e + 1] == end[1] && s[e + 2] == end[2]);
            lemma_number(s, j + 1, n as nat);
            assert(pid_reading(s, j) == Some((e + 1, n)));
        },
        None => {
            assert(s[j + 1] == tail[1]);
        },
    }
}

/// Without a colon and a space behind the name, or the number in brackets, there is no
/// program.
pub proof fn no_program_without_its_colon(s: Seq<u8>, i: int, name: Seq<u8>, b: u8)
    requires
        is_program(name),
        holds(s, i, name + seq![b]),
        b == 0x20 || b == 0x09,
    ensures
        identifier_reading(s, i) is None,
{
    let j = i + name.len();
    lemma_parts(s, i, name, seq![b]);
    assert forall|k: int| i <= k < j implies byte_in(ByteClass::Identifier, #[trigger] s[k]) by {
        assert(s[i + (k - i)] == name[k - i]);
    }
    assert(s[j + 0] == seq![b][0]);
    lemma_run_to(s, i, j, ByteClass::Identifier);
}

// ---------------------------------------------------------------------------
// The host
// ---------------------------------------------------------------------------

/// Whether bytes can be the name of a host: letters, digits and dots.
pub open spec fn is_host(host: Seq<u8>) -> bool {
    &&& host.len() > 0
    &&& forall|i: int|
        0 <= i < host.len() ==> (0x30 <= #[trigger] host[i] <= 0x39) || (0x41 <= host[i] <= 0x5a)
            || (0x61 <= host[i] <= 0x7a) || host[i] == 0x2e
}

/// The name of a host is read where it stands, with a space behind it.
pub proof fn host_is_read(s: Seq<u8>, i: int, host: Seq<u8>)
    requires
        is_host(host),
        holds(s, i, host + seq![0x20u8]),
    ensures
        hostname_reading(s, i) == Some((i + host.len() + 1 as int, text_of(host))),
{
    let j = i + host.len();
    lemma_parts(s, i, host, seq![0x20u8]);
    assert forall|k: int| i <= k < j implies byte_in(ByteClass::Host, #[trigger] s[k]) by {
        assert(s[i + (k - i)] == host[k - i]);
    }
    assert(s[j + 0] == seq![0x20u8][0]);
    lemma_run_to(s, i, j, ByteClass::Host);
    lemma_part(s, i, host);
}

/// No host is read where the name of a program stands.
pub proof fn program_is_no_host(s: Seq<u8>, i: int, name: Seq<u8>, pid: Option<u64>)
    requires
        is_program(name),
        holds(s, i, name + behind_name(pid)),
    ensures
        hostname_reading(s, i) is None,
{
    let tail = behind_name(pid);
    let e = i + name.len();
    lemma_parts(s, i, name, tail);
    assert(s[e + 0] == tail[0]);
    lemma_byte_run(s, i, ByteClass::Host);
    let j = byte_run(s, i, ByteClass::Host);
    assert(j <= e) by {
        if j > e {
            assert(byte_in(ByteClass::Host, s[e]));
        }
    }
    if j < e {
        assert(s[i + (j - i)] == name[j - i]);
    }
}

// ---------------------------------------------------------------------------
// The time
// ---------------------------------------------------------------------------

/// The first three letters of the name of a month.
pub open spec fn month_letters(m: int) -> (char, char, char) {
    if m == 1 {
        ('J', 'a', 'n')
    } else if m == 2 {
        ('F', 'e', 'b')
    } else if m == 3 {
        ('M', 'a', 'r')
    } else if m == 4 {
        ('A', 'p', 'r')
    } else if m == 5 {
        ('M', 'a', 'y')
    } else if m == 6 {
        ('J', 'u', 'n')
    } else if m == 7 {
        ('J', 'u', 'l')
    } else if m == 8 {
        ('A', 'u', 'g')
    } else if m == 9 {
        ('S', 'e', 'p')
    } else if m == 10 {
        ('O', 'c', 't')
    } else if m == 11 {
        ('N', 'o', 'v')
    } else {
        ('D', 'e', 'c')
    }
}

/// The digit of a number below ten.
pub open spec fn digit(n: int) -> char {
    (0x30 + n) as char
}

/// A date and time by RFC 3164: the month, the day with a space in place of a zero before
/// it, and the time, with a space behind each.
pub open spec fn stamp(m: int, d: int, hour: int, minute: int, second: int) -> Seq<u8> {
    let (a, b, c) = month_letters(m);
    code(
        seq![
            a,
            b,
            c,
            ' ',
            if d < 10 {
                ' '
            } else {
                digit(d / 10)
            },
            digit(d % 10),
            ' ',
            digit(hour / 10),
            digit(hour % 10),
            ':',
            digit(minute / 10),
            digit(minute % 10),
            ':',
            digit(second / 10),
            digit(second % 10),
            ' ',
        ],
    )
}

/// The number of days in a month.
pub open spec fn days_in(year: int, m: int) -> int {
    if m == 4 || m == 6 || m == 9 || m == 11 {
        30
    } else if m != 2 {
        31
    } else if year % 400 == 0 || (year % 4 == 0 && year % 100 != 0) {
        29
    } else {
        28
    }
}

/// The word that begins a stamp names its month.
proof fn lemma_month(m: int, w: Seq<char>)
    requires
        1 <= m <= 12,
        w.len() == 4,
        w[0] == month_letters(m).0,
        w[1] == month_letters(m).1,
        w[2] == month_letters(m).2,
        w[3] == ' ',
    ensures
        month_of(w) == Some(m as u32),
{
    reveal_strlit("Jan ");
    reveal_strlit("Feb ");
    reveal_strlit("Mar ");
    reveal_strlit("Apr ");
    reveal_strlit("May ");
    reveal_strlit("Jun ");
    reveal_strlit("Jul ");
    reveal_strlit("Aug ");
    reveal_strlit("Sep ");
    reveal_strlit("Oct ");
    reveal_strlit("Nov ");
    reveal_strlit("Dec ");
    if m == 1 {
        assert(w =~= "Jan "@);
    } else if m == 2 {
        assert(w =~= "Feb "@);
    } else if m == 3 {
        assert(w =~= "Mar "@);
    } else if m == 4 {
        assert(w =~= "Apr "@);
    } else if m == 5 {
        assert(w =~= "May "@);
    } else if m == 6 {
        assert(w =~= "Jun "@);
    } else if m == 7 {
        assert(w =~= "Jul "@);
    } else if m == 8 {
        assert(w =~= "Aug "@);
    } else if m == 9 {
        assert(w =~= "Sep "@);
    } else if m == 10 {
        assert(w =~= "Oct "@);
    } else if m == 11 {
        assert(w =~= "Nov "@);
    } else {
        assert(w =~= "Dec "@);
    }
}

/// A date and time by RFC 3164 is read where it stands, where there is such a day in the
/// year; the sixtieth second is kept as the 59th and more than a thousand million
/// nanoseconds.
#[verifier::rlimit(60)]
#[verifier::spinoff_prover]
pub proof fn stamp_is_read(
    s: Seq<u8>,
    i: int,
    year: i32,
    m: int,
    d: int,
    hour: int,
    minute: int,
    second: int,
)
    requires
        -262143 <= year <= 262142,
        1 <= m <= 12,
        1 <= d <= 31,
        0 <= hour <= 23,
        0 <= minute <= 59,
        0 <= second <= 60,
        holds(s, i, stamp(m, d, hour, minute, second)),
    ensures
        d <= days_in(year as int, m) ==> civil_reading(s, i, year) == Some(
            (
                i + 16,
                Civil {
                    year,
                    month: m as u32,
                    day: d as u32,
                    hour: hour as u32,
                    minute: minute as u32,
                    second: if second == 60 {
                        59u32
                    } else {
                        second as u32
                    },
                    nano: if second == 60 {
                        1_000_000_000u32
                    } else {
                        0u32
                    },
                },
            ),
        ),
        d > days_in(year as int, m) ==> civil_reading(s, i, year) is None,
{
    let p = stamp(m, d, hour, minute, second);
    assert(p.len() == 16);
    assert(s[i + 0] == p[0] && s[i + 1] == p[1] && s[i + 2] == p[2] && s[i + 3] == p[3]);
    assert(s[i + 4] == p[4] && s[i + 5] == p[5] && s[i + 6] == p[6] && s[i + 7] == p[7]);
    assert(s[i + 8] == p[8] && s[i + 9] == p[9] && s[i + 10] == p[10] && s[i + 11] == p[11]);
    assert(s[i + 12] == p[12] && s[i + 13] == p[13] && s[i + 14] == p[14] && s[i + 15] == p[15]);
    let w = ascii_chars(s.subrange(i, i + 4));
    assert(w[0] == month_letters(m).0 && w[1] == month_letters(m).1 && w[2] == month_letters(m).2
        && w[3] == ' ');
    lemma_month(m, w);
    assert(day_of(s[i + 4], s[i + 5]) == Some(d as u32));
    let clock = ascii_chars(s.subrange(i + 7, i + 15));
    assert(clock[0] == digit(hour / 10) && clock[1] == digit(hour % 10) && clock[2] == ':');
    assert(clock[3] == digit(minute / 10) && clock[4] == digit(minute % 10) && clock[5] == ':');
    assert(clock[6] == digit(second / 10) && clock[7] == digit(second % 10));
    assert(time_form(clock)) by {
        assert forall|k: int| 0 <= k < 8 implies (if k == 2 || k == 5 {
            #[trigger] clock[k] == ':'
        } else {
            '0' <= clock[k] && clock[k] <= '9'
        }) by {
            assert(k == 0 || k == 1 || k == 2 || k == 3 || k == 4 || k == 5 || k == 6 || k == 7);
        }
    }
    assert(time_of_day(clock) == Some(
        (
            hour as u32,
            minute as u32,
            if second == 60 {
                59u32
            } else {
                second as u32
            },
            if second == 60 {
                1_000_000_000u32
            } else {
                0u32
            },
        ),
    ));
}

/// A word without a letter in its third place and a space in its fourth names no month.
proof fn lemma_no_month(w: Seq<char>)
    requires
        w.len() == 4,
        w[3] != ' ' || w[2] == ':' || w[2] == ']' || w[2] == ' ',
    ensures
        month_of(w) is None,
{
    reveal_strlit("Jan ");
    reveal_strlit("Feb ");
    reveal_strlit("Mar ");
    reveal_strlit("Apr ");
    reveal_strlit("May ");
    reveal_strlit("Jun ");
    reveal_strlit("Jul ");
    reveal_strlit("Aug ");
    reveal_strlit("Sep ");
    reveal_strlit("Oct ");
    reveal_strlit("Nov ");
    reveal_strlit("Dec ");
}

/// No time is read where the name of a program stands.
#[verifier::rlimit(60)]
#[verifier::spinoff_prover]
pub proof fn program_is_no_time(s: Seq<u8>, i: int, name: Seq<u8>, pid: Option<u64>, year: i32)
    requires
        is_program(name),
        holds(s, i, name + behind_name(pid)),
    ensures
        rfc3339_reading(s, i) is None,
        civil_reading(s, i, year) is None,
{
    let tail = behind_name(pid);
    let e = i + name.len();
    lemma_parts(s, i, name, tail);
    assert(s[e + 0] == tail[0]);
    lemma_byte_run(s, i, ByteClass::Digit);
    let k = byte_run(s, i, ByteClass::Digit);
    assert(k <= e) by {
        if k > e {
            assert(byte_in(ByteClass::Digit, s[e]));
        }
    }
    if k < e {
        assert(s[i + (k - i)] == name[k - i]);
    }
    if i + 16 <= s.len() {
        let w = ascii_chars(s.subrange(i, i + 4));
        assert(w[2] == s[i + 2] as char && w[3] == s[i + 3] as char);
        if name.len() >= 4 {
            assert(s[i + 3] == name[3]);
        } else if name.len() == 3 {
            assert(s[i + 3] == tail[0]);
        } else if pid is None {
            assert(s[e + 1] == tail[1]);
            if name.len() == 2 {
                assert(s[i + 2] == 0x3a);
            } else {
                assert(s[i + 2] == 0x20);
            }
        } else {
            let n = pid->0 as nat;
            let g = code(decimal(n));
            let end = seq![0x5du8, 0x3au8, 0x20u8];
            lemma_decimal(n);
            lemma_parts(s, e, seq![0x5bu8] + g, end);
            lemma_parts(s, e, seq![0x5bu8], g);
            // The name, the bracket and the digits fill the first three places.
            let z = e + 1 + g.len();
            assert(s[z + 0] == end[0] && s[z + 1] == end[1]);
            let at = i + 3 - e - 1;
            if at < g.len() {
                assert(s[e + 1 + at] == g[at]);
                assert('0' <= decimal(n)[at] && decimal(n)[at] <= '9');
            } else {
                assert(at == g.len());
                assert(s[i + 3] == 0x5d);
            }
        }
        lemma_no_month(w);
    }
}

/// A line with a time: its number, where it has one, the time, its host, where it has one,
/// the program and the text. Each is read as what it is, and the text is the message.
#[verifier::rlimit(100)]
#[verifier::spinoff_prover]
pub proof fn dated_line_is_read(
    s: Seq<u8>,
    n: Option<nat>,
    year: i32,
    when: (int, int, int, int, int),
    host: Option<Seq<u8>>,
    name: Seq<u8>,
    pid: Option<u64>,
    text: Seq<u8>,
    t: Timestamp,
    now: Timestamp,
)
    requires
        n matches Some(n) ==> n < 256,
        -262143 <= year <= 262142,
        1 <= when.0 <= 12,
        1 <= when.1 <= days_in(year as int, when.0),
        0 <= when.2 <= 23,
        0 <= when.3 <= 59,
        0 <= when.4 <= 59,
        host matches Some(h) ==> is_host(h),
        is_program(name),
        s == (match n {
            Some(n) => mark(n),
            None => Seq::empty(),
        }) + stamp(when.0, when.1, when.2, when.3, when.4) + (match host {
            Some(h) => h + seq![0x20u8],
            None => Seq::empty(),
        }) + (name + behind_name(pid)) + text,
    ensures
        local_time(s, year) == Some(
            Civil {
                year,
                month: when.0 as u32,
                day: when.1 as u32,
                hour: when.2 as u32,
                minute: when.3 as u32,
                second: when.4 as u32,
                nano: 0,
            },
        ),
        message_of(s, year, Some(t), now) == (SyslogView {
            priority: match n {
                Some(n) => (n % 8) as u8,
                None => 5u8,
            },
            facility: match n {
                Some(n) => facility_called(n / 8),
                None => "user"@,
            },
            source_timestamp: t,
            hostname: match host {
                Some(h) => Some(text_of(h)),
                None => None,
            },
            identifier: Some(text_of(name)),
            pid,
            message: text_of(text),
            full_message: text_of(s),
        }),
{
    let a = match n {
        Some(n) => mark(n),
        None => Seq::<u8>::empty(),
    };
    let b = stamp(when.0, when.1, when.2, when.3, when.4);
    let c = match host {
        Some(h) => h + seq![0x20u8],
        None => Seq::<u8>::empty(),
    };
    let p = name + behind_name(pid);
    let i1 = a.len() as int;
    let i2 = i1 + 16;
    let i3 = i2 + c.len();
    let i4 = i3 + p.len();
    assert(b.len() == 16);
    assert(holds(s, 0, s));
    lemma_parts(s, 0, a + b + c + p, text);
    lemma_parts(s, 0, a + b + c, p);
    lemma_parts(s, 0, a + b, c);
    lemma_parts(s, 0, a, b);
    assert(s[i1 + 0] == b[0]);
    match n {
        Some(n) => {
            mark_is_read(s, n);
        },
        None => {
            no_mark_is_read(s);
        },
    }
    assert(byte_run(s, i1, ByteClass::Digit) == i1);
    assert(rfc3339_reading(s, i1) is None);
    stamp_is_read(s, i1, year, when.0, when.1, when.2, when.3, when.4);
    match host {
        Some(h) => {
            host_is_read(s, i2, h);
        },
        None => {
            program_is_no_host(s, i2, name, pid);
        },
    }
    program_is_read(s, i3, name, pid);
    assert(s.skip(i4) =~= text) by {
        assert forall|k: int| 0 <= k < text.len() implies s.skip(i4)[k] == text[k] by {
            assert(s[i4 + k] == text[k]);
        }
    }
}

/// A line without a time or a host is of now.
#[verifier::rlimit(60)]
#[verifier::spinoff_prover]
pub proof fn undated_line_is_read(
    s: Seq<u8>,
    n: Option<nat>,
    year: i32,
    name: Seq<u8>,
    pid: Option<u64>,
    text: Seq<u8>,
    resolved: Option<Timestamp>,
    now: Timestamp,
)
    requires
        n matches Some(n) ==> n < 256,
        n is None ==> name[0] != 0x3c,
        is_program(name),
        s == (match n {
            Some(n) => mark(n),
            None => Seq::empty(),
        }) + (name + behind_name(pid)) + text,
    ensures
        local_time(s, year) is None,
        message_of(s, year, resolved, now) == (SyslogView {
            priority: match n {
                Some(n) => (n % 8) as u8,
                None => 5u8,
            },
            facility: match n {
                Some(n) => facility_called(n / 8),
                None => "user"@,
            },
            source_timestamp: now,
            hostname: None,
            identifier: Some(text_of(name)),
            pid,
            message: text_of(text),
            full_message: text_of(s),
        }),
{
    let a = match n {
        Some(n) => mark(n),
        None => Seq::<u8>::empty(),
    };
    let p = name + behind_name(pid);
    let i1 = a.len() as int;
    let i4 = i1 + p.len();
    assert(holds(s, 0, s));
    lemma_parts(s, 0, a + p, text);
    lemma_parts(s, 0, a, p);
    assert(s[i1 + 0] == p[0]);
    match n {
        Some(n) => {
            mark_is_read(s, n);
        },
        None => {
            no_mark_is_read(s);
        },
    }
    program_is_no_time(s, i1, name, pid, year);
    program_is_no_host(s, i1, name, pid);
    program_is_read(s, i1, name, pid);
    assert(s.skip(i4) =~= text) by {
        assert forall|k: int| 0 <= k < text.len() implies s.skip(i4)[k] == text[k] by {
            assert(s[i4 + k] == text[k]);
        }
    }
}

/// A line with a host and without a time or a program is of now, and what stands behind the
/// space after the host is the message, whole.
#[verifier::rlimit(60)]
#[verifier::spinoff_prover]
pub proof fn line_of_a_host_is_read(
    s: Seq<u8>,
    n: Option<nat>,
    year: i32,
    host: Seq<u8>,
    text: Seq<u8>,
    resolved: Option<Timestamp>,
    now: Timestamp,
)
    requires
        n matches Some(n) ==> n < 256,
        is_host(host),
        host.len() != 3,
        host[0] < 0x30 || host[0] > 0x39,
        text.len() == 0 || text[0] == 0x20 || text[0] == 0x09 || text[0] == 0x3a || text[0] == 0x5b,
        s == (match n {
            Some(n) => mark(n),
            None => Seq::empty(),
        }) + (host + seq![0x20u8]) + text,
    ensures
        message_of(s, year, resolved, now) == (SyslogView {
            priority: match n {
                Some(n) => (n % 8) as u8,
                None => 5u8,
            },
            facility: match n {
                Some(n) => facility_called(n / 8),
                None => "user"@,
            },
            source_timestamp: now,
            hostname: Some(text_of(host)),
            identifier: None,
            pid: None,
            message: text_of(text),
            full_message: text_of(s),
        }),
{
    let a = match n {
        Some(n) => mark(n),
        None => Seq::<u8>::empty(),
    };
    let h = host + seq![0x20u8];
    let i1 = a.len() as int;
    let i2 = i1 + h.len();
    assert(holds(s, 0, s));
    lemma_parts(s, 0, a + h, text);
    lemma_parts(s, 0, a, h);
    assert(s[i1 + 0] == h[0]);
    assert(h[0] == host[0]);
    match n {
        Some(n) => {
            mark_is_read(s, n);
        },
        None => {
            no_mark_is_read(s);
        },
    }
    assert(byte_run(s, i1, ByteClass::Digit) == i1);
    assert(rfc3339_reading(s, i1) is None);
    if i1 + 16 <= s.len() {
        let w = ascii_chars(s.subrange(i1, i1 + 4));
        assert(w[0] == s[i1] as char && w[1] == s[i1 + 1] as char && w[2] == s[i1 + 2] as char
            && w[3] == s[i1 + 3] as char);
        if host.len() > 3 {
            assert(s[i1 + 3] == h[3] && h[3] == host[3]);
            lemma_no_month(w);
        } else if host.len() == 2 {
            assert(s[i1 + 2] == h[2]);
            lemma_no_month(w);
        } else {
            assert(s[i1 + 1] == h[1]);
            if month_of(w) is Some {
                lemma_named_month(w);
                assert(w[1] == ' ');
            }
        }
    }
    assert(civil_reading(s, i1, year) is None);
    host_is_read(s, i1, host);
    if text.len() > 0 {
        assert(s[i2 + 0] == text[0]);
    }
    assert(byte_run(s, i2, ByteClass::Identifier) == i2);
    assert(s.skip(i2) =~= text) by {
        assert forall|k: int| 0 <= k < text.len() implies s.skip(i2)[k] == text[k] by {
            assert(s[i2 + k] == text[k]);
        }
    }
}

/// A line of a number, a space and a text in ASCII that nothing else can be told of: the
/// text is the message, without the space.
#[verifier::rlimit(60)]
#[verifier::spinoff_prover]
pub proof fn bare_text_is_the_message(
    s: Seq<u8>,
    n: Option<nat>,
    year: i32,
    text: Seq<u8>,
    resolved: Option<Timestamp>,
    now: Timestamp,
)
    requires
        n matches Some(n) ==> n < 256,
        forall|i: int| 0 <= i < text.len() ==> #[trigger] text[i] <= 0x7f,
        s == (match n {
            Some(n) => mark(n),
            None => Seq::empty(),
        }) + seq![0x20u8] + text,
    ensures
        message_of(s, year, resolved, now) == (SyslogView {
            priority: match n {
                Some(n) => (n % 8) as u8,
                None => 5u8,
            },
            facility: match n {
                Some(n) => facility_called(n / 8),
                None => "user"@,
            },
            source_timestamp: now,
            hostname: None,
            identifier: None,
            pid: None,
            message: Seq::new(text.len(), |i: int| text[i] as char),
            full_message: text_of(s),
        }),
{
    let a = match n {
        Some(n) => mark(n),
        None => Seq::<u8>::empty(),
    };
    let i1 = a.len() as int;
    let rest = seq![0x20u8] + text;
    assert(holds(s, 0, s));
    lemma_parts(s, 0, a + seq![0x20u8], text);
    lemma_parts(s, 0, a, seq![0x20u8]);
    assert(s[i1 + 0] == seq![0x20u8][0]);
    match n {
        Some(n) => {
            mark_is_read(s, n);
        },
        None => {
            no_mark_is_read(s);
        },
    }
    assert(byte_run(s, i1, ByteClass::Digit) == i1);
    assert(rfc3339_reading(s, i1) is None);
    if i1 + 16 <= s.len() {
        lemma_space_names_no_month(ascii_chars(s.subrange(i1, i1 + 4)));
    }
    assert(civil_reading(s, i1, year) is None);
    assert(byte_run(s, i1, ByteClass::Host) == i1);
    assert(byte_run(s, i1, ByteClass::Identifier) == i1);
    assert(s.skip(i1) =~= rest);
    crate::bytes::ascii_is_utf8(rest);
    let t = text_of(rest);
    assert(t == ascii_chars(rest));
    assert(t[0] == ' ');
    assert(t.skip(1) =~= Seq::new(text.len(), |i: int| text[i] as char));
}

/// A word that begins with a space names no month.
proof fn lemma_space_names_no_month(w: Seq<char>)
    requires
        w.len() == 4,
        w[0] == ' ',
    ensures
        month_of(w) is None,
{
    reveal_strlit("Jan ");
    reveal_strlit("Feb ");
    reveal_strlit("Mar ");
    reveal_strlit("Apr ");
    reveal_strlit("May ");
    reveal_strlit("Jun ");
    reveal_strlit("Jul ");
    reveal_strlit("Aug ");
    reveal_strlit("Sep ");
    reveal_strlit("Oct ");
    reveal_strlit("Nov ");
    reveal_strlit("Dec ");
}

/// A line that states its time by RFC 3339, behind a number and a version: the time is
/// that, whatever the clock and the year, and what follows it is the message, with the
/// space before it.
#[verifier::rlimit(60)]
#[verifier::spinoff_prover]
pub proof fn stated_time_is_taken(
    s: Seq<u8>,
    n: nat,
    version: nat,
    time: Seq<u8>,
    rest: Seq<u8>,
    t: Timestamp,
    year: i32,
    resolved: Option<Timestamp>,
    now: Timestamp,
)
    requires
        n < 256,
        time.len() > 0,
        forall|i: int| 0 <= i < time.len() ==> #[trigger] time[i] != 0x20 && time[i] <= 0x7f,
        s == mark(n) + code(decimal(version)) + seq![0x20u8] + time + seq![0x20u8] + rest,
    ensures
        crate::time::rfc3339(Seq::new(time.len(), |i: int| time[i] as char)) == Some(t) ==> {
            &&& crate::syslog::stated_time(s) == Some(t)
            &&& message_of(s, year, resolved, now).source_timestamp == t
            &&& message_of(s, year, resolved, now) == (SyslogView {
                priority: (n % 8) as u8,
                facility: facility_called(n / 8),
                source_timestamp: t,
                hostname: None,
                identifier: None,
                pid: None,
                message: text_of(seq![0x20u8] + rest),
                full_message: text_of(s),
            })
        },
{
    let a = mark(n);
    let v = code(decimal(version));
    let sp = seq![0x20u8];
    assert(holds(s, 0, s));
    lemma_parts(s, 0, a + v + sp + time + sp, rest);
    lemma_parts(s, 0, a + v + sp + time, sp);
    lemma_parts(s, 0, a + v + sp, time);
    lemma_parts(s, 0, a + v, sp);
    lemma_parts(s, 0, a, v);
    mark_is_read(s, n);
    lemma_decimal(version);
    let i1 = a.len() as int;
    let k = i1 + v.len();
    let j = k + 1 + time.len();
    assert(s[k + 0] == sp[0]);
    assert(s[j + 0] == sp[0]);
    lemma_number(s, i1, version);
    assert forall|q: int| k + 1 <= q < j implies byte_in(ByteClass::Solid, #[trigger] s[q]) by {
        assert(s[k + 1 + (q - k - 1)] == time[q - k - 1]);
    }
    lemma_run_to(s, k + 1, j, ByteClass::Solid);
    lemma_part(s, k + 1, time);
    crate::bytes::ascii_is_utf8(time);
    assert(ascii_chars(time) =~= Seq::new(time.len(), |i: int| time[i] as char));
    assert(byte_run(s, j, ByteClass::Host) == j);
    assert(byte_run(s, j, ByteClass::Identifier) == j);
    assert(s.skip(j) =~= sp + rest);
}

// ---------------------------------------------------------------------------
// What is not read
// ---------------------------------------------------------------------------

/// No host is read where another byte than a letter, a digit or a dot stands before the
/// space.
pub proof fn odd_host_is_not_read(s: Seq<u8>, i: int, host: Seq<u8>, b: u8)
    requires
        host.len() == 0 || is_host(host),
        !is_host(seq![b]),
        b != 0x20 || host.len() == 0,
        holds(s, i, host + seq![b]),
    ensures
        hostname_reading(s, i) is None,
{
    let j = i + host.len();
    lemma_parts(s, i, host, seq![b]);
    assert forall|k: int| i <= k < j implies byte_in(ByteClass::Host, #[trigger] s[k]) by {
        assert(s[i + (k - i)] == host[k - i]);
    }
    assert(s[j + 0] == seq![b][0]);
    assert(seq![b][0] == b);
    assert(!byte_in(ByteClass::Host, b)) by {
        if byte_in(ByteClass::Host, b) {
            assert forall|k: int| 0 <= k < seq![b].len() implies (0x30 <= #[trigger] seq![b][k]
                <= 0x39) || (0x41 <= seq![b][k] <= 0x5a) || (0x61 <= seq![b][k] <= 0x7a)
                || seq![b][k] == 0x2e by {}
        }
    }
    lemma_run_to(s, i, j, ByteClass::Host);
}

/// No host is read that reaches to the end.
pub proof fn host_needs_a_space(s: Seq<u8>, i: int)
    requires
        0 <= i <= s.len(),
        forall|k: int| i <= k < s.len() ==> #[trigger] s[k] != 0x20,
    ensures
        hostname_reading(s, i) is None,
{
    lemma_byte_run(s, i, ByteClass::Host);
}

/// No program is read where a colon and a space do not follow its name.
pub proof fn program_needs_a_space(s: Seq<u8>, i: int, name: Seq<u8>, b: u8)
    requires
        is_program(name),
        b != 0x20,
        holds(s, i, name + seq![0x3au8, b]),
    ensures
        identifier_reading(s, i) is None,
{
    let tail = seq![0x3au8, b];
    let j = i + name.len();
    lemma_parts(s, i, name, tail);
    assert forall|k: int| i <= k < j implies byte_in(ByteClass::Identifier, #[trigger] s[k]) by {
        assert(s[i + (k - i)] == name[k - i]);
    }
    assert(s[j + 0] == tail[0]);
    assert(s[j + 1] == tail[1]);
    lemma_run_to(s, i, j, ByteClass::Identifier);
}

/// No program is read where something else than a process number stands in brackets behind
/// its name.
pub proof fn program_needs_a_process_number(s: Seq<u8>, i: int, name: Seq<u8>, b: u8)
    requires
        is_program(name),
        b < 0x30 || b > 0x39,
        holds(s, i, name + seq![0x5bu8, b]),
    ensures
        identifier_reading(s, i) is None,
{
    let tail = seq![0x5bu8, b];
    let j = i + name.len();
    lemma_parts(s, i, name, tail);
    assert forall|k: int| i <= k < j implies byte_in(ByteClass::Identifier, #[trigger] s[k]) by {
        assert(s[i + (k - i)] == name[k - i]);
    }
    assert(s[j + 0] == tail[0]);
    assert(s[j + 1] == tail[1]);
    lemma_run_to(s, i, j, ByteClass::Identifier);
    assert(byte_run(s, j + 1, ByteClass::Digit) == j + 1);
}

/// No program is read whose process number does not fit in 64 bits.
pub proof fn process_number_must_fit(s: Seq<u8>, i: int, name: Seq<u8>, n: nat)
    requires
        is_program(name),
        n > 0xffff_ffff_ffff_ffff,
        holds(s, i, name + (seq![0x5bu8] + code(decimal(n)) + seq![0x5du8])),
    ensures
        identifier_reading(s, i) is None,
{
    let g = code(decimal(n));
    let tail = seq![0x5bu8] + g + seq![0x5du8];
    let j = i + name.len();
    lemma_parts(s, i, name, tail);
    assert forall|k: int| i <= k < j implies byte_in(ByteClass::Identifier, #[trigger] s[k]) by {
        assert(s[i + (k - i)] == name[k - i]);
    }
    assert(s[j + 0] == tail[0]);
    lemma_run_to(s, i, j, ByteClass::Identifier);
    lemma_parts(s, j, seq![0x5bu8] + g, seq![0x5du8]);
    lemma_parts(s, j, seq![0x5bu8], g);
    lemma_decimal(n);
    let e = j + 1 + g.len();
    assert(s[e + 0] == seq![0x5du8][0]);
    lemma_number(s, j + 1, n);
    assert(pid_reading(s, j) is None);
}

/// A day of one digit may have a zero before it in place of the space.
pub proof fn zero_before_day_is_read(s: Seq<u8>, t: Seq<u8>, i: int, year: i32)
    requires
        0 <= i,
        i + 16 <= s.len(),
        s.len() == t.len(),
        s[i + 4] == 0x20,
        t[i + 4] == 0x30,
        0x30 <= s[i + 5] <= 0x39,
        forall|k: int| 0 <= k < s.len() && k != i + 4 ==> #[trigger] s[k] == t[k],
    ensures
        civil_reading(s, i, year) == civil_reading(t, i, year),
{
    assert(s.subrange(i, i + 4) =~= t.subrange(i, i + 4));
    assert(s.subrange(i + 7, i + 15) =~= t.subrange(i + 7, i + 15));
    assert(s[i + 5] == t[i + 5] && s[i + 6] == t[i + 6] && s[i + 15] == t[i + 15]);
}

/// No date and time is read whose hour, minute or second there is not.
pub proof fn odd_times_are_not_read(
    s: Seq<u8>,
    i: int,
    year: i32,
    m: int,
    d: int,
    hour: int,
    minute: int,
    second: int,
)
    requires
        1 <= m <= 12,
        1 <= d <= 31,
        0 <= hour <= 99,
        0 <= minute <= 99,
        0 <= second <= 99,
        hour > 23 || minute > 59 || second > 60,
        holds(s, i, stamp(m, d, hour, minute, second)),
    ensures
        civil_reading(s, i, year) is None,
{
    let p = stamp(m, d, hour, minute, second);
    assert(p.len() == 16);
    let clock = ascii_chars(s.subrange(i + 7, i + 15));
    assert(s[i + 7] == p[7] && s[i + 8] == p[8] && s[i + 10] == p[10] && s[i + 11] == p[11] && s[i
        + 13] == p[13] && s[i + 14] == p[14]);
    assert(clock[0] == digit(hour / 10) && clock[1] == digit(hour % 10));
    assert(clock[3] == digit(minute / 10) && clock[4] == digit(minute % 10));
    assert(clock[6] == digit(second / 10) && clock[7] == digit(second % 10));
    assert(crate::time::two_digits(clock[0], clock[1]) == hour);
    assert(crate::time::two_digits(clock[3], clock[4]) == minute);
    assert(crate::time::two_digits(clock[6], clock[7]) == second);
}

/// No date and time is read that does not begin with the name of a month and a space.
pub proof fn odd_months_are_not_read(s: Seq<u8>, i: int, year: i32)
    requires
        0 <= i,
        i + 4 <= s.len(),
        forall|m: int|
            1 <= m <= 12 ==> {
                let (a, b, c) = #[trigger] month_letters(m);
                !(s[i] == a as u8 && s[i + 1] == b as u8 && s[i + 2] == c as u8 && s[i + 3]
                    == 0x20)
            },
    ensures
        civil_reading(s, i, year) is None,
{
    let w = ascii_chars(s.subrange(i, i + 4));
    assert(w[0] == s[i] as char && w[1] == s[i + 1] as char && w[2] == s[i + 2] as char && w[3]
        == s[i + 3] as char);
    if month_of(w) is Some {
        lemma_named_month(w);
        let m = month_of(w)->0 as int;
        let (a, b, c) = month_letters(m);
        assert(s[i] == a as u8 && s[i + 1] == b as u8 && s[i + 2] == c as u8);
    }
}

/// A word that names a month has its letters.
proof fn lemma_named_month(w: Seq<char>)
    requires
        month_of(w) is Some,
    ensures
        1 <= month_of(w)->0 <= 12,
        w.len() == 4,
        ({
            let (a, b, c) = month_letters(month_of(w)->0 as int);
            w[0] == a && w[1] == b && w[2] == c && w[3] == ' '
        }),
{
    reveal_strlit("Jan ");
    reveal_strlit("Feb ");
    reveal_strlit("Mar ");
    reveal_strlit("Apr ");
    reveal_strlit("May ");
    reveal_strlit("Jun ");
    reveal_strlit("Jul ");
    reveal_strlit("Aug ");
    reveal_strlit("Sep ");
    reveal_strlit("Oct ");
    reveal_strlit("Nov ");
    reveal_strlit("Dec ");
}

/// A time by RFC 3164 that bytes begin with is what its local time comes to, and what
/// stands behind it is left.
pub proof fn stamp_alone_is_read(
    s: Seq<u8>,
    year: i32,
    when: (int, int, int, int, int),
    rest: Seq<u8>,
    resolved: Option<Timestamp>,
)
    requires
        -262143 <= year <= 262142,
        1 <= when.0 <= 12,
        1 <= when.1 <= days_in(year as int, when.0),
        0 <= when.2 <= 23,
        0 <= when.3 <= 59,
        0 <= when.4 <= 60,
        s == stamp(when.0, when.1, when.2, when.3, when.4) + rest,
    ensures
        crate::syslog::local_stamp(s, year, resolved) == (match resolved {
            Some(t) => Some((16int, t)),
            None => None,
        }),
        s.skip(16) == rest,
{
    let p = stamp(when.0, when.1, when.2, when.3, when.4);
    assert(p.len() == 16);
    assert(holds(s, 0, s));
    lemma_parts(s, 0, p, rest);
    stamp_is_read(s, 0, year, when.0, when.1, when.2, when.3, when.4);
    assert(s.skip(16) =~= rest);
}

} // verus!
