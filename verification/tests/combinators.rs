//! The query language and the syslog grammar once more, written with parser
//! combinators, and held against the library on many texts.
use nom::branch::alt;
use nom::bytes::complete::{escaped, is_not, tag, take, take_till1, take_while1, take_while_m_n};
use nom::character::complete::{char as one_char, digit1, space1};
use nom::combinator::{self, map_opt, map_res, not as refuse, opt, recognize, rest};
use nom::multi::{fold_many0, separated_list1};
use nom::sequence::{delimited, pair, preceded, separated_pair, terminated, tuple};
use nom::IResult;
use yaffle::query::ast::{Query, QueryTree, RangeBounds, Scalar};
use yaffle::query::grammar::expr;
use yaffle::query::terms::{range_q, regex};
use yaffle::syslog::{parse_syslog_at, prio_and_facility, rfc3164_civil_at};
use yaffle::time::{Civil, Timestamp};

fn name(i: &str) -> IResult<&str, &str> {
    take_while1(|c: char| c.is_ascii_lowercase() || c == '_')(i)
}

fn term(i: &str) -> IResult<&str, &str> {
    preceded(refuse(tag("NOT")), take_while1(|c: char| c.is_alphanumeric() || c == '_'))(i)
}

fn quoted(i: &str) -> IResult<&str, &str> {
    let inside = take_while1(|c: char| c.is_alphanumeric() || c.is_whitespace());
    delimited(tag("\""), inside, tag("\""))(i)
}

fn pattern(i: &str) -> IResult<&str, String> {
    let inside = escaped(is_not("\\/"), '\\', take(1usize));
    combinator::map(delimited(tag("/"), inside, tag("/")), |s: &str| s.replace("\\/", "/"))(i)
}

fn fuzzy(i: &str) -> IResult<&str, (Option<&str>, &str)> {
    preceded(tag("~"), pair(opt(terminated(digit1, tag("~"))), term))(i)
}

fn symbol(i: &str) -> IResult<&str, &str> {
    alt((tag(">="), tag(">"), tag("<="), tag("<")))(i)
}

fn set(bounds: Vec<(&str, Scalar)>) -> RangeBounds {
    let mut r = RangeBounds { gte: None, gt: None, lte: None, lt: None };
    for (s, v) in bounds {
        match s {
            ">=" => r.gte = Some(v),
            ">" => r.gt = Some(v),
            "<=" => r.lte = Some(v),
            _ => r.lt = Some(v),
        }
    }
    r
}

fn number_bound(i: &str) -> IResult<&str, (&str, Scalar)> {
    map_res(pair(symbol, digit1), |(s, d): (&str, &str)| {
        d.parse::<i32>().map(|n| (s, Scalar::Int(n)))
    })(i)
}

fn text_bound(i: &str) -> IResult<&str, (&str, Scalar)> {
    combinator::map(pair(symbol, term), |(s, t)| (s, Scalar::Text(t.to_string())))(i)
}

fn range(i: &str) -> IResult<&str, Query> {
    let numbers = separated_pair(name, tag(":"), separated_list1(tag(","), number_bound));
    let texts = separated_pair(name, tag(":"), separated_list1(tag(","), text_bound));
    combinator::map(alt((numbers, texts)), |(f, b)| Query::Range { field: f.to_string(), bounds: set(b) })(i)
}

fn leaf(i: &str) -> IResult<&str, Query> {
    let fuzzy_q = map_opt(
        alt((separated_pair(name, tag(":"), fuzzy), combinator::map(fuzzy, |t| ("message", t)))),
        |(f, (d, t))| {
            let distance = match d {
                Some(digits) => digits.parse::<u8>().ok()?,
                None => 2,
            };
            Some(Query::Fuzzy {
                field: f.to_string(),
                value: t.to_string(),
                distance,
                transposition: true,
            })
        },
    );
    let exact_q = combinator::map(
        alt((separated_pair(name, tag(":"), term), combinator::map(term, |t| ("message", t)))),
        |(f, t)| Query::Exact { field: f.to_string(), term: t.to_string() },
    );
    let phrase_q = combinator::map(
        alt((separated_pair(name, tag(":"), quoted), combinator::map(quoted, |p| ("message", p)))),
        |(f, p)| Query::Phrase {
            field: f.to_string(),
            terms: p.split_whitespace().map(String::from).collect(),
        },
    );
    let regex_q = combinator::map(
        alt((separated_pair(name, tag(":"), pattern), combinator::map(pattern, |p| ("message", p)))),
        |(f, p)| Query::Regex { field: f.to_string(), pattern: p },
    );
    alt((fuzzy_q, exact_q, phrase_q, regex_q, range))(i)
}

// Trees are kept as text here, for they cannot be copied.
fn simple(i: &str) -> IResult<&str, String> {
    alt((
        combinator::map(leaf, |q| format!("Simple({:?})", q)),
        delimited(tag("("), whole, tag(")")),
        combinator::map(preceded(pair(tag("NOT"), space1), whole), |t| format!("Not({})", t)),
    ))(i)
}

fn join(word: &str, left: String, right: String) -> String {
    let open = format!("{}([", word);
    if left.starts_with(&open) {
        format!("{}, {}])", &left[..left.len() - 2], right)
    } else {
        format!("{}([{}, {}])", word, left, right)
    }
}

fn any_of(i: &str) -> IResult<&str, String> {
    let (i, first) = simple(i)?;
    fold_many0(
        preceded(tuple((space1, tag("OR"), space1)), simple),
        move || first.clone(),
        |left, right| join("Or", left, right),
    )(i)
}

fn whole(i: &str) -> IResult<&str, String> {
    let (i, first) = any_of(i)?;
    fold_many0(
        preceded(tuple((space1, tag("AND"), space1)), any_of),
        move || first.clone(),
        |left, right| join("And", left, right),
    )(i)
}

/// A small generator of numbers.
struct Dice(u64);

impl Dice {
    fn roll(&mut self, n: usize) -> usize {
        self.0 = self.0.wrapping_mul(6364136223846793005).wrapping_add(1442695040888963407);
        ((self.0 >> 33) as usize) % n
    }

    fn text(&mut self, words: &[&str], most: usize) -> String {
        let n = self.roll(most + 1);
        (0..n).map(|_| words[self.roll(words.len())]).collect()
    }
}

fn show(t: &QueryTree) -> String {
    match t {
        QueryTree::Simple(q) => format!("Simple({:?})", q),
        QueryTree::Not(s) => format!("Not({})", show(s)),
        QueryTree::And(ts) => format!("And([{}])", list(ts)),
        QueryTree::Or(ts) => format!("Or([{}])", list(ts)),
    }
}

fn list(ts: &[QueryTree]) -> String {
    ts.iter().map(show).collect::<Vec<_>>().join(", ")
}

#[test]
fn queries_agree() {
    let words = [
        "a", "f:", "NOT", " ", " AND ", " OR ", "NOT ", "(", ")", "~", "2", "~1~", "300", "\"",
        "/", "\\", "\\/", ":", ">", "<=", ",", "f:x", "f:y", "\t", "é", "_", "Z", "-", "f:\"p q\"",
        "/r/", "host:~w", "f:>=3",
    ];
    let mut dice = Dice(1);
    let mut read = 0;
    for _ in 0..60_000 {
        let text = dice.text(&words, 9);
        match (whole(&text), expr(&text)) {
            (Ok((rest, want)), Ok((left, tree))) => {
                assert_eq!((left.as_str(), show(&tree)), (rest, want), "{:?}", text);
                read += 1;
            }
            (Err(_), Err(_)) => {}
            (want, got) => panic!("{:?}: {:?} but {:?}", text, want, got),
        }
    }
    assert!(read > 10_000);
}

#[test]
fn ranges_and_patterns_agree() {
    let words = [
        "f", ":", ">", ">=", "<", "<=", ",", "1", "22", "99999999999", "abc", "NOT", "/", "\\",
        "x y", "é",
    ];
    let mut dice = Dice(2);
    for _ in 0..60_000 {
        let text = format!("f:{}", dice.text(&words, 8));
        let want = range(&text).ok().map(|(r, q)| (r.to_string(), q));
        assert_eq!(range_q(&text).ok(), want, "{:?}", text);
        let text = format!("/{}", dice.text(&["/", "\\", "a", "é", "\\/", "b"], 7));
        let want = pattern(&text).ok().map(|(r, s)| (r.to_string(), s));
        assert_eq!(regex(&text).ok(), want, "{:?}", text);
    }
}

fn priority(i: &[u8]) -> IResult<&[u8], u8> {
    map_opt(delimited(one_char('<'), digit1, one_char('>')), |d: &[u8]| {
        std::str::from_utf8(d).ok()?.parse().ok()
    })(i)
}

fn two_digits(i: &[u8]) -> IResult<&[u8], &[u8]> {
    take_while_m_n(2, 2, |b: u8| b.is_ascii_digit())(i)
}

fn civil(i: &[u8]) -> IResult<&[u8], (usize, u32, String)> {
    const MONTHS: [&str; 12] = [
        "Jan ", "Feb ", "Mar ", "Apr ", "May ", "Jun ", "Jul ", "Aug ", "Sep ", "Oct ", "Nov ",
        "Dec ",
    ];
    let month = map_opt(take(4usize), |m: &[u8]| {
        MONTHS.iter().position(|n| n.as_bytes() == m).map(|n| n + 1)
    });
    let one_digit = take_while_m_n(1, 1, |b: u8| b.is_ascii_digit());
    let day = map_opt(
        terminated(alt((preceded(tag(" "), one_digit), two_digits)), tag(" ")),
        |d: &[u8]| std::str::from_utf8(d).ok()?.parse().ok(),
    );
    let clock = recognize(tuple((two_digits, tag(":"), two_digits, tag(":"), two_digits)));
    let time = combinator::map(terminated(clock, tag(" ")), |t: &[u8]| {
        String::from_utf8_lossy(t).into_owned()
    });
    tuple((month, day, time))(i)
}

fn host(i: &[u8]) -> IResult<&[u8], &[u8]> {
    terminated(take_while1(|b: u8| b.is_ascii_alphanumeric() || b == b'.'), tag(" "))(i)
}

fn program(i: &[u8]) -> IResult<&[u8], (&[u8], Option<u64>)> {
    let pid = map_opt(delimited(tag("["), digit1, tag("]")), |d: &[u8]| {
        std::str::from_utf8(d).ok()?.parse().ok()
    });
    terminated(pair(take_till1(|b: u8| b":[ \t".contains(&b)), opt(pid)), tag(": "))(i)
}

#[test]
fn datagrams_agree() {
    let words = [
        "<", ">", "7", "13", "255", "256", "<13>", " ", ":", ": ", "[", "]", "[42]", "host ",
        "a.b ", "prog", "prog[1]: ", "Jan  2 03:04:05 ", "Feb 30 00:00:00 ", "Oct 11 22:14:15 ",
        "text", "\t", "é",
    ];
    let now = Timestamp {
        civil: Civil { year: 1, month: 1, day: 1, hour: 0, minute: 0, second: 0, nano: 0 },
        offset: 0,
        unix_nanos: None,
    };
    let mut dice = Dice(3);
    for _ in 0..60_000 {
        let text = dice.text(&words, 7);
        let bytes = text.as_bytes();
        let want = priority(bytes).ok().map(|(r, n)| (r.to_vec(), n & 7));
        let got = prio_and_facility(bytes).ok().map(|(r, (p, _))| (r, p));
        assert_eq!(got, want, "{:?}", text);
        // Without a time zone, a local time is never found, and is left as text.
        let rest_of: IResult<&[u8], _> =
            tuple((opt(priority), opt(host), opt(program), rest))(bytes);
        let (_, (_, h, p, tail)) = rest_of.unwrap();
        let msg = parse_syslog_at(bytes, 2021, None, now);
        assert_eq!(msg.hostname.as_deref().map(str::as_bytes), h, "{:?}", text);
        assert_eq!(msg.identifier.as_deref().map(str::as_bytes), p.map(|x| x.0), "{:?}", text);
        assert_eq!(msg.pid, p.and_then(|x| x.1), "{:?}", text);
        let tail = String::from_utf8_lossy(tail);
        if h.is_none() && p.is_none() {
            assert_eq!(msg.message, tail.strip_prefix(' ').unwrap_or(&tail), "{:?}", text);
        } else {
            assert_eq!(msg.message, tail, "{:?}", text);
        }
    }
}

#[test]
fn times_agree() {
    let words = ["Jan ", "Feb ", "Sep ", "Oct ", "Dec", " ", "1", "2", "3", "0", ":", "12:", "24:", "x"];
    let mut dice = Dice(4);
    let mut read = 0;
    for _ in 0..60_000 {
        let text = format!(
            "{} {}{}{}{} ",
            ["Jan", "Feb", "Jun", "Dec", "Foo"][dice.roll(5)],
            [" 1", "31", "29", "30", "00", "1 ", "x1"][dice.roll(7)],
            [" ", "", "  "][[0, 0, 0, 1, 2][dice.roll(5)]],
            ["00:00:00", "23:59:59", "23:59:60", "24:00:00", "12:3:04", "12:30:61"][dice.roll(6)],
            dice.text(&words, 1)
        );
        let year = [2020, 2021][dice.roll(2)];
        let want = civil(text.as_bytes()).ok().and_then(|(r, (m, d, t))| {
            let time = chrono::NaiveTime::parse_from_str(&t, "%H:%M:%S").ok()?;
            let date = chrono::NaiveDate::from_ymd_opt(year, m as u32, d)?;
            Some((text.len() - r.len(), date.and_time(time)))
        });
        let got = rfc3164_civil_at(text.as_bytes(), 0, year).map(|(end, c)| {
            let date = chrono::NaiveDate::from_ymd_opt(c.year, c.month, c.day).unwrap();
            (end, date.and_hms_nano_opt(c.hour, c.minute, c.second, c.nano).unwrap())
        });
        if want.is_some() {
            read += 1;
        }
        assert_eq!(got, want, "{:?}", text);
    }
    assert!(read > 1_000);
}
