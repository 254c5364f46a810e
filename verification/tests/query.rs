//! The query language: what texts are read as, and what queries they become.
use serde_json::Value;
use yaffle::clock::{micros_since, seconds_since};
use yaffle::query::ast::{Query, QueryTree, RangeBounds, Scalar, RANGE_BOOST};
use yaffle::query::compile::compile;
use yaffle::query::field;
use yaffle::query::grammar::{expr, parse_tree};
use yaffle::query::lexer::split_words;
use yaffle::query::parse::{
    add_reltime_to_query, add_reltime_to_query_at, parse_query, parse_query_at, q_tree_to_query,
    q_tree_to_query_at, QueryError,
};
use yaffle::query::reltime::{reltime_query, reltime_query_at};
use yaffle::query::terms::{range_q, regex, Bound, Unreadable};

fn parsed(text: &str) -> Value {
    serde_json::from_str(text).unwrap()
}

fn one(key: &str, value: Value) -> Value {
    let mut map = serde_json::Map::new();
    map.insert(key.to_string(), value);
    Value::Object(map)
}

fn scalar(s: &Scalar) -> Value {
    match s {
        Scalar::Int(n) => Value::from(*n),
        Scalar::Text(t) => Value::from(t.as_str()),
        Scalar::Micros(n) => Value::from(u64::try_from(*n).unwrap()),
    }
}

fn range(bounds: &RangeBounds) -> Value {
    let mut map = serde_json::Map::new();
    for (name, bound) in [
        ("gte", &bounds.gte),
        ("lte", &bounds.lte),
        ("lt", &bounds.lt),
        ("gt", &bounds.gt),
    ] {
        if let Some(s) = bound {
            map.insert(name.to_string(), scalar(s));
        }
    }
    map.insert("boost".to_string(), Value::from(f64::from(RANGE_BOOST)));
    Value::Object(map)
}

fn list(qs: &[Query]) -> Value {
    Value::Array(qs.iter().map(to_value).collect())
}

/// The query as the search engine takes it.
fn to_value(q: &Query) -> Value {
    match q {
        Query::All => Value::from("all"),
        Query::Exact { field, term } => one("term", one(field, Value::from(term.as_str()))),
        Query::Fuzzy { field, value, distance, transposition } => {
            let mut map = serde_json::Map::new();
            map.insert("value".to_string(), Value::from(value.as_str()));
            map.insert("distance".to_string(), Value::from(*distance));
            map.insert("transposition".to_string(), Value::from(*transposition));
            one("fuzzy", one(field, Value::Object(map)))
        }
        Query::Phrase { field, terms } => {
            let words = terms.iter().map(|t| Value::from(t.as_str())).collect();
            one("phrase", one(field, one("terms", Value::Array(words))))
        }
        Query::Regex { field, pattern } => one("regex", one(field, Value::from(pattern.as_str()))),
        Query::Range { field, bounds } => one("range", one(field, range(bounds))),
        Query::Bool { must, must_not, should, minimum_should_match } => {
            let mut map = serde_json::Map::new();
            map.insert("must".to_string(), list(must));
            map.insert("must_not".to_string(), list(must_not));
            map.insert("should".to_string(), list(should));
            if let Some(n) = minimum_should_match {
                map.insert("minimum_should_match".to_string(), Value::from(*n));
            }
            one("bool", Value::Object(map))
        }
    }
}

fn exact(field: &str, term: &str) -> Query {
    Query::Exact { field: field.to_string(), term: term.to_string() }
}

fn leaf(term: &str) -> QueryTree {
    QueryTree::Simple(exact("f", term))
}

fn tree(text: &str) -> QueryTree {
    parse_tree(text).unwrap()
}

#[test]
fn test_regex() {
    assert_eq!(
        regex("/simple input/"),
        Ok(("".to_string(), String::from("simple input")))
    );
    assert_eq!(
        regex("/input with\\/embedded forward slash/"),
        Ok(("".to_string(), String::from("input with/embedded forward slash")))
    );
    assert_eq!(
        regex("/input with \\w \\b \\s classes/"),
        Ok(("".to_string(), String::from("input with \\w \\b \\s classes")))
    );
}

#[test]
fn query_test_regex() {
    for (text, pattern) in [
        ("/simple input/", "simple input"),
        (
            "/input with\\/embedded forward slash/",
            "input with/embedded forward slash",
        ),
        (
            "/input with \\w \\b \\s classes/",
            "input with \\w \\b \\s classes",
        ),
    ] {
        assert_eq!(regex(text), Ok(("".to_string(), String::from(pattern))));
        let (remaining, query) = field::regex_q(&format!("field:{}", text)).unwrap();
        assert_eq!(remaining, "");
        assert_eq!(
            query,
            Query::Regex { field: "field".to_string(), pattern: pattern.to_string() }
        );
    }
}

#[test]
fn test_range() {
    let result = range_q("field:<4,<=5,>1,>=2");
    assert!(result.is_ok());
    let (remaining, query) = result.unwrap();
    assert_eq!(remaining, "");
    assert_eq!(
        to_value(&query),
        parsed(r#"{"range":{"field":{"gte":2,"lte":5,"lt":4,"gt":1,"boost":0.0}}}"#)
    );
}

#[test]
fn query_test_range() {
    let result = field::range_q("field:<4,<=5,>1,>=2");
    assert!(result.is_ok());
    let (remaining, query) = result.unwrap();
    assert_eq!(remaining, "");
    assert_eq!(
        to_value(&query),
        parsed(r#"{"range":{"field":{"gte":"2","lte":"5","lt":"4","gt":"1","boost":0.0}}}"#)
    );
}

#[test]
fn test_simple_q_tree() {
    let result = expr("field:someterm");
    assert!(result.is_ok());
    let (remaining, query) = result.unwrap();
    assert_eq!(remaining, "");
    if let QueryTree::Simple(sq) = query {
        assert_eq!(to_value(&sq), parsed(r#"{"term":{"field":"someterm"}}"#));
    } else {
        panic!("Expected simple query tree, got: {:?}", query)
    }
}

#[test]
fn test_string_alone() {
    let result = parse_query("some_term", None);
    assert!(result.is_ok());
    let (remaining, query) = result.unwrap();
    assert_eq!(remaining, "");
    assert_eq!(to_value(&query), parsed(r#"{"term":{"message":"some_term"}}"#));
}

#[test]
fn test_quoted_alone() {
    let result = parse_query("\"quoted phrase\"", None);
    assert!(result.is_ok());
    let (remaining, query) = result.unwrap();
    assert_eq!(remaining, "");
    assert_eq!(
        to_value(&query),
        parsed(r#"{"phrase":{"message":{"terms": ["quoted", "phrase"]}}}"#)
    );
}

#[test]
fn test_parse_complex_q_tree() {
    for inp in vec![
        "f:a AND f:b AND f:c",
        "f:a OR f:b OR f:c",
        "NOT f:a AND NOT f:b AND NOT f:c",
        "f:a OR (f:b AND NOT f:c)",
        "f:a OR f:b AND NOT f:c",
        "f:a AND f:b OR NOT f:c",
        "NOT f:a AND f:c OR f:d",
        "(f:a OR f:b) AND NOT f:c",
        "f:a OR f:b AND f:c OR f:d",
        "f:a AND f:b OR f:c AND f:d",
        "(f:a OR f:b) AND f:c OR f:d",
        "f:a AND (f:b OR f:c) AND f:d",
        "f:a AND f:b OR (f:c AND f:d)",
        "f:a OR (f:b AND f:c) OR f:d",
    ] {
        let result = parse_query(inp, None);
        println!("Parsed '{}' to {:?}", inp, result);
        assert!(result.is_ok());
        let (remaining, _query) = result.unwrap();
        assert_eq!(remaining, "");
    }
}

#[test]
fn operators_bind_or_before_and() {
    assert_eq!(
        tree("f:a OR f:b AND f:c OR f:d"),
        QueryTree::And(vec![
            QueryTree::Or(vec![leaf("a"), leaf("b")]),
            QueryTree::Or(vec![leaf("c"), leaf("d")]),
        ])
    );
    assert_eq!(
        tree("f:a AND f:b OR (f:c AND f:d)"),
        QueryTree::And(vec![
            leaf("a"),
            QueryTree::Or(vec![leaf("b"), QueryTree::And(vec![leaf("c"), leaf("d")])]),
        ])
    );
    assert_eq!(
        tree("f:a AND f:b AND f:c"),
        QueryTree::And(vec![leaf("a"), leaf("b"), leaf("c")])
    );
}

#[test]
fn negation_reaches_to_the_end() {
    assert_eq!(
        tree("NOT f:a AND f:c OR f:d"),
        QueryTree::Not(Box::new(QueryTree::And(vec![
            leaf("a"),
            QueryTree::Or(vec![leaf("c"), leaf("d")]),
        ])))
    );
    assert_eq!(
        tree("f:a AND (NOT f:b) AND f:c"),
        QueryTree::And(vec![
            leaf("a"),
            QueryTree::Not(Box::new(leaf("b"))),
            leaf("c"),
        ])
    );
}

#[test]
fn parentheses_on_the_left_are_taken_up() {
    assert_eq!(
        tree("(f:a OR f:b) OR f:c"),
        QueryTree::Or(vec![leaf("a"), leaf("b"), leaf("c")])
    );
    assert_eq!(
        tree("f:a OR (f:b OR f:c)"),
        QueryTree::Or(vec![leaf("a"), QueryTree::Or(vec![leaf("b"), leaf("c")])])
    );
}

#[test]
fn texts_that_are_no_queries() {
    for text in ["", " ", "f:a AND", "f:a  f:b", "(f:a", "NOT", "NOTHING", "f:a OR  ", "+", "a)"] {
        assert_eq!(parse_query(text, None), Err(QueryError::Unreadable));
        assert_eq!(parse_tree(text), Err(Unreadable));
    }
}

#[test]
fn expressions_stop_before_what_cannot_be_read() {
    let (rest, t) = expr("f:a AND f:b AND ~").unwrap();
    assert_eq!(rest, " AND ~");
    assert_eq!(t, QueryTree::And(vec![leaf("a"), leaf("b")]));
    assert_eq!(expr("~"), Err(Unreadable));
}

#[test]
fn a_term_before_a_sign_ends_there() {
    let (rest, t) = expr("field:<4").unwrap();
    assert_eq!(rest, ":<4");
    assert_eq!(t, QueryTree::Simple(exact("message", "field")));
}

#[test]
fn fuzzy_terms() {
    let fuzzy = |field: &str, value: &str, distance: u8| {
        QueryTree::Simple(Query::Fuzzy {
            field: field.to_string(),
            value: value.to_string(),
            distance,
            transposition: true,
        })
    };
    assert_eq!(tree("~word"), fuzzy("message", "word", 2));
    assert_eq!(tree("~1~word"), fuzzy("message", "word", 1));
    assert_eq!(tree("host:~255~w"), fuzzy("host", "w", 255));
    assert_eq!(tree("~12"), fuzzy("message", "12", 2));
    assert_eq!(
        to_value(&field::fuzzy_term_q("host:~w x").unwrap().1),
        parsed(r#"{"fuzzy":{"host":{"value":"w","distance":3,"transposition":true}}}"#)
    );
    assert_eq!(field::fuzzy_term_q("~w"), Err(Unreadable));
    assert_eq!(field::fuzzy_term_q("host:~256~w"), Err(Unreadable));
    // A distance that does not fit a byte leaves the field name as a term.
    let (rest, t) = expr("host:~256~w").unwrap();
    assert_eq!(rest, ":~256~w");
    assert_eq!(t, QueryTree::Simple(exact("message", "host")));
}

#[test]
fn terms_of_a_single_field() {
    assert_eq!(
        field::exact_term_q("f:NOTHING more"),
        Ok((" more".to_string(), exact("f", "NOTHING")))
    );
    assert_eq!(field::exact_term_q("alone"), Err(Unreadable));
    assert_eq!(
        field::phrase_q("f:\" a  b\""),
        Ok((
            "".to_string(),
            Query::Phrase { field: "f".to_string(), terms: vec!["a".to_string(), "b".to_string()] }
        ))
    );
    assert_eq!(field::phrase_q("\"a\""), Err(Unreadable));
    assert_eq!(field::regex_q("/a/"), Err(Unreadable));
}

#[test]
fn regex_edges() {
    assert_eq!(regex("//"), Err(Unreadable));
    assert_eq!(regex("/a"), Err(Unreadable));
    assert_eq!(regex("/a\\"), Err(Unreadable));
    assert_eq!(regex("/a\\/"), Err(Unreadable));
    assert_eq!(regex("a/"), Err(Unreadable));
    assert_eq!(regex("/\\\\/x"), Ok(("x".to_string(), "\\\\".to_string())));
    assert_eq!(regex("/\\//"), Ok(("".to_string(), "/".to_string())));
}

#[test]
fn ranges() {
    let (rest, q) = range_q("f:>=abc,<4 x").unwrap();
    assert_eq!(rest, " x");
    assert_eq!(
        to_value(&q),
        parsed(r#"{"range":{"f":{"gte":"abc","lt":"4","boost":0.0}}}"#)
    );
    // The last bound of a sort counts; a list ends before a bound of another kind.
    let (rest, q) = range_q("f:>1,>2,<x").unwrap();
    assert_eq!(rest, ",<x");
    assert_eq!(to_value(&q), parsed(r#"{"range":{"f":{"gt":2,"boost":0.0}}}"#));
    // A number beyond 32 bits is read as a text.
    let (_, q) = range_q("f:>2147483648").unwrap();
    assert_eq!(
        to_value(&q),
        parsed(r#"{"range":{"f":{"gt":"2147483648","boost":0.0}}}"#)
    );
    assert_eq!(range_q("f:4"), Err(Unreadable));
    assert_eq!(range_q(":>4"), Err(Unreadable));
    assert_eq!(range_q("f:>NOT"), Err(Unreadable));
    assert!(field::range_q("f:>NOT").is_ok());
}

#[test]
fn bounds_from_symbols() {
    assert_eq!(Bound::from_symbol(">=", 1), Some(Bound::Greater { than: 1, or_equal: true }));
    assert_eq!(Bound::from_symbol(">", 1), Some(Bound::Greater { than: 1, or_equal: false }));
    assert_eq!(Bound::from_symbol("<=", 1), Some(Bound::Less { than: 1, or_equal: true }));
    assert_eq!(Bound::from_symbol("<", 1), Some(Bound::Less { than: 1, or_equal: false }));
    assert_eq!(Bound::from_symbol("=", 1), None);
    assert_eq!(Bound::from_symbol("", 1), None);
    assert_eq!(Bound::from_symbol("<==", 1), None);
}

#[test]
fn words_are_cut_at_white_space() {
    assert_eq!(split_words(" a\u{3000}b\tc\n"), vec!["a", "b", "c"]);
    assert!(split_words(" \t ").is_empty());
}

#[test]
fn letters_beyond_ascii() {
    assert_eq!(tree("größe"), QueryTree::Simple(exact("message", "größe")));
    assert_eq!(parse_tree("größe§"), Err(Unreadable));
}

#[test]
fn conjunctions_become_clauses() {
    let q = compile(tree("f:a AND (f:b OR f:c) AND (f:d OR f:e) AND (NOT f:g)"), None);
    assert_eq!(
        q,
        Query::Bool {
            must: vec![
                exact("f", "a"),
                Query::Bool {
                    must: vec![],
                    must_not: vec![],
                    should: vec![exact("f", "d"), exact("f", "e")],
                    minimum_should_match: Some(1),
                },
            ],
            must_not: vec![exact("f", "g")],
            should: vec![exact("f", "b"), exact("f", "c")],
            minimum_should_match: Some(1),
        }
    );
}

fn since(micros: u128) -> Query {
    Query::Range {
        field: "source_timestamp".to_string(),
        bounds: RangeBounds { gte: Some(Scalar::Micros(micros)), gt: None, lte: None, lt: None },
    }
}

#[test]
fn timed_searches() {
    let now: u128 = 1_000_000_000;
    assert_eq!(reltime_query_at(now, 5), Some(since(700_000_000)));
    assert_eq!(reltime_query_at(now, 17), None);
    assert_eq!(
        parse_query_at("a", Some(5), now),
        Ok(Query::Bool {
            must: vec![exact("message", "a"), since(700_000_000)],
            must_not: vec![],
            should: vec![],
            minimum_should_match: None,
        })
    );
    assert_eq!(parse_query_at("a", Some(0), now), Ok(exact("message", "a")));
    assert_eq!(parse_query_at("a", None, now), Ok(exact("message", "a")));
    assert_eq!(parse_query_at("a", Some(17), now), Err(QueryError::Clock));
    assert_eq!(
        parse_query_at("NOT a", Some(5), now),
        Ok(Query::Bool {
            must: vec![since(700_000_000)],
            must_not: vec![exact("message", "a")],
            should: vec![],
            minimum_should_match: None,
        })
    );
    assert_eq!(
        parse_query_at("a OR b", Some(5), now),
        Ok(Query::Bool {
            must: vec![since(700_000_000)],
            must_not: vec![],
            should: vec![exact("message", "a"), exact("message", "b")],
            minimum_should_match: Some(1),
        })
    );
    assert_eq!(q_tree_to_query_at(leaf("a"), Some(17), now), None);
    assert_eq!(q_tree_to_query(leaf("a"), None), Some(exact("f", "a")));
}

#[test]
fn parentheses_around_a_whole_query() {
    for text in [
        "a",
        "f:a AND b OR c",
        "NOT a OR b",
        "(a OR b) AND NOT (c)",
        "\"two words\"",
        "/re\\/x)/",
        "~2~word",
        "f:~word",
    ] {
        let once = format!("({})", text);
        let twice = format!("({})", once);
        assert_eq!(tree(&once), tree(text));
        assert_eq!(tree(&twice), tree(text));
        assert_eq!(parse_query(&once, None), parse_query(text, None));
        assert_eq!(parse_query_at(&once, Some(5), 1 << 40), parse_query_at(text, Some(5), 1 << 40));
    }
    // What is no query may become one.
    assert_eq!(parse_tree("a) OR (b"), Err(Unreadable));
    assert!(parse_tree("(a) OR (b)").is_ok());
}

#[test]
fn readings_of_the_clock() {
    assert_eq!(micros_since(None), None);
    assert_eq!(micros_since(Some((0, 999))), Some(0));
    assert_eq!(micros_since(Some((7, 1_999_999))), Some(7_001_999));
    assert_eq!(
        micros_since(Some((u64::MAX, 999_999_999))),
        Some(u64::MAX as u128 * 1_000_000 + 999_999)
    );
    assert_eq!(seconds_since(None), None);
    assert_eq!(seconds_since(Some((7, 999_999_999))), Some(7));
}

#[test]
fn the_clock_is_read() {
    let micros = |q: Query| match q {
        Query::Range { bounds: RangeBounds { gte: Some(Scalar::Micros(n)), .. }, .. } => n,
        other => panic!("no time clause: {:?}", other),
    };
    let a = micros(reltime_query(0).unwrap());
    let b = micros(reltime_query(60).unwrap());
    // Some time after 2020, and an hour apart but for the time between the calls.
    assert!(a > 1_577_836_800_000_000);
    assert!(b + 3_600_000_000 >= a && b + 3_600_000_000 < a + 60_000_000);
    assert_eq!(add_reltime_to_query(Query::All, -1), Some(Query::All));
    assert!(micros(add_reltime_to_query(Query::All, 1).unwrap()) > a - 61_000_000);
    assert!(parse_query("a", Some(5)).is_ok());
}

#[test]
fn restricted_queries() {
    let now: u128 = 1_000_000_000;
    assert_eq!(add_reltime_to_query_at(exact("f", "a"), -1, now), Some(exact("f", "a")));
    assert_eq!(add_reltime_to_query_at(Query::All, 5, now), Some(since(700_000_000)));
    assert_eq!(add_reltime_to_query_at(Query::All, 17, now), None);
    assert_eq!(
        add_reltime_to_query_at(exact("f", "a"), 5, now),
        Some(Query::Bool {
            must: vec![since(700_000_000), exact("f", "a")],
            must_not: vec![],
            should: vec![],
            minimum_should_match: None,
        })
    );
}

/// Whether a document with these terms meets the query.
fn meets(terms: &[&str], q: &Query) -> bool {
    match q {
        Query::All => true,
        Query::Exact { term, .. } => terms.contains(&term.as_str()),
        Query::Bool { must, must_not, should, minimum_should_match } => {
            let count = should.iter().filter(|q| meets(terms, q)).count() as u64;
            must.iter().all(|q| meets(terms, q))
                && !must_not.iter().any(|q| meets(terms, q))
                && minimum_should_match.map(|n| count >= n).unwrap_or(true)
        }
        other => panic!("not expected: {:?}", other),
    }
}

#[test]
fn compiled_queries_mean_what_the_text_says() {
    let q = parse_query("f:a AND (f:b OR f:c) AND (f:c OR f:d) AND NOT f:e", None).unwrap().1;
    assert!(meets(&["a", "c"], &q));
    assert!(meets(&["a", "b", "d"], &q));
    assert!(!meets(&["a", "b"], &q));
    assert!(!meets(&["b", "d"], &q));
    assert!(!meets(&["a", "c", "e"], &q));
}
