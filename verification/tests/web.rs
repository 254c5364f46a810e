//! Pages: which columns they have, what stands in them and what is asked for them.
use serde_json::Value;
use std::cmp::Ordering;
use yaffle::fieldmap::FieldMap;
use yaffle::json::{JsonNumber, JsonString, JsonValue};
use yaffle::query::ast::Query;
use yaffle::query::parse::{host_query, message_query};
use yaffle::schema::document::Document;
use yaffle::web::format::{format_seconds, format_value, lookup_severity};
use yaffle::web::names::{field_custom_sort, fieldset, plain_fieldset};
use yaffle::web::page::{
    doc_rows, is_default_field, list_choices, make_check_id, make_column_class, make_page_cells,
    make_page_columns, make_page_messages, make_toggles, search_choices, style_of, text_rows,
};
use yaffle::web::search::{
    build_search_uri, check_url, display_hits, make_search_pairs, make_search_path,
    perform_search, search_options_at, search_params, search_result_with_error, search_table,
    url_fits, Settings, UrlError, URL_LIMIT,
};
use yaffle::web::state::{app_state_from_cookies, cols_value, AppState};

fn doc(pairs: &[(&str, &str)]) -> FieldMap<String> {
    let mut map = FieldMap::new();
    for (k, v) in pairs {
        map.insert(k.to_string(), v.to_string());
    }
    map
}

fn json(v: &Value) -> JsonValue {
    match v {
        Value::Null => JsonValue::Null,
        Value::Bool(b) => JsonValue::Bool(*b),
        Value::Number(n) => JsonValue::Number(JsonNumber {
            text: n.to_string(),
            as_u64: n.as_u64(),
            as_i64: n.as_i64(),
            micros: None,
        }),
        Value::String(s) => JsonValue::String(JsonString { text: s.clone(), micros: None }),
        other => JsonValue::Compound(other.to_string()),
    }
}

fn value(text: &str) -> JsonValue {
    json(&serde_json::from_str(text).unwrap())
}

fn strings(v: &[&str]) -> Vec<String> {
    v.iter().map(|s| s.to_string()).collect()
}

#[test]
fn the_order_of_fields() {
    assert_eq!(field_custom_sort("source_timestamp", "a"), Ordering::Less);
    assert_eq!(field_custom_sort("a", "source_timestamp"), Ordering::Greater);
    assert_eq!(field_custom_sort("source_timestamp", "source_timestamp"), Ordering::Less);
    assert_eq!(field_custom_sort("a", "b"), Ordering::Less);
    assert_eq!(field_custom_sort("b", "a"), Ordering::Greater);
    assert_eq!(field_custom_sort("a", "a"), Ordering::Equal);
    assert_eq!(field_custom_sort("a", "ab"), Ordering::Less);
    for (a, b) in [("é", "z"), ("ab", "aé"), ("", "a"), ("\u{ffff}", "\u{10000}")] {
        assert_eq!(field_custom_sort(a, b), a.cmp(b));
        assert_eq!(field_custom_sort(b, a), b.cmp(a));
    }
}

#[test]
fn fields_of_documents() {
    let docs = vec![
        doc(&[("pid", "1"), ("message", "m"), ("comm", "c")]),
        doc(&[("source_timestamp", "t"), ("pid", "2"), ("full_message", "f")]),
        doc(&[]),
    ];
    assert_eq!(fieldset(&docs), strings(&["source_timestamp", "comm", "pid"]));
    assert_eq!(
        plain_fieldset(&docs),
        strings(&["comm", "full_message", "message", "pid", "source_timestamp"])
    );
    assert!(fieldset::<String>(&vec![]).is_empty());
}

#[test]
fn tables_of_documents() {
    let docs = vec![
        doc(&[("pid", "1"), ("message", "m")]),
        doc(&[("source_timestamp", "t"), ("message", "n")]),
    ];
    let (names, rows) = search_table(&docs);
    assert_eq!(names, strings(&["source_timestamp", "message", "pid"]));
    let some = |s: &str| Some(s.to_string());
    assert_eq!(
        rows,
        vec![vec![None, some("m"), some("1")], vec![some("t"), some("n"), None]]
    );
}

#[test]
fn answers_of_the_engine() {
    let sr = search_result_with_error("broken".to_string());
    assert_eq!(sr.errors, strings(&["broken"]));
    assert_eq!((sr.elapsed_time_micros, sr.num_hits, sr.hits.len()), (0, 0, 0));
    let mut hit = FieldMap::new();
    hit.insert("priority".to_string(), value("3"));
    let shown = display_hits(&vec![Document::from_hit(&hit).unwrap()]);
    assert_eq!(shown[0].get("priority"), Some(&"3 (Error)".to_string()));
}

#[test]
fn searches() {
    let o = search_options_at(5, "q".to_string(), 1000);
    assert_eq!((o.query.as_str(), o.start_timestamp, o.end_timestamp), ("q", Some(700), None));
    assert_eq!(search_options_at(0, "q".to_string(), 1000).start_timestamp, None);
    assert_eq!(search_options_at(17, "q".to_string(), 1000).start_timestamp, None);
    assert_eq!(search_options_at(71_582_788, "q".to_string(), 1000).start_timestamp, None);
    let o = perform_search(60, "q".to_string()).unwrap();
    assert!(o.start_timestamp.unwrap() > 1_577_836_800);
    assert_eq!(perform_search(0, "q".to_string()).unwrap().start_timestamp, None);
    assert_eq!(search_params(None, None), (5, "*".to_string()));
    assert_eq!(search_params(Some(0), Some("".to_string())), (0, "*".to_string()));
    assert_eq!(search_params(Some(60), Some("x".to_string())), (60, "x".to_string()));
    assert_eq!(message_query(""), Query::All);
    assert_eq!(
        message_query("x"),
        Query::Exact { field: "message".to_string(), term: "x".to_string() }
    );
    assert_eq!(
        host_query("x"),
        Query::Exact { field: "hostname".to_string(), term: "x".to_string() }
    );
}

#[test]
fn addresses_of_searches() {
    let settings = |url: &str| Settings {
        quickwit_url: url.to_string(),
        quickwit_index: "yaffle logs".to_string(),
    };
    assert_eq!(
        build_search_uri(&settings("http://localhost:7280"), "a b&c").as_deref(),
        Ok("http://localhost:7280/api/v1/yaffle%20logs/search?query=a+b%26c&sort_by_field=-source_timestamp")
    );
    assert_eq!(
        build_search_uri(&settings("http://localhost:7280/base"), "").as_deref(),
        Ok("http://localhost:7280/base/api/v1/yaffle%20logs/search?query=*&sort_by_field=-source_timestamp")
    );
    assert_eq!(build_search_uri(&settings("nonsense"), "x"), Err(UrlError::Invalid));
    assert_eq!(build_search_uri(&settings("data:x"), "x"), Err(UrlError::CannotBeBase));
    // Requests go to addresses of less than 64 KiB, and to hosts.
    let long = "q".repeat(70_000);
    assert_eq!(build_search_uri(&settings("http://h/"), &long), Err(UrlError::Unusable));
    assert_eq!(build_search_uri(&settings("file:///x"), "x"), Err(UrlError::Unusable));
    assert_eq!(check_url(Err(UrlError::Invalid), true), Err(UrlError::Invalid));
    assert_eq!(check_url(Ok("u".to_string()), true), Ok("u".to_string()));
    assert_eq!(check_url(Ok("u".to_string()), false), Err(UrlError::Unusable));
    let huge = "q".repeat(URL_LIMIT);
    assert_eq!(build_search_uri(&settings("http://h/"), &huge), Err(UrlError::TooLong));
    assert!(url_fits(&huge, &vec![], &vec![]));
    assert!(!url_fits(&huge, &strings(&[""]), &vec![]));
    assert!(!url_fits(&huge, &vec![], &vec![(String::new(), String::new())]));
    let pair = vec![("a".to_string(), "b".to_string())];
    assert!(url_fits(&huge[..URL_LIMIT - 6], &strings(&["c"]), &pair));
    assert!(!url_fits(&huge[..URL_LIMIT - 5], &strings(&["c"]), &pair));
    assert_eq!(make_search_path("i"), strings(&["api", "v1", "i", "search"]));
    assert_eq!(make_search_pairs("")[0], ("query".to_string(), "*".to_string()));
    assert_eq!(make_search_pairs("x")[0], ("query".to_string(), "x".to_string()));
}

#[test]
fn severities() {
    assert_eq!(lookup_severity(Some(0)), "Emergency");
    assert_eq!(lookup_severity(Some(7)), "Debug");
    assert_eq!(lookup_severity(Some(8)), "Unknown");
    assert_eq!(lookup_severity(None), "None");
}

#[test]
fn values_on_a_page() {
    let show = |v: &str, f: &str| format_value(Some(&value(v)), f);
    let ok = |s: &str| Ok(s.to_string());
    assert_eq!(format_value(None, "nothing"), ok(""));
    assert_eq!(show("1591012800250000", "source_timestamp"), ok("2020-06-01 12:00:00.250 UTC"));
    assert_eq!(
        show("-1", "source_timestamp"),
        Err("Can't get source_timestamp as u64".to_string())
    );
    assert_eq!(show("\"x\"", "source_timestamp"), ok("x"));
    assert_eq!(show("3", "priority"), ok("3 (Error)"));
    assert_eq!(show("-3", "priority"), ok("-3 (None)"));
    assert_eq!(show("255", "cap_effective"), ok("0xff"));
    assert_eq!(show("1.5", "cap_effective"), ok("1.5"));
    assert_eq!(show("7", "pid"), ok("7"));
    assert_eq!(show("\"t\"", "comm"), ok("t"));
    assert_eq!(show("[1]", "comm"), ok("[1]"));
    assert_eq!(show("null", "comm"), ok("null"));
    assert_eq!(show("7", "nothing"), Err("No such field named nothing in schema".to_string()));
    let time = |t: Option<&str>| {
        format_seconds(Some(&value("5")), "source_timestamp", t.map(String::from))
    };
    assert_eq!(time(Some("then")), ok("then"));
    assert_eq!(time(None), Err("Can't get source_timestamp as f64".to_string()));
    assert_eq!(format_seconds(Some(&value("5")), "pid", None), ok("5"));
    assert_eq!(format_seconds(None, "pid", None), ok(""));
    assert_eq!(
        format_seconds(Some(&value("5")), "nothing", None),
        Err("No such field named nothing in schema".to_string())
    );
}

#[test]
fn choices_of_time() {
    let list = list_choices(15);
    assert_eq!(list.len(), 14);
    assert_eq!((list[0].minutes, list[0].label.as_str()), (1, "1m"));
    assert_eq!((list[13].minutes, list[13].label.as_str()), (-1, "all"));
    let selected: Vec<i32> = list.iter().filter(|c| c.selected).map(|c| c.minutes).collect();
    assert_eq!(selected, [15]);
    assert!(list_choices(-1)[13].selected);
    let list = search_choices(0);
    assert_eq!(list.len(), 14);
    assert!(list[0].selected && list[0].minutes == 0 && list[0].label == "all");
    assert_eq!((list[6].minutes, list[6].label.as_str()), (180, "2h"));
    assert!(search_choices(43200)[13].selected);
    assert!(search_choices(u32::MAX).iter().all(|c| !c.selected));
}

#[test]
fn columns_of_list_pages() {
    assert!(is_default_field("comm") && is_default_field("hostname"));
    assert!(is_default_field("priority") && !is_default_field("pid"));
    assert_eq!(make_column_class("pid"), "pid_col");
    assert_eq!(make_check_id("pid"), "pid_check");
    assert_eq!((style_of("comm"), style_of("pid")), ("", "display: none"));
    let fields = strings(&["source_timestamp", "comm", "pid"]);
    let toggles = make_toggles(&fields, true);
    assert_eq!(toggles.len(), 2);
    assert_eq!(toggles[0].field, "comm");
    assert!(toggles[0].checked && !toggles[1].checked);
    assert_eq!((toggles[1].target.as_str(), toggles[1].id.as_str()), ("pid_col", "pid_check"));
    assert_eq!(make_toggles(&fields, false).len(), 3);
}

#[test]
fn rows_of_list_pages() {
    let mut d = FieldMap::new();
    d.insert("pid".to_string(), value("7"));
    d.insert("message".to_string(), value("\"m\""));
    let rows = doc_rows(&d, &strings(&["comm", "pid", "odd"]));
    assert_eq!(rows.cells, vec![Ok("".to_string()), Ok("7".to_string()), Ok("".to_string())]);
    assert_eq!(rows.message, Ok("m".to_string()));
    assert_eq!(rows.full_message, None);
    d.insert("full_message".to_string(), value("\"long\""));
    d.insert("odd".to_string(), value("1"));
    let rows = doc_rows(&d, &strings(&["odd"]));
    assert!(rows.cells[0].is_err());
    assert_eq!(rows.full_message, Some(Ok("long".to_string())));
}

#[test]
fn rows_of_texts() {
    let mut doc: FieldMap<String> = FieldMap::new();
    doc.insert("message".to_string(), "m".to_string());
    doc.insert("pid".to_string(), "7".to_string());
    let rows = text_rows(&doc, &strings(&["pid", "gone"]));
    assert_eq!(rows.cells, vec![Ok("7".to_string()), Ok(String::new())]);
    assert_eq!(rows.message, Ok("m".to_string()));
    assert_eq!(rows.full_message, None);
    doc.insert("full_message".to_string(), "long".to_string());
    assert_eq!(text_rows(&doc, &vec![]).full_message, Some(Ok("long".to_string())));
    assert_eq!(text_rows(&FieldMap::new(), &vec![]).message, Ok(String::new()));
}

#[test]
fn the_search_page() {
    let fields = strings(&["source_timestamp", "full_message", "message", "pid"]);
    let state = AppState::default();
    assert_eq!(
        make_page_columns(&fields, &state),
        vec![("source_timestamp".to_string(), true), ("pid".to_string(), false)]
    );
    let row = vec![Some("t".to_string()), None, Some("m".to_string())];
    assert_eq!(make_page_cells(&fields, &row, &state), vec![Some(Some("t".to_string())), None]);
    let mut all = AppState::default();
    all.set_enabled("pid", true);
    assert_eq!(
        make_page_cells(&fields, &row, &all),
        vec![Some(Some("t".to_string())), Some(None)]
    );
    assert_eq!(make_page_messages(&fields, &row), strings(&["m"]));
    assert!(make_page_messages(&fields, &vec![]).is_empty());
}

#[test]
fn cookies_of_visitors() {
    let cols = |headers: &[&str]| app_state_from_cookies(&strings(headers)).cols_enabled().clone();
    assert_eq!(cols(&[]), strings(&["source_timestamp", "comm", "hostname", "priority"]));
    assert_eq!(cols(&["a=b; cols=x,y,x; cols=z"]), strings(&["x", "y"]));
    assert_eq!(cols(&["a=b", "cols=p"]), strings(&["p"]));
    assert_eq!(cols(&["a=b;\t cols = \" x,y \" ; cols=z"]), strings(&["x", "y"]));
    assert_eq!(cols(&["=b; cols", "\u{2003}cols=\u{2003}p"]), strings(&["p"]));
    assert_eq!(cols(&["junk; cols=a%2Cb"]), strings(&["a", "b"]));
    assert_eq!(cols(&["cols="]), strings(&[""]));
    assert_eq!(cols(&["Cols=x"]).len(), 4);
    assert_eq!(cols_value(None), None);
    assert_eq!(cols_value(Some(("a".to_string(), "b".to_string()))), None);
    assert_eq!(
        cols_value(Some(("cols".to_string(), "b".to_string()))),
        Some("b".to_string())
    );
}

#[test]
fn columns_that_are_switched() {
    let mut state = AppState::default();
    assert!(state.is_enabled("comm") && !state.is_enabled("pid"));
    state.set_enabled("pid", true);
    state.set_enabled("pid", true);
    state.set_enabled("comm", false);
    state.set_enabled("gone", false);
    assert_eq!(
        *state.cols_enabled(),
        strings(&["source_timestamp", "hostname", "priority", "pid"])
    );
    assert_eq!(state.cookie(), "cols=source_timestamp,hostname,priority,pid");
    let back = app_state_from_cookies(&vec![state.cookie()]);
    assert_eq!(back, state);
}

#[test]
fn unusual_columns_are_remembered() {
    for cols in [
        vec!["a b", "c=d"],
        vec!["\"", "x\"y"],
        vec!["h\u{f6}he", "\u{65e5}\u{672c}"],
        vec!["", "z"],
        vec!["\""],
    ] {
        let state = AppState::new(strings(&cols));
        assert_eq!(app_state_from_cookies(&vec![state.cookie()]), state);
        let among = vec!["x=y; z".to_string(), format!("a=b; {} ; cols=c", state.cookie())];
        assert_eq!(app_state_from_cookies(&among), state);
    }
    let lost = AppState::new(strings(&["\"a", "b\""]));
    assert_eq!(
        *app_state_from_cookies(&vec![lost.cookie()]).cols_enabled(),
        strings(&["a", "b"])
    );
    let none = AppState::new(vec![]);
    assert_eq!(*app_state_from_cookies(&vec![none.cookie()]).cols_enabled(), strings(&[""]));
}
