//! Documents for the Toshi search engine, and the index that they go to.
use serde_json::Value;
use yaffle::fieldmap::FieldMap;
use yaffle::gelf::GELFMessage;
use yaffle::json::{FieldValue, JsonNumber, JsonString, JsonValue};
use yaffle::schema::convert::ConvertError;
use yaffle::toshi::index::{
    after_check, commit_due, find_index, index_is_open, make_index_name, nth_probe, Search, Step,
};
use yaffle::toshi::schema::{
    convert, extract_gelf_fields, extract_gelf_fields_in, get_our_schema, get_our_schema_map,
    get_tantivy_schema, Convert, FieldType, FIELDS,
};

fn json(v: &Value) -> JsonValue {
    let micros = |f: f64| (f * 1_000_000f64) as u64;
    match v {
        Value::Null => JsonValue::Null,
        Value::Bool(b) => JsonValue::Bool(*b),
        Value::Number(n) => JsonValue::Number(JsonNumber {
            text: n.to_string(),
            as_u64: n.as_u64(),
            as_i64: n.as_i64(),
            micros: n.as_f64().map(micros),
        }),
        Value::String(s) => JsonValue::String(JsonString {
            text: s.clone(),
            micros: s.parse().ok().map(micros),
        }),
        other => JsonValue::Compound(other.to_string()),
    }
}

fn value(text: &str) -> JsonValue {
    json(&serde_json::from_str(text).unwrap())
}

fn gelf(other: &str) -> GELFMessage {
    let parsed: Value = serde_json::from_str(other).unwrap();
    let mut map = FieldMap::new();
    for (k, v) in parsed.as_object().unwrap() {
        map.insert(k.clone(), json(v));
    }
    GELFMessage {
        version: "1.1".to_string(),
        host: "h".to_string(),
        short_message: "short".to_string(),
        other: map,
    }
}

fn text(s: &str) -> FieldValue {
    FieldValue::Text(s.to_string())
}

#[test]
fn the_schema_by_name() {
    let schema = get_our_schema();
    assert_eq!(schema.len(), FIELDS);
    assert_eq!(FIELDS, 62);
    let map = get_our_schema_map();
    assert_eq!(map.len(), FIELDS);
    for (i, field) in schema.iter().enumerate() {
        assert_eq!(map.name_at(i), &field.name);
        assert_eq!(map.get(&field.name), Some(field));
    }
    assert_eq!(map.get("source_timestamp").unwrap().get_type(), &FieldType::Timestamp);
    assert_eq!(map.get("errno").unwrap().get_type(), &FieldType::I64);
    assert_eq!(map.get("message").unwrap().get_type(), &FieldType::Text);
    assert_eq!(map.get("comm").unwrap().get_type(), &FieldType::String);
    assert_eq!(map.get("pid").unwrap().get_type(), &FieldType::U64);
    assert_eq!(map.get("nothing"), None);
    assert_eq!(schema[0].from_gelf, vec![Convert::Plain("short_message".to_string())]);
}

#[test]
fn the_schema_of_the_index() {
    let schema = get_tantivy_schema();
    assert_eq!(schema.fields().count(), FIELDS);
    let parsed = serde_json::to_value(&schema).unwrap();
    assert_eq!(parsed[0]["name"], "message");
    assert_eq!(parsed[0]["options"]["indexing"]["tokenizer"], "default");
    assert_eq!(parsed[2]["options"]["indexing"]["tokenizer"], "raw");
    assert_eq!(parsed[3]["type"], "u64");
    assert_eq!(parsed[7]["type"], "i64");
    let time = parsed.as_array().unwrap().iter().find(|f| f["name"] == "source_timestamp").unwrap();
    assert_eq!(time["type"], "u64");
    assert_eq!(time["options"]["fast"], "single");
    assert_eq!(time["options"]["indexed"], true);
    assert_eq!(time["options"]["stored"], true);
}

#[test]
fn conversions() {
    let plain = Convert::Plain("f".to_string());
    let hex = Convert::HexToUint("f".to_string());
    let float = Convert::FloatSecToUsec("f".to_string());
    let time = Convert::SyslogTimestamp("f".to_string());
    let go = |v: &str, c: &Convert, t: FieldType| convert(&value(v), c, &t, Some("2020"));
    assert_eq!(go("\"s\"", &plain, FieldType::String), Ok(text("s")));
    assert_eq!(go("5", &plain, FieldType::Text), Ok(text("5")));
    assert_eq!(go("null", &plain, FieldType::Text), Ok(text("null")));
    assert_eq!(go("true", &plain, FieldType::String), Ok(text("true")));
    assert_eq!(go("[1,\"a\"]", &plain, FieldType::String), Ok(text("[1,\"a\"]")));
    assert_eq!(go("\"17\"", &plain, FieldType::U64), Ok(FieldValue::U64(17)));
    assert_eq!(go("\"17\"", &hex, FieldType::U64), Ok(FieldValue::U64(23)));
    assert_eq!(go("17", &hex, FieldType::U64), Ok(FieldValue::U64(17)));
    assert_eq!(go("-17", &plain, FieldType::U64), Err(ConvertError::Unrepresentable));
    assert_eq!(go("true", &plain, FieldType::U64), Err(ConvertError::Unrepresentable));
    assert_eq!(go("\"x\"", &plain, FieldType::U64), Err(ConvertError::Unparsable));
    assert_eq!(go("\"-17\"", &plain, FieldType::I64), Ok(FieldValue::I64(-17)));
    assert_eq!(go("\"-ff\"", &hex, FieldType::I64), Ok(FieldValue::I64(-255)));
    assert_eq!(go("-17", &plain, FieldType::I64), Ok(FieldValue::I64(-17)));
    assert_eq!(
        go("9223372036854775808", &plain, FieldType::I64),
        Err(ConvertError::Unrepresentable)
    );
    assert_eq!(go("\"5\"", &plain, FieldType::Timestamp), Ok(FieldValue::U64(5)));
    assert_eq!(go("\"10\"", &hex, FieldType::Timestamp), Ok(FieldValue::U64(16)));
    assert_eq!(go("\"1.5\"", &float, FieldType::Timestamp), Ok(FieldValue::U64(1_500_000)));
    assert_eq!(go("\"?\"", &float, FieldType::Timestamp), Err(ConvertError::Unparsable));
    assert_eq!(
        go("\"Jun  1 12:00:00\"", &time, FieldType::Timestamp),
        Ok(FieldValue::I64(1_591_012_800_000_000))
    );
    assert_eq!(
        go("\"1969-12-31T23:59:59Z\"", &time, FieldType::Timestamp),
        Ok(FieldValue::I64(-1_000_000))
    );
    assert_eq!(go("\"?\"", &time, FieldType::Timestamp), Err(ConvertError::Unparsable));
    assert_eq!(
        go("\"9999-01-01T00:00:00Z\"", &time, FieldType::Timestamp),
        Err(ConvertError::OutOfRange)
    );
    assert_eq!(go("5", &plain, FieldType::Timestamp), Ok(FieldValue::U64(5)));
    assert_eq!(go("-5", &plain, FieldType::Timestamp), Err(ConvertError::Unrepresentable));
    assert_eq!(go("1.5", &float, FieldType::Timestamp), Ok(FieldValue::U64(1_500_000)));
    assert_eq!(go("5", &time, FieldType::Timestamp), Err(ConvertError::WrongKind));
    assert_eq!(go("5", &hex, FieldType::Timestamp), Err(ConvertError::WrongKind));
    assert_eq!(go("null", &plain, FieldType::Timestamp), Err(ConvertError::WrongKind));
}

#[test]
fn documents_from_messages() {
    let schema = get_our_schema();
    let doc = extract_gelf_fields_in(
        &schema,
        &gelf(
            r#"{"timestamp": 5.5, "level": 6, "_PRIORITY": "3", "_HOSTNAME": "other",
               "_COMM": 7, "_PID": "x", "file": "a", "_CODE_FILE": "b"}"#,
        ),
        Some("2020"),
    );
    assert_eq!(doc.get("message"), Some(&text("short")));
    // The host ends the search for a name, and the later of two sources counts.
    assert_eq!(doc.get("hostname"), Some(&text("h")));
    assert_eq!(doc.get("priority"), Some(&FieldValue::U64(3)));
    assert_eq!(doc.get("code_file"), Some(&text("b")));
    assert_eq!(doc.get("source_timestamp"), Some(&FieldValue::U64(5_500_000)));
    assert_eq!(doc.get("comm"), Some(&text("7")));
    // What cannot be converted is left out.
    assert_eq!(doc.get("pid"), None);
    assert_eq!(doc.len(), 6);
    let doc = extract_gelf_fields_in(&schema, &gelf(r#"{"level": 6, "_PRIORITY": "?"}"#), Some("2020"));
    assert_eq!(doc.get("priority"), Some(&FieldValue::U64(6)));
    assert_eq!(extract_gelf_fields(&schema, &gelf("{}")).len(), 2);
}

#[test]
fn names_of_indexes() {
    assert_eq!(make_index_name(0), "yaffle_0");
    assert_eq!(make_index_name(u32::MAX), "yaffle_4294967295");
}

#[test]
fn open_indexes() {
    assert!(!index_is_open(&None, 10));
    assert!(index_is_open(&Some(vec![]), 10));
    assert!(!index_is_open(&Some(vec![]), 0));
    assert!(index_is_open(&Some(vec![4, 5]), 10));
    assert!(!index_is_open(&Some(vec![4, 5, 1]), 10));
    assert!(!index_is_open(&Some(vec![u32::MAX, u32::MAX]), u32::MAX));
}

#[test]
fn probes_cover_every_index_once() {
    let probes: Vec<u32> = (0..200).map(nth_probe).collect();
    assert_eq!(&probes[..3], &[190, 180, 170]);
    assert_eq!(&probes[19..22], &[0, 191, 181]);
    assert_eq!(probes[199], 9);
    let mut sorted = probes.clone();
    sorted.sort();
    assert_eq!(sorted, (0..200).collect::<Vec<u32>>());
}

/// Runs a search where the indexes in `there` exist and those in `open` take documents.
fn search(there: &[u32], open: &[u32]) -> (Vec<u32>, Step) {
    let mut checked = vec![];
    let (mut state, mut step) = find_index();
    while let Step::Check(i) = step {
        checked.push(i);
        let (next, action) = after_check(state, there.contains(&i), open.contains(&i));
        state = next;
        step = action;
    }
    (checked, step)
}

#[test]
fn searches_for_an_index() {
    let (checked, step) = search(&[], &[]);
    assert_eq!(checked.len(), 200);
    assert_eq!(step, Step::Create(0));
    let (checked, step) = search(&[30, 31, 32], &[32]);
    assert_eq!(step, Step::Use(32));
    assert_eq!(&checked[checked.len() - 4..], &[30, 30, 31, 32]);
    assert_eq!(search(&[30, 31], &[]).1, Step::Create(32));
    assert_eq!(search(&[7], &[7]).1, Step::Use(7));
    assert_eq!(
        after_check(Search::Walking(u32::MAX), true, false).1,
        Step::Exhausted
    );
}

#[test]
fn commits() {
    assert!(!commit_due(9));
    assert!(commit_due(10));
}
