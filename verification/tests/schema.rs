//! Documents: what messages become, how documents are written, read and shown.
use serde_json::Value;
use yaffle::fieldmap::FieldMap;
use yaffle::gelf::GELFMessage;
use yaffle::ingest::{judge, judge_in, Incoming, Verdict};
use yaffle::json::{FieldValue, JsonNumber, JsonString, JsonValue};
use yaffle::quickwit::{
    after_describe, backoff, create_request, is_success, make_create_uri, make_describe_uri,
    make_ingest_uri, strip_slash, DatePrecision, FieldMapping, IndexStep, RecordOption, Tokenizer,
};
use yaffle::schema::attr::{
    process_inner_attr, FieldValueConversion, FormatOption, InnerAttr, TantivyType,
};
use yaffle::schema::column::{Attribute, DeriveError, FieldDecl, ValueKind};
use yaffle::schema::convert::{
    convert_datetime_to_usec, convert_float_sec_to_usec, convert_hex_to_uint,
    convert_syslog_timestamp, convert_syslog_timestamp_in, read_syslog_time, ConvertError,
};
use yaffle::schema::display::{
    display_value, format_time, severity_name, show, time_or_empty,
};
use yaffle::schema::document::{columns, Document, ALWAYS_WRITTEN, COLUMNS};
use yaffle::schema::extract::{decode, from_gelf_in, from_syslog};
use yaffle::schema::generate::{
    constructor_expr, derive_yaffle_schema, display_kind, gelf_accessor, quickwit_mapping,
    stored_fields, syslog_accessor, Accessor, Converter, DisplayKind, SourceExpr,
};
use yaffle::storage::{build_schema, StoredAs};
use yaffle::syslog::{parse_syslog_at, SyslogMessage};
use yaffle::time::{Civil, Timestamp};

fn micros(v: f64) -> u64 {
    (v * 1_000_000f64) as u64
}

/// The value as the library takes it.
fn json(v: &Value) -> JsonValue {
    match v {
        Value::Null => JsonValue::Null,
        Value::Bool(b) => JsonValue::Bool(*b),
        Value::Number(n) => JsonValue::Number(JsonNumber {
            text: n.to_string(),
            as_u64: n.as_u64(),
            as_i64: n.as_i64(),
            micros: n.as_f64().map(micros),
        }),
        Value::String(s) => JsonValue::String(JsonString {
            text: s.clone(),
            micros: s.parse().ok().map(micros),
        }),
        other => JsonValue::Compound(other.to_string()),
    }
}

fn value(text: &str) -> JsonValue {
    json(&serde_json::from_str(text).unwrap())
}

fn object(text: &str) -> FieldMap<JsonValue> {
    let parsed: Value = serde_json::from_str(text).unwrap();
    let mut map = FieldMap::new();
    for (k, v) in parsed.as_object().unwrap() {
        map.insert(k.clone(), json(v));
    }
    map
}

fn gelf(other: &str) -> GELFMessage {
    GELFMessage {
        version: "1.1".to_string(),
        host: "h".to_string(),
        short_message: "short".to_string(),
        other: object(other),
    }
}

/// What is written of a document, as JSON.
fn written(d: &Document) -> Value {
    let mut map = serde_json::Map::new();
    for (name, v) in d.entries() {
        let v = match v {
            Some(FieldValue::Text(t)) => Value::from(t),
            Some(FieldValue::U64(n)) => Value::from(n),
            Some(FieldValue::I64(n)) => Value::from(n),
            None => Value::Null,
        };
        map.insert(name, v);
    }
    Value::Object(map)
}

fn parsed(text: &str) -> Value {
    serde_json::from_str(text).unwrap()
}

fn noon() -> Timestamp {
    Timestamp {
        civil: Civil { year: 2020, month: 6, day: 1, hour: 12, minute: 0, second: 0, nano: 0 },
        offset: 0,
        unix_nanos: Some(1_591_012_800_000_000_000),
    }
}

fn syslog(text: &[u8]) -> SyslogMessage {
    parse_syslog_at(text, 2020, None, noon())
}

#[test]
fn conversions_of_seconds() {
    assert_eq!(convert_float_sec_to_usec(&value("1.5")), Ok(1_500_000));
    assert_eq!(convert_float_sec_to_usec(&value("\"2.25\"")), Ok(2_250_000));
    assert_eq!(convert_float_sec_to_usec(&value("-3")), Ok(0));
    assert_eq!(convert_float_sec_to_usec(&value("\"x\"")), Err(ConvertError::Unparsable));
    assert_eq!(convert_float_sec_to_usec(&value("null")), Err(ConvertError::WrongKind));
    let odd = JsonNumber { text: "1".to_string(), as_u64: None, as_i64: None, micros: None };
    assert_eq!(
        convert_float_sec_to_usec(&JsonValue::Number(odd)),
        Err(ConvertError::Unrepresentable)
    );
}

#[test]
fn conversions_of_hex() {
    assert_eq!(convert_hex_to_uint(&value("\"1fF\"")), Ok(0x1ff));
    assert_eq!(convert_hex_to_uint(&value("\"ffffffffffffffff\"")), Ok(u64::MAX));
    assert_eq!(
        convert_hex_to_uint(&value("\"10000000000000000\"")),
        Err(ConvertError::Unparsable)
    );
    assert_eq!(convert_hex_to_uint(&value("\"0x1\"")), Err(ConvertError::Unparsable));
    assert_eq!(convert_hex_to_uint(&value("16")), Ok(16));
    assert_eq!(convert_hex_to_uint(&value("-16")), Err(ConvertError::Unrepresentable));
    assert_eq!(convert_hex_to_uint(&value("[]")), Err(ConvertError::WrongKind));
}

#[test]
fn conversions_of_times() {
    assert_eq!(
        convert_syslog_timestamp_in(&value("\"2020-06-01T12:00:00Z\""), Some("1999")),
        Ok(1_591_012_800_000_000)
    );
    assert_eq!(
        convert_syslog_timestamp_in(&value("\"Mon, 01 Jun 2020 12:00:00 +0000\""), Some("1999")),
        Ok(1_591_012_800_000_000)
    );
    assert_eq!(
        convert_syslog_timestamp_in(&value("\"Jun  1 12:00:00\""), Some("2020")),
        Ok(1_591_012_800_000_000)
    );
    assert_eq!(
        convert_syslog_timestamp_in(&value("\"Jun  1 12:00\""), Some("2020")),
        Err(ConvertError::Unparsable)
    );
    assert_eq!(
        convert_syslog_timestamp_in(&value("\"9999-06-01T12:00:00Z\""), Some("2020")),
        Err(ConvertError::OutOfRange)
    );
    assert_eq!(convert_syslog_timestamp_in(&value("5"), Some("2020")), Err(ConvertError::WrongKind));
    // Without a year there is no time where the text has none.
    assert_eq!(
        convert_syslog_timestamp_in(&value("\"Jun  1 12:00:00\""), None),
        Err(ConvertError::OutOfRange)
    );
    assert!(convert_syslog_timestamp_in(&value("\"2020-06-01T12:00:00Z\""), None).is_ok());
    assert_eq!(
        convert_syslog_timestamp(&value("\"2020-06-01T12:00:00Z\"")),
        convert_syslog_timestamp_in(&value("\"2020-06-01T12:00:00Z\""), None)
    );
    assert_eq!(convert_syslog_timestamp(&value("5")), Err(ConvertError::WrongKind));
    assert!(convert_syslog_timestamp(&value("\"Jun  1 12:00:00\"")).unwrap() > 0);
    // Times before the epoch: microseconds towards zero, then wrapped.
    assert_eq!(read_syslog_time("1969-12-31T23:59:59.9999985Z", Some("2020")), Ok(-1));
    assert_eq!(
        convert_syslog_timestamp_in(&value("\"1969-12-31T23:59:59.9999985Z\""), Some("2020")),
        Ok(u64::MAX)
    );
    assert_eq!(convert_datetime_to_usec(&noon()), Ok(1_591_012_800_000_000));
    let before = Timestamp { unix_nanos: Some(-1), ..noon() };
    assert_eq!(convert_datetime_to_usec(&before), Ok(u64::MAX / 1000));
    let never = Timestamp { unix_nanos: None, ..noon() };
    assert_eq!(convert_datetime_to_usec(&never), Err(ConvertError::OutOfRange));
}

#[test]
fn attributes() {
    let conv = |c: &str| FieldValueConversion::from_attribute("f".to_string(), c);
    let f = || "f".to_string();
    assert_eq!(conv("none"), Some(FieldValueConversion::Plain(f())));
    assert_eq!(conv("float_sec_to_usec"), Some(FieldValueConversion::FloatSecToUsec(f())));
    assert_eq!(conv("hex_to_uint"), Some(FieldValueConversion::HexToUint(f())));
    assert_eq!(conv("syslog_timestamp"), Some(FieldValueConversion::SyslogTimestamp(f())));
    assert_eq!(conv("datetime_to_usec"), Some(FieldValueConversion::DateTimeToUsec(f())));
    assert_eq!(conv("other"), None);
    assert_eq!(TantivyType::from_attribute("string"), Some(TantivyType::String));
    assert_eq!(TantivyType::from_attribute("text"), Some(TantivyType::Text));
    assert_eq!(TantivyType::from_attribute("u64"), Some(TantivyType::U64));
    assert_eq!(TantivyType::from_attribute("i64"), Some(TantivyType::I64));
    assert_eq!(TantivyType::from_attribute("timestamp"), Some(TantivyType::Timestamp));
    assert_eq!(TantivyType::from_attribute("fast_timestamp"), Some(TantivyType::FastTimestamp));
    assert_eq!(TantivyType::from_attribute("json"), None);
    assert_eq!(FormatOption::from_attribute("syslog_priority"), Some(FormatOption::SyslogPriority));
    assert_eq!(FormatOption::from_attribute("hex"), Some(FormatOption::Hex));
    assert_eq!(FormatOption::from_attribute(""), None);
    assert_eq!(
        process_inner_attr(&InnerAttr::Path(Some(f()))),
        Some(FieldValueConversion::Plain(f()))
    );
    assert_eq!(process_inner_attr(&InnerAttr::Path(None)), None);
    assert_eq!(
        process_inner_attr(&InnerAttr::NameStr(Some(f()), "hex_to_uint".to_string())),
        Some(FieldValueConversion::HexToUint(f()))
    );
    assert_eq!(process_inner_attr(&InnerAttr::NameStr(Some(f()), "x".to_string())), None);
    assert_eq!(
        process_inner_attr(&InnerAttr::Str("@weird".to_string())),
        Some(FieldValueConversion::Plain("@weird".to_string()))
    );
    assert_eq!(process_inner_attr(&InnerAttr::Other), None);
}

fn decl(name: &str, attrs: Vec<Attribute>) -> FieldDecl {
    FieldDecl { name: name.to_string(), kind: ValueKind::U64, attrs }
}

fn name_str(path: &str, v: &str) -> Attribute {
    Attribute::NameStr(Some(path.to_string()), v.to_string())
}

#[test]
fn declarations_become_plans() {
    let path = |p: &str| InnerAttr::Path(Some(p.to_string()));
    let g = derive_yaffle_schema(Some(vec![
        decl(
            "a",
            vec![
                Attribute::List(
                    Some("from_gelf".to_string()),
                    vec![
                        InnerAttr::NameStr(Some("t".to_string()), "float_sec_to_usec".to_string()),
                        InnerAttr::Other,
                        path("host"),
                    ],
                ),
                Attribute::List(Some("from_gelf".to_string()), vec![path("last")]),
                Attribute::List(
                    Some("from_syslog".to_string()),
                    vec![path("pid"), path("message")],
                ),
                name_str("storage_type", "fast_timestamp"),
                name_str("doc", "ignored"),
                Attribute::Other,
            ],
        ),
        decl("b", vec![name_str("storage_type", "u64"), name_str("format", "hex")]),
        decl("c", vec![]),
    ]))
    .unwrap();
    assert_eq!(g.from_gelf.len(), 3);
    assert_eq!(g.from_gelf[0].dest_field, "a");
    assert_eq!(
        g.from_gelf[0].sources,
        vec![
            SourceExpr::Converted {
                accessor: Accessor::GelfOther("t".to_string()),
                via_json: false,
                converter: Converter::FloatSecToUsec,
                fallible: true,
            },
            SourceExpr::Decoded(Accessor::GelfField("host".to_string())),
            SourceExpr::Decoded(Accessor::GelfOther("last".to_string())),
        ]
    );
    assert_eq!(
        g.from_syslog[0].sources,
        vec![
            SourceExpr::Taken(Accessor::SyslogOptional("pid".to_string())),
            SourceExpr::Taken(Accessor::SyslogPresent("message".to_string())),
        ]
    );
    assert!(g.from_gelf[2].sources.is_empty());
    assert_eq!(
        g.stored,
        vec![
            ("a".to_string(), TantivyType::FastTimestamp),
            ("b".to_string(), TantivyType::U64)
        ]
    );
    assert_eq!(g.mapping.len(), 2);
    assert!(g.mapping[0].fast);
    assert_eq!(g.columns[1].format, Some(FormatOption::Hex));
    assert_eq!(
        derive_yaffle_schema(Some(vec![decl("a", vec![name_str("storage_type", "blob")])])),
        Err(DeriveError::UnknownStorageType)
    );
    assert_eq!(
        derive_yaffle_schema(Some(vec![decl("a", vec![name_str("format", "blob")])])),
        Err(DeriveError::UnknownFormat)
    );
    assert_eq!(derive_yaffle_schema(None), Err(DeriveError::NotNamedStruct));
}

#[test]
fn accessors_and_expressions() {
    for f in ["version", "host", "short_message"] {
        assert_eq!(gelf_accessor(f), Accessor::GelfField(f.to_string()));
    }
    assert_eq!(gelf_accessor("level"), Accessor::GelfOther("level".to_string()));
    for f in ["priority", "facility", "source_timestamp", "message", "full_message"] {
        assert_eq!(syslog_accessor(f), Accessor::SyslogPresent(f.to_string()));
    }
    assert_eq!(syslog_accessor("pid"), Accessor::SyslogOptional("pid".to_string()));
    let c = FieldValueConversion::DateTimeToUsec("source_timestamp".to_string());
    assert_eq!(
        c.conversion_expr(true),
        SourceExpr::Converted {
            accessor: Accessor::SyslogPresent("source_timestamp".to_string()),
            via_json: false,
            converter: Converter::DateTimeToUsec,
            fallible: false,
        }
    );
    let c = FieldValueConversion::HexToUint("x".to_string());
    assert_eq!(
        constructor_expr("d", &vec![c], true).sources,
        vec![SourceExpr::Converted {
            accessor: Accessor::SyslogOptional("x".to_string()),
            via_json: true,
            converter: Converter::HexToUint,
            fallible: true,
        }]
    );
}

#[test]
fn documents_from_gelf() {
    let d = Document::from_gelf_in(
        &gelf(
            r#"{"timestamp": 1591012800.25, "level": 6, "_PRIORITY": "3", "_ERRNO": "-5",
               "_CAP_EFFECTIVE": "ff", "_SYSLOG_TIMESTAMP": "Jun  1 12:00:00",
               "_facility": "second", "_SYSLOG_FACILITY": "third", "_PID": 77, "unknown": []}"#,
        ),
        Some("2020"),
    )
    .unwrap();
    assert!(d.is_valid());
    assert_eq!(
        written(&d),
        parsed(
            r#"{"source_timestamp": 1591012800250000, "hostname": "h", "message": "short",
               "priority": 6, "errno": -5, "cap_effective": 255,
               "syslog_timestamp": 1591012800000000, "facility": "second", "pid": 77}"#
        )
    );
    assert!(Document::from_gelf(&gelf("{}")).is_ok());
}

#[test]
fn sources_that_fail() {
    // A source fails the document even where an earlier one has a value.
    let failed = |other: &str| Document::from_gelf_in(&gelf(other), Some("2020")).err();
    assert_eq!(
        failed(r#"{"level": 6, "_PRIORITY": "high"}"#),
        Some(ConvertError::Unparsable)
    );
    assert_eq!(failed(r#"{"_PID": -1}"#), Some(ConvertError::Unrepresentable));
    assert_eq!(failed(r#"{"_PID": 1.5}"#), Some(ConvertError::Unrepresentable));
    assert_eq!(failed(r#"{"_PID": true}"#), Some(ConvertError::WrongKind));
    assert_eq!(failed(r#"{"_COMM": 5}"#), Some(ConvertError::WrongKind));
    assert_eq!(failed(r#"{"_ERRNO": 9223372036854775808}"#), Some(ConvertError::Unrepresentable));
    assert_eq!(failed(r#"{"_PID": "18446744073709551615"}"#), None);
    // The first column that fails is told, in the order of the columns.
    assert_eq!(
        failed(r#"{"_COMM": 5, "timestamp": "soon"}"#),
        Some(ConvertError::Unparsable)
    );
    assert_eq!(decode(ValueKind::I64, &value("7")), Ok(FieldValue::I64(7)));
    assert_eq!(decode(ValueKind::I64, &value("\"+7\"")), Ok(FieldValue::I64(7)));
    assert_eq!(decode(ValueKind::U64, &value("\"\"")), Err(ConvertError::Unparsable));
}

#[test]
fn sources_of_the_wrong_message() {
    let mut cols = columns();
    cols.truncate(1);
    cols[0].gelf = vec![FieldValueConversion::DateTimeToUsec("x".to_string())];
    assert_eq!(from_gelf_in(&cols, &gelf("{}"), Some("2020")), Ok(vec![None]));
    assert_eq!(
        from_gelf_in(&cols, &gelf("{\"x\": 1}"), Some("2020")),
        Err(ConvertError::WrongKind)
    );
    cols[0].gelf = vec![FieldValueConversion::Plain("version".to_string())];
    assert_eq!(
        from_gelf_in(&cols, &gelf("{}"), Some("2020")),
        Err(ConvertError::Unparsable)
    );
    let m = syslog(b"<13>x: y");
    cols[0].syslog = vec![FieldValueConversion::Plain("source_timestamp".to_string())];
    assert_eq!(from_syslog(&cols, &m), Err(ConvertError::WrongKind));
    cols[0].syslog = vec![FieldValueConversion::Plain("nowhere".to_string())];
    assert_eq!(from_syslog(&cols, &m), Ok(vec![None]));
    cols[0].syslog = vec![FieldValueConversion::Plain("message".to_string())];
    assert_eq!(from_syslog(&cols, &m), Err(ConvertError::WrongKind));
    cols[0].syslog = vec![FieldValueConversion::Plain("priority".to_string())];
    cols[0].kind = ValueKind::I64;
    assert_eq!(from_syslog(&cols, &m), Ok(vec![Some(FieldValue::I64(5))]));
    cols[0].kind = ValueKind::U64;
    assert_eq!(from_syslog(&cols, &m), Ok(vec![Some(FieldValue::U64(5))]));
    cols[0].kind = ValueKind::Text;
    assert_eq!(from_syslog(&cols, &m), Err(ConvertError::WrongKind));
    cols[0].kind = ValueKind::I64;
    cols[0].syslog = vec![FieldValueConversion::Plain("pid".to_string())];
    assert_eq!(from_syslog(&cols, &syslog(b"<13>x[7]: y")), Err(ConvertError::WrongKind));
    cols[0].syslog = vec![FieldValueConversion::HexToUint("priority".to_string())];
    assert_eq!(from_syslog(&cols, &m), Err(ConvertError::WrongKind));
}

#[test]
fn documents_from_syslog() {
    let m = syslog(b"<78>crond[926]: USER root");
    let d = Document::from_syslog(&m).unwrap();
    assert!(d.is_valid());
    assert!(d.lacks_hostname());
    assert_eq!(
        written(&d),
        parsed(
            r#"{"source_timestamp": 1591012800000000, "hostname": null, "message": "USER root",
               "priority": 6, "full_message": "<78>crond[926]: USER root", "facility": "cron",
               "syslog_identifier": "crond", "syslog_pid": 926}"#
        )
    );
    let far = SyslogMessage {
        source_timestamp: Timestamp { unix_nanos: None, ..noon() },
        ..syslog(b"x")
    };
    assert_eq!(Document::from_syslog(&far).err(), Some(ConvertError::OutOfRange));
}

#[test]
fn valid_documents() {
    let from = |text: &str| Document::from_hit(&object(text)).unwrap().is_valid();
    assert!(from(r#"{"source_timestamp": 1, "message": "m"}"#));
    assert!(!from(r#"{"source_timestamp": 0, "message": "m"}"#));
    assert!(!from(r#"{"source_timestamp": 1, "message": ""}"#));
    assert!(!from(r#"{"message": "m"}"#));
    assert!(!from(r#"{"source_timestamp": 1}"#));
}

#[test]
fn host_names_are_only_filled_in() {
    let mut d = Document::from_hit(&object(r#"{"message": "m"}"#)).unwrap();
    d.do_reverse_dns(None, "10.0.0.1".to_string());
    assert_eq!(written(&d)["hostname"], "10.0.0.1");
    d.do_reverse_dns(Some("other".to_string()), "10.0.0.2".to_string());
    assert_eq!(written(&d)["hostname"], "10.0.0.1");
    let mut d = Document::from_hit(&object(r#"{"message": "m"}"#)).unwrap();
    d.do_reverse_dns(Some("name".to_string()), "10.0.0.1".to_string());
    assert_eq!(
        written(&d),
        parsed(r#"{"source_timestamp": null, "hostname": "name", "message": "m"}"#)
    );
}

#[test]
fn written_documents_read_back() {
    let d = Document::from_gelf_in(
        &gelf(r#"{"timestamp": 5.5, "_ERRNO": -3, "_COMM": "c", "_PID": 18446744073709551615}"#),
        Some("2020"),
    )
    .unwrap();
    let text = written(&d).to_string();
    let back = Document::from_hit(&object(&text)).unwrap();
    assert_eq!(back.entries(), d.entries());
    assert_eq!(written(&back), written(&d));
}

#[test]
fn hits_that_are_no_documents() {
    let failed = |text: &str| Document::from_hit(&object(text)).err();
    assert_eq!(failed(r#"{"pid": "7"}"#), Some(ConvertError::WrongKind));
    assert_eq!(failed(r#"{"pid": -7}"#), Some(ConvertError::WrongKind));
    assert_eq!(failed(r#"{"comm": 7}"#), Some(ConvertError::WrongKind));
    assert_eq!(failed(r#"{"errno": 1e3}"#), Some(ConvertError::WrongKind));
    assert_eq!(failed(r#"{"comm": null, "whatever": {}}"#), None);
}

#[test]
fn columns_of_documents() {
    let cols = columns();
    assert_eq!(cols.len(), COLUMNS);
    assert_eq!(COLUMNS, 62);
    assert_eq!(ALWAYS_WRITTEN, 3);
    let names: Vec<&str> = cols.iter().map(|c| c.name.as_str()).collect();
    assert_eq!(&names[..4], &["source_timestamp", "hostname", "message", "priority"]);
    assert_eq!(names[61], "recv_mt_timestamp");
    let mut sorted = names.clone();
    sorted.sort();
    sorted.dedup();
    assert_eq!(sorted.len(), COLUMNS);
    assert_eq!(
        cols[0].gelf,
        vec![
            FieldValueConversion::FloatSecToUsec("timestamp".to_string()),
            FieldValueConversion::Plain("_SOURCE_REALTIME_TIMESTAMP".to_string()),
        ]
    );
}

#[test]
fn schemas_of_documents() {
    let schema = Document::tantivy_schema();
    assert_eq!(schema.fields().count(), COLUMNS);
    let text = serde_json::to_value(&schema).unwrap();
    assert_eq!(text[0]["name"], "source_timestamp");
    assert_eq!(text[0]["type"], "date");
    assert_eq!(text[0]["options"]["indexed"], true);
    assert_eq!(text[1]["type"], "text");
    assert_eq!(text[1]["options"]["indexing"]["tokenizer"], "raw");
    assert_eq!(text[2]["options"]["indexing"]["tokenizer"], "default");
    assert_eq!(text[3]["type"], "u64");
    assert_eq!(text[9]["type"], "i64");
    for i in 0..COLUMNS {
        assert_eq!(text[i]["options"]["stored"], true);
    }
}

#[test]
fn schemas_of_fields() {
    let field = |n: &str, k: StoredAs| (n.to_string(), k);
    let schema = build_schema(&vec![
        field("a", StoredAs::FastU64),
        field("b", StoredAs::FastDate),
        field("c", StoredAs::Date),
        field("d", StoredAs::I64),
    ]);
    let text = serde_json::to_value(&schema).unwrap();
    assert_eq!(text[0]["options"]["fast"], "single");
    assert_eq!(text[1]["type"], "date");
    assert_eq!(text[1]["options"]["fast"], "single");
    assert!(text[2]["options"]["fast"].is_null());
    assert_eq!(text[3]["type"], "i64");
    assert_eq!(build_schema(&vec![]).fields().count(), 0);
}

#[test]
fn mappings_of_documents() {
    let m = Document::quickwit_mapping();
    assert_eq!(m.len(), COLUMNS);
    assert_eq!(
        m[0],
        FieldMapping {
            name: "source_timestamp".to_string(),
            type_: "datetime".to_string(),
            input_formats: vec!["unix_timestamp".to_string()],
            precision: Some(DatePrecision::Microseconds),
            ..FieldMapping::default()
        }
    );
    assert_eq!(
        m[1],
        FieldMapping {
            name: "hostname".to_string(),
            type_: "text".to_string(),
            tokenizer: Some(Tokenizer::Raw),
            ..FieldMapping::default()
        }
    );
    assert_eq!(
        m[2],
        FieldMapping {
            name: "message".to_string(),
            type_: "text".to_string(),
            record: Some(RecordOption::Position),
            ..FieldMapping::default()
        }
    );
    assert_eq!(m[3].type_, "u64");
    assert_eq!(m[9].type_, "i64");
    assert!(m.iter().all(|f| f.stored && f.indexed && !f.fast && !f.fieldnorms));
    let mut cols = columns();
    cols.truncate(1);
    cols[0].storage = vec![TantivyType::FastTimestamp, TantivyType::JsonObject];
    let m = quickwit_mapping(&cols);
    assert!(m[0].fast);
    assert_eq!(m[1].type_, "json");
    assert_eq!(stored_fields(&cols).len(), 2);
}

#[test]
fn the_request_for_an_index() {
    let r = create_request("idx", Document::quickwit_mapping());
    assert_eq!(r.index_id, "idx");
    assert_eq!(r.doc_mapping.field_mappings.len(), COLUMNS);
    assert_eq!(r.doc_mapping.timestamp_field, "source_timestamp");
    assert_eq!(r.doc_mapping.mode, None);
    assert!(!r.doc_mapping.store_source);
    assert!(r.doc_mapping.tag_fields.is_empty());
    assert_eq!(r.retention.period, "90 days");
    assert_eq!(r.retention.schedule, "daily");
    assert_eq!(r.search_settings.default_search_fields, vec!["message", "full_message"]);
    assert_eq!(r.version, "0.5");
}

#[test]
fn addresses_and_steps() {
    assert_eq!(make_describe_uri("http://q", "i"), "http://q/api/v1/indexes/i/describe");
    assert_eq!(make_create_uri("http://q"), "http://q/api/v1/indexes");
    assert_eq!(make_ingest_uri("http://q", "i"), "http://q/api/v1/i/ingest");
    assert_eq!(after_describe(404), IndexStep::Create);
    assert_eq!(after_describe(200), IndexStep::Ready);
    assert_eq!(after_describe(500), IndexStep::Ready);
    assert!(is_success(200) && is_success(299) && !is_success(300) && !is_success(199));
    assert_eq!(strip_slash("http://q/"), "http://q");
    assert_eq!(strip_slash("http://q//"), "http://q/");
    assert_eq!(strip_slash("http://q"), "http://q");
    assert_eq!(strip_slash(""), "");
}

#[test]
fn waits_between_attempts() {
    let mut wait = 1;
    let mut waits = vec![];
    for _ in 0..7 {
        waits.push(wait);
        wait = backoff(wait);
    }
    assert_eq!(waits, [1, 2, 4, 8, 10, 10, 10]);
    assert_eq!(backoff(u64::MAX), 10);
    assert_eq!(backoff(0), 0);
}

#[test]
fn texts_of_documents() {
    let d = Document::from_hit(&object(
        r#"{"source_timestamp": 1591012800250000, "message": "m", "priority": 6,
            "cap_effective": 255, "errno": -3, "pid": 12}"#,
    ))
    .unwrap();
    let shown = d.to_display();
    let get = |n: &str| shown.get(n).map(|s| s.as_str());
    assert_eq!(shown.len(), 6);
    assert_eq!(get("source_timestamp"), Some("2020-06-01 12:00:00.250 UTC"));
    assert_eq!(get("message"), Some("m"));
    assert_eq!(get("priority"), Some("6 (Informational)"));
    assert_eq!(get("cap_effective"), Some("0xff"));
    assert_eq!(get("errno"), Some("-3"));
    assert_eq!(get("pid"), Some("12"));
    assert_eq!(get("hostname"), None);
}

#[test]
fn texts_of_values() {
    let names: Vec<&str> = (0..9).map(severity_name).collect();
    assert_eq!(
        names,
        [
            "Emergency", "Alert", "Critical", "Error", "Warning", "Notice", "Informational",
            "Debug", "Unknown"
        ]
    );
    assert_eq!(format_time(0), "1970-01-01 00:00:00 UTC");
    assert_eq!(format_time(u64::MAX), "");
    assert_eq!(time_or_empty(None), "");
    assert_eq!(time_or_empty(Some("t".to_string())), "t");
    let shown = |k: DisplayKind, v: FieldValue| display_value(k, &v);
    assert_eq!(shown(DisplayKind::SyslogPriority, FieldValue::I64(-1)), "-1 (Unknown)");
    assert_eq!(shown(DisplayKind::SyslogPriority, FieldValue::I64(2)), "2 (Critical)");
    assert_eq!(shown(DisplayKind::Hex, FieldValue::I64(-1)), "0xffffffffffffffff");
    assert_eq!(shown(DisplayKind::Hex, FieldValue::U64(0)), "0x0");
    assert_eq!(shown(DisplayKind::Number, FieldValue::I64(i64::MIN)), "-9223372036854775808");
    assert_eq!(shown(DisplayKind::Text, FieldValue::Text("t".to_string())), "t");
    assert_eq!(shown(DisplayKind::Debug, FieldValue::Text("a\"b".to_string())), "\"a\\\"b\"");
    assert_eq!(shown(DisplayKind::Debug, FieldValue::I64(-2)), "-2");
    assert_eq!(display_kind(TantivyType::Text, Some(FormatOption::Hex)), DisplayKind::Text);
    assert_eq!(display_kind(TantivyType::I64, Some(FormatOption::Hex)), DisplayKind::Hex);
    assert_eq!(display_kind(TantivyType::FastTimestamp, None), DisplayKind::Time);
    assert_eq!(display_kind(TantivyType::JsonObject, None), DisplayKind::Debug);
    let mut cols = columns();
    cols.truncate(2);
    cols[1].storage = vec![];
    let shown = show(&cols, &vec![None, Some(FieldValue::Text("x".to_string()))]);
    assert_eq!(shown.len(), 0);
}

#[test]
fn verdicts_on_messages() {
    let kept = Incoming::Gelf(gelf(r#"{"timestamp": 5}"#));
    assert!(matches!(judge_in(&kept, Some("2020")), Verdict::Keep(_)));
    let undated = Incoming::Gelf(gelf("{}"));
    assert!(matches!(judge_in(&undated, Some("2020")), Verdict::Invalid(_)));
    let broken = Incoming::Gelf(gelf(r#"{"timestamp": []}"#));
    assert!(matches!(judge(&broken), Verdict::Failed(ConvertError::WrongKind)));
    let line = Incoming::Syslog(syslog(b"<13>text"));
    assert!(matches!(judge(&line), Verdict::Keep(_)));
    let empty = Incoming::Syslog(syslog(b"<13>"));
    assert!(matches!(judge(&empty), Verdict::Invalid(_)));
}
