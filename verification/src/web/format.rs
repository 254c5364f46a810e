//! The values of documents as a page shows them.
use vstd::prelude::*;

use crate::fieldmap::FieldMap;
use crate::json::{plain_text, JsonValue, JsonView};
use crate::number::{digits, to_hex};
use crate::schema::display::{format_time, severity, severity_name, time_text};
use crate::text::str_eq;
use crate::toshi::schema::{by_name, get_our_schema_map, our_schema, FieldType, OurSchema};

verus! {

/// The severity that a number stands for, where it is an unsigned one.
pub open spec fn severity_of(n: Option<u64>) -> Seq<char> {
    match n {
        Some(n) => severity(n as int),
        None => "None"@,
    }
}

/// The severity that a number stands for.
pub fn lookup_severity(n: Option<u64>) -> (res: &'static str)
    ensures
        res@ == severity_of(n),
{
    match n {
        Some(n) => severity_name(n),
        None => "None",
    }
}

/// The type of a field of documents.
pub open spec fn field_type(name: Seq<char>) -> Option<FieldType> {
    if by_name(our_schema()).contains_key(name) {
        Some(by_name(our_schema())[name].kind)
    } else {
        None
    }
}

/// The error for a time that is not a number of the kind.
pub open spec fn not_a_number(name: Seq<char>, kind: Seq<char>) -> Seq<char> {
    "Can't get "@ + name + " as "@ + kind
}

/// The error for a field that documents do not have.
pub open spec fn no_such_field(name: Seq<char>) -> Seq<char> {
    "No such field named "@ + name + " in schema"@
}

/// A value of a field as text: times as dates, priorities with their severity,
/// capabilities in base sixteen, and everything else as it is.
pub open spec fn formatted(v: JsonView, name: Seq<char>) -> Result<Seq<char>, Seq<char>> {
    match (field_type(name), v) {
        (Some(FieldType::Timestamp), JsonView::Number { as_u64, .. }) => match as_u64 {
            Some(n) => Ok(time_text(n)),
            None => Err(not_a_number(name, "u64"@)),
        },
        (Some(kind), JsonView::Number { text, as_u64, .. }) => if name == "priority"@ {
            Ok(text + " ("@ + severity_of(as_u64) + ")"@)
        } else if name == "cap_effective"@ && kind == FieldType::U64 {
            match as_u64 {
                Some(n) => Ok("0x"@ + digits(n as nat, 16)),
                None => Ok(text),
            }
        } else {
            Ok(text)
        },
        (Some(_), v) => Ok(plain_text(v)),
        (None, _) => Err(no_such_field(name)),
    }
}

/// A value that a document may have, as text; nothing where it has none.
pub open spec fn formatted_field(v: Option<JsonView>, name: Seq<char>) -> Result<
    Seq<char>,
    Seq<char>,
> {
    match v {
        Some(v) => formatted(v, name),
        None => Ok(""@),
    }
}

/// A text or an error, seen through its view.
pub open spec fn text_result(r: Result<String, String>) -> Result<Seq<char>, Seq<char>> {
    match r {
        Ok(s) => Ok(s@),
        Err(e) => Err(e@),
    }
}

/// The optional value, seen through its view.
pub open spec fn opt_json(v: Option<&JsonValue>) -> Option<JsonView> {
    match v {
        Some(j) => Some(j@),
        None => None,
    }
}

/// The error for a time that is not a number of the kind.
fn number_error(name: &str, kind: &str) -> (res: String)
    ensures
        res@ == not_a_number(name@, kind@),
{
    let mut e = "Can't get ".to_owned();
    e.append(name);
    e.append(" as ");
    e.append(kind);
    e
}

/// The error for a field that documents do not have.
fn field_error(name: &str) -> (res: String)
    ensures
        res@ == no_such_field(name@),
{
    let mut e = "No such field named ".to_owned();
    e.append(name);
    e.append(" in schema");
    e
}

/// The type of a field of documents.
fn type_of(schema: &FieldMap<OurSchema>, name: &str) -> (res: Option<FieldType>)
    requires
        schema@ == by_name(our_schema()),
    ensures
        res == field_type(name@),
{
    match schema.get(name) {
        Some(e) => Some(*e.get_type()),
        None => None,
    }
}

/// Writes a value of a field as text.
pub fn format_value(val: Option<&JsonValue>, field_name: &str) -> (res: Result<String, String>)
    ensures
        text_result(res) == formatted_field(opt_json(val), field_name@),
{
    let v: &JsonValue = match val {
        Some(v) => v,
        None => {
            return Ok("".to_owned());
        },
    };
    let schema = get_our_schema_map();
    let kind: FieldType = match type_of(&schema, field_name) {
        Some(kind) => kind,
        None => {
            return Err(field_error(field_name));
        },
    };
    match v {
        JsonValue::Number(n) => {
            if kind == FieldType::Timestamp {
                return match n.as_u64 {
                    Some(micros) => Ok(format_time(micros)),
                    None => Err(number_error(field_name, "u64")),
                };
            }
            if str_eq(field_name, "priority") {
                let mut res = n.text.clone();
                res.append(" (");
                res.append(lookup_severity(n.as_u64));
                res.append(")");
                return Ok(res);
            }
            if str_eq(field_name, "cap_effective") && kind == FieldType::U64 {
                return match n.as_u64 {
                    Some(m) => {
                        let mut res = "0x".to_owned();
                        res.append(to_hex(m).as_str());
                        Ok(res)
                    },
                    None => Ok(n.text.clone()),
                };
            }
            Ok(n.text.clone())
        },
        v => Ok(v.to_text()),
    }
}

/// A value of a field as text where times count seconds: `time` is the text of one
/// that is a number.
pub open spec fn formatted_seconds(
    v: JsonView,
    name: Seq<char>,
    time: Option<Seq<char>>,
) -> Result<Seq<char>, Seq<char>> {
    match (field_type(name), v) {
        (Some(FieldType::Timestamp), JsonView::Number { .. }) => match time {
            Some(t) => Ok(t),
            None => Err(not_a_number(name, "f64"@)),
        },
        (Some(_), v) => Ok(plain_text(v)),
        (None, _) => Err(no_such_field(name)),
    }
}

/// Writes a value of a field as text where times count seconds: `time` is the text of
/// one that is a number.
pub fn format_seconds(val: Option<&JsonValue>, field_name: &str, time: Option<String>) -> (res:
    Result<String, String>)
    ensures
        text_result(res) == (match opt_json(val) {
            Some(v) => formatted_seconds(
                v,
                field_name@,
                match time {
                    Some(t) => Some(t@),
                    None => None,
                },
            ),
            None => Ok(""@),
        }),
{
    let v: &JsonValue = match val {
        Some(v) => v,
        None => {
            return Ok("".to_owned());
        },
    };
    let schema = get_our_schema_map();
    match type_of(&schema, field_name) {
        Some(FieldType::Timestamp) => match v {
            JsonValue::Number(_) => match time {
                Some(t) => Ok(t),
                None => Err(number_error(field_name, "f64")),
            },
            v => Ok(v.to_text()),
        },
        Some(_) => Ok(v.to_text()),
        None => Err(field_error(field_name)),
    }
}

} // verus!
