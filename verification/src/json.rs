//! Values of messages and of documents.
use vstd::prelude::*;

verus! {

/// A JSON number: how it is written, and what it is as an integer.
#[derive(Debug, PartialEq, Eq)]
pub struct JsonNumber {
    /// The number as JSON text.
    pub text: String,
    /// Its value as an unsigned number, where it is one.
    pub as_u64: Option<u64>,
    /// Its value as a signed number, where it is one.
    pub as_i64: Option<i64>,
    /// The whole microseconds in so many seconds, where that can be told.
    pub micros: Option<u64>,
}

/// A JSON string.
#[derive(Debug, PartialEq, Eq)]
pub struct JsonString {
    pub text: String,
    /// The whole microseconds in so many seconds, where the string is a number.
    pub micros: Option<u64>,
}

/// A JSON value. Of an array or an object only its text is kept.
#[derive(Debug, PartialEq, Eq)]
pub enum JsonValue {
    Null,
    Bool(bool),
    Number(JsonNumber),
    String(JsonString),
    Compound(String),
}

/// What a [`JsonValue`] stands for.
pub enum JsonView {
    Null,
    Bool(bool),
    Number { text: Seq<char>, as_u64: Option<u64>, as_i64: Option<i64>, micros: Option<u64> },
    String { text: Seq<char>, micros: Option<u64> },
    Compound(Seq<char>),
}

impl View for JsonValue {
    type V = JsonView;

    open spec fn view(&self) -> JsonView {
        match *self {
            JsonValue::Null => JsonView::Null,
            JsonValue::Bool(b) => JsonView::Bool(b),
            JsonValue::Number(n) => JsonView::Number {
                text: n.text@,
                as_u64: n.as_u64,
                as_i64: n.as_i64,
                micros: n.micros,
            },
            JsonValue::String(s) => JsonView::String { text: s.text@, micros: s.micros },
            JsonValue::Compound(t) => JsonView::Compound(t@),
        }
    }
}

/// The text of a value: of a string its characters, of any other value its JSON.
pub open spec fn plain_text(v: JsonView) -> Seq<char> {
    match v {
        JsonView::Null => "null"@,
        JsonView::Bool(true) => "true"@,
        JsonView::Bool(false) => "false"@,
        JsonView::Number { text, .. } => text,
        JsonView::String { text, .. } => text,
        JsonView::Compound(text) => text,
    }
}

impl JsonValue {
    /// The text of a value.
    pub fn to_text(&self) -> (res: String)
        ensures
            res@ == plain_text(self@),
    {
        match self {
            JsonValue::Null => "null".to_owned(),
            JsonValue::Bool(b) => if *b {
                "true".to_owned()
            } else {
                "false".to_owned()
            },
            JsonValue::Number(n) => n.text.clone(),
            JsonValue::String(s) => s.text.clone(),
            JsonValue::Compound(t) => t.clone(),
        }
    }
}

/// The value of a field of a document.
#[derive(Debug, PartialEq, Eq)]
pub enum FieldValue {
    Text(String),
    U64(u64),
    I64(i64),
}

/// What a [`FieldValue`] stands for.
pub enum FieldView {
    Text(Seq<char>),
    U64(u64),
    I64(i64),
}

impl View for FieldValue {
    type V = FieldView;

    open spec fn view(&self) -> FieldView {
        match *self {
            FieldValue::Text(t) => FieldView::Text(t@),
            FieldValue::U64(n) => FieldView::U64(n),
            FieldValue::I64(n) => FieldView::I64(n),
        }
    }
}

/// The optional value, seen through its view.
pub open spec fn opt_field(v: Option<FieldValue>) -> Option<FieldView> {
    match v {
        Some(f) => Some(f@),
        None => None,
    }
}

impl FieldValue {
    /// Copies a value.
    pub fn copy(&self) -> (res: FieldValue)
        ensures
            res@ == self@,
    {
        match self {
            FieldValue::Text(t) => FieldValue::Text(t.clone()),
            FieldValue::U64(n) => FieldValue::U64(*n),
            FieldValue::I64(n) => FieldValue::I64(*n),
        }
    }
}

} // verus!
