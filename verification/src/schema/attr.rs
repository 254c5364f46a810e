//! Attributes of document fields, and what they say.
use vstd::prelude::*;

use crate::text::str_eq;

verus! {

/// A field of a message that a document field is filled from, and how.
#[derive(Debug, PartialEq, Eq)]
pub enum FieldValueConversion {
    Plain(String),
    FloatSecToUsec(String),
    HexToUint(String),
    SyslogTimestamp(String),
    DateTimeToUsec(String),
}

/// What a [`FieldValueConversion`] stands for.
pub enum ConversionView {
    Plain(Seq<char>),
    FloatSecToUsec(Seq<char>),
    HexToUint(Seq<char>),
    SyslogTimestamp(Seq<char>),
    DateTimeToUsec(Seq<char>),
}

impl View for FieldValueConversion {
    type V = ConversionView;

    open spec fn view(&self) -> ConversionView {
        match *self {
            FieldValueConversion::Plain(f) => ConversionView::Plain(f@),
            FieldValueConversion::FloatSecToUsec(f) => ConversionView::FloatSecToUsec(f@),
            FieldValueConversion::HexToUint(f) => ConversionView::HexToUint(f@),
            FieldValueConversion::SyslogTimestamp(f) => ConversionView::SyslogTimestamp(f@),
            FieldValueConversion::DateTimeToUsec(f) => ConversionView::DateTimeToUsec(f@),
        }
    }
}

/// The conversions of a list, seen through their views.
pub open spec fn conversion_views(v: Seq<FieldValueConversion>) -> Seq<ConversionView> {
    Seq::new(v.len(), |i: int| v[i]@)
}

/// The conversion that a name denotes.
pub open spec fn conversion_of(field: Seq<char>, conversion: Seq<char>) -> Option<ConversionView> {
    if conversion == "none"@ {
        Some(ConversionView::Plain(field))
    } else if conversion == "float_sec_to_usec"@ {
        Some(ConversionView::FloatSecToUsec(field))
    } else if conversion == "hex_to_uint"@ {
        Some(ConversionView::HexToUint(field))
    } else if conversion == "syslog_timestamp"@ {
        Some(ConversionView::SyslogTimestamp(field))
    } else if conversion == "datetime_to_usec"@ {
        Some(ConversionView::DateTimeToUsec(field))
    } else {
        None
    }
}

impl FieldValueConversion {
    /// The conversion that a name denotes.
    pub fn from_attribute(fieldname: String, conversion: &str) -> (res: Option<Self>)
        ensures
            match (res, conversion_of(fieldname@, conversion@)) {
                (Some(c), Some(v)) => c@ == v,
                (None, None) => true,
                _ => false,
            },
    {
        if str_eq(conversion, "none") {
            Some(FieldValueConversion::Plain(fieldname))
        } else if str_eq(conversion, "float_sec_to_usec") {
            Some(FieldValueConversion::FloatSecToUsec(fieldname))
        } else if str_eq(conversion, "hex_to_uint") {
            Some(FieldValueConversion::HexToUint(fieldname))
        } else if str_eq(conversion, "syslog_timestamp") {
            Some(FieldValueConversion::SyslogTimestamp(fieldname))
        } else if str_eq(conversion, "datetime_to_usec") {
            Some(FieldValueConversion::DateTimeToUsec(fieldname))
        } else {
            None
        }
    }
}

/// How a document field is stored.
#[derive(Clone, Copy, Debug, PartialEq, Eq, Structural)]
pub enum TantivyType {
    String,
    Text,
    U64,
    I64,
    Timestamp,
    FastTimestamp,
    JsonObject,
}

impl TantivyType {
    /// The type that a name denotes.
    pub open spec fn of_attribute(attr: Seq<char>) -> Option<Self> {
        if attr == "string"@ {
            Some(TantivyType::String)
        } else if attr == "text"@ {
            Some(TantivyType::Text)
        } else if attr == "u64"@ {
            Some(TantivyType::U64)
        } else if attr == "i64"@ {
            Some(TantivyType::I64)
        } else if attr == "timestamp"@ {
            Some(TantivyType::Timestamp)
        } else if attr == "fast_timestamp"@ {
            Some(TantivyType::FastTimestamp)
        } else {
            None
        }
    }

    /// The type that a name denotes.
    pub fn from_attribute(attr: &str) -> (res: Option<Self>)
        ensures
            res == Self::of_attribute(attr@),
    {
        if str_eq(attr, "string") {
            Some(TantivyType::String)
        } else if str_eq(attr, "text") {
            Some(TantivyType::Text)
        } else if str_eq(attr, "u64") {
            Some(TantivyType::U64)
        } else if str_eq(attr, "i64") {
            Some(TantivyType::I64)
        } else if str_eq(attr, "timestamp") {
            Some(TantivyType::Timestamp)
        } else if str_eq(attr, "fast_timestamp") {
            Some(TantivyType::FastTimestamp)
        } else {
            None
        }
    }
}

/// How a number is shown.
#[derive(Clone, Copy, Debug, PartialEq, Eq, Structural)]
pub enum FormatOption {
    SyslogPriority,
    Hex,
}

impl FormatOption {
    /// The format that a name denotes.
    pub open spec fn of_attribute(attr: Seq<char>) -> Option<Self> {
        if attr == "syslog_priority"@ {
            Some(FormatOption::SyslogPriority)
        } else if attr == "hex"@ {
            Some(FormatOption::Hex)
        } else {
            None
        }
    }

    /// The format that a name denotes.
    pub fn from_attribute(attr: &str) -> (res: Option<Self>)
        ensures
            res == Self::of_attribute(attr@),
    {
        if str_eq(attr, "syslog_priority") {
            Some(FormatOption::SyslogPriority)
        } else if str_eq(attr, "hex") {
            Some(FormatOption::Hex)
        } else {
            None
        }
    }
}

/// An argument in the list of an attribute. A path is kept where it is a single
/// identifier.
#[derive(Debug, PartialEq, Eq)]
pub enum InnerAttr {
    /// A path alone.
    Path(Option<String>),
    /// A path with a string.
    NameStr(Option<String>, String),
    /// A string.
    Str(String),
    /// Anything else.
    Other,
}

/// What an [`InnerAttr`] stands for.
pub enum InnerView {
    Path(Option<Seq<char>>),
    NameStr(Option<Seq<char>>, Seq<char>),
    Str(Seq<char>),
    Other,
}

/// The optional text, seen through its view.
pub open spec fn opt_name(s: Option<String>) -> Option<Seq<char>> {
    match s {
        Some(t) => Some(t@),
        None => None,
    }
}

impl View for InnerAttr {
    type V = InnerView;

    open spec fn view(&self) -> InnerView {
        match *self {
            InnerAttr::Path(p) => InnerView::Path(opt_name(p)),
            InnerAttr::NameStr(p, s) => InnerView::NameStr(opt_name(p), s@),
            InnerAttr::Str(s) => InnerView::Str(s@),
            InnerAttr::Other => InnerView::Other,
        }
    }
}

/// The conversion that an argument asks for: a field name alone, a field name with
/// the name of a conversion, or a field name as a string.
pub open spec fn inner_conversion(inner: InnerView) -> Option<ConversionView> {
    match inner {
        InnerView::Path(Some(name)) => conversion_of(name, "none"@),
        InnerView::NameStr(Some(name), conversion) => conversion_of(name, conversion),
        InnerView::Str(name) => conversion_of(name, "none"@),
        _ => None,
    }
}

/// The conversion that an argument asks for.
pub fn process_inner_attr(inner: &InnerAttr) -> (res: Option<FieldValueConversion>)
    ensures
        match (res, inner_conversion(inner@)) {
            (Some(c), Some(v)) => c@ == v,
            (None, None) => true,
            _ => false,
        },
{
    match inner {
        InnerAttr::Path(Some(name)) => FieldValueConversion::from_attribute(name.clone(), "none"),
        InnerAttr::NameStr(Some(name), conversion) => FieldValueConversion::from_attribute(
            name.clone(),
            conversion.as_str(),
        ),
        InnerAttr::Str(name) => FieldValueConversion::from_attribute(name.clone(), "none"),
        _ => None,
    }
}

} // verus!
