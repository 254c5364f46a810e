//! The code that a declaration of documents stands for, as a plan to be written out.
use vstd::prelude::*;

use crate::quickwit::{
    default_mapping, mapping_views, DatePrecision, FieldMapping, MappingView, RecordOption,
    Tokenizer,
};
use crate::schema::attr::{
    conversion_views, ConversionView, FieldValueConversion, FormatOption, TantivyType,
};
use crate::schema::column::{
    column_views, columns_of, derive_columns, Column, ColumnView, DeclView, DeriveError, FieldDecl,
};
use crate::text::{str_eq, texts};

verus! {

// ---------------------------------------------------------------------------
// Filling a document
// ---------------------------------------------------------------------------

/// How a field of a message is reached.
#[derive(Debug, PartialEq, Eq)]
pub enum Accessor {
    /// A field that every GELF message has, wrapped as a JSON string.
    GelfField(String),
    /// A field that a GELF message may have.
    GelfOther(String),
    /// A field that every syslog message has.
    SyslogPresent(String),
    /// A field that a syslog message may have.
    SyslogOptional(String),
}

/// What an [`Accessor`] stands for.
pub enum AccessorView {
    GelfField(Seq<char>),
    GelfOther(Seq<char>),
    SyslogPresent(Seq<char>),
    SyslogOptional(Seq<char>),
}

impl View for Accessor {
    type V = AccessorView;

    open spec fn view(&self) -> AccessorView {
        match *self {
            Accessor::GelfField(f) => AccessorView::GelfField(f@),
            Accessor::GelfOther(f) => AccessorView::GelfOther(f@),
            Accessor::SyslogPresent(f) => AccessorView::SyslogPresent(f@),
            Accessor::SyslogOptional(f) => AccessorView::SyslogOptional(f@),
        }
    }
}

/// Whether every GELF message has the field.
pub open spec fn in_every_gelf(field: Seq<char>) -> bool {
    field == "version"@ || field == "host"@ || field == "short_message"@
}

/// Whether every syslog message has the field.
pub open spec fn in_every_syslog(field: Seq<char>) -> bool {
    field == "priority"@ || field == "facility"@ || field == "source_timestamp"@ || field
        == "message"@ || field == "full_message"@
}

/// How a field of a GELF message is reached.
pub open spec fn gelf_access(field: Seq<char>) -> AccessorView {
    if in_every_gelf(field) {
        AccessorView::GelfField(field)
    } else {
        AccessorView::GelfOther(field)
    }
}

/// How a field of a syslog message is reached.
pub open spec fn syslog_access(field: Seq<char>) -> AccessorView {
    if in_every_syslog(field) {
        AccessorView::SyslogPresent(field)
    } else {
        AccessorView::SyslogOptional(field)
    }
}

/// How a field of a message is reached.
pub open spec fn access(field: Seq<char>, syslog: bool) -> AccessorView {
    if syslog {
        syslog_access(field)
    } else {
        gelf_access(field)
    }
}

/// How a field of a GELF message is reached.
pub fn gelf_accessor(field: &str) -> (res: Accessor)
    ensures
        res@ == gelf_access(field@),
{
    if str_eq(field, "version") || str_eq(field, "host") || str_eq(field, "short_message") {
        Accessor::GelfField(field.to_owned())
    } else {
        Accessor::GelfOther(field.to_owned())
    }
}

/// How a field of a syslog message is reached.
pub fn syslog_accessor(field: &str) -> (res: Accessor)
    ensures
        res@ == syslog_access(field@),
{
    if str_eq(field, "priority") || str_eq(field, "facility") || str_eq(field, "source_timestamp")
        || str_eq(field, "message") || str_eq(field, "full_message") {
        Accessor::SyslogPresent(field.to_owned())
    } else {
        Accessor::SyslogOptional(field.to_owned())
    }
}

/// The functions that convert values.
#[derive(Clone, Copy, Debug, PartialEq, Eq, Structural)]
pub enum Converter {
    FloatSecToUsec,
    HexToUint,
    SyslogTimestamp,
    DateTimeToUsec,
}

/// How a source gives its value.
#[derive(Debug, PartialEq, Eq)]
pub enum SourceExpr {
    /// The value as the document field's own type, read from its text where it is a
    /// string of something else. It may fail.
    Decoded(Accessor),
    /// The value itself.
    Taken(Accessor),
    /// What a function makes of the value, which is first turned into JSON where
    /// `via_json` says so. It may fail where `fallible` says so.
    Converted { accessor: Accessor, via_json: bool, converter: Converter, fallible: bool },
}

/// What a [`SourceExpr`] stands for.
pub enum SourceView {
    Decoded(AccessorView),
    Taken(AccessorView),
    Converted { accessor: AccessorView, via_json: bool, converter: Converter, fallible: bool },
}

impl View for SourceExpr {
    type V = SourceView;

    open spec fn view(&self) -> SourceView {
        match *self {
            SourceExpr::Decoded(a) => SourceView::Decoded(a@),
            SourceExpr::Taken(a) => SourceView::Taken(a@),
            SourceExpr::Converted { accessor, via_json, converter, fallible } => {
                SourceView::Converted { accessor: accessor@, via_json, converter, fallible }
            },
        }
    }
}

/// The sources of a list, seen through their views.
pub open spec fn source_views(v: Seq<SourceExpr>) -> Seq<SourceView> {
    Seq::new(v.len(), |i: int| v[i]@)
}

/// How a source gives its value. Only the conversion of a point in time cannot fail.
pub open spec fn source_of(c: ConversionView, syslog: bool) -> SourceView {
    match c {
        ConversionView::Plain(f) => if syslog {
            SourceView::Taken(syslog_access(f))
        } else {
            SourceView::Decoded(gelf_access(f))
        },
        ConversionView::FloatSecToUsec(f) => SourceView::Converted {
            accessor: access(f, syslog),
            via_json: syslog,
            converter: Converter::FloatSecToUsec,
            fallible: true,
        },
        ConversionView::HexToUint(f) => SourceView::Converted {
            accessor: access(f, syslog),
            via_json: syslog,
            converter: Converter::HexToUint,
            fallible: true,
        },
        ConversionView::SyslogTimestamp(f) => SourceView::Converted {
            accessor: access(f, syslog),
            via_json: syslog,
            converter: Converter::SyslogTimestamp,
            fallible: true,
        },
        ConversionView::DateTimeToUsec(f) => SourceView::Converted {
            accessor: access(f, syslog),
            via_json: false,
            converter: Converter::DateTimeToUsec,
            fallible: false,
        },
    }
}

/// How a field of a message is reached.
fn make_accessor(field: &str, syslog: bool) -> (res: Accessor)
    ensures
        res@ == access(field@, syslog),
{
    if syslog {
        syslog_accessor(field)
    } else {
        gelf_accessor(field)
    }
}

impl FieldValueConversion {
    /// How the source gives its value.
    pub fn conversion_expr(&self, syslog: bool) -> (res: SourceExpr)
        ensures
            res@ == source_of(self@, syslog),
    {
        match self {
            FieldValueConversion::Plain(f) => if syslog {
                SourceExpr::Taken(syslog_accessor(f.as_str()))
            } else {
                SourceExpr::Decoded(gelf_accessor(f.as_str()))
            },
            FieldValueConversion::FloatSecToUsec(f) => SourceExpr::Converted {
                accessor: make_accessor(f.as_str(), syslog),
                via_json: syslog,
                converter: Converter::FloatSecToUsec,
                fallible: true,
            },
            FieldValueConversion::HexToUint(f) => SourceExpr::Converted {
                accessor: make_accessor(f.as_str(), syslog),
                via_json: syslog,
                converter: Converter::HexToUint,
                fallible: true,
            },
            FieldValueConversion::SyslogTimestamp(f) => SourceExpr::Converted {
                accessor: make_accessor(f.as_str(), syslog),
                via_json: syslog,
                converter: Converter::SyslogTimestamp,
                fallible: true,
            },
            FieldValueConversion::DateTimeToUsec(f) => SourceExpr::Converted {
                accessor: make_accessor(f.as_str(), syslog),
                via_json: false,
                converter: Converter::DateTimeToUsec,
                fallible: false,
            },
        }
    }
}

/// How a document field is filled: from the first of its sources that gives a value.
#[derive(Debug, PartialEq, Eq)]
pub struct Constructor {
    pub dest_field: String,
    pub sources: Vec<SourceExpr>,
}

/// What a [`Constructor`] stands for.
#[verifier::ext_equal]
pub struct ConstructorView {
    pub dest_field: Seq<char>,
    pub sources: Seq<SourceView>,
}

impl View for Constructor {
    type V = ConstructorView;

    open spec fn view(&self) -> ConstructorView {
        ConstructorView { dest_field: self.dest_field@, sources: source_views(self.sources@) }
    }
}

/// The constructors of a list, seen through their views.
pub open spec fn constructor_views(v: Seq<Constructor>) -> Seq<ConstructorView> {
    Seq::new(v.len(), |i: int| v[i]@)
}

/// How a document field is filled from the fields of a message.
pub open spec fn construction(
    dest: Seq<char>,
    sources: Seq<ConversionView>,
    syslog: bool,
) -> ConstructorView {
    ConstructorView {
        dest_field: dest,
        sources: Seq::new(sources.len(), |i: int| source_of(sources[i], syslog)),
    }
}

/// How a document field is filled from the fields of a message.
pub fn constructor_expr(
    dest_field: &str,
    source_fields: &Vec<FieldValueConversion>,
    syslog: bool,
) -> (res: Constructor)
    ensures
        res@ == construction(dest_field@, conversion_views(source_fields@), syslog),
{
    let ghost views = conversion_views(source_fields@);
    let mut sources: Vec<SourceExpr> = Vec::new();
    let mut i: usize = 0;
    while i < source_fields.len()
        invariant
            i <= source_fields@.len(),
            sources@.len() == i,
            views == conversion_views(source_fields@),
            forall|k: int| 0 <= k < i ==> (#[trigger] sources@[k])@ == source_of(views[k], syslog),
        decreases source_fields@.len() - i,
    {
        sources.push(source_fields[i].conversion_expr(syslog));
        i = i + 1;
    }
    let res = Constructor { dest_field: dest_field.to_owned(), sources };
    assert(res@ =~= construction(dest_field@, views, syslog));
    res
}

/// How the fields of a document are filled.
pub open spec fn constructions(columns: Seq<ColumnView>, syslog: bool) -> Seq<ConstructorView> {
    Seq::new(
        columns.len(),
        |i: int|
            construction(
                columns[i].name,
                if syslog {
                    columns[i].syslog
                } else {
                    columns[i].gelf
                },
                syslog,
            ),
    )
}

/// How the fields of a document are filled.
fn constructor_exprs(columns: &Vec<Column>, syslog: bool) -> (res: Vec<Constructor>)
    ensures
        constructor_views(res@) == constructions(column_views(columns@), syslog),
{
    let ghost want = constructions(column_views(columns@), syslog);
    let mut res: Vec<Constructor> = Vec::new();
    let mut i: usize = 0;
    while i < columns.len()
        invariant
            i <= columns@.len(),
            res@.len() == i,
            want == constructions(column_views(columns@), syslog),
            forall|k: int| 0 <= k < i ==> (#[trigger] res@[k])@ == want[k],
        decreases columns@.len() - i,
    {
        let c = &columns[i];
        let made = if syslog {
            constructor_expr(c.name.as_str(), &c.syslog, true)
        } else {
            constructor_expr(c.name.as_str(), &c.gelf, false)
        };
        assert(made@ == want[i as int]);
        res.push(made);
        i = i + 1;
    }
    assert(constructor_views(res@) =~= want);
    res
}

// ---------------------------------------------------------------------------
// Storing a document
// ---------------------------------------------------------------------------

/// The stored fields of the columns, in order: a name and a type.
pub open spec fn stored(columns: Seq<ColumnView>) -> Seq<(Seq<char>, TantivyType)>
    decreases columns.len(),
{
    if columns.len() == 0 {
        Seq::empty()
    } else {
        let c = columns.last();
        stored(columns.drop_last()) + Seq::new(c.storage.len(), |i: int| (c.name, c.storage[i]))
    }
}

/// The stored fields of a list, seen through their views.
pub open spec fn stored_views(v: Seq<(String, TantivyType)>) -> Seq<(Seq<char>, TantivyType)> {
    Seq::new(v.len(), |i: int| (v[i].0@, v[i].1))
}

/// The stored fields of the columns, in order.
pub fn stored_fields(columns: &Vec<Column>) -> (res: Vec<(String, TantivyType)>)
    ensures
        stored_views(res@) == stored(column_views(columns@)),
{
    let ghost views = column_views(columns@);
    let mut res: Vec<(String, TantivyType)> = Vec::new();
    let mut i: usize = 0;
    assert(views.take(0) =~= Seq::<ColumnView>::empty());
    assert(stored_views(res@) =~= Seq::<(Seq<char>, TantivyType)>::empty());
    while i < columns.len()
        invariant
            i <= columns@.len(),
            views == column_views(columns@),
            stored_views(res@) == stored(views.take(i as int)),
        decreases columns@.len() - i,
    {
        let c = &columns[i];
        let ghost before = stored_views(res@);
        let mut j: usize = 0;
        assert(before + Seq::new(0, |k: int| (c.name@, c.storage@[k])) =~= before);
        while j < c.storage.len()
            invariant
                j <= c.storage@.len(),
                stored_views(res@) == before + Seq::new(
                    j as nat,
                    |k: int| (c.name@, c.storage@[k]),
                ),
            decreases c.storage@.len() - j,
        {
            let ghost done = stored_views(res@);
            let t: TantivyType = c.storage[j];
            res.push((c.name.clone(), t));
            assert(stored_views(res@) =~= done.push((c.name@, t)));
            assert(stored_views(res@) =~= before + Seq::new(
                (j + 1) as nat,
                |k: int| (c.name@, c.storage@[k]),
            ));
            j = j + 1;
        }
        proof {
            let next = views.take(i + 1);
            assert(next.drop_last() =~= views.take(i as int));
            assert(next.last() == c@);
            assert(Seq::new(j as nat, |k: int| (c.name@, c.storage@[k])) =~= Seq::new(
                c@.storage.len(),
                |k: int| (c@.name, c@.storage[k]),
            ));
        }
        i = i + 1;
    }
    assert(views.take(i as int) =~= views);
    res
}

/// How a field is mapped, by the way it is stored.
pub open spec fn mapping_of(name: Seq<char>, t: TantivyType) -> MappingView {
    let d = MappingView { name, ..default_mapping() };
    match t {
        TantivyType::String => MappingView {
            type_: "text"@,
            tokenizer: Some(Tokenizer::Raw),
            ..d
        },
        TantivyType::Text => MappingView {
            type_: "text"@,
            record: Some(RecordOption::Position),
            ..d
        },
        TantivyType::U64 => MappingView { type_: "u64"@, ..d },
        TantivyType::I64 => MappingView { type_: "i64"@, ..d },
        TantivyType::Timestamp => MappingView {
            type_: "datetime"@,
            input_formats: seq!["unix_timestamp"@],
            fast: false,
            precision: Some(DatePrecision::Microseconds),
            ..d
        },
        TantivyType::FastTimestamp => MappingView {
            type_: "datetime"@,
            input_formats: seq!["unix_timestamp"@],
            fast: true,
            precision: Some(DatePrecision::Microseconds),
            ..d
        },
        TantivyType::JsonObject => MappingView { type_: "json"@, ..d },
    }
}

/// How a field is mapped, by the way it is stored.
fn make_mapping(name: &str, t: TantivyType) -> (res: FieldMapping)
    ensures
        res@ == mapping_of(name@, t),
{
    let mut res = FieldMapping::default();
    res.name = name.to_owned();
    match t {
        TantivyType::String => {
            res.type_ = "text".to_owned();
            res.tokenizer = Some(Tokenizer::Raw);
        },
        TantivyType::Text => {
            res.type_ = "text".to_owned();
            res.record = Some(RecordOption::Position);
        },
        TantivyType::U64 => {
            res.type_ = "u64".to_owned();
        },
        TantivyType::I64 => {
            res.type_ = "i64".to_owned();
        },
        TantivyType::Timestamp => {
            res.type_ = "datetime".to_owned();
            res.input_formats = unix_format();
            res.precision = Some(DatePrecision::Microseconds);
        },
        TantivyType::FastTimestamp => {
            res.type_ = "datetime".to_owned();
            res.input_formats = unix_format();
            res.fast = true;
            res.precision = Some(DatePrecision::Microseconds);
        },
        TantivyType::JsonObject => {
            res.type_ = "json".to_owned();
        },
    }
    res
}

/// The one format in which dates come.
fn unix_format() -> (res: Vec<String>)
    ensures
        texts(res@) == seq!["unix_timestamp"@],
{
    let mut res: Vec<String> = Vec::new();
    res.push("unix_timestamp".to_owned());
    assert(texts(res@) =~= seq!["unix_timestamp"@]);
    res
}

/// How the stored fields of the columns are mapped.
pub open spec fn mapping(columns: Seq<ColumnView>) -> Seq<MappingView> {
    let fields = stored(columns);
    Seq::new(fields.len(), |i: int| mapping_of(fields[i].0, fields[i].1))
}

/// How the stored fields of the columns are mapped.
pub fn quickwit_mapping(columns: &Vec<Column>) -> (res: Vec<FieldMapping>)
    ensures
        mapping_views(res@) == mapping(column_views(columns@)),
{
    let fields = stored_fields(columns);
    let ghost views = stored(column_views(columns@));
    let mut res: Vec<FieldMapping> = Vec::new();
    let mut i: usize = 0;
    while i < fields.len()
        invariant
            i <= fields@.len(),
            res@.len() == i,
            stored_views(fields@) == views,
            forall|k: int|
                0 <= k < i ==> (#[trigger] res@[k])@ == mapping_of(views[k].0, views[k].1),
        decreases fields@.len() - i,
    {
        assert(views[i as int] == (fields@[i as int].0@, fields@[i as int].1));
        res.push(make_mapping(fields[i].0.as_str(), fields[i].1));
        i = i + 1;
    }
    assert(mapping_views(res@) =~= mapping(column_views(columns@)));
    res
}

// ---------------------------------------------------------------------------
// Showing a document
// ---------------------------------------------------------------------------

/// How a value is shown.
#[derive(Clone, Copy, Debug, PartialEq, Eq, Structural)]
pub enum DisplayKind {
    /// As it is.
    Text,
    /// As a number and the severity it stands for.
    SyslogPriority,
    /// In base sixteen.
    Hex,
    /// In decimal.
    Number,
    /// As a date and time in UTC.
    Time,
    /// As the program prints it.
    Debug,
}

/// How a value is shown, by the way it is stored and the format it is given.
pub open spec fn display_of(t: TantivyType, format: Option<FormatOption>) -> DisplayKind {
    match t {
        TantivyType::String | TantivyType::Text => DisplayKind::Text,
        TantivyType::U64 | TantivyType::I64 => match format {
            Some(FormatOption::SyslogPriority) => DisplayKind::SyslogPriority,
            Some(FormatOption::Hex) => DisplayKind::Hex,
            None => DisplayKind::Number,
        },
        TantivyType::Timestamp | TantivyType::FastTimestamp => DisplayKind::Time,
        TantivyType::JsonObject => DisplayKind::Debug,
    }
}

/// How a value is shown, by the way it is stored and the format it is given.
pub fn display_kind(t: TantivyType, format: Option<FormatOption>) -> (res: DisplayKind)
    ensures
        res == display_of(t, format),
{
    match t {
        TantivyType::String | TantivyType::Text => DisplayKind::Text,
        TantivyType::U64 | TantivyType::I64 => match format {
            Some(FormatOption::SyslogPriority) => DisplayKind::SyslogPriority,
            Some(FormatOption::Hex) => DisplayKind::Hex,
            None => DisplayKind::Number,
        },
        TantivyType::Timestamp | TantivyType::FastTimestamp => DisplayKind::Time,
        TantivyType::JsonObject => DisplayKind::Debug,
    }
}

// ---------------------------------------------------------------------------
// The whole plan
// ---------------------------------------------------------------------------

/// The code that a declaration stands for.
#[derive(Debug, PartialEq, Eq)]
pub struct Generated {
    /// How each field is filled from a GELF message.
    pub from_gelf: Vec<Constructor>,
    /// How each field is filled from a syslog message.
    pub from_syslog: Vec<Constructor>,
    /// The stored fields.
    pub stored: Vec<(String, TantivyType)>,
    /// How they are mapped.
    pub mapping: Vec<FieldMapping>,
    /// The columns themselves.
    pub columns: Vec<Column>,
}

/// Whether a plan is the one for the columns.
pub open spec fn plans(g: Generated, columns: Seq<ColumnView>) -> bool {
    &&& constructor_views(g.from_gelf@) == constructions(columns, false)
    &&& constructor_views(g.from_syslog@) == constructions(columns, true)
    &&& stored_views(g.stored@) == stored(columns)
    &&& mapping_views(g.mapping@) == mapping(columns)
    &&& column_views(g.columns@) == columns
}

/// What a declaration comes to: that of a struct with named fields, or of something
/// else.
pub open spec fn declared(decls: Option<Seq<DeclView>>) -> Result<Seq<ColumnView>, DeriveError> {
    match decls {
        Some(d) => columns_of(d),
        None => Err(DeriveError::NotNamedStruct),
    }
}

/// The declarations of a list, seen through their views.
pub open spec fn decl_views(decls: Option<Vec<FieldDecl>>) -> Option<Seq<DeclView>> {
    match decls {
        Some(d) => Some(Seq::new(d@.len(), |i: int| d@[i]@)),
        None => None,
    }
}

/// The code that a declaration stands for; `None` is the declaration of something
/// else than a struct with named fields.
pub fn derive_yaffle_schema(decls: Option<Vec<FieldDecl>>) -> (res: Result<Generated, DeriveError>)
    ensures
        match (res, declared(decl_views(decls))) {
            (Ok(g), Ok(columns)) => plans(g, columns),
            (Err(e), Err(f)) => e == f,
            _ => false,
        },
{
    match decls {
        Some(d) => match derive_columns(&d) {
            Ok(columns) => Ok(
                Generated {
                    from_gelf: constructor_exprs(&columns, false),
                    from_syslog: constructor_exprs(&columns, true),
                    stored: stored_fields(&columns),
                    mapping: quickwit_mapping(&columns),
                    columns,
                },
            ),
            Err(e) => Err(e),
        },
        None => Err(DeriveError::NotNamedStruct),
    }
}

} // verus!
