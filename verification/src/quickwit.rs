//! What the Quickwit search engine is told of documents.
use vstd::prelude::*;

use crate::text::texts;

verus! {

/// How a text is cut into terms.
#[derive(Clone, Copy, Debug, PartialEq, Eq, Structural)]
pub enum Tokenizer {
    Default,
    Raw,
    EnglishStem,
    ChineseCompatible,
}

/// How much is recorded of the terms of a text.
#[derive(Clone, Copy, Debug, PartialEq, Eq, Structural)]
pub enum RecordOption {
    Basic,
    Frequency,
    Position,
}

/// How precisely a date is kept.
#[derive(Clone, Copy, Debug, PartialEq, Eq, Structural)]
pub enum DatePrecision {
    Seconds,
    Milliseconds,
    Microseconds,
}

/// How a date is given back.
#[derive(Clone, Copy, Debug, PartialEq, Eq, Structural)]
pub enum DateOutputFormat {
    UnixTimestampSecs,
    UnixTimestampMillis,
    UnixTimestampMicros,
}

/// How a field is mapped.
#[derive(Debug, PartialEq, Eq)]
pub struct FieldMapping {
    pub name: String,
    pub type_: String,
    pub description: Option<String>,
    pub stored: bool,
    pub indexed: bool,
    pub tokenizer: Option<Tokenizer>,
    pub record: Option<RecordOption>,
    pub fieldnorms: bool,
    pub fast: bool,
    pub input_formats: Vec<String>,
    pub output_format: Option<DateOutputFormat>,
    pub precision: Option<DatePrecision>,
}

/// What a [`FieldMapping`] stands for.
#[verifier::ext_equal]
pub struct MappingView {
    pub name: Seq<char>,
    pub type_: Seq<char>,
    pub description: Option<Seq<char>>,
    pub stored: bool,
    pub indexed: bool,
    pub tokenizer: Option<Tokenizer>,
    pub record: Option<RecordOption>,
    pub fieldnorms: bool,
    pub fast: bool,
    pub input_formats: Seq<Seq<char>>,
    pub output_format: Option<DateOutputFormat>,
    pub precision: Option<DatePrecision>,
}

impl View for FieldMapping {
    type V = MappingView;

    open spec fn view(&self) -> MappingView {
        MappingView {
            name: self.name@,
            type_: self.type_@,
            description: match self.description {
                Some(d) => Some(d@),
                None => None,
            },
            stored: self.stored,
            indexed: self.indexed,
            tokenizer: self.tokenizer,
            record: self.record,
            fieldnorms: self.fieldnorms,
            fast: self.fast,
            input_formats: texts(self.input_formats@),
            output_format: self.output_format,
            precision: self.precision,
        }
    }
}

/// The mapping of a field of which nothing is said: stored and indexed.
pub open spec fn default_mapping() -> MappingView {
    MappingView {
        name: ""@,
        type_: ""@,
        description: None,
        stored: true,
        indexed: true,
        tokenizer: None,
        record: None,
        fieldnorms: false,
        fast: false,
        input_formats: seq![],
        output_format: None,
        precision: None,
    }
}

impl Default for FieldMapping {
    fn default() -> (res: Self)
        ensures
            res@ == default_mapping(),
    {
        let res = FieldMapping {
            name: "".to_owned(),
            type_: "".to_owned(),
            description: None,
            stored: true,
            indexed: true,
            tokenizer: None,
            record: None,
            fieldnorms: false,
            fast: false,
            input_formats: Vec::new(),
            output_format: None,
            precision: None,
        };
        assert(res@ =~= default_mapping());
        res
    }
}

/// The mappings of a list, seen through their views.
pub open spec fn mapping_views(v: Seq<FieldMapping>) -> Seq<MappingView> {
    Seq::new(v.len(), |i: int| v[i]@)
}

/// What becomes of fields that have no mapping.
#[derive(Clone, Copy, Debug, PartialEq, Eq, Structural)]
pub enum MappingMode {
    Strict,
    Lenient,
    Dynamic,
}

/// How documents are mapped.
#[derive(Debug, PartialEq, Eq)]
pub struct DocumentMapping {
    pub field_mappings: Vec<FieldMapping>,
    pub mode: Option<MappingMode>,
    pub tag_fields: Vec<String>,
    pub store_source: bool,
    pub timestamp_field: String,
}

/// How long documents are kept.
#[derive(Debug, PartialEq, Eq)]
pub struct RetentionSettings {
    pub period: String,
    pub schedule: String,
}

/// Where a search looks that names no field.
#[derive(Debug, PartialEq, Eq)]
pub struct SearchSettings {
    pub default_search_fields: Vec<String>,
}

/// The request for a new index.
#[derive(Debug, PartialEq, Eq)]
pub struct IndexCreateRequest {
    pub doc_mapping: DocumentMapping,
    pub index_id: String,
    pub retention: RetentionSettings,
    pub search_settings: SearchSettings,
    pub version: String,
}

/// What an [`IndexCreateRequest`] asks for.
#[verifier::ext_equal]
pub struct RequestView {
    pub field_mappings: Seq<MappingView>,
    pub mode: Option<MappingMode>,
    pub tag_fields: Seq<Seq<char>>,
    pub store_source: bool,
    pub timestamp_field: Seq<char>,
    pub index_id: Seq<char>,
    pub period: Seq<char>,
    pub schedule: Seq<char>,
    pub default_search_fields: Seq<Seq<char>>,
    pub version: Seq<char>,
}

impl View for IndexCreateRequest {
    type V = RequestView;

    open spec fn view(&self) -> RequestView {
        RequestView {
            field_mappings: mapping_views(self.doc_mapping.field_mappings@),
            mode: self.doc_mapping.mode,
            tag_fields: texts(self.doc_mapping.tag_fields@),
            store_source: self.doc_mapping.store_source,
            timestamp_field: self.doc_mapping.timestamp_field@,
            index_id: self.index_id@,
            period: self.retention.period@,
            schedule: self.retention.schedule@,
            default_search_fields: texts(self.search_settings.default_search_fields@),
            version: self.version@,
        }
    }
}

/// The request for an index of documents with these fields: they are kept for 90
/// days, and a search that names no field looks at the messages.
pub open spec fn index_request(index: Seq<char>, mappings: Seq<MappingView>) -> RequestView {
    RequestView {
        field_mappings: mappings,
        mode: None,
        tag_fields: seq![],
        store_source: false,
        timestamp_field: "source_timestamp"@,
        index_id: index,
        period: "90 days"@,
        schedule: "daily"@,
        default_search_fields: seq!["message"@, "full_message"@],
        version: "0.5"@,
    }
}

/// The request for an index of documents with these fields.
pub fn create_request(index: &str, mappings: Vec<FieldMapping>) -> (res: IndexCreateRequest)
    ensures
        res@ == index_request(index@, mapping_views(mappings@)),
{
    let mut fields: Vec<String> = Vec::new();
    fields.push("message".to_owned());
    fields.push("full_message".to_owned());
    assert(texts(fields@) =~= seq!["message"@, "full_message"@]);
    let tag_fields: Vec<String> = Vec::new();
    assert(texts(tag_fields@) =~= Seq::<Seq<char>>::empty());
    IndexCreateRequest {
        doc_mapping: DocumentMapping {
            field_mappings: mappings,
            mode: None,
            tag_fields,
            store_source: false,
            timestamp_field: "source_timestamp".to_owned(),
        },
        index_id: index.to_owned(),
        retention: RetentionSettings {
            period: "90 days".to_owned(),
            schedule: "daily".to_owned(),
        },
        search_settings: SearchSettings { default_search_fields: fields },
        version: "0.5".to_owned(),
    }
}

/// The path below the server's address at which an index is described.
pub open spec fn describe_uri(server: Seq<char>, index: Seq<char>) -> Seq<char> {
    server + "/api/v1/indexes/"@ + index + "/describe"@
}

/// The address at which an index is described.
pub fn make_describe_uri(server: &str, index: &str) -> (res: String)
    ensures
        res@ == describe_uri(server@, index@),
{
    let mut uri = server.to_owned();
    uri.append("/api/v1/indexes/");
    uri.append(index);
    uri.append("/describe");
    uri
}

/// The address at which an index is created.
pub open spec fn create_uri(server: Seq<char>) -> Seq<char> {
    server + "/api/v1/indexes"@
}

/// The address at which an index is created.
pub fn make_create_uri(server: &str) -> (res: String)
    ensures
        res@ == create_uri(server@),
{
    let mut uri = server.to_owned();
    uri.append("/api/v1/indexes");
    uri
}

/// The address to which documents are sent.
pub open spec fn ingest_uri(server: Seq<char>, index: Seq<char>) -> Seq<char> {
    server + "/api/v1/"@ + index + "/ingest"@
}

/// The address to which documents are sent.
pub fn make_ingest_uri(server: &str, index: &str) -> (res: String)
    ensures
        res@ == ingest_uri(server@, index@),
{
    let mut uri = server.to_owned();
    uri.append("/api/v1/");
    uri.append(index);
    uri.append("/ingest");
    uri
}

/// What becomes of the index at the start, by the status of its description.
#[derive(Clone, Copy, Debug, PartialEq, Eq, Structural)]
pub enum IndexStep {
    /// It is there.
    Ready,
    /// It is not there, and is to be created.
    Create,
}

/// What becomes of the index, by the status of its description: it is created where
/// it was not found.
pub fn after_describe(status: u16) -> (res: IndexStep)
    ensures
        res == (if status == 404 {
            IndexStep::Create
        } else {
            IndexStep::Ready
        }),
{
    if status == 404 {
        IndexStep::Create
    } else {
        IndexStep::Ready
    }
}

/// Whether a status is one of success.
pub fn is_success(status: u16) -> (res: bool)
    ensures
        res == (200 <= status < 300),
{
    200 <= status && status < 300
}

/// The wait after another failed attempt: twice as long, but no longer than ten
/// seconds.
pub open spec fn next_wait(secs: u64) -> u64 {
    if secs >= 5 {
        10
    } else {
        (secs * 2) as u64
    }
}

/// The wait after another failed attempt to reach the server.
pub fn backoff(secs: u64) -> (res: u64)
    ensures
        res == next_wait(secs),
{
    if secs >= 5 {
        10
    } else {
        secs * 2
    }
}

/// The wait after so many failed attempts, of which the first is of one second.
pub open spec fn wait_after(failures: nat) -> u64
    decreases failures,
{
    if failures == 0 {
        1
    } else {
        next_wait(wait_after((failures - 1) as nat))
    }
}

/// Waits never shrink and never exceed ten seconds; from the fifth on they last
/// that long.
pub proof fn waits_grow_to_ten(failures: nat)
    ensures
        1 <= wait_after(failures) <= 10,
        wait_after(failures) <= wait_after(failures + 1),
        failures >= 4 ==> wait_after(failures) == 10,
    decreases failures,
{
    reveal_with_fuel(wait_after, 6);
    if failures > 4 {
        waits_grow_to_ten((failures - 1) as nat);
    }
}

/// An address without the slash that it ends with.
pub open spec fn without_slash(url: Seq<char>) -> Seq<char> {
    if url.len() > 0 && url.last() == '/' {
        url.drop_last()
    } else {
        url
    }
}

/// Drops a slash at the end of an address.
pub fn strip_slash(url: &str) -> (res: String)
    ensures
        res@ == without_slash(url@),
{
    let chars = crate::text::chars_of(url);
    let n = chars.len();
    if n > 0 && chars[n - 1] == '/' {
        crate::text::string_of(&chars, 0, n - 1)
    } else {
        url.to_owned()
    }
}

} // verus!
