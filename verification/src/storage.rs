//! The schema that the index engine keeps documents by.
use tantivy::schema::{Schema, SchemaBuilder, FAST, INDEXED, STORED, STRING, TEXT};
use vstd::prelude::*;

verus! {

/// How a field is kept. Every field is stored, so that it can be given back.
#[derive(Clone, Copy, Debug, PartialEq, Eq, Structural)]
pub enum StoredAs {
    /// A text that is indexed as one term.
    String,
    /// A text that is indexed by its words.
    Text,
    /// An unsigned number that is indexed.
    U64,
    /// An unsigned number that is indexed and kept for fast access.
    FastU64,
    /// A signed number that is indexed.
    I64,
    /// A date that is indexed.
    Date,
    /// A date that is indexed and kept for fast access.
    FastDate,
}

/// A field of a schema: its name and how it is kept.
pub type StoredField = (Seq<char>, StoredAs);

/// A schema in the making.
#[verifier::external_type_specification]
#[verifier::external_body]
pub struct ExSchemaBuilder(tantivy::schema::SchemaBuilder);

/// A schema.
#[verifier::external_type_specification]
#[verifier::external_body]
pub struct ExSchema(tantivy::schema::Schema);

/// The fields that a schema in the making holds, in the order in which they came.
pub uninterp spec fn builder_fields(b: SchemaBuilder) -> Seq<StoredField>;

/// The fields that a schema holds, in the order in which they came.
pub uninterp spec fn schema_fields(s: Schema) -> Seq<StoredField>;

/// Whether a field can have this name: at least one character, and no hyphen first.
pub open spec fn valid_field_name(name: Seq<char>) -> bool {
    name.len() > 0 && name[0] != '-'
}

/// Whether one of the fields has the name.
pub open spec fn has_field(fields: Seq<StoredField>, name: Seq<char>) -> bool {
    exists|i: int| 0 <= i < fields.len() && (#[trigger] fields[i]).0 == name
}

/// Whether a field of this name can join the fields.
pub open spec fn can_join(fields: Seq<StoredField>, name: Seq<char>) -> bool {
    valid_field_name(name) && !has_field(fields, name)
}

/// `SchemaBuilder::default` holds no fields.
#[verifier::external_body]
fn new_builder() -> (b: SchemaBuilder)
    ensures
        builder_fields(b) == Seq::<StoredField>::empty(),
{
    SchemaBuilder::default()
}

/// `SchemaBuilder::add_text_field` with the options `STORED | STRING` adds a field
/// behind the others. It panics on a name that is not valid or is taken.
#[verifier::external_body]
fn add_string_field(b: &mut SchemaBuilder, name: &str)
    requires
        can_join(builder_fields(*old(b)), name@),
    ensures
        builder_fields(*final(b)) == builder_fields(*old(b)).push((name@, StoredAs::String)),
{
    b.add_text_field(name, STORED | STRING);
}

/// `SchemaBuilder::add_text_field` with the options `STORED | TEXT` adds a field
/// behind the others. It panics on a name that is not valid or is taken.
#[verifier::external_body]
fn add_text_field(b: &mut SchemaBuilder, name: &str)
    requires
        can_join(builder_fields(*old(b)), name@),
    ensures
        builder_fields(*final(b)) == builder_fields(*old(b)).push((name@, StoredAs::Text)),
{
    b.add_text_field(name, STORED | TEXT);
}

/// `SchemaBuilder::add_u64_field` with the options `STORED | INDEXED` adds a field
/// behind the others. It panics on a name that is not valid or is taken.
#[verifier::external_body]
fn add_u64_field(b: &mut SchemaBuilder, name: &str)
    requires
        can_join(builder_fields(*old(b)), name@),
    ensures
        builder_fields(*final(b)) == builder_fields(*old(b)).push((name@, StoredAs::U64)),
{
    b.add_u64_field(name, STORED | INDEXED);
}

/// `SchemaBuilder::add_u64_field` with the options `INDEXED | STORED | FAST` adds a
/// field behind the others. It panics on a name that is not valid or is taken.
#[verifier::external_body]
fn add_fast_u64_field(b: &mut SchemaBuilder, name: &str)
    requires
        can_join(builder_fields(*old(b)), name@),
    ensures
        builder_fields(*final(b)) == builder_fields(*old(b)).push((name@, StoredAs::FastU64)),
{
    b.add_u64_field(name, INDEXED | STORED | FAST);
}

/// `SchemaBuilder::add_i64_field` with the options `STORED | INDEXED` adds a field
/// behind the others. It panics on a name that is not valid or is taken.
#[verifier::external_body]
fn add_i64_field(b: &mut SchemaBuilder, name: &str)
    requires
        can_join(builder_fields(*old(b)), name@),
    ensures
        builder_fields(*final(b)) == builder_fields(*old(b)).push((name@, StoredAs::I64)),
{
    b.add_i64_field(name, STORED | INDEXED);
}

/// `SchemaBuilder::add_date_field` with the options `STORED | INDEXED` adds a field
/// behind the others. It panics on a name that is not valid or is taken.
#[verifier::external_body]
fn add_date_field(b: &mut SchemaBuilder, name: &str)
    requires
        can_join(builder_fields(*old(b)), name@),
    ensures
        builder_fields(*final(b)) == builder_fields(*old(b)).push((name@, StoredAs::Date)),
{
    b.add_date_field(name, STORED | INDEXED);
}

/// `SchemaBuilder::add_date_field` with the options `STORED | INDEXED | FAST` adds a
/// field behind the others. It panics on a name that is not valid or is taken.
#[verifier::external_body]
fn add_fast_date_field(b: &mut SchemaBuilder, name: &str)
    requires
        can_join(builder_fields(*old(b)), name@),
    ensures
        builder_fields(*final(b)) == builder_fields(*old(b)).push((name@, StoredAs::FastDate)),
{
    b.add_date_field(name, STORED | INDEXED | FAST);
}

/// `SchemaBuilder::build` keeps the fields.
#[verifier::external_body]
fn build(b: SchemaBuilder) -> (s: Schema)
    ensures
        schema_fields(s) == builder_fields(b),
{
    b.build()
}

/// Whether fields can make up a schema: each has a valid name, and no two the same.
pub open spec fn storable(fields: Seq<StoredField>) -> bool {
    forall|i: int| 0 <= i < fields.len() ==> can_join(fields.take(i), #[trigger] fields[i].0)
}

/// The fields of a list, seen through their views.
pub open spec fn field_views(v: Seq<(String, StoredAs)>) -> Seq<StoredField> {
    Seq::new(v.len(), |i: int| (v[i].0@, v[i].1))
}

/// Adds a field.
fn add_field(b: &mut SchemaBuilder, name: &str, kind: StoredAs)
    requires
        can_join(builder_fields(*old(b)), name@),
    ensures
        builder_fields(*final(b)) == builder_fields(*old(b)).push((name@, kind)),
{
    match kind {
        StoredAs::String => add_string_field(b, name),
        StoredAs::Text => add_text_field(b, name),
        StoredAs::U64 => add_u64_field(b, name),
        StoredAs::FastU64 => add_fast_u64_field(b, name),
        StoredAs::I64 => add_i64_field(b, name),
        StoredAs::Date => add_date_field(b, name),
        StoredAs::FastDate => add_fast_date_field(b, name),
    }
}

/// Builds the schema of the fields, in their order.
pub fn build_schema(fields: &Vec<(String, StoredAs)>) -> (s: Schema)
    requires
        storable(field_views(fields@)),
    ensures
        schema_fields(s) == field_views(fields@),
{
    let ghost views = field_views(fields@);
    let mut b = new_builder();
    let mut i: usize = 0;
    assert(views.take(0) =~= Seq::<StoredField>::empty());
    while i < fields.len()
        invariant
            i <= fields@.len(),
            views == field_views(fields@),
            storable(views),
            builder_fields(b) == views.take(i as int),
        decreases fields@.len() - i,
    {
        assert(views[i as int] == (fields@[i as int].0@, fields@[i as int].1));
        assert(can_join(views.take(i as int), views[i as int].0));
        add_field(&mut b, fields[i].0.as_str(), fields[i].1);
        assert(views.take(i + 1) =~= views.take(i as int).push(views[i as int]));
        i = i + 1;
    }
    assert(views.take(i as int) =~= views);
    build(b)
}

/// Fields with valid names of which no two are the same can make up a schema.
pub proof fn lemma_storable(fields: Seq<StoredField>)
    requires
        forall|i: int| 0 <= i < fields.len() ==> valid_field_name((#[trigger] fields[i]).0),
        forall|i: int, j: int|
            0 <= i < fields.len() && 0 <= j < fields.len() && i != j ==> (#[trigger] fields[i]).0
                != (#[trigger] fields[j]).0,
    ensures
        storable(fields),
{
    assert forall|i: int| 0 <= i < fields.len() implies can_join(
        fields.take(i),
        #[trigger] fields[i].0,
    ) by {
        if has_field(fields.take(i), fields[i].0) {
            let j = choose|j: int|
                0 <= j < i && (#[trigger] fields.take(i)[j]).0 == fields[i].0;
            assert(fields[j].0 == fields.take(i)[j].0);
        }
    }
}

} // verus!
