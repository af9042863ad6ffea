//! Arrow schemas as the source sees them: an ordered list of fields.

use crate::projection::{admits_opt, indices_of_ref, select_opt};
use arrow::datatypes::{DataType, Field, Schema};
use datafusion_common::DataFusionError;
use std::sync::Arc;
use vstd::prelude::*;

verus! {

/// arrow's `Schema`. Verus sees nothing inside it.
#[verifier::external_type_specification]
#[verifier::external_body]
pub struct ExSchema(Schema);

/// datafusion's error type, as `project_schema` returns it.
#[verifier::external_type_specification]
#[verifier::external_body]
pub struct ExDataFusionError(DataFusionError);

/// What a field of a schema says of its column.
pub struct FieldModel {
    /// The column's name.
    pub name: Seq<char>,
    /// The column's data type, as arrow displays it (`Int32`, `Utf8`, ...).
    pub data_type: Seq<char>,
    /// Whether the column may hold nulls.
    pub nullable: bool,
    /// The field's own key-value metadata.
    pub metadata: Map<Seq<char>, Seq<char>>,
}

/// The fields of a schema, in order.
pub uninterp spec fn schema_fields(schema: Schema) -> Seq<FieldModel>;

/// The fields of a shared schema, in order.
pub open spec fn fields_of(schema: &Arc<Schema>) -> Seq<FieldModel> {
    schema_fields(**schema)
}

/// The data types that the fixtures of this crate use.
#[derive(Clone, Copy, Debug, PartialEq, Eq)]
pub enum ColumnType {
    Utf8,
    Int8,
    Int16,
    Int32,
    Int64,
    UInt8,
    UInt16,
    UInt32,
    UInt64,
    Float32,
    Float64,
}

/// How arrow displays a data type.
pub open spec fn type_text(data_type: ColumnType) -> Seq<char> {
    match data_type {
        ColumnType::Utf8 => "Utf8"@,
        ColumnType::Int8 => "Int8"@,
        ColumnType::Int16 => "Int16"@,
        ColumnType::Int32 => "Int32"@,
        ColumnType::Int64 => "Int64"@,
        ColumnType::UInt8 => "UInt8"@,
        ColumnType::UInt16 => "UInt16"@,
        ColumnType::UInt32 => "UInt32"@,
        ColumnType::UInt64 => "UInt64"@,
        ColumnType::Float32 => "Float32"@,
        ColumnType::Float64 => "Float64"@,
    }
}

/// A field to build a schema from.
pub struct FieldSpec {
    pub name: String,
    pub data_type: ColumnType,
    pub nullable: bool,
    /// Key-value metadata; of two entries with one key the later one counts.
    pub metadata: Vec<(String, String)>,
}

/// The map that a list of key-value entries stands for.
pub open spec fn metadata_map(entries: Seq<(String, String)>) -> Map<Seq<char>, Seq<char>>
    decreases entries.len(),
{
    if entries.len() == 0 {
        Map::empty()
    } else {
        metadata_map(entries.drop_last()).insert(entries.last().0@, entries.last().1@)
    }
}

impl View for FieldSpec {
    type V = FieldModel;

    open spec fn view(&self) -> FieldModel {
        FieldModel {
            name: self.name@,
            data_type: type_text(self.data_type),
            nullable: self.nullable,
            metadata: metadata_map(self.metadata@),
        }
    }
}

/// A field without metadata.
pub open spec fn plain_field(name: Seq<char>, data_type: ColumnType, nullable: bool) -> FieldModel {
    FieldModel { name, data_type: type_text(data_type), nullable, metadata: Map::empty() }
}

impl FieldSpec {
    /// A field with the given name, type and nullability, without metadata.
    pub fn new(name: &str, data_type: ColumnType, nullable: bool) -> (r: Self)
        ensures
            r@ == plain_field(name@, data_type, nullable),
    {
        FieldSpec { name: name.to_owned(), data_type, nullable, metadata: Vec::new() }
    }

    /// The field with one more metadata entry, which replaces an earlier one
    /// under the same key.
    pub fn with_metadata(self, key: &str, value: &str) -> (r: Self)
        ensures
            r@ == (FieldModel { metadata: self@.metadata.insert(key@, value@), ..self@ }),
    {
        let mut field = self;
        field.metadata.push((key.to_owned(), value.to_owned()));
        assert(field.metadata@.drop_last() =~= self.metadata@);
        field
    }
}

/// The fields that a list of field specs describes.
pub open spec fn field_models(specs: Seq<FieldSpec>) -> Seq<FieldModel> {
    Seq::new(specs.len(), |i: int| specs[i]@)
}

/// Calls `Schema::new` on fields made by `Field::new` and `with_metadata`:
/// the schema holds one field per spec, in order, with the spec's name, type,
/// nullability and metadata. Of two metadata entries under one key the map
/// keeps the later one.
#[verifier::external_body]
pub(crate) fn make_schema(specs: &Vec<FieldSpec>) -> (r: Arc<Schema>)
    ensures
        schema_fields(*r) == field_models(specs@),
{
    let fields = specs.iter().map(|s| {
        let data_type = match s.data_type {
            ColumnType::Utf8 => DataType::Utf8, ColumnType::Int8 => DataType::Int8,
            ColumnType::Int16 => DataType::Int16, ColumnType::Int32 => DataType::Int32,
            ColumnType::Int64 => DataType::Int64, ColumnType::UInt8 => DataType::UInt8,
            ColumnType::UInt16 => DataType::UInt16, ColumnType::UInt32 => DataType::UInt32,
            ColumnType::UInt64 => DataType::UInt64, ColumnType::Float32 => DataType::Float32,
            ColumnType::Float64 => DataType::Float64,
        };
        let metadata = s.metadata.iter().cloned().collect();
        Field::new(s.name.clone(), data_type, s.nullable).with_metadata(metadata)
    });
    Arc::new(Schema::new(fields.collect::<Vec<_>>()))
}

/// Calls `Schema::fields` and takes the length: the number of fields.
#[verifier::external_body]
pub(crate) fn field_count(schema: &Arc<Schema>) -> (r: usize)
    ensures
        r == schema_fields(**schema).len(),
{
    schema.fields().len()
}

/// Calls `Schema::field` and `Field::name`: the name of the field at `index`.
/// arrow panics where `index` is out of range.
#[verifier::external_body]
pub(crate) fn field_name(schema: &Arc<Schema>, index: usize) -> (r: String)
    requires
        index < schema_fields(**schema).len(),
    ensures
        r@ == schema_fields(**schema)[index as int].name,
{
    schema.field(index).name().clone()
}

/// Calls `Arc::clone`: another handle on the same schema.
#[verifier::external_body]
pub(crate) fn share_schema(schema: &Arc<Schema>) -> (r: Arc<Schema>)
    ensures
        r == *schema,
{
    Arc::clone(schema)
}

/// Calls datafusion's `project_schema`. Without a projection it hands the
/// schema back. With one it fails exactly where an index is out of range, and
/// else gives the schema of the picked fields, in the order of the indices.
#[verifier::external_body]
pub(crate) fn project_schema(schema: &Arc<Schema>, projection: Option<&Vec<usize>>) -> (r: Result<
    Arc<Schema>,
    DataFusionError,
>)
    ensures
        r is Ok <==> admits_opt(schema_fields(**schema).len(), indices_of_ref(projection)),
        r matches Ok(projected) ==> schema_fields(*projected) == select_opt(
            schema_fields(**schema),
            indices_of_ref(projection),
        ),
{
    datafusion_common::project_schema(schema, projection)
}

} // verus!
