//! The trusted boundary to the arrow and parquet crates: type
//! declarations and thin wrappers around the calls the batch sink makes.
//! Everything else in the library is verified against these contracts.

use vstd::prelude::*;

use arrow::array::BooleanArray;
use arrow::array::Float64Array;
use arrow::array::Int32Array;
use arrow::array::Int64Array;
use arrow::array::RecordBatch;
use arrow::array::StringArray;
use arrow::datatypes::Schema;
use parquet::arrow::arrow_writer::ArrowWriter;
use parquet::basic::BrotliLevel;
use parquet::basic::Compression;
use parquet::basic::Encoding;
use parquet::basic::GzipLevel;
use parquet::basic::ZstdLevel;
use parquet::file::properties::EnabledStatistics;
use parquet::file::properties::WriterProperties;
use parquet::file::properties::WriterPropertiesBuilder;
use std::sync::Arc;

use crate::batch::col_floats_parseable;
use crate::batch::Column;
use crate::batch::ColumnV;
use crate::policy::choice_wf;
use crate::policy::ColumnEncoding;
use crate::policy::CompressionChoice;
use crate::policy::StatsLevel;
use crate::policy::WriterPolicy;
use crate::schema::ColumnSchema;
use crate::schema::DataType;
use crate::schema::FieldV;

verus! {

#[verifier::external_type_specification]
#[verifier::external_body]
pub struct ExArrowSchema(Schema);

/// What the writer has been given so far: the declared fields, the
/// programmed policy, and the batches written, in order.
#[verifier::ext_equal]
pub ghost struct SinkState {
    pub schema: Seq<FieldV>,
    pub policy: WriterPolicy,
    pub batches: Seq<Seq<ColumnV>>,
}

/// The fields an opaque arrow schema declares.
pub uninterp spec fn schema_model(s: Schema) -> Seq<FieldV>;

/// The column values an opaque arrow array holds.
pub uninterp spec fn array_model(a: ColumnArray) -> ColumnV;

/// The declared fields and column values an assembled record batch holds.
pub uninterp spec fn batch_model(b: EncodedBatch) -> (Seq<FieldV>, Seq<ColumnV>);

/// The writer configuration a builder has been programmed with; an absent
/// field stands for the target format's own default.
pub uninterp spec fn builder_model(b: WriterPropertiesBuilder) -> WriterPolicy;

/// The writer configuration a finished properties value carries.
pub uninterp spec fn props_model(p: WriterProperties) -> WriterPolicy;

/// What an open writer has been given so far.
pub uninterp spec fn sink_model(w: SinkWriter) -> SinkState;

/// Whether record-batch assembly accepts these columns under this schema.
pub uninterp spec fn rb_accepts(schema: Seq<FieldV>, cols: Seq<ColumnV>) -> bool;

/// Whether the writer opens over this schema and policy.
pub uninterp spec fn writer_accepts(schema: Seq<FieldV>, policy: WriterPolicy) -> bool;

/// Whether a writer in this state accepts this batch.
pub uninterp spec fn write_accepts(w: SinkState, b: (Seq<FieldV>, Seq<ColumnV>)) -> bool;

/// Whether finalizing succeeds from this state.
pub uninterp spec fn close_accepts(w: SinkState) -> bool;

/// The artifact a writer in this state produces on finalize. The writer
/// runs over an in-memory buffer, so the outcome of the whole run depends
/// on the schema, the properties, and the batch contents alone.
pub uninterp spec fn artifact_bytes(w: SinkState) -> Seq<u8>;

/// A record batch ready for the writer. Verus refuses the declaration of
/// the outside type itself (its impls reach undeclared traits), so it is
/// held opaquely.
#[verifier::external_body]
pub struct EncodedBatch {
    rb: RecordBatch,
}

/// The target-format writer over an in-memory buffer. Verus refuses the
/// declaration of the outside type itself (its bound names a trait Verus
/// has no declaration of), so it is held opaquely.
#[verifier::external_body]
pub struct SinkWriter {
    w: ArrowWriter<Vec<u8>>,
}

#[verifier::external_type_specification]
#[verifier::external_body]
pub struct ExWriterProperties(WriterProperties);

#[verifier::external_type_specification]
#[verifier::external_body]
pub struct ExWriterPropertiesBuilder(WriterPropertiesBuilder);

/// Relies on arrow's `Schema::new` and `Field::new`: one arrow field per
/// library field, with the same name, logical type, and nullability.
#[verifier::external_body]
pub(crate) fn make_arrow_schema(schema: &ColumnSchema) -> (r: Schema)
    ensures
        schema_model(r) == schema@,
{
    let fields: Vec<arrow::datatypes::Field> = schema.fields.iter().map(|f| {
        let dt = match f.data_type {
            DataType::Boolean => arrow::datatypes::DataType::Boolean,
            DataType::Int32 => arrow::datatypes::DataType::Int32,
            DataType::Int64 => arrow::datatypes::DataType::Int64,
            DataType::Float64 => arrow::datatypes::DataType::Float64,
            DataType::Utf8 => arrow::datatypes::DataType::Utf8,
        };
        arrow::datatypes::Field::new(f.name.clone(), dt, f.nullable)
    }).collect();
    Schema::new(fields)
}

/// One column as the writer's own array form, held opaquely.
#[verifier::external_body]
pub struct ColumnArray {
    a: arrow::array::ArrayRef,
}

/// Relies on arrow's array constructors (`From` on the primitive,
/// string, and boolean arrays): one arrow array with the column's values
/// and nulls as given; a floating-point cell becomes the number its
/// validated literal names.
#[verifier::external_body]
pub(crate) fn column_array(c: Column) -> (r: ColumnArray)
    requires
        col_floats_parseable(c@),
    ensures
        array_model(r) == c@,
{
    let a: arrow::array::ArrayRef = match c {
        Column::Boolean(v) => Arc::new(BooleanArray::from(v)),
        Column::Int32(v) => Arc::new(Int32Array::from(v)),
        Column::Int64(v) => Arc::new(Int64Array::from(v)),
        Column::Float64(v) => Arc::new(Float64Array::from(
            v.into_iter().map(|o| o.map(|s| s.parse().unwrap())).collect::<Vec<_>>(),
        )),
        Column::Utf8(v) => Arc::new(StringArray::from(v)),
    };
    ColumnArray { a }
}

/// Relies on `RecordBatch::try_new`: the given arrays, one per schema
/// field, as one record batch; whether it accepts them depends on the
/// declared fields and the column values alone.
#[verifier::external_body]
pub(crate) fn make_record_batch(schema: &Schema, cols: Vec<ColumnArray>) -> (r: Result<
    EncodedBatch,
    String,
>)
    ensures
        r is Ok <==> rb_accepts(
            schema_model(*schema),
            cols@.map_values(|a: ColumnArray| array_model(a)),
        ),
        r matches Ok(eb) ==> batch_model(eb) == (
            schema_model(*schema),
            cols@.map_values(|a: ColumnArray| array_model(a)),
        ),
{
    let arrays: Vec<arrow::array::ArrayRef> = cols.into_iter().map(|c| c.a).collect();
    match RecordBatch::try_new(Arc::new(schema.clone()), arrays) {
        Ok(rb) => Ok(EncodedBatch { rb }),
        Err(e) => Err(e.to_string()),
    }
}

/// Relies on `ArrowWriter::try_new` over an in-memory buffer: whether it
/// opens depends on the declared fields and the properties alone.
#[verifier::external_body]
pub(crate) fn writer_new(schema: &Schema, props: WriterProperties) -> (r: Result<
    SinkWriter,
    String,
>)
    ensures
        r is Ok <==> writer_accepts(schema_model(*schema), props_model(props)),
        r matches Ok(w) ==> sink_model(w) == (SinkState {
            schema: schema_model(*schema),
            policy: props_model(props),
            batches: Seq::empty(),
        }),
{
    match ArrowWriter::try_new(Vec::new(), Arc::new(schema.clone()), Some(props)) {
        Ok(w) => Ok(SinkWriter { w }),
        Err(e) => Err(e.to_string()),
    }
}

/// Relies on `ArrowWriter::write`: buffers the batch, flushing row groups
/// at the writer's configured thresholds; over the in-memory buffer its
/// outcome depends on the writer's state and the batch alone. On failure
/// the writer must be abandoned.
#[verifier::external_body]
pub(crate) fn writer_write(w: &mut SinkWriter, b: &EncodedBatch) -> (r: Result<(), String>)
    ensures
        r is Ok <==> write_accepts(sink_model(*old(w)), batch_model(*b)),
        r is Ok ==> sink_model(*final(w)) == (SinkState {
            schema: sink_model(*old(w)).schema,
            policy: sink_model(*old(w)).policy,
            batches: sink_model(*old(w)).batches.push(batch_model(*b).1),
        }),
{
    w.w.write(&b.rb).map_err(|e| e.to_string())
}

/// Relies on `ArrowWriter::into_inner`: flushes outstanding data, writes
/// the trailing metadata, and hands back the finished buffer; over the
/// in-memory buffer the artifact depends on the writer's state alone.
#[verifier::external_body]
pub(crate) fn writer_close(w: SinkWriter) -> (r: Result<Vec<u8>, String>)
    ensures
        r is Ok <==> close_accepts(sink_model(w)),
        r matches Ok(bytes) ==> bytes@ == artifact_bytes(sink_model(w)),
{
    w.w.into_inner().map_err(|e| e.to_string())
}

/// Relies on `WriterProperties::builder`: a fresh builder leaves every
/// option at the target format's own default, with dictionary encoding
/// enabled.
#[verifier::external_body]
pub(crate) fn props_builder() -> (r: WriterPropertiesBuilder)
    ensures
        builder_model(r) == (WriterPolicy {
            compression: Option::None,
            encoding: Option::None,
            statistics: Option::None,
            data_pagesize_limit: Option::None,
            dictionary_pagesize_limit: Option::None,
            write_batch_size: Option::None,
            max_row_group_size: Option::None,
            created_by: Option::None,
            dictionary: true,
        }),
{
    WriterProperties::builder()
}

/// Relies on `WriterPropertiesBuilder::build`.
#[verifier::external_body]
pub(crate) fn props_build(b: WriterPropertiesBuilder) -> (r: WriterProperties)
    ensures
        props_model(r) == builder_model(b),
{
    b.build()
}

/// Relies on `WriterPropertiesBuilder::set_dictionary_enabled`.
#[verifier::external_body]
pub(crate) fn props_dictionary(b: WriterPropertiesBuilder, v: bool) -> (r: WriterPropertiesBuilder)
    ensures
        builder_model(r) == (WriterPolicy { dictionary: v, ..builder_model(b) }),
{
    b.set_dictionary_enabled(v)
}

/// Relies on `WriterPropertiesBuilder::set_statistics_enabled`.
#[verifier::external_body]
pub(crate) fn props_statistics(b: WriterPropertiesBuilder, v: StatsLevel) -> (r: WriterPropertiesBuilder)
    ensures
        builder_model(r) == (WriterPolicy { statistics: Option::Some(v), ..builder_model(b) }),
{
    b.set_statistics_enabled(match v {
        StatsLevel::Off => EnabledStatistics::None,
        StatsLevel::Chunk => EnabledStatistics::Chunk,
        StatsLevel::Page => EnabledStatistics::Page,
    })
}

/// Relies on `WriterPropertiesBuilder::set_compression` and the level
/// constructors `GzipLevel`, `BrotliLevel`, `ZstdLevel`, which accept
/// every level within their family's range.
#[verifier::external_body]
pub(crate) fn props_compression(b: WriterPropertiesBuilder, c: CompressionChoice) -> (r: WriterPropertiesBuilder)
    requires
        choice_wf(c),
    ensures
        builder_model(r) == (WriterPolicy { compression: Option::Some(c), ..builder_model(b) }),
{
    b.set_compression(match c {
        CompressionChoice::Uncompressed => Compression::UNCOMPRESSED,
        CompressionChoice::Snappy => Compression::SNAPPY,
        CompressionChoice::Gzip(l) => Compression::GZIP(GzipLevel::try_new(l).unwrap()),
        CompressionChoice::Lzo => Compression::LZO,
        CompressionChoice::Brotli(l) => Compression::BROTLI(BrotliLevel::try_new(l).unwrap()),
        CompressionChoice::Lz4 => Compression::LZ4,
        CompressionChoice::Zstd(l) => Compression::ZSTD(ZstdLevel::try_new(l).unwrap()),
    })
}

/// Relies on `WriterPropertiesBuilder::set_encoding`, which refuses a
/// dictionary encoding as the fallback encoding.
#[verifier::external_body]
pub(crate) fn props_encoding(b: WriterPropertiesBuilder, e: ColumnEncoding) -> (r: WriterPropertiesBuilder)
    requires
        e != ColumnEncoding::RleDictionary,
    ensures
        builder_model(r) == (WriterPolicy { encoding: Option::Some(e), ..builder_model(b) }),
{
    b.set_encoding(match e {
        ColumnEncoding::Plain => Encoding::PLAIN,
        ColumnEncoding::Rle => Encoding::RLE,
        ColumnEncoding::DeltaBinaryPacked => Encoding::DELTA_BINARY_PACKED,
        ColumnEncoding::DeltaLengthByteArray => Encoding::DELTA_LENGTH_BYTE_ARRAY,
        ColumnEncoding::DeltaByteArray => Encoding::DELTA_BYTE_ARRAY,
        ColumnEncoding::RleDictionary => Encoding::RLE_DICTIONARY,
    })
}

/// Relies on `WriterPropertiesBuilder::set_write_batch_size`, which
/// refuses a batch size of zero.
#[verifier::external_body]
pub(crate) fn props_write_batch_size(b: WriterPropertiesBuilder, v: usize) -> (r: WriterPropertiesBuilder)
    requires
        v >= 1,
    ensures
        builder_model(r) == (WriterPolicy {
            write_batch_size: Option::Some(v),
            ..builder_model(b)
        }),
{
    b.set_write_batch_size(v)
}

/// Relies on `WriterPropertiesBuilder::set_data_page_size_limit`.
#[verifier::external_body]
pub(crate) fn props_data_page_size(b: WriterPropertiesBuilder, v: usize) -> (r: WriterPropertiesBuilder)
    ensures
        builder_model(r) == (WriterPolicy {
            data_pagesize_limit: Option::Some(v),
            ..builder_model(b)
        }),
{
    b.set_data_page_size_limit(v)
}

/// Relies on `WriterPropertiesBuilder::set_dictionary_page_size_limit`.
#[verifier::external_body]
pub(crate) fn props_dictionary_page_size(b: WriterPropertiesBuilder, v: usize) -> (r: WriterPropertiesBuilder)
    ensures
        builder_model(r) == (WriterPolicy {
            dictionary_pagesize_limit: Option::Some(v),
            ..builder_model(b)
        }),
{
    b.set_dictionary_page_size_limit(v)
}

/// Relies on `WriterPropertiesBuilder::set_max_row_group_row_count`: the
/// row count at which a row group is closed. It refuses zero.
#[verifier::external_body]
pub(crate) fn props_max_row_group_size(b: WriterPropertiesBuilder, v: usize) -> (r: WriterPropertiesBuilder)
    requires
        v >= 1,
    ensures
        builder_model(r) == (WriterPolicy {
            max_row_group_size: Option::Some(v),
            ..builder_model(b)
        }),
{
    b.set_max_row_group_row_count(Some(v))
}

/// Relies on `WriterPropertiesBuilder::set_created_by`.
#[verifier::external_body]
pub(crate) fn props_created_by(b: WriterPropertiesBuilder, v: String) -> (r: WriterPropertiesBuilder)
    ensures
        builder_model(r) == (WriterPolicy { created_by: Option::Some(v), ..builder_model(b) }),
{
    b.set_created_by(v)
}

} // verus!
