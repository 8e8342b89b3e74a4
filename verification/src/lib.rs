//! Conversion of row-oriented delimited text into a columnar, typed,
//! compressed on-disk format.
//!
//! The pipeline has four stages: a schema resolver (explicit description or
//! inference by sampling), a row decoder that turns source bytes into typed
//! columnar batches, a writer-policy builder that validates the writer
//! configuration, and a batch sink that encodes the batches and finalizes
//! the artifact.

pub mod arrow_glue;
pub mod batch;
pub mod cells;
pub mod decode;
pub mod infer;
pub mod policy;
pub mod rows;
pub mod schema;
pub mod sink;

use vstd::prelude::*;

verus! {

/// An invalid writer-policy option, rejected before any data is read.
#[derive(Debug)]
pub enum ConfigError {
    /// The compression family name is not one of the supported set.
    UnknownCompression(String),
    /// The encoding name is not one of the supported set.
    UnknownEncoding(String),
    /// A dictionary encoding was named as the fallback encoding; the
    /// dictionary flag selects dictionary encoding instead.
    DictionaryFallbackEncoding(String),
    /// The statistics granularity name is not one of the supported set.
    UnknownStatistics(String),
    /// The write-batch row count must be at least one.
    ZeroWriteBatchSize,
    /// The maximum row-group row count must be at least one.
    ZeroRowGroupSize,
}

/// A malformed schema description, or one that cannot be used.
#[derive(Debug)]
pub enum SchemaError {
    /// Two fields share one name; the index of the second one.
    DuplicateFieldName(usize),
    /// A field name is not valid text; the index of the field.
    InvalidFieldName(usize),
}

/// Why a single cell could not be coerced to its column's declared type.
#[derive(Clone, Copy, PartialEq, Eq, Structural, Debug)]
pub enum CellFault {
    /// The row has a different number of fields than the schema.
    WrongFieldCount,
    /// The cell text does not parse as the declared type.
    Unparseable,
    /// The cell is empty but the column does not allow nulls.
    NullNotAllowed,
    /// The cell is not valid text although the column is a text column.
    InvalidText,
}

/// A row whose cells cannot be coerced into the schema's declared types.
/// Decoding is fail-fast: this names the first offending row.
#[derive(Clone, Copy, PartialEq, Eq, Structural, Debug)]
pub struct DecodeError {
    /// Index of the offending data row (header row excluded), from zero.
    pub row: usize,
    /// Index of the offending column.
    pub col: usize,
    /// What went wrong in that cell.
    pub fault: CellFault,
}

/// An internal failure while producing the target format's binary
/// representation. Finalize-time failures are reported distinctly from
/// mid-stream failures.
#[derive(Debug)]
pub enum EncodeError {
    /// The writer could not be created over the destination buffer.
    Create(String),
    /// A batch could not be assembled for the encoder.
    Batch(String),
    /// A batch could not be written mid-stream.
    Write(String),
    /// The trailing metadata could not be written.
    Finalize(String),
}

/// Any failure of a whole conversion run.
#[derive(Debug)]
pub enum ConvertError {
    /// A source row does not fit the schema.
    Decode(DecodeError),
    /// The target encoder failed.
    Encode(EncodeError),
}

} // verus!
