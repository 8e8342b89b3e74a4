//! Columnar batches: a fixed-schema, variable-length set of column arrays,
//! each array exactly as long as the batch has rows.
//!
//! A floating-point cell is carried as its validated literal text; the
//! target encoder turns it into a number when the batch is written out.

use vstd::prelude::*;
use vstd::utf8::encode_utf8;

use crate::cells::is_float_syntax;
use crate::schema::DataType;
use crate::schema::FieldV;

verus! {

/// One column's values; `None` is a null.
#[derive(Debug)]
pub enum Column {
    Boolean(Vec<Option<bool>>),
    Int32(Vec<Option<i32>>),
    Int64(Vec<Option<i64>>),
    Float64(Vec<Option<String>>),
    Utf8(Vec<Option<String>>),
}

/// The mathematical value of a [`Column`].
pub ghost enum ColumnV {
    Boolean(Seq<Option<bool>>),
    Int32(Seq<Option<i32>>),
    Int64(Seq<Option<i64>>),
    Float64(Seq<Option<Seq<char>>>),
    Utf8(Seq<Option<Seq<char>>>),
}

impl View for Column {
    type V = ColumnV;

    open spec fn view(&self) -> ColumnV {
        match self {
            Column::Boolean(v) => ColumnV::Boolean(v@),
            Column::Int32(v) => ColumnV::Int32(v@),
            Column::Int64(v) => ColumnV::Int64(v@),
            Column::Float64(v) => ColumnV::Float64(v.deep_view()),
            Column::Utf8(v) => ColumnV::Utf8(v.deep_view()),
        }
    }
}

/// The number of rows a column holds.
pub open spec fn col_len(c: ColumnV) -> nat {
    match c {
        ColumnV::Boolean(v) => v.len(),
        ColumnV::Int32(v) => v.len(),
        ColumnV::Int64(v) => v.len(),
        ColumnV::Float64(v) => v.len(),
        ColumnV::Utf8(v) => v.len(),
    }
}

/// The data type a column carries.
pub open spec fn col_type(c: ColumnV) -> DataType {
    match c {
        ColumnV::Boolean(_) => DataType::Boolean,
        ColumnV::Int32(_) => DataType::Int32,
        ColumnV::Int64(_) => DataType::Int64,
        ColumnV::Float64(_) => DataType::Float64,
        ColumnV::Utf8(_) => DataType::Utf8,
    }
}

/// Every present floating-point cell is a parseable literal.
pub open spec fn col_floats_parseable(c: ColumnV) -> bool {
    c matches ColumnV::Float64(v) ==> forall|r: int|
        0 <= r < v.len() ==> ((#[trigger] v[r]) matches Some(ch) ==> is_float_syntax(
            encode_utf8(ch),
        ))
}

/// The column values of a batch, in schema order.
pub open spec fn batch_cols(b: Batch) -> Seq<ColumnV> {
    b.columns@.map_values(|c: Column| c@)
}

/// A group of rows as parallel per-column arrays sharing one row count.
#[derive(Debug)]
pub struct Batch {
    pub columns: Vec<Column>,
    pub rows: usize,
}

impl Batch {
    /// The batch fits the schema: one column per field, of the field's
    /// type, every column as long as the batch has rows, and every
    /// floating-point cell parseable.
    pub open spec fn wf(&self, schema: Seq<FieldV>) -> bool {
        &&& self.columns@.len() == schema.len()
        &&& forall|j: int|
            0 <= j < schema.len() ==> col_type(#[trigger] self.columns@[j]@) == schema[j].data_type
        &&& forall|j: int|
            0 <= j < schema.len() ==> col_len(#[trigger] self.columns@[j]@) == self.rows
        &&& forall|j: int| 0 <= j < schema.len() ==> col_floats_parseable(#[trigger] self.columns@[j]@)
    }

    /// The number of rows in the batch.
    pub fn num_rows(&self) -> (n: usize)
        ensures
            n == self.rows,
    {
        self.rows
    }
}

} // verus!
