//! The row decoder: a forward-only sequence of columnar batches read from
//! the source rows, each row parsed positionally against the resolved
//! schema. Decoding is fail-fast: the first row that does not fit the
//! schema aborts the sequence.

use vstd::prelude::*;
use vstd::utf8::decode_utf8;
use vstd::utf8::decode_utf8_encode_utf8;
use vstd::utf8::valid_utf8;

use crate::batch::col_floats_parseable;
use crate::batch::col_len;
use crate::batch::col_type;
use crate::batch::Batch;
use crate::batch::Column;
use crate::batch::ColumnV;
use crate::cells::bool_cell_val;
use crate::cells::bytes_to_string;
use crate::cells::is_float_cell;
use crate::cells::is_float_syntax;
use crate::cells::parse_bool_cell;
use crate::cells::parse_i32_cell;
use crate::cells::parse_i32_spec;
use crate::cells::parse_i64_cell;
use crate::cells::parse_i64_spec;
use crate::CellFault;
use crate::DecodeError;
use crate::rows::data_rows_of;
use crate::rows::split_rows;
use crate::schema::ColumnSchema;
use crate::schema::DataType;
use crate::schema::Field;
use crate::schema::FieldV;

verus! {

/// The value of a boolean cell; an empty cell is a null.
pub open spec fn bool_value(cell: Seq<u8>) -> Option<bool> {
    if cell.len() == 0 {
        Option::None
    } else {
        bool_cell_val(cell)
    }
}

pub open spec fn i32_value(cell: Seq<u8>) -> Option<i32> {
    if cell.len() == 0 {
        Option::None
    } else {
        parse_i32_spec(cell)
    }
}

pub open spec fn i64_value(cell: Seq<u8>) -> Option<i64> {
    if cell.len() == 0 {
        Option::None
    } else {
        parse_i64_spec(cell)
    }
}

/// The value of a text or floating-point cell: its decoded characters.
pub open spec fn text_value(cell: Seq<u8>) -> Option<Seq<char>> {
    if cell.len() == 0 {
        Option::None
    } else {
        Option::Some(decode_utf8(cell))
    }
}

/// Whether one cell coerces to its column's declared type.
pub open spec fn cell_ok(cell: Seq<u8>, f: FieldV) -> bool {
    if cell.len() == 0 {
        f.nullable
    } else {
        match f.data_type {
            DataType::Boolean => bool_cell_val(cell) is Some,
            DataType::Int32 => parse_i32_spec(cell) is Some,
            DataType::Int64 => parse_i64_spec(cell) is Some,
            DataType::Float64 => valid_utf8(cell) && is_float_syntax(cell),
            DataType::Utf8 => valid_utf8(cell),
        }
    }
}

/// The fault reported for a cell that does not coerce.
pub open spec fn cell_fault_of(cell: Seq<u8>, f: FieldV) -> CellFault {
    if cell.len() == 0 {
        CellFault::NullNotAllowed
    } else if f.data_type == DataType::Utf8 {
        CellFault::InvalidText
    } else {
        CellFault::Unparseable
    }
}

/// A row fits the schema: one cell per field, each cell coercible.
pub open spec fn row_ok(row: Seq<Seq<u8>>, schema: Seq<FieldV>) -> bool {
    row.len() == schema.len() && forall|j: int|
        0 <= j < schema.len() ==> cell_ok(#[trigger] row[j], schema[j])
}

/// What a decode failure reports of a row: a field-count mismatch, or the
/// first cell that does not coerce.
pub open spec fn row_error(row: Seq<Seq<u8>>, schema: Seq<FieldV>, col: int, fault: CellFault) -> bool {
    if row.len() != schema.len() {
        col == 0 && fault == CellFault::WrongFieldCount
    } else {
        &&& 0 <= col < schema.len()
        &&& !cell_ok(row[col], schema[col])
        &&& fault == cell_fault_of(row[col], schema[col])
        &&& forall|t: int| 0 <= t < col ==> cell_ok(#[trigger] row[t], schema[t])
    }
}

/// Checks one cell against its field.
fn check_cell(cell: &Vec<u8>, f: &Field) -> (r: Option<CellFault>)
    ensures
        r is None <==> cell_ok(cell@, f@),
        r matches Some(e) ==> e == cell_fault_of(cell@, f@),
{
    if cell.len() == 0 {
        if f.nullable {
            Option::None
        } else {
            Option::Some(CellFault::NullNotAllowed)
        }
    } else {
        match f.data_type {
            DataType::Boolean => match parse_bool_cell(cell.as_slice()) {
                Some(_) => Option::None,
                None => Option::Some(CellFault::Unparseable),
            },
            DataType::Int32 => match parse_i32_cell(cell.as_slice()) {
                Some(_) => Option::None,
                None => Option::Some(CellFault::Unparseable),
            },
            DataType::Int64 => match parse_i64_cell(cell.as_slice()) {
                Some(_) => Option::None,
                None => Option::Some(CellFault::Unparseable),
            },
            DataType::Float64 => {
                let text_ok = bytes_to_string(cell.clone()).is_some();
                if text_ok && is_float_cell(cell.as_slice()) {
                    Option::None
                } else {
                    Option::Some(CellFault::Unparseable)
                }
            },
            DataType::Utf8 => match bytes_to_string(cell.clone()) {
                Some(_) => Option::None,
                None => Option::Some(CellFault::InvalidText),
            },
        }
    }
}

/// Checks one row against the schema, reporting the first bad cell.
fn check_row(row: &Vec<Vec<u8>>, schema: &ColumnSchema) -> (r: Option<(usize, CellFault)>)
    ensures
        r is None <==> row_ok(row.deep_view(), schema@),
        r matches Some((c, e)) ==> row_error(row.deep_view(), schema@, c as int, e),
{
    let n = schema.len();
    if row.len() != n {
        return Option::Some((0, CellFault::WrongFieldCount));
    }
    let mut j: usize = 0;
    while j < n
        invariant
            j <= n == schema@.len() == row.deep_view().len(),
            row.deep_view().len() == row@.len(),
            forall|t: int| 0 <= t < j ==> cell_ok(#[trigger] row.deep_view()[t], schema@[t]),
        decreases n - j,
    {
        match check_cell(&row[j], schema.field(j)) {
            Some(e) => {
                proof {
                    assert(row.deep_view()[j as int] == row@[j as int]@);
                }
                return Option::Some((j, e));
            },
            None => {
                proof {
                    assert(row.deep_view()[j as int] == row@[j as int]@);
                }
            },
        }
        j += 1;
    }
    Option::None
}

/// The cells of column `j` across the given rows.
pub open spec fn column_cells(rows: Seq<Seq<Seq<u8>>>, j: int) -> Seq<Seq<u8>> {
    Seq::new(rows.len(), |r: int| rows[r][j])
}

/// The decoded column over the given cells, by declared type.
pub open spec fn decoded_column(cells: Seq<Seq<u8>>, dt: DataType) -> ColumnV {
    match dt {
        DataType::Boolean => ColumnV::Boolean(cells.map_values(|c: Seq<u8>| bool_value(c))),
        DataType::Int32 => ColumnV::Int32(cells.map_values(|c: Seq<u8>| i32_value(c))),
        DataType::Int64 => ColumnV::Int64(cells.map_values(|c: Seq<u8>| i64_value(c))),
        DataType::Float64 => ColumnV::Float64(cells.map_values(|c: Seq<u8>| text_value(c))),
        DataType::Utf8 => ColumnV::Utf8(cells.map_values(|c: Seq<u8>| text_value(c))),
    }
}

/// Turns a text-like cell into its string value.
fn text_cell(cell: &Vec<u8>) -> (r: Option<String>)
    requires
        cell@.len() > 0 ==> valid_utf8(cell@),
    ensures
        r.deep_view() == text_value(cell@),
{
    if cell.len() == 0 {
        Option::None
    } else {
        match bytes_to_string(cell.clone()) {
            Some(s) => Option::Some(s),
            None => vstd::pervasive::unreached(),
        }
    }
}

/// Builds the array of column `j` over the rows `lo..hi`.
fn build_column(rows: &Vec<Vec<Vec<u8>>>, lo: usize, hi: usize, j: usize, f: &Field) -> (c: Column)
    requires
        lo <= hi <= rows@.len(),
        forall|r: int| lo <= r < hi ==> j < (#[trigger] rows.deep_view()[r]).len() && cell_ok(
            rows.deep_view()[r][j as int],
            f@,
        ),
    ensures
        c@ == decoded_column(
            column_cells(rows.deep_view().subrange(lo as int, hi as int), j as int),
            f.data_type,
        ),
        col_floats_parseable(c@),
{
    let ghost cells = column_cells(rows.deep_view().subrange(lo as int, hi as int), j as int);
    proof {
        assert(forall|t: int| 0 <= t < cells.len() ==> cells[t] == rows.deep_view()[lo + t][j as int]);
    }
    match f.data_type {
        DataType::Boolean => {
            let mut v: Vec<Option<bool>> = Vec::new();
            let mut r: usize = lo;
            while r < hi
                invariant
                    lo <= r <= hi <= rows@.len(),
                    cells == column_cells(
                        rows.deep_view().subrange(lo as int, hi as int),
                        j as int,
                    ),
                    forall|t: int| lo <= t < hi ==> j < (#[trigger] rows.deep_view()[t]).len()
                        && cell_ok(rows.deep_view()[t][j as int], f@),
                    f.data_type == DataType::Boolean,
                    v@ =~= cells.take(r - lo).map_values(|c: Seq<u8>| bool_value(c)),
                decreases hi - r,
            {
                proof {
                    assert(rows.deep_view()[r as int] == rows@[r as int].deep_view());
                    assert(j < rows@[r as int]@.len());
                }
                let cell = &rows[r][j];
                proof {
                    assert(cell@ == rows.deep_view()[r as int][j as int]);
                    assert(cells[r - lo] == cell@);
                }
                let x = if cell.len() == 0 {
                    Option::None
                } else {
                    match parse_bool_cell(cell.as_slice()) {
                        Some(b) => Option::Some(b),
                        None => vstd::pervasive::unreached(),
                    }
                };
                v.push(x);
                proof {
                    assert(cells.take(r + 1 - lo).drop_last() =~= cells.take(r - lo));
                    assert(v@ =~= cells.take(r + 1 - lo).map_values(|c: Seq<u8>| bool_value(c)));
                }
                r += 1;
            }
            proof {
                assert(cells.take(hi - lo) =~= cells);
            }
            Column::Boolean(v)
        },
        DataType::Int32 => {
            let mut v: Vec<Option<i32>> = Vec::new();
            let mut r: usize = lo;
            while r < hi
                invariant
                    lo <= r <= hi <= rows@.len(),
                    cells == column_cells(
                        rows.deep_view().subrange(lo as int, hi as int),
                        j as int,
                    ),
                    forall|t: int| lo <= t < hi ==> j < (#[trigger] rows.deep_view()[t]).len()
                        && cell_ok(rows.deep_view()[t][j as int], f@),
                    f.data_type == DataType::Int32,
                    v@ =~= cells.take(r - lo).map_values(|c: Seq<u8>| i32_value(c)),
                decreases hi - r,
            {
                proof {
                    assert(rows.deep_view()[r as int] == rows@[r as int].deep_view());
                    assert(j < rows@[r as int]@.len());
                }
                let cell = &rows[r][j];
                proof {
                    assert(cell@ == rows.deep_view()[r as int][j as int]);
                    assert(cells[r - lo] == cell@);
                }
                let x = if cell.len() == 0 {
                    Option::None
                } else {
                    match parse_i32_cell(cell.as_slice()) {
                        Some(b) => Option::Some(b),
                        None => vstd::pervasive::unreached(),
                    }
                };
                v.push(x);
                proof {
                    assert(cells.take(r + 1 - lo).drop_last() =~= cells.take(r - lo));
                    assert(v@ =~= cells.take(r + 1 - lo).map_values(|c: Seq<u8>| i32_value(c)));
                }
                r += 1;
            }
            proof {
                assert(cells.take(hi - lo) =~= cells);
            }
            Column::Int32(v)
        },
        DataType::Int64 => {
            let mut v: Vec<Option<i64>> = Vec::new();
            let mut r: usize = lo;
            while r < hi
                invariant
                    lo <= r <= hi <= rows@.len(),
                    cells == column_cells(
                        rows.deep_view().subrange(lo as int, hi as int),
                        j as int,
                    ),
                    forall|t: int| lo <= t < hi ==> j < (#[trigger] rows.deep_view()[t]).len()
                        && cell_ok(rows.deep_view()[t][j as int], f@),
                    f.data_type == DataType::Int64,
                    v@ =~= cells.take(r - lo).map_values(|c: Seq<u8>| i64_value(c)),
                decreases hi - r,
            {
                proof {
                    assert(rows.deep_view()[r as int] == rows@[r as int].deep_view());
                    assert(j < rows@[r as int]@.len());
                }
                let cell = &rows[r][j];
                proof {
                    assert(cell@ == rows.deep_view()[r as int][j as int]);
                    assert(cells[r - lo] == cell@);
                }
                let x = if cell.len() == 0 {
                    Option::None
                } else {
                    match parse_i64_cell(cell.as_slice()) {
                        Some(b) => Option::Some(b),
                        None => vstd::pervasive::unreached(),
                    }
                };
                v.push(x);
                proof {
                    assert(cells.take(r + 1 - lo).drop_last() =~= cells.take(r - lo));
                    assert(v@ =~= cells.take(r + 1 - lo).map_values(|c: Seq<u8>| i64_value(c)));
                }
                r += 1;
            }
            proof {
                assert(cells.take(hi - lo) =~= cells);
            }
            Column::Int64(v)
        },
        DataType::Float64 => {
            let mut v: Vec<Option<String>> = Vec::new();
            let mut r: usize = lo;
            while r < hi
                invariant
                    lo <= r <= hi <= rows@.len(),
                    cells == column_cells(
                        rows.deep_view().subrange(lo as int, hi as int),
                        j as int,
                    ),
                    forall|t: int| lo <= t < hi ==> j < (#[trigger] rows.deep_view()[t]).len()
                        && cell_ok(rows.deep_view()[t][j as int], f@),
                    f.data_type == DataType::Float64,
                    v.deep_view() =~= cells.take(r - lo).map_values(|c: Seq<u8>| text_value(c)),
                    forall|t: int| 0 <= t < v.deep_view().len() ==> ((#[trigger] v.deep_view()[t])
                        matches Some(ch) ==> is_float_syntax(vstd::utf8::encode_utf8(ch))),
                decreases hi - r,
            {
                proof {
                    assert(rows.deep_view()[r as int] == rows@[r as int].deep_view());
                    assert(j < rows@[r as int]@.len());
                }
                let cell = &rows[r][j];
                proof {
                    assert(cell@ == rows.deep_view()[r as int][j as int]);
                    assert(cells[r - lo] == cell@);
                    if cell@.len() > 0 {
                        decode_utf8_encode_utf8(cell@);
                    }
                }
                let x = text_cell(cell);
                let ghost old_v = v.deep_view();
                v.push(x);
                proof {
                    assert(v.deep_view() =~= old_v.push(x.deep_view()));
                    assert(cells.take(r + 1 - lo).drop_last() =~= cells.take(r - lo));
                    assert(v.deep_view() =~= cells.take(r + 1 - lo).map_values(
                        |c: Seq<u8>| text_value(c),
                    ));
                }
                r += 1;
            }
            proof {
                assert(cells.take(hi - lo) =~= cells);
            }
            Column::Float64(v)
        },
        DataType::Utf8 => {
            let mut v: Vec<Option<String>> = Vec::new();
            let mut r: usize = lo;
            while r < hi
                invariant
                    lo <= r <= hi <= rows@.len(),
                    cells == column_cells(
                        rows.deep_view().subrange(lo as int, hi as int),
                        j as int,
                    ),
                    forall|t: int| lo <= t < hi ==> j < (#[trigger] rows.deep_view()[t]).len()
                        && cell_ok(rows.deep_view()[t][j as int], f@),
                    f.data_type == DataType::Utf8,
                    v.deep_view() =~= cells.take(r - lo).map_values(|c: Seq<u8>| text_value(c)),
                decreases hi - r,
            {
                proof {
                    assert(rows.deep_view()[r as int] == rows@[r as int].deep_view());
                    assert(j < rows@[r as int]@.len());
                }
                let cell = &rows[r][j];
                proof {
                    assert(cell@ == rows.deep_view()[r as int][j as int]);
                    assert(cells[r - lo] == cell@);
                }
                let x = text_cell(cell);
                let ghost old_v = v.deep_view();
                v.push(x);
                proof {
                    assert(v.deep_view() =~= old_v.push(x.deep_view()));
                    assert(cells.take(r + 1 - lo).drop_last() =~= cells.take(r - lo));
                    assert(v.deep_view() =~= cells.take(r + 1 - lo).map_values(
                        |c: Seq<u8>| text_value(c),
                    ));
                }
                r += 1;
            }
            proof {
                assert(cells.take(hi - lo) =~= cells);
            }
            Column::Utf8(v)
        },
    }
}

/// Builds the batch over the rows `lo..hi`, every one of which fits the
/// schema.
fn build_batch(rows: &Vec<Vec<Vec<u8>>>, lo: usize, hi: usize, schema: &ColumnSchema) -> (b: Batch)
    requires
        lo <= hi <= rows@.len(),
        forall|r: int| lo <= r < hi ==> row_ok(#[trigger] rows.deep_view()[r], schema@),
    ensures
        b.wf(schema@),
        b.rows == hi - lo,
        forall|j: int| 0 <= j < schema@.len() ==> #[trigger] b.columns@[j]@ == decoded_column(
            column_cells(rows.deep_view().subrange(lo as int, hi as int), j),
            schema@[j].data_type,
        ),
{
    let n = schema.len();
    let mut columns: Vec<Column> = Vec::new();
    let mut j: usize = 0;
    while j < n
        invariant
            j <= n == schema@.len(),
            lo <= hi <= rows@.len(),
            forall|r: int| lo <= r < hi ==> row_ok(#[trigger] rows.deep_view()[r], schema@),
            columns@.len() == j,
            forall|t: int| 0 <= t < j ==> #[trigger] columns@[t]@ == decoded_column(
                column_cells(rows.deep_view().subrange(lo as int, hi as int), t),
                schema@[t].data_type,
            ),
            forall|t: int| 0 <= t < j ==> col_floats_parseable(#[trigger] columns@[t]@),
        decreases n - j,
    {
        let f = schema.field(j);
        proof {
            assert forall|r: int| lo <= r < hi implies j < (#[trigger] rows.deep_view()[r]).len()
                && cell_ok(rows.deep_view()[r][j as int], f@) by {
                assert(row_ok(rows.deep_view()[r], schema@));
            }
        }
        let c = build_column(rows, lo, hi, j, f);
        columns.push(c);
        j += 1;
    }
    let b = Batch { columns, rows: hi - lo };
    proof {
        assert forall|t: int| 0 <= t < schema@.len() implies col_type(#[trigger] b.columns@[t]@)
            == schema@[t].data_type && col_len(b.columns@[t]@) == b.rows by {
            let cells = column_cells(rows.deep_view().subrange(lo as int, hi as int), t);
            assert(b.columns@[t]@ == decoded_column(cells, schema@[t].data_type));
            assert(cells.len() == hi - lo);
        }
    }
    b
}

/// A lazy, forward-only sequence of columnar batches over the data rows.
pub struct RowDecoder {
    pub schema: ColumnSchema,
    pub rows: Vec<Vec<Vec<u8>>>,
    pub pos: usize,
    pub batch_rows: usize,
}

impl RowDecoder {
    pub open spec fn wf(&self) -> bool {
        self.pos <= self.rows@.len() && self.batch_rows >= 1
    }

    /// Opens a decoder over the source bytes: all rows after the header
    /// row, when one is present, in source order.
    pub fn new(
        src: &[u8],
        delimiter: u8,
        has_header: bool,
        schema: ColumnSchema,
        batch_rows: usize,
    ) -> (d: RowDecoder)
        requires
            batch_rows >= 1,
        ensures
            d.wf(),
            d.rows.deep_view() == data_rows_of(src@, delimiter, has_header),
            d.pos == 0,
            d.schema == schema,
            d.batch_rows == batch_rows,
    {
        let mut rows = split_rows(src, delimiter);
        if has_header && rows.len() > 0 {
            let ghost before = rows.deep_view();
            rows.remove(0);
            proof {
                assert(rows.deep_view() =~~= before.skip(1));
            }
        } else {
            proof {
                assert(rows.deep_view() =~~= data_rows_of(src@, delimiter, has_header));
            }
        }
        RowDecoder { schema, rows, pos: 0, batch_rows }
    }

    /// How many data rows the source holds in all.
    pub fn total_rows(&self) -> (n: usize)
        ensures
            n == self.rows@.len(),
    {
        self.rows.len()
    }

    /// Produces the next batch: `Ok(None)` at end of input, or the first
    /// offending row, fail-fast, with nothing consumed.
    pub fn next_batch(&mut self) -> (r: Result<Option<Batch>, DecodeError>)
        requires
            old(self).wf(),
        ensures
            final(self).wf(),
            final(self).schema == old(self).schema,
            final(self).rows == old(self).rows,
            final(self).batch_rows == old(self).batch_rows,
            r matches Ok(None) <==> old(self).pos == old(self).rows@.len(),
            r matches Ok(None) ==> final(self).pos == old(self).pos,
            r matches Ok(Some(b)) ==> {
                let lo = old(self).pos as int;
                let hi = final(self).pos as int;
                &&& lo < hi <= old(self).rows@.len()
                &&& hi == if lo + old(self).batch_rows <= old(self).rows@.len() {
                    lo + old(self).batch_rows
                } else {
                    old(self).rows@.len() as int
                }
                &&& b.wf(old(self).schema@)
                &&& b.rows == hi - lo
                &&& forall|t: int| lo <= t < hi ==> row_ok(
                    #[trigger] old(self).rows.deep_view()[t],
                    old(self).schema@,
                )
                &&& forall|j: int| 0 <= j < old(self).schema@.len()
                    ==> #[trigger] b.columns@[j]@ == decoded_column(
                    column_cells(old(self).rows.deep_view().subrange(lo, hi), j),
                    old(self).schema@[j].data_type,
                )
            },
            r matches Err(e) ==> {
                &&& final(self).pos == old(self).pos
                &&& old(self).pos <= e.row < old(self).rows@.len()
                &&& !row_ok(old(self).rows.deep_view()[e.row as int], old(self).schema@)
                &&& row_error(
                    old(self).rows.deep_view()[e.row as int],
                    old(self).schema@,
                    e.col as int,
                    e.fault,
                )
                &&& forall|t: int| old(self).pos <= t < e.row ==> row_ok(
                    #[trigger] old(self).rows.deep_view()[t],
                    old(self).schema@,
                )
            },
    {
        let n = self.rows.len();
        if self.pos == n {
            return Ok(None);
        }
        let remaining = n - self.pos;
        let step = if remaining < self.batch_rows {
            remaining
        } else {
            self.batch_rows
        };
        let end = self.pos + step;
        let mut i: usize = self.pos;
        while i < end
            invariant
                self.pos <= i <= end <= n == self.rows@.len(),
                self.batch_rows >= 1,
                forall|t: int| self.pos <= t < i ==> row_ok(
                    #[trigger] self.rows.deep_view()[t],
                    self.schema@,
                ),
            decreases end - i,
        {
            match check_row(&self.rows[i], &self.schema) {
                Some((c, e)) => {
                    proof {
                        assert(self.rows.deep_view()[i as int] == self.rows@[i as int].deep_view());
                        assert(!row_ok(self.rows.deep_view()[i as int], self.schema@));
                    }
                    return Err(DecodeError { row: i, col: c, fault: e });
                },
                None => {
                    proof {
                        assert(self.rows.deep_view()[i as int] == self.rows@[i as int].deep_view());
                    }
                },
            }
            i += 1;
        }
        let b = build_batch(&self.rows, self.pos, end, &self.schema);
        self.pos = end;
        Ok(Some(b))
    }
}

} // verus!
