//! Schema inference: sample data rows and widen each column's type over a
//! fixed promotion lattice (integer, then floating point, then text); a
//! null (empty) cell never narrows a column. Every inferred field is
//! nullable. Sampling zero rows resolves every column to nullable text.

use vstd::prelude::*;
use vstd::utf8::decode_utf8;
use vstd::utf8::encode_utf8;
use vstd::utf8::encode_utf8_decode_utf8;
use vstd::utf8::encode_utf8_valid_utf8;
use vstd::utf8::is_ascii_chars;
use vstd::utf8::is_ascii_chars_encode_utf8;
use vstd::utf8::valid_utf8;

use crate::SchemaError;
use crate::cells::bytes_to_string;
use crate::cells::cell_class;
use crate::cells::classify_cell;
use crate::cells::CellClass;
use crate::rows::data_rows_of;
use crate::rows::rows_of;
use crate::rows::split_rows;
use crate::schema::ColumnSchema;
use crate::schema::DataType;
use crate::schema::Field;
use crate::schema::FieldV;
use crate::schema::unique_names;

verus! {

/// What a column's sampled cells have established so far.
#[derive(Clone, Copy, PartialEq, Eq, Structural, Debug)]
pub enum InferredKind {
    /// No non-null cell sampled yet.
    Unsampled,
    Integer,
    Floating,
    Text,
}

/// The promotion lattice: a cell class widens a column's kind, and text
/// absorbs everything; null cells change nothing.
pub open spec fn widen(k: InferredKind, c: CellClass) -> InferredKind {
    match c {
        CellClass::Null => k,
        CellClass::Integer => match k {
            InferredKind::Unsampled => InferredKind::Integer,
            _ => k,
        },
        CellClass::Floating => match k {
            InferredKind::Unsampled => InferredKind::Floating,
            InferredKind::Integer => InferredKind::Floating,
            _ => k,
        },
        CellClass::Text => InferredKind::Text,
    }
}

pub fn widen_kind(k: InferredKind, c: CellClass) -> (r: InferredKind)
    ensures
        r == widen(k, c),
{
    match c {
        CellClass::Null => k,
        CellClass::Integer => match k {
            InferredKind::Unsampled => InferredKind::Integer,
            _ => k,
        },
        CellClass::Floating => match k {
            InferredKind::Unsampled => InferredKind::Floating,
            InferredKind::Integer => InferredKind::Floating,
            _ => k,
        },
        CellClass::Text => InferredKind::Text,
    }
}

/// The kind of column `j` after folding the sampled rows top to bottom.
/// A row too short to reach column `j` contributes nothing to it.
pub open spec fn col_kind_rows(rows: Seq<Seq<Seq<u8>>>, j: int) -> InferredKind
    decreases rows.len(),
{
    if rows.len() == 0 {
        InferredKind::Unsampled
    } else {
        let k = col_kind_rows(rows.drop_last(), j);
        if 0 <= j < rows.last().len() {
            widen(k, cell_class(rows.last()[j]))
        } else {
            k
        }
    }
}

/// The data type a finished kind resolves to.
pub open spec fn kind_type(k: InferredKind) -> DataType {
    match k {
        InferredKind::Unsampled => DataType::Utf8,
        InferredKind::Integer => DataType::Int64,
        InferredKind::Floating => DataType::Float64,
        InferredKind::Text => DataType::Utf8,
    }
}

pub fn kind_data_type(k: InferredKind) -> (r: DataType)
    ensures
        r == kind_type(k),
{
    match k {
        InferredKind::Unsampled => DataType::Utf8,
        InferredKind::Integer => DataType::Int64,
        InferredKind::Floating => DataType::Float64,
        InferredKind::Text => DataType::Utf8,
    }
}

/// The data rows that inference reads: all of them, or the first
/// `max_records` when a bound is given.
pub open spec fn sampled_rows(
    src: Seq<u8>,
    delimiter: u8,
    max_records: Option<usize>,
    has_header: bool,
) -> Seq<Seq<Seq<u8>>> {
    let d = data_rows_of(src, delimiter, has_header);
    match max_records {
        Option::None => d,
        Option::Some(m) => if m < d.len() {
            d.take(m as int)
        } else {
            d
        },
    }
}

/// The number of columns: the width of the first row.
pub open spec fn spec_col_count(src: Seq<u8>, delimiter: u8) -> int {
    let rows = rows_of(src, delimiter);
    if rows.len() == 0 {
        0
    } else {
        rows[0].len() as int
    }
}

/// The decimal digits of `n`, as bytes.
pub open spec fn dec_bytes(n: nat) -> Seq<u8>
    decreases n,
{
    if n < 10 {
        seq![(48 + n) as u8]
    } else {
        dec_bytes(n / 10).push((48 + n % 10) as u8)
    }
}

pub proof fn lemma_dec_bytes_ascii(n: nat)
    ensures
        forall|i: int| 0 <= i < dec_bytes(n).len() ==> 48 <= #[trigger] dec_bytes(n)[i] <= 57,
    decreases n,
{
    if n < 10 {
        assert(dec_bytes(n)[0] == (48 + n) as u8);
    } else {
        lemma_dec_bytes_ascii(n / 10);
        assert forall|i: int| 0 <= i < dec_bytes(n).len() implies 48 <= #[trigger] dec_bytes(n)[i]
            <= 57 by {
            if i < dec_bytes(n / 10).len() {
                assert(dec_bytes(n)[i] == dec_bytes(n / 10)[i]);
            } else {
                assert(dec_bytes(n)[i] == (48 + n % 10) as u8);
            }
        }
    }
}

/// The generated name of column `j` where no header row names it.
pub open spec fn column_name_chars(j: nat) -> Seq<char> {
    seq!['c', 'o', 'l', 'u', 'm', 'n', '_'] + dec_bytes(j + 1).map_values(|b: u8| b as char)
}

/// The name of column `j`: the decoded header cell, or a generated name.
pub open spec fn inferred_name(
    src: Seq<u8>,
    delimiter: u8,
    has_header: bool,
    j: int,
) -> Seq<char> {
    if has_header {
        decode_utf8(rows_of(src, delimiter)[0][j])
    } else {
        column_name_chars(j as nat)
    }
}

/// The schema that inference resolves: one nullable field per column of
/// the first row, typed by the promotion lattice over the sampled rows.
pub open spec fn inferred_fields(
    src: Seq<u8>,
    delimiter: u8,
    max_records: Option<usize>,
    has_header: bool,
) -> Seq<FieldV> {
    Seq::new(
        spec_col_count(src, delimiter) as nat,
        |j: int|
            FieldV {
                name: inferred_name(src, delimiter, has_header, j),
                data_type: kind_type(
                    col_kind_rows(sampled_rows(src, delimiter, max_records, has_header), j),
                ),
                nullable: true,
            },
    )
}

/// Every header cell is decodable text.
pub open spec fn header_decodable(src: Seq<u8>, delimiter: u8, has_header: bool) -> bool {
    has_header ==> {
        let rows = rows_of(src, delimiter);
        rows.len() == 0 || forall|j: int|
            0 <= j < rows[0].len() ==> valid_utf8(#[trigger] rows[0][j])
    }
}

/// Law: resolving a schema twice from identical source bytes and
/// identical sampling parameters yields field-for-field identical
/// schemas; inference depends on nothing but its inputs.
pub proof fn lemma_schema_determinism(
    r1: Seq<FieldV>,
    r2: Seq<FieldV>,
    src: Seq<u8>,
    delimiter: u8,
    max_records: Option<usize>,
    has_header: bool,
)
    requires
        r1 == inferred_fields(src, delimiter, max_records, has_header),
        r2 == inferred_fields(src, delimiter, max_records, has_header),
    ensures
        r1 == r2,
{
}

/// Law: a column all of whose sampled cells are integer-shaped resolves
/// to the 64-bit integer type, never to text; and a column with any
/// text-shaped cell resolves to text.
pub proof fn lemma_widening_monotonic(rows: Seq<Seq<Seq<u8>>>, j: int)
    requires
        0 <= j,
    ensures
        (rows.len() > 0 && (forall|i: int|
            0 <= i < rows.len() ==> j < (#[trigger] rows[i]).len() && cell_class(rows[i][j])
                == CellClass::Integer)) ==> col_kind_rows(rows, j) == InferredKind::Integer
            && kind_type(col_kind_rows(rows, j)) == DataType::Int64,
        (exists|i: int|
            0 <= i < rows.len() && j < (#[trigger] rows[i]).len() && cell_class(rows[i][j])
                == CellClass::Text) ==> col_kind_rows(rows, j) == InferredKind::Text && kind_type(
            col_kind_rows(rows, j),
        ) == DataType::Utf8,
    decreases rows.len(),
{
    if rows.len() == 0 {
    } else {
        let prefix = rows.drop_last();
        lemma_widening_monotonic(prefix, j);
        assert(forall|i: int| 0 <= i < prefix.len() ==> prefix[i] == rows[i]);
        if rows.len() > 0 && (forall|i: int|
            0 <= i < rows.len() ==> j < (#[trigger] rows[i]).len() && cell_class(rows[i][j])
                == CellClass::Integer) {
            assert(cell_class(rows.last()[j]) == CellClass::Integer);
        }
        if exists|i: int|
            0 <= i < rows.len() && j < (#[trigger] rows[i]).len() && cell_class(rows[i][j])
                == CellClass::Text {
            let w = choose|i: int|
                0 <= i < rows.len() && j < (#[trigger] rows[i]).len() && cell_class(rows[i][j])
                    == CellClass::Text;
            if w < prefix.len() {
                assert(0 <= w < prefix.len() && j < prefix[w].len() && cell_class(prefix[w][j])
                    == CellClass::Text);
                assert(col_kind_rows(prefix, j) == InferredKind::Text);
            } else {
                assert(rows.last() == rows[w]);
                assert(cell_class(rows.last()[j]) == CellClass::Text);
            }
        }
    }
}

/// Law: sampling zero rows resolves every field to nullable text,
/// regardless of what the data holds.
pub proof fn lemma_zero_sample(src: Seq<u8>, delimiter: u8, has_header: bool, j: int)
    requires
        0 <= j < spec_col_count(src, delimiter),
    ensures
        inferred_fields(src, delimiter, Option::Some(0), has_header)[j].data_type
            == DataType::Utf8,
        inferred_fields(src, delimiter, Option::Some(0), has_header)[j].nullable,
{
    let sampled = sampled_rows(src, delimiter, Option::Some(0), has_header);
    let d = data_rows_of(src, delimiter, has_header);
    if 0 < d.len() {
        assert(sampled =~= Seq::<Seq<Seq<u8>>>::empty());
    } else {
        assert(sampled =~= Seq::<Seq<Seq<u8>>>::empty());
    }
    assert(col_kind_rows(sampled, j) == InferredKind::Unsampled);
}

/// Builds the text whose characters are the given ASCII bytes.
fn ascii_string(v: Vec<u8>) -> (r: String)
    requires
        forall|i: int| 0 <= i < v@.len() ==> v@[i] < 128,
    ensures
        r@ == v@.map_values(|b: u8| b as char),
{
    proof {
        let chars = v@.map_values(|b: u8| b as char);
        assert(is_ascii_chars(chars));
        is_ascii_chars_encode_utf8(chars);
        assert(encode_utf8(chars) =~= v@);
        encode_utf8_valid_utf8(chars);
        encode_utf8_decode_utf8(chars);
    }
    match bytes_to_string(v) {
        Some(s) => s,
        None => vstd::pervasive::unreached(),
    }
}

/// Appends the decimal digits of `n`.
fn push_dec(n: usize, out: &mut Vec<u8>)
    ensures
        final(out)@ == old(out)@ + dec_bytes(n as nat),
    decreases n,
{
    if n >= 10 {
        push_dec(n / 10, out);
    }
    out.push((48 + (n % 10)) as u8);
    proof {
        if n >= 10 {
            assert(out@ =~= old(out)@ + dec_bytes(n as nat));
        } else {
            assert(out@ =~= old(out)@ + dec_bytes(n as nat));
        }
    }
}

/// Builds the generated name of column `j`.
fn column_name(j: usize) -> (r: String)
    requires
        j < usize::MAX,
    ensures
        r@ == column_name_chars(j as nat),
{
    let mut bytes: Vec<u8> = Vec::new();
    bytes.push(99);
    bytes.push(111);
    bytes.push(108);
    bytes.push(117);
    bytes.push(109);
    bytes.push(110);
    bytes.push(95);
    proof {
        assert(bytes@ =~= seq![99u8, 111u8, 108u8, 117u8, 109u8, 110u8, 95u8]);
    }
    push_dec(j + 1, &mut bytes);
    proof {
        lemma_dec_bytes_ascii((j + 1) as nat);
        assert(forall|i: int| 0 <= i < bytes@.len() ==> bytes@[i] < 128);
    }
    let s = ascii_string(bytes);
    proof {
        assert(s@ =~= column_name_chars(j as nat));
    }
    s
}

/// Resolves a schema by sampling the source, as the inference contract of
/// the schema resolver describes. Succeeds exactly when every header cell
/// is decodable and the resulting field names are unique; every inferred
/// field is nullable.
pub fn infer_schema(
    src: &[u8],
    delimiter: u8,
    max_records: Option<usize>,
    has_header: bool,
) -> (r: Result<ColumnSchema, SchemaError>)
    ensures
        r matches Ok(s) ==> s@ == inferred_fields(src@, delimiter, max_records, has_header)
            && s.wf(),
        r is Ok <==> header_decodable(src@, delimiter, has_header) && unique_names(
            inferred_fields(src@, delimiter, max_records, has_header),
        ),
        r matches Err(SchemaError::InvalidFieldName(j)) ==> has_header && 0 <= j
            < spec_col_count(src@, delimiter) && !valid_utf8(
            rows_of(src@, delimiter)[0][j as int],
        ),
        r matches Err(SchemaError::DuplicateFieldName(j)) ==> 0 <= j < spec_col_count(
            src@,
            delimiter,
        ) && exists|i: int|
            0 <= i < j && #[trigger] inferred_fields(src@, delimiter, max_records, has_header)[i].name
                == inferred_fields(src@, delimiter, max_records, has_header)[j as int].name,
{
    let ghost target = inferred_fields(src@, delimiter, max_records, has_header);
    let rows = split_rows(src, delimiter);
    if rows.len() == 0 {
        proof {
            assert(target =~= Seq::<FieldV>::empty());
            let fs = Seq::<Field>::empty().map_values(|f: Field| f@);
            assert(fs =~= Seq::<FieldV>::empty());
        }
        let r = ColumnSchema::from_fields(Vec::new());
        match r {
            Ok(s) => {
                return Ok(s);
            },
            Err(_) => {
                return vstd::pervasive::unreached();
            },
        }
    }
    let ncols = rows[0].len();
    proof {
        assert(rows.deep_view()[0] == rows@[0].deep_view());
        assert(ncols == spec_col_count(src@, delimiter));
    }
    let first_data: usize = if has_header {
        1
    } else {
        0
    };
    let data_len = if rows.len() >= first_data {
        rows.len() - first_data
    } else {
        0
    };
    let sample_n = match max_records {
        Option::Some(m) => if m < data_len {
            m
        } else {
            data_len
        },
        Option::None => data_len,
    };
    let ghost sampled = sampled_rows(src@, delimiter, max_records, has_header);
    proof {
        assert(rows.deep_view() == rows_of(src@, delimiter));
        assert(data_rows_of(src@, delimiter, has_header) =~= rows.deep_view().skip(
            first_data as int,
        ));
        assert(sampled =~= rows.deep_view().skip(first_data as int).take(sample_n as int));
    }
    // Fold the sampled rows into one kind per column.
    let mut kinds: Vec<InferredKind> = Vec::new();
    let mut j0: usize = 0;
    while j0 < ncols
        invariant
            j0 <= ncols,
            kinds@.len() == j0,
            forall|j: int| 0 <= j < j0 ==> kinds@[j] == InferredKind::Unsampled,
        decreases ncols - j0,
    {
        kinds.push(InferredKind::Unsampled);
        j0 += 1;
    }
    proof {
        assert(sampled.take(0) =~= Seq::<Seq<Seq<u8>>>::empty());
    }
    let mut i: usize = 0;
    while i < sample_n
        invariant
            i <= sample_n,
            first_data + sample_n <= rows@.len(),
            ncols == kinds@.len(),
            sampled =~= rows.deep_view().skip(first_data as int).take(sample_n as int),
            rows.deep_view() == rows_of(src@, delimiter),
            forall|j: int| 0 <= j < ncols ==> kinds@[j] == col_kind_rows(
                sampled.take(i as int),
                j,
            ),
        decreases sample_n - i,
    {
        proof {
            assert(first_data + i < rows@.len());
        }
        let row = &rows[first_data + i];
        proof {
            assert(sampled[i as int] == rows@[first_data + i as int].deep_view());
        }
        let mut j: usize = 0;
        while j < ncols
            invariant
                j <= ncols == kinds@.len(),
                i < sample_n,
                first_data + sample_n <= rows@.len(),
                sampled =~= rows.deep_view().skip(first_data as int).take(sample_n as int),
                rows.deep_view() == rows_of(src@, delimiter),
                row == &rows@[first_data + i as int],
                sampled[i as int] == rows@[first_data + i as int].deep_view(),
                forall|t: int| j <= t < ncols ==> kinds@[t] == col_kind_rows(
                    sampled.take(i as int),
                    t,
                ),
                forall|t: int| 0 <= t < j ==> kinds@[t] == col_kind_rows(
                    sampled.take(i + 1 as int),
                    t,
                ),
            decreases ncols - j,
        {
            let next = if j < row.len() {
                let c = classify_cell(row[j].as_slice());
                proof {
                    assert(sampled[i as int][j as int] == row@[j as int]@);
                }
                widen_kind(kinds[j], c)
            } else {
                kinds[j]
            };
            kinds.set(j, next);
            proof {
                let tk = sampled.take(i + 1 as int);
                assert(tk.drop_last() =~= sampled.take(i as int));
                assert(tk.last() == sampled[i as int]);
                assert(kinds@[j as int] == col_kind_rows(sampled.take(i + 1 as int), j as int));
            }
            j += 1;
        }
        i += 1;
    }
    proof {
        assert(sampled.take(sample_n as int) =~= sampled);
    }
    // Name each column and assemble the fields.
    let mut fields: Vec<Field> = Vec::new();
    let mut j: usize = 0;
    while j < ncols
        invariant
            j <= ncols == kinds@.len(),
            ncols == spec_col_count(src@, delimiter),
            rows.deep_view() == rows_of(src@, delimiter),
            rows@.len() >= 1,
            ncols == rows@[0]@.len(),
            target == inferred_fields(src@, delimiter, max_records, has_header),
            forall|t: int| 0 <= t < ncols ==> kinds@[t] == col_kind_rows(sampled, t),
            sampled == sampled_rows(src@, delimiter, max_records, has_header),
            fields@.len() == j,
            forall|t: int| 0 <= t < j ==> #[trigger] fields@[t]@ == target[t],
            has_header ==> forall|t: int| 0 <= t < j ==> valid_utf8(
                #[trigger] rows_of(src@, delimiter)[0][t],
            ),
        decreases ncols - j,
    {
        let name: String;
        if has_header {
            let cell = rows[0][j].clone();
            proof {
                assert(cell@ =~= rows@[0]@[j as int]@);
                assert(cell@ == rows_of(src@, delimiter)[0][j as int]);
            }
            match bytes_to_string(cell) {
                Some(s) => {
                    name = s;
                },
                None => {
                    proof {
                        assert(!header_decodable(src@, delimiter, has_header));
                    }
                    return Err(SchemaError::InvalidFieldName(j));
                },
            }
        } else {
            name = column_name(j);
        }
        let dt = kind_data_type(kinds[j]);
        let f = Field::new(name, dt, true);
        proof {
            assert(f@ == target[j as int]);
        }
        fields.push(f);
        j += 1;
    }
    proof {
        assert(fields@.map_values(|f: Field| f@) =~= target);
        assert(header_decodable(src@, delimiter, has_header));
    }
    let ghost fs = fields@.map_values(|f: Field| f@);
    match ColumnSchema::from_fields(fields) {
        Ok(s) => Ok(s),
        Err(e) => {
            proof {
                assert(fs =~= target);
                if let SchemaError::DuplicateFieldName(dup) = e {
                    let w = choose|i: int|
                        0 <= i < dup && #[trigger] fs[i].name == fs[dup as int].name;
                    assert(target[w].name == target[dup as int].name);
                }
            }
            Err(e)
        },
    }
}

} // verus!
