//! Splitting source bytes into rows of cells.
//!
//! The source is scanned once, left to right: cells end at an unquoted
//! delimiter, rows at an unquoted line break (`\n`, or `\r\n` taken as
//! one break). A double quote opens a quoted stretch in which delimiters
//! and line breaks are data and a doubled quote stands for one quote
//! character; the quotes themselves are not data. A trailing line break
//! opens no final empty row.

use vstd::prelude::*;

verus! {

/// Index of the first occurrence of `sep` in `s`, or `s.len()` if none.
pub open spec fn find_sep(s: Seq<u8>, sep: u8) -> int
    decreases s.len(),
{
    if s.len() == 0 {
        0
    } else if s[0] == sep {
        0
    } else {
        1 + find_sep(s.drop_first(), sep)
    }
}

/// `find_sep` is the one index below which no separator stands and at
/// which one stands, if any does.
pub proof fn lemma_find_sep_is(s: Seq<u8>, sep: u8, k: int)
    requires
        0 <= k <= s.len(),
        forall|t: int| 0 <= t < k ==> s[t] != sep,
        k < s.len() ==> s[k] == sep,
    ensures
        find_sep(s, sep) == k,
    decreases s.len(),
{
    if s.len() == 0 {
    } else if k == 0 {
    } else {
        assert(s[0] != sep);
        lemma_find_sep_is(s.drop_first(), sep, k - 1);
    }
}

/// The scan from position `i` in the given state: `cell` is the cell
/// being read, `row` the cells of the row being read, `rows` the rows
/// already read. At end of input a pending cell or row is closed; a
/// source ending right after a line break adds nothing.
pub open spec fn scan_rows(
    src: Seq<u8>,
    i: int,
    in_quotes: bool,
    cell: Seq<u8>,
    row: Seq<Seq<u8>>,
    rows: Seq<Seq<Seq<u8>>>,
    delimiter: u8,
) -> Seq<Seq<Seq<u8>>>
    decreases src.len() - i,
{
    if i < 0 || i >= src.len() {
        if cell.len() == 0 && row.len() == 0 {
            rows
        } else {
            rows.push(row.push(cell))
        }
    } else if in_quotes {
        if src[i] == 34 {
            if i + 1 < src.len() && src[i + 1] == 34 {
                scan_rows(src, i + 2, true, cell.push(34), row, rows, delimiter)
            } else {
                scan_rows(src, i + 1, false, cell, row, rows, delimiter)
            }
        } else {
            scan_rows(src, i + 1, true, cell.push(src[i]), row, rows, delimiter)
        }
    } else if src[i] == 34 {
        scan_rows(src, i + 1, true, cell, row, rows, delimiter)
    } else if src[i] == delimiter {
        scan_rows(src, i + 1, false, Seq::empty(), row.push(cell), rows, delimiter)
    } else if src[i] == 10 {
        scan_rows(
            src,
            i + 1,
            false,
            Seq::empty(),
            Seq::empty(),
            rows.push(row.push(cell)),
            delimiter,
        )
    } else if src[i] == 13 && i + 1 < src.len() && src[i + 1] == 10 {
        scan_rows(
            src,
            i + 2,
            false,
            Seq::empty(),
            Seq::empty(),
            rows.push(row.push(cell)),
            delimiter,
        )
    } else {
        scan_rows(src, i + 1, false, cell.push(src[i]), row, rows, delimiter)
    }
}

/// The rows of a source: cells between unquoted delimiters, rows between
/// unquoted line breaks.
pub open spec fn rows_of(src: Seq<u8>, delimiter: u8) -> Seq<Seq<Seq<u8>>> {
    scan_rows(
        src,
        0,
        false,
        Seq::<u8>::empty(),
        Seq::<Seq<u8>>::empty(),
        Seq::<Seq<Seq<u8>>>::empty(),
        delimiter,
    )
}

/// Splits the source into the rows of cells that [`rows_of`] names.
pub fn split_rows(src: &[u8], delimiter: u8) -> (r: Vec<Vec<Vec<u8>>>)
    ensures
        r.deep_view() == rows_of(src@, delimiter),
{
    let n = src.len();
    let mut rows: Vec<Vec<Vec<u8>>> = Vec::new();
    let mut row: Vec<Vec<u8>> = Vec::new();
    let mut cell: Vec<u8> = Vec::new();
    let mut in_quotes: bool = false;
    let mut i: usize = 0;
    proof {
        assert(cell@ =~= Seq::<u8>::empty());
        assert(row.deep_view() =~~= Seq::<Seq<u8>>::empty());
        assert(rows.deep_view() =~~= Seq::<Seq<Seq<u8>>>::empty());
    }
    while i < n
        invariant
            i <= n == src@.len(),
            rows_of(src@, delimiter) == scan_rows(
                src@,
                i as int,
                in_quotes,
                cell@,
                row.deep_view(),
                rows.deep_view(),
                delimiter,
            ),
        decreases n - i,
    {
        let b = src[i];
        if in_quotes {
            if b == 34 {
                if i + 1 < n && src[i + 1] == 34 {
                    cell.push(34);
                    i += 2;
                } else {
                    in_quotes = false;
                    i += 1;
                }
            } else {
                cell.push(b);
                i += 1;
            }
        } else if b == 34 {
            in_quotes = true;
            i += 1;
        } else if b == delimiter {
            let ghost old_row = row.deep_view();
            let ghost old_cell = cell@;
            row.push(cell);
            cell = Vec::new();
            proof {
                assert(row.deep_view() =~~= old_row.push(old_cell));
                assert(cell@ =~= Seq::<u8>::empty());
            }
            i += 1;
        } else if b == 10 {
            let ghost old_row = row.deep_view();
            let ghost old_rows = rows.deep_view();
            let ghost old_cell = cell@;
            row.push(cell);
            proof {
                assert(row.deep_view() =~~= old_row.push(old_cell));
            }
            rows.push(row);
            row = Vec::new();
            cell = Vec::new();
            proof {
                assert(rows.deep_view() =~~= old_rows.push(old_row.push(old_cell)));
                assert(row.deep_view() =~~= Seq::<Seq<u8>>::empty());
                assert(cell@ =~= Seq::<u8>::empty());
            }
            i += 1;
        } else if b == 13 && i + 1 < n && src[i + 1] == 10 {
            let ghost old_row = row.deep_view();
            let ghost old_rows = rows.deep_view();
            let ghost old_cell = cell@;
            row.push(cell);
            proof {
                assert(row.deep_view() =~~= old_row.push(old_cell));
            }
            rows.push(row);
            row = Vec::new();
            cell = Vec::new();
            proof {
                assert(rows.deep_view() =~~= old_rows.push(old_row.push(old_cell)));
                assert(row.deep_view() =~~= Seq::<Seq<u8>>::empty());
                assert(cell@ =~= Seq::<u8>::empty());
            }
            i += 2;
        } else {
            cell.push(b);
            i += 1;
        }
    }
    if cell.len() > 0 || row.len() > 0 {
        let ghost old_row = row.deep_view();
        let ghost old_rows = rows.deep_view();
        let ghost old_cell = cell@;
        row.push(cell);
        proof {
            assert(row.deep_view() =~~= old_row.push(old_cell));
        }
        rows.push(row);
        proof {
            assert(rows.deep_view() =~~= old_rows.push(old_row.push(old_cell)));
        }
    }
    rows
}

/// The data rows of a source: all rows, the header row excluded when one
/// is present.
pub open spec fn data_rows_of(src: Seq<u8>, delimiter: u8, has_header: bool) -> Seq<Seq<Seq<u8>>> {
    let rows = rows_of(src, delimiter);
    if has_header && rows.len() > 0 {
        rows.skip(1)
    } else {
        rows
    }
}

} // verus!
