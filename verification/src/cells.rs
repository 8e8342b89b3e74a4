//! Single cells: numeric syntax, integer parsing, boolean parsing.
//!
//! A cell is the raw bytes between two delimiters. An empty cell stands
//! for a null value.

use vstd::prelude::*;

use crate::rows::find_sep;
use vstd::utf8::decode_utf8;
use vstd::utf8::valid_utf8;

verus! {

/// Relies on `String::from_utf8`: it succeeds exactly on valid UTF-8 and
/// returns the decoded characters of the given bytes.
#[verifier::external_body]
pub(crate) fn bytes_to_string(v: Vec<u8>) -> (r: Option<String>)
    ensures
        r is Some <==> valid_utf8(v@),
        r matches Some(s) ==> s@ == decode_utf8(v@),
{
    String::from_utf8(v).ok()
}

pub open spec fn is_digit(b: u8) -> bool {
    48 <= b <= 57
}

pub open spec fn all_digits(s: Seq<u8>) -> bool {
    forall|i: int| 0 <= i < s.len() ==> is_digit(#[trigger] s[i])
}

/// The cell with a single leading sign stripped, if one stands there.
pub open spec fn sign_body(s: Seq<u8>) -> Seq<u8> {
    if s.len() > 0 && (s[0] == 43 || s[0] == 45) {
        s.drop_first()
    } else {
        s
    }
}

pub open spec fn is_negative(s: Seq<u8>) -> bool {
    s.len() > 0 && s[0] == 45
}

/// An optional sign followed by one or more decimal digits.
pub open spec fn is_int_syntax(s: Seq<u8>) -> bool {
    sign_body(s).len() > 0 && all_digits(sign_body(s))
}

/// Digits, with at most one point among them and one digit at least:
/// the shape of an unsigned, unscaled decimal number.
pub open spec fn is_mantissa(m: Seq<u8>) -> bool {
    let d = find_sep(m, 46);
    if d == m.len() {
        m.len() > 0 && all_digits(m)
    } else {
        all_digits(m.take(d)) && all_digits(m.skip(d + 1)) && m.len() > 1
    }
}

/// Index of the first exponent marker (`e` or `E`) in `s`, or `s.len()`.
pub open spec fn find_exp(s: Seq<u8>) -> int
    decreases s.len(),
{
    if s.len() == 0 {
        0
    } else if s[0] == 101 || s[0] == 69 {
        0
    } else {
        1 + find_exp(s.drop_first())
    }
}

pub proof fn lemma_find_exp_is(s: Seq<u8>, k: int)
    requires
        0 <= k <= s.len(),
        forall|t: int| 0 <= t < k ==> s[t] != 101 && s[t] != 69,
        k < s.len() ==> (s[k] == 101 || s[k] == 69),
    ensures
        find_exp(s) == k,
    decreases s.len(),
{
    if s.len() == 0 {
    } else if k == 0 {
    } else {
        assert(s[0] != 101 && s[0] != 69);
        lemma_find_exp_is(s.drop_first(), k - 1);
    }
}

/// An optional sign, a mantissa, and an optional exponent part: every
/// such cell is an exactly parseable floating-point literal.
pub open spec fn is_float_syntax(s: Seq<u8>) -> bool {
    let b = sign_body(s);
    let e = find_exp(b);
    if e == b.len() {
        is_mantissa(b)
    } else {
        is_mantissa(b.take(e)) && is_int_syntax(b.skip(e + 1))
    }
}

/// The value of a sequence of decimal digits.
pub open spec fn digits_val(s: Seq<u8>) -> int
    decreases s.len(),
{
    if s.len() == 0 {
        0
    } else {
        digits_val(s.drop_last()) * 10 + (s.last() - 48)
    }
}

/// The signed value of an integer cell.
pub open spec fn int_cell_val(s: Seq<u8>) -> int {
    if is_negative(s) {
        -digits_val(sign_body(s))
    } else {
        digits_val(sign_body(s))
    }
}

/// Appending digits never lowers the value of a digit string.
pub proof fn lemma_digits_val_grows(s: Seq<u8>, k: int)
    requires
        0 <= k <= s.len(),
        all_digits(s),
    ensures
        digits_val(s) >= digits_val(s.take(k)),
        digits_val(s) >= 0,
    decreases s.len() - k,
{
    if k == s.len() {
        assert(s.take(k) =~= s);
        lemma_digits_val_nonneg(s);
    } else {
        lemma_digits_val_grows(s, k + 1);
        let t = s.take(k + 1);
        assert(t.drop_last() =~= s.take(k));
        assert(digits_val(t) == digits_val(s.take(k)) * 10 + (s[k] - 48));
        lemma_digits_val_nonneg(s.take(k));
    }
}

pub proof fn lemma_digits_val_nonneg(s: Seq<u8>)
    requires
        all_digits(s),
    ensures
        digits_val(s) >= 0,
    decreases s.len(),
{
    if s.len() == 0 {
    } else {
        assert(all_digits(s.drop_last()));
        lemma_digits_val_nonneg(s.drop_last());
        assert(is_digit(s.last()));
    }
}

/// Checks that every byte of `s[from..]` is a decimal digit.
fn check_digits(s: &[u8], from: usize, to: usize) -> (r: bool)
    requires
        from <= to <= s@.len(),
    ensures
        r == all_digits(s@.subrange(from as int, to as int)),
{
    let mut i: usize = from;
    while i < to
        invariant
            from <= i <= to <= s@.len(),
            forall|t: int| from <= t < i ==> is_digit(#[trigger] s@[t]),
        decreases to - i,
    {
        if !(48 <= s[i] && s[i] <= 57) {
            assert(!is_digit(s@[i as int]));
            assert(s@.subrange(from as int, to as int)[i - from as int] == s@[i as int]);
            return false;
        }
        i += 1;
    }
    assert forall|t: int| 0 <= t < to - from implies is_digit(
        #[trigger] s@.subrange(from as int, to as int)[t],
    ) by {
        assert(s@.subrange(from as int, to as int)[t] == s@[t + from]);
    }
    true
}

/// Start of the digit body: one past a leading sign, if any.
fn body_start(s: &[u8]) -> (k: usize)
    ensures
        k <= s@.len(),
        s@.skip(k as int) == sign_body(s@),
        k == 0 <==> !(s@.len() > 0 && (s@[0] == 43 || s@[0] == 45)),
{
    if s.len() > 0 && (s[0] == 43 || s[0] == 45) {
        proof {
            assert(s@.skip(1) =~= sign_body(s@));
        }
        1
    } else {
        proof {
            assert(s@.skip(0) =~= sign_body(s@));
        }
        0
    }
}

/// Decides [`is_int_syntax`] for a cell.
pub fn is_int_cell(s: &[u8]) -> (r: bool)
    ensures
        r == is_int_syntax(s@),
{
    let k = body_start(s);
    if k == s.len() {
        proof {
            assert(sign_body(s@).len() == 0);
        }
        return false;
    }
    proof {
        assert(s@.subrange(k as int, s@.len() as int) =~= sign_body(s@));
    }
    check_digits(s, k, s.len())
}

/// Decides [`is_mantissa`] for `s[from..to]`.
fn is_mantissa_range(s: &[u8], from: usize, to: usize) -> (r: bool)
    requires
        from <= to <= s@.len(),
    ensures
        r == is_mantissa(s@.subrange(from as int, to as int)),
{
    let ghost m = s@.subrange(from as int, to as int);
    // find the first point
    let mut i: usize = from;
    while i < to && s[i] != 46
        invariant
            from <= i <= to <= s@.len(),
            forall|t: int| from <= t < i ==> s@[t] != 46,
        decreases to - i,
    {
        i += 1;
    }
    proof {
        assert(forall|t: int| 0 <= t < i - from as int ==> m[t] != 46);
        if i < to {
            assert(m[i - from as int] == 46);
        }
        crate::rows::lemma_find_sep_is(m, 46, i - from as int);
    }
    if i == to {
        if from == to {
            return false;
        }
        proof {
            assert(m =~= s@.subrange(from as int, to as int));
        }
        let r = check_digits(s, from, to);
        proof {
            assert(s@.subrange(from as int, to as int) == m);
        }
        r
    } else {
        if to - from <= 1 {
            return false;
        }
        let left = check_digits(s, from, i);
        let right = check_digits(s, i + 1, to);
        proof {
            assert(s@.subrange(from as int, i as int) =~= m.take(i - from as int));
            assert(s@.subrange(i + 1 as int, to as int) =~= m.skip(i - from as int + 1));
        }
        left && right
    }
}

/// Decides [`is_float_syntax`] for a cell.
pub fn is_float_cell(s: &[u8]) -> (r: bool)
    ensures
        r == is_float_syntax(s@),
{
    let k = body_start(s);
    let ghost b = sign_body(s@);
    let n = s.len();
    // find the first exponent marker
    let mut i: usize = k;
    while i < n && s[i] != 101 && s[i] != 69
        invariant
            k <= i <= n == s@.len(),
            forall|t: int| k <= t < i ==> s@[t] != 101 && s@[t] != 69,
        decreases n - i,
    {
        i += 1;
    }
    proof {
        assert(forall|t: int| 0 <= t < i - k as int ==> b[t] != 101 && b[t] != 69);
        if i < n {
            assert(b[i - k as int] == 101 || b[i - k as int] == 69);
        }
        lemma_find_exp_is(b, i - k as int);
    }
    if i == n {
        let r = is_mantissa_range(s, k, n);
        proof {
            assert(s@.subrange(k as int, n as int) =~= b);
        }
        r
    } else {
        let mant = is_mantissa_range(s, k, i);
        proof {
            assert(s@.subrange(k as int, i as int) =~= b.take(i - k as int));
        }
        if !mant {
            return false;
        }
        let ghost rest = b.skip(i - k as int + 1);
        let k2 = if i + 1 < n && (s[i + 1] == 43 || s[i + 1] == 45) {
            i + 2
        } else {
            i + 1
        };
        proof {
            assert(rest =~= s@.subrange(i + 1 as int, n as int));
            assert(s@.subrange(k2 as int, n as int) =~= sign_body(rest));
        }
        if k2 == n {
            proof {
                assert(sign_body(rest).len() == 0);
            }
            return false;
        }
        check_digits(s, k2, n)
    }
}

/// The exact value of an integer cell when it is one and fits in `i64`.
pub open spec fn parse_i64_spec(s: Seq<u8>) -> Option<i64> {
    if is_int_syntax(s) && i64::MIN <= int_cell_val(s) <= i64::MAX {
        Some(int_cell_val(s) as i64)
    } else {
        None
    }
}

/// Parses an integer cell, rejecting malformed cells and values outside
/// the 64-bit signed range.
#[verifier::rlimit(60)]
pub fn parse_i64_cell(s: &[u8]) -> (r: Option<i64>)
    ensures
        r == parse_i64_spec(s@),
{
    let k = body_start(s);
    let n = s.len();
    if k == n {
        proof {
            assert(sign_body(s@).len() == 0);
        }
        return None;
    }
    if !check_digits(s, k, n) {
        proof {
            assert(s@.subrange(k as int, n as int) =~= sign_body(s@));
        }
        return None;
    }
    proof {
        assert(s@.subrange(k as int, n as int) =~= sign_body(s@));
        assert(all_digits(sign_body(s@)));
        assert(is_int_syntax(s@));
    }
    let neg = s[0] == 45 && k == 1;
    proof {
        assert(neg == is_negative(s@));
    }
    // The magnitude bound: 2^63 for a negative cell, 2^63 - 1 otherwise.
    let limit: u64 = if neg {
        9223372036854775808u64
    } else {
        9223372036854775807u64
    };
    let ghost body = sign_body(s@);
    let mut acc: u64 = 0;
    let mut i: usize = k;
    while i < n
        invariant
            k <= i <= n == s@.len(),
            body == sign_body(s@),
            body == s@.subrange(k as int, n as int),
            all_digits(body),
            is_int_syntax(s@),
            neg == is_negative(s@),
            limit == if neg {
                9223372036854775808u64
            } else {
                9223372036854775807u64
            },
            acc <= limit,
            acc == digits_val(body.take(i - k as int)),
        decreases n - i,
    {
        let b = s[i];
        proof {
            assert(body[i - k as int] == s@[i as int]);
            assert(is_digit(body[i - k as int]));
        }
        let d = b - 48;
        if acc > (limit - (d as u64)) / 10 {
            proof {
                let p = body.take(i - k as int + 1);
                assert(p.drop_last() =~= body.take(i - k as int));
                assert(digits_val(p) == acc * 10 + d);
                assert(acc * 10 + d > limit) by {
                    assert(acc >= (limit - (d as u64)) / 10 + 1);
                    assert(((limit - (d as u64)) / 10 + 1) * 10 == ((limit - (d as u64)) / 10) * 10
                        + 10);
                    assert(((limit - (d as u64)) / 10) * 10 + ((limit - (d as u64)) % 10) == limit
                        - (d as u64));
                    assert(acc * 10 >= ((limit - (d as u64)) / 10 + 1) * 10) by (nonlinear_arith)
                        requires
                            acc >= (limit - (d as u64)) / 10 + 1,
                    ;
                }
                lemma_digits_val_grows(body, i - k as int + 1);
                assert(digits_val(body) > limit);
                if neg {
                    assert(int_cell_val(s@) < i64::MIN);
                } else {
                    assert(int_cell_val(s@) > i64::MAX);
                }
            }
            return None;
        }
        proof {
            assert(acc * 10 + d <= limit) by {
                assert(acc <= (limit - (d as u64)) / 10);
                assert(acc * 10 <= ((limit - (d as u64)) / 10) * 10) by (nonlinear_arith)
                    requires
                        acc <= (limit - (d as u64)) / 10,
                ;
                assert(((limit - (d as u64)) / 10) * 10 <= limit - (d as u64));
            }
            let p = body.take(i - k as int + 1);
            assert(p.drop_last() =~= body.take(i - k as int));
            assert(digits_val(p) == acc * 10 + d);
        }
        acc = acc * 10 + (d as u64);
        i += 1;
    }
    proof {
        assert(body.take(n - k as int) =~= body);
        assert(digits_val(body) == acc);
        lemma_digits_val_nonneg(body);
    }
    if neg {
        if acc == 9223372036854775808u64 {
            proof {
                assert(int_cell_val(s@) == i64::MIN);
            }
            Some(i64::MIN)
        } else {
            proof {
                assert(int_cell_val(s@) == -(acc as int));
            }
            Some(-(acc as i64))
        }
    } else {
        proof {
            assert(int_cell_val(s@) == acc);
        }
        Some(acc as i64)
    }
}

/// The exact value of an integer cell when it fits in `i32`.
pub open spec fn parse_i32_spec(s: Seq<u8>) -> Option<i32> {
    if is_int_syntax(s) && i32::MIN <= int_cell_val(s) <= i32::MAX {
        Some(int_cell_val(s) as i32)
    } else {
        None
    }
}

/// Parses an integer cell into the 32-bit signed range.
pub fn parse_i32_cell(s: &[u8]) -> (r: Option<i32>)
    ensures
        r == parse_i32_spec(s@),
{
    match parse_i64_cell(s) {
        Some(v) => {
            if -2147483648i64 <= v && v <= 2147483647i64 {
                Some(v as i32)
            } else {
                None
            }
        },
        None => {
            proof {
                if is_int_syntax(s@) {
                    assert(!(i64::MIN <= int_cell_val(s@) <= i64::MAX));
                }
            }
            None
        },
    }
}

/// What a single cell looks like, before any schema is applied.
#[derive(Clone, Copy, PartialEq, Eq, Structural, Debug)]
pub enum CellClass {
    /// An empty cell: a null value.
    Null,
    /// An optionally signed run of digits.
    Integer,
    /// A floating-point literal that is not an integer one.
    Floating,
    /// Anything else.
    Text,
}

/// The class of a cell: empty cells are null, integer shapes come before
/// floating-point shapes, and everything else is text.
pub open spec fn cell_class(s: Seq<u8>) -> CellClass {
    if s.len() == 0 {
        CellClass::Null
    } else if is_int_syntax(s) {
        CellClass::Integer
    } else if is_float_syntax(s) {
        CellClass::Floating
    } else {
        CellClass::Text
    }
}

pub fn classify_cell(s: &[u8]) -> (r: CellClass)
    ensures
        r == cell_class(s@),
{
    if s.len() == 0 {
        CellClass::Null
    } else if is_int_cell(s) {
        CellClass::Integer
    } else if is_float_cell(s) {
        CellClass::Floating
    } else {
        CellClass::Text
    }
}

/// An upper-case ASCII letter folded to lower case; anything else as is.
pub open spec fn ascii_lower(b: u8) -> u8 {
    if 65 <= b <= 90 {
        (b + 32) as u8
    } else {
        b
    }
}

/// A boolean cell: `true` or `false` in any letter case.
pub open spec fn bool_cell_val(s: Seq<u8>) -> Option<bool> {
    if s.map_values(|b: u8| ascii_lower(b)) == seq![116u8, 114u8, 117u8, 101u8] {
        Some(true)
    } else if s.map_values(|b: u8| ascii_lower(b)) == seq![102u8, 97u8, 108u8, 115u8, 101u8] {
        Some(false)
    } else {
        None
    }
}

/// Whether `s`, letter case folded away, matches the lower-case `t`.
fn lower_matches(s: &[u8], t: &[u8]) -> (r: bool)
    ensures
        r == (s@.map_values(|b: u8| ascii_lower(b)) == t@),
{
    if s.len() != t.len() {
        return false;
    }
    let n = s.len();
    let mut i: usize = 0;
    while i < n
        invariant
            i <= n == s@.len() == t@.len(),
            forall|k: int| 0 <= k < i ==> ascii_lower(#[trigger] s@[k]) == t@[k],
        decreases n - i,
    {
        let b = s[i];
        let low = if 65 <= b && b <= 90 {
            b + 32
        } else {
            b
        };
        if low != t[i] {
            proof {
                assert(s@.map_values(|b: u8| ascii_lower(b))[i as int] != t@[i as int]);
            }
            return false;
        }
        i += 1;
    }
    proof {
        assert(s@.map_values(|b: u8| ascii_lower(b)) =~= t@);
    }
    true
}

/// Parses a boolean cell, accepting any letter case.
pub fn parse_bool_cell(s: &[u8]) -> (r: Option<bool>)
    ensures
        r == bool_cell_val(s@),
{
    let t: [u8; 4] = [116, 114, 117, 101];
    let f: [u8; 5] = [102, 97, 108, 115, 101];
    proof {
        assert(t@ =~= seq![116u8, 114u8, 117u8, 101u8]);
        assert(f@ =~= seq![102u8, 97u8, 108u8, 115u8, 101u8]);
    }
    if lower_matches(s, t.as_slice()) {
        Some(true)
    } else if lower_matches(s, f.as_slice()) {
        Some(false)
    } else {
        None
    }
}

} // verus!
