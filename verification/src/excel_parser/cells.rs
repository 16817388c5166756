//! Cells of an Excel report as the importers read them.

use vstd::prelude::*;

use rust_decimal::Decimal;
use crate::text::to_chars;
use crate::vba::{all_digits, is_digit, unsigned};

verus! {

/// The content of a cell: text (strings, and numbers as their text), a
/// boolean, or nothing usable (empty, an error, a date).
#[derive(Debug)]
pub enum CellValue {
    Text(String),
    Bool(bool),
    Empty,
}

/// The text of the cell of the 1-based column `col`: empty for a missing
/// cell, a boolean or nothing usable.
pub open spec fn cell_text_spec(row: Seq<CellValue>, col: int) -> Seq<char> {
    if 1 <= col <= row.len() {
        match row[col - 1] {
            CellValue::Text(s) => s@,
            _ => seq![],
        }
    } else {
        seq![]
    }
}

/// The text of the cell of the 1-based column `col`, booleans written
/// `true` and `false`; `None` for a missing cell or nothing usable.
pub open spec fn cell_value_text_spec(row: Seq<CellValue>, col: int) -> Option<Seq<char>> {
    if 1 <= col <= row.len() {
        match row[col - 1] {
            CellValue::Text(s) => Some(s@),
            CellValue::Bool(b) => Some(
                if b {
                    "true"@
                } else {
                    "false"@
                },
            ),
            CellValue::Empty => None,
        }
    } else {
        None
    }
}

/// The text a cell shows, booleans written `true` and `false`, an empty
/// cell as the empty text; `None` for a column past the end of the row.
pub open spec fn cell_display_spec(row: Seq<CellValue>, col: int) -> Option<Seq<char>> {
    if 1 <= col <= row.len() {
        match row[col - 1] {
            CellValue::Text(s) => Some(s@),
            CellValue::Bool(b) => Some(
                if b {
                    "true"@
                } else {
                    "false"@
                },
            ),
            CellValue::Empty => Some(seq![]),
        }
    } else {
        None
    }
}

/// The text the cell of the 1-based column `col` shows, when the row has
/// that column.
pub fn cell_display(row: &Vec<CellValue>, col: usize) -> (r: Option<String>)
    requires
        col >= 1,
    ensures
        match r {
            Some(s) => cell_display_spec(row@, col as int) == Some(s@),
            None => cell_display_spec(row@, col as int) is None,
        },
{
    if col <= row.len() {
        match &row[col - 1] {
            CellValue::Text(s) => Some(s.clone()),
            CellValue::Bool(b) => Some(
                if *b {
                    String::from_str("true")
                } else {
                    String::from_str("false")
                },
            ),
            CellValue::Empty => Some(String::new()),
        }
    } else {
        None
    }
}

/// The text of the cell of the 1-based column `col` (empty when there is
/// none).
pub fn cell_to_string(row: &Vec<CellValue>, col: usize) -> (r: String)
    requires
        col >= 1,
    ensures
        r@ == cell_text_spec(row@, col as int),
{
    if col <= row.len() {
        match &row[col - 1] {
            CellValue::Text(s) => s.clone(),
            _ => String::new(),
        }
    } else {
        String::new()
    }
}

/// The text of the cell of the 1-based column `col`, when it has one.
pub fn cell_to_value_text(row: &Vec<CellValue>, col: usize) -> (r: Option<String>)
    requires
        col >= 1,
    ensures
        match r {
            Some(s) => cell_value_text_spec(row@, col as int) == Some(s@),
            None => cell_value_text_spec(row@, col as int) is None,
        },
{
    if col <= row.len() {
        match &row[col - 1] {
            CellValue::Text(s) => Some(s.clone()),
            CellValue::Bool(b) => Some(
                if *b {
                    String::from_str("true")
                } else {
                    String::from_str("false")
                },
            ),
            CellValue::Empty => None,
        }
    } else {
        None
    }
}

/// The value of a string of decimal digits.
pub open spec fn digits_value(s: Seq<char>) -> int
    decreases s.len(),
{
    if s.len() == 0 {
        0
    } else {
        digits_value(s.drop_last()) * 10 + (s.last() as int - '0' as int)
    }
}

/// The integer written in `t` (`from_str` of the integer types): an
/// optional sign and at least one digit; `None` otherwise or when the value
/// lies outside `[min, max]`.
pub open spec fn parse_int_spec(t: Seq<char>, min: int, max: int) -> Option<int> {
    let body = unsigned(t);
    let negative = t.len() > 0 && t[0] == '-';
    let v = if negative {
        -digits_value(body)
    } else {
        digits_value(body)
    };
    if body.len() == 0 || !all_digits(body) || v < min || v > max {
        None
    } else {
        Some(v)
    }
}

/// `i16::from_str`.
pub open spec fn parse_i16_spec(t: Seq<char>) -> Option<i16> {
    match parse_int_spec(t, i16::MIN as int, i16::MAX as int) {
        Some(v) => Some(v as i16),
        None => None,
    }
}

/// `i32::from_str`.
pub open spec fn parse_i32_spec(t: Seq<char>) -> Option<i32> {
    match parse_int_spec(t, i32::MIN as int, i32::MAX as int) {
        Some(v) => Some(v as i32),
        None => None,
    }
}

/// `i64::from_str`.
pub open spec fn parse_i64_spec(t: Seq<char>) -> Option<i64> {
    match parse_int_spec(t, i64::MIN as int, i64::MAX as int) {
        Some(v) => Some(v as i64),
        None => None,
    }
}

proof fn lemma_digits_value_grows(s: Seq<char>, k: int)
    requires
        0 <= k <= s.len(),
        all_digits(s),
    ensures
        digits_value(s.take(k)) <= digits_value(s),
        digits_value(s.take(k)) >= 0,
    decreases s.len() - k,
{
    if k < s.len() {
        lemma_digits_value_grows(s, k + 1);
        assert(s.take(k + 1).drop_last() == s.take(k));
        assert(is_digit(s[k]));
        lemma_digits_value_nonneg(s.take(k));
    } else {
        assert(s.take(k) == s);
        lemma_digits_value_nonneg(s);
    }
}

proof fn lemma_digits_value_nonneg(s: Seq<char>)
    requires
        all_digits(s),
    ensures
        digits_value(s) >= 0,
    decreases s.len(),
{
    if s.len() > 0 {
        assert(all_digits(s.drop_last())) by {
            assert forall|i: int| 0 <= i < s.drop_last().len() implies is_digit(#[trigger] s.drop_last()[i]) by {
                assert(s.drop_last()[i] == s[i]);
            }
        }
        lemma_digits_value_nonneg(s.drop_last());
        assert(is_digit(s.last()));
    }
}

/// `text` read as an integer in `[min, max]`.
pub fn parse_integer(text: &str, min: i64, max: i64) -> (r: Option<i64>)
    requires
        min <= 0 <= max,
    ensures
        match r {
            Some(v) => parse_int_spec(text@, min as int, max as int) == Some(v as int),
            None => parse_int_spec(text@, min as int, max as int) is None,
        },
{
    let v = to_chars(text);
    let start: usize = if v.len() > 0 && (v[0] == '+' || v[0] == '-') {
        1
    } else {
        0
    };
    let negative = v.len() > 0 && v[0] == '-';
    let ghost body = unsigned(v@);
    assert(body == v@.skip(start as int));
    if start == v.len() {
        return None;
    }
    let limit: i128 = if negative {
        -(min as i128)
    } else {
        max as i128
    };
    let mut value: i128 = 0;
    let mut i: usize = start;
    while i < v.len()
        invariant
            start <= i <= v.len(),
            v@ == text@,
            body == unsigned(text@),
            negative == (text@.len() > 0 && text@[0] == '-'),
            limit == if negative {
                -(min as int)
            } else {
                max as int
            },
            0 <= limit <= 0x8000_0000_0000_0000,
            body == v@.skip(start as int),
            all_digits(body.take(i - start)),
            value == digits_value(body.take(i - start)),
            0 <= value <= limit,
        decreases v.len() - i,
    {
        assert(body.take(i - start + 1).drop_last() == body.take(i - start));
        assert(body[i - start] == v@[i as int]);
        if !('0' <= v[i] && v[i] <= '9') {
            assert(!all_digits(body)) by {
                assert(!is_digit(body[i - start]));
            }
            return None;
        }
        let d = (v[i] as u32 - '0' as u32) as i128;
        value = value * 10 + d;
        assert(all_digits(body.take(i - start + 1))) by {
            assert forall|k: int| 0 <= k < i - start + 1 implies is_digit(#[trigger] body.take(i - start + 1)[k]) by {
                if k < i - start {
                    assert(body.take(i - start + 1)[k] == body.take(i - start)[k]);
                }
            }
        }
        if value > limit {
            proof {
                if all_digits(body) {
                    lemma_digits_value_grows(body, i - start + 1);
                    assert(digits_value(body) >= value);
                }
            }
            return None;
        }
        i += 1;
    }
    assert(body.take(i - start) == body);
    if negative {
        Some((-value) as i64)
    } else {
        Some(value as i64)
    }
}

/// `text` read as an `i16` (`i16::from_str`).
pub fn parse_i16(text: &str) -> (r: Option<i16>)
    ensures
        r == parse_i16_spec(text@),
{
    match parse_integer(text, -32768, 32767) {
        Some(v) => Some(v as i16),
        None => None,
    }
}

/// `text` read as an `i32` (`i32::from_str`).
pub fn parse_i32(text: &str) -> (r: Option<i32>)
    ensures
        r == parse_i32_spec(text@),
{
    match parse_integer(text, -2147483648, 2147483647) {
        Some(v) => Some(v as i32),
        None => None,
    }
}

/// `text` read as an `i64` (`i64::from_str`).
pub fn parse_i64(text: &str) -> (r: Option<i64>)
    ensures
        r == parse_i64_spec(text@),
{
    parse_integer(text, i64::MIN, i64::MAX)
}

/// The cell of the 1-based column `col` read as an `i32`; `None` when it
/// has no text or its text is not one.
pub fn cell_to_i32(row: &Vec<CellValue>, col: usize) -> (r: Option<i32>)
    requires
        col >= 1,
    ensures
        r == match cell_value_text_spec(row@, col as int) {
            Some(t) => parse_i32_spec(t),
            None => None,
        },
{
    match cell_to_value_text(row, col) {
        Some(t) => parse_i32(t.as_str()),
        None => None,
    }
}

/// The cell of the 1-based column `col` read as an `i16`; `None` when it
/// has no text or its text is not one.
pub fn cell_to_i16(row: &Vec<CellValue>, col: usize) -> (r: Option<i16>)
    requires
        col >= 1,
    ensures
        r == match cell_value_text_spec(row@, col as int) {
            Some(t) => parse_i16_spec(t),
            None => None,
        },
{
    match cell_to_value_text(row, col) {
        Some(t) => parse_i16(t.as_str()),
        None => None,
    }
}

#[verifier::external_type_specification]
#[verifier::external_body]
pub struct ExDecimal(Decimal);

/// What `rust_decimal::Decimal::from_str` gives for `text`: the decimal
/// it reads, `None` when it fails.
pub uninterp spec fn decimal_of(text: Seq<char>) -> Option<Decimal>;

/// Calls `rust_decimal::Decimal::from_str`. Trusted: its result depends on
/// the text alone and is named `decimal_of`; which decimal that is, is not
/// written out (`Decimal` is opaque here).
#[verifier::external_body]
pub(crate) fn parse_decimal(text: &str) -> (r: Option<Decimal>)
    ensures
        r == decimal_of(text@),
{
    <Decimal as std::str::FromStr>::from_str(text).ok()
}

} // verus!
