//! Normalisation of 1C values and the layout check of Excel reports.

use vstd::prelude::*;
use crate::constants::CODE_1C_LENGTH;
use crate::helpers::{unit_chars, unit_spec};
use crate::text::{from_chars, pad_left_chars, pad_left_spec, subvec, to_chars};

verus! {

/// A 1C code in normal form: longer codes keep their last characters,
/// shorter ones are padded on the left with zeros; the empty code stays
/// empty.
pub open spec fn code_1c_spec(s: Seq<char>) -> Seq<char> {
    if s.len() == 0 {
        s
    } else if s.len() > CODE_1C_LENGTH {
        s.skip(s.len() - CODE_1C_LENGTH)
    } else {
        pad_left_spec(s, '0', CODE_1C_LENGTH as nat)
    }
}

/// Returns the 1C code brought to its normal form.
pub fn get_formatted_1c_code_string(raw_code: String) -> (r: String)
    ensures
        r@ == code_1c_spec(raw_code@),
{
    let v = to_chars(raw_code.as_str());
    if v.len() == 0 {
        raw_code
    } else if v.len() > CODE_1C_LENGTH {
        let t = subvec(&v, v.len() - CODE_1C_LENGTH, v.len());
        assert(t@ == v@.skip(v@.len() - CODE_1C_LENGTH));
        from_chars(&t)
    } else {
        from_chars(&pad_left_chars(&v, '0', CODE_1C_LENGTH))
    }
}

/// Returns the unit of measure brought to its normal form.
pub fn get_formatted_unit_string(raw_code: String) -> (r: String)
    ensures
        r@ == unit_spec(raw_code@),
{
    let v = to_chars(raw_code.as_str());
    unit_chars(&v)
}

/// A header cell that differs from the expected one.
#[derive(Debug)]
pub struct StructureMismatch {
    /// 0-based row of the header.
    pub row: usize,
    /// 1-based column.
    pub col: usize,
    /// The expected header.
    pub expected: String,
    /// The header found, `None` when the cell does not exist.
    pub actual: Option<String>,
}

/// The cell of the 1-based column `col` in `cells`, when it exists.
pub open spec fn cell_at(cells: Seq<Option<String>>, col: int) -> Option<String> {
    if 1 <= col <= cells.len() {
        cells[col - 1]
    } else {
        None
    }
}

/// Whether the `i`-th rule of `pattern` holds for `cells`.
pub open spec fn rule_holds(pattern: Seq<(usize, &str)>, cells: Seq<Option<String>>, i: int) -> bool {
    match cell_at(cells, pattern[i].0 as int) {
        Some(s) => s@ == pattern[i].1@,
        None => false,
    }
}

/// Checks the header row of a report against the layout rules, in order;
/// returns the first rule that fails. `cells[k]` is the text of the cell in
/// column `k + 1`, `None` where the row has no such cell.
pub fn find_structure_mismatch(
    pattern: &[(usize, &str)],
    check_row: usize,
    cells: &Vec<Option<String>>,
) -> (r: Option<StructureMismatch>)
    requires
        forall|i: int| 0 <= i < pattern@.len() ==> pattern@[i].0 >= 1,
    ensures
        r is None <==> forall|i: int| 0 <= i < pattern@.len() ==> rule_holds(pattern@, cells@, i),
        r matches Some(m) ==> exists|i: int|
            0 <= i < pattern@.len() && !rule_holds(pattern@, cells@, i) && (forall|j: int|
                0 <= j < i ==> rule_holds(pattern@, cells@, j)) && m.row == check_row && m.col
                == pattern@[i].0 && m.expected@ == pattern@[i].1@ && m.actual == cell_at(
                cells@,
                pattern@[i].0 as int,
            ),
{
    let mut i: usize = 0;
    while i < pattern.len()
        invariant
            i <= pattern@.len(),
            forall|i: int| 0 <= i < pattern@.len() ==> pattern@[i].0 >= 1,
            forall|j: int| 0 <= j < i ==> rule_holds(pattern@, cells@, j),
        decreases pattern@.len() - i,
    {
        let (col, expected) = pattern[i];
        if col > cells.len() {
            assert(cell_at(cells@, col as int) is None);
            assert(!rule_holds(pattern@, cells@, i as int));
            return Some(
                StructureMismatch { row: check_row, col, expected: String::from_str(expected), actual: None },
            );
        }
        match &cells[col - 1] {
            Some(actual) => {
                let a = to_chars(actual.as_str());
                let e = to_chars(expected);
                if !crate::text::eq_chars(&a, &e) {
                    assert(cell_at(cells@, col as int) == Some(*actual));
                    assert(!rule_holds(pattern@, cells@, i as int));
                    let copy = actual.clone();
                    assert(copy == *actual);
                    return Some(
                        StructureMismatch {
                            row: check_row,
                            col,
                            expected: String::from_str(expected),
                            actual: Some(copy),
                        },
                    );
                }
            },
            None => {
                assert(cell_at(cells@, col as int) is None);
                assert(!rule_holds(pattern@, cells@, i as int));
                return Some(
                    StructureMismatch {
                        row: check_row,
                        col,
                        expected: String::from_str(expected),
                        actual: None,
                    },
                );
            },
        }
        i += 1;
    }
    None
}

} // verus!

verus! {

/// A normalised non-empty code has exactly the code length; normalising it
/// again changes nothing.
pub proof fn law_code_1c_fixed_length(s: Seq<char>)
    ensures
        s.len() > 0 ==> code_1c_spec(s).len() == CODE_1C_LENGTH,
        code_1c_spec(code_1c_spec(s)) == code_1c_spec(s),
{
    if s.len() > CODE_1C_LENGTH {
        assert(code_1c_spec(s).skip(0) == code_1c_spec(s));
    }
}

} // verus!
