//! The rows of the report of calculation procedures.
//!
//! Each row from the first row of data on is a procedure: its code, name,
//! text, the code and the name of the object it computes. The text is
//! stored with its translation to VBA. Rows without a code are skipped.

use vstd::prelude::*;
use crate::excel_parser::cells::{cell_display, cell_display_spec, CellValue};
use crate::excel_parser::spec_import::{ov, rows_view};
use crate::helpers::{code_1c_spec, get_formatted_1c_code_string};
use crate::procedures::Procedure;
use crate::vba::{convert_to_vba, convert_to_vba_spec};

verus! {

/// The column of the code.
pub const CODE_COL: usize = 1;
/// The column of the name.
pub const NAME_COL: usize = 2;
/// The column of the text.
pub const TEXT_COL: usize = 3;
/// The column of the code of the object.
pub const OBJECT_CODE_COL: usize = 4;
/// The column of the name of the object.
pub const OBJECT_NAME_COL: usize = 5;
/// The number of rows before the first row of data.
pub const START_ROW: usize = 4;
/// The name of a procedure whose row has no name column.
pub const NO_NAME: &'static str = "Без названия";

/// The text a cell shows, the empty text when the row lacks the column.
pub open spec fn shown(row: Seq<CellValue>, col: usize) -> Seq<char> {
    match cell_display_spec(row, col as int) {
        Some(t) => t,
        None => seq![],
    }
}

/// The name of the procedure of a row.
pub open spec fn name_of(row: Seq<CellValue>) -> Seq<char> {
    match cell_display_spec(row, NAME_COL as int) {
        Some(t) => t,
        None => NO_NAME@,
    }
}

/// Whether `p` is the procedure that row `row` describes.
pub open spec fn procedure_matches_row(p: Procedure, row: Seq<CellValue>) -> bool {
    &&& p.code_1c@ == code_1c_spec(shown(row, CODE_COL))
    &&& p.name@ == name_of(row)
    &&& ov(p.text) == cell_display_spec(row, TEXT_COL as int)
    &&& ov(p.text_vba) == match cell_display_spec(row, TEXT_COL as int) {
        Some(t) => Some(convert_to_vba_spec(t, name_of(row))),
        None => None,
    }
    &&& ov(p.object_code_1c) == if shown(row, OBJECT_CODE_COL).len() > 0 {
        Some(code_1c_spec(shown(row, OBJECT_CODE_COL)))
    } else {
        None
    }
    &&& ov(p.object_name) == cell_display_spec(row, OBJECT_NAME_COL as int)
}

/// The text a cell shows, empty when the row lacks the column.
fn shown_exec(row: &Vec<CellValue>, col: usize) -> (r: String)
    requires
        col >= 1,
    ensures
        r@ == shown(row@, col),
{
    match cell_display(row, col) {
        Some(t) => t,
        None => String::new(),
    }
}

/// The procedure a row describes; `None` when it has no code.
pub fn procedure_from_row(row: &Vec<CellValue>) -> (r: Option<Procedure>)
    ensures
        r is Some <==> shown(row@, CODE_COL).len() > 0,
        r matches Some(p) ==> procedure_matches_row(p, row@),
{
    let code = get_formatted_1c_code_string(shown_exec(row, CODE_COL));
    if code.unicode_len() == 0 {
        return None;
    }
    let name = match cell_display(row, NAME_COL) {
        Some(t) => t,
        None => String::from_str(NO_NAME),
    };
    let text = cell_display(row, TEXT_COL);
    let text_vba = match &text {
        Some(t) => Some(convert_to_vba(t.clone(), &name)),
        None => None,
    };
    let object_code = shown_exec(row, OBJECT_CODE_COL);
    let object_code_1c = if object_code.unicode_len() > 0 {
        Some(get_formatted_1c_code_string(object_code))
    } else {
        None
    };
    Some(
        Procedure {
            code_1c: code,
            name,
            text,
            text_vba,
            object_code_1c,
            object_name: cell_display(row, OBJECT_NAME_COL),
        },
    )
}

/// The rows of procedures among the first `n`, from the first row of data
/// on: the rows that have a code, in order.
pub open spec fn procedure_rows(rows: Seq<Seq<CellValue>>, n: int) -> Seq<int>
    decreases n,
{
    if n <= START_ROW {
        seq![]
    } else if shown(rows[n - 1], CODE_COL).len() > 0 {
        procedure_rows(rows, n - 1).push(n - 1)
    } else {
        procedure_rows(rows, n - 1)
    }
}

/// Reads the report: the procedures of the rows that have a code, in
/// order, from the first row of data on.
pub fn procedures_from_rows(rows: &Vec<Vec<CellValue>>) -> (r: Vec<Procedure>)
    ensures
        r@.len() == procedure_rows(rows_view(rows@), rows@.len() as int).len(),
        forall|k: int|
            0 <= k < r@.len() ==> procedure_matches_row(
                #[trigger] r@[k],
                rows_view(rows@)[procedure_rows(rows_view(rows@), rows@.len() as int)[k]],
            ),
{
    let ghost rv = rows_view(rows@);
    let mut r: Vec<Procedure> = Vec::new();
    if rows.len() <= START_ROW {
        return r;
    }
    let mut i: usize = START_ROW;
    while i < rows.len()
        invariant
            START_ROW <= i <= rows@.len(),
            rv == rows_view(rows@),
            r@.len() == procedure_rows(rv, i as int).len(),
            forall|j: int| 0 <= j < procedure_rows(rv, i as int).len() ==> 0 <= #[trigger] procedure_rows(rv, i as int)[j] < i,
            forall|k: int|
                0 <= k < r@.len() ==> procedure_matches_row(#[trigger] r@[k], rv[procedure_rows(rv, i as int)[k]]),
        decreases rows.len() - i,
    {
        assert(rows@[i as int]@ == rv[i as int]);
        let ghost before = r@;
        match procedure_from_row(&rows[i]) {
            Some(p) => {
                r.push(p);
                assert(procedure_rows(rv, i + 1) == procedure_rows(rv, i as int).push(i as int));
                assert forall|k: int| 0 <= k < r@.len() implies procedure_matches_row(
                    #[trigger] r@[k],
                    rv[procedure_rows(rv, i + 1)[k]],
                ) by {
                    if k < before.len() {
                        assert(r@[k] == before[k]);
                    }
                }
            },
            None => {
                assert(procedure_rows(rv, i + 1) == procedure_rows(rv, i as int));
            },
        }
        i += 1;
    }
    r
}

} // verus!
