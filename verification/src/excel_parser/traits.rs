//! The rules that describe the expected layout of an Excel report.

use vstd::prelude::*;
use crate::excel_parser::custom_errors::CustomError;

verus! {

/// Layout rules of a report: the expected header of each checked column.
pub trait ExcelPattern {
    /// Pairs of a 1-based column number and the header expected there.
    fn get_check_pattern() -> (r: Vec<(usize, &'static str)>)
        ensures
            forall|i: int| 0 <= i < r@.len() ==> r@[i].0 >= 1,
    ;

    /// The 0-based row that holds the headers.
    fn get_check_row() -> usize;

    /// The error reported when the layout does not match.
    fn get_error() -> CustomError;
}

} // verus!
