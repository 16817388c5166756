//! The rows of the 1C report of models, read in order.
//!
//! Each row from the first row of data on is a model, up to the first row
//! without a code. Besides the models, the report gives the production
//! statuses, collections, kinds of product and kinds of production they
//! refer to, and the sorting groups they use.

use vstd::prelude::*;
use rust_decimal::Decimal;
use crate::excel_parser::cells::{
    CellValue, cell_text_spec, cell_to_i32, cell_to_string, cell_to_value_text,
    cell_value_text_spec, decimal_of, parse_decimal, parse_i32_spec, parse_i64,
    parse_i64_spec,
};
use crate::excel_parser::helpers::{code_1c_spec, get_formatted_1c_code_string};
use crate::excel_parser::model::Model;
use crate::excel_parser::spec_import::{non_empty_text, ov, rows_view};
use crate::text::{
    contains_spec, eq_chars, find_from, find_spec, from_chars, lemma_find_spec, lowercase_chars, occurs_at,
    spec_to_lowercase, subvec, to_chars, trim_chars, trim_spec,
};
use crate::vba::{distinct_keys, key_index, lemma_key_index_bounds, pairs_view, upsert, upsert_pair};

verus! {

/// Calls `<Decimal as Default>::default`. Trusted: the crate's default is
/// `Decimal::ZERO`, the same value (lo, mid, hi and flags all 0) that
/// `Decimal::from_str("0")` gives.
#[verifier::external_body]
fn zero_decimal() -> (r: Decimal)
    ensures
        decimal_of("0"@) == Some(r),
{
    Decimal::default()
}

/// Whether `d` is the decimal `rust_decimal` reads in `text`, or zero when
/// it reads none.
pub open spec fn read_or_zero(text: Seq<char>, d: Decimal) -> bool {
    match decimal_of(text) {
        Some(v) => d == v,
        None => decimal_of("0"@) == Some(d),
    }
}

/// The decimal written in `text`, zero when `rust_decimal` does not read it.
fn decimal_or_zero(text: &str) -> (r: Decimal)
    ensures
        read_or_zero(text@, r),
{
    match parse_decimal(text) {
        Some(d) => d,
        None => zero_decimal(),
    }
}

/// The status cell split at its first `, ` into a number and a name:
/// `None` when there is no `, `.
pub open spec fn status_parts(s: Seq<char>) -> Option<(Seq<char>, Seq<char>)> {
    let k = find_spec(s, ", "@);
    if k < s.len() {
        Some((s.take(k), s.skip(k + 2)))
    } else {
        None
    }
}

/// Whether the status of a row can be read: no `, `, or a number before it.
pub open spec fn status_ok(row: Seq<CellValue>) -> bool {
    match status_parts(cell_text_spec(row, Model::MODEL_MANUFACTURE_STATUS_COL as int)) {
        Some((id, _)) => parse_i64_spec(id) is Some,
        None => true,
    }
}

/// The status of a row: its number and name.
pub open spec fn status_of(row: Seq<CellValue>) -> Option<(i64, Seq<char>)> {
    match status_parts(cell_text_spec(row, Model::MODEL_MANUFACTURE_STATUS_COL as int)) {
        Some((id, name)) => match parse_i64_spec(id) {
            Some(v) => Some((v, name)),
            None => None,
        },
        None => None,
    }
}

/// The number in the sorting group cell of a row, 0 when there is none.
pub open spec fn group_number(row: Seq<CellValue>) -> i64 {
    match parse_i64_spec(cell_text_spec(row, Model::MODEL_MANUFACTURE_GROUP_ID_COL as int)) {
        Some(v) => v,
        None => 0,
    }
}

/// The sorting group of a row: the number in its cell when it is a known
/// group, 0 otherwise.
pub open spec fn group_of(row: Seq<CellValue>, groups: Seq<i64>) -> i64 {
    let v = group_number(row);
    if groups.contains(v) {
        v
    } else {
        0
    }
}

/// `да` is yes, `нет` is no, in any case and with white space around.
pub open spec fn lamit_of(row: Seq<CellValue>) -> Option<bool> {
    let l = spec_to_lowercase(trim_spec(cell_text_spec(row, Model::LAMIT_COL as int)));
    if l == "да"@ {
        Some(true)
    } else if l == "нет"@ {
        Some(false)
    } else {
        None
    }
}

/// The text of a cell read as optional text.
pub open spec fn gen(row: Seq<CellValue>, col: usize) -> Option<Seq<char>> {
    cell_value_text_spec(row, col as int)
}

/// The text of a cell.
pub open spec fn txt(row: Seq<CellValue>, col: usize) -> Seq<char> {
    cell_text_spec(row, col as int)
}

/// A code read from a cell, in normal form, none when empty.
pub open spec fn code_of(row: Seq<CellValue>, col: usize) -> Option<Seq<char>> {
    non_empty_text(code_1c_spec(txt(row, col)))
}

/// Whether `m` is the model that row `row` describes; its decimals are
/// those `rust_decimal` reads in their cells (zero for a required one it
/// reads none in).
pub open spec fn model_matches_row(m: Model, row: Seq<CellValue>, groups: Seq<i64>) -> bool {
    &&& m.code_1c@ == code_1c_spec(txt(row, Model::CODE_1C_COL))
    &&& m.model_manufacture_status_id == match status_of(row) {
        Some((v, _)) => Some(v),
        None => None,
    }
    &&& ov(m.model_manufacture_status_name) == match status_of(row) {
        Some((_, n)) => Some(n),
        None => None,
    }
    &&& ov(m.model_collection_code_1c) == code_of(row, Model::MODEL_COLLECTION_CODE_1C_COL)
    &&& ov(m.model_collection_name) == non_empty_text(txt(row, Model::MODEL_COLLECTION_NAME_COL))
    &&& ov(m.model_type_code_1c) == code_of(row, Model::MODEL_TYPE_CODE_1C_COL)
    &&& ov(m.model_type_name) == non_empty_text(txt(row, Model::MODEL_TYPE_NAME_COL))
    &&& ov(m.model_manufacture_type_code_1c) == code_of(row, Model::MODEL_MANUFACTURE_TYPE_CODE_1C_COL)
    &&& ov(m.model_manufacture_type_name) == non_empty_text(
        txt(row, Model::MODEL_MANUFACTURE_TYPE_NAME_COL),
    )
    &&& ov(m.cover_code_1c_copy) == code_of(row, Model::COVER_CODE_1C_COL)
    &&& m.cover_code_1c is None
    &&& m.name@ == txt(row, Model::NAME_COL)
    &&& ov(m.serial) == gen(row, Model::MODEL_SERIAL_COL)
    &&& ov(m.name_short) == gen(row, Model::NAME_SHORT_COL)
    &&& ov(m.name_common) == gen(row, Model::NAME_COMMON_COL)
    &&& ov(m.name_report) == gen(row, Model::NAME_REPORT_COL)
    &&& ov(m.cover_name_1c) == gen(row, Model::COVER_NAME_1C_COL)
    &&& ov(m.textile) == gen(row, Model::TEXTILE_COL)
    &&& ov(m.textile_composition) == gen(row, Model::TEXTILE_COMPOSITION_COL)
    &&& ov(m.cover_type) == gen(row, Model::COVER_TYPE_COL)
    &&& ov(m.zipper) == gen(row, Model::ZIPPER_COL)
    &&& ov(m.spacer) == gen(row, Model::SPACER_COL)
    &&& ov(m.stitch_pattern) == gen(row, Model::STITCH_PATTERN_COL)
    &&& ov(m.pack_type) == gen(row, Model::PACK_TYPE_COL)
    &&& ov(m.base_composition) == gen(row, Model::BASE_COMPOSITION_COL)
    &&& ov(m.side_foam) == gen(row, Model::SIDE_FOAM_COL)
    &&& ov(m.base_block) == gen(row, Model::BASE_BLOCK_COL)
    &&& ov(m.cover_mark) == gen(row, Model::COVER_MARK_COL)
    &&& ov(m.model_mark) == gen(row, Model::MODEL_MARK_COL)
    &&& ov(m.owner) == gen(row, Model::OWNER_COL)
    &&& ov(m.sewing_machine) == gen(row, Model::SEWING_MACHINE_COL)
    &&& ov(m.kant) == gen(row, Model::KANT_COL)
    &&& ov(m.tkch) == gen(row, Model::TKCH_COL)
    &&& ov(m.side_height) == gen(row, Model::SIDE_HEIGHT_COL)
    &&& ov(m.barcode) == gen(row, Model::BARCODE_COL)
    &&& m.load == match gen(row, Model::LOAD_COL) {
        Some(t) => parse_i32_spec(t),
        None => None,
    }
    &&& m.guarantee == match gen(row, Model::GUARANTEE_COL) {
        Some(t) => parse_i32_spec(t),
        None => None,
    }
    &&& m.life == match gen(row, Model::LIFE_COL) {
        Some(t) => parse_i32_spec(t),
        None => None,
    }
    &&& m.model_manufacture_group_id == group_of(row, groups)
    &&& m.lamit == lamit_of(row)
    &&& m.pack_density == decimal_of(txt(row, Model::PACK_DENSITY_COL))
    &&& m.pack_weight_rb == decimal_of(txt(row, Model::PACK_WEIGHT_RB_COL))
    &&& m.pack_weight_ex == decimal_of(txt(row, Model::PACK_WEIGHT_EX_COL))
    &&& read_or_zero(txt(row, Model::BASE_HEIGHT_COL), m.base_height)
    &&& read_or_zero(txt(row, Model::COVER_HEIGHT_COL), m.cover_height)
    &&& read_or_zero(txt(row, Model::WEIGHT_COL), m.weight)
}

/// A code read from a cell, in normal form, none when empty.
fn code_cell(row: &Vec<CellValue>, col: usize) -> (r: Option<String>)
    requires
        col >= 1,
    ensures
        ov(r) == code_of(row@, col),
{
    let c = get_formatted_1c_code_string(cell_to_string(row, col));
    if c.unicode_len() > 0 {
        Some(c)
    } else {
        None
    }
}

/// The text of a cell, none when empty.
fn text_cell(row: &Vec<CellValue>, col: usize) -> (r: Option<String>)
    requires
        col >= 1,
    ensures
        ov(r) == non_empty_text(txt(row@, col)),
{
    let c = cell_to_string(row, col);
    if c.unicode_len() > 0 {
        Some(c)
    } else {
        None
    }
}

/// The text of a cell read as optional text.
fn gen_cell(row: &Vec<CellValue>, col: usize) -> (r: Option<String>)
    requires
        col >= 1,
    ensures
        ov(r) == gen(row@, col),
{
    cell_to_value_text(row, col)
}

/// The status of a row; `Err` when there is a `, ` and no number before it.
fn status_cell(row: &Vec<CellValue>) -> (r: Result<Option<(i64, String)>, ()>)
    ensures
        r is Ok <==> status_ok(row@),
        r matches Ok(s) ==> match s {
            Some((v, n)) => status_of(row@) == Some((v, n@)),
            None => status_of(row@) is None,
        },
{
    let text = to_chars(cell_to_string(row, Model::MODEL_MANUFACTURE_STATUS_COL).as_str());
    let sep = to_chars(", ");
    let k = find_from(&text, &sep, 0);
    proof {
        lemma_find_spec(text@, ", "@);
        let f = find_spec(text@, ", "@);
        assert(f == k) by {
            if f < k {
                assert(occurs_at(text@, ", "@, f));
            }
        }
    }
    if k < text.len() {
        proof {
            reveal_strlit(", ");
        }
        let id = from_chars(&subvec(&text, 0, k));
        let name = from_chars(&subvec(&text, k + 2, text.len()));
        match parse_i64(id.as_str()) {
            Some(v) => Ok(Some((v, name))),
            None => Err(()),
        }
    } else {
        Ok(None)
    }
}

/// The sorting group of a row.
fn group_cell(row: &Vec<CellValue>, groups: &Vec<i64>) -> (r: i64)
    ensures
        r == group_of(row@, groups@),
{
    let v = match parse_i64(cell_to_string(row, Model::MODEL_MANUFACTURE_GROUP_ID_COL).as_str()) {
        Some(v) => v,
        None => 0,
    };
    let mut i: usize = 0;
    while i < groups.len()
        invariant
            i <= groups@.len(),
            v == group_number(row@),
            forall|k: int| 0 <= k < i ==> groups@[k] != v,
        decreases groups@.len() - i,
    {
        if groups[i] == v {
            assert(groups@.contains(v));
            return v;
        }
        i += 1;
    }
    assert(!groups@.contains(v));
    0
}

/// Whether the model is made on the Lamit line.
fn lamit_cell(row: &Vec<CellValue>) -> (r: Option<bool>)
    ensures
        r == lamit_of(row@),
{
    let l = lowercase_chars(&trim_chars(&to_chars(cell_to_string(row, Model::LAMIT_COL).as_str())));
    if eq_chars(&l, &to_chars("да")) {
        Some(true)
    } else if eq_chars(&l, &to_chars("нет")) {
        Some(false)
    } else {
        None
    }
}

/// The model a row describes; `None` when its status has a `, ` and no
/// number before it.
pub fn model_from_row(row: &Vec<CellValue>, groups: &Vec<i64>) -> (r: Option<Model>)
    ensures
        r is Some <==> status_ok(row@),
        r matches Some(m) ==> model_matches_row(m, row@, groups@),
{
    let status = match status_cell(row) {
        Ok(s) => s,
        Err(_) => {
            return None;
        },
    };
    let (status_id, status_name) = match status {
        Some((v, n)) => (Some(v), Some(n)),
        None => (None, None),
    };
    let base_height = decimal_or_zero(cell_to_string(row, Model::BASE_HEIGHT_COL).as_str());
    let cover_height = decimal_or_zero(cell_to_string(row, Model::COVER_HEIGHT_COL).as_str());
    let weight = decimal_or_zero(cell_to_string(row, Model::WEIGHT_COL).as_str());
    Some(
        Model {
            code_1c: get_formatted_1c_code_string(cell_to_string(row, Model::CODE_1C_COL)),
            model_manufacture_status_id: status_id,
            model_manufacture_status_name: status_name,
            model_collection_code_1c: code_cell(row, Model::MODEL_COLLECTION_CODE_1C_COL),
            model_collection_name: text_cell(row, Model::MODEL_COLLECTION_NAME_COL),
            model_type_code_1c: code_cell(row, Model::MODEL_TYPE_CODE_1C_COL),
            model_type_name: text_cell(row, Model::MODEL_TYPE_NAME_COL),
            model_manufacture_type_code_1c: code_cell(row, Model::MODEL_MANUFACTURE_TYPE_CODE_1C_COL),
            model_manufacture_type_name: text_cell(row, Model::MODEL_MANUFACTURE_TYPE_NAME_COL),
            cover_code_1c_copy: code_cell(row, Model::COVER_CODE_1C_COL),
            cover_code_1c: None,
            serial: gen_cell(row, Model::MODEL_SERIAL_COL),
            name: cell_to_string(row, Model::NAME_COL),
            name_short: gen_cell(row, Model::NAME_SHORT_COL),
            name_common: gen_cell(row, Model::NAME_COMMON_COL),
            name_report: gen_cell(row, Model::NAME_REPORT_COL),
            cover_name_1c: gen_cell(row, Model::COVER_NAME_1C_COL),
            base_height,
            cover_height,
            textile: gen_cell(row, Model::TEXTILE_COL),
            textile_composition: gen_cell(row, Model::TEXTILE_COMPOSITION_COL),
            cover_type: gen_cell(row, Model::COVER_TYPE_COL),
            zipper: gen_cell(row, Model::ZIPPER_COL),
            spacer: gen_cell(row, Model::SPACER_COL),
            stitch_pattern: gen_cell(row, Model::STITCH_PATTERN_COL),
            pack_type: gen_cell(row, Model::PACK_TYPE_COL),
            base_composition: gen_cell(row, Model::BASE_COMPOSITION_COL),
            side_foam: gen_cell(row, Model::SIDE_FOAM_COL),
            base_block: gen_cell(row, Model::BASE_BLOCK_COL),
            load: cell_to_i32(row, Model::LOAD_COL),
            guarantee: cell_to_i32(row, Model::GUARANTEE_COL),
            life: cell_to_i32(row, Model::LIFE_COL),
            cover_mark: gen_cell(row, Model::COVER_MARK_COL),
            model_mark: gen_cell(row, Model::MODEL_MARK_COL),
            model_manufacture_group_id: group_cell(row, groups),
            owner: gen_cell(row, Model::OWNER_COL),
            lamit: lamit_cell(row),
            sewing_machine: gen_cell(row, Model::SEWING_MACHINE_COL),
            kant: gen_cell(row, Model::KANT_COL),
            tkch: gen_cell(row, Model::TKCH_COL),
            pack_density: parse_decimal(cell_to_string(row, Model::PACK_DENSITY_COL).as_str()),
            side_height: gen_cell(row, Model::SIDE_HEIGHT_COL),
            pack_weight_rb: parse_decimal(cell_to_string(row, Model::PACK_WEIGHT_RB_COL).as_str()),
            pack_weight_ex: parse_decimal(cell_to_string(row, Model::PACK_WEIGHT_EX_COL).as_str()),
            weight,
            barcode: gen_cell(row, Model::BARCODE_COL),
        },
    )
}

/// The first row of data (counted from 0).
pub open spec fn first_model_row() -> int {
    Model::DATA_START_ROW - 1
}

/// Where the models end: the first row from `i` on without a code, or the
/// end of the sheet.
pub open spec fn models_end(rows: Seq<Seq<CellValue>>, i: int) -> int
    decreases rows.len() - i,
{
    if i < rows.len() && txt(rows[i], Model::CODE_1C_COL).len() > 0 {
        models_end(rows, i + 1)
    } else {
        i
    }
}

/// What the rows before `j` give: each code of a model with the last row
/// that has it, in the order in which the codes first came, and the
/// statuses, collections, kinds of product and kinds of production named
/// on the way, each key with the last name given to it.
pub struct ModelScan {
    pub models: Seq<(Seq<char>, int)>,
    pub statuses: Seq<(i64, Seq<char>)>,
    pub collections: Seq<(Seq<char>, Seq<char>)>,
    pub model_types: Seq<(Seq<char>, Seq<char>)>,
    pub manufacture_types: Seq<(Seq<char>, Seq<char>)>,
}

/// `m` with the name in column `name_col` given to the code in column
/// `code_col`, when the row has both.
pub open spec fn named(
    m: Seq<(Seq<char>, Seq<char>)>,
    row: Seq<CellValue>,
    code_col: usize,
    name_col: usize,
) -> Seq<(Seq<char>, Seq<char>)> {
    match (code_of(row, code_col), non_empty_text(txt(row, name_col))) {
        (Some(c), Some(n)) => upsert(m, c, n),
        _ => m,
    }
}

/// The code of the model in row `q`, in normal form.
#[verifier::opaque]
pub open spec fn row_code(rows: Seq<Seq<CellValue>>, q: int) -> Seq<char> {
    code_1c_spec(txt(rows[q], Model::CODE_1C_COL))
}

/// Each code of a model in the rows before `j` with the last row that has
/// it, in the order in which the codes first came.
pub open spec fn model_keys(rows: Seq<Seq<CellValue>>, j: int) -> Seq<(Seq<char>, int)>
    decreases j,
{
    if j <= first_model_row() {
        seq![]
    } else {
        upsert(model_keys(rows, j - 1), row_code(rows, j - 1), j - 1)
    }
}

/// The statuses named in the rows before `j`, each number with the last
/// name given to it.
pub open spec fn status_scan(rows: Seq<Seq<CellValue>>, j: int) -> Seq<(i64, Seq<char>)>
    decreases j,
{
    if j <= first_model_row() {
        seq![]
    } else {
        let p = status_scan(rows, j - 1);
        match status_of(rows[j - 1]) {
            Some((v, n)) => upsert(p, v, n),
            None => p,
        }
    }
}

/// The codes in column `code_col` of the rows before `j`, each with the
/// last name in column `name_col` given to it.
pub open spec fn named_scan(rows: Seq<Seq<CellValue>>, j: int, code_col: usize, name_col: usize) -> Seq<
    (Seq<char>, Seq<char>),
>
    decreases j,
{
    if j <= first_model_row() {
        seq![]
    } else {
        named(named_scan(rows, j - 1, code_col, name_col), rows[j - 1], code_col, name_col)
    }
}

/// The rows of models before row `j` read in order.
pub open spec fn model_scan(rows: Seq<Seq<CellValue>>, j: int) -> ModelScan {
    ModelScan {
        models: model_keys(rows, j),
        statuses: status_scan(rows, j),
        collections: named_scan(
            rows,
            j,
            Model::MODEL_COLLECTION_CODE_1C_COL,
            Model::MODEL_COLLECTION_NAME_COL,
        ),
        model_types: named_scan(rows, j, Model::MODEL_TYPE_CODE_1C_COL, Model::MODEL_TYPE_NAME_COL),
        manufacture_types: named_scan(
            rows,
            j,
            Model::MODEL_MANUFACTURE_TYPE_CODE_1C_COL,
            Model::MODEL_MANUFACTURE_TYPE_NAME_COL,
        ),
    }
}

/// The models keyed by their codes.
pub open spec fn keyed(ms: Seq<Model>) -> Seq<(Seq<char>, Model)> {
    ms.map_values(|m: Model| (m.code_1c@, m))
}

/// The statuses as numbers and names.
pub open spec fn status_views(v: Seq<(i64, String)>) -> Seq<(i64, Seq<char>)> {
    v.map_values(|e: (i64, String)| (e.0, e.1@))
}

/// What the rows of the report give.
pub struct ModelImport {
    /// One model a code, from the last row with that code, in the order in
    /// which the codes first came.
    pub models: Vec<Model>,
    /// The production statuses: number and name.
    pub statuses: Vec<(i64, String)>,
    /// The collections: code and name.
    pub collections: Vec<(String, String)>,
    /// The kinds of product: code and name.
    pub model_types: Vec<(String, String)>,
    /// The kinds of production: code and name.
    pub manufacture_types: Vec<(String, String)>,
    /// The number of rows of models read.
    pub count: usize,
}

/// Why the rows of models could not be read.
#[derive(Debug, PartialEq, Eq, Structural)]
pub enum ModelImportError {
    /// The status in this row (counted from 0) has a `, ` with no number
    /// before it.
    StatusId { row: usize },
}

/// Whether `imp` holds what the rows before `j` give.
pub open spec fn scanned(imp: ModelImport, rows: Seq<Seq<CellValue>>, groups: Seq<i64>, j: int) -> bool {
    let sc = model_scan(rows, j);
    &&& imp.models@.len() == sc.models.len()
    &&& forall|k: int|
        0 <= k < sc.models.len() ==> {
            &&& #[trigger] keyed(imp.models@)[k].0 == sc.models[k].0
            &&& first_model_row() <= sc.models[k].1 < j
            &&& model_matches_row(imp.models@[k], rows[sc.models[k].1], groups)
        }
    &&& status_views(imp.statuses@) == sc.statuses
    &&& pairs_view(imp.collections@) == sc.collections
    &&& pairs_view(imp.model_types@) == sc.model_types
    &&& pairs_view(imp.manufacture_types@) == sc.manufacture_types
}

/// Puts `m` in the place of the model with its code, or at the end.
fn upsert_model(models: &mut Vec<Model>, m: Model)
    ensures
        keyed(final(models)@) == upsert(keyed(old(models)@), m.code_1c@, m),
{
    proof {
        lemma_key_index_bounds(keyed(models@), m.code_1c@);
    }
    let mut i: usize = 0;
    while i < models.len()
        invariant
            i <= models@.len(),
            models@ == old(models)@,
            forall|j: int| 0 <= j < i ==> keyed(models@)[j].0 != m.code_1c@,
        decreases models.len() - i,
    {
        if models[i].code_1c == m.code_1c {
            assert(key_index(keyed(models@), m.code_1c@) == i) by {
                lemma_key_index_bounds(keyed(models@), m.code_1c@);
                assert(keyed(models@)[i as int].0 == m.code_1c@);
            }
            let ghost before = models@;
            let ghost mm = m;
            models.set(i, m);
            assert(keyed(models@) == keyed(before).update(i as int, (mm.code_1c@, mm)));
            return;
        }
        i += 1;
    }
    proof {
        lemma_key_index_bounds(keyed(old(models)@), m.code_1c@);
        assert(key_index(keyed(old(models)@), m.code_1c@) == old(models)@.len()) by {
            let ki = key_index(keyed(old(models)@), m.code_1c@);
            if ki < old(models)@.len() {
                assert(keyed(models@)[ki].0 != m.code_1c@);
            }
        }
    }
    let ghost before = models@;
    let ghost mm = m;
    models.push(m);
    assert(keyed(models@) == keyed(before).push((mm.code_1c@, mm)));
}

/// Gives the status numbered `k` the name `v`.
fn upsert_status(entries: &mut Vec<(i64, String)>, k: i64, v: String)
    ensures
        status_views(final(entries)@) == upsert(status_views(old(entries)@), k, v@),
{
    proof {
        lemma_key_index_bounds(status_views(entries@), k);
    }
    let mut i: usize = 0;
    while i < entries.len()
        invariant
            i <= entries@.len(),
            entries@ == old(entries)@,
            forall|j: int| 0 <= j < i ==> status_views(entries@)[j].0 != k,
        decreases entries.len() - i,
    {
        if entries[i].0 == k {
            assert(key_index(status_views(entries@), k) == i) by {
                lemma_key_index_bounds(status_views(entries@), k);
                assert(status_views(entries@)[i as int].0 == k);
            }
            let ghost before = entries@;
            let ghost vv = v@;
            entries.set(i, (k, v));
            assert(status_views(entries@) == status_views(before).update(i as int, (k, vv)));
            return;
        }
        i += 1;
    }
    proof {
        lemma_key_index_bounds(status_views(old(entries)@), k);
        assert(key_index(status_views(old(entries)@), k) == old(entries)@.len()) by {
            let ki = key_index(status_views(old(entries)@), k);
            if ki < old(entries)@.len() {
                assert(status_views(entries@)[ki].0 != k);
            }
        }
    }
    let ghost before = entries@;
    let ghost vv = v@;
    entries.push((k, v));
    assert(status_views(entries@) == status_views(before).push((k, vv)));
}

/// Gives the code in `code` the name in `name` when both are there.
fn put_named(entries: &mut Vec<(String, String)>, code: &Option<String>, name: &Option<String>)
    ensures
        pairs_view(final(entries)@) == match (ov(*code), ov(*name)) {
            (Some(c), Some(n)) => upsert(pairs_view(old(entries)@), c, n),
            _ => pairs_view(old(entries)@),
        },
{
    match (code, name) {
        (Some(c), Some(n)) => upsert_pair(entries, c.clone(), n.clone()),
        _ => {},
    }
}

proof fn lemma_models_end_from(rows: Seq<Seq<CellValue>>, i: int)
    ensures
        models_end(rows, i) >= i,
    decreases rows.len() - i,
{
    if i < rows.len() && txt(rows[i], Model::CODE_1C_COL).len() > 0 {
        lemma_models_end_from(rows, i + 1);
    }
}

/// Two keyed sequences with the same keys keep the same keys when one key
/// is set in both; each entry is either left as it was in both or is the
/// new entry in both.
proof fn lemma_upsert_same_keys<K, V1, V2>(a: Seq<(K, V1)>, b: Seq<(K, V2)>, k: K, v1: V1, v2: V2)
    requires
        a.len() == b.len(),
        forall|j: int| 0 <= j < a.len() ==> #[trigger] a[j].0 == b[j].0,
    ensures
        upsert(a, k, v1).len() == upsert(b, k, v2).len(),
        forall|j: int|
            0 <= j < upsert(a, k, v1).len() ==> {
                ||| j < a.len() && #[trigger] upsert(a, k, v1)[j] == a[j] && upsert(b, k, v2)[j] == b[j]
                ||| upsert(a, k, v1)[j] == (k, v1) && upsert(b, k, v2)[j] == (k, v2)
            },
    decreases a.len(),
{
    lemma_key_index_bounds(a, k);
    lemma_key_index_bounds(b, k);
    assert(key_index(a, k) == key_index(b, k)) by {
        let ia = key_index(a, k);
        let ib = key_index(b, k);
        if ia < ib {
            assert(b[ia].0 != k);
        } else if ib < ia {
            assert(a[ib].0 != k);
        }
    }
}

/// Reads the rows of models: from the first row of data up to the first
/// row without a code. Fails on the first row whose status has a `, `
/// with no number before it.
pub fn import_model_rows(rows: &Vec<Vec<CellValue>>, groups: &Vec<i64>) -> (r: Result<
    ModelImport,
    ModelImportError,
>)
    ensures
        match r {
            Ok(imp) => {
                &&& forall|k: int|
                    first_model_row() <= k < models_end(rows_view(rows@), first_model_row())
                        ==> status_ok(#[trigger] rows_view(rows@)[k])
                &&& imp.count == models_end(rows_view(rows@), first_model_row()) - first_model_row()
                &&& scanned(
                    imp,
                    rows_view(rows@),
                    groups@,
                    models_end(rows_view(rows@), first_model_row()),
                )
            },
            Err(ModelImportError::StatusId { row }) => {
                &&& first_model_row() <= row < models_end(rows_view(rows@), first_model_row())
                &&& !status_ok(rows_view(rows@)[row as int])
                &&& forall|k: int| first_model_row() <= k < row ==> status_ok(#[trigger] rows_view(rows@)[k])
            },
        },
{
    let ghost rv = rows_view(rows@);
    let first: usize = Model::DATA_START_ROW - 1;
    let mut imp = ModelImport {
        models: Vec::new(),
        statuses: Vec::new(),
        collections: Vec::new(),
        model_types: Vec::new(),
        manufacture_types: Vec::new(),
        count: 0,
    };
    proof {
        assert(keyed(imp.models@) =~= seq![]);
        assert(status_views(imp.statuses@) =~= seq![]);
        assert(pairs_view(imp.collections@) =~= seq![]);
        assert(pairs_view(imp.model_types@) =~= seq![]);
        assert(pairs_view(imp.manufacture_types@) =~= seq![]);
    }
    if rows.len() <= first {
        return Ok(imp);
    }
    let mut i: usize = first;
    while i < rows.len()
        invariant_except_break
            first == first_model_row(),
            rv == rows_view(rows@),
            first <= i <= rows@.len(),
            models_end(rv, first as int) == models_end(rv, i as int),
            forall|k: int| first <= k < i ==> status_ok(#[trigger] rv[k]),
            imp.count == i - first,
            scanned(imp, rv, groups@, i as int),
        ensures
            first == first_model_row(),
            rv == rows_view(rows@),
            first <= i <= rows@.len(),
            models_end(rv, first as int) == i,
            forall|k: int| first <= k < i ==> status_ok(#[trigger] rv[k]),
            imp.count == i - first,
            scanned(imp, rv, groups@, i as int),
        decreases rows.len() - i,
    {
        let row = &rows[i];
        assert(row@ == rv[i as int]);
        if cell_to_string(row, Model::CODE_1C_COL).unicode_len() == 0 {
            break;
        }
        let m = match model_from_row(row, groups) {
            Some(m) => m,
            None => {
                proof {
                    lemma_models_end_from(rv, i + 1);
                }
                return Err(ModelImportError::StatusId { row: i });
            },
        };
        let ghost old_imp = imp;
        let ghost old_imp_models = imp.models@;
        let ghost sc = model_scan(rv, i as int);
        assert(model_matches_row(m, rv[i as int], groups@));
        match (&m.model_manufacture_status_id, &m.model_manufacture_status_name) {
            (Some(v), Some(n)) => upsert_status(&mut imp.statuses, *v, n.clone()),
            _ => {},
        }
        put_named(&mut imp.collections, &m.model_collection_code_1c, &m.model_collection_name);
        put_named(&mut imp.model_types, &m.model_type_code_1c, &m.model_type_name);
        put_named(
            &mut imp.manufacture_types,
            &m.model_manufacture_type_code_1c,
            &m.model_manufacture_type_name,
        );
        let ghost mm = m;
        upsert_model(&mut imp.models, m);
        imp.count = imp.count + 1;
        proof {
            let c = code_1c_spec(txt(rv[i as int], Model::CODE_1C_COL));
            reveal(row_code);
            lemma_upsert_same_keys(keyed(old_imp_models), sc.models, c, mm, i as int);
            let sc2 = model_scan(rv, i + 1);
            assert(sc2.models == upsert(sc.models, c, i as int));
            assert forall|k: int| 0 <= k < sc2.models.len() implies {
                &&& #[trigger] keyed(imp.models@)[k].0 == sc2.models[k].0
                &&& first_model_row() <= sc2.models[k].1 < i + 1
                &&& model_matches_row(imp.models@[k], rv[sc2.models[k].1], groups@)
            } by {
                let a = keyed(old_imp_models);
                assert(keyed(imp.models@) == upsert(a, c, mm));
                let e = upsert(a, c, mm)[k];
                assert(keyed(imp.models@)[k].1 == imp.models@[k]);
                if k < a.len() && e == a[k] && sc2.models[k] == sc.models[k] {
                    assert(keyed(old_imp.models@)[k].0 == sc.models[k].0);
                    assert(a[k].1 == old_imp_models[k]);
                } else {
                    assert(e == (c, mm) && sc2.models[k] == (c, i as int));
                    assert(imp.models@[k] == mm);
                }
            }
            assert(imp.models@.len() == keyed(imp.models@).len());
        }
        i = i + 1;
    }
    Ok(imp)
}

/// The models as the database holds them: code and the code of the cover
/// as the report gave it.
pub open spec fn cover_entries_view(v: Seq<(String, Option<String>)>) -> Seq<(Seq<char>, Option<Seq<char>>)> {
    v.map_values(|e: (String, Option<String>)| (e.0@, ov(e.1)))
}

/// Whether some model has the code `c`.
pub open spec fn has_code(entries: Seq<(Seq<char>, Option<Seq<char>>)>, c: Seq<char>) -> bool {
    exists|i: int| 0 <= i < entries.len() && #[trigger] entries[i].0 == c
}

/// Of the first `n` models, in order, each whose cover is itself a model,
/// with the code of that cover.
pub open spec fn cover_links_spec(entries: Seq<(Seq<char>, Option<Seq<char>>)>, n: int) -> Seq<
    (Seq<char>, Seq<char>),
>
    decreases n,
{
    if n <= 0 {
        seq![]
    } else {
        let p = cover_links_spec(entries, n - 1);
        match entries[n - 1].1 {
            Some(c) => if has_code(entries, c) {
                p.push((entries[n - 1].0, c))
            } else {
                p
            },
            None => p,
        }
    }
}

/// Whether one of `models` has the code `c`.
fn has_model_code(models: &Vec<(String, Option<String>)>, c: &String) -> (r: bool)
    ensures
        r == has_code(cover_entries_view(models@), c@),
{
    let ghost e = cover_entries_view(models@);
    let mut i: usize = 0;
    while i < models.len()
        invariant
            i <= models@.len(),
            e == cover_entries_view(models@),
            forall|j: int| 0 <= j < i ==> e[j].0 != c@,
        decreases models.len() - i,
    {
        if models[i].0 == *c {
            assert(e[i as int].0 == c@);
            return true;
        }
        i += 1;
    }
    false
}

/// The models whose cover is itself a model, each with the code of its
/// cover: the links that can be set.
pub fn cover_links(models: &Vec<(String, Option<String>)>) -> (r: Vec<(String, String)>)
    ensures
        pairs_view(r@) == cover_links_spec(cover_entries_view(models@), models@.len() as int),
{
    let ghost e = cover_entries_view(models@);
    let mut r: Vec<(String, String)> = Vec::new();
    let mut i: usize = 0;
    while i < models.len()
        invariant
            i <= models@.len(),
            e == cover_entries_view(models@),
            pairs_view(r@) == cover_links_spec(e, i as int),
        decreases models.len() - i,
    {
        let ghost before = r@;
        match &models[i].1 {
            Some(c) => {
                if has_model_code(models, c) {
                    r.push((models[i].0.clone(), c.clone()));
                    assert(pairs_view(r@) == pairs_view(before).push((e[i as int].0, c@)));
                }
            },
            None => {},
        }
        i += 1;
    }
    r
}

/// The entries of `entities`, among the first `n`, whose key is (when
/// `known`) or is not (otherwise) among `base`, in order.
pub open spec fn known_part<K>(entities: Seq<(K, Seq<char>)>, base: Seq<K>, known: bool, n: int) -> Seq<
    (K, Seq<char>),
>
    decreases n,
{
    if n <= 0 {
        seq![]
    } else {
        let p = known_part(entities, base, known, n - 1);
        if base.contains(entities[n - 1].0) == known {
            p.push(entities[n - 1])
        } else {
            p
        }
    }
}

/// The strings as views.
pub open spec fn strings_view(v: Seq<String>) -> Seq<Seq<char>> {
    v.map_values(|s: String| s@)
}

/// Whether `c` is among `base`.
fn contains_string(base: &Vec<String>, c: &String) -> (r: bool)
    ensures
        r == strings_view(base@).contains(c@),
{
    let mut i: usize = 0;
    while i < base.len()
        invariant
            i <= base@.len(),
            forall|j: int| 0 <= j < i ==> strings_view(base@)[j] != c@,
        decreases base.len() - i,
    {
        if base[i] == *c {
            assert(strings_view(base@)[i as int] == c@);
            return true;
        }
        i += 1;
    }
    false
}

/// Whether `k` is among `base`.
fn contains_id(base: &Vec<i64>, k: i64) -> (r: bool)
    ensures
        r == base@.contains(k),
{
    let mut i: usize = 0;
    while i < base.len()
        invariant
            i <= base@.len(),
            forall|j: int| 0 <= j < i ==> base@[j] != k,
        decreases base.len() - i,
    {
        if base[i] == k {
            assert(base@[i as int] == k);
            return true;
        }
        i += 1;
    }
    false
}

/// The entities keyed by a code split in two, in order: those the table
/// `base` already has, whose names are to be updated, and the new ones,
/// to be inserted.
pub fn split_known_codes(entities: &Vec<(String, String)>, base: &Vec<String>) -> (r: (
    Vec<(String, String)>,
    Vec<(String, String)>,
))
    ensures
        pairs_view(r.0@) == known_part(pairs_view(entities@), strings_view(base@), true, entities@.len() as int),
        pairs_view(r.1@) == known_part(pairs_view(entities@), strings_view(base@), false, entities@.len() as int),
{
    let ghost e = pairs_view(entities@);
    let ghost b = strings_view(base@);
    let mut known: Vec<(String, String)> = Vec::new();
    let mut new: Vec<(String, String)> = Vec::new();
    let mut i: usize = 0;
    while i < entities.len()
        invariant
            i <= entities@.len(),
            e == pairs_view(entities@),
            b == strings_view(base@),
            pairs_view(known@) == known_part(e, b, true, i as int),
            pairs_view(new@) == known_part(e, b, false, i as int),
        decreases entities.len() - i,
    {
        let entry = (entities[i].0.clone(), entities[i].1.clone());
        let ghost before_known = known@;
        let ghost before_new = new@;
        if contains_string(base, &entities[i].0) {
            known.push(entry);
            assert(pairs_view(known@) == pairs_view(before_known).push(e[i as int]));
        } else {
            new.push(entry);
            assert(pairs_view(new@) == pairs_view(before_new).push(e[i as int]));
        }
        i += 1;
    }
    (known, new)
}

/// The entities keyed by a number split in two, in order: those the table
/// `base` already has, whose names are to be updated, and the new ones,
/// to be inserted.
pub fn split_known_ids(entities: &Vec<(i64, String)>, base: &Vec<i64>) -> (r: (
    Vec<(i64, String)>,
    Vec<(i64, String)>,
))
    ensures
        status_views(r.0@) == known_part(status_views(entities@), base@, true, entities@.len() as int),
        status_views(r.1@) == known_part(status_views(entities@), base@, false, entities@.len() as int),
{
    let ghost e = status_views(entities@);
    let mut known: Vec<(i64, String)> = Vec::new();
    let mut new: Vec<(i64, String)> = Vec::new();
    let mut i: usize = 0;
    while i < entities.len()
        invariant
            i <= entities@.len(),
            e == status_views(entities@),
            status_views(known@) == known_part(e, base@, true, i as int),
            status_views(new@) == known_part(e, base@, false, i as int),
        decreases entities.len() - i,
    {
        let entry = (entities[i].0, entities[i].1.clone());
        let ghost before_known = known@;
        let ghost before_new = new@;
        if contains_id(base, entities[i].0) {
            known.push(entry);
            assert(status_views(known@) == status_views(before_known).push(e[i as int]));
        } else {
            new.push(entry);
            assert(status_views(new@) == status_views(before_new).push(e[i as int]));
        }
        i += 1;
    }
    (known, new)
}

/// Setting a key keeps the keys distinct: the entry of that key gets the
/// value, the other entries are kept, and the keys stay where they were.
proof fn lemma_upsert_keys<K, V>(m: Seq<(K, V)>, k: K, v: V)
    requires
        distinct_keys(m),
    ensures
        distinct_keys(upsert(m, k, v)),
        m.len() <= upsert(m, k, v).len() <= m.len() + 1,
        forall|j: int| 0 <= j < m.len() ==> #[trigger] upsert(m, k, v)[j].0 == m[j].0,
        forall|j: int| 0 <= j < m.len() && m[j].0 != k ==> #[trigger] upsert(m, k, v)[j] == m[j],
        exists|j: int| 0 <= j < upsert(m, k, v).len() && #[trigger] upsert(m, k, v)[j] == (k, v),
        upsert(m, k, v).len() == m.len() + 1 ==> upsert(m, k, v)[m.len() as int] == (k, v),
{
    lemma_key_index_bounds(m, k);
    let i = key_index(m, k);
    let r = upsert(m, k, v);
    assert(r[i] == (k, v));
    assert forall|a: int, b: int| 0 <= a < b < r.len() implies #[trigger] r[a].0 != #[trigger] r[b].0 by {
        if b == m.len() {
            assert(r[a] == m[a]);
        }
    }
}

proof fn lemma_model_keys_distinct(rows: Seq<Seq<CellValue>>, j: int)
    ensures
        distinct_keys(model_keys(rows, j)),
    decreases j,
{
    if j > first_model_row() {
        lemma_model_keys_distinct(rows, j - 1);
        lemma_upsert_keys(model_keys(rows, j - 1), row_code(rows, j - 1), j - 1);
    }
}

proof fn lemma_model_keys_rows(rows: Seq<Seq<CellValue>>, j: int, k: int)
    requires
        0 <= k < model_keys(rows, j).len(),
    ensures
        first_model_row() <= model_keys(rows, j)[k].1 < j,
        row_code(rows, model_keys(rows, j)[k].1) == model_keys(rows, j)[k].0,
        forall|q: int|
            model_keys(rows, j)[k].1 < q < j ==> #[trigger] row_code(rows, q) != model_keys(rows, j)[k].0,
    decreases j,
{
    if j > first_model_row() {
        let p = model_keys(rows, j - 1);
        let c = row_code(rows, j - 1);
        lemma_model_keys_distinct(rows, j - 1);
        lemma_upsert_keys(p, c, j - 1);
        lemma_key_index_bounds(p, c);
        let m = model_keys(rows, j);
        if k < p.len() && p[k].0 != c {
            assert(m[k] == p[k]);
            lemma_model_keys_rows(rows, j - 1, k);
        } else if k < p.len() {
            assert(key_index(p, c) == k) by {
                let ki = key_index(p, c);
                if ki < k {
                    assert(p[ki].0 == p[k].0);
                }
            }
            assert(m[k] == (c, j - 1));
        } else {
            assert(m[k] == (c, j - 1));
        }
    }
}

proof fn lemma_model_keys_cover(rows: Seq<Seq<CellValue>>, j: int, q: int)
    requires
        first_model_row() <= q < j,
    ensures
        key_index(model_keys(rows, j), row_code(rows, q)) < model_keys(rows, j).len(),
    decreases j,
{
    let p = model_keys(rows, j - 1);
    let c = row_code(rows, j - 1);
    let m = model_keys(rows, j);
    lemma_model_keys_distinct(rows, j - 1);
    lemma_upsert_keys(p, c, j - 1);
    lemma_key_index_bounds(m, row_code(rows, q));
    if q < j - 1 {
        lemma_model_keys_cover(rows, j - 1, q);
        lemma_key_index_bounds(p, row_code(rows, q));
        let k = key_index(p, row_code(rows, q));
        assert(m[k].0 == p[k].0);
    } else {
        let k = choose|k: int| 0 <= k < m.len() && #[trigger] m[k] == (c, j - 1);
        assert(m[k].0 == c);
    }
}

/// The report read in order keeps one model a code, from the last row with
/// that code: the codes kept are distinct, each is the code of the row it
/// was taken from, no later row read has that code, and the code of every
/// row read is kept.
pub proof fn law_model_last_row_wins(rows: Seq<Seq<CellValue>>, j: int)
    ensures
        distinct_keys(model_keys(rows, j)),
        forall|k: int|
            0 <= k < model_keys(rows, j).len() ==> {
                &&& first_model_row() <= (#[trigger] model_keys(rows, j)[k]).1 < j
                &&& row_code(rows, model_keys(rows, j)[k].1) == model_keys(rows, j)[k].0
                &&& forall|q: int|
                    model_keys(rows, j)[k].1 < q < j ==> #[trigger] row_code(rows, q) != model_keys(rows, j)[k].0
            },
        forall|q: int|
            first_model_row() <= q < j ==> key_index(model_keys(rows, j), #[trigger] row_code(rows, q))
                < model_keys(rows, j).len(),
{
    lemma_model_keys_distinct(rows, j);
    assert forall|k: int| 0 <= k < model_keys(rows, j).len() implies {
        &&& first_model_row() <= (#[trigger] model_keys(rows, j)[k]).1 < j
        &&& row_code(rows, model_keys(rows, j)[k].1) == model_keys(rows, j)[k].0
        &&& forall|q: int|
            model_keys(rows, j)[k].1 < q < j ==> #[trigger] row_code(rows, q) != model_keys(rows, j)[k].0
    } by {
        lemma_model_keys_rows(rows, j, k);
    }
    assert forall|q: int| first_model_row() <= q < j implies key_index(
        model_keys(rows, j),
        #[trigger] row_code(rows, q),
    ) < model_keys(rows, j).len() by {
        lemma_model_keys_cover(rows, j, q);
    }
}

/// The statuses read keep each number once, and the collections and kinds
/// read keep each code once.
pub proof fn law_model_tables_distinct(rows: Seq<Seq<CellValue>>, j: int, code_col: usize, name_col: usize)
    ensures
        distinct_keys(status_scan(rows, j)),
        distinct_keys(named_scan(rows, j, code_col, name_col)),
    decreases j,
{
    if j > first_model_row() {
        law_model_tables_distinct(rows, j - 1, code_col, name_col);
        match status_of(rows[j - 1]) {
            Some((v, n)) => lemma_upsert_keys(status_scan(rows, j - 1), v, n),
            None => {},
        }
        let row = rows[j - 1];
        match (code_of(row, code_col), non_empty_text(txt(row, name_col))) {
            (Some(c), Some(n)) => lemma_upsert_keys(named_scan(rows, j - 1, code_col, name_col), c, n),
            _ => {},
        }
    }
}

/// The Lamit cell reads yes for `да` and no for `нет`, in any case and
/// with white space around, and nothing for any other text.
pub proof fn law_lamit_words(row: Seq<CellValue>)
    ensures
        ({
            let l = spec_to_lowercase(trim_spec(cell_text_spec(row, Model::LAMIT_COL as int)));
            &&& lamit_of(row) == Some(true) <==> l == "да"@
            &&& lamit_of(row) == Some(false) <==> l == "нет"@
            &&& lamit_of(row) is None <==> (l != "да"@ && l != "нет"@)
        }),
{
    reveal_strlit("да");
    reveal_strlit("нет");
    assert("да"@.len() == 2 && "нет"@.len() == 3);
}

/// The status cell splits at its first `, ` (`str::split_once`): the
/// number part, `, ` and the name make up the cell, the number part holds
/// no `, `; the cell splits not at all exactly when it holds no `, `.
pub proof fn law_status_split(s: Seq<char>)
    ensures
        status_parts(s) matches Some((a, b)) ==> s == a + ", "@ + b && !contains_spec(a, ", "@),
        status_parts(s) is None <==> !contains_spec(s, ", "@),
{
    reveal_strlit(", ");
    lemma_find_spec(s, ", "@);
    let k = find_spec(s, ", "@);
    if k < s.len() {
        assert(occurs_at(s, ", "@, k));
        assert(s =~= s.take(k) + ", "@ + s.skip(k + 2));
        if contains_spec(s.take(k), ", "@) {
            let j = choose|j: int| occurs_at(s.take(k), ", "@, j);
            assert(s.take(k).subrange(j, j + 2) =~= s.subrange(j, j + 2));
            assert(occurs_at(s, ", "@, j));
        }
        assert(contains_spec(s, ", "@));
    }
}

} // verus!
