//! The rows of the 1C report of specifications, read in order.
//!
//! A specification takes five rows: the model's name, the model's code,
//! the specification's name, its code and whether it is active ("да").
//! The lines of materials follow, up to a row without a material code.
//! A specification is kept when its model is known, it has a name and a
//! code, and it is active. Blank rows are skipped; more than a limit of
//! them in a row end the report. Materials that the specifications name
//! and the list of materials lacks are collected, covers excepted.

use vstd::prelude::*;
use crate::excel_parser::cells::{
    CellValue, cell_text_spec, cell_to_i16, cell_to_string, cell_to_value_text,
    cell_value_text_spec, decimal_of, parse_decimal, parse_i16_spec,
};
use crate::excel_parser::helpers::{code_1c_spec, get_formatted_1c_code_string, get_formatted_unit_string};
use crate::constants::{MISSING_MATERIALS_CATEGORY_CODE_1C, MISSING_MATERIALS_GROUP_CODE_1C};
use crate::excel_parser::material::{Material, MaterialView, opt_view};
use crate::excel_parser::specification::{MissingMaterial, ModelConstruct, ModelConstructItem};
use crate::helpers::unit_spec;
use crate::text::{contains_chars, contains_spec, lowercase_chars, spec_to_lowercase, to_chars, trim_chars, trim_spec, eq_chars};

verus! {

/// The number of blank rows in a row after which the report ends.
pub const EMPTY_COUNT_LIMIT: i32 = 200;

/// The rows as views.
pub open spec fn rows_view(rows: Seq<Vec<CellValue>>) -> Seq<Seq<CellValue>> {
    rows.map_values(|r: Vec<CellValue>| r@)
}

/// Whether `c` is one of `codes`.
pub open spec fn known(codes: Seq<String>, c: Seq<char>) -> bool {
    exists|i: int| 0 <= i < codes.len() && #[trigger] codes[i]@ == c
}

/// Whether `c` is one of `codes`.
fn is_known(codes: &Vec<String>, c: &String) -> (r: bool)
    ensures
        r == known(codes@, c@),
{
    let mut i: usize = 0;
    while i < codes.len()
        invariant
            i <= codes@.len(),
            forall|k: int| 0 <= k < i ==> codes@[k]@ != c@,
        decreases codes@.len() - i,
    {
        if codes[i] == *c {
            return true;
        }
        i += 1;
    }
    false
}

/// A specification as read.
pub struct SpecificationView {
    pub code_1c: Seq<char>,
    pub name: Seq<char>,
    pub model_code_1c: Seq<char>,
    pub model_name: Seq<char>,
}

/// A line of a specification as read from row `row` (its quantities aside).
pub struct ItemView {
    pub row: nat,
    pub construct_code_1c: Seq<char>,
    pub material_code_1c: Option<Seq<char>>,
    pub material_code_1c_copy: Seq<char>,
    pub material_name: Seq<char>,
    pub material_unit: Option<Seq<char>>,
    pub detail: Option<Seq<char>>,
    pub procedure_code_1c: Option<Seq<char>>,
    pub procedure_code_1c_copy: Option<Seq<char>>,
    pub procedure_name: Option<Seq<char>>,
    pub position: Option<i16>,
}

/// What the reader gives, in order: specifications, each followed by its
/// lines.
pub enum ImportEvent {
    Specification(SpecificationView),
    Item(ItemView),
}

/// A missing material as collected.
pub struct MissingView {
    pub code_1c: Seq<char>,
    pub name_1c: Seq<char>,
    pub unit: Option<Seq<char>>,
}

/// Where the reader is: the next row, the blank rows met in a row, and
/// the last model code, specification name and specification code read.
pub struct ScanState {
    pub i: nat,
    pub empty_count: int,
    pub model_code: Seq<char>,
    pub spec_name: Seq<char>,
    pub spec_code: Seq<char>,
}

/// An optional text that is empty counts as none.
pub open spec fn non_empty_text(s: Seq<char>) -> Option<Seq<char>> {
    if s.len() > 0 {
        Some(s)
    } else {
        None
    }
}

/// The line of a specification read from row `r`.
pub open spec fn item_of(
    rows: Seq<Seq<CellValue>>,
    mats: Seq<String>,
    procs: Seq<String>,
    r: nat,
    spec_code: Seq<char>,
) -> ItemView {
    let row = rows[r as int];
    let code = code_1c_spec(cell_text_spec(row, ModelConstructItem::MATERIAL_CODE_1C_COL as int));
    let proc = code_1c_spec(
        cell_text_spec(row, ModelConstructItem::SPECIFICATION_PROCEDURE_CODE_1C_COL as int),
    );
    ItemView {
        row: r,
        construct_code_1c: spec_code,
        material_code_1c: if known(mats, code) {
            Some(code)
        } else {
            None
        },
        material_code_1c_copy: code,
        material_name: cell_text_spec(row, ModelConstructItem::MATERIAL_NAME_COL as int),
        material_unit: non_empty_text(
            unit_spec(cell_text_spec(row, ModelConstructItem::MATERIAL_UNIT_COL as int)),
        ),
        detail: cell_value_text_spec(row, ModelConstructItem::SPECIFICATION_DETAIL_TYPE_COL as int),
        procedure_code_1c: if proc.len() > 0 && known(procs, proc) {
            Some(proc)
        } else {
            None
        },
        procedure_code_1c_copy: non_empty_text(proc),
        procedure_name: cell_value_text_spec(
            row,
            ModelConstructItem::SPECIFICATION_PROCEDURE_NAME_COL as int,
        ),
        position: match cell_value_text_spec(
            row,
            ModelConstructItem::SPECIFICATION_LINE_POSITION_COL as int,
        ) {
            Some(t) => parse_i16_spec(t),
            None => None,
        },
    }
}

/// The index of the first missing material with code `c`, or `m.len()`.
pub open spec fn missing_index(m: Seq<MissingView>, c: Seq<char>) -> int
    decreases m.len(),
{
    if m.len() == 0 {
        0
    } else if m[0].code_1c == c {
        0
    } else {
        1 + missing_index(m.drop_first(), c)
    }
}

proof fn lemma_missing_index_bounds(m: Seq<MissingView>, c: Seq<char>)
    ensures
        0 <= missing_index(m, c) <= m.len(),
        missing_index(m, c) < m.len() ==> m[missing_index(m, c)].code_1c == c,
        forall|j: int| 0 <= j < missing_index(m, c) ==> m[j].code_1c != c,
    decreases m.len(),
{
    if m.len() > 0 && m[0].code_1c != c {
        lemma_missing_index_bounds(m.drop_first(), c);
        assert forall|j: int| 0 <= j < missing_index(m, c) implies m[j].code_1c != c by {
            if j > 0 {
                assert(m[j] == m.drop_first()[j - 1]);
            }
        }
    }
}

/// Whether a material's name marks a cover, which is not a material.
pub open spec fn is_cover_name(name: Seq<char>) -> bool {
    contains_spec(name, "Чехол "@) || contains_spec(name, "ФЧ."@)
}

/// The missing materials after row `row`: its material added (in place
/// of one with the same code) when the list lacks it and it is no cover.
pub open spec fn missing_step(m: Seq<MissingView>, row: Seq<CellValue>, mats: Seq<String>) -> Seq<
    MissingView,
> {
    let code = code_1c_spec(cell_text_spec(row, ModelConstructItem::MATERIAL_CODE_1C_COL as int));
    let name = cell_text_spec(row, ModelConstructItem::MATERIAL_NAME_COL as int);
    let unit = non_empty_text(unit_spec(cell_text_spec(row, ModelConstructItem::MATERIAL_UNIT_COL as int)));
    if !known(mats, code) && !is_cover_name(name) {
        let x = MissingView { code_1c: code, name_1c: name, unit };
        let i = missing_index(m, code);
        if i < m.len() {
            m.update(i, x)
        } else {
            m.push(x)
        }
    } else {
        m
    }
}

/// Whether row `i` exists and has no material code.
pub open spec fn ends_lines(rows: Seq<Seq<CellValue>>, i: int) -> bool {
    i < rows.len() && cell_text_spec(rows[i], ModelConstructItem::MATERIAL_CODE_1C_COL as int).len()
        == 0
}

/// The lines of the specification `spec_code` read from row `i` on: the
/// row after the last line, and what was read.
pub open spec fn read_items(
    rows: Seq<Seq<CellValue>>,
    mats: Seq<String>,
    procs: Seq<String>,
    i: nat,
    spec_code: Seq<char>,
    ev: Seq<ImportEvent>,
    miss: Seq<MissingView>,
) -> (nat, Seq<ImportEvent>, Seq<MissingView>)
    decreases rows.len() - i,
{
    if i >= rows.len() {
        (i, ev, miss)
    } else {
        let ev2 = ev.push(ImportEvent::Item(item_of(rows, mats, procs, i, spec_code)));
        let miss2 = missing_step(miss, rows[i as int], mats);
        if ends_lines(rows, (i + 1) as int) {
            ((i + 1) as nat, ev2, miss2)
        } else {
            read_items(rows, mats, procs, (i + 1) as nat, spec_code, ev2, miss2)
        }
    }
}

/// Reading lines moves on by at least one row and not past the end.
pub proof fn lemma_read_items_advances(
    rows: Seq<Seq<CellValue>>,
    mats: Seq<String>,
    procs: Seq<String>,
    i: nat,
    spec_code: Seq<char>,
    ev: Seq<ImportEvent>,
    miss: Seq<MissingView>,
)
    requires
        i < rows.len(),
    ensures
        i < read_items(rows, mats, procs, i, spec_code, ev, miss).0 <= rows.len(),
    decreases rows.len() - i,
{
    reveal_with_fuel(read_items, 2);
    let ev2 = ev.push(ImportEvent::Item(item_of(rows, mats, procs, i, spec_code)));
    let miss2 = missing_step(miss, rows[i as int], mats);
    if !ends_lines(rows, (i + 1) as int) && i + 1 < rows.len() {
        lemma_read_items_advances(rows, mats, procs, (i + 1) as nat, spec_code, ev2, miss2);
    }
}

/// The state at row `i`, with no blank row counted.
pub open spec fn state_at(i: nat, model_code: Seq<char>, spec_name: Seq<char>, spec_code: Seq<char>) -> ScanState {
    ScanState { i, empty_count: 0, model_code, spec_name, spec_code }
}

/// The rest of the report read from state `st`.
pub open spec fn scan(
    rows: Seq<Seq<CellValue>>,
    mats: Seq<String>,
    models: Seq<String>,
    procs: Seq<String>,
    st: ScanState,
    ev: Seq<ImportEvent>,
    miss: Seq<MissingView>,
) -> (Seq<ImportEvent>, Seq<MissingView>)
    decreases rows.len() - st.i,
{
    if st.i >= rows.len() {
        (ev, miss)
    } else {
        let n = rows.len();
        let model_name = cell_text_spec(rows[st.i as int], ModelConstruct::MODEL_NAME_COL as int);
        let i1 = st.i + 1;
        if model_name.len() == 0 {
            if st.empty_count > EMPTY_COUNT_LIMIT {
                (ev, miss)
            } else {
                scan(
                    rows,
                    mats,
                    models,
                    procs,
                    ScanState {
                        i: i1,
                        empty_count: st.empty_count + 1,
                        model_code: st.model_code,
                        spec_name: st.spec_name,
                        spec_code: st.spec_code,
                    },
                    ev,
                    miss,
                )
            }
        } else {
            let i2 = if i1 < n { i1 + 1 } else { i1 };
            let mc = if i1 < n {
                code_1c_spec(cell_text_spec(rows[i1 as int], ModelConstruct::MODEL_CODE_1C_COL as int))
            } else {
                st.model_code
            };
            if i1 < n && !known(models, mc) {
                scan(rows, mats, models, procs, state_at(i2, mc, st.spec_name, st.spec_code), ev, miss)
            } else {
                let i3 = if i2 < n { i2 + 1 } else { i2 };
                let sn = if i2 < n {
                    cell_text_spec(rows[i2 as int], ModelConstruct::SPECIFICATION_NAME_COL as int)
                } else {
                    st.spec_name
                };
                if i2 < n && sn.len() == 0 {
                    scan(rows, mats, models, procs, state_at(i3, mc, sn, st.spec_code), ev, miss)
                } else {
                    let i4 = if i3 < n { i3 + 1 } else { i3 };
                    let sc = if i3 < n {
                        code_1c_spec(
                            cell_text_spec(rows[i3 as int], ModelConstruct::SPECIFICATION_CODE_1C_COL as int),
                        )
                    } else {
                        st.spec_code
                    };
                    if i3 < n && sc.len() == 0 {
                        scan(rows, mats, models, procs, state_at(i4, mc, sn, sc), ev, miss)
                    } else {
                        let i5 = if i4 < n { i4 + 1 } else { i4 };
                        if i4 < n && spec_to_lowercase(
                            trim_spec(
                                cell_text_spec(rows[i4 as int], ModelConstruct::SPECIFICATION_ACTIVITY_COL as int),
                            ),
                        ) != "да"@ {
                            scan(rows, mats, models, procs, state_at(i5, mc, sn, sc), ev, miss)
                        } else {
                            let ev2 = ev.push(
                                ImportEvent::Specification(
                                    SpecificationView {
                                        code_1c: sc,
                                        name: sn,
                                        model_code_1c: mc,
                                        model_name,
                                    },
                                ),
                            );
                            if ends_lines(rows, i5 as int) || i5 >= n {
                                scan(rows, mats, models, procs, state_at(i5, mc, sn, sc), ev2, miss)
                            } else {
                                let (i6, ev3, miss3) = read_items(rows, mats, procs, i5, sc, ev2, miss);
                                proof {
                                    lemma_read_items_advances(rows, mats, procs, i5, sc, ev2, miss);
                                }
                                scan(rows, mats, models, procs, state_at(i6, mc, sn, sc), ev3, miss3)
                            }
                        }
                    }
                }
            }
        }
    }
}

/// What the list of missing materials keeps: each code once, no material
/// of the list of materials, no cover.
pub open spec fn missing_sound(m: Seq<MissingView>, mats: Seq<String>) -> bool {
    &&& forall|a: int, b: int| 0 <= a < b < m.len() ==> #[trigger] m[a].code_1c != #[trigger] m[b].code_1c
    &&& forall|a: int|
        0 <= a < m.len() ==> !known(mats, (#[trigger] m[a]).code_1c) && !is_cover_name(m[a].name_1c)
}

proof fn lemma_missing_step_sound(m: Seq<MissingView>, row: Seq<CellValue>, mats: Seq<String>)
    requires
        missing_sound(m, mats),
    ensures
        missing_sound(missing_step(m, row, mats), mats),
{
    let code = code_1c_spec(cell_text_spec(row, ModelConstructItem::MATERIAL_CODE_1C_COL as int));
    lemma_missing_index_bounds(m, code);
    let r = missing_step(m, row, mats);
    let i = missing_index(m, code);
    assert forall|a: int, b: int| 0 <= a < b < r.len() implies #[trigger] r[a].code_1c
        != #[trigger] r[b].code_1c by {
        if r != m {
            if i < m.len() {
                if a != i && b != i {
                    assert(r[a] == m[a] && r[b] == m[b]);
                } else if a == i {
                    assert(r[b] == m[b]);
                    assert(m[i].code_1c == code);
                } else {
                    assert(r[a] == m[a]);
                    assert(m[i].code_1c == code);
                }
            } else if b == m.len() {
                assert(r[a] == m[a]);
            } else {
                assert(r[a] == m[a] && r[b] == m[b]);
            }
        }
    }
    assert forall|a: int| 0 <= a < r.len() implies !known(mats, (#[trigger] r[a]).code_1c)
        && !is_cover_name(r[a].name_1c) by {
        if r != m && !(i < m.len() && a == i) && a < m.len() {
            assert(r[a] == m[a]);
        }
    }
}

proof fn lemma_read_items_sound(
    rows: Seq<Seq<CellValue>>,
    mats: Seq<String>,
    procs: Seq<String>,
    i: nat,
    spec_code: Seq<char>,
    ev: Seq<ImportEvent>,
    miss: Seq<MissingView>,
)
    requires
        missing_sound(miss, mats),
    ensures
        missing_sound(read_items(rows, mats, procs, i, spec_code, ev, miss).2, mats),
    decreases rows.len() - i,
{
    if i < rows.len() {
        let ev2 = ev.push(ImportEvent::Item(item_of(rows, mats, procs, i, spec_code)));
        let miss2 = missing_step(miss, rows[i as int], mats);
        lemma_missing_step_sound(miss, rows[i as int], mats);
        if !ends_lines(rows, (i + 1) as int) {
            lemma_read_items_sound(rows, mats, procs, (i + 1) as nat, spec_code, ev2, miss2);
        }
    }
}

proof fn lemma_scan_sound(
    rows: Seq<Seq<CellValue>>,
    mats: Seq<String>,
    models: Seq<String>,
    procs: Seq<String>,
    st: ScanState,
    ev: Seq<ImportEvent>,
    miss: Seq<MissingView>,
)
    requires
        missing_sound(miss, mats),
    ensures
        missing_sound(scan(rows, mats, models, procs, st, ev, miss).1, mats),
    decreases rows.len() - st.i,
{
    if st.i < rows.len() {
        let n = rows.len();
        let model_name = cell_text_spec(rows[st.i as int], ModelConstruct::MODEL_NAME_COL as int);
        let i1 = st.i + 1;
        if model_name.len() == 0 {
            if st.empty_count <= EMPTY_COUNT_LIMIT {
                lemma_scan_sound(
                    rows,
                    mats,
                    models,
                    procs,
                    ScanState {
                        i: i1,
                        empty_count: st.empty_count + 1,
                        model_code: st.model_code,
                        spec_name: st.spec_name,
                        spec_code: st.spec_code,
                    },
                    ev,
                    miss,
                );
            }
        } else {
            let i2 = if i1 < n { i1 + 1 } else { i1 };
            let mc = if i1 < n {
                code_1c_spec(cell_text_spec(rows[i1 as int], ModelConstruct::MODEL_CODE_1C_COL as int))
            } else {
                st.model_code
            };
            if i1 < n && !known(models, mc) {
                lemma_scan_sound(rows, mats, models, procs, state_at(i2, mc, st.spec_name, st.spec_code), ev, miss);
            } else {
                let i3 = if i2 < n { i2 + 1 } else { i2 };
                let sn = if i2 < n {
                    cell_text_spec(rows[i2 as int], ModelConstruct::SPECIFICATION_NAME_COL as int)
                } else {
                    st.spec_name
                };
                if i2 < n && sn.len() == 0 {
                    lemma_scan_sound(rows, mats, models, procs, state_at(i3, mc, sn, st.spec_code), ev, miss);
                } else {
                    let i4 = if i3 < n { i3 + 1 } else { i3 };
                    let sc = if i3 < n {
                        code_1c_spec(
                            cell_text_spec(rows[i3 as int], ModelConstruct::SPECIFICATION_CODE_1C_COL as int),
                        )
                    } else {
                        st.spec_code
                    };
                    if i3 < n && sc.len() == 0 {
                        lemma_scan_sound(rows, mats, models, procs, state_at(i4, mc, sn, sc), ev, miss);
                    } else {
                        let i5 = if i4 < n { i4 + 1 } else { i4 };
                        if i4 < n && spec_to_lowercase(
                            trim_spec(
                                cell_text_spec(rows[i4 as int], ModelConstruct::SPECIFICATION_ACTIVITY_COL as int),
                            ),
                        ) != "да"@ {
                            lemma_scan_sound(rows, mats, models, procs, state_at(i5, mc, sn, sc), ev, miss);
                        } else {
                            let ev2 = ev.push(
                                ImportEvent::Specification(
                                    SpecificationView {
                                        code_1c: sc,
                                        name: sn,
                                        model_code_1c: mc,
                                        model_name,
                                    },
                                ),
                            );
                            if ends_lines(rows, i5 as int) || i5 >= n {
                                lemma_scan_sound(rows, mats, models, procs, state_at(i5, mc, sn, sc), ev2, miss);
                            } else {
                                let (i6, ev3, miss3) = read_items(rows, mats, procs, i5, sc, ev2, miss);
                                lemma_read_items_advances(rows, mats, procs, i5, sc, ev2, miss);
                                lemma_read_items_sound(rows, mats, procs, i5, sc, ev2, miss);
                                lemma_scan_sound(rows, mats, models, procs, state_at(i6, mc, sn, sc), ev3, miss3);
                            }
                        }
                    }
                }
            }
        }
    }
}

/// The materials that the report of specifications finds missing are each
/// listed once, none of them is in the list of materials, and none is a
/// cover.
pub proof fn law_missing_materials_sound(
    rows: Seq<Seq<CellValue>>,
    mats: Seq<String>,
    models: Seq<String>,
    procs: Seq<String>,
)
    ensures
        missing_sound(import_spec(rows, mats, models, procs).1, mats),
{
    lemma_scan_sound(rows, mats, models, procs, initial_state(), seq![], seq![]);
}

/// No material that the report of specifications finds missing is a cover:
/// no missing name holds `Чехол ` or `ФЧ.`.
pub proof fn law_missing_materials_are_no_covers(
    rows: Seq<Seq<CellValue>>,
    mats: Seq<String>,
    models: Seq<String>,
    procs: Seq<String>,
)
    ensures
        forall|a: int|
            0 <= a < import_spec(rows, mats, models, procs).1.len() ==> {
                let n = (#[trigger] import_spec(rows, mats, models, procs).1[a]).name_1c;
                !contains_spec(n, "Чехол "@) && !contains_spec(n, "ФЧ."@)
            },
{
    law_missing_materials_sound(rows, mats, models, procs);
}

/// The state before the first row of data.
pub open spec fn initial_state() -> ScanState {
    ScanState {
        i: (ModelConstruct::DATA_START_ROW - 1) as nat,
        empty_count: 0,
        model_code: seq![],
        spec_name: seq![],
        spec_code: seq![],
    }
}

/// The report read.
pub open spec fn import_spec(
    rows: Seq<Seq<CellValue>>,
    mats: Seq<String>,
    models: Seq<String>,
    procs: Seq<String>,
) -> (Seq<ImportEvent>, Seq<MissingView>) {
    scan(rows, mats, models, procs, initial_state(), seq![], seq![])
}

/// A record read from the report: a specification, or a line of the last
/// specification with the index of its row.
#[derive(Debug)]
pub enum ImportRecord {
    Specification(ModelConstruct),
    Item(usize, ModelConstructItem),
}

/// The view of an optional string.
pub open spec fn ov(o: Option<String>) -> Option<Seq<char>> {
    match o {
        Some(s) => Some(s@),
        None => None,
    }
}

/// The view of a line, its quantities aside.
pub open spec fn item_view(row: usize, it: ModelConstructItem) -> ItemView {
    ItemView {
        row: row as nat,
        construct_code_1c: it.construct_code_1c@,
        material_code_1c: ov(it.material_code_1c),
        material_code_1c_copy: it.material_code_1c_copy@,
        material_name: it.material_name@,
        material_unit: ov(it.material_unit),
        detail: ov(it.detail),
        procedure_code_1c: ov(it.procedure_code_1c),
        procedure_code_1c_copy: ov(it.procedure_code_1c_copy),
        procedure_name: ov(it.procedure_name),
        position: it.position,
    }
}

/// The view of a record.
pub open spec fn record_view(r: ImportRecord) -> ImportEvent {
    match r {
        ImportRecord::Specification(s) => ImportEvent::Specification(
            SpecificationView {
                code_1c: s.code_1c@,
                name: s.name@,
                model_code_1c: s.model_code_1c@,
                model_name: s.model_name@,
            },
        ),
        ImportRecord::Item(row, it) => ImportEvent::Item(item_view(row, it)),
    }
}

/// The views of the records.
pub open spec fn records_view(v: Seq<ImportRecord>) -> Seq<ImportEvent> {
    v.map_values(|r: ImportRecord| record_view(r))
}

/// The views of the missing materials.
pub open spec fn missing_view(v: Seq<MissingMaterial>) -> Seq<MissingView> {
    v.map_values(|m: MissingMaterial| MissingView { code_1c: m.code_1c@, name_1c: m.name_1c@, unit: ov(m.unit) })
}

/// Whether the quantities of a record are those its row gives: the height
/// and the count that `rust_decimal` reads in their cells, none where it
/// reads nothing.
pub open spec fn quantities_read(rows: Seq<Seq<CellValue>>, r: ImportRecord) -> bool {
    match r {
        ImportRecord::Item(row, it) => row < rows.len() && it.detail_height == decimal_of(
            cell_text_spec(rows[row as int], ModelConstructItem::SPECIFICATION_DETAIL_HEIGHT_COL as int),
        ) && it.count == decimal_of(
            cell_text_spec(rows[row as int], ModelConstructItem::MATERIAL_COUNT_COL as int),
        ),
        ImportRecord::Specification(s) => s.element_type is None,
    }
}

/// What was read from a report.
pub struct SpecificationImport {
    /// Specifications, each followed by its lines, in the order of the
    /// report.
    pub records: Vec<ImportRecord>,
    /// The missing materials, each code once, in the order first met.
    pub missing: Vec<MissingMaterial>,
}

/// The line of a specification read from row `r`.
fn item_from_row(
    rows: &Vec<Vec<CellValue>>,
    r: usize,
    spec_code: &String,
    materials: &Vec<String>,
    procedures: &Vec<String>,
) -> (it: ModelConstructItem)
    requires
        r < rows@.len(),
    ensures
        item_view(r, it) == item_of(rows_view(rows@), materials@, procedures@, r as nat, spec_code@),
        quantities_read(rows_view(rows@), ImportRecord::Item(r, it)),
{
    let row = &rows[r];
    assert(rows_view(rows@)[r as int] == row@);
    let code = get_formatted_1c_code_string(cell_to_string(row, ModelConstructItem::MATERIAL_CODE_1C_COL));
    let name = cell_to_string(row, ModelConstructItem::MATERIAL_NAME_COL);
    let unit = get_formatted_unit_string(cell_to_string(row, ModelConstructItem::MATERIAL_UNIT_COL));
    let detail = cell_to_value_text(row, ModelConstructItem::SPECIFICATION_DETAIL_TYPE_COL);
    let height = parse_decimal(
        cell_to_string(row, ModelConstructItem::SPECIFICATION_DETAIL_HEIGHT_COL).as_str(),
    );
    let proc = get_formatted_1c_code_string(
        cell_to_string(row, ModelConstructItem::SPECIFICATION_PROCEDURE_CODE_1C_COL),
    );
    let proc_name = cell_to_value_text(row, ModelConstructItem::SPECIFICATION_PROCEDURE_NAME_COL);
    let count = parse_decimal(cell_to_string(row, ModelConstructItem::MATERIAL_COUNT_COL).as_str());
    let position = cell_to_i16(row, ModelConstructItem::SPECIFICATION_LINE_POSITION_COL);
    let material_code_1c = if is_known(materials, &code) {
        Some(code.clone())
    } else {
        None
    };
    let material_unit = if unit.unicode_len() > 0 {
        Some(unit)
    } else {
        None
    };
    let proc_present = proc.unicode_len() > 0;
    let procedure_code_1c = if proc_present && is_known(procedures, &proc) {
        Some(proc.clone())
    } else {
        None
    };
    let procedure_code_1c_copy = if proc_present {
        Some(proc)
    } else {
        None
    };
    ModelConstructItem {
        id: 0,
        construct_code_1c: spec_code.clone(),
        material_code_1c,
        material_code_1c_copy: code,
        material_name: name,
        material_unit,
        detail,
        procedure_code_1c,
        procedure_code_1c_copy,
        procedure_name: proc_name,
        detail_height: height,
        count,
        position,
    }
}

/// Adds the material of row `r` to the missing ones when the list lacks it
/// and it is no cover.
fn note_missing(
    missing: &mut Vec<MissingMaterial>,
    rows: &Vec<Vec<CellValue>>,
    r: usize,
    materials: &Vec<String>,
)
    requires
        r < rows@.len(),
    ensures
        missing_view(final(missing)@) == missing_step(
            missing_view(old(missing)@),
            rows_view(rows@)[r as int],
            materials@,
        ),
{
    let row = &rows[r];
    assert(rows_view(rows@)[r as int] == row@);
    let code = get_formatted_1c_code_string(cell_to_string(row, ModelConstructItem::MATERIAL_CODE_1C_COL));
    let name = cell_to_string(row, ModelConstructItem::MATERIAL_NAME_COL);
    let unit = get_formatted_unit_string(cell_to_string(row, ModelConstructItem::MATERIAL_UNIT_COL));
    let name_chars = to_chars(name.as_str());
    let cover = contains_chars(&name_chars, &to_chars("Чехол ")) || contains_chars(
        &name_chars,
        &to_chars("ФЧ."),
    );
    if is_known(materials, &code) || cover {
        return;
    }
    let unit_opt = if unit.unicode_len() > 0 {
        Some(unit)
    } else {
        None
    };
    let ghost mv = missing_view(missing@);
    let ghost x = MissingView { code_1c: code@, name_1c: name@, unit: ov(unit_opt) };
    let ghost expected = missing_step(mv, rows_view(rows@)[r as int], materials@);
    proof {
        lemma_missing_index_bounds(mv, code@);
    }
    assert(expected == if missing_index(mv, code@) < mv.len() {
        mv.update(missing_index(mv, code@), x)
    } else {
        mv.push(x)
    });
    let mut k: usize = 0;
    while k < missing.len()
        invariant
            k <= missing@.len(),
            missing@ == old(missing)@,
            mv == missing_view(old(missing)@),
            x == (MissingView { code_1c: code@, name_1c: name@, unit: ov(unit_opt) }),
            expected == missing_step(mv, rows_view(rows@)[r as int], materials@),
            expected == if missing_index(mv, code@) < mv.len() {
                mv.update(missing_index(mv, code@), x)
            } else {
                mv.push(x)
            },
            forall|j: int| 0 <= j < k ==> mv[j].code_1c != code@,
        decreases missing@.len() - k,
    {
        if missing[k].code_1c == code {
            assert(missing_index(mv, code@) == k) by {
                lemma_missing_index_bounds(mv, code@);
                assert(mv[k as int].code_1c == code@);
            }
            missing.set(k, MissingMaterial { code_1c: code, name_1c: name, unit: unit_opt });
            assert(missing_view(missing@) == mv.update(k as int, x));
            return;
        }
        k += 1;
    }
    proof {
        lemma_missing_index_bounds(mv, code@);
        let i = missing_index(mv, code@);
        if i < mv.len() {
            assert(mv[i].code_1c != code@);
        }
    }
    missing.push(MissingMaterial { code_1c: code, name_1c: name, unit: unit_opt });
    assert(missing_view(missing@) == mv.push(x));
}

/// Whether row `i` exists and has no material code.
fn ends_lines_exec(rows: &Vec<Vec<CellValue>>, i: usize) -> (r: bool)
    ensures
        r == ends_lines(rows_view(rows@), i as int),
{
    if i < rows.len() {
        assert(rows_view(rows@)[i as int] == rows@[i as int]@);
        cell_to_string(&rows[i], ModelConstructItem::MATERIAL_CODE_1C_COL).unicode_len() == 0
    } else {
        false
    }
}

/// Reads the report: `rows` are its rows in order, each the cells in
/// order; `materials`, `models` and `procedures` the codes already known.
pub fn import_specification_rows(
    rows: &Vec<Vec<CellValue>>,
    materials: &Vec<String>,
    models: &Vec<String>,
    procedures: &Vec<String>,
) -> (r: SpecificationImport)
    ensures
        (records_view(r.records@), missing_view(r.missing@)) == import_spec(
            rows_view(rows@),
            materials@,
            models@,
            procedures@,
        ),
        forall|k: int| 0 <= k < r.records@.len() ==> quantities_read(rows_view(rows@), #[trigger] r.records@[k]),
{
    let ghost rv = rows_view(rows@);
    let ghost mats = materials@;
    let ghost mods = models@;
    let ghost procs = procedures@;
    let n = rows.len();
    let mut records: Vec<ImportRecord> = Vec::new();
    let mut missing: Vec<MissingMaterial> = Vec::new();
    let mut i: usize = ModelConstruct::DATA_START_ROW - 1;
    let mut empty_count: i32 = 0;
    let mut model_code = String::new();
    let mut spec_name = String::new();
    let mut spec_code = String::new();
    assert(records_view(records@) == Seq::<ImportEvent>::empty());
    assert(missing_view(missing@) == Seq::<MissingView>::empty());
    while i < n
        invariant
            n == rows@.len() == rv.len(),
            rv == rows_view(rows@),
            mats == materials@,
            mods == models@,
            procs == procedures@,
            0 <= empty_count <= EMPTY_COUNT_LIMIT + 1,
            import_spec(rv, mats, mods, procs) == scan(
                rv,
                mats,
                mods,
                procs,
                ScanState {
                    i: i as nat,
                    empty_count: empty_count as int,
                    model_code: model_code@,
                    spec_name: spec_name@,
                    spec_code: spec_code@,
                },
                records_view(records@),
                missing_view(missing@),
            ),
            forall|k: int| 0 <= k < records@.len() ==> quantities_read(rv, #[trigger] records@[k]),
        decreases n - i,
    {
        assert(rv[i as int] == rows@[i as int]@);
        let ghost i_start = i;
        let model_name = cell_to_string(&rows[i], ModelConstruct::MODEL_NAME_COL);
        i += 1;
        if model_name.unicode_len() == 0 {
            if empty_count > EMPTY_COUNT_LIMIT {
                return SpecificationImport { records, missing };
            }
            empty_count += 1;
            continue;
        }
        empty_count = 0;
        if i < n {
            assert(rv[i as int] == rows@[i as int]@);
            model_code = get_formatted_1c_code_string(cell_to_string(&rows[i], ModelConstruct::MODEL_CODE_1C_COL));
            i += 1;
            if !is_known(models, &model_code) {
                continue;
            }
        }
        if i < n {
            assert(rv[i as int] == rows@[i as int]@);
            spec_name = cell_to_string(&rows[i], ModelConstruct::SPECIFICATION_NAME_COL);
            i += 1;
            if spec_name.unicode_len() == 0 {
                continue;
            }
        }
        if i < n {
            assert(rv[i as int] == rows@[i as int]@);
            spec_code = get_formatted_1c_code_string(cell_to_string(&rows[i], ModelConstruct::SPECIFICATION_CODE_1C_COL));
            i += 1;
            if spec_code.unicode_len() == 0 {
                continue;
            }
        }
        if i < n {
            assert(rv[i as int] == rows@[i as int]@);
            let active = lowercase_chars(
                &trim_chars(&to_chars(cell_to_string(&rows[i], ModelConstruct::SPECIFICATION_ACTIVITY_COL).as_str())),
            );
            i += 1;
            if !eq_chars(&active, &to_chars("да")) {
                continue;
            }
        }
        let ghost before = records@;
        records.push(
            ImportRecord::Specification(
                ModelConstruct {
                    code_1c: spec_code.clone(),
                    name: spec_name.clone(),
                    model_code_1c: model_code.clone(),
                    model_name,
                    element_type: None,
                },
            ),
        );
        assert(records_view(records@) == records_view(before).push(record_view(records@.last())));
        if ends_lines_exec(rows, i) || i >= n {
            continue;
        }
        let ghost target = read_items(
            rv,
            mats,
            procs,
            i as nat,
            spec_code@,
            records_view(records@),
            missing_view(missing@),
        );
        loop
            invariant_except_break
                i < n,
                target == read_items(
                    rv,
                    mats,
                    procs,
                    i as nat,
                    spec_code@,
                    records_view(records@),
                    missing_view(missing@),
                ),
            invariant
                n == rows@.len() == rv.len(),
                rv == rows_view(rows@),
                mats == materials@,
                procs == procedures@,
                i <= n,
                i > i_start,
                forall|k: int| 0 <= k < records@.len() ==> quantities_read(rv, #[trigger] records@[k]),
            ensures
                target == (i as nat, records_view(records@), missing_view(missing@)),
            decreases n - i,
        {
            let ghost i_old = i;
            let ghost ev_old = records_view(records@);
            let ghost miss_old = missing_view(missing@);
            let it = item_from_row(rows, i, &spec_code, materials, procedures);
            let ghost before = records@;
            records.push(ImportRecord::Item(i, it));
            assert(records_view(records@) == records_view(before).push(record_view(records@.last())));
            note_missing(&mut missing, rows, i, materials);
            i += 1;
            assert(records_view(records@) == ev_old.push(
                ImportEvent::Item(item_of(rv, mats, procs, i_old as nat, spec_code@)),
            ));
            assert(missing_view(missing@) == missing_step(miss_old, rv[i_old as int], mats));
            if i >= n {
                assert(read_items(
                    rv,
                    mats,
                    procs,
                    i as nat,
                    spec_code@,
                    records_view(records@),
                    missing_view(missing@),
                ) == (i as nat, records_view(records@), missing_view(missing@)));
                break;
            }
            if ends_lines_exec(rows, i) {
                break;
            }
        }
    }
    SpecificationImport { records, missing }
}


/// The material to store for a missing one: in the group and category of
/// missing materials, with its code, name and unit.
pub fn missing_material_record(m: MissingMaterial) -> (r: Material)
    ensures
        r@ == (MaterialView {
            group: Some(MISSING_MATERIALS_GROUP_CODE_1C@),
            category: Some(MISSING_MATERIALS_CATEGORY_CODE_1C@),
            code_1c: m.code_1c@,
            name: m.name_1c@,
            unit: opt_view(m.unit),
            supplier: None,
            object_name: None,
            properties: None,
        }),
{
    let mut r = Material::new(m.code_1c, m.name_1c);
    r.material_group_code_1c = Some(String::from_str(MISSING_MATERIALS_GROUP_CODE_1C));
    r.material_category_code_1c = Some(String::from_str(MISSING_MATERIALS_CATEGORY_CODE_1C));
    r.unit = m.unit;
    r
}

} // verus!
