//! The rows of the 1C report of materials, read one after another.
//!
//! The report lists groups, categories in a group, materials in a category
//! and, under a material, its properties. A row is a group when it has a
//! group code, else a category when it has a category code, else a material
//! when it has a material code, else a property when it names one. Groups
//! and categories are stored as soon as they are read; a material is kept
//! until the next group, category or material (or the end) so that the
//! properties under it are stored with it. A group code equal to the stop
//! word ends the report.

use vstd::prelude::*;
use crate::excel_parser::material::{Material, MaterialView, new_material_view, pair_views};
use crate::helpers::{code_1c_spec, get_formatted_1c_code_string, get_formatted_unit_string, unit_spec};
use crate::interpreter::prepare::string_views;
use crate::text::is_literal;
use crate::text::to_chars;
use crate::vba::{key_index, law_upsert_then_lookup, lemma_key_index_bounds, upsert};

verus! {

/// The name of the property that gives the object a material belongs to.
pub const OBJECT_PROPERTY: &'static str = "ВидОбъекта";

/// What the reader keeps between rows.
pub struct MaterialImport {
    /// The material read last and not stored yet (empty when none).
    pub item: Material,
    /// The properties read since the last material was stored.
    pub properties: Vec<(String, String)>,
    /// The code of the current group.
    pub group_code: String,
    /// The code of the current category.
    pub category_code: String,
}

/// The mathematical form of the reader's state.
pub struct ImportView {
    pub item: MaterialView,
    pub properties: Seq<(Seq<char>, Seq<char>)>,
    pub group: Seq<char>,
    pub category: Seq<char>,
}

impl View for MaterialImport {
    type V = ImportView;

    open spec fn view(&self) -> ImportView {
        ImportView {
            item: self.item@,
            properties: pair_views(self.properties@),
            group: self.group_code@,
            category: self.category_code@,
        }
    }
}

/// The views of some materials.
pub open spec fn materials_view(v: Seq<Material>) -> Seq<MaterialView> {
    v.map_values(|m: Material| m@)
}

/// The text of the cell of the 1-based column `col`; empty when the row
/// is shorter.
pub open spec fn cell_spec(row: Seq<Seq<char>>, col: int) -> Seq<char> {
    if 1 <= col <= row.len() {
        row[col - 1]
    } else {
        seq![]
    }
}

/// Whether a material is empty: no code and no name.
pub open spec fn is_empty_view(m: MaterialView) -> bool {
    m.code_1c.len() == 0 && m.name.len() == 0
}

/// The empty material.
pub open spec fn empty_view() -> MaterialView {
    new_material_view(seq![], seq![])
}

/// `m` with the properties read: the object it belongs to, when a property
/// names it, and the properties themselves (none when there are none).
pub open spec fn with_properties(m: MaterialView, props: Seq<(Seq<char>, Seq<char>)>) -> MaterialView {
    let i = key_index(props, OBJECT_PROPERTY@);
    MaterialView {
        group: m.group,
        category: m.category,
        code_1c: m.code_1c,
        name: m.name,
        unit: m.unit,
        supplier: m.supplier,
        object_name: if i < props.len() {
            Some(props[i].1)
        } else {
            m.object_name
        },
        properties: if props.len() == 0 {
            None
        } else {
            Some(props)
        },
    }
}

/// The state with its item and properties replaced.
pub open spec fn with_item(
    s: ImportView,
    item: MaterialView,
    props: Seq<(Seq<char>, Seq<char>)>,
) -> ImportView {
    ImportView { item, properties: props, group: s.group, category: s.category }
}

/// The material kept, stored with its properties when there is one.
pub open spec fn flush(s: ImportView) -> (ImportView, Seq<MaterialView>) {
    if is_empty_view(s.item) {
        (s, seq![])
    } else {
        (with_item(s, empty_view(), seq![]), seq![with_properties(s.item, s.properties)])
    }
}

/// A material of group `group` (and category `category`, when given).
pub open spec fn placed(
    m: MaterialView,
    group: Option<Seq<char>>,
    category: Option<Seq<char>>,
    unit: Option<Seq<char>>,
) -> MaterialView {
    MaterialView {
        group,
        category,
        code_1c: m.code_1c,
        name: m.name,
        unit,
        supplier: m.supplier,
        object_name: m.object_name,
        properties: m.properties,
    }
}

/// One row read: the new state, the materials to store, and whether the
/// report ends here.
pub open spec fn row_step(s: ImportView, row: Seq<Seq<char>>) -> (ImportView, Seq<MaterialView>, bool) {
    let g = cell_spec(row, Material::GROUP_CODE_COL as int);
    let c = cell_spec(row, Material::CATEGORY_CODE_COL as int);
    let m = cell_spec(row, Material::MATERIAL_CODE_COL as int);
    let p = cell_spec(row, Material::PROPERTY_NAME_COL as int);
    if g.len() > 0 {
        let (s1, out) = flush(s);
        if g == Material::STOP_WORD@ {
            (s1, out, true)
        } else {
            let code = code_1c_spec(g);
            let group = new_material_view(code, cell_spec(row, Material::GROUP_NAME_COL as int));
            (ImportView { item: s1.item, properties: s1.properties, group: code, category: s1.category }, out.push(group), false)
        }
    } else if c.len() > 0 {
        let (s1, out) = flush(s);
        let code = code_1c_spec(c);
        let category = placed(
            new_material_view(code, cell_spec(row, Material::CATEGORY_NAME_COL as int)),
            Some(s1.group),
            None,
            None,
        );
        (ImportView { item: s1.item, properties: s1.properties, group: s1.group, category: code }, out.push(category), false)
    } else if m.len() > 0 {
        let (s1, out) = flush(s);
        let unit = unit_spec(cell_spec(row, Material::UNIT_COL as int));
        let material = placed(
            new_material_view(code_1c_spec(m), cell_spec(row, Material::MATERIAL_NAME_COL as int)),
            Some(s1.group),
            Some(s1.category),
            if unit.len() == 0 {
                None
            } else {
                Some(unit)
            },
        );
        (with_item(s1, material, s1.properties), out, false)
    } else if p.len() > 0 {
        (
            with_item(s, s.item, upsert(s.properties, p, cell_spec(row, Material::PROPERTY_VALUE_COL as int))),
            seq![],
            false,
        )
    } else {
        (s, seq![], false)
    }
}

/// The cell of the 1-based column `col`.
fn cell(row: &Vec<String>, col: usize) -> (r: String)
    requires
        col >= 1,
    ensures
        r@ == cell_spec(string_views(row@), col as int),
{
    if col <= row.len() {
        row[col - 1].clone()
    } else {
        String::new()
    }
}

/// Sets the value of property `name`: in place when it is there, at the end
/// otherwise.
fn upsert_property(props: &mut Vec<(String, String)>, name: String, value: String)
    ensures
        pair_views(final(props)@) == upsert(pair_views(old(props)@), name@, value@),
{
    proof {
        lemma_key_index_bounds(pair_views(props@), name@);
    }
    let mut i: usize = 0;
    while i < props.len()
        invariant
            i <= props@.len(),
            props@ == old(props)@,
            forall|j: int| 0 <= j < i ==> pair_views(props@)[j].0 != name@,
        decreases props.len() - i,
    {
        if props[i].0 == name {
            assert(key_index(pair_views(props@), name@) == i) by {
                lemma_key_index_bounds(pair_views(props@), name@);
                assert(pair_views(props@)[i as int].0 == name@);
            }
            let ghost before = props@;
            let ghost nv = name@;
            let ghost vv = value@;
            props.set(i, (name, value));
            assert(pair_views(props@) == pair_views(before).update(i as int, (nv, vv)));
            return;
        }
        i += 1;
    }
    proof {
        lemma_key_index_bounds(pair_views(old(props)@), name@);
        let ki = key_index(pair_views(old(props)@), name@);
        if ki < old(props)@.len() {
            assert(pair_views(props@)[ki].0 != name@);
        }
    }
    let ghost before = props@;
    let ghost nv = name@;
    let ghost vv = value@;
    props.push((name, value));
    assert(pair_views(props@) == pair_views(before).push((nv, vv)));
}

/// The value of property `name`, when it is there.
fn property_value(props: &Vec<(String, String)>, name: &str) -> (r: Option<String>)
    ensures
        ({
            let i = key_index(pair_views(props@), name@);
            match r {
                Some(v) => i < props@.len() && v@ == pair_views(props@)[i].1,
                None => i == props@.len(),
            }
        }),
{
    proof {
        lemma_key_index_bounds(pair_views(props@), name@);
    }
    let n = to_chars(name);
    let mut i: usize = 0;
    while i < props.len()
        invariant
            i <= props@.len(),
            n@ == name@,
            forall|j: int| 0 <= j < i ==> pair_views(props@)[j].0 != name@,
        decreases props.len() - i,
    {
        if is_literal(&to_chars(props[i].0.as_str()), name) {
            assert(key_index(pair_views(props@), name@) == i) by {
                lemma_key_index_bounds(pair_views(props@), name@);
                assert(pair_views(props@)[i as int].0 == name@);
            }
            return Some(props[i].1.clone());
        }
        i += 1;
    }
    proof {
        lemma_key_index_bounds(pair_views(props@), name@);
        let ki = key_index(pair_views(props@), name@);
        if ki < props@.len() {
            assert(pair_views(props@)[ki].0 != name@);
        }
    }
    None
}

/// Gives `material` the properties read: the object it belongs to, when a
/// property names it, and the properties themselves; the list of
/// properties is emptied.
pub fn set_properties(material: &mut Material, properties: &mut Vec<(String, String)>)
    ensures
        final(material)@ == with_properties(old(material)@, pair_views(old(properties)@)),
        final(properties)@.len() == 0,
{
    if let Some(s) = property_value(properties, OBJECT_PROPERTY) {
        material.object_name = Some(s);
    }
    let mut taken: Vec<(String, String)> = Vec::new();
    std::mem::swap(&mut taken, properties);
    if taken.len() == 0 {
        material.properties = None;
    } else {
        material.properties = Some(taken);
    }
}

/// Stores the kept material, with its properties, when there is one.
fn flush_item(state: &mut MaterialImport, out: &mut Vec<Material>)
    ensures
        final(state)@ == flush(old(state)@).0,
        materials_view(final(out)@) == materials_view(old(out)@) + flush(old(state)@).1,
{
    if !state.item.is_empty() {
        let mut item = Material::default();
        std::mem::swap(&mut item, &mut state.item);
        set_properties(&mut item, &mut state.properties);
        let ghost before = out@;
        out.push(item);
        assert(materials_view(out@) == materials_view(before).push(item@));
        assert(pair_views(state.properties@) == Seq::<(Seq<char>, Seq<char>)>::empty());
    } else {
        assert(materials_view(out@) == materials_view(out@) + Seq::<MaterialView>::empty());
    }
}

impl MaterialImport {
    /// The state before the first row.
    pub fn new() -> (r: Self)
        ensures
            r@ == (ImportView { item: empty_view(), properties: seq![], group: seq![], category: seq![] }),
    {
        let r = MaterialImport {
            item: Material::default(),
            properties: Vec::new(),
            group_code: String::new(),
            category_code: String::new(),
        };
        assert(pair_views(r.properties@) == Seq::<(Seq<char>, Seq<char>)>::empty());
        r
    }

    /// Reads one row (the text of each cell, in order); returns the
    /// materials to store now and whether the report ends at this row.
    pub fn read_row(&mut self, row: &Vec<String>) -> (r: (Vec<Material>, bool))
        ensures
            final(self)@ == row_step(old(self)@, string_views(row@)).0,
            materials_view(r.0@) == row_step(old(self)@, string_views(row@)).1,
            r.1 == row_step(old(self)@, string_views(row@)).2,
    {
        let mut out: Vec<Material> = Vec::new();
        assert(materials_view(out@) == Seq::<MaterialView>::empty());
        let g = cell(row, Material::GROUP_CODE_COL);
        if g.unicode_len() > 0 {
            flush_item(self, &mut out);
            if is_literal(&to_chars(g.as_str()), Material::STOP_WORD) {
                return (out, true);
            }
            let code = get_formatted_1c_code_string(g);
            let name = cell(row, Material::GROUP_NAME_COL);
            let group = Material::new(code.clone(), name);
            let ghost before = out@;
            out.push(group);
            assert(materials_view(out@) == materials_view(before).push(group@));
            self.group_code = code;
            return (out, false);
        }
        let c = cell(row, Material::CATEGORY_CODE_COL);
        if c.unicode_len() > 0 {
            flush_item(self, &mut out);
            let code = get_formatted_1c_code_string(c);
            let name = cell(row, Material::CATEGORY_NAME_COL);
            let mut category = Material::new(code.clone(), name);
            category.material_group_code_1c = Some(self.group_code.clone());
            let ghost before = out@;
            out.push(category);
            assert(materials_view(out@) == materials_view(before).push(category@));
            self.category_code = code;
            return (out, false);
        }
        let m = cell(row, Material::MATERIAL_CODE_COL);
        if m.unicode_len() > 0 {
            flush_item(self, &mut out);
            let code = get_formatted_1c_code_string(m);
            let name = cell(row, Material::MATERIAL_NAME_COL);
            let unit = get_formatted_unit_string(cell(row, Material::UNIT_COL));
            let mut material = Material::new(code, name);
            material.material_group_code_1c = Some(self.group_code.clone());
            material.material_category_code_1c = Some(self.category_code.clone());
            material.unit = if unit.unicode_len() == 0 {
                None
            } else {
                Some(unit)
            };
            self.item = material;
            return (out, false);
        }
        let p = cell(row, Material::PROPERTY_NAME_COL);
        if p.unicode_len() > 0 {
            let v = cell(row, Material::PROPERTY_VALUE_COL);
            upsert_property(&mut self.properties, p, v);
        }
        (out, false)
    }

    /// After the last row: the kept material, to store when there is one.
    pub fn finish(&mut self) -> (r: Vec<Material>)
        ensures
            final(self)@ == flush(old(self)@).0,
            materials_view(r@) == flush(old(self)@).1,
    {
        let mut out: Vec<Material> = Vec::new();
        assert(materials_view(out@) == Seq::<MaterialView>::empty());
        flush_item(self, &mut out);
        assert(materials_view(out@) == Seq::<MaterialView>::empty() + flush(old(self)@).1);
        out
    }
}


/// Once the kept material is stored, nothing is left to store: storing
/// twice stores nothing the second time.
pub proof fn law_flush_once(s: ImportView)
    ensures
        flush(flush(s).0).1.len() == 0,
        flush(flush(s).0).0 == flush(s).0,
{
}

/// A group row that is not the stop word stores, last, the group with its
/// code in normal form and its name, and makes it the current group; the
/// report goes on.
pub proof fn law_group_row(s: ImportView, row: Seq<Seq<char>>)
    requires
        cell_spec(row, Material::GROUP_CODE_COL as int).len() > 0,
        cell_spec(row, Material::GROUP_CODE_COL as int) != Material::STOP_WORD@,
    ensures
        ({
            let (s2, out, stop) = row_step(s, row);
            let code = code_1c_spec(cell_spec(row, Material::GROUP_CODE_COL as int));
            &&& !stop
            &&& out.len() >= 1
            &&& out.last() == new_material_view(code, cell_spec(row, Material::GROUP_NAME_COL as int))
            &&& s2.group == code
            &&& is_empty_view(s2.item) || s2.item == s.item
        }),
{
}

/// A row whose group code is the stop word ends the report, storing only
/// the material kept.
pub proof fn law_stop_row(s: ImportView, row: Seq<Seq<char>>)
    requires
        cell_spec(row, Material::GROUP_CODE_COL as int) == Material::STOP_WORD@,
    ensures
        row_step(s, row).2,
        row_step(s, row).1 == flush(s).1,
{
    reveal_strlit("Итого");
}

/// A property row sets the property: looked up afterwards, its name gives
/// the value read, and nothing is stored.
pub proof fn law_property_row(s: ImportView, row: Seq<Seq<char>>)
    requires
        cell_spec(row, Material::GROUP_CODE_COL as int).len() == 0,
        cell_spec(row, Material::CATEGORY_CODE_COL as int).len() == 0,
        cell_spec(row, Material::MATERIAL_CODE_COL as int).len() == 0,
        cell_spec(row, Material::PROPERTY_NAME_COL as int).len() > 0,
    ensures
        ({
            let (s2, out, stop) = row_step(s, row);
            let name = cell_spec(row, Material::PROPERTY_NAME_COL as int);
            let i = key_index(s2.properties, name);
            &&& !stop
            &&& out.len() == 0
            &&& i < s2.properties.len()
            &&& s2.properties[i].1 == cell_spec(row, Material::PROPERTY_VALUE_COL as int)
            &&& s2.item == s.item
        }),
{
    law_upsert_then_lookup(
        s.properties,
        cell_spec(row, Material::PROPERTY_NAME_COL as int),
        cell_spec(row, Material::PROPERTY_VALUE_COL as int),
    );
}

/// A category row (no group code, a category code) stores, last, the
/// category with its code in normal form and its name, placed in the
/// current group and in no category, and makes that code the current
/// category, whatever category was current before; the group stays.
pub proof fn law_category_row(s: ImportView, row: Seq<Seq<char>>)
    requires
        cell_spec(row, Material::GROUP_CODE_COL as int).len() == 0,
        cell_spec(row, Material::CATEGORY_CODE_COL as int).len() > 0,
    ensures
        ({
            let (s2, out, stop) = row_step(s, row);
            let code = code_1c_spec(cell_spec(row, Material::CATEGORY_CODE_COL as int));
            &&& !stop
            &&& out.len() >= 1
            &&& out.last().code_1c == code
            &&& out.last().name == cell_spec(row, Material::CATEGORY_NAME_COL as int)
            &&& out.last().group == Some(s.group)
            &&& out.last().category is None
            &&& s2.category == code
            &&& s2.group == s.group
        }),
{
}

/// A material row (no group or category code, a material code) keeps the
/// material, with its code in normal form, in the current group and the
/// current category; it stores only the material kept before.
pub proof fn law_material_row(s: ImportView, row: Seq<Seq<char>>)
    requires
        cell_spec(row, Material::GROUP_CODE_COL as int).len() == 0,
        cell_spec(row, Material::CATEGORY_CODE_COL as int).len() == 0,
        cell_spec(row, Material::MATERIAL_CODE_COL as int).len() > 0,
    ensures
        ({
            let (s2, out, stop) = row_step(s, row);
            &&& !stop
            &&& out == flush(s).1
            &&& s2.item.code_1c == code_1c_spec(cell_spec(row, Material::MATERIAL_CODE_COL as int))
            &&& s2.item.name == cell_spec(row, Material::MATERIAL_NAME_COL as int)
            &&& s2.item.group == Some(s.group)
            &&& s2.item.category == Some(s.category)
            &&& s2.group == s.group
            &&& s2.category == s.category
        }),
{
}

} // verus!
