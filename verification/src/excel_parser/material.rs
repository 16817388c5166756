//! Materials as the 1C report lists them.

use vstd::prelude::*;
use crate::excel_parser::custom_errors::CustomError;
use crate::excel_parser::traits::ExcelPattern;

verus! {

/// A material, a category or a group of materials of 1C.
#[derive(Debug)]
pub struct Material {
    /// The group of the material.
    pub material_group_code_1c: Option<String>,
    /// The category of the material.
    pub material_category_code_1c: Option<String>,
    pub code_1c: String,
    pub name: String,
    /// The unit of measure.
    pub unit: Option<String>,
    pub supplier: Option<String>,
    /// The object the material belongs to (such as a spring block).
    pub object_name: Option<String>,
    /// The other characteristics: names and values, each name once.
    pub properties: Option<Vec<(String, String)>>,
}

/// The mathematical form of a material.
pub struct MaterialView {
    pub group: Option<Seq<char>>,
    pub category: Option<Seq<char>>,
    pub code_1c: Seq<char>,
    pub name: Seq<char>,
    pub unit: Option<Seq<char>>,
    pub supplier: Option<Seq<char>>,
    pub object_name: Option<Seq<char>>,
    pub properties: Option<Seq<(Seq<char>, Seq<char>)>>,
}

/// The view of an optional string.
pub open spec fn opt_view(o: Option<String>) -> Option<Seq<char>> {
    match o {
        Some(s) => Some(s@),
        None => None,
    }
}

/// The views of pairs of strings.
pub open spec fn pair_views(v: Seq<(String, String)>) -> Seq<(Seq<char>, Seq<char>)> {
    v.map_values(|e: (String, String)| (e.0@, e.1@))
}

/// A material with only a code and a name.
pub open spec fn new_material_view(code_1c: Seq<char>, name: Seq<char>) -> MaterialView {
    MaterialView {
        group: None,
        category: None,
        code_1c,
        name,
        unit: None,
        supplier: None,
        object_name: None,
        properties: None,
    }
}

impl View for Material {
    type V = MaterialView;

    open spec fn view(&self) -> MaterialView {
        MaterialView {
            group: opt_view(self.material_group_code_1c),
            category: opt_view(self.material_category_code_1c),
            code_1c: self.code_1c@,
            name: self.name@,
            unit: opt_view(self.unit),
            supplier: opt_view(self.supplier),
            object_name: opt_view(self.object_name),
            properties: match self.properties {
                Some(p) => Some(pair_views(p@)),
                None => None,
            },
        }
    }
}

impl Material {
    /// The table of materials.
    pub const MATERIALS_TABLE_NAME: &'static str = "materials";

    /// The word that ends the report.
    pub const STOP_WORD: &'static str = "Итого";

    /// The row of the headers.
    pub const DATA_CHECK_ROW: usize = 6;

    /// The first row of data.
    pub const DATA_START_ROW: usize = 7;

    /// The column of the code of a group.
    pub const GROUP_CODE_COL: usize = 1;

    /// The column of the name of a group.
    pub const GROUP_NAME_COL: usize = 4;

    /// The column of the code of a category.
    pub const CATEGORY_CODE_COL: usize = 6;

    /// The column of the name of a category.
    pub const CATEGORY_NAME_COL: usize = 8;

    /// The column of the code of a material.
    pub const MATERIAL_CODE_COL: usize = 9;

    /// The column of the name of a material.
    pub const MATERIAL_NAME_COL: usize = 10;

    /// The column of the unit of measure.
    pub const UNIT_COL: usize = 11;

    /// The column of the name of a property.
    pub const PROPERTY_NAME_COL: usize = 14;

    /// The column of the value of a property.
    pub const PROPERTY_VALUE_COL: usize = 15;

    /// A material with a code and a name and nothing else.
    pub fn new(code_1c: String, name: String) -> (r: Self)
        ensures
            r@ == new_material_view(code_1c@, name@),
    {
        Material {
            code_1c,
            name,
            material_group_code_1c: None,
            material_category_code_1c: None,
            unit: None,
            supplier: None,
            object_name: None,
            properties: None,
        }
    }

    /// Whether the material has neither a code nor a name.
    pub fn is_empty(&self) -> (r: bool)
        ensures
            r == (self.code_1c@.len() == 0 && self.name@.len() == 0),
    {
        self.code_1c.unicode_len() == 0 && self.name.unicode_len() == 0
    }

    /// Resets every field.
    pub fn clear(&mut self)
        ensures
            final(self)@ == new_material_view(Seq::empty(), Seq::empty()),
    {
        self.code_1c = String::new();
        self.name = String::new();
        self.material_group_code_1c = None;
        self.material_category_code_1c = None;
        self.unit = None;
        self.supplier = None;
        self.object_name = None;
        self.properties = None;
    }
}

/// The headers checked in the report, by 1-based column.
pub open spec fn material_check_pattern() -> Seq<(usize, &'static str)> {
    seq![
            (Material::GROUP_CODE_COL, "Родитель.Родитель.Код"),
            (Material::GROUP_NAME_COL, "Родитель.Родитель.Наименование"),
            (Material::CATEGORY_CODE_COL, "Родитель.Код"),
            (Material::CATEGORY_NAME_COL, "Родитель.Наименование"),
            (Material::MATERIAL_CODE_COL, "Код"),
            (Material::MATERIAL_NAME_COL, "Наименование"),
            (Material::UNIT_COL, "Единица измерения"),
            (Material::PROPERTY_NAME_COL, "Вид свойства"),
            (Material::PROPERTY_VALUE_COL, "Значение"),
    ]
}

impl ExcelPattern for Material {
    fn get_check_pattern() -> (r: Vec<(usize, &'static str)>)
        ensures
            r@ == material_check_pattern(),
    {
        vec![
            (Material::GROUP_CODE_COL, "Родитель.Родитель.Код"),
            (Material::GROUP_NAME_COL, "Родитель.Родитель.Наименование"),
            (Material::CATEGORY_CODE_COL, "Родитель.Код"),
            (Material::CATEGORY_NAME_COL, "Родитель.Наименование"),
            (Material::MATERIAL_CODE_COL, "Код"),
            (Material::MATERIAL_NAME_COL, "Наименование"),
            (Material::UNIT_COL, "Единица измерения"),
            (Material::PROPERTY_NAME_COL, "Вид свойства"),
            (Material::PROPERTY_VALUE_COL, "Значение"),
        ]
    }

    fn get_check_row() -> (r: usize)
        ensures
            r == Material::DATA_CHECK_ROW - 2,
    {
        Material::DATA_CHECK_ROW - 2
    }

    fn get_error() -> (r: CustomError)
        ensures
            r == CustomError::ErrorStructureMaterialsFile,
    {
        CustomError::ErrorStructureMaterialsFile
    }
}

impl Default for Material {
    fn default() -> (r: Self)
        ensures
            r@ == new_material_view(Seq::empty(), Seq::empty()),
    {
        Material::new(String::new(), String::new())
    }
}

} // verus!
