//! Specifications (bills of materials) of models, as the 1C report lists
//! them.

use vstd::prelude::*;
use rust_decimal::Decimal;
use crate::excel_parser::custom_errors::CustomError;
use crate::excel_parser::traits::ExcelPattern;

verus! {

/// A specification of a model.
#[derive(Debug)]
pub struct ModelConstruct {
    pub code_1c: String,
    pub name: String,
    /// The model the specification belongs to.
    pub model_code_1c: String,
    pub model_name: String,
    /// The kind of specification (cover, core, ...).
    pub element_type: Option<String>,
}

/// A line of a specification: a material in some quantity.
#[derive(Debug)]
pub struct ModelConstructItem {
    pub id: i64,
    /// The specification the line belongs to.
    pub construct_code_1c: String,
    pub material_code_1c: Option<String>,
    /// A copy of the material's code, kept when the material is deleted.
    pub material_code_1c_copy: String,
    pub material_name: String,
    pub material_unit: Option<String>,
    /// The part the material goes into.
    pub detail: Option<String>,
    /// The procedure that computes the quantity.
    pub procedure_code_1c: Option<String>,
    /// A copy of the procedure's code, kept when the procedure is deleted.
    pub procedure_code_1c_copy: Option<String>,
    pub procedure_name: Option<String>,
    pub detail_height: Option<Decimal>,
    pub count: Option<Decimal>,
    pub position: Option<i16>,
}

/// A material that a specification names and the list of materials lacks.
#[derive(Debug)]
pub struct MissingMaterial {
    pub code_1c: String,
    pub name_1c: String,
    pub unit: Option<String>,
}

impl ModelConstruct {
    /// The table of specifications.
    pub const CONSTRUCT_TABLE_NAME: &'static str = "model_constructs";

    /// The row of the headers.
    pub const DATA_CHECK_ROW: usize = 1;

    /// The first row of data.
    pub const DATA_START_ROW: usize = 2;

    pub const MODEL_NAME_COL: usize = 1;
    pub const MODEL_CODE_1C_COL: usize = 2;
    pub const SPECIFICATION_NAME_COL: usize = 3;
    pub const SPECIFICATION_CODE_1C_COL: usize = 4;
    pub const SPECIFICATION_ACTIVITY_COL: usize = 5;
}

impl ModelConstructItem {
    /// The table of specification lines.
    pub const CONSTRUCT_ITEM_TABLE_NAME: &'static str = "model_construct_items";

    pub const MATERIAL_CODE_1C_COL: usize = 6;
    pub const MATERIAL_NAME_COL: usize = 7;
    pub const MATERIAL_UNIT_COL: usize = 8;
    pub const SPECIFICATION_DETAIL_TYPE_COL: usize = 9;
    pub const SPECIFICATION_DETAIL_HEIGHT_COL: usize = 10;
    pub const SPECIFICATION_PROCEDURE_CODE_1C_COL: usize = 11;
    pub const SPECIFICATION_PROCEDURE_NAME_COL: usize = 12;
    pub const MATERIAL_COUNT_COL: usize = 13;
    pub const SPECIFICATION_LINE_POSITION_COL: usize = 15;
}

/// The headers checked in the report, by 1-based column.
pub open spec fn specification_check_pattern() -> Seq<(usize, &'static str)> {
    seq![
            (ModelConstruct::MODEL_NAME_COL, "Ссылка.Выходные изделия.Модель.Наименование"),
            (ModelConstruct::MODEL_CODE_1C_COL, "Ссылка.Выходные изделия.Модель.Код"),
            (ModelConstruct::SPECIFICATION_NAME_COL, "Ссылка.Наименование"),
            (ModelConstruct::SPECIFICATION_CODE_1C_COL, "Ссылка.Код"),
            (ModelConstruct::SPECIFICATION_ACTIVITY_COL, "Ссылка.Активная"),
            (ModelConstructItem::MATERIAL_CODE_1C_COL, "Номенклатура.Код"),
            (ModelConstructItem::MATERIAL_NAME_COL, "Номенклатура.Наименование"),
            (ModelConstructItem::MATERIAL_UNIT_COL, "Единица измерения"),
            (ModelConstructItem::SPECIFICATION_DETAIL_TYPE_COL, "Деталь"),
            (ModelConstructItem::SPECIFICATION_DETAIL_HEIGHT_COL, "Высота детали"),
            (ModelConstructItem::SPECIFICATION_PROCEDURE_CODE_1C_COL, "Процедура расчета.Код"),
            (ModelConstructItem::SPECIFICATION_PROCEDURE_NAME_COL, "Процедура расчета.Наименование"),
            (ModelConstructItem::MATERIAL_COUNT_COL, "Количество"),
            (ModelConstructItem::SPECIFICATION_LINE_POSITION_COL, "Номер строки"),
    ]
}

impl ExcelPattern for ModelConstruct {
    fn get_check_pattern() -> (r: Vec<(usize, &'static str)>)
        ensures
            r@ == specification_check_pattern(),
    {
        vec![
            (ModelConstruct::MODEL_NAME_COL, "Ссылка.Выходные изделия.Модель.Наименование"),
            (ModelConstruct::MODEL_CODE_1C_COL, "Ссылка.Выходные изделия.Модель.Код"),
            (ModelConstruct::SPECIFICATION_NAME_COL, "Ссылка.Наименование"),
            (ModelConstruct::SPECIFICATION_CODE_1C_COL, "Ссылка.Код"),
            (ModelConstruct::SPECIFICATION_ACTIVITY_COL, "Ссылка.Активная"),
            (ModelConstructItem::MATERIAL_CODE_1C_COL, "Номенклатура.Код"),
            (ModelConstructItem::MATERIAL_NAME_COL, "Номенклатура.Наименование"),
            (ModelConstructItem::MATERIAL_UNIT_COL, "Единица измерения"),
            (ModelConstructItem::SPECIFICATION_DETAIL_TYPE_COL, "Деталь"),
            (ModelConstructItem::SPECIFICATION_DETAIL_HEIGHT_COL, "Высота детали"),
            (ModelConstructItem::SPECIFICATION_PROCEDURE_CODE_1C_COL, "Процедура расчета.Код"),
            (ModelConstructItem::SPECIFICATION_PROCEDURE_NAME_COL, "Процедура расчета.Наименование"),
            (ModelConstructItem::MATERIAL_COUNT_COL, "Количество"),
            (ModelConstructItem::SPECIFICATION_LINE_POSITION_COL, "Номер строки"),
        ]
    }

    fn get_check_row() -> (r: usize)
        ensures
            r == ModelConstruct::DATA_CHECK_ROW - 1,
    {
        ModelConstruct::DATA_CHECK_ROW - 1
    }

    fn get_error() -> (r: CustomError)
        ensures
            r == CustomError::ErrorStructureSpecificationsFile,
    {
        CustomError::ErrorStructureSpecificationsFile
    }
}

} // verus!
