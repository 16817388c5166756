//! Models (products) as the 1C report lists them.

use vstd::prelude::*;
use rust_decimal::Decimal;

verus! {

/// A model of 1C.
#[derive(Debug)]
pub struct Model {
    /// The primary key.
    pub code_1c: String,
    /// The production status (on sale, archived, a variant, ...).
    pub model_manufacture_status_id: Option<i64>,
    /// The sorting group; 0 when the group is not known.
    pub model_manufacture_group_id: i64,
    pub model_collection_code_1c: Option<String>,
    /// The kind of product: mattress, topper, pillow, ...
    pub model_type_code_1c: Option<String>,
    /// The kind of production.
    pub model_manufacture_type_code_1c: Option<String>,
    /// The model of the cover, once it is known to exist.
    pub cover_code_1c: Option<String>,
    /// The model of the cover as the report gives it.
    pub cover_code_1c_copy: Option<String>,
    pub model_manufacture_status_name: Option<String>,
    pub model_collection_name: Option<String>,
    pub model_type_name: Option<String>,
    pub model_manufacture_type_name: Option<String>,
    pub serial: Option<String>,
    pub name: String,
    pub name_short: Option<String>,
    pub name_common: Option<String>,
    pub name_report: Option<String>,
    pub cover_name_1c: Option<String>,
    pub textile: Option<String>,
    pub textile_composition: Option<String>,
    pub cover_type: Option<String>,
    pub zipper: Option<String>,
    pub spacer: Option<String>,
    pub stitch_pattern: Option<String>,
    pub pack_type: Option<String>,
    pub base_composition: Option<String>,
    pub side_foam: Option<String>,
    pub base_block: Option<String>,
    pub cover_mark: Option<String>,
    pub model_mark: Option<String>,
    pub owner: Option<String>,
    pub sewing_machine: Option<String>,
    pub kant: Option<String>,
    pub tkch: Option<String>,
    pub side_height: Option<String>,
    pub barcode: Option<String>,
    /// The height of the mattress, m.
    pub base_height: Decimal,
    /// The height of the cover, m.
    pub cover_height: Decimal,
    pub pack_density: Option<Decimal>,
    pub pack_weight_rb: Option<Decimal>,
    pub pack_weight_ex: Option<Decimal>,
    pub weight: Decimal,
    pub load: Option<i32>,
    /// Months.
    pub guarantee: Option<i32>,
    /// Years.
    pub life: Option<i32>,
    /// Whether the model can be made on the Lamit line.
    pub lamit: Option<bool>,
}

impl Model {
    /// The table of models.
    pub const MODELS_TABLE_NAME: &'static str = "models";

    /// The first row of data.
    pub const DATA_START_ROW: usize = 5;

    pub const CODE_1C_COL: usize = 1;
    pub const MODEL_MANUFACTURE_STATUS_COL: usize = 2;
    pub const MODEL_COLLECTION_CODE_1C_COL: usize = 3;
    pub const MODEL_COLLECTION_NAME_COL: usize = 4;
    pub const MODEL_TYPE_CODE_1C_COL: usize = 5;
    pub const MODEL_TYPE_NAME_COL: usize = 6;
    pub const MODEL_SERIAL_COL: usize = 7;
    pub const NAME_COL: usize = 8;
    pub const NAME_SHORT_COL: usize = 9;
    pub const NAME_COMMON_COL: usize = 10;
    pub const NAME_REPORT_COL: usize = 11;
    pub const COVER_CODE_1C_COL: usize = 12;
    pub const COVER_NAME_1C_COL: usize = 13;
    pub const BASE_HEIGHT_COL: usize = 14;
    pub const COVER_HEIGHT_COL: usize = 15;
    pub const TEXTILE_COL: usize = 16;
    pub const TEXTILE_COMPOSITION_COL: usize = 17;
    pub const COVER_TYPE_COL: usize = 18;
    pub const ZIPPER_COL: usize = 19;
    pub const SPACER_COL: usize = 20;
    pub const STITCH_PATTERN_COL: usize = 21;
    pub const PACK_TYPE_COL: usize = 22;
    pub const BASE_COMPOSITION_COL: usize = 23;
    pub const SIDE_FOAM_COL: usize = 24;
    pub const BASE_BLOCK_COL: usize = 25;
    pub const LOAD_COL: usize = 26;
    pub const GUARANTEE_COL: usize = 27;
    pub const LIFE_COL: usize = 28;
    pub const COVER_MARK_COL: usize = 29;
    pub const MODEL_MARK_COL: usize = 30;
    pub const MODEL_MANUFACTURE_GROUP_ID_COL: usize = 31;
    pub const OWNER_COL: usize = 32;
    pub const LAMIT_COL: usize = 33;
    pub const SEWING_MACHINE_COL: usize = 34;
    pub const KANT_COL: usize = 35;
    pub const TKCH_COL: usize = 36;
    pub const PACK_DENSITY_COL: usize = 37;
    pub const SIDE_HEIGHT_COL: usize = 38;
    pub const PACK_WEIGHT_RB_COL: usize = 39;
    pub const PACK_WEIGHT_EX_COL: usize = 40;
    pub const MODEL_MANUFACTURE_TYPE_CODE_1C_COL: usize = 41;
    pub const MODEL_MANUFACTURE_TYPE_NAME_COL: usize = 42;
    pub const WEIGHT_COL: usize = 43;
    pub const BARCODE_COL: usize = 44;
}

} // verus!
