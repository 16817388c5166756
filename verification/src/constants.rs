//! Constants shared by the importers.

use vstd::prelude::*;

verus! {

/// The sheet of the 1C reports.
pub const DATA_SHEET_1C_NAME: &'static str = "TDSheet";

/// Length of a code from 1C.
pub const CODE_1C_LENGTH: usize = 9;

/// Where the reports are put.
pub const IMPORT_PATH: &'static str = "storage/app/1c_imports/";

/// The report of materials.
pub const MATERIALS_FILE_NAME: &'static str = "materials.xlsx";

/// The report of procedures.
pub const PROCEDURES_FILE_NAME: &'static str = "procedures.xlsx";

/// The report of models.
pub const MODELS_FILE_NAME: &'static str = "models.xlsx";

/// The report of specifications.
pub const SPECIFICATIONS_FILE_NAME: &'static str = "specifications.xlsx";

/// The table of collections.
pub const MODEL_COLLECTIONS_TABLE_NAME: &'static str = "model_collections";

/// The table of production statuses.
pub const MODEL_MANUFACTURE_STATUSES_TABLE_NAME: &'static str = "model_manufacture_statuses";

/// The table of kinds of production.
pub const MODEL_MANUFACTURE_TYPES_TABLE_NAME: &'static str = "model_manufacture_types";

/// The table of kinds of product.
pub const MODEL_TYPES_TABLE_NAME: &'static str = "model_types";

/// The table of sorting groups.
pub const MODEL_MANUFACTURE_GROUPS_TABLE_NAME: &'static str = "model_manufacture_groups";

/// The name of the group of materials missing from the list.
pub const MISSING_MATERIALS_GROUP_NAME: &'static str = "Отсутствующее сырье из спецификаций";

/// The code of the group of materials missing from the list.
pub const MISSING_MATERIALS_GROUP_CODE_1C: &'static str = "GR_MS_000";

/// The name of the category of materials missing from the list.
pub const MISSING_MATERIALS_CATEGORY_NAME: &'static str = "Наименование материалов";

/// The code of the category of materials missing from the list.
pub const MISSING_MATERIALS_CATEGORY_CODE_1C: &'static str = "CT_MS_000";

} // verus!
