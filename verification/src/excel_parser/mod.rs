//! Importer of models and specifications from 1C Excel reports.

pub mod cells;
pub mod custom_errors;
pub mod helpers;
pub mod material;
pub mod model;
pub mod model_import;
pub mod spec_import;
pub mod specification;
pub mod traits;
