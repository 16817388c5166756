//! Verified core of the materials-expense engine: text normalisation,
//! the lexer and parser of the calculation-procedure language, the
//! translator of procedures into VBA, and the row logic of the 1C importers.

pub mod text;
pub mod constants;
pub mod helpers;
pub mod excel_parser;
pub mod interpreter;
pub mod procedures;
pub mod procedure_import;
pub mod vba;
pub mod material_import;
pub mod logger;
pub mod materials;
pub mod orders;
pub mod tasks;
pub mod samples;
