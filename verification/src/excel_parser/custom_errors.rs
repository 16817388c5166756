//! Errors of the Excel importers.

use vstd::prelude::*;
use crate::logger::{LogEntry, LogLevel, LogTarget};

verus! {

/// An Excel report whose structure is not the expected one.
#[derive(Debug, Clone, Copy, PartialEq, Eq, Structural)]
pub enum CustomError {
    ErrorStructureMaterialsFile,
    ErrorStructureProceduresFile,
    ErrorStructureModelsFile,
    ErrorStructureSpecificationsFile,
}

/// The bit that identifies each error.
pub open spec fn error_code_spec(e: CustomError) -> usize {
    match e {
        CustomError::ErrorStructureMaterialsFile => 1,
        CustomError::ErrorStructureProceduresFile => 2,
        CustomError::ErrorStructureModelsFile => 4,
        CustomError::ErrorStructureSpecificationsFile => 8,
    }
}

/// The message logged for each error.
pub open spec fn error_message_spec(e: CustomError) -> Seq<char> {
    match e {
        CustomError::ErrorStructureMaterialsFile => "Неверная структура Excel файла материалов"@,
        CustomError::ErrorStructureProceduresFile => "Неверная структура Excel файла процедур расчета"@,
        CustomError::ErrorStructureModelsFile => "Неверная структура Excel файла моделей"@,
        CustomError::ErrorStructureSpecificationsFile => "Неверная структура Excel файла спецификаций"@,
    }
}

impl CustomError {
    /// Returns the error's code: one bit per error.
    pub fn get_error_code(&self) -> (r: usize)
        ensures
            r == error_code_spec(*self),
    {
        match self {
            CustomError::ErrorStructureMaterialsFile => 0b0000_0000_0000_0001,
            CustomError::ErrorStructureProceduresFile => 0b0000_0000_0000_0010,
            CustomError::ErrorStructureModelsFile => 0b0000_0000_0000_0100,
            CustomError::ErrorStructureSpecificationsFile => 0b0000_0000_0000_1000,
        }
    }

    /// The event to log for the error: an error of the models update,
    /// with the error's message.
    pub fn get_log_message(&self) -> (r: LogEntry)
        ensures
            r.level == LogLevel::ERROR,
            r.target == LogTarget::ModelsUpdate,
            r.message@ == error_message_spec(*self),
    {
        let message = match self {
            CustomError::ErrorStructureMaterialsFile => String::from_str(
                "Неверная структура Excel файла материалов",
            ),
            CustomError::ErrorStructureProceduresFile => String::from_str(
                "Неверная структура Excel файла процедур расчета",
            ),
            CustomError::ErrorStructureModelsFile => String::from_str(
                "Неверная структура Excel файла моделей",
            ),
            CustomError::ErrorStructureSpecificationsFile => String::from_str(
                "Неверная структура Excel файла спецификаций",
            ),
        };
        LogEntry { level: LogLevel::ERROR, target: LogTarget::ModelsUpdate, message }
    }
}

/// The error codes are distinct powers of two.
pub proof fn law_error_codes_distinct_bits(a: CustomError, b: CustomError)
    ensures
        a != b ==> error_code_spec(a) != error_code_spec(b),
        error_code_spec(a) == 1 || error_code_spec(a) == 2 || error_code_spec(a) == 4
            || error_code_spec(a) == 8,
{
}

/// Each error of structure has its bit and message: materials 1,
/// procedures 2, models 4, specifications 8, each message naming its file.
pub proof fn law_error_table()
    ensures
        error_code_spec(CustomError::ErrorStructureMaterialsFile) == 1,
        error_code_spec(CustomError::ErrorStructureProceduresFile) == 2,
        error_code_spec(CustomError::ErrorStructureModelsFile) == 4,
        error_code_spec(CustomError::ErrorStructureSpecificationsFile) == 8,
        error_message_spec(CustomError::ErrorStructureMaterialsFile) == "Неверная структура Excel файла материалов"@,
        error_message_spec(CustomError::ErrorStructureProceduresFile)
            == "Неверная структура Excel файла процедур расчета"@,
        error_message_spec(CustomError::ErrorStructureModelsFile) == "Неверная структура Excel файла моделей"@,
        error_message_spec(CustomError::ErrorStructureSpecificationsFile)
            == "Неверная структура Excel файла спецификаций"@,
{
}

} // verus!
