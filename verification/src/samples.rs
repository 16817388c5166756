//! Sample procedures of the calculation language, as written in 1C.

use vstd::prelude::*;
use crate::procedures::Procedure;

verus! {

/// A procedure that sizes a spring block from the size of the mattress.
pub const SPRING_BLOCK_PROCEDURE_TEXT: &'static str = r#"
                Длина = [Матрас].[Длина];
                Ширина = [Матрас].[Ширина];
                // ДЛИНА пружинного блока
                [БлокПружинный].[Длина] = 1.81;
                Если Длина < 1.78 Тогда
                    РабочаяДлина = Длина - 2*0.06;   // Борт 6 см
                ИначеЕсли Длина < 1.82 Тогда
                    РабочаяДлина = 1.68;   // 41 пружин
                ИначеЕсли Длина < 1.86 Тогда
                    РабочаяДлина = 1.72;  // 42 пружин
                ИначеЕсли Длина < 1.90 Тогда
                    РабочаяДлина = 1.76;  // 43 пружин
                ИначеЕсли Длина < 1.94 Тогда
                    РабочаяДлина = 1.8;  // 44 пружин
                Иначе
                    РабочаяДлина = 1.81;  // Стандартная длина
                КонецЕсли;
                // ШИРИНА пружинного блока
                Если Ширина <= 0.59 Тогда
                    [БлокПружинный].[Ширина] = 0.61;
                    РабочаяШирина = Ширина - 2*0.06;
                ИначеЕсли Ширина <= 0.65 Тогда
                    [БлокПружинный].[Ширина] = 0.61;
                    РабочаяШирина = 0.52;	// 12 пружин
                ИначеЕсли Ширина <= 0.69 Тогда
                    [БлокПружинный].[Ширина] = 0.61;
                    РабочаяШирина = 0.57;	// 13 пружин
                ИначеЕсли Ширина <= 0.81 Тогда
                    [БлокПружинный].[Ширина] = 0.61;
                    РабочаяШирина = 0.61;	// 14 пружин
                ИначеЕсли Ширина <= 0.91 Тогда
                    [БлокПружинный].[Ширина] = 0.71;
                    РабочаяШирина = 0.71;	// 16 пружин
                ИначеЕсли Ширина <= 1.09 Тогда
                    [БлокПружинный].[Ширина] = 0.81;
                    РабочаяШирина = 0.81;	// 19 пружин
                ИначеЕсли Ширина <= 1.28 Тогда
                    [БлокПружинный].[Ширина] = 1.01;
                    РабочаяШирина = 1.01;	// 23 пружин
                ИначеЕсли Ширина <= 1.48 Тогда
                    [БлокПружинный].[Ширина] = 1.21;
                    РабочаяШирина = 1.21;	// 27 пружин
                ИначеЕсли Ширина <= 1.68 Тогда
                    [БлокПружинный].[Ширина] = 1.41;
                    РабочаяШирина = 1.41;	// 32 пружин
                ИначеЕсли Ширина <= 1.88 Тогда
                    [БлокПружинный].[Ширина] = 1.61;
                    РабочаяШирина = 1.61;	// 36 пружин
                Иначе
                    [БлокПружинный].[Ширина] = 1.81;
                    РабочаяШирина = 1.81;	// 41 пружин
                КонецЕсли;
                // РАСЧЕТ
                [БлокПружинный] = (РабочаяДлина * РабочаяШирина)/([БлокПружинный].[Длина] * [БлокПружинный].[Ширина]);
                [БлокПружинныйОтход] = 1 - [БлокПружинный];
                // ФОРМАТКА
                Если Ширина = 0.28 Тогда
                    [БлокПружинный] = 0;
                    [БлокПружинныйОтход] = 0;
                КонецЕсли;
            "#;

/// A procedure that computes the sewing materials of a pillow.
pub const SEWING_PROCEDURE_TEXT: &'static str = r#"
            [ШвейныеМатериалы].[Ширина] = [ШвейныеМатериалы].{Ширина};
            ШиринаПолотна  =  [ШвейныеМатериалы].{Ширина};
            Захват = 0.02;

            Если [Подушка].[Длина]=0.7 и [Подушка].[Ширина]= 0.7 тогда
                ПолезныйРасход = 0.7 ;
                ОбщийРасход = 0.72 + Захват;
                Отход = ОбщийРасход - ПолезныйРасход;

            ИначеЕсли [Подушка].[Длина]=0.7 и [Подушка].[Ширина]= 0.5 тогда
                ПолезныйРасход = 0.51 ;
                ОбщийРасход = 0.52 + Захват;
                Отход = ОбщийРасход - ПолезныйРасход;

            ИначеЕсли [Подушка].[Длина]=0.6 и [Подушка].[Ширина]= 0.4 тогда
                ПолезныйРасход = 0.35 ;
                ОбщийРасход = 0.42 + Захват;
                Отход = ОбщийРасход - ПолезныйРасход;

            ИначеЕсли [Подушка].[Длина]=0.6 и [Подушка].[Ширина]= 0.6 тогда
                ПолезныйРасход = 0.52 ;
                ОбщийРасход = 0.62 + Захват;
                Отход = ОбщийРасход - ПолезныйРасход;

            ИначеЕсли [Подушка].[Длина]=0.5 и [Подушка].[Ширина]= 0.5 тогда
                ПолезныйРасход = 0.37 ;
                ОбщийРасход = 0.52 + Захват;
                Отход = ОбщийРасход - ПолезныйРасход;


            Иначе ОбщийРасход = 0;

            КонецЕсли;
            [ШвейныеМатериалы] =  ПолезныйРасход;
            [ШвейныеМатериалыОтход] = Отход;
            "#;

/// Another procedure that sizes a spring block.
pub const SPRING_BLOCK_CODE_TEXT: &'static str = r#"
            Длина = [Матрас].[Длина];
            Ширина = [Матрас].[Ширина];
            // ДЛИНА пружинного блока
            [БлокПружинный].[Длина] = 1.87;
            Если Длина < 1.7 Тогда
                РабочаяДлина = Длина - 2*0.06;   // Борт 6 см
            ИначеЕсли Длина < 1.76 Тогда
                РабочаяДлина = 1.64;   // 28 пружин
            ИначеЕсли Длина < 1.82 Тогда
                РабочаяДлина = 1.69;  // 29 пружин
            ИначеЕсли Длина < 1.88 Тогда
                РабочаяДлина = 1.69;  // 29 пружин
            ИначеЕсли Длина < 1.94 Тогда
                РабочаяДлина = 1.75;  // 30 пружин
            Иначе
                РабочаяДлина = 1.87;  // Стандартная длина
            КонецЕсли;
            // ШИРИНА пружинного блока
            Если Ширина <= 0.59 Тогда
                [БлокПружинный].[Ширина] = 0.67;
                РабочаяШирина = Ширина - 2*0.06;
            ИначеЕсли Ширина <= 0.63 Тогда
                [БлокПружинный].[Ширина] = 0.67;
                РабочаяШирина = 0.49;	// 8 пружин
            ИначеЕсли Ширина <= 0.69 Тогда
                [БлокПружинный].[Ширина] = 0.67;
                РабочаяШирина = 0.55;	// 9 пружин
            ИначеЕсли Ширина <= 0.81 Тогда
                [БлокПружинный].[Ширина] = 0.67;
                РабочаяШирина = 0.67;	// 11 пружин
            ИначеЕсли Ширина <= 0.91 Тогда
                [БлокПружинный].[Ширина] = 0.77;
                РабочаяШирина = 0.77;	// 12 пружин
            ИначеЕсли Ширина <= 1.08 Тогда
                [БлокПружинный].[Ширина] = 0.87;
                РабочаяШирина = 0.87;	// 14 пружин
            ИначеЕсли Ширина <= 1.28 Тогда
                [БлокПружинный].[Ширина] = 1.07;
                РабочаяШирина = 1.07;	// 17 пружин
            ИначеЕсли Ширина <= 1.48 Тогда
                [БлокПружинный].[Ширина] = 1.27;
                РабочаяШирина = 1.27;	// 20 пружин
            ИначеЕсли Ширина <= 1.68 Тогда
                [БлокПружинный].[Ширина] = 1.47;
                РабочаяШирина = 1.47;	// 23 пружин
            ИначеЕсли Ширина <= 1.87 Тогда
                [БлокПружинный].[Ширина] = 1.67;
                РабочаяШирина = 1.67;	// 26 пружин
            Иначе
                [БлокПружинный].[Ширина] = 1.87;
                РабочаяШирина = 1.87;	// 29 пружин
            КонецЕсли;
            // РАСЧЕТ
            [БлокПружинный] = (РабочаяДлина * РабочаяШирина)/([БлокПружинный].[Длина] * [БлокПружинный].[Ширина]);
            [БлокПружинныйОтход] = 1 - [БлокПружинный];
            // ФОРМАТКА
            Если Ширина <= 0.28 Тогда
                [БлокПружинный] = 0;
                [БлокПружинныйОтход] = 0;
            КонецЕсли;
        "#;

/// The spring-block procedure, as a procedure of object `БлокПружинный`
/// with code `_`.
pub fn get_procedures_local() -> (r: Vec<Procedure>)
    ensures
        r@.len() == 1,
        r@[0].code_1c@ == "_"@,
        r@[0].name@ == ""@,
        r@[0].text matches Some(t) && t@ == SPRING_BLOCK_PROCEDURE_TEXT@,
        r@[0].text_vba is None,
        r@[0].object_code_1c is None,
        r@[0].object_name matches Some(o) && o@ == "БлокПружинный"@,
{
    let procedure = Procedure {
        code_1c: String::from_str("_"),
        name: String::from_str(""),
        text_vba: None,
        object_code_1c: None,
        object_name: Some(String::from_str("БлокПружинный")),
        text: Some(String::from_str(SPRING_BLOCK_PROCEDURE_TEXT)),
    };
    vec![procedure]
}

/// The sewing procedure, as a procedure of object `ШвейныеМатериалы` with
/// code `_`.
pub fn _get_procedures_local() -> (r: Vec<Procedure>)
    ensures
        r@.len() == 1,
        r@[0].code_1c@ == "_"@,
        r@[0].name@ == ""@,
        r@[0].text matches Some(t) && t@ == SEWING_PROCEDURE_TEXT@,
        r@[0].text_vba is None,
        r@[0].object_code_1c is None,
        r@[0].object_name matches Some(o) && o@ == "ШвейныеМатериалы"@,
{
    let procedure = Procedure {
        code_1c: String::from_str("_"),
        name: String::from_str(""),
        text_vba: None,
        object_code_1c: None,
        object_name: Some(String::from_str("ШвейныеМатериалы")),
        text: Some(String::from_str(SEWING_PROCEDURE_TEXT)),
    };
    vec![procedure]
}

/// The text of the second spring-block procedure.
pub fn get_code_string_() -> (r: String)
    ensures
        r@ == SPRING_BLOCK_CODE_TEXT@,
{
    String::from_str(SPRING_BLOCK_CODE_TEXT)
}

} // verus!
