use expense_engine::excel_parser::custom_errors::CustomError;
use expense_engine::excel_parser::helpers::{
    find_structure_mismatch, get_formatted_1c_code_string, get_formatted_unit_string,
};
use expense_engine::excel_parser::material::Material as ReportMaterial;
use expense_engine::excel_parser::specification::ModelConstruct;
use expense_engine::excel_parser::traits::ExcelPattern;
use expense_engine::logger::{LogLevel, LogTarget};
use expense_engine::material_import::{set_properties, MaterialImport};
use expense_engine::materials::{Material, PropertyValue};
use expense_engine::orders::{is_average_model_name, OrderLine};
use expense_engine::procedures::ProcedureCutting;

fn row(cells: &[(usize, &str)]) -> Vec<String> {
    let mut r = vec![String::new(); 15];
    for (col, text) in cells {
        r[col - 1] = text.to_string();
    }
    r
}

#[test]
fn report_rows_become_materials() {
    let mut import = MaterialImport::new();
    let (out, stop) = import.read_row(&row(&[(1, "12"), (4, "Группа")]));
    assert!(!stop);
    assert_eq!(out.len(), 1);
    assert_eq!(out[0].code_1c, "000000012");
    assert_eq!(out[0].name, "Группа");
    assert_eq!(out[0].material_group_code_1c, None);

    let (out, _) = import.read_row(&row(&[(6, "345"), (8, "Категория")]));
    assert_eq!(out.len(), 1);
    assert_eq!(out[0].code_1c, "000000345");
    assert_eq!(out[0].material_group_code_1c.as_deref(), Some("000000012"));
    assert_eq!(out[0].material_category_code_1c, None);

    let (out, _) = import.read_row(&row(&[(9, "6789"), (10, "Поролон"), (11, "шт")]));
    assert!(out.is_empty());
    let (out, _) = import.read_row(&row(&[(14, "Плотность"), (15, "25")]));
    assert!(out.is_empty());
    let (out, _) = import.read_row(&row(&[(14, "ВидОбъекта"), (15, "БлокПружинный")]));
    assert!(out.is_empty());
    let (out, _) = import.read_row(&row(&[(14, "Плотность"), (15, "30")]));
    assert!(out.is_empty());
    let (out, _) = import.read_row(&row(&[]));
    assert!(out.is_empty());

    let (out, stop) = import.read_row(&row(&[(9, "1"), (10, "Клей"), (11, "кг")]));
    assert!(!stop);
    assert_eq!(out.len(), 1);
    let m = &out[0];
    assert_eq!(m.code_1c, "000006789");
    assert_eq!(m.name, "Поролон");
    assert_eq!(m.unit.as_deref(), Some("шт."));
    assert_eq!(m.material_group_code_1c.as_deref(), Some("000000012"));
    assert_eq!(m.material_category_code_1c.as_deref(), Some("000000345"));
    assert_eq!(m.object_name.as_deref(), Some("БлокПружинный"));
    let props = m.properties.as_ref().unwrap();
    assert_eq!(
        props,
        &vec![
            ("Плотность".to_string(), "30".to_string()),
            ("ВидОбъекта".to_string(), "БлокПружинный".to_string())
        ]
    );

    let (out, stop) = import.read_row(&row(&[(1, "Итого")]));
    assert!(stop);
    assert_eq!(out.len(), 1);
    assert_eq!(out[0].code_1c, "000000001");
    assert_eq!(out[0].unit.as_deref(), Some("кг"));
    assert_eq!(out[0].properties, None);
    assert!(import.finish().is_empty());
}

#[test]
fn last_material_is_stored_at_the_end() {
    let mut import = MaterialImport::new();
    import.read_row(&row(&[(9, "5"), (10, "Нить"), (11, "мл")]));
    let out = import.finish();
    assert_eq!(out.len(), 1);
    assert_eq!(out[0].unit, None);
    assert_eq!(out[0].material_group_code_1c.as_deref(), Some(""));
    assert!(import.finish().is_empty());
}

#[test]
fn properties_are_moved_to_the_material() {
    let mut m = ReportMaterial::new("1".to_string(), "М".to_string());
    let mut props = vec![("ВидОбъекта".to_string(), "Чехол".to_string())];
    set_properties(&mut m, &mut props);
    assert!(props.is_empty());
    assert_eq!(m.object_name.as_deref(), Some("Чехол"));
    let mut empty: Vec<(String, String)> = Vec::new();
    set_properties(&mut m, &mut empty);
    assert_eq!(m.properties, None);
    assert_eq!(m.object_name.as_deref(), Some("Чехол"));
}

#[test]
fn report_material_is_empty_and_cleared() {
    let mut m = ReportMaterial::new("1".to_string(), String::new());
    assert!(!m.is_empty());
    m.clear();
    assert!(m.is_empty());
    assert!(ReportMaterial::default().is_empty());
}

#[test]
fn long_codes_keep_their_last_characters() {
    assert_eq!(get_formatted_1c_code_string("1234567890".to_string()), "234567890");
    assert_eq!(get_formatted_1c_code_string("7".to_string()), "000000007");
    assert_eq!(get_formatted_1c_code_string(String::new()), "");
    assert_eq!(get_formatted_unit_string("компл".to_string()), "компл.");
    assert_eq!(get_formatted_unit_string("м п".to_string()), "мп");
}

#[test]
fn error_codes_and_messages() {
    assert_eq!(CustomError::ErrorStructureMaterialsFile.get_error_code(), 1);
    assert_eq!(CustomError::ErrorStructureProceduresFile.get_error_code(), 2);
    assert_eq!(CustomError::ErrorStructureModelsFile.get_error_code(), 4);
    assert_eq!(CustomError::ErrorStructureSpecificationsFile.get_error_code(), 8);
    let e = CustomError::ErrorStructureSpecificationsFile.get_log_message();
    assert_eq!(e.level, LogLevel::ERROR);
    assert_eq!(e.target, LogTarget::ModelsUpdate);
    assert_eq!(e.message, "Неверная структура Excel файла спецификаций");
}

#[test]
fn log_names() {
    assert_eq!(LogLevel::WARN.to_text(), "WARN");
    assert_eq!(String::from(LogLevel::DEBUG), "DEBUG");
    assert_eq!(LogLevel::default(), LogLevel::INFO);
    assert_eq!(LogTarget::ModelsUpdate.to_text(), "update_models");
    assert_eq!(String::from(LogTarget::Compiler), "compile_procedures");
    assert_eq!(LogTarget::default(), LogTarget::Default);
}

#[test]
fn header_mismatch_is_reported() {
    let pattern = ModelConstruct::get_check_pattern();
    let row = ModelConstruct::get_check_row();
    assert_eq!(row, 0);
    let mut cells: Vec<Option<String>> = vec![None; 15];
    for (col, name) in &pattern {
        cells[col - 1] = Some(name.to_string());
    }
    assert!(find_structure_mismatch(&pattern, row, &cells).is_none());
    cells[2] = Some("Другое".to_string());
    let m = find_structure_mismatch(&pattern, row, &cells).unwrap();
    assert_eq!(m.col, 3);
    assert_eq!(m.expected, "Ссылка.Наименование");
    assert_eq!(m.actual.as_deref(), Some("Другое"));
    let short: Vec<Option<String>> = cells[..10].to_vec();
    let mut fixed = short.clone();
    fixed[2] = Some("Ссылка.Наименование".to_string());
    let m = find_structure_mismatch(&pattern, row, &fixed).unwrap();
    assert_eq!(m.col, 11);
    assert_eq!(m.actual, None);
    assert!(matches!(ModelConstruct::get_error(), CustomError::ErrorStructureSpecificationsFile));
    assert_eq!(ReportMaterial::get_check_row(), 4);
    assert_eq!(ReportMaterial::get_check_pattern().len(), 9);
}

#[test]
fn cutting_procedure_code_is_its_number() {
    let p = ProcedureCutting { id: -42, name: "Раскрой".to_string(), text: None, object_name: None }
        .into_procedure();
    assert_eq!(p.code_1c, "-42");
    assert_eq!(p.name, "Раскрой");
    let p = ProcedureCutting { id: 9007, name: String::new(), text: Some("А = 1;".to_string()), object_name: Some("Чехол".to_string()) }
        .into_procedure();
    assert_eq!(p.code_1c, "9007");
    assert_eq!(p.text.as_deref(), Some("А = 1;"));
    assert_eq!(p.object_name.as_deref(), Some("Чехол"));
}

#[test]
fn averaged_products() {
    let line = |code: &str| OrderLine {
        id: 1,
        model_code_1c: code.to_string(),
        size: "80x190".to_string(),
        width: 80,
        length: 190,
        height: 20,
        amount: 1,
        specification: None,
    };
    assert!(line("CMID_00012").is_average());
    assert!(line("X_CAID_1").is_average());
    assert!(!line("000000123").is_average());
    assert!(is_average_model_name(&"Матрас AVGM_1".to_string()));
    assert!(is_average_model_name(&"AVGA_".to_string()));
    assert!(!is_average_model_name(&"AVG_".to_string()));
}

#[test]
fn material_kinds() {
    let s = |x: &str| Some(x.to_string());
    let m = Material::new(s("1"), s("2"), "3".to_string(), "М".to_string(), None, None, None);
    assert!(m.is_material() && !m.is_category() && !m.is_group());
    let c = Material::new(s("1"), None, "2".to_string(), "К".to_string(), None, None, None);
    assert!(c.is_category() && !c.is_material() && !c.is_group());
    let g = Material::new(None, None, "1".to_string(), "Г".to_string(), None, None, None);
    assert!(g.is_group() && !g.is_material() && !g.is_category());
}

#[test]
fn properties_are_ordered_by_key() {
    let props = vec![
        ("b".to_string(), PropertyValue::Text("2".to_string())),
        ("a".to_string(), PropertyValue::Number("1.5".to_string())),
        ("Плотность".to_string(), PropertyValue::Bool(true)),
        ("c".to_string(), PropertyValue::Null),
        ("b".to_string(), PropertyValue::Other("[1,2]".to_string())),
    ];
    let mut m = Material::new(None, None, "1".to_string(), "М".to_string(), None, None, Some(props));
    let map = m.set_properties_map().unwrap();
    let expected: Vec<(String, String)> = vec![
        ("a".to_string(), "1.5".to_string()),
        ("b".to_string(), "[1,2]".to_string()),
        ("c".to_string(), String::new()),
        ("Плотность".to_string(), "true".to_string()),
    ];
    assert_eq!(map, expected);
    assert_eq!(m.set_properties_map().unwrap(), expected);
    let mut none = Material::new(None, None, "2".to_string(), "Н".to_string(), None, None, None);
    assert!(none.set_properties_map().is_none());
}
