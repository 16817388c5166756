use expense_engine::excel_parser::cells::{
    cell_to_i16, cell_to_string, cell_to_value_text, parse_i16, parse_i32, parse_i64, CellValue,
};
use expense_engine::excel_parser::model_import::{
    cover_links, import_model_rows, model_from_row, split_known_codes, split_known_ids,
    ModelImportError,
};
use expense_engine::excel_parser::spec_import::{
    import_specification_rows, missing_material_record, ImportRecord,
};
use expense_engine::excel_parser::specification::MissingMaterial;
use expense_engine::materials::{get_materials_lookup, Material, PropertyValue};
use expense_engine::tasks::{
    keeps_angle, output_names, procedure_ids, CuttingTaskLine, Detail, Model as TaskModel,
};
use expense_engine::interpreter::prepare::{first_contained, is_waste_name};
use expense_engine::orders::{group_rows_by_order, needs_cover, procedure_codes};
use expense_engine::procedure_import::{procedure_from_row, procedures_from_rows};
use rust_decimal::Decimal;

fn text_row(width: usize, cells: &[(usize, &str)]) -> Vec<CellValue> {
    let mut r: Vec<CellValue> = (0..width).map(|_| CellValue::Empty).collect();
    for (col, text) in cells {
        r[col - 1] = CellValue::Text(text.to_string());
    }
    r
}

#[test]
fn integers_are_read_as_from_str_reads_them() {
    assert_eq!(parse_i64("42"), Some(42));
    assert_eq!(parse_i64("-7"), Some(-7));
    assert_eq!(parse_i64("+5"), Some(5));
    assert_eq!(parse_i64("9223372036854775807"), Some(i64::MAX));
    assert_eq!(parse_i64("-9223372036854775808"), Some(i64::MIN));
    assert_eq!(parse_i64("9223372036854775808"), None);
    assert_eq!(parse_i64(""), None);
    assert_eq!(parse_i64("-"), None);
    assert_eq!(parse_i64("1 2"), None);
    assert_eq!(parse_i64("abc"), None);
    assert_eq!(parse_i32("2147483647"), Some(i32::MAX));
    assert_eq!(parse_i32("2147483648"), None);
    assert_eq!(parse_i16("-32768"), Some(i16::MIN));
    assert_eq!(parse_i16("70000"), None);
}

#[test]
fn decimals_are_read_by_rust_decimal() {
    let mut row = model_row("5", "", "3", "");
    row[36] = CellValue::Text("1.5".to_string());
    row[38] = CellValue::Text("x".to_string());
    row[39] = CellValue::Text("0.05".to_string());
    row[42] = CellValue::Text("-2".to_string());
    let m = model_from_row(&row, &vec![3]).unwrap();
    assert_eq!(m.pack_density, Some(Decimal::new(15, 1)));
    assert_eq!(m.pack_weight_rb, None);
    assert_eq!(m.pack_weight_ex, Some(Decimal::new(5, 2)));
    assert_eq!(m.weight, Decimal::new(-2, 0));
}

#[test]
fn cells_give_their_text() {
    let row = vec![
        CellValue::Text("abc".to_string()),
        CellValue::Bool(true),
        CellValue::Empty,
        CellValue::Text("12".to_string()),
    ];
    assert_eq!(cell_to_string(&row, 1), "abc");
    assert_eq!(cell_to_string(&row, 2), "");
    assert_eq!(cell_to_string(&row, 3), "");
    assert_eq!(cell_to_string(&row, 9), "");
    assert_eq!(cell_to_value_text(&row, 1).as_deref(), Some("abc"));
    assert_eq!(cell_to_value_text(&row, 2).as_deref(), Some("true"));
    assert_eq!(cell_to_value_text(&row, 3), None);
    assert_eq!(cell_to_value_text(&row, 9), None);
    assert_eq!(cell_to_i16(&row, 4), Some(12));
    assert_eq!(cell_to_i16(&row, 1), None);
}

fn specification_rows() -> Vec<Vec<CellValue>> {
    vec![
        text_row(15, &[(1, "Заголовок")]),
        text_row(15, &[(1, "Матрас Тест")]),
        text_row(15, &[(2, "77")]),
        text_row(15, &[(3, "Спецификация 1")]),
        text_row(15, &[(4, "88")]),
        text_row(15, &[(5, " ДА ")]),
        text_row(
            15,
            &[
                (6, "5"),
                (7, "Поролон"),
                (8, "шт"),
                (9, "panel"),
                (10, "0.05"),
                (11, "3"),
                (12, "Расчет"),
                (13, "2"),
                (15, "1"),
            ],
        ),
        text_row(15, &[(6, "6"), (7, "Чехол Х"), (8, "шт"), (13, "много")]),
        text_row(15, &[(6, "9"), (7, "Клей"), (8, "кг"), (11, "4")]),
        text_row(15, &[]),
    ]
}

#[test]
fn specification_report_gives_specifications_lines_and_missing_materials() {
    let rows = specification_rows();
    let imp = import_specification_rows(
        &rows,
        &vec!["000000005".to_string()],
        &vec!["000000077".to_string()],
        &vec!["000000003".to_string()],
    );
    assert_eq!(imp.records.len(), 4);
    match &imp.records[0] {
        ImportRecord::Specification(s) => {
            assert_eq!(s.code_1c, "000000088");
            assert_eq!(s.name, "Спецификация 1");
            assert_eq!(s.model_code_1c, "000000077");
            assert_eq!(s.model_name, "Матрас Тест");
            assert_eq!(s.element_type, None);
        },
        other => panic!("expected a specification, got {:?}", other),
    }
    match &imp.records[1] {
        ImportRecord::Item(row, it) => {
            assert_eq!(*row, 6);
            assert_eq!(it.construct_code_1c, "000000088");
            assert_eq!(it.material_code_1c.as_deref(), Some("000000005"));
            assert_eq!(it.material_code_1c_copy, "000000005");
            assert_eq!(it.material_name, "Поролон");
            assert_eq!(it.material_unit.as_deref(), Some("шт."));
            assert_eq!(it.detail.as_deref(), Some("panel"));
            assert_eq!(it.procedure_code_1c.as_deref(), Some("000000003"));
            assert_eq!(it.procedure_code_1c_copy.as_deref(), Some("000000003"));
            assert_eq!(it.procedure_name.as_deref(), Some("Расчет"));
            assert_eq!(it.detail_height, Some(Decimal::new(5, 2)));
            assert_eq!(it.count, Some(Decimal::new(2, 0)));
            assert_eq!(it.position, Some(1));
        },
        other => panic!("expected a line, got {:?}", other),
    }
    match &imp.records[2] {
        ImportRecord::Item(row, it) => {
            assert_eq!(*row, 7);
            assert_eq!(it.material_code_1c, None);
            assert_eq!(it.material_code_1c_copy, "000000006");
            assert_eq!(it.count, None);
            assert_eq!(it.procedure_code_1c, None);
            assert_eq!(it.procedure_code_1c_copy, None);
        },
        other => panic!("expected a line, got {:?}", other),
    }
    match &imp.records[3] {
        ImportRecord::Item(row, it) => {
            assert_eq!(*row, 8);
            assert_eq!(it.material_code_1c, None);
            assert_eq!(it.procedure_code_1c, None);
            assert_eq!(it.procedure_code_1c_copy.as_deref(), Some("000000004"));
        },
        other => panic!("expected a line, got {:?}", other),
    }
    // The cover is left out of the missing materials; the glue is missing.
    assert_eq!(imp.missing.len(), 1);
    assert_eq!(imp.missing[0].code_1c, "000000009");
    assert_eq!(imp.missing[0].name_1c, "Клей");
    assert_eq!(imp.missing[0].unit.as_deref(), Some("кг"));
}

#[test]
fn specification_of_unknown_model_is_skipped() {
    let rows = specification_rows();
    let imp = import_specification_rows(&rows, &vec![], &vec![], &vec![]);
    assert!(imp.records.is_empty());
    assert!(imp.missing.is_empty());
}

#[test]
fn inactive_specification_is_skipped() {
    let mut rows = specification_rows();
    rows[5] = text_row(15, &[(5, "нет")]);
    let imp = import_specification_rows(&rows, &vec![], &vec!["000000077".to_string()], &vec![]);
    assert!(imp.records.is_empty());
}

#[test]
fn missing_material_goes_to_the_missing_group() {
    let m = missing_material_record(MissingMaterial {
        code_1c: "000000009".to_string(),
        name_1c: "Клей".to_string(),
        unit: Some("кг".to_string()),
    });
    assert_eq!(m.code_1c, "000000009");
    assert_eq!(m.name, "Клей");
    assert_eq!(m.unit.as_deref(), Some("кг"));
    assert!(m.material_group_code_1c.is_some());
    assert!(m.material_category_code_1c.is_some());
    assert_ne!(m.material_group_code_1c, m.material_category_code_1c);
    assert!(m.properties.is_none());
}

fn model_row(code: &str, status: &str, group: &str, lamit: &str) -> Vec<CellValue> {
    text_row(
        44,
        &[
            (1, code),
            (2, status),
            (3, "11"),
            (4, "Коллекция"),
            (5, "12"),
            (6, "Матрас"),
            (8, "Модель"),
            (12, "70"),
            (14, "0.2"),
            (26, "120"),
            (27, "много"),
            (31, group),
            (33, lamit),
            (37, "25.5"),
            (38, ""),
            (41, "13"),
            (42, "Пружинный"),
        ],
    )
}

#[test]
fn model_row_is_read_column_by_column() {
    let row = model_row("5", "1, Выпускается", "3", "  Да ");
    let m = model_from_row(&row, &vec![3, 4]).unwrap();
    assert_eq!(m.code_1c, "000000005");
    assert_eq!(m.model_manufacture_status_id, Some(1));
    assert_eq!(m.model_manufacture_status_name.as_deref(), Some("Выпускается"));
    assert_eq!(m.model_collection_code_1c.as_deref(), Some("000000011"));
    assert_eq!(m.model_collection_name.as_deref(), Some("Коллекция"));
    assert_eq!(m.model_type_code_1c.as_deref(), Some("000000012"));
    assert_eq!(m.model_manufacture_type_code_1c.as_deref(), Some("000000013"));
    assert_eq!(m.cover_code_1c_copy.as_deref(), Some("000000070"));
    assert_eq!(m.cover_code_1c, None);
    assert_eq!(m.name, "Модель");
    assert_eq!(m.serial, None);
    assert_eq!(m.side_height.as_deref(), Some(""));
    assert_eq!(m.base_height, Decimal::new(2, 1));
    assert_eq!(m.cover_height, Decimal::ZERO);
    assert_eq!(m.load, Some(120));
    assert_eq!(m.guarantee, None);
    assert_eq!(m.model_manufacture_group_id, 3);
    assert_eq!(m.lamit, Some(true));
    assert_eq!(m.pack_density, Some(Decimal::new(255, 1)));
    assert_eq!(m.pack_weight_rb, None);
}

#[test]
fn unknown_group_becomes_zero_and_lamit_no_is_false() {
    let row = model_row("5", "", "9", "НЕТ");
    let m = model_from_row(&row, &vec![3]).unwrap();
    assert_eq!(m.model_manufacture_group_id, 0);
    assert_eq!(m.lamit, Some(false));
    assert_eq!(m.model_manufacture_status_id, None);
    assert_eq!(m.model_manufacture_status_name, None);
    let row = model_row("5", "Архив", "x", "может быть");
    let m = model_from_row(&row, &vec![0]).unwrap();
    assert_eq!(m.model_manufacture_group_id, 0);
    assert_eq!(m.lamit, None);
}

#[test]
fn status_without_number_fails_the_row() {
    let row = model_row("5", "x, Архив", "3", "");
    assert!(model_from_row(&row, &vec![3]).is_none());
}

fn model_rows() -> Vec<Vec<CellValue>> {
    vec![
        text_row(44, &[(1, "Отчет")]),
        text_row(44, &[]),
        text_row(44, &[]),
        text_row(44, &[(1, "Код")]),
        model_row("5", "1, Выпускается", "3", "да"),
        model_row("6", "2, Архив", "3", "нет"),
        model_row("5", "1, Снят", "4", ""),
        text_row(44, &[]),
        model_row("7", "3, Новый", "3", ""),
    ]
}

#[test]
fn models_report_keeps_the_last_row_of_each_code() {
    let imp = import_model_rows(&model_rows(), &vec![3, 4]).unwrap();
    assert_eq!(imp.count, 3);
    assert_eq!(imp.models.len(), 2);
    assert_eq!(imp.models[0].code_1c, "000000005");
    assert_eq!(imp.models[0].model_manufacture_group_id, 4);
    assert_eq!(imp.models[0].lamit, None);
    assert_eq!(imp.models[0].model_manufacture_status_name.as_deref(), Some("Снят"));
    assert_eq!(imp.models[1].code_1c, "000000006");
    assert_eq!(imp.models[1].lamit, Some(false));
    assert_eq!(
        imp.statuses,
        vec![(1, "Снят".to_string()), (2, "Архив".to_string())]
    );
    assert_eq!(imp.collections, vec![("000000011".to_string(), "Коллекция".to_string())]);
    assert_eq!(imp.model_types, vec![("000000012".to_string(), "Матрас".to_string())]);
    assert_eq!(
        imp.manufacture_types,
        vec![("000000013".to_string(), "Пружинный".to_string())]
    );
}

#[test]
fn models_report_fails_on_a_status_without_number() {
    let mut rows = model_rows();
    rows[5] = model_row("6", "два, Архив", "3", "");
    match import_model_rows(&rows, &vec![3]) {
        Err(ModelImportError::StatusId { row }) => assert_eq!(row, 5),
        Ok(_) => panic!("expected an error"),
    }
}

#[test]
fn short_models_report_reads_nothing() {
    let rows: Vec<Vec<CellValue>> = vec![text_row(44, &[(1, "Отчет")])];
    let imp = import_model_rows(&rows, &vec![]).unwrap();
    assert_eq!(imp.count, 0);
    assert!(imp.models.is_empty());
    assert!(imp.statuses.is_empty());
}

#[test]
fn covers_are_linked_only_to_existing_models() {
    let models = vec![
        ("000000001".to_string(), Some("000000002".to_string())),
        ("000000002".to_string(), None),
        ("000000003".to_string(), Some("000000009".to_string())),
        ("000000004".to_string(), Some("000000001".to_string())),
    ];
    assert_eq!(
        cover_links(&models),
        vec![
            ("000000001".to_string(), "000000002".to_string()),
            ("000000004".to_string(), "000000001".to_string()),
        ]
    );
}

#[test]
fn entities_split_into_updates_and_inserts() {
    let entities = vec![
        ("a".to_string(), "A".to_string()),
        ("b".to_string(), "B".to_string()),
        ("c".to_string(), "C".to_string()),
    ];
    let (known, new) = split_known_codes(&entities, &vec!["c".to_string(), "a".to_string()]);
    assert_eq!(known, vec![("a".to_string(), "A".to_string()), ("c".to_string(), "C".to_string())]);
    assert_eq!(new, vec![("b".to_string(), "B".to_string())]);
    let (known, new) = split_known_ids(&vec![(1, "x".to_string()), (2, "y".to_string())], &vec![2]);
    assert_eq!(known, vec![(2, "y".to_string())]);
    assert_eq!(new, vec![(1, "x".to_string())]);
}

fn material(code: &str, group: Option<&str>, category: Option<&str>, with_props: bool) -> Material {
    Material::new(
        group.map(|s| s.to_string()),
        category.map(|s| s.to_string()),
        code.to_string(),
        code.to_string(),
        None,
        None,
        if with_props {
            Some(vec![("Плотность".to_string(), PropertyValue::Text("25".to_string()))])
        } else {
            None
        },
    )
}

#[test]
fn materials_with_properties_are_grouped_by_category() {
    let ms = vec![
        material("m1", Some("g"), Some("c1"), true),
        material("m2", Some("g"), Some("c2"), true),
        material("m3", Some("g"), Some("c1"), true),
        material("m4", Some("g"), Some("c1"), false),
        material("c1", Some("g"), None, true),
        material("g", None, None, true),
    ];
    let lookup = get_materials_lookup(&ms);
    assert_eq!(
        lookup,
        vec![("c1".to_string(), vec![0, 2]), ("c2".to_string(), vec![1])]
    );
}

fn cutting_line(detail: Option<&str>) -> CuttingTaskLine {
    CuttingTaskLine {
        id: 1,
        cut_length: 0,
        cut_width: 0,
        cut_detail_amount: 0,
        detail: detail.map(|s| s.to_string()),
        angle: None,
    }
}

#[test]
fn cutting_lines_name_their_parts() {
    assert_eq!(cutting_line(Some("panel")).detail_kind(), Some(Detail::PanelUp));
    assert_eq!(cutting_line(Some("panel_up")).detail_kind(), Some(Detail::PanelUp));
    assert_eq!(cutting_line(Some("panel_down")).detail_kind(), Some(Detail::PanelDown));
    assert_eq!(cutting_line(Some("side")).detail_kind(), Some(Detail::Side));
    assert_eq!(cutting_line(Some("top")).detail_kind(), None);
    assert_eq!(cutting_line(None).detail_kind(), None);
    assert_eq!(output_names(Detail::Side), ("[Боковина].[Ширина]", "[Боковина].[Длина]"));
    assert_eq!(output_names(Detail::PanelDown), ("[Крышка].[Ширина]", "[Крышка].[Длина]"));
    assert!(keeps_angle(Detail::PanelUp));
    assert!(!keeps_angle(Detail::Side));
}

fn task_model(up: i64, down: i64, side: i64) -> TaskModel {
    TaskModel {
        cover_up_proc_id: up,
        cover_down_proc_id: down,
        side_proc_id: side,
        name: "M".to_string(),
        angle: None,
        base_height: None,
        cover_height: None,
    }
}

#[test]
fn models_give_their_procedures() {
    let m = task_model(10, 0, 30);
    assert_eq!(m.procedure_for(Detail::PanelUp), Some(10));
    assert_eq!(m.procedure_for(Detail::PanelDown), None);
    assert_eq!(m.procedure_for(Detail::Side), Some(30));
    let ids = procedure_ids(&vec![task_model(10, 0, 30), task_model(10, 20, 0)]);
    assert_eq!(ids, vec![10, 0, 30, 20]);
}

#[test]
fn procedure_rows_become_procedures() {
    let header = || vec![CellValue::Text("Код".to_string())];
    let rows = vec![
        header(),
        header(),
        header(),
        header(),
        vec![
            CellValue::Text("86".to_string()),
            CellValue::Text("Расчет".to_string()),
            CellValue::Text("Результат = 1".to_string()),
            CellValue::Text("7".to_string()),
            CellValue::Text("Блок".to_string()),
        ],
        vec![CellValue::Empty, CellValue::Text("Без кода".to_string())],
        vec![CellValue::Text("1234567890".to_string())],
    ];
    let ps = procedures_from_rows(&rows);
    assert_eq!(ps.len(), 2);
    assert_eq!(ps[0].code_1c, "000000086");
    assert_eq!(ps[0].name, "Расчет");
    assert_eq!(ps[0].text.as_deref(), Some("Результат = 1"));
    assert!(ps[0].text_vba.as_deref().unwrap().contains("Function"));
    assert_eq!(ps[0].object_code_1c.as_deref(), Some("000000007"));
    assert_eq!(ps[0].object_name.as_deref(), Some("Блок"));
    // Codes longer than the code length are kept whole here.
    assert_eq!(ps[1].code_1c, "1234567890");
    assert_eq!(ps[1].name, "Без названия");
    assert_eq!(ps[1].text, None);
    assert_eq!(ps[1].text_vba, None);
    assert_eq!(ps[1].object_code_1c, None);
    assert_eq!(ps[1].object_name, None);
    assert!(procedure_from_row(&vec![CellValue::Empty, CellValue::Text("x".to_string())]).is_none());
}

#[test]
fn order_rows_are_grouped_by_order_in_increasing_order() {
    let groups = group_rows_by_order(&vec![821, 820, 821, 5, 820]);
    assert_eq!(groups, vec![(5, vec![3]), (820, vec![1, 4]), (821, vec![0, 2])]);
    assert!(group_rows_by_order(&vec![]).is_empty());
}

#[test]
fn waste_is_told_by_its_name() {
    assert!(is_waste_name(&"[ШвейныеМатериалыОтход]".to_string()));
    assert!(is_waste_name(&"ОТХОД".to_string()));
    assert!(!is_waste_name(&"[ШвейныеМатериалы]".to_string()));
}

#[test]
fn names_take_the_first_scope_entry_they_hold() {
    let scope = vec!["Высота".to_string(), "Длина".to_string(), "Ширина".to_string()];
    assert_eq!(first_contained(&"[Матрас].[Длина]".to_string(), &scope), Some(1));
    assert_eq!(first_contained(&"[Матрас].[ВысотаИзСпецификации]".to_string(), &scope), Some(0));
    assert_eq!(first_contained(&"[Блок].{Плотность}".to_string(), &scope), None);
    assert_eq!(first_contained(&"x".to_string(), &vec![]), None);
}

#[test]
fn cover_selection_and_procedure_codes() {
    let names = vec![None, Some("Расчет".to_string()), Some("ПодборЧехла (основной)".to_string())];
    assert!(needs_cover(&names));
    assert!(!needs_cover(&vec![None, Some("Расчет".to_string())]));
    assert!(!needs_cover(&vec![]));
    let codes = vec![Some("3".to_string()), None, Some("1".to_string()), Some("3".to_string())];
    assert_eq!(procedure_codes(&codes), vec!["3".to_string(), "1".to_string()]);
    assert!(procedure_codes(&vec![None]).is_empty());
}
