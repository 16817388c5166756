use expense_engine::vba::{
    convert_to_vba, get_indent_string_by_level, get_keys_matrix, parses_as_float, push_vba_line,
    translate_line, translit_word, VbaVariables,
};

fn chars(s: &str) -> Vec<char> {
    s.chars().collect()
}

#[test]
fn simple_procedure_becomes_a_function() {
    let vba = convert_to_vba("А = 2;".to_string(), &"Блок".to_string());
    let expected = [
        "Function f_Blok() as double",
        "    Dim A as double",
        "    Dim result as double",
        "",
        "    A = 2",
        "",
        "    f_Blok = result",
        "End function",
    ]
    .join("\n");
    assert_eq!(vba, expected);
}

#[test]
fn conditional_is_translated_and_indented() {
    let text = "Если А > 1 Тогда\nБ = 2;\nКонецЕсли;".to_string();
    let vba = convert_to_vba(text, &"Тест".to_string());
    let expected = [
        "Function f_Test() as double",
        "    Dim A as double, B as double",
        "    Dim result as double",
        "",
        "    If A > 1 Then",
        "        B = 2",
        "    End If",
        "",
        "    f_Test = result",
        "End function",
    ]
    .join("\n");
    assert_eq!(vba, expected);
}

#[test]
fn declarations_go_five_to_a_line() {
    let text = "А = 1;\nБ = 1;\nВ = 1;\nГ = 1;\nД = 1;\nЕ = 1;".to_string();
    let vba = convert_to_vba(text, &"П".to_string());
    let lines: Vec<&str> = vba.lines().collect();
    assert_eq!(lines[0], "Function f_P() as double");
    assert_eq!(lines[1], "    Dim A as double, B as double, V as double, G as double, D as double");
    assert_eq!(lines[2], "    Dim E as double");
    assert_eq!(lines[3], "    Dim result as double");
}

#[test]
fn indentation_by_level() {
    assert_eq!(get_indent_string_by_level(&0), "    ");
    assert_eq!(get_indent_string_by_level(&1), "        ");
    assert_eq!(get_indent_string_by_level(&2), "            ");
    assert_eq!(get_indent_string_by_level(&3), "                ");
    assert_eq!(get_indent_string_by_level(&4), "                    ");
    assert_eq!(get_indent_string_by_level(&5), "    ");
    assert_eq!(get_indent_string_by_level(&-1), "    ");
}

#[test]
fn keys_matrix_maps_keywords_to_themselves() {
    let m = get_keys_matrix();
    assert_eq!(m.len(), 20);
    assert!(m.iter().all(|(k, v)| k == v));
    assert!(m.iter().any(|(k, _)| *k == "ElseIf"));
    assert!(m.iter().any(|(k, _)| *k == "'"));
}

#[test]
fn float_grammar() {
    for w in ["1", "1.5", ".5", "5.", "1e5", "-1E-5", "+2.5e+3", "inf", "NaN", "Infinity", "-inf"] {
        assert!(parses_as_float(&chars(w)), "{w}");
        assert!(w.parse::<f64>().is_ok(), "{w}");
    }
    for w in ["", ".", "+", "1,5", "e5", "1e", "abc", "1.2.3", "--1", "1e+", "infin"] {
        assert!(!parses_as_float(&chars(w)), "{w}");
        assert!(w.parse::<f64>().is_err(), "{w}");
    }
}

#[test]
fn transliteration() {
    let t: String = translit_word(&chars("ШиринаПолотна_1")).into_iter().collect();
    assert_eq!(t, "ShirinaPolotna_1");
    let t: String = translit_word(&chars("Объём(м)")).into_iter().collect();
    assert_eq!(t, "Obem_m_");
}

#[test]
fn longer_names_are_replaced_first_and_comments_kept() {
    let mut vars = VbaVariables::new();
    let line = translate_line("Длина = ДлинаБлока ' Длина".to_string(), &mut vars);
    assert_eq!(line, "Dlina = DlinaBloka ' Длина");
    assert_eq!(vars.len(), 2);
    let (k, v) = vars.entry(0);
    assert_eq!((k.as_str(), v.as_str()), ("Длина", "Dlina"));
}

#[test]
fn line_keywords_and_operators() {
    let mut lines: Vec<String> = Vec::new();
    let mut vars = VbaVariables::new();
    push_vba_line("ИначеЕсли А>=1 и Б<>2 Тогда // заметка", &mut lines, &mut vars);
    assert_eq!(lines, vec!["ElseIf A >= 1 And B < > 2 Then ' заметка"]);
    push_vba_line("Б=Окр(А*2, 1);", &mut lines, &mut vars);
    assert_eq!(lines[1], "B = Round(A * 2, 1) ");
}
