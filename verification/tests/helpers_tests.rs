use expense_engine::helpers::{get_formatted_1c_code_string, get_formatted_unit_string};

#[test]
fn code_1c_is_padded_with_zeros() {
    assert_eq!(get_formatted_1c_code_string("123".to_string()), "000000123");
    assert_eq!(get_formatted_1c_code_string(String::new()), "");
}

#[test]
fn unit_is_normalised() {
    assert_eq!(get_formatted_unit_string("шт".to_string()), "шт.");
    assert_eq!(get_formatted_unit_string("пог. м".to_string()), "мп");
    assert_eq!(get_formatted_unit_string("мл".to_string()), "");
    assert_eq!(get_formatted_unit_string("кг".to_string()), "кг");
    assert_eq!(get_formatted_unit_string("ящик".to_string()), "ящик");
}
