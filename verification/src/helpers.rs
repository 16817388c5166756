//! Normalisation of 1C codes and units of measure (procedures and
//! materials importer).

use vstd::prelude::*;
use crate::text::{from_chars, is_literal, pad_left_chars, pad_left_spec, repeat_char, to_chars};
use crate::constants::CODE_1C_LENGTH;

verus! {

/// A 1C code padded on the left with zeros to the code length; the empty
/// code stays empty.
pub open spec fn code_1c_spec(s: Seq<char>) -> Seq<char> {
    if s.len() == 0 {
        s
    } else {
        pad_left_spec(s, '0', CODE_1C_LENGTH as nat)
    }
}

/// Returns the 1C code brought to its normal form.
pub fn get_formatted_1c_code_string(raw_code: String) -> (r: String)
    ensures
        r@ == code_1c_spec(raw_code@),
{
    let v = to_chars(raw_code.as_str());
    if v.len() == 0 {
        raw_code
    } else {
        from_chars(&pad_left_chars(&v, '0', CODE_1C_LENGTH))
    }
}

/// The normal form of a unit of measure.
pub open spec fn unit_spec(s: Seq<char>) -> Seq<char> {
    if s == "кг"@ {
        "кг"@
    } else if s == "м2"@ {
        "м2"@
    } else if s == "м п"@ || s == "пог. м"@ {
        "мп"@
    } else if s == "шт"@ {
        "шт."@
    } else if s == "упак"@ {
        "упак."@
    } else if s == "м"@ {
        "м"@
    } else if s == "рул"@ {
        "рул."@
    } else if s == "боб"@ {
        "боб."@
    } else if s == "л"@ {
        "л"@
    } else if s == "компл"@ {
        "компл."@
    } else if s == "мл"@ {
        ""@
    } else if s == "м3"@ {
        "м3"@
    } else {
        s
    }
}

/// Normal form of a unit of measure, as a character vector.
pub fn unit_chars(v: &Vec<char>) -> (r: String)
    ensures
        r@ == unit_spec(v@),
{
    if is_literal(v, "кг") {
        String::from_str("кг")
    } else if is_literal(v, "м2") {
        String::from_str("м2")
    } else if is_literal(v, "м п") || is_literal(v, "пог. м") {
        String::from_str("мп")
    } else if is_literal(v, "шт") {
        String::from_str("шт.")
    } else if is_literal(v, "упак") {
        String::from_str("упак.")
    } else if is_literal(v, "м") {
        String::from_str("м")
    } else if is_literal(v, "рул") {
        String::from_str("рул.")
    } else if is_literal(v, "боб") {
        String::from_str("боб.")
    } else if is_literal(v, "л") {
        String::from_str("л")
    } else if is_literal(v, "компл") {
        String::from_str("компл.")
    } else if is_literal(v, "мл") {
        String::from_str("")
    } else if is_literal(v, "м3") {
        String::from_str("м3")
    } else {
        from_chars(v)
    }
}

/// Returns the unit of measure brought to its normal form.
pub fn get_formatted_unit_string(raw_code: String) -> (r: String)
    ensures
        r@ == unit_spec(raw_code@),
{
    let v = to_chars(raw_code.as_str());
    unit_chars(&v)
}

} // verus!

verus! {

/// Normalising a 1C code that is already normal changes nothing.
pub proof fn law_code_1c_idempotent(s: Seq<char>)
    ensures
        code_1c_spec(code_1c_spec(s)) == code_1c_spec(s),
{
}

/// A normalised non-empty code is at least as long as the code length and
/// ends with the raw code: normalising only adds zeros in front.
pub proof fn law_code_1c_keeps_code(s: Seq<char>)
    requires
        s.len() > 0,
    ensures
        code_1c_spec(s).len() >= CODE_1C_LENGTH,
        code_1c_spec(s).skip(code_1c_spec(s).len() - s.len()) == s,
        forall|i: int| 0 <= i < code_1c_spec(s).len() - s.len() ==> code_1c_spec(s)[i] == '0',
{
    if s.len() < CODE_1C_LENGTH {
        let pad = repeat_char('0', (CODE_1C_LENGTH - s.len()) as nat);
        assert((pad + s).skip(pad.len() as int) == s);
    } else {
        assert(s.skip(0) == s);
    }
}

/// Normalising a unit that is already normal changes nothing.
pub proof fn law_unit_idempotent(s: Seq<char>)
    ensures
        unit_spec(unit_spec(s)) == unit_spec(s),
{
    reveal_strlit("кг");
    reveal_strlit("м2");
    reveal_strlit("м п");
    reveal_strlit("пог. м");
    reveal_strlit("мп");
    reveal_strlit("шт");
    reveal_strlit("шт.");
    reveal_strlit("упак");
    reveal_strlit("упак.");
    reveal_strlit("м");
    reveal_strlit("рул");
    reveal_strlit("рул.");
    reveal_strlit("боб");
    reveal_strlit("боб.");
    reveal_strlit("л");
    reveal_strlit("компл");
    reveal_strlit("компл.");
    reveal_strlit("мл");
    reveal_strlit("");
    reveal_strlit("м3");
    assert(unit_spec("кг"@) == "кг"@);
    assert(unit_spec("м2"@) == "м2"@) by {
        assert("м2"@[0] != "кг"@[0]);
    }
    assert(unit_spec("мп"@) == "мп"@) by {
        assert("мп"@.len() != "м п"@.len());
        assert("мп"@[1] != "м2"@[1]);
        assert("мп"@[1] != "мл"@[1]);
        assert("мп"@[1] != "м3"@[1]);
        assert("мп"@[0] != "кг"@[0]);
        assert("мп"@[0] != "шт"@[0]);
    }
    assert(unit_spec("шт."@) == "шт."@) by {
        assert("шт."@[0] != "м п"@[0]);
        assert("шт."@[0] != "рул"@[0]);
        assert("шт."@[0] != "боб"@[0]);
    }
    assert(unit_spec("упак."@) == "упак."@) by {
        assert("упак."@[0] != "компл"@[0]);
    }
    assert(unit_spec("рул."@) == "рул."@) by {
        assert("рул."@[0] != "упак"@[0]);
    }
    assert(unit_spec("боб."@) == "боб."@) by {
        assert("боб."@[0] != "упак"@[0]);
    }
    assert(unit_spec("компл."@) == "компл."@) by {
        assert("компл."@[0] != "пог. м"@[0]);
    }
    assert(unit_spec("м"@) == "м"@);
    assert(unit_spec("л"@) == "л"@);
    assert(unit_spec(""@) == ""@);
    assert(unit_spec("м3"@) == "м3"@) by {
        assert("м3"@[1] != "м2"@[1]);
        assert("м3"@[1] != "мл"@[1]);
        assert("м3"@[0] != "кг"@[0]);
        assert("м3"@[0] != "шт"@[0]);
    }
}

/// The units of 1C in their normal forms: `шт` is `шт.`, `м п` and `пог. м`
/// are `мп`, `мл` is dropped, the short forms of packs, rolls, bobbins and
/// sets get their dot; any other unit is kept as it is.
pub proof fn law_unit_table(s: Seq<char>)
    ensures
        unit_spec("кг"@) == "кг"@,
        unit_spec("м2"@) == "м2"@,
        unit_spec("м п"@) == "мп"@,
        unit_spec("пог. м"@) == "мп"@,
        unit_spec("шт"@) == "шт."@,
        unit_spec("упак"@) == "упак."@,
        unit_spec("м"@) == "м"@,
        unit_spec("рул"@) == "рул."@,
        unit_spec("боб"@) == "боб."@,
        unit_spec("л"@) == "л"@,
        unit_spec("компл"@) == "компл."@,
        unit_spec("мл"@) == ""@,
        unit_spec("м3"@) == "м3"@,
        s != "кг"@ && s != "м2"@ && s != "м п"@ && s != "пог. м"@ && s != "шт"@ && s != "упак"@
            && s != "м"@ && s != "рул"@ && s != "боб"@ && s != "л"@ && s != "компл"@ && s != "мл"@
            && s != "м3"@ ==> unit_spec(s) == s,
{
    reveal_strlit("кг");
    reveal_strlit("м2");
    reveal_strlit("м п");
    reveal_strlit("пог. м");
    reveal_strlit("шт");
    reveal_strlit("упак");
    reveal_strlit("м");
    reveal_strlit("рул");
    reveal_strlit("боб");
    reveal_strlit("л");
    reveal_strlit("компл");
    reveal_strlit("мл");
    reveal_strlit("м3");
    assert("кг"@.len() == 2);
    assert("м2"@.len() == 2);
    assert("м п"@.len() == 3);
    assert("пог. м"@.len() == 6);
    assert("шт"@.len() == 2);
    assert("упак"@.len() == 4);
    assert("м"@.len() == 1);
    assert("рул"@.len() == 3);
    assert("боб"@.len() == 3);
    assert("л"@.len() == 1);
    assert("компл"@.len() == 5);
    assert("мл"@.len() == 2);
    assert("м3"@.len() == 2);
    assert("м2"@[0] != "кг"@[0]);
    assert("шт"@[0] != "кг"@[0]);
    assert("шт"@[0] != "м2"@[0]);
    assert("рул"@[0] != "м п"@[0]);
    assert("боб"@[0] != "м п"@[0]);
    assert("боб"@[0] != "рул"@[0]);
    assert("л"@[0] != "м"@[0]);
    assert("мл"@[0] != "кг"@[0]);
    assert("мл"@[1] != "м2"@[1]);
    assert("мл"@[0] != "шт"@[0]);
    assert("м3"@[0] != "кг"@[0]);
    assert("м3"@[1] != "м2"@[1]);
    assert("м3"@[0] != "шт"@[0]);
    assert("м3"@[1] != "мл"@[1]);
}

} // verus!
