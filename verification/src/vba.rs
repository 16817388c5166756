//! Translation of 1C procedures into VBA functions.
//!
//! Russian keywords become VBA ones, names are transliterated into Latin
//! letters and declared as `double`, and the lines are indented by the
//! depth of `If` blocks.

use vstd::prelude::*;
use crate::interpreter::lexer::{str_byte_len, utf8_len};
use crate::interpreter::prepare::string_views;
use crate::text::{
    append_chars, contains_chars, join_chars, join_spec, lines_chars, lines_spec, lowercase_chars,
    occurs_at, occurs_at_exec, replace_str, spec_to_lowercase, trim_chars, trim_spec, contains_spec, find_char, from_chars, index_of,
    lemma_index_of_bounds, replace_chars, replace_spec, replace_str_while, replace_while_spec,
    subvec, to_chars, views, words_chars, words_spec,
};

verus! {

/// The number of VBA keywords.
pub const VBA_KEY_COUNT: usize = 20;

/// The Latin letters for a character of a name; `None` for a character
/// kept as it is.
pub open spec fn translit_char_spec(c: char) -> Option<Seq<char>> {
    if c == ' ' || c == '(' || c == ')' || c == '-' || c == '+' {
        Some("_"@)
    } else if c == 'а' {
        Some("a"@)
    } else if c == 'А' {
        Some("A"@)
    } else if c == 'б' {
        Some("b"@)
    } else if c == 'Б' {
        Some("B"@)
    } else if c == 'в' {
        Some("v"@)
    } else if c == 'В' {
        Some("V"@)
    } else if c == 'г' {
        Some("g"@)
    } else if c == 'Г' {
        Some("G"@)
    } else if c == 'д' {
        Some("d"@)
    } else if c == 'Д' {
        Some("D"@)
    } else if c == 'е' || c == 'ё' || c == 'э' {
        Some("e"@)
    } else if c == 'Е' || c == 'Ё' || c == 'Э' {
        Some("E"@)
    } else if c == 'ж' {
        Some("zh"@)
    } else if c == 'Ж' {
        Some("ZH"@)
    } else if c == 'з' {
        Some("z"@)
    } else if c == 'З' {
        Some("Z"@)
    } else if c == 'и' {
        Some("i"@)
    } else if c == 'И' {
        Some("I"@)
    } else if c == 'й' {
        Some("j"@)
    } else if c == 'Й' {
        Some("J"@)
    } else if c == 'к' {
        Some("k"@)
    } else if c == 'К' {
        Some("K"@)
    } else if c == 'л' {
        Some("l"@)
    } else if c == 'Л' {
        Some("L"@)
    } else if c == 'м' {
        Some("m"@)
    } else if c == 'М' {
        Some("M"@)
    } else if c == 'н' {
        Some("n"@)
    } else if c == 'Н' {
        Some("N"@)
    } else if c == 'о' {
        Some("o"@)
    } else if c == 'О' {
        Some("O"@)
    } else if c == 'п' {
        Some("p"@)
    } else if c == 'П' {
        Some("P"@)
    } else if c == 'р' {
        Some("r"@)
    } else if c == 'Р' {
        Some("R"@)
    } else if c == 'с' {
        Some("s"@)
    } else if c == 'С' {
        Some("S"@)
    } else if c == 'т' {
        Some("t"@)
    } else if c == 'Т' {
        Some("T"@)
    } else if c == 'у' {
        Some("u"@)
    } else if c == 'У' {
        Some("U"@)
    } else if c == 'ф' {
        Some("f"@)
    } else if c == 'Ф' {
        Some("F"@)
    } else if c == 'х' {
        Some("h"@)
    } else if c == 'Х' {
        Some("H"@)
    } else if c == 'ц' {
        Some("c"@)
    } else if c == 'Ц' {
        Some("C"@)
    } else if c == 'ч' {
        Some("ch"@)
    } else if c == 'Ч' {
        Some("Ch"@)
    } else if c == 'ш' {
        Some("sh"@)
    } else if c == 'Ш' {
        Some("Sh"@)
    } else if c == 'щ' {
        Some("shch"@)
    } else if c == 'Щ' {
        Some("SHCH"@)
    } else if c == 'ъ' || c == 'ь' || c == 'Ъ' || c == 'Ь' {
        Some(""@)
    } else if c == 'ы' {
        Some("y"@)
    } else if c == 'Ы' {
        Some("Y"@)
    } else if c == 'ю' {
        Some("yu"@)
    } else if c == 'Ю' {
        Some("YU"@)
    } else if c == 'я' {
        Some("ya"@)
    } else if c == 'Я' {
        Some("YA"@)
    } else {
        None
    }
}

/// The Latin letters for `c`.
fn translit_piece(c: char) -> (r: Option<&'static str>)
    ensures
        match r {
            Some(s) => translit_char_spec(c) == Some(s@),
            None => translit_char_spec(c) is None,
        },
{
    if c == ' ' || c == '(' || c == ')' || c == '-' || c == '+' {
        Some("_")
    } else if c == 'а' {
        Some("a")
    } else if c == 'А' {
        Some("A")
    } else if c == 'б' {
        Some("b")
    } else if c == 'Б' {
        Some("B")
    } else if c == 'в' {
        Some("v")
    } else if c == 'В' {
        Some("V")
    } else if c == 'г' {
        Some("g")
    } else if c == 'Г' {
        Some("G")
    } else if c == 'д' {
        Some("d")
    } else if c == 'Д' {
        Some("D")
    } else if c == 'е' || c == 'ё' || c == 'э' {
        Some("e")
    } else if c == 'Е' || c == 'Ё' || c == 'Э' {
        Some("E")
    } else if c == 'ж' {
        Some("zh")
    } else if c == 'Ж' {
        Some("ZH")
    } else if c == 'з' {
        Some("z")
    } else if c == 'З' {
        Some("Z")
    } else if c == 'и' {
        Some("i")
    } else if c == 'И' {
        Some("I")
    } else if c == 'й' {
        Some("j")
    } else if c == 'Й' {
        Some("J")
    } else if c == 'к' {
        Some("k")
    } else if c == 'К' {
        Some("K")
    } else if c == 'л' {
        Some("l")
    } else if c == 'Л' {
        Some("L")
    } else if c == 'м' {
        Some("m")
    } else if c == 'М' {
        Some("M")
    } else if c == 'н' {
        Some("n")
    } else if c == 'Н' {
        Some("N")
    } else if c == 'о' {
        Some("o")
    } else if c == 'О' {
        Some("O")
    } else if c == 'п' {
        Some("p")
    } else if c == 'П' {
        Some("P")
    } else if c == 'р' {
        Some("r")
    } else if c == 'Р' {
        Some("R")
    } else if c == 'с' {
        Some("s")
    } else if c == 'С' {
        Some("S")
    } else if c == 'т' {
        Some("t")
    } else if c == 'Т' {
        Some("T")
    } else if c == 'у' {
        Some("u")
    } else if c == 'У' {
        Some("U")
    } else if c == 'ф' {
        Some("f")
    } else if c == 'Ф' {
        Some("F")
    } else if c == 'х' {
        Some("h")
    } else if c == 'Х' {
        Some("H")
    } else if c == 'ц' {
        Some("c")
    } else if c == 'Ц' {
        Some("C")
    } else if c == 'ч' {
        Some("ch")
    } else if c == 'Ч' {
        Some("Ch")
    } else if c == 'ш' {
        Some("sh")
    } else if c == 'Ш' {
        Some("Sh")
    } else if c == 'щ' {
        Some("shch")
    } else if c == 'Щ' {
        Some("SHCH")
    } else if c == 'ъ' || c == 'ь' || c == 'Ъ' || c == 'Ь' {
        Some("")
    } else if c == 'ы' {
        Some("y")
    } else if c == 'Ы' {
        Some("Y")
    } else if c == 'ю' {
        Some("yu")
    } else if c == 'Ю' {
        Some("YU")
    } else if c == 'я' {
        Some("ya")
    } else if c == 'Я' {
        Some("YA")
    } else {
        None
    }
}

/// Keyword `i` of VBA, as the translation knows them.
pub open spec fn vba_key_spec(i: int) -> Seq<char> {
    if i == 0 {
        "If"@
    } else if i == 1 {
        "Then"@
    } else if i == 2 {
        "ElseIf"@
    } else if i == 3 {
        "End"@
    } else if i == 4 {
        "Else"@
    } else if i == 5 {
        "Not"@
    } else if i == 6 {
        "Or"@
    } else if i == 7 {
        "And"@
    } else if i == 8 {
        "Round"@
    } else if i == 9 {
        "Fix"@
    } else if i == 10 {
        "="@
    } else if i == 11 {
        ">"@
    } else if i == 12 {
        "<"@
    } else if i == 13 {
        "-"@
    } else if i == 14 {
        "+"@
    } else if i == 15 {
        "*"@
    } else if i == 16 {
        "/"@
    } else if i == 17 {
        "'"@
    } else if i == 18 {
        "("@
    } else {
        ")"@
    }
}

/// Keyword `i` of VBA.
fn vba_key(i: usize) -> (r: &'static str)
    requires
        i < VBA_KEY_COUNT,
    ensures
        r@ == vba_key_spec(i as int),
{
    if i == 0 {
        "If"
    } else if i == 1 {
        "Then"
    } else if i == 2 {
        "ElseIf"
    } else if i == 3 {
        "End"
    } else if i == 4 {
        "Else"
    } else if i == 5 {
        "Not"
    } else if i == 6 {
        "Or"
    } else if i == 7 {
        "And"
    } else if i == 8 {
        "Round"
    } else if i == 9 {
        "Fix"
    } else if i == 10 {
        "="
    } else if i == 11 {
        ">"
    } else if i == 12 {
        "<"
    } else if i == 13 {
        "-"
    } else if i == 14 {
        "+"
    } else if i == 15 {
        "*"
    } else if i == 16 {
        "/"
    } else if i == 17 {
        "'"
    } else if i == 18 {
        "("
    } else {
        ")"
    }
}

/// Whether `w` is a VBA keyword.
pub open spec fn is_vba_key(w: Seq<char>) -> bool {
    exists|i: int| 0 <= i < VBA_KEY_COUNT && #[trigger] vba_key_spec(i) == w
}

/// The keywords of VBA, each mapped to itself.
pub fn get_keys_matrix() -> (r: Vec<(&'static str, &'static str)>)
    ensures
        r@.len() == VBA_KEY_COUNT,
        forall|i: int| 0 <= i < VBA_KEY_COUNT ==> (#[trigger] r@[i]).0@ == vba_key_spec(i) && r@[i].1@
            == vba_key_spec(i),
{
    let mut r: Vec<(&'static str, &'static str)> = Vec::new();
    let mut i: usize = 0;
    while i < VBA_KEY_COUNT
        invariant
            i <= VBA_KEY_COUNT,
            r@.len() == i,
            forall|j: int| 0 <= j < i ==> (#[trigger] r@[j]).0@ == vba_key_spec(j) && r@[j].1@
                == vba_key_spec(j),
        decreases VBA_KEY_COUNT - i,
    {
        let k = vba_key(i);
        r.push((k, k));
        i += 1;
    }
    r
}

/// Whether `w` is a key of `matrix`.
fn is_key(matrix: &Vec<(&'static str, &'static str)>, w: &Vec<char>) -> (b: bool)
    requires
        matrix@.len() == VBA_KEY_COUNT,
        forall|i: int| 0 <= i < VBA_KEY_COUNT ==> (#[trigger] matrix@[i]).0@ == vba_key_spec(i),
    ensures
        b == is_vba_key(w@),
{
    let mut i: usize = 0;
    while i < matrix.len()
        invariant
            i <= matrix@.len() == VBA_KEY_COUNT,
            forall|k: int| 0 <= k < VBA_KEY_COUNT ==> (#[trigger] matrix@[k]).0@ == vba_key_spec(k),
            forall|k: int| 0 <= k < i ==> vba_key_spec(k) != w@,
        decreases matrix.len() - i,
    {
        let key = to_chars(matrix[i].0);
        if crate::text::eq_chars(&key, w) {
            assert(vba_key_spec(i as int) == w@);
            return true;
        }
        i += 1;
    }
    false
}

/// The Latin form of a name: each character transliterated.
pub open spec fn translit_word_spec(w: Seq<char>) -> Seq<char>
    decreases w.len(),
{
    if w.len() == 0 {
        seq![]
    } else {
        translit_word_spec(w.drop_last()) + match translit_char_spec(w.last()) {
            Some(s) => s,
            None => seq![w.last()],
        }
    }
}

/// The Latin form of a name.
pub fn translit_word(w: &Vec<char>) -> (r: Vec<char>)
    ensures
        r@ == translit_word_spec(w@),
{
    let mut out: Vec<char> = Vec::new();
    let mut i: usize = 0;
    while i < w.len()
        invariant
            i <= w.len(),
            out@ == translit_word_spec(w@.take(i as int)),
        decreases w.len() - i,
    {
        assert(w@.take(i + 1).drop_last() == w@.take(i as int));
        match translit_piece(w[i]) {
            Some(s) => {
                append_chars(&mut out, &to_chars(s));
            },
            None => {
                out.push(w[i]);
            },
        }
        i += 1;
    }
    assert(w@.take(w.len() as int) == w@);
    out
}

/// Whether `c` is an ASCII digit.
pub open spec fn is_digit(c: char) -> bool {
    '0' <= c <= '9'
}

/// Whether all characters of `s` are digits.
pub open spec fn all_digits(s: Seq<char>) -> bool {
    forall|i: int| 0 <= i < s.len() ==> is_digit(#[trigger] s[i])
}

/// `s` without one leading sign.
pub open spec fn unsigned(s: Seq<char>) -> Seq<char> {
    if s.len() > 0 && (s[0] == '+' || s[0] == '-') {
        s.drop_first()
    } else {
        s
    }
}

/// `c` in ASCII lower case.
pub open spec fn ascii_lower(c: char) -> char {
    if 'A' <= c <= 'Z' {
        ((c as u32) + 32) as char
    } else {
        c
    }
}

/// Whether `s` equals `lit` up to ASCII case.
pub open spec fn eq_ignore_case(s: Seq<char>, lit: Seq<char>) -> bool {
    s.len() == lit.len() && forall|i: int| 0 <= i < s.len() ==> ascii_lower(#[trigger] s[i]) == lit[i]
}

/// Digits with at most one point among them, and at least one digit.
pub open spec fn is_mantissa(m: Seq<char>) -> bool {
    let d = index_of(m, '.');
    if d < m.len() {
        m.len() >= 2 && all_digits(m.take(d)) && all_digits(m.skip(d + 1))
    } else {
        m.len() >= 1 && all_digits(m)
    }
}

/// `e` or `E`, an optional sign and at least one digit.
pub open spec fn is_exponent(x: Seq<char>) -> bool {
    x.len() >= 2 && (x[0] == 'e' || x[0] == 'E') && unsigned(x.drop_first()).len() >= 1
        && all_digits(unsigned(x.drop_first()))
}

/// The index of the first `e` or `E` of `s`, or `s.len()`.
pub open spec fn index_of_exp(s: Seq<char>) -> int {
    let a = index_of(s, 'e');
    let b = index_of(s, 'E');
    if a < b {
        a
    } else {
        b
    }
}

/// Whether `s` is a decimal number with an optional exponent.
pub open spec fn is_number_text(s: Seq<char>) -> bool {
    let e = index_of_exp(s);
    if e < s.len() {
        is_mantissa(s.take(e)) && is_exponent(s.skip(e))
    } else {
        is_mantissa(s)
    }
}

/// Whether `s` is accepted by `f64::from_str`, whose documentation gives
/// the grammar: an optional sign, then `inf`, `infinity`, `nan` (in any
/// case) or digits with an optional point and an optional exponent.
pub open spec fn is_float_literal(s: Seq<char>) -> bool {
    let u = unsigned(s);
    eq_ignore_case(u, "inf"@) || eq_ignore_case(u, "infinity"@) || eq_ignore_case(u, "nan"@)
        || is_number_text(u)
}

/// Whether all characters of `v` from `a` to `b` are digits.
fn digits_between(v: &Vec<char>, a: usize, b: usize) -> (r: bool)
    requires
        a <= b <= v.len(),
    ensures
        r == all_digits(v@.subrange(a as int, b as int)),
{
    let mut i = a;
    while i < b
        invariant
            a <= i <= b <= v.len(),
            forall|k: int| a <= k < i ==> is_digit(v@[k]),
        decreases b - i,
    {
        if !('0' <= v[i] && v[i] <= '9') {
            assert(!is_digit(v@.subrange(a as int, b as int)[i - a]));
            return false;
        }
        i += 1;
    }
    assert forall|k: int| 0 <= k < b - a implies is_digit(
        #[trigger] v@.subrange(a as int, b as int)[k],
    ) by {
        assert(v@.subrange(a as int, b as int)[k] == v@[a + k]);
    }
    true
}

/// `c` in ASCII lower case.
fn lower_ascii(c: char) -> (r: char)
    ensures
        r == ascii_lower(c),
{
    if 'A' <= c && c <= 'Z' {
        let u = (c as u32) + 32;
        assert(0x61 <= u <= 0x7a);
        char_from_ascii(u)
    } else {
        c
    }
}

/// The ASCII character with code `u`.
fn char_from_ascii(u: u32) -> (c: char)
    requires
        0x61 <= u <= 0x7a,
    ensures
        c == u as char,
{
    let b = u as u8;
    b as char
}

/// Whether the characters of `v` from `a` on equal `lit` up to ASCII case.
fn eq_ignore_case_from(v: &Vec<char>, a: usize, lit: &str) -> (r: bool)
    requires
        a <= v.len(),
    ensures
        r == eq_ignore_case(v@.skip(a as int), lit@),
{
    let l = to_chars(lit);
    if v.len() - a != l.len() {
        return false;
    }
    let mut i: usize = 0;
    while i < l.len()
        invariant
            a + l.len() == v.len(),
            l@ == lit@,
            i <= l.len(),
            forall|k: int| 0 <= k < i ==> ascii_lower(v@[a + k]) == l@[k],
        decreases l.len() - i,
    {
        if lower_ascii(v[a + i]) != l[i] {
            assert(ascii_lower(v@.skip(a as int)[i as int]) != lit@[i as int]);
            return false;
        }
        i += 1;
    }
    assert forall|k: int| 0 <= k < v@.skip(a as int).len() implies ascii_lower(
        #[trigger] v@.skip(a as int)[k],
    ) == lit@[k] by {
        assert(v@.skip(a as int)[k] == v@[a + k]);
    }
    true
}

/// Whether the characters of `v` from `a` to `b` form digits with at most
/// one point and at least one digit.
fn mantissa_between(v: &Vec<char>, a: usize, b: usize) -> (r: bool)
    requires
        a <= b <= v.len(),
    ensures
        r == is_mantissa(v@.subrange(a as int, b as int)),
{
    let part = subvec(v, a, b);
    let d = find_char(&part, '.', 0);
    proof {
        assert(part@.skip(0) == part@);
        lemma_index_of_bounds(part@, '.');
    }
    if d < part.len() {
        part.len() >= 2 && digits_between(&part, 0, d) && digits_between(&part, d + 1, part.len())
    } else {
        part.len() >= 1 && digits_between(&part, 0, part.len())
    }
}

/// Whether `w` is accepted by `f64::from_str`, by the grammar of its
/// documentation.
#[verifier::spinoff_prover]
#[verifier::rlimit(40)]
pub fn parses_as_float(w: &Vec<char>) -> (r: bool)
    ensures
        r == is_float_literal(w@),
{
    let start: usize = if w.len() > 0 && (w[0] == '+' || w[0] == '-') {
        1
    } else {
        0
    };
    let ghost u = unsigned(w@);
    assert(u == w@.skip(start as int));
    if eq_ignore_case_from(w, start, "inf") || eq_ignore_case_from(w, start, "infinity")
        || eq_ignore_case_from(w, start, "nan") {
        return true;
    }
    let a = find_char(w, 'e', start);
    let b = find_char(w, 'E', start);
    let e = if a < b {
        a
    } else {
        b
    };
    proof {
        lemma_index_of_bounds(u, 'e');
        lemma_index_of_bounds(u, 'E');
    }
    assert(e - start == index_of_exp(u));
    assert(e < w.len() ==> (w@[e as int] == 'e' || w@[e as int] == 'E')) by {
        if e < w.len() {
            assert(w@[e as int] == u[e - start]);
        }
    }
    if e < w.len() {
        if !mantissa_between(w, start, e) {
            assert(u.take(e - start) == w@.subrange(start as int, e as int));
            return false;
        }
        assert(u.take(e - start) == w@.subrange(start as int, e as int));
        let ghost x = u.skip(e - start);
        assert(x == w@.skip(e as int));
        if w.len() - e < 2 {
            return false;
        }
        let s2: usize = if w[e + 1] == '+' || w[e + 1] == '-' {
            e + 2
        } else {
            e + 1
        };
        assert(unsigned(x.drop_first()) == w@.subrange(s2 as int, w.len() as int));
        w.len() - s2 >= 1 && digits_between(w, s2, w.len())
    } else {
        assert(u == w@.subrange(start as int, w.len() as int));
        mantissa_between(w, start, w.len())
    }
}


/// The pairs of strings as views.
pub open spec fn pairs_view(v: Seq<(String, String)>) -> Seq<(Seq<char>, Seq<char>)> {
    v.map_values(|e: (String, String)| (e.0@, e.1@))
}

/// Whether no two entries of `m` have the same key.
pub open spec fn distinct_keys<K, V>(m: Seq<(K, V)>) -> bool {
    forall|a: int, b: int| 0 <= a < b < m.len() ==> #[trigger] m[a].0 != #[trigger] m[b].0
}

/// The index of the first entry of `m` with key `k`, or `m.len()`.
pub open spec fn key_index<K, V>(m: Seq<(K, V)>, k: K) -> int
    decreases m.len(),
{
    if m.len() == 0 {
        0
    } else if m[0].0 == k {
        0
    } else {
        1 + key_index(m.drop_first(), k)
    }
}

pub proof fn lemma_key_index_bounds<K, V>(m: Seq<(K, V)>, k: K)
    ensures
        0 <= key_index(m, k) <= m.len(),
        key_index(m, k) < m.len() ==> m[key_index(m, k)].0 == k,
        forall|j: int| 0 <= j < key_index(m, k) ==> m[j].0 != k,
    decreases m.len(),
{
    if m.len() > 0 && m[0].0 != k {
        lemma_key_index_bounds(m.drop_first(), k);
        assert forall|j: int| 0 <= j < key_index(m, k) implies m[j].0 != k by {
            if j > 0 {
                assert(m[j] == m.drop_first()[j - 1]);
            }
        }
    }
}

/// `m` with the value of `k` set to `v`: in place when `k` is a key,
/// at the end otherwise.
pub open spec fn upsert<K, V>(m: Seq<(K, V)>, k: K, v: V) -> Seq<(K, V)> {
    let i = key_index(m, k);
    if i < m.len() {
        m.update(i, (k, v))
    } else {
        m.push((k, v))
    }
}

/// Sets the value of `k` among `entries`: in place when `k` is a key, at
/// the end otherwise.
pub fn upsert_pair(entries: &mut Vec<(String, String)>, k: String, v: String)
    ensures
        pairs_view(final(entries)@) == upsert(pairs_view(old(entries)@), k@, v@),
{
    proof {
        lemma_key_index_bounds(pairs_view(entries@), k@);
    }
    let mut i: usize = 0;
    while i < entries.len()
        invariant
            i <= entries@.len(),
            entries@ == old(entries)@,
            forall|j: int| 0 <= j < i ==> pairs_view(entries@)[j].0 != k@,
        decreases entries.len() - i,
    {
        if entries[i].0 == k {
            assert(key_index(pairs_view(entries@), k@) == i) by {
                lemma_key_index_bounds(pairs_view(entries@), k@);
                assert(pairs_view(entries@)[i as int].0 == k@);
            }
            let ghost before = entries@;
            entries.set(i, (k, v));
            assert(pairs_view(entries@) == pairs_view(before).update(i as int, (k@, v@)));
            return;
        }
        i += 1;
    }
    proof {
        lemma_key_index_bounds(pairs_view(old(entries)@), k@);
        assert(key_index(pairs_view(old(entries)@), k@) == old(entries)@.len()) by {
            let ki = key_index(pairs_view(old(entries)@), k@);
            if ki < old(entries)@.len() {
                assert(pairs_view(entries@)[ki].0 != k@);
            }
        }
    }
    let ghost before = entries@;
    let ghost kv = k@;
    let ghost vv = v@;
    entries.push((k, v));
    assert(pairs_view(entries@) == pairs_view(before).push((kv, vv)));
}

/// The names of a procedure and their Latin forms, in the order in which
/// they were first met.
pub struct VbaVariables {
    entries: Vec<(String, String)>,
}

impl View for VbaVariables {
    type V = Seq<(Seq<char>, Seq<char>)>;

    closed spec fn view(&self) -> Seq<(Seq<char>, Seq<char>)> {
        pairs_view(self.entries@)
    }
}

impl VbaVariables {
    /// No names.
    pub fn new() -> (r: Self)
        ensures
            r@ == Seq::<(Seq<char>, Seq<char>)>::empty(),
    {
        VbaVariables { entries: Vec::new() }
    }

    /// Forgets all names.
    pub fn clear(&mut self)
        ensures
            final(self)@ == Seq::<(Seq<char>, Seq<char>)>::empty(),
    {
        self.entries.clear();
        assert(pairs_view(self.entries@) == Seq::<(Seq<char>, Seq<char>)>::empty());
    }

    /// The number of names.
    pub fn len(&self) -> (r: usize)
        ensures
            r == self@.len(),
    {
        self.entries.len()
    }

    /// Entry `i`: a name and its Latin form.
    pub fn entry(&self, i: usize) -> (r: (&String, &String))
        requires
            i < self@.len(),
        ensures
            (r.0@, r.1@) == self@[i as int],
    {
        (&self.entries[i].0, &self.entries[i].1)
    }

    /// Sets the Latin form of `name`.
    pub fn insert(&mut self, name: String, latin: String)
        ensures
            final(self)@ == upsert(old(self)@, name@, latin@),
    {
        upsert_pair(&mut self.entries, name, latin);
    }
}

/// The names a line declares, added to `m`: the words up to the first one
/// holding a quote (a comment), less numbers and keywords, each with its
/// Latin form.
pub open spec fn collect_vars(words: Seq<Seq<char>>, m: Seq<(Seq<char>, Seq<char>)>) -> Seq<
    (Seq<char>, Seq<char>),
>
    decreases words.len(),
{
    if words.len() == 0 {
        m
    } else {
        let w = words[0];
        if contains_spec(w, seq!['\'']) {
            m
        } else if is_float_literal(w) || is_vba_key(w) {
            collect_vars(words.drop_first(), m)
        } else {
            collect_vars(words.drop_first(), upsert(m, w, translit_word_spec(w)))
        }
    }
}

/// Where an entry whose key has `len` bytes goes in a list sorted by
/// decreasing key length: after every entry at least as long.
pub open spec fn insert_pos(s: Seq<(Seq<char>, Seq<char>)>, len: nat) -> int
    decreases s.len(),
{
    if s.len() == 0 {
        0
    } else if utf8_len(s.last().0) >= len {
        s.len() as int
    } else {
        insert_pos(s.drop_last(), len)
    }
}

/// `m` sorted by decreasing byte length of the keys, entries of equal
/// length in their order in `m` (a stable sort).
pub open spec fn sort_by_len(m: Seq<(Seq<char>, Seq<char>)>) -> Seq<(Seq<char>, Seq<char>)>
    decreases m.len(),
{
    if m.len() == 0 {
        m
    } else {
        let s = sort_by_len(m.drop_last());
        s.insert(insert_pos(s, utf8_len(m.last().0)), m.last())
    }
}

/// `s` with `p` replaced by `r` before the first quote, the comment after
/// it kept.
pub open spec fn replace_before_quote(s: Seq<char>, p: Seq<char>, r: Seq<char>) -> Seq<char> {
    let i = index_of(s, '\'');
    replace_spec(s.take(i), p, r) + s.skip(i)
}

/// Each name of `pairs` replaced in turn by its Latin form.
pub open spec fn apply_replacements(s: Seq<char>, pairs: Seq<(Seq<char>, Seq<char>)>) -> Seq<char>
    decreases pairs.len(),
{
    if pairs.len() == 0 {
        s
    } else {
        apply_replacements(replace_before_quote(s, pairs[0].0, pairs[0].1), pairs.drop_first())
    }
}

proof fn lemma_sort_len(m: Seq<(Seq<char>, Seq<char>)>)
    ensures
        sort_by_len(m).len() == m.len(),
    decreases m.len(),
{
    if m.len() > 0 {
        lemma_sort_len(m.drop_last());
        lemma_insert_pos_bounds(sort_by_len(m.drop_last()), utf8_len(m.last().0));
    }
}

proof fn lemma_insert_pos_bounds(s: Seq<(Seq<char>, Seq<char>)>, len: nat)
    ensures
        0 <= insert_pos(s, len) <= s.len(),
    decreases s.len(),
{
    if s.len() > 0 {
        lemma_insert_pos_bounds(s.drop_last(), len);
    }
}

/// The entries of `vars` sorted by decreasing byte length of the keys.
fn sorted_by_len(vars: &VbaVariables) -> (r: Vec<(String, String)>)
    ensures
        pairs_view(r@) == sort_by_len(vars@),
{
    let mut sorted: Vec<(String, String)> = Vec::new();
    let mut lens: Vec<usize> = Vec::new();
    let mut i: usize = 0;
    while i < vars.len()
        invariant
            i <= vars@.len(),
            pairs_view(sorted@) == sort_by_len(vars@.take(i as int)),
            lens@.len() == sorted@.len(),
            forall|k: int| 0 <= k < lens@.len() ==> lens@[k] == utf8_len(#[trigger] sorted@[k].0@),
        decreases vars@.len() - i,
    {
        let (k, v) = vars.entry(i);
        let lk = str_byte_len(k.as_str());
        let ghost s = pairs_view(sorted@);
        let mut j: usize = sorted.len();
        assert(vars@.take(i + 1).drop_last() == vars@.take(i as int));
        assert(s.take(j as int) == s);
        while j > 0 && lens[j - 1] < lk
            invariant
                j <= sorted@.len() == lens@.len(),
                s == pairs_view(sorted@),
                forall|k: int| 0 <= k < lens@.len() ==> lens@[k] == utf8_len(#[trigger] sorted@[k].0@),
                insert_pos(s, lk as nat) == insert_pos(s.take(j as int), lk as nat),
            decreases j,
        {
            assert(s.take(j as int).drop_last() == s.take(j - 1));
            assert(s.take(j as int).last() == s[j - 1]);
            j -= 1;
        }
        proof {
            if j > 0 {
                assert(s.take(j as int).last() == s[j - 1]);
            }
        }
        assert(insert_pos(s, lk as nat) == j);
        let ghost old_sorted = sorted@;
        let ghost old_lens = lens@;
        sorted.insert(j, (k.clone(), v.clone()));
        lens.insert(j, lk);
        assert(pairs_view(sorted@) == s.insert(j as int, (k@, v@)));
        assert forall|m: int| 0 <= m < lens@.len() implies lens@[m] == utf8_len(
            #[trigger] sorted@[m].0@,
        ) by {
            if m < j {
                assert(sorted@[m] == old_sorted[m] && lens@[m] == old_lens[m]);
            } else if m > j {
                assert(sorted@[m] == old_sorted[m - 1] && lens@[m] == old_lens[m - 1]);
            }
        }
        i += 1;
    }
    assert(vars@.take(vars@.len() as int) == vars@);
    sorted
}


/// The words of a line once runs of two spaces are collapsed.
pub open spec fn line_words(s: Seq<char>) -> Seq<Seq<char>> {
    words_spec(replace_while_spec(s, "  "@, " "@))
}

/// Collects the names of a line into `vars` (the words up to a comment,
/// less numbers and keywords, with their Latin forms), then replaces in
/// the line, before any comment, each known name by its Latin form, the
/// longest names first.
pub fn translate_line(russian_line: String, vars: &mut VbaVariables) -> (r: String)
    ensures
        final(vars)@ == collect_vars(line_words(russian_line@), old(vars)@),
        r@ == apply_replacements(russian_line@, sort_by_len(final(vars)@)),
{
    let dictionary = get_keys_matrix();
    let line = to_chars(russian_line.as_str());
    let collapsed = replace_str_while(to_chars(russian_line.as_str()), "  ", " ");
    let words = words_chars(&collapsed);
    let ghost ws = line_words(russian_line@);
    assert(views(words@) == ws);
    let quote: Vec<char> = vec!['\''];
    assert(quote@ == seq!['\'']);
    let mut i: usize = 0;
    assert(ws.skip(0) == ws);
    while i < words.len() && !contains_chars(&words[i], &quote)
        invariant
            i <= words@.len(),
            views(words@) == ws,
            quote@ == seq!['\''],
            dictionary@.len() == VBA_KEY_COUNT,
            forall|j: int| 0 <= j < VBA_KEY_COUNT ==> (#[trigger] dictionary@[j]).0@ == vba_key_spec(j),
            collect_vars(ws, old(vars)@) == collect_vars(ws.skip(i as int), vars@),
        decreases words@.len() - i,
    {
        let w = &words[i];
        assert(ws.skip(i as int)[0] == w@);
        assert(ws.skip(i as int).drop_first() == ws.skip(i + 1));
        if !parses_as_float(w) && !is_key(&dictionary, w) {
            let t = translit_word(w);
            vars.insert(from_chars(w), from_chars(&t));
        }
        i += 1;
    }
    proof {
        if i < words@.len() {
            assert(ws.skip(i as int)[0] == words@[i as int]@);
        }
    }
    let sorted = sorted_by_len(vars);
    let ghost pairs = sort_by_len(vars@);
    let mut result = line;
    let mut k: usize = 0;
    assert(pairs.skip(0) == pairs);
    proof {
        lemma_sort_len(vars@);
    }
    while k < sorted.len()
        invariant
            k <= sorted@.len() == pairs.len(),
            pairs_view(sorted@) == pairs,
            apply_replacements(russian_line@, pairs) == apply_replacements(
                result@,
                pairs.skip(k as int),
            ),
        decreases sorted@.len() - k,
    {
        let key = to_chars(sorted[k].0.as_str());
        let val = to_chars(sorted[k].1.as_str());
        assert(pairs.skip(k as int)[0] == (key@, val@));
        assert(pairs.skip(k as int).drop_first() == pairs.skip(k + 1));
        let q = find_char(&result, '\'', 0);
        assert(result@.skip(0) == result@);
        let head = subvec(&result, 0, q);
        let tail = subvec(&result, q, result.len());
        let mut replaced = replace_chars(&head, &key, &val);
        append_chars(&mut replaced, &tail);
        assert(replaced@ == replace_before_quote(result@, key@, val@));
        result = replaced;
        k += 1;
    }
    assert(pairs.skip(k as int).len() == 0);
    from_chars(&result)
}

/// The number of replacements made on a line before its names are translated.
pub const BEFORE_RULE_COUNT: usize = 28;

/// Rule `i` of the replacements made on a line before its names are translated: a pattern and its replacement.
pub open spec fn before_rule_spec(i: int) -> (Seq<char>, Seq<char>) {
    if i == 0 {
        ("//"@, "' "@)
    } else if i == 1 {
        (";"@, ""@)
    } else if i == 2 {
        ("/t"@, ""@)
    } else if i == 3 {
        ("\t"@, ""@)
    } else if i == 4 {
        ("\u{A0}"@, " "@)
    } else if i == 5 {
        ("ИначеЕсли"@, "ElseIf"@)
    } else if i == 6 {
        ("Иначе"@, "Else"@)
    } else if i == 7 {
        ("КонецЕсли"@, "End If"@)
    } else if i == 8 {
        ("Если"@, "If"@)
    } else if i == 9 {
        ("Тогда"@, "Then"@)
    } else if i == 10 {
        ("тогда"@, "Then"@)
    } else if i == 11 {
        (" не "@, " Not "@)
    } else if i == 12 {
        (" или "@, " Or "@)
    } else if i == 13 {
        (" и "@, " And "@)
    } else if i == 14 {
        ("Окр"@, "Round"@)
    } else if i == 15 {
        ("ОКР"@, "Round"@)
    } else if i == 16 {
        ("Цел"@, "Fix"@)
    } else if i == 17 {
        ("ЦЕЛ"@, "Fix"@)
    } else if i == 18 {
        ("="@, " = "@)
    } else if i == 19 {
        (">"@, " > "@)
    } else if i == 20 {
        ("<"@, " < "@)
    } else if i == 21 {
        ("-"@, " - "@)
    } else if i == 22 {
        ("+"@, " + "@)
    } else if i == 23 {
        ("*"@, " * "@)
    } else if i == 24 {
        ("/"@, " / "@)
    } else if i == 25 {
        ("("@, " ( "@)
    } else if i == 26 {
        (")"@, " ) "@)
    } else {
        (","@, ", "@)
    }
}

/// The replacements made on a line before its names are translated, in order.
pub open spec fn before_rules() -> Seq<(Seq<char>, Seq<char>)> {
    Seq::new(BEFORE_RULE_COUNT as nat, |i: int| before_rule_spec(i))
}

/// Rule `i` of the replacements made on a line before its names are translated.
fn before_rule(i: usize) -> (r: (&'static str, &'static str))
    requires
        i < BEFORE_RULE_COUNT,
    ensures
        r.0@ == before_rule_spec(i as int).0,
        r.1@ == before_rule_spec(i as int).1,
{
    if i == 0 {
        ("//", "' ")
    } else if i == 1 {
        (";", "")
    } else if i == 2 {
        ("/t", "")
    } else if i == 3 {
        ("\t", "")
    } else if i == 4 {
        ("\u{A0}", " ")
    } else if i == 5 {
        ("ИначеЕсли", "ElseIf")
    } else if i == 6 {
        ("Иначе", "Else")
    } else if i == 7 {
        ("КонецЕсли", "End If")
    } else if i == 8 {
        ("Если", "If")
    } else if i == 9 {
        ("Тогда", "Then")
    } else if i == 10 {
        ("тогда", "Then")
    } else if i == 11 {
        (" не ", " Not ")
    } else if i == 12 {
        (" или ", " Or ")
    } else if i == 13 {
        (" и ", " And ")
    } else if i == 14 {
        ("Окр", "Round")
    } else if i == 15 {
        ("ОКР", "Round")
    } else if i == 16 {
        ("Цел", "Fix")
    } else if i == 17 {
        ("ЦЕЛ", "Fix")
    } else if i == 18 {
        ("=", " = ")
    } else if i == 19 {
        (">", " > ")
    } else if i == 20 {
        ("<", " < ")
    } else if i == 21 {
        ("-", " - ")
    } else if i == 22 {
        ("+", " + ")
    } else if i == 23 {
        ("*", " * ")
    } else if i == 24 {
        ("/", " / ")
    } else if i == 25 {
        ("(", " ( ")
    } else if i == 26 {
        (")", " ) ")
    } else {
        (",", ", ")
    }
}

/// The number of replacements repeated on a translated line while their pattern occurs.
pub const TIDY_RULE_COUNT: usize = 6;

/// Rule `i` of the replacements repeated on a translated line while their pattern occurs: a pattern and its replacement.
pub open spec fn tidy_rule_spec(i: int) -> (Seq<char>, Seq<char>) {
    if i == 0 {
        ("  "@, " "@)
    } else if i == 1 {
        ("( "@, "("@)
    } else if i == 2 {
        (" )"@, ")"@)
    } else if i == 3 {
        ("> ="@, ">="@)
    } else if i == 4 {
        ("< ="@, "<="@)
    } else {
        (" , "@, ", "@)
    }
}

/// The replacements repeated on a translated line while their pattern occurs, in order.
pub open spec fn tidy_rules() -> Seq<(Seq<char>, Seq<char>)> {
    Seq::new(TIDY_RULE_COUNT as nat, |i: int| tidy_rule_spec(i))
}

/// Rule `i` of the replacements repeated on a translated line while their pattern occurs.
fn tidy_rule(i: usize) -> (r: (&'static str, &'static str))
    requires
        i < TIDY_RULE_COUNT,
    ensures
        r.0@ == tidy_rule_spec(i as int).0,
        r.1@ == tidy_rule_spec(i as int).1,
{
    if i == 0 {
        ("  ", " ")
    } else if i == 1 {
        ("( ", "(")
    } else if i == 2 {
        (" )", ")")
    } else if i == 3 {
        ("> =", ">=")
    } else if i == 4 {
        ("< =", "<=")
    } else {
        (" , ", ", ")
    }
}

/// The number of replacements that join a function name to its parenthesis.
pub const CALL_RULE_COUNT: usize = 2;

/// Rule `i` of the replacements that join a function name to its parenthesis: a pattern and its replacement.
pub open spec fn call_rule_spec(i: int) -> (Seq<char>, Seq<char>) {
    if i == 0 {
        ("Round ("@, "Round("@)
    } else {
        ("Fix ("@, "Fix("@)
    }
}

/// The replacements that join a function name to its parenthesis, in order.
pub open spec fn call_rules() -> Seq<(Seq<char>, Seq<char>)> {
    Seq::new(CALL_RULE_COUNT as nat, |i: int| call_rule_spec(i))
}

/// Rule `i` of the replacements that join a function name to its parenthesis.
fn call_rule(i: usize) -> (r: (&'static str, &'static str))
    requires
        i < CALL_RULE_COUNT,
    ensures
        r.0@ == call_rule_spec(i as int).0,
        r.1@ == call_rule_spec(i as int).1,
{
    if i == 0 {
        ("Round (", "Round(")
    } else {
        ("Fix (", "Fix(")
    }
}

/// The number of replacements that make a procedure's name a VBA identifier.
pub const NAME_RULE_COUNT: usize = 11;

/// Rule `i` of the replacements that make a procedure's name a VBA identifier: a pattern and its replacement.
pub open spec fn name_rule_spec(i: int) -> (Seq<char>, Seq<char>) {
    if i == 0 {
        ("  "@, " "@)
    } else if i == 1 {
        (" "@, "_"@)
    } else if i == 2 {
        ("*"@, "_"@)
    } else if i == 3 {
        ("?"@, "_"@)
    } else if i == 4 {
        ("/"@, "_"@)
    } else if i == 5 {
        ("\\"@, "_"@)
    } else if i == 6 {
        (","@, "_"@)
    } else if i == 7 {
        ("("@, "_"@)
    } else if i == 8 {
        (")"@, "_"@)
    } else if i == 9 {
        ("+"@, "_"@)
    } else {
        ("-"@, "_"@)
    }
}

/// The replacements that make a procedure's name a VBA identifier, in order.
pub open spec fn name_rules() -> Seq<(Seq<char>, Seq<char>)> {
    Seq::new(NAME_RULE_COUNT as nat, |i: int| name_rule_spec(i))
}

/// Rule `i` of the replacements that make a procedure's name a VBA identifier.
fn name_rule(i: usize) -> (r: (&'static str, &'static str))
    requires
        i < NAME_RULE_COUNT,
    ensures
        r.0@ == name_rule_spec(i as int).0,
        r.1@ == name_rule_spec(i as int).1,
{
    if i == 0 {
        ("  ", " ")
    } else if i == 1 {
        (" ", "_")
    } else if i == 2 {
        ("*", "_")
    } else if i == 3 {
        ("?", "_")
    } else if i == 4 {
        ("/", "_")
    } else if i == 5 {
        ("\\", "_")
    } else if i == 6 {
        (",", "_")
    } else if i == 7 {
        ("(", "_")
    } else if i == 8 {
        (")", "_")
    } else if i == 9 {
        ("+", "_")
    } else {
        ("-", "_")
    }
}


/// The rules applied in turn, each once.
pub open spec fn apply_rules(s: Seq<char>, rules: Seq<(Seq<char>, Seq<char>)>) -> Seq<char>
    decreases rules.len(),
{
    if rules.len() == 0 {
        s
    } else {
        apply_rules(replace_spec(s, rules[0].0, rules[0].1), rules.drop_first())
    }
}

/// The rules applied in turn, each while its pattern occurs.
pub open spec fn apply_rules_while(s: Seq<char>, rules: Seq<(Seq<char>, Seq<char>)>) -> Seq<char>
    decreases rules.len(),
{
    if rules.len() == 0 {
        s
    } else {
        apply_rules_while(replace_while_spec(s, rules[0].0, rules[0].1), rules.drop_first())
    }
}

/// A line before its names are translated: comments, keywords and
/// operators made VBA, operators spaced out.
pub open spec fn vba_line_before(s: Seq<char>) -> Seq<char> {
    apply_rules(s, before_rules())
}

/// A translated line tidied: runs of spaces collapsed, the spaces inside
/// parentheses, in `>=`, `<=` and before commas removed, functions joined
/// to their parenthesis.
pub open spec fn vba_line_after(s: Seq<char>) -> Seq<char> {
    apply_rules(apply_rules_while(s, tidy_rules()), call_rules())
}

/// A line of a procedure in VBA, and the names known after it.
pub open spec fn push_line_spec(line: Seq<char>, vars: Seq<(Seq<char>, Seq<char>)>) -> (
    Seq<char>,
    Seq<(Seq<char>, Seq<char>)>,
) {
    let pre = vba_line_before(line);
    let known = collect_vars(line_words(pre), vars);
    (vba_line_after(apply_replacements(pre, sort_by_len(known))), known)
}

/// Turns a line of a procedure into VBA and appends it to `vba_lines_vector`;
/// the names the line declares are added to `vba_procedure_vars`.
pub fn push_vba_line(
    vba_line: &str,
    vba_lines_vector: &mut Vec<String>,
    vba_procedure_vars: &mut VbaVariables,
)
    ensures
        string_views(final(vba_lines_vector)@) == string_views(old(vba_lines_vector)@).push(
            push_line_spec(vba_line@, old(vba_procedure_vars)@).0,
        ),
        final(vba_procedure_vars)@ == push_line_spec(vba_line@, old(vba_procedure_vars)@).1,
{
    let mut line = to_chars(vba_line);
    let mut i: usize = 0;
    assert(before_rules().skip(0) == before_rules());
    while i < BEFORE_RULE_COUNT
        invariant
            i <= BEFORE_RULE_COUNT,
            vba_line_before(vba_line@) == apply_rules(line@, before_rules().skip(i as int)),
        decreases BEFORE_RULE_COUNT - i,
    {
        let (p, r) = before_rule(i);
        assert(before_rules().skip(i as int).drop_first() == before_rules().skip(i + 1));
        line = replace_str(&line, p, r);
        i += 1;
    }
    let translated = translate_line(from_chars(&line), vba_procedure_vars);
    let mut out = to_chars(translated.as_str());
    let mut k: usize = 0;
    assert(tidy_rules().skip(0) == tidy_rules());
    while k < TIDY_RULE_COUNT
        invariant
            k <= TIDY_RULE_COUNT,
            apply_rules_while(translated@, tidy_rules()) == apply_rules_while(
                out@,
                tidy_rules().skip(k as int),
            ),
        decreases TIDY_RULE_COUNT - k,
    {
        let (p, r) = tidy_rule(k);
        assert(tidy_rules().skip(k as int).drop_first() == tidy_rules().skip(k + 1));
        out = replace_str_while(out, p, r);
        k += 1;
    }
    let mut m: usize = 0;
    assert(call_rules().skip(0) == call_rules());
    while m < CALL_RULE_COUNT
        invariant
            m <= CALL_RULE_COUNT,
            vba_line_after(translated@) == apply_rules(out@, call_rules().skip(m as int)),
        decreases CALL_RULE_COUNT - m,
    {
        let (p, r) = call_rule(m);
        assert(call_rules().skip(m as int).drop_first() == call_rules().skip(m + 1));
        out = replace_str(&out, p, r);
        m += 1;
    }
    let ghost before = vba_lines_vector@;
    vba_lines_vector.push(from_chars(&out));
    assert(string_views(vba_lines_vector@) == string_views(before).push(out@));
}


/// `x` brought into the range of `i8` as wrapping arithmetic does, for
/// `x` one step outside it at most.
pub open spec fn wrap_i8(x: int) -> i8 {
    if x > 127 {
        (x - 256) as i8
    } else if x < -128 {
        (x + 256) as i8
    } else {
        x as i8
    }
}

/// `l - 1`, wrapping.
fn dec_level(l: i8) -> (r: i8)
    ensures
        r == wrap_i8(l - 1),
{
    if l == i8::MIN {
        i8::MAX
    } else {
        l - 1
    }
}

/// `l + 1`, wrapping.
fn inc_level(l: i8) -> (r: i8)
    ensures
        r == wrap_i8(l + 1),
{
    if l == i8::MAX {
        i8::MIN
    } else {
        l + 1
    }
}

/// The indentation of a line at depth `level`: four spaces a level, from
/// four (depth 0 and out of range) to twenty (depth 4).
pub open spec fn indent_spec(level: i8) -> Seq<char> {
    if level == 1 {
        "        "@
    } else if level == 2 {
        "            "@
    } else if level == 3 {
        "                "@
    } else if level == 4 {
        "                    "@
    } else {
        "    "@
    }
}

/// The indentation of a line at depth `indent_level`.
pub fn get_indent_string_by_level(indent_level: &i8) -> (r: &'static str)
    ensures
        r@ == indent_spec(*indent_level),
{
    if *indent_level == 1 {
        return "        ";
    } else if *indent_level == 2 {
        return "            ";
    } else if *indent_level == 3 {
        return "                ";
    } else if *indent_level == 4 {
        return "                    ";
    }
    "    "
}

/// The depth after a line and the line indented: `End If` closes a
/// block and is indented at the outer depth, a line with `else` is
/// indented one level out, `If ... Then` opens a block and is indented at
/// the outer depth.
pub open spec fn indent_step(level: i8, line: Seq<char>) -> (i8, Seq<char>) {
    let low = spec_to_lowercase(line);
    if contains_spec(low, "end if"@) {
        let l = wrap_i8(level - 1);
        (l, indent_spec(l) + line)
    } else if contains_spec(low, "else"@) {
        (level, indent_spec(wrap_i8(level - 1)) + line)
    } else if occurs_at(low, "if "@, 0) && contains_spec(low, " then"@) {
        let l = wrap_i8(level + 1);
        (l, indent_spec(wrap_i8(l - 1)) + line)
    } else {
        (level, indent_spec(level) + line)
    }
}

/// The first `n` lines indented, and the depth after them.
pub open spec fn indent_lines(lines: Seq<Seq<char>>, n: int) -> (i8, Seq<Seq<char>>)
    decreases n,
{
    if n <= 0 {
        (0, seq![])
    } else {
        let (level, out) = indent_lines(lines, n - 1);
        let (l, line) = indent_step(level, lines[n - 1]);
        (l, out.push(line))
    }
}

/// Whether line `i` is kept: a blank line is kept only when the next line
/// exists and is not blank.
pub open spec fn keeps_line(lines: Seq<Seq<char>>, i: int) -> bool {
    lines[i].len() > 0 || (i + 1 < lines.len() && lines[i + 1].len() > 0)
}

/// The first `n` lines turned into VBA, and the names known after them.
pub open spec fn push_lines(lines: Seq<Seq<char>>, n: int) -> (
    Seq<Seq<char>>,
    Seq<(Seq<char>, Seq<char>)>,
)
    decreases n,
{
    if n <= 0 {
        (seq![], seq![])
    } else {
        let (out, vars) = push_lines(lines, n - 1);
        if keeps_line(lines, n - 1) {
            let (line, known) = push_line_spec(lines[n - 1], vars);
            (out.push(line), known)
        } else {
            (out, vars)
        }
    }
}

/// Whether a Latin name is declared: names with `.`, `[` or `]` are
/// parameters and outputs, not variables.
pub open spec fn is_declared(v: Seq<char>) -> bool {
    !contains_spec(v, seq!['.']) && !contains_spec(v, seq!['[']) && !contains_spec(v, seq![']'])
}

/// The Latin names to declare, in order.
pub open spec fn declared(vars: Seq<(Seq<char>, Seq<char>)>) -> Seq<Seq<char>>
    decreases vars.len(),
{
    if vars.len() == 0 {
        seq![]
    } else if is_declared(vars.last().1) {
        declared(vars.drop_last()).push(vars.last().1)
    } else {
        declared(vars.drop_last())
    }
}

/// `    Dim ` followed by each name and ` as double, `.
pub open spec fn dim_text(names: Seq<Seq<char>>) -> Seq<char>
    decreases names.len(),
{
    if names.len() == 0 {
        "    Dim "@
    } else {
        dim_text(names.drop_last()) + names.last() + " as double, "@
    }
}

/// A declaration of some names: `    Dim a as double, b as double`.
pub open spec fn dim_line(names: Seq<Seq<char>>) -> Seq<char> {
    dim_text(names).drop_last().drop_last()
}

/// The number of names declared on one line.
pub const VARS_PER_LINE: usize = 5;

/// The declarations of `names`, five to a line.
pub open spec fn dim_lines(names: Seq<Seq<char>>) -> Seq<Seq<char>>
    decreases names.len(),
{
    if names.len() == 0 {
        seq![]
    } else if names.len() <= VARS_PER_LINE {
        seq![dim_line(names)]
    } else {
        seq![dim_line(names.take(VARS_PER_LINE as int))] + dim_lines(
            names.skip(VARS_PER_LINE as int),
        )
    }
}

/// The name of the VBA function of a procedure.
pub open spec fn vba_name(procedure_name: Seq<char>) -> Seq<char> {
    apply_rules(push_line_spec(procedure_name, seq![]).0, name_rules())
}

/// The lines of a procedure's text, without the white space around them.
pub open spec fn trimmed_lines(text: Seq<char>) -> Seq<Seq<char>> {
    lines_spec(text).map_values(|l: Seq<char>| trim_spec(l))
}

/// The whole VBA function of a procedure, line by line.
pub open spec fn vba_function_lines(text: Seq<char>, procedure_name: Seq<char>) -> Seq<Seq<char>> {
    let name = vba_name(procedure_name);
    let lines = trimmed_lines(text);
    let (body, vars) = push_lines(lines, lines.len() as int);
    seq!["Function f_"@ + name + "() as double"@] + dim_lines(declared(vars)) + seq![
        "    Dim result as double"@,
        ""@,
    ] + indent_lines(body, body.len() as int).1 + seq![
        ""@,
        "    f_"@ + name + " = result"@,
        "End function"@,
    ]
}

/// The VBA function of a procedure.
pub open spec fn convert_to_vba_spec(text: Seq<char>, procedure_name: Seq<char>) -> Seq<char> {
    join_spec(vba_function_lines(text, procedure_name), seq!['\n'])
}

proof fn lemma_dim_lines_append(a: Seq<Seq<char>>, g: Seq<Seq<char>>)
    requires
        a.len() % (VARS_PER_LINE as nat) == 0,
        1 <= g.len() <= VARS_PER_LINE,
    ensures
        dim_lines(a + g) == dim_lines(a).push(dim_line(g)),
    decreases a.len(),
{
    if a.len() == 0 {
        assert(a + g == g);
    } else {
        let n = a.len();
        assert(n >= 5 && (n - 5) % 5 == 0) by (nonlinear_arith)
            requires
                n % 5 == 0,
                n > 0,
        ;
        assert((a + g).take(VARS_PER_LINE as int) == a.take(VARS_PER_LINE as int));
        assert((a + g).skip(VARS_PER_LINE as int) == a.skip(VARS_PER_LINE as int) + g);
        lemma_dim_lines_append(a.skip(VARS_PER_LINE as int), g);
        if n == 5 {
            assert(a.take(5) == a);
            assert(a.skip(5).len() == 0);
            assert(a.skip(5) + g == g);
        }
    }
}


/// The lines of a procedure's text without the white space around them.
fn trimmed_lines_exec(text: &str) -> (r: Vec<Vec<char>>)
    ensures
        views(r@) == trimmed_lines(text@),
{
    let chars = to_chars(text);
    let raw = lines_chars(&chars);
    let ghost t = trimmed_lines(text@);
    let mut lines: Vec<Vec<char>> = Vec::new();
    let mut i: usize = 0;
    while i < raw.len()
        invariant
            i <= raw@.len(),
            views(raw@) == lines_spec(text@),
            t == trimmed_lines(text@),
            views(lines@) == t.take(i as int),
        decreases raw@.len() - i,
    {
        let l = trim_chars(&raw[i]);
        assert(t.take(i + 1) == t.take(i as int).push(l@));
        assert(views(lines@.push(l)) == views(lines@).push(l@));
        lines.push(l);
        i += 1;
    }
    assert(t.take(raw@.len() as int) == t);
    lines
}

/// The name of the VBA function of a procedure.
fn vba_name_exec(procedure_name: &String) -> (r: Vec<char>)
    ensures
        r@ == vba_name(procedure_name@),
{
    let mut vba_vector: Vec<String> = Vec::new();
    let mut vars = VbaVariables::new();
    push_vba_line(procedure_name.as_str(), &mut vba_vector, &mut vars);
    assert(string_views(vba_vector@).len() == 1);
    let ghost before = vba_vector@;
    assert(string_views(before)[0] == before[0]@);
    let first = match vba_vector.pop() {
        Some(l) => l,
        None => String::from_str("no_name"),
    };
    assert(first@ == push_line_spec(procedure_name@, seq![]).0);
    let mut name = to_chars(first.as_str());
    let mut i: usize = 0;
    assert(name_rules().skip(0) == name_rules());
    while i < NAME_RULE_COUNT
        invariant
            i <= NAME_RULE_COUNT,
            vba_name(procedure_name@) == apply_rules(name@, name_rules().skip(i as int)),
        decreases NAME_RULE_COUNT - i,
    {
        let (p, r) = name_rule(i);
        assert(name_rules().skip(i as int).drop_first() == name_rules().skip(i + 1));
        name = replace_str(&name, p, r);
        i += 1;
    }
    name
}

/// Appends the characters of `s` to `v`.
fn append_str(v: &mut Vec<char>, s: &str)
    ensures
        final(v)@ == old(v)@ + s@,
{
    append_chars(v, &to_chars(s));
}

/// The characters of `a`, then those of `b`, then those of `c`.
fn concat3(a: &str, b: &Vec<char>, c: &str) -> (r: Vec<char>)
    ensures
        r@ == a@ + b@ + c@,
{
    let mut v = to_chars(a);
    append_chars(&mut v, b);
    append_str(&mut v, c);
    v
}

/// Translates a procedure of 1C into a VBA function named after it: one
/// line per line of the procedure (runs of blank lines kept as one, a
/// final blank line dropped), its variables declared as `double`, the
/// blocks indented, and `result` returned.
pub fn convert_to_vba(excel_text: String, procedure_name: &String) -> (r: String)
    ensures
        r@ == convert_to_vba_spec(excel_text@, procedure_name@),
{
    let lines = trimmed_lines_exec(excel_text.as_str());
    let ghost ls = trimmed_lines(excel_text@);
    let name = vba_name_exec(procedure_name);
    let mut vba_vector: Vec<String> = Vec::new();
    let mut vba_variables = VbaVariables::new();
    let n = lines.len();
    let mut idx: usize = 0;
    while idx < n
        invariant
            n == lines@.len(),
            views(lines@) == ls,
            idx <= n,
            (string_views(vba_vector@), vba_variables@) == push_lines(ls, idx as int),
        decreases n - idx,
    {
        assert(lines@[idx as int]@ == ls[idx as int]);
        let keep = lines[idx].len() > 0 || (idx + 1 < n && lines[idx + 1].len() > 0);
        proof {
            if idx + 1 < n {
                assert(lines@[idx + 1]@ == ls[idx + 1]);
            }
        }
        assert(keep == keeps_line(ls, idx as int));
        if keep {
            let line = from_chars(&lines[idx]);
            push_vba_line(line.as_str(), &mut vba_vector, &mut vba_variables);
        }
        idx += 1;
    }
    let ghost body = string_views(vba_vector@);
    let ghost vars = vba_variables@;
    let mut result: Vec<Vec<char>> = Vec::new();
    result.push(concat3("Function f_", &name, "() as double"));
    let ghost head = seq!["Function f_"@ + vba_name(procedure_name@) + "() as double"@];
    assert(views(result@) == head);
    let mut var = to_chars("    Dim ");
    let mut count: usize = 0;
    let mut i: usize = 0;
    assert(declared(vars.take(0)) == Seq::<Seq<char>>::empty());
    while i < vba_variables.len()
        invariant
            vars == vba_variables@,
            i <= vars.len(),
            count < VARS_PER_LINE,
            count <= declared(vars.take(i as int)).len(),
            (declared(vars.take(i as int)).len() - count) % (VARS_PER_LINE as int) == 0,
            views(result@) == head + dim_lines(
                declared(vars.take(i as int)).take(declared(vars.take(i as int)).len() - count),
            ),
            var@ == dim_text(declared(vars.take(i as int)).skip(declared(vars.take(i as int)).len() - count)),
        decreases vars.len() - i,
    {
        let ghost d = declared(vars.take(i as int));
        assert(vars.take(i + 1).drop_last() == vars.take(i as int));
        let (_, lat) = vba_variables.entry(i);
        let lv = to_chars(lat.as_str());
        let dot: Vec<char> = vec!['.'];
        let open_b: Vec<char> = vec!['['];
        let close_b: Vec<char> = vec![']'];
        assert(dot@ == seq!['.'] && open_b@ == seq!['['] && close_b@ == seq![']']);
        if !contains_chars(&lv, &dot) && !contains_chars(&lv, &open_b) && !contains_chars(
            &lv,
            &close_b,
        ) {
            let ghost d2 = d.push(lv@);
            assert(declared(vars.take(i + 1)) == d2);
            assert(d2.skip(d2.len() - (count + 1)) == d.skip(d.len() - count).push(lv@));
            assert(d2.take(d2.len() - (count + 1)) == d.take(d.len() - count));
            let ghost gp = d.skip(d.len() - count);
            assert(gp.push(lv@).drop_last() == gp);
            assert(dim_text(gp.push(lv@)) == dim_text(gp) + lv@ + " as double, "@);
            append_chars(&mut var, &lv);
            append_str(&mut var, " as double, ");
            assert(var@ == dim_text(gp.push(lv@)));
            count = count + 1;
            if count >= VARS_PER_LINE {
                let ghost g = d2.skip(d2.len() - count);
                proof {
                    lemma_dim_lines_append(d2.take(d2.len() - count), g);
                    assert(d2.take(d2.len() - count) + g == d2);
                    assert(d2.take(d2.len() as int) == d2);
                    assert(d2.skip(d2.len() as int) == Seq::<Seq<char>>::empty());
                }
                proof {
                    reveal_strlit(" as double, ");
                }
                assert(var@ == dim_text(g));
                var.pop();
                var.pop();
                assert(var@ == dim_line(g));
                let ghost r0 = views(result@);
                result.push(var);
                assert(views(result@) == r0.push(dim_line(g)));
                var = to_chars("    Dim ");
                count = 0;
            }
        } else {
            assert(declared(vars.take(i + 1)) == d);
        }
        i += 1;
    }
    assert(vars.take(vars.len() as int) == vars);
    let ghost dall = declared(vars);
    if count > 0 {
        let ghost g = dall.skip(dall.len() - count);
        proof {
            lemma_dim_lines_append(dall.take(dall.len() - count), g);
            assert(dall.take(dall.len() - count) + g == dall);
        }
        proof {
            reveal_strlit(" as double, ");
            assert(g.len() > 0);
            assert(g.drop_last().push(g.last()) == g);
        }
        assert(var@ == dim_text(g));
        var.pop();
        var.pop();
        let ghost r0 = views(result@);
        result.push(var);
        assert(views(result@) == r0.push(dim_line(g)));
    } else {
        assert(dall.take(dall.len() as int) == dall);
    }
    assert(views(result@) == head + dim_lines(dall));
    let ghost r1 = views(result@);
    result.push(to_chars("    Dim result as double"));
    result.push(to_chars(""));
    assert(views(result@) == r1 + seq!["    Dim result as double"@, ""@]);
    let ghost r2 = views(result@);
    let mut level: i8 = 0;
    let mut j: usize = 0;
    while j < vba_vector.len()
        invariant
            j <= vba_vector@.len(),
            body == string_views(vba_vector@),
            (level, views(result@).skip(r2.len() as int)) == indent_lines(body, j as int),
            views(result@).take(r2.len() as int) == r2,
            views(result@).len() >= r2.len(),
        decreases vba_vector@.len() - j,
    {
        let line = to_chars(vba_vector[j].as_str());
        assert(line@ == body[j as int]);
        let normalized = lowercase_chars(&line);
        let prefix: &str;
        if contains_chars(&normalized, &to_chars("end if")) {
            level = dec_level(level);
            prefix = get_indent_string_by_level(&level);
        } else if contains_chars(&normalized, &to_chars("else")) {
            prefix = get_indent_string_by_level(&dec_level(level));
        } else if occurs_at_exec(&normalized, &to_chars("if "), 0) && contains_chars(
            &normalized,
            &to_chars(" then"),
        ) {
            level = inc_level(level);
            prefix = get_indent_string_by_level(&dec_level(level));
        } else {
            prefix = get_indent_string_by_level(&level);
        }
        let mut out = to_chars(prefix);
        append_chars(&mut out, &line);
        let ghost before = views(result@);
        result.push(out);
        assert(views(result@) == before.push(out@));
        assert(views(result@).skip(r2.len() as int) == before.skip(r2.len() as int).push(out@));
        assert(views(result@).take(r2.len() as int) == before.take(r2.len() as int));
        j += 1;
    }
    let ghost r3 = views(result@);
    assert(r3 == r2 + indent_lines(body, body.len() as int).1) by {
        assert(r3 == r3.take(r2.len() as int) + r3.skip(r2.len() as int));
    }
    result.push(to_chars(""));
    result.push(concat3("    f_", &name, " = result"));
    result.push(to_chars("End function"));
    assert(views(result@) == r3 + seq![
        ""@,
        "    f_"@ + vba_name(procedure_name@) + " = result"@,
        "End function"@,
    ]);
    assert(views(result@) == vba_function_lines(excel_text@, procedure_name@));
    let sep: Vec<char> = vec!['\n'];
    assert(sep@ == seq!['\n']);
    from_chars(&join_chars(&result, &sep))
}


/// Sorting the names by length keeps every entry once and orders them by
/// non-increasing byte length of the name, so that a longer name is
/// replaced before a shorter one that it contains.
pub proof fn law_sort_by_len(m: Seq<(Seq<char>, Seq<char>)>)
    ensures
        sort_by_len(m).to_multiset() == m.to_multiset(),
        forall|i: int, j: int|
            0 <= i < j < sort_by_len(m).len() ==> utf8_len(#[trigger] sort_by_len(m)[i].0) >= utf8_len(
                #[trigger] sort_by_len(m)[j].0,
            ),
    decreases m.len(),
{
    broadcast use vstd::seq_lib::to_multiset_build, vstd::seq_lib::to_multiset_insert;

    if m.len() > 0 {
        law_sort_by_len(m.drop_last());
        let s = sort_by_len(m.drop_last());
        let x = m.last();
        let lx = utf8_len(x.0);
        let p = insert_pos(s, lx);
        lemma_insert_pos_bounds(s, lx);
        lemma_insert_pos_order(s, lx);
        assert(m.drop_last().push(x) == m);
        let r = s.insert(p, x);
        assert(r == sort_by_len(m));
        assert forall|i: int, j: int| 0 <= i < j < r.len() implies utf8_len(#[trigger] r[i].0)
            >= utf8_len(#[trigger] r[j].0) by {
            if j < p {
                assert(r[i] == s[i] && r[j] == s[j]);
            } else if j == p {
                assert(r[i] == s[i]);
            } else if i < p {
                assert(r[i] == s[i] && r[j] == s[j - 1]);
            } else if i == p {
                assert(r[j] == s[j - 1]);
            } else {
                assert(r[i] == s[i - 1] && r[j] == s[j - 1]);
            }
        }
    }
}

proof fn lemma_insert_pos_order(s: Seq<(Seq<char>, Seq<char>)>, len: nat)
    requires
        forall|i: int, j: int| 0 <= i < j < s.len() ==> utf8_len(#[trigger] s[i].0) >= utf8_len(#[trigger] s[j].0),
    ensures
        forall|i: int| 0 <= i < insert_pos(s, len) ==> utf8_len(#[trigger] s[i].0) >= len,
        forall|i: int| insert_pos(s, len) <= i < s.len() ==> utf8_len(#[trigger] s[i].0) < len,
    decreases s.len(),
{
    if s.len() > 0 {
        if utf8_len(s.last().0) >= len {
            assert forall|i: int| 0 <= i < insert_pos(s, len) implies utf8_len(#[trigger] s[i].0) >= len by {
                if i < s.len() - 1 {
                    assert(utf8_len(s[i].0) >= utf8_len(s[s.len() - 1].0));
                }
            }
        } else {
            lemma_insert_pos_order(s.drop_last(), len);
            lemma_insert_pos_bounds(s.drop_last(), len);
            assert forall|i: int| 0 <= i < insert_pos(s, len) implies utf8_len(#[trigger] s[i].0) >= len by {
                assert(s[i] == s.drop_last()[i]);
            }
            assert forall|i: int| insert_pos(s, len) <= i < s.len() implies utf8_len(#[trigger] s[i].0) < len by {
                if i < s.len() - 1 {
                    assert(s[i] == s.drop_last()[i]);
                }
            }
        }
    }
}

/// After a key is given a value, looking the key up gives that value;
/// entries with other keys are kept as they were.
pub proof fn law_upsert_then_lookup<K, V>(m: Seq<(K, V)>, k: K, v: V)
    ensures
        key_index(upsert(m, k, v), k) < upsert(m, k, v).len(),
        upsert(m, k, v)[key_index(upsert(m, k, v), k)].1 == v,
        forall|i: int| 0 <= i < m.len() && m[i].0 != k ==> #[trigger] upsert(m, k, v)[i] == m[i],
{
    lemma_key_index_bounds(m, k);
    let i = key_index(m, k);
    let r = upsert(m, k, v);
    lemma_key_index_bounds(r, k);
    if i < m.len() {
        assert(r[i].0 == k);
        assert(key_index(r, k) == i) by {
            if key_index(r, k) < i {
                assert(r[key_index(r, k)] == m[key_index(r, k)]);
            }
        }
    } else {
        assert(r[m.len() as int].0 == k);
        assert(key_index(r, k) == m.len()) by {
            if key_index(r, k) < m.len() {
                assert(r[key_index(r, k)] == m[key_index(r, k)]);
            }
        }
    }
}

/// The indentation of a line at depth 1 to 4 is four spaces a level plus
/// four; at any other depth it is four spaces.
pub proof fn law_indent_width(level: i8)
    ensures
        1 <= level <= 4 ==> indent_spec(level).len() == 4 * level + 4,
        !(1 <= level <= 4) ==> indent_spec(level).len() == 4,
        forall|i: int| 0 <= i < indent_spec(level).len() ==> #[trigger] indent_spec(level)[i] == ' ',
{
    reveal_strlit("        ");
    reveal_strlit("            ");
    reveal_strlit("                ");
    reveal_strlit("                    ");
    reveal_strlit("    ");
}

/// A translated procedure is one VBA function: its first line declares
/// `f_` and the procedure's name, its last line ends the function, and the
/// line before assigns `result` to it.
pub proof fn law_vba_function_frame(text: Seq<char>, procedure_name: Seq<char>)
    ensures
        vba_function_lines(text, procedure_name).len() >= 5,
        vba_function_lines(text, procedure_name)[0] == "Function f_"@ + vba_name(procedure_name)
            + "() as double"@,
        vba_function_lines(text, procedure_name).last() == "End function"@,
        vba_function_lines(text, procedure_name)[vba_function_lines(text, procedure_name).len() - 2]
            == "    f_"@ + vba_name(procedure_name) + " = result"@,
{
}


/// The replacements made on a line before its names are translated, in
/// order: comments to `'`, semicolons and tabs dropped, non-breaking
/// spaces to spaces, the 1C words of conditionals, logic and calls to
/// their VBA words (`или` to `Or`, `и` to `And`, `не` to `Not`, `Окр` to
/// `Round`, `Цел` to `Fix`), and operators spaced out.
pub proof fn law_before_rules_table()
    ensures
        before_rules() == seq![
            ("//"@, "' "@),
            (";"@, ""@),
            ("/t"@, ""@),
            ("\t"@, ""@),
            ("\u{A0}"@, " "@),
            ("ИначеЕсли"@, "ElseIf"@),
            ("Иначе"@, "Else"@),
            ("КонецЕсли"@, "End If"@),
            ("Если"@, "If"@),
            ("Тогда"@, "Then"@),
            ("тогда"@, "Then"@),
            (" не "@, " Not "@),
            (" или "@, " Or "@),
            (" и "@, " And "@),
            ("Окр"@, "Round"@),
            ("ОКР"@, "Round"@),
            ("Цел"@, "Fix"@),
            ("ЦЕЛ"@, "Fix"@),
            ("="@, " = "@),
            (">"@, " > "@),
            ("<"@, " < "@),
            ("-"@, " - "@),
            ("+"@, " + "@),
            ("*"@, " * "@),
            ("/"@, " / "@),
            ("("@, " ( "@),
            (")"@, " ) "@),
            (","@, ", "@),
        ],
{
    assert(before_rules() =~= seq![
        ("//"@, "' "@),
        (";"@, ""@),
        ("/t"@, ""@),
        ("\t"@, ""@),
        ("\u{A0}"@, " "@),
        ("ИначеЕсли"@, "ElseIf"@),
        ("Иначе"@, "Else"@),
        ("КонецЕсли"@, "End If"@),
        ("Если"@, "If"@),
        ("Тогда"@, "Then"@),
        ("тогда"@, "Then"@),
        (" не "@, " Not "@),
        (" или "@, " Or "@),
        (" и "@, " And "@),
        ("Окр"@, "Round"@),
        ("ОКР"@, "Round"@),
        ("Цел"@, "Fix"@),
        ("ЦЕЛ"@, "Fix"@),
        ("="@, " = "@),
        (">"@, " > "@),
        ("<"@, " < "@),
        ("-"@, " - "@),
        ("+"@, " + "@),
        ("*"@, " * "@),
        ("/"@, " / "@),
        ("("@, " ( "@),
        (")"@, " ) "@),
        (","@, ", "@),
    ]);
}

/// The tidying of a translated line, in order: runs of spaces collapsed,
/// the spaces inside parentheses, in `>=`, `<=` and before commas removed.
pub proof fn law_tidy_rules_table()
    ensures
        tidy_rules() == seq![
            ("  "@, " "@),
            ("( "@, "("@),
            (" )"@, ")"@),
            ("> ="@, ">="@),
            ("< ="@, "<="@),
            (" , "@, ", "@),
        ],
{
    assert(tidy_rules() =~= seq![
        ("  "@, " "@),
        ("( "@, "("@),
        (" )"@, ")"@),
        ("> ="@, ">="@),
        ("< ="@, "<="@),
        (" , "@, ", "@),
    ]);
}

/// The joining of `Round` and `Fix` to their parentheses, in order.
pub proof fn law_call_rules_table()
    ensures
        call_rules() == seq![
            ("Round ("@, "Round("@),
            ("Fix ("@, "Fix("@),
        ],
{
    assert(call_rules() =~= seq![
        ("Round ("@, "Round("@),
        ("Fix ("@, "Fix("@),
    ]);
}

/// The characters of a procedure's name that VBA does not take, each made
/// `_`, in order (runs of two spaces first collapsed).
pub proof fn law_name_rules_table()
    ensures
        name_rules() == seq![
            ("  "@, " "@),
            (" "@, "_"@),
            ("*"@, "_"@),
            ("?"@, "_"@),
            ("/"@, "_"@),
            ("\\"@, "_"@),
            (","@, "_"@),
            ("("@, "_"@),
            (")"@, "_"@),
            ("+"@, "_"@),
            ("-"@, "_"@),
        ],
{
    assert(name_rules() =~= seq![
        ("  "@, " "@),
        (" "@, "_"@),
        ("*"@, "_"@),
        ("?"@, "_"@),
        ("/"@, "_"@),
        ("\\"@, "_"@),
        (","@, "_"@),
        ("("@, "_"@),
        (")"@, "_"@),
        ("+"@, "_"@),
        ("-"@, "_"@),
    ]);
}

/// The Latin form of each letter of a name: the Cyrillic letters by their
/// sounds (`а` is `a`, `ж` is `zh`, `щ` is `shch`, the signs are dropped),
/// spaces, brackets, `-` and `+` as `_`; every other character is kept.
pub proof fn law_translit_letters()
    ensures
        translit_char_spec(' ') == Some("_"@),
        translit_char_spec('(') == Some("_"@),
        translit_char_spec(')') == Some("_"@),
        translit_char_spec('-') == Some("_"@),
        translit_char_spec('+') == Some("_"@),
        translit_char_spec('а') == Some("a"@),
        translit_char_spec('А') == Some("A"@),
        translit_char_spec('б') == Some("b"@),
        translit_char_spec('Б') == Some("B"@),
        translit_char_spec('в') == Some("v"@),
        translit_char_spec('В') == Some("V"@),
        translit_char_spec('г') == Some("g"@),
        translit_char_spec('Г') == Some("G"@),
        translit_char_spec('д') == Some("d"@),
        translit_char_spec('Д') == Some("D"@),
        translit_char_spec('е') == Some("e"@),
        translit_char_spec('ё') == Some("e"@),
        translit_char_spec('э') == Some("e"@),
        translit_char_spec('Е') == Some("E"@),
        translit_char_spec('Ё') == Some("E"@),
        translit_char_spec('Э') == Some("E"@),
        translit_char_spec('ж') == Some("zh"@),
        translit_char_spec('Ж') == Some("ZH"@),
        translit_char_spec('з') == Some("z"@),
        translit_char_spec('З') == Some("Z"@),
        translit_char_spec('и') == Some("i"@),
        translit_char_spec('И') == Some("I"@),
        translit_char_spec('й') == Some("j"@),
        translit_char_spec('Й') == Some("J"@),
        translit_char_spec('к') == Some("k"@),
        translit_char_spec('К') == Some("K"@),
        translit_char_spec('л') == Some("l"@),
        translit_char_spec('Л') == Some("L"@),
        translit_char_spec('м') == Some("m"@),
        translit_char_spec('М') == Some("M"@),
        translit_char_spec('н') == Some("n"@),
        translit_char_spec('Н') == Some("N"@),
        translit_char_spec('о') == Some("o"@),
        translit_char_spec('О') == Some("O"@),
        translit_char_spec('п') == Some("p"@),
        translit_char_spec('П') == Some("P"@),
        translit_char_spec('р') == Some("r"@),
        translit_char_spec('Р') == Some("R"@),
        translit_char_spec('с') == Some("s"@),
        translit_char_spec('С') == Some("S"@),
        translit_char_spec('т') == Some("t"@),
        translit_char_spec('Т') == Some("T"@),
        translit_char_spec('у') == Some("u"@),
        translit_char_spec('У') == Some("U"@),
        translit_char_spec('ф') == Some("f"@),
        translit_char_spec('Ф') == Some("F"@),
        translit_char_spec('х') == Some("h"@),
        translit_char_spec('Х') == Some("H"@),
        translit_char_spec('ц') == Some("c"@),
        translit_char_spec('Ц') == Some("C"@),
        translit_char_spec('ч') == Some("ch"@),
        translit_char_spec('Ч') == Some("Ch"@),
        translit_char_spec('ш') == Some("sh"@),
        translit_char_spec('Ш') == Some("Sh"@),
        translit_char_spec('щ') == Some("shch"@),
        translit_char_spec('Щ') == Some("SHCH"@),
        translit_char_spec('ъ') == Some(""@),
        translit_char_spec('ь') == Some(""@),
        translit_char_spec('Ъ') == Some(""@),
        translit_char_spec('Ь') == Some(""@),
        translit_char_spec('ы') == Some("y"@),
        translit_char_spec('Ы') == Some("Y"@),
        translit_char_spec('ю') == Some("yu"@),
        translit_char_spec('Ю') == Some("YU"@),
        translit_char_spec('я') == Some("ya"@),
        translit_char_spec('Я') == Some("YA"@),
        forall|c: char|
            c != ' ' && c != '(' && c != ')' && c != '-' && c != '+' && c != 'а' && c != 'А' &&
            c != 'б' && c != 'Б' && c != 'в' && c != 'В' && c != 'г' && c != 'Г' && c != 'д' &&
            c != 'Д' && c != 'е' && c != 'ё' && c != 'э' && c != 'Е' && c != 'Ё' && c != 'Э' &&
            c != 'ж' && c != 'Ж' && c != 'з' && c != 'З' && c != 'и' && c != 'И' && c != 'й' &&
            c != 'Й' && c != 'к' && c != 'К' && c != 'л' && c != 'Л' && c != 'м' && c != 'М' &&
            c != 'н' && c != 'Н' && c != 'о' && c != 'О' && c != 'п' && c != 'П' && c != 'р' &&
            c != 'Р' && c != 'с' && c != 'С' && c != 'т' && c != 'Т' && c != 'у' && c != 'У' &&
            c != 'ф' && c != 'Ф' && c != 'х' && c != 'Х' && c != 'ц' && c != 'Ц' && c != 'ч' &&
            c != 'Ч' && c != 'ш' && c != 'Ш' && c != 'щ' && c != 'Щ' && c != 'ъ' && c != 'ь' &&
            c != 'Ъ' && c != 'Ь' && c != 'ы' && c != 'Ы' && c != 'ю' && c != 'Ю' && c != 'я' &&
            c != 'Я'
            ==> translit_char_spec(c) is None,
{
}

/// The keywords of VBA that names are never translated into, in order.
pub proof fn law_vba_keys_table()
    ensures
        Seq::new(VBA_KEY_COUNT as nat, |i: int| vba_key_spec(i)) == seq![
            "If"@,
            "Then"@,
            "ElseIf"@,
            "End"@,
            "Else"@,
            "Not"@,
            "Or"@,
            "And"@,
            "Round"@,
            "Fix"@,
            "="@,
            ">"@,
            "<"@,
            "-"@,
            "+"@,
            "*"@,
            "/"@,
            "'"@,
            "("@,
            ")"@,
        ],
{
    assert(Seq::new(VBA_KEY_COUNT as nat, |i: int| vba_key_spec(i)) =~= seq![
        "If"@,
        "Then"@,
        "ElseIf"@,
        "End"@,
        "Else"@,
        "Not"@,
        "Or"@,
        "And"@,
        "Round"@,
        "Fix"@,
        "="@,
        ">"@,
        "<"@,
        "-"@,
        "+"@,
        "*"@,
        "/"@,
        "'"@,
        "("@,
        ")"@,
    ]);
}

} // verus!
