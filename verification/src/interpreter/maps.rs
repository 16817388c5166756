//! The token table of the procedure language and the word maps.
//!
//! The table is ordered: the lexer tries its patterns in turn and takes the
//! first that matches, so longer forms stand before their prefixes
//! (`[A].{B}` before `[A].[B]` before `[A]`, `>=` before `>`, `<=` and
//! `<>` before `<`) and variables come last.

use vstd::prelude::*;
use crate::interpreter::patterns::{Pattern, compile_pattern, regex_compiles};
use crate::interpreter::tokens::TokenType;

verus! {

/// The number of entries of the token table.
pub const TOKEN_PATTERN_COUNT: usize = 29;

/// Entry `i` of the token table: a kind and the pattern of its tokens.
pub open spec fn token_pattern_spec(i: int) -> (TokenType, Seq<char>) {
    if i == 0 {
        (TokenType::PROPERTY, r"^\[[^]]+\]\.\{[^}]+\}"@)
    } else if i == 1 {
        (TokenType::PARAMETER, r"^\[[^]]+\]\.\[[^]]+\]"@)
    } else if i == 2 {
        (TokenType::RETURN, r"^\[[^]]+\]"@)
    } else if i == 3 {
        (TokenType::SEMICOLON, "^;"@)
    } else if i == 4 {
        (TokenType::COMMA, r"^,"@)
    } else if i == 5 {
        (TokenType::SPACE, r"^\s+"@)
    } else if i == 6 {
        (TokenType::ASSIGN, "^="@)
    } else if i == 7 {
        (TokenType::PLUS, r"^\+"@)
    } else if i == 8 {
        (TokenType::MINUS, r"^-"@)
    } else if i == 9 {
        (TokenType::AND, r"(?i)^(и|and)\b"@)
    } else if i == 10 {
        (TokenType::OR, r"(?i)^(или|or)\b"@)
    } else if i == 11 {
        (TokenType::NOT, r"(?i)^(не|not)\b"@)
    } else if i == 12 {
        (TokenType::GE, r"^>="@)
    } else if i == 13 {
        (TokenType::LE, r"^<="@)
    } else if i == 14 {
        (TokenType::GT, r"^>"@)
    } else if i == 15 {
        (TokenType::NE, r"^<>"@)
    } else if i == 16 {
        (TokenType::LT, r"^<"@)
    } else if i == 17 {
        (TokenType::STAR, r"^\*"@)
    } else if i == 18 {
        (TokenType::SLASH, r"^/"@)
    } else if i == 19 {
        (TokenType::LPAR, r"^\("@)
    } else if i == 20 {
        (TokenType::RPAR, r"^\)"@)
    } else if i == 21 {
        (TokenType::STRING, r#"^"[^"]*""#@)
    } else if i == 22 {
        (TokenType::IF, r"(?i)^(если|if)\b"@)
    } else if i == 23 {
        (TokenType::ELSEIF, r"(?i)^(иначеесли|elseif)\b"@)
    } else if i == 24 {
        (TokenType::ELSE, r"(?i)^(иначе|else)\b"@)
    } else if i == 25 {
        (TokenType::ENDIF, r"(?i)^(конецесли|endif)\b"@)
    } else if i == 26 {
        (TokenType::THEN, r"(?i)^(тогда|then)\b"@)
    } else if i == 27 {
        (TokenType::NUMBER, r"^[0-9]+([.,][0-9]+)?"@)
    } else {
        (TokenType::VARIABLE, r"(?i)^[а-яёa-z_][а-яёa-z0-9_]*"@)
    }
}

/// The token table.
pub open spec fn token_patterns() -> Seq<(TokenType, Seq<char>)> {
    Seq::new(TOKEN_PATTERN_COUNT as nat, |i: int| token_pattern_spec(i))
}

/// Entry `i` of the token table.
pub fn token_pattern(i: usize) -> (r: (TokenType, &'static str))
    requires
        i < TOKEN_PATTERN_COUNT,
    ensures
        r.0 == token_pattern_spec(i as int).0,
        r.1@ == token_pattern_spec(i as int).1,
{
    match i {
        0 => (TokenType::PROPERTY, r"^\[[^]]+\]\.\{[^}]+\}"),
        1 => (TokenType::PARAMETER, r"^\[[^]]+\]\.\[[^]]+\]"),
        2 => (TokenType::RETURN, r"^\[[^]]+\]"),
        3 => (TokenType::SEMICOLON, "^;"),
        4 => (TokenType::COMMA, r"^,"),
        5 => (TokenType::SPACE, r"^\s+"),
        6 => (TokenType::ASSIGN, "^="),
        7 => (TokenType::PLUS, r"^\+"),
        8 => (TokenType::MINUS, r"^-"),
        9 => (TokenType::AND, r"(?i)^(и|and)\b"),
        10 => (TokenType::OR, r"(?i)^(или|or)\b"),
        11 => (TokenType::NOT, r"(?i)^(не|not)\b"),
        12 => (TokenType::GE, r"^>="),
        13 => (TokenType::LE, r"^<="),
        14 => (TokenType::GT, r"^>"),
        15 => (TokenType::NE, r"^<>"),
        16 => (TokenType::LT, r"^<"),
        17 => (TokenType::STAR, r"^\*"),
        18 => (TokenType::SLASH, r"^/"),
        19 => (TokenType::LPAR, r"^\("),
        20 => (TokenType::RPAR, r"^\)"),
        21 => (TokenType::STRING, r#"^"[^"]*""#),
        22 => (TokenType::IF, r"(?i)^(если|if)\b"),
        23 => (TokenType::ELSEIF, r"(?i)^(иначеесли|elseif)\b"),
        24 => (TokenType::ELSE, r"(?i)^(иначе|else)\b"),
        25 => (TokenType::ENDIF, r"(?i)^(конецесли|endif)\b"),
        26 => (TokenType::THEN, r"(?i)^(тогда|then)\b"),
        27 => (TokenType::NUMBER, r"^[0-9]+([.,][0-9]+)?"),
        _ => (TokenType::VARIABLE, r"(?i)^[а-яёa-z_][а-яёa-z0-9_]*"),
    }
}

/// The pattern that tells an output (`[A].[B] = ...`) from a parameter.
pub open spec fn output_probe_spec() -> Seq<char> {
    r"(?P<item>\[[^\]]+\]\.\[[^\]]+\])\s*(?P<op>=)?"@
}

/// The pattern that tells a returned value (`[A] = ...`) from a parameter.
pub open spec fn return_probe_spec() -> Seq<char> {
    r"(?P<item>\[[^\]]+\])\s*(?P<op>=)?"@
}

/// The name of the group that the probes capture for `=`.
pub open spec fn probe_group_spec() -> Seq<char> {
    "op"@
}

/// The compiled token table and the two probes.
pub struct TokenMap {
    entries: Vec<(TokenType, Pattern)>,
    output_probe: Pattern,
    return_probe: Pattern,
}

impl TokenMap {
    /// The kinds and patterns of the table, in order.
    pub closed spec fn entries_view(&self) -> Seq<(TokenType, Seq<char>)> {
        self.entries@.map_values(|e: (TokenType, Pattern)| (e.0, e.1@))
    }

    /// The pattern of the probe for outputs.
    pub closed spec fn output_probe_view(&self) -> Seq<char> {
        self.output_probe@
    }

    /// The pattern of the probe for returned values.
    pub closed spec fn return_probe_view(&self) -> Seq<char> {
        self.return_probe@
    }

    /// Whether the map holds the token table and the probes.
    pub open spec fn wf(&self) -> bool {
        &&& self.entries_view() == token_patterns()
        &&& self.output_probe_view() == output_probe_spec()
        &&& self.return_probe_view() == return_probe_spec()
    }

    /// Entry `i`.
    pub(crate) fn entry(&self, i: usize) -> (r: &(TokenType, Pattern))
        requires
            i < self.entries_view().len(),
        ensures
            (r.0, r.1@) == self.entries_view()[i as int],
    {
        &self.entries[i]
    }

    /// The number of entries.
    pub(crate) fn len(&self) -> (r: usize)
        ensures
            r == self.entries_view().len(),
    {
        self.entries.len()
    }

    /// The probe for outputs.
    pub(crate) fn output_probe(&self) -> (r: &Pattern)
        ensures
            r@ == self.output_probe_view(),
    {
        &self.output_probe
    }

    /// The probe for returned values.
    pub(crate) fn return_probe(&self) -> (r: &Pattern)
        ensures
            r@ == self.return_probe_view(),
    {
        &self.return_probe
    }
}

/// Whether every pattern of the table and both probes compile.
pub open spec fn token_map_compiles() -> bool {
    &&& forall|i: int| 0 <= i < TOKEN_PATTERN_COUNT ==> regex_compiles(#[trigger] token_pattern_spec(i).1)
    &&& regex_compiles(output_probe_spec())
    &&& regex_compiles(return_probe_spec())
}

/// Compiles the token table; `None` when a pattern does not compile.
pub fn get_token_map() -> (r: Option<TokenMap>)
    ensures
        r is Some <==> token_map_compiles(),
        r matches Some(m) ==> m.wf(),
{
    let mut entries: Vec<(TokenType, Pattern)> = Vec::new();
    let mut i: usize = 0;
    while i < TOKEN_PATTERN_COUNT
        invariant
            i <= TOKEN_PATTERN_COUNT,
            entries@.len() == i,
            forall|j: int| 0 <= j < i ==> regex_compiles(#[trigger] token_pattern_spec(j).1),
            forall|j: int| 0 <= j < i ==> (#[trigger] entries@[j]).0 == token_pattern_spec(j).0
                && entries@[j].1@ == token_pattern_spec(j).1,
        decreases TOKEN_PATTERN_COUNT - i,
    {
        let (kind, source) = token_pattern(i);
        match compile_pattern(source) {
            Some(p) => {
                entries.push((kind, p));
            },
            None => {
                return None;
            },
        }
        i += 1;
    }
    let output_probe = compile_pattern(r"(?P<item>\[[^\]]+\]\.\[[^\]]+\])\s*(?P<op>=)?")?;
    let return_probe = compile_pattern(r"(?P<item>\[[^\]]+\])\s*(?P<op>=)?")?;
    let m = TokenMap { entries, output_probe, return_probe };
    assert(m.entries_view() == token_patterns());
    Some(m)
}


/// The keywords translated by name: none at present (the conditional
/// words are tokens of their own).
pub fn get_keywords() -> (r: Vec<(&'static str, &'static str)>)
    ensures
        r@.len() == 0,
{
    Vec::new()
}

/// The built-in functions and their VBA names: `цел` is `Fix`, `окр` is
/// `Round`.
pub fn get_operators() -> (r: Vec<(&'static str, &'static str)>)
    ensures
        r@.len() == 2,
        r@[0].0@ == "цел"@ && r@[0].1@ == "Fix"@,
        r@[1].0@ == "окр"@ && r@[1].1@ == "Round"@,
{
    vec![("цел", "Fix"), ("окр", "Round")]
}

/// Whether a pattern is anchored at the start of the text: it begins
/// with `^`, or with `(?i)^` when it ignores case.
pub open spec fn anchored(p: Seq<char>) -> bool {
    (p.len() >= 1 && p.take(1) == "^"@) || (p.len() >= 5 && p.take(5) == "(?i)^"@)
}

proof fn lemma_pattern_anchored(i: int)
    requires
        0 <= i < TOKEN_PATTERN_COUNT,
    ensures
        anchored(token_pattern_spec(i).1),
{
    reveal_strlit("^");
    reveal_strlit("(?i)^");
    reveal_strlit(r"^\[[^]]+\]\.\{[^}]+\}");
    reveal_strlit(r"^\[[^]]+\]\.\[[^]]+\]");
    reveal_strlit(r"^\[[^]]+\]");
    reveal_strlit("^;");
    reveal_strlit(r"^,");
    reveal_strlit(r"^\s+");
    reveal_strlit("^=");
    reveal_strlit(r"^\+");
    reveal_strlit(r"^-");
    reveal_strlit(r"(?i)^(и|and)\b");
    reveal_strlit(r"(?i)^(или|or)\b");
    reveal_strlit(r"(?i)^(не|not)\b");
    reveal_strlit(r"^>=");
    reveal_strlit(r"^<=");
    reveal_strlit(r"^>");
    reveal_strlit(r"^<>");
    reveal_strlit(r"^<");
    reveal_strlit(r"^\*");
    reveal_strlit(r"^/");
    reveal_strlit(r"^\(");
    reveal_strlit(r"^\)");
    reveal_strlit(r#"^"[^"]*""#);
    reveal_strlit(r"(?i)^(если|if)\b");
    reveal_strlit(r"(?i)^(иначеесли|elseif)\b");
    reveal_strlit(r"(?i)^(иначе|else)\b");
    reveal_strlit(r"(?i)^(конецесли|endif)\b");
    reveal_strlit(r"(?i)^(тогда|then)\b");
    reveal_strlit(r"^[0-9]+([.,][0-9]+)?");
    reveal_strlit(r"(?i)^[а-яёa-z_][а-яёa-z0-9_]*");
    let p = token_pattern_spec(i).1;
    if i == 0 {
        assert(p.take(1) =~= "^"@);
    } else if i == 1 {
        assert(p.take(1) =~= "^"@);
    } else if i == 2 {
        assert(p.take(1) =~= "^"@);
    } else if i == 3 {
        assert(p.take(1) =~= "^"@);
    } else if i == 4 {
        assert(p.take(1) =~= "^"@);
    } else if i == 5 {
        assert(p.take(1) =~= "^"@);
    } else if i == 6 {
        assert(p.take(1) =~= "^"@);
    } else if i == 7 {
        assert(p.take(1) =~= "^"@);
    } else if i == 8 {
        assert(p.take(1) =~= "^"@);
    } else if i == 9 {
        assert(p.take(5) =~= "(?i)^"@);
    } else if i == 10 {
        assert(p.take(5) =~= "(?i)^"@);
    } else if i == 11 {
        assert(p.take(5) =~= "(?i)^"@);
    } else if i == 12 {
        assert(p.take(1) =~= "^"@);
    } else if i == 13 {
        assert(p.take(1) =~= "^"@);
    } else if i == 14 {
        assert(p.take(1) =~= "^"@);
    } else if i == 15 {
        assert(p.take(1) =~= "^"@);
    } else if i == 16 {
        assert(p.take(1) =~= "^"@);
    } else if i == 17 {
        assert(p.take(1) =~= "^"@);
    } else if i == 18 {
        assert(p.take(1) =~= "^"@);
    } else if i == 19 {
        assert(p.take(1) =~= "^"@);
    } else if i == 20 {
        assert(p.take(1) =~= "^"@);
    } else if i == 21 {
        assert(p.take(1) =~= "^"@);
    } else if i == 22 {
        assert(p.take(5) =~= "(?i)^"@);
    } else if i == 23 {
        assert(p.take(5) =~= "(?i)^"@);
    } else if i == 24 {
        assert(p.take(5) =~= "(?i)^"@);
    } else if i == 25 {
        assert(p.take(5) =~= "(?i)^"@);
    } else if i == 26 {
        assert(p.take(5) =~= "(?i)^"@);
    } else if i == 27 {
        assert(p.take(1) =~= "^"@);
    } else {
        assert(p.take(5) =~= "(?i)^"@);
    }
}

/// The token table has its 29 entries in a fixed order: properties,
/// parameters and returned values first (longest form first), numbers and
/// variables last, so operators and keywords are tried before names; each
/// entry has the kind of the token its pattern reads (`^>` is `>`, `^<` is
/// `<`, ...); and every pattern is anchored at the start of the text.
pub proof fn law_token_table_shape()
    ensures
        token_patterns().len() == 29,
        token_patterns()[0].0 == TokenType::PROPERTY,
        token_patterns()[1].0 == TokenType::PARAMETER,
        token_patterns()[2].0 == TokenType::RETURN,
        token_patterns()[27].0 == TokenType::NUMBER,
        token_patterns()[28].0 == TokenType::VARIABLE,
        token_patterns() == seq![
            (TokenType::PROPERTY, r"^\[[^]]+\]\.\{[^}]+\}"@),
            (TokenType::PARAMETER, r"^\[[^]]+\]\.\[[^]]+\]"@),
            (TokenType::RETURN, r"^\[[^]]+\]"@),
            (TokenType::SEMICOLON, "^;"@),
            (TokenType::COMMA, r"^,"@),
            (TokenType::SPACE, r"^\s+"@),
            (TokenType::ASSIGN, "^="@),
            (TokenType::PLUS, r"^\+"@),
            (TokenType::MINUS, r"^-"@),
            (TokenType::AND, r"(?i)^(и|and)\b"@),
            (TokenType::OR, r"(?i)^(или|or)\b"@),
            (TokenType::NOT, r"(?i)^(не|not)\b"@),
            (TokenType::GE, r"^>="@),
            (TokenType::LE, r"^<="@),
            (TokenType::GT, r"^>"@),
            (TokenType::NE, r"^<>"@),
            (TokenType::LT, r"^<"@),
            (TokenType::STAR, r"^\*"@),
            (TokenType::SLASH, r"^/"@),
            (TokenType::LPAR, r"^\("@),
            (TokenType::RPAR, r"^\)"@),
            (TokenType::STRING, r#"^"[^"]*""#@),
            (TokenType::IF, r"(?i)^(если|if)\b"@),
            (TokenType::ELSEIF, r"(?i)^(иначеесли|elseif)\b"@),
            (TokenType::ELSE, r"(?i)^(иначе|else)\b"@),
            (TokenType::ENDIF, r"(?i)^(конецесли|endif)\b"@),
            (TokenType::THEN, r"(?i)^(тогда|then)\b"@),
            (TokenType::NUMBER, r"^[0-9]+([.,][0-9]+)?"@),
            (TokenType::VARIABLE, r"(?i)^[а-яёa-z_][а-яёa-z0-9_]*"@),
        ],
        forall|i: int| 0 <= i < token_patterns().len() ==> anchored(#[trigger] token_patterns()[i].1),
{
    assert forall|i: int| 0 <= i < token_patterns().len() implies anchored(#[trigger] token_patterns()[i].1) by {
        lemma_pattern_anchored(i);
    }
    assert(token_patterns() =~= seq![
        (TokenType::PROPERTY, r"^\[[^]]+\]\.\{[^}]+\}"@),
        (TokenType::PARAMETER, r"^\[[^]]+\]\.\[[^]]+\]"@),
        (TokenType::RETURN, r"^\[[^]]+\]"@),
        (TokenType::SEMICOLON, "^;"@),
        (TokenType::COMMA, r"^,"@),
        (TokenType::SPACE, r"^\s+"@),
        (TokenType::ASSIGN, "^="@),
        (TokenType::PLUS, r"^\+"@),
        (TokenType::MINUS, r"^-"@),
        (TokenType::AND, r"(?i)^(и|and)\b"@),
        (TokenType::OR, r"(?i)^(или|or)\b"@),
        (TokenType::NOT, r"(?i)^(не|not)\b"@),
        (TokenType::GE, r"^>="@),
        (TokenType::LE, r"^<="@),
        (TokenType::GT, r"^>"@),
        (TokenType::NE, r"^<>"@),
        (TokenType::LT, r"^<"@),
        (TokenType::STAR, r"^\*"@),
        (TokenType::SLASH, r"^/"@),
        (TokenType::LPAR, r"^\("@),
        (TokenType::RPAR, r"^\)"@),
        (TokenType::STRING, r#"^"[^"]*""#@),
        (TokenType::IF, r"(?i)^(если|if)\b"@),
        (TokenType::ELSEIF, r"(?i)^(иначеесли|elseif)\b"@),
        (TokenType::ELSE, r"(?i)^(иначе|else)\b"@),
        (TokenType::ENDIF, r"(?i)^(конецесли|endif)\b"@),
        (TokenType::THEN, r"(?i)^(тогда|then)\b"@),
        (TokenType::NUMBER, r"^[0-9]+([.,][0-9]+)?"@),
        (TokenType::VARIABLE, r"(?i)^[а-яёa-z_][а-яёa-z0-9_]*"@),
    ]);
}

} // verus!
