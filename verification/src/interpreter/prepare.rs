//! Preparation of a procedure for evaluation: comments erased, the code
//! read into tokens, the names it uses collected, and the syntax tree
//! built.

use vstd::prelude::*;
use crate::interpreter::expression_nodes::{ExpressionNode, node_view};
use crate::interpreter::grammar::g_program;
use crate::interpreter::lexer::{erase_comments, erase_comments_spec, lex, lex_spec, token_views};
use crate::interpreter::maps::TokenMap;
use crate::interpreter::parser::Parser;
use crate::interpreter::tokens::{Token, TokenType};
use crate::procedures::Procedure;
use crate::text::{
    contains_chars, contains_spec, find_char, from_chars, index_of, lemma_index_of_bounds, lowercase_chars,
    spec_to_lowercase, to_chars,
};

verus! {

/// The kind a token keeps in the syntax: the names of properties,
/// parameters, outputs and returned values are variables.
pub open spec fn final_kind(k: TokenType) -> TokenType {
    if k == TokenType::PROPERTY || k == TokenType::PARAMETER || k == TokenType::OUTPUT || k
        == TokenType::RETURN {
        TokenType::VARIABLE
    } else {
        k
    }
}

/// The tokens that the parser reads: white space dropped, names made
/// variables.
pub open spec fn visible_tokens(raw: Seq<(TokenType, Seq<char>, nat)>) -> Seq<
    (TokenType, Seq<char>, nat),
>
    decreases raw.len(),
{
    if raw.len() == 0 {
        seq![]
    } else {
        let t = raw.last();
        if t.0 == TokenType::SPACE {
            visible_tokens(raw.drop_last())
        } else {
            visible_tokens(raw.drop_last()).push((final_kind(t.0), t.1, t.2))
        }
    }
}

/// The texts of the tokens of kind `kind`.
pub open spec fn names_in(raw: Seq<(TokenType, Seq<char>, nat)>, kind: TokenType) -> Set<
    Seq<char>,
>
    decreases raw.len(),
{
    if raw.len() == 0 {
        Set::empty()
    } else if raw.last().0 == kind {
        names_in(raw.drop_last(), kind).insert(raw.last().1)
    } else {
        names_in(raw.drop_last(), kind)
    }
}

/// The texts of the parameters, less those that name the procedure's own
/// object (`object`), which are properties of the result used in formulas.
pub open spec fn parameter_names_in(
    raw: Seq<(TokenType, Seq<char>, nat)>,
    object: Option<Seq<char>>,
) -> Set<Seq<char>> {
    names_in(raw, TokenType::PARAMETER).filter(
        |s: Seq<char>|
            match object {
                Some(o) => !contains_spec(s, o),
                None => true,
            },
    )
}

/// The views of some strings.
pub open spec fn string_views(v: Seq<String>) -> Seq<Seq<char>> {
    v.map_values(|s: String| s@)
}

/// No string occurs twice.
pub open spec fn no_duplicates(v: Seq<Seq<char>>) -> bool {
    forall|i: int, j: int| 0 <= i < j < v.len() ==> v[i] != v[j]
}

/// A list of names, without repetition, holding the set `s`.
pub open spec fn lists(v: Seq<String>, s: Set<Seq<char>>) -> bool {
    &&& no_duplicates(string_views(v))
    &&& string_views(v).to_set() == s
}

/// The object's name as a view.
pub open spec fn object_view(o: Option<String>) -> Option<Seq<char>> {
    match o {
        Some(s) => Some(s@),
        None => None,
    }
}

/// Adds `name` to `names` unless it is there.
fn add_name(names: &mut Vec<String>, name: &String)
    requires
        no_duplicates(string_views(old(names)@)),
    ensures
        no_duplicates(string_views(final(names)@)),
        string_views(final(names)@).to_set() == string_views(old(names)@).to_set().insert(name@),
{
    let mut k: usize = 0;
    while k < names.len()
        invariant
            k <= names.len(),
            names@ == old(names)@,
            no_duplicates(string_views(old(names)@)),
            forall|m: int| 0 <= m < k ==> names@[m]@ != name@,
        decreases names.len() - k,
    {
        if names[k] == *name {
            assert(string_views(names@)[k as int] == name@);
            assert(string_views(names@).to_set() =~= string_views(names@).to_set().insert(name@));
            return;
        }
        k += 1;
    }
    let ghost before = string_views(names@);
    names.push(name.clone());
    proof {
        let after = string_views(names@);
        assert(after == before.push(name@));
        assert forall|x: Seq<char>| #[trigger] after.to_set().contains(x) == before.to_set().insert(
            name@,
        ).contains(x) by {
            if after.contains(x) {
                let j = choose|j: int| 0 <= j < after.len() && after[j] == x;
                if j < before.len() {
                    assert(before[j] == x);
                }
            }
            if before.contains(x) {
                let j = choose|j: int| 0 <= j < before.len() && before[j] == x;
                assert(after[j] == x);
            }
            if x == name@ {
                assert(after[before.len() as int] == x);
            }
        }
        assert(after.to_set() =~= before.to_set().insert(name@));
        assert forall|i: int, j: int| 0 <= i < j < after.len() implies after[i] != after[j] by {
            if j == before.len() {
                assert(after[i] == names@[i]@);
            }
        }
    }
}

/// The tokens the parser reads and the names the code uses.
pub struct CollectedNames {
    pub tokens: Vec<Token>,
    pub properties: Vec<String>,
    pub parameters: Vec<String>,
    pub outputs: Vec<String>,
    pub return_values: Vec<String>,
}

/// Sorts the tokens read by the lexer: white space dropped, names made
/// variables, and the names of properties, parameters (less those of the
/// object itself), outputs and returned values collected.
pub fn collect_names(raw: &Vec<Token>, object_name: &Option<String>) -> (r: CollectedNames)
    ensures
        token_views(r.tokens@) == visible_tokens(token_views(raw@)),
        lists(r.properties@, names_in(token_views(raw@), TokenType::PROPERTY)),
        lists(
            r.parameters@,
            parameter_names_in(token_views(raw@), object_view(*object_name)),
        ),
        lists(r.outputs@, names_in(token_views(raw@), TokenType::OUTPUT)),
        lists(r.return_values@, names_in(token_views(raw@), TokenType::RETURN)),
{
    let object: Option<Vec<char>> = match object_name {
        Some(o) => Some(to_chars(o.as_str())),
        None => None,
    };
    let ghost ov = object_view(*object_name);
    let mut tokens: Vec<Token> = Vec::new();
    let mut properties: Vec<String> = Vec::new();
    let mut parameters: Vec<String> = Vec::new();
    let mut outputs: Vec<String> = Vec::new();
    let mut return_values: Vec<String> = Vec::new();
    let mut i: usize = 0;
    proof {
        let none = token_views(raw@).take(0);
        assert(string_views(Seq::<String>::empty()).to_set() =~= Set::<Seq<char>>::empty());
        assert(parameter_names_in(none, ov) =~= Set::<Seq<char>>::empty());
    }
    while i < raw.len()
        invariant
            i <= raw.len(),
            match object {
                Some(o) => ov == Some(o@),
                None => ov is None,
            },
            ov == object_view(*object_name),
            token_views(tokens@) == visible_tokens(token_views(raw@).take(i as int)),
            lists(properties@, names_in(token_views(raw@).take(i as int), TokenType::PROPERTY)),
            lists(parameters@, parameter_names_in(token_views(raw@).take(i as int), ov)),
            lists(outputs@, names_in(token_views(raw@).take(i as int), TokenType::OUTPUT)),
            lists(return_values@, names_in(token_views(raw@).take(i as int), TokenType::RETURN)),
        decreases raw.len() - i,
    {
        let ghost pre = token_views(raw@).take(i as int);
        let ghost now = token_views(raw@).take(i + 1);
        assert(now.drop_last() == pre);
        assert(now.last() == (raw@[i as int].token_type, raw@[i as int].text@, raw@[i as int].pos as nat));
        let t = &raw[i];
        let kind = t.token_type;
        if kind == TokenType::PROPERTY {
            add_name(&mut properties, &t.text);
        } else if kind == TokenType::PARAMETER {
            let keep = match &object {
                Some(o) => !contains_chars(&to_chars(t.text.as_str()), o),
                None => true,
            };
            if keep {
                add_name(&mut parameters, &t.text);
            }
            assert(parameter_names_in(now, ov) == if keep {
                parameter_names_in(pre, ov).insert(t.text@)
            } else {
                parameter_names_in(pre, ov)
            });
        } else if kind == TokenType::OUTPUT {
            add_name(&mut outputs, &t.text);
        } else if kind == TokenType::RETURN {
            add_name(&mut return_values, &t.text);
        }
        if kind != TokenType::SPACE {
            let k = if kind == TokenType::PROPERTY || kind == TokenType::PARAMETER || kind
                == TokenType::OUTPUT || kind == TokenType::RETURN {
                TokenType::VARIABLE
            } else {
                kind
            };
            let ghost before = tokens@;
            tokens.push(Token { token_type: k, text: t.text.clone(), pos: t.pos });
            assert(token_views(tokens@) == token_views(before).push((k, t.text@, t.pos as nat)));
        }
        i += 1;
    }
    assert(token_views(raw@).take(raw.len() as int) == token_views(raw@));
    CollectedNames { tokens, properties, parameters, outputs, return_values }
}


/// Why a procedure could not be prepared.
#[derive(Debug, Clone, Copy, PartialEq, Eq, Structural)]
pub enum PrepareError {
    /// The procedure has no text.
    NoText,
    /// The code could not be read into tokens.
    Tokenize,
    /// The tokens do not form a program.
    Syntax,
}

/// A procedure ready for evaluation.
pub struct PreparedProcedure {
    pub procedure: Procedure,
    /// The tokens the parser read.
    pub tokens: Vec<Token>,
    /// The syntax tree of the code.
    pub expressions_node: ExpressionNode,
    /// The properties read, such as `[Material].{Density}`.
    pub properties: Vec<String>,
    /// The parameters read, such as `[Mattress].[Length]`.
    pub parameters: Vec<String>,
    /// The outputs assigned, such as `[Block].[Length] = ...`.
    pub outputs: Vec<String>,
    /// The values returned, such as `[Block] = ...`.
    pub return_values: Vec<String>,
}

/// The tokens read from the procedure's text once its comments are erased.
pub open spec fn lexed(p: Procedure) -> Option<Seq<(TokenType, Seq<char>, nat)>> {
    match p.text {
        Some(t) => lex_spec(erase_comments_spec(t@), 0),
        None => None,
    }
}

/// A copy of the tokens.
fn clone_tokens(v: &Vec<Token>) -> (r: Vec<Token>)
    ensures
        r@ == v@,
{
    let mut r: Vec<Token> = Vec::new();
    let mut i: usize = 0;
    while i < v.len()
        invariant
            i <= v.len(),
            r@ == v@.take(i as int),
        decreases v.len() - i,
    {
        r.push(v[i].clone());
        assert(v@.take(i + 1) == v@.take(i as int).push(v@[i as int]));
        i += 1;
    }
    assert(v@.take(v.len() as int) == v@);
    r
}

/// Prepares a procedure: erases its comments, reads its tokens, collects
/// the names it uses and parses it.
pub fn prepare_procedure(map: &TokenMap, procedure: &Procedure) -> (r: Result<
    PreparedProcedure,
    PrepareError,
>)
    requires
        map.wf(),
    ensures
        procedure.text is None <==> r matches Err(PrepareError::NoText),
        procedure.text is Some && lexed(*procedure) is None <==> r matches Err(
            PrepareError::Tokenize,
        ),
        r matches Ok(p) ==> {
            let raw = lexed(*procedure)->0;
            &&& lexed(*procedure) is Some
            &&& p.procedure == *procedure
            &&& token_views(p.tokens@) == visible_tokens(raw)
            &&& g_program(p.tokens@, 0) == Some(node_view(p.expressions_node))
            &&& lists(p.properties@, names_in(raw, TokenType::PROPERTY))
            &&& lists(p.parameters@, parameter_names_in(raw, object_view(procedure.object_name)))
            &&& lists(p.outputs@, names_in(raw, TokenType::OUTPUT))
            &&& lists(p.return_values@, names_in(raw, TokenType::RETURN))
        },
        r matches Err(PrepareError::Syntax) ==> lexed(*procedure) is Some && exists|t: Seq<Token>|
            token_views(t) == visible_tokens(lexed(*procedure)->0) && #[trigger] g_program(t, 0)
                is None,
{
    let text = match &procedure.text {
        Some(t) => t,
        None => {
            return Err(PrepareError::NoText);
        },
    };
    let code = erase_comments(text.as_str());
    let raw = match lex(map, code.as_str()) {
        Some(v) => v,
        None => {
            return Err(PrepareError::Tokenize);
        },
    };
    let names = collect_names(&raw, &procedure.object_name);
    let mut parser = Parser::new();
    parser.set_tokens(clone_tokens(&names.tokens));
    parser.set_code_1c(procedure.code_1c.clone());
    match parser.try_parse_code() {
        Some(node) => Ok(
            PreparedProcedure {
                procedure: procedure.clone(),
                tokens: names.tokens,
                expressions_node: node,
                properties: names.properties,
                parameters: names.parameters,
                outputs: names.outputs,
                return_values: names.return_values,
            },
        ),
        None => {
            assert(token_views(names.tokens@) == visible_tokens(lexed(*procedure)->0));
            Err(PrepareError::Syntax)
        },
    }
}


/// Whether `c` is one of the brackets `[`, `]`, `{`, `}`.
pub open spec fn is_bracket(c: char) -> bool {
    c == '[' || c == ']' || c == '{' || c == '}'
}

/// `s` without its brackets.
pub open spec fn without_brackets(s: Seq<char>) -> Seq<char>
    decreases s.len(),
{
    if s.len() == 0 {
        s
    } else if is_bracket(s.last()) {
        without_brackets(s.drop_last())
    } else {
        without_brackets(s.drop_last()).push(s.last())
    }
}

/// The bare name of a raw name: the part after the first `.` when there
/// is one, without brackets (`[Mattress].[Length]` gives `Length`).
pub open spec fn bare_name_spec(s: Seq<char>) -> Seq<char> {
    let i = index_of(s, '.');
    if i < s.len() {
        without_brackets(s.skip(i + 1))
    } else {
        without_brackets(s)
    }
}

/// The bare name of a raw name: the part after the first `.` when there
/// is one, without brackets.
pub fn remove_pair(text: &str) -> (r: String)
    ensures
        r@ == bare_name_spec(text@),
{
    let v = to_chars(text);
    let i = find_char(&v, '.', 0);
    proof {
        lemma_index_of_bounds(v@, '.');
        assert(v@.skip(0) == v@);
    }
    let start: usize = if i < v.len() {
        i + 1
    } else {
        0
    };
    let ghost part = v@.skip(start as int);
    assert(i >= v.len() ==> part == v@);
    let mut out: Vec<char> = Vec::new();
    let mut k: usize = start;
    while k < v.len()
        invariant
            start <= k <= v.len(),
            part == v@.skip(start as int),
            out@ == without_brackets(part.take(k - start)),
        decreases v.len() - k,
    {
        assert(part.take(k - start + 1).drop_last() == part.take(k - start));
        let c = v[k];
        if !(c == '[' || c == ']' || c == '{' || c == '}') {
            out.push(c);
        }
        k += 1;
    }
    assert(part.take(v.len() - start) == part);
    from_chars(&out)
}


/// The tokens the parser reads hold no white space and no raw names:
/// properties, parameters, outputs and returned values are all variables.
pub proof fn law_visible_token_kinds(raw: Seq<(TokenType, Seq<char>, nat)>)
    ensures
        forall|i: int| 0 <= i < visible_tokens(raw).len() ==> {
            let k = (#[trigger] visible_tokens(raw)[i]).0;
            k != TokenType::SPACE && k != TokenType::PROPERTY && k != TokenType::PARAMETER && k
                != TokenType::OUTPUT && k != TokenType::RETURN
        },
    decreases raw.len(),
{
    if raw.len() > 0 {
        law_visible_token_kinds(raw.drop_last());
    }
}

/// A bare name holds no brackets.
pub proof fn law_bare_name_has_no_brackets(s: Seq<char>)
    ensures
        forall|i: int| 0 <= i < bare_name_spec(s).len() ==> !is_bracket(#[trigger] bare_name_spec(s)[i]),
{
    let i = index_of(s, '.');
    if i < s.len() {
        lemma_without_brackets(s.skip(i + 1));
    } else {
        lemma_without_brackets(s);
    }
}

proof fn lemma_without_brackets(s: Seq<char>)
    ensures
        forall|i: int| 0 <= i < without_brackets(s).len() ==> !is_bracket(#[trigger] without_brackets(s)[i]),
    decreases s.len(),
{
    if s.len() > 0 {
        lemma_without_brackets(s.drop_last());
        let r = without_brackets(s.drop_last());
        if !is_bracket(s.last()) {
            assert forall|i: int| 0 <= i < without_brackets(s).len() implies !is_bracket(
                #[trigger] without_brackets(s)[i],
            ) by {
                if i < r.len() {
                    assert(without_brackets(s)[i] == r[i]);
                }
            }
        }
    }
}

/// The word that marks a returned value as waste.
pub const WASTE_WORD: &'static str = "отход";

/// Whether a returned value is the waste of the procedure rather than its
/// result: its name, in lowercase, holds `отход`.
pub fn is_waste_name(name: &String) -> (r: bool)
    ensures
        r == contains_spec(spec_to_lowercase(name@), WASTE_WORD@),
{
    contains_chars(&lowercase_chars(&to_chars(name.as_str())), &to_chars(WASTE_WORD))
}

/// The first of `parts` that `name` holds, by its place: the value given
/// to a name is that of the first entry of the scope whose name it holds.
pub fn first_contained(name: &String, parts: &Vec<String>) -> (r: Option<usize>)
    ensures
        match r {
            Some(j) => j < parts@.len() && contains_spec(name@, parts@[j as int]@) && forall|i: int|
                0 <= i < j ==> !contains_spec(name@, #[trigger] parts@[i]@),
            None => forall|i: int| 0 <= i < parts@.len() ==> !contains_spec(name@, #[trigger] parts@[i]@),
        },
{
    let v = to_chars(name.as_str());
    let mut i: usize = 0;
    while i < parts.len()
        invariant
            i <= parts@.len(),
            v@ == name@,
            forall|k: int| 0 <= k < i ==> !contains_spec(name@, #[trigger] parts@[k]@),
        decreases parts.len() - i,
    {
        if contains_chars(&v, &to_chars(parts[i].as_str())) {
            return Some(i);
        }
        i += 1;
    }
    None
}

} // verus!
