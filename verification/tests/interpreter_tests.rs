use expense_engine::interpreter::expression_nodes::ExpressionNode;
use expense_engine::interpreter::lexer::{erase_comments, get_token, lex};
use expense_engine::interpreter::maps::{get_keywords, get_operators, get_token_map};
use expense_engine::interpreter::parser::Parser;
use expense_engine::interpreter::prepare::{prepare_procedure, remove_pair, PrepareError};
use expense_engine::interpreter::tokens::{Token, TokenType};
use expense_engine::procedures::Procedure;
use expense_engine::samples::{_get_procedures_local, get_code_string_, get_procedures_local};

fn procedure(text: Option<&str>, object_name: Option<&str>) -> Procedure {
    Procedure {
        code_1c: "000000001".to_string(),
        name: "Процедура".to_string(),
        text: text.map(|t| t.to_string()),
        text_vba: None,
        object_code_1c: None,
        object_name: object_name.map(|o| o.to_string()),
    }
}

fn sorted(v: &[String]) -> Vec<String> {
    let mut w = v.to_vec();
    w.sort();
    w
}

#[test]
fn token_table_compiles() {
    assert!(get_token_map().is_some());
}

#[test]
fn tokens_are_classified() {
    let map = get_token_map().unwrap();
    let t = get_token(&map, "[Матрас].[Длина] = 5;").unwrap();
    assert_eq!(t.token_type, TokenType::OUTPUT);
    assert_eq!(t.text, "[Матрас].[Длина]");
    assert_eq!(t.pos, 0);
    let t = get_token(&map, "[Матрас].[Длина] * 2;").unwrap();
    assert_eq!(t.token_type, TokenType::PARAMETER);
    let t = get_token(&map, "[Клей].{Плотность};").unwrap();
    assert_eq!(t.token_type, TokenType::PROPERTY);
    assert_eq!(t.text, "[Клей].{Плотность}");
    let t = get_token(&map, "[Клей] = 5;").unwrap();
    assert_eq!(t.token_type, TokenType::RETURN);
    let t = get_token(&map, "[Клей];").unwrap();
    assert_eq!(t.token_type, TokenType::PARAMETER);
    assert_eq!(get_token(&map, "Если А").unwrap().token_type, TokenType::IF);
    assert_eq!(get_token(&map, "если А").unwrap().token_type, TokenType::IF);
    assert_eq!(get_token(&map, "ИначеЕсли А").unwrap().token_type, TokenType::ELSEIF);
    let t = get_token(&map, "123.45 + 1").unwrap();
    assert_eq!(t.token_type, TokenType::NUMBER);
    assert_eq!(t.text, "123.45");
    let t = get_token(&map, "   x").unwrap();
    assert_eq!(t.token_type, TokenType::SPACE);
    assert_eq!(t.text, "   ");
    assert_eq!(get_token(&map, ">= 1").unwrap().token_type, TokenType::GE);
    let t = get_token(&map, "<> 1").unwrap();
    assert_eq!(t.token_type, TokenType::NE);
    assert_eq!(t.text, "<>");
    let t = get_token(&map, "< 1").unwrap();
    assert_eq!(t.token_type, TokenType::LT);
    assert_eq!(t.text, "<");
    let t = get_token(&map, "\"Нет слоев\";").unwrap();
    assert_eq!(t.token_type, TokenType::STRING);
    assert_eq!(t.text, "\"Нет слоев\"");
    let t = get_token(&map, "РабочаяДлина = 1").unwrap();
    assert_eq!(t.token_type, TokenType::VARIABLE);
    assert_eq!(t.text, "РабочаяДлина");
    assert!(get_token(&map, "@").is_none());
}

#[test]
fn comments_and_blank_lines_are_erased() {
    let code = "  А = 1; // первая\n\n   // только комментарий\nБ = 2;\t\r\n";
    assert_eq!(erase_comments(code), "А = 1;\nБ = 2;");
    assert_eq!(erase_comments(""), "");
}

#[test]
fn lexing_keeps_every_character_and_byte_offsets() {
    let map = get_token_map().unwrap();
    let code = "Ширина = [Матрас].[Ширина];";
    let tokens = lex(&map, code).unwrap();
    let joined: String = tokens.iter().map(|t| t.text.as_str()).collect();
    assert_eq!(joined, code);
    let kinds: Vec<TokenType> = tokens.iter().map(|t| t.token_type).collect();
    assert_eq!(
        kinds,
        vec![
            TokenType::VARIABLE,
            TokenType::SPACE,
            TokenType::ASSIGN,
            TokenType::SPACE,
            TokenType::PARAMETER,
            TokenType::SEMICOLON
        ]
    );
    let mut offset = 0;
    for t in &tokens {
        assert_eq!(t.pos, offset);
        offset += t.text.len();
    }
    assert!(lex(&map, "А = 1 @ 2;").is_none());
}

fn tok(token_type: TokenType, text: &str) -> Token {
    Token { token_type, text: text.to_string(), pos: 0 }
}

#[test]
fn parser_builds_precedence_tree() {
    let mut parser = Parser::new();
    parser.set_tokens(vec![
        tok(TokenType::VARIABLE, "А"),
        tok(TokenType::ASSIGN, "="),
        tok(TokenType::NUMBER, "1"),
        tok(TokenType::PLUS, "+"),
        tok(TokenType::NUMBER, "2"),
        tok(TokenType::STAR, "*"),
        tok(TokenType::NUMBER, "3"),
        tok(TokenType::SEMICOLON, ";"),
    ]);
    let node = parser.try_parse_code().unwrap();
    match node {
        ExpressionNode::Statements(list) => {
            assert_eq!(list.len(), 1);
            match &list[0] {
                ExpressionNode::Assign { left, right, .. } => {
                    assert!(matches!(&**left, ExpressionNode::Variable(t) if t.text == "А"));
                    match &**right {
                        ExpressionNode::BinOperation { operator, left, right } => {
                            assert_eq!(operator.token_type, TokenType::PLUS);
                            assert!(matches!(&**left, ExpressionNode::Number(t) if t.text == "1"));
                            assert!(matches!(&**right, ExpressionNode::BinOperation { operator, .. } if operator.token_type == TokenType::STAR));
                        },
                        other => panic!("unexpected {:?}", other),
                    }
                },
                other => panic!("unexpected {:?}", other),
            }
        },
        other => panic!("unexpected {:?}", other),
    }
}

#[test]
fn parser_reads_calls_and_conditionals() {
    let mut parser = Parser::new();
    parser.set_tokens(vec![
        tok(TokenType::IF, "Если"),
        tok(TokenType::NOT, "не"),
        tok(TokenType::VARIABLE, "А"),
        tok(TokenType::THEN, "Тогда"),
        tok(TokenType::VARIABLE, "Б"),
        tok(TokenType::ASSIGN, "="),
        tok(TokenType::VARIABLE, "Окр"),
        tok(TokenType::LPAR, "("),
        tok(TokenType::VARIABLE, "В"),
        tok(TokenType::COMMA, ","),
        tok(TokenType::NUMBER, "2"),
        tok(TokenType::RPAR, ")"),
        tok(TokenType::SEMICOLON, ";"),
        tok(TokenType::ELSE, "Иначе"),
        tok(TokenType::SEMICOLON, ";"),
        tok(TokenType::ENDIF, "КонецЕсли"),
        tok(TokenType::SEMICOLON, ";"),
    ]);
    let node = parser.parse_code();
    let ExpressionNode::Statements(list) = node else { panic!("not a list") };
    assert_eq!(list.len(), 1);
    let ExpressionNode::If { branches, else_body } = &list[0] else { panic!("not a conditional") };
    assert_eq!(branches.len(), 1);
    assert!(matches!(&branches[0].condition, ExpressionNode::UnaryOperation { .. }));
    assert_eq!(branches[0].body.len(), 1);
    let ExpressionNode::Assign { right, .. } = &branches[0].body[0] else { panic!("not an assignment") };
    let ExpressionNode::FunctionCall { name, args } = &**right else { panic!("not a call") };
    assert_eq!(name.text, "Окр");
    assert_eq!(args.len(), 2);
    let body = else_body.as_ref().unwrap();
    assert_eq!(body.len(), 1);
    assert!(matches!(body[0], ExpressionNode::Empty));
}

#[test]
fn parser_rejects_bad_syntax() {
    let mut parser = Parser::new();
    parser.set_tokens(vec![
        tok(TokenType::VARIABLE, "А"),
        tok(TokenType::ASSIGN, "="),
        tok(TokenType::SEMICOLON, ";"),
    ]);
    assert!(parser.try_parse_code().is_none());
    let mut parser = Parser::new();
    parser.set_tokens(vec![tok(TokenType::VARIABLE, "А")]);
    assert!(parser.try_parse_code().is_none());
    let mut parser = Parser::new();
    let empty = parser.try_parse_code().unwrap();
    assert!(matches!(empty, ExpressionNode::Statements(ref l) if l.is_empty()));
}

#[test]
fn spring_block_procedure_is_prepared() {
    let map = get_token_map().unwrap();
    let procedures = get_procedures_local();
    assert_eq!(procedures.len(), 1);
    let prepared = prepare_procedure(&map, &procedures[0]).ok().unwrap();
    assert_eq!(prepared.procedure.code_1c, "_");
    assert_eq!(sorted(&prepared.parameters), vec!["[Матрас].[Длина]", "[Матрас].[Ширина]"]);
    assert_eq!(
        sorted(&prepared.outputs),
        vec!["[БлокПружинный].[Длина]", "[БлокПружинный].[Ширина]"]
    );
    assert_eq!(sorted(&prepared.return_values), vec!["[БлокПружинный]", "[БлокПружинныйОтход]"]);
    assert!(prepared.properties.is_empty());
    assert!(prepared.tokens.iter().all(|t| t.token_type != TokenType::SPACE));
    let ExpressionNode::Statements(list) = &prepared.expressions_node else { panic!("not a list") };
    assert_eq!(list.len(), 8);
}

#[test]
fn sewing_procedure_is_prepared() {
    let map = get_token_map().unwrap();
    let procedures = _get_procedures_local();
    let prepared = prepare_procedure(&map, &procedures[0]).ok().unwrap();
    assert_eq!(prepared.properties, vec!["[ШвейныеМатериалы].{Ширина}"]);
    // A comparison `[A].[B]=0.7` is read as an output, as an assignment would be.
    assert!(prepared.parameters.is_empty());
    assert_eq!(
        sorted(&prepared.outputs),
        vec!["[Подушка].[Длина]", "[Подушка].[Ширина]", "[ШвейныеМатериалы].[Ширина]"]
    );
    assert_eq!(
        sorted(&prepared.return_values),
        vec!["[ШвейныеМатериалы]", "[ШвейныеМатериалыОтход]"]
    );
}

#[test]
fn second_spring_block_code_is_prepared() {
    let map = get_token_map().unwrap();
    let code = get_code_string_();
    let p = procedure(Some(code.as_str()), Some("БлокПружинный"));
    assert!(prepare_procedure(&map, &p).is_ok());
}

#[test]
fn preparation_errors() {
    let map = get_token_map().unwrap();
    assert_eq!(prepare_procedure(&map, &procedure(None, None)).err(), Some(PrepareError::NoText));
    assert_eq!(
        prepare_procedure(&map, &procedure(Some("А = 1 @ 2;"), None)).err(),
        Some(PrepareError::Tokenize)
    );
    assert_eq!(
        prepare_procedure(&map, &procedure(Some("А = ;"), None)).err(),
        Some(PrepareError::Syntax)
    );
    assert!(prepare_procedure(&map, &procedure(Some("// пусто"), None)).is_ok());
}

#[test]
fn parameters_of_the_object_are_left_out() {
    let map = get_token_map().unwrap();
    let text = "[Блок] = [Матрас].[Длина] / [Блок].[Длина];";
    let p = prepare_procedure(&map, &procedure(Some(text), Some("Блок"))).ok().unwrap();
    assert_eq!(p.parameters, vec!["[Матрас].[Длина]"]);
    assert_eq!(p.return_values, vec!["[Блок]"]);
    let q = prepare_procedure(&map, &procedure(Some(text), None)).ok().unwrap();
    assert_eq!(sorted(&q.parameters), vec!["[Блок].[Длина]", "[Матрас].[Длина]"]);
}

#[test]
fn bare_names() {
    assert_eq!(remove_pair("[Матрас].[Длина]"), "Длина");
    assert_eq!(remove_pair("[Клей].{Плотность}"), "Плотность");
    assert_eq!(remove_pair("[БлокПружинный]"), "БлокПружинный");
    assert_eq!(remove_pair("А.Б.В"), "Б.В");
}

#[test]
fn word_maps() {
    assert!(get_keywords().is_empty());
    assert_eq!(get_operators(), vec![("цел", "Fix"), ("окр", "Round")]);
}
