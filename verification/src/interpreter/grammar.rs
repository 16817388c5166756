//! The grammar of the procedure language, as functions from a token
//! sequence and a position to the tree read there and the number of tokens
//! it takes. `None` marks a token sequence that the parser rejects.

use vstd::prelude::*;
use crate::interpreter::expression_nodes::Ast;
use crate::interpreter::tokens::{Token, TokenType};

verus! {

/// Whether the token at `p` exists and has kind `k`.
pub open spec fn is_kind(t: Seq<Token>, p: nat, k: TokenType) -> bool {
    p < t.len() && t[p as int].token_type == k
}

/// Classes of operator, one per precedence level.
#[derive(Debug, Clone, Copy, PartialEq, Eq, Structural)]
pub enum OpClass {
    /// `и`, `или`.
    Logical,
    /// `=`, `<>`, `>`, `<`, `>=`, `<=`.
    Comparison,
    /// `+`, `-`.
    Additive,
    /// `*`, `/`.
    Multiplicative,
    /// `не`, `-`.
    Unary,
}

/// Whether `k` is an operator of class `c`.
pub open spec fn is_op(k: TokenType, c: OpClass) -> bool {
    match c {
        OpClass::Logical => k == TokenType::AND || k == TokenType::OR,
        OpClass::Comparison => k == TokenType::ASSIGN || k == TokenType::NE || k == TokenType::GT
            || k == TokenType::LT || k == TokenType::GE || k == TokenType::LE,
        OpClass::Additive => k == TokenType::PLUS || k == TokenType::MINUS,
        OpClass::Multiplicative => k == TokenType::STAR || k == TokenType::SLASH,
        OpClass::Unary => k == TokenType::NOT || k == TokenType::MINUS,
    }
}

/// Whether `k` is an operator of class `c`.
pub fn is_op_exec(k: TokenType, c: OpClass) -> (b: bool)
    ensures
        b == is_op(k, c),
{
    match c {
        OpClass::Logical => k == TokenType::AND || k == TokenType::OR,
        OpClass::Comparison => k == TokenType::ASSIGN || k == TokenType::NE || k == TokenType::GT
            || k == TokenType::LT || k == TokenType::GE || k == TokenType::LE,
        OpClass::Additive => k == TokenType::PLUS || k == TokenType::MINUS,
        OpClass::Multiplicative => k == TokenType::STAR || k == TokenType::SLASH,
        OpClass::Unary => k == TokenType::NOT || k == TokenType::MINUS,
    }
}

/// The classes of operator by their token kinds: `и`, `или` are logical;
/// `=`, `<>`, `>`, `<`, `>=`, `<=` compare; `+`, `-` add; `*`, `/`
/// multiply (so they bind tighter than `+` and `-`); `не` and `-` are
/// unary. No other kind is an operator of these classes.
pub proof fn law_operator_classes(k: TokenType)
    ensures
        is_op(k, OpClass::Logical) <==> (k == TokenType::AND || k == TokenType::OR),
        is_op(k, OpClass::Comparison) <==> (k == TokenType::ASSIGN || k == TokenType::NE || k
            == TokenType::GT || k == TokenType::LT || k == TokenType::GE || k == TokenType::LE),
        is_op(k, OpClass::Additive) <==> (k == TokenType::PLUS || k == TokenType::MINUS),
        is_op(k, OpClass::Multiplicative) <==> (k == TokenType::STAR || k == TokenType::SLASH),
        is_op(k, OpClass::Unary) <==> (k == TokenType::NOT || k == TokenType::MINUS),
        !(is_op(k, OpClass::Additive) && is_op(k, OpClass::Multiplicative)),
{
}

/// Whether the token at `p` exists and is an operator of class `c`.
pub open spec fn is_kind_in(t: Seq<Token>, p: nat, c: OpClass) -> bool {
    p < t.len() && is_op(t[p as int].token_type, c)
}

/// The kinds that end a block of statements.
#[derive(Debug, Clone, Copy, PartialEq, Eq, Structural)]
pub enum BlockEnd {
    /// Body of `Если` or `ИначеЕсли`: ends at `ИначеЕсли`, `Иначе`, `КонецЕсли`.
    Branch,
    /// Body of `Иначе`: ends at `КонецЕсли`.
    Else,
    /// Whole program: ends only with the tokens.
    Program,
}

/// Whether `k` ends a block of kind `e`.
pub open spec fn ends_block(k: TokenType, e: BlockEnd) -> bool {
    match e {
        BlockEnd::Branch => k == TokenType::ELSEIF || k == TokenType::ELSE || k == TokenType::ENDIF,
        BlockEnd::Else => k == TokenType::ENDIF,
        BlockEnd::Program => false,
    }
}

/// Whether `k` ends a block of kind `e`.
pub fn ends_block_exec(k: TokenType, e: BlockEnd) -> (b: bool)
    ensures
        b == ends_block(k, e),
{
    match e {
        BlockEnd::Branch => k == TokenType::ELSEIF || k == TokenType::ELSE || k == TokenType::ENDIF,
        BlockEnd::Else => k == TokenType::ENDIF,
        BlockEnd::Program => false,
    }
}

/// A literal, a variable or a call `Name(Arg, ...)`.
pub closed spec fn g_primary(t: Seq<Token>, p: nat) -> Option<(Ast, nat)>
    decreases t.len() - p, 0int,
{
    if is_kind(t, p, TokenType::NUMBER) {
        Some((Ast::Number(t[p as int]), 1))
    } else if is_kind(t, p, TokenType::STRING) {
        Some((Ast::Str(t[p as int]), 1))
    } else if is_kind(t, p, TokenType::VARIABLE) {
        if is_kind(t, p + 1, TokenType::LPAR) {
            if p + 2 >= t.len() {
                None
            } else if is_kind(t, p + 2, TokenType::RPAR) {
                Some((Ast::FunctionCall { name: t[p as int], args: seq![] }, 3))
            } else {
                match g_args(t, p + 2) {
                    Some((a, n)) => if is_kind(t, p + 2 + n, TokenType::RPAR) {
                        Some((Ast::FunctionCall { name: t[p as int], args: a }, n + 3))
                    } else {
                        None
                    },
                    None => None,
                }
            }
        } else {
            Some((Ast::Variable(t[p as int]), 1))
        }
    } else {
        None
    }
}

/// Arguments of a call: formulas separated by commas.
pub closed spec fn g_args(t: Seq<Token>, p: nat) -> Option<(Seq<Ast>, nat)>
    decreases t.len() - p, 11int,
{
    match g_formula(t, p) {
        Some((a, n)) => if is_kind(t, p + n, TokenType::COMMA) {
            match g_args(t, p + n + 1) {
                Some((rest, m)) => Some((seq![a] + rest, n + 1 + m)),
                None => None,
            }
        } else {
            Some((seq![a], n))
        },
        None => None,
    }
}

/// A parenthesised formula, or a primary.
pub closed spec fn g_parens(t: Seq<Token>, p: nat) -> Option<(Ast, nat)>
    decreases t.len() - p, 1int,
{
    if is_kind(t, p, TokenType::LPAR) {
        match g_formula(t, p + 1) {
            Some((e, n)) => if is_kind(t, p + 1 + n, TokenType::RPAR) {
                Some((e, n + 2))
            } else {
                None
            },
            None => None,
        }
    } else {
        g_primary(t, p)
    }
}

/// `не X`, `-X`, or a parenthesised formula or primary.
pub closed spec fn g_unary(t: Seq<Token>, p: nat) -> Option<(Ast, nat)>
    decreases t.len() - p, 2int,
{
    if is_kind_in(t, p, OpClass::Unary) {
        match g_parens(t, p + 1) {
            Some((e, n)) => Some(
                (Ast::UnaryOperation { operator: t[p as int], operand: Box::new(e) }, n + 1),
            ),
            None => None,
        }
    } else {
        g_parens(t, p)
    }
}

/// The rest of a left-associated chain `left op x op y ...` at level 1.
pub closed spec fn g_mult_tail(t: Seq<Token>, left: Ast, p: nat) -> Option<(Ast, nat)>
    decreases t.len() - p, 3int,
{
    if is_kind_in(t, p, OpClass::Multiplicative) {
        match g_unary(t, p + 1) {
            Some((r, n)) => if p + 1 + n <= t.len() {
                match g_mult_tail(
                    t,
                    Ast::BinOperation { operator: t[p as int], left: Box::new(left), right: Box::new(r) },
                    p + 1 + n,
                ) {
                    Some((e, m)) => Some((e, n + 1 + m)),
                    None => None,
                }
            } else {
                None
            },
            None => None,
        }
    } else {
        Some((left, 0))
    }
}

/// Products and quotients.
pub closed spec fn g_mult(t: Seq<Token>, p: nat) -> Option<(Ast, nat)>
    decreases t.len() - p, 4int,
{
    match g_unary(t, p) {
        Some((l, n)) => if p + n <= t.len() {
            match g_mult_tail(t, l, p + n) {
                Some((e, m)) => Some((e, n + m)),
                None => None,
            }
        } else {
            None
        },
        None => None,
    }
}

/// The rest of a chain of sums and differences.
pub closed spec fn g_add_tail(t: Seq<Token>, left: Ast, p: nat) -> Option<(Ast, nat)>
    decreases t.len() - p, 5int,
{
    if is_kind_in(t, p, OpClass::Additive) {
        match g_mult(t, p + 1) {
            Some((r, n)) => if p + 1 + n <= t.len() {
                match g_add_tail(
                    t,
                    Ast::BinOperation { operator: t[p as int], left: Box::new(left), right: Box::new(r) },
                    p + 1 + n,
                ) {
                    Some((e, m)) => Some((e, n + 1 + m)),
                    None => None,
                }
            } else {
                None
            },
            None => None,
        }
    } else {
        Some((left, 0))
    }
}

/// Sums and differences.
pub closed spec fn g_add(t: Seq<Token>, p: nat) -> Option<(Ast, nat)>
    decreases t.len() - p, 6int,
{
    match g_mult(t, p) {
        Some((l, n)) => if p + n <= t.len() {
            match g_add_tail(t, l, p + n) {
                Some((e, m)) => Some((e, n + m)),
                None => None,
            }
        } else {
            None
        },
        None => None,
    }
}

/// The rest of a chain of comparisons.
pub closed spec fn g_comparison_tail(t: Seq<Token>, left: Ast, p: nat) -> Option<(Ast, nat)>
    decreases t.len() - p, 7int,
{
    if is_kind_in(t, p, OpClass::Comparison) {
        match g_add(t, p + 1) {
            Some((r, n)) => if p + 1 + n <= t.len() {
                match g_comparison_tail(
                    t,
                    Ast::BinOperation { operator: t[p as int], left: Box::new(left), right: Box::new(r) },
                    p + 1 + n,
                ) {
                    Some((e, m)) => Some((e, n + 1 + m)),
                    None => None,
                }
            } else {
                None
            },
            None => None,
        }
    } else {
        Some((left, 0))
    }
}

/// Comparisons (`=`, `<>`, `>`, `<`, `>=`, `<=`).
pub closed spec fn g_comparison(t: Seq<Token>, p: nat) -> Option<(Ast, nat)>
    decreases t.len() - p, 8int,
{
    match g_add(t, p) {
        Some((l, n)) => if p + n <= t.len() {
            match g_comparison_tail(t, l, p + n) {
                Some((e, m)) => Some((e, n + m)),
                None => None,
            }
        } else {
            None
        },
        None => None,
    }
}

/// The rest of a chain of `и` / `или`.
pub closed spec fn g_formula_tail(t: Seq<Token>, left: Ast, p: nat) -> Option<(Ast, nat)>
    decreases t.len() - p, 9int,
{
    if is_kind_in(t, p, OpClass::Logical) {
        match g_comparison(t, p + 1) {
            Some((r, n)) => if p + 1 + n <= t.len() {
                match g_formula_tail(
                    t,
                    Ast::BinOperation { operator: t[p as int], left: Box::new(left), right: Box::new(r) },
                    p + 1 + n,
                ) {
                    Some((e, m)) => Some((e, n + 1 + m)),
                    None => None,
                }
            } else {
                None
            },
            None => None,
        }
    } else {
        Some((left, 0))
    }
}

/// A formula: the lowest precedence level, logical `и` / `или`.
pub closed spec fn g_formula(t: Seq<Token>, p: nat) -> Option<(Ast, nat)>
    decreases t.len() - p, 10int,
{
    match g_comparison(t, p) {
        Some((l, n)) => if p + n <= t.len() {
            match g_formula_tail(t, l, p + n) {
                Some((e, m)) => Some((e, n + m)),
                None => None,
            }
        } else {
            None
        },
        None => None,
    }
}

/// A conditional after its `Если`: condition, `Тогда`, body, then the rest.
pub closed spec fn g_if(t: Seq<Token>, p: nat) -> Option<(Ast, nat)>
    decreases t.len() - p, 12int,
{
    match g_formula(t, p) {
        Some((c, n)) => if is_kind(t, p + n, TokenType::THEN) {
            match g_block(t, p + n + 1, BlockEnd::Branch) {
                Some((body, m)) => if p + n + 1 + m <= t.len() {
                    match g_if_rest(t, p + n + 1 + m, seq![(c, body)]) {
                        Some((node, k)) => Some((node, n + 1 + m + k)),
                        None => None,
                    }
                } else {
                    None
                },
                None => None,
            }
        } else {
            None
        },
        None => None,
    }
}

/// The `ИначеЕсли` branches, the optional `Иначе` body and `КонецЕсли`,
/// after the branches already read.
pub closed spec fn g_if_rest(t: Seq<Token>, p: nat, branches: Seq<(Ast, Seq<Ast>)>) -> Option<
    (Ast, nat),
>
    decreases t.len() - p, 12int,
{
    if is_kind(t, p, TokenType::ELSEIF) {
        match g_formula(t, p + 1) {
            Some((c, n)) => if is_kind(t, p + 1 + n, TokenType::THEN) {
                match g_block(t, p + n + 2, BlockEnd::Branch) {
                    Some((body, m)) => if p + n + 2 + m <= t.len() {
                        match g_if_rest(t, p + n + 2 + m, branches.push((c, body))) {
                            Some((node, k)) => Some((node, n + 2 + m + k)),
                            None => None,
                        }
                    } else {
                        None
                    },
                    None => None,
                }
            } else {
                None
            },
            None => None,
        }
    } else if is_kind(t, p, TokenType::ELSE) {
        match g_block(t, p + 1, BlockEnd::Else) {
            Some((body, m)) => if is_kind(t, p + 1 + m, TokenType::ENDIF) {
                Some((Ast::If { branches, else_body: Some(body) }, m + 2))
            } else {
                None
            },
            None => None,
        }
    } else if is_kind(t, p, TokenType::ENDIF) {
        Some((Ast::If { branches, else_body: None }, 1))
    } else {
        None
    }
}

/// One statement: empty (at `;`), a conditional, an assignment or a
/// formula.
pub closed spec fn g_statement(t: Seq<Token>, p: nat) -> Option<(Ast, nat)>
    decreases t.len() - p, 13int,
{
    if p >= t.len() {
        None
    } else if t[p as int].token_type == TokenType::SEMICOLON {
        Some((Ast::Nothing, 0))
    } else if t[p as int].token_type == TokenType::IF {
        match g_if(t, p + 1) {
            Some((node, n)) => Some((node, n + 1)),
            None => None,
        }
    } else if t[p as int].token_type == TokenType::VARIABLE && is_kind(
        t,
        p + 1,
        TokenType::ASSIGN,
    ) {
        match g_formula(t, p + 2) {
            Some((r, n)) => Some(
                (
                    Ast::Assign {
                        operator: t[p + 1int],
                        left: Box::new(Ast::Variable(t[p as int])),
                        right: Box::new(r),
                    },
                    n + 2,
                ),
            ),
            None => None,
        }
    } else {
        g_formula(t, p)
    }
}

/// Statements, each closed by `;`, up to the end or a stop kind.
pub closed spec fn g_block(t: Seq<Token>, p: nat, stops: BlockEnd) -> Option<(Seq<Ast>, nat)>
    decreases t.len() - p, 14int,
{
    if p >= t.len() {
        Some((seq![], 0))
    } else if ends_block(t[p as int].token_type, stops) {
        Some((seq![], 0))
    } else {
        match g_statement(t, p) {
            Some((s, n)) => if is_kind(t, p + n, TokenType::SEMICOLON) {
                match g_block(t, p + n + 1, stops) {
                    Some((rest, m)) => Some((seq![s] + rest, n + 1 + m)),
                    None => None,
                }
            } else {
                None
            },
            None => None,
        }
    }
}

/// A whole program read from position `p`: statements, each closed by
/// `;`, to the end of the tokens.
pub open spec fn g_program(t: Seq<Token>, p: nat) -> Option<Ast> {
    match g_block(t, p, BlockEnd::Program) {
        Some((list, n)) => Some(Ast::Statements(list)),
        None => None,
    }
}

/// One step of [`g_primary`].
pub proof fn unfold_g_primary(t: Seq<Token>, p: nat)
    ensures
        g_primary(t, p) == ({
            if is_kind(t, p, TokenType::NUMBER) {
                Some((Ast::Number(t[p as int]), 1))
            } else if is_kind(t, p, TokenType::STRING) {
                Some((Ast::Str(t[p as int]), 1))
            } else if is_kind(t, p, TokenType::VARIABLE) {
                if is_kind(t, p + 1, TokenType::LPAR) {
                    if p + 2 >= t.len() {
                        None
                    } else if is_kind(t, p + 2, TokenType::RPAR) {
                        Some((Ast::FunctionCall { name: t[p as int], args: seq![] }, 3))
                    } else {
                        match g_args(t, p + 2) {
                            Some((a, n)) => if is_kind(t, p + 2 + n, TokenType::RPAR) {
                                Some((Ast::FunctionCall { name: t[p as int], args: a }, n + 3))
                            } else {
                                None
                            },
                            None => None,
                        }
                    }
                } else {
                    Some((Ast::Variable(t[p as int]), 1))
                }
            } else {
                None
            }
        }),
{
}

/// One step of [`g_args`].
pub proof fn unfold_g_args(t: Seq<Token>, p: nat)
    ensures
        g_args(t, p) == ({
            match g_formula(t, p) {
                Some((a, n)) => if is_kind(t, p + n, TokenType::COMMA) {
                    match g_args(t, p + n + 1) {
                        Some((rest, m)) => Some((seq![a] + rest, n + 1 + m)),
                        None => None,
                    }
                } else {
                    Some((seq![a], n))
                },
                None => None,
            }
        }),
{
}

/// One step of [`g_parens`].
pub proof fn unfold_g_parens(t: Seq<Token>, p: nat)
    ensures
        g_parens(t, p) == ({
            if is_kind(t, p, TokenType::LPAR) {
                match g_formula(t, p + 1) {
                    Some((e, n)) => if is_kind(t, p + 1 + n, TokenType::RPAR) {
                        Some((e, n + 2))
                    } else {
                        None
                    },
                    None => None,
                }
            } else {
                g_primary(t, p)
            }
        }),
{
}

/// One step of [`g_unary`].
pub proof fn unfold_g_unary(t: Seq<Token>, p: nat)
    ensures
        g_unary(t, p) == ({
            if is_kind_in(t, p, OpClass::Unary) {
                match g_parens(t, p + 1) {
                    Some((e, n)) => Some(
                        (Ast::UnaryOperation { operator: t[p as int], operand: Box::new(e) }, n + 1),
                    ),
                    None => None,
                }
            } else {
                g_parens(t, p)
            }
        }),
{
}

/// One step of [`g_mult_tail`].
pub proof fn unfold_g_mult_tail(t: Seq<Token>, left: Ast, p: nat)
    ensures
        g_mult_tail(t, left, p) == ({
            if is_kind_in(t, p, OpClass::Multiplicative) {
                match g_unary(t, p + 1) {
                    Some((r, n)) => if p + 1 + n <= t.len() {
                        match g_mult_tail(
                            t,
                            Ast::BinOperation { operator: t[p as int], left: Box::new(left), right: Box::new(r) },
                            p + 1 + n,
                        ) {
                            Some((e, m)) => Some((e, n + 1 + m)),
                            None => None,
                        }
                    } else {
                        None
                    },
                    None => None,
                }
            } else {
                Some((left, 0))
            }
        }),
{
}

/// One step of [`g_mult`].
pub proof fn unfold_g_mult(t: Seq<Token>, p: nat)
    ensures
        g_mult(t, p) == ({
            match g_unary(t, p) {
                Some((l, n)) => if p + n <= t.len() {
                    match g_mult_tail(t, l, p + n) {
                        Some((e, m)) => Some((e, n + m)),
                        None => None,
                    }
                } else {
                    None
                },
                None => None,
            }
        }),
{
}

/// One step of [`g_add_tail`].
pub proof fn unfold_g_add_tail(t: Seq<Token>, left: Ast, p: nat)
    ensures
        g_add_tail(t, left, p) == ({
            if is_kind_in(t, p, OpClass::Additive) {
                match g_mult(t, p + 1) {
                    Some((r, n)) => if p + 1 + n <= t.len() {
                        match g_add_tail(
                            t,
                            Ast::BinOperation { operator: t[p as int], left: Box::new(left), right: Box::new(r) },
                            p + 1 + n,
                        ) {
                            Some((e, m)) => Some((e, n + 1 + m)),
                            None => None,
                        }
                    } else {
                        None
                    },
                    None => None,
                }
            } else {
                Some((left, 0))
            }
        }),
{
}

/// One step of [`g_add`].
pub proof fn unfold_g_add(t: Seq<Token>, p: nat)
    ensures
        g_add(t, p) == ({
            match g_mult(t, p) {
                Some((l, n)) => if p + n <= t.len() {
                    match g_add_tail(t, l, p + n) {
                        Some((e, m)) => Some((e, n + m)),
                        None => None,
                    }
                } else {
                    None
                },
                None => None,
            }
        }),
{
}

/// One step of [`g_comparison_tail`].
pub proof fn unfold_g_comparison_tail(t: Seq<Token>, left: Ast, p: nat)
    ensures
        g_comparison_tail(t, left, p) == ({
            if is_kind_in(t, p, OpClass::Comparison) {
                match g_add(t, p + 1) {
                    Some((r, n)) => if p + 1 + n <= t.len() {
                        match g_comparison_tail(
                            t,
                            Ast::BinOperation { operator: t[p as int], left: Box::new(left), right: Box::new(r) },
                            p + 1 + n,
                        ) {
                            Some((e, m)) => Some((e, n + 1 + m)),
                            None => None,
                        }
                    } else {
                        None
                    },
                    None => None,
                }
            } else {
                Some((left, 0))
            }
        }),
{
}

/// One step of [`g_comparison`].
pub proof fn unfold_g_comparison(t: Seq<Token>, p: nat)
    ensures
        g_comparison(t, p) == ({
            match g_add(t, p) {
                Some((l, n)) => if p + n <= t.len() {
                    match g_comparison_tail(t, l, p + n) {
                        Some((e, m)) => Some((e, n + m)),
                        None => None,
                    }
                } else {
                    None
                },
                None => None,
            }
        }),
{
}

/// One step of [`g_formula_tail`].
pub proof fn unfold_g_formula_tail(t: Seq<Token>, left: Ast, p: nat)
    ensures
        g_formula_tail(t, left, p) == ({
            if is_kind_in(t, p, OpClass::Logical) {
                match g_comparison(t, p + 1) {
                    Some((r, n)) => if p + 1 + n <= t.len() {
                        match g_formula_tail(
                            t,
                            Ast::BinOperation { operator: t[p as int], left: Box::new(left), right: Box::new(r) },
                            p + 1 + n,
                        ) {
                            Some((e, m)) => Some((e, n + 1 + m)),
                            None => None,
                        }
                    } else {
                        None
                    },
                    None => None,
                }
            } else {
                Some((left, 0))
            }
        }),
{
}

/// One step of [`g_formula`].
pub proof fn unfold_g_formula(t: Seq<Token>, p: nat)
    ensures
        g_formula(t, p) == ({
            match g_comparison(t, p) {
                Some((l, n)) => if p + n <= t.len() {
                    match g_formula_tail(t, l, p + n) {
                        Some((e, m)) => Some((e, n + m)),
                        None => None,
                    }
                } else {
                    None
                },
                None => None,
            }
        }),
{
}

/// One step of [`g_if`].
pub proof fn unfold_g_if(t: Seq<Token>, p: nat)
    ensures
        g_if(t, p) == ({
            match g_formula(t, p) {
                Some((c, n)) => if is_kind(t, p + n, TokenType::THEN) {
                    match g_block(t, p + n + 1, BlockEnd::Branch) {
                        Some((body, m)) => if p + n + 1 + m <= t.len() {
                            match g_if_rest(t, p + n + 1 + m, seq![(c, body)]) {
                                Some((node, k)) => Some((node, n + 1 + m + k)),
                                None => None,
                            }
                        } else {
                            None
                        },
                        None => None,
                    }
                } else {
                    None
                },
                None => None,
            }
        }),
{
}

/// One step of [`g_if_rest`].
pub proof fn unfold_g_if_rest(t: Seq<Token>, p: nat, branches: Seq<(Ast, Seq<Ast>)>)
    ensures
        g_if_rest(t, p, branches) == ({
            if is_kind(t, p, TokenType::ELSEIF) {
                match g_formula(t, p + 1) {
                    Some((c, n)) => if is_kind(t, p + 1 + n, TokenType::THEN) {
                        match g_block(t, p + n + 2, BlockEnd::Branch) {
                            Some((body, m)) => if p + n + 2 + m <= t.len() {
                                match g_if_rest(t, p + n + 2 + m, branches.push((c, body))) {
                                    Some((node, k)) => Some((node, n + 2 + m + k)),
                                    None => None,
                                }
                            } else {
                                None
                            },
                            None => None,
                        }
                    } else {
                        None
                    },
                    None => None,
                }
            } else if is_kind(t, p, TokenType::ELSE) {
                match g_block(t, p + 1, BlockEnd::Else) {
                    Some((body, m)) => if is_kind(t, p + 1 + m, TokenType::ENDIF) {
                        Some((Ast::If { branches, else_body: Some(body) }, m + 2))
                    } else {
                        None
                    },
                    None => None,
                }
            } else if is_kind(t, p, TokenType::ENDIF) {
                Some((Ast::If { branches, else_body: None }, 1))
            } else {
                None
            }
        }),
{
}

/// One step of [`g_statement`].
pub proof fn unfold_g_statement(t: Seq<Token>, p: nat)
    ensures
        g_statement(t, p) == ({
            if p >= t.len() {
                None
            } else if t[p as int].token_type == TokenType::SEMICOLON {
                Some((Ast::Nothing, 0))
            } else if t[p as int].token_type == TokenType::IF {
                match g_if(t, p + 1) {
                    Some((node, n)) => Some((node, n + 1)),
                    None => None,
                }
            } else if t[p as int].token_type == TokenType::VARIABLE && is_kind(
                t,
                p + 1,
                TokenType::ASSIGN,
            ) {
                match g_formula(t, p + 2) {
                    Some((r, n)) => Some(
                        (
                            Ast::Assign {
                                operator: t[p + 1int],
                                left: Box::new(Ast::Variable(t[p as int])),
                                right: Box::new(r),
                            },
                            n + 2,
                        ),
                    ),
                    None => None,
                }
            } else {
                g_formula(t, p)
            }
        }),
{
}

/// One step of [`g_block`].
pub proof fn unfold_g_block(t: Seq<Token>, p: nat, stops: BlockEnd)
    ensures
        g_block(t, p, stops) == ({
            if p >= t.len() {
                Some((seq![], 0))
            } else if ends_block(t[p as int].token_type, stops) {
                Some((seq![], 0))
            } else {
                match g_statement(t, p) {
                    Some((s, n)) => if is_kind(t, p + n, TokenType::SEMICOLON) {
                        match g_block(t, p + n + 1, stops) {
                            Some((rest, m)) => Some((seq![s] + rest, n + 1 + m)),
                            None => None,
                        }
                    } else {
                        None
                    },
                    None => None,
                }
            }
        }),
{
}

} // verus!
