//! Recursive-descent parser of the procedure language.

use vstd::prelude::*;
use crate::interpreter::expression_nodes::{
    Ast, ExpressionNode, IfBranch, branches_view, node_view, nodes_view,
};
use crate::interpreter::grammar::{
    BlockEnd, OpClass, ends_block, ends_block_exec, g_add, g_add_tail, g_args, g_block,
    g_comparison, g_comparison_tail, g_formula, g_formula_tail, g_if, g_if_rest, g_mult,
    g_mult_tail, g_parens, g_primary, g_program, g_statement, g_unary, is_kind, is_kind_in, is_op_exec,
    unfold_g_add, unfold_g_add_tail, unfold_g_args, unfold_g_block, unfold_g_comparison,
    unfold_g_comparison_tail, unfold_g_formula, unfold_g_formula_tail, unfold_g_if,
    unfold_g_if_rest, unfold_g_mult, unfold_g_mult_tail, unfold_g_parens, unfold_g_primary,
    unfold_g_statement, unfold_g_unary,
};
use crate::interpreter::tokens::{Token, TokenType};

verus! {

/// A grammar result moved on by `k` tokens.
pub open spec fn shift_node(g: Option<(Ast, nat)>, k: nat) -> Option<(Ast, nat)> {
    match g {
        Some((e, m)) => Some((e, k + m)),
        None => None,
    }
}

/// A grammar result for a list, with `prefix` before it, moved on by `k`.
pub open spec fn shift_seq(g: Option<(Seq<Ast>, nat)>, prefix: Seq<Ast>, k: nat) -> Option<
    (Seq<Ast>, nat),
> {
    match g {
        Some((r, m)) => Some((prefix + r, k + m)),
        None => None,
    }
}

/// `r` is what the grammar result `g` says, read from `p0` to `p1`.
pub open spec fn node_result(r: Option<ExpressionNode>, g: Option<(Ast, nat)>, p0: usize, p1: usize) -> bool {
    match g {
        None => r is None,
        Some((a, n)) => r is Some && node_view(r->0) == a && p1 == p0 + n,
    }
}

/// `r` is what the grammar result `g` for a list says, read from `p0` to `p1`.
pub open spec fn list_result(
    r: Option<Vec<ExpressionNode>>,
    g: Option<(Seq<Ast>, nat)>,
    p0: usize,
    p1: usize,
) -> bool {
    match g {
        None => r is None,
        Some((a, n)) => r is Some && nodes_view(r->0@) == a && p1 == p0 + n,
    }
}

/// Appending a node appends its view.
pub proof fn lemma_nodes_view_push(s: Seq<ExpressionNode>, x: ExpressionNode)
    ensures
        nodes_view(s.push(x)) == nodes_view(s).push(node_view(x)),
    decreases s.len(),
{
    if s.len() > 0 {
        lemma_nodes_view_push(s.drop_first(), x);
        assert(s.push(x).drop_first() == s.drop_first().push(x));
    } else {
        assert(s.push(x).drop_first() == s);
    }
}

/// Appending a branch appends its view.
pub proof fn lemma_branches_view_push(s: Seq<IfBranch>, x: IfBranch)
    ensures
        branches_view(s.push(x)) == branches_view(s).push((node_view(x.condition), nodes_view(x.body@))),
    decreases s.len(),
{
    if s.len() > 0 {
        lemma_branches_view_push(s.drop_first(), x);
        assert(s.push(x).drop_first() == s.drop_first().push(x));
    } else {
        assert(s.push(x).drop_first() == s);
    }
}

/// The parser: the tokens of one procedure and a position in them.
pub struct Parser {
    tokens: Vec<Token>,
    pos: usize,
    /// The 1C code of the procedure, for diagnostics.
    pub code_1c: String,
}

impl Parser {
    /// The tokens being parsed.
    pub closed spec fn token_seq(&self) -> Seq<Token> {
        self.tokens@
    }

    /// The current position.
    pub closed spec fn position(&self) -> nat {
        self.pos as nat
    }

    /// The code of the procedure.
    pub closed spec fn code_view(&self) -> Seq<char> {
        self.code_1c@
    }

    /// A parser with no tokens.
    pub fn new() -> (r: Self)
        ensures
            r.token_seq() == Seq::<Token>::empty(),
            r.position() == 0,
            r.code_view() == Seq::<char>::empty(),
    {
        Parser { tokens: Vec::new(), pos: 0, code_1c: String::new() }
    }

    /// Sets the tokens to parse; the position is kept.
    pub fn set_tokens(&mut self, tokens: Vec<Token>)
        ensures
            final(self).token_seq() == tokens@,
            final(self).position() == old(self).position(),
            final(self).code_view() == old(self).code_view(),
    {
        self.tokens = tokens;
    }

    /// Sets the code of the procedure; tokens and position are kept.
    pub fn set_code_1c(&mut self, code_1c: String)
        ensures
            final(self).token_seq() == old(self).token_seq(),
            final(self).position() == old(self).position(),
            final(self).code_view() == code_1c@,
    {
        self.code_1c = code_1c;
    }

    /// Clears the tokens, the position and the code.
    pub fn reset(&mut self)
        ensures
            final(self).token_seq() == Seq::<Token>::empty(),
            final(self).position() == 0,
            final(self).code_view() == Seq::<char>::empty(),
    {
        self.tokens.clear();
        self.pos = 0;
        self.code_1c = String::new();
    }

    spec fn frame(old: Parser, new: Parser) -> bool {
        &&& new.tokens@ == old.tokens@
        &&& new.code_1c == old.code_1c
        &&& new.pos <= new.tokens@.len()
    }

    /// Whether the current token has kind `k`.
    fn at_kind(&self, k: TokenType) -> (b: bool)
        ensures
            b == is_kind(self.tokens@, self.pos as nat, k),
    {
        self.pos < self.tokens.len() && self.tokens[self.pos].token_type == k
    }

    /// Takes the current token when it has kind `k`.
    fn match_kind(&mut self, k: TokenType) -> (r: Option<Token>)
        requires
            old(self).pos <= old(self).tokens@.len(),
        ensures
            Self::frame(*old(self), *final(self)),
            is_kind(old(self).tokens@, old(self).pos as nat, k) ==> r == Some(
                old(self).tokens@[old(self).pos as int],
            ) && final(self).pos == old(self).pos + 1,
            !is_kind(old(self).tokens@, old(self).pos as nat, k) ==> r is None && final(self).pos
                == old(self).pos,
    {
        if self.pos < self.tokens.len() && self.tokens[self.pos].token_type == k {
            let t = self.tokens[self.pos].clone();
            self.pos = self.pos + 1;
            Some(t)
        } else {
            None
        }
    }

    /// Takes the current token when it is an operator of class `c`.
    fn match_class(&mut self, c: OpClass) -> (r: Option<Token>)
        requires
            old(self).pos <= old(self).tokens@.len(),
        ensures
            Self::frame(*old(self), *final(self)),
            is_kind_in(old(self).tokens@, old(self).pos as nat, c) ==> r == Some(
                old(self).tokens@[old(self).pos as int],
            ) && final(self).pos == old(self).pos + 1,
            !is_kind_in(old(self).tokens@, old(self).pos as nat, c) ==> r is None
                && final(self).pos == old(self).pos,
    {
        if self.pos < self.tokens.len() && is_op_exec(self.tokens[self.pos].token_type, c) {
            let t = self.tokens[self.pos].clone();
            self.pos = self.pos + 1;
            Some(t)
        } else {
            None
        }
    }

    /// Takes the current token, which must have kind `k`; `None` when it
    /// has not (the input is rejected).
    fn require(&mut self, k: TokenType) -> (r: Option<Token>)
        requires
            old(self).pos <= old(self).tokens@.len(),
        ensures
            Self::frame(*old(self), *final(self)),
            is_kind(old(self).tokens@, old(self).pos as nat, k) ==> r == Some(
                old(self).tokens@[old(self).pos as int],
            ) && final(self).pos == old(self).pos + 1,
            !is_kind(old(self).tokens@, old(self).pos as nat, k) ==> r is None,
    {
        self.match_kind(k)
    }

    /// A literal, a variable or a call.
    fn parse_variable_or_number(&mut self) -> (r: Option<ExpressionNode>)
        requires
            old(self).pos <= old(self).tokens@.len(),
        ensures
            Self::frame(*old(self), *final(self)),
            node_result(r, g_primary(old(self).tokens@, old(self).pos as nat), old(self).pos, final(self).pos),
        decreases old(self).tokens@.len() - old(self).pos, 0int,
    {
        let ghost t = self.tokens@;
        let ghost p0 = self.pos;
        proof {
            unfold_g_primary(t, p0 as nat);
        }
        if let Some(token) = self.match_kind(TokenType::NUMBER) {
            return Some(ExpressionNode::Number(token));
        }
        if let Some(token) = self.match_kind(TokenType::STRING) {
            return Some(ExpressionNode::String(token));
        }
        if let Some(token) = self.match_kind(TokenType::VARIABLE) {
            if self.match_kind(TokenType::LPAR).is_some() {
                if self.pos >= self.tokens.len() {
                    return None;
                }
                let mut args: Vec<ExpressionNode> = Vec::new();
                if self.tokens[self.pos].token_type != TokenType::RPAR {
                    let ghost q0 = self.pos;
                    let mut done = false;
                    while !done
                        invariant
                            self.tokens@ == t,
                            t == old(self).tokens@,
                            p0 == old(self).pos,
                            self.code_1c == old(self).code_1c,
                            q0 <= self.pos <= self.tokens@.len(),
                            q0 == p0 + 2,
                            !done ==> g_args(t, q0 as nat) == shift_seq(
                                g_args(t, self.pos as nat),
                                nodes_view(args@),
                                (self.pos - q0) as nat,
                            ),
                            g_args(t, q0 as nat) is None ==> g_primary(t, p0 as nat) is None,
                            done ==> g_args(t, q0 as nat) == Some(
                                (nodes_view(args@), (self.pos - q0) as nat),
                            ),
                        decreases self.tokens@.len() - self.pos + (if done {
                            0int
                        } else {
                            1int
                        }),
                    {
                        proof {
                            unfold_g_args(t, self.pos as nat);
                        }
                        let a = self.parse_formula()?;
                        proof {
                            lemma_nodes_view_push(args@, a);
                        }
                        args.push(a);
                        if self.match_kind(TokenType::COMMA).is_none() {
                            done = true;
                        }
                    }
                } else {
                    assert(nodes_view(args@) == Seq::<Ast>::empty());
                }
                self.require(TokenType::RPAR)?;
                return Some(ExpressionNode::FunctionCall { name: token, args });
            }
            return Some(ExpressionNode::Variable(token));
        }
        None
    }

    /// A parenthesised formula or a primary.
    fn parse_parentheses(&mut self) -> (r: Option<ExpressionNode>)
        requires
            old(self).pos <= old(self).tokens@.len(),
        ensures
            Self::frame(*old(self), *final(self)),
            node_result(r, g_parens(old(self).tokens@, old(self).pos as nat), old(self).pos, final(self).pos),
        decreases old(self).tokens@.len() - old(self).pos, 1int,
    {
        proof {
            unfold_g_parens(self.tokens@, self.pos as nat);
        }
        if self.match_kind(TokenType::LPAR).is_some() {
            let node = self.parse_formula()?;
            self.require(TokenType::RPAR)?;
            Some(node)
        } else {
            self.parse_variable_or_number()
        }
    }

    /// `не X`, `-X`, or a parenthesised formula or primary.
    fn parse_unary(&mut self) -> (r: Option<ExpressionNode>)
        requires
            old(self).pos <= old(self).tokens@.len(),
        ensures
            Self::frame(*old(self), *final(self)),
            node_result(r, g_unary(old(self).tokens@, old(self).pos as nat), old(self).pos, final(self).pos),
        decreases old(self).tokens@.len() - old(self).pos, 2int,
    {
        proof {
            unfold_g_unary(self.tokens@, self.pos as nat);
        }
        if let Some(operator) = self.match_class(OpClass::Unary) {
            let operand = self.parse_parentheses()?;
            return Some(ExpressionNode::UnaryOperation { operator, operand: Box::new(operand) });
        }
        self.parse_parentheses()
    }

    /// Products and quotients.
    fn parse_multiplicative(&mut self) -> (r: Option<ExpressionNode>)
        requires
            old(self).pos <= old(self).tokens@.len(),
        ensures
            Self::frame(*old(self), *final(self)),
            node_result(r, g_mult(old(self).tokens@, old(self).pos as nat), old(self).pos, final(self).pos),
        decreases old(self).tokens@.len() - old(self).pos, 4int,
    {
        let ghost t = self.tokens@;
        let ghost p0 = self.pos;
        proof {
            unfold_g_mult(t, p0 as nat);
        }
        let mut left = self.parse_unary()?;
        loop
            invariant
                self.tokens@ == t,
                t == old(self).tokens@,
                self.code_1c == old(self).code_1c,
                p0 <= self.pos <= self.tokens@.len(),
                p0 == old(self).pos,
                g_mult(t, p0 as nat) == shift_node(
                    g_mult_tail(t, node_view(left), self.pos as nat),
                    (self.pos - p0) as nat,
                ),
            decreases self.tokens@.len() - self.pos,
        {
            proof {
                unfold_g_mult_tail(t, node_view(left), self.pos as nat);
            }
            match self.match_class(OpClass::Multiplicative) {
                None => {
                    return Some(left);
                },
                Some(operator) => {
                    let right = self.parse_unary()?;
                    left = ExpressionNode::BinOperation {
                        operator,
                        left: Box::new(left),
                        right: Box::new(right),
                    };
                },
            }
        }
    }

    /// Sums and differences.
    fn parse_additive(&mut self) -> (r: Option<ExpressionNode>)
        requires
            old(self).pos <= old(self).tokens@.len(),
        ensures
            Self::frame(*old(self), *final(self)),
            node_result(r, g_add(old(self).tokens@, old(self).pos as nat), old(self).pos, final(self).pos),
        decreases old(self).tokens@.len() - old(self).pos, 6int,
    {
        let ghost t = self.tokens@;
        let ghost p0 = self.pos;
        proof {
            unfold_g_add(t, p0 as nat);
        }
        let mut left = self.parse_multiplicative()?;
        loop
            invariant
                self.tokens@ == t,
                t == old(self).tokens@,
                self.code_1c == old(self).code_1c,
                p0 <= self.pos <= self.tokens@.len(),
                p0 == old(self).pos,
                g_add(t, p0 as nat) == shift_node(
                    g_add_tail(t, node_view(left), self.pos as nat),
                    (self.pos - p0) as nat,
                ),
            decreases self.tokens@.len() - self.pos,
        {
            proof {
                unfold_g_add_tail(t, node_view(left), self.pos as nat);
            }
            match self.match_class(OpClass::Additive) {
                None => {
                    return Some(left);
                },
                Some(operator) => {
                    let right = self.parse_multiplicative()?;
                    left = ExpressionNode::BinOperation {
                        operator,
                        left: Box::new(left),
                        right: Box::new(right),
                    };
                },
            }
        }
    }

    /// Comparisons: `=`, `<>`, `>`, `<`, `>=`, `<=`.
    fn parse_comparison(&mut self) -> (r: Option<ExpressionNode>)
        requires
            old(self).pos <= old(self).tokens@.len(),
        ensures
            Self::frame(*old(self), *final(self)),
            node_result(r, g_comparison(old(self).tokens@, old(self).pos as nat), old(self).pos, final(self).pos),
        decreases old(self).tokens@.len() - old(self).pos, 8int,
    {
        let ghost t = self.tokens@;
        let ghost p0 = self.pos;
        proof {
            unfold_g_comparison(t, p0 as nat);
        }
        let mut left = self.parse_additive()?;
        loop
            invariant
                self.tokens@ == t,
                t == old(self).tokens@,
                self.code_1c == old(self).code_1c,
                p0 <= self.pos <= self.tokens@.len(),
                p0 == old(self).pos,
                g_comparison(t, p0 as nat) == shift_node(
                    g_comparison_tail(t, node_view(left), self.pos as nat),
                    (self.pos - p0) as nat,
                ),
            decreases self.tokens@.len() - self.pos,
        {
            proof {
                unfold_g_comparison_tail(t, node_view(left), self.pos as nat);
            }
            match self.match_class(OpClass::Comparison) {
                None => {
                    return Some(left);
                },
                Some(operator) => {
                    let right = self.parse_additive()?;
                    left = ExpressionNode::BinOperation {
                        operator,
                        left: Box::new(left),
                        right: Box::new(right),
                    };
                },
            }
        }
    }

    /// A formula: logical `и` / `или` of comparisons, the lowest precedence.
    fn parse_formula(&mut self) -> (r: Option<ExpressionNode>)
        requires
            old(self).pos <= old(self).tokens@.len(),
        ensures
            Self::frame(*old(self), *final(self)),
            node_result(r, g_formula(old(self).tokens@, old(self).pos as nat), old(self).pos, final(self).pos),
        decreases old(self).tokens@.len() - old(self).pos, 10int,
    {
        let ghost t = self.tokens@;
        let ghost p0 = self.pos;
        proof {
            unfold_g_formula(t, p0 as nat);
        }
        let mut left = self.parse_comparison()?;
        loop
            invariant
                self.tokens@ == t,
                t == old(self).tokens@,
                self.code_1c == old(self).code_1c,
                p0 <= self.pos <= self.tokens@.len(),
                p0 == old(self).pos,
                g_formula(t, p0 as nat) == shift_node(
                    g_formula_tail(t, node_view(left), self.pos as nat),
                    (self.pos - p0) as nat,
                ),
            decreases self.tokens@.len() - self.pos,
        {
            proof {
                unfold_g_formula_tail(t, node_view(left), self.pos as nat);
            }
            match self.match_class(OpClass::Logical) {
                None => {
                    return Some(left);
                },
                Some(operator) => {
                    let right = self.parse_comparison()?;
                    left = ExpressionNode::BinOperation {
                        operator,
                        left: Box::new(left),
                        right: Box::new(right),
                    };
                },
            }
        }
    }

    /// A conditional, after its `Если`.
    fn parse_if(&mut self) -> (r: Option<ExpressionNode>)
        requires
            old(self).pos <= old(self).tokens@.len(),
        ensures
            Self::frame(*old(self), *final(self)),
            node_result(r, g_if(old(self).tokens@, old(self).pos as nat), old(self).pos, final(self).pos),
        decreases old(self).tokens@.len() - old(self).pos, 12int,
    {
        let ghost t = self.tokens@;
        let ghost p0 = self.pos;
        proof {
            unfold_g_if(t, p0 as nat);
        }
        let condition = self.parse_formula()?;
        self.require(TokenType::THEN)?;
        let body = self.parse_block_until(BlockEnd::Branch)?;
        let mut branches: Vec<IfBranch> = Vec::new();
        let first = IfBranch { condition, body };
        proof {
            lemma_branches_view_push(branches@, first);
        }
        branches.push(first);
        while self.at_kind(TokenType::ELSEIF)
            invariant
                self.tokens@ == t,
                t == old(self).tokens@,
                self.code_1c == old(self).code_1c,
                p0 < self.pos <= self.tokens@.len(),
                p0 == old(self).pos,
                g_if(t, p0 as nat) == shift_node(
                    g_if_rest(t, self.pos as nat, branches_view(branches@)),
                    (self.pos - p0) as nat,
                ),
            decreases self.tokens@.len() - self.pos,
        {
            proof {
                unfold_g_if_rest(t, self.pos as nat, branches_view(branches@));
            }
            self.match_kind(TokenType::ELSEIF);
            let c = self.parse_formula()?;
            self.require(TokenType::THEN)?;
            let b = self.parse_block_until(BlockEnd::Branch)?;
            let branch = IfBranch { condition: c, body: b };
            proof {
                lemma_branches_view_push(branches@, branch);
            }
            branches.push(branch);
        }
        proof {
            unfold_g_if_rest(t, self.pos as nat, branches_view(branches@));
        }
        let mut else_body: Option<Vec<ExpressionNode>> = None;
        if self.match_kind(TokenType::ELSE).is_some() {
            let eb = self.parse_block_until(BlockEnd::Else)?;
            else_body = Some(eb);
        }
        self.require(TokenType::ENDIF)?;
        Some(ExpressionNode::If { branches, else_body })
    }

    /// Statements, each closed by `;`, up to the end or a token that ends
    /// the block.
    fn parse_block_until(&mut self, stops: BlockEnd) -> (r: Option<Vec<ExpressionNode>>)
        requires
            old(self).pos <= old(self).tokens@.len(),
        ensures
            Self::frame(*old(self), *final(self)),
            list_result(r, g_block(old(self).tokens@, old(self).pos as nat, stops), old(self).pos, final(self).pos),
        decreases old(self).tokens@.len() - old(self).pos, 14int,
    {
        let ghost t = self.tokens@;
        let ghost p0 = self.pos;
        let mut statements: Vec<ExpressionNode> = Vec::new();
        assert(nodes_view(statements@) == Seq::<Ast>::empty());
        assert(g_block(t, p0 as nat, stops) == shift_seq(g_block(t, p0 as nat, stops), Seq::<Ast>::empty(), 0));
        loop
            invariant
                self.tokens@ == t,
                t == old(self).tokens@,
                self.code_1c == old(self).code_1c,
                p0 <= self.pos <= self.tokens@.len(),
                p0 == old(self).pos,
                g_block(t, p0 as nat, stops) == shift_seq(
                    g_block(t, self.pos as nat, stops),
                    nodes_view(statements@),
                    (self.pos - p0) as nat,
                ),
            decreases self.tokens@.len() - self.pos,
        {
            proof {
                unfold_g_block(t, self.pos as nat, stops);
            }
            if self.pos >= self.tokens.len() || ends_block_exec(self.tokens[self.pos].token_type, stops) {
                assert(nodes_view(statements@) + Seq::<Ast>::empty() == nodes_view(statements@));
                return Some(statements);
            }
            let s = self.parse_expression()?;
            self.require(TokenType::SEMICOLON)?;
            proof {
                lemma_nodes_view_push(statements@, s);
            }
            statements.push(s);
        }
    }

    /// One statement: empty, a conditional, an assignment or a formula.
    fn parse_expression(&mut self) -> (r: Option<ExpressionNode>)
        requires
            old(self).pos <= old(self).tokens@.len(),
        ensures
            Self::frame(*old(self), *final(self)),
            node_result(r, g_statement(old(self).tokens@, old(self).pos as nat), old(self).pos, final(self).pos),
        decreases old(self).tokens@.len() - old(self).pos, 13int,
    {
        proof {
            unfold_g_statement(self.tokens@, self.pos as nat);
        }
        if self.pos >= self.tokens.len() {
            return None;
        }
        if self.tokens[self.pos].token_type == TokenType::SEMICOLON {
            return Some(ExpressionNode::Empty);
        }
        if self.match_kind(TokenType::IF).is_some() {
            return self.parse_if();
        }
        if let Some(variable_token) = self.match_kind(TokenType::VARIABLE) {
            if let Some(assign_token) = self.match_kind(TokenType::ASSIGN) {
                let right_node = self.parse_formula()?;
                assert(node_view(ExpressionNode::Variable(variable_token)) == Ast::Variable(
                    variable_token,
                ));
                return Some(
                    ExpressionNode::Assign {
                        operator: assign_token,
                        left: Box::new(ExpressionNode::Variable(variable_token)),
                        right: Box::new(right_node),
                    },
                );
            }
            self.pos = self.pos - 1;
        }
        self.parse_formula()
    }

    /// Whether the tokens from the current position form a program.
    pub open spec fn accepts(&self) -> bool {
        g_program(self.token_seq(), self.position()) is Some
    }

    /// Parses the tokens from the current position to the end as a list of
    /// statements, each closed by `;`; `None` when they do not form one.
    pub fn try_parse_code(&mut self) -> (r: Option<ExpressionNode>)
        ensures
            final(self).token_seq() == old(self).token_seq(),
            final(self).code_view() == old(self).code_view(),
            match g_program(old(self).token_seq(), old(self).position()) {
                Some(a) => r is Some && node_view(r->0) == a && final(self).position() == (if old(
                    self,
                ).position() <= old(self).token_seq().len() {
                    old(self).token_seq().len()
                } else {
                    old(self).position()
                }),
                None => r is None,
            },
    {
        let ghost t = self.tokens@;
        let ghost p0 = self.pos as nat;
        if self.pos > self.tokens.len() {
            proof {
                unfold_g_block(t, p0, BlockEnd::Program);
            }
            assert(nodes_view(Seq::<ExpressionNode>::empty()) == Seq::<Ast>::empty());
            return Some(ExpressionNode::Statements(Vec::new()));
        }
        let statements = self.parse_block_until(BlockEnd::Program)?;
        proof {
            lemma_program_block_consumes_all(t, p0);
        }
        Some(ExpressionNode::Statements(statements))
    }

    /// Parses the tokens from the current position to the end as a list of
    /// statements, each closed by `;`.
    pub fn parse_code(&mut self) -> (r: ExpressionNode)
        requires
            old(self).accepts(),
        ensures
            final(self).token_seq() == old(self).token_seq(),
            final(self).code_view() == old(self).code_view(),
            g_program(old(self).token_seq(), old(self).position()) == Some(node_view(r)),
    {
        match self.try_parse_code() {
            Some(node) => node,
            None => ExpressionNode::Empty,
        }
    }
}

/// A block read to the end of the program ends at the end of the tokens.
proof fn lemma_program_block_consumes_all(t: Seq<Token>, p: nat)
    requires
        p <= t.len(),
        g_block(t, p, BlockEnd::Program) is Some,
    ensures
        p + (g_block(t, p, BlockEnd::Program)->0).1 == t.len(),
    decreases t.len() - p,
{
    unfold_g_block(t, p, BlockEnd::Program);
    if p < t.len() {
        let n = (g_statement(t, p)->0).1;
        lemma_program_block_consumes_all(t, p + n + 1);
    }
}

} // verus!
