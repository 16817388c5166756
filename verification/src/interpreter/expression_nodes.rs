//! The syntax tree of the procedure language and its mathematical view.

use vstd::prelude::*;
use crate::interpreter::tokens::Token;

verus! {

/// One branch of a conditional: its condition and its statements.
#[derive(Debug)]
pub struct IfBranch {
    pub condition: ExpressionNode,
    pub body: Vec<ExpressionNode>,
}

/// A node of the syntax tree.
#[derive(Debug)]
pub enum ExpressionNode {
    Number(Token),
    Variable(Token),
    String(Token),
    /// Binary operation (`A + B`, `X > Y`).
    BinOperation { operator: Token, left: Box<ExpressionNode>, right: Box<ExpressionNode> },
    /// Unary operation (`не A`, `-X`).
    UnaryOperation { operator: Token, operand: Box<ExpressionNode> },
    /// Assignment (`Variable = Value`).
    Assign { operator: Token, left: Box<ExpressionNode>, right: Box<ExpressionNode> },
    /// Call: `Name(Arg1, Arg2)`.
    FunctionCall { name: Token, args: Vec<ExpressionNode> },
    /// A list of statements.
    Statements(Vec<ExpressionNode>),
    /// `Если ... ИначеЕсли ... Иначе ... КонецЕсли`.
    If { branches: Vec<IfBranch>, else_body: Option<Vec<ExpressionNode>> },
    Empty,
}

impl Default for ExpressionNode {
    fn default() -> (r: Self)
        ensures
            r is Empty,
    {
        ExpressionNode::Empty
    }
}

impl Default for IfBranch {
    fn default() -> (r: Self)
        ensures
            r.condition is Empty,
            r.body@.len() == 0,
    {
        IfBranch { condition: ExpressionNode::Empty, body: Vec::new() }
    }
}

/// The mathematical form of a syntax tree: sequences in place of vectors.
#[verifier::ext_equal]
pub enum Ast {
    Number(Token),
    Variable(Token),
    Str(Token),
    BinOperation { operator: Token, left: Box<Ast>, right: Box<Ast> },
    UnaryOperation { operator: Token, operand: Box<Ast> },
    Assign { operator: Token, left: Box<Ast>, right: Box<Ast> },
    FunctionCall { name: Token, args: Seq<Ast> },
    Statements(Seq<Ast>),
    If { branches: Seq<(Ast, Seq<Ast>)>, else_body: Option<Seq<Ast>> },
    Nothing,
}

/// The mathematical form of a node.
pub open spec fn node_view(n: ExpressionNode) -> Ast
    decreases n, 2int,
{
    match n {
        ExpressionNode::Number(t) => Ast::Number(t),
        ExpressionNode::Variable(t) => Ast::Variable(t),
        ExpressionNode::String(t) => Ast::Str(t),
        ExpressionNode::BinOperation { operator, left, right } => Ast::BinOperation {
            operator,
            left: Box::new(node_view(*left)),
            right: Box::new(node_view(*right)),
        },
        ExpressionNode::UnaryOperation { operator, operand } => Ast::UnaryOperation {
            operator,
            operand: Box::new(node_view(*operand)),
        },
        ExpressionNode::Assign { operator, left, right } => Ast::Assign {
            operator,
            left: Box::new(node_view(*left)),
            right: Box::new(node_view(*right)),
        },
        ExpressionNode::FunctionCall { name, args } => Ast::FunctionCall {
            name,
            args: nodes_view(args@),
        },
        ExpressionNode::Statements(list) => Ast::Statements(nodes_view(list@)),
        ExpressionNode::If { branches, else_body } => Ast::If {
            branches: branches_view(branches@),
            else_body: match else_body {
                Some(b) => Some(nodes_view(b@)),
                None => None,
            },
        },
        ExpressionNode::Empty => Ast::Nothing,
    }
}

/// The mathematical forms of a sequence of nodes.
pub open spec fn nodes_view(s: Seq<ExpressionNode>) -> Seq<Ast>
    decreases s, 1int,
{
    if s.len() == 0 {
        seq![]
    } else {
        seq![node_view(s[0])] + nodes_view(s.drop_first())
    }
}

/// The mathematical forms of a sequence of branches.
pub open spec fn branches_view(s: Seq<IfBranch>) -> Seq<(Ast, Seq<Ast>)>
    decreases s, 1int,
{
    if s.len() == 0 {
        seq![]
    } else {
        seq![(node_view(s[0].condition), nodes_view(s[0].body@))] + branches_view(s.drop_first())
    }
}

} // verus!
