//! The syntax tree: nodes, operator tags, the tree root, and the
//! model of a tree over character sequences.

use vstd::prelude::*;

use crate::values::{SpecValue, Value};

verus! {

/// Operator tag carried by a `BinaryOp` node.
#[derive(Debug, Clone, Copy, PartialEq, Eq)]
pub enum BinaryOp {
    Add,
    Sub,
    Mul,
    Div,
    Mod,
    Eq,
    Neq,
    Lt,
    Le,
    Gt,
    Ge,
    And,
    Or,
}

/// Operator tag carried by a `UnaryOp` node.
#[derive(Debug, Clone, Copy, PartialEq, Eq)]
pub enum UnaryOp {
    Neg,
    Not,
}

/// A node of the syntax tree.  Every node exclusively owns its children,
/// so a value of this type is always a finite tree.
///
/// `If`, `While` and `FuncDef` belong to grammar productions that the
/// parser deliberately leaves unimplemented; they are part of the shared
/// vocabulary for an evaluator but are never produced by `produce_ast`.
#[derive(Debug, PartialEq)]
pub enum Expr {
    Literal(Value),
    Identifier(String),
    ShellWord(String),
    Assign { name: String, value: Box<Expr> },
    BinaryOp { left: Box<Expr>, op: BinaryOp, right: Box<Expr> },
    UnaryOp { op: UnaryOp, expr: Box<Expr> },
    If { cond: Box<Expr>, then_branch: Box<Expr>, else_branch: Box<Expr> },
    While { cond: Box<Expr>, body: Box<Expr> },
    Block(Vec<Expr>),
    Call { callee: Box<Expr>, args: Vec<Expr> },
    FuncDef { name: String, params: Vec<String>, body: Box<Expr> },
    AndThen { left: Box<Expr>, right: Box<Expr> },
    OrElse { left: Box<Expr>, right: Box<Expr> },
    Pipe { left: Box<Expr>, right: Box<Expr> },
    Return(Box<Expr>),
    CommandCall { command: Box<Expr>, args: Vec<Expr> },
}

/// The root of one parsed program: a single expression.
#[derive(Debug, PartialEq)]
pub struct Ast {
    pub expr: Expr,
}

/// Mathematical model of an [`Expr`]: the same tree shape over character
/// sequences and [`SpecValue`] payloads.
pub ghost enum SpecExpr {
    Literal(SpecValue),
    Identifier(Seq<char>),
    ShellWord(Seq<char>),
    Assign { name: Seq<char>, value: Box<SpecExpr> },
    BinaryOp { left: Box<SpecExpr>, op: BinaryOp, right: Box<SpecExpr> },
    UnaryOp { op: UnaryOp, expr: Box<SpecExpr> },
    If { cond: Box<SpecExpr>, then_branch: Box<SpecExpr>, else_branch: Box<SpecExpr> },
    While { cond: Box<SpecExpr>, body: Box<SpecExpr> },
    Block(Seq<SpecExpr>),
    Call { callee: Box<SpecExpr>, args: Seq<SpecExpr> },
    FuncDef { name: Seq<char>, params: Seq<Seq<char>>, body: Box<SpecExpr> },
    AndThen { left: Box<SpecExpr>, right: Box<SpecExpr> },
    OrElse { left: Box<SpecExpr>, right: Box<SpecExpr> },
    Pipe { left: Box<SpecExpr>, right: Box<SpecExpr> },
    Return(Box<SpecExpr>),
    CommandCall { command: Box<SpecExpr>, args: Seq<SpecExpr> },
}

/// Model of an expression: the tree with every owned string replaced by
/// its character sequence.
pub open spec fn view_expr(e: Expr) -> SpecExpr
    decreases e,
{
    match e {
        Expr::Literal(v) => SpecExpr::Literal(v@),
        Expr::Identifier(s) => SpecExpr::Identifier(s@),
        Expr::ShellWord(s) => SpecExpr::ShellWord(s@),
        Expr::Assign { name, value } => SpecExpr::Assign {
            name: name@,
            value: Box::new(view_expr(*value)),
        },
        Expr::BinaryOp { left, op, right } => SpecExpr::BinaryOp {
            left: Box::new(view_expr(*left)),
            op,
            right: Box::new(view_expr(*right)),
        },
        Expr::UnaryOp { op, expr } => SpecExpr::UnaryOp { op, expr: Box::new(view_expr(*expr)) },
        Expr::If { cond, then_branch, else_branch } => SpecExpr::If {
            cond: Box::new(view_expr(*cond)),
            then_branch: Box::new(view_expr(*then_branch)),
            else_branch: Box::new(view_expr(*else_branch)),
        },
        Expr::While { cond, body } => SpecExpr::While {
            cond: Box::new(view_expr(*cond)),
            body: Box::new(view_expr(*body)),
        },
        Expr::Block(items) => SpecExpr::Block(view_exprs(items@)),
        Expr::Call { callee, args } => SpecExpr::Call {
            callee: Box::new(view_expr(*callee)),
            args: view_exprs(args@),
        },
        Expr::FuncDef { name, params, body } => SpecExpr::FuncDef {
            name: name@,
            params: params@.map_values(|p: String| p@),
            body: Box::new(view_expr(*body)),
        },
        Expr::AndThen { left, right } => SpecExpr::AndThen {
            left: Box::new(view_expr(*left)),
            right: Box::new(view_expr(*right)),
        },
        Expr::OrElse { left, right } => SpecExpr::OrElse {
            left: Box::new(view_expr(*left)),
            right: Box::new(view_expr(*right)),
        },
        Expr::Pipe { left, right } => SpecExpr::Pipe {
            left: Box::new(view_expr(*left)),
            right: Box::new(view_expr(*right)),
        },
        Expr::Return(inner) => SpecExpr::Return(Box::new(view_expr(*inner))),
        Expr::CommandCall { command, args } => SpecExpr::CommandCall {
            command: Box::new(view_expr(*command)),
            args: view_exprs(args@),
        },
    }
}

/// Model of a sequence of expressions, element by element.
pub open spec fn view_exprs(es: Seq<Expr>) -> Seq<SpecExpr>
    decreases es,
{
    if es.len() == 0 {
        Seq::empty()
    } else {
        seq![view_expr(es[0])] + view_exprs(es.drop_first())
    }
}

impl View for Expr {
    type V = SpecExpr;

    open spec fn view(&self) -> SpecExpr {
        view_expr(*self)
    }
}

/// Model of the tree root.
pub open spec fn view_ast(a: Ast) -> SpecExpr {
    view_expr(a.expr)
}

/// An empty list has the empty model.
pub proof fn lemma_view_exprs_nil()
    ensures
        view_exprs(Seq::<Expr>::empty()) == Seq::<SpecExpr>::empty(),
{
}

/// The model of a list built by prepending is head, then tail.
pub proof fn lemma_view_exprs_cons(e: Expr, es: Seq<Expr>)
    ensures
        view_exprs(seq![e] + es) == seq![view_expr(e)] + view_exprs(es),
{
    let s = seq![e] + es;
    assert(s[0] == e);
    assert(s.drop_first() =~= es);
}

} // verus!
