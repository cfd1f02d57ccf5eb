//! The syntax tree: one node type for expressions and statements.
use vstd::prelude::*;
use crate::number::Number;
use crate::token::Token;

verus! {

/// The value a literal node denotes.
#[derive(Debug, Clone, PartialEq)]
pub enum ExprLiteralValue {
    StringLiteral(String),
    NumberLiteral(Number),
    BooleanLiteral(bool),
    NilLiteral,
}

/// A node of the syntax tree. Expressions and statements share one type:
/// every executable unit of a program is an `Expr`.
#[derive(Debug, PartialEq)]
pub enum Expr {
    LiteralExpr(ExprLiteralValue),
    GroupingExpr(Box<Expr>),
    UnaryExpr { operator: Token, right: Box<Expr> },
    BinaryExpr { left: Box<Expr>, operator: Token, right: Box<Expr> },
    /// `and` / `or`, evaluated with short circuit.
    LogicalExpr { left: Box<Expr>, operator: Token, right: Box<Expr> },
    VariableExpr(String),
    AssignmentExpr { name: String, value: Box<Expr> },
    /// `var name = initializer;`; without an initializer the variable is nil.
    VarDecl { name: String, initializer: Option<Box<Expr>> },
    BlockStmt(Vec<Expr>),
    IfStmt { condition: Box<Expr>, then_branch: Box<Expr>, else_branch: Option<Box<Expr>> },
    WhileLoop { condition: Box<Expr>, body: Box<Expr> },
    CallExpr { callee: Box<Expr>, arguments: Vec<Expr> },
    /// A function literal; with a name it also declares that name.
    FunctionExpr { name: Option<String>, params: Vec<String>, body: Vec<Expr> },
    ReturnStmt(Option<Box<Expr>>),
    PrintStmt(Box<Expr>),
    ExprStmt(Box<Expr>),
}

fn clone_box(e: &Box<Expr>) -> (r: Box<Expr>)
    decreases e, 1nat,
{
    Box::new(clone_expr(e))
}

fn clone_opt(e: &Option<Box<Expr>>) -> (r: Option<Box<Expr>>)
    decreases e, 1nat,
{
    match e {
        Some(b) => Some(clone_box(b)),
        None => None,
    }
}

/// A copy of every node of `es`.
pub fn clone_exprs(es: &Vec<Expr>) -> (r: Vec<Expr>)
    ensures
        r@.len() == es@.len(),
    decreases es, 1nat,
{
    let mut r: Vec<Expr> = Vec::new();
    let mut i: usize = 0;
    while i < es.len()
        invariant
            0 <= i <= es@.len(),
            r@.len() == i,
        decreases es@.len() - i,
    {
        proof {
            assert(decreases_to!(es => es@[i as int]));
        }
        r.push(clone_expr(&es[i]));
        i = i + 1;
    }
    r
}

/// A copy of the tree `e`.
pub fn clone_expr(e: &Expr) -> (r: Expr)
    decreases e, 0nat,
{
    match e {
        Expr::LiteralExpr(l) => Expr::LiteralExpr(l.clone()),
        Expr::GroupingExpr(b) => Expr::GroupingExpr(clone_box(b)),
        Expr::UnaryExpr { operator, right } => Expr::UnaryExpr {
            operator: operator.clone(),
            right: clone_box(right),
        },
        Expr::BinaryExpr { left, operator, right } => Expr::BinaryExpr {
            left: clone_box(left),
            operator: operator.clone(),
            right: clone_box(right),
        },
        Expr::LogicalExpr { left, operator, right } => Expr::LogicalExpr {
            left: clone_box(left),
            operator: operator.clone(),
            right: clone_box(right),
        },
        Expr::VariableExpr(name) => Expr::VariableExpr(name.clone()),
        Expr::AssignmentExpr { name, value } => Expr::AssignmentExpr {
            name: name.clone(),
            value: clone_box(value),
        },
        Expr::VarDecl { name, initializer } => Expr::VarDecl {
            name: name.clone(),
            initializer: clone_opt(initializer),
        },
        Expr::BlockStmt(stmts) => Expr::BlockStmt(clone_exprs(stmts)),
        Expr::IfStmt { condition, then_branch, else_branch } => Expr::IfStmt {
            condition: clone_box(condition),
            then_branch: clone_box(then_branch),
            else_branch: clone_opt(else_branch),
        },
        Expr::WhileLoop { condition, body } => Expr::WhileLoop {
            condition: clone_box(condition),
            body: clone_box(body),
        },
        Expr::CallExpr { callee, arguments } => Expr::CallExpr {
            callee: clone_box(callee),
            arguments: clone_exprs(arguments),
        },
        Expr::FunctionExpr { name, params, body } => Expr::FunctionExpr {
            name: name.clone(),
            params: params.clone(),
            body: clone_exprs(body),
        },
        Expr::ReturnStmt(v) => Expr::ReturnStmt(clone_opt(v)),
        Expr::PrintStmt(b) => Expr::PrintStmt(clone_box(b)),
        Expr::ExprStmt(b) => Expr::ExprStmt(clone_box(b)),
    }
}

impl Clone for Expr {
    fn clone(&self) -> Self {
        clone_expr(self)
    }
}

impl Expr {
    pub fn new_binary_expr(left: Expr, operator: Token, right: Expr) -> (e: Expr)
        ensures
            e == (Expr::BinaryExpr { left: Box::new(left), operator, right: Box::new(right) }),
    {
        Expr::BinaryExpr { left: Box::new(left), operator, right: Box::new(right) }
    }

    pub fn new_logical_expr(left: Expr, operator: Token, right: Expr) -> (e: Expr)
        ensures
            e == (Expr::LogicalExpr { left: Box::new(left), operator, right: Box::new(right) }),
    {
        Expr::LogicalExpr { left: Box::new(left), operator, right: Box::new(right) }
    }

    pub fn new_grouping_expr(inner: Expr) -> (e: Expr)
        ensures
            e == Expr::GroupingExpr(Box::new(inner)),
    {
        Expr::GroupingExpr(Box::new(inner))
    }

    pub fn new_unary_expr(operator: Token, right: Expr) -> (e: Expr)
        ensures
            e == (Expr::UnaryExpr { operator, right: Box::new(right) }),
    {
        Expr::UnaryExpr { operator, right: Box::new(right) }
    }

    pub fn new_literal_expr(value: ExprLiteralValue) -> (e: Expr)
        ensures
            e == Expr::LiteralExpr(value),
    {
        Expr::LiteralExpr(value)
    }
}

} // verus!
