//! The trees the grammar yields: for each rule, `*_is(ts, i, j, e)` says that
//! `e` is the tree of the phrase of that rule spanning tokens `i..j`. With the
//! spans the recognizers in `grammar` fix, these say which tree the parser
//! returns for every accepted input.
use vstd::prelude::*;
use crate::ast::{Expr, ExprLiteralValue};
use crate::grammar::{
    condition_end,
    decl_end,
    expr_end,
    is_comparison_op,
    is_equality_op,
    is_factor_op,
    is_term_op,
    params_end,
    stmt_end,
    tk,
};
use crate::parser::for_init_end;
use crate::token::{LiteralTokenType, Token, TokenContext};

verus! {

/// A literal, a name, or a parenthesized expression.
pub open spec fn primary_is(ts: Seq<TokenContext>, i: int, j: int, e: Expr) -> bool
    decreases e, 10int,
{
    match e {
        Expr::LiteralExpr(ExprLiteralValue::NumberLiteral(n)) => j == i + 1 && tk(ts, i)
            == Token::Literal(LiteralTokenType::NumberLiteral(n)),
        Expr::LiteralExpr(ExprLiteralValue::StringLiteral(s)) => j == i + 1 && tk(ts, i)
            == Token::Literal(LiteralTokenType::StringLiteral(s)),
        Expr::LiteralExpr(ExprLiteralValue::NilLiteral) => j == i + 1 && tk(ts, i) is Nil,
        Expr::LiteralExpr(ExprLiteralValue::BooleanLiteral(b)) => j == i + 1 && if b {
            tk(ts, i) is True
        } else {
            tk(ts, i) is False
        },
        Expr::VariableExpr(s) => j == i + 1 && tk(ts, i) == Token::Literal(
            LiteralTokenType::IdentifierLiteral(s),
        ),
        Expr::GroupingExpr(inner) => tk(ts, i) is LeftParen && tk(ts, j - 1) is RightParen
            && expr_is(ts, i + 1, j - 1, *inner),
        _ => false,
    }
}

/// The arguments `es`, separated by commas.
pub open spec fn args_is(ts: Seq<TokenContext>, i: int, j: int, es: Seq<Expr>) -> bool
    decreases es, 0int,
{
    if es.len() == 0 {
        i == j
    } else if es.len() == 1 {
        expr_is(ts, i, j, es[0])
    } else {
        exists|k: int|
            args_is(ts, i, k, es.drop_last()) && tk(ts, k) == Token::Comma && expr_is(ts, k + 1, j, es.last())
    }
}

/// A primary followed by argument lists, each call taking the one before
/// as its callee.
pub open spec fn call_is(ts: Seq<TokenContext>, i: int, j: int, e: Expr) -> bool
    decreases e, 11int,
{
    primary_is(ts, i, j, e) || match e {
        Expr::CallExpr { callee, arguments } => tk(ts, j - 1) is RightParen && exists|k: int|
            call_is(ts, i, k, *callee) && tk(ts, k) == Token::LeftParen && args_is(ts, k + 1, j - 1, arguments@),
        _ => false,
    }
}

/// Prefix `!` and `-`, nesting to the right.
pub open spec fn unary_is(ts: Seq<TokenContext>, i: int, j: int, e: Expr) -> bool
    decreases e, 12int,
{
    call_is(ts, i, j, e) || match e {
        Expr::UnaryExpr { operator, right } => (operator is Bang || operator is Minus) && tk(ts, i)
            == operator && unary_is(ts, i + 1, j, *right),
        _ => false,
    }
}

/// `*` and `/`, associating to the left.
pub open spec fn factor_is(ts: Seq<TokenContext>, i: int, j: int, e: Expr) -> bool
    decreases e, 13int,
{
    unary_is(ts, i, j, e) || match e {
        Expr::BinaryExpr { left, operator, right } => is_factor_op(operator) && exists|k: int|
            factor_is(ts, i, k, *left) && tk(ts, k) == operator && unary_is(ts, k + 1, j, *right),
        _ => false,
    }
}

/// `+` and `-`, associating to the left.
pub open spec fn term_is(ts: Seq<TokenContext>, i: int, j: int, e: Expr) -> bool
    decreases e, 14int,
{
    factor_is(ts, i, j, e) || match e {
        Expr::BinaryExpr { left, operator, right } => is_term_op(operator) && exists|k: int|
            term_is(ts, i, k, *left) && tk(ts, k) == operator && factor_is(ts, k + 1, j, *right),
        _ => false,
    }
}

/// `>`, `>=`, `<`, `<=`, associating to the left.
pub open spec fn comparison_is(ts: Seq<TokenContext>, i: int, j: int, e: Expr) -> bool
    decreases e, 15int,
{
    term_is(ts, i, j, e) || match e {
        Expr::BinaryExpr { left, operator, right } => is_comparison_op(operator) && exists|k: int|
            comparison_is(ts, i, k, *left) && tk(ts, k) == operator && term_is(
                ts,
                k + 1,
                j,
                *right,
            ),
        _ => false,
    }
}

/// `==` and `!=`, associating to the left.
pub open spec fn equality_is(ts: Seq<TokenContext>, i: int, j: int, e: Expr) -> bool
    decreases e, 16int,
{
    comparison_is(ts, i, j, e) || match e {
        Expr::BinaryExpr { left, operator, right } => is_equality_op(operator) && exists|k: int|
            equality_is(ts, i, k, *left) && tk(ts, k) == operator && comparison_is(
                ts,
                k + 1,
                j,
                *right,
            ),
        _ => false,
    }
}

/// `and`, associating to the left.
pub open spec fn and_is(ts: Seq<TokenContext>, i: int, j: int, e: Expr) -> bool
    decreases e, 17int,
{
    equality_is(ts, i, j, e) || match e {
        Expr::LogicalExpr { left, operator, right } => operator is And && exists|k: int|
            and_is(ts, i, k, *left) && tk(ts, k) == operator && equality_is(ts, k + 1, j, *right),
        _ => false,
    }
}

/// `or`, associating to the left.
pub open spec fn or_is(ts: Seq<TokenContext>, i: int, j: int, e: Expr) -> bool
    decreases e, 18int,
{
    and_is(ts, i, j, e) || match e {
        Expr::LogicalExpr { left, operator, right } => operator is Or && exists|k: int|
            or_is(ts, i, k, *left) && tk(ts, k) == operator && and_is(ts, k + 1, j, *right),
        _ => false,
    }
}

/// `name = value`, nesting to the right.
pub open spec fn assign_is(ts: Seq<TokenContext>, i: int, j: int, e: Expr) -> bool
    decreases e, 19int,
{
    or_is(ts, i, j, e) || match e {
        Expr::AssignmentExpr { name, value } => tk(ts, i) == Token::Literal(
            LiteralTokenType::IdentifierLiteral(name),
        ) && tk(ts, i + 1) is Equal && assign_is(ts, i + 2, j, *value),
        _ => false,
    }
}

pub open spec fn expr_is(ts: Seq<TokenContext>, i: int, j: int, e: Expr) -> bool
    decreases e, 20int,
{
    assign_is(ts, i, j, e)
}

/// `( expression )`.
pub open spec fn cond_is(ts: Seq<TokenContext>, i: int, j: int, e: Expr) -> bool {
    tk(ts, i) is LeftParen && tk(ts, j - 1) is RightParen && expr_is(ts, i + 1, j - 1, e)
}

/// Parameter names separated by commas.
pub open spec fn params_is(ts: Seq<TokenContext>, i: int, k: int, ps: Seq<String>) -> bool {
    if ps.len() == 0 {
        k == i
    } else {
        &&& k == i + 2 * ps.len() - 1
        &&& forall|m: int|
            0 <= m < ps.len() ==> tk(ts, i + 2 * m) == Token::Literal(
                LiteralTokenType::IdentifierLiteral(#[trigger] ps[m]),
            ) && (m + 1 < ps.len() ==> tk(ts, i + 2 * m + 1) is Comma)
    }
}

pub open spec fn expr_stmt_is(ts: Seq<TokenContext>, i: int, j: int, e: Expr) -> bool {
    e matches Expr::ExprStmt(inner) && tk(ts, j - 1) is Semicolon && expr_is(ts, i, j - 1, *inner)
}

pub open spec fn print_is(ts: Seq<TokenContext>, i: int, j: int, e: Expr) -> bool {
    e matches Expr::PrintStmt(inner) && tk(ts, i) is Print && tk(ts, j - 1) is Semicolon && expr_is(
        ts,
        i + 1,
        j - 1,
        *inner,
    )
}

pub open spec fn return_is(ts: Seq<TokenContext>, i: int, j: int, e: Expr) -> bool {
    match e {
        Expr::ReturnStmt(v) => tk(ts, i) is Return && tk(ts, j - 1) is Semicolon && match v {
            None => j == i + 2,
            Some(x) => expr_is(ts, i + 1, j - 1, *x),
        },
        _ => false,
    }
}

pub open spec fn var_is(ts: Seq<TokenContext>, i: int, j: int, e: Expr) -> bool {
    match e {
        Expr::VarDecl { name, initializer } => tk(ts, i) is Var && tk(ts, i + 1) == Token::Literal(
            LiteralTokenType::IdentifierLiteral(name),
        ) && tk(ts, j - 1) is Semicolon && match initializer {
            None => j == i + 3,
            Some(x) => tk(ts, i + 2) is Equal && expr_is(ts, i + 3, j - 1, *x),
        },
        _ => false,
    }
}

/// The declarations `es`, one after another.
pub open spec fn items_is(ts: Seq<TokenContext>, i: int, j: int, es: Seq<Expr>) -> bool
    decreases es, 0int,
{
    if es.len() == 0 {
        i == j
    } else {
        match decl_end(ts, i) {
            Some(k) => decl_is(ts, i, k, es[0]) && items_is(ts, k, j, es.subrange(1, es.len() as int)),
            None => false,
        }
    }
}

/// `{ declarations }`.
pub open spec fn braced_is(ts: Seq<TokenContext>, i: int, j: int, es: Seq<Expr>) -> bool
    decreases es, 1int,
{
    tk(ts, i) is LeftBrace && tk(ts, j - 1) is RightBrace && items_is(ts, i + 1, j - 1, es)
}

pub open spec fn if_is(ts: Seq<TokenContext>, i: int, j: int, e: Expr) -> bool
    decreases e, 27int,
{
    match e {
        Expr::IfStmt { condition, then_branch, else_branch } => {
            let k1 = condition_end(ts, i + 1).unwrap();
            let k2 = stmt_end(ts, k1).unwrap();
            &&& tk(ts, i) is If
            &&& cond_is(ts, i + 1, k1, *condition)
            &&& stmt_is(ts, k1, k2, *then_branch)
            &&& match else_branch {
                None => j == k2 && !(tk(ts, k2) is Else),
                Some(x) => tk(ts, k2) is Else && stmt_is(ts, k2 + 1, j, *x),
            }
        },
        _ => false,
    }
}

pub open spec fn while_is(ts: Seq<TokenContext>, i: int, j: int, e: Expr) -> bool
    decreases e, 27int,
{
    match e {
        Expr::WhileLoop { condition, body } => {
            let k = condition_end(ts, i + 1).unwrap();
            tk(ts, i) is While && cond_is(ts, i + 1, k, *condition) && stmt_is(ts, k, j, *body)
        },
        _ => false,
    }
}

/// After the condition clause of a `for`, from `c`: the increment (if any)
/// and `)`, then the body; `wb` is the loop body the `for` reads as.
pub open spec fn for_tail_is(ts: Seq<TokenContext>, c: int, j: int, wb: Expr) -> bool
    decreases wb, 29int,
{
    if tk(ts, c) is RightParen {
        stmt_is(ts, c + 1, j, wb)
    } else {
        let d = expr_end(ts, c).unwrap() + 1;
        match wb {
            Expr::BlockStmt(u) => u@.len() == 2 && match u@[1] {
                Expr::ExprStmt(inc) => tk(ts, d - 1) is RightParen && expr_is(ts, c, d - 1, *inc)
                    && stmt_is(ts, d, j, u@[0]),
                _ => false,
            },
            _ => false,
        }
    }
}

/// From the condition clause of a `for` at `b` on: the loop it reads as.
pub open spec fn for_rest_is(ts: Seq<TokenContext>, b: int, j: int, w: Expr) -> bool
    decreases w, 26int,
{
    match w {
        Expr::WhileLoop { condition, body } => {
            let c = if tk(ts, b) is Semicolon {
                b + 1
            } else {
                expr_end(ts, b).unwrap() + 1
            };
            &&& if tk(ts, b) is Semicolon {
                *condition == Expr::LiteralExpr(ExprLiteralValue::BooleanLiteral(true))
            } else {
                tk(ts, c - 1) is Semicolon && expr_is(ts, b, c - 1, *condition)
            }
            &&& for_tail_is(ts, c, j, *body)
        },
        _ => false,
    }
}

/// The initializer clause of a `for`.
pub open spec fn init_is(ts: Seq<TokenContext>, p: int, b: int, x: Expr) -> bool {
    if tk(ts, p) is Var {
        var_is(ts, p, b, x)
    } else {
        expr_stmt_is(ts, p, b, x)
    }
}

/// `for ( init? ; cond? ; incr? ) body`, read as
/// `{ init; while (cond or true) { body; incr; } }`.
pub open spec fn for_is(ts: Seq<TokenContext>, i: int, j: int, e: Expr) -> bool
    decreases e, 27int,
{
    tk(ts, i) is For && tk(ts, i + 1) is LeftParen && if tk(ts, i + 2) is Semicolon {
        for_rest_is(ts, i + 3, j, e)
    } else {
        match e {
            Expr::BlockStmt(v) => {
                let b = for_init_end(ts, i);
                v@.len() == 2 && init_is(ts, i + 2, b, v@[0]) && for_rest_is(ts, b, j, v@[1])
            },
            _ => false,
        }
    }
}

/// `fun name ( params ) { body }`.
pub open spec fn fun_is(ts: Seq<TokenContext>, i: int, j: int, e: Expr) -> bool
    decreases e, 29int,
{
    match e {
        Expr::FunctionExpr { name, params, body } => {
            let k = if tk(ts, i + 3) is RightParen {
                i + 3
            } else {
                params_end(ts, i + 3).unwrap()
            };
            &&& tk(ts, i) is Fun
            &&& match name {
                Some(n) => tk(ts, i + 1) == Token::Literal(LiteralTokenType::IdentifierLiteral(n)),
                None => false,
            }
            &&& tk(ts, i + 2) is LeftParen
            &&& params_is(ts, i + 3, k, params@)
            &&& tk(ts, k) is RightParen
            &&& braced_is(ts, k + 1, j, body@)
        },
        _ => false,
    }
}

/// A statement, chosen by its first token.
pub open spec fn stmt_is(ts: Seq<TokenContext>, i: int, j: int, e: Expr) -> bool
    decreases e, 28int,
{
    let t = tk(ts, i);
    if t is Print {
        print_is(ts, i, j, e)
    } else if t is LeftBrace {
        match e {
            Expr::BlockStmt(v) => braced_is(ts, i, j, v@),
            _ => false,
        }
    } else if t is If {
        if_is(ts, i, j, e)
    } else if t is While {
        while_is(ts, i, j, e)
    } else if t is For {
        for_is(ts, i, j, e)
    } else if t is Return {
        return_is(ts, i, j, e)
    } else {
        expr_stmt_is(ts, i, j, e)
    }
}

/// A declaration, chosen by its first token.
pub open spec fn decl_is(ts: Seq<TokenContext>, i: int, j: int, e: Expr) -> bool
    decreases e, 30int,
{
    if tk(ts, i) is Var {
        var_is(ts, i, j, e)
    } else if tk(ts, i) is Fun {
        fun_is(ts, i, j, e)
    } else {
        stmt_is(ts, i, j, e)
    }
}

/// Appending a declaration that ends where the grammar says extends a run
/// of declarations.
#[verifier::rlimit(80)]
pub proof fn lemma_items_push(ts: Seq<TokenContext>, i: int, k: int, j: int, es: Seq<Expr>, d: Expr)
    requires
        items_is(ts, i, k, es),
        decl_end(ts, k) == Some(j),
        decl_is(ts, k, j, d),
    ensures
        items_is(ts, i, j, es.push(d)),
    decreases es.len(),
{
    let n = es.push(d);
    if es.len() == 0 {
        assert(i == k);
        let rest = n.subrange(1, n.len() as int);
        assert(rest =~= Seq::<Expr>::empty());
        assert(items_is(ts, j, j, rest));
        assert(n[0] == d);
    } else {
        let k0 = decl_end(ts, i).unwrap();
        let tail = es.subrange(1, es.len() as int);
        assert(items_is(ts, k0, k, tail));
        lemma_items_push(ts, k0, k, j, tail, d);
        assert(n.subrange(1, n.len() as int) =~= tail.push(d));
        assert(n[0] == es[0]);
    }
}

/// The whole program: declarations from `i` up to the end marker at `j`.
pub open spec fn program_is(ts: Seq<TokenContext>, i: int, j: int, es: Seq<Expr>) -> bool {
    items_is(ts, i, j, es) && tk(ts, j) is Eof
}

} // verus!

verus! {

/// An expression tree that is a lone name spans exactly its name token.
pub proof fn lemma_name_tree(ts: Seq<TokenContext>, i: int, j: int, name: String)
    requires
        or_is(ts, i, j, Expr::VariableExpr(name)),
    ensures
        j == i + 1,
        tk(ts, i) == Token::Literal(LiteralTokenType::IdentifierLiteral(name)),
{
    let e = Expr::VariableExpr(name);
    assert(and_is(ts, i, j, e));
    assert(equality_is(ts, i, j, e));
    assert(comparison_is(ts, i, j, e));
    assert(term_is(ts, i, j, e));
    assert(factor_is(ts, i, j, e));
    assert(unary_is(ts, i, j, e));
    assert(call_is(ts, i, j, e));
    assert(primary_is(ts, i, j, e));
}

} // verus!

verus! {

pub proof fn lemma_or_step(ts: Seq<TokenContext>, i: int, k: int, j: int, l: Expr, r: Expr)
    requires
        or_is(ts, i, k, l),
        tk(ts, k) is Or,
        and_is(ts, k + 1, j, r),
    ensures
        or_is(ts, i, j, Expr::LogicalExpr { left: Box::new(l), operator: Token::Or, right: Box::new(r) }),
{
    let e = Expr::LogicalExpr { left: Box::new(l), operator: Token::Or, right: Box::new(r) };
    assert(or_is(ts, i, k, l) && tk(ts, k) is Or && and_is(ts, k + 1, j, r));
    assert(exists|kk: int| #[trigger] or_is(ts, i, kk, l) && tk(ts, kk) == Token::Or && and_is(ts, kk + 1, j, r));
    reveal_with_fuel(or_is, 2);
}

pub proof fn lemma_and_step(ts: Seq<TokenContext>, i: int, k: int, j: int, l: Expr, r: Expr)
    requires
        and_is(ts, i, k, l),
        tk(ts, k) is And,
        equality_is(ts, k + 1, j, r),
    ensures
        and_is(ts, i, j, Expr::LogicalExpr { left: Box::new(l), operator: Token::And, right: Box::new(r) }),
{
    assert(and_is(ts, i, k, l) && tk(ts, k) is And && equality_is(ts, k + 1, j, r));
    assert(exists|kk: int| #[trigger] and_is(ts, i, kk, l) && tk(ts, kk) == Token::And && equality_is(ts, kk + 1, j, r));
    reveal_with_fuel(and_is, 2);
}

} // verus!

verus! {

pub proof fn lemma_call_step(ts: Seq<TokenContext>, i: int, k: int, j: int, callee: Expr, arguments: Vec<Expr>)
    requires
        call_is(ts, i, k, callee),
        tk(ts, k) is LeftParen,
        args_is(ts, k + 1, j - 1, arguments@),
        tk(ts, j - 1) is RightParen,
    ensures
        call_is(ts, i, j, Expr::CallExpr { callee: Box::new(callee), arguments }),
{
    assert(call_is(ts, i, k, callee) && tk(ts, k) is LeftParen && args_is(ts, k + 1, j - 1, arguments@));
    assert(exists|kk: int| #[trigger] call_is(ts, i, kk, callee) && tk(ts, kk) == Token::LeftParen && args_is(ts, kk + 1, j - 1, arguments@));
    reveal_with_fuel(call_is, 2);
}

} // verus!

verus! {

pub proof fn lemma_args_step(ts: Seq<TokenContext>, i: int, last: int, j: int, es: Seq<Expr>, a: Expr)
    requires
        es.len() == 0 ==> last + 1 == i,
        es.len() > 0 ==> args_is(ts, i, last, es) && tk(ts, last) is Comma,
        expr_is(ts, last + 1, j, a),
    ensures
        args_is(ts, i, j, es.push(a)),
{
    let n = es.push(a);
    assert(n.drop_last() =~= es);
    assert(n.last() == a);
    if es.len() == 0 {
        assert(n[0] == a);
    } else {
        assert(args_is(ts, i, last, n.drop_last()) && tk(ts, last) is Comma && expr_is(ts, last + 1, j, n.last()));
        assert(exists|kk: int| #[trigger] args_is(ts, i, kk, n.drop_last()) && tk(ts, kk) == Token::Comma && expr_is(ts, kk + 1, j, n.last()));
        reveal_with_fuel(args_is, 2);
    }
}

} // verus!
