//! The grammar of the language as a recognizer over token sequences.
use vstd::prelude::*;
use crate::token::{LiteralTokenType, Token, TokenContext};

verus! {

// The grammar as a recognizer: each `*_end` function gives, for a token
// sequence and a start index, the index just past the phrase of that kind
// that starts there, or `None` when no such phrase starts there. The parser
// accepts exactly what these functions accept.

/// The token at index `k`; past the end, the end marker.
pub open spec fn tk(ts: Seq<TokenContext>, k: int) -> Token {
    if 0 <= k < ts.len() {
        ts[k].token
    } else {
        Token::Eof
    }
}

pub open spec fn is_identifier(t: Token) -> bool {
    t matches Token::Literal(LiteralTokenType::IdentifierLiteral(_))
}

/// `r` when it is an index after `i` within the tokens, else `None`.
pub open spec fn after(ts: Seq<TokenContext>, i: int, r: Option<int>) -> Option<int> {
    match r {
        Some(j) => if i < j <= ts.len() {
            Some(j)
        } else {
            None
        },
        None => None,
    }
}

/// `r` followed by a token of the kind `ok` accepts.
pub open spec fn then_token(ts: Seq<TokenContext>, r: Option<int>, ok: bool) -> Option<int> {
    match r {
        Some(j) => if ok {
            Some(j + 1)
        } else {
            None
        },
        None => None,
    }
}

pub open spec fn in_bounds(ts: Seq<TokenContext>, i: int) -> bool {
    0 <= i <= ts.len()
}

/// Parameter names separated by commas.
pub open spec fn params_end(ts: Seq<TokenContext>, k: int) -> Option<int>
    decreases ts.len() - k,
{
    if !in_bounds(ts, k) || !is_identifier(tk(ts, k)) {
        None
    } else if tk(ts, k + 1) is Comma {
        if k + 2 <= ts.len() {
            params_end(ts, k + 2)
        } else {
            None
        }
    } else {
        Some(k + 1)
    }
}

/// Literal, name, or parenthesized expression.
pub open spec fn primary_end(ts: Seq<TokenContext>, i: int) -> Option<int>
    decreases ts.len() - i, 10int,
{
    if !in_bounds(ts, i) {
        None
    } else {
        let t = tk(ts, i);
        if t is Literal || t is Nil || t is True || t is False {
            Some(i + 1)
        } else if t is LeftParen {
            match expr_end(ts, i + 1) {
                Some(j) => if tk(ts, j) is RightParen {
                    Some(j + 1)
                } else {
                    None
                },
                None => None,
            }
        } else {
            None
        }
    }
}

/// Arguments separated by commas.
pub open spec fn args_end(ts: Seq<TokenContext>, k: int) -> Option<int>
    decreases ts.len() - k, 21int,
{
    if !in_bounds(ts, k) {
        None
    } else {
        match expr_end(ts, k) {
            Some(m) => if tk(ts, m) is Comma {
                if k <= m && m + 1 <= ts.len() {
                    args_end(ts, m + 1)
                } else {
                    None
                }
            } else {
                Some(m)
            },
            None => None,
        }
    }
}

/// Argument lists following a callee that ends at `j`.
pub open spec fn call_tail_end(ts: Seq<TokenContext>, j: int) -> Option<int>
    decreases ts.len() - j, 11int,
{
    if !in_bounds(ts, j) {
        None
    } else if tk(ts, j) is LeftParen {
        let close = if tk(ts, j + 1) is RightParen {
            Some(j + 1)
        } else {
            args_end(ts, j + 1)
        };
        match close {
            Some(m) => if tk(ts, m) is RightParen && j < m && m + 1 <= ts.len() {
                call_tail_end(ts, m + 1)
            } else {
                None
            },
            None => None,
        }
    } else {
        Some(j)
    }
}

pub open spec fn call_end(ts: Seq<TokenContext>, i: int) -> Option<int>
    decreases ts.len() - i, 11int,
{
    if !in_bounds(ts, i) {
        None
    } else {
        match after(ts, i, primary_end(ts, i)) {
            Some(j) => call_tail_end(ts, j),
            None => None,
        }
    }
}

pub open spec fn unary_end(ts: Seq<TokenContext>, i: int) -> Option<int>
    decreases ts.len() - i, 12int,
{
    if !in_bounds(ts, i) {
        None
    } else if tk(ts, i) is Bang || tk(ts, i) is Minus {
        unary_end(ts, i + 1)
    } else {
        call_end(ts, i)
    }
}

pub open spec fn is_factor_op(t: Token) -> bool {
    t is Star || t is Slash
}

pub open spec fn is_term_op(t: Token) -> bool {
    t is Minus || t is Plus
}

pub open spec fn is_comparison_op(t: Token) -> bool {
    t is Greater || t is GreaterEqual || t is Less || t is LessEqual
}

pub open spec fn is_equality_op(t: Token) -> bool {
    t is BangEqual || t is EqualEqual
}

pub open spec fn factor_tail(ts: Seq<TokenContext>, j: int) -> Option<int>
    decreases ts.len() - j, 13int,
{
    if !in_bounds(ts, j) {
        None
    } else if is_factor_op(tk(ts, j)) {
        match after(ts, j, unary_end(ts, j + 1)) {
            Some(k) => factor_tail(ts, k),
            None => None,
        }
    } else {
        Some(j)
    }
}

pub open spec fn factor_end(ts: Seq<TokenContext>, i: int) -> Option<int>
    decreases ts.len() - i, 13int,
{
    if !in_bounds(ts, i) {
        None
    } else {
        match after(ts, i, unary_end(ts, i)) {
            Some(j) => factor_tail(ts, j),
            None => None,
        }
    }
}

pub open spec fn term_tail(ts: Seq<TokenContext>, j: int) -> Option<int>
    decreases ts.len() - j, 14int,
{
    if !in_bounds(ts, j) {
        None
    } else if is_term_op(tk(ts, j)) {
        match after(ts, j, factor_end(ts, j + 1)) {
            Some(k) => term_tail(ts, k),
            None => None,
        }
    } else {
        Some(j)
    }
}

pub open spec fn term_end(ts: Seq<TokenContext>, i: int) -> Option<int>
    decreases ts.len() - i, 14int,
{
    if !in_bounds(ts, i) {
        None
    } else {
        match after(ts, i, factor_end(ts, i)) {
            Some(j) => term_tail(ts, j),
            None => None,
        }
    }
}

pub open spec fn comparison_tail(ts: Seq<TokenContext>, j: int) -> Option<int>
    decreases ts.len() - j, 15int,
{
    if !in_bounds(ts, j) {
        None
    } else if is_comparison_op(tk(ts, j)) {
        match after(ts, j, term_end(ts, j + 1)) {
            Some(k) => comparison_tail(ts, k),
            None => None,
        }
    } else {
        Some(j)
    }
}

pub open spec fn comparison_end(ts: Seq<TokenContext>, i: int) -> Option<int>
    decreases ts.len() - i, 15int,
{
    if !in_bounds(ts, i) {
        None
    } else {
        match after(ts, i, term_end(ts, i)) {
            Some(j) => comparison_tail(ts, j),
            None => None,
        }
    }
}

pub open spec fn equality_tail(ts: Seq<TokenContext>, j: int) -> Option<int>
    decreases ts.len() - j, 16int,
{
    if !in_bounds(ts, j) {
        None
    } else if is_equality_op(tk(ts, j)) {
        match after(ts, j, comparison_end(ts, j + 1)) {
            Some(k) => equality_tail(ts, k),
            None => None,
        }
    } else {
        Some(j)
    }
}

pub open spec fn equality_end(ts: Seq<TokenContext>, i: int) -> Option<int>
    decreases ts.len() - i, 16int,
{
    if !in_bounds(ts, i) {
        None
    } else {
        match after(ts, i, comparison_end(ts, i)) {
            Some(j) => equality_tail(ts, j),
            None => None,
        }
    }
}

pub open spec fn and_tail(ts: Seq<TokenContext>, j: int) -> Option<int>
    decreases ts.len() - j, 17int,
{
    if !in_bounds(ts, j) {
        None
    } else if tk(ts, j) is And {
        match after(ts, j, equality_end(ts, j + 1)) {
            Some(k) => and_tail(ts, k),
            None => None,
        }
    } else {
        Some(j)
    }
}

pub open spec fn and_end(ts: Seq<TokenContext>, i: int) -> Option<int>
    decreases ts.len() - i, 17int,
{
    if !in_bounds(ts, i) {
        None
    } else {
        match after(ts, i, equality_end(ts, i)) {
            Some(j) => and_tail(ts, j),
            None => None,
        }
    }
}

pub open spec fn or_tail(ts: Seq<TokenContext>, j: int) -> Option<int>
    decreases ts.len() - j, 18int,
{
    if !in_bounds(ts, j) {
        None
    } else if tk(ts, j) is Or {
        match after(ts, j, and_end(ts, j + 1)) {
            Some(k) => or_tail(ts, k),
            None => None,
        }
    } else {
        Some(j)
    }
}

pub open spec fn or_end(ts: Seq<TokenContext>, i: int) -> Option<int>
    decreases ts.len() - i, 18int,
{
    if !in_bounds(ts, i) {
        None
    } else {
        match after(ts, i, and_end(ts, i)) {
            Some(j) => or_tail(ts, j),
            None => None,
        }
    }
}

/// `target = value`: the target must be a lone name.
pub open spec fn assign_end(ts: Seq<TokenContext>, i: int) -> Option<int>
    decreases ts.len() - i, 19int,
{
    if !in_bounds(ts, i) {
        None
    } else {
        match after(ts, i, or_end(ts, i)) {
            Some(j) => if tk(ts, j) is Equal {
                if is_identifier(tk(ts, i)) && j == i + 1 && j + 1 <= ts.len() {
                    assign_end(ts, j + 1)
                } else {
                    None
                }
            } else {
                Some(j)
            },
            None => None,
        }
    }
}

pub open spec fn expr_end(ts: Seq<TokenContext>, i: int) -> Option<int>
    decreases ts.len() - i, 20int,
{
    if !in_bounds(ts, i) {
        None
    } else {
        assign_end(ts, i)
    }
}

pub open spec fn expr_stmt_end(ts: Seq<TokenContext>, i: int) -> Option<int>
    decreases ts.len() - i, 27int,
{
    if !in_bounds(ts, i) {
        None
    } else {
        match expr_end(ts, i) {
            Some(j) => then_token(ts, Some(j), tk(ts, j) is Semicolon),
            None => None,
        }
    }
}

pub open spec fn print_end(ts: Seq<TokenContext>, i: int) -> Option<int>
    decreases ts.len() - i, 27int,
{
    if !in_bounds(ts, i) || !(tk(ts, i) is Print) {
        None
    } else {
        match expr_end(ts, i + 1) {
            Some(j) => then_token(ts, Some(j), tk(ts, j) is Semicolon),
            None => None,
        }
    }
}

pub open spec fn return_end(ts: Seq<TokenContext>, i: int) -> Option<int>
    decreases ts.len() - i, 27int,
{
    if !in_bounds(ts, i) || !(tk(ts, i) is Return) {
        None
    } else if tk(ts, i + 1) is Semicolon {
        Some(i + 2)
    } else {
        match expr_end(ts, i + 1) {
            Some(j) => then_token(ts, Some(j), tk(ts, j) is Semicolon),
            None => None,
        }
    }
}

pub open spec fn var_end(ts: Seq<TokenContext>, i: int) -> Option<int>
    decreases ts.len() - i, 29int,
{
    if !in_bounds(ts, i) || !(tk(ts, i) is Var) || !is_identifier(tk(ts, i + 1)) {
        None
    } else if tk(ts, i + 2) is Equal {
        match expr_end(ts, i + 3) {
            Some(k) => then_token(ts, Some(k), tk(ts, k) is Semicolon),
            None => None,
        }
    } else if tk(ts, i + 2) is Semicolon {
        Some(i + 3)
    } else {
        None
    }
}

/// Declarations up to a closing brace or the end.
pub open spec fn items_end(ts: Seq<TokenContext>, i: int) -> Option<int>
    decreases ts.len() - i, 31int,
{
    if !in_bounds(ts, i) {
        None
    } else if tk(ts, i) is Eof || tk(ts, i) is RightBrace {
        Some(i)
    } else {
        match after(ts, i, decl_end(ts, i)) {
            Some(j) => items_end(ts, j),
            None => None,
        }
    }
}

pub open spec fn block_end(ts: Seq<TokenContext>, i: int) -> Option<int>
    decreases ts.len() - i, 27int,
{
    if !in_bounds(ts, i) || !(tk(ts, i) is LeftBrace) {
        None
    } else {
        match items_end(ts, i + 1) {
            Some(j) => then_token(ts, Some(j), tk(ts, j) is RightBrace),
            None => None,
        }
    }
}

/// `( condition )` starting at `i`; the index past the `)`.
pub open spec fn condition_end(ts: Seq<TokenContext>, i: int) -> Option<int>
    decreases ts.len() - i, 21int,
{
    if !in_bounds(ts, i) || !(tk(ts, i) is LeftParen) {
        None
    } else {
        match expr_end(ts, i + 1) {
            Some(j) => then_token(ts, Some(j), tk(ts, j) is RightParen),
            None => None,
        }
    }
}

pub open spec fn if_end(ts: Seq<TokenContext>, i: int) -> Option<int>
    decreases ts.len() - i, 27int,
{
    if !in_bounds(ts, i) || !(tk(ts, i) is If) {
        None
    } else {
        match after(ts, i, condition_end(ts, i + 1)) {
            Some(j) => match after(ts, i, stmt_end(ts, j)) {
                Some(k) => if tk(ts, k) is Else && k + 1 <= ts.len() {
                    stmt_end(ts, k + 1)
                } else {
                    Some(k)
                },
                None => None,
            },
            None => None,
        }
    }
}

pub open spec fn while_end(ts: Seq<TokenContext>, i: int) -> Option<int>
    decreases ts.len() - i, 27int,
{
    if !in_bounds(ts, i) || !(tk(ts, i) is While) {
        None
    } else {
        match after(ts, i, condition_end(ts, i + 1)) {
            Some(j) => stmt_end(ts, j),
            None => None,
        }
    }
}

/// `for ( init? ; cond? ; incr? ) body`.
pub open spec fn for_end(ts: Seq<TokenContext>, i: int) -> Option<int>
    decreases ts.len() - i, 27int,
{
    if !in_bounds(ts, i) || !(tk(ts, i) is For) || !(tk(ts, i + 1) is LeftParen) {
        None
    } else {
        let a = i + 2;
        let init = if tk(ts, a) is Semicolon {
            Some(a + 1)
        } else if tk(ts, a) is Var {
            var_end(ts, a)
        } else {
            expr_stmt_end(ts, a)
        };
        match after(ts, i, init) {
            Some(b) => {
                let cond = if tk(ts, b) is Semicolon {
                    Some(b)
                } else {
                    expr_end(ts, b)
                };
                match after(ts, i, then_token(ts, cond, tk(ts, cond.unwrap()) is Semicolon)) {
                    Some(d) => {
                        let incr = if tk(ts, d) is RightParen {
                            Some(d)
                        } else {
                            expr_end(ts, d)
                        };
                        match after(
                            ts,
                            i,
                            then_token(ts, incr, tk(ts, incr.unwrap()) is RightParen),
                        ) {
                            Some(f) => stmt_end(ts, f),
                            None => None,
                        }
                    },
                    None => None,
                }
            },
            None => None,
        }
    }
}

/// `fun name ( params? ) block`.
pub open spec fn fun_end(ts: Seq<TokenContext>, i: int) -> Option<int>
    decreases ts.len() - i, 29int,
{
    if !in_bounds(ts, i) || !(tk(ts, i) is Fun) || !is_identifier(tk(ts, i + 1)) || !(tk(
        ts,
        i + 2,
    ) is LeftParen) {
        None
    } else {
        let p = i + 3;
        let close = if tk(ts, p) is RightParen {
            Some(p)
        } else {
            params_end(ts, p)
        };
        match after(ts, i, then_token(ts, close, tk(ts, close.unwrap()) is RightParen)) {
            Some(b) => block_end(ts, b),
            None => None,
        }
    }
}

pub open spec fn stmt_end(ts: Seq<TokenContext>, i: int) -> Option<int>
    decreases ts.len() - i, 28int,
{
    if !in_bounds(ts, i) {
        None
    } else {
        let t = tk(ts, i);
        if t is Print {
            print_end(ts, i)
        } else if t is LeftBrace {
            block_end(ts, i)
        } else if t is If {
            if_end(ts, i)
        } else if t is While {
            while_end(ts, i)
        } else if t is For {
            for_end(ts, i)
        } else if t is Return {
            return_end(ts, i)
        } else {
            expr_stmt_end(ts, i)
        }
    }
}

pub open spec fn decl_end(ts: Seq<TokenContext>, i: int) -> Option<int>
    decreases ts.len() - i, 30int,
{
    if !in_bounds(ts, i) {
        None
    } else if tk(ts, i) is Var {
        var_end(ts, i)
    } else if tk(ts, i) is Fun {
        fun_end(ts, i)
    } else {
        stmt_end(ts, i)
    }
}

/// The start of the first declaration from `i` on that the grammar rejects.
pub open spec fn first_failure(ts: Seq<TokenContext>, i: int) -> Option<int>
    decreases ts.len() - i,
{
    if !in_bounds(ts, i) || tk(ts, i) is Eof {
        None
    } else {
        match after(ts, i, decl_end(ts, i)) {
            Some(j) => first_failure(ts, j),
            None => Some(i),
        }
    }
}

/// Where error recovery resumes, scanning from `j` (one past the token that
/// failed): after a `;`, at a token that starts a declaration, or at the end.
pub open spec fn resume_from(ts: Seq<TokenContext>, j: int) -> int
    decreases ts.len() - j,
{
    if !(1 <= j < ts.len()) || tk(ts, j) is Eof || tk(ts, j - 1) is Semicolon || starts_declaration(tk(ts, j)) {
        j
    } else {
        resume_from(ts, j + 1)
    }
}

/// The token starts a declaration or statement that recovery stops at.
pub open spec fn starts_declaration(t: Token) -> bool {
    t is Class || t is Fun || t is Var || t is For || t is If || t is While || t is Print
        || t is Return
}

/// Where error recovery resumes after a failure at `i`.
pub open spec fn recovery_point(ts: Seq<TokenContext>, i: int) -> int {
    if tk(ts, i) is Eof {
        i
    } else {
        resume_from(ts, i + 1)
    }
}

/// How many declarations the grammar reads from `i` on, up to the end marker
/// or the first it rejects.
pub open spec fn decl_count(ts: Seq<TokenContext>, i: int) -> nat
    decreases ts.len() - i,
{
    if !in_bounds(ts, i) || tk(ts, i) is Eof {
        0
    } else {
        match after(ts, i, decl_end(ts, i)) {
            Some(j) => 1 + decl_count(ts, j),
            None => 0,
        }
    }
}

/// From `i` on, the tokens are declarations up to the end marker.
pub open spec fn program_ok(ts: Seq<TokenContext>, i: int) -> bool
    decreases ts.len() - i,
{
    if !in_bounds(ts, i) {
        false
    } else if tk(ts, i) is Eof {
        true
    } else {
        match after(ts, i, decl_end(ts, i)) {
            Some(j) => program_ok(ts, j),
            None => false,
        }
    }
}

} // verus!

