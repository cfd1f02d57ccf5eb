//! The recursive-descent parser, with error recovery, proved to accept
//! exactly what the grammar accepts.
use vstd::prelude::*;
use crate::ast::{Expr, ExprLiteralValue};
use crate::grammar::{
    and_end,
    and_tail,
    args_end,
    assign_end,
    block_end,
    call_end,
    call_tail_end,
    comparison_end,
    comparison_tail,
    condition_end,
    decl_end,
    equality_end,
    equality_tail,
    expr_end,
    expr_stmt_end,
    factor_end,
    factor_tail,
    for_end,
    fun_end,
    if_end,
    is_identifier,
    items_end,
    or_end,
    or_tail,
    params_end,
    primary_end,
    print_end,
    program_ok,
    first_failure,
    decl_count,
    recovery_point,
    resume_from,
    starts_declaration,
    return_end,
    stmt_end,
    term_end,
    term_tail,
    tk,
    unary_end,
    var_end,
    while_end,
};
use crate::token::{LiteralTokenType, Token, TokenContext};
use crate::trees::{
    and_is,
    args_is,
    assign_is,
    call_is,
    comparison_is,
    equality_is,
    expr_is,
    factor_is,
    or_is,
    primary_is,
    term_is,
    unary_is,
    for_rest_is,
    for_tail_is,
    init_is,
    program_is,
    params_is,
    braced_is,
    cond_is,
    decl_is,
    for_is,
    fun_is,
    if_is,
    items_is,
    stmt_is,
    while_is,
    expr_stmt_is,
    print_is,
    return_is,
    var_is,
};

verus! {

/// One syntax error: what was expected, and where.
#[derive(Debug, Clone, PartialEq)]
pub struct ParseError {
    pub msg: String,
    pub line: usize,
    pub column: usize,
    pub lexeme: String,
}

impl ParseError {
    pub fn new(msg: String, line: usize, column: usize, lexeme: String) -> (e: ParseError)
        ensures
            e.msg == msg,
            e.line == line,
            e.column == column,
            e.lexeme == lexeme,
    {
        ParseError { msg, line, column, lexeme }
    }

    pub fn message(&self) -> (s: &str)
        ensures
            s@ == self.msg@,
    {
        self.msg.as_str()
    }

    pub fn line(&self) -> (n: usize)
        ensures
            n == self.line,
    {
        self.line
    }

    pub fn column(&self) -> (n: usize)
        ensures
            n == self.column,
    {
        self.column
    }

    /// Source text of the token where the error was found.
    pub fn lexeme(&self) -> (s: &str)
        ensures
            s@ == self.lexeme@,
    {
        self.lexeme.as_str()
    }
}

/// Recursive-descent parser over a token sequence; `pos` is the next token.
/// Past the last token it reads an end marker.
pub struct Parser {
    pub tokens: Vec<TokenContext>,
    pub pos: usize,
    pub eof: Token,
}


/// Tokens that are unary or binary operators.
pub open spec fn is_operator(t: Token) -> bool {
    t is BangEqual || t is EqualEqual || t is Greater || t is GreaterEqual || t is Less
        || t is LessEqual || t is Minus || t is Plus || t is Slash || t is Star || t is Bang
}

/// Where a `for` starting at `i` has its initializer end.
pub open spec fn for_init_end(ts: Seq<TokenContext>, i: int) -> int {
    if tk(ts, i + 2) is Semicolon {
        i + 3
    } else if tk(ts, i + 2) is Var {
        var_end(ts, i + 2).unwrap()
    } else {
        expr_stmt_end(ts, i + 2).unwrap()
    }
}

pub type ParseResult = Result<Expr, ParseError>;

impl Parser {
    pub open spec fn wf(&self) -> bool {
        self.pos <= self.tokens@.len() && self.eof is Eof
    }

    pub open spec fn remaining(&self) -> int {
        self.tokens@.len() - self.pos
    }

    /// The token at index `k` as the parser reads it.
    pub open spec fn token_at(&self, k: int) -> Token {
        tk(self.tokens@, k)
    }

    /// The token at `pos` as the parser reads it.
    pub open spec fn current(&self) -> Token {
        tk(self.tokens@, self.pos as int)
    }

    /// The call succeeded exactly when the grammar accepts a phrase at the
    /// old position (`end`), and then stopped just past it.
    pub open spec fn follows(old: &Parser, new: &Parser, ok: bool, end: Option<int>) -> bool {
        &&& ok <==> end is Some
        &&& ok ==> end == Some(new.pos as int)
    }

    /// An expression parsed from `old` to `new` is a lone variable exactly
    /// when it was one name token.
    pub open spec fn lone_name(old: &Parser, new: &Parser, e: Expr) -> bool {
        e is VariableExpr <==> (is_identifier(old.current()) && new.pos == old.pos + 1)
    }

    /// `e` is reported at token `k`: its line, column and text.
    pub open spec fn error_at(e: ParseError, ts: Seq<TokenContext>, k: int) -> bool {
        &&& e.line == ts[k].line_number
        &&& e.column == ts[k].start_char_offset
        &&& e.lexeme == ts[k].lexeme
    }

    /// The error for a `var` whose name is missing: it says so, at the token
    /// where the name should be.
    pub open spec fn missing_name_error(e: ParseError, ts: Seq<TokenContext>, i: int) -> bool {
        &&& e.msg@ == "expected variable name"@
        &&& i + 1 < ts.len() ==> Parser::error_at(e, ts, i + 1)
    }

    /// `new` is `old` with some tokens consumed, and at least one when `moved`.
    pub open spec fn advanced(old: &Parser, new: &Parser, moved: bool) -> bool {
        &&& new.wf()
        &&& new.tokens@ == old.tokens@
        &&& old.pos <= new.pos
        &&& moved ==> old.pos < new.pos
    }

    pub fn new() -> (p: Parser)
        ensures
            p.wf(),
            p.tokens@.len() == 0,
    {
        Parser { tokens: Vec::new(), pos: 0, eof: Token::Eof }
    }

    /// Appends tokens to the input.
    pub fn add_tokens(&mut self, tokens: Vec<TokenContext>)
        requires
            old(self).wf(),
        ensures
            final(self).wf(),
            final(self).tokens@ == old(self).tokens@ + tokens@,
            final(self).pos == old(self).pos,
    {
        let mut ts = tokens;
        self.tokens.append(&mut ts);
    }

    fn peek(&self) -> (t: &Token)
        requires
            self.wf(),
        ensures
            *t == self.current(),
    {
        if self.pos < self.tokens.len() {
            &self.tokens[self.pos].token
        } else {
            &self.eof
        }
    }

    fn at_end(&self) -> (b: bool)
        requires
            self.wf(),
        ensures
            b == (self.current() is Eof),
    {
        self.peek().is_eof()
    }

    fn advance(&mut self)
        requires
            old(self).wf(),
            !(old(self).current() is Eof),
        ensures
            Parser::advanced(&*old(self), &*final(self), true),
            final(self).pos == old(self).pos + 1,
    {
        if self.pos < self.tokens.len() {
            self.pos = self.pos + 1;
        }
    }

    /// An error at the current token.
    fn error_here(&self, msg: &str) -> (e: ParseError)
        requires
            self.wf(),
        ensures
            e.msg@ == msg@,
            self.pos < self.tokens@.len() ==> Parser::error_at(e, self.tokens@, self.pos as int),
    {
        if self.pos < self.tokens.len() {
            let t = &self.tokens[self.pos];
            ParseError::new(msg.to_string(), t.line_number, t.start_char_offset, t.lexeme.clone())
        } else if self.tokens.len() > 0 {
            let t = &self.tokens[self.tokens.len() - 1];
            ParseError::new(msg.to_string(), t.line_number, t.start_char_offset, t.lexeme.clone())
        } else {
            ParseError::new(msg.to_string(), 0, 0, "".to_string())
        }
    }

    /// Consumes the current token when `found` says it is the expected one.
    fn expect(&mut self, found: bool, msg: &str) -> (r: Result<(), ParseError>)
        requires
            old(self).wf(),
            found ==> !(old(self).current() is Eof),
        ensures
            Parser::advanced(&*old(self), &*final(self), r is Ok),
            r is Ok <==> found,
            r is Ok ==> final(self).pos == old(self).pos + 1,
    {
        if found {
            self.advance();
            Ok(())
        } else {
            Err(self.error_here(msg))
        }
    }

    /// The identifier at the current token, consumed.
    fn identifier(&mut self, msg: &str) -> (r: Result<String, ParseError>)
        requires
            old(self).wf(),
        ensures
            Parser::advanced(&*old(self), &*final(self), r is Ok),
            r matches Ok(s) ==> old(self).current() == Token::Literal(
                LiteralTokenType::IdentifierLiteral(s),
            ),
            r is Ok <==> is_identifier(old(self).current()),
            r matches Err(e) ==> e.msg@ == msg@ && (old(self).pos < old(self).tokens@.len()
                ==> Parser::error_at(e, old(self).tokens@, old(self).pos as int)),
            r is Ok ==> final(self).pos == old(self).pos + 1,
    {
        let name = match self.peek() {
            Token::Literal(LiteralTokenType::IdentifierLiteral(s)) => s.clone(),
            _ => {
                return Err(self.error_here(msg));
            },
        };
        self.advance();
        Ok(name)
    }

    /// Parses the whole input: every declaration up to the end marker. Each
    /// syntax error is collected, and parsing resumes after the next
    /// statement boundary.
    pub fn parse(&mut self) -> (r: Result<Vec<Expr>, Vec<ParseError>>)
        requires
            old(self).wf(),
        ensures
            final(self).wf(),
            final(self).tokens@.len() == 0,
            final(self).pos == 0,
            r is Ok <==> program_ok(old(self).tokens@, old(self).pos as int),
            r matches Ok(v) ==> v@.len() == decl_count(old(self).tokens@, old(self).pos as int),
            r matches Ok(v) ==> exists|j: int| program_is(old(self).tokens@, old(self).pos as int, j, v@),
            r matches Err(es) ==> es@.len() > 0,
            r matches Err(es) ==> match first_failure(old(self).tokens@, old(self).pos as int) {
                Some(p) => (tk(old(self).tokens@, p) is Var && !is_identifier(tk(old(self).tokens@, p + 1)))
                    ==> Parser::missing_name_error(es@[0], old(self).tokens@, p),
                None => false,
            },
    {
        let ghost ts = self.tokens@;
        let ghost start = self.pos as int;
        let mut stmts: Vec<Expr> = Vec::new();
        let mut errors: Vec<ParseError> = Vec::new();
        while !self.at_end()
            invariant
                Parser::advanced(&*old(self), &*self, false),
                ts == self.tokens@,
                start == old(self).pos,
                errors@.len() == 0 ==> program_ok(ts, self.pos as int) == program_ok(ts, start),
                errors@.len() == 0 ==> first_failure(ts, self.pos as int) == first_failure(ts, start),
                errors@.len() == 0 ==> stmts@.len() + decl_count(ts, self.pos as int) == decl_count(ts, start),
                errors@.len() == 0 ==> items_is(ts, start, self.pos as int, stmts@),
                errors@.len() > 0 ==> !program_ok(ts, start),
                errors@.len() > 0 ==> match first_failure(ts, start) {
                    Some(p) => (tk(ts, p) is Var && !is_identifier(tk(ts, p + 1)))
                        ==> Parser::missing_name_error(errors@[0], ts, p),
                    None => false,
                },
            decreases self.remaining(),
        {
            let ghost p = self.pos as int;
            let ghost cur0 = self.current();
            match self.decl() {
                Ok(s) => {
                    assert(program_ok(ts, p) == program_ok(ts, self.pos as int));
                    assert(first_failure(ts, p) == first_failure(ts, self.pos as int));
                    assert(decl_count(ts, p) == 1 + decl_count(ts, self.pos as int));
                    proof {
                        if errors@.len() == 0 {
                            crate::trees::lemma_items_push(ts, start, p, self.pos as int, stmts@, s);
                        }
                    }
                    stmts.push(s);
                },
                Err(e) => {
                    assert(!program_ok(ts, p));
                    assert(errors@.len() == 0 ==> first_failure(ts, p) == Some(p));
                    errors.push(e);
                    let ghost mid = self.pos;
                    assert(mid == p ==> self.current() == cur0);
                    self.synchronize();
                },
            }
        }
        let ghost end = self.pos as int;
        assert(errors@.len() == 0 ==> program_is(ts, start, end, stmts@));
        self.tokens = Vec::new();
        self.pos = 0;
        if errors.len() > 0 {
            Err(errors)
        } else {
            Ok(stmts)
        }
    }

    /// Skips tokens up to a statement boundary: past a `;`, or up to a token
    /// that starts a declaration, or to the end.
    fn synchronize(&mut self)
        requires
            old(self).wf(),
        ensures
            Parser::advanced(&*old(self), &*final(self), !(old(self).current() is Eof)),
            final(self).pos == recovery_point(old(self).tokens@, old(self).pos as int),
    {
        if self.at_end() {
            return;
        }
        self.advance();
        while !self.at_end()
            invariant
                Parser::advanced(&*old(self), &*self, true),
                self.pos >= 1,
                resume_from(self.tokens@, self.pos as int) == recovery_point(old(self).tokens@, old(self).pos as int),
            decreases self.remaining(),
        {
            if matches!(self.tokens[self.pos - 1].token, Token::Semicolon) {
                return;
            }
            let t = self.peek();
            if matches!(t, Token::Class) || matches!(t, Token::Fun) || matches!(t, Token::Var)
                || matches!(t, Token::For) || matches!(t, Token::If) || matches!(t, Token::While)
                || matches!(t, Token::Print) || matches!(t, Token::Return) {
                return;
            }
            self.advance();
        }
    }

    fn decl(&mut self) -> (r: ParseResult)
        requires
            old(self).wf(),
        ensures
            Parser::advanced(&*old(self), &*final(self), r is Ok),
            Parser::follows(&*old(self), &*final(self), r is Ok, decl_end(old(self).tokens@, old(self).pos as int)),
            r matches Ok(e) ==> (old(self).current() is Var ==> e is VarDecl) && (old(self).current() is Fun ==> e is FunctionExpr) && (old(self).current() is Print ==> e is PrintStmt),
            (old(self).current() is Var && !is_identifier(old(self).token_at(old(self).pos + 1)))
                ==> (r matches Err(e) && Parser::missing_name_error(e, old(self).tokens@, old(self).pos as int)),
            r matches Ok(e) ==> decl_is(old(self).tokens@, old(self).pos as int, final(self).pos as int, e),
        decreases old(self).remaining(), 30int,
    {
        if matches!(self.peek(), Token::Var) {
            self.var_decl()
        } else if matches!(self.peek(), Token::Fun) {
            self.function()
        } else {
            self.stmt()
        }
    }

    /// `var name ( = initializer )? ;`
    fn var_decl(&mut self) -> (r: ParseResult)
        requires
            old(self).wf(),
        ensures
            Parser::advanced(&*old(self), &*final(self), r is Ok),
            Parser::follows(&*old(self), &*final(self), r is Ok, var_end(old(self).tokens@, old(self).pos as int)),
            r matches Ok(e) ==> (e matches Expr::VarDecl { name, .. } && old(self).token_at(old(self).pos + 1)
                == Token::Literal(LiteralTokenType::IdentifierLiteral(name))),
            (old(self).current() is Var && !is_identifier(old(self).token_at(old(self).pos + 1)))
                ==> (r matches Err(e) && Parser::missing_name_error(e, old(self).tokens@, old(self).pos as int)),
            r matches Ok(e) ==> var_is(old(self).tokens@, old(self).pos as int, final(self).pos as int, e),
        decreases old(self).remaining(), 29int,
    {
        let is_var = matches!(self.peek(), Token::Var);
        self.expect(is_var, "expected 'var'")?;
        let name = self.identifier("expected variable name")?;
        let initializer = if matches!(self.peek(), Token::Equal) {
            self.advance();
            let e = self.expression()?;
            Some(Box::new(e))
        } else {
            None
        };
        let semi = matches!(self.peek(), Token::Semicolon);
        self.expect(semi, "expected ';' after variable declaration")?;
        Ok(Expr::VarDecl { name, initializer })
    }

    /// `fun name ( params ) block`
    #[verifier::rlimit(100)]
    fn function(&mut self) -> (r: ParseResult)
        requires
            old(self).wf(),
        ensures
            Parser::advanced(&*old(self), &*final(self), r is Ok),
            Parser::follows(&*old(self), &*final(self), r is Ok, fun_end(old(self).tokens@, old(self).pos as int)),
            r matches Ok(e) ==> (e matches Expr::FunctionExpr { name: Some(name), .. } && old(self).token_at(old(self).pos + 1)
                == Token::Literal(LiteralTokenType::IdentifierLiteral(name))),
            r matches Ok(e) ==> fun_is(old(self).tokens@, old(self).pos as int, final(self).pos as int, e),
        decreases old(self).remaining(), 29int,
    {
        let ghost ts = self.tokens@;
        let is_fun = matches!(self.peek(), Token::Fun);
        self.expect(is_fun, "expected 'fun'")?;
        let name = self.identifier("expected function name")?;
        let lp = matches!(self.peek(), Token::LeftParen);
        self.expect(lp, "expected '(' after function name")?;
        let ghost p0 = self.pos as int;
        let mut params: Vec<String> = Vec::new();
        if !matches!(self.peek(), Token::RightParen) {
            loop
                invariant_except_break
                    params_end(ts, self.pos as int) == params_end(ts, p0),
                    params@.len() == 0 ==> self.pos == p0,
                    params@.len() > 0 ==> self.pos == p0 + 2 * params@.len() && params_is(
                        ts,
                        p0,
                        self.pos - 1,
                        params@,
                    ) && tk(ts, self.pos - 1) is Comma,
                invariant
                    Parser::advanced(&*old(self), &*self, true),
                    ts == self.tokens@,
                    p0 <= self.pos,
                    p0 == old(self).pos + 3,
                    tk(ts, old(self).pos as int) is Fun,
                    is_identifier(tk(ts, old(self).pos + 1)),
                    tk(ts, old(self).pos + 2) is LeftParen,
                    !(tk(ts, p0) is RightParen),
                ensures
                    params_end(ts, p0) == Some(self.pos as int),
                    params_is(ts, p0, self.pos as int, params@),
                decreases self.remaining(),
            {
                let ghost k = self.pos as int;
                let ghost prev = params@;
                let p = self.identifier("expected parameter name")?;
                params.push(p);
                proof {
                    assert(k == p0 + 2 * prev.len());
                    assert forall|m: int| 0 <= m < params@.len() implies tk(ts, p0 + 2 * m) == Token::Literal(
                        LiteralTokenType::IdentifierLiteral(#[trigger] params@[m]),
                    ) && (m + 1 < params@.len() ==> tk(ts, p0 + 2 * m + 1) is Comma) by {
                        if m < prev.len() {
                            assert(params@[m] == prev[m]);
                        }
                    }
                    assert(params_is(ts, p0, self.pos as int, params@));
                }
                if matches!(self.peek(), Token::Comma) {
                    self.advance();
                } else {
                    break;
                }
            }
        }
        let rp = matches!(self.peek(), Token::RightParen);
        self.expect(rp, "expected ')' after parameters")?;
        let body = self.block_stmts()?;
        Ok(Expr::FunctionExpr { name: Some(name), params, body })
    }

    fn stmt(&mut self) -> (r: ParseResult)
        requires
            old(self).wf(),
        ensures
            Parser::advanced(&*old(self), &*final(self), r is Ok),
            Parser::follows(&*old(self), &*final(self), r is Ok, stmt_end(old(self).tokens@, old(self).pos as int)),
            r matches Ok(e) ==> (old(self).current() is Print ==> e is PrintStmt) && (old(self).current() is LeftBrace ==> e is BlockStmt) && (old(self).current() is If ==> e is IfStmt)
                && (old(self).current() is While ==> e is WhileLoop) && (old(self).current() is Return
                ==> e is ReturnStmt),
            r matches Ok(e) ==> stmt_is(old(self).tokens@, old(self).pos as int, final(self).pos as int, e),
        decreases old(self).remaining(), 28int,
    {
        let t = self.peek();
        if matches!(t, Token::Print) {
            self.print_stmt()
        } else if matches!(t, Token::LeftBrace) {
            let stmts = self.block_stmts()?;
            Ok(Expr::BlockStmt(stmts))
        } else if matches!(t, Token::If) {
            self.if_stmt()
        } else if matches!(t, Token::While) {
            self.while_loop()
        } else if matches!(t, Token::For) {
            self.for_loop()
        } else if matches!(t, Token::Return) {
            self.return_stmt()
        } else {
            self.expression_stmt()
        }
    }

    /// `for ( init? ; cond? ; incr? ) body`, read as
    /// `{ init; while (cond or true) { body; incr; } }`.
    #[verifier::rlimit(100)]
    fn for_loop(&mut self) -> (r: ParseResult)
        requires
            old(self).wf(),
        ensures
            Parser::advanced(&*old(self), &*final(self), r is Ok),
            Parser::follows(&*old(self), &*final(self), r is Ok, for_end(old(self).tokens@, old(self).pos as int)),
            r matches Ok(e) ==> for_is(old(self).tokens@, old(self).pos as int, final(self).pos as int, e),
        decreases old(self).remaining(), 27int,
    {
        let ghost ts = self.tokens@;
        let ghost i0 = self.pos as int;
        let is_for = matches!(self.peek(), Token::For);
        self.expect(is_for, "expected 'for'")?;
        let lp = matches!(self.peek(), Token::LeftParen);
        self.expect(lp, "expected '(' after 'for'")?;
        let initializer = if matches!(self.peek(), Token::Semicolon) {
            self.advance();
            None
        } else if matches!(self.peek(), Token::Var) {
            Some(self.var_decl()?)
        } else {
            Some(self.expression_stmt()?)
        };
        let ghost b = self.pos as int;
        proof {
            if initializer is Some {
                assert(b == for_init_end(ts, i0));
                assert(init_is(ts, i0 + 2, b, initializer->0));
            }
        }
        let no_cond = matches!(self.peek(), Token::Semicolon);
        let condition = if no_cond {
            Expr::LiteralExpr(ExprLiteralValue::BooleanLiteral(true))
        } else {
            self.expression()?
        };
        let semi = matches!(self.peek(), Token::Semicolon);
        self.expect(semi, "expected ';' after loop condition")?;
        let ghost c = self.pos as int;
        let increment = if matches!(self.peek(), Token::RightParen) {
            None
        } else {
            Some(self.expression()?)
        };
        let rp = matches!(self.peek(), Token::RightParen);
        self.expect(rp, "expected ')' after for clauses")?;
        let ghost d = self.pos as int;
        let body = self.stmt()?;
        let ghost j = self.pos as int;
        let body = match increment {
            Some(inc) => Expr::BlockStmt(vec![body, Expr::ExprStmt(Box::new(inc))]),
            None => body,
        };
        proof {
            assert(for_tail_is(ts, c, j, body));
        }
        let looped = Expr::WhileLoop { condition: Box::new(condition), body: Box::new(body) };
        proof {
            assert(for_rest_is(ts, b, j, looped));
        }
        match initializer {
            Some(init) => {
                let e = Expr::BlockStmt(vec![init, looped]);
                proof {
                    assert(for_is(ts, i0, j, e));
                }
                Ok(e)
            },
            None => Ok(looped),
        }
    }

    /// `( expression )`
    fn condition(&mut self) -> (r: ParseResult)
        requires
            old(self).wf(),
        ensures
            Parser::advanced(&*old(self), &*final(self), r is Ok),
            Parser::follows(&*old(self), &*final(self), r is Ok, condition_end(old(self).tokens@, old(self).pos as int)),
            r matches Ok(e) ==> cond_is(old(self).tokens@, old(self).pos as int, final(self).pos as int, e),
        decreases old(self).remaining(), 21int,
    {
        let lp = matches!(self.peek(), Token::LeftParen);
        self.expect(lp, "expected '('")?;
        let e = self.expression()?;
        let rp = matches!(self.peek(), Token::RightParen);
        self.expect(rp, "expected ')' after condition")?;
        Ok(e)
    }

    /// `while ( cond ) body`
    fn while_loop(&mut self) -> (r: ParseResult)
        requires
            old(self).wf(),
        ensures
            Parser::advanced(&*old(self), &*final(self), r is Ok),
            Parser::follows(&*old(self), &*final(self), r is Ok, while_end(old(self).tokens@, old(self).pos as int)),
            r matches Ok(e) ==> e is WhileLoop,
            r matches Ok(e) ==> while_is(old(self).tokens@, old(self).pos as int, final(self).pos as int, e),
        decreases old(self).remaining(), 27int,
    {
        let is_while = matches!(self.peek(), Token::While);
        self.expect(is_while, "expected 'while'")?;
        let condition = self.condition()?;
        let body = self.stmt()?;
        Ok(Expr::WhileLoop { condition: Box::new(condition), body: Box::new(body) })
    }

    /// `if ( cond ) then ( else otherwise )?`
    fn if_stmt(&mut self) -> (r: ParseResult)
        requires
            old(self).wf(),
        ensures
            Parser::advanced(&*old(self), &*final(self), r is Ok),
            Parser::follows(&*old(self), &*final(self), r is Ok, if_end(old(self).tokens@, old(self).pos as int)),
            r matches Ok(e) ==> e is IfStmt,
            r matches Ok(e) ==> if_is(old(self).tokens@, old(self).pos as int, final(self).pos as int, e),
        decreases old(self).remaining(), 27int,
    {
        let is_if = matches!(self.peek(), Token::If);
        self.expect(is_if, "expected 'if'")?;
        let condition = self.condition()?;
        let then_branch = self.stmt()?;
        let else_branch = if matches!(self.peek(), Token::Else) {
            self.advance();
            let e = self.stmt()?;
            Some(Box::new(e))
        } else {
            None
        };
        Ok(Expr::IfStmt { condition: Box::new(condition), then_branch: Box::new(then_branch), else_branch })
    }

    /// `return value? ;`
    fn return_stmt(&mut self) -> (r: ParseResult)
        requires
            old(self).wf(),
        ensures
            Parser::advanced(&*old(self), &*final(self), r is Ok),
            Parser::follows(&*old(self), &*final(self), r is Ok, return_end(old(self).tokens@, old(self).pos as int)),
            r matches Ok(e) ==> e is ReturnStmt,
            r matches Ok(e) ==> return_is(old(self).tokens@, old(self).pos as int, final(self).pos as int, e),
        decreases old(self).remaining(), 27int,
    {
        let is_return = matches!(self.peek(), Token::Return);
        self.expect(is_return, "expected 'return'")?;
        let value = if matches!(self.peek(), Token::Semicolon) {
            None
        } else {
            let e = self.expression()?;
            Some(Box::new(e))
        };
        let semi = matches!(self.peek(), Token::Semicolon);
        self.expect(semi, "expected ';' after return value")?;
        Ok(Expr::ReturnStmt(value))
    }

    /// `expression ;`
    fn expression_stmt(&mut self) -> (r: ParseResult)
        requires
            old(self).wf(),
        ensures
            Parser::advanced(&*old(self), &*final(self), r is Ok),
            Parser::follows(&*old(self), &*final(self), r is Ok, expr_stmt_end(old(self).tokens@, old(self).pos as int)),
            r matches Ok(e) ==> e is ExprStmt,
            r matches Ok(e) ==> expr_stmt_is(old(self).tokens@, old(self).pos as int, final(self).pos as int, e),
        decreases old(self).remaining(), 27int,
    {
        let e = self.expression()?;
        let semi = matches!(self.peek(), Token::Semicolon);
        self.expect(semi, "expected ';' after expression")?;
        Ok(Expr::ExprStmt(Box::new(e)))
    }

    /// `print expression ;`
    fn print_stmt(&mut self) -> (r: ParseResult)
        requires
            old(self).wf(),
        ensures
            Parser::advanced(&*old(self), &*final(self), r is Ok),
            Parser::follows(&*old(self), &*final(self), r is Ok, print_end(old(self).tokens@, old(self).pos as int)),
            r matches Ok(e) ==> e is PrintStmt,
            r matches Ok(e) ==> print_is(old(self).tokens@, old(self).pos as int, final(self).pos as int, e),
        decreases old(self).remaining(), 27int,
    {
        let is_print = matches!(self.peek(), Token::Print);
        self.expect(is_print, "expected 'print'")?;
        let e = self.expression()?;
        let semi = matches!(self.peek(), Token::Semicolon);
        self.expect(semi, "expected ';' after value")?;
        Ok(Expr::PrintStmt(Box::new(e)))
    }

    /// `{ declaration* }`
    #[verifier::rlimit(60)]
    fn block_stmts(&mut self) -> (r: Result<Vec<Expr>, ParseError>)
        requires
            old(self).wf(),
        ensures
            Parser::advanced(&*old(self), &*final(self), r is Ok),
            Parser::follows(&*old(self), &*final(self), r is Ok, block_end(old(self).tokens@, old(self).pos as int)),
            r matches Ok(v) ==> braced_is(old(self).tokens@, old(self).pos as int, final(self).pos as int, v@),
        decreases old(self).remaining(), 27int,
    {
        let lb = matches!(self.peek(), Token::LeftBrace);
        self.expect(lb, "expected '{'")?;
        let stmts = self.declarations()?;
        let rb = matches!(self.peek(), Token::RightBrace);
        self.expect(rb, "expected '}' after block")?;
        Ok(stmts)
    }

    /// Declarations up to a closing brace or the end.
    #[verifier::rlimit(60)]
    #[verifier::rlimit(100)]
    fn declarations(&mut self) -> (r: Result<Vec<Expr>, ParseError>)
        requires
            old(self).wf(),
        ensures
            Parser::advanced(&*old(self), &*final(self), false),
            Parser::follows(&*old(self), &*final(self), r is Ok, items_end(old(self).tokens@, old(self).pos as int)),
            r matches Ok(v) ==> items_is(old(self).tokens@, old(self).pos as int, final(self).pos as int, v@),
        decreases old(self).remaining(), 31int,
    {
        let ghost ts = self.tokens@;
        let ghost p0 = self.pos as int;
        let mut stmts: Vec<Expr> = Vec::new();
        assert(items_is(ts, p0, p0, stmts@));
        while !self.at_end() && !matches!(self.peek(), Token::RightBrace)
            invariant
                Parser::advanced(&*old(self), &*self, false),
                ts == self.tokens@,
                p0 == old(self).pos,
                items_end(ts, self.pos as int) == items_end(ts, p0),
                items_is(ts, p0, self.pos as int, stmts@),
            decreases self.remaining(),
        {
            let ghost p = self.pos as int;
            assert(!(tk(ts, p) is Eof) && !(tk(ts, p) is RightBrace));
            match self.decl() {
                Ok(d) => {
                    assert(decl_end(ts, p) == Some(self.pos as int));
                    assert(items_end(ts, p) == items_end(ts, self.pos as int));
                    proof {
                        crate::trees::lemma_items_push(ts, p0, p, self.pos as int, stmts@, d);
                    }
                    stmts.push(d);
                },
                Err(e) => {
                    assert(decl_end(ts, p) is None);
                    assert(items_end(ts, p) is None);
                    return Err(e);
                },
            }
        }
        Ok(stmts)
    }

    /// Parses one expression at the current token.
    pub fn expression(&mut self) -> (r: ParseResult)
        requires
            old(self).wf(),
        ensures
            Parser::advanced(&*old(self), &*final(self), r is Ok),
            Parser::follows(&*old(self), &*final(self), r is Ok, expr_end(old(self).tokens@, old(self).pos as int)),
            r matches Ok(e) ==> expr_is(old(self).tokens@, old(self).pos as int, final(self).pos as int, e),
        decreases old(self).remaining(), 20int,
    {
        self.assignment()
    }

    /// `target = value`, right-associative; the target must be a variable.
    fn assignment(&mut self) -> (r: ParseResult)
        requires
            old(self).wf(),
        ensures
            Parser::advanced(&*old(self), &*final(self), r is Ok),
            Parser::follows(&*old(self), &*final(self), r is Ok, assign_end(old(self).tokens@, old(self).pos as int)),
            r matches Ok(e) ==> assign_is(old(self).tokens@, old(self).pos as int, final(self).pos as int, e),
            ({
                let ts = old(self).tokens@;
                let i = old(self).pos as int;
                or_end(ts, i) matches Some(k) && tk(ts, k) is Equal && !(is_identifier(tk(ts, i)) && k
                    == i + 1) && assign_end(ts, k + 1) is Some
            }) ==> (r matches Err(e) && e.msg@ == "invalid assignment target"@),
        decreases old(self).remaining(), 19int,
    {
        let target = self.logic_or()?;
        if matches!(self.peek(), Token::Equal) {
            let err = self.error_here("invalid assignment target");
            self.advance();
            let value = self.assignment()?;
            match target {
                Expr::VariableExpr(name) => {
                    proof {
                        crate::trees::lemma_name_tree(old(self).tokens@, old(self).pos as int, old(self).pos + 1, name);
                    }
                    Ok(Expr::AssignmentExpr { name, value: Box::new(value) })
                },
                _ => Err(err),
            }
        } else {
            Ok(target)
        }
    }

    fn logic_or(&mut self) -> (r: ParseResult)
        requires
            old(self).wf(),
        ensures
            Parser::advanced(&*old(self), &*final(self), r is Ok),
            Parser::follows(&*old(self), &*final(self), r is Ok, or_end(old(self).tokens@, old(self).pos as int)),
            r matches Ok(e) ==> Parser::lone_name(&*old(self), &*final(self), e),
            r matches Ok(e) ==> or_is(old(self).tokens@, old(self).pos as int, final(self).pos as int, e),
        decreases old(self).remaining(), 18int,
    {
        let ghost ts = self.tokens@;
        let ghost i0 = self.pos as int;
        let mut left = self.logic_and()?;
        while matches!(self.peek(), Token::Or)
            invariant
                Parser::advanced(&*old(self), &*self, true),
                ts == self.tokens@,
                i0 == old(self).pos,
                or_tail(ts, self.pos as int) == or_end(ts, i0),
                Parser::lone_name(&*old(self), &*self, left),
                or_is(ts, i0, self.pos as int, left),
            decreases self.remaining(),
        {
            let ghost k = self.pos as int;
            self.advance();
            let right = self.logic_and()?;
            let ghost prev = left;
            let ghost rt = right;
            left = Expr::new_logical_expr(left, Token::Or, right);
            proof {
                crate::trees::lemma_or_step(ts, i0, k, self.pos as int, prev, rt);
            }
        }
        Ok(left)
    }

    fn logic_and(&mut self) -> (r: ParseResult)
        requires
            old(self).wf(),
        ensures
            Parser::advanced(&*old(self), &*final(self), r is Ok),
            Parser::follows(&*old(self), &*final(self), r is Ok, and_end(old(self).tokens@, old(self).pos as int)),
            r matches Ok(e) ==> Parser::lone_name(&*old(self), &*final(self), e),
            r matches Ok(e) ==> and_is(old(self).tokens@, old(self).pos as int, final(self).pos as int, e),
        decreases old(self).remaining(), 17int,
    {
        let ghost ts = self.tokens@;
        let ghost i0 = self.pos as int;
        let mut left = self.equality()?;
        while matches!(self.peek(), Token::And)
            invariant
                Parser::advanced(&*old(self), &*self, true),
                ts == self.tokens@,
                i0 == old(self).pos,
                and_tail(ts, self.pos as int) == and_end(ts, i0),
                Parser::lone_name(&*old(self), &*self, left),
                and_is(ts, i0, self.pos as int, left),
            decreases self.remaining(),
        {
            let ghost k = self.pos as int;
            self.advance();
            let right = self.equality()?;
            let ghost prev = left;
            let ghost rt = right;
            left = Expr::new_logical_expr(left, Token::And, right);
            proof {
                crate::trees::lemma_and_step(ts, i0, k, self.pos as int, prev, rt);
            }
        }
        Ok(left)
    }

    /// The operator at the current token, consumed.
    fn take_operator(&mut self) -> (t: Token)
        requires
            old(self).wf(),
            is_operator(old(self).current()),
        ensures
            Parser::advanced(&*old(self), &*final(self), true),
            t == old(self).current(),
            final(self).pos == old(self).pos + 1,
    {
        let t = match self.peek() {
            Token::BangEqual => Token::BangEqual,
            Token::EqualEqual => Token::EqualEqual,
            Token::Greater => Token::Greater,
            Token::GreaterEqual => Token::GreaterEqual,
            Token::Less => Token::Less,
            Token::LessEqual => Token::LessEqual,
            Token::Minus => Token::Minus,
            Token::Plus => Token::Plus,
            Token::Slash => Token::Slash,
            Token::Star => Token::Star,
            Token::Bang => Token::Bang,
            _ => Token::Eof,
        };
        self.advance();
        t
    }

    fn equality(&mut self) -> (r: ParseResult)
        requires
            old(self).wf(),
        ensures
            Parser::advanced(&*old(self), &*final(self), r is Ok),
            Parser::follows(&*old(self), &*final(self), r is Ok, equality_end(old(self).tokens@, old(self).pos as int)),
            r matches Ok(e) ==> Parser::lone_name(&*old(self), &*final(self), e),
            r matches Ok(e) ==> equality_is(old(self).tokens@, old(self).pos as int, final(self).pos as int, e),
        decreases old(self).remaining(), 16int,
    {
        let ghost ts = self.tokens@;
        let ghost i0 = self.pos as int;
        let mut left = self.comparison()?;
        while matches!(self.peek(), Token::BangEqual) || matches!(self.peek(), Token::EqualEqual)
            invariant
                Parser::advanced(&*old(self), &*self, true),
                ts == self.tokens@,
                i0 == old(self).pos,
                equality_tail(ts, self.pos as int) == equality_end(ts, i0),
                Parser::lone_name(&*old(self), &*self, left),
                equality_is(ts, i0, self.pos as int, left),
            decreases self.remaining(),
        {
            let ghost k = self.pos as int;
            let op = self.take_operator();
            let right = self.comparison()?;
            left = Expr::new_binary_expr(left, op, right);
            assert(equality_is(ts, i0, self.pos as int, left)) by {
                assert(tk(ts, k) == op);
            }
        }
        Ok(left)
    }

    fn comparison(&mut self) -> (r: ParseResult)
        requires
            old(self).wf(),
        ensures
            Parser::advanced(&*old(self), &*final(self), r is Ok),
            Parser::follows(&*old(self), &*final(self), r is Ok, comparison_end(old(self).tokens@, old(self).pos as int)),
            r matches Ok(e) ==> Parser::lone_name(&*old(self), &*final(self), e),
            r matches Ok(e) ==> comparison_is(old(self).tokens@, old(self).pos as int, final(self).pos as int, e),
        decreases old(self).remaining(), 15int,
    {
        let ghost ts = self.tokens@;
        let ghost i0 = self.pos as int;
        let mut left = self.term()?;
        while matches!(self.peek(), Token::Greater) || matches!(self.peek(), Token::GreaterEqual)
            || matches!(self.peek(), Token::Less) || matches!(self.peek(), Token::LessEqual)
            invariant
                Parser::advanced(&*old(self), &*self, true),
                ts == self.tokens@,
                i0 == old(self).pos,
                comparison_tail(ts, self.pos as int) == comparison_end(ts, i0),
                Parser::lone_name(&*old(self), &*self, left),
                comparison_is(ts, i0, self.pos as int, left),
            decreases self.remaining(),
        {
            let ghost k = self.pos as int;
            let op = self.take_operator();
            let right = self.term()?;
            left = Expr::new_binary_expr(left, op, right);
            assert(comparison_is(ts, i0, self.pos as int, left)) by {
                assert(tk(ts, k) == op);
            }
        }
        Ok(left)
    }

    fn term(&mut self) -> (r: ParseResult)
        requires
            old(self).wf(),
        ensures
            Parser::advanced(&*old(self), &*final(self), r is Ok),
            Parser::follows(&*old(self), &*final(self), r is Ok, term_end(old(self).tokens@, old(self).pos as int)),
            r matches Ok(e) ==> Parser::lone_name(&*old(self), &*final(self), e),
            r matches Ok(e) ==> term_is(old(self).tokens@, old(self).pos as int, final(self).pos as int, e),
        decreases old(self).remaining(), 14int,
    {
        let ghost ts = self.tokens@;
        let ghost i0 = self.pos as int;
        let mut left = self.factor()?;
        while matches!(self.peek(), Token::Minus) || matches!(self.peek(), Token::Plus)
            invariant
                Parser::advanced(&*old(self), &*self, true),
                ts == self.tokens@,
                i0 == old(self).pos,
                term_tail(ts, self.pos as int) == term_end(ts, i0),
                Parser::lone_name(&*old(self), &*self, left),
                term_is(ts, i0, self.pos as int, left),
            decreases self.remaining(),
        {
            let ghost k = self.pos as int;
            let op = self.take_operator();
            let right = self.factor()?;
            left = Expr::new_binary_expr(left, op, right);
            assert(term_is(ts, i0, self.pos as int, left)) by {
                assert(tk(ts, k) == op);
            }
        }
        Ok(left)
    }

    fn factor(&mut self) -> (r: ParseResult)
        requires
            old(self).wf(),
        ensures
            Parser::advanced(&*old(self), &*final(self), r is Ok),
            Parser::follows(&*old(self), &*final(self), r is Ok, factor_end(old(self).tokens@, old(self).pos as int)),
            r matches Ok(e) ==> Parser::lone_name(&*old(self), &*final(self), e),
            r matches Ok(e) ==> factor_is(old(self).tokens@, old(self).pos as int, final(self).pos as int, e),
        decreases old(self).remaining(), 13int,
    {
        let ghost ts = self.tokens@;
        let ghost i0 = self.pos as int;
        let mut left = self.unary()?;
        while matches!(self.peek(), Token::Star) || matches!(self.peek(), Token::Slash)
            invariant
                Parser::advanced(&*old(self), &*self, true),
                ts == self.tokens@,
                i0 == old(self).pos,
                factor_tail(ts, self.pos as int) == factor_end(ts, i0),
                Parser::lone_name(&*old(self), &*self, left),
                factor_is(ts, i0, self.pos as int, left),
            decreases self.remaining(),
        {
            let ghost k = self.pos as int;
            let op = self.take_operator();
            let right = self.unary()?;
            left = Expr::new_binary_expr(left, op, right);
            assert(factor_is(ts, i0, self.pos as int, left)) by {
                assert(tk(ts, k) == op);
            }
        }
        Ok(left)
    }

    fn unary(&mut self) -> (r: ParseResult)
        requires
            old(self).wf(),
        ensures
            Parser::advanced(&*old(self), &*final(self), r is Ok),
            Parser::follows(&*old(self), &*final(self), r is Ok, unary_end(old(self).tokens@, old(self).pos as int)),
            r matches Ok(e) ==> Parser::lone_name(&*old(self), &*final(self), e),
            (old(self).current() is Bang || old(self).current() is Minus) ==> (r matches Ok(e) ==> (
            e matches Expr::UnaryExpr { operator, .. } && operator == old(self).current())),
            r matches Ok(e) ==> unary_is(old(self).tokens@, old(self).pos as int, final(self).pos as int, e),
        decreases old(self).remaining(), 12int,
    {
        if matches!(self.peek(), Token::Bang) || matches!(self.peek(), Token::Minus) {
            let op = self.take_operator();
            let right = self.unary()?;
            Ok(Expr::new_unary_expr(op, right))
        } else {
            self.call()
        }
    }

    /// A primary followed by any number of argument lists.
    #[verifier::rlimit(60)]
    fn call(&mut self) -> (r: ParseResult)
        requires
            old(self).wf(),
        ensures
            Parser::advanced(&*old(self), &*final(self), r is Ok),
            Parser::follows(&*old(self), &*final(self), r is Ok, call_end(old(self).tokens@, old(self).pos as int)),
            r matches Ok(e) ==> Parser::lone_name(&*old(self), &*final(self), e),
            r matches Ok(e) ==> call_is(old(self).tokens@, old(self).pos as int, final(self).pos as int, e),
        decreases old(self).remaining(), 11int,
    {
        let ghost ts = self.tokens@;
        let ghost i0 = self.pos as int;
        let mut callee = self.primary()?;
        while matches!(self.peek(), Token::LeftParen)
            invariant
                Parser::advanced(&*old(self), &*self, true),
                ts == self.tokens@,
                i0 == old(self).pos,
                call_tail_end(ts, self.pos as int) == call_end(ts, i0),
                Parser::lone_name(&*old(self), &*self, callee),
                call_is(ts, i0, self.pos as int, callee),
            decreases self.remaining(),
        {
            let ghost j = self.pos as int;
            self.advance();
            let ghost a0 = self.pos as int;
            let arguments = if !matches!(self.peek(), Token::RightParen) {
                self.arguments()?
            } else {
                Vec::new()
            };
            let rp = matches!(self.peek(), Token::RightParen);
            self.expect(rp, "expected ')' after arguments")?;
            proof {
                crate::trees::lemma_call_step(ts, i0, j, self.pos as int, callee, arguments);
            }
            callee = Expr::CallExpr { callee: Box::new(callee), arguments };
        }
        Ok(callee)
    }

    /// Expressions separated by commas.
    fn arguments(&mut self) -> (r: Result<Vec<Expr>, ParseError>)
        requires
            old(self).wf(),
        ensures
            Parser::advanced(&*old(self), &*final(self), r is Ok),
            Parser::follows(&*old(self), &*final(self), r is Ok, args_end(old(self).tokens@, old(self).pos as int)),
            r matches Ok(v) ==> args_is(old(self).tokens@, old(self).pos as int, final(self).pos as int, v@),
        decreases old(self).remaining(), 21int,
    {
        let ghost ts = self.tokens@;
        let ghost a0 = self.pos as int;
        let mut arguments: Vec<Expr> = Vec::new();
        let ghost mut last: int = a0;
        loop
            invariant_except_break
                args_end(ts, self.pos as int) == args_end(ts, a0),
                arguments@.len() == 0 ==> self.pos == a0,
                arguments@.len() > 0 ==> args_is(ts, a0, last, arguments@) && tk(ts, last) is Comma
                    && self.pos == last + 1,
            invariant
                Parser::advanced(&*old(self), &*self, false),
                ts == self.tokens@,
                a0 == old(self).pos,
            ensures
                args_end(ts, a0) == Some(self.pos as int),
                a0 < self.pos,
                args_is(ts, a0, self.pos as int, arguments@),
            decreases self.remaining(),
        {
            let ghost k = self.pos as int;
            let a = match self.expression() {
                Ok(a) => a,
                Err(e) => {
                    assert(args_end(ts, k) is None);
                    return Err(e);
                },
            };
            let ghost prev = arguments@;
            arguments.push(a);
            proof {
                let lst = if prev.len() == 0 { a0 - 1 } else { last };
                crate::trees::lemma_args_step(ts, a0, lst, self.pos as int, prev, a);
                assert(arguments@ == prev.push(a));
            }
            if matches!(self.peek(), Token::Comma) {
                proof {
                    last = self.pos as int;
                }
                self.advance();
            } else {
                break;
            }
        }
        Ok(arguments)
    }

    fn primary(&mut self) -> (r: ParseResult)
        requires
            old(self).wf(),
        ensures
            Parser::advanced(&*old(self), &*final(self), r is Ok),
            Parser::follows(&*old(self), &*final(self), r is Ok, primary_end(old(self).tokens@, old(self).pos as int)),
            r matches Ok(e) ==> Parser::lone_name(&*old(self), &*final(self), e),
            old(self).current() matches Token::Literal(LiteralTokenType::NumberLiteral(n)) ==> r == Ok::<
                Expr,
                ParseError,
            >(Expr::LiteralExpr(ExprLiteralValue::NumberLiteral(n))),
            old(self).current() matches Token::Literal(LiteralTokenType::StringLiteral(t)) ==> r == Ok::<
                Expr,
                ParseError,
            >(Expr::LiteralExpr(ExprLiteralValue::StringLiteral(t))),
            old(self).current() matches Token::Literal(LiteralTokenType::IdentifierLiteral(t)) ==> r
                == Ok::<Expr, ParseError>(Expr::VariableExpr(t)),
            old(self).current() is Nil ==> r == Ok::<Expr, ParseError>(
                Expr::LiteralExpr(ExprLiteralValue::NilLiteral),
            ),
            old(self).current() is True ==> r == Ok::<Expr, ParseError>(
                Expr::LiteralExpr(ExprLiteralValue::BooleanLiteral(true)),
            ),
            old(self).current() is False ==> r == Ok::<Expr, ParseError>(
                Expr::LiteralExpr(ExprLiteralValue::BooleanLiteral(false)),
            ),
            old(self).current() is LeftParen ==> (r matches Ok(e) ==> e is GroupingExpr),
            r matches Ok(e) ==> primary_is(old(self).tokens@, old(self).pos as int, final(self).pos as int, e),
        decreases old(self).remaining(), 10int,
    {
        let lit = match self.peek() {
            Token::Literal(LiteralTokenType::NumberLiteral(n)) => Some(
                Expr::LiteralExpr(ExprLiteralValue::NumberLiteral(*n)),
            ),
            Token::Literal(LiteralTokenType::StringLiteral(s)) => Some(
                Expr::LiteralExpr(ExprLiteralValue::StringLiteral(s.clone())),
            ),
            Token::Literal(LiteralTokenType::IdentifierLiteral(s)) => Some(
                Expr::VariableExpr(s.clone()),
            ),
            Token::Nil => Some(Expr::LiteralExpr(ExprLiteralValue::NilLiteral)),
            Token::True => Some(Expr::LiteralExpr(ExprLiteralValue::BooleanLiteral(true))),
            Token::False => Some(Expr::LiteralExpr(ExprLiteralValue::BooleanLiteral(false))),
            _ => None,
        };
        match lit {
            Some(e) => {
                self.advance();
                Ok(e)
            },
            None => {
                if matches!(self.peek(), Token::LeftParen) {
                    self.advance();
                    let inner = self.expression()?;
                    let rp = matches!(self.peek(), Token::RightParen);
                    self.expect(rp, "expected ')' after expression")?;
                    Ok(Expr::new_grouping_expr(inner))
                } else {
                    Err(self.error_here("expected expression"))
                }
            },
        }
    }
}

/// Parses a whole token sequence into its declarations, or every syntax
/// error found in it.
#[verifier::rlimit(40)]
pub fn parse(tokens: Vec<TokenContext>) -> (r: Result<Vec<Expr>, Vec<ParseError>>)
    ensures
        r is Ok <==> program_ok(tokens@, 0),
        r matches Ok(v) ==> v@.len() == decl_count(tokens@, 0),
        r matches Ok(v) ==> exists|j: int| program_is(tokens@, 0, j, v@),
        r matches Err(es) ==> es@.len() > 0,
        r matches Err(es) ==> match first_failure(tokens@, 0) {
            Some(p) => (tk(tokens@, p) is Var && !is_identifier(tk(tokens@, p + 1)))
                ==> Parser::missing_name_error(es@[0], tokens@, p),
            None => false,
        },
{
    let ghost ts = tokens@;
    let mut p = Parser::new();
    p.add_tokens(tokens);
    assert(p.tokens@ =~= ts);
    assert(p.pos == 0);
    let r = p.parse();
    r
}

} // verus!
