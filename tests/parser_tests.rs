use rlox::{parse, scan, Expr, ExprLiteralValue, Number, Parser, Token, TokenContext};

fn ctx(token: Token, line: usize, column: usize, lexeme: &str) -> TokenContext {
    TokenContext::new(token, line, column, lexeme.to_string())
}

fn number(scaled: i128) -> Token {
    Token::from_number(Number::from_scaled(scaled))
}

fn lit(scaled: i128) -> Expr {
    Expr::LiteralExpr(ExprLiteralValue::NumberLiteral(Number::from_scaled(scaled)))
}

#[test]
fn test_parser_basic() {
    let ts = vec![
        ctx(number(3_000_000_000), 1, 0, "3.0"),
        ctx(Token::BangEqual, 1, 4, "!="),
        ctx(Token::from_string("bye now".to_string()), 1, 6, "\"bye now\""),
        ctx(Token::Semicolon, 1, 7, ";"),
        ctx(Token::Eof, 1, 11, ""),
    ];
    let mut parser = Parser::new();
    parser.add_tokens(ts);
    let res = parser.parse().unwrap();
    let expected = Expr::ExprStmt(Box::new(Expr::new_binary_expr(
        lit(3_000_000_000),
        Token::BangEqual,
        Expr::LiteralExpr(ExprLiteralValue::StringLiteral("bye now".to_string())),
    )));
    assert_eq!(expected, res[0]);
}

#[test]
fn test_parses_flat_series_of_terms_to_end() {
    let ts = vec![
        ctx(number(3_000_000_000), 1, 0, "3.0"),
        ctx(Token::Plus, 1, 3, "+"),
        ctx(number(10_400_000_000), 1, 5, "10.4"),
        ctx(Token::Minus, 1, 9, "-"),
        ctx(number(1_200_000_000), 1, 11, "1.2"),
        ctx(Token::Semicolon, 1, 7, ";"),
        ctx(Token::Eof, 1, 11, ""),
    ];
    let mut parser = Parser::new();
    parser.add_tokens(ts);
    let res = parser.parse().unwrap();
    let expected = Expr::ExprStmt(Box::new(Expr::new_binary_expr(
        Expr::new_binary_expr(lit(3_000_000_000), Token::Plus, lit(10_400_000_000)),
        Token::Minus,
        lit(1_200_000_000),
    )));
    assert_eq!(expected, res[0]);
}

#[test]
fn test_parses_flat_series_of_factors_correctly() {
    let ts = vec![
        ctx(number(3_000_000_000), 1, 0, "3.0"),
        ctx(Token::Star, 1, 3, "*"),
        ctx(number(10_400_000_000), 1, 5, "10.4"),
        ctx(Token::Slash, 1, 9, "/"),
        ctx(number(1_200_000_000), 1, 11, "1.2"),
        ctx(Token::Semicolon, 1, 7, ";"),
        ctx(Token::Eof, 1, 11, ""),
    ];
    let mut parser = Parser::new();
    parser.add_tokens(ts);
    let res = parser.parse().unwrap();
    let expected = Expr::ExprStmt(Box::new(Expr::new_binary_expr(
        Expr::new_binary_expr(lit(3_000_000_000), Token::Star, lit(10_400_000_000)),
        Token::Slash,
        lit(1_200_000_000),
    )));
    assert_eq!(expected, res[0]);
}

#[test]
fn test_parses_ending_right_paren_correctly() {
    let ts = vec![
        ctx(number(3_000_000_000), 1, 0, "3.0"),
        ctx(Token::Star, 1, 3, "*"),
        ctx(Token::LeftParen, 1, 0, "("),
        ctx(number(10_400_000_000), 1, 5, "10.4"),
        ctx(Token::Slash, 1, 9, "/"),
        ctx(number(1_200_000_000), 1, 11, "1.2"),
        ctx(Token::RightParen, 1, 0, ")"),
        ctx(Token::Semicolon, 1, 7, ";"),
        ctx(Token::Eof, 1, 11, ""),
    ];
    let mut parser = Parser::new();
    parser.add_tokens(ts);
    let res = parser.parse().unwrap();
    let expected = Expr::ExprStmt(Box::new(Expr::new_binary_expr(
        lit(3_000_000_000),
        Token::Star,
        Expr::new_grouping_expr(Expr::new_binary_expr(lit(10_400_000_000), Token::Slash, lit(1_200_000_000))),
    )));
    assert_eq!(expected, res[0]);
}

#[test]
fn missing_variable_name_is_reported_and_parsing_continues() {
    let tokens = scan("var = 1; print 2; var b = ; print 3;").unwrap();
    let errors = parse(tokens).unwrap_err();
    assert_eq!(2, errors.len());
    assert_eq!("expected variable name", errors[0].message());
    assert_eq!("=", errors[0].lexeme());
    assert_eq!("expected expression", errors[1].message());
    assert_eq!(";", errors[1].lexeme());
}

#[test]
fn invalid_assignment_target_is_reported() {
    let errors = parse(scan("1 = 2;").unwrap()).unwrap_err();
    assert_eq!(1, errors.len());
    assert_eq!("invalid assignment target", errors[0].message());
}

#[test]
fn for_loop_is_read_as_block_and_while() {
    let stmts = parse(scan("for (var i = 0; i < 1; i = i + 1) print i;").unwrap()).unwrap();
    assert_eq!(1, stmts.len());
    match &stmts[0] {
        Expr::BlockStmt(inner) => {
            assert_eq!(2, inner.len());
            assert!(matches!(inner[0], Expr::VarDecl { .. }));
            match &inner[1] {
                Expr::WhileLoop { body, .. } => match body.as_ref() {
                    Expr::BlockStmt(b) => assert_eq!(2, b.len()),
                    other => panic!("unexpected loop body {:?}", other),
                },
                other => panic!("unexpected statement {:?}", other),
            }
        }
        other => panic!("unexpected statement {:?}", other),
    }
}

#[test]
fn for_loop_without_clauses_loops_on_true() {
    let stmts = parse(scan("for (;;) print 1;").unwrap()).unwrap();
    match &stmts[0] {
        Expr::WhileLoop { condition, .. } => {
            assert_eq!(Expr::LiteralExpr(ExprLiteralValue::BooleanLiteral(true)), **condition)
        }
        other => panic!("unexpected statement {:?}", other),
    }
}

#[test]
fn chained_calls_nest() {
    let stmts = parse(scan("f(1)(2);").unwrap()).unwrap();
    match &stmts[0] {
        Expr::ExprStmt(e) => match e.as_ref() {
            Expr::CallExpr { callee, arguments } => {
                assert_eq!(1, arguments.len());
                assert!(matches!(callee.as_ref(), Expr::CallExpr { .. }));
            }
            other => panic!("unexpected expression {:?}", other),
        },
        other => panic!("unexpected statement {:?}", other),
    }
}

fn round_trip(source: &str) {
    let first = parse(scan(source).unwrap()).unwrap();
    let printed = rlox::print_program(&first);
    let second = parse(scan(&printed).unwrap()).unwrap();
    assert_eq!(first, second, "re-parsing {:?}", printed);
}

#[test]
fn printing_and_reparsing_gives_the_same_tree() {
    round_trip("var a = 1; { var a = 2; print a; } print a;");
    round_trip("fun add(a,b) { return a+b; } print add(2,3);");
    round_trip("for (var i=0; i<3; i=i+1) print i;");
    round_trip("print \"x\" == \"x\"; print 1 == \"1\";");
    round_trip("var x; x = -(1 - 2) * 3 / 0.25 >= !true or nil and \"s\"; if (x) print 1; else { return; }");
    round_trip("while (a != b) f(1)(g, h(2));");
}

#[test]
fn prints_leaf_nodes_as_source() {
    assert_eq!("nil", rlox::print(&Expr::LiteralExpr(ExprLiteralValue::NilLiteral)));
    assert_eq!("1.2345", rlox::print(&lit(1_234_500_000)));
    assert_eq!("TestIdent", rlox::print(&Expr::VariableExpr("TestIdent".to_string())));
    assert_eq!("\"TestString\"", rlox::print(&Expr::LiteralExpr(ExprLiteralValue::StringLiteral("TestString".to_string()))));
    let grouped = Expr::new_grouping_expr(Expr::VariableExpr("TestIdent".to_string()));
    assert_eq!("(TestIdent)", rlox::print(&grouped));
    let bin = Expr::new_binary_expr(
        Expr::LiteralExpr(ExprLiteralValue::StringLiteral("hello".to_string())),
        Token::EqualEqual,
        Expr::LiteralExpr(ExprLiteralValue::StringLiteral("bye".to_string())),
    );
    assert_eq!("\"hello\" == \"bye\"", rlox::print(&bin));
}

#[test]
fn it_parses_simple_binary_token_expr_correctly() {
    let toks = vec![
        ctx(number(1_200_000_000), 1, 0, "1.2"),
        ctx(Token::EqualEqual, 1, 4, "=="),
        ctx(number(2_100_000_000), 1, 7, "2.1"),
        ctx(Token::Eof, 1, 10, ""),
    ];
    // As a statement the expression needs its ';'.
    let errors = parse(toks.clone()).unwrap_err();
    assert_eq!("expected ';' after expression", errors[0].message());
    let mut with_semi = toks;
    with_semi.insert(3, ctx(Token::Semicolon, 1, 10, ";"));
    let res = parse(with_semi).unwrap();
    let expected = Expr::ExprStmt(Box::new(Expr::new_binary_expr(
        lit(1_200_000_000),
        Token::EqualEqual,
        lit(2_100_000_000),
    )));
    assert_eq!(vec![expected], res);
}

fn num(n: i64) -> Expr {
    Expr::LiteralExpr(ExprLiteralValue::NumberLiteral(Number::from_integer(n)))
}

#[test]
fn precedence_of_binary_operators() {
    let mut p = Parser::new();
    p.add_tokens(scan("1 + 2 * 3 > 4 == true;").unwrap());
    let e = p.expression().unwrap();
    let expected = Expr::new_binary_expr(
        Expr::new_binary_expr(
            Expr::new_binary_expr(num(1), Token::Plus, Expr::new_binary_expr(num(2), Token::Star, num(3))),
            Token::Greater,
            num(4),
        ),
        Token::EqualEqual,
        Expr::LiteralExpr(ExprLiteralValue::BooleanLiteral(true)),
    );
    assert_eq!(expected, e);
}

#[test]
fn parser_can_be_reused_after_parse() {
    let mut p = Parser::new();
    p.add_tokens(scan("print 1;").unwrap());
    assert_eq!(1, p.parse().unwrap().len());
    p.add_tokens(scan("print 2; print 3;").unwrap());
    assert_eq!(2, p.parse().unwrap().len());
}

#[test]
fn two_missing_names_give_two_errors() {
    let errors = parse(scan("var = 1; print 2; var = 3;").unwrap()).unwrap_err();
    assert_eq!(2, errors.len());
    assert_eq!("expected variable name", errors[0].message());
    assert_eq!("expected variable name", errors[1].message());
}
