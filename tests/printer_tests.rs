use rlox::{print_ast_grouped, Expr, ExprLiteralValue, Number, Token};

fn string_lit(s: &str) -> Expr {
    Expr::LiteralExpr(ExprLiteralValue::StringLiteral(s.to_string()))
}

#[test]
fn it_prints_lit_nil_expression_correctly() {
    let e = Expr::new_literal_expr(ExprLiteralValue::NilLiteral);
    let res = print_ast_grouped(&e);
    assert_eq!("nil", res);
}

#[test]
fn it_prints_lit_num_expr_correctly() {
    let e = Expr::new_literal_expr(ExprLiteralValue::NumberLiteral(Number::from_scaled(1_234_500_000)));
    let res = print_ast_grouped(&e);
    assert_eq!("1.2345", res);
}

#[test]
fn it_prints_lit_identifier_expr_correctly() {
    let e = Expr::VariableExpr("TestIdent".to_string());
    let res = print_ast_grouped(&e);
    assert_eq!("TestIdent", res);
}

#[test]
fn it_prints_lit_string_expr_correctly() {
    let e = string_lit("TestString");
    let res = print_ast_grouped(&e);
    assert_eq!("\"TestString\"", res);
}

#[test]
fn it_prints_binary_expr_correctly() {
    let e = Expr::new_binary_expr(string_lit("hello"), Token::EqualEqual, string_lit("bye"));
    let res = print_ast_grouped(&e);
    assert_eq!("(\"hello\" EqualEqual \"bye\")", res);
}

#[test]
fn it_prints_grouped_expr_correctly() {
    let e = Expr::VariableExpr("TestIdent".to_string());
    let ge = Expr::new_grouping_expr(e);
    let res = print_ast_grouped(&ge);
    assert_eq!("(group TestIdent)", res);
}

#[test]
fn test_create_simple_expr() {
    let lit1 = string_lit("hello");
    let lit2 = string_lit("bye");
    let e = Expr::new_binary_expr(lit1, Token::GreaterEqual, lit2);
    let ms = matches!(e, Expr::BinaryExpr { .. });
    assert_eq!(ms, true);
}

#[test]
fn prints_statements_in_grouped_form() {
    let stmts = rlox::parse(rlox::scan("var a = -1; if (a) print a; else { a = 2; }").unwrap()).unwrap();
    let printed: Vec<String> = stmts.iter().map(print_ast_grouped).collect();
    assert_eq!(
        vec!["(var a (Minus 1))".to_string(), "(if a (print a) (block (expr (assign a 2))))".to_string()],
        printed
    );
}

#[test]
fn it_prints_basic_syntax_tree() {
    let li = Expr::LiteralExpr(ExprLiteralValue::NumberLiteral(Number::from_scaled(1_200_000_000)));
    let l = Expr::new_unary_expr(Token::Plus, li);
    let r = Expr::new_grouping_expr(string_lit("\"testing\""));
    let b = Expr::new_binary_expr(l, Token::Star, r);
    let res = print_ast_grouped(&b);
    assert_eq!("((Plus 1.2) Star (group \"\"testing\"\"))", res);
}
