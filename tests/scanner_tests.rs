use rlox::{scan, LexicalError, LiteralTokenType, Number, Scanner, Token, TokenContext};

fn ctx(token: Token, line: usize, column: usize, lexeme: &str) -> TokenContext {
    TokenContext::new(token, line, column, lexeme.to_string())
}

#[test]
fn it_parses_out_single_token_lexeme() {
    let source = "(";
    let res = Scanner::new().scan(source).unwrap();
    assert_eq!(ctx(Token::LeftParen, 1, 0, "("), res[0]);
}

#[test]
fn it_parses_out_simple_two_char_lexeme() {
    let source = "<=";
    let res = Scanner::new().scan(source).unwrap();
    assert_eq!(ctx(Token::LessEqual, 1, 0, "<="), res[0]);
}

#[test]
fn it_skips_whitespace_incrementing_char_counter() {
    let source = "  *";
    let res = Scanner::new().scan(source).unwrap();
    assert_eq!(ctx(Token::Star, 1, 2, "*"), res[0]);
}

#[test]
fn it_parses_potential_two_char_lexeme_into_one_char_lexeme_if_subs_not_present() {
    let source = "!)";
    let res = Scanner::new().scan(source).unwrap();
    assert_eq!(ctx(Token::Bang, 1, 0, "!"), res[0]);
}

#[test]
fn it_increments_line_numbers_for_new_lines() {
    let source = r#"

        !=
        "#;
    let res = Scanner::new().scan(source).unwrap();
    assert_eq!(ctx(Token::BangEqual, 3, 8, "!="), res[0]);
}

#[test]
fn it_skips_comments_and_continues_on_next_line() {
    let source = r#"// this is a comment
        !=
        "#;
    let res = Scanner::new().scan(source).unwrap();
    assert_eq!(2, res.len());
    assert_eq!(ctx(Token::BangEqual, 2, 8, "!="), res[0]);
}

#[test]
fn it_parses_slash_correctly() {
    let source = "/ ";
    let res = Scanner::new().scan(source).unwrap();
    assert_eq!(2, res.len());
    assert_eq!(ctx(Token::Slash, 1, 0, "/"), res[0]);
}

#[test]
fn it_parses_number_correctly() {
    let source = "2.1";
    let res = Scanner::new().scan(source).unwrap();
    let n = Number::from_scaled(2_100_000_000);
    assert_eq!(ctx(Token::Literal(LiteralTokenType::NumberLiteral(n)), 1, 0, "2.1"), res[0]);
}

#[test]
fn it_parses_number_correctly_no_decimal_part() {
    let source = "2.";
    let res = Scanner::new().scan(source).unwrap();
    let n = Number::from_integer(2);
    assert_eq!(ctx(Token::Literal(LiteralTokenType::NumberLiteral(n)), 1, 0, "2."), res[0]);
}

#[test]
fn it_parses_simple_keyword_out_correctly() {
    let source = "and";
    let res = Scanner::new().scan(source).unwrap();
    assert_eq!(ctx(Token::And, 1, 0, "and"), res[0]);
}

#[test]
fn it_parses_comments_correctly_at_eof() {
    let source = "and //hello";
    let res = Scanner::new().scan(source).unwrap();
    assert_eq!(2, res.len());
}

#[test]
fn it_parses_strings_correctly() {
    // The literal's payload is the text between the quotes; the lexeme keeps them.
    let source = "\"hello\"";
    let res = Scanner::new().scan(source).unwrap();
    assert_eq!(ctx(Token::from_string("hello".to_string()), 1, 0, "\"hello\""), res[0]);
}

#[test]
fn simple_scanner_integration_test_works() {
    let foo = scan("hello").unwrap();
    assert_eq!(ctx(Token::from_identifier("hello".to_string()), 1, 0, "hello"), foo[0]);
}

#[test]
fn larger_source_scanner_test_multiple_lines_works() {
    let source = r#"class foo {
            "hello now"
        }
        // bye
        "#;
    let res = scan(&source).unwrap();
    let expected = vec![
        ctx(Token::Class, 1, 0, "class"),
        ctx(Token::from_identifier("foo".to_string()), 1, 6, "foo"),
        ctx(Token::LeftBrace, 1, 10, "{"),
        ctx(Token::from_string("hello now".to_string()), 2, 12, "\"hello now\""),
        ctx(Token::RightBrace, 3, 8, "}"),
    ];
    assert_eq!(6, res.len());
    assert_eq!(expected[0], res[0]);
    assert_eq!(expected[1], res[1]);
    assert_eq!(expected[2], res[2]);
    assert_eq!(expected[3], res[3]);
    assert_eq!(expected[4], res[4]);
    // The column restarts at every newline, the one ending the comment too.
    assert_eq!(ctx(Token::Eof, 5, 8, ""), res[5]);
}

#[test]
fn test_left_right_paren_dont_need_whitespace_sep() {
    let res = scan("(1.1 == 2.2)").unwrap();
    assert_eq!(6, res.len());
    assert_eq!(Token::LeftParen, res[0].token);
    assert_eq!(Token::RightParen, res[4].token);
}

#[test]
fn scans_every_keyword() {
    let res = scan("and class else false fun for if nil or print return super this true var while").unwrap();
    let kinds = vec![
        Token::And, Token::Class, Token::Else, Token::False, Token::Fun, Token::For, Token::If,
        Token::Nil, Token::Or, Token::Print, Token::Return, Token::Super, Token::This,
        Token::True, Token::Var, Token::While, Token::Eof,
    ];
    let got: Vec<Token> = res.iter().map(|t| t.token.clone()).collect();
    assert_eq!(kinds, got);
}

#[test]
fn identifier_stops_at_punctuation() {
    let res = scan("add(a,b_2)").unwrap();
    assert_eq!(Token::from_identifier("add".to_string()), res[0].token);
    assert_eq!(Token::LeftParen, res[1].token);
    assert_eq!(Token::from_identifier("a".to_string()), res[2].token);
    assert_eq!(Token::Comma, res[3].token);
    assert_eq!(ctx(Token::from_identifier("b_2".to_string()), 1, 6, "b_2"), res[4]);
}

#[test]
fn number_with_two_points_splits() {
    let res = scan("1.2.3").unwrap();
    assert_eq!(Token::Literal(LiteralTokenType::NumberLiteral(Number::from_scaled(1_200_000_000))), res[0].token);
    assert_eq!(Token::Dot, res[1].token);
    assert_eq!(Token::Literal(LiteralTokenType::NumberLiteral(Number::from_integer(3))), res[2].token);
}

#[test]
fn unterminated_string_is_lexical_error() {
    let err: LexicalError = scan("print \"abc").unwrap_err();
    assert_eq!("unterminated string", err.message());
    assert_eq!(1, err.line());
    assert_eq!(6, err.column());
}

#[test]
fn invalid_character_is_lexical_error() {
    let err = scan("var a = 1;\n  @").unwrap_err();
    assert_eq!("@", err.error_lexeme());
    assert_eq!(2, err.line());
    assert_eq!(2, err.column());
}

#[test]
fn multiline_string_counts_lines() {
    let res = scan("\"a\nb\" x").unwrap();
    assert_eq!(ctx(Token::from_string("a\nb".to_string()), 1, 0, "\"a\nb\""), res[0]);
    assert_eq!(ctx(Token::from_identifier("x".to_string()), 2, 3, "x"), res[1]);
}

#[test]
fn empty_source_gives_only_end_marker() {
    let res = scan("").unwrap();
    assert_eq!(vec![ctx(Token::Eof, 1, 0, "")], res);
}

#[test]
fn overlong_number_literal_is_rejected() {
    let err = scan("1000000000000000000000000000000000000000").unwrap_err();
    assert_eq!("number literal too large", err.message());
}

fn first(source: &str) -> TokenContext {
    scan(source).expect("source should scan").remove(0)
}

#[test]
fn scanner_test_token_next_works_simplest_case() {
    let t = first("(");
    assert_eq!(Token::LeftParen, t.token);
    assert_eq!(1, t.line());
    assert_eq!("(", t.lexeme());
    assert_eq!(1, t.length());
}

#[test]
fn scanner_test_token_next_works_one_or_two_chars_case_two() {
    let t = first("!=");
    assert_eq!(Token::BangEqual, t.token);
    assert_eq!(1, t.line());
    assert_eq!("!=", t.lexeme());
    assert_eq!(2, t.length());
}

#[test]
fn scanner_test_token_next_works_one_or_two_chars_case_one() {
    let t = first("! ");
    assert_eq!(Token::Bang, t.token);
    assert_eq!(1, t.line());
    assert_eq!("!", t.lexeme());
    assert_eq!(1, t.length());
}

#[test]
fn scanner_test_token_next_reads_comment_to_end_of_line() {
    // A comment yields no token: only the end marker remains, after the newline.
    let res = scan("//im a comment\n").unwrap();
    assert_eq!(vec![ctx(Token::Eof, 2, 0, "")], res);
}

#[test]
fn scanner_test_token_next_reads_keyword_and() {
    let t = first("and");
    assert_eq!(Token::And, t.token);
    assert_eq!(1, t.line());
    assert_eq!("and", t.lexeme());
    assert_eq!(3, t.length());
}

#[test]
fn scanner_test_creates_string_token_correctly_in_next() {
    let t = first("\"im a string\"");
    assert_eq!(Token::from_string("im a string".to_string()), t.token);
    assert_eq!(1, t.line());
    assert_eq!("\"im a string\"", t.lexeme());
    assert_eq!(13, t.length());
}

#[test]
fn scanner_test_creates_number_token_correctly_in_next() {
    let t = first("1.345");
    assert_eq!(Token::from_number(Number::from_scaled(1_345_000_000)), t.token);
    assert_eq!(1, t.line());
    assert_eq!("1.345", t.lexeme());
    assert_eq!(5, t.length());
}

#[test]
fn scanner_test_creates_identifier_token_correctly_in_next() {
    let t = first("identwhat");
    assert_eq!(Token::from_identifier("identwhat".to_string()), t.token);
    assert_eq!(1, t.line());
    assert_eq!("identwhat", t.lexeme());
    assert_eq!(9, t.length());
}

#[test]
fn scanner_test_pulls_out_full_comments() {
    let res = scan("// see ya").unwrap();
    assert_eq!(vec![ctx(Token::Eof, 1, 9, "")], res);
}

#[test]
fn scanner_test_gets_full_identifier_after_newline() {
    let res = scan("\nlater").unwrap();
    assert_eq!(ctx(Token::from_identifier("later".to_string()), 2, 0, "later"), res[0]);
}
