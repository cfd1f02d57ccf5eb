//! Tokens, tokens placed in the source, and what source text each token
//! spells.
use vstd::prelude::*;
use crate::number::{Number, literal_scaled};
use crate::scanner::{alphabetic, identifier_char};

verus! {

/// Payload-carrying token kinds.
#[derive(Debug, PartialEq, Clone)]
pub enum LiteralTokenType {
    NumberLiteral(Number),
    IdentifierLiteral(String),
    StringLiteral(String),
}

/// A token of the language: punctuation, keyword, literal or end of input.
#[derive(Debug, PartialEq, Clone)]
pub enum Token {
    LeftParen,
    RightParen,
    LeftBrace,
    RightBrace,
    Comma,
    Dot,
    Minus,
    Plus,
    Semicolon,
    Star,
    Slash,
    Bang,
    BangEqual,
    Equal,
    EqualEqual,
    Greater,
    GreaterEqual,
    Less,
    LessEqual,
    Literal(LiteralTokenType),
    And,
    Class,
    Else,
    False,
    Fun,
    For,
    If,
    Nil,
    Or,
    Print,
    Return,
    Super,
    This,
    True,
    Var,
    While,
    Eof,
}

/// A token with its place in the source: 1-based line, 0-based column, and
/// the exact source text it was read from.
#[derive(Debug, PartialEq, Clone)]
pub struct TokenContext {
    pub token: Token,
    pub line_number: usize,
    pub start_char_offset: usize,
    pub lexeme: String,
}

/// The keyword spelled by `w`, if any.
pub open spec fn keyword_of(w: Seq<char>) -> Option<Token> {
    if w == seq!['a', 'n', 'd'] {
        Some(Token::And)
    } else if w == seq!['c', 'l', 'a', 's', 's'] {
        Some(Token::Class)
    } else if w == seq!['e', 'l', 's', 'e'] {
        Some(Token::Else)
    } else if w == seq!['f', 'a', 'l', 's', 'e'] {
        Some(Token::False)
    } else if w == seq!['f', 'u', 'n'] {
        Some(Token::Fun)
    } else if w == seq!['f', 'o', 'r'] {
        Some(Token::For)
    } else if w == seq!['i', 'f'] {
        Some(Token::If)
    } else if w == seq!['n', 'i', 'l'] {
        Some(Token::Nil)
    } else if w == seq!['o', 'r'] {
        Some(Token::Or)
    } else if w == seq!['p', 'r', 'i', 'n', 't'] {
        Some(Token::Print)
    } else if w == seq!['r', 'e', 't', 'u', 'r', 'n'] {
        Some(Token::Return)
    } else if w == seq!['s', 'u', 'p', 'e', 'r'] {
        Some(Token::Super)
    } else if w == seq!['t', 'h', 'i', 's'] {
        Some(Token::This)
    } else if w == seq!['t', 'r', 'u', 'e'] {
        Some(Token::True)
    } else if w == seq!['v', 'a', 'r'] {
        Some(Token::Var)
    } else if w == seq!['w', 'h', 'i', 'l', 'e'] {
        Some(Token::While)
    } else {
        None
    }
}

pub open spec fn is_digit(c: char) -> bool {
    '0' <= c <= '9'
}

/// Value of a digit character.
pub open spec fn digit_value(c: char) -> u8 {
    ((c as u32) - ('0' as u32)) as u8
}

pub open spec fn digit_values(cs: Seq<char>) -> Seq<u8> {
    cs.map_values(|c: char| digit_value(c))
}

/// `lex` is a number literal: digits, then optionally a point and digits.
pub open spec fn is_number_lexeme(lex: Seq<char>, dot: int) -> bool {
    &&& lex.len() > 0
    &&& is_digit(lex[0])
    &&& 0 < dot <= lex.len()
    &&& forall|i: int| 0 <= i < dot ==> is_digit(#[trigger] lex[i])
    &&& dot < lex.len() ==> lex[dot] == '.'
    &&& forall|i: int| dot < i < lex.len() ==> is_digit(#[trigger] lex[i])
}

/// Scaled value of the number literal `lex` whose point (or end) is at `dot`.
pub open spec fn number_lexeme_value(lex: Seq<char>, dot: int) -> int {
    let frac = if dot < lex.len() {
        lex.subrange(dot + 1, lex.len() as int)
    } else {
        Seq::<char>::empty()
    };
    literal_scaled(digit_values(lex.subrange(0, dot)), digit_values(frac))
}

/// `lex` is an identifier or keyword: a letter or `_` (not a digit), then
/// letters, digits and `_`.
pub open spec fn is_word(lex: Seq<char>) -> bool {
    &&& lex.len() > 0
    &&& (alphabetic(lex[0]) || lex[0] == '_')
    &&& !is_digit(lex[0])
    &&& forall|i: int| 0 < i < lex.len() ==> identifier_char(#[trigger] lex[i])
}

/// `t` is the token that the source text `lex` spells.
pub open spec fn token_denotes(t: Token, lex: Seq<char>) -> bool {
    match t {
        Token::LeftParen => lex == seq!['('],
        Token::RightParen => lex == seq![')'],
        Token::LeftBrace => lex == seq!['{'],
        Token::RightBrace => lex == seq!['}'],
        Token::Comma => lex == seq![','],
        Token::Dot => lex == seq!['.'],
        Token::Minus => lex == seq!['-'],
        Token::Plus => lex == seq!['+'],
        Token::Semicolon => lex == seq![';'],
        Token::Star => lex == seq!['*'],
        Token::Slash => lex == seq!['/'],
        Token::Bang => lex == seq!['!'],
        Token::BangEqual => lex == seq!['!', '='],
        Token::Equal => lex == seq!['='],
        Token::EqualEqual => lex == seq!['=', '='],
        Token::Greater => lex == seq!['>'],
        Token::GreaterEqual => lex == seq!['>', '='],
        Token::Less => lex == seq!['<'],
        Token::LessEqual => lex == seq!['<', '='],
        Token::Literal(LiteralTokenType::NumberLiteral(n)) => exists|dot: int|
            is_number_lexeme(lex, dot) && n.value() == number_lexeme_value(lex, dot),
        Token::Literal(LiteralTokenType::StringLiteral(s)) => lex == seq!['"'] + s@ + seq!['"']
            && !s@.contains('"'),
        Token::Literal(LiteralTokenType::IdentifierLiteral(s)) => lex == s@ && is_word(lex)
            && keyword_of(lex) is None,
        Token::Eof => lex.len() == 0,
        _ => keyword_of(lex) == Some(t),
    }
}

impl Token {
    pub fn from_number(n: Number) -> (t: Token)
        ensures
            t == Token::Literal(LiteralTokenType::NumberLiteral(n)),
    {
        Token::Literal(LiteralTokenType::NumberLiteral(n))
    }

    pub fn from_identifier(symbols: String) -> (t: Token)
        ensures
            t == Token::Literal(LiteralTokenType::IdentifierLiteral(symbols)),
    {
        Token::Literal(LiteralTokenType::IdentifierLiteral(symbols))
    }

    pub fn from_string(string: String) -> (t: Token)
        ensures
            t == Token::Literal(LiteralTokenType::StringLiteral(string)),
    {
        Token::Literal(LiteralTokenType::StringLiteral(string))
    }

    /// This token is the end-of-input marker.
    pub fn is_eof(&self) -> (b: bool)
        ensures
            b == (*self is Eof),
    {
        match self {
            Token::Eof => true,
            _ => false,
        }
    }
}

impl TokenContext {
    pub fn new(token: Token, line_number: usize, start_char_offset: usize, lexeme: String) -> (r:
        TokenContext)
        ensures
            r.token == token,
            r.line_number == line_number,
            r.start_char_offset == start_char_offset,
            r.lexeme == lexeme,
    {
        TokenContext { token, line_number, start_char_offset, lexeme }
    }

    /// Number of source characters the token spans.
    pub fn length(&self) -> (n: usize)
        ensures
            n == self.lexeme@.len(),
    {
        self.lexeme.as_str().unicode_len()
    }

    pub fn token(&self) -> (t: &Token)
        ensures
            *t == self.token,
    {
        &self.token
    }

    pub fn line(&self) -> (n: usize)
        ensures
            n == self.line_number,
    {
        self.line_number
    }

    pub fn column(&self) -> (n: usize)
        ensures
            n == self.start_char_offset,
    {
        self.start_char_offset
    }

    pub fn lexeme(&self) -> (s: &str)
        ensures
            s@ == self.lexeme@,
    {
        self.lexeme.as_str()
    }
}

} // verus!
