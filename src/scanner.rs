//! The scanner: source text to positioned tokens, specified by a
//! maximal-munch lexer over the source characters.
use vstd::prelude::*;
use crate::number::{Number, all_digits, in_range};
use crate::token::{
    LiteralTokenType,
    Token,
    TokenContext,
    keyword_of,
    is_digit,
    digit_value,
    digit_values,
    is_number_lexeme,
    number_lexeme_value,
    token_denotes,
};

verus! {

/// What `char::is_whitespace` says of a character.
pub uninterp spec fn whitespace(c: char) -> bool;

/// What `char::is_alphabetic` says of a character.
pub uninterp spec fn alphabetic(c: char) -> bool;

/// What `char::is_alphanumeric` says of a character.
pub uninterp spec fn alphanumeric(c: char) -> bool;

pub open spec fn is_ascii_char(c: char) -> bool {
    (c as u32) < 128
}

pub open spec fn is_ascii_letter(c: char) -> bool {
    ('a' <= c <= 'z') || ('A' <= c <= 'Z')
}

/// Relies on `char::is_whitespace` (Unicode White_Space property): among
/// ASCII characters exactly tab, line feed, vertical tab, form feed,
/// carriage return and space.
#[verifier::external_body]
fn is_whitespace(c: char) -> (b: bool)
    ensures
        b == whitespace(c),
        is_ascii_char(c) ==> (b <==> (c == ' ' || ('\t' <= c <= '\r'))),
{
    c.is_whitespace()
}

/// Relies on `char::is_alphabetic` (Unicode Alphabetic property): among
/// ASCII characters exactly the letters.
#[verifier::external_body]
fn is_alphabetic(c: char) -> (b: bool)
    ensures
        b == alphabetic(c),
        is_ascii_char(c) ==> (b <==> is_ascii_letter(c)),
{
    c.is_alphabetic()
}

/// Relies on `char::is_alphanumeric` (Alphabetic or Numeric): among ASCII
/// characters exactly the letters and digits.
#[verifier::external_body]
fn is_alphanumeric(c: char) -> (b: bool)
    ensures
        b == alphanumeric(c),
        is_ascii_char(c) ==> (b <==> (is_ascii_letter(c) || is_digit(c))),
{
    c.is_alphanumeric()
}

/// Relies on `str::chars`: the Unicode scalar values of the text, in order.
#[verifier::external_body]
fn chars_of(s: &str) -> (r: Vec<char>)
    ensures
        r@ == s@,
{
    s.chars().collect()
}

/// Relies on collecting chars into a `String`: the same characters, in order.
#[verifier::external_body]
pub(crate) fn string_of(cs: &Vec<char>) -> (r: String)
    ensures
        r@ == cs@,
{
    cs.iter().collect()
}

/// A failed scan: what went wrong, where, and the offending text.
#[derive(Debug, Clone, PartialEq)]
pub struct LexicalError {
    pub line: usize,
    pub column: usize,
    pub error_lexeme: String,
    pub message: String,
}

impl LexicalError {
    pub fn new(line: usize, column: usize, error_lexeme: String, message: String) -> (r:
        LexicalError)
        ensures
            r.line == line,
            r.column == column,
            r.error_lexeme == error_lexeme,
            r.message == message,
    {
        LexicalError { line, column, error_lexeme, message }
    }

    pub fn line(&self) -> (n: usize)
        ensures
            n == self.line,
    {
        self.line
    }

    pub fn column(&self) -> (n: usize)
        ensures
            n == self.column,
    {
        self.column
    }

    pub fn error_lexeme(&self) -> (s: &str)
        ensures
            s@ == self.error_lexeme@,
    {
        self.error_lexeme.as_str()
    }

    pub fn message(&self) -> (s: &str)
        ensures
            s@ == self.message@,
    {
        self.message.as_str()
    }
}

/// Identifier characters after the first.
pub open spec fn identifier_char(c: char) -> bool {
    alphanumeric(c) || c == '_'
}

/// First index from `i` on whose character is not a digit.
pub open spec fn digits_end(s: Seq<char>, i: int) -> int
    decreases s.len() - i,
{
    if 0 <= i < s.len() && is_digit(s[i]) {
        digits_end(s, i + 1)
    } else {
        i
    }
}

/// First index from `i` on whose character cannot continue an identifier.
pub open spec fn word_end(s: Seq<char>, i: int) -> int
    decreases s.len() - i,
{
    if 0 <= i < s.len() && identifier_char(s[i]) {
        word_end(s, i + 1)
    } else {
        i
    }
}

/// First index from `i` on holding a newline, or the end.
pub open spec fn line_end(s: Seq<char>, i: int) -> int
    decreases s.len() - i,
{
    if 0 <= i < s.len() && s[i] != '\n' {
        line_end(s, i + 1)
    } else {
        i
    }
}

/// First index from `i` on holding a double quote, or the end.
pub open spec fn quote_end(s: Seq<char>, i: int) -> int
    decreases s.len() - i,
{
    if 0 <= i < s.len() && s[i] != '"' {
        quote_end(s, i + 1)
    } else {
        i
    }
}

/// End of the number literal starting at `i`: digits, then a point and
/// digits when a point follows.
pub open spec fn number_end(s: Seq<char>, i: int) -> int {
    let d = digits_end(s, i);
    if d < s.len() && s[d] == '.' {
        digits_end(s, d + 1)
    } else {
        d
    }
}

pub open spec fn is_single_char(c: char) -> bool {
    c == '(' || c == ')' || c == '{' || c == '}' || c == ',' || c == '.' || c == '-' || c == '+'
        || c == ';' || c == '*'
}

pub open spec fn is_operator_start(c: char) -> bool {
    c == '!' || c == '=' || c == '>' || c == '<'
}

/// What the source holds at `i`: text to skip up to an index, a token
/// ending at an index, or a lexical error.
pub enum Lexeme {
    Skip(int),
    Token(int),
    Fail,
}

/// The lexeme that starts at `i` (maximal munch).
pub open spec fn lexeme_at(s: Seq<char>, i: int) -> Lexeme {
    let c = s[i];
    if whitespace(c) {
        Lexeme::Skip(i + 1)
    } else if is_single_char(c) {
        Lexeme::Token(i + 1)
    } else if is_operator_start(c) {
        if i + 1 < s.len() && s[i + 1] == '=' {
            Lexeme::Token(i + 2)
        } else {
            Lexeme::Token(i + 1)
        }
    } else if c == '/' {
        if i + 1 < s.len() && s[i + 1] == '/' {
            Lexeme::Skip(line_end(s, i))
        } else {
            Lexeme::Token(i + 1)
        }
    } else if is_digit(c) {
        let e = number_end(s, i);
        if in_range(number_lexeme_value(s.subrange(i, e), digits_end(s, i) - i)) {
            Lexeme::Token(e)
        } else {
            Lexeme::Fail
        }
    } else if c == '"' {
        let q = quote_end(s, i + 1);
        if q < s.len() {
            Lexeme::Token(q + 1)
        } else {
            Lexeme::Fail
        }
    } else if c == '_' || alphabetic(c) {
        Lexeme::Token(word_end(s, i + 1))
    } else {
        Lexeme::Fail
    }
}

/// The source ranges of the tokens from `i` on, or `None` on a lexical
/// error.
pub open spec fn token_ranges(s: Seq<char>, i: int) -> Option<Seq<(int, int)>>
    decreases s.len() - i,
{
    if i < 0 || i >= s.len() {
        Some(Seq::empty())
    } else {
        match lexeme_at(s, i) {
            Lexeme::Skip(e) => if i < e <= s.len() {
                token_ranges(s, e)
            } else {
                None
            },
            Lexeme::Token(e) => if i < e <= s.len() {
                match token_ranges(s, e) {
                    Some(rest) => Some(seq![(i, e)] + rest),
                    None => None,
                }
            } else {
                None
            },
            Lexeme::Fail => None,
        }
    }
}

/// Index of the first lexical error from `i` on (the length when there is
/// none).
pub open spec fn fail_at(s: Seq<char>, i: int) -> int
    decreases s.len() - i,
{
    if i < 0 || i >= s.len() {
        s.len() as int
    } else {
        match lexeme_at(s, i) {
            Lexeme::Skip(e) => if i < e <= s.len() {
                fail_at(s, e)
            } else {
                i
            },
            Lexeme::Token(e) => if i < e <= s.len() {
                fail_at(s, e)
            } else {
                i
            },
            Lexeme::Fail => i,
        }
    }
}

/// The text a lexical error at `k` reports: the whole number literal, the
/// unterminated string to the end, or the one offending character.
pub open spec fn fail_lexeme(s: Seq<char>, k: int) -> Seq<char> {
    if is_digit(s[k]) {
        s.subrange(k, number_end(s, k))
    } else if s[k] == '"' {
        s.subrange(k, s.len() as int)
    } else {
        s.subrange(k, k + 1)
    }
}

/// `e` reports the first lexical error of `s`: its place and its text.
pub open spec fn reports_first_error(s: Seq<char>, e: LexicalError) -> bool {
    let k = fail_at(s, 0);
    &&& e.line == line_at(s, k)
    &&& e.column == column_at(s, k)
    &&& e.error_lexeme@ == fail_lexeme(s, k)
}

/// 1-based line of index `i`.
pub open spec fn line_at(s: Seq<char>, i: int) -> int
    decreases i,
{
    if i <= 0 || i > s.len() {
        1
    } else {
        line_at(s, i - 1) + if s[i - 1] == '\n' {
            1int
        } else {
            0int
        }
    }
}

/// 0-based column of index `i`: characters since the last newline.
pub open spec fn column_at(s: Seq<char>, i: int) -> int
    decreases i,
{
    if i <= 0 || i > s.len() {
        0
    } else if s[i - 1] == '\n' {
        0
    } else {
        column_at(s, i - 1) + 1
    }
}

/// `t` is the token read from `s[start..end]`, placed at `start`.
pub open spec fn token_read(s: Seq<char>, t: TokenContext, start: int, end: int) -> bool {
    &&& t.lexeme@ == s.subrange(start, end)
    &&& t.line_number == line_at(s, start)
    &&& t.start_char_offset == column_at(s, start)
    &&& token_denotes(t.token, t.lexeme@)
    &&& !(t.token is Eof)
}

/// `ts` is the scan of `s`: one token per range of `token_ranges`, then the
/// end marker placed at the end of the source.
pub open spec fn scanned(s: Seq<char>, ts: Seq<TokenContext>) -> bool {
    &&& token_ranges(s, 0) matches Some(rs)
    &&& ts.len() == rs.len() + 1
    &&& forall|k: int| 0 <= k < rs.len() ==> token_read(s, #[trigger] ts[k], rs[k].0, rs[k].1)
    &&& ts.last().token is Eof
    &&& ts.last().lexeme@.len() == 0
    &&& ts.last().line_number == line_at(s, s.len() as int)
    &&& ts.last().start_char_offset == column_at(s, s.len() as int)
}

/// Scanner of source text into tokens.
pub struct Scanner {}

/// The copy of `cs[start..end]`.
fn copy_range(cs: &Vec<char>, start: usize, end: usize) -> (r: Vec<char>)
    requires
        start <= end <= cs@.len(),
    ensures
        r@ == cs@.subrange(start as int, end as int),
{
    let mut r: Vec<char> = Vec::new();
    let mut k = start;
    while k < end
        invariant
            start <= k <= end <= cs@.len(),
            r@ == cs@.subrange(start as int, k as int),
        decreases end - k,
    {
        r.push(cs[k]);
        k = k + 1;
        assert(r@ =~= cs@.subrange(start as int, k as int));
    }
    r
}

/// The source text `cs[start..end]` as a `String`.
pub fn slice_to_lexeme(cs: &Vec<char>, start: usize, end: usize) -> (r: String)
    requires
        start <= end <= cs@.len(),
    ensures
        r@ == cs@.subrange(start as int, end as int),
{
    let v = copy_range(cs, start, end);
    string_of(&v)
}

fn digit_of(c: char) -> (d: u8)
    requires
        is_digit(c),
    ensures
        d == digit_value(c),
        d < 10,
{
    ((c as u32) - ('0' as u32)) as u8
}

fn char_is_digit(c: char) -> (b: bool)
    ensures
        b == is_digit(c),
{
    '0' <= c && c <= '9'
}

/// Digit values of `cs[start..end]`, all of which are digits.
fn digits_between(cs: &Vec<char>, start: usize, end: usize) -> (r: Vec<u8>)
    requires
        start <= end <= cs@.len(),
        forall|k: int| start <= k < end ==> is_digit(#[trigger] cs@[k]),
    ensures
        r@ == digit_values(cs@.subrange(start as int, end as int)),
        all_digits(r@),
{
    let mut r: Vec<u8> = Vec::new();
    let mut k = start;
    while k < end
        invariant
            start <= k <= end <= cs@.len(),
            forall|m: int| start <= m < end ==> is_digit(#[trigger] cs@[m]),
            r@ == digit_values(cs@.subrange(start as int, k as int)),
            all_digits(r@),
        decreases end - k,
    {
        r.push(digit_of(cs[k]));
        k = k + 1;
        assert(r@ =~= digit_values(cs@.subrange(start as int, k as int)));
    }
    r
}

fn words_equal(w: &Vec<char>, k: &Vec<char>) -> (b: bool)
    ensures
        b == (w@ == k@),
{
    if w.len() != k.len() {
        return false;
    }
    let mut i: usize = 0;
    while i < w.len()
        invariant
            w@.len() == k@.len(),
            0 <= i <= w@.len(),
            forall|m: int| 0 <= m < i ==> w@[m] == k@[m],
        decreases w.len() - i,
    {
        if w[i] != k[i] {
            return false;
        }
        i = i + 1;
    }
    assert(w@ =~= k@);
    true
}

/// The keyword token spelled by `w`, if any.
fn keyword_token(w: &Vec<char>) -> (r: Option<Token>)
    ensures
        r == keyword_of(w@),
{
    if words_equal(w, &vec!['a', 'n', 'd']) {
        Some(Token::And)
    } else if words_equal(w, &vec!['c', 'l', 'a', 's', 's']) {
        Some(Token::Class)
    } else if words_equal(w, &vec!['e', 'l', 's', 'e']) {
        Some(Token::Else)
    } else if words_equal(w, &vec!['f', 'a', 'l', 's', 'e']) {
        Some(Token::False)
    } else if words_equal(w, &vec!['f', 'u', 'n']) {
        Some(Token::Fun)
    } else if words_equal(w, &vec!['f', 'o', 'r']) {
        Some(Token::For)
    } else if words_equal(w, &vec!['i', 'f']) {
        Some(Token::If)
    } else if words_equal(w, &vec!['n', 'i', 'l']) {
        Some(Token::Nil)
    } else if words_equal(w, &vec!['o', 'r']) {
        Some(Token::Or)
    } else if words_equal(w, &vec!['p', 'r', 'i', 'n', 't']) {
        Some(Token::Print)
    } else if words_equal(w, &vec!['r', 'e', 't', 'u', 'r', 'n']) {
        Some(Token::Return)
    } else if words_equal(w, &vec!['s', 'u', 'p', 'e', 'r']) {
        Some(Token::Super)
    } else if words_equal(w, &vec!['t', 'h', 'i', 's']) {
        Some(Token::This)
    } else if words_equal(w, &vec!['t', 'r', 'u', 'e']) {
        Some(Token::True)
    } else if words_equal(w, &vec!['v', 'a', 'r']) {
        Some(Token::Var)
    } else if words_equal(w, &vec!['w', 'h', 'i', 'l', 'e']) {
        Some(Token::While)
    } else {
        None
    }
}

/// The token of a one-character lexeme that never begins a longer one.
fn single_char_token(c: char) -> (r: Option<Token>)
    ensures
        r matches Some(t) ==> token_denotes(t, seq![c]) && !(t is Eof),
        r is None <==> !(c == '(' || c == ')' || c == '{' || c == '}' || c == ',' || c == '.'
            || c == '-' || c == '+' || c == ';' || c == '*'),
{
    if c == '(' {
        Some(Token::LeftParen)
    } else if c == ')' {
        Some(Token::RightParen)
    } else if c == '{' {
        Some(Token::LeftBrace)
    } else if c == '}' {
        Some(Token::RightBrace)
    } else if c == ',' {
        Some(Token::Comma)
    } else if c == '.' {
        Some(Token::Dot)
    } else if c == '-' {
        Some(Token::Minus)
    } else if c == '+' {
        Some(Token::Plus)
    } else if c == ';' {
        Some(Token::Semicolon)
    } else if c == '*' {
        Some(Token::Star)
    } else {
        None
    }
}

/// The token of `!`, `=`, `>` or `<`, joined with a following `=` when there
/// is one; the second component is the lexeme's length.
fn operator_token(c: char, next_is_equal: bool) -> (r: Option<(Token, usize)>)
    ensures
        r matches Some(p) ==> {
            &&& p.1 == (if next_is_equal {
                2usize
            } else {
                1usize
            })
            &&& !(p.0 is Eof)
            &&& token_denotes(
                p.0,
                if next_is_equal {
                    seq![c, '=']
                } else {
                    seq![c]
                },
            )
        },
        r is None <==> !(c == '!' || c == '=' || c == '>' || c == '<'),
{
    if c == '!' {
        if next_is_equal {
            Some((Token::BangEqual, 2))
        } else {
            Some((Token::Bang, 1))
        }
    } else if c == '=' {
        if next_is_equal {
            Some((Token::EqualEqual, 2))
        } else {
            Some((Token::Equal, 1))
        }
    } else if c == '>' {
        if next_is_equal {
            Some((Token::GreaterEqual, 2))
        } else {
            Some((Token::Greater, 1))
        }
    } else if c == '<' {
        if next_is_equal {
            Some((Token::LessEqual, 2))
        } else {
            Some((Token::Less, 1))
        }
    } else {
        None
    }
}

impl Scanner {
    pub fn new() -> (s: Scanner) {
        Scanner {  }
    }

    /// Splits `source` into tokens, ending with the end marker.
    pub fn scan(&self, source: &str) -> (r: Result<Vec<TokenContext>, LexicalError>)
        ensures
            source@.len() < usize::MAX ==> (r is Ok <==> token_ranges(source@, 0) is Some),
            r matches Ok(ts) ==> scanned(source@, ts@),
            source@.len() < usize::MAX ==> (r matches Err(e) ==> reports_first_error(source@, e)),
        source@.len() < usize::MAX ==> (r matches Err(e) ==> reports_first_error(source@, e)),
    {
        scan(source)
    }
}

/// Splits `source` into tokens, ending with the end marker.
pub fn scan(source: &str) -> (r: Result<Vec<TokenContext>, LexicalError>)
    ensures
        source@.len() < usize::MAX ==> (r is Ok <==> token_ranges(source@, 0) is Some),
        r matches Ok(ts) ==> scanned(source@, ts@),
        source@.len() < usize::MAX ==> (r matches Err(e) ==> reports_first_error(source@, e)),
{
    let chars = chars_of(source);
    if chars.len() == usize::MAX {
        let empty = string_of(&Vec::new());
        return Err(LexicalError::new(1, 0, empty, "source too long".to_string()));
    }
    scan_chars(&chars)
}

/// Line and column of index `j`, walking from index `i` at `line`, `col`.
fn advance_position(cs: &Vec<char>, i: usize, j: usize, line: usize, col: usize) -> (r: (
    usize,
    usize,
))
    requires
        i <= j <= cs@.len(),
        cs@.len() < usize::MAX,
        line == line_at(cs@, i as int),
        col == column_at(cs@, i as int),
    ensures
        r.0 == line_at(cs@, j as int),
        r.1 == column_at(cs@, j as int),
{
    let mut k = i;
    let mut l = line;
    let mut c = col;
    proof {
        lemma_position_bounds(cs@, i as int);
    }
    while k < j
        invariant
            i <= k <= j <= cs@.len(),
            cs@.len() < usize::MAX,
            l == line_at(cs@, k as int),
            c == column_at(cs@, k as int),
        decreases j - k,
    {
        proof {
            lemma_position_bounds(cs@, k as int);
        }
        if cs[k] == '\n' {
            l = l + 1;
            c = 0;
        } else {
            c = c + 1;
        }
        k = k + 1;
    }
    (l, c)
}

proof fn lemma_position_bounds(s: Seq<char>, i: int)
    requires
        0 <= i <= s.len(),
    ensures
        1 <= line_at(s, i) <= i + 1,
        0 <= column_at(s, i) <= i,
    decreases i,
{
    if i > 0 {
        lemma_position_bounds(s, i - 1);
    }
}

/// The ranges `done` followed by those of `rest`, if any.
pub open spec fn join_ranges(done: Seq<(int, int)>, rest: Option<Seq<(int, int)>>) -> Option<
    Seq<(int, int)>,
> {
    match rest {
        Some(r) => Some(done + r),
        None => None,
    }
}

/// Splits the characters `cs` into tokens, ending with the end marker.
pub fn scan_chars(cs: &Vec<char>) -> (r: Result<Vec<TokenContext>, LexicalError>)
    requires
        cs@.len() < usize::MAX,
    ensures
        r is Ok <==> token_ranges(cs@, 0) is Some,
        r matches Ok(ts) ==> scanned(cs@, ts@),
        r matches Err(e) ==> reports_first_error(cs@, e),
{
    let ghost s = cs@;
    let n = cs.len();
    let mut tokens: Vec<TokenContext> = Vec::new();
    let ghost mut done: Seq<(int, int)> = Seq::empty();
    let mut i: usize = 0;
    let mut line: usize = 1;
    let mut col: usize = 0;
    assert(done + token_ranges(s, 0).unwrap_or(Seq::empty()) =~= token_ranges(s, 0).unwrap_or(Seq::empty()));
    while i < n
        invariant
            s == cs@,
            n == s.len(),
            n < usize::MAX,
            0 <= i <= n,
            line == line_at(s, i as int),
            col == column_at(s, i as int),
            token_ranges(s, 0) == join_ranges(done, token_ranges(s, i as int)),
            fail_at(s, 0) == fail_at(s, i as int),
            tokens@.len() == done.len(),
            forall|k: int|
                0 <= k < done.len() ==> token_read(s, #[trigger] tokens@[k], done[k].0, done[k].1),
        decreases n - i,
    {
        let c = cs[i];
        let next_is_equal = i + 1 < n && cs[i + 1] == '=';
        let ghost ti = token_ranges(s, i as int);
        let ghost old_done = done;
        let ghost old_tokens = tokens@;
        // end of the lexeme, and whether it is a token
        let (end, token): (usize, Option<Token>) = if is_whitespace(c) {
            (i + 1, None)
        } else if let Some(t) = single_char_token(c) {
            assert(cs@.subrange(i as int, i + 1) =~= seq![c]);
            (i + 1, Some(t))
        } else if let Some((t, len)) = operator_token(c, next_is_equal) {
            proof {
                if next_is_equal {
                    assert(cs@.subrange(i as int, i + 2) =~= seq![c, '=']);
                } else {
                    assert(cs@.subrange(i as int, i + 1) =~= seq![c]);
                }
            }
            (i + len, Some(t))
        } else if c == '/' {
            if i + 1 < n && cs[i + 1] == '/' {
                let mut j = i;
                while j < n && cs[j] != '\n'
                    invariant
                        i <= j <= n,
                        n == s.len(),
                        s == cs@,
                        line_end(s, j as int) == line_end(s, i as int),
                    decreases n - j,
                {
                    j = j + 1;
                }
                (j, None)
            } else {
                assert(cs@.subrange(i as int, i + 1) =~= seq!['/']);
                (i + 1, Some(Token::Slash))
            }
        } else if char_is_digit(c) {
            let mut j = i;
            while j < n && char_is_digit(cs[j])
                invariant
                    i <= j <= n,
                    n == s.len(),
                    s == cs@,
                    digits_end(s, j as int) == digits_end(s, i as int),
                    forall|k: int| i <= k < j ==> is_digit(#[trigger] cs@[k]),
                decreases n - j,
            {
                j = j + 1;
            }
            let dot = j;
            let int_digits = digits_between(cs, i, dot);
            let mut frac_digits: Vec<u8> = Vec::new();
            if j < n && cs[j] == '.' {
                j = j + 1;
                while j < n && char_is_digit(cs[j])
                    invariant
                        dot < j <= n,
                        n == s.len(),
                        s == cs@,
                        digits_end(s, j as int) == digits_end(s, dot + 1),
                        forall|k: int| dot < k < j ==> is_digit(#[trigger] cs@[k]),
                    decreases n - j,
                {
                    j = j + 1;
                }
                frac_digits = digits_between(cs, dot + 1, j);
            }
            let ghost lex = cs@.subrange(i as int, j as int);
            let ghost rdot = dot - i;
            proof {
                assert(j == number_end(s, i as int));
                assert(lex.subrange(0, rdot) =~= cs@.subrange(i as int, dot as int));
                if rdot < lex.len() {
                    assert(lex.subrange(rdot + 1, lex.len() as int) =~= cs@.subrange(
                        dot + 1,
                        j as int,
                    ));
                } else {
                    assert(digit_values(Seq::<char>::empty()) =~= frac_digits@);
                }
                assert(is_number_lexeme(lex, rdot));
            }
            match Number::from_decimal(&int_digits, &frac_digits) {
                Some(num) => {
                    let t = Token::Literal(LiteralTokenType::NumberLiteral(num));
                    assert(token_denotes(t, lex));
                    (j, Some(t))
                },
                None => {
                    let lexeme = slice_to_lexeme(cs, i, j);
                    return Err(
                        LexicalError::new(line, col, lexeme, "number literal too large".to_string()),
                    );
                },
            }
        } else if c == '"' {
            let mut j = i + 1;
            while j < n && cs[j] != '"'
                invariant
                    i < j <= n,
                    n == s.len(),
                    s == cs@,
                    quote_end(s, j as int) == quote_end(s, i + 1),
                    forall|k: int| i < k < j ==> #[trigger] cs@[k] != '"',
                decreases n - j,
            {
                j = j + 1;
            }
            if j == n {
                let lexeme = slice_to_lexeme(cs, i, j);
                return Err(LexicalError::new(line, col, lexeme, "unterminated string".to_string()));
            }
            let text = slice_to_lexeme(cs, i + 1, j);
            proof {
                let lex = cs@.subrange(i as int, j + 1);
                assert(lex =~= seq!['"'] + text@ + seq!['"']);
                assert(!text@.contains('"')) by {
                    if text@.contains('"') {
                        let k = choose|k: int| 0 <= k < text@.len() && text@[k] == '"';
                        assert(cs@[i + 1 + k] == '"');
                    }
                }
            }
            (j + 1, Some(Token::Literal(LiteralTokenType::StringLiteral(text))))
        } else if c == '_' || is_alphabetic(c) {
            let mut j = i + 1;
            while j < n && (cs[j] == '_' || is_alphanumeric(cs[j]))
                invariant
                    i < j <= n,
                    n == s.len(),
                    s == cs@,
                    word_end(s, j as int) == word_end(s, i + 1),
                    forall|k: int| i < k < j ==> identifier_char(#[trigger] cs@[k]),
                decreases n - j,
            {
                j = j + 1;
            }
            let word = copy_range(cs, i, j);
            let t = match keyword_token(&word) {
                Some(k) => k,
                None => Token::Literal(LiteralTokenType::IdentifierLiteral(string_of(&word))),
            };
            proof {
                assert(word@[0] == c);
            }
            (j, Some(t))
        } else {
            let lexeme = slice_to_lexeme(cs, i, i + 1);
            return Err(LexicalError::new(line, col, lexeme, "unexpected character".to_string()));
        };
        match token {
            Some(t) => {
                let lexeme = slice_to_lexeme(cs, i, end);
                assert(lexeme_at(s, i as int) == Lexeme::Token(end as int));
                tokens.push(TokenContext::new(t, line, col, lexeme));
                proof {
                    done = done.push((i as int, end as int));
                    assert(token_ranges(s, 0) == join_ranges(done, token_ranges(s, end as int))) by {
                        match token_ranges(s, end as int) {
                            Some(rest) => {
                                assert(old_done + (seq![(i as int, end as int)] + rest) =~= done
                                    + rest);
                            },
                            None => {},
                        }
                    }
                    assert forall|k: int| 0 <= k < done.len() implies token_read(
                        s,
                        #[trigger] tokens@[k],
                        done[k].0,
                        done[k].1,
                    ) by {
                        if k < old_done.len() {
                            assert(tokens@[k] == old_tokens[k]);
                        }
                    }
                }
            },
            None => {
                assert(lexeme_at(s, i as int) == Lexeme::Skip(end as int));
            },
        }
        let (l2, c2) = advance_position(cs, i, end, line, col);
        line = l2;
        col = c2;
        i = end;
    }
    proof {
        assert(done + Seq::<(int, int)>::empty() =~= done);
    }
    let end = string_of(&Vec::new());
    tokens.push(TokenContext::new(Token::Eof, line, col, end));
    proof {
        assert forall|k: int| 0 <= k < done.len() implies token_read(
            s,
            #[trigger] tokens@[k],
            done[k].0,
            done[k].1,
        ) by {
            assert(tokens@[k] == tokens@.drop_last()[k]);
        }
    }
    Ok(tokens)
}

} // verus!
