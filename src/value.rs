//! Runtime values, runtime errors, and the meaning of the operators.
use vstd::prelude::*;
use crate::ast::{Expr, ExprLiteralValue};
use crate::number::{Number, number_text, in_range, trunc_div, SCALE};
use crate::scanner::string_of;
use crate::token::Token;

verus! {

/// A function value: the function literal's parts and the handle of the
/// scope that was current when the literal was evaluated.
#[derive(Debug)]
pub struct Closure {
    pub name: Option<String>,
    pub params: Vec<String>,
    pub body: Vec<Expr>,
    pub scope: usize,
}

/// A runtime value.
#[derive(Debug)]
pub enum Value {
    Nil,
    Bool(bool),
    Number(Number),
    Str(String),
    Function(Box<Closure>),
}

/// The kinds of runtime failure.
#[derive(Debug, Clone, Copy, PartialEq, Eq, Structural)]
pub enum ErrorKind {
    TypeMismatch,
    DivideByZero,
    NumberOverflow,
    UndefinedVariable,
    AlreadyDeclared,
    ArityMismatch,
    NotCallable,
    CallDepthExceeded,
    StepLimitExceeded,
    InvalidOperator,
}

/// A runtime error: its kind and a message for people.
#[derive(Debug, Clone)]
pub struct InterpreterError {
    pub kind: ErrorKind,
    pub msg: String,
}

impl InterpreterError {
    pub fn new(kind: ErrorKind, msg: String) -> (e: InterpreterError)
        ensures
            e.kind == kind,
            e.msg == msg,
    {
        InterpreterError { kind, msg }
    }

    pub fn kind(&self) -> (k: ErrorKind)
        ensures
            k == self.kind,
    {
        self.kind
    }

    pub fn message(&self) -> (s: &str)
        ensures
            s@ == self.msg@,
    {
        self.msg.as_str()
    }
}

pub(crate) fn fail<T>(kind: ErrorKind, msg: &str) -> (r: Result<T, InterpreterError>)
    ensures
        r matches Err(e) && e.kind == kind,
{
    Err(InterpreterError::new(kind, msg.to_string()))
}

/// `nil` and `false` are falsey; every other value is truthy.
pub open spec fn truthy(v: Value) -> bool {
    truthy_model(v.model())
}

pub fn is_truthy(v: &Value) -> (b: bool)
    ensures
        b == truthy(*v),
{
    match v {
        Value::Nil => false,
        Value::Bool(b) => *b,
        _ => true,
    }
}

/// Language equality: defined for two numbers, two strings, two booleans and
/// two nils; values of any other pair of types are unequal.
pub open spec fn values_equal(a: Value, b: Value) -> bool {
    equal_models(a.model(), b.model())
}

pub fn equal_values(a: &Value, b: &Value) -> (r: bool)
    ensures
        r == values_equal(*a, *b),
{
    match (a, b) {
        (Value::Number(x), Value::Number(y)) => x.equals(*y),
        (Value::Str(x), Value::Str(y)) => *x == *y,
        (Value::Bool(x), Value::Bool(y)) => *x == *y,
        (Value::Nil, Value::Nil) => true,
        _ => false,
    }
}

/// The value a literal node denotes.
pub open spec fn literal_value(l: ExprLiteralValue) -> Value {
    match l {
        ExprLiteralValue::StringLiteral(s) => Value::Str(s),
        ExprLiteralValue::NumberLiteral(n) => Value::Number(n),
        ExprLiteralValue::BooleanLiteral(b) => Value::Bool(b),
        ExprLiteralValue::NilLiteral => Value::Nil,
    }
}

pub fn value_of_literal(l: &ExprLiteralValue) -> (v: Value)
    ensures
        v == literal_value(*l),
{
    match l {
        ExprLiteralValue::StringLiteral(s) => Value::Str(s.clone()),
        ExprLiteralValue::NumberLiteral(n) => Value::Number(*n),
        ExprLiteralValue::BooleanLiteral(b) => Value::Bool(*b),
        ExprLiteralValue::NilLiteral => Value::Nil,
    }
}

/// A runtime value as a mathematical value: a number is its scaled value,
/// a string its characters.
pub enum ValueModel {
    Nil,
    Bool(bool),
    Num(int),
    Text(Seq<char>),
    /// A function: its name when it has one, and its number of parameters.
    Function(Option<Seq<char>>, nat),
}

impl Value {
    pub open spec fn model(self) -> ValueModel {
        match self {
            Value::Nil => ValueModel::Nil,
            Value::Bool(b) => ValueModel::Bool(b),
            Value::Number(n) => ValueModel::Num(n.value()),
            Value::Str(s) => ValueModel::Text(s@),
            Value::Function(c) => ValueModel::Function(
                match c.name {
                    Some(n) => Some(n@),
                    None => None,
                },
                c.params@.len(),
            ),
        }
    }
}

/// Truthiness over models: `nil` and `false` are falsey.
pub open spec fn truthy_model(v: ValueModel) -> bool {
    match v {
        ValueModel::Nil => false,
        ValueModel::Bool(b) => b,
        _ => true,
    }
}

/// Language equality over models.
pub open spec fn equal_models(a: ValueModel, b: ValueModel) -> bool {
    match (a, b) {
        (ValueModel::Num(x), ValueModel::Num(y)) => x == y,
        (ValueModel::Text(x), ValueModel::Text(y)) => x == y,
        (ValueModel::Bool(x), ValueModel::Bool(y)) => x == y,
        (ValueModel::Nil, ValueModel::Nil) => true,
        _ => false,
    }
}

/// A checked numeric result.
pub open spec fn checked(x: int) -> Result<ValueModel, ErrorKind> {
    if in_range(x) {
        Ok(ValueModel::Num(x))
    } else {
        Err(ErrorKind::NumberOverflow)
    }
}

/// The outcome of a unary operator on a value.
pub open spec fn unary_outcome(op: Token, v: ValueModel) -> Result<ValueModel, ErrorKind> {
    match op {
        Token::Bang => Ok(ValueModel::Bool(!truthy_model(v))),
        Token::Minus => match v {
            ValueModel::Num(n) => checked(-n),
            _ => Err(ErrorKind::TypeMismatch),
        },
        _ => Err(ErrorKind::InvalidOperator),
    }
}

/// The outcome of a binary operator on two values. Arithmetic and comparison
/// take numbers only, `+` also joins two strings; equality never fails.
pub open spec fn binary_outcome(op: Token, l: ValueModel, r: ValueModel) -> Result<
    ValueModel,
    ErrorKind,
> {
    match op {
        Token::EqualEqual => Ok(ValueModel::Bool(equal_models(l, r))),
        Token::BangEqual => Ok(ValueModel::Bool(!equal_models(l, r))),
        Token::Plus => match (l, r) {
            (ValueModel::Num(a), ValueModel::Num(b)) => checked(a + b),
            (ValueModel::Text(a), ValueModel::Text(b)) => Ok(ValueModel::Text(a + b)),
            _ => Err(ErrorKind::TypeMismatch),
        },
        Token::Minus | Token::Star | Token::Slash | Token::Greater | Token::GreaterEqual
        | Token::Less | Token::LessEqual => match (l, r) {
            (ValueModel::Num(x), ValueModel::Num(y)) => {
                match op {
                    Token::Minus => checked(x - y),
                    Token::Star => if in_range(x * y) {
                        Ok(ValueModel::Num(trunc_div(x * y, SCALE as int)))
                    } else {
                        Err(ErrorKind::NumberOverflow)
                    },
                    Token::Slash => if y == 0 {
                        Err(ErrorKind::DivideByZero)
                    } else if in_range(x * SCALE) {
                        checked(trunc_div(x * SCALE, y))
                    } else {
                        Err(ErrorKind::NumberOverflow)
                    },
                    Token::Greater => Ok(ValueModel::Bool(x > y)),
                    Token::GreaterEqual => Ok(ValueModel::Bool(x >= y)),
                    Token::Less => Ok(ValueModel::Bool(x < y)),
                    _ => Ok(ValueModel::Bool(x <= y)),
                }
            },
            _ => Err(ErrorKind::TypeMismatch),
        },
        _ => Err(ErrorKind::InvalidOperator),
    }
}

/// Division by zero fails with its own error; `+` on a number and a string
/// is a type error; `+` on two strings joins them; equality compares values
/// of the same kind and finds values of different kinds unequal, never
/// failing.
pub proof fn law_operator_outcomes(x: int, a: Seq<char>, b: Seq<char>, l: ValueModel, r: ValueModel)
    ensures
        binary_outcome(Token::Slash, ValueModel::Num(x), ValueModel::Num(0)) == Err::<
            ValueModel,
            ErrorKind,
        >(ErrorKind::DivideByZero),
        binary_outcome(Token::Plus, ValueModel::Num(x), ValueModel::Text(a)) == Err::<
            ValueModel,
            ErrorKind,
        >(ErrorKind::TypeMismatch),
        binary_outcome(Token::Plus, ValueModel::Text(a), ValueModel::Text(b)) == Ok::<
            ValueModel,
            ErrorKind,
        >(ValueModel::Text(a + b)),
        binary_outcome(Token::EqualEqual, l, r) is Ok,
        (l is Num && r is Text) ==> binary_outcome(Token::EqualEqual, l, r) == Ok::<
            ValueModel,
            ErrorKind,
        >(ValueModel::Bool(false)),
        binary_outcome(Token::EqualEqual, ValueModel::Text(a), ValueModel::Text(a)) == Ok::<
            ValueModel,
            ErrorKind,
        >(ValueModel::Bool(true)),
{
}

/// A result as a mathematical value: the value's model or the error's kind.
pub open spec fn result_model(r: Result<Value, InterpreterError>) -> Result<ValueModel, ErrorKind> {
    match r {
        Ok(v) => Ok(v.model()),
        Err(e) => Err(e.kind),
    }
}

fn number_result(n: Option<Number>) -> (r: Result<Value, InterpreterError>)
    ensures
        n matches Some(m) ==> (r matches Ok(Value::Number(k)) && k == m),
        n is None ==> (r matches Err(e) && e.kind == ErrorKind::NumberOverflow),
{
    match n {
        Some(m) => Ok(Value::Number(m)),
        None => fail(ErrorKind::NumberOverflow, "number out of range"),
    }
}

/// Applies a unary operator.
pub fn unary_op(op: &Token, v: &Value) -> (r: Result<Value, InterpreterError>)
    ensures
        result_model(r) == unary_outcome(*op, v.model()),
{
    match op {
        Token::Bang => Ok(Value::Bool(!is_truthy(v))),
        Token::Minus => match v {
            Value::Number(n) => number_result(n.neg()),
            _ => fail(ErrorKind::TypeMismatch, "operand of '-' must be a number"),
        },
        _ => fail(ErrorKind::InvalidOperator, "not a unary operator"),
    }
}

/// Applies a binary (non-logical) operator.
pub fn binary_op(op: &Token, l: &Value, r: &Value) -> (res: Result<Value, InterpreterError>)
    ensures
        result_model(res) == binary_outcome(*op, l.model(), r.model()),
{
    match op {
        Token::EqualEqual => {
            return Ok(Value::Bool(equal_values(l, r)));
        },
        Token::BangEqual => {
            return Ok(Value::Bool(!equal_values(l, r)));
        },
        Token::Plus => {
            match (l, r) {
                (Value::Number(a), Value::Number(b)) => {
                    return number_result(a.add(*b));
                },
                (Value::Str(a), Value::Str(b)) => {
                    let joined = a.clone().concat(b.as_str());
                    return Ok(Value::Str(joined));
                },
                _ => {
                    return fail(ErrorKind::TypeMismatch, "operands of '+' must be two numbers or two strings");
                },
            }
        },
        Token::Minus | Token::Star | Token::Slash | Token::Greater | Token::GreaterEqual
        | Token::Less | Token::LessEqual => {},
        _ => {
            return fail(ErrorKind::InvalidOperator, "not a binary operator");
        },
    }
    let (a, b) = match (l, r) {
        (Value::Number(a), Value::Number(b)) => (*a, *b),
        _ => {
            return fail(ErrorKind::TypeMismatch, "operands must be numbers");
        },
    };
    match op {
        Token::Minus => number_result(a.sub(b)),
        Token::Star => number_result(a.mul(b)),
        Token::Slash => {
            if b.is_zero() {
                fail(ErrorKind::DivideByZero, "divide by zero")
            } else {
                number_result(a.div(b))
            }
        },
        Token::Greater => Ok(Value::Bool(b.less_than(a))),
        Token::GreaterEqual => Ok(Value::Bool(!a.less_than(b))),
        Token::Less => Ok(Value::Bool(a.less_than(b))),
        _ => Ok(Value::Bool(!b.less_than(a))),
    }
}

/// `new` extends `old` with lines appended at the end.
pub open spec fn appended(old: Seq<String>, new: Seq<String>) -> bool {
    old.len() <= new.len() && new.subrange(0, old.len() as int) == old
}

pub broadcast proof fn lemma_appended_trans(a: Seq<String>, b: Seq<String>, c: Seq<String>)
    requires
        #[trigger] appended(a, b),
        #[trigger] appended(b, c),
    ensures
        appended(a, c),
{
    assert(c.subrange(0, a.len() as int) =~= c.subrange(0, b.len() as int).subrange(
        0,
        a.len() as int,
    ));
}

pub proof fn lemma_appended_push(a: Seq<String>, x: String)
    ensures
        appended(a, a.push(x)),
{
    assert(a.push(x).subrange(0, a.len() as int) =~= a);
}

pub broadcast proof fn lemma_appended_refl(a: Seq<String>)
    ensures
        #[trigger] appended(a, a),
{
    assert(a.subrange(0, a.len() as int) =~= a);
}

/// How `print` shows a value.
pub open spec fn display_text(v: ValueModel) -> Seq<char> {
    match v {
        ValueModel::Nil => seq!['n', 'i', 'l'],
        ValueModel::Bool(b) => if b {
            seq!['t', 'r', 'u', 'e']
        } else {
            seq!['f', 'a', 'l', 's', 'e']
        },
        ValueModel::Num(n) => number_text(n),
        ValueModel::Text(s) => s,
        ValueModel::Function(name, _) => match name {
            Some(name) => seq!['<', 'f', 'n', ' '] + name + seq!['>'],
            None => seq!['<', 'f', 'n', '>'],
        },
    }
}

pub(crate) fn append_chars(out: &mut Vec<char>, s: &str)
    ensures
        final(out)@ == old(out)@ + s@,
{
    let n = s.unicode_len();
    let mut i: usize = 0;
    let ghost start = out@;
    while i < n
        invariant
            n == s@.len(),
            0 <= i <= n,
            out@ == start + s@.take(i as int),
        decreases n - i,
    {
        out.push(s.get_char(i));
        i = i + 1;
        assert(out@ =~= start + s@.take(i as int));
    }
    assert(s@.take(n as int) =~= s@);
}

/// The text `print` writes for a value.
pub fn display(v: &Value) -> (s: String)
    ensures
        s@ == display_text(v.model()),
{
    match v {
        Value::Nil => {
            let cs = vec!['n', 'i', 'l'];
            string_of(&cs)
        },
        Value::Bool(b) => {
            let cs = if *b {
                vec!['t', 'r', 'u', 'e']
            } else {
                vec!['f', 'a', 'l', 's', 'e']
            };
            string_of(&cs)
        },
        Value::Number(n) => {
            let cs = n.to_text();
            string_of(&cs)
        },
        Value::Str(s) => s.clone(),
        Value::Function(c) => {
            let mut cs = vec!['<', 'f', 'n'];
            match &c.name {
                Some(name) => {
                    cs.push(' ');
                    append_chars(&mut cs, name.as_str());
                    cs.push('>');
                    assert(cs@ =~= seq!['<', 'f', 'n', ' '] + name@ + seq!['>']);
                },
                None => {
                    cs.push('>');
                    assert(cs@ =~= seq!['<', 'f', 'n', '>']);
                },
            }
            string_of(&cs)
        },
    }
}

} // verus!
