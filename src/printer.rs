//! Printing syntax trees back as source text, and in a fully parenthesized
//! form; each printer's output is stated exactly as a spec function of the
//! tree.
use vstd::prelude::*;
use crate::ast::{Expr, ExprLiteralValue};
use crate::number::number_text;
use crate::scanner::string_of;
use crate::token::Token;
use crate::value::append_chars;

verus! {

/// Source text of an operator token.
pub open spec fn op_text(t: Token) -> Seq<char> {
    match t {
        Token::Minus => "-"@,
        Token::Plus => "+"@,
        Token::Star => "*"@,
        Token::Slash => "/"@,
        Token::Bang => "!"@,
        Token::BangEqual => "!="@,
        Token::EqualEqual => "=="@,
        Token::Greater => ">"@,
        Token::GreaterEqual => ">="@,
        Token::Less => "<"@,
        Token::LessEqual => "<="@,
        Token::And => "and"@,
        Token::Or => "or"@,
        _ => "?"@,
    }
}

/// Name of a token kind, as the grouped form shows operators.
pub open spec fn op_name(t: Token) -> Seq<char> {
    match t {
        Token::Minus => "Minus"@,
        Token::Plus => "Plus"@,
        Token::Star => "Star"@,
        Token::Slash => "Slash"@,
        Token::Bang => "Bang"@,
        Token::BangEqual => "BangEqual"@,
        Token::EqualEqual => "EqualEqual"@,
        Token::Greater => "Greater"@,
        Token::GreaterEqual => "GreaterEqual"@,
        Token::Less => "Less"@,
        Token::LessEqual => "LessEqual"@,
        Token::And => "And"@,
        Token::Or => "Or"@,
        _ => "?"@,
    }
}

/// The first `n` names, separated by `", "`.
pub open spec fn names_text(ns: Seq<String>, n: int) -> Seq<char>
    decreases n,
{
    if n <= 0 || n > ns.len() {
        Seq::empty()
    } else if n == 1 {
        ns[0]@
    } else {
        names_text(ns, n - 1) + ", "@ + ns[n - 1]@
    }
}

/// Source text of a literal.
pub open spec fn literal_text(l: ExprLiteralValue) -> Seq<char> {
    match l {
        ExprLiteralValue::StringLiteral(s) => seq!['"'] + s@ + seq!['"'],
        ExprLiteralValue::NumberLiteral(n) => number_text(n.value()),
        ExprLiteralValue::BooleanLiteral(b) => if b {
            "true"@
        } else {
            "false"@
        },
        ExprLiteralValue::NilLiteral => "nil"@,
    }
}

/// Source text of a node: literals and names as written, operators between
/// their operands, parentheses only where the tree has a grouping.
pub open spec fn source_text(e: Expr) -> Seq<char>
    decreases e, 0int,
{
    match e {
        Expr::LiteralExpr(l) => literal_text(l),
        Expr::GroupingExpr(inner) => seq!['('] + source_text(*inner) + seq![')'],
        Expr::UnaryExpr { operator, right } => op_text(operator) + seq![' '] + source_text(*right),
        Expr::BinaryExpr { left, operator, right } => source_text(*left) + seq![' '] + op_text(
            operator,
        ) + seq![' '] + source_text(*right),
        Expr::LogicalExpr { left, operator, right } => source_text(*left) + seq![' '] + op_text(
            operator,
        ) + seq![' '] + source_text(*right),
        Expr::VariableExpr(name) => name@,
        Expr::AssignmentExpr { name, value } => name@ + " = "@ + source_text(*value),
        Expr::VarDecl { name, initializer } => "var "@ + name@ + match initializer {
            Some(init) => " = "@ + source_text(*init),
            None => Seq::empty(),
        } + seq![';'],
        Expr::BlockStmt(stmts) => "{ "@ + list_text(stmts@, stmts@.len() as int, " "@) + " }"@,
        Expr::IfStmt { condition, then_branch, else_branch } => "if ("@ + source_text(*condition)
            + ") "@ + source_text(*then_branch) + match else_branch {
            Some(other) => " else "@ + source_text(*other),
            None => Seq::empty(),
        },
        Expr::WhileLoop { condition, body } => "while ("@ + source_text(*condition) + ") "@
            + source_text(*body),
        Expr::CallExpr { callee, arguments } => source_text(*callee) + seq!['('] + list_text(
            arguments@,
            arguments@.len() as int,
            ", "@,
        ) + seq![')'],
        Expr::FunctionExpr { name, params, body } => "fun "@ + match name {
            Some(n) => n@,
            None => Seq::empty(),
        } + seq!['('] + names_text(params@, params@.len() as int) + ") { "@ + list_text(
            body@,
            body@.len() as int,
            " "@,
        ) + " }"@,
        Expr::ReturnStmt(value) => "return"@ + match value {
            Some(v) => seq![' '] + source_text(*v),
            None => Seq::empty(),
        } + seq![';'],
        Expr::PrintStmt(inner) => "print "@ + source_text(*inner) + seq![';'],
        Expr::ExprStmt(inner) => source_text(*inner) + seq![';'],
    }
}

/// Source text of the first `n` nodes, separated by `sep`.
pub open spec fn list_text(es: Seq<Expr>, n: int, sep: Seq<char>) -> Seq<char>
    decreases es, n,
{
    if n <= 0 || n > es.len() {
        Seq::empty()
    } else if n == 1 {
        source_text(es[0])
    } else {
        list_text(es, n - 1, sep) + sep + source_text(es[n - 1])
    }
}

/// Fully parenthesized form of a node: every compound node as
/// `(head parts...)`, binary operators between their operands.
pub open spec fn grouped_text(e: Expr) -> Seq<char>
    decreases e, 0int,
{
    match e {
        Expr::LiteralExpr(_) | Expr::VariableExpr(_) => source_text(e),
        Expr::GroupingExpr(inner) => "(group "@ + grouped_text(*inner) + seq![')'],
        Expr::UnaryExpr { operator, right } => seq!['('] + op_name(operator) + seq![' ']
            + grouped_text(*right) + seq![')'],
        Expr::BinaryExpr { left, operator, right } => seq!['('] + grouped_text(*left) + seq![' ']
            + op_name(operator) + seq![' '] + grouped_text(*right) + seq![')'],
        Expr::LogicalExpr { left, operator, right } => seq!['('] + grouped_text(*left) + seq![' ']
            + op_name(operator) + seq![' '] + grouped_text(*right) + seq![')'],
        Expr::AssignmentExpr { name, value } => "(assign "@ + name@ + seq![' '] + grouped_text(
            *value,
        ) + seq![')'],
        Expr::VarDecl { name, initializer } => "(var "@ + name@ + match initializer {
            Some(init) => seq![' '] + grouped_text(*init),
            None => Seq::empty(),
        } + seq![')'],
        Expr::BlockStmt(stmts) => "(block"@ + grouped_list(stmts@, stmts@.len() as int) + seq![')'],
        Expr::IfStmt { condition, then_branch, else_branch } => "(if "@ + grouped_text(*condition)
            + seq![' '] + grouped_text(*then_branch) + match else_branch {
            Some(other) => seq![' '] + grouped_text(*other),
            None => Seq::empty(),
        } + seq![')'],
        Expr::WhileLoop { condition, body } => "(while "@ + grouped_text(*condition) + seq![' ']
            + grouped_text(*body) + seq![')'],
        Expr::CallExpr { callee, arguments } => "(call "@ + grouped_text(*callee) + grouped_list(
            arguments@,
            arguments@.len() as int,
        ) + seq![')'],
        Expr::FunctionExpr { name, params, body } => "(fun"@ + match name {
            Some(n) => seq![' '] + n@,
            None => Seq::empty(),
        } + " ("@ + names_text(params@, params@.len() as int) + seq![')'] + grouped_list(
            body@,
            body@.len() as int,
        ) + seq![')'],
        Expr::ReturnStmt(value) => "(return"@ + match value {
            Some(v) => seq![' '] + grouped_text(*v),
            None => Seq::empty(),
        } + seq![')'],
        Expr::PrintStmt(inner) => "(print "@ + grouped_text(*inner) + seq![')'],
        Expr::ExprStmt(inner) => "(expr "@ + grouped_text(*inner) + seq![')'],
    }
}

/// Grouped forms of the first `n` nodes, each after a space.
pub open spec fn grouped_list(es: Seq<Expr>, n: int) -> Seq<char>
    decreases es, n,
{
    if n <= 0 || n > es.len() {
        Seq::empty()
    } else {
        grouped_list(es, n - 1) + seq![' '] + grouped_text(es[n - 1])
    }
}

fn operator_text(t: &Token) -> (s: &'static str)
    ensures
        s@ == op_text(*t),
{
    match t {
        Token::Minus => "-",
        Token::Plus => "+",
        Token::Star => "*",
        Token::Slash => "/",
        Token::Bang => "!",
        Token::BangEqual => "!=",
        Token::EqualEqual => "==",
        Token::Greater => ">",
        Token::GreaterEqual => ">=",
        Token::Less => "<",
        Token::LessEqual => "<=",
        Token::And => "and",
        Token::Or => "or",
        _ => "?",
    }
}

fn token_name(t: &Token) -> (s: &'static str)
    ensures
        s@ == op_name(*t),
{
    match t {
        Token::Minus => "Minus",
        Token::Plus => "Plus",
        Token::Star => "Star",
        Token::Slash => "Slash",
        Token::Bang => "Bang",
        Token::BangEqual => "BangEqual",
        Token::EqualEqual => "EqualEqual",
        Token::Greater => "Greater",
        Token::GreaterEqual => "GreaterEqual",
        Token::Less => "Less",
        Token::LessEqual => "LessEqual",
        Token::And => "And",
        Token::Or => "Or",
        _ => "?",
    }
}

fn print_list(es: &Vec<Expr>, sep: &str, out: &mut Vec<char>)
    ensures
        final(out)@ == old(out)@ + list_text(es@, es@.len() as int, sep@),
    decreases es, 1int,
{
    let ghost start = out@;
    let mut i: usize = 0;
    while i < es.len()
        invariant
            i <= es@.len(),
            out@ == start + list_text(es@, i as int, sep@),
        decreases es@.len() - i,
    {
        proof {
            assert(decreases_to!(es => es@[i as int]));
        }
        let ghost before = out@;
        if i > 0 {
            append_chars(out, sep);
        }
        print_into(&es[i], out);
        i = i + 1;
        proof {
            if i == 1 {
                assert(out@ =~= start + list_text(es@, i as int, sep@));
            } else {
                assert(out@ =~= start + list_text(es@, i as int, sep@));
            }
        }
    }
    assert(out@ =~= old(out)@ + list_text(es@, es@.len() as int, sep@));
}

fn print_names(names: &Vec<String>, out: &mut Vec<char>)
    ensures
        final(out)@ == old(out)@ + names_text(names@, names@.len() as int),
{
    let ghost start = out@;
    let mut i: usize = 0;
    while i < names.len()
        invariant
            i <= names@.len(),
            out@ == start + names_text(names@, i as int),
        decreases names@.len() - i,
    {
        if i > 0 {
            append_chars(out, ", ");
        }
        append_chars(out, names[i].as_str());
        i = i + 1;
        assert(out@ =~= start + names_text(names@, i as int));
    }
}

fn push_str(out: &mut Vec<char>, s: &String)
    ensures
        final(out)@ == old(out)@ + s@,
{
    append_chars(out, s.as_str());
}

/// Appends the source text of `e`.
pub fn print_into(e: &Expr, out: &mut Vec<char>)
    ensures
        final(out)@ == old(out)@ + source_text(*e),
    decreases e, 0int,
{
    let ghost start = out@;
    match e {
        Expr::LiteralExpr(l) => match l {
            ExprLiteralValue::StringLiteral(s) => {
                out.push('"');
                push_str(out, s);
                out.push('"');
            },
            ExprLiteralValue::NumberLiteral(n) => {
                let text = n.to_text();
                let mut k: usize = 0;
                while k < text.len()
                    invariant
                        k <= text@.len(),
                        out@ == start + text@.take(k as int),
                    decreases text@.len() - k,
                {
                    out.push(text[k]);
                    k = k + 1;
                    assert(out@ =~= start + text@.take(k as int));
                }
                assert(text@.take(text@.len() as int) =~= text@);
            },
            ExprLiteralValue::BooleanLiteral(b) => {
                if *b {
                    append_chars(out, "true");
                } else {
                    append_chars(out, "false");
                }
            },
            ExprLiteralValue::NilLiteral => append_chars(out, "nil"),
        },
        Expr::GroupingExpr(inner) => {
            out.push('(');
            print_into(inner, out);
            out.push(')');
        },
        Expr::UnaryExpr { operator, right } => {
            append_chars(out, operator_text(operator));
            out.push(' ');
            print_into(right, out);
        },
        Expr::BinaryExpr { left, operator, right } | Expr::LogicalExpr { left, operator, right } => {
            print_into(left, out);
            out.push(' ');
            append_chars(out, operator_text(operator));
            out.push(' ');
            print_into(right, out);
        },
        Expr::VariableExpr(name) => push_str(out, name),
        Expr::AssignmentExpr { name, value } => {
            push_str(out, name);
            append_chars(out, " = ");
            print_into(value, out);
        },
        Expr::VarDecl { name, initializer } => {
            append_chars(out, "var ");
            push_str(out, name);
            match initializer {
                Some(init) => {
                    append_chars(out, " = ");
                    print_into(init, out);
                },
                None => {},
            }
            out.push(';');
        },
        Expr::BlockStmt(stmts) => {
            append_chars(out, "{ ");
            print_list(stmts, " ", out);
            append_chars(out, " }");
        },
        Expr::IfStmt { condition, then_branch, else_branch } => {
            append_chars(out, "if (");
            print_into(condition, out);
            append_chars(out, ") ");
            print_into(then_branch, out);
            match else_branch {
                Some(other) => {
                    append_chars(out, " else ");
                    print_into(other, out);
                },
                None => {},
            }
        },
        Expr::WhileLoop { condition, body } => {
            append_chars(out, "while (");
            print_into(condition, out);
            append_chars(out, ") ");
            print_into(body, out);
        },
        Expr::CallExpr { callee, arguments } => {
            print_into(callee, out);
            out.push('(');
            print_list(arguments, ", ", out);
            out.push(')');
        },
        Expr::FunctionExpr { name, params, body } => {
            append_chars(out, "fun ");
            match name {
                Some(n) => push_str(out, n),
                None => {},
            }
            out.push('(');
            print_names(params, out);
            append_chars(out, ") { ");
            print_list(body, " ", out);
            append_chars(out, " }");
        },
        Expr::ReturnStmt(value) => {
            append_chars(out, "return");
            match value {
                Some(v) => {
                    out.push(' ');
                    print_into(v, out);
                },
                None => {},
            }
            out.push(';');
        },
        Expr::PrintStmt(inner) => {
            append_chars(out, "print ");
            print_into(inner, out);
            out.push(';');
        },
        Expr::ExprStmt(inner) => {
            print_into(inner, out);
            out.push(';');
        },
    }
    assert(out@ =~= start + source_text(*e));
}

/// Source text of one node.
pub fn print(e: &Expr) -> (s: String)
    ensures
        s@ == source_text(*e),
{
    let mut out: Vec<char> = Vec::new();
    print_into(e, &mut out);
    assert(out@ =~= source_text(*e));
    string_of(&out)
}

/// Source text of a program: its declarations separated by newlines.
pub fn print_program(stmts: &Vec<Expr>) -> (s: String)
    ensures
        s@ == list_text(stmts@, stmts@.len() as int, "\n"@),
{
    let mut out: Vec<char> = Vec::new();
    print_list(stmts, "\n", &mut out);
    assert(out@ =~= list_text(stmts@, stmts@.len() as int, "\n"@));
    string_of(&out)
}

fn grouped_items(es: &Vec<Expr>, out: &mut Vec<char>)
    ensures
        final(out)@ == old(out)@ + grouped_list(es@, es@.len() as int),
    decreases es, 1int,
{
    let ghost start = out@;
    let mut i: usize = 0;
    while i < es.len()
        invariant
            i <= es@.len(),
            out@ == start + grouped_list(es@, i as int),
        decreases es@.len() - i,
    {
        proof {
            assert(decreases_to!(es => es@[i as int]));
        }
        out.push(' ');
        grouped_into(&es[i], out);
        i = i + 1;
        assert(out@ =~= start + grouped_list(es@, i as int));
    }
}

/// Appends the fully parenthesized form of `e`.
pub fn grouped_into(e: &Expr, out: &mut Vec<char>)
    ensures
        final(out)@ == old(out)@ + grouped_text(*e),
    decreases e, 0int,
{
    let ghost start = out@;
    match e {
        Expr::LiteralExpr(_) | Expr::VariableExpr(_) => print_into(e, out),
        Expr::GroupingExpr(inner) => {
            append_chars(out, "(group ");
            grouped_into(inner, out);
            out.push(')');
        },
        Expr::UnaryExpr { operator, right } => {
            out.push('(');
            append_chars(out, token_name(operator));
            out.push(' ');
            grouped_into(right, out);
            out.push(')');
        },
        Expr::BinaryExpr { left, operator, right } | Expr::LogicalExpr { left, operator, right } => {
            out.push('(');
            grouped_into(left, out);
            out.push(' ');
            append_chars(out, token_name(operator));
            out.push(' ');
            grouped_into(right, out);
            out.push(')');
        },
        Expr::AssignmentExpr { name, value } => {
            append_chars(out, "(assign ");
            push_str(out, name);
            out.push(' ');
            grouped_into(value, out);
            out.push(')');
        },
        Expr::VarDecl { name, initializer } => {
            append_chars(out, "(var ");
            push_str(out, name);
            match initializer {
                Some(init) => {
                    out.push(' ');
                    grouped_into(init, out);
                },
                None => {},
            }
            out.push(')');
        },
        Expr::BlockStmt(stmts) => {
            append_chars(out, "(block");
            grouped_items(stmts, out);
            out.push(')');
        },
        Expr::IfStmt { condition, then_branch, else_branch } => {
            append_chars(out, "(if ");
            grouped_into(condition, out);
            out.push(' ');
            grouped_into(then_branch, out);
            match else_branch {
                Some(other) => {
                    out.push(' ');
                    grouped_into(other, out);
                },
                None => {},
            }
            out.push(')');
        },
        Expr::WhileLoop { condition, body } => {
            append_chars(out, "(while ");
            grouped_into(condition, out);
            out.push(' ');
            grouped_into(body, out);
            out.push(')');
        },
        Expr::CallExpr { callee, arguments } => {
            append_chars(out, "(call ");
            grouped_into(callee, out);
            grouped_items(arguments, out);
            out.push(')');
        },
        Expr::FunctionExpr { name, params, body } => {
            append_chars(out, "(fun");
            match name {
                Some(n) => {
                    out.push(' ');
                    push_str(out, n);
                },
                None => {},
            }
            append_chars(out, " (");
            print_names(params, out);
            out.push(')');
            grouped_items(body, out);
            out.push(')');
        },
        Expr::ReturnStmt(value) => {
            append_chars(out, "(return");
            match value {
                Some(v) => {
                    out.push(' ');
                    grouped_into(v, out);
                },
                None => {},
            }
            out.push(')');
        },
        Expr::PrintStmt(inner) => {
            append_chars(out, "(print ");
            grouped_into(inner, out);
            out.push(')');
        },
        Expr::ExprStmt(inner) => {
            append_chars(out, "(expr ");
            grouped_into(inner, out);
            out.push(')');
        },
    }
    assert(out@ =~= start + grouped_text(*e));
}

/// The fully parenthesized form of one node.
pub fn print_ast_grouped(e: &Expr) -> (s: String)
    ensures
        s@ == grouped_text(*e),
{
    let mut out: Vec<char> = Vec::new();
    grouped_into(e, &mut out);
    assert(out@ =~= grouped_text(*e));
    string_of(&out)
}

} // verus!
