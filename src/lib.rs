//! A tree-walking interpreter for a small dynamically typed, block-scoped
//! scripting language: scanner, recursive-descent parser, scope chain and
//! evaluator, each with its contract.
pub mod number;
pub mod token;
pub mod scanner;
pub mod ast;
pub mod value;
pub mod environment;
pub mod grammar;
pub mod trees;
pub mod parser;
pub mod interpreter;
pub mod printer;

pub use ast::{Expr, ExprLiteralValue};
pub use environment::ScopeEnvironment;
pub use interpreter::{Interpreter, SourceError, run_source};
pub use number::Number;
pub use parser::{ParseError, Parser, parse};
pub use printer::{print, print_ast_grouped, print_program};
pub use scanner::{LexicalError, Scanner, scan};
pub use token::{LiteralTokenType, Token, TokenContext};
pub use value::{ErrorKind, InterpreterError, Value};
