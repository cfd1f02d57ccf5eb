//! The tree-walking evaluator: scopes entered and left on every path,
//! `return` as its own signal, and the meaning of side-effect-free code.
use vstd::prelude::*;
use crate::ast::{Expr, clone_exprs};
use crate::environment::{EnvModel, ScopeEnvironment, root_env};
use crate::parser::{ParseError, parse};
use crate::grammar::program_ok;
use crate::trees::program_is;
use crate::scanner::{LexicalError, scan, scanned, token_ranges};
use crate::token::TokenContext;
use crate::token::Token;
use crate::value::{
    Closure,
    ErrorKind,
    InterpreterError,
    Value,
    binary_op,
    display,
    fail,
    is_truthy,
    literal_value,
    unary_op,
    value_of_literal,
    appended,
    ValueModel,
    binary_outcome,
    display_text,
    truthy_model,
    unary_outcome,
};

verus! {

/// Deepest nesting of function calls a program may reach. Each level takes
/// native stack, so a host runs programs on a stack sized for this depth.
pub const MAX_CALL_DEPTH: u64 = 10000;

broadcast use {crate::value::lemma_appended_trans, crate::value::lemma_appended_refl};

/// How evaluation of a node ended: normally with a value, or by a `return`
/// that unwinds to the nearest call.
#[derive(Debug)]
pub enum Flow {
    Normal(Value),
    Return(Value),
}

/// Why running a source text stopped.
#[derive(Debug)]
pub enum SourceError {
    Lexical(LexicalError),
    Parse(Vec<ParseError>),
    Runtime(InterpreterError),
}

/// A copy of a runtime value.
pub fn clone_value(v: &Value) -> (r: Value)
    ensures
        r.model() == v.model(),
        *v is Nil ==> r is Nil,
        *v matches Value::Bool(b) ==> r == Value::Bool(b),
        *v matches Value::Number(n) ==> r == Value::Number(n),
        *v matches Value::Str(s) ==> r == Value::Str(s),
{
    match v {
        Value::Nil => Value::Nil,
        Value::Bool(b) => Value::Bool(*b),
        Value::Number(n) => Value::Number(*n),
        Value::Str(s) => Value::Str(s.clone()),
        Value::Function(c) => Value::Function(
            Box::new(
                Closure {
                    name: c.name.clone(),
                    params: c.params.clone(),
                    body: clone_exprs(&c.body),
                    scope: c.scope,
                },
            ),
        ),
    }
}

/// Expressions without side effects: literals, groupings, operators and
/// variable reads.
pub open spec fn is_pure(e: Expr) -> bool
    decreases e,
{
    match e {
        Expr::LiteralExpr(_) => true,
        Expr::VariableExpr(_) => true,
        Expr::GroupingExpr(inner) => is_pure(*inner),
        Expr::UnaryExpr { right, .. } => is_pure(*right),
        Expr::BinaryExpr { left, right, .. } => is_pure(*left) && is_pure(*right),
        Expr::LogicalExpr { left, right, .. } => is_pure(*left) && is_pure(*right),
        _ => false,
    }
}

/// The value of a side-effect-free expression in a scope chain: operands
/// left to right, `and` / `or` with short circuit, the first error wins.
pub open spec fn eval_pure(env: EnvModel, e: Expr) -> Result<ValueModel, ErrorKind>
    decreases e,
{
    match e {
        Expr::LiteralExpr(l) => Ok(literal_value(l).model()),
        Expr::VariableExpr(name) => match env.lookup(name@) {
            Some(v) => Ok(v),
            None => Err(ErrorKind::UndefinedVariable),
        },
        Expr::GroupingExpr(inner) => eval_pure(env, *inner),
        Expr::UnaryExpr { operator, right } => match eval_pure(env, *right) {
            Ok(v) => unary_outcome(operator, v),
            Err(k) => Err(k),
        },
        Expr::BinaryExpr { left, operator, right } => match eval_pure(env, *left) {
            Ok(l) => match eval_pure(env, *right) {
                Ok(r) => binary_outcome(operator, l, r),
                Err(k) => Err(k),
            },
            Err(k) => Err(k),
        },
        Expr::LogicalExpr { left, operator, right } => {
            if !(operator is Or || operator is And) {
                Err(ErrorKind::InvalidOperator)
            } else {
                match eval_pure(env, *left) {
                    Ok(l) => if truthy_model(l) == (operator is Or) {
                        Ok(l)
                    } else {
                        eval_pure(env, *right)
                    },
                    Err(k) => Err(k),
                }
            }
        },
        _ => Err(ErrorKind::InvalidOperator),
    }
}

/// `r` is the outcome `m` of a side-effect-free evaluation.
pub open spec fn flow_matches(r: Result<Flow, InterpreterError>, m: Result<ValueModel, ErrorKind>) -> bool {
    match r {
        Ok(Flow::Normal(v)) => m == Ok::<ValueModel, ErrorKind>(v.model()),
        Ok(Flow::Return(_)) => false,
        Err(e) => m == Err::<ValueModel, ErrorKind>(e.kind),
    }
}

/// What evaluating `expr` promises beyond `step_kept`: side-effect-free
/// expressions yield `eval_pure` and change nothing; `print`, expression
/// statements, declarations and assignments of such expressions do exactly
/// their one effect.
pub open spec fn eval_post(
    expr: Expr,
    old_env: EnvModel,
    new_env: EnvModel,
    old_out: Seq<String>,
    new_out: Seq<String>,
    r: Result<Flow, InterpreterError>,
) -> bool {
    &&& is_pure(expr) ==> {
        &&& flow_matches(r, eval_pure(old_env, expr))
        &&& new_env == old_env
        &&& new_out == old_out
    }
    &&& match expr {
        Expr::ExprStmt(inner) => is_pure(*inner) ==> {
            &&& flow_matches(r, eval_pure(old_env, *inner))
            &&& new_env == old_env
            &&& new_out == old_out
        },
        Expr::PrintStmt(inner) => is_pure(*inner) ==> {
            &&& new_env == old_env
            &&& match eval_pure(old_env, *inner) {
                Ok(m) => {
                    &&& r matches Ok(Flow::Normal(v)) && v is Nil
                    &&& new_out.len() == old_out.len() + 1
                    &&& new_out.subrange(0, old_out.len() as int) == old_out
                    &&& new_out.last()@ == display_text(m)
                },
                Err(k) => r matches Err(e) && e.kind == k && new_out == old_out,
            }
        },
        Expr::VarDecl { name, initializer: Some(init) } => is_pure(*init) ==> {
            &&& new_out == old_out
            &&& match eval_pure(old_env, *init) {
                Ok(m) => match r {
                    Ok(_) => old_env.declare(name@, m) == Some(new_env),
                    Err(e) => e.kind == ErrorKind::AlreadyDeclared && new_env == old_env
                        && old_env.declare(name@, m) is None,
                },
                Err(k) => r matches Err(e) && e.kind == k && new_env == old_env,
            }
        },
        Expr::AssignmentExpr { name, value } => is_pure(*value) ==> {
            &&& new_out == old_out
            &&& match eval_pure(old_env, *value) {
                Ok(m) => match r {
                    Ok(Flow::Normal(v)) => v.model() == m && old_env.assign(name@, m) == Some(new_env),
                    Ok(Flow::Return(_)) => false,
                    Err(e) => e.kind == ErrorKind::UndefinedVariable && new_env == old_env
                        && old_env.resolve(old_env.current, name@) is None,
                },
                Err(k) => r matches Err(e) && e.kind == k && new_env == old_env,
            }
        },
        Expr::IfStmt { condition, else_branch, .. } => is_pure(*condition) ==> match eval_pure(
            old_env,
            *condition,
        ) {
            Ok(m) => (!truthy_model(m) && else_branch is None) ==> (r matches Ok(Flow::Normal(v))
                && v is Nil && new_env == old_env && new_out == old_out),
            Err(k) => r matches Err(e) && e.kind == k && new_env == old_env && new_out == old_out,
        },
        Expr::WhileLoop { condition, .. } => is_pure(*condition) ==> match eval_pure(
            old_env,
            *condition,
        ) {
            Ok(m) => !truthy_model(m) ==> new_env == old_env && new_out == old_out && match r {
                Ok(Flow::Normal(v)) => v is Nil,
                Err(e) => e.kind == ErrorKind::StepLimitExceeded,
                _ => false,
            },
            Err(k) => new_env == old_env && new_out == old_out && match r {
                Err(e) => e.kind == k || e.kind == ErrorKind::StepLimitExceeded,
                _ => false,
            },
        },
        Expr::LogicalExpr { left, operator, right } => (is_pure(*left) && (operator is Or
            || operator is And)) ==> match eval_pure(old_env, *left) {
            Ok(m) => truthy_model(m) == (operator is Or) ==> (r matches Ok(Flow::Normal(v))
                && v.model() == m && new_env == old_env && new_out == old_out),
            Err(k) => r matches Err(e) && e.kind == k && new_env == old_env && new_out == old_out,
        },
        Expr::FunctionExpr { name: Some(name), .. } => {
            &&& new_out == old_out
            &&& new_env.current == old_env.current
            &&& r is Ok ==> match new_env.lookup(name@) {
                Some(ValueModel::Function(n, _)) => n == Some(name@),
                _ => false,
            }
            &&& r matches Err(e) ==> e.kind == ErrorKind::AlreadyDeclared
        },
        _ => true,
    }
}

/// Statements whose whole effect is stated by `simple_effect`: expression,
/// assignment, `print` and `var` statements over side-effect-free
/// expressions, and blocks and `if` statements made of such statements.
pub open spec fn is_simple(e: Expr) -> bool
    decreases e, 0int,
{
    match e {
        Expr::ExprStmt(inner) => match *inner {
            Expr::AssignmentExpr { value, .. } => is_pure(*value),
            other => is_pure(other),
        },
        Expr::PrintStmt(inner) => is_pure(*inner),
        Expr::VarDecl { initializer, .. } => match initializer {
            Some(init) => is_pure(*init),
            None => true,
        },
        Expr::BlockStmt(stmts) => simple_list(stmts@, 0),
        Expr::IfStmt { condition, then_branch, else_branch } => is_pure(*condition) && is_simple(
            *then_branch,
        ) && match else_branch {
            Some(other) => is_simple(*other),
            None => true,
        },
        _ => false,
    }
}

/// Every statement of `es` from index `i` on is simple.
pub open spec fn simple_list(es: Seq<Expr>, i: int) -> bool
    decreases es, es.len() - i,
{
    if i < 0 || i >= es.len() {
        true
    } else {
        is_simple(es[i]) && simple_list(es, i + 1)
    }
}

/// The scope chain after leaving the newest scope for `prev`.
pub open spec fn exit_scope(m: EnvModel, prev: int) -> EnvModel {
    EnvModel { scopes: m.scopes.drop_last(), current: prev }
}

/// What a run ends with: success or the kind of the first error, the scope
/// chain, and the printed lines.
pub type Effect = (Result<(), ErrorKind>, EnvModel, Seq<Seq<char>>);

/// The effect of a simple statement.
pub open spec fn simple_effect(env: EnvModel, e: Expr) -> Effect
    decreases e, 0int,
{
    match e {
        Expr::ExprStmt(inner) => match *inner {
            Expr::AssignmentExpr { name, value } => match eval_pure(env, *value) {
                Ok(m) => match env.assign(name@, m) {
                    Some(e2) => (Ok(()), e2, Seq::empty()),
                    None => (Err(ErrorKind::UndefinedVariable), env, Seq::empty()),
                },
                Err(k) => (Err(k), env, Seq::empty()),
            },
            other => match eval_pure(env, other) {
                Ok(_) => (Ok(()), env, Seq::empty()),
                Err(k) => (Err(k), env, Seq::empty()),
            },
        },
        Expr::PrintStmt(inner) => match eval_pure(env, *inner) {
            Ok(m) => (Ok(()), env, seq![display_text(m)]),
            Err(k) => (Err(k), env, Seq::empty()),
        },
        Expr::VarDecl { name, initializer } => {
            let v = match initializer {
                Some(init) => eval_pure(env, *init),
                None => Ok(ValueModel::Nil),
            };
            match v {
                Ok(m) => match env.declare(name@, m) {
                    Some(e2) => (Ok(()), e2, Seq::empty()),
                    None => (Err(ErrorKind::AlreadyDeclared), env, Seq::empty()),
                },
                Err(k) => (Err(k), env, Seq::empty()),
            }
        },
        Expr::BlockStmt(stmts) => {
            let r = simple_seq(env.enter_child(), stmts@, 0);
            (r.0, exit_scope(r.1, env.current), r.2)
        },
        Expr::IfStmt { condition, then_branch, else_branch } => match eval_pure(env, *condition) {
            Ok(m) => if truthy_model(m) {
                simple_effect(env, *then_branch)
            } else {
                match else_branch {
                    Some(other) => simple_effect(env, *other),
                    None => (Ok(()), env, Seq::empty()),
                }
            },
            Err(k) => (Err(k), env, Seq::empty()),
        },
        _ => (Ok(()), env, Seq::empty()),
    }
}

/// The effect of running `es` from index `i` on, in order, stopping at the
/// first error.
pub open spec fn simple_seq(env: EnvModel, es: Seq<Expr>, i: int) -> Effect
    decreases es, es.len() - i,
{
    if i < 0 || i >= es.len() {
        (Ok(()), env, Seq::empty())
    } else {
        let r1 = simple_effect(env, es[i]);
        if r1.0 is Err {
            r1
        } else {
            let r2 = simple_seq(r1.1, es, i + 1);
            (r2.0, r2.1, r1.2 + r2.2)
        }
    }
}

/// The printed lines as character sequences.
pub open spec fn lines(out: Seq<String>) -> Seq<Seq<char>> {
    out.map_values(|s: String| s@)
}

/// `r`, the new scope chain and the new output are the effect `eff`.
pub open spec fn effect_matches(
    eff: Effect,
    new_env: EnvModel,
    old_out: Seq<String>,
    new_out: Seq<String>,
    r: Result<Flow, InterpreterError>,
) -> bool {
    &&& new_env == eff.1
    &&& lines(new_out) == lines(old_out) + eff.2
    &&& match eff.0 {
        Ok(_) => r matches Ok(Flow::Normal(_)),
        Err(k) => r matches Err(e) && e.kind == k,
    }
}

/// Evaluating a simple statement has exactly its stated effect.
pub open spec fn simple_post(
    expr: Expr,
    old_env: EnvModel,
    new_env: EnvModel,
    old_out: Seq<String>,
    new_out: Seq<String>,
    r: Result<Flow, InterpreterError>,
) -> bool {
    is_simple(expr) ==> effect_matches(simple_effect(old_env, expr), new_env, old_out, new_out, r)
}

/// A run of a whole source ended as `eff` says: the scope chain, the
/// printed lines, and success or the runtime error's kind.
pub open spec fn runs_as(
    eff: Effect,
    new_env: EnvModel,
    old_out: Seq<String>,
    new_out: Seq<String>,
    r: Result<Vec<String>, SourceError>,
) -> bool {
    &&& new_env == eff.1
    &&& lines(new_out) == lines(old_out) + eff.2
    &&& match eff.0 {
        Ok(_) => r is Ok,
        Err(k) => r matches Err(SourceError::Runtime(e)) && e.kind == k,
    }
}

/// Two scope chains with the same scopes, parents, capture marks and
/// current scope (bindings may differ).
pub open spec fn same_shape(a: EnvModel, b: EnvModel) -> bool {
    &&& a.scopes.len() == b.scopes.len()
    &&& a.current == b.current
    &&& forall|i: int|
        0 <= i < a.scopes.len() ==> (#[trigger] a.scopes[i]).parent == b.scopes[i].parent
            && a.scopes[i].captured == b.scopes[i].captured
}

proof fn lemma_simple_shape(env: EnvModel, e: Expr)
    requires
        env.wf(),
        is_simple(e),
    ensures
        same_shape(env, simple_effect(env, e).1),
        simple_effect(env, e).1.wf(),
    decreases e, 0int,
{
    match e {
        Expr::BlockStmt(stmts) => {
            let c = env.enter_child();
            lemma_simple_seq_shape(c, stmts@, 0);
            let r = simple_seq(c, stmts@, 0);
            let x = exit_scope(r.1, env.current);
            assert forall|i: int| 0 <= i < x.scopes.len() implies (#[trigger] x.scopes[i].parent
                matches Some(p) ==> 0 <= p < i) by {
                assert(x.scopes[i] == r.1.scopes[i]);
                assert(r.1.scopes[i].parent == c.scopes[i].parent);
            }
            assert forall|i: int| 0 <= i < env.scopes.len() implies (#[trigger] env.scopes[i]).parent
                == x.scopes[i].parent && env.scopes[i].captured == x.scopes[i].captured by {
                assert(x.scopes[i] == r.1.scopes[i]);
                assert(r.1.scopes[i].parent == c.scopes[i].parent);
            }
        },
        Expr::IfStmt { condition, then_branch, else_branch } => {
            lemma_simple_shape(env, *then_branch);
            if let Some(other) = else_branch {
                lemma_simple_shape(env, *other);
            }
        },
        Expr::ExprStmt(inner) => {
            if let Expr::AssignmentExpr { name, value } = *inner {
                if let Ok(m) = eval_pure(env, *value) {
                    env.lemma_assign_shape(name@, m);
                }
            }
        },
        Expr::VarDecl { name, initializer } => {
            let v = match initializer {
                Some(init) => eval_pure(env, *init),
                None => Ok(ValueModel::Nil),
            };
            if let Ok(m) = v {
                env.lemma_declare_shape(name@, m);
            }
        },
        _ => {},
    }
}

proof fn lemma_simple_seq_shape(env: EnvModel, es: Seq<Expr>, i: int)
    requires
        env.wf(),
        simple_list(es, i),
    ensures
        same_shape(env, simple_seq(env, es, i).1),
        simple_seq(env, es, i).1.wf(),
    decreases es, es.len() - i,
{
    if 0 <= i < es.len() {
        lemma_simple_shape(env, es[i]);
        let r1 = simple_effect(env, es[i]);
        if !(r1.0 is Err) {
            lemma_simple_seq_shape(r1.1, es, i + 1);
        }
    }
}

/// Every expression of `es` is side-effect free.
pub open spec fn all_pure(es: Seq<Expr>) -> bool {
    forall|i: int| 0 <= i < es.len() ==> is_pure(#[trigger] es[i])
}

/// The values of the first `n` argument expressions, left to right; the
/// first error wins.
pub open spec fn eval_args(env: EnvModel, es: Seq<Expr>, n: int) -> Result<Seq<ValueModel>, ErrorKind>
    decreases n,
{
    if n <= 0 {
        Ok(Seq::empty())
    } else {
        match eval_args(env, es, n - 1) {
            Ok(vs) => match eval_pure(env, es[n - 1]) {
                Ok(v) => Ok(vs.push(v)),
                Err(k) => Err(k),
            },
            Err(k) => Err(k),
        }
    }
}

proof fn lemma_eval_args_err(env: EnvModel, es: Seq<Expr>, j: int, n: int)
    requires
        0 <= j <= n,
        eval_args(env, es, j) is Err,
    ensures
        eval_args(env, es, n) == eval_args(env, es, j),
    decreases n,
{
    if n > j {
        lemma_eval_args_err(env, es, j, n - 1);
    }
}

/// `r` is the error of kind `k`, with nothing changed.
pub open spec fn failed_cleanly(
    k: ErrorKind,
    old_env: EnvModel,
    new_env: EnvModel,
    old_out: Seq<String>,
    new_out: Seq<String>,
    r: Result<Flow, InterpreterError>,
) -> bool {
    r matches Err(e) && e.kind == k && new_env == old_env && new_out == old_out
}

/// A call whose callee and arguments are side-effect free fails, changing
/// nothing, when one of them fails; calling a value that is not a function
/// is `NotCallable`; at depth zero a call is `CallDepthExceeded`; a wrong
/// number of arguments is `ArityMismatch`.
pub open spec fn call_post(
    expr: Expr,
    depth: u64,
    old_env: EnvModel,
    new_env: EnvModel,
    old_out: Seq<String>,
    new_out: Seq<String>,
    r: Result<Flow, InterpreterError>,
) -> bool {
    match expr {
        Expr::CallExpr { callee, arguments } => (is_pure(*callee) && all_pure(arguments@)) ==> match eval_pure(old_env, *callee) {
            Err(k) => failed_cleanly(k, old_env, new_env, old_out, new_out, r),
            Ok(f) => match eval_args(old_env, arguments@, arguments@.len() as int) {
                Err(k) => failed_cleanly(k, old_env, new_env, old_out, new_out, r),
                Ok(vs) => match f {
                    ValueModel::Function(_, arity) => {
                        &&& depth == 0 ==> failed_cleanly(ErrorKind::CallDepthExceeded, old_env, new_env, old_out, new_out, r)
                        &&& (depth > 0 && arity != vs.len()) ==> failed_cleanly(ErrorKind::ArityMismatch, old_env, new_env, old_out, new_out, r)
                    },
                    _ => failed_cleanly(ErrorKind::NotCallable, old_env, new_env, old_out, new_out, r),
                },
            },
        },
        _ => true,
    }
}

/// The tree-walking evaluator: the scope chain and the budget of loop
/// iterations still allowed.
pub struct Interpreter {
    pub scope: ScopeEnvironment,
    pub budget: u64,
}

impl Interpreter {
    pub open spec fn wf(&self) -> bool {
        self.scope.wf()
    }

    /// What every evaluation step keeps: the scope chain is well formed, the
    /// current scope is the one it started in, no scope that existed before
    /// was released, and output only grows.
    pub open spec fn step_kept(
        old: &Interpreter,
        new: &Interpreter,
        old_out: Seq<String>,
        new_out: Seq<String>,
    ) -> bool {
        &&& new.wf()
        &&& new.scope.current_idx == old.scope.current_idx
        &&& new.scope.scopes@.len() >= old.scope.scopes@.len()
        &&& new.budget <= old.budget
        &&& appended(old_out, new_out)
    }

    /// An interpreter with an empty global scope.
    pub fn default() -> (i: Interpreter)
        ensures
            i.wf(),
            i.scope.model().scopes.len() == 1,
            i.scope.model().scopes[0].vars.len() == 0,
            i.scope.model() == root_env(),
    {
        Interpreter { scope: ScopeEnvironment::new_root(), budget: u64::MAX }
    }

    /// An interpreter over an existing scope chain.
    pub fn with_env(env: ScopeEnvironment) -> (i: Interpreter)
        requires
            env.wf(),
        ensures
            i.wf(),
            i.scope == env,
    {
        Interpreter { scope: env, budget: u64::MAX }
    }

    pub fn get_scope(&self) -> (s: &ScopeEnvironment)
        ensures
            *s == self.scope,
    {
        &self.scope
    }

    /// Evaluates `expr` to its value, propagating a `return`.
    fn eval_value(&mut self, expr: &Expr, depth: u64, out: &mut Vec<String>) -> (r: Result<
        Flow,
        InterpreterError,
    >)
        requires
            old(self).wf(),
        ensures
            Interpreter::step_kept(&*old(self), &*final(self), old(out)@, final(out)@),
            eval_post(*expr, old(self).scope.model(), final(self).scope.model(), old(out)@, final(out)@, r),
            simple_post(*expr, old(self).scope.model(), final(self).scope.model(), old(out)@, final(out)@, r),
            call_post(*expr, depth, old(self).scope.model(), final(self).scope.model(), old(out)@, final(out)@, r),
        decreases depth, expr, 1nat,
    {
        self.eval(expr, depth, out)
    }

    /// Evaluates one node. Blocks and calls run in a fresh scope that is left
    /// again on every path, errors and `return` included.
    pub fn eval(&mut self, expr: &Expr, depth: u64, out: &mut Vec<String>) -> (r: Result<
        Flow,
        InterpreterError,
    >)
        requires
            old(self).wf(),
        ensures
            Interpreter::step_kept(&*old(self), &*final(self), old(out)@, final(out)@),
            *expr matches Expr::LiteralExpr(l) ==> (r matches Ok(Flow::Normal(v)) && v
                == literal_value(l)),
            eval_post(*expr, old(self).scope.model(), final(self).scope.model(), old(out)@, final(out)@, r),
            simple_post(*expr, old(self).scope.model(), final(self).scope.model(), old(out)@, final(out)@, r),
            call_post(*expr, depth, old(self).scope.model(), final(self).scope.model(), old(out)@, final(out)@, r),
        decreases depth, expr, 0nat,
    {
        proof {
            crate::value::lemma_appended_refl(out@);
            assert(lines(out@) + Seq::<Seq<char>>::empty() =~= lines(out@));
        }
        match expr {
            Expr::LiteralExpr(l) => Ok(Flow::Normal(value_of_literal(l))),
            Expr::GroupingExpr(inner) => self.eval_value(inner, depth, out),
            Expr::UnaryExpr { operator, right } => {
                let v = match self.eval_value(right, depth, out)? {
                    Flow::Normal(v) => v,
                    ret => {
                        return Ok(ret);
                    },
                };
                let res = unary_op(operator, &v)?;
                Ok(Flow::Normal(res))
            },
            Expr::BinaryExpr { left, operator, right } => {
                let l = match self.eval_value(left, depth, out)? {
                    Flow::Normal(v) => v,
                    ret => {
                        return Ok(ret);
                    },
                };
                let r = match self.eval_value(right, depth, out)? {
                    Flow::Normal(v) => v,
                    ret => {
                        return Ok(ret);
                    },
                };
                let res = binary_op(operator, &l, &r)?;
                Ok(Flow::Normal(res))
            },
            Expr::LogicalExpr { left, operator, right } => {
                let is_or = match operator {
                    Token::Or => true,
                    Token::And => false,
                    _ => {
                        return fail(ErrorKind::InvalidOperator, "not a logical operator");
                    },
                };
                let l = match self.eval_value(left, depth, out)? {
                    Flow::Normal(v) => v,
                    ret => {
                        return Ok(ret);
                    },
                };
                if is_truthy(&l) == is_or {
                    Ok(Flow::Normal(l))
                } else {
                    self.eval_value(right, depth, out)
                }
            },
            Expr::VariableExpr(name) => match self.scope.get(name) {
                Some(v) => Ok(Flow::Normal(clone_value(v))),
                None => fail(ErrorKind::UndefinedVariable, "undefined variable"),
            },
            Expr::AssignmentExpr { name, value } => {
                let v = match self.eval_value(value, depth, out)? {
                    Flow::Normal(v) => v,
                    ret => {
                        return Ok(ret);
                    },
                };
                let stored = clone_value(&v);
                self.scope.assign(name, stored)?;
                Ok(Flow::Normal(v))
            },
            Expr::VarDecl { name, initializer } => {
                let v = match initializer {
                    Some(init) => match self.eval_value(init, depth, out)? {
                        Flow::Normal(v) => v,
                        ret => {
                            return Ok(ret);
                        },
                    },
                    None => Value::Nil,
                };
                self.scope.declare(name, v)?;
                Ok(Flow::Normal(Value::Nil))
            },
            Expr::BlockStmt(stmts) => {
                let ghost env0 = self.scope.model();
                let prev = self.scope.new_child();
                let ghost child = self.scope.model();
                let r = self.run_body(stmts, depth, out);
                let ghost inner = self.scope.model();
                self.scope.pop_scope(prev);
                proof {
                    if is_simple(*expr) {
                        lemma_simple_seq_shape(child, stmts@, 0);
                        let eff = simple_seq(child, stmts@, 0);
                        assert(inner == eff.1);
                        assert(child.scopes[child.current].captured == false);
                        assert(inner.scopes[child.current].captured == false);
                        assert(self.scope.model().scopes =~= exit_scope(inner, env0.current).scopes);
                    }
                }
                r
            },
            Expr::IfStmt { condition, then_branch, else_branch } => {
                let c = match self.eval_value(condition, depth, out)? {
                    Flow::Normal(v) => v,
                    ret => {
                        return Ok(ret);
                    },
                };
                if is_truthy(&c) {
                    self.eval_value(then_branch, depth, out)
                } else {
                    match else_branch {
                        Some(e) => self.eval_value(e, depth, out),
                        None => Ok(Flow::Normal(Value::Nil)),
                    }
                }
            },
            Expr::WhileLoop { condition, body } => {
                proof {
                    assert(decreases_to!(*expr => **condition));
                    assert(decreases_to!(*expr => **body));
                }
                let ghost mut first = true;
                loop
                    invariant
                        Interpreter::step_kept(&*old(self), &*self, old(out)@, out@),
                        *expr == (Expr::WhileLoop { condition: *condition, body: *body }),
                        decreases_to!(*expr => **condition),
                        decreases_to!(*expr => **body),
                        first && is_pure(**condition) ==> self.scope.model() == old(self).scope.model()
                            && out@ == old(out)@,
                        !first ==> (is_pure(**condition) ==> (eval_pure(
                            old(self).scope.model(),
                            **condition,
                        ) matches Ok(m) && truthy_model(m))),
                    ensures
                        is_pure(**condition) ==> eval_pure(old(self).scope.model(), **condition) is Ok,
                        first && is_pure(**condition) ==> self.scope.model() == old(self).scope.model()
                            && out@ == old(out)@,
                        !first ==> (is_pure(**condition) ==> (eval_pure(
                            old(self).scope.model(),
                            **condition,
                        ) matches Ok(m) && truthy_model(m))),
                    decreases self.budget,
                {
                    if self.budget == 0 {
                        return fail(ErrorKind::StepLimitExceeded, "loop step limit exceeded");
                    }
                    self.budget = self.budget - 1;

                    let c = match self.eval_value(condition, depth, out)? {
                        Flow::Normal(v) => v,
                        ret => {
                            return Ok(ret);
                        },
                    };
                    if !is_truthy(&c) {
                        assert(first && is_pure(**condition) ==> eval_pure(
                            old(self).scope.model(),
                            **condition,
                        ) == Ok::<ValueModel, ErrorKind>(c.model()));
                        break ;
                    }
                    proof {
                        first = false;
                    }
                    match self.eval_value(body, depth, out)? {
                        Flow::Normal(_) => {},
                        ret => {
                            return Ok(ret);
                        },
                    }
                }
                Ok(Flow::Normal(Value::Nil))
            },
            Expr::CallExpr { callee, arguments } => {
                let f = match self.eval_value(callee, depth, out)? {
                    Flow::Normal(v) => v,
                    ret => {
                        return Ok(ret);
                    },
                };
                let mut args: Vec<Value> = Vec::new();
                let mut i: usize = 0;
                proof {
                    assert(decreases_to!(*expr => *arguments));
                }
                let ghost pure_call = is_pure(**callee) && all_pure(arguments@);
                assert(args@.map_values(|v: Value| v.model()) =~= Seq::<ValueModel>::empty());
                while i < arguments.len()
                    invariant
                        Interpreter::step_kept(&*old(self), &*self, old(out)@, out@),
                        i <= arguments@.len(),
                        *expr == (Expr::CallExpr { callee: *callee, arguments: *arguments }),
                        decreases_to!(*expr => *arguments),
                        pure_call == (is_pure(**callee) && all_pure(arguments@)),
                        pure_call ==> eval_pure(old(self).scope.model(), **callee) == Ok::<ValueModel, ErrorKind>(f.model()),
                        pure_call ==> self.scope.model() == old(self).scope.model() && out@ == old(out)@,
                        pure_call ==> eval_args(old(self).scope.model(), arguments@, i as int) == Ok::<Seq<ValueModel>, ErrorKind>(
                            args@.map_values(|v: Value| v.model()),
                        ),
                    decreases arguments@.len() - i,
                {
                    proof {
                        assert(decreases_to!(*arguments => arguments@[i as int]));
                    }
                    let r_arg = self.eval_value(&arguments[i], depth, out);
                    proof {
                        if pure_call {
                            assert(is_pure(arguments@[i as int]));
                            if r_arg is Err {
                                lemma_eval_args_err(old(self).scope.model(), arguments@, i + 1, arguments@.len() as int);
                            }
                        }
                    }
                    let a = match r_arg? {
                        Flow::Normal(v) => v,
                        ret => {
                            return Ok(ret);
                        },
                    };
                    let ghost before = args@;
                    args.push(a);
                    proof {
                        assert(args@.map_values(|v: Value| v.model()) =~= before.map_values(|v: Value| v.model()).push(a.model()));
                    }
                    i = i + 1;
                }
                let closure = match f {
                    Value::Function(c) => c,
                    _ => {
                        return fail(ErrorKind::NotCallable, "can only call functions");
                    },
                };
                if depth == 0 {
                    return fail(ErrorKind::CallDepthExceeded, "maximum call depth exceeded");
                }
                if closure.params.len() != args.len() {
                    return fail(ErrorKind::ArityMismatch, "wrong number of arguments");
                }
                if closure.scope >= self.scope.scope_count() {
                    return fail(ErrorKind::UndefinedVariable, "closure scope no longer exists");
                }
                let prev = self.scope.enter_child_of(closure.scope);
                let r = self.call_in_scope(&closure, args, depth - 1, out);
                self.scope.pop_scope(prev);
                match r {
                    Ok(Flow::Normal(_)) => Ok(Flow::Normal(Value::Nil)),
                    Ok(Flow::Return(v)) => Ok(Flow::Normal(v)),
                    Err(e) => Err(e),
                }
            },
            Expr::FunctionExpr { name, params, body } => {
                let cname = match name {
                    Some(n) => Some(n.clone()),
                    None => None,
                };
                let closure = Closure {
                    name: cname,
                    params: params.clone(),
                    body: clone_exprs(body),
                    scope: self.scope.current(),
                };
                self.scope.capture_current();
                let f = Value::Function(Box::new(closure));
                match name {
                    Some(n) => {
                        let ghost before = self.scope.model();
                        let ghost fv = f;
                        self.scope.declare(n, f)?;
                        proof {
                            crate::environment::law_redeclare_fails_shadowing_succeeds(
                                before,
                                n@,
                                fv.model(),
                                fv.model(),
                            );
                        }
                        Ok(Flow::Normal(Value::Nil))
                    },
                    None => Ok(Flow::Normal(f)),
                }
            },
            Expr::ReturnStmt(value) => {
                let v = match value {
                    Some(e) => match self.eval_value(e, depth, out)? {
                        Flow::Normal(v) => v,
                        ret => {
                            return Ok(ret);
                        },
                    },
                    None => Value::Nil,
                };
                Ok(Flow::Return(v))
            },
            Expr::PrintStmt(inner) => {
                let v = match self.eval_value(inner, depth, out)? {
                    Flow::Normal(v) => v,
                    ret => {
                        return Ok(ret);
                    },
                };
                let line = display(&v);
                let ghost before = out@;
                proof {
                    crate::value::lemma_appended_push(out@, line);
                }
                out.push(line);
                proof {
                    assert(lines(out@) =~= lines(before) + seq![line@]);
                    if is_pure(**inner) {
                        assert(lines(out@) =~= lines(old(out)@) + seq![line@]);
                    }
                }
                Ok(Flow::Normal(Value::Nil))
            },
            Expr::ExprStmt(inner) => self.eval_value(inner, depth, out),
        }
    }

    /// Binds the parameters to the arguments in the current (fresh) scope
    /// and runs the function body there.
    fn call_in_scope(
        &mut self,
        closure: &Closure,
        args: Vec<Value>,
        depth: u64,
        out: &mut Vec<String>,
    ) -> (r: Result<Flow, InterpreterError>)
        requires
            old(self).wf(),
            closure.params@.len() == args@.len(),
        ensures
            Interpreter::step_kept(&*old(self), &*final(self), old(out)@, final(out)@),
        decreases depth, closure.body, 2nat,
    {
        let n = closure.params.len();
        let mut rest = args;
        let mut bound: Vec<Value> = Vec::new();
        while rest.len() > 0
            invariant
                rest@.len() + bound@.len() == n,
            decreases rest@.len(),
        {
            let v = rest.pop().unwrap();
            bound.push(v);
        }
        let mut i: usize = 0;
        while i < n
            invariant
                Interpreter::step_kept(&*old(self), &*self, old(out)@, out@),
                n == closure.params@.len(),
                bound@.len() + i == n,
            decreases n - i,
        {
            let v = bound.pop().unwrap();
            self.scope.declare(&closure.params[i], v)?;
            i = i + 1;
        }
        self.run_body(&closure.body, depth, out)
    }

    /// Runs statements in order in the current scope, stopping at the first
    /// `return`.
    fn run_body(&mut self, stmts: &Vec<Expr>, depth: u64, out: &mut Vec<String>) -> (r: Result<
        Flow,
        InterpreterError,
    >)
        requires
            old(self).wf(),
        ensures
            Interpreter::step_kept(&*old(self), &*final(self), old(out)@, final(out)@),
            simple_list(stmts@, 0) ==> effect_matches(
                simple_seq(old(self).scope.model(), stmts@, 0),
                final(self).scope.model(),
                old(out)@,
                final(out)@,
                r,
            ),
        decreases depth, stmts, 0nat,
    {
        let mut i: usize = 0;
        let ghost env0 = self.scope.model();
        while i < stmts.len()
            invariant
                Interpreter::step_kept(&*old(self), &*self, old(out)@, out@),
                i <= stmts@.len(),
                env0 == old(self).scope.model(),
                simple_list(stmts@, 0) ==> simple_list(stmts@, i as int),
                simple_list(stmts@, 0) ==> {
                    let whole = simple_seq(env0, stmts@, 0);
                    let rest = simple_seq(self.scope.model(), stmts@, i as int);
                    &&& whole.0 == rest.0
                    &&& whole.1 == rest.1
                    &&& lines(old(out)@) + whole.2 == lines(out@) + rest.2
                },
            decreases stmts@.len() - i,
        {
            proof {
                assert(decreases_to!(stmts => stmts@[i as int]));
            }
            let ghost env_i = self.scope.model();
            let ghost out_i = out@;
            let r = self.eval(&stmts[i], depth, out);
            proof {
                if simple_list(stmts@, 0) {
                    let r1 = simple_effect(env_i, stmts@[i as int]);
                    let r2 = simple_seq(r1.1, stmts@, i + 1);
                    if !(r1.0 is Err) {
                        assert(lines(out_i) + (r1.2 + r2.2) =~= lines(out@) + r2.2);
                    } else {
                        assert(lines(old(out)@) + simple_seq(env0, stmts@, 0).2 =~= lines(out@));
                    }
                }
            }
            match r? {
                Flow::Normal(_) => {},
                ret => {
                    return Ok(ret);
                },
            }
            i = i + 1;
        }
        proof {
            if simple_list(stmts@, 0) {
                assert(lines(out@) + Seq::<Seq<char>>::empty() =~= lines(out@));
            }
        }
        Ok(Flow::Normal(Value::Nil))
    }

    /// Runs a program's top-level declarations in the current scope. Returns
    /// what each top-level expression statement with a non-nil value shows,
    /// for echoing; a top-level `return` ends the run.
    pub fn run(&mut self, stmts: &Vec<Expr>, out: &mut Vec<String>) -> (r: Result<
        Vec<String>,
        InterpreterError,
    >)
        requires
            old(self).wf(),
        ensures
            Interpreter::step_kept(&*old(self), &*final(self), old(out)@, final(out)@),
            simple_list(stmts@, 0) ==> {
                let eff = simple_seq(old(self).scope.model(), stmts@, 0);
                &&& final(self).scope.model() == eff.1
                &&& lines(final(out)@) == lines(old(out)@) + eff.2
                &&& match eff.0 {
                    Ok(_) => r is Ok,
                    Err(k) => r matches Err(e) && e.kind == k,
                }
            },
    {
        let mut echoes: Vec<String> = Vec::new();
        let mut i: usize = 0;
        let ghost env0 = self.scope.model();
        while i < stmts.len()
            invariant
                Interpreter::step_kept(&*old(self), &*self, old(out)@, out@),
                i <= stmts@.len(),
                env0 == old(self).scope.model(),
                simple_list(stmts@, 0) ==> simple_list(stmts@, i as int),
                simple_list(stmts@, 0) ==> {
                    let whole = simple_seq(env0, stmts@, 0);
                    let rest = simple_seq(self.scope.model(), stmts@, i as int);
                    &&& whole.0 == rest.0
                    &&& whole.1 == rest.1
                    &&& lines(old(out)@) + whole.2 == lines(out@) + rest.2
                },
            decreases stmts@.len() - i,
        {
            let is_expr = matches!(stmts[i], Expr::ExprStmt(_));
            let ghost env_i = self.scope.model();
            let ghost out_i = out@;
            let r = self.eval(&stmts[i], MAX_CALL_DEPTH, out);
            proof {
                if simple_list(stmts@, 0) {
                    let r1 = simple_effect(env_i, stmts@[i as int]);
                    let r2 = simple_seq(r1.1, stmts@, i + 1);
                    if !(r1.0 is Err) {
                        assert(lines(out_i) + (r1.2 + r2.2) =~= lines(out@) + r2.2);
                    } else {
                        assert(lines(old(out)@) + simple_seq(env0, stmts@, 0).2 =~= lines(out@));
                    }
                }
            }
            match r? {
                Flow::Normal(v) => {
                    if is_expr && !matches!(v, Value::Nil) {
                        echoes.push(display(&v));
                    }
                },
                Flow::Return(_) => {
                    return Ok(echoes);
                },
            }
            i = i + 1;
        }
        proof {
            if simple_list(stmts@, 0) {
                assert(lines(out@) + Seq::<Seq<char>>::empty() =~= lines(out@));
            }
        }
        Ok(echoes)
    }

    /// Scans, parses and runs `source`; printed lines go to `out`.
    pub fn execute_source(&mut self, source: &str, out: &mut Vec<String>) -> (r: Result<
        Vec<String>,
        SourceError,
    >)
        requires
            old(self).wf(),
        ensures
            final(self).wf(),
            appended(old(out)@, final(out)@),
            source@.len() < usize::MAX ==> (r matches Err(SourceError::Lexical(_))
                <==> token_ranges(source@, 0) is None),
            r matches Err(SourceError::Lexical(_)) ==> final(self).scope.model() == old(self).scope.model() && final(out)@ == old(out)@,
            r matches Err(SourceError::Parse(es)) ==> es@.len() > 0 && final(self).scope.model()
                == old(self).scope.model() && final(out)@ == old(out)@,
            r matches Err(SourceError::Parse(_)) ==> exists|ts: Seq<TokenContext>|
                scanned(source@, ts) && !program_ok(ts, 0),
            (r is Ok || r matches Err(SourceError::Runtime(_))) ==> exists|ts: Seq<TokenContext>|
                scanned(source@, ts) && program_ok(ts, 0),
            (r is Ok || r matches Err(SourceError::Runtime(_))) ==> exists|
                ts: Seq<TokenContext>,
                stmts: Seq<Expr>,
                j: int,
            |
                scanned(source@, ts) && #[trigger] program_is(ts, 0, j, stmts) && (simple_list(stmts, 0)
                    ==> runs_as(simple_seq(old(self).scope.model(), stmts, 0), final(self).scope.model(), old(out)@, final(out)@, r)),
    {
        let tokens = match scan(source) {
            Ok(ts) => ts,
            Err(e) => {
                return Err(SourceError::Lexical(e));
            },
        };
        let ghost ts = tokens@;
        assert(scanned(source@, ts));
        let stmts = match parse(tokens) {
            Ok(s) => s,
            Err(es) => {
                return Err(SourceError::Parse(es));
            },
        };
        let ghost prog = stmts@;
        let ghost env0 = self.scope.model();
        let ghost out0 = out@;
        let r = match self.run(&stmts, out) {
            Ok(echoes) => Ok(echoes),
            Err(e) => Err(SourceError::Runtime(e)),
        };
        proof {
            let j = choose|j: int| program_is(ts, 0, j, prog);
            assert(scanned(source@, ts) && program_is(ts, 0, j, prog) && (simple_list(prog, 0)
                ==> runs_as(simple_seq(env0, prog, 0), self.scope.model(), out0, out@, r)));
        }
        r
    }
}

/// Runs `source` in a fresh interpreter and returns the printed lines.
pub fn run_source(source: &str) -> (r: Result<Vec<String>, SourceError>)
    ensures
        source@.len() < usize::MAX ==> (r matches Err(SourceError::Lexical(_)) <==> token_ranges(
            source@,
            0,
        ) is None),
        r matches Err(SourceError::Parse(es)) ==> es@.len() > 0 && exists|ts: Seq<TokenContext>|
            scanned(source@, ts) && !program_ok(ts, 0),
        r is Ok ==> exists|ts: Seq<TokenContext>| scanned(source@, ts) && program_ok(ts, 0),
        (r is Ok || r matches Err(SourceError::Runtime(_))) ==> exists|
            ts: Seq<TokenContext>,
            stmts: Seq<Expr>,
            j: int,
        |
            scanned(source@, ts) && #[trigger] program_is(ts, 0, j, stmts) && (simple_list(stmts, 0)
                ==> match simple_seq(root_env(), stmts, 0).0 {
                Ok(_) => r matches Ok(printed) && lines(printed@) == simple_seq(root_env(), stmts, 0).2,
                Err(k) => r matches Err(SourceError::Runtime(e)) && e.kind == k,
            }),
{
    let mut interpreter = Interpreter::default();
    let mut out: Vec<String> = Vec::new();
    let r = interpreter.execute_source(source, &mut out);
    proof {
        assert(lines(Seq::<String>::empty()) =~= Seq::<Seq<char>>::empty());
    }
    match r {
        Ok(_) => Ok(out),
        Err(e) => Err(e),
    }
}

} // verus!
