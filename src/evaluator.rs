use vstd::prelude::*;
use vstd::string::*;
use std::rc::Rc;
use crate::ast::{Expression, Literal, Node, Statement};
use crate::environment::{EnvView, Environment, frame_lookup};
use crate::object::{Object, object_text};
use crate::token::{Token, token_text, int_text, bool_text, nat_text, u64_to_string};

verus! {

/// The nesting depth of evaluation steps that `eval` allows before it gives
/// up with an error, in place of exhausting the host's stack.
pub const MAX_DEPTH: u64 = 2048;

/// An evaluation error: a message for a person to read.
#[derive(Debug, Clone)]
pub struct EvalError {
    msg: String,
}

impl View for EvalError {
    type V = Seq<char>;

    closed spec fn view(&self) -> Seq<char> {
        self.msg@
    }
}

impl EvalError {
    pub fn new(msg: String) -> (r: EvalError)
        ensures
            r@ == msg@,
    {
        EvalError { msg }
    }

    /// The message.
    pub fn to_string(&self) -> (r: String)
        ensures
            r@ == self@,
    {
        self.msg.clone()
    }
}

/// What an evaluation gives: a value, or an error message.
pub type Outcome = Result<Object, Seq<char>>;

pub open spec fn outcome(r: Result<Object, EvalError>) -> Outcome {
    match r {
        Ok(v) => Ok(v),
        Err(e) => Err(e@),
    }
}

pub open spec fn depth_error() -> Seq<char> {
    "maximum evaluation depth exceeded"@
}

/// `Null` and `false` are falsy; every other value is truthy.
pub open spec fn truthy(o: Object) -> bool {
    match o {
        Object::Null => false,
        Object::Boolean(b) => b,
        _ => true,
    }
}

pub open spec fn literal_value(l: Literal) -> Object {
    match l {
        Literal::Integer(i) => Object::Integer(i),
        Literal::Boolean(b) => Object::Boolean(b),
    }
}

/// The value inside any number of return wrappers.
pub open spec fn strip(v: Object) -> Object
    decreases v,
{
    match v {
        Object::ReturnValue(x) => strip(*x),
        _ => v,
    }
}

pub open spec fn strip_outcome(r: Outcome) -> Outcome {
    match r {
        Ok(v) => Ok(strip(v)),
        Err(m) => Err(m),
    }
}

pub open spec fn bang(v: Object) -> Object {
    match v {
        Object::Boolean(b) => Object::Boolean(!b),
        Object::Null => Object::Boolean(true),
        _ => Object::Boolean(false),
    }
}

/// A prefix operator applied to a value. Negation wraps on the 32-bit range.
pub open spec fn prefix_result(op: Token, v: Object) -> Outcome {
    match op {
        Token::Bang => Ok(bang(v)),
        Token::Dash => match v {
            Object::Integer(x) => Ok(Object::Integer((0i32).wrapping_sub(x))),
            _ => Err("unknown operator: -"@ + object_text(v)),
        },
        _ => Err("unknown operator: "@ + token_text(op) + object_text(v)),
    }
}

/// An infix operator on two integers. Arithmetic wraps on the 32-bit range;
/// division truncates toward zero and fails on a zero divisor.
pub open spec fn int_infix(op: Token, a: i32, b: i32) -> Outcome {
    match op {
        Token::Plus => Ok(Object::Integer(a.wrapping_add(b))),
        Token::Dash => Ok(Object::Integer(a.wrapping_sub(b))),
        Token::Asterisk => Ok(Object::Integer(a.wrapping_mul(b))),
        Token::ForwardSlash => if b == 0 {
            Err("division by zero"@)
        } else {
            Ok(
                Object::Integer(
                    match a.checked_div(b) {
                        Some(q) => q,
                        None => a,
                    },
                ),
            )
        },
        Token::LessThan => Ok(Object::Boolean(a < b)),
        Token::GreaterThan => Ok(Object::Boolean(a > b)),
        Token::Equal => Ok(Object::Boolean(a == b)),
        Token::NotEqual => Ok(Object::Boolean(a != b)),
        _ => Err(
            "unknown operator: "@ + int_text(a as int) + " "@ + token_text(op) + " "@ + int_text(
                b as int,
            ),
        ),
    }
}

/// An infix operator on two booleans: only `==` and `!=` are defined.
pub open spec fn bool_infix(op: Token, a: bool, b: bool) -> Outcome {
    match op {
        Token::Equal => Ok(Object::Boolean(a == b)),
        Token::NotEqual => Ok(Object::Boolean(a != b)),
        _ => Err("unknown operator: "@ + bool_text(a) + " "@ + token_text(op) + " "@ + bool_text(b)),
    }
}

pub open spec fn infix_result(op: Token, l: Object, r: Object) -> Outcome {
    match (l, r) {
        (Object::Integer(a), Object::Integer(b)) => int_infix(op, a, b),
        (Object::Boolean(a), Object::Boolean(b)) => bool_infix(op, a, b),
        _ => Err("type mismatch: "@ + object_text(l) + " "@ + token_text(op) + " "@ + object_text(r)),
    }
}

/// The bindings of parameters `ps` to `vals` in frame `f`, in order.
pub open spec fn param_bindings(f: usize, ps: Seq<String>, vals: Seq<Object>) -> Seq<(usize, Seq<char>, Object)> {
    Seq::new(ps.len(), |k: int| (f, ps[k]@, vals[k]))
}

pub open spec fn arity_error(p: nat, a: nat) -> Seq<char> {
    "invalid number of arguments: exected="@ + nat_text(p) + ", got="@ + nat_text(a)
}

/// The value of expression `e` evaluated in frame `f` of `env`, with the
/// environment it leaves. `fuel` bounds the nesting depth of evaluation.
pub open spec fn sem_expr(e: Expression, env: EnvView, f: usize, fuel: nat) -> (Outcome, EnvView)
    decreases fuel, 0int,
{
    if fuel == 0 {
        (Err(depth_error()), env)
    } else {
        let d = (fuel - 1) as nat;
        match e {
            Expression::Ident(name) => match env.lookup(f, name@) {
                Some(v) => (Ok(v), env),
                None => (Err("identifier not found: "@ + name@), env),
            },
            Expression::Lit(l) => (Ok(literal_value(l)), env),
            Expression::Prefix(op, x) => {
                let (r, env1) = sem_expr(*x, env, f, d);
                match r {
                    Ok(v) => (prefix_result(op, v), env1),
                    Err(m) => (Err(m), env1),
                }
            },
            Expression::Infix(op, l, r) => {
                let (rl, env1) = sem_expr(*l, env, f, d);
                match rl {
                    Ok(lv) => {
                        let (rr, env2) = sem_expr(*r, env1, f, d);
                        match rr {
                            Ok(rv) => (infix_result(op, lv, rv), env2),
                            Err(m) => (Err(m), env2),
                        }
                    },
                    Err(m) => (Err(m), env1),
                }
            },
            Expression::If(c, t, a) => {
                let (rc, env1) = sem_expr(*c, env, f, d);
                match rc {
                    Ok(cv) => if truthy(cv) {
                        sem_block(t@, 0, Object::Null, env1, f, d)
                    } else {
                        match a {
                            Some(alt) => sem_block(alt@, 0, Object::Null, env1, f, d),
                            None => (Ok(Object::Null), env1),
                        }
                    },
                    Err(m) => (Err(m), env1),
                }
            },
            Expression::Function(ps, body) => (Ok(Object::Function(ps, body, f)), env),
            Expression::FunctionCall(callee, args) => {
                let (rc, env1) = sem_expr(*callee, env, f, d);
                match rc {
                    Ok(fv) => match fv {
                        Object::Function(ps, body, cf) => {
                            let (ra, env2) = sem_args(args@, 0, Seq::empty(), env1, f, d);
                            match ra {
                                Ok(vals) => sem_call(ps@, body@, cf, vals, env2, d),
                                Err(m) => (Err(m), env2),
                            }
                        },
                        _ => (Err("not a function: "@ + object_text(fv)), env1),
                    },
                    Err(m) => (Err(m), env1),
                }
            },
        }
    }
}

/// The values of `es[i..]` evaluated left to right after `acc`; the first
/// error stops the evaluation.
pub open spec fn sem_args(es: Seq<Expression>, i: nat, acc: Seq<Object>, env: EnvView, f: usize, fuel: nat) -> (Result<Seq<Object>, Seq<char>>, EnvView)
    decreases fuel, es.len() - i,
{
    if i >= es.len() {
        (Ok(acc), env)
    } else if fuel == 0 {
        (Err(depth_error()), env)
    } else {
        let (r, env1) = sem_expr(es[i as int], env, f, (fuel - 1) as nat);
        match r {
            Ok(v) => sem_args(es, i + 1, acc.push(v), env1, f, fuel),
            Err(m) => (Err(m), env1),
        }
    }
}

/// A call of the closure with parameters `ps`, body `body` and frame `cf` on
/// `vals`: a new frame whose parent is `cf` binds the parameters, the body
/// runs there, and a return wrapper is taken off its value.
pub open spec fn sem_call(ps: Seq<String>, body: Seq<Statement>, cf: usize, vals: Seq<Object>, env: EnvView, fuel: nat) -> (Outcome, EnvView)
    decreases fuel, 0int,
{
    if ps.len() != vals.len() {
        (Err(arity_error(ps.len(), vals.len())), env)
    } else if fuel == 0 {
        (Err(depth_error()), env)
    } else {
        let nf = env.parents.len() as usize;
        let env1 = env.enclose(cf);
        let env2 = EnvView {
            bindings: env1.bindings + param_bindings(nf, ps, vals),
            parents: env1.parents,
        };
        let (r, env3) = sem_block(body, 0, Object::Null, env2, nf, (fuel - 1) as nat);
        (strip_outcome(r), env3)
    }
}

/// The value of statement `s` in frame `f`.
pub open spec fn sem_stmt(s: Statement, env: EnvView, f: usize, fuel: nat) -> (Outcome, EnvView)
    decreases fuel, 0int,
{
    if fuel == 0 {
        (Err(depth_error()), env)
    } else {
        let d = (fuel - 1) as nat;
        match s {
            Statement::Let(id, e) => {
                let (r, env1) = sem_expr(e, env, f, d);
                match r {
                    Ok(v) => (Ok(v), env1.bind(f, id@, v)),
                    Err(m) => (Err(m), env1),
                }
            },
            Statement::Return(e) => {
                let (r, env1) = sem_expr(e, env, f, d);
                match r {
                    Ok(v) => (Ok(Object::ReturnValue(Box::new(v))), env1),
                    Err(m) => (Err(m), env1),
                }
            },
            Statement::Expr(e) => sem_expr(e, env, f, d),
        }
    }
}

/// The statements `ss[i..]` run in order after a statement whose value was
/// `last`. A return wrapper stops the run and is kept; an empty run gives
/// `last`.
pub open spec fn sem_block(ss: Seq<Statement>, i: nat, last: Object, env: EnvView, f: usize, fuel: nat) -> (Outcome, EnvView)
    decreases fuel, ss.len() - i,
{
    if i >= ss.len() {
        (Ok(last), env)
    } else if fuel == 0 {
        (Err(depth_error()), env)
    } else {
        let (r, env1) = sem_stmt(ss[i as int], env, f, (fuel - 1) as nat);
        match r {
            Ok(v) => if v is ReturnValue {
                (Ok(v), env1)
            } else {
                sem_block(ss, i + 1, v, env1, f, fuel)
            },
            Err(m) => (Err(m), env1),
        }
    }
}

/// A program run in the global frame; a return wrapper is taken off its value.
pub open spec fn sem_program(ss: Seq<Statement>, env: EnvView, fuel: nat) -> (Outcome, EnvView) {
    let (r, env1) = sem_block(ss, 0, Object::Null, env, 0, fuel);
    (strip_outcome(r), env1)
}

pub open spec fn sem_node(n: Node, env: EnvView, fuel: nat) -> (Outcome, EnvView) {
    match n {
        Node::Program(ss) => sem_program(ss@, env, fuel),
        Node::Stmt(s) => {
            let (r, env1) = sem_stmt(s, env, 0, fuel);
            (strip_outcome(r), env1)
        },
        Node::Expr(e) => {
            let (r, env1) = sem_expr(e, env, 0, fuel);
            (strip_outcome(r), env1)
        },
    }
}

/// No return wrapper is left once `strip` has run.
pub proof fn lemma_strip_unwrapped(v: Object)
    ensures
        !(strip(v) is ReturnValue),
    decreases v,
{
    if let Object::ReturnValue(x) = v {
        lemma_strip_unwrapped(*x);
    }
}

/// A return wrapper never leaves the evaluator: whatever node is evaluated,
/// in whatever environment, a value that comes out is not a `ReturnValue`.
pub proof fn lemma_no_return_escapes(n: Node, env: EnvView, fuel: nat)
    ensures
        sem_node(n, env, fuel).0 matches Ok(v) ==> !(v is ReturnValue),
{
    let r = match n {
        Node::Program(ss) => sem_block(ss@, 0, Object::Null, env, 0, fuel).0,
        Node::Stmt(s) => sem_stmt(s, env, 0, fuel).0,
        Node::Expr(e) => sem_expr(e, env, 0, fuel).0,
    };
    if let Ok(v) = r {
        lemma_strip_unwrapped(v);
    }
}

/// Binding an expression's value and reading it back gives what the
/// expression gives: `let x = e; x` and `e` evaluate to the same value, or
/// fail with the same message.
pub proof fn lemma_let_then_read(x: String, e: Expression, env: EnvView)
    ensures
        sem_program(seq![Statement::Let(x, e), Statement::Expr(Expression::Ident(x))], env, MAX_DEPTH as nat).0
            == sem_program(seq![Statement::Expr(e)], env, MAX_DEPTH as nat).0,
{
    let d = MAX_DEPTH as nat;
    let two = seq![Statement::Let(x, e), Statement::Expr(Expression::Ident(x))];
    let one = seq![Statement::Expr(e)];
    let (r, env1) = sem_expr(e, env, 0, (d - 2) as nat);
    assert(sem_stmt(two[0], env, 0, (d - 1) as nat) == match r {
        Ok(v) => (Ok::<Object, Seq<char>>(v), env1.bind(0, x@, v)),
        Err(m) => (Err::<Object, Seq<char>>(m), env1),
    });
    assert(sem_stmt(one[0], env, 0, (d - 1) as nat) == (r, env1));
    match r {
        Ok(v) => {
            let env2 = env1.bind(0, x@, v);
            assert(frame_lookup(env2.bindings, 0, x@) == Some(v));
            assert(env2.lookup(0, x@) == Some(v));
            if !(v is ReturnValue) {
                assert(sem_expr(Expression::Ident(x), env2, 0, (d - 2) as nat) == (Ok::<Object, Seq<char>>(v), env2));
                assert(sem_stmt(two[1], env2, 0, (d - 1) as nat) == (Ok::<Object, Seq<char>>(v), env2));
                assert(sem_block(two, 2, v, env2, 0, d) == (Ok::<Object, Seq<char>>(v), env2));
                assert(sem_block(two, 1, v, env2, 0, d) == (Ok::<Object, Seq<char>>(v), env2));
                assert(sem_block(one, 1, v, env1, 0, d) == (Ok::<Object, Seq<char>>(v), env1));
            }
        },
        Err(m) => {},
    }
}

fn fail(prefix: &str, detail: String) -> (r: Result<Object, EvalError>)
    ensures
        outcome(r) == Err::<Object, Seq<char>>(prefix@ + detail@),
{
    let mut m = String::from_str(prefix);
    m.append(detail.as_str());
    Err(EvalError::new(m))
}

fn fail_infix(prefix: &str, l: String, op: &Token, r: String) -> (res: Result<Object, EvalError>)
    ensures
        outcome(res) == Err::<Object, Seq<char>>(prefix@ + l@ + " "@ + token_text(*op) + " "@ + r@),
{
    let mut m = String::from_str(prefix);
    m.append(l.as_str());
    m.append(" ");
    m.append(op.to_string().as_str());
    m.append(" ");
    m.append(r.as_str());
    Err(EvalError::new(m))
}

fn depth_exceeded() -> (r: Result<Object, EvalError>)
    ensures
        outcome(r) == Err::<Object, Seq<char>>(depth_error()),
{
    Err(EvalError::new(String::from_str("maximum evaluation depth exceeded")))
}

fn is_truthy(obj: &Object) -> (r: bool)
    ensures
        r == truthy(*obj),
{
    match obj {
        Object::Null => false,
        Object::Boolean(b) => *b,
        _ => true,
    }
}

fn unwrap_return_value(obj: Object) -> (r: Object)
    ensures
        r == strip(obj),
    decreases obj,
{
    match obj {
        Object::ReturnValue(x) => unwrap_return_value(*x),
        other => other,
    }
}

fn unwrap_outcome(r: Result<Object, EvalError>) -> (res: Result<Object, EvalError>)
    ensures
        outcome(res) == strip_outcome(outcome(r)),
{
    match r {
        Ok(v) => Ok(unwrap_return_value(v)),
        Err(e) => Err(e),
    }
}

fn eval_literal(lit: &Literal) -> (r: Object)
    ensures
        r == literal_value(*lit),
{
    match lit {
        Literal::Integer(i) => Object::Integer(*i),
        Literal::Boolean(b) => Object::Boolean(*b),
    }
}

fn eval_bang_operator(v: &Object) -> (r: Object)
    ensures
        r == bang(*v),
{
    match v {
        Object::Boolean(b) => Object::Boolean(!*b),
        Object::Null => Object::Boolean(true),
        _ => Object::Boolean(false),
    }
}

fn eval_minus_prefix_operator(v: &Object) -> (r: Result<Object, EvalError>)
    ensures
        outcome(r) == prefix_result(Token::Dash, *v),
{
    match v {
        Object::Integer(x) => Ok(Object::Integer((0i32).wrapping_sub(*x))),
        _ => fail("unknown operator: -", v.to_string()),
    }
}

fn eval_prefix_expression(op: &Token, v: &Object) -> (r: Result<Object, EvalError>)
    ensures
        outcome(r) == prefix_result(*op, *v),
{
    match op {
        Token::Bang => Ok(eval_bang_operator(v)),
        Token::Dash => eval_minus_prefix_operator(v),
        _ => {
            let mut d = op.to_string();
            d.append(v.to_string().as_str());
            let r = fail("unknown operator: ", d);
            proof {
                assert("unknown operator: "@ + (token_text(*op) + object_text(*v)) =~= "unknown operator: "@
                    + token_text(*op) + object_text(*v));
            }
            r
        },
    }
}

fn eval_integer_infix_expression(op: &Token, a: i32, b: i32) -> (r: Result<Object, EvalError>)
    ensures
        outcome(r) == int_infix(*op, a, b),
{
    match op {
        Token::Plus => Ok(Object::Integer(a.wrapping_add(b))),
        Token::Dash => Ok(Object::Integer(a.wrapping_sub(b))),
        Token::Asterisk => Ok(Object::Integer(a.wrapping_mul(b))),
        Token::ForwardSlash => {
            if b == 0 {
                Err(EvalError::new(String::from_str("division by zero")))
            } else {
                match a.checked_div(b) {
                    Some(q) => Ok(Object::Integer(q)),
                    None => Ok(Object::Integer(a)),
                }
            }
        },
        Token::LessThan => Ok(Object::Boolean(a < b)),
        Token::GreaterThan => Ok(Object::Boolean(a > b)),
        Token::Equal => Ok(Object::Boolean(a == b)),
        Token::NotEqual => Ok(Object::Boolean(a != b)),
        _ => fail_infix(
            "unknown operator: ",
            crate::token::i32_to_string(a),
            op,
            crate::token::i32_to_string(b),
        ),
    }
}

fn eval_boolean_infix_expression(op: &Token, a: bool, b: bool) -> (r: Result<Object, EvalError>)
    ensures
        outcome(r) == bool_infix(*op, a, b),
{
    match op {
        Token::Equal => Ok(Object::Boolean(a == b)),
        Token::NotEqual => Ok(Object::Boolean(a != b)),
        _ => fail_infix(
            "unknown operator: ",
            crate::token::bool_to_string(a),
            op,
            crate::token::bool_to_string(b),
        ),
    }
}

fn eval_infix_expression(op: &Token, l: &Object, r: &Object) -> (res: Result<Object, EvalError>)
    ensures
        outcome(res) == infix_result(*op, *l, *r),
{
    match (l, r) {
        (Object::Integer(a), Object::Integer(b)) => eval_integer_infix_expression(op, *a, *b),
        (Object::Boolean(a), Object::Boolean(b)) => eval_boolean_infix_expression(op, *a, *b),
        _ => fail_infix("type mismatch: ", l.to_string(), op, r.to_string()),
    }
}

fn eval_expression(e: &Expression, env: &mut Environment, f: usize, fuel: u64) -> (r: Result<Object, EvalError>)
    ensures
        (outcome(r), final(env)@) == sem_expr(*e, old(env)@, f, fuel as nat),
    decreases fuel,
{
    if fuel == 0 {
        return depth_exceeded();
    }
    let d = fuel - 1;
    match e {
        Expression::Ident(name) => match env.lookup(f, name) {
            Some(v) => Ok(v),
            None => fail("identifier not found: ", name.clone()),
        },
        Expression::Lit(l) => Ok(eval_literal(l)),
        Expression::Prefix(op, x) => match eval_expression(x, env, f, d) {
            Ok(v) => eval_prefix_expression(op, &v),
            Err(m) => Err(m),
        },
        Expression::Infix(op, l, r) => match eval_expression(l, env, f, d) {
            Ok(lv) => match eval_expression(r, env, f, d) {
                Ok(rv) => eval_infix_expression(op, &lv, &rv),
                Err(m) => Err(m),
            },
            Err(m) => Err(m),
        },
        Expression::If(c, t, a) => match eval_expression(c, env, f, d) {
            Ok(cv) => {
                if is_truthy(&cv) {
                    eval_block_statement(t, env, f, d)
                } else {
                    match a {
                        Some(alt) => eval_block_statement(alt, env, f, d),
                        None => Ok(Object::Null),
                    }
                }
            },
            Err(m) => Err(m),
        },
        Expression::Function(ps, body) => Ok(Object::Function(Rc::clone(ps), Rc::clone(body), f)),
        Expression::FunctionCall(callee, args) => match eval_expression(callee, env, f, d) {
            Ok(fv) => match fv {
                Object::Function(ps, body, cf) => match eval_expressions(args, env, f, d) {
                    Ok(vals) => apply_function(&ps, &body, cf, vals, env, d),
                    Err(m) => Err(m),
                },
                _ => fail("not a function: ", fv.to_string()),
            },
            Err(m) => Err(m),
        },
    }
}

fn eval_expressions(es: &Vec<Expression>, env: &mut Environment, f: usize, fuel: u64) -> (r: Result<Vec<Object>, EvalError>)
    ensures
        ({
            let (sr, senv) = sem_args(es@, 0, Seq::empty(), old(env)@, f, fuel as nat);
            &&& final(env)@ == senv
            &&& match r {
                Ok(vals) => sr == Ok::<Seq<Object>, Seq<char>>(vals@),
                Err(e) => sr == Err::<Seq<Object>, Seq<char>>(e@),
            }
        }),
    decreases fuel,
{
    let mut vals: Vec<Object> = Vec::new();
    let mut i: usize = 0;
    while i < es.len()
        invariant
            i <= es@.len(),
            sem_args(es@, 0, Seq::empty(), old(env)@, f, fuel as nat) == sem_args(
                es@,
                i as nat,
                vals@,
                env@,
                f,
                fuel as nat,
            ),
        decreases es@.len() - i,
    {
        if fuel == 0 {
            return Err(EvalError::new(String::from_str("maximum evaluation depth exceeded")));
        }
        match eval_expression(&es[i], env, f, fuel - 1) {
            Ok(v) => {
                vals.push(v);
            },
            Err(m) => {
                return Err(m);
            },
        }
        i = i + 1;
    }
    Ok(vals)
}

fn apply_function(
    ps: &Rc<Vec<String>>,
    body: &Rc<Vec<Statement>>,
    cf: usize,
    args: Vec<Object>,
    env: &mut Environment,
    fuel: u64,
) -> (r: Result<Object, EvalError>)
    ensures
        (outcome(r), final(env)@) == sem_call(ps@, body@, cf, args@, old(env)@, fuel as nat),
    decreases fuel,
{
    if ps.len() != args.len() {
        let mut m = String::from_str("invalid number of arguments: exected=");
        m.append(u64_to_string(ps.len() as u64).as_str());
        m.append(", got=");
        m.append(u64_to_string(args.len() as u64).as_str());
        return Err(EvalError::new(m));
    }
    if fuel == 0 {
        return depth_exceeded();
    }
    let nf = env.enclose(cf);
    let ghost base = env@;
    let mut i: usize = 0;
    while i < ps.len()
        invariant
            i <= ps@.len(),
            ps@.len() == args@.len(),
            env@.parents == base.parents,
            env@.bindings =~= base.bindings + param_bindings(nf, ps@.subrange(0, i as int), args@.subrange(0, i as int)),
        decreases ps@.len() - i,
    {
        env.bind(nf, ps[i].clone(), args[i].copy());
        i = i + 1;
    }
    proof {
        assert(ps@.subrange(0, ps@.len() as int) =~= ps@);
        assert(args@.subrange(0, args@.len() as int) =~= args@);
    }
    let evaluated = eval_block_statement(body, env, nf, fuel - 1);
    unwrap_outcome(evaluated)
}

fn eval_statement(s: &Statement, env: &mut Environment, f: usize, fuel: u64) -> (r: Result<Object, EvalError>)
    ensures
        (outcome(r), final(env)@) == sem_stmt(*s, old(env)@, f, fuel as nat),
    decreases fuel,
{
    if fuel == 0 {
        return depth_exceeded();
    }
    match s {
        Statement::Let(id, e) => match eval_expression(e, env, f, fuel - 1) {
            Ok(v) => {
                env.bind(f, id.clone(), v.copy());
                Ok(v)
            },
            Err(m) => Err(m),
        },
        Statement::Return(e) => match eval_expression(e, env, f, fuel - 1) {
            Ok(v) => Ok(Object::ReturnValue(Box::new(v))),
            Err(m) => Err(m),
        },
        Statement::Expr(e) => eval_expression(e, env, f, fuel - 1),
    }
}

fn eval_block_statement(ss: &Vec<Statement>, env: &mut Environment, f: usize, fuel: u64) -> (r: Result<Object, EvalError>)
    ensures
        (outcome(r), final(env)@) == sem_block(ss@, 0, Object::Null, old(env)@, f, fuel as nat),
    decreases fuel,
{
    let mut result = Object::Null;
    let mut i: usize = 0;
    while i < ss.len()
        invariant
            i <= ss@.len(),
            sem_block(ss@, 0, Object::Null, old(env)@, f, fuel as nat) == sem_block(
                ss@,
                i as nat,
                result,
                env@,
                f,
                fuel as nat,
            ),
        decreases ss@.len() - i,
    {
        if fuel == 0 {
            return depth_exceeded();
        }
        match eval_statement(&ss[i], env, f, fuel - 1) {
            Ok(v) => {
                if let Object::ReturnValue(_) = v {
                    return Ok(v);
                }
                result = v;
            },
            Err(m) => {
                return Err(m);
            },
        }
        i = i + 1;
    }
    Ok(result)
}

/// Runs the statements of a program in the global frame of `env`; a `return`
/// stops the run and gives its value.
pub fn eval_program(ss: &Vec<Statement>, env: &mut Environment) -> (r: Result<Object, EvalError>)
    ensures
        (outcome(r), final(env)@) == sem_program(ss@, old(env)@, MAX_DEPTH as nat),
        r matches Ok(v) ==> !(v is ReturnValue),
{
    let r = eval_block_statement(ss, env, 0, MAX_DEPTH);
    proof {
        if let Ok(v) = outcome(r) {
            lemma_strip_unwrapped(v);
        }
    }
    unwrap_outcome(r)
}

/// Evaluates a node in the global frame of `env`. The result is never a
/// return wrapper.
pub fn eval(node: Node, env: &mut Environment) -> (r: Result<Object, EvalError>)
    ensures
        (outcome(r), final(env)@) == sem_node(node, old(env)@, MAX_DEPTH as nat),
        r matches Ok(v) ==> !(v is ReturnValue),
{
    let r = match &node {
        Node::Program(ss) => eval_block_statement(ss, env, 0, MAX_DEPTH),
        Node::Stmt(s) => eval_statement(s, env, 0, MAX_DEPTH),
        Node::Expr(e) => eval_expression(e, env, 0, MAX_DEPTH),
    };
    proof {
        if let Ok(v) = outcome(r) {
            lemma_strip_unwrapped(v);
        }
    }
    unwrap_outcome(r)
}

} // verus!
