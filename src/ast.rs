use vstd::prelude::*;
use vstd::string::*;
use std::rc::Rc;
use crate::token::{Token, token_text, int_text, bool_text, i32_to_string, bool_to_string};

verus! {

/// A literal value in the source.
#[derive(Debug)]
pub enum Literal {
    Integer(i32),
    Boolean(bool),
}

/// An expression. Function literals share their parameter list and body, so
/// that closures made from them refer to the same tree.
#[derive(Debug)]
pub enum Expression {
    Ident(String),
    Lit(Literal),
    Prefix(Token, Box<Expression>),
    Infix(Token, Box<Expression>, Box<Expression>),
    If(Box<Expression>, Vec<Statement>, Option<Vec<Statement>>),
    Function(Rc<Vec<String>>, Rc<Vec<Statement>>),
    FunctionCall(Box<Expression>, Vec<Expression>),
}

/// A statement.
#[derive(Debug)]
pub enum Statement {
    Let(String, Expression),
    Return(Expression),
    Expr(Expression),
}

/// Any node of the tree; a program is a sequence of statements.
#[derive(Debug)]
pub enum Node {
    Program(Vec<Statement>),
    Stmt(Statement),
    Expr(Expression),
}

/// The model of an expression: text as `Seq<char>`, lists as `Seq`.
pub enum SExpr {
    Ident(Seq<char>),
    Lit(Literal),
    Prefix(Token, Box<SExpr>),
    Infix(Token, Box<SExpr>, Box<SExpr>),
    If(Box<SExpr>, Seq<SStmt>, Option<Seq<SStmt>>),
    Function(Seq<Seq<char>>, Seq<SStmt>),
    Call(Box<SExpr>, Seq<SExpr>),
}

/// The model of a statement.
pub enum SStmt {
    Let(Seq<char>, SExpr),
    Return(SExpr),
    Expr(SExpr),
}

pub open spec fn names_view(ps: Seq<String>) -> Seq<Seq<char>> {
    ps.map_values(|s: String| s@)
}

pub open spec fn view_expr(e: Expression) -> SExpr
    decreases e,
{
    match e {
        Expression::Ident(name) => SExpr::Ident(name@),
        Expression::Lit(l) => SExpr::Lit(l),
        Expression::Prefix(op, x) => SExpr::Prefix(op, Box::new(view_expr(*x))),
        Expression::Infix(op, l, r) => SExpr::Infix(op, Box::new(view_expr(*l)), Box::new(view_expr(*r))),
        Expression::If(c, t, a) => SExpr::If(
            Box::new(view_expr(*c)),
            view_stmts(t@),
            match a {
                Some(alt) => Some(view_stmts(alt@)),
                None => None,
            },
        ),
        Expression::Function(ps, body) => SExpr::Function(names_view(ps@), view_stmts(body@)),
        Expression::FunctionCall(f, args) => SExpr::Call(Box::new(view_expr(*f)), view_exprs(args@)),
    }
}

pub open spec fn view_exprs(es: Seq<Expression>) -> Seq<SExpr>
    decreases es,
{
    if es.len() == 0 {
        Seq::empty()
    } else {
        view_exprs(es.subrange(0, es.len() - 1)).push(view_expr(es[es.len() - 1]))
    }
}

pub open spec fn view_stmt(s: Statement) -> SStmt
    decreases s,
{
    match s {
        Statement::Let(id, e) => SStmt::Let(id@, view_expr(e)),
        Statement::Return(e) => SStmt::Return(view_expr(e)),
        Statement::Expr(e) => SStmt::Expr(view_expr(e)),
    }
}

pub open spec fn view_stmts(ss: Seq<Statement>) -> Seq<SStmt>
    decreases ss,
{
    if ss.len() == 0 {
        Seq::empty()
    } else {
        view_stmts(ss.subrange(0, ss.len() - 1)).push(view_stmt(ss[ss.len() - 1]))
    }
}

/// Pushing onto a list of expressions pushes onto its model.
pub proof fn lemma_view_exprs_push(es: Seq<Expression>, e: Expression)
    ensures
        view_exprs(es.push(e)) == view_exprs(es).push(view_expr(e)),
{
    assert(es.push(e).subrange(0, es.len() as int) =~= es);
}

/// Pushing onto a list of statements pushes onto its model.
pub proof fn lemma_view_stmts_push(ss: Seq<Statement>, s: Statement)
    ensures
        view_stmts(ss.push(s)) == view_stmts(ss).push(view_stmt(s)),
{
    assert(ss.push(s).subrange(0, ss.len() as int) =~= ss);
}

pub open spec fn literal_text(l: Literal) -> Seq<char> {
    match l {
        Literal::Integer(i) => int_text(i as int),
        Literal::Boolean(b) => bool_text(b),
    }
}

/// The names `ps` joined by `sep`.
pub open spec fn names_text(ps: Seq<String>, sep: Seq<char>) -> Seq<char>
    decreases ps.len(),
{
    if ps.len() == 0 {
        Seq::empty()
    } else if ps.len() == 1 {
        ps[0]@
    } else {
        names_text(ps.subrange(0, ps.len() - 1), sep) + sep + ps[ps.len() - 1]@
    }
}

/// Display form of an expression.
pub open spec fn expr_text(e: Expression) -> Seq<char>
    decreases e,
{
    match e {
        Expression::Ident(name) => name@,
        Expression::Lit(l) => literal_text(l),
        Expression::Prefix(op, x) => "("@ + token_text(op) + expr_text(*x) + ")"@,
        Expression::Infix(op, l, r) => "("@ + expr_text(*l) + " "@ + token_text(op) + " "@
            + expr_text(*r) + ")"@,
        Expression::If(c, t, a) => match a {
            Some(alt) => "if "@ + expr_text(*c) + " { "@ + stmts_text(t@) + " } else { "@
                + stmts_text(alt@) + " }"@,
            None => "if "@ + expr_text(*c) + " { "@ + stmts_text(t@) + " }"@,
        },
        Expression::Function(ps, _) => "fn("@ + names_text(ps@, ", "@) + ") {...}"@,
        Expression::FunctionCall(f, args) => expr_text(*f) + "("@ + exprs_text(args@) + ")"@,
    }
}

/// Display forms of expressions joined by `, `.
pub open spec fn exprs_text(es: Seq<Expression>) -> Seq<char>
    decreases es,
{
    if es.len() == 0 {
        Seq::empty()
    } else if es.len() == 1 {
        expr_text(es[0])
    } else {
        exprs_text(es.subrange(0, es.len() - 1)) + ", "@ + expr_text(es[es.len() - 1])
    }
}

/// Display form of a statement.
pub open spec fn stmt_text(s: Statement) -> Seq<char>
    decreases s,
{
    match s {
        Statement::Let(id, e) => "let "@ + id@ + " = "@ + expr_text(e) + ";"@,
        Statement::Return(e) => "return "@ + expr_text(e) + ";"@,
        Statement::Expr(e) => expr_text(e),
    }
}

/// Display forms of statements, concatenated.
pub open spec fn stmts_text(ss: Seq<Statement>) -> Seq<char>
    decreases ss,
{
    if ss.len() == 0 {
        Seq::empty()
    } else {
        stmts_text(ss.subrange(0, ss.len() - 1)) + stmt_text(ss[ss.len() - 1])
    }
}

pub open spec fn node_text(n: Node) -> Seq<char> {
    match n {
        Node::Program(ss) => stmts_text(ss@),
        Node::Stmt(s) => stmt_text(s),
        Node::Expr(e) => expr_text(e),
    }
}

/// The names `ps` joined by `sep`.
pub fn names_to_string(ps: &Vec<String>, sep: &str) -> (r: String)
    ensures
        r@ == names_text(ps@, sep@),
{
    let mut out = String::new();
    let mut i: usize = 0;
    while i < ps.len()
        invariant
            i <= ps@.len(),
            out@ == names_text(ps@.subrange(0, i as int), sep@),
        decreases ps@.len() - i,
    {
        if i > 0 {
            out.append(sep);
        }
        out.append(ps[i].as_str());
        proof {
            let next = ps@.subrange(0, i + 1);
            assert(next.subrange(0, i as int) =~= ps@.subrange(0, i as int));
        }
        i = i + 1;
    }
    proof {
        assert(ps@.subrange(0, ps@.len() as int) =~= ps@);
    }
    out
}

fn exprs_to_string(es: &Vec<Expression>) -> (r: String)
    ensures
        r@ == exprs_text(es@),
    decreases es,
{
    let mut out = String::new();
    let mut i: usize = 0;
    while i < es.len()
        invariant
            i <= es@.len(),
            out@ == exprs_text(es@.subrange(0, i as int)),
        decreases es@.len() - i,
    {
        if i > 0 {
            out.append(", ");
        }
        let t = es[i].to_string();
        out.append(t.as_str());
        proof {
            let next = es@.subrange(0, i + 1);
            assert(next.subrange(0, i as int) =~= es@.subrange(0, i as int));
        }
        i = i + 1;
    }
    proof {
        assert(es@.subrange(0, es@.len() as int) =~= es@);
    }
    out
}

/// Display form of a block: its statements concatenated.
pub fn stmts_to_string(ss: &Vec<Statement>) -> (r: String)
    ensures
        r@ == stmts_text(ss@),
    decreases ss,
{
    let mut out = String::new();
    let mut i: usize = 0;
    while i < ss.len()
        invariant
            i <= ss@.len(),
            out@ == stmts_text(ss@.subrange(0, i as int)),
        decreases ss@.len() - i,
    {
        let t = ss[i].to_string();
        out.append(t.as_str());
        proof {
            let next = ss@.subrange(0, i + 1);
            assert(next.subrange(0, i as int) =~= ss@.subrange(0, i as int));
        }
        i = i + 1;
    }
    proof {
        assert(ss@.subrange(0, ss@.len() as int) =~= ss@);
    }
    out
}

impl Literal {
    pub fn to_string(&self) -> (r: String)
        ensures
            r@ == literal_text(*self),
    {
        match self {
            Literal::Integer(i) => i32_to_string(*i),
            Literal::Boolean(b) => bool_to_string(*b),
        }
    }
}

impl Expression {
    /// Display form: operators fully parenthesised, function bodies elided.
    pub fn to_string(&self) -> (r: String)
        ensures
            r@ == expr_text(*self),
        decreases self,
    {
        match self {
            Expression::Ident(name) => name.clone(),
            Expression::Lit(l) => l.to_string(),
            Expression::Prefix(op, x) => {
                let mut out = String::from_str("(");
                out.append(op.to_string().as_str());
                out.append(x.to_string().as_str());
                out.append(")");
                out
            },
            Expression::Infix(op, l, r) => {
                let mut out = String::from_str("(");
                out.append(l.to_string().as_str());
                out.append(" ");
                out.append(op.to_string().as_str());
                out.append(" ");
                out.append(r.to_string().as_str());
                out.append(")");
                out
            },
            Expression::If(c, t, a) => {
                let mut out = String::from_str("if ");
                out.append(c.to_string().as_str());
                out.append(" { ");
                out.append(stmts_to_string(t).as_str());
                match a {
                    Some(alt) => {
                        out.append(" } else { ");
                        out.append(stmts_to_string(alt).as_str());
                        out.append(" }");
                    },
                    None => {
                        out.append(" }");
                    },
                }
                out
            },
            Expression::Function(ps, _) => {
                let mut out = String::from_str("fn(");
                out.append(names_to_string(ps, ", ").as_str());
                out.append(") {...}");
                out
            },
            Expression::FunctionCall(f, args) => {
                let mut out = f.to_string();
                out.append("(");
                out.append(exprs_to_string(args).as_str());
                out.append(")");
                out
            },
        }
    }
}

impl Statement {
    /// Display form: `let x = e;`, `return e;`, or the expression alone.
    pub fn to_string(&self) -> (r: String)
        ensures
            r@ == stmt_text(*self),
        decreases self,
    {
        match self {
            Statement::Let(id, e) => {
                let mut out = String::from_str("let ");
                out.append(id.as_str());
                out.append(" = ");
                out.append(e.to_string().as_str());
                out.append(";");
                out
            },
            Statement::Return(e) => {
                let mut out = String::from_str("return ");
                out.append(e.to_string().as_str());
                out.append(";");
                out
            },
            Statement::Expr(e) => e.to_string(),
        }
    }
}

impl Node {
    pub fn to_string(&self) -> (r: String)
        ensures
            r@ == node_text(*self),
    {
        match self {
            Node::Program(ss) => stmts_to_string(ss),
            Node::Stmt(s) => s.to_string(),
            Node::Expr(e) => e.to_string(),
        }
    }
}

} // verus!
