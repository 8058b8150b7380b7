use vstd::prelude::*;
use vstd::string::*;
use std::rc::Rc;
use crate::ast::{
    Expression, Literal, Node, SExpr, SStmt, Statement, lemma_view_exprs_push,
    lemma_view_stmts_push, names_view, view_expr, view_exprs, view_stmt, view_stmts,
};
use crate::lexer::{Lexer, lexes_from, lemma_token_progress, nth_end, token_at, token_end};
use crate::token::{Token, token_text};
use vstd::utf8::encode_utf8;

verus! {

/// Binding strength of operators, weakest first.
#[derive(Debug, Clone, Copy, PartialEq, Eq, PartialOrd, Ord)]
pub enum Precedence {
    Lowest,
    Equals,
    LessGreater,
    Sum,
    Product,
    Prefix,
    Call,
}

pub open spec fn rank(p: Precedence) -> nat {
    match p {
        Precedence::Lowest => 1,
        Precedence::Equals => 2,
        Precedence::LessGreater => 3,
        Precedence::Sum => 4,
        Precedence::Product => 5,
        Precedence::Prefix => 6,
        Precedence::Call => 7,
    }
}

/// The precedence of a token standing between two operands.
pub open spec fn precedence_of(t: Token) -> Precedence {
    match t {
        Token::Equal | Token::NotEqual => Precedence::Equals,
        Token::LessThan | Token::GreaterThan => Precedence::LessGreater,
        Token::Plus | Token::Dash => Precedence::Sum,
        Token::Asterisk | Token::ForwardSlash => Precedence::Product,
        Token::LParen => Precedence::Call,
        _ => Precedence::Lowest,
    }
}

pub open spec fn is_binary(t: Token) -> bool {
    match t {
        Token::Plus | Token::Dash | Token::Asterisk | Token::ForwardSlash | Token::Equal
        | Token::NotEqual | Token::LessThan | Token::GreaterThan => true,
        _ => false,
    }
}

/// The message with which parsing gives up when its step budget runs out.
pub open spec fn parse_depth_error() -> Seq<char> {
    "parser step budget exhausted"@
}

/// The token at position `p`; `Eof` past the end.
pub open spec fn cur_tok(t: Seq<Token>, p: int) -> Token {
    if 0 <= p < t.len() {
        t[p]
    } else {
        Token::Eof
    }
}

pub open spec fn peek_tok(t: Seq<Token>, p: int) -> Token {
    cur_tok(t, p + 1)
}

/// The position after advancing by one token; it stays put at the end.
pub open spec fn adv(t: Seq<Token>, p: int) -> int {
    if p < t.len() {
        p + 1
    } else {
        p
    }
}

/// Consumes a `;` that follows, if there is one.
pub open spec fn skip_semicolon(t: Seq<Token>, p: int) -> int {
    if peek_tok(t, p) == Token::Semicolon {
        adv(t, p)
    } else {
        p
    }
}

pub open spec fn identifier_error(got: Token) -> Seq<char> {
    "Expected an identifier but got "@ + token_text(got)
}

pub open spec fn expect_error(want: Token, got: Token) -> Seq<char> {
    "expected next token to be "@ + token_text(want) + ", but got "@ + token_text(got) + " instead"@
}

pub open spec fn no_prefix_error(got: Token) -> Seq<char> {
    "No prefix parse function for "@ + token_text(got) + " is found"@
}

/// Requires the next token to be `want` and advances onto it.
pub open spec fn sp_expect(t: Seq<Token>, p: int, want: Token) -> (Result<(), Seq<char>>, int) {
    if peek_tok(t, p) == want {
        (Ok(()), adv(t, p))
    } else {
        (Err(expect_error(want, peek_tok(t, p))), p)
    }
}

/// An expression whose first token is at `p`, with operators binding more
/// strongly than `prec`; the position is that of its last token.
pub open spec fn sp_expr(t: Seq<Token>, p: int, prec: Precedence, fuel: nat) -> (Result<SExpr, Seq<char>>, int)
    decreases fuel,
{
    if fuel == 0 {
        (Err(parse_depth_error()), p)
    } else {
        let (r, p1) = sp_prefix(t, p, (fuel - 1) as nat);
        match r {
            Ok(left) => sp_infix_loop(t, left, p1, prec, (fuel - 1) as nat),
            Err(m) => (Err(m), p1),
        }
    }
}

/// The operand that starts at `p`, chosen by its first token.
pub open spec fn sp_prefix(t: Seq<Token>, p: int, fuel: nat) -> (Result<SExpr, Seq<char>>, int)
    decreases fuel,
{
    if fuel == 0 {
        (Err(parse_depth_error()), p)
    } else {
        let d = (fuel - 1) as nat;
        match cur_tok(t, p) {
            Token::Ident(name) => (Ok(SExpr::Ident(name@)), p),
            Token::Integer(i) => (Ok(SExpr::Lit(Literal::Integer(i))), p),
            Token::True => (Ok(SExpr::Lit(Literal::Boolean(true))), p),
            Token::False => (Ok(SExpr::Lit(Literal::Boolean(false))), p),
            Token::Bang | Token::Dash => {
                let (r, p1) = sp_expr(t, adv(t, p), Precedence::Prefix, d);
                match r {
                    Ok(x) => (Ok(SExpr::Prefix(cur_tok(t, p), Box::new(x))), p1),
                    Err(m) => (Err(m), p1),
                }
            },
            Token::LParen => {
                let (r, p1) = sp_expr(t, adv(t, p), Precedence::Lowest, d);
                match r {
                    Ok(x) => {
                        let (e, p2) = sp_expect(t, p1, Token::RParen);
                        match e {
                            Ok(_) => (Ok(x), p2),
                            Err(m) => (Err(m), p2),
                        }
                    },
                    Err(m) => (Err(m), p1),
                }
            },
            Token::If => sp_if(t, p, d),
            Token::Function => sp_function(t, p, d),
            other => (Err(no_prefix_error(other)), p),
        }
    }
}

/// Extends `left`, whose last token is at `p`, by the operators and calls that
/// follow while they bind more strongly than `prec`.
pub open spec fn sp_infix_loop(t: Seq<Token>, left: SExpr, p: int, prec: Precedence, fuel: nat) -> (Result<SExpr, Seq<char>>, int)
    decreases fuel,
{
    let next = peek_tok(t, p);
    if next == Token::Semicolon || rank(prec) >= rank(precedence_of(next)) {
        (Ok(left), p)
    } else if fuel == 0 {
        (Err(parse_depth_error()), p)
    } else if is_binary(next) {
        let (r, p1) = sp_infix(t, left, adv(t, p), (fuel - 1) as nat);
        match r {
            Ok(e) => sp_infix_loop(t, e, p1, prec, (fuel - 1) as nat),
            Err(m) => (Err(m), p1),
        }
    } else if next == Token::LParen {
        let (r, p1) = sp_call(t, left, adv(t, p), (fuel - 1) as nat);
        match r {
            Ok(e) => sp_infix_loop(t, e, p1, prec, (fuel - 1) as nat),
            Err(m) => (Err(m), p1),
        }
    } else {
        (Ok(left), p)
    }
}

/// The binary operator at `p` applied to `left` and to the operand after it,
/// which is parsed at the operator's own precedence.
pub open spec fn sp_infix(t: Seq<Token>, left: SExpr, p: int, fuel: nat) -> (Result<SExpr, Seq<char>>, int)
    decreases fuel,
{
    if fuel == 0 {
        (Err(parse_depth_error()), p)
    } else {
        let op = cur_tok(t, p);
        let (r, p1) = sp_expr(t, adv(t, p), precedence_of(op), (fuel - 1) as nat);
        match r {
            Ok(right) => (Ok(SExpr::Infix(op, Box::new(left), Box::new(right))), p1),
            Err(m) => (Err(m), p1),
        }
    }
}

/// A call of `callee` whose `(` is at `p`.
pub open spec fn sp_call(t: Seq<Token>, callee: SExpr, p: int, fuel: nat) -> (Result<SExpr, Seq<char>>, int)
    decreases fuel,
{
    if fuel == 0 {
        (Err(parse_depth_error()), p)
    } else {
        let (r, p1) = sp_args(t, p, (fuel - 1) as nat);
        match r {
            Ok(args) => (Ok(SExpr::Call(Box::new(callee), args)), p1),
            Err(m) => (Err(m), p1),
        }
    }
}

/// Arguments after the `(` at `p`, up to and including the `)`.
pub open spec fn sp_args(t: Seq<Token>, p: int, fuel: nat) -> (Result<Seq<SExpr>, Seq<char>>, int)
    decreases fuel,
{
    if fuel == 0 {
        (Err(parse_depth_error()), p)
    } else if peek_tok(t, p) == Token::RParen {
        (Ok(Seq::empty()), adv(t, p))
    } else {
        let (r, p1) = sp_expr(t, adv(t, p), Precedence::Lowest, (fuel - 1) as nat);
        match r {
            Ok(a) => sp_args_rest(t, seq![a], p1, (fuel - 1) as nat),
            Err(m) => (Err(m), p1),
        }
    }
}

/// Further arguments after `acc`, each after a `,`, then the closing `)`.
pub open spec fn sp_args_rest(t: Seq<Token>, acc: Seq<SExpr>, p: int, fuel: nat) -> (Result<Seq<SExpr>, Seq<char>>, int)
    decreases fuel,
{
    if fuel == 0 {
        (Err(parse_depth_error()), p)
    } else if peek_tok(t, p) == Token::Comma {
        let (r, p1) = sp_expr(t, adv(t, adv(t, p)), Precedence::Lowest, (fuel - 1) as nat);
        match r {
            Ok(a) => sp_args_rest(t, acc.push(a), p1, (fuel - 1) as nat),
            Err(m) => (Err(m), p1),
        }
    } else {
        let (e, p1) = sp_expect(t, p, Token::RParen);
        match e {
            Ok(_) => (Ok(acc), p1),
            Err(m) => (Err(m), p1),
        }
    }
}

/// `if ( cond ) { block }` with an optional `else { block }`, from the `if` at `p`.
pub open spec fn sp_if(t: Seq<Token>, p: int, fuel: nat) -> (Result<SExpr, Seq<char>>, int)
    decreases fuel,
{
    if fuel == 0 {
        (Err(parse_depth_error()), p)
    } else {
        let d = (fuel - 1) as nat;
        let (e1, p1) = sp_expect(t, p, Token::LParen);
        if e1 is Err {
            (Err(e1->Err_0), p1)
        } else {
            let (rc, p2) = sp_expr(t, adv(t, p1), Precedence::Lowest, d);
            match rc {
                Err(m) => (Err(m), p2),
                Ok(c) => {
                    let (e3, p3) = sp_expect(t, p2, Token::RParen);
                    if e3 is Err {
                        (Err(e3->Err_0), p3)
                    } else {
                        let (e4, p4) = sp_expect(t, p3, Token::LBrace);
                        if e4 is Err {
                            (Err(e4->Err_0), p4)
                        } else {
                            let (rb, p5) = sp_block(t, p4, d);
                            match rb {
                                Err(m) => (Err(m), p5),
                                Ok(cons) => if peek_tok(t, p5) == Token::Else {
                                    let (e6, p6) = sp_expect(t, adv(t, p5), Token::LBrace);
                                    if e6 is Err {
                                        (Err(e6->Err_0), p6)
                                    } else {
                                        let (ra, p7) = sp_block(t, p6, d);
                                        match ra {
                                            Err(m) => (Err(m), p7),
                                            Ok(alt) => (Ok(SExpr::If(Box::new(c), cons, Some(alt))), p7),
                                        }
                                    }
                                } else {
                                    (Ok(SExpr::If(Box::new(c), cons, None)), p5)
                                },
                            }
                        }
                    }
                },
            }
        }
    }
}

/// `fn ( params ) { block }`, from the `fn` at `p`.
pub open spec fn sp_function(t: Seq<Token>, p: int, fuel: nat) -> (Result<SExpr, Seq<char>>, int)
    decreases fuel,
{
    if fuel == 0 {
        (Err(parse_depth_error()), p)
    } else {
        let d = (fuel - 1) as nat;
        let (e1, p1) = sp_expect(t, p, Token::LParen);
        if e1 is Err {
            (Err(e1->Err_0), p1)
        } else {
            let (rp, p2) = sp_params(t, p1, d);
            match rp {
                Err(m) => (Err(m), p2),
                Ok(ps) => {
                    let (e3, p3) = sp_expect(t, p2, Token::LBrace);
                    if e3 is Err {
                        (Err(e3->Err_0), p3)
                    } else {
                        let (rb, p4) = sp_block(t, p3, d);
                        match rb {
                            Err(m) => (Err(m), p4),
                            Ok(body) => (Ok(SExpr::Function(ps, body)), p4),
                        }
                    }
                },
            }
        }
    }
}

/// Parameter names after the `(` at `p`, up to and including the `)`.
pub open spec fn sp_params(t: Seq<Token>, p: int, fuel: nat) -> (Result<Seq<Seq<char>>, Seq<char>>, int)
    decreases fuel,
{
    if fuel == 0 {
        (Err(parse_depth_error()), p)
    } else if peek_tok(t, p) == Token::RParen {
        (Ok(Seq::empty()), adv(t, p))
    } else {
        let p1 = adv(t, p);
        match cur_tok(t, p1) {
            Token::Ident(name) => sp_params_rest(t, seq![name@], p1, (fuel - 1) as nat),
            other => (Err(identifier_error(other)), p1),
        }
    }
}

/// Further parameter names after `acc`, each after a `,`, then the `)`.
pub open spec fn sp_params_rest(t: Seq<Token>, acc: Seq<Seq<char>>, p: int, fuel: nat) -> (Result<Seq<Seq<char>>, Seq<char>>, int)
    decreases fuel,
{
    if fuel == 0 {
        (Err(parse_depth_error()), p)
    } else if peek_tok(t, p) == Token::Comma {
        let p1 = adv(t, adv(t, p));
        match cur_tok(t, p1) {
            Token::Ident(name) => sp_params_rest(t, acc.push(name@), p1, (fuel - 1) as nat),
            other => (Err(identifier_error(other)), p1),
        }
    } else {
        let (e, p1) = sp_expect(t, p, Token::RParen);
        match e {
            Ok(_) => (Ok(acc), p1),
            Err(m) => (Err(m), p1),
        }
    }
}

/// The statements of a block whose `{` is at `p`, up to its `}` or the end of
/// input. A statement that fails to parse is left out.
pub open spec fn sp_block(t: Seq<Token>, p: int, fuel: nat) -> (Result<Seq<SStmt>, Seq<char>>, int)
    decreases fuel,
{
    if fuel == 0 {
        (Err(parse_depth_error()), p)
    } else {
        sp_block_loop(t, Seq::empty(), adv(t, p), (fuel - 1) as nat)
    }
}

pub open spec fn sp_block_loop(t: Seq<Token>, acc: Seq<SStmt>, p: int, fuel: nat) -> (Result<Seq<SStmt>, Seq<char>>, int)
    decreases fuel,
{
    let c = cur_tok(t, p);
    if c == Token::RBrace || c == Token::Eof {
        (Ok(acc), p)
    } else if fuel == 0 {
        (Err(parse_depth_error()), p)
    } else {
        let (r, p1) = sp_stmt(t, p, (fuel - 1) as nat);
        match r {
            Ok(s) => sp_block_loop(t, acc.push(s), adv(t, p1), (fuel - 1) as nat),
            Err(m) => if m == parse_depth_error() {
                (Err(m), p1)
            } else {
                sp_block_loop(t, acc, adv(t, p1), (fuel - 1) as nat)
            },
        }
    }
}

/// The statement that starts at `p`; the position is that of its last token.
pub open spec fn sp_stmt(t: Seq<Token>, p: int, fuel: nat) -> (Result<SStmt, Seq<char>>, int)
    decreases fuel,
{
    if fuel == 0 {
        (Err(parse_depth_error()), p)
    } else {
        match cur_tok(t, p) {
            Token::Let => sp_let(t, p, (fuel - 1) as nat),
            Token::Return => sp_return(t, p, (fuel - 1) as nat),
            _ => sp_expr_stmt(t, p, (fuel - 1) as nat),
        }
    }
}

/// `let <ident> = <expression>` with an optional `;`, from the `let` at `p`.
pub open spec fn sp_let(t: Seq<Token>, p: int, fuel: nat) -> (Result<SStmt, Seq<char>>, int)
    decreases fuel,
{
    if fuel == 0 {
        (Err(parse_depth_error()), p)
    } else {
        match peek_tok(t, p) {
            Token::Ident(name) => {
                let (e, p1) = sp_expect(t, adv(t, p), Token::Assign);
                if e is Err {
                    (Err(e->Err_0), p1)
                } else {
                    let (r, p2) = sp_expr(t, adv(t, p1), Precedence::Lowest, (fuel - 1) as nat);
                    match r {
                        Ok(v) => (Ok(SStmt::Let(name@, v)), skip_semicolon(t, p2)),
                        Err(m) => (Err(m), p2),
                    }
                }
            },
            other => (Err(identifier_error(other)), p),
        }
    }
}

/// `return <expression>` with an optional `;`, from the `return` at `p`.
pub open spec fn sp_return(t: Seq<Token>, p: int, fuel: nat) -> (Result<SStmt, Seq<char>>, int)
    decreases fuel,
{
    if fuel == 0 {
        (Err(parse_depth_error()), p)
    } else {
        let (r, p1) = sp_expr(t, adv(t, p), Precedence::Lowest, (fuel - 1) as nat);
        match r {
            Ok(v) => (Ok(SStmt::Return(v)), skip_semicolon(t, p1)),
            Err(m) => (Err(m), p1),
        }
    }
}

/// An expression with an optional `;`, from `p`.
pub open spec fn sp_expr_stmt(t: Seq<Token>, p: int, fuel: nat) -> (Result<SStmt, Seq<char>>, int)
    decreases fuel,
{
    if fuel == 0 {
        (Err(parse_depth_error()), p)
    } else {
        let (r, p1) = sp_expr(t, p, Precedence::Lowest, (fuel - 1) as nat);
        match r {
            Ok(v) => (Ok(SStmt::Expr(v)), skip_semicolon(t, p1)),
            Err(m) => (Err(m), p1),
        }
    }
}

/// A program from position `p` on, after statements `acc` and errors `errs`:
/// every statement is tried, and the program stands only if none failed.
pub open spec fn sp_program(t: Seq<Token>, p: int, acc: Seq<SStmt>, errs: Seq<Seq<char>>, fuel: nat) -> Result<Seq<SStmt>, Seq<Seq<char>>>
    decreases fuel,
{
    if cur_tok(t, p) == Token::Eof {
        if errs.len() == 0 {
            Ok(acc)
        } else {
            Err(errs)
        }
    } else if fuel == 0 {
        Err(errs.push(parse_depth_error()))
    } else {
        let (r, p1) = sp_stmt(t, p, (fuel - 1) as nat);
        match r {
            Ok(s) => sp_program(t, adv(t, p1), acc.push(s), errs, (fuel - 1) as nat),
            Err(m) => sp_program(t, adv(t, p1), acc, errs.push(m), (fuel - 1) as nat),
        }
    }
}

/// The step budget of `parse`: no input of a size that fits in memory can
/// exhaust it.
pub const PARSE_FUEL: u64 = 18446744073709551615;

/// A parse error: a message for a person to read.
#[derive(Debug, Clone)]
pub struct ParserError {
    msg: String,
}

impl View for ParserError {
    type V = Seq<char>;

    closed spec fn view(&self) -> Seq<char> {
        self.msg@
    }
}

impl ParserError {
    pub fn new(msg: String) -> (r: ParserError)
        ensures
            r@ == msg@,
    {
        ParserError { msg }
    }

    /// The message.
    pub fn to_string(&self) -> (r: String)
        ensures
            r@ == self@,
    {
        self.msg.clone()
    }

    fn is_depth_error(&self) -> (r: bool)
        ensures
            r == (self@ == parse_depth_error()),
    {
        self.msg == String::from_str("parser step budget exhausted")
    }
}

pub open spec fn errors_view(es: Seq<ParserError>) -> Seq<Seq<char>> {
    es.map_values(|e: ParserError| e@)
}

pub open spec fn expr_res(r: Result<Expression, ParserError>) -> Result<SExpr, Seq<char>> {
    match r {
        Ok(e) => Ok(view_expr(e)),
        Err(e) => Err(e@),
    }
}

pub open spec fn stmt_res(r: Result<Statement, ParserError>) -> Result<SStmt, Seq<char>> {
    match r {
        Ok(s) => Ok(view_stmt(s)),
        Err(e) => Err(e@),
    }
}

pub open spec fn exprs_res(r: Result<Vec<Expression>, ParserError>) -> Result<Seq<SExpr>, Seq<char>> {
    match r {
        Ok(es) => Ok(view_exprs(es@)),
        Err(e) => Err(e@),
    }
}

pub open spec fn stmts_res(r: Result<Vec<Statement>, ParserError>) -> Result<Seq<SStmt>, Seq<char>> {
    match r {
        Ok(ss) => Ok(view_stmts(ss@)),
        Err(e) => Err(e@),
    }
}

pub open spec fn names_res(r: Result<Vec<String>, ParserError>) -> Result<Seq<Seq<char>>, Seq<char>> {
    match r {
        Ok(ns) => Ok(names_view(ns@)),
        Err(e) => Err(e@),
    }
}

pub open spec fn unit_res(r: Result<(), ParserError>) -> Result<(), Seq<char>> {
    match r {
        Ok(_) => Ok(()),
        Err(e) => Err(e@),
    }
}

pub open spec fn program_res(r: Result<Vec<Statement>, Vec<ParserError>>) -> Result<Seq<SStmt>, Seq<Seq<char>>> {
    match r {
        Ok(ss) => Ok(view_stmts(ss@)),
        Err(es) => Err(errors_view(es@)),
    }
}

/// The tokens that the parser looks for by kind: none carries a
/// payload.
pub open spec fn is_plain(t: Token) -> bool {
    t is Assign || t is RParen || t is LParen || t is LBrace || t is RBrace || t is Semicolon
        || t is Comma || t is Else || t is Eof
}

fn same_plain(a: &Token, want: &Token) -> (r: bool)
    requires
        is_plain(*want),
    ensures
        r == (*a == *want),
{
    match want {
        Token::Assign => matches!(a, Token::Assign),
        Token::RParen => matches!(a, Token::RParen),
        Token::LParen => matches!(a, Token::LParen),
        Token::LBrace => matches!(a, Token::LBrace),
        Token::RBrace => matches!(a, Token::RBrace),
        Token::Semicolon => matches!(a, Token::Semicolon),
        Token::Comma => matches!(a, Token::Comma),
        Token::Else => matches!(a, Token::Else),
        _ => matches!(a, Token::Eof),
    }
}

fn is_binary_token(t: &Token) -> (r: bool)
    ensures
        r == is_binary(*t),
{
    match t {
        Token::Plus | Token::Dash | Token::Asterisk | Token::ForwardSlash | Token::Equal
        | Token::NotEqual | Token::LessThan | Token::GreaterThan => true,
        _ => false,
    }
}

impl Precedence {
    pub fn rank(&self) -> (r: u8)
        ensures
            r as nat == rank(*self),
    {
        match self {
            Precedence::Lowest => 1,
            Precedence::Equals => 2,
            Precedence::LessGreater => 3,
            Precedence::Sum => 4,
            Precedence::Product => 5,
            Precedence::Prefix => 6,
            Precedence::Call => 7,
        }
    }
}

/// The precedence of a token standing between two operands; `Lowest` for a
/// token that is no operator.
pub fn token_to_precedence(token: &Token) -> (r: Precedence)
    ensures
        r == precedence_of(*token),
{
    match token {
        Token::Equal | Token::NotEqual => Precedence::Equals,
        Token::LessThan | Token::GreaterThan => Precedence::LessGreater,
        Token::Plus | Token::Dash => Precedence::Sum,
        Token::Asterisk | Token::ForwardSlash => Precedence::Product,
        Token::LParen => Precedence::Call,
        _ => Precedence::Lowest,
    }
}

fn depth_error<T>() -> (r: Result<T, ParserError>)
    ensures
        r matches Err(e) && e@ == parse_depth_error(),
{
    Err(ParserError::new(String::from_str("parser step budget exhausted")))
}

fn identifier_error_of(got: &Token) -> (r: ParserError)
    ensures
        r@ == identifier_error(*got),
{
    let mut m = String::from_str("Expected an identifier but got ");
    m.append(got.to_string().as_str());
    ParserError::new(m)
}

/// A parser over the tokens of one source text.
pub struct Parser {
    tokens: Vec<Token>,
    pos: usize,
}

impl Parser {
    /// The tokens, the final `Eof` left out.
    pub closed spec fn tokens(&self) -> Seq<Token> {
        self.tokens@
    }

    /// The position of the current token.
    pub closed spec fn position(&self) -> int {
        self.pos as int
    }

    pub closed spec fn wf(&self) -> bool {
        self.pos <= self.tokens@.len()
    }

    spec fn kept(&self, other: &Parser) -> bool {
        other.wf() && other.tokens@ == self.tokens@
    }

    /// A parser over all tokens that `lexer` has yet to give, at the first.
    pub fn new(lexer: Lexer) -> (r: Parser)
        requires
            lexer.wf(),
        ensures
            r.wf(),
            lexes_from(lexer.input(), lexer.pos(), r.tokens()),
            r.position() == 0,
    {
        let mut lex = lexer;
        let ghost s = lexer.input();
        let ghost i0 = lexer.pos();
        let mut tokens: Vec<Token> = Vec::new();
        proof {
            lex.lemma_pos_bounds();
        }
        loop
            invariant
                lex.wf(),
                lex.input() == s,
                s == lexer.input(),
                i0 == lexer.pos(),
                0 <= lex.pos() <= s.len(),
                lex.pos() == nth_end(s, i0, tokens@.len()),
                forall|k: int| 0 <= k < tokens@.len() ==> token_at(s, nth_end(s, i0, k as nat), #[trigger] tokens@[k]),
                forall|k: int| 0 <= k < tokens@.len() ==> #[trigger] tokens@[k] != Token::Eof,
            decreases s.len() - lex.pos(),
        {
            proof {
                lemma_token_progress(s, lex.pos());
            }
            let ghost at = lex.pos();
            let t = lex.next_token();
            if matches!(t, Token::Eof) {
                let r = Parser { tokens, pos: 0 };
                proof {
                    assert(token_at(s, at, t));
                    assert(token_at(s, nth_end(s, i0, r.tokens@.len()), Token::Eof));
                }
                return r;
            }
            let ghost before = tokens@;
            tokens.push(t);
            proof {
                assert(nth_end(s, i0, tokens@.len()) == token_end(s, nth_end(s, i0, before.len())));
                assert forall|k: int| 0 <= k < tokens@.len() implies token_at(s, nth_end(s, i0, k as nat), #[trigger] tokens@[k]) by {
                    if k < before.len() {
                        assert(tokens@[k] == before[k]);
                    }
                }
            }
        }
    }

    fn cur(&self) -> (r: Token)
        requires
            self.wf(),
        ensures
            r == cur_tok(self.tokens@, self.pos as int),
    {
        if self.pos < self.tokens.len() {
            self.tokens[self.pos].copy()
        } else {
            Token::Eof
        }
    }

    fn peek(&self) -> (r: Token)
        requires
            self.wf(),
        ensures
            r == peek_tok(self.tokens@, self.pos as int),
    {
        if self.pos < self.tokens.len() && self.pos + 1 < self.tokens.len() {
            self.tokens[self.pos + 1].copy()
        } else {
            Token::Eof
        }
    }

    fn peek_is(&self, want: &Token) -> (r: bool)
        requires
            self.wf(),
            is_plain(*want),
        ensures
            r == (peek_tok(self.tokens@, self.pos as int) == *want),
    {
        let p = self.peek();
        same_plain(&p, want)
    }

    fn next_token(&mut self)
        requires
            old(self).wf(),
        ensures
            old(self).kept(final(self)),
            final(self).pos as int == adv(old(self).tokens@, old(self).pos as int),
    {
        if self.pos < self.tokens.len() {
            self.pos = self.pos + 1;
        }
    }

    fn expect_peek_token(&mut self, want: &Token) -> (r: Result<(), ParserError>)
        requires
            old(self).wf(),
            is_plain(*want),
        ensures
            old(self).kept(final(self)),
            (unit_res(r), final(self).pos as int) == sp_expect(old(self).tokens@, old(self).pos as int, *want),
    {
        if self.peek_is(want) {
            self.next_token();
            Ok(())
        } else {
            let mut m = String::from_str("expected next token to be ");
            m.append(want.to_string().as_str());
            m.append(", but got ");
            m.append(self.peek().to_string().as_str());
            m.append(" instead");
            Err(ParserError::new(m))
        }
    }

    fn parse_expression(&mut self, precedence: Precedence, fuel: u64) -> (r: Result<Expression, ParserError>)
        requires
            old(self).wf(),
        ensures
            old(self).kept(final(self)),
            (expr_res(r), final(self).pos as int) == sp_expr(old(self).tokens@, old(self).pos as int, precedence, fuel as nat),
        decreases fuel,
    {
        if fuel == 0 {
            return depth_error();
        }
        match self.parse_prefix(fuel - 1) {
            Ok(left) => self.parse_infix_loop(left, precedence, fuel - 1),
            Err(m) => Err(m),
        }
    }

    fn parse_prefix(&mut self, fuel: u64) -> (r: Result<Expression, ParserError>)
        requires
            old(self).wf(),
        ensures
            old(self).kept(final(self)),
            (expr_res(r), final(self).pos as int) == sp_prefix(old(self).tokens@, old(self).pos as int, fuel as nat),
        decreases fuel,
    {
        if fuel == 0 {
            return depth_error();
        }
        let d = fuel - 1;
        let current = self.cur();
        match current {
            Token::Ident(name) => Ok(Expression::Ident(name)),
            Token::Integer(i) => Ok(Expression::Lit(Literal::Integer(i))),
            Token::True => Ok(Expression::Lit(Literal::Boolean(true))),
            Token::False => Ok(Expression::Lit(Literal::Boolean(false))),
            Token::Bang | Token::Dash => {
                self.next_token();
                match self.parse_expression(Precedence::Prefix, d) {
                    Ok(x) => Ok(Expression::Prefix(current, Box::new(x))),
                    Err(m) => Err(m),
                }
            },
            Token::LParen => {
                self.next_token();
                match self.parse_expression(Precedence::Lowest, d) {
                    Ok(x) => match self.expect_peek_token(&Token::RParen) {
                        Ok(_) => Ok(x),
                        Err(m) => Err(m),
                    },
                    Err(m) => Err(m),
                }
            },
            Token::If => self.parse_if_expression(d),
            Token::Function => self.parse_function_literal(d),
            other => {
                let mut m = String::from_str("No prefix parse function for ");
                m.append(other.to_string().as_str());
                m.append(" is found");
                Err(ParserError::new(m))
            },
        }
    }

    fn parse_infix_loop(&mut self, left: Expression, precedence: Precedence, fuel: u64) -> (r: Result<Expression, ParserError>)
        requires
            old(self).wf(),
        ensures
            old(self).kept(final(self)),
            (expr_res(r), final(self).pos as int) == sp_infix_loop(old(self).tokens@, view_expr(left), old(self).pos as int, precedence, fuel as nat),
        decreases fuel,
    {
        let ghost left0 = view_expr(left);
        let mut acc = left;
        let mut f = fuel;
        loop
            invariant
                old(self).kept(self),
                f <= fuel,
                left0 == view_expr(left),
                sp_infix_loop(old(self).tokens@, left0, old(self).pos as int, precedence, fuel as nat)
                    == sp_infix_loop(self.tokens@, view_expr(acc), self.pos as int, precedence, f as nat),
            decreases f,
        {
            let next = self.peek();
            if matches!(next, Token::Semicolon) || precedence.rank() >= token_to_precedence(&next).rank() {
                return Ok(acc);
            }
            if f == 0 {
                return depth_error();
            }
            if is_binary_token(&next) {
                self.next_token();
                match self.parse_infix_expression(acc, f - 1) {
                    Ok(e) => {
                        acc = e;
                    },
                    Err(m) => {
                        return Err(m);
                    },
                }
            } else if matches!(next, Token::LParen) {
                self.next_token();
                match self.parse_call_expression(acc, f - 1) {
                    Ok(e) => {
                        acc = e;
                    },
                    Err(m) => {
                        return Err(m);
                    },
                }
            } else {
                return Ok(acc);
            }
            f = f - 1;
        }
    }

    fn parse_infix_expression(&mut self, left: Expression, fuel: u64) -> (r: Result<Expression, ParserError>)
        requires
            old(self).wf(),
        ensures
            old(self).kept(final(self)),
            (expr_res(r), final(self).pos as int) == sp_infix(old(self).tokens@, view_expr(left), old(self).pos as int, fuel as nat),
        decreases fuel,
    {
        if fuel == 0 {
            return depth_error();
        }
        let op = self.cur();
        let precedence = token_to_precedence(&op);
        self.next_token();
        match self.parse_expression(precedence, fuel - 1) {
            Ok(right) => Ok(Expression::Infix(op, Box::new(left), Box::new(right))),
            Err(m) => Err(m),
        }
    }

    fn parse_call_expression(&mut self, callee: Expression, fuel: u64) -> (r: Result<Expression, ParserError>)
        requires
            old(self).wf(),
        ensures
            old(self).kept(final(self)),
            (expr_res(r), final(self).pos as int) == sp_call(old(self).tokens@, view_expr(callee), old(self).pos as int, fuel as nat),
        decreases fuel,
    {
        if fuel == 0 {
            return depth_error();
        }
        match self.parse_call_arguments(fuel - 1) {
            Ok(args) => Ok(Expression::FunctionCall(Box::new(callee), args)),
            Err(m) => Err(m),
        }
    }

    fn parse_call_arguments(&mut self, fuel: u64) -> (r: Result<Vec<Expression>, ParserError>)
        requires
            old(self).wf(),
        ensures
            old(self).kept(final(self)),
            (exprs_res(r), final(self).pos as int) == sp_args(old(self).tokens@, old(self).pos as int, fuel as nat),
        decreases fuel,
    {
        if fuel == 0 {
            return depth_error();
        }
        if self.peek_is(&Token::RParen) {
            self.next_token();
            let none: Vec<Expression> = Vec::new();
            proof {
                assert(view_exprs(none@) =~= Seq::<SExpr>::empty());
            }
            return Ok(none);
        }
        self.next_token();
        let first = match self.parse_expression(Precedence::Lowest, fuel - 1) {
            Ok(a) => a,
            Err(m) => {
                return Err(m);
            },
        };
        let mut args: Vec<Expression> = Vec::new();
        proof {
            lemma_view_exprs_push(args@, first);
            assert(view_exprs(args@) =~= Seq::<SExpr>::empty());
            assert(args@.push(first) =~= seq![first]);
        }
        args.push(first);
        proof {
            assert(view_exprs(args@) =~= seq![view_expr(first)]);
        }
        let mut f = fuel - 1;
        loop
            invariant
                old(self).kept(self),
                f < fuel,
                sp_args(old(self).tokens@, old(self).pos as int, fuel as nat)
                    == sp_args_rest(self.tokens@, view_exprs(args@), self.pos as int, f as nat),
            decreases f,
        {
            if f == 0 {
                return depth_error();
            }
            if self.peek_is(&Token::Comma) {
                self.next_token();
                self.next_token();
                match self.parse_expression(Precedence::Lowest, f - 1) {
                    Ok(a) => {
                        proof {
                            lemma_view_exprs_push(args@, a);
                        }
                        args.push(a);
                    },
                    Err(m) => {
                        return Err(m);
                    },
                }
                f = f - 1;
            } else {
                return match self.expect_peek_token(&Token::RParen) {
                    Ok(_) => Ok(args),
                    Err(m) => Err(m),
                };
            }
        }
    }

    fn parse_if_expression(&mut self, fuel: u64) -> (r: Result<Expression, ParserError>)
        requires
            old(self).wf(),
        ensures
            old(self).kept(final(self)),
            (expr_res(r), final(self).pos as int) == sp_if(old(self).tokens@, old(self).pos as int, fuel as nat),
        decreases fuel,
    {
        if fuel == 0 {
            return depth_error();
        }
        let d = fuel - 1;
        match self.expect_peek_token(&Token::LParen) {
            Ok(_) => {},
            Err(m) => {
                return Err(m);
            },
        }
        self.next_token();
        let condition = match self.parse_expression(Precedence::Lowest, d) {
            Ok(c) => c,
            Err(m) => {
                return Err(m);
            },
        };
        match self.expect_peek_token(&Token::RParen) {
            Ok(_) => {},
            Err(m) => {
                return Err(m);
            },
        }
        match self.expect_peek_token(&Token::LBrace) {
            Ok(_) => {},
            Err(m) => {
                return Err(m);
            },
        }
        let consequence = match self.parse_block_statement(d) {
            Ok(b) => b,
            Err(m) => {
                return Err(m);
            },
        };
        if self.peek_is(&Token::Else) {
            self.next_token();
            match self.expect_peek_token(&Token::LBrace) {
                Ok(_) => {},
                Err(m) => {
                    return Err(m);
                },
            }
            match self.parse_block_statement(d) {
                Ok(alternative) => Ok(Expression::If(Box::new(condition), consequence, Some(alternative))),
                Err(m) => Err(m),
            }
        } else {
            Ok(Expression::If(Box::new(condition), consequence, None))
        }
    }

    fn parse_function_literal(&mut self, fuel: u64) -> (r: Result<Expression, ParserError>)
        requires
            old(self).wf(),
        ensures
            old(self).kept(final(self)),
            (expr_res(r), final(self).pos as int) == sp_function(old(self).tokens@, old(self).pos as int, fuel as nat),
        decreases fuel,
    {
        if fuel == 0 {
            return depth_error();
        }
        let d = fuel - 1;
        match self.expect_peek_token(&Token::LParen) {
            Ok(_) => {},
            Err(m) => {
                return Err(m);
            },
        }
        let params = match self.parse_function_parameters(d) {
            Ok(ps) => ps,
            Err(m) => {
                return Err(m);
            },
        };
        match self.expect_peek_token(&Token::LBrace) {
            Ok(_) => {},
            Err(m) => {
                return Err(m);
            },
        }
        match self.parse_block_statement(d) {
            Ok(body) => Ok(Expression::Function(Rc::new(params), Rc::new(body))),
            Err(m) => Err(m),
        }
    }

    fn parse_function_parameters(&mut self, fuel: u64) -> (r: Result<Vec<String>, ParserError>)
        requires
            old(self).wf(),
        ensures
            old(self).kept(final(self)),
            (names_res(r), final(self).pos as int) == sp_params(old(self).tokens@, old(self).pos as int, fuel as nat),
        decreases fuel,
    {
        if fuel == 0 {
            return depth_error();
        }
        if self.peek_is(&Token::RParen) {
            self.next_token();
            let none: Vec<String> = Vec::new();
            proof {
                assert(names_view(none@) =~= Seq::<Seq<char>>::empty());
            }
            return Ok(none);
        }
        self.next_token();
        let mut names: Vec<String> = Vec::new();
        match self.cur() {
            Token::Ident(name) => {
                names.push(name);
            },
            other => {
                return Err(identifier_error_of(&other));
            },
        }
        proof {
            assert(names_view(names@) =~= seq![names@[0]@]);
        }
        let mut f = fuel - 1;
        loop
            invariant
                old(self).kept(self),
                f < fuel,
                sp_params(old(self).tokens@, old(self).pos as int, fuel as nat)
                    == sp_params_rest(self.tokens@, names_view(names@), self.pos as int, f as nat),
            decreases f,
        {
            if f == 0 {
                return depth_error();
            }
            if self.peek_is(&Token::Comma) {
                self.next_token();
                self.next_token();
                match self.cur() {
                    Token::Ident(name) => {
                        let ghost before = names@;
                        names.push(name);
                        proof {
                            assert(names_view(names@) =~= names_view(before).push(names@.last()@));
                        }
                    },
                    other => {
                        return Err(identifier_error_of(&other));
                    },
                }
                f = f - 1;
            } else {
                return match self.expect_peek_token(&Token::RParen) {
                    Ok(_) => Ok(names),
                    Err(m) => Err(m),
                };
            }
        }
    }

    fn parse_block_statement(&mut self, fuel: u64) -> (r: Result<Vec<Statement>, ParserError>)
        requires
            old(self).wf(),
        ensures
            old(self).kept(final(self)),
            (stmts_res(r), final(self).pos as int) == sp_block(old(self).tokens@, old(self).pos as int, fuel as nat),
        decreases fuel,
    {
        if fuel == 0 {
            return depth_error();
        }
        self.next_token();
        let mut stmts: Vec<Statement> = Vec::new();
        proof {
            assert(view_stmts(stmts@) =~= Seq::<SStmt>::empty());
        }
        let mut f = fuel - 1;
        loop
            invariant
                old(self).kept(self),
                f < fuel,
                sp_block(old(self).tokens@, old(self).pos as int, fuel as nat)
                    == sp_block_loop(self.tokens@, view_stmts(stmts@), self.pos as int, f as nat),
            decreases f,
        {
            let c = self.cur();
            if matches!(c, Token::RBrace) || matches!(c, Token::Eof) {
                return Ok(stmts);
            }
            if f == 0 {
                return depth_error();
            }
            match self.parse_statement(f - 1) {
                Ok(s) => {
                    proof {
                        lemma_view_stmts_push(stmts@, s);
                    }
                    stmts.push(s);
                },
                Err(m) => {
                    if m.is_depth_error() {
                        return Err(m);
                    }
                },
            }
            self.next_token();
            f = f - 1;
        }
    }

    fn parse_statement(&mut self, fuel: u64) -> (r: Result<Statement, ParserError>)
        requires
            old(self).wf(),
        ensures
            old(self).kept(final(self)),
            (stmt_res(r), final(self).pos as int) == sp_stmt(old(self).tokens@, old(self).pos as int, fuel as nat),
        decreases fuel,
    {
        if fuel == 0 {
            return depth_error();
        }
        match self.cur() {
            Token::Let => self.parse_let_statement(fuel - 1),
            Token::Return => self.parse_return_statement(fuel - 1),
            _ => self.parse_expression_statement(fuel - 1),
        }
    }

    fn parse_let_statement(&mut self, fuel: u64) -> (r: Result<Statement, ParserError>)
        requires
            old(self).wf(),
        ensures
            old(self).kept(final(self)),
            (stmt_res(r), final(self).pos as int) == sp_let(old(self).tokens@, old(self).pos as int, fuel as nat),
        decreases fuel,
    {
        if fuel == 0 {
            return depth_error();
        }
        let name = match self.peek() {
            Token::Ident(name) => name,
            other => {
                return Err(identifier_error_of(&other));
            },
        };
        self.next_token();
        match self.expect_peek_token(&Token::Assign) {
            Ok(_) => {},
            Err(m) => {
                return Err(m);
            },
        }
        self.next_token();
        let value = match self.parse_expression(Precedence::Lowest, fuel - 1) {
            Ok(v) => v,
            Err(m) => {
                return Err(m);
            },
        };
        if self.peek_is(&Token::Semicolon) {
            self.next_token();
        }
        Ok(Statement::Let(name, value))
    }

    fn parse_return_statement(&mut self, fuel: u64) -> (r: Result<Statement, ParserError>)
        requires
            old(self).wf(),
        ensures
            old(self).kept(final(self)),
            (stmt_res(r), final(self).pos as int) == sp_return(old(self).tokens@, old(self).pos as int, fuel as nat),
        decreases fuel,
    {
        if fuel == 0 {
            return depth_error();
        }
        self.next_token();
        let value = match self.parse_expression(Precedence::Lowest, fuel - 1) {
            Ok(v) => v,
            Err(m) => {
                return Err(m);
            },
        };
        if self.peek_is(&Token::Semicolon) {
            self.next_token();
        }
        Ok(Statement::Return(value))
    }

    fn parse_expression_statement(&mut self, fuel: u64) -> (r: Result<Statement, ParserError>)
        requires
            old(self).wf(),
        ensures
            old(self).kept(final(self)),
            (stmt_res(r), final(self).pos as int) == sp_expr_stmt(old(self).tokens@, old(self).pos as int, fuel as nat),
        decreases fuel,
    {
        if fuel == 0 {
            return depth_error();
        }
        let value = match self.parse_expression(Precedence::Lowest, fuel - 1) {
            Ok(v) => v,
            Err(m) => {
                return Err(m);
            },
        };
        if self.peek_is(&Token::Semicolon) {
            self.next_token();
        }
        Ok(Statement::Expr(value))
    }

    /// Parses statements up to the end of input. The program stands only if
    /// every statement parsed; else all the errors come back, in order.
    pub fn parse_program(&mut self) -> (r: Result<Vec<Statement>, Vec<ParserError>>)
        requires
            old(self).wf(),
        ensures
            final(self).wf(),
            final(self).tokens() == old(self).tokens(),
            program_res(r) == sp_program(old(self).tokens(), old(self).position(), Seq::empty(), Seq::empty(), PARSE_FUEL as nat),
    {
        let mut stmts: Vec<Statement> = Vec::new();
        let mut errors: Vec<ParserError> = Vec::new();
        proof {
            assert(view_stmts(stmts@) =~= Seq::<SStmt>::empty());
            assert(errors_view(errors@) =~= Seq::<Seq<char>>::empty());
        }
        let mut f: u64 = PARSE_FUEL;
        loop
            invariant
                old(self).kept(self),
                sp_program(old(self).tokens@, old(self).pos as int, Seq::empty(), Seq::empty(), PARSE_FUEL as nat)
                    == sp_program(self.tokens@, self.pos as int, view_stmts(stmts@), errors_view(errors@), f as nat),
            decreases f,
        {
            if matches!(self.cur(), Token::Eof) {
                if errors.len() == 0 {
                    return Ok(stmts);
                } else {
                    return Err(errors);
                }
            }
            if f == 0 {
                let ghost before = errors@;
                errors.push(ParserError::new(String::from_str("parser step budget exhausted")));
                proof {
                    assert(errors_view(errors@) =~= errors_view(before).push(parse_depth_error()));
                }
                return Err(errors);
            }
            match self.parse_statement(f - 1) {
                Ok(s) => {
                    proof {
                        lemma_view_stmts_push(stmts@, s);
                    }
                    stmts.push(s);
                },
                Err(e) => {
                    let ghost before = errors@;
                    errors.push(e);
                    proof {
                        assert(errors_view(errors@) =~= errors_view(before).push(e@));
                    }
                },
            }
            self.next_token();
            f = f - 1;
        }
    }
}

/// Parses a source text into a program, or gives every parse error.
pub fn parse(input: &str) -> (r: Result<Node, Vec<ParserError>>)
    ensures
        r matches Ok(n) ==> n is Program,
        exists|toks: Seq<Token>|
            #![auto]
            lexes_from(encode_utf8(input@), 0, toks) && sp_program(toks, 0, Seq::empty(), Seq::empty(), PARSE_FUEL as nat)
                == match r {
                Ok(Node::Program(ss)) => Ok(view_stmts(ss@)),
                Ok(_) => Err(Seq::empty()),
                Err(es) => Err(errors_view(es@)),
            },
{
    let lexer = Lexer::new(String::from_str(input));
    let mut parser = Parser::new(lexer);
    let ghost toks = parser.tokens();
    match parser.parse_program() {
        Ok(program) => Ok(Node::Program(program)),
        Err(errors) => Err(errors),
    }
}

} // verus!
