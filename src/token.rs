use vstd::prelude::*;
use vstd::string::*;

verus! {

/// A lexical token of the language.
#[derive(Debug, Clone, PartialEq, Eq)]
pub enum Token {
    Ident(String),
    Integer(i32),
    Illegal,
    Eof,
    Assign,
    Plus,
    Dash,
    Bang,
    Asterisk,
    ForwardSlash,
    LessThan,
    GreaterThan,
    Equal,
    NotEqual,
    Comma,
    Semicolon,
    LParen,
    RParen,
    LBrace,
    RBrace,
    Function,
    Let,
    True,
    False,
    If,
    Else,
    Return,
}

/// The decimal digit character for `d`, which is below ten.
pub open spec fn digit_char(d: nat) -> char {
    if d == 0 { '0' } else if d == 1 { '1' } else if d == 2 { '2' } else if d == 3 { '3' }
    else if d == 4 { '4' } else if d == 5 { '5' } else if d == 6 { '6' } else if d == 7 { '7' }
    else if d == 8 { '8' } else { '9' }
}

/// Decimal text of a natural number, without leading zeros.
pub open spec fn nat_text(n: nat) -> Seq<char>
    decreases n,
{
    if n < 10 {
        seq![digit_char(n)]
    } else {
        nat_text(n / 10) + seq![digit_char(n % 10)]
    }
}

/// Decimal text of an integer, with a leading `-` when negative.
pub open spec fn int_text(i: int) -> Seq<char> {
    if i < 0 {
        seq!['-'] + nat_text((-i) as nat)
    } else {
        nat_text(i as nat)
    }
}

/// Text of a boolean.
pub open spec fn bool_text(b: bool) -> Seq<char> {
    if b { "true"@ } else { "false"@ }
}

/// The printed form of a token: its source form, or the payload of an
/// identifier or integer.
pub open spec fn token_text(t: Token) -> Seq<char> {
    match t {
        Token::Ident(name) => name@,
        Token::Integer(i) => int_text(i as int),
        Token::Illegal => "ILLEGAL"@,
        Token::Eof => "EOF"@,
        Token::Assign => "="@,
        Token::Plus => "+"@,
        Token::Dash => "-"@,
        Token::Bang => "!"@,
        Token::Asterisk => "*"@,
        Token::ForwardSlash => "/"@,
        Token::LessThan => "<"@,
        Token::GreaterThan => ">"@,
        Token::Equal => "=="@,
        Token::NotEqual => "!="@,
        Token::Comma => ","@,
        Token::Semicolon => ";"@,
        Token::LParen => "("@,
        Token::RParen => ")"@,
        Token::LBrace => "{"@,
        Token::RBrace => "}"@,
        Token::Function => "fn"@,
        Token::Let => "let"@,
        Token::True => "true"@,
        Token::False => "false"@,
        Token::If => "if"@,
        Token::Else => "else"@,
        Token::Return => "return"@,
    }
}

fn digit_str(d: u32) -> (r: &'static str)
    requires
        d < 10,
    ensures
        r@ == seq![digit_char(d as nat)],
{
    proof {
        reveal_strlit("0");
        reveal_strlit("1");
        reveal_strlit("2");
        reveal_strlit("3");
        reveal_strlit("4");
        reveal_strlit("5");
        reveal_strlit("6");
        reveal_strlit("7");
        reveal_strlit("8");
        reveal_strlit("9");
    }
    match d {
        0 => "0",
        1 => "1",
        2 => "2",
        3 => "3",
        4 => "4",
        5 => "5",
        6 => "6",
        7 => "7",
        8 => "8",
        _ => "9",
    }
}

/// Decimal text of a natural number.
pub fn u64_to_string(n: u64) -> (r: String)
    ensures
        r@ == nat_text(n as nat),
    decreases n,
{
    if n < 10 {
        String::from_str(digit_str(n as u32))
    } else {
        let mut s = u64_to_string(n / 10);
        s.append(digit_str((n % 10) as u32));
        s
    }
}

/// Decimal text of a 32-bit integer.
pub fn i32_to_string(i: i32) -> (r: String)
    ensures
        r@ == int_text(i as int),
{
    if i < 0 {
        let m: u64 = (-(i as i64)) as u64;
        let mut s = String::from_str("-");
        let digits = u64_to_string(m);
        s.append(digits.as_str());
        proof {
            reveal_strlit("-");
        }
        s
    } else {
        u64_to_string(i as u64)
    }
}

/// Text of a boolean.
pub fn bool_to_string(b: bool) -> (r: String)
    ensures
        r@ == bool_text(b),
{
    if b {
        String::from_str("true")
    } else {
        String::from_str("false")
    }
}

impl Token {
    /// The printed form of the token.
    pub fn to_string(&self) -> (r: String)
        ensures
            r@ == token_text(*self),
    {
        match self {
            Token::Ident(name) => name.clone(),
            Token::Integer(i) => i32_to_string(*i),
            Token::Illegal => String::from_str("ILLEGAL"),
            Token::Eof => String::from_str("EOF"),
            Token::Assign => String::from_str("="),
            Token::Plus => String::from_str("+"),
            Token::Dash => String::from_str("-"),
            Token::Bang => String::from_str("!"),
            Token::Asterisk => String::from_str("*"),
            Token::ForwardSlash => String::from_str("/"),
            Token::LessThan => String::from_str("<"),
            Token::GreaterThan => String::from_str(">"),
            Token::Equal => String::from_str("=="),
            Token::NotEqual => String::from_str("!="),
            Token::Comma => String::from_str(","),
            Token::Semicolon => String::from_str(";"),
            Token::LParen => String::from_str("("),
            Token::RParen => String::from_str(")"),
            Token::LBrace => String::from_str("{"),
            Token::RBrace => String::from_str("}"),
            Token::Function => String::from_str("fn"),
            Token::Let => String::from_str("let"),
            Token::True => String::from_str("true"),
            Token::False => String::from_str("false"),
            Token::If => String::from_str("if"),
            Token::Else => String::from_str("else"),
            Token::Return => String::from_str("return"),
        }
    }

    /// A copy of the token equal to it.
    pub fn copy(&self) -> (r: Token)
        ensures
            r == *self,
    {
        match self {
            Token::Ident(name) => Token::Ident(name.clone()),
            Token::Integer(i) => Token::Integer(*i),
            Token::Illegal => Token::Illegal,
            Token::Eof => Token::Eof,
            Token::Assign => Token::Assign,
            Token::Plus => Token::Plus,
            Token::Dash => Token::Dash,
            Token::Bang => Token::Bang,
            Token::Asterisk => Token::Asterisk,
            Token::ForwardSlash => Token::ForwardSlash,
            Token::LessThan => Token::LessThan,
            Token::GreaterThan => Token::GreaterThan,
            Token::Equal => Token::Equal,
            Token::NotEqual => Token::NotEqual,
            Token::Comma => Token::Comma,
            Token::Semicolon => Token::Semicolon,
            Token::LParen => Token::LParen,
            Token::RParen => Token::RParen,
            Token::LBrace => Token::LBrace,
            Token::RBrace => Token::RBrace,
            Token::Function => Token::Function,
            Token::Let => Token::Let,
            Token::True => Token::True,
            Token::False => Token::False,
            Token::If => Token::If,
            Token::Else => Token::Else,
            Token::Return => Token::Return,
        }
    }
}

} // verus!
