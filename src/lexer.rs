use vstd::prelude::*;
use vstd::string::*;
use vstd::utf8::encode_utf8;
use crate::token::Token;

verus! {

/// Space, tab, carriage return and line feed.
pub open spec fn is_space(c: u8) -> bool {
    c == 32 || c == 9 || c == 13 || c == 10
}

/// ASCII letters and `_`: the bytes of an identifier.
pub open spec fn is_letter(c: u8) -> bool {
    (65 <= c <= 90) || (97 <= c <= 122) || c == 95
}

pub open spec fn is_digit(c: u8) -> bool {
    48 <= c <= 57
}

/// The first position at or after `i` that does not hold whitespace.
pub open spec fn skip_space(s: Seq<u8>, i: int) -> int
    decreases s.len() - i,
{
    if 0 <= i < s.len() && is_space(s[i]) {
        skip_space(s, i + 1)
    } else {
        i
    }
}

/// The end of the maximal run of letters that starts at `i`.
pub open spec fn letters_end(s: Seq<u8>, i: int) -> int
    decreases s.len() - i,
{
    if 0 <= i < s.len() && is_letter(s[i]) {
        letters_end(s, i + 1)
    } else {
        i
    }
}

/// The end of the maximal run of digits that starts at `i`.
pub open spec fn digits_end(s: Seq<u8>, i: int) -> int
    decreases s.len() - i,
{
    if 0 <= i < s.len() && is_digit(s[i]) {
        digits_end(s, i + 1)
    } else {
        i
    }
}

/// The number that the decimal digits in `s[a..b]` denote.
pub open spec fn digits_value(s: Seq<u8>, a: int, b: int) -> int
    decreases b - a,
{
    if b <= a {
        0
    } else {
        digits_value(s, a, b - 1) * 10 + (s[b - 1] - 48)
    }
}

/// The characters of a run of ASCII bytes.
pub open spec fn ascii_chars(b: Seq<u8>) -> Seq<char> {
    b.map_values(|c: u8| c as char)
}

/// The token that a word of letters stands for: a keyword, else an identifier
/// named by the word.
pub open spec fn is_word_token(t: Token, w: Seq<char>) -> bool {
    if w == "fn"@ {
        t == Token::Function
    } else if w == "let"@ {
        t == Token::Let
    } else if w == "true"@ {
        t == Token::True
    } else if w == "false"@ {
        t == Token::False
    } else if w == "if"@ {
        t == Token::If
    } else if w == "else"@ {
        t == Token::Else
    } else if w == "return"@ {
        t == Token::Return
    } else {
        match t {
            Token::Ident(name) => name@ == w,
            _ => false,
        }
    }
}

/// The token of a byte that stands alone.
pub open spec fn single_token(c: u8) -> Token {
    if c == 43 {
        Token::Plus
    } else if c == 45 {
        Token::Dash
    } else if c == 42 {
        Token::Asterisk
    } else if c == 47 {
        Token::ForwardSlash
    } else if c == 60 {
        Token::LessThan
    } else if c == 62 {
        Token::GreaterThan
    } else if c == 44 {
        Token::Comma
    } else if c == 59 {
        Token::Semicolon
    } else if c == 40 {
        Token::LParen
    } else if c == 41 {
        Token::RParen
    } else if c == 123 {
        Token::LBrace
    } else if c == 125 {
        Token::RBrace
    } else {
        Token::Illegal
    }
}

/// Whether the byte after position `p` is `=`.
pub open spec fn eq_follows(s: Seq<u8>, p: int) -> bool {
    p + 1 < s.len() && s[p + 1] == 61
}

/// Whether `t` is the token that starts at the first non-space position at or
/// after `i`.
pub open spec fn token_at(s: Seq<u8>, i: int, t: Token) -> bool {
    let p = skip_space(s, i);
    if p >= s.len() {
        t == Token::Eof
    } else {
        let c = s[p];
        if is_letter(c) {
            is_word_token(t, ascii_chars(s.subrange(p, letters_end(s, p))))
        } else if is_digit(c) {
            let v = digits_value(s, p, digits_end(s, p));
            if v <= i32::MAX {
                t == Token::Integer(v as i32)
            } else {
                t == Token::Illegal
            }
        } else if c == 61 {
            t == (if eq_follows(s, p) { Token::Equal } else { Token::Assign })
        } else if c == 33 {
            t == (if eq_follows(s, p) { Token::NotEqual } else { Token::Bang })
        } else {
            t == single_token(c)
        }
    }
}

/// The position just after the token that `token_at` describes.
pub open spec fn token_end(s: Seq<u8>, i: int) -> int {
    let p = skip_space(s, i);
    if p >= s.len() {
        p
    } else if is_letter(s[p]) {
        letters_end(s, p)
    } else if is_digit(s[p]) {
        digits_end(s, p)
    } else if (s[p] == 61 || s[p] == 33) && eq_follows(s, p) {
        p + 2
    } else {
        p + 1
    }
}

proof fn lemma_skip_space_bounds(s: Seq<u8>, i: int)
    requires
        0 <= i <= s.len(),
    ensures
        i <= skip_space(s, i) <= s.len(),
    decreases s.len() - i,
{
    if i < s.len() && is_space(s[i]) {
        lemma_skip_space_bounds(s, i + 1);
    }
}

proof fn lemma_letters_end_bounds(s: Seq<u8>, i: int)
    requires
        0 <= i <= s.len(),
    ensures
        i <= letters_end(s, i) <= s.len(),
        forall|k: int| i <= k < letters_end(s, i) ==> is_letter(#[trigger] s[k]),
    decreases s.len() - i,
{
    if i < s.len() && is_letter(s[i]) {
        lemma_letters_end_bounds(s, i + 1);
    }
}

proof fn lemma_digits_end_bounds(s: Seq<u8>, i: int)
    requires
        0 <= i <= s.len(),
    ensures
        i <= digits_end(s, i) <= s.len(),
    decreases s.len() - i,
{
    if i < s.len() && is_digit(s[i]) {
        lemma_digits_end_bounds(s, i + 1);
    }
}

proof fn lemma_digits_value_nonneg(s: Seq<u8>, a: int, b: int)
    requires
        0 <= a,
        b <= s.len(),
        forall|k: int| a <= k < b ==> is_digit(#[trigger] s[k]),
    ensures
        digits_value(s, a, b) >= 0,
    decreases b - a,
{
    if b > a {
        lemma_digits_value_nonneg(s, a, b - 1);
    }
}

/// A token ends no earlier than where reading starts, and strictly later
/// unless only whitespace remains.
pub proof fn lemma_token_progress(s: Seq<u8>, i: int)
    requires
        0 <= i <= s.len(),
    ensures
        i <= token_end(s, i) <= s.len(),
        skip_space(s, i) < s.len() ==> i < token_end(s, i),
{
    lemma_skip_space_bounds(s, i);
    let p = skip_space(s, i);
    if p < s.len() {
        if is_letter(s[p]) {
            lemma_letters_end_bounds(s, p);
            lemma_letters_end_bounds(s, p + 1);
        } else if is_digit(s[p]) {
            lemma_digits_end_bounds(s, p + 1);
        }
    }
}

/// Where reading stops after `n` tokens have been read from position `i`.
pub open spec fn nth_end(s: Seq<u8>, i: int, n: nat) -> int
    decreases n,
{
    if n == 0 {
        i
    } else {
        token_end(s, nth_end(s, i, (n - 1) as nat))
    }
}

/// Whether `toks` are the tokens read from position `i` up to the end of the
/// input, the final `Eof` left out.
pub open spec fn lexes_from(s: Seq<u8>, i: int, toks: Seq<Token>) -> bool {
    &&& forall|k: int| 0 <= k < toks.len() ==> token_at(s, nth_end(s, i, k as nat), #[trigger] toks[k])
    &&& forall|k: int| 0 <= k < toks.len() ==> toks[k] != Token::Eof
    &&& token_at(s, nth_end(s, i, toks.len()), Token::Eof)
}

/// Reads a run of ASCII bytes as text.
///
/// Relies on `String::from_utf8_lossy`: input that is valid UTF-8, as ASCII
/// bytes are, comes back with each byte as the character of that code.
#[verifier::external_body]
fn ascii_string(b: &Vec<u8>, start: usize, end: usize) -> (r: String)
    requires
        start <= end <= b@.len(),
        forall|k: int| start <= k < end ==> #[trigger] b@[k] < 128,
    ensures
        r@ == ascii_chars(b@.subrange(start as int, end as int)),
{
    String::from_utf8_lossy(&b[start..end]).into_owned()
}

/// A lexer over the bytes of a source text.
pub struct Lexer {
    input: Vec<u8>,
    position: usize,
}

impl Lexer {
    /// The bytes being read.
    pub closed spec fn input(&self) -> Seq<u8> {
        self.input@
    }

    /// The position of the next byte to read.
    pub closed spec fn pos(&self) -> int {
        self.position as int
    }

    pub closed spec fn wf(&self) -> bool {
        self.position <= self.input@.len()
    }

    /// A lexer at the start of `input`.
    pub fn new(input: String) -> (r: Lexer)
        ensures
            r.wf(),
            r.input() == encode_utf8(input@),
            r.pos() == 0,
            r.pos() <= r.input().len(),
    {
        let bytes = input.as_str().as_bytes_vec();
        Lexer { input: bytes, position: 0 }
    }

    fn peek_is_assign(&self) -> (r: bool)
        requires
            self.wf(),
        ensures
            r == eq_follows(self.input@, self.position as int),
    {
        self.position < self.input.len() && self.input.len() - self.position > 1 && self.input[self.position + 1] == 61
    }

    fn skip_whitespace(&mut self)
        requires
            old(self).wf(),
        ensures
            final(self).wf(),
            final(self).input@ == old(self).input@,
            final(self).position as int == skip_space(old(self).input@, old(self).position as int),
    {
        let ghost s = self.input@;
        let ghost start = self.position as int;
        while self.position < self.input.len() && (self.input[self.position] == 32
            || self.input[self.position] == 9 || self.input[self.position] == 13
            || self.input[self.position] == 10)
            invariant
                self.wf(),
                self.input@ == s,
                skip_space(s, start) == skip_space(s, self.position as int),
            decreases self.input@.len() - self.position,
        {
            self.position = self.position + 1;
        }
    }

    fn read_identifier(&mut self) -> (r: String)
        requires
            old(self).wf(),
        ensures
            final(self).wf(),
            final(self).input@ == old(self).input@,
            final(self).position as int == letters_end(old(self).input@, old(self).position as int),
            r@ == ascii_chars(old(self).input@.subrange(old(self).position as int, final(self).position as int)),
    {
        let ghost s = self.input@;
        let start = self.position;
        while self.position < self.input.len() && is_letter_byte(self.input[self.position])
            invariant
                self.wf(),
                self.input@ == s,
                start <= self.position,
                letters_end(s, start as int) == letters_end(s, self.position as int),
                forall|k: int| start <= k < self.position ==> is_letter(#[trigger] s[k]),
            decreases self.input@.len() - self.position,
        {
            self.position = self.position + 1;
        }
        ascii_string(&self.input, start, self.position)
    }

    fn read_number(&mut self) -> (r: Option<i32>)
        requires
            old(self).wf(),
        ensures
            final(self).wf(),
            final(self).input@ == old(self).input@,
            final(self).position as int == digits_end(old(self).input@, old(self).position as int),
            ({
                let v = digits_value(old(self).input@, old(self).position as int, final(self).position as int);
                if v <= i32::MAX { r == Some(v as i32) } else { r is None }
            }),
    {
        let ghost s = self.input@;
        let start = self.position;
        let mut acc: i64 = 0;
        let mut over = false;
        while self.position < self.input.len() && is_digit_byte(self.input[self.position])
            invariant
                self.wf(),
                self.input@ == s,
                start <= self.position,
                digits_end(s, start as int) == digits_end(s, self.position as int),
                forall|k: int| start <= k < self.position ==> is_digit(#[trigger] s[k]),
                !over ==> acc == digits_value(s, start as int, self.position as int),
                !over ==> 0 <= acc <= i32::MAX,
                over ==> digits_value(s, start as int, self.position as int) > i32::MAX,
            decreases self.input@.len() - self.position,
        {
            let d = self.input[self.position] - 48;
            proof {
                lemma_digits_value_nonneg(s, start as int, self.position as int);
            }
            if !over {
                let n = acc * 10 + d as i64;
                if n > 2147483647 {
                    over = true;
                } else {
                    acc = n;
                }
            }
            self.position = self.position + 1;
        }
        if over {
            None
        } else {
            Some(acc as i32)
        }
    }

    /// The position of a well-formed lexer lies within its input.
    pub proof fn lemma_pos_bounds(&self)
        requires
            self.wf(),
        ensures
            0 <= self.pos() <= self.input().len(),
    {
    }

    /// Reads the next token, skipping the whitespace before it; `Eof` once the
    /// input is used up. An integer too large for 32 bits reads as `Illegal`.
    pub fn next_token(&mut self) -> (r: Token)
        requires
            old(self).wf(),
        ensures
            final(self).wf(),
            final(self).input() == old(self).input(),
            token_at(old(self).input(), old(self).pos(), r),
            final(self).pos() == token_end(old(self).input(), old(self).pos()),
            0 <= final(self).pos() <= final(self).input().len(),
    {
        proof {
            lemma_skip_space_bounds(self.input@, self.position as int);
        }
        self.skip_whitespace();
        if self.position >= self.input.len() {
            return Token::Eof;
        }
        let c = self.input[self.position];
        if is_letter_byte(c) {
            proof {
                lemma_letters_end_bounds(self.input@, self.position as int);
            }
            let id = self.read_identifier();
            return keyword_or_ident(id);
        }
        if is_digit_byte(c) {
            return match self.read_number() {
                Some(v) => Token::Integer(v),
                None => Token::Illegal,
            };
        }
        let tok = if c == 61 {
            if self.peek_is_assign() {
                self.position = self.position + 1;
                Token::Equal
            } else {
                Token::Assign
            }
        } else if c == 33 {
            if self.peek_is_assign() {
                self.position = self.position + 1;
                Token::NotEqual
            } else {
                Token::Bang
            }
        } else {
            single_byte_token(c)
        };
        self.position = self.position + 1;
        tok
    }
}

fn is_letter_byte(c: u8) -> (r: bool)
    ensures
        r == is_letter(c),
{
    (65 <= c && c <= 90) || (97 <= c && c <= 122) || c == 95
}

fn is_digit_byte(c: u8) -> (r: bool)
    ensures
        r == is_digit(c),
{
    48 <= c && c <= 57
}

fn keyword_or_ident(id: String) -> (r: Token)
    ensures
        is_word_token(r, id@),
{
    if id == String::from_str("fn") {
        Token::Function
    } else if id == String::from_str("let") {
        Token::Let
    } else if id == String::from_str("true") {
        Token::True
    } else if id == String::from_str("false") {
        Token::False
    } else if id == String::from_str("if") {
        Token::If
    } else if id == String::from_str("else") {
        Token::Else
    } else if id == String::from_str("return") {
        Token::Return
    } else {
        Token::Ident(id)
    }
}

fn single_byte_token(c: u8) -> (r: Token)
    ensures
        r == single_token(c),
{
    match c {
        43 => Token::Plus,
        45 => Token::Dash,
        42 => Token::Asterisk,
        47 => Token::ForwardSlash,
        60 => Token::LessThan,
        62 => Token::GreaterThan,
        44 => Token::Comma,
        59 => Token::Semicolon,
        40 => Token::LParen,
        41 => Token::RParen,
        123 => Token::LBrace,
        125 => Token::RBrace,
        _ => Token::Illegal,
    }
}

} // verus!
