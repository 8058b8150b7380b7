use monkey::lexer::Lexer;
use monkey::token::Token;

#[test]
fn test_next_token() -> Result<(), anyhow::Error> {
    let input = "=+(){},;";
    let mut lexer = Lexer::new(input.into());
    let tokens = vec![
        Token::Assign,
        Token::Plus,
        Token::LParen,
        Token::RParen,
        Token::LBrace,
        Token::RBrace,
        Token::Comma,
        Token::Semicolon,
    ];
    for token in tokens {
        let next_token = lexer.next_token();
        println!("expected: {:?}, received {:?}", token, next_token);
        assert_eq!(token, next_token);
    }
    Ok(())
}

#[test]
fn test_tokenize_program() -> Result<(), anyhow::Error> {
    let input = "let five = 5;\
                 let ten = 10;\
                 let add = fn(x, y) { x + y;}; \
                 let result = add(five, ten); \
                 !-/*5; \
                 5 < 10 > 5; \
                 if (5 < 10) { \
                    return true; \
                 } else { \
                    return false; \
                 } \
                 10 == 10; \
                 10 != 9;";
    let mut lexer = Lexer::new(input.into());
    let expected = vec![
        Token::Let,
        Token::Ident("five".to_string()),
        Token::Assign,
        Token::Integer(5),
        Token::Semicolon,
        Token::Let,
        Token::Ident("ten".to_string()),
        Token::Assign,
        Token::Integer(10),
        Token::Semicolon,
        Token::Let,
        Token::Ident("add".to_string()),
        Token::Assign,
        Token::Function,
        Token::LParen,
        Token::Ident("x".to_string()),
        Token::Comma,
        Token::Ident("y".to_string()),
        Token::RParen,
        Token::LBrace,
        Token::Ident("x".to_string()),
        Token::Plus,
        Token::Ident("y".to_string()),
        Token::Semicolon,
        Token::RBrace,
        Token::Semicolon,
        Token::Let,
        Token::Ident("result".to_string()),
        Token::Assign,
        Token::Ident("add".to_string()),
        Token::LParen,
        Token::Ident("five".to_string()),
        Token::Comma,
        Token::Ident("ten".to_string()),
        Token::RParen,
        Token::Semicolon,
        Token::Bang,
        Token::Dash,
        Token::ForwardSlash,
        Token::Asterisk,
        Token::Integer(5),
        Token::Semicolon,
        Token::Integer(5),
        Token::LessThan,
        Token::Integer(10),
        Token::GreaterThan,
        Token::Integer(5),
        Token::Semicolon,
        Token::If,
        Token::LParen,
        Token::Integer(5),
        Token::LessThan,
        Token::Integer(10),
        Token::RParen,
        Token::LBrace,
        Token::Return,
        Token::True,
        Token::Semicolon,
        Token::RBrace,
        Token::Else,
        Token::LBrace,
        Token::Return,
        Token::False,
        Token::Semicolon,
        Token::RBrace,
        Token::Integer(10),
        Token::Equal,
        Token::Integer(10),
        Token::Semicolon,
        Token::Integer(10),
        Token::NotEqual,
        Token::Integer(9),
        Token::Semicolon,
        Token::Eof,
    ];
    for token in expected {
        let next_token = lexer.next_token();
        println!("expected: {:?}, received {:?}", token, next_token);
        assert_eq!(token, next_token);
    }
    Ok(())
}

fn all_tokens(input: &str) -> Vec<Token> {
    let mut lexer = Lexer::new(input.to_string());
    let mut out = Vec::new();
    loop {
        let t = lexer.next_token();
        if t == Token::Eof {
            return out;
        }
        out.push(t);
    }
}

#[test]
fn identifiers_stop_at_digits_and_keywords_are_exact() {
    assert_eq!(
        all_tokens("abc1 _x lets fn_"),
        vec![
            Token::Ident("abc".to_string()),
            Token::Integer(1),
            Token::Ident("_x".to_string()),
            Token::Ident("lets".to_string()),
            Token::Ident("fn_".to_string()),
        ]
    );
}

#[test]
fn integer_literals_and_overflow() {
    assert_eq!(all_tokens("2147483647"), vec![Token::Integer(2147483647)]);
    assert_eq!(all_tokens("0007"), vec![Token::Integer(7)]);
    assert_eq!(all_tokens("2147483648"), vec![Token::Illegal]);
    assert_eq!(all_tokens("99999999999999999999 1"), vec![Token::Illegal, Token::Integer(1)]);
}

#[test]
fn illegal_bytes_and_whitespace() {
    assert_eq!(all_tokens(" \t\r\n"), Vec::<Token>::new());
    assert_eq!(all_tokens("@ = == ! !="), vec![
        Token::Illegal,
        Token::Assign,
        Token::Equal,
        Token::Bang,
        Token::NotEqual,
    ]);
    let mut lexer = Lexer::new(String::new());
    assert_eq!(lexer.next_token(), Token::Eof);
    assert_eq!(lexer.next_token(), Token::Eof);
}

#[test]
fn token_printed_forms() {
    assert_eq!(Token::Ident("foo".to_string()).to_string(), "foo");
    assert_eq!(Token::Integer(-42).to_string(), "-42");
    assert_eq!(Token::NotEqual.to_string(), "!=");
    assert_eq!(Token::Function.to_string(), "fn");
    assert_eq!(Token::Integer(i32::MIN).to_string(), "-2147483648");
}
