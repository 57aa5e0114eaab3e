use monkey::lexer::Lexer;
use monkey::token::Token;
use monkey::token::Token::{
    Assign, Asterisk, Bang, Comma, Eof, Function, Ident, Int, LBrace, LParen, Let, Minus, NotEq,
    Plus, RBrace, RParen, SemiColon, Slash, GT, LT,
};

#[test]
fn test_next_symbol() {
    let input = "=+(){},;\n-!*/<>\n===!=!!\n".to_string();
    let mut lexer = Lexer::new(input);

    assert_eq!(lexer.token(), Assign);
    assert_eq!(lexer.token(), Plus);
    assert_eq!(lexer.token(), LParen);
    assert_eq!(lexer.token(), RParen);
    assert_eq!(lexer.token(), LBrace);
    assert_eq!(lexer.token(), RBrace);

    assert_eq!(lexer.token(), Comma);
    assert_eq!(lexer.token(), SemiColon);
    assert_eq!(lexer.token(), Minus);
    assert_eq!(lexer.token(), Bang);
    assert_eq!(lexer.token(), Asterisk);
    assert_eq!(lexer.token(), Slash);
    assert_eq!(lexer.token(), LT);
    assert_eq!(lexer.token(), GT);

    assert_eq!(lexer.token(), Token::Eq);
    assert_eq!(lexer.token(), Assign);
    assert_eq!(lexer.token(), NotEq);
    assert_eq!(lexer.token(), Bang);
    assert_eq!(lexer.token(), Bang);

    assert_eq!(lexer.token(), Eof);
}

#[test]
fn test_next_let() {
    let input = "let five = 5;".to_string();
    let mut lexer = Lexer::new(input);

    assert_eq!(lexer.token(), Let);
    assert_eq!(lexer.token(), Ident("five".to_string()));
    assert_eq!(lexer.token(), Assign);
    assert_eq!(lexer.token(), Int("5".to_string()));
    assert_eq!(lexer.token(), SemiColon);
    assert_eq!(lexer.token(), Eof);
}

#[test]
fn test_next_function() {
    let input = "let add = fn(x, y) {\n  x + y;\n};\n\nlet result = add(five, ten);\n".to_string();
    let mut lexer = Lexer::new(input);

    assert_eq!(lexer.token(), Let);
    assert_eq!(lexer.token(), Ident("add".to_string()));
    assert_eq!(lexer.token(), Assign);

    assert_eq!(lexer.token(), Function);

    assert_eq!(lexer.token(), LParen);
    assert_eq!(lexer.token(), Ident("x".to_string()));
    assert_eq!(lexer.token(), Comma);
    assert_eq!(lexer.token(), Ident("y".to_string()));
    assert_eq!(lexer.token(), RParen);

    assert_eq!(lexer.token(), LBrace);
    assert_eq!(lexer.token(), Ident("x".to_string()));
    assert_eq!(lexer.token(), Plus);
    assert_eq!(lexer.token(), Ident("y".to_string()));
    assert_eq!(lexer.token(), SemiColon);
    assert_eq!(lexer.token(), RBrace);
    assert_eq!(lexer.token(), SemiColon);

    assert_eq!(lexer.token(), Let);
    assert_eq!(lexer.token(), Ident("result".to_string()));
    assert_eq!(lexer.token(), Assign);

    assert_eq!(lexer.token(), Ident("add".to_string()));
    assert_eq!(lexer.token(), LParen);
    assert_eq!(lexer.token(), Ident("five".to_string()));
    assert_eq!(lexer.token(), Comma);
    assert_eq!(lexer.token(), Ident("ten".to_string()));
    assert_eq!(lexer.token(), RParen);
    assert_eq!(lexer.token(), SemiColon);

    assert_eq!(lexer.token(), Eof);
}

#[test]
fn test_read_identifier() {
    let input = "let five = 5;".to_string();
    let mut lexer = Lexer::new(input);

    assert_eq!(lexer.read_identifier(), "let".to_string());
    lexer.next();
    assert_eq!(lexer.read_identifier(), "five".to_string());
}

#[test]
fn test_display() {
    assert_eq!(Token::Plus.to_string(), "+");
    assert_eq!(Token::LBrace.to_string(), "{");
    assert_eq!(Token::Ident("hello".to_string()).to_string(), "\"hello\"");
}

#[test]
fn it_works() {
    assert_eq!(2 + 2, 4);
}

#[test]
fn strings_keywords_and_illegal_characters() {
    let mut lexer = Lexer::new("if else true false return fn_x \"a b\" 12ab @ [1]:".to_string());
    assert_eq!(lexer.token(), Token::If);
    assert_eq!(lexer.token(), Token::Else);
    assert_eq!(lexer.token(), Token::True);
    assert_eq!(lexer.token(), Token::False);
    assert_eq!(lexer.token(), Token::Return);
    assert_eq!(lexer.token(), Ident("fn_x".to_string()));
    assert_eq!(lexer.token(), Token::Str("a b".to_string()));
    assert_eq!(lexer.token(), Int("12".to_string()));
    assert_eq!(lexer.token(), Ident("ab".to_string()));
    assert_eq!(lexer.token(), Token::Illegal("@".to_string()));
    assert_eq!(lexer.token(), Token::LBracket);
    assert_eq!(lexer.token(), Int("1".to_string()));
    assert_eq!(lexer.token(), Token::RBracket);
    assert_eq!(lexer.token(), Token::Colon);
    assert_eq!(lexer.token(), Eof);
    assert_eq!(lexer.token(), Eof);
}

#[test]
fn unterminated_string_runs_to_the_end() {
    let mut lexer = Lexer::new("\"abc".to_string());
    assert_eq!(lexer.token(), Token::Str("abc".to_string()));
    assert_eq!(lexer.token(), Eof);
    let mut lexer = Lexer::new("\"\"x".to_string());
    assert_eq!(lexer.token(), Token::Str("".to_string()));
    assert_eq!(lexer.token(), Ident("x".to_string()));
}

#[test]
fn unicode_white_space_separates_tokens() {
    let mut lexer = Lexer::new("a\u{00A0}b\u{2003}c\u{3000}\u{0085}d\u{200B}".to_string());
    assert_eq!(lexer.token(), Ident("a".to_string()));
    assert_eq!(lexer.token(), Ident("b".to_string()));
    assert_eq!(lexer.token(), Ident("c".to_string()));
    assert_eq!(lexer.token(), Ident("d".to_string()));
    assert_eq!(lexer.token(), Token::Illegal("\u{200B}".to_string()));
    assert_eq!(lexer.token(), Eof);
}

#[test]
fn next_stops_at_the_end() {
    let mut lexer = Lexer::new("ab".to_string());
    lexer.next();
    lexer.next();
    lexer.next();
    lexer.next();
    assert_eq!(lexer.token(), Eof);
    let mut lexer = Lexer::new("= =".to_string());
    assert_eq!(lexer.token(), Assign);
    assert_eq!(lexer.token(), Assign);
    assert_eq!(lexer.token(), Eof);
}
