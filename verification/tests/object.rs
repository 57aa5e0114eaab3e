use monkey::object::{Object, ObjectKind};
use monkey::text::{decimal_string, read_integer};
use monkey::token::{Token, TokenKind};

#[test]
fn hash_keys_tell_variant_and_value_apart() {
    assert_eq!(Object::Integer(42).create_hash_key(), Some("Integer<42>".to_string()));
    assert_eq!(Object::Integer(-7).create_hash_key(), Some("Integer<-7>".to_string()));
    assert_eq!(Object::Bool(true).create_hash_key(), Some("Bool<true>".to_string()));
    assert_eq!(Object::Bool(false).create_hash_key(), Some("Bool<false>".to_string()));
    assert_eq!(
        Object::StringValue("foo".to_string()).create_hash_key(),
        Some("StringValue<foo>".to_string())
    );
    assert_eq!(Object::StringValue("1".to_string()).create_hash_key(), Some("StringValue<1>".to_string()));
    assert_eq!(Object::Null.create_hash_key(), None);
    assert_eq!(Object::Array(vec![]).create_hash_key(), None);
    assert_eq!(Object::Error("e".to_string()).create_hash_key(), None);
}

#[test]
fn variant_tests() {
    assert!(Object::Integer(1).is_integer());
    assert!(!Object::Bool(true).is_integer());
    assert!(Object::StringValue("".to_string()).is_string());
    assert!(!Object::Integer(1).is_string());
    assert!(Object::Error("x".to_string()).is_error());
    assert!(!Object::Null.is_error());
    assert!(Object::Integer(1).is_same(&Object::Integer(2)));
    assert!(!Object::Integer(1).is_same(&Object::Bool(true)));
    assert!(Object::Array(vec![]).is_same(&Object::Array(vec![Object::Null])));
    assert_eq!(Object::Hash(vec![]).kind(), ObjectKind::Hash);
}

#[test]
fn equality_is_structural_for_simple_values_only() {
    assert_eq!(Object::Null, Object::Null);
    assert_eq!(Object::Integer(3), Object::Integer(3));
    assert_ne!(Object::Integer(3), Object::Integer(4));
    assert_eq!(Object::StringValue("a".to_string()), Object::StringValue("a".to_string()));
    assert_eq!(Object::Error("a".to_string()), Object::Error("a".to_string()));
    assert_ne!(Object::Error("a".to_string()), Object::StringValue("a".to_string()));
    assert_ne!(Object::Array(vec![]), Object::Array(vec![]));
    assert_ne!(Object::Builtin("len".to_string()), Object::Builtin("len".to_string()));
    assert_ne!(
        Object::ReturnValue(Box::new(Object::Null)),
        Object::ReturnValue(Box::new(Object::Null))
    );
}

#[test]
fn inspect_shows_variant_and_value() {
    assert_eq!(Object::Integer(-12).inspect(), "Integer(-12)");
    assert_eq!(Object::Bool(false).inspect(), "Bool(false)");
    assert_eq!(Object::StringValue("hi".to_string()).inspect(), "StringValue(\"hi\")");
    assert_eq!(Object::Error("bad".to_string()).inspect(), "Error(\"bad\")");
    assert_eq!(Object::Builtin("len".to_string()).inspect(), "Builtin(\"len\")");
    assert_eq!(Object::Null.inspect(), "Null");
    assert_eq!(Object::Array(vec![Object::Null]).inspect(), "Array");
}

#[test]
fn clone_copies_nested_values() {
    let array = Object::Array(vec![
        Object::Integer(1),
        Object::StringValue("two".to_string()),
        Object::Array(vec![Object::Bool(true)]),
    ]);
    let copy = array.clone();
    assert_eq!(format!("{:?}", copy), format!("{:?}", array));
}

#[test]
fn decimal_notation() {
    assert_eq!(decimal_string(0), "0");
    assert_eq!(decimal_string(7), "7");
    assert_eq!(decimal_string(10), "10");
    assert_eq!(decimal_string(-1), "-1");
    assert_eq!(decimal_string(1234567890), "1234567890");
    assert_eq!(decimal_string(i64::MAX), "9223372036854775807");
    assert_eq!(decimal_string(i64::MIN), "-9223372036854775808");
}

#[test]
fn reading_integers() {
    assert_eq!(read_integer("0"), Some(0));
    assert_eq!(read_integer("42"), Some(42));
    assert_eq!(read_integer("0042"), Some(42));
    assert_eq!(read_integer("9223372036854775807"), Some(i64::MAX));
    assert_eq!(read_integer("9223372036854775808"), None);
    assert_eq!(read_integer("99999999999999999999999"), None);
    assert_eq!(read_integer(""), None);
    assert_eq!(read_integer("12a"), None);
    assert_eq!(read_integer("-5"), None);
    assert_eq!(read_integer("+5"), None);
}

#[test]
fn token_kinds_and_texts() {
    assert_eq!(Token::Ident("a".to_string()).kind(), TokenKind::Ident);
    assert!(Token::Ident("a".to_string()).is_same(&Token::Ident("b".to_string())));
    assert!(!Token::Ident("a".to_string()).is_same(&Token::Int("a".to_string())));
    assert!(Token::Plus.is_same(&Token::Plus));
    assert_eq!(Token::Ident("hello".to_string()).literal(), "hello");
    assert_eq!(Token::Function.literal(), "fn");
    assert_eq!(Token::Function.to_string(), "function");
    assert_eq!(Token::Eof.to_string(), "EOF");
    assert_eq!(Token::Int("12".to_string()).to_string(), "12");
    assert_eq!(Token::Str("s".to_string()).to_string(), "s");
    assert_eq!(Token::Illegal("@".to_string()).to_string(), "Illegal(@)");
    assert_eq!(Token::NotEq.inspect(), "NotEq");
    assert_eq!(Token::Str("s".to_string()).inspect(), "Str(\"s\")");
}

#[test]
fn fixed_tokens_from_their_spelling() {
    assert_eq!(Token::from_str("="), Ok(Token::Assign));
    assert_eq!(Token::from_str("=="), Ok(Token::Eq));
    assert_eq!(Token::from_str("!="), Ok(Token::NotEq));
    assert_eq!(Token::from_str("fn"), Ok(Token::Function));
    assert_eq!(Token::from_str("return"), Ok(Token::Return));
    assert_eq!(Token::from_str("]"), Ok(Token::RBracket));
    assert_eq!(Token::from_str("function"), Err(()));
    assert_eq!(Token::from_str("x"), Err(()));
    assert_eq!(Token::from_str(""), Err(()));
    assert_eq!(Token::from_str("EOF"), Err(()));
}
