use monkey::ast::Node;
use monkey::token::Token;

#[test]
fn ast_test_new_let_statement() {
    let i = Node::new_identifier(Token::Ident("".to_string()), "".to_string());
    let ii = Node::new_identifier(Token::Ident("".to_string()), "".to_string());
    let ii = Node::new_expression(ii);
    let l = Node::new_let_statement(Token::Let, i, ii.unwrap());
    println!("{:?}", l);
}

#[test]
fn ast_test_is_identifier() {
    let i = Node::new_identifier(Token::Ident("".to_string()), "".to_string());
    println!("{:?}", Node::is_identifier(&i));
}

#[test]
fn ast2_test_new_let_statement() {
    let i = Node::new_identifier(Token::Ident("".to_string()), "".to_string());
    let ii = Node::new_identifier(Token::Ident("".to_string()), "".to_string());
    let ii = Node::new_expression(ii);
    let l = Node::new_let_statement(Token::Let, i, ii.unwrap());
    println!("{:?}", l);
}

#[test]
fn ast2_test_is_identifier() {
    let i = Node::new_identifier(Token::Ident("".to_string()), "".to_string());
    println!("{:?}", Node::is_identifier(&i));
}

#[test]
fn let_statement_is_built_from_an_identifier_and_an_expression() {
    let name = Node::new_identifier(Token::Ident("x".to_string()), "x".to_string());
    let value = Node::new_integer_literal(Token::Int("5".to_string()), 5);
    let statement = Node::new_let_statement(Token::Let, name, value).unwrap();
    assert!(Node::is_statement(&statement));
    assert!(!Node::is_expression(&statement));
    match *statement {
        Node::LetStatement { token, name, value } => {
            assert_eq!(token, Token::Let);
            assert!(Node::is_identifier(&name));
            assert!(matches!(*value, Node::IntegerLiteral { value: 5, .. }));
        }
        other => panic!("not a let statement: {:?}", other),
    }
}

#[test]
fn let_statement_refuses_a_name_that_is_no_identifier() {
    let name = Node::new_integer_literal(Token::Int("1".to_string()), 1);
    let value = Node::new_integer_literal(Token::Int("5".to_string()), 5);
    assert!(Node::new_let_statement(Token::Let, name, value).is_none());
}

#[test]
fn let_statement_refuses_a_value_that_is_no_expression() {
    let name = Node::new_identifier(Token::Ident("x".to_string()), "x".to_string());
    let inner = Node::new_integer_literal(Token::Int("5".to_string()), 5);
    let value = Node::new_return_statement(Token::Return, inner).unwrap();
    assert!(Node::new_let_statement(Token::Let, name, value).is_none());
}

#[test]
fn statement_and_expression_kinds_are_told_apart() {
    let five = Node::new_integer_literal(Token::Int("5".to_string()), 5);
    assert!(Node::new_statement(five).is_none());
    let five = Node::new_integer_literal(Token::Int("5".to_string()), 5);
    assert!(Node::new_expression(five).is_some());
    let five = Node::new_integer_literal(Token::Int("5".to_string()), 5);
    let statement = Node::new_expression_statement(Token::Int("5".to_string()), five).unwrap();
    assert!(Node::new_expression(statement).is_none());
}

#[test]
fn program_takes_statements_only() {
    let five = Node::new_integer_literal(Token::Int("5".to_string()), 5);
    assert!(Node::new_program(vec![five]).is_none());
    let five = Node::new_integer_literal(Token::Int("5".to_string()), 5);
    let statement = Node::new_expression_statement(Token::Int("5".to_string()), five).unwrap();
    let program = Node::new_program(vec![statement]).unwrap();
    assert!(matches!(*program, Node::Program { ref statements } if statements.len() == 1));
    assert!(Node::new_program(vec![]).is_some());
}

#[test]
fn block_prefix_infix_and_index_check_their_children() {
    let five = Node::new_integer_literal(Token::Int("5".to_string()), 5);
    assert!(Node::new_block_statement(Token::LBrace, vec![five]).is_none());
    let five = Node::new_integer_literal(Token::Int("5".to_string()), 5);
    let block = Node::new_block_statement(Token::LBrace, vec![]).unwrap();
    assert!(Node::new_prefix_expression(Token::Minus, "-".to_string(), block).is_none());
    assert!(Node::new_prefix_expression(Token::Minus, "-".to_string(), five).is_some());
    let one = Node::new_integer_literal(Token::Int("1".to_string()), 1);
    let two = Node::new_integer_literal(Token::Int("2".to_string()), 2);
    assert!(Node::new_infix_expression(Token::Plus, one, "+".to_string(), two).is_some());
    let one = Node::new_integer_literal(Token::Int("1".to_string()), 1);
    let block = Node::new_block_statement(Token::LBrace, vec![]).unwrap();
    assert!(Node::new_infix_expression(Token::Plus, one, "+".to_string(), block).is_none());
    let one = Node::new_integer_literal(Token::Int("1".to_string()), 1);
    let block = Node::new_block_statement(Token::LBrace, vec![]).unwrap();
    assert!(Node::new_index_expression(Token::LBracket, block, one).is_none());
}

#[test]
fn if_function_call_array_and_hash_check_their_children() {
    let t = Node::new_boolean(Token::True, true);
    let block = Node::new_block_statement(Token::LBrace, vec![]).unwrap();
    assert!(Node::new_if_expression(Token::If, t, block, None).is_some());
    let t = Node::new_boolean(Token::True, true);
    let f = Node::new_boolean(Token::False, false);
    assert!(Node::new_if_expression(Token::If, t, f, None).is_none());
    let t = Node::new_boolean(Token::True, true);
    let block = Node::new_block_statement(Token::LBrace, vec![]).unwrap();
    let f = Node::new_boolean(Token::False, false);
    assert!(Node::new_if_expression(Token::If, t, block, Some(f)).is_none());

    let x = Node::new_identifier(Token::Ident("x".to_string()), "x".to_string());
    let block = Node::new_block_statement(Token::LBrace, vec![]).unwrap();
    assert!(Node::new_function_literal(Token::Function, vec![x], block).is_some());
    let one = Node::new_integer_literal(Token::Int("1".to_string()), 1);
    let block = Node::new_block_statement(Token::LBrace, vec![]).unwrap();
    assert!(Node::new_function_literal(Token::Function, vec![one], block).is_none());
    let x = Node::new_identifier(Token::Ident("x".to_string()), "x".to_string());
    let one = Node::new_integer_literal(Token::Int("1".to_string()), 1);
    assert!(Node::new_function_literal(Token::Function, vec![x], one).is_none());

    let f = Node::new_identifier(Token::Ident("f".to_string()), "f".to_string());
    let one = Node::new_integer_literal(Token::Int("1".to_string()), 1);
    assert!(Node::new_call_expression(Token::LParen, f, vec![one]).is_some());
    let f = Node::new_identifier(Token::Ident("f".to_string()), "f".to_string());
    let block = Node::new_block_statement(Token::LBrace, vec![]).unwrap();
    assert!(Node::new_call_expression(Token::LParen, f, vec![block]).is_none());

    let block = Node::new_block_statement(Token::LBrace, vec![]).unwrap();
    assert!(Node::new_array_literal(Token::LBracket, vec![block]).is_none());
    let one = Node::new_integer_literal(Token::Int("1".to_string()), 1);
    let block = Node::new_block_statement(Token::LBrace, vec![]).unwrap();
    assert!(Node::new_hash_literal(Token::LBrace, vec![(one, block)]).is_none());
    let one = Node::new_integer_literal(Token::Int("1".to_string()), 1);
    let two = Node::new_string_literal(Token::Str("a".to_string()), "a".to_string());
    assert!(Node::new_hash_literal(Token::LBrace, vec![(one, two)]).is_some());
}

#[test]
fn a_cloned_node_prints_like_the_node() {
    let one = Node::new_integer_literal(Token::Int("1".to_string()), 1);
    let two = Node::new_integer_literal(Token::Int("2".to_string()), 2);
    let sum = Node::new_infix_expression(Token::Plus, one, "+".to_string(), two).unwrap();
    let copy = (*sum).clone();
    assert_eq!(format!("{:?}", copy), format!("{:?}", sum));
}
