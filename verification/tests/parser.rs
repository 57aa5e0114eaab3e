use monkey::ast::Node;
use monkey::lexer::Lexer;
use monkey::parser::Parser;
use monkey::token::Token;

fn parse(input: &str) -> (Option<Box<Node>>, Vec<String>) {
    println!("=====\nINPUT:\n{}\n", input);

    let l = Lexer::new(input.to_string());
    let mut p = Parser::new(l);

    let program = p.parse_program();

    println!("PROGRAM:\n{:?}\n", program);
    println!("ERROR:\n{:?}\n", p.errors());
    (program, p.errors().clone())
}

fn statements(input: &str) -> Vec<Box<Node>> {
    let (program, errors) = parse(input);
    assert_eq!(errors, Vec::<String>::new());
    match *program.expect("no program") {
        Node::Program { statements } => statements,
        other => panic!("not a program: {:?}", other),
    }
}

fn expression(input: &str) -> Node {
    let mut all = statements(input);
    assert_eq!(all.len(), 1);
    match *all.remove(0) {
        Node::ExpressionStatement { expression, .. } => *expression,
        other => panic!("not an expression statement: {:?}", other),
    }
}

fn show(node: &Node) -> String {
    match node {
        Node::Program { statements } => {
            statements.iter().map(|s| show(s)).collect::<Vec<String>>().join("")
        }
        Node::LetStatement { name, value, .. } => format!("let {} = {};", show(name), show(value)),
        Node::ReturnStatement { return_value, .. } => format!("return {};", show(return_value)),
        Node::ExpressionStatement { expression, .. } => show(expression),
        Node::BlockStatement { statements, .. } => {
            statements.iter().map(|s| show(s)).collect::<Vec<String>>().join("")
        }
        Node::Identifier { value, .. } => value.clone(),
        Node::IntegerLiteral { value, .. } => format!("{}", value),
        Node::StringLiteral { value, .. } => format!("\"{}\"", value),
        Node::Boolean { value, .. } => format!("{}", value),
        Node::PrefixExpression { operator, right, .. } => format!("({}{})", operator, show(right)),
        Node::InfixExpression { left, operator, right, .. } => {
            format!("({} {} {})", show(left), operator, show(right))
        }
        Node::IfExpression { condition, consequence, alternative, .. } => match alternative {
            Some(a) => format!("if {} {{{}}} else {{{}}}", show(condition), show(consequence), show(a)),
            None => format!("if {} {{{}}}", show(condition), show(consequence)),
        },
        Node::FunctionLiteral { parameters, body, .. } => format!(
            "fn({}) {{{}}}",
            parameters.iter().map(|p| show(p)).collect::<Vec<String>>().join(", "),
            show(body)
        ),
        Node::CallExpression { function, arguments, .. } => format!(
            "{}({})",
            show(function),
            arguments.iter().map(|a| show(a)).collect::<Vec<String>>().join(", ")
        ),
        Node::ArrayLiteral { elements, .. } => format!(
            "[{}]",
            elements.iter().map(|e| show(e)).collect::<Vec<String>>().join(", ")
        ),
        Node::HashLiteral { pairs, .. } => format!(
            "{{{}}}",
            pairs
                .iter()
                .map(|(k, v)| format!("{}: {}", show(k), show(v)))
                .collect::<Vec<String>>()
                .join(", ")
        ),
        Node::IndexExpression { left, index, .. } => format!("({}[{}])", show(left), show(index)),
    }
}

fn shown(input: &str) -> String {
    let (program, errors) = parse(input);
    assert_eq!(errors, Vec::<String>::new());
    show(&program.expect("no program"))
}

#[test]
fn test_new() {
    let input = "let five = 5;".to_string();
    let lexer = Lexer::new(input);

    let parser = Parser::new(lexer);

    assert_eq!(*parser.cur_token(), Token::Let);
    assert_eq!(*parser.peek_token(), Token::Ident("five".to_string()));
}

#[test]
fn test_let() {
    let input = "let five = 5;".to_string();
    let lexer = Lexer::new(input);

    let mut parser = Parser::new(lexer);

    let program = parser.parse_program();

    println!("PROGRAM: {:?}", program);
    println!("ERRORS: {:?}", parser.errors());
}

#[test]
fn test_parser() {
    parse("let five = 5;");
    parse("let ten 10;");
    parse("return 10;");
    parse("foobar;");
    parse("!5;");
    parse("-15;");
    parse("5 + 5;");
    parse("5 - 5;");
    parse("1 + 2 * 3;");
    parse("5 > 4 == 3 < 2");
    parse("true != false");
    parse("(1 + 2) * 3;");
    parse("if (1 < 2) { x }");
    parse("if (1 < 2) { true } else { false }");
    parse("fn(x, y) { x + y; }(5, 6)");
    parse("let add = fn(a, b){ a + b; }; add(1, 2);");
    parse("let s = \"hello\";");
    parse("fn(x, y) { x + y; }");
    parse("add(5, 6)");
    parse("[1, 2 , \"hello\", true]");
    parse("a[0]");
    parse("[1, 2, 3][0]");
    parse("{\"one\":1, true:2, 3:false}");
}

#[test]
fn let_statement_has_name_and_value() {
    let mut all = statements("let five = 5;");
    assert_eq!(all.len(), 1);
    match *all.remove(0) {
        Node::LetStatement { token, name, value } => {
            assert_eq!(token, Token::Let);
            match *name {
                Node::Identifier { token, value } => {
                    assert_eq!(token, Token::Ident("five".to_string()));
                    assert_eq!(value, "five");
                }
                other => panic!("not an identifier: {:?}", other),
            }
            assert!(matches!(*value, Node::IntegerLiteral { value: 5, .. }));
        }
        other => panic!("not a let statement: {:?}", other),
    }
}

#[test]
fn semicolon_after_let_and_return_is_optional() {
    assert_eq!(shown("let x = 1 x"), "let x = 1;x");
    assert_eq!(shown("return 10"), "return 10;");
    assert_eq!(shown("return 10; 9"), "return 10;9");
}

#[test]
fn missing_assign_is_reported_and_parsing_goes_on() {
    let (program, errors) = parse("let ten 10;");
    assert_eq!(
        errors,
        vec!["expected next token to be Assign, got Int(\"10\") instead".to_string()]
    );
    // The failed statement is left out; what follows the token at which it
    // failed is parsed as further statements.
    assert_eq!(show(&program.unwrap()), "10");
}

#[test]
fn token_without_prefix_function_is_reported() {
    let (program, errors) = parse(")");
    assert_eq!(errors, vec!["no prefix parse function for RParen".to_string()]);
    assert_eq!(show(&program.unwrap()), "");
    let (_, errors) = parse("@");
    assert_eq!(errors, vec!["no prefix parse function for Illegal(\"@\")".to_string()]);
    let (_, errors) = parse("-");
    assert_eq!(errors, vec!["no prefix parse function for Eof".to_string()]);
}

#[test]
fn integer_out_of_range_is_reported() {
    let (program, errors) = parse("9223372036854775808");
    assert_eq!(errors, vec!["could not parse 9223372036854775808 as integer".to_string()]);
    assert_eq!(show(&program.unwrap()), "");
    assert_eq!(shown("9223372036854775807"), "9223372036854775807");
    assert_eq!(shown("007"), "7");
}

#[test]
fn operator_precedence() {
    assert_eq!(shown("-a * b"), "((-a) * b)");
    assert_eq!(shown("!-a"), "(!(-a))");
    assert_eq!(shown("a + b + c"), "((a + b) + c)");
    assert_eq!(shown("a + b - c"), "((a + b) - c)");
    assert_eq!(shown("a * b * c"), "((a * b) * c)");
    assert_eq!(shown("a * b / c"), "((a * b) / c)");
    assert_eq!(shown("a + b / c"), "(a + (b / c))");
    assert_eq!(shown("a + b * c + d / e - f"), "(((a + (b * c)) + (d / e)) - f)");
    assert_eq!(shown("3 + 4; -5 * 5"), "(3 + 4)((-5) * 5)");
    assert_eq!(shown("5 > 4 == 3 < 4"), "((5 > 4) == (3 < 4))");
    assert_eq!(shown("5 < 4 != 3 > 4"), "((5 < 4) != (3 > 4))");
    assert_eq!(shown("3 + 4 * 5 == 3 * 1 + 4 * 5"), "((3 + (4 * 5)) == ((3 * 1) + (4 * 5)))");
    assert_eq!(shown("(1 + 2) * 3"), "((1 + 2) * 3)");
    assert_eq!(shown("1 + (2 + 3) + 4"), "((1 + (2 + 3)) + 4)");
    assert_eq!(shown("-(5 + 5)"), "(-(5 + 5))");
    assert_eq!(shown("!(true == true)"), "(!(true == true))");
    assert_eq!(shown("a + add(b * c) + d"), "((a + add((b * c))) + d)");
    assert_eq!(
        shown("add(a, b, 1, 2 * 3, 4 + 5, add(6, 7 * 8))"),
        "add(a, b, 1, (2 * 3), (4 + 5), add(6, (7 * 8)))"
    );
    assert_eq!(shown("a * [1, 2, 3, 4][b * c] * d"), "((a * ([1, 2, 3, 4][(b * c)])) * d)");
    assert_eq!(shown("add(a * b[2], b[1], 2 * [1, 2][1])"), "add((a * (b[2])), (b[1]), (2 * ([1, 2][1])))");
    assert_eq!(shown("[1, 2, \"x\", true][0]"), "([1, 2, \"x\", true][0])");
    assert_eq!(shown("{\"one\":1, true:2, 3:false}"), "{\"one\": 1, true: 2, 3: false}");
}

#[test]
fn if_function_and_call_forms() {
    assert_eq!(shown("if (1 < 2) { x }"), "if (1 < 2) {x}");
    assert_eq!(shown("if (1 < 2) { true } else { false }"), "if (1 < 2) {true} else {false}");
    assert_eq!(shown("fn(x, y) { x + y; }"), "fn(x, y) {(x + y)}");
    assert_eq!(shown("fn() { 1 }"), "fn() {1}");
    assert_eq!(shown("fn(x, y) { x + y; }(5, 6)"), "fn(x, y) {(x + y)}(5, 6)");
    assert_eq!(shown("let add = fn(a, b){ a + b; }; add(1, 2);"), "let add = fn(a, b) {(a + b)};add(1, 2)");
    assert_eq!(shown("add()"), "add()");
    assert_eq!(shown("[]"), "[]");
    assert_eq!(shown("{}"), "{}");
    assert_eq!(shown("{1: 2}[1]"), "({1: 2}[1])");
    assert_eq!(shown("let s = \"hello\";"), "let s = \"hello\";");
}

#[test]
fn malformed_forms_are_reported() {
    let (_, errors) = parse("(1 + 2");
    assert_eq!(errors, vec!["expected next token to be RParen, got Eof instead".to_string()]);
    let (_, errors) = parse("if 1 { 2 }");
    assert_eq!(errors[0], "expected next token to be LParen, got Int(\"1\") instead");
    let (_, errors) = parse("fn(1) { 2 }");
    assert_eq!(errors[0], "expected next token to be Ident, got Int(\"1\") instead");
    let (_, errors) = parse("fn(x y) { 2 }");
    assert_eq!(errors[0], "expected next token to be RParen, got Ident(\"y\") instead");
    let (_, errors) = parse("[1, 2");
    assert_eq!(errors, vec!["expected next token to be RBracket, got Eof instead".to_string()]);
    let (_, errors) = parse("{1 2}");
    assert_eq!(errors[0], "expected next token to be Colon, got Int(\"2\") instead");
    let (_, errors) = parse("{1: 2 3: 4}");
    assert_eq!(errors[0], "expected next token to be Comma, got Int(\"3\") instead");
    let (_, errors) = parse("a[1");
    assert_eq!(errors, vec!["expected next token to be RBracket, got Eof instead".to_string()]);
    let (_, errors) = parse("let = 5;");
    assert_eq!(errors[0], "expected next token to be Ident, got Assign instead");
}

#[test]
fn unterminated_block_ends_at_the_end_of_the_input() {
    assert_eq!(shown("if (x) { 1; 2"), "if x {12}");
}

#[test]
fn parsing_twice_gives_the_same_tree() {
    let input = "let f = fn(x) { if (x > 1) { return [x, {\"k\": x}][0]; } else { f(x + 1) } }; f(0)";
    let (first, first_errors) = parse(input);
    let (second, second_errors) = parse(input);
    assert_eq!(format!("{:?}", first), format!("{:?}", second));
    assert_eq!(first_errors, second_errors);
    let (first, first_errors) = parse("let 1 = ; (]");
    let (second, second_errors) = parse("let 1 = ; (]");
    assert_eq!(format!("{:?}", first), format!("{:?}", second));
    assert_eq!(first_errors, second_errors);
    assert!(!first_errors.is_empty());
}

#[test]
fn empty_input_is_an_empty_program() {
    assert_eq!(statements("").len(), 0);
    assert_eq!(statements("   \n\t ").len(), 0);
    let _ = expression("1");
}
