use monkey::ast::Node;
use monkey::environment::Environment;
use monkey::evaluator::{eval, eval_within};
use monkey::lexer::Lexer;
use monkey::object::Object;
use monkey::parser::Parser;
use monkey::token::Token;

fn evaluate(input: &str) -> Option<Object> {
    let lexer = Lexer::new(input.to_string());
    let mut parser = Parser::new(lexer);
    let program = parser.parse_program();
    if parser.errors().len() > 0 {
        println!("PARSER ERROR: {:?}", parser.errors());
        return None;
    }
    let program = program.expect("failed to parse program");
    println!("PROGRAM: {:?}", program);
    let mut env = Environment::new();
    let object = eval(&program, &mut env);
    println!("OBJECT: {:?}", object);
    return object;
}

fn error(message: &str) -> Option<Object> {
    Some(Object::Error(message.to_string()))
}

fn string(text: &str) -> Option<Object> {
    Some(Object::StringValue(text.to_string()))
}

#[test]
fn test_evaluator() {
    assert_eq!(evaluate("5"), Some(Object::Integer(5)));
    assert_eq!(evaluate("true"), Some(Object::Bool(true)));
    assert_eq!(evaluate("false"), Some(Object::Bool(false)));
    assert_eq!(evaluate("!true"), Some(Object::Bool(false)));
    assert_eq!(evaluate("!false"), Some(Object::Bool(true)));
    assert_eq!(evaluate("!5"), Some(Object::Bool(false)));
    assert_eq!(evaluate("!!true"), Some(Object::Bool(true)));
    assert_eq!(evaluate("!!false"), Some(Object::Bool(false)));
    assert_eq!(evaluate("-5"), Some(Object::Integer(-5)));
    assert_eq!(evaluate("1 + 1"), Some(Object::Integer(2)));
    assert_eq!(evaluate("2 - 1"), Some(Object::Integer(1)));
    assert_eq!(evaluate("1 * 2"), Some(Object::Integer(2)));
    assert_eq!(evaluate("4 / 2"), Some(Object::Integer(2)));
    assert_eq!(evaluate("20 + 2 * -10"), Some(Object::Integer(0)));
    assert_eq!(evaluate("(5 + 10 * 2 + 15 / 3) * 2 + -10"), Some(Object::Integer(50)));
    assert_eq!(evaluate("1 < 2"), Some(Object::Bool(true)));
    assert_eq!(evaluate("1 > 2"), Some(Object::Bool(false)));
    assert_eq!(evaluate("1 == 2"), Some(Object::Bool(false)));
    assert_eq!(evaluate("1 != 2"), Some(Object::Bool(true)));
    assert_eq!(evaluate("true == true"), Some(Object::Bool(true)));
    assert_eq!(evaluate("false == false"), Some(Object::Bool(true)));
    assert_eq!(evaluate("true != true"), Some(Object::Bool(false)));
    assert_eq!(evaluate("false != false"), Some(Object::Bool(false)));
    assert_eq!(evaluate("(1 < 2) == true"), Some(Object::Bool(true)));
    assert_eq!(evaluate("if (true) { 10 }"), Some(Object::Integer(10)));
    assert_eq!(evaluate("if (false) { 10 } else { 20 }"), Some(Object::Integer(20)));
    assert_eq!(evaluate("if (1) { 10 } else { 20 }"), Some(Object::Integer(10)));
    assert_eq!(evaluate("return 10;"), Some(Object::Integer(10)));
    assert_eq!(evaluate("return 10; 9"), Some(Object::Integer(10)));
    assert_eq!(evaluate("if (true) { if (true) { return 10; } return 1; }"), Some(Object::Integer(10)));
    assert_eq!(evaluate("1 + true"), Some(Object::Error("type mismatch: Integer(1), \"+\", Bool(true)".to_string())));
    assert_eq!(evaluate("if (10 > 1) { false + true; }"), Some(Object::Error("unknown operator: Bool(false), \"+\", Bool(true)".to_string())));
    assert_eq!(evaluate("let a = 5; a;"), Some(Object::Integer(5)));
    assert_eq!(evaluate("let a = 5 * 5; a;"), Some(Object::Integer(25)));
    assert_eq!(evaluate("let a = 5; let b = 6; a + b;"), Some(Object::Integer(11)));
    assert_eq!(evaluate("let add = fn(a, b) { a + b; }; add(1, 2);"), Some(Object::Integer(3)));
}

#[test]
fn integer_literal_evaluates_to_itself() {
    assert_eq!(evaluate("5"), Some(Object::Integer(5)));
}

#[test]
fn double_bang_gives_the_truth_value() {
    assert_eq!(evaluate("!!false"), Some(Object::Bool(false)));
    assert_eq!(evaluate("!!5"), Some(Object::Bool(true)));
    assert_eq!(evaluate("!if (false) { 1 }"), Some(Object::Bool(true)));
}

#[test]
fn arithmetic_follows_precedence() {
    assert_eq!(evaluate("(5 + 10 * 2 + 15 / 3) * 2 + -10"), Some(Object::Integer(50)));
}

#[test]
fn nested_return_leaves_all_blocks() {
    assert_eq!(
        evaluate("if (10 > 1) { if (10 > 1) { return 10; } return 1; }"),
        Some(Object::Integer(10))
    );
}

#[test]
fn type_mismatch_is_an_error_value() {
    assert_eq!(evaluate("1 + true"), error("type mismatch: Integer(1), \"+\", Bool(true)"));
    assert_eq!(evaluate("1 + true; 5"), error("type mismatch: Integer(1), \"+\", Bool(true)"));
    assert_eq!(
        evaluate("\"a\" == 1"),
        error("type mismatch: StringValue(\"a\"), \"==\", Integer(1)")
    );
}

#[test]
fn function_application_binds_parameters() {
    assert_eq!(evaluate("let add = fn(a, b) { a + b; }; add(1, 2);"), Some(Object::Integer(3)));
    assert_eq!(evaluate("fn(x) { x; }(5)"), Some(Object::Integer(5)));
    assert_eq!(evaluate("let f = fn(x) { return x; 9 }; f(3) + 1"), Some(Object::Integer(4)));
}

#[test]
fn recursion_through_the_captured_scope() {
    assert_eq!(
        evaluate("let counter = fn(x) { if (x > 100) { return x; } else { counter(x + 1); } }; counter(0);"),
        Some(Object::Integer(101))
    );
}

#[test]
fn push_makes_a_new_array() {
    assert_eq!(evaluate("let arr = [1, 2, 3]; len(push(arr, 4))"), Some(Object::Integer(4)));
    assert_eq!(evaluate("let arr = [1, 2, 3]; push(arr, 4); len(arr)"), Some(Object::Integer(3)));
    assert_eq!(evaluate("let arr = [1, 2, 3]; push(arr, 4)[3]"), Some(Object::Integer(4)));
}

#[test]
fn later_hash_entry_replaces_the_earlier_one() {
    assert_eq!(evaluate("let h = {\"k\": 1, \"k\": 2}; h[\"k\"]"), Some(Object::Integer(2)));
    assert_eq!(evaluate("{1: 10, true: 20, \"1\": 30}[1]"), Some(Object::Integer(10)));
    assert_eq!(evaluate("{1: 10, true: 20, \"1\": 30}[true]"), Some(Object::Integer(20)));
    assert_eq!(evaluate("{1: 10, true: 20, \"1\": 30}[\"1\"]"), Some(Object::Integer(30)));
}

#[test]
fn index_out_of_range_is_null() {
    assert_eq!(evaluate("{}[1]"), Some(Object::Null));
    assert_eq!(evaluate("[1,2][5]"), Some(Object::Null));
    assert_eq!(evaluate("[1,2][2]"), Some(Object::Null));
    assert_eq!(evaluate("[1,2][-1]"), Some(Object::Null));
    assert_eq!(evaluate("[1,2][0]"), Some(Object::Integer(1)));
    assert_eq!(evaluate("[1,2][1]"), Some(Object::Integer(2)));
    assert_eq!(evaluate("{\"one\": 1}[1]"), Some(Object::Null));
}

#[test]
fn index_errors() {
    assert_eq!(evaluate("5[1]"), error("index operator not supported: Integer"));
    assert_eq!(evaluate("[1][true]"), error("index operator not supported: Array"));
    assert_eq!(evaluate("{1: 2}[[1]]"), error("index operator not supported: Hash"));
    assert_eq!(evaluate("{[1]: 2}"), error("unusable as hash key: Array"));
    assert_eq!(evaluate("{fn(x) { x }: 2}"), error("unusable as hash key: Function"));
}

#[test]
fn closure_sees_the_scope_it_was_made_in() {
    // Both `let`s write the one global scope, which the function shares.
    assert_eq!(evaluate("let x = 1; let f = fn() { x }; let x = 2; f()"), Some(Object::Integer(2)));
    // The caller's scope is not the function's scope.
    assert_eq!(
        evaluate("let x = 1; let f = fn() { x }; let g = fn() { let x = 2; f() }; g()"),
        Some(Object::Integer(1))
    );
    // A binding of an inner scope is untouched by a later binding outside.
    assert_eq!(
        evaluate("let make = fn() { let x = 10; fn() { x } }; let f = make(); let x = 2; f()"),
        Some(Object::Integer(10))
    );
    assert_eq!(
        evaluate("let adder = fn(a) { fn(b) { a + b } }; let addtwo = adder(2); addtwo(3) + addtwo(4)"),
        Some(Object::Integer(11))
    );
}

#[test]
fn calling_twice_gives_the_same_value() {
    assert_eq!(
        evaluate("let f = fn(x) { let y = x * 2; [y, x][0] + 1 }; f(20) == f(20)"),
        Some(Object::Bool(true))
    );
    assert_eq!(
        evaluate("let f = fn(x) { let y = x * 2; y + 1 }; f(20); f(20)"),
        Some(Object::Integer(41))
    );
}

#[test]
fn evaluation_is_deterministic() {
    let input = "let f = fn(n) { if (n < 2) { n } else { f(n - 1) + f(n - 2) } }; f(12)";
    assert_eq!(evaluate(input), Some(Object::Integer(144)));
    assert_eq!(evaluate(input), evaluate(input));
}

#[test]
fn double_negation_is_the_identity() {
    assert_eq!(evaluate("--5"), Some(Object::Integer(5)));
    assert_eq!(evaluate("-(-(3 * 4))"), evaluate("3 * 4"));
    assert_eq!(
        evaluate("--(0 - 9223372036854775807 - 1)"),
        Some(Object::Integer(i64::MIN))
    );
}

#[test]
fn integer_arithmetic_wraps_around() {
    assert_eq!(evaluate("9223372036854775807 + 1"), Some(Object::Integer(i64::MIN)));
    assert_eq!(evaluate("0 - 9223372036854775807 - 2"), Some(Object::Integer(i64::MAX)));
    assert_eq!(evaluate("9223372036854775807 * 2"), Some(Object::Integer(-2)));
    assert_eq!(evaluate("-(0 - 9223372036854775807 - 1)"), Some(Object::Integer(i64::MIN)));
    assert_eq!(evaluate("(0 - 9223372036854775807 - 1) / -1"), Some(Object::Integer(i64::MIN)));
}

#[test]
fn division_truncates_toward_zero() {
    assert_eq!(evaluate("7 / 2"), Some(Object::Integer(3)));
    assert_eq!(evaluate("-7 / 2"), Some(Object::Integer(-3)));
    assert_eq!(evaluate("7 / -2"), Some(Object::Integer(-3)));
    assert_eq!(evaluate("-7 / -2"), Some(Object::Integer(3)));
    assert_eq!(evaluate("0 / 5"), Some(Object::Integer(0)));
    assert_eq!(evaluate("1 / 0"), error("division by zero"));
}

#[test]
fn prefix_operator_errors() {
    assert_eq!(evaluate("-true"), error("unknown object: Bool(true)"));
    assert_eq!(evaluate("-\"a\""), error("unknown object: StringValue(\"a\")"));
    assert_eq!(evaluate("!(1 + true)"), error("type mismatch: Integer(1), \"+\", Bool(true)"));
}

#[test]
fn string_operators() {
    assert_eq!(evaluate("\"Hello\" + \" \" + \"World\""), string("Hello World"));
    assert_eq!(
        evaluate("\"a\" - \"b\""),
        error("unknown operator: StringValue(\"a\"), \"-\", StringValue(\"b\")")
    );
    assert_eq!(
        evaluate("\"a\" == \"a\""),
        error("unknown operator: StringValue(\"a\"), \"==\", StringValue(\"a\")")
    );
}

#[test]
fn equality_of_values_that_cannot_be_compared_is_an_error() {
    assert_eq!(evaluate("[1] == [1]"), error("unknown operator: Array, \"==\", Array"));
    assert_eq!(evaluate("{} != {}"), error("unknown operator: Hash, \"!=\", Hash"));
    assert_eq!(
        evaluate("fn() { 1 } == fn() { 1 }"),
        error("unknown operator: Function, \"==\", Function")
    );
    assert_eq!(
        evaluate("len == len"),
        error("unknown operator: Builtin(\"len\"), \"==\", Builtin(\"len\")")
    );
    assert_eq!(evaluate("if (false) { 1 } == if (false) { 1 }"), Some(Object::Bool(true)));
}

#[test]
fn if_without_alternative_is_null() {
    assert_eq!(evaluate("if (false) { 10 }"), Some(Object::Null));
    assert_eq!(evaluate("if (1 > 2) { 10 }"), Some(Object::Null));
    assert_eq!(evaluate("if (if (false) { 1 }) { 10 } else { 20 }"), Some(Object::Integer(20)));
    assert_eq!(evaluate("if (\"\") { 10 } else { 20 }"), Some(Object::Integer(10)));
    assert_eq!(evaluate("if (0) { 10 } else { 20 }"), Some(Object::Integer(10)));
}

#[test]
fn empty_program_and_empty_block_are_null() {
    assert_eq!(evaluate(""), Some(Object::Null));
    assert_eq!(evaluate("if (true) { }"), Some(Object::Null));
    assert_eq!(evaluate("fn() { }()"), Some(Object::Null));
}

#[test]
fn unknown_identifier_is_an_error() {
    assert_eq!(evaluate("foobar"), error("identifier not found: foobar"));
    assert_eq!(evaluate("let f = fn(a, b) { b }; f(1)"), error("identifier not found: b"));
    assert_eq!(evaluate("let f = fn(a) { a }; f(1, 2)"), Some(Object::Integer(1)));
}

#[test]
fn error_in_an_argument_stops_the_call() {
    assert_eq!(
        evaluate("let f = fn(a, b) { 1 }; f(1 + true, nope)"),
        error("type mismatch: Integer(1), \"+\", Bool(true)")
    );
    assert_eq!(evaluate("[1, nope, 1 + true]"), error("identifier not found: nope"));
    assert_eq!(evaluate("{nope: 1}"), error("identifier not found: nope"));
    assert_eq!(evaluate("{1: nope}"), error("identifier not found: nope"));
    assert_eq!(evaluate("nope(1)"), error("identifier not found: nope"));
    assert_eq!(evaluate("let x = nope; 5"), error("identifier not found: nope"));
    assert_eq!(evaluate("return nope; 5"), error("identifier not found: nope"));
    assert_eq!(evaluate("nope[1]"), error("identifier not found: nope"));
    assert_eq!(evaluate("[1][nope]"), error("identifier not found: nope"));
    assert_eq!(evaluate("1 + nope"), error("identifier not found: nope"));
    assert_eq!(evaluate("if (nope) { 1 }"), error("identifier not found: nope"));
}

#[test]
fn calling_what_is_no_function_is_an_error() {
    assert_eq!(evaluate("5(1)"), error("not a function: Integer"));
    assert_eq!(evaluate("\"f\"()"), error("not a function: StringValue"));
    assert_eq!(evaluate("[1]()"), error("not a function: Array"));
}

#[test]
fn builtin_len() {
    assert_eq!(evaluate("len(\"\")"), Some(Object::Integer(0)));
    assert_eq!(evaluate("len(\"four\")"), Some(Object::Integer(4)));
    assert_eq!(evaluate("len(\"hello world\")"), Some(Object::Integer(11)));
    assert_eq!(evaluate("len([1, 2, 3])"), Some(Object::Integer(3)));
    assert_eq!(evaluate("len([])"), Some(Object::Integer(0)));
    assert_eq!(evaluate("len(1)"), error("argument to 'len' not supported, got Integer"));
    assert_eq!(evaluate("len(\"one\", \"two\")"), error("wrong number of arguments, got = 2, want = 1"));
    assert_eq!(evaluate("len()"), error("wrong number of arguments, got = 0, want = 1"));
}

#[test]
fn builtin_first_last_rest_push() {
    assert_eq!(evaluate("first([1, 2, 3])"), Some(Object::Integer(1)));
    assert_eq!(evaluate("first([])"), Some(Object::Null));
    assert_eq!(evaluate("first(1)"), error("argument to 'first' not supported, got Integer"));
    assert_eq!(evaluate("first([1], [2])"), error("wrong number of arguments, got = 2, want = 1"));
    assert_eq!(evaluate("last([1, 2, 3])"), Some(Object::Integer(3)));
    assert_eq!(evaluate("last([])"), Some(Object::Null));
    assert_eq!(evaluate("last(\"abc\")"), error("argument to 'last' not supported, got StringValue"));
    assert_eq!(evaluate("len(rest([1, 2, 3]))"), Some(Object::Integer(2)));
    assert_eq!(evaluate("rest([1, 2, 3])[0]"), Some(Object::Integer(2)));
    assert_eq!(evaluate("rest([1, 2, 3])[1]"), Some(Object::Integer(3)));
    assert_eq!(evaluate("len(rest([1]))"), Some(Object::Integer(0)));
    assert_eq!(evaluate("rest([])"), Some(Object::Null));
    assert_eq!(evaluate("rest(true)"), error("argument to 'rest' not supported, got Bool"));
    assert_eq!(evaluate("push([], 1)[0]"), Some(Object::Integer(1)));
    assert_eq!(evaluate("push(1, 1)"), error("argument to 'push' not supported, got Integer"));
    assert_eq!(evaluate("push([1])"), error("wrong number of arguments, got = 1, want = 2"));
    assert_eq!(
        evaluate("push([1], 2, 3)"),
        error("wrong number of arguments, got = 3, want = 2")
    );
}

#[test]
fn a_binding_hides_the_builtin_of_the_same_name() {
    assert_eq!(evaluate("let len = fn(x) { 42 }; len([1])"), Some(Object::Integer(42)));
}

#[test]
fn unknown_prefix_operator_is_an_error() {
    let five = Node::new_integer_literal(Token::Int("5".to_string()), 5);
    let node = Node::new_prefix_expression(Token::Plus, "+".to_string(), five).unwrap();
    let mut env = Environment::new();
    assert_eq!(eval(&node, &mut env), error("unknown operator: +, Integer(5)"));
    let one = Node::new_integer_literal(Token::Int("1".to_string()), 1);
    let two = Node::new_integer_literal(Token::Int("2".to_string()), 2);
    let node = Node::new_infix_expression(Token::Illegal("^".to_string()), one, "^".to_string(), two).unwrap();
    assert_eq!(
        eval(&node, &mut env),
        error("unknown operator: Integer(1), \"^\", Integer(2)")
    );
}

#[test]
fn endless_recursion_uses_up_the_budget() {
    assert_eq!(evaluate("let f = fn(x) { f(x + 1) }; f(0)"), None);
}

#[test]
fn budget_counts_the_nesting_of_nodes() {
    let mut env = Environment::new();
    let five = Node::new_integer_literal(Token::Int("5".to_string()), 5);
    assert_eq!(eval_within(&five, &mut env, 0), None);
    assert_eq!(eval_within(&five, &mut env, 1), Some(Object::Integer(5)));
    let negated = Node::new_prefix_expression(Token::Minus, "-".to_string(), five).unwrap();
    assert_eq!(eval_within(&negated, &mut env, 1), None);
    assert_eq!(eval_within(&negated, &mut env, 2), Some(Object::Integer(-5)));
}

#[test]
fn bindings_persist_in_the_environment() {
    let mut env = Environment::new();
    let program = Parser::new(Lexer::new("let a = 5;".to_string())).parse_program().unwrap();
    assert_eq!(eval(&program, &mut env), Some(Object::Integer(5)));
    let program = Parser::new(Lexer::new("a * 2".to_string())).parse_program().unwrap();
    assert_eq!(eval(&program, &mut env), Some(Object::Integer(10)));
    assert_eq!(env.get("a"), Some(Object::Integer(5)));
    assert_eq!(env.get("b"), None);
}
