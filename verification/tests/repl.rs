use monkey::environment::Environment;
use monkey::object::Object;
use monkey::repl::{respond, Response};

fn value(response: Response) -> Option<Object> {
    match response {
        Response::Value(v) => v,
        other => panic!("not a value: {:?}", other),
    }
}

#[test]
fn exit_ends_the_session() {
    let mut env = Environment::new();
    assert!(matches!(respond("exit", &mut env), Response::Exit));
    assert!(matches!(respond("exit\n", &mut env), Response::Exit));
    assert!(matches!(respond("exit\r\n", &mut env), Response::Exit));
    assert_eq!(
        value(respond("exit;\n", &mut env)),
        Some(Object::Error("identifier not found: exit".to_string()))
    );
}

#[test]
fn lines_share_the_environment() {
    let mut env = Environment::new();
    assert_eq!(value(respond("let a = 5;\n", &mut env)), Some(Object::Integer(5)));
    assert_eq!(value(respond("let double = fn(x) { x * 2 };\n", &mut env)).is_some(), true);
    assert_eq!(value(respond("double(a) + 1\n", &mut env)), Some(Object::Integer(11)));
    assert_eq!(value(respond("\n", &mut env)), Some(Object::Null));
}

#[test]
fn parse_errors_are_reported_and_nothing_is_evaluated() {
    let mut env = Environment::new();
    match respond("let a = 1; let b 2;\n", &mut env) {
        Response::ParseErrors(errors) => {
            assert_eq!(
                errors,
                vec!["expected next token to be Assign, got Int(\"2\") instead".to_string()]
            );
        }
        other => panic!("not a parse error: {:?}", other),
    }
    assert_eq!(env.get("a"), None);
}

#[test]
fn the_same_line_has_the_same_answer() {
    let line = "let f = fn(n) { if (n < 1) { [1, \"a\"] } else { f(n - 1) } }; f(3)[1] + \"b\"";
    let mut first = Environment::new();
    let mut second = Environment::new();
    assert_eq!(
        format!("{:?}", respond(line, &mut first)),
        format!("{:?}", respond(line, &mut second))
    );
    assert_eq!(format!("{:?}", first), format!("{:?}", second));
}
