use monkey::environment::Environment;
use monkey::object::Object;

#[test]
fn new_environment_binds_nothing() {
    let env = Environment::new();
    assert_eq!(env.get("x"), None);
    assert_eq!(env.current(), 0);
}

#[test]
fn set_returns_the_value_and_get_finds_it() {
    let mut env = Environment::new();
    assert_eq!(env.set("x".to_string(), Object::Integer(1)), Some(Object::Integer(1)));
    assert_eq!(env.get("x"), Some(Object::Integer(1)));
    assert_eq!(env.set("x".to_string(), Object::Integer(2)), Some(Object::Integer(2)));
    assert_eq!(env.get("x"), Some(Object::Integer(2)));
    assert_eq!(env.get("y"), None);
}

#[test]
fn enclosed_scope_sees_and_hides_the_outer_one() {
    let mut env = Environment::new();
    env.set("x".to_string(), Object::Integer(1));
    env.set("y".to_string(), Object::Integer(5));
    let mut inner = Environment::new_enclosed(env);
    assert_eq!(inner.current(), 1);
    assert_eq!(inner.get("x"), Some(Object::Integer(1)));
    inner.set("x".to_string(), Object::Integer(2));
    assert_eq!(inner.get("x"), Some(Object::Integer(2)));
    assert_eq!(inner.get("y"), Some(Object::Integer(5)));
    inner.leave(0);
    assert_eq!(inner.get("x"), Some(Object::Integer(1)));
}

#[test]
fn binding_in_the_outer_scope_shows_in_the_inner_one_unless_hidden() {
    let mut env = Environment::new();
    let outer = env.enter(0);
    assert_eq!(outer, 0);
    env.set("a".to_string(), Object::Integer(1));
    env.leave(0);
    env.set("a".to_string(), Object::Integer(10));
    env.set("b".to_string(), Object::Integer(20));
    env.leave(1);
    assert_eq!(env.get("a"), Some(Object::Integer(1)));
    assert_eq!(env.get("b"), Some(Object::Integer(20)));
}

#[test]
fn a_scope_inside_a_missing_scope_is_enclosed_in_nothing() {
    let mut env = Environment::new();
    env.set("a".to_string(), Object::Integer(1));
    env.enter(7);
    assert_eq!(env.get("a"), None);
    env.leave(9);
    assert_eq!(env.current(), 1);
}
