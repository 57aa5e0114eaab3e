//! The evaluator: walks a syntax tree and computes its value.
//!
//! Every function here computes what the function of the same purpose in
//! [`crate::semantics`] states.

use vstd::prelude::*;
use crate::ast::Node;
use crate::environment::{Environment, EnvironmentView};
use crate::object::{optional_value, push_object, HashPair, Object, ObjectKind, ObjectView};
use crate::semantics::{
    apply, bang, bind_parameters, builtin_first_result, builtin_last_result, builtin_len_result,
    builtin_push_result, builtin_rest_result, builtin_result, eval_array, eval_call,
    eval_expressions, eval_hash_pairs, eval_if, eval_index, eval_infix, eval_let, eval_node,
    eval_prefix, eval_return, eval_statements, hash_find, hash_insert, identifier_result,
    index_result, infix_result, integer_infix_result, is_builtin, is_truthy as truthy,
    lemma_apply_preserves, lemma_eval_node_extends, length_value, minus, prefix_result,
    extends, preserves, string_infix_result, ListOutcome, ListResult, Outcome,
};
use crate::renaming::{closed, lemma_eval_node_sound, refers_below};
use crate::text::{push_decimal_usize, same_text};

verus! {

/// The nesting budget of [`eval`].
pub const MAX_DEPTH: usize = 2048;

/// The outcome that a returned object and an environment stand for.
pub open spec fn outcome(r: Option<Object>, env: EnvironmentView) -> Outcome {
    Outcome { value: optional_value(r), env }
}

/// The outcome that a returned list of objects, or what stopped its
/// evaluation, and an environment stand for.
pub open spec fn list_outcome(
    r: Result<Vec<Object>, Option<Object>>,
    env: EnvironmentView,
) -> ListOutcome {
    ListOutcome {
        result: match r {
            Ok(values) => ListResult::Values(Object::models(&values)),
            Err(stopped) => ListResult::Stopped(optional_value(stopped)),
        },
        env,
    }
}

fn error_of_kind(prefix: &str, kind: ObjectKind) -> (r: Object)
    ensures
        r@ == ObjectView::Error(prefix@ + kind.name()),
{
    let mut message = prefix.to_owned();
    message.append(kind.name_str());
    Object::Error(message)
}

fn operator_error(prefix: &str, left: &Object, operator: &str, right: &Object) -> (r: Object)
    ensures
        r@ == ObjectView::Error(
            prefix@ + left@.inspect() + ", \""@ + operator@ + "\", "@ + right@.inspect(),
        ),
{
    let mut message = prefix.to_owned();
    message.append(left.inspect().as_str());
    message.append(", \"");
    message.append(operator);
    message.append("\", ");
    message.append(right.inspect().as_str());
    Object::Error(message)
}

fn wrong_number_of_arguments(got: usize, want: usize) -> (r: Object)
    ensures
        r@ == crate::semantics::wrong_number_of_arguments(got as nat, want as nat),
{
    let mut message = "wrong number of arguments, got = ".to_owned();
    push_decimal_usize(&mut message, got);
    message.append(", want = ");
    push_decimal_usize(&mut message, want);
    Object::Error(message)
}

fn unsupported_argument(builtin: &str, argument: &Object) -> (r: Object)
    ensures
        r@ == crate::semantics::unsupported_argument(builtin@, argument@.kind()),
{
    let mut message = "argument to '".to_owned();
    message.append(builtin);
    message.append("' not supported, got ");
    message.append(argument.kind().name_str());
    Object::Error(message)
}

fn length_object(n: usize) -> (r: Object)
    ensures
        r@ == length_value(n as nat),
{
    if n as u64 > i64::MAX as u64 {
        Object::Integer(i64::MAX)
    } else {
        Object::Integer(n as i64)
    }
}

/// The truth value as an object.
pub fn native_bool_to_bool_object(b: bool) -> (r: Object)
    ensures
        r@ == ObjectView::Bool(b),
{
    Object::Bool(b)
}

/// Whether the object counts as true: every object but `Null` and `false`
/// does.
pub fn is_truthy(object: &Object) -> (r: bool)
    ensures
        r == truthy(object@),
{
    match object {
        Object::Null => false,
        Object::Bool(b) => *b,
        _ => true,
    }
}

/// `!right`.
pub fn eval_bang_operator_expression(right: &Object) -> (r: Object)
    ensures
        r@ == bang(right@),
{
    native_bool_to_bool_object(!is_truthy(right))
}

/// `-right`.
pub fn eval_minus_prefix_operator_expression(right: &Object) -> (r: Object)
    ensures
        r@ == minus(right@),
{
    match right {
        Object::Integer(n) => Object::Integer(0i64.wrapping_sub(*n)),
        _ => {
            let mut message = "unknown object: ".to_owned();
            message.append(right.inspect().as_str());
            Object::Error(message)
        },
    }
}

/// The value of the prefix operator `operator` applied to `right`.
pub fn prefix_value(operator: &str, right: &Object) -> (r: Object)
    ensures
        r@ == prefix_result(operator@, right@),
{
    if same_text(operator, "!") {
        eval_bang_operator_expression(right)
    } else if same_text(operator, "-") {
        eval_minus_prefix_operator_expression(right)
    } else {
        let mut message = "unknown operator: ".to_owned();
        message.append(operator);
        message.append(", ");
        message.append(right.inspect().as_str());
        Object::Error(message)
    }
}

/// The value of the infix operator `operator` between two integers.
pub fn eval_integer_infix_expression(operator: &str, left: i64, right: i64) -> (r: Object)
    ensures
        r@ == integer_infix_result(operator@, left, right),
{
    if same_text(operator, "+") {
        Object::Integer(left.wrapping_add(right))
    } else if same_text(operator, "-") {
        Object::Integer(left.wrapping_sub(right))
    } else if same_text(operator, "*") {
        Object::Integer(left.wrapping_mul(right))
    } else if same_text(operator, "/") {
        if right == 0 {
            Object::Error("division by zero".to_owned())
        } else {
            match left.checked_div(right) {
                Some(q) => Object::Integer(q),
                None => Object::Integer(left),
            }
        }
    } else if same_text(operator, "<") {
        native_bool_to_bool_object(left < right)
    } else if same_text(operator, ">") {
        native_bool_to_bool_object(left > right)
    } else if same_text(operator, "==") {
        native_bool_to_bool_object(left == right)
    } else if same_text(operator, "!=") {
        native_bool_to_bool_object(left != right)
    } else {
        operator_error(
            "unknown operator: ",
            &Object::Integer(left),
            operator,
            &Object::Integer(right),
        )
    }
}

/// The value of the infix operator `operator` between two strings.
pub fn eval_string_infix_expression(operator: &str, left: &str, right: &str) -> (r: Object)
    ensures
        r@ == string_infix_result(operator@, left@, right@),
{
    if same_text(operator, "+") {
        let mut joined = left.to_owned();
        joined.append(right);
        Object::StringValue(joined)
    } else {
        operator_error(
            "unknown operator: ",
            &Object::StringValue(left.to_owned()),
            operator,
            &Object::StringValue(right.to_owned()),
        )
    }
}

/// The value of the infix operator `operator` between `left` and `right`.
pub fn infix_value(left: &Object, operator: &str, right: &Object) -> (r: Object)
    ensures
        r@ == infix_result(left@, operator@, right@),
{
    match (left, right) {
        (Object::Integer(l), Object::Integer(r)) => eval_integer_infix_expression(
            operator,
            *l,
            *r,
        ),
        (Object::StringValue(l), Object::StringValue(r)) => eval_string_infix_expression(
            operator,
            l.as_str(),
            r.as_str(),
        ),
        _ => {
            if !left.is_same(right) {
                operator_error("type mismatch: ", left, operator, right)
            } else {
                let comparable = match left {
                    Object::Bool(_) => true,
                    Object::Null => true,
                    _ => false,
                };
                if comparable && same_text(operator, "==") {
                    native_bool_to_bool_object(*left == *right)
                } else if comparable && same_text(operator, "!=") {
                    native_bool_to_bool_object(!(*left == *right))
                } else {
                    operator_error("unknown operator: ", left, operator, right)
                }
            }
        },
    }
}

/// The index of the entry of `pairs` that is found by `hash_key`.
pub fn find_pair(pairs: &Vec<HashPair>, hash_key: &String) -> (r: Option<usize>)
    ensures
        match hash_find(Object::pair_models(pairs), hash_key@) {
            Some(i) => r == Some(i as usize) && 0 <= i < pairs.len(),
            None => r is None,
        },
{
    let ghost all = Object::pair_models(pairs);
    let mut i: usize = pairs.len();
    assert(all.take(i as int) =~= all);
    while i > 0
        invariant
            i <= pairs.len(),
            all == Object::pair_models(pairs),
            hash_find(all, hash_key@) == hash_find(all.take(i as int), hash_key@),
        decreases i,
    {
        assert(all.take(i as int).drop_last() =~= all.take(i - 1));
        assert(all.take(i as int).last() == all[i - 1]);
        i -= 1;
        if pairs[i].hash_key == *hash_key {
            return Some(i);
        }
    }
    None
}

/// Puts `pair` into `pairs`: in the place of the entry with the same key,
/// or else behind all others.
pub fn insert_pair(pairs: &mut Vec<HashPair>, pair: HashPair)
    ensures
        Object::pair_models(final(pairs)) == hash_insert(Object::pair_models(old(pairs)), pair@),
{
    match find_pair(pairs, &pair.hash_key) {
        Some(i) => {
            pairs.set(i, pair);
            assert(Object::pair_models(pairs) =~= Object::pair_models(old(pairs)).update(
                i as int,
                pair@,
            ));
        },
        None => {
            pairs.push(pair);
            assert(Object::pair_models(pairs) =~= Object::pair_models(old(pairs)).push(pair@));
        },
    }
}

fn array_element(elements: &Vec<Object>, i: i64) -> (r: Object)
    ensures
        r@ == if 0 <= i < elements.len() {
            Object::models(elements)[i as int]
        } else {
            ObjectView::Null
        },
{
    if i >= 0 && (i as u64) < (elements.len() as u64) {
        let at: usize = i as usize;
        assert(Object::models(elements)[at as int] == elements[at as int]@);
        elements[at].clone()
    } else {
        Object::Null
    }
}

fn hash_value(pairs: &Vec<HashPair>, hash_key: &String) -> (r: Object)
    ensures
        r@ == match hash_find(Object::pair_models(pairs), hash_key@) {
            Some(i) => Object::pair_models(pairs)[i].value,
            None => ObjectView::Null,
        },
{
    match find_pair(pairs, hash_key) {
        Some(i) => {
            assert(Object::pair_models(pairs)[i as int].value == pairs[i as int].value@);
            pairs[i].value.clone()
        },
        None => Object::Null,
    }
}

/// The value of `left[index]`.
pub fn index_value(left: &Object, index: &Object) -> (r: Object)
    ensures
        r@ == index_result(left@, index@),
{
    match left {
        Object::Array(elements) => match index {
            Object::Integer(i) => array_element(elements, *i),
            _ => error_of_kind("index operator not supported: ", left.kind()),
        },
        Object::Hash(pairs) => match index.create_hash_key() {
            Some(hash_key) => hash_value(pairs, &hash_key),
            None => error_of_kind("index operator not supported: ", left.kind()),
        },
        _ => error_of_kind("index operator not supported: ", left.kind()),
    }
}

/// The builtin function called `name`, if there is one.
pub fn find_builtin(name: &str) -> (r: Option<Object>)
    ensures
        is_builtin(name@) ==> optional_value(r) == Some(ObjectView::Builtin(name@)),
        !is_builtin(name@) ==> r is None,
{
    if same_text(name, "len") || same_text(name, "first") || same_text(name, "last") || same_text(
        name,
        "rest",
    ) || same_text(name, "push") {
        Some(Object::Builtin(name.to_owned()))
    } else {
        None
    }
}

/// `len(x)`.
pub fn builtin_len(args: &Vec<Object>) -> (r: Object)
    ensures
        r@ == builtin_len_result(Object::models(args)),
{
    if args.len() != 1 {
        return wrong_number_of_arguments(args.len(), 1);
    }
    assert(Object::models(args)[0] == args[0]@);
    match &args[0] {
        Object::StringValue(s) => {
            let n = s.as_str().unicode_len();
            assert(n as nat == s@.len());
            let r = length_object(n);
            assert(r@ == length_value(s@.len()));
            r
        },
        Object::Array(elements) => {
            let r = length_object(elements.len());
            assert(Object::models(elements).len() == elements.len() as nat);
            assert(r@ == length_value(Object::models(elements).len()));
            r
        },
        other => unsupported_argument("len", other),
    }
}

/// `first(array)`.
pub fn builtin_first(args: &Vec<Object>) -> (r: Object)
    ensures
        r@ == builtin_first_result(Object::models(args)),
{
    if args.len() != 1 {
        return wrong_number_of_arguments(args.len(), 1);
    }
    assert(Object::models(args)[0] == args[0]@);
    match &args[0] {
        Object::Array(elements) => {
            assert(Object::models(elements).len() == elements.len());
            if elements.len() > 0 {
                assert(Object::models(elements)[0] == elements[0]@);
                elements[0].clone()
            } else {
                Object::Null
            }
        },
        other => unsupported_argument("first", other),
    }
}

/// `last(array)`.
pub fn builtin_last(args: &Vec<Object>) -> (r: Object)
    ensures
        r@ == builtin_last_result(Object::models(args)),
{
    if args.len() != 1 {
        return wrong_number_of_arguments(args.len(), 1);
    }
    assert(Object::models(args)[0] == args[0]@);
    match &args[0] {
        Object::Array(elements) => {
            assert(Object::models(elements).len() == elements.len());
            if elements.len() > 0 {
                assert(Object::models(elements).last() == elements[elements.len() - 1]@);
                elements[elements.len() - 1].clone()
            } else {
                Object::Null
            }
        },
        other => unsupported_argument("last", other),
    }
}

/// `rest(array)`.
pub fn builtin_rest(args: &Vec<Object>) -> (r: Object)
    ensures
        r@ == builtin_rest_result(Object::models(args)),
{
    if args.len() != 1 {
        return wrong_number_of_arguments(args.len(), 1);
    }
    assert(Object::models(args)[0] == args[0]@);
    match &args[0] {
        Object::Array(elements) => {
            assert(Object::models(elements).len() == elements.len());
            if elements.len() > 0 {
                let mut rest: Vec<Object> = Vec::new();
                let mut i: usize = 1;
                while i < elements.len()
                    invariant
                        1 <= i <= elements.len(),
                        rest.len() == i - 1,
                        forall|j: int| 0 <= j < rest.len() ==> rest[j]@ == elements[j + 1]@,
                    decreases elements.len() - i,
                {
                    rest.push(elements[i].clone());
                    i += 1;
                }
                assert(Object::models(&rest) =~= Object::models(elements).drop_first());
                Object::Array(rest)
            } else {
                Object::Null
            }
        },
        other => unsupported_argument("rest", other),
    }
}

/// `push(array, x)`.
pub fn builtin_push(args: &Vec<Object>) -> (r: Object)
    ensures
        r@ == builtin_push_result(Object::models(args)),
{
    if args.len() != 2 {
        return wrong_number_of_arguments(args.len(), 2);
    }
    assert(Object::models(args)[0] == args[0]@);
    assert(Object::models(args)[1] == args[1]@);
    match &args[0] {
        Object::Array(elements) => {
            let mut extended = Object::clone_objects(elements);
            push_object(&mut extended, args[1].clone());
            Object::Array(extended)
        },
        other => unsupported_argument("push", other),
    }
}

/// The builtin function called `name` applied to `args`.
pub fn do_builtin(name: &str, args: &Vec<Object>) -> (r: Object)
    ensures
        r@ == builtin_result(name@, Object::models(args)),
{
    if same_text(name, "len") {
        builtin_len(args)
    } else if same_text(name, "first") {
        builtin_first(args)
    } else if same_text(name, "last") {
        builtin_last(args)
    } else if same_text(name, "rest") {
        builtin_rest(args)
    } else if same_text(name, "push") {
        builtin_push(args)
    } else {
        let mut message = "unknown builtin: ".to_owned();
        message.append(name);
        Object::Error(message)
    }
}

/// The value of the identifier `name` in `env`.
pub fn eval_identifier(name: &String, env: &Environment) -> (r: Object)
    requires
        env@.well_formed(),
    ensures
        r@ == identifier_result(name@, env@),
{
    match env.get(name.as_str()) {
        Some(v) => v,
        None => match find_builtin(name.as_str()) {
            Some(builtin) => builtin,
            None => {
                let mut message = "identifier not found: ".to_owned();
                message.append(name.as_str());
                Object::Error(message)
            },
        },
    }
}

/// The function that the literal stands for in `env`: it keeps the current
/// scope.
pub fn eval_function_literal(parameters: &Vec<Box<Node>>, body: &Box<Node>, env: &Environment) -> (r:
    Object)
    ensures
        r@ == (ObjectView::Function {
            parameters: Node::models(parameters),
            body: Box::new(body@),
            environment: env@.current,
        }),
{
    Object::Function {
        parameters: Node::clone_nodes(parameters),
        body: Box::new((**body).clone()),
        environment: env.current(),
    }
}

/// Evaluates `node` in `env` with the nesting budget [`MAX_DEPTH`]. The
/// result is `None` where the program nests deeper than that, as a function
/// that calls itself without end does.
pub fn eval(node: &Box<Node>, env: &mut Environment) -> (r: Option<Object>)
    requires
        old(env)@.well_formed(),
    ensures
        final(env)@.well_formed(),
        outcome(r, final(env)@) == eval_node(node@, old(env)@, MAX_DEPTH as nat),
        extends(old(env)@, final(env)@),
        closed(old(env)@) ==> closed(final(env)@) && (r matches Some(v) ==> refers_below(
            final(env)@.scopes.len(),
            v@,
        )),
{
    proof {
        lemma_eval_node_extends(node@, env@, MAX_DEPTH as nat);
        if closed(env@) {
            lemma_eval_node_sound(node@, env@, MAX_DEPTH as nat);
        }
    }
    eval_within(node, env, MAX_DEPTH)
}

/// Evaluates `node` in `env` with the nesting budget `depth`.
#[verifier::rlimit(100)]
pub fn eval_within(node: &Node, env: &mut Environment, depth: usize) -> (r: Option<Object>)
    requires
        old(env)@.well_formed(),
    ensures
        final(env)@.well_formed(),
        outcome(r, final(env)@) == eval_node(node@, old(env)@, depth as nat),
    decreases depth, 0nat,
{
    if depth == 0 {
        return None;
    }
    let d = depth - 1;
    match node {
        Node::Program { statements } => eval_program(statements, env, d),
        Node::LetStatement { token: _, name, value } => eval_let_statement(name, value, env, d),
        Node::ReturnStatement { token: _, return_value } => eval_return_statement(
            return_value,
            env,
            d,
        ),
        Node::ExpressionStatement { token: _, expression } => eval_within(expression, env, d),
        Node::BlockStatement { token: _, statements } => eval_block_statements(statements, env, d),
        Node::Identifier { token: _, value } => Some(eval_identifier(value, env)),
        Node::IntegerLiteral { token: _, value } => Some(Object::Integer(*value)),
        Node::StringLiteral { token: _, value } => Some(Object::StringValue(value.clone())),
        Node::Boolean { token: _, value } => Some(native_bool_to_bool_object(*value)),
        Node::PrefixExpression { token: _, operator, right } => eval_prefix_expression(
            operator.as_str(),
            right,
            env,
            d,
        ),
        Node::InfixExpression { token: _, left, operator, right } => eval_infix_expression(
            left,
            operator.as_str(),
            right,
            env,
            d,
        ),
        Node::IfExpression { token: _, condition, consequence, alternative } => {
            eval_if_expression(condition, consequence, alternative, env, d)
        },
        Node::FunctionLiteral { token: _, parameters, body } => Some(
            eval_function_literal(parameters, body, env),
        ),
        Node::CallExpression { token: _, function, arguments } => eval_call_expression(
            function,
            arguments,
            env,
            d,
        ),
        Node::ArrayLiteral { token: _, elements } => eval_array_literal(elements, env, d),
        Node::HashLiteral { token: _, pairs } => eval_hash_literal(pairs, env, d),
        Node::IndexExpression { token: _, left, index } => eval_index_expression(
            left,
            index,
            env,
            d,
        ),
    }
}

fn run_statements(
    statements: &Vec<Box<Node>>,
    env: &mut Environment,
    depth: usize,
    is_program: bool,
) -> (r: Option<Object>)
    requires
        old(env)@.well_formed(),
    ensures
        final(env)@.well_formed(),
        outcome(r, final(env)@) == eval_statements(
            Node::models(statements),
            0,
            ObjectView::Null,
            old(env)@,
            depth as nat,
            is_program,
        ),
    decreases depth, statements.len() + 1,
{
    let ghost nodes = Node::models(statements);
    let mut last = Object::Null;
    let mut i: usize = 0;
    while i < statements.len()
        invariant
            i <= statements.len(),
            nodes == Node::models(statements),
            env@.well_formed(),
            eval_statements(nodes, i as nat, last@, env@, depth as nat, is_program)
                == eval_statements(
                nodes,
                0,
                ObjectView::Null,
                old(env)@,
                depth as nat,
                is_program,
            ),
        decreases statements.len() - i,
    {
        match eval_within(&statements[i], env, depth) {
            None => {
                return None;
            },
            Some(value) => match value {
                Object::Error(message) => {
                    return Some(Object::Error(message));
                },
                Object::ReturnValue(inner) => {
                    if is_program {
                        return Some(*inner);
                    } else {
                        return Some(Object::ReturnValue(inner));
                    }
                },
                other => {
                    last = other;
                },
            },
        }
        i += 1;
    }
    Some(last)
}

/// The value of a program: that of its last statement, or what a `return`
/// at the top handed back, unwrapped.
pub fn eval_program(statements: &Vec<Box<Node>>, env: &mut Environment, depth: usize) -> (r: Option<
    Object,
>)
    requires
        old(env)@.well_formed(),
    ensures
        final(env)@.well_formed(),
        outcome(r, final(env)@) == eval_statements(
            Node::models(statements),
            0,
            ObjectView::Null,
            old(env)@,
            depth as nat,
            true,
        ),
    decreases depth, statements.len() + 2,
{
    run_statements(statements, env, depth, true)
}

/// The value of a block: that of its last statement, or what a `return`
/// inside wrapped, still wrapped.
pub fn eval_block_statements(statements: &Vec<Box<Node>>, env: &mut Environment, depth: usize) -> (r:
    Option<Object>)
    requires
        old(env)@.well_formed(),
    ensures
        final(env)@.well_formed(),
        outcome(r, final(env)@) == eval_statements(
            Node::models(statements),
            0,
            ObjectView::Null,
            old(env)@,
            depth as nat,
            false,
        ),
    decreases depth, statements.len() + 2,
{
    run_statements(statements, env, depth, false)
}

/// `let name = value`.
pub fn eval_let_statement(name: &Node, value: &Node, env: &mut Environment, depth: usize) -> (r:
    Option<Object>)
    requires
        old(env)@.well_formed(),
    ensures
        final(env)@.well_formed(),
        outcome(r, final(env)@) == eval_let(name@, value@, old(env)@, depth as nat),
    decreases depth, 1nat,
{
    match eval_within(value, env, depth) {
        None => None,
        Some(v) => {
            if v.is_error() {
                Some(v)
            } else {
                match name {
                    Node::Identifier { token: _, value: n } => env.set(n.clone(), v),
                    _ => Some(Object::Error("invalid identifier".to_owned())),
                }
            }
        },
    }
}

/// `return return_value`.
pub fn eval_return_statement(return_value: &Node, env: &mut Environment, depth: usize) -> (r: Option<
    Object,
>)
    requires
        old(env)@.well_formed(),
    ensures
        final(env)@.well_formed(),
        outcome(r, final(env)@) == eval_return(return_value@, old(env)@, depth as nat),
    decreases depth, 1nat,
{
    match eval_within(return_value, env, depth) {
        None => None,
        Some(v) => {
            if v.is_error() {
                Some(v)
            } else {
                Some(Object::ReturnValue(Box::new(v)))
            }
        },
    }
}

/// A prefix operator applied to an expression.
pub fn eval_prefix_expression(operator: &str, right: &Node, env: &mut Environment, depth: usize) -> (r:
    Option<Object>)
    requires
        old(env)@.well_formed(),
    ensures
        final(env)@.well_formed(),
        outcome(r, final(env)@) == eval_prefix(operator@, right@, old(env)@, depth as nat),
    decreases depth, 1nat,
{
    match eval_within(right, env, depth) {
        None => None,
        Some(v) => {
            if v.is_error() {
                Some(v)
            } else {
                Some(prefix_value(operator, &v))
            }
        },
    }
}

/// An infix operator between two expressions.
pub fn eval_infix_expression(
    left: &Node,
    operator: &str,
    right: &Node,
    env: &mut Environment,
    depth: usize,
) -> (r: Option<Object>)
    requires
        old(env)@.well_formed(),
    ensures
        final(env)@.well_formed(),
        outcome(r, final(env)@) == eval_infix(left@, operator@, right@, old(env)@, depth as nat),
    decreases depth, 1nat,
{
    let l = match eval_within(left, env, depth) {
        None => {
            return None;
        },
        Some(v) => v,
    };
    if l.is_error() {
        return Some(l);
    }
    let r = match eval_within(right, env, depth) {
        None => {
            return None;
        },
        Some(v) => v,
    };
    if r.is_error() {
        return Some(r);
    }
    Some(infix_value(&l, operator, &r))
}

/// `if (condition) consequence else alternative`.
pub fn eval_if_expression(
    condition: &Node,
    consequence: &Node,
    alternative: &Option<Box<Node>>,
    env: &mut Environment,
    depth: usize,
) -> (r: Option<Object>)
    requires
        old(env)@.well_formed(),
    ensures
        final(env)@.well_formed(),
        outcome(r, final(env)@) == eval_if(
            condition@,
            consequence@,
            crate::ast::optional_model(*alternative),
            old(env)@,
            depth as nat,
        ),
    decreases depth, 1nat,
{
    let c = match eval_within(condition, env, depth) {
        None => {
            return None;
        },
        Some(v) => v,
    };
    if c.is_error() {
        return Some(c);
    }
    if is_truthy(&c) {
        eval_within(consequence, env, depth)
    } else {
        match alternative {
            Some(a) => eval_within(a, env, depth),
            None => Some(Object::Null),
        }
    }
}

/// The values of a list of expressions, from left to right up to the first
/// that stops.
pub fn eval_expression(expressions: &Vec<Box<Node>>, env: &mut Environment, depth: usize) -> (r:
    Result<Vec<Object>, Option<Object>>)
    requires
        old(env)@.well_formed(),
    ensures
        final(env)@.well_formed(),
        list_outcome(r, final(env)@) == eval_expressions(
            Node::models(expressions),
            0,
            Seq::empty(),
            old(env)@,
            depth as nat,
        ),
    decreases depth, expressions.len() + 2,
{
    let ghost nodes = Node::models(expressions);
    let mut values: Vec<Object> = Vec::new();
    let mut i: usize = 0;
    assert(Object::models(&values) =~= Seq::empty());
    while i < expressions.len()
        invariant
            i <= expressions.len(),
            nodes == Node::models(expressions),
            env@.well_formed(),
            eval_expressions(nodes, i as nat, Object::models(&values), env@, depth as nat)
                == eval_expressions(nodes, 0, Seq::empty(), old(env)@, depth as nat),
        decreases expressions.len() - i,
    {
        match eval_within(&expressions[i], env, depth) {
            None => {
                return Err(None);
            },
            Some(v) => {
                if v.is_error() {
                    return Err(Some(v));
                }
                push_object(&mut values, v);
            },
        }
        i += 1;
    }
    Ok(values)
}

/// `function(arguments)`.
pub fn eval_call_expression(
    function: &Node,
    arguments: &Vec<Box<Node>>,
    env: &mut Environment,
    depth: usize,
) -> (r: Option<Object>)
    requires
        old(env)@.well_formed(),
    ensures
        final(env)@.well_formed(),
        outcome(r, final(env)@) == eval_call(
            function@,
            Node::models(arguments),
            old(env)@,
            depth as nat,
        ),
    decreases depth, arguments.len() + 3,
{
    let f = match eval_within(function, env, depth) {
        None => {
            return None;
        },
        Some(v) => v,
    };
    if f.is_error() {
        return Some(f);
    }
    match eval_expression(arguments, env, depth) {
        Err(stopped) => stopped,
        Ok(args) => apply_function(f, args, env, depth),
    }
}

/// Applies a callable object to arguments.
pub fn apply_function(callee: Object, args: Vec<Object>, env: &mut Environment, depth: usize) -> (r:
    Option<Object>)
    requires
        old(env)@.well_formed(),
    ensures
        final(env)@.well_formed(),
        outcome(r, final(env)@) == apply(callee@, Object::models(&args), old(env)@, depth as nat),
        preserves(old(env)@, final(env)@),
    decreases depth, 1nat,
{
    proof {
        lemma_apply_preserves(callee@, Object::models(&args), env@, depth as nat);
    }
    match callee {
        Object::Function { parameters, body, environment } => {
            let previous = env.enter(environment);
            let ghost entered = env@;
            let ghost names = Node::models(&parameters);
            let ghost values = Object::models(&args);
            let mut i: usize = 0;
            while i < parameters.len()
                invariant
                    i <= parameters.len(),
                    names == Node::models(&parameters),
                    values == Object::models(&args),
                    env@.well_formed(),
                    bind_parameters(names, values, i as nat, env@) == bind_parameters(
                        names,
                        values,
                        0,
                        entered,
                    ),
                decreases parameters.len() - i,
            {
                match &*parameters[i] {
                    Node::Identifier { token: _, value: name } => {
                        if i < args.len() {
                            env.set(name.clone(), args[i].clone());
                        }
                    },
                    _ => {},
                }
                i += 1;
            }
            let result = eval_within(&body, env, depth);
            env.leave(previous);
            match result {
                Some(Object::ReturnValue(inner)) => Some(*inner),
                other => other,
            }
        },
        Object::Builtin(name) => Some(do_builtin(name.as_str(), &args)),
        other => Some(error_of_kind("not a function: ", other.kind())),
    }
}

/// `[elements]`.
pub fn eval_array_literal(elements: &Vec<Box<Node>>, env: &mut Environment, depth: usize) -> (r:
    Option<Object>)
    requires
        old(env)@.well_formed(),
    ensures
        final(env)@.well_formed(),
        outcome(r, final(env)@) == eval_array(Node::models(elements), old(env)@, depth as nat),
    decreases depth, elements.len() + 3,
{
    match eval_expression(elements, env, depth) {
        Err(stopped) => stopped,
        Ok(values) => Some(Object::Array(values)),
    }
}

/// `{key: value, ..}`.
pub fn eval_hash_literal(pairs: &Vec<(Box<Node>, Box<Node>)>, env: &mut Environment, depth: usize) -> (r:
    Option<Object>)
    requires
        old(env)@.well_formed(),
    ensures
        final(env)@.well_formed(),
        outcome(r, final(env)@) == eval_hash_pairs(
            Node::pair_models(pairs),
            0,
            Seq::empty(),
            old(env)@,
            depth as nat,
        ),
    decreases depth, pairs.len() + 2,
{
    let ghost nodes = Node::pair_models(pairs);
    let mut entries: Vec<HashPair> = Vec::new();
    let mut i: usize = 0;
    assert(Object::pair_models(&entries) =~= Seq::empty());
    while i < pairs.len()
        invariant
            i <= pairs.len(),
            nodes == Node::pair_models(pairs),
            env@.well_formed(),
            eval_hash_pairs(nodes, i as nat, Object::pair_models(&entries), env@, depth as nat)
                == eval_hash_pairs(nodes, 0, Seq::empty(), old(env)@, depth as nat),
        decreases pairs.len() - i,
    {
        let key = match eval_within(&pairs[i].0, env, depth) {
            None => {
                return None;
            },
            Some(v) => v,
        };
        if key.is_error() {
            return Some(key);
        }
        let hash_key = match key.create_hash_key() {
            None => {
                return Some(error_of_kind("unusable as hash key: ", key.kind()));
            },
            Some(k) => k,
        };
        let value = match eval_within(&pairs[i].1, env, depth) {
            None => {
                return None;
            },
            Some(v) => v,
        };
        if value.is_error() {
            return Some(value);
        }
        insert_pair(&mut entries, HashPair { hash_key, key, value });
        i += 1;
    }
    Some(Object::Hash(entries))
}

/// `left[index]`.
pub fn eval_index_expression(left: &Node, index: &Node, env: &mut Environment, depth: usize) -> (r:
    Option<Object>)
    requires
        old(env)@.well_formed(),
    ensures
        final(env)@.well_formed(),
        outcome(r, final(env)@) == eval_index(left@, index@, old(env)@, depth as nat),
    decreases depth, 1nat,
{
    let l = match eval_within(left, env, depth) {
        None => {
            return None;
        },
        Some(v) => v,
    };
    if l.is_error() {
        return Some(l);
    }
    let i = match eval_within(index, env, depth) {
        None => {
            return None;
        },
        Some(v) => v,
    };
    if i.is_error() {
        return Some(i);
    }
    Some(index_value(&l, &i))
}

} // verus!
