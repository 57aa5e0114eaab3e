//! What a program means: the value of every syntactic form, as mathematical
//! functions from a tree and an environment to a value and an environment.
//!
//! Evaluation is bounded by a nesting budget: every node that is evaluated
//! inside another one, and every body of a called function, gets a budget
//! one smaller than that of the node around it. A node that is left with no
//! budget has no value, and neither has anything that needs its value.

use vstd::prelude::*;
use crate::ast::NodeView;
use crate::environment::EnvironmentView;
use crate::object::{HashPairView, ObjectKind, ObjectView};
use crate::text::decimal;
use crate::token::TokenView;

verus! {

/// What evaluating a node gives: its value, or `None` where the nesting
/// budget was used up, and the environment afterwards.
pub struct Outcome {
    pub value: Option<ObjectView>,
    pub env: EnvironmentView,
}

/// What evaluating a list of expressions gives: the values of all of them,
/// or what stopped the evaluation (an error value, or `None` where the
/// nesting budget was used up).
pub enum ListResult {
    Values(Seq<ObjectView>),
    Stopped(Option<ObjectView>),
}

/// The result for a list of expressions, and the environment afterwards.
pub struct ListOutcome {
    pub result: ListResult,
    pub env: EnvironmentView,
}

impl Outcome {
    /// The value `value`, in `env`.
    pub open spec fn of(value: ObjectView, env: EnvironmentView) -> Outcome {
        Outcome { value: Some(value), env }
    }

    /// Evaluation cannot go on with this outcome: there is no value, or the
    /// value is an error.
    pub open spec fn stops(self) -> bool {
        match self.value {
            None => true,
            Some(v) => v is Error,
        }
    }
}

/// The 64-bit signed integer that `x` wraps around to.
pub open spec fn wrap(x: int) -> i64 {
    let m = x % 0x1_0000_0000_0000_0000;
    if m > i64::MAX {
        (m - 0x1_0000_0000_0000_0000) as i64
    } else {
        m as i64
    }
}

/// The quotient of `l` by `r`, rounded toward zero.
pub open spec fn truncated_quotient(l: int, r: int) -> int
    recommends
        r != 0,
{
    if l >= 0 && r > 0 {
        l / r
    } else if l >= 0 && r < 0 {
        -(l / (-r))
    } else if l < 0 && r > 0 {
        -((-l) / r)
    } else {
        (-l) / (-r)
    }
}

/// A length as an integer value; one beyond the largest integer counts as
/// the largest.
pub open spec fn length_value(n: nat) -> ObjectView {
    if n > i64::MAX {
        ObjectView::Integer(i64::MAX)
    } else {
        ObjectView::Integer(n as i64)
    }
}

/// `type mismatch: <left>, "<operator>", <right>`
pub open spec fn type_mismatch(left: ObjectView, operator: Seq<char>, right: ObjectView) -> ObjectView {
    ObjectView::Error(
        "type mismatch: "@ + left.inspect() + ", \""@ + operator + "\", "@ + right.inspect(),
    )
}

/// `unknown operator: <left>, "<operator>", <right>`
pub open spec fn unknown_infix_operator(
    left: ObjectView,
    operator: Seq<char>,
    right: ObjectView,
) -> ObjectView {
    ObjectView::Error(
        "unknown operator: "@ + left.inspect() + ", \""@ + operator + "\", "@ + right.inspect(),
    )
}

/// `unknown operator: <operator>, <right>`
pub open spec fn unknown_prefix_operator(operator: Seq<char>, right: ObjectView) -> ObjectView {
    ObjectView::Error("unknown operator: "@ + operator + ", "@ + right.inspect())
}

/// `unknown object: <right>`
pub open spec fn unknown_object(right: ObjectView) -> ObjectView {
    ObjectView::Error("unknown object: "@ + right.inspect())
}

/// `identifier not found: <name>`
pub open spec fn identifier_not_found(name: Seq<char>) -> ObjectView {
    ObjectView::Error("identifier not found: "@ + name)
}

/// `invalid identifier`, for a `let` whose name is no identifier.
pub open spec fn invalid_identifier() -> ObjectView {
    ObjectView::Error("invalid identifier"@)
}

/// `wrong number of arguments, got = <got>, want = <want>`
pub open spec fn wrong_number_of_arguments(got: nat, want: nat) -> ObjectView {
    ObjectView::Error(
        "wrong number of arguments, got = "@ + decimal(got as int) + ", want = "@ + decimal(
            want as int,
        ),
    )
}

/// `argument to '<builtin>' not supported, got <variant>`
pub open spec fn unsupported_argument(builtin: Seq<char>, kind: ObjectKind) -> ObjectView {
    ObjectView::Error("argument to '"@ + builtin + "' not supported, got "@ + kind.name())
}

/// `unusable as hash key: <variant>`
pub open spec fn unusable_hash_key(kind: ObjectKind) -> ObjectView {
    ObjectView::Error("unusable as hash key: "@ + kind.name())
}

/// `not a function: <variant>`
pub open spec fn not_a_function(kind: ObjectKind) -> ObjectView {
    ObjectView::Error("not a function: "@ + kind.name())
}

/// `index operator not supported: <variant>`
pub open spec fn index_not_supported(kind: ObjectKind) -> ObjectView {
    ObjectView::Error("index operator not supported: "@ + kind.name())
}

/// `division by zero`
pub open spec fn division_by_zero() -> ObjectView {
    ObjectView::Error("division by zero"@)
}

/// `unknown builtin: <name>`
pub open spec fn unknown_builtin(name: Seq<char>) -> ObjectView {
    ObjectView::Error("unknown builtin: "@ + name)
}

/// Whether a value counts as true: every value but `Null` and `false` does.
pub open spec fn is_truthy(value: ObjectView) -> bool {
    match value {
        ObjectView::Null => false,
        ObjectView::Bool(b) => b,
        _ => true,
    }
}

/// `!value`: the truth value opposite to that of `value`.
pub open spec fn bang(value: ObjectView) -> ObjectView {
    ObjectView::Bool(!is_truthy(value))
}

/// `-value`: the negated integer, wrapped around; an error for anything but
/// an integer.
pub open spec fn minus(value: ObjectView) -> ObjectView {
    match value {
        ObjectView::Integer(n) => ObjectView::Integer(wrap(-(n as int))),
        _ => unknown_object(value),
    }
}

/// The value of a prefix operator applied to a value.
pub open spec fn prefix_result(operator: Seq<char>, right: ObjectView) -> ObjectView {
    if operator == "!"@ {
        bang(right)
    } else if operator == "-"@ {
        minus(right)
    } else {
        unknown_prefix_operator(operator, right)
    }
}

/// The value of an infix operator between two integers. Sums, differences
/// and products wrap around; a quotient is rounded toward zero.
pub open spec fn integer_infix_result(operator: Seq<char>, left: i64, right: i64) -> ObjectView {
    if operator == "+"@ {
        ObjectView::Integer(wrap(left + right))
    } else if operator == "-"@ {
        ObjectView::Integer(wrap(left - right))
    } else if operator == "*"@ {
        ObjectView::Integer(wrap(left * right))
    } else if operator == "/"@ {
        if right == 0 {
            division_by_zero()
        } else {
            ObjectView::Integer(wrap(truncated_quotient(left as int, right as int)))
        }
    } else if operator == "<"@ {
        ObjectView::Bool(left < right)
    } else if operator == ">"@ {
        ObjectView::Bool(left > right)
    } else if operator == "=="@ {
        ObjectView::Bool(left == right)
    } else if operator == "!="@ {
        ObjectView::Bool(left != right)
    } else {
        unknown_infix_operator(ObjectView::Integer(left), operator, ObjectView::Integer(right))
    }
}

/// The value of an infix operator between two strings: `+` joins them, and
/// there is no other.
pub open spec fn string_infix_result(
    operator: Seq<char>,
    left: Seq<char>,
    right: Seq<char>,
) -> ObjectView {
    if operator == "+"@ {
        ObjectView::StringValue(left + right)
    } else {
        unknown_infix_operator(
            ObjectView::StringValue(left),
            operator,
            ObjectView::StringValue(right),
        )
    }
}

/// The value of an infix operator between two values.
pub open spec fn infix_result(left: ObjectView, operator: Seq<char>, right: ObjectView) -> ObjectView {
    match (left, right) {
        (ObjectView::Integer(l), ObjectView::Integer(r)) => integer_infix_result(operator, l, r),
        (ObjectView::StringValue(l), ObjectView::StringValue(r)) => string_infix_result(
            operator,
            l,
            r,
        ),
        _ => if left.kind() != right.kind() {
            type_mismatch(left, operator, right)
        } else if (left is Bool || left is Null) && operator == "=="@ {
            ObjectView::Bool(left.same_value(right))
        } else if (left is Bool || left is Null) && operator == "!="@ {
            ObjectView::Bool(!left.same_value(right))
        } else {
            unknown_infix_operator(left, operator, right)
        },
    }
}

/// The index of the entry of a hash that is found by `hash_key`.
pub open spec fn hash_find(pairs: Seq<HashPairView>, hash_key: Seq<char>) -> Option<int>
    decreases pairs.len(),
{
    if pairs.len() == 0 {
        None
    } else if pairs.last().hash_key == hash_key {
        Some(pairs.len() - 1)
    } else {
        hash_find(pairs.drop_last(), hash_key)
    }
}

/// The entries of a hash after `pair` was put into it: in the place of the
/// entry with the same key, or else behind all others.
pub open spec fn hash_insert(pairs: Seq<HashPairView>, pair: HashPairView) -> Seq<HashPairView> {
    match hash_find(pairs, pair.hash_key) {
        Some(i) => pairs.update(i, pair),
        None => pairs.push(pair),
    }
}

/// The value of `left[index]`.
pub open spec fn index_result(left: ObjectView, index: ObjectView) -> ObjectView {
    match (left, index) {
        (ObjectView::Array(elements), ObjectView::Integer(i)) => if 0 <= i < elements.len() {
            elements[i as int]
        } else {
            ObjectView::Null
        },
        (ObjectView::Hash(pairs), _) => match index.hash_key() {
            Some(k) => match hash_find(pairs, k) {
                Some(i) => pairs[i].value,
                None => ObjectView::Null,
            },
            None => index_not_supported(left.kind()),
        },
        _ => index_not_supported(left.kind()),
    }
}

/// Whether `name` is one of the builtin functions.
pub open spec fn is_builtin(name: Seq<char>) -> bool {
    name == "len"@ || name == "first"@ || name == "last"@ || name == "rest"@ || name == "push"@
}

/// `len(x)`: the number of characters of a string or of elements of an
/// array.
pub open spec fn builtin_len_result(args: Seq<ObjectView>) -> ObjectView {
    if args.len() != 1 {
        wrong_number_of_arguments(args.len(), 1)
    } else {
        match args[0] {
            ObjectView::StringValue(s) => length_value(s.len()),
            ObjectView::Array(elements) => length_value(elements.len()),
            _ => unsupported_argument("len"@, args[0].kind()),
        }
    }
}

/// `first(array)`: the first element, or `Null` for an empty array.
pub open spec fn builtin_first_result(args: Seq<ObjectView>) -> ObjectView {
    if args.len() != 1 {
        wrong_number_of_arguments(args.len(), 1)
    } else {
        match args[0] {
            ObjectView::Array(elements) => if elements.len() > 0 {
                elements[0]
            } else {
                ObjectView::Null
            },
            _ => unsupported_argument("first"@, args[0].kind()),
        }
    }
}

/// `last(array)`: the last element, or `Null` for an empty array.
pub open spec fn builtin_last_result(args: Seq<ObjectView>) -> ObjectView {
    if args.len() != 1 {
        wrong_number_of_arguments(args.len(), 1)
    } else {
        match args[0] {
            ObjectView::Array(elements) => if elements.len() > 0 {
                elements.last()
            } else {
                ObjectView::Null
            },
            _ => unsupported_argument("last"@, args[0].kind()),
        }
    }
}

/// `rest(array)`: a new array of all elements but the first, or `Null` for
/// an empty array.
pub open spec fn builtin_rest_result(args: Seq<ObjectView>) -> ObjectView {
    if args.len() != 1 {
        wrong_number_of_arguments(args.len(), 1)
    } else {
        match args[0] {
            ObjectView::Array(elements) => if elements.len() > 0 {
                ObjectView::Array(elements.drop_first())
            } else {
                ObjectView::Null
            },
            _ => unsupported_argument("rest"@, args[0].kind()),
        }
    }
}

/// `push(array, x)`: a new array of the elements of `array` and then `x`.
pub open spec fn builtin_push_result(args: Seq<ObjectView>) -> ObjectView {
    if args.len() != 2 {
        wrong_number_of_arguments(args.len(), 2)
    } else {
        match args[0] {
            ObjectView::Array(elements) => ObjectView::Array(elements.push(args[1])),
            _ => unsupported_argument("push"@, args[0].kind()),
        }
    }
}

/// The value of the builtin function `name` applied to `args`.
pub open spec fn builtin_result(name: Seq<char>, args: Seq<ObjectView>) -> ObjectView {
    if name == "len"@ {
        builtin_len_result(args)
    } else if name == "first"@ {
        builtin_first_result(args)
    } else if name == "last"@ {
        builtin_last_result(args)
    } else if name == "rest"@ {
        builtin_rest_result(args)
    } else if name == "push"@ {
        builtin_push_result(args)
    } else {
        unknown_builtin(name)
    }
}

/// The value of an identifier: what the environment binds it to, or else
/// the builtin function of that name.
pub open spec fn identifier_result(name: Seq<char>, env: EnvironmentView) -> ObjectView {
    match env.get(name) {
        Some(v) => v,
        None => if is_builtin(name) {
            ObjectView::Builtin(name)
        } else {
            identifier_not_found(name)
        },
    }
}

/// The environment after the parameters from the `i`-th on were bound, in
/// the current scope, to the arguments at their positions. A parameter
/// without an argument stays unbound, and an argument without a parameter is
/// ignored.
pub open spec fn bind_parameters(
    parameters: Seq<NodeView>,
    args: Seq<ObjectView>,
    i: nat,
    env: EnvironmentView,
) -> EnvironmentView
    decreases parameters.len() - i,
{
    if i >= parameters.len() {
        env
    } else {
        bind_parameters(
            parameters,
            args,
            i + 1,
            match parameters[i as int] {
                NodeView::Identifier { token, value } => if i < args.len() {
                    env.set(value, args[i as int])
                } else {
                    env
                },
                _ => env,
            },
        )
    }
}

/// What a function call hands back: the value that a `return` inside the
/// body wrapped, or the value of the body as it is.
pub open spec fn unwrap_return(value: Option<ObjectView>) -> Option<ObjectView> {
    match value {
        Some(ObjectView::ReturnValue(v)) => Some(*v),
        _ => value,
    }
}

/// The value of `node` in `env`, with nesting budget `depth`.
pub open spec fn eval_node(node: NodeView, env: EnvironmentView, depth: nat) -> Outcome
    decreases depth, 0nat,
{
    if depth == 0 {
        Outcome { value: None, env }
    } else {
        let d = (depth - 1) as nat;
        match node {
            NodeView::Program { statements } => eval_statements(
                statements,
                0,
                ObjectView::Null,
                env,
                d,
                true,
            ),
            NodeView::LetStatement { token, name, value } => eval_let(*name, *value, env, d),
            NodeView::ReturnStatement { token, return_value } => eval_return(
                *return_value,
                env,
                d,
            ),
            NodeView::ExpressionStatement { token, expression } => eval_node(*expression, env, d),
            NodeView::BlockStatement { token, statements } => eval_statements(
                statements,
                0,
                ObjectView::Null,
                env,
                d,
                false,
            ),
            NodeView::Identifier { token, value } => Outcome::of(
                identifier_result(value, env),
                env,
            ),
            NodeView::IntegerLiteral { token, value } => Outcome::of(
                ObjectView::Integer(value),
                env,
            ),
            NodeView::StringLiteral { token, value } => Outcome::of(
                ObjectView::StringValue(value),
                env,
            ),
            NodeView::Boolean { token, value } => Outcome::of(ObjectView::Bool(value), env),
            NodeView::PrefixExpression { token, operator, right } => eval_prefix(
                operator,
                *right,
                env,
                d,
            ),
            NodeView::InfixExpression { token, left, operator, right } => eval_infix(
                *left,
                operator,
                *right,
                env,
                d,
            ),
            NodeView::IfExpression { token, condition, consequence, alternative } => eval_if(
                *condition,
                *consequence,
                match alternative {
                    Some(a) => Some(*a),
                    None => None,
                },
                env,
                d,
            ),
            NodeView::FunctionLiteral { token, parameters, body } => Outcome::of(
                ObjectView::Function { parameters, body, environment: env.current },
                env,
            ),
            NodeView::CallExpression { token, function, arguments } => eval_call(
                *function,
                arguments,
                env,
                d,
            ),
            NodeView::ArrayLiteral { token, elements } => eval_array(elements, env, d),
            NodeView::HashLiteral { token, pairs } => eval_hash_pairs(
                pairs,
                0,
                Seq::empty(),
                env,
                d,
            ),
            NodeView::IndexExpression { token, left, index } => eval_index(*left, *index, env, d),
        }
    }
}

/// The value of the statements from the `i`-th on, where `last` is the
/// value of the one before. An error ends the evaluation, and so does a
/// returned value, which a program unwraps and a block hands on as it is.
/// The value of the last statement is the value of all; without statements
/// it is `Null`.
pub open spec fn eval_statements(
    statements: Seq<NodeView>,
    i: nat,
    last: ObjectView,
    env: EnvironmentView,
    depth: nat,
    is_program: bool,
) -> Outcome
    decreases depth, statements.len() - i + 1,
{
    if i >= statements.len() {
        Outcome::of(last, env)
    } else {
        let r = eval_node(statements[i as int], env, depth);
        match r.value {
            None => r,
            Some(ObjectView::Error(_)) => r,
            Some(ObjectView::ReturnValue(v)) => if is_program {
                Outcome::of(*v, r.env)
            } else {
                r
            },
            Some(v) => eval_statements(statements, i + 1, v, r.env, depth, is_program),
        }
    }
}

/// `let name = value`: the value, which is from then on bound to the name
/// in the current scope.
pub open spec fn eval_let(name: NodeView, value: NodeView, env: EnvironmentView, depth: nat) -> Outcome
    decreases depth, 1nat,
{
    let r = eval_node(value, env, depth);
    if r.stops() {
        r
    } else {
        match name {
            NodeView::Identifier { token, value: n } => Outcome {
                value: r.value,
                env: r.env.set(n, r.value->0),
            },
            _ => Outcome::of(invalid_identifier(), r.env),
        }
    }
}

/// `return value`: the value, wrapped so that the blocks around hand it on.
pub open spec fn eval_return(return_value: NodeView, env: EnvironmentView, depth: nat) -> Outcome
    decreases depth, 1nat,
{
    let r = eval_node(return_value, env, depth);
    if r.stops() {
        r
    } else {
        Outcome::of(ObjectView::ReturnValue(Box::new(r.value->0)), r.env)
    }
}

/// A prefix operator applied to an expression.
pub open spec fn eval_prefix(
    operator: Seq<char>,
    right: NodeView,
    env: EnvironmentView,
    depth: nat,
) -> Outcome
    decreases depth, 1nat,
{
    let r = eval_node(right, env, depth);
    if r.stops() {
        r
    } else {
        Outcome::of(prefix_result(operator, r.value->0), r.env)
    }
}

/// An infix operator between two expressions, the left one evaluated first.
pub open spec fn eval_infix(
    left: NodeView,
    operator: Seq<char>,
    right: NodeView,
    env: EnvironmentView,
    depth: nat,
) -> Outcome
    decreases depth, 1nat,
{
    let l = eval_node(left, env, depth);
    if l.stops() {
        l
    } else {
        let r = eval_node(right, l.env, depth);
        if r.stops() {
            r
        } else {
            Outcome::of(infix_result(l.value->0, operator, r.value->0), r.env)
        }
    }
}

/// `if (condition) consequence else alternative`: the value of the branch
/// that the condition selects, or `Null` where it selects none.
pub open spec fn eval_if(
    condition: NodeView,
    consequence: NodeView,
    alternative: Option<NodeView>,
    env: EnvironmentView,
    depth: nat,
) -> Outcome
    decreases depth, 1nat,
{
    let c = eval_node(condition, env, depth);
    if c.stops() {
        c
    } else if is_truthy(c.value->0) {
        eval_node(consequence, c.env, depth)
    } else {
        match alternative {
            Some(a) => eval_node(a, c.env, depth),
            None => Outcome::of(ObjectView::Null, c.env),
        }
    }
}

/// The values of the expressions from the `i`-th on, behind the values
/// `acc` of those before, evaluated from left to right up to the first that
/// stops.
pub open spec fn eval_expressions(
    expressions: Seq<NodeView>,
    i: nat,
    acc: Seq<ObjectView>,
    env: EnvironmentView,
    depth: nat,
) -> ListOutcome
    decreases depth, expressions.len() - i + 1,
{
    if i >= expressions.len() {
        ListOutcome { result: ListResult::Values(acc), env }
    } else {
        let r = eval_node(expressions[i as int], env, depth);
        if r.stops() {
            ListOutcome { result: ListResult::Stopped(r.value), env: r.env }
        } else {
            eval_expressions(expressions, i + 1, acc.push(r.value->0), r.env, depth)
        }
    }
}

/// `function(arguments)`: the function is evaluated first, then the
/// arguments from left to right, then the function is applied.
pub open spec fn eval_call(
    function: NodeView,
    arguments: Seq<NodeView>,
    env: EnvironmentView,
    depth: nat,
) -> Outcome
    decreases depth, arguments.len() + 3,
{
    let f = eval_node(function, env, depth);
    if f.stops() {
        f
    } else {
        let a = eval_expressions(arguments, 0, Seq::empty(), f.env, depth);
        match a.result {
            ListResult::Stopped(v) => Outcome { value: v, env: a.env },
            ListResult::Values(args) => apply(f.value->0, args, a.env, depth),
        }
    }
}

/// A callable value applied to arguments.
///
/// A function's body runs in a new scope inside the scope that the function
/// was made in, with the parameters bound there; afterwards the caller's
/// scope is the current one again.
pub open spec fn apply(
    callee: ObjectView,
    args: Seq<ObjectView>,
    env: EnvironmentView,
    depth: nat,
) -> Outcome
    decreases depth, 1nat,
{
    match callee {
        ObjectView::Function { parameters, body, environment } => {
            let r = eval_node(
                *body,
                bind_parameters(parameters, args, 0, env.enclose(environment)),
                depth,
            );
            Outcome { value: unwrap_return(r.value), env: r.env.with_current(env.current) }
        },
        ObjectView::Builtin(name) => Outcome::of(builtin_result(name, args), env),
        _ => Outcome::of(not_a_function(callee.kind()), env),
    }
}

/// `[elements]`: an array of the values of the elements.
pub open spec fn eval_array(elements: Seq<NodeView>, env: EnvironmentView, depth: nat) -> Outcome
    decreases depth, elements.len() + 3,
{
    let a = eval_expressions(elements, 0, Seq::empty(), env, depth);
    match a.result {
        ListResult::Stopped(v) => Outcome { value: v, env: a.env },
        ListResult::Values(values) => Outcome::of(ObjectView::Array(values), a.env),
    }
}

/// The hash of the entries `acc` and of the pairs from the `i`-th on. Of
/// each pair the key is evaluated first and must be usable as a key, then
/// the value; a later entry replaces an earlier one with the same key.
pub open spec fn eval_hash_pairs(
    pairs: Seq<(NodeView, NodeView)>,
    i: nat,
    acc: Seq<HashPairView>,
    env: EnvironmentView,
    depth: nat,
) -> Outcome
    decreases depth, pairs.len() - i + 1,
{
    if i >= pairs.len() {
        Outcome::of(ObjectView::Hash(acc), env)
    } else {
        let k = eval_node(pairs[i as int].0, env, depth);
        if k.stops() {
            k
        } else {
            match k.value->0.hash_key() {
                None => Outcome::of(unusable_hash_key(k.value->0.kind()), k.env),
                Some(hash_key) => {
                    let v = eval_node(pairs[i as int].1, k.env, depth);
                    if v.stops() {
                        v
                    } else {
                        eval_hash_pairs(
                            pairs,
                            i + 1,
                            hash_insert(
                                acc,
                                HashPairView { hash_key, key: k.value->0, value: v.value->0 },
                            ),
                            v.env,
                            depth,
                        )
                    }
                },
            }
        }
    }
}

/// `left[index]`, the left expression evaluated first.
pub open spec fn eval_index(left: NodeView, index: NodeView, env: EnvironmentView, depth: nat) -> Outcome
    decreases depth, 1nat,
{
    let l = eval_node(left, env, depth);
    if l.stops() {
        l
    } else {
        let i = eval_node(index, l.env, depth);
        if i.stops() {
            i
        } else {
            Outcome::of(index_result(l.value->0, i.value->0), i.env)
        }
    }
}

/// Negating twice undoes itself: where an expression has an integer value,
/// the expression with two `-` in front of it has the same value and leaves
/// the same environment. The two operators take two more units of the nesting
/// budget. This holds of every integer, the smallest included, since
/// negation wraps around.
pub proof fn lemma_double_negation(
    expression: NodeView,
    outer: TokenView,
    inner: TokenView,
    env: EnvironmentView,
    depth: nat,
)
    requires
        eval_node(expression, env, depth).value matches Some(ObjectView::Integer(_)),
    ensures
        eval_node(
            NodeView::PrefixExpression {
                token: outer,
                operator: "-"@,
                right: Box::new(
                    NodeView::PrefixExpression {
                        token: inner,
                        operator: "-"@,
                        right: Box::new(expression),
                    },
                ),
            },
            env,
            depth + 2,
        ) == eval_node(expression, env, depth),
{
    reveal_strlit("-");
    reveal_strlit("!");
    let once = NodeView::PrefixExpression {
        token: inner,
        operator: "-"@,
        right: Box::new(expression),
    };
    let twice = NodeView::PrefixExpression { token: outer, operator: "-"@, right: Box::new(once) };
    let e = eval_node(expression, env, depth);
    let n = e.value->0->Integer_0;
    assert("-"@ != "!"@) by {
        assert("-"@[0] != "!"@[0]);
    }
    assert(eval_prefix("-"@, expression, env, depth) == Outcome::of(
        ObjectView::Integer(wrap(-(n as int))),
        e.env,
    ));
    assert(eval_node(once, env, depth + 1) == eval_prefix("-"@, expression, env, depth));
    assert(eval_prefix("-"@, once, env, (depth + 1) as nat) == Outcome::of(
        ObjectView::Integer(wrap(-(wrap(-(n as int)) as int))),
        e.env,
    ));
    assert(eval_node(twice, env, depth + 2) == eval_prefix("-"@, once, env, (depth + 1) as nat));
    assert(wrap(-(wrap(-(n as int)) as int)) == n);
}

/// Lexical scope: what a call gives does not depend on the scope it is made
/// from. The body runs inside the scope that the function was made in, so
/// the value and all scopes afterwards are the same whichever scope is the
/// current one at the call; only that scope is the current one again
/// afterwards.
pub proof fn lemma_call_is_lexically_scoped(
    callee: ObjectView,
    args: Seq<ObjectView>,
    env: EnvironmentView,
    scope: nat,
    depth: nat,
)
    requires
        scope < env.scopes.len(),
    ensures
        apply(callee, args, env.with_current(scope), depth).value == apply(
            callee,
            args,
            env,
            depth,
        ).value,
        apply(callee, args, env.with_current(scope), depth).env.scopes == apply(
            callee,
            args,
            env,
            depth,
        ).env.scopes,
{
    match callee {
        ObjectView::Function { parameters, body, environment } => {
            assert(env.with_current(scope).enclose(environment) == env.enclose(environment));
        },
        _ => {},
    }
}

/// `after` is what evaluating something in `before` can leave: a well-formed
/// environment with the same current scope, in which every scope of
/// `before` but the current one is as it was. The current scope may bind
/// more, and there may be new scopes.
pub open spec fn extends(before: EnvironmentView, after: EnvironmentView) -> bool {
    &&& after.well_formed()
    &&& after.current == before.current
    &&& before.scopes.len() <= after.scopes.len()
    &&& forall|i: int|
        0 <= i < before.scopes.len() && i != before.current ==> (#[trigger] after.scopes[i])
            == before.scopes[i]
}

/// `after` is what a call in `before` leaves: a well-formed environment
/// with the same current scope, in which every scope of `before` is as it
/// was. There may be new scopes.
pub open spec fn preserves(before: EnvironmentView, after: EnvironmentView) -> bool {
    &&& after.well_formed()
    &&& after.current == before.current
    &&& before.scopes.len() <= after.scopes.len()
    &&& forall|i: int|
        0 <= i < before.scopes.len() ==> (#[trigger] after.scopes[i]) == before.scopes[i]
}

/// Binding the parameters of a call touches the current scope only.
pub proof fn lemma_bind_parameters_extends(
    parameters: Seq<NodeView>,
    args: Seq<ObjectView>,
    i: nat,
    env: EnvironmentView,
)
    requires
        env.well_formed(),
    ensures
        extends(env, bind_parameters(parameters, args, i, env)),
        bind_parameters(parameters, args, i, env).scopes.len() == env.scopes.len(),
    decreases parameters.len() - i,
{
    if i < parameters.len() {
        let next = match parameters[i as int] {
            NodeView::Identifier { token, value } => if i < args.len() {
                env.set(value, args[i as int])
            } else {
                env
            },
            _ => env,
        };
        lemma_bind_parameters_extends(parameters, args, i + 1, next);
    }
}

/// Evaluation has no effect on the scopes around it: whatever a node does,
/// it binds names in the current scope and in scopes that it makes itself,
/// and in no other; and the current scope is the same afterwards.
pub proof fn lemma_eval_node_extends(node: NodeView, env: EnvironmentView, depth: nat)
    requires
        env.well_formed(),
    ensures
        extends(env, eval_node(node, env, depth).env),
    decreases depth, 0nat,
{
    if depth > 0 {
        let d = (depth - 1) as nat;
        match node {
            NodeView::Program { statements } => {
                lemma_eval_statements_extends(statements, 0, ObjectView::Null, env, d, true);
            },
            NodeView::LetStatement { token, name, value } => {
                lemma_eval_let_extends(*name, *value, env, d);
            },
            NodeView::ReturnStatement { token, return_value } => {
                lemma_eval_return_extends(*return_value, env, d);
            },
            NodeView::ExpressionStatement { token, expression } => {
                lemma_eval_node_extends(*expression, env, d);
            },
            NodeView::BlockStatement { token, statements } => {
                lemma_eval_statements_extends(statements, 0, ObjectView::Null, env, d, false);
            },
            NodeView::PrefixExpression { token, operator, right } => {
                lemma_eval_prefix_extends(operator, *right, env, d);
            },
            NodeView::InfixExpression { token, left, operator, right } => {
                lemma_eval_infix_extends(*left, operator, *right, env, d);
            },
            NodeView::IfExpression { token, condition, consequence, alternative } => {
                lemma_eval_if_extends(
                    *condition,
                    *consequence,
                    match alternative {
                        Some(a) => Some(*a),
                        None => None,
                    },
                    env,
                    d,
                );
            },
            NodeView::CallExpression { token, function, arguments } => {
                lemma_eval_call_extends(*function, arguments, env, d);
            },
            NodeView::ArrayLiteral { token, elements } => {
                lemma_eval_array_extends(elements, env, d);
            },
            NodeView::HashLiteral { token, pairs } => {
                lemma_eval_hash_pairs_extends(pairs, 0, Seq::empty(), env, d);
            },
            NodeView::IndexExpression { token, left, index } => {
                lemma_eval_index_extends(*left, *index, env, d);
            },
            _ => {},
        }
    }
}

/// [`lemma_eval_node_extends`] for a list of statements.
pub proof fn lemma_eval_statements_extends(
    statements: Seq<NodeView>,
    i: nat,
    last: ObjectView,
    env: EnvironmentView,
    depth: nat,
    is_program: bool,
)
    requires
        env.well_formed(),
    ensures
        extends(env, eval_statements(statements, i, last, env, depth, is_program).env),
    decreases depth, statements.len() - i + 1,
{
    if i < statements.len() {
        let r = eval_node(statements[i as int], env, depth);
        lemma_eval_node_extends(statements[i as int], env, depth);
        match r.value {
            None => {},
            Some(ObjectView::Error(_)) => {},
            Some(ObjectView::ReturnValue(v)) => {},
            Some(v) => {
                lemma_eval_statements_extends(statements, i + 1, v, r.env, depth, is_program);
            },
        }
    }
}

/// [`lemma_eval_node_extends`] for a `let` statement.
pub proof fn lemma_eval_let_extends(
    name: NodeView,
    value: NodeView,
    env: EnvironmentView,
    depth: nat,
)
    requires
        env.well_formed(),
    ensures
        extends(env, eval_let(name, value, env, depth).env),
    decreases depth, 1nat,
{
    lemma_eval_node_extends(value, env, depth);
}

/// [`lemma_eval_node_extends`] for a `return` statement.
pub proof fn lemma_eval_return_extends(return_value: NodeView, env: EnvironmentView, depth: nat)
    requires
        env.well_formed(),
    ensures
        extends(env, eval_return(return_value, env, depth).env),
    decreases depth, 1nat,
{
    lemma_eval_node_extends(return_value, env, depth);
}

/// [`lemma_eval_node_extends`] for a prefix expression.
pub proof fn lemma_eval_prefix_extends(
    operator: Seq<char>,
    right: NodeView,
    env: EnvironmentView,
    depth: nat,
)
    requires
        env.well_formed(),
    ensures
        extends(env, eval_prefix(operator, right, env, depth).env),
    decreases depth, 1nat,
{
    lemma_eval_node_extends(right, env, depth);
}

/// [`lemma_eval_node_extends`] for an infix expression.
pub proof fn lemma_eval_infix_extends(
    left: NodeView,
    operator: Seq<char>,
    right: NodeView,
    env: EnvironmentView,
    depth: nat,
)
    requires
        env.well_formed(),
    ensures
        extends(env, eval_infix(left, operator, right, env, depth).env),
    decreases depth, 1nat,
{
    let l = eval_node(left, env, depth);
    lemma_eval_node_extends(left, env, depth);
    if !l.stops() {
        lemma_eval_node_extends(right, l.env, depth);
    }
}

/// [`lemma_eval_node_extends`] for an `if` expression.
pub proof fn lemma_eval_if_extends(
    condition: NodeView,
    consequence: NodeView,
    alternative: Option<NodeView>,
    env: EnvironmentView,
    depth: nat,
)
    requires
        env.well_formed(),
    ensures
        extends(env, eval_if(condition, consequence, alternative, env, depth).env),
    decreases depth, 1nat,
{
    let c = eval_node(condition, env, depth);
    lemma_eval_node_extends(condition, env, depth);
    if !c.stops() {
        if is_truthy(c.value->0) {
            lemma_eval_node_extends(consequence, c.env, depth);
        } else {
            match alternative {
                Some(a) => {
                    lemma_eval_node_extends(a, c.env, depth);
                },
                None => {},
            }
        }
    }
}

/// [`lemma_eval_node_extends`] for a list of expressions.
pub proof fn lemma_eval_expressions_extends(
    expressions: Seq<NodeView>,
    i: nat,
    acc: Seq<ObjectView>,
    env: EnvironmentView,
    depth: nat,
)
    requires
        env.well_formed(),
    ensures
        extends(env, eval_expressions(expressions, i, acc, env, depth).env),
    decreases depth, expressions.len() - i + 1,
{
    if i < expressions.len() {
        let r = eval_node(expressions[i as int], env, depth);
        lemma_eval_node_extends(expressions[i as int], env, depth);
        if !r.stops() {
            lemma_eval_expressions_extends(expressions, i + 1, acc.push(r.value->0), r.env, depth);
        }
    }
}

/// [`lemma_eval_node_extends`] for a call.
pub proof fn lemma_eval_call_extends(
    function: NodeView,
    arguments: Seq<NodeView>,
    env: EnvironmentView,
    depth: nat,
)
    requires
        env.well_formed(),
    ensures
        extends(env, eval_call(function, arguments, env, depth).env),
    decreases depth, arguments.len() + 3,
{
    let f = eval_node(function, env, depth);
    lemma_eval_node_extends(function, env, depth);
    if !f.stops() {
        let a = eval_expressions(arguments, 0, Seq::empty(), f.env, depth);
        lemma_eval_expressions_extends(arguments, 0, Seq::empty(), f.env, depth);
        match a.result {
            ListResult::Stopped(v) => {},
            ListResult::Values(args) => {
                lemma_apply_preserves(f.value->0, args, a.env, depth);
            },
        }
    }
}

/// A call has no effect on the scopes that were there before it: it leaves
/// each of them as it was, the caller's included, and the caller's scope is
/// the current one again afterwards. Whatever the body binds, it binds in
/// scopes that the call has made.
pub proof fn lemma_apply_preserves(
    callee: ObjectView,
    args: Seq<ObjectView>,
    env: EnvironmentView,
    depth: nat,
)
    requires
        env.well_formed(),
    ensures
        preserves(env, apply(callee, args, env, depth).env),
    decreases depth, 1nat,
{
    match callee {
        ObjectView::Function { parameters, body, environment } => {
            let entered = env.enclose(environment);
            assert(entered.well_formed());
            let bound = bind_parameters(parameters, args, 0, entered);
            lemma_bind_parameters_extends(parameters, args, 0, entered);
            let r = eval_node(*body, bound, depth);
            lemma_eval_node_extends(*body, bound, depth);
            let out = r.env.with_current(env.current);
            assert forall|i: int| 0 <= i < env.scopes.len() implies #[trigger] out.scopes[i]
                == env.scopes[i] by {
                assert(r.env.scopes[i] == bound.scopes[i]);
                assert(bound.scopes[i] == entered.scopes[i]);
            }
        },
        _ => {},
    }
}

/// [`lemma_eval_node_extends`] for an array literal.
pub proof fn lemma_eval_array_extends(elements: Seq<NodeView>, env: EnvironmentView, depth: nat)
    requires
        env.well_formed(),
    ensures
        extends(env, eval_array(elements, env, depth).env),
    decreases depth, elements.len() + 3,
{
    lemma_eval_expressions_extends(elements, 0, Seq::empty(), env, depth);
}

/// [`lemma_eval_node_extends`] for the entries of a hash literal.
pub proof fn lemma_eval_hash_pairs_extends(
    pairs: Seq<(NodeView, NodeView)>,
    i: nat,
    acc: Seq<HashPairView>,
    env: EnvironmentView,
    depth: nat,
)
    requires
        env.well_formed(),
    ensures
        extends(env, eval_hash_pairs(pairs, i, acc, env, depth).env),
    decreases depth, pairs.len() - i + 1,
{
    if i < pairs.len() {
        let k = eval_node(pairs[i as int].0, env, depth);
        lemma_eval_node_extends(pairs[i as int].0, env, depth);
        if !k.stops() {
            match k.value->0.hash_key() {
                None => {},
                Some(hash_key) => {
                    let v = eval_node(pairs[i as int].1, k.env, depth);
                    lemma_eval_node_extends(pairs[i as int].1, k.env, depth);
                    if !v.stops() {
                        lemma_eval_hash_pairs_extends(
                            pairs,
                            i + 1,
                            hash_insert(
                                acc,
                                HashPairView { hash_key, key: k.value->0, value: v.value->0 },
                            ),
                            v.env,
                            depth,
                        );
                    }
                },
            }
        }
    }
}

/// [`lemma_eval_node_extends`] for an index expression.
pub proof fn lemma_eval_index_extends(
    left: NodeView,
    index: NodeView,
    env: EnvironmentView,
    depth: nat,
)
    requires
        env.well_formed(),
    ensures
        extends(env, eval_index(left, index, env, depth).env),
    decreases depth, 1nat,
{
    let l = eval_node(left, env, depth);
    lemma_eval_node_extends(left, env, depth);
    if !l.stops() {
        lemma_eval_node_extends(index, l.env, depth);
    }
}

} // verus!
