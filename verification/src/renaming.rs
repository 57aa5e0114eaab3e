//! Scopes are named by their index, and a call makes new scopes. This module
//! shows that the indices do not matter: evaluation in an environment that
//! holds some more scopes, unreachable from the others, gives the same
//! values, but for the indices of the scopes made on the way.

use vstd::prelude::*;
use crate::ast::NodeView;
use crate::environment::{EnvironmentView, ScopeView};
use crate::object::{HashPairView, ObjectView};
use crate::semantics::{
    apply, bind_parameters, builtin_result, eval_array, eval_call, eval_expressions,
    eval_hash_pairs, eval_if, eval_index, eval_infix, eval_let, eval_node, eval_prefix,
    eval_return, eval_statements, hash_find, hash_insert, identifier_result, index_result,
    infix_result, is_truthy, lemma_apply_preserves, lemma_bind_parameters_extends,
    lemma_eval_expressions_extends,
    lemma_eval_node_extends, prefix_result, ListOutcome, ListResult, Outcome,
};

verus! {

/// Where the scope `id` is after `k` scopes were put in at index `n`.
pub open spec fn moved(n: nat, k: nat, id: nat) -> nat {
    if id < n {
        id
    } else {
        id + k
    }
}

/// The value `v` with every scope that a function in it refers to named by
/// its index after `k` scopes were put in at index `n`.
pub open spec fn move_value(n: nat, k: nat, v: ObjectView) -> ObjectView
    decreases v,
{
    match v {
        ObjectView::ReturnValue(x) => ObjectView::ReturnValue(Box::new(move_value(n, k, *x))),
        ObjectView::Function { parameters, body, environment } => ObjectView::Function {
            parameters,
            body,
            environment: moved(n, k, environment),
        },
        ObjectView::Array(xs) => ObjectView::Array(move_values(n, k, xs)),
        ObjectView::Hash(ps) => ObjectView::Hash(move_pairs(n, k, ps)),
        _ => v,
    }
}

/// [`move_value`] of every value of a list.
pub open spec fn move_values(n: nat, k: nat, xs: Seq<ObjectView>) -> Seq<ObjectView>
    decreases xs,
{
    Seq::new(
        xs.len(),
        |i: int|
            if 0 <= i < xs.len() {
                move_value(n, k, xs[i])
            } else {
                arbitrary()
            },
    )
}

/// [`move_value`] of the key and the value of every entry of a hash.
pub open spec fn move_pairs(n: nat, k: nat, ps: Seq<HashPairView>) -> Seq<HashPairView>
    decreases ps,
{
    Seq::new(
        ps.len(),
        |i: int|
            if 0 <= i < ps.len() {
                HashPairView {
                    hash_key: ps[i].hash_key,
                    key: move_value(n, k, ps[i].key),
                    value: move_value(n, k, ps[i].value),
                }
            } else {
                arbitrary()
            },
    )
}

/// [`move_value`] of a value that may be missing.
pub open spec fn move_optional(n: nat, k: nat, v: Option<ObjectView>) -> Option<ObjectView> {
    match v {
        Some(x) => Some(move_value(n, k, x)),
        None => None,
    }
}

/// Moving scopes changes neither the variant of a value, nor how messages
/// show it, nor the key that a hash finds it by, nor whether it counts as
/// true.
pub proof fn lemma_move_value_keeps_appearance(n: nat, k: nat, v: ObjectView)
    ensures
        move_value(n, k, v).kind() == v.kind(),
        move_value(n, k, v).inspect() == v.inspect(),
        move_value(n, k, v).hash_key() == v.hash_key(),
        is_truthy(move_value(n, k, v)) == is_truthy(v),
        v is Integer || v is Bool || v is StringValue || v is Null || v is Error || v is Builtin
            ==> move_value(n, k, v) == v,
{
}

/// Prefix operators do not look at scopes.
pub proof fn lemma_move_prefix_result(n: nat, k: nat, operator: Seq<char>, right: ObjectView)
    ensures
        move_value(n, k, prefix_result(operator, right)) == prefix_result(
            operator,
            move_value(n, k, right),
        ),
{
    lemma_move_value_keeps_appearance(n, k, right);
}

/// Infix operators do not look at scopes.
pub proof fn lemma_move_infix_result(
    n: nat,
    k: nat,
    left: ObjectView,
    operator: Seq<char>,
    right: ObjectView,
)
    ensures
        move_value(n, k, infix_result(left, operator, right)) == infix_result(
            move_value(n, k, left),
            operator,
            move_value(n, k, right),
        ),
{
    lemma_move_value_keeps_appearance(n, k, left);
    lemma_move_value_keeps_appearance(n, k, right);
}

/// Finding an entry of a hash does not look at scopes.
pub proof fn lemma_move_hash_find(n: nat, k: nat, ps: Seq<HashPairView>, hash_key: Seq<char>)
    ensures
        hash_find(move_pairs(n, k, ps), hash_key) == hash_find(ps, hash_key),
        hash_find(ps, hash_key) matches Some(i) ==> 0 <= i < ps.len(),
    decreases ps.len(),
{
    if ps.len() > 0 {
        lemma_move_hash_find(n, k, ps.drop_last(), hash_key);
        assert(move_pairs(n, k, ps).drop_last() =~= move_pairs(n, k, ps.drop_last()));
    }
}

/// Putting an entry into a hash does not look at scopes.
pub proof fn lemma_move_hash_insert(n: nat, k: nat, ps: Seq<HashPairView>, pair: HashPairView)
    ensures
        move_pairs(n, k, hash_insert(ps, pair)) == hash_insert(
            move_pairs(n, k, ps),
            HashPairView {
                hash_key: pair.hash_key,
                key: move_value(n, k, pair.key),
                value: move_value(n, k, pair.value),
            },
        ),
{
    lemma_move_hash_find(n, k, ps, pair.hash_key);
    let moved_pair = HashPairView {
        hash_key: pair.hash_key,
        key: move_value(n, k, pair.key),
        value: move_value(n, k, pair.value),
    };
    match hash_find(ps, pair.hash_key) {
        Some(i) => {
            assert(move_pairs(n, k, ps.update(i, pair)) =~= move_pairs(n, k, ps).update(
                i,
                moved_pair,
            ));
        },
        None => {
            assert(move_pairs(n, k, ps.push(pair)) =~= move_pairs(n, k, ps).push(moved_pair));
        },
    }
}

/// Indexing does not look at scopes.
pub proof fn lemma_move_index_result(n: nat, k: nat, left: ObjectView, index: ObjectView)
    ensures
        move_value(n, k, index_result(left, index)) == index_result(
            move_value(n, k, left),
            move_value(n, k, index),
        ),
{
    lemma_move_value_keeps_appearance(n, k, left);
    lemma_move_value_keeps_appearance(n, k, index);
    lemma_move_value_keeps_appearance(n, k, index_result(left, index));
    let moved_left = move_value(n, k, left);
    let moved_index = move_value(n, k, index);
    match left {
        ObjectView::Hash(ps) => {
            assert(moved_left == ObjectView::Hash(move_pairs(n, k, ps)));
            match index.hash_key() {
                Some(key) => {
                    lemma_move_hash_find(n, k, ps, key);
                    match hash_find(ps, key) {
                        Some(i) => {
                            assert(move_pairs(n, k, ps)[i].value == move_value(n, k, ps[i].value));
                            assert(index_result(left, index) == ps[i].value);
                            assert(index_result(moved_left, moved_index) == move_pairs(
                                n,
                                k,
                                ps,
                            )[i].value);
                        },
                        None => {
                            assert(index_result(left, index) == ObjectView::Null);
                            assert(index_result(moved_left, moved_index) == ObjectView::Null);
                        },
                    }
                },
                None => {
                    assert(index_result(left, index) is Error);
                    assert(index_result(moved_left, moved_index) == index_result(left, index));
                },
            }
        },
        ObjectView::Array(xs) => {
            assert(moved_left == ObjectView::Array(move_values(n, k, xs)));
            match index {
                ObjectView::Integer(i) => {
                    if 0 <= i < xs.len() {
                        assert(move_values(n, k, xs)[i as int] == move_value(n, k, xs[i as int]));
                    }
                },
                _ => {},
            }
        },
        _ => {},
    }
}

/// The builtin functions do not look at scopes.
pub proof fn lemma_move_builtin_result(n: nat, k: nat, name: Seq<char>, args: Seq<ObjectView>)
    ensures
        move_value(n, k, builtin_result(name, args)) == builtin_result(
            name,
            move_values(n, k, args),
        ),
{
    if args.len() > 0 {
        lemma_move_value_keeps_appearance(n, k, args[0]);
        match args[0] {
            ObjectView::Array(xs) => {
                if xs.len() > 0 {
                    assert(move_values(n, k, xs.drop_first()) =~= move_values(
                        n,
                        k,
                        xs,
                    ).drop_first());
                }
                if args.len() > 1 {
                    assert(move_values(n, k, xs.push(args[1])) =~= move_values(n, k, xs).push(
                        move_value(n, k, args[1]),
                    ));
                }
            },
            _ => {},
        }
    }
}

/// [`move_value`] of everything that a scope binds, and of the scope that
/// encloses it.
pub open spec fn move_scope(n: nat, k: nat, scope: ScopeView) -> ScopeView {
    ScopeView {
        store: Map::new(
            |key: Seq<char>| scope.store.contains_key(key),
            |key: Seq<char>| move_value(n, k, scope.store[key]),
        ),
        outer: match scope.outer {
            Some(o) => Some(moved(n, k, o)),
            None => None,
        },
    }
}

/// The environment `env` after the scopes `extra` were put in at index `n`:
/// the scopes of `env` follow each other as before, with `extra` between
/// those below `n` and the others, and every scope is named by its new
/// index.
pub open spec fn move_environment(n: nat, extra: Seq<ScopeView>, env: EnvironmentView) -> EnvironmentView {
    EnvironmentView {
        scopes: Seq::new(
            env.scopes.len() + extra.len(),
            |j: int|
                if j < n {
                    move_scope(n, extra.len(), env.scopes[j])
                } else if j < n + extra.len() {
                    extra[j - n]
                } else {
                    move_scope(n, extra.len(), env.scopes[j - extra.len()])
                },
        ),
        current: moved(n, extra.len(), env.current),
    }
}

/// A name means the same after scopes were put in.
pub proof fn lemma_move_lookup(
    n: nat,
    extra: Seq<ScopeView>,
    env: EnvironmentView,
    scope: nat,
    name: Seq<char>,
)
    requires
        n <= env.scopes.len(),
    ensures
        move_environment(n, extra, env).lookup(moved(n, extra.len(), scope), name)
            == move_optional(n, extra.len(), env.lookup(scope, name)),
    decreases scope,
{
    let k = extra.len();
    let after = move_environment(n, extra, env);
    if scope < env.scopes.len() {
        assert(after.scopes[moved(n, k, scope) as int] == move_scope(
            n,
            k,
            env.scopes[scope as int],
        ));
        if !env.scopes[scope as int].store.contains_key(name) {
            match env.scopes[scope as int].outer {
                Some(o) => {
                    if o < scope {
                        lemma_move_lookup(n, extra, env, o, name);
                    }
                },
                None => {},
            }
        }
    }
}

/// Binding a name and putting in scopes can be done in either order.
pub proof fn lemma_move_bind(
    n: nat,
    extra: Seq<ScopeView>,
    env: EnvironmentView,
    scope: nat,
    name: Seq<char>,
    value: ObjectView,
)
    requires
        n <= env.scopes.len(),
    ensures
        move_environment(n, extra, env.bind(scope, name, value)) == move_environment(
            n,
            extra,
            env,
        ).bind(moved(n, extra.len(), scope), name, move_value(n, extra.len(), value)),
{
    let k = extra.len();
    let left = move_environment(n, extra, env.bind(scope, name, value));
    let right = move_environment(n, extra, env).bind(
        moved(n, k, scope),
        name,
        move_value(n, k, value),
    );
    if scope < env.scopes.len() {
        assert(left.scopes.len() == right.scopes.len());
        assert forall|j: int| 0 <= j < left.scopes.len() implies left.scopes[j]
            == right.scopes[j] by {
            if j == moved(n, k, scope) {
                assert(left.scopes[j].store =~= right.scopes[j].store);
            }
        }
        assert(left.scopes =~= right.scopes);
    }
}

/// Making a scope and putting in scopes can be done in either order.
pub proof fn lemma_move_enclose(n: nat, extra: Seq<ScopeView>, env: EnvironmentView, outer: nat)
    requires
        n <= env.scopes.len(),
    ensures
        move_environment(n, extra, env.enclose(outer)) == move_environment(
            n,
            extra,
            env,
        ).enclose(moved(n, extra.len(), outer)),
{
    let k = extra.len();
    let left = move_environment(n, extra, env.enclose(outer));
    let right = move_environment(n, extra, env).enclose(moved(n, k, outer));
    assert(left.scopes.len() == right.scopes.len());
    assert forall|j: int| 0 <= j < left.scopes.len() implies left.scopes[j] == right.scopes[j] by {
        if j == env.scopes.len() + k {
            assert(left.scopes[j].store =~= right.scopes[j].store);
        }
    }
    assert(left.scopes =~= right.scopes);
}

/// Choosing the current scope and putting in scopes can be done in either
/// order.
pub proof fn lemma_move_with_current(
    n: nat,
    extra: Seq<ScopeView>,
    env: EnvironmentView,
    scope: nat,
)
    requires
        n <= env.scopes.len(),
    ensures
        move_environment(n, extra, env.with_current(scope)) == move_environment(
            n,
            extra,
            env,
        ).with_current(moved(n, extra.len(), scope)),
{
    let left = move_environment(n, extra, env.with_current(scope));
    let right = move_environment(n, extra, env).with_current(moved(n, extra.len(), scope));
    assert(left.scopes =~= right.scopes);
}

/// An identifier means the same after scopes were put in.
pub proof fn lemma_move_identifier_result(
    n: nat,
    extra: Seq<ScopeView>,
    env: EnvironmentView,
    name: Seq<char>,
)
    requires
        n <= env.scopes.len(),
    ensures
        identifier_result(name, move_environment(n, extra, env)) == move_value(
            n,
            extra.len(),
            identifier_result(name, env),
        ),
{
    lemma_move_lookup(n, extra, env, env.current, name);
    lemma_move_value_keeps_appearance(n, extra.len(), identifier_result(name, env));
}

/// Binding the parameters of a call and putting in scopes can be done in
/// either order.
pub proof fn lemma_move_bind_parameters(
    n: nat,
    extra: Seq<ScopeView>,
    parameters: Seq<NodeView>,
    args: Seq<ObjectView>,
    i: nat,
    env: EnvironmentView,
)
    requires
        n <= env.scopes.len(),
    ensures
        bind_parameters(
            parameters,
            move_values(n, extra.len(), args),
            i,
            move_environment(n, extra, env),
        ) == move_environment(n, extra, bind_parameters(parameters, args, i, env)),
    decreases parameters.len() - i,
{
    if i < parameters.len() {
        match parameters[i as int] {
            NodeView::Identifier { token, value } => {
                if i < args.len() {
                    lemma_move_bind(n, extra, env, env.current, value, args[i as int]);
                    lemma_move_bind_parameters(
                        n,
                        extra,
                        parameters,
                        args,
                        i + 1,
                        env.set(value, args[i as int]),
                    );
                } else {
                    lemma_move_bind_parameters(n, extra, parameters, args, i + 1, env);
                }
            },
            _ => {
                lemma_move_bind_parameters(n, extra, parameters, args, i + 1, env);
            },
        }
    }
}

/// [`move_value`] and [`move_environment`] of an outcome.
pub open spec fn move_outcome(n: nat, extra: Seq<ScopeView>, outcome: Outcome) -> Outcome {
    Outcome {
        value: move_optional(n, extra.len(), outcome.value),
        env: move_environment(n, extra, outcome.env),
    }
}

/// [`move_values`] and [`move_environment`] of the outcome for a list.
pub open spec fn move_list_outcome(n: nat, extra: Seq<ScopeView>, outcome: ListOutcome) -> ListOutcome {
    ListOutcome {
        result: match outcome.result {
            ListResult::Values(values) => ListResult::Values(move_values(n, extra.len(), values)),
            ListResult::Stopped(value) => ListResult::Stopped(
                move_optional(n, extra.len(), value),
            ),
        },
        env: move_environment(n, extra, outcome.env),
    }
}

/// Moving scopes does not change whether an outcome stops the evaluation.
pub proof fn lemma_move_outcome_stops(n: nat, extra: Seq<ScopeView>, outcome: Outcome)
    ensures
        move_outcome(n, extra, outcome).stops() == outcome.stops(),
        outcome.stops() ==> move_outcome(n, extra, outcome).value == outcome.value,
{
    match outcome.value {
        Some(v) => {
            lemma_move_value_keeps_appearance(n, extra.len(), v);
        },
        None => {},
    }
}

/// Evaluation does not depend on how the scopes are numbered: in an
/// environment in which more scopes were put in, a node has the same value
/// and leaves the same environment, but for the indices by which the scopes
/// are named.
pub proof fn lemma_move_eval_node(
    n: nat,
    extra: Seq<ScopeView>,
    node: NodeView,
    env: EnvironmentView,
    depth: nat,
)
    requires
        env.well_formed(),
        n <= env.scopes.len(),
    ensures
        eval_node(node, move_environment(n, extra, env), depth) == move_outcome(
            n,
            extra,
            eval_node(node, env, depth),
        ),
    decreases depth, 0nat,
{
    let k = extra.len();
    if depth > 0 {
        let d = (depth - 1) as nat;
        match node {
            NodeView::Program { statements } => {
                lemma_move_eval_statements(n, extra, statements, 0, ObjectView::Null, env, d, true);
            },
            NodeView::LetStatement { token, name, value } => {
                lemma_move_eval_let(n, extra, *name, *value, env, d);
            },
            NodeView::ReturnStatement { token, return_value } => {
                lemma_move_eval_return(n, extra, *return_value, env, d);
            },
            NodeView::ExpressionStatement { token, expression } => {
                lemma_move_eval_node(n, extra, *expression, env, d);
            },
            NodeView::BlockStatement { token, statements } => {
                lemma_move_eval_statements(
                    n,
                    extra,
                    statements,
                    0,
                    ObjectView::Null,
                    env,
                    d,
                    false,
                );
            },
            NodeView::Identifier { token, value } => {
                lemma_move_identifier_result(n, extra, env, value);
            },
            NodeView::PrefixExpression { token, operator, right } => {
                lemma_move_eval_prefix(n, extra, operator, *right, env, d);
            },
            NodeView::InfixExpression { token, left, operator, right } => {
                lemma_move_eval_infix(n, extra, *left, operator, *right, env, d);
            },
            NodeView::IfExpression { token, condition, consequence, alternative } => {
                lemma_move_eval_if(
                    n,
                    extra,
                    *condition,
                    *consequence,
                    match alternative {
                        Some(a) => Some(*a),
                        None => None,
                    },
                    env,
                    d,
                );
            },
            NodeView::CallExpression { token, function, arguments } => {
                lemma_move_eval_call(n, extra, *function, arguments, env, d);
            },
            NodeView::ArrayLiteral { token, elements } => {
                lemma_move_eval_array(n, extra, elements, env, d);
            },
            NodeView::HashLiteral { token, pairs } => {
                assert(move_pairs(n, k, Seq::empty()) =~= Seq::empty());
                lemma_move_eval_hash_pairs(n, extra, pairs, 0, Seq::empty(), env, d);
            },
            NodeView::IndexExpression { token, left, index } => {
                lemma_move_eval_index(n, extra, *left, *index, env, d);
            },
            _ => {},
        }
    }
}

/// [`lemma_move_eval_node`] for a list of statements.
pub proof fn lemma_move_eval_statements(
    n: nat,
    extra: Seq<ScopeView>,
    statements: Seq<NodeView>,
    i: nat,
    last: ObjectView,
    env: EnvironmentView,
    depth: nat,
    is_program: bool,
)
    requires
        env.well_formed(),
        n <= env.scopes.len(),
    ensures
        eval_statements(
            statements,
            i,
            move_value(n, extra.len(), last),
            move_environment(n, extra, env),
            depth,
            is_program,
        ) == move_outcome(n, extra, eval_statements(statements, i, last, env, depth, is_program)),
    decreases depth, statements.len() - i + 1,
{
    if i < statements.len() {
        let r = eval_node(statements[i as int], env, depth);
        lemma_move_eval_node(n, extra, statements[i as int], env, depth);
        lemma_eval_node_extends(statements[i as int], env, depth);
        lemma_move_outcome_stops(n, extra, r);
        match r.value {
            None => {},
            Some(ObjectView::Error(_)) => {},
            Some(ObjectView::ReturnValue(v)) => {},
            Some(v) => {
                lemma_move_value_keeps_appearance(n, extra.len(), v);
                lemma_move_eval_statements(n, extra, statements, i + 1, v, r.env, depth, is_program);
            },
        }
    }
}

/// [`lemma_move_eval_node`] for a `let` statement.
pub proof fn lemma_move_eval_let(
    n: nat,
    extra: Seq<ScopeView>,
    name: NodeView,
    value: NodeView,
    env: EnvironmentView,
    depth: nat,
)
    requires
        env.well_formed(),
        n <= env.scopes.len(),
    ensures
        eval_let(name, value, move_environment(n, extra, env), depth) == move_outcome(
            n,
            extra,
            eval_let(name, value, env, depth),
        ),
    decreases depth, 1nat,
{
    let r = eval_node(value, env, depth);
    lemma_move_eval_node(n, extra, value, env, depth);
    lemma_eval_node_extends(value, env, depth);
    lemma_move_outcome_stops(n, extra, r);
    if !r.stops() {
        match name {
            NodeView::Identifier { token, value: bound } => {
                lemma_move_bind(n, extra, r.env, r.env.current, bound, r.value->0);
            },
            _ => {},
        }
    }
}

/// [`lemma_move_eval_node`] for a `return` statement.
pub proof fn lemma_move_eval_return(
    n: nat,
    extra: Seq<ScopeView>,
    return_value: NodeView,
    env: EnvironmentView,
    depth: nat,
)
    requires
        env.well_formed(),
        n <= env.scopes.len(),
    ensures
        eval_return(return_value, move_environment(n, extra, env), depth) == move_outcome(
            n,
            extra,
            eval_return(return_value, env, depth),
        ),
    decreases depth, 1nat,
{
    let r = eval_node(return_value, env, depth);
    lemma_move_eval_node(n, extra, return_value, env, depth);
    lemma_move_outcome_stops(n, extra, r);
}

/// [`lemma_move_eval_node`] for a prefix expression.
pub proof fn lemma_move_eval_prefix(
    n: nat,
    extra: Seq<ScopeView>,
    operator: Seq<char>,
    right: NodeView,
    env: EnvironmentView,
    depth: nat,
)
    requires
        env.well_formed(),
        n <= env.scopes.len(),
    ensures
        eval_prefix(operator, right, move_environment(n, extra, env), depth) == move_outcome(
            n,
            extra,
            eval_prefix(operator, right, env, depth),
        ),
    decreases depth, 1nat,
{
    let r = eval_node(right, env, depth);
    lemma_move_eval_node(n, extra, right, env, depth);
    lemma_move_outcome_stops(n, extra, r);
    if !r.stops() {
        lemma_move_prefix_result(n, extra.len(), operator, r.value->0);
    }
}

/// [`lemma_move_eval_node`] for an infix expression.
pub proof fn lemma_move_eval_infix(
    n: nat,
    extra: Seq<ScopeView>,
    left: NodeView,
    operator: Seq<char>,
    right: NodeView,
    env: EnvironmentView,
    depth: nat,
)
    requires
        env.well_formed(),
        n <= env.scopes.len(),
    ensures
        eval_infix(left, operator, right, move_environment(n, extra, env), depth)
            == move_outcome(n, extra, eval_infix(left, operator, right, env, depth)),
    decreases depth, 1nat,
{
    let l = eval_node(left, env, depth);
    lemma_move_eval_node(n, extra, left, env, depth);
    lemma_eval_node_extends(left, env, depth);
    lemma_move_outcome_stops(n, extra, l);
    if !l.stops() {
        let r = eval_node(right, l.env, depth);
        lemma_move_eval_node(n, extra, right, l.env, depth);
        lemma_move_outcome_stops(n, extra, r);
        if !r.stops() {
            lemma_move_infix_result(n, extra.len(), l.value->0, operator, r.value->0);
        }
    }
}

/// [`lemma_move_eval_node`] for an `if` expression.
pub proof fn lemma_move_eval_if(
    n: nat,
    extra: Seq<ScopeView>,
    condition: NodeView,
    consequence: NodeView,
    alternative: Option<NodeView>,
    env: EnvironmentView,
    depth: nat,
)
    requires
        env.well_formed(),
        n <= env.scopes.len(),
    ensures
        eval_if(condition, consequence, alternative, move_environment(n, extra, env), depth)
            == move_outcome(n, extra, eval_if(condition, consequence, alternative, env, depth)),
    decreases depth, 1nat,
{
    let c = eval_node(condition, env, depth);
    lemma_move_eval_node(n, extra, condition, env, depth);
    lemma_eval_node_extends(condition, env, depth);
    lemma_move_outcome_stops(n, extra, c);
    if !c.stops() {
        lemma_move_value_keeps_appearance(n, extra.len(), c.value->0);
        if is_truthy(c.value->0) {
            lemma_move_eval_node(n, extra, consequence, c.env, depth);
        } else {
            match alternative {
                Some(a) => {
                    lemma_move_eval_node(n, extra, a, c.env, depth);
                },
                None => {},
            }
        }
    }
}

/// [`lemma_move_eval_node`] for a list of expressions.
pub proof fn lemma_move_eval_expressions(
    n: nat,
    extra: Seq<ScopeView>,
    expressions: Seq<NodeView>,
    i: nat,
    acc: Seq<ObjectView>,
    env: EnvironmentView,
    depth: nat,
)
    requires
        env.well_formed(),
        n <= env.scopes.len(),
    ensures
        eval_expressions(
            expressions,
            i,
            move_values(n, extra.len(), acc),
            move_environment(n, extra, env),
            depth,
        ) == move_list_outcome(n, extra, eval_expressions(expressions, i, acc, env, depth)),
    decreases depth, expressions.len() - i + 1,
{
    if i < expressions.len() {
        let r = eval_node(expressions[i as int], env, depth);
        lemma_move_eval_node(n, extra, expressions[i as int], env, depth);
        lemma_eval_node_extends(expressions[i as int], env, depth);
        lemma_move_outcome_stops(n, extra, r);
        if !r.stops() {
            assert(move_values(n, extra.len(), acc.push(r.value->0)) =~= move_values(
                n,
                extra.len(),
                acc,
            ).push(move_value(n, extra.len(), r.value->0)));
            lemma_move_eval_expressions(
                n,
                extra,
                expressions,
                i + 1,
                acc.push(r.value->0),
                r.env,
                depth,
            );
        }
    }
}

/// [`lemma_move_eval_node`] for a call.
pub proof fn lemma_move_eval_call(
    n: nat,
    extra: Seq<ScopeView>,
    function: NodeView,
    arguments: Seq<NodeView>,
    env: EnvironmentView,
    depth: nat,
)
    requires
        env.well_formed(),
        n <= env.scopes.len(),
    ensures
        eval_call(function, arguments, move_environment(n, extra, env), depth) == move_outcome(
            n,
            extra,
            eval_call(function, arguments, env, depth),
        ),
    decreases depth, arguments.len() + 3,
{
    let f = eval_node(function, env, depth);
    lemma_move_eval_node(n, extra, function, env, depth);
    lemma_eval_node_extends(function, env, depth);
    lemma_move_outcome_stops(n, extra, f);
    if !f.stops() {
        let a = eval_expressions(arguments, 0, Seq::empty(), f.env, depth);
        assert(move_values(n, extra.len(), Seq::empty()) =~= Seq::empty());
        lemma_move_eval_expressions(n, extra, arguments, 0, Seq::empty(), f.env, depth);
        lemma_eval_expressions_extends(arguments, 0, Seq::empty(), f.env, depth);
        match a.result {
            ListResult::Stopped(v) => {},
            ListResult::Values(args) => {
                lemma_move_apply(n, extra, f.value->0, args, a.env, depth);
            },
        }
    }
}

/// A call does not depend on how the scopes are numbered.
pub proof fn lemma_move_apply(
    n: nat,
    extra: Seq<ScopeView>,
    callee: ObjectView,
    args: Seq<ObjectView>,
    env: EnvironmentView,
    depth: nat,
)
    requires
        env.well_formed(),
        n <= env.scopes.len(),
    ensures
        apply(
            move_value(n, extra.len(), callee),
            move_values(n, extra.len(), args),
            move_environment(n, extra, env),
            depth,
        ) == move_outcome(n, extra, apply(callee, args, env, depth)),
    decreases depth, 1nat,
{
    let k = extra.len();
    lemma_move_value_keeps_appearance(n, k, callee);
    match callee {
        ObjectView::Function { parameters, body, environment } => {
            let entered = env.enclose(environment);
            lemma_move_enclose(n, extra, env, environment);
            assert(entered.well_formed());
            lemma_move_bind_parameters(n, extra, parameters, args, 0, entered);
            let bound = bind_parameters(parameters, args, 0, entered);
            lemma_bind_parameters_extends(parameters, args, 0, entered);
            lemma_move_eval_node(n, extra, *body, bound, depth);
            lemma_eval_node_extends(*body, bound, depth);
            let r = eval_node(*body, bound, depth);
            lemma_move_with_current(n, extra, r.env, env.current);
            match r.value {
                Some(v) => {
                    lemma_move_value_keeps_appearance(n, k, v);
                },
                None => {},
            }
        },
        ObjectView::Builtin(name) => {
            lemma_move_builtin_result(n, k, name, args);
        },
        _ => {
            lemma_move_value_keeps_appearance(n, k, apply(callee, args, env, depth).value->0);
        },
    }
}

/// [`lemma_move_eval_node`] for an array literal.
pub proof fn lemma_move_eval_array(
    n: nat,
    extra: Seq<ScopeView>,
    elements: Seq<NodeView>,
    env: EnvironmentView,
    depth: nat,
)
    requires
        env.well_formed(),
        n <= env.scopes.len(),
    ensures
        eval_array(elements, move_environment(n, extra, env), depth) == move_outcome(
            n,
            extra,
            eval_array(elements, env, depth),
        ),
    decreases depth, elements.len() + 3,
{
    assert(move_values(n, extra.len(), Seq::empty()) =~= Seq::empty());
    lemma_move_eval_expressions(n, extra, elements, 0, Seq::empty(), env, depth);
}

/// [`lemma_move_eval_node`] for the entries of a hash literal.
pub proof fn lemma_move_eval_hash_pairs(
    n: nat,
    extra: Seq<ScopeView>,
    pairs: Seq<(NodeView, NodeView)>,
    i: nat,
    acc: Seq<HashPairView>,
    env: EnvironmentView,
    depth: nat,
)
    requires
        env.well_formed(),
        n <= env.scopes.len(),
    ensures
        eval_hash_pairs(
            pairs,
            i,
            move_pairs(n, extra.len(), acc),
            move_environment(n, extra, env),
            depth,
        ) == move_outcome(n, extra, eval_hash_pairs(pairs, i, acc, env, depth)),
    decreases depth, pairs.len() - i + 1,
{
    let k = extra.len();
    if i < pairs.len() {
        let key = eval_node(pairs[i as int].0, env, depth);
        lemma_move_eval_node(n, extra, pairs[i as int].0, env, depth);
        lemma_eval_node_extends(pairs[i as int].0, env, depth);
        lemma_move_outcome_stops(n, extra, key);
        if !key.stops() {
            lemma_move_value_keeps_appearance(n, k, key.value->0);
            match key.value->0.hash_key() {
                None => {
                    lemma_move_value_keeps_appearance(
                        n,
                        k,
                        eval_hash_pairs(pairs, i, acc, env, depth).value->0,
                    );
                },
                Some(hash_key) => {
                    let v = eval_node(pairs[i as int].1, key.env, depth);
                    lemma_move_eval_node(n, extra, pairs[i as int].1, key.env, depth);
                    lemma_eval_node_extends(pairs[i as int].1, key.env, depth);
                    lemma_move_outcome_stops(n, extra, v);
                    if !v.stops() {
                        let pair = HashPairView { hash_key, key: key.value->0, value: v.value->0 };
                        lemma_move_hash_insert(n, k, acc, pair);
                        lemma_move_eval_hash_pairs(
                            n,
                            extra,
                            pairs,
                            i + 1,
                            hash_insert(acc, pair),
                            v.env,
                            depth,
                        );
                    }
                },
            }
        }
    }
}

/// [`lemma_move_eval_node`] for an index expression.
pub proof fn lemma_move_eval_index(
    n: nat,
    extra: Seq<ScopeView>,
    left: NodeView,
    index: NodeView,
    env: EnvironmentView,
    depth: nat,
)
    requires
        env.well_formed(),
        n <= env.scopes.len(),
    ensures
        eval_index(left, index, move_environment(n, extra, env), depth) == move_outcome(
            n,
            extra,
            eval_index(left, index, env, depth),
        ),
    decreases depth, 1nat,
{
    let l = eval_node(left, env, depth);
    lemma_move_eval_node(n, extra, left, env, depth);
    lemma_eval_node_extends(left, env, depth);
    lemma_move_outcome_stops(n, extra, l);
    if !l.stops() {
        let i = eval_node(index, l.env, depth);
        lemma_move_eval_node(n, extra, index, l.env, depth);
        lemma_move_outcome_stops(n, extra, i);
        if !i.stops() {
            lemma_move_index_result(n, extra.len(), l.value->0, i.value->0);
        }
    }
}

/// Every function in the value `v` was made in a scope below `n`.
pub open spec fn refers_below(n: nat, v: ObjectView) -> bool
    decreases v,
{
    match v {
        ObjectView::ReturnValue(x) => refers_below(n, *x),
        ObjectView::Function { parameters, body, environment } => environment < n,
        ObjectView::Array(xs) => forall|i: int|
            0 <= i < xs.len() ==> refers_below(n, #[trigger] xs[i]),
        ObjectView::Hash(ps) => forall|i: int|
            0 <= i < ps.len() ==> refers_below(n, (#[trigger] ps[i]).key) && refers_below(
                n,
                ps[i].value,
            ),
        _ => true,
    }
}

/// Every value of the list satisfies [`refers_below`].
pub open spec fn all_refer_below(n: nat, xs: Seq<ObjectView>) -> bool {
    forall|i: int| 0 <= i < xs.len() ==> refers_below(n, #[trigger] xs[i])
}

/// The environment is closed: whatever a scope binds refers to scopes of the
/// environment only.
pub open spec fn closed(env: EnvironmentView) -> bool {
    forall|i: int, key: Seq<char>|
        0 <= i < env.scopes.len() && (#[trigger] env.scopes[i].store.contains_key(key))
            ==> refers_below(env.scopes.len(), env.scopes[i].store[key])
}

/// A value that refers to scopes below `n` only is as it was after scopes
/// were put in at `n`.
pub proof fn lemma_move_value_below(n: nat, k: nat, v: ObjectView)
    requires
        refers_below(n, v),
    ensures
        move_value(n, k, v) == v,
    decreases v,
{
    match v {
        ObjectView::ReturnValue(x) => {
            lemma_move_value_below(n, k, *x);
        },
        ObjectView::Array(xs) => {
            assert forall|i: int| 0 <= i < xs.len() implies move_values(n, k, xs)[i] == xs[i] by {
                lemma_move_value_below(n, k, xs[i]);
            }
            assert(move_values(n, k, xs) =~= xs);
        },
        ObjectView::Hash(ps) => {
            assert forall|i: int| 0 <= i < ps.len() implies move_pairs(n, k, ps)[i] == ps[i] by {
                lemma_move_value_below(n, k, ps[i].key);
                lemma_move_value_below(n, k, ps[i].value);
            }
            assert(move_pairs(n, k, ps) =~= ps);
        },
        _ => {},
    }
}

/// [`lemma_move_value_below`] for a list of values.
pub proof fn lemma_move_values_below(n: nat, k: nat, xs: Seq<ObjectView>)
    requires
        all_refer_below(n, xs),
    ensures
        move_values(n, k, xs) == xs,
{
    assert forall|i: int| 0 <= i < xs.len() implies move_values(n, k, xs)[i] == xs[i] by {
        lemma_move_value_below(n, k, xs[i]);
    }
    assert(move_values(n, k, xs) =~= xs);
}

/// Putting scopes in behind all scopes of a closed environment changes none
/// of them.
pub proof fn lemma_move_closed_environment(env: EnvironmentView, extra: Seq<ScopeView>)
    requires
        env.well_formed(),
        closed(env),
    ensures
        move_environment(env.scopes.len(), extra, env) == (EnvironmentView {
            scopes: env.scopes + extra,
            current: env.current,
        }),
{
    let n = env.scopes.len();
    let k = extra.len();
    let after = move_environment(n, extra, env);
    assert forall|j: int| 0 <= j < n implies after.scopes[j] == env.scopes[j] by {
        assert forall|key: Seq<char>| env.scopes[j].store.contains_key(key) implies move_value(
            n,
            k,
            env.scopes[j].store[key],
        ) == env.scopes[j].store[key] by {
            lemma_move_value_below(n, k, env.scopes[j].store[key]);
        }
        assert(after.scopes[j].store =~= env.scopes[j].store);
    }
    assert(after.scopes =~= env.scopes + extra);
}

/// A call gives the same in a larger environment: where more scopes stand
/// behind those of a closed environment, a function and arguments that
/// refer to scopes of that environment only give the value that they give
/// without the scopes behind, but for the indices of the scopes that the
/// call makes, which are larger by the number of those scopes.
pub proof fn lemma_call_in_larger_environment(
    callee: ObjectView,
    args: Seq<ObjectView>,
    env: EnvironmentView,
    extra: Seq<ScopeView>,
    depth: nat,
)
    requires
        env.well_formed(),
        closed(env),
        refers_below(env.scopes.len(), callee),
        all_refer_below(env.scopes.len(), args),
    ensures
        apply(
            callee,
            args,
            EnvironmentView { scopes: env.scopes + extra, current: env.current },
            depth,
        ) == move_outcome(env.scopes.len(), extra, apply(callee, args, env, depth)),
{
    let n = env.scopes.len();
    lemma_move_closed_environment(env, extra);
    lemma_move_value_below(n, extra.len(), callee);
    lemma_move_values_below(n, extra.len(), args);
    lemma_move_apply(n, extra, callee, args, env, depth);
}

/// Calling again gives the same value: a call has no effect that a later
/// call could see. In a closed environment, a function applied a second
/// time to the same arguments, in the environment that the first call left,
/// gives the value that the first call gave, but for the indices of the
/// scopes that the calls made; and it gives exactly that value where the
/// value holds no function that the call made, as every integer, truth
/// value, string, error and `Null` does.
pub proof fn lemma_call_again_gives_the_same(
    callee: ObjectView,
    args: Seq<ObjectView>,
    env: EnvironmentView,
    depth: nat,
)
    requires
        env.well_formed(),
        closed(env),
        refers_below(env.scopes.len(), callee),
        all_refer_below(env.scopes.len(), args),
    ensures
        ({
            let first = apply(callee, args, env, depth);
            let second = apply(callee, args, first.env, depth);
            let made = (first.env.scopes.len() - env.scopes.len()) as nat;
            &&& env.scopes.len() <= first.env.scopes.len()
            &&& second.value == move_optional(env.scopes.len(), made, first.value)
            &&& (first.value is Some && refers_below(env.scopes.len(), first.value->0)
                ==> second.value == first.value)
            &&& first.value is None ==> second.value is None
        }),
{
    let n = env.scopes.len();
    let first = apply(callee, args, env, depth);
    lemma_apply_preserves(callee, args, env, depth);
    let extra = first.env.scopes.subrange(n as int, first.env.scopes.len() as int);
    assert(first.env.scopes =~= env.scopes + extra);
    assert(first.env == EnvironmentView { scopes: env.scopes + extra, current: env.current });
    lemma_call_in_larger_environment(callee, args, env, extra, depth);
    match first.value {
        Some(v) => {
            if refers_below(n, v) {
                lemma_move_value_below(n, extra.len(), v);
            }
        },
        None => {},
    }
}

/// What refers to scopes below `n` refers to scopes below any larger index.
pub proof fn lemma_refers_below_larger(n: nat, m: nat, v: ObjectView)
    requires
        refers_below(n, v),
        n <= m,
    ensures
        refers_below(m, v),
    decreases v,
{
    match v {
        ObjectView::ReturnValue(x) => {
            lemma_refers_below_larger(n, m, *x);
        },
        ObjectView::Array(xs) => {
            assert forall|i: int| 0 <= i < xs.len() implies refers_below(m, #[trigger] xs[i]) by {
                lemma_refers_below_larger(n, m, xs[i]);
            }
        },
        ObjectView::Hash(ps) => {
            assert forall|i: int| 0 <= i < ps.len() implies refers_below(
                m,
                (#[trigger] ps[i]).key,
            ) && refers_below(m, ps[i].value) by {
                lemma_refers_below_larger(n, m, ps[i].key);
                lemma_refers_below_larger(n, m, ps[i].value);
            }
        },
        _ => {},
    }
}

/// A closed environment stays closed when it gets more scopes that bind
/// nothing, or when its current scope changes.
pub proof fn lemma_closed_larger(env: EnvironmentView, after: EnvironmentView)
    requires
        closed(env),
        env.scopes.len() <= after.scopes.len(),
        forall|i: int| 0 <= i < env.scopes.len() ==> after.scopes[i] == env.scopes[i],
        forall|i: int, key: Seq<char>|
            env.scopes.len() <= i < after.scopes.len() ==> !(
            #[trigger] after.scopes[i].store.contains_key(key)),
    ensures
        closed(after),
{
    assert forall|i: int, key: Seq<char>|
        0 <= i < after.scopes.len() && (
        #[trigger] after.scopes[i].store.contains_key(key)) implies refers_below(
        after.scopes.len(),
        after.scopes[i].store[key],
    ) by {
        assert(env.scopes[i].store.contains_key(key));
        lemma_refers_below_larger(env.scopes.len(), after.scopes.len(), env.scopes[i].store[key]);
    }
}

/// A closed environment stays closed when a name is bound in it to a value
/// that refers to its scopes only.
pub proof fn lemma_closed_bind(env: EnvironmentView, scope: nat, name: Seq<char>, value: ObjectView)
    requires
        closed(env),
        refers_below(env.scopes.len(), value),
    ensures
        closed(env.bind(scope, name, value)),
{
    let after = env.bind(scope, name, value);
    assert forall|i: int, key: Seq<char>|
        0 <= i < after.scopes.len() && (
        #[trigger] after.scopes[i].store.contains_key(key)) implies refers_below(
        after.scopes.len(),
        after.scopes[i].store[key],
    ) by {
        if i == scope && key == name {
        } else {
            assert(env.scopes[i].store.contains_key(key));
        }
    }
}

/// What a closed environment binds a name to refers to its scopes only.
pub proof fn lemma_closed_lookup(env: EnvironmentView, scope: nat, name: Seq<char>)
    requires
        closed(env),
    ensures
        env.lookup(scope, name) matches Some(v) ==> refers_below(env.scopes.len(), v),
    decreases scope,
{
    if scope < env.scopes.len() {
        if env.scopes[scope as int].store.contains_key(name) {
        } else {
            match env.scopes[scope as int].outer {
                Some(o) => {
                    if o < scope {
                        lemma_closed_lookup(env, o, name);
                    }
                },
                None => {},
            }
        }
    }
}

/// Binding the parameters of a call keeps a closed environment closed.
pub proof fn lemma_closed_bind_parameters(
    parameters: Seq<NodeView>,
    args: Seq<ObjectView>,
    i: nat,
    env: EnvironmentView,
)
    requires
        closed(env),
        all_refer_below(env.scopes.len(), args),
    ensures
        closed(bind_parameters(parameters, args, i, env)),
        bind_parameters(parameters, args, i, env).scopes.len() == env.scopes.len(),
    decreases parameters.len() - i,
{
    if i < parameters.len() {
        match parameters[i as int] {
            NodeView::Identifier { token, value } => {
                if i < args.len() {
                    lemma_closed_bind(env, env.current, value, args[i as int]);
                    lemma_closed_bind_parameters(
                        parameters,
                        args,
                        i + 1,
                        env.set(value, args[i as int]),
                    );
                } else {
                    lemma_closed_bind_parameters(parameters, args, i + 1, env);
                }
            },
            _ => {
                lemma_closed_bind_parameters(parameters, args, i + 1, env);
            },
        }
    }
}

/// The entry that a hash finds is one of its entries.
pub proof fn lemma_hash_find_in_range(ps: Seq<HashPairView>, hash_key: Seq<char>)
    ensures
        hash_find(ps, hash_key) matches Some(i) ==> 0 <= i < ps.len(),
    decreases ps.len(),
{
    if ps.len() > 0 {
        lemma_hash_find_in_range(ps.drop_last(), hash_key);
    }
}

/// The builtin functions hand out nothing but what they were given.
pub proof fn lemma_builtin_result_refers_below(n: nat, name: Seq<char>, args: Seq<ObjectView>)
    requires
        all_refer_below(n, args),
    ensures
        refers_below(n, builtin_result(name, args)),
{
    if args.len() > 0 {
        assert(refers_below(n, args[0]));
        if args.len() > 1 {
            assert(refers_below(n, args[1]));
        }
    }
}

/// Indexing hands out nothing but what is in the array or hash.
pub proof fn lemma_index_result_refers_below(n: nat, left: ObjectView, index: ObjectView)
    requires
        refers_below(n, left),
    ensures
        refers_below(n, index_result(left, index)),
{
    match left {
        ObjectView::Hash(ps) => {
            match index.hash_key() {
                Some(key) => {
                    lemma_hash_find_in_range(ps, key);
                },
                None => {},
            }
        },
        _ => {},
    }
}

/// The outcome `out` of an evaluation in `env` is sound: the environment is
/// closed, and the value refers to its scopes only.
pub open spec fn sound(out: Outcome) -> bool {
    &&& closed(out.env)
    &&& out.value matches Some(v) ==> refers_below(out.env.scopes.len(), v)
}

/// Evaluation keeps a closed environment closed, and its value refers to
/// scopes of the environment only: no function ever refers to a scope that
/// does not exist.
pub proof fn lemma_eval_node_sound(node: NodeView, env: EnvironmentView, depth: nat)
    requires
        env.well_formed(),
        closed(env),
    ensures
        sound(eval_node(node, env, depth)),
    decreases depth, 0nat,
{
    if depth > 0 {
        let d = (depth - 1) as nat;
        match node {
            NodeView::Program { statements } => {
                lemma_eval_statements_sound(statements, 0, ObjectView::Null, env, d, true);
            },
            NodeView::LetStatement { token, name, value } => {
                lemma_eval_let_sound(*name, *value, env, d);
            },
            NodeView::ReturnStatement { token, return_value } => {
                lemma_eval_return_sound(*return_value, env, d);
            },
            NodeView::ExpressionStatement { token, expression } => {
                lemma_eval_node_sound(*expression, env, d);
            },
            NodeView::BlockStatement { token, statements } => {
                lemma_eval_statements_sound(statements, 0, ObjectView::Null, env, d, false);
            },
            NodeView::Identifier { token, value } => {
                lemma_closed_lookup(env, env.current, value);
            },
            NodeView::PrefixExpression { token, operator, right } => {
                lemma_eval_prefix_sound(operator, *right, env, d);
            },
            NodeView::InfixExpression { token, left, operator, right } => {
                lemma_eval_infix_sound(*left, operator, *right, env, d);
            },
            NodeView::IfExpression { token, condition, consequence, alternative } => {
                lemma_eval_if_sound(
                    *condition,
                    *consequence,
                    match alternative {
                        Some(a) => Some(*a),
                        None => None,
                    },
                    env,
                    d,
                );
            },
            NodeView::CallExpression { token, function, arguments } => {
                lemma_eval_call_sound(*function, arguments, env, d);
            },
            NodeView::ArrayLiteral { token, elements } => {
                lemma_eval_array_sound(elements, env, d);
            },
            NodeView::HashLiteral { token, pairs } => {
                lemma_eval_hash_pairs_sound(pairs, 0, Seq::empty(), env, d);
            },
            NodeView::IndexExpression { token, left, index } => {
                lemma_eval_index_sound(*left, *index, env, d);
            },
            _ => {},
        }
    }
}

/// [`lemma_eval_node_sound`] for a list of statements.
pub proof fn lemma_eval_statements_sound(
    statements: Seq<NodeView>,
    i: nat,
    last: ObjectView,
    env: EnvironmentView,
    depth: nat,
    is_program: bool,
)
    requires
        env.well_formed(),
        closed(env),
        refers_below(env.scopes.len(), last),
    ensures
        sound(eval_statements(statements, i, last, env, depth, is_program)),
    decreases depth, statements.len() - i + 1,
{
    if i < statements.len() {
        let r = eval_node(statements[i as int], env, depth);
        lemma_eval_node_sound(statements[i as int], env, depth);
        lemma_eval_node_extends(statements[i as int], env, depth);
        match r.value {
            None => {},
            Some(ObjectView::Error(_)) => {},
            Some(ObjectView::ReturnValue(v)) => {},
            Some(v) => {
                lemma_eval_statements_sound(statements, i + 1, v, r.env, depth, is_program);
            },
        }
    }
}

/// [`lemma_eval_node_sound`] for a `let` statement.
pub proof fn lemma_eval_let_sound(name: NodeView, value: NodeView, env: EnvironmentView, depth: nat)
    requires
        env.well_formed(),
        closed(env),
    ensures
        sound(eval_let(name, value, env, depth)),
    decreases depth, 1nat,
{
    let r = eval_node(value, env, depth);
    lemma_eval_node_sound(value, env, depth);
    if !r.stops() {
        match name {
            NodeView::Identifier { token, value: bound } => {
                lemma_closed_bind(r.env, r.env.current, bound, r.value->0);
            },
            _ => {},
        }
    }
}

/// [`lemma_eval_node_sound`] for a `return` statement.
pub proof fn lemma_eval_return_sound(return_value: NodeView, env: EnvironmentView, depth: nat)
    requires
        env.well_formed(),
        closed(env),
    ensures
        sound(eval_return(return_value, env, depth)),
    decreases depth, 1nat,
{
    lemma_eval_node_sound(return_value, env, depth);
}

/// [`lemma_eval_node_sound`] for a prefix expression.
pub proof fn lemma_eval_prefix_sound(
    operator: Seq<char>,
    right: NodeView,
    env: EnvironmentView,
    depth: nat,
)
    requires
        env.well_formed(),
        closed(env),
    ensures
        sound(eval_prefix(operator, right, env, depth)),
    decreases depth, 1nat,
{
    lemma_eval_node_sound(right, env, depth);
}

/// [`lemma_eval_node_sound`] for an infix expression.
pub proof fn lemma_eval_infix_sound(
    left: NodeView,
    operator: Seq<char>,
    right: NodeView,
    env: EnvironmentView,
    depth: nat,
)
    requires
        env.well_formed(),
        closed(env),
    ensures
        sound(eval_infix(left, operator, right, env, depth)),
    decreases depth, 1nat,
{
    let l = eval_node(left, env, depth);
    lemma_eval_node_sound(left, env, depth);
    lemma_eval_node_extends(left, env, depth);
    if !l.stops() {
        lemma_eval_node_sound(right, l.env, depth);
    }
}

/// [`lemma_eval_node_sound`] for an `if` expression.
pub proof fn lemma_eval_if_sound(
    condition: NodeView,
    consequence: NodeView,
    alternative: Option<NodeView>,
    env: EnvironmentView,
    depth: nat,
)
    requires
        env.well_formed(),
        closed(env),
    ensures
        sound(eval_if(condition, consequence, alternative, env, depth)),
    decreases depth, 1nat,
{
    let c = eval_node(condition, env, depth);
    lemma_eval_node_sound(condition, env, depth);
    lemma_eval_node_extends(condition, env, depth);
    if !c.stops() {
        if is_truthy(c.value->0) {
            lemma_eval_node_sound(consequence, c.env, depth);
        } else {
            match alternative {
                Some(a) => {
                    lemma_eval_node_sound(a, c.env, depth);
                },
                None => {},
            }
        }
    }
}

/// The outcome for a list is sound: the environment is closed, and the
/// values, or the value that stopped the evaluation, refer to its scopes
/// only.
pub open spec fn sound_list(out: ListOutcome) -> bool {
    &&& closed(out.env)
    &&& match out.result {
        ListResult::Values(values) => all_refer_below(out.env.scopes.len(), values),
        ListResult::Stopped(Some(v)) => refers_below(out.env.scopes.len(), v),
        ListResult::Stopped(None) => true,
    }
}

/// [`lemma_eval_node_sound`] for a list of expressions.
pub proof fn lemma_eval_expressions_sound(
    expressions: Seq<NodeView>,
    i: nat,
    acc: Seq<ObjectView>,
    env: EnvironmentView,
    depth: nat,
)
    requires
        env.well_formed(),
        closed(env),
        all_refer_below(env.scopes.len(), acc),
    ensures
        sound_list(eval_expressions(expressions, i, acc, env, depth)),
    decreases depth, expressions.len() - i + 1,
{
    if i < expressions.len() {
        let r = eval_node(expressions[i as int], env, depth);
        lemma_eval_node_sound(expressions[i as int], env, depth);
        lemma_eval_node_extends(expressions[i as int], env, depth);
        if !r.stops() {
            let next = acc.push(r.value->0);
            assert forall|j: int| 0 <= j < next.len() implies refers_below(
                r.env.scopes.len(),
                #[trigger] next[j],
            ) by {
                if j < acc.len() {
                    lemma_refers_below_larger(env.scopes.len(), r.env.scopes.len(), acc[j]);
                }
            }
            lemma_eval_expressions_sound(expressions, i + 1, next, r.env, depth);
        }
    }
}

/// [`lemma_eval_node_sound`] for a call.
pub proof fn lemma_eval_call_sound(
    function: NodeView,
    arguments: Seq<NodeView>,
    env: EnvironmentView,
    depth: nat,
)
    requires
        env.well_formed(),
        closed(env),
    ensures
        sound(eval_call(function, arguments, env, depth)),
    decreases depth, arguments.len() + 3,
{
    let f = eval_node(function, env, depth);
    lemma_eval_node_sound(function, env, depth);
    lemma_eval_node_extends(function, env, depth);
    if !f.stops() {
        let a = eval_expressions(arguments, 0, Seq::empty(), f.env, depth);
        lemma_eval_expressions_sound(arguments, 0, Seq::empty(), f.env, depth);
        lemma_eval_expressions_extends(arguments, 0, Seq::empty(), f.env, depth);
        match a.result {
            ListResult::Stopped(v) => {},
            ListResult::Values(args) => {
                lemma_refers_below_larger(f.env.scopes.len(), a.env.scopes.len(), f.value->0);
                lemma_apply_sound(f.value->0, args, a.env, depth);
            },
        }
    }
}

/// A call keeps a closed environment closed, and its value refers to scopes
/// of the environment only.
pub proof fn lemma_apply_sound(
    callee: ObjectView,
    args: Seq<ObjectView>,
    env: EnvironmentView,
    depth: nat,
)
    requires
        env.well_formed(),
        closed(env),
        refers_below(env.scopes.len(), callee),
        all_refer_below(env.scopes.len(), args),
    ensures
        sound(apply(callee, args, env, depth)),
    decreases depth, 1nat,
{
    match callee {
        ObjectView::Function { parameters, body, environment } => {
            let entered = env.enclose(environment);
            assert(entered.well_formed());
            lemma_closed_larger(env, entered);
            assert forall|j: int| 0 <= j < args.len() implies refers_below(
                entered.scopes.len(),
                #[trigger] args[j],
            ) by {
                lemma_refers_below_larger(env.scopes.len(), entered.scopes.len(), args[j]);
            }
            lemma_closed_bind_parameters(parameters, args, 0, entered);
            lemma_bind_parameters_extends(parameters, args, 0, entered);
            let bound = bind_parameters(parameters, args, 0, entered);
            lemma_eval_node_sound(*body, bound, depth);
            lemma_eval_node_extends(*body, bound, depth);
            let r = eval_node(*body, bound, depth);
            let out = r.env.with_current(env.current);
            assert(out.scopes == r.env.scopes);
            assert(closed(out));
        },
        ObjectView::Builtin(name) => {
            lemma_builtin_result_refers_below(env.scopes.len(), name, args);
        },
        _ => {},
    }
}

/// [`lemma_eval_node_sound`] for an array literal.
pub proof fn lemma_eval_array_sound(elements: Seq<NodeView>, env: EnvironmentView, depth: nat)
    requires
        env.well_formed(),
        closed(env),
    ensures
        sound(eval_array(elements, env, depth)),
    decreases depth, elements.len() + 3,
{
    lemma_eval_expressions_sound(elements, 0, Seq::empty(), env, depth);
}

/// [`lemma_eval_node_sound`] for the entries of a hash literal.
pub proof fn lemma_eval_hash_pairs_sound(
    pairs: Seq<(NodeView, NodeView)>,
    i: nat,
    acc: Seq<HashPairView>,
    env: EnvironmentView,
    depth: nat,
)
    requires
        env.well_formed(),
        closed(env),
        refers_below(env.scopes.len(), ObjectView::Hash(acc)),
    ensures
        sound(eval_hash_pairs(pairs, i, acc, env, depth)),
    decreases depth, pairs.len() - i + 1,
{
    if i < pairs.len() {
        let key = eval_node(pairs[i as int].0, env, depth);
        lemma_eval_node_sound(pairs[i as int].0, env, depth);
        lemma_eval_node_extends(pairs[i as int].0, env, depth);
        if !key.stops() {
            match key.value->0.hash_key() {
                None => {},
                Some(hash_key) => {
                    let v = eval_node(pairs[i as int].1, key.env, depth);
                    lemma_eval_node_sound(pairs[i as int].1, key.env, depth);
                    lemma_eval_node_extends(pairs[i as int].1, key.env, depth);
                    if !v.stops() {
                        let pair = HashPairView { hash_key, key: key.value->0, value: v.value->0 };
                        let next = hash_insert(acc, pair);
                        let n = v.env.scopes.len();
                        lemma_hash_find_in_range(acc, hash_key);
                        lemma_refers_below_larger(env.scopes.len(), n, ObjectView::Hash(acc));
                        lemma_refers_below_larger(key.env.scopes.len(), n, key.value->0);
                        assert(refers_below(n, ObjectView::Hash(next)));
                        lemma_eval_hash_pairs_sound(pairs, i + 1, next, v.env, depth);
                    }
                },
            }
        }
    }
}

/// [`lemma_eval_node_sound`] for an index expression.
pub proof fn lemma_eval_index_sound(left: NodeView, index: NodeView, env: EnvironmentView, depth: nat)
    requires
        env.well_formed(),
        closed(env),
    ensures
        sound(eval_index(left, index, env, depth)),
    decreases depth, 1nat,
{
    let l = eval_node(left, env, depth);
    lemma_eval_node_sound(left, env, depth);
    lemma_eval_node_extends(left, env, depth);
    if !l.stops() {
        let i = eval_node(index, l.env, depth);
        lemma_eval_node_sound(index, l.env, depth);
        lemma_eval_node_extends(index, l.env, depth);
        if !i.stops() {
            lemma_refers_below_larger(l.env.scopes.len(), i.env.scopes.len(), l.value->0);
            lemma_index_result_refers_below(i.env.scopes.len(), l.value->0, i.value->0);
        }
    }
}

} // verus!
