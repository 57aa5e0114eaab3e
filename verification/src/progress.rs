//! Parsing goes forward: no step of the grammar leaves a state that is not
//! well formed, and none has more left to parse afterwards than before. This
//! is what the definitions in [`crate::grammar`] ask of a step before they
//! go on behind it, so they always go on.

use vstd::prelude::*;
use crate::ast::NodeView;
use crate::grammar::{
    as_expression, has_infix, has_prefix, lemma_next_token, parse_array_literal,
    parse_block_statement, parse_block_statements, parse_call_expression, parse_expression,
    parse_expression_list, parse_expression_statement, parse_function_literal,
    parse_function_parameters, parse_grouped_expression, parse_hash_literal, parse_hash_pairs,
    parse_if_expression, parse_index_expression, parse_infix, parse_infix_expression,
    parse_infix_operators, parse_let_statement, parse_more_expressions, parse_more_parameters,
    parse_prefix, parse_prefix_expression, parse_program, parse_program_statements,
    parse_return_statement, parse_statement, ParserView, Precedence,
};
use crate::token::TokenKind;

verus! {

/// `after` holds the error messages of `before`, in the same order, and
/// maybe more behind them.
pub open spec fn keeps_errors(before: ParserView, after: ParserView) -> bool {
    before.errors.len() <= after.errors.len() && after.errors.take(before.errors.len() as int)
        =~= before.errors
}

/// `after` is well formed, has no more left to parse than `before`, and has
/// lost no error message.
pub open spec fn advances(before: ParserView, after: ParserView) -> bool {
    after.well_formed() && after.measure() <= before.measure() && keeps_errors(before, after)
}

/// `after` is well formed, has less left to parse than `before`, and has
/// lost no error message.
pub open spec fn consumes(before: ParserView, after: ParserView) -> bool {
    after.well_formed() && after.measure() < before.measure() && keeps_errors(before, after)
}

/// Parsing a program ends at the end of the input, in a well-formed state.
pub proof fn lemma_parse_program(s: ParserView)
    requires
        s.well_formed(),
    ensures
        advances(s, parse_program(s).state),
        parse_program(s).state.cur_token.kind == TokenKind::Eof,
{
    lemma_parse_program_statements(s, Seq::empty());
}

/// [`lemma_parse_program`] for the statements behind the statements `acc`.
pub proof fn lemma_parse_program_statements(s: ParserView, acc: Seq<NodeView>)
    requires
        s.well_formed(),
    ensures
        advances(s, parse_program_statements(s, acc).state),
        parse_program_statements(s, acc).state.cur_token.kind == TokenKind::Eof,
        parse_program_statements(s, acc).nodes is Some,
    decreases s.measure(),
{
    reveal(parse_program_statements);
    if !s.cur_token_is(TokenKind::Eof) {
        let r = parse_statement(s);
        lemma_parse_statement(s);
        lemma_next_token(r.state);
        let statements = match r.node {
            Some(n) => acc.push(n),
            None => acc,
        };
        lemma_parse_program_statements(r.state.next_token(), statements);
    }
}

/// A statement goes forward.
pub proof fn lemma_parse_statement(s: ParserView)
    requires
        s.well_formed(),
    ensures
        advances(s, parse_statement(s).state),
    decreases s.measure(), 15nat,
{
    reveal(parse_statement);
    reveal(parse_let_statement);
    reveal(parse_return_statement);
    reveal(parse_expression_statement);
    if s.cur_token_is(TokenKind::Let) {
        lemma_parse_let_statement(s);
    } else if s.cur_token_is(TokenKind::Return) {
        lemma_parse_return_statement(s);
    } else {
        lemma_parse_expression_statement(s);
    }
}

/// A `let` statement goes forward.
pub proof fn lemma_parse_let_statement(s: ParserView)
    requires
        s.well_formed(),
        s.cur_token.kind != TokenKind::Eof,
    ensures
        advances(s, parse_let_statement(s).state),
    decreases s.measure(), 14nat,
{
    reveal(parse_let_statement);
    reveal(parse_expression);
    lemma_next_token(s);
    let (named, s1) = s.expect_peek(TokenKind::Ident);
    if named {
        lemma_next_token(s1);
        let (assigned, s2) = s1.expect_peek(TokenKind::Assign);
        if assigned {
            lemma_next_token(s2);
            lemma_parse_expression(s2.next_token(), Precedence::LOWEST);
            lemma_next_token(parse_expression(s2.next_token(), Precedence::LOWEST).state);
        }
    }
}

/// A `return` statement goes forward.
pub proof fn lemma_parse_return_statement(s: ParserView)
    requires
        s.well_formed(),
        s.cur_token.kind != TokenKind::Eof,
    ensures
        advances(s, parse_return_statement(s).state),
    decreases s.measure(), 14nat,
{
    reveal(parse_return_statement);
    reveal(parse_expression);
    lemma_next_token(s);
    lemma_parse_expression(s.next_token(), Precedence::LOWEST);
    lemma_next_token(parse_expression(s.next_token(), Precedence::LOWEST).state);
}

/// An expression statement goes forward.
pub proof fn lemma_parse_expression_statement(s: ParserView)
    requires
        s.well_formed(),
    ensures
        advances(s, parse_expression_statement(s).state),
    decreases s.measure(), 14nat,
{
    reveal(parse_expression_statement);
    reveal(parse_expression);
    lemma_parse_expression(s, Precedence::LOWEST);
    lemma_next_token(parse_expression(s, Precedence::LOWEST).state);
}

/// An expression goes forward.
pub proof fn lemma_parse_expression(s: ParserView, precedence: Precedence)
    requires
        s.well_formed(),
    ensures
        advances(s, parse_expression(s, precedence).state),
    decreases s.measure(), 13nat,
{
    reveal(parse_expression);
    reveal(parse_prefix);
    reveal(parse_infix_operators);
    if has_prefix(s.cur_token.kind) {
        let p = parse_prefix(s);
        lemma_parse_prefix(s);
        match as_expression(p.node) {
            None => {},
            Some(left) => {
                lemma_parse_infix_operators(p.state, left, precedence);
            },
        }
    }
}

/// What a token begins goes forward.
pub proof fn lemma_parse_prefix(s: ParserView)
    requires
        s.well_formed(),
        has_prefix(s.cur_token.kind),
    ensures
        advances(s, parse_prefix(s).state),
    decreases s.measure(), 12nat,
{
    reveal(parse_prefix);
    reveal(parse_prefix_expression);
    reveal(parse_grouped_expression);
    reveal(parse_if_expression);
    reveal(parse_function_literal);
    reveal(parse_array_literal);
    reveal(parse_hash_literal);
    match s.cur_token.kind {
        TokenKind::Ident => {},
        TokenKind::Int => {},
        TokenKind::Str => {},
        TokenKind::Bang => {
            lemma_parse_prefix_expression(s);
        },
        TokenKind::Minus => {
            lemma_parse_prefix_expression(s);
        },
        TokenKind::True => {},
        TokenKind::False => {},
        TokenKind::LParen => {
            lemma_parse_grouped_expression(s);
        },
        TokenKind::If => {
            lemma_parse_if_expression(s);
        },
        TokenKind::Function => {
            lemma_parse_function_literal(s);
        },
        TokenKind::LBracket => {
            lemma_parse_array_literal(s);
        },
        _ => {
            lemma_parse_hash_literal(s);
        },
    }
}

/// A prefix expression goes forward.
pub proof fn lemma_parse_prefix_expression(s: ParserView)
    requires
        s.well_formed(),
        s.cur_token.kind != TokenKind::Eof,
    ensures
        consumes(s, parse_prefix_expression(s).state),
    decreases s.measure(), 11nat,
{
    reveal(parse_prefix_expression);
    reveal(parse_expression);
    lemma_next_token(s);
    lemma_parse_expression(s.next_token(), Precedence::PREFIX);
}

/// An expression in round brackets goes forward.
pub proof fn lemma_parse_grouped_expression(s: ParserView)
    requires
        s.well_formed(),
        s.cur_token.kind != TokenKind::Eof,
    ensures
        consumes(s, parse_grouped_expression(s).state),
    decreases s.measure(), 11nat,
{
    reveal(parse_grouped_expression);
    reveal(parse_expression);
    lemma_next_token(s);
    lemma_parse_expression(s.next_token(), Precedence::LOWEST);
    lemma_next_token(parse_expression(s.next_token(), Precedence::LOWEST).state);
}

/// An `if` expression goes forward.
#[verifier::rlimit(50)]
pub proof fn lemma_parse_if_expression(s: ParserView)
    requires
        s.well_formed(),
        s.cur_token.kind != TokenKind::Eof,
    ensures
        advances(s, parse_if_expression(s).state),
    decreases s.measure(), 11nat,
{
    reveal(parse_if_expression);
    reveal(parse_expression);
    reveal(parse_block_statement);
    lemma_next_token(s);
    let (opened, s1) = s.expect_peek(TokenKind::LParen);
    if opened {
        lemma_next_token(s1);
        let c = parse_expression(s1.next_token(), Precedence::LOWEST);
        lemma_parse_expression(s1.next_token(), Precedence::LOWEST);
        if c.node is Some {
            lemma_next_token(c.state);
            let (closed, s2) = c.state.expect_peek(TokenKind::RParen);
            if closed {
                lemma_next_token(s2);
                let (braced, s3) = s2.expect_peek(TokenKind::LBrace);
                if braced {
                    let b = parse_block_statement(s3);
                    lemma_parse_block_statement(s3);
                    if b.node is Some && b.state.peek_token_is(TokenKind::Else) {
                        lemma_next_token(b.state);
                        lemma_next_token(b.state.next_token());
                        let (braced, s4) = b.state.next_token().expect_peek(TokenKind::LBrace);
                        if braced {
                            lemma_parse_block_statement(s4);
                        }
                    }
                }
            }
        }
    }
}

/// A block goes forward.
pub proof fn lemma_parse_block_statement(s: ParserView)
    requires
        s.well_formed(),
        s.cur_token.kind != TokenKind::Eof,
    ensures
        consumes(s, parse_block_statement(s).state),
    decreases s.measure(), 10nat,
{
    reveal(parse_block_statement);
    reveal(parse_block_statements);
    lemma_next_token(s);
    lemma_parse_block_statements(s.next_token(), Seq::empty());
}

/// The statements of a block go forward.
pub proof fn lemma_parse_block_statements(s: ParserView, acc: Seq<NodeView>)
    requires
        s.well_formed(),
    ensures
        advances(s, parse_block_statements(s, acc).state),
    decreases s.measure(), 20nat,
{
    reveal(parse_block_statements);
    reveal(parse_statement);
    if !(s.cur_token_is(TokenKind::RBrace) || s.cur_token_is(TokenKind::Eof)) {
        let r = parse_statement(s);
        lemma_parse_statement(s);
        lemma_next_token(r.state);
        let statements = match r.node {
            Some(n) => acc.push(n),
            None => acc,
        };
        lemma_parse_block_statements(r.state.next_token(), statements);
    }
}

/// A function literal goes forward.
pub proof fn lemma_parse_function_literal(s: ParserView)
    requires
        s.well_formed(),
        s.cur_token.kind != TokenKind::Eof,
    ensures
        advances(s, parse_function_literal(s).state),
    decreases s.measure(), 11nat,
{
    reveal(parse_function_literal);
    reveal(parse_block_statement);
    lemma_next_token(s);
    let (opened, s1) = s.expect_peek(TokenKind::LParen);
    if opened {
        let p = parse_function_parameters(s1);
        lemma_parse_function_parameters(s1);
        if p.nodes is Some {
            lemma_next_token(p.state);
            let (braced, s2) = p.state.expect_peek(TokenKind::LBrace);
            if braced {
                lemma_parse_block_statement(s2);
            }
        }
    }
}

/// The parameters of a function literal go forward.
pub proof fn lemma_parse_function_parameters(s: ParserView)
    requires
        s.well_formed(),
        s.cur_token.kind != TokenKind::Eof,
    ensures
        advances(s, parse_function_parameters(s).state),
{
    lemma_next_token(s);
    if !s.peek_token_is(TokenKind::RParen) {
        let (named, s1) = s.expect_peek(TokenKind::Ident);
        if named {
            lemma_parse_more_parameters(s1, seq![s1.identifier()]);
        }
    }
}

/// The parameters behind the first go forward.
pub proof fn lemma_parse_more_parameters(s: ParserView, acc: Seq<NodeView>)
    requires
        s.well_formed(),
        s.cur_token.kind != TokenKind::Eof,
    ensures
        advances(s, parse_more_parameters(s, acc).state),
    decreases s.measure(),
{
    reveal(parse_more_parameters);
    lemma_next_token(s);
    if s.peek_token_is(TokenKind::Comma) {
        lemma_next_token(s.next_token());
        let (named, s1) = s.next_token().expect_peek(TokenKind::Ident);
        if named {
            lemma_parse_more_parameters(s1, acc.push(s1.identifier()));
        }
    }
}

/// An array literal goes forward.
pub proof fn lemma_parse_array_literal(s: ParserView)
    requires
        s.well_formed(),
        s.cur_token.kind != TokenKind::Eof,
    ensures
        advances(s, parse_array_literal(s).state),
    decreases s.measure(), 11nat,
{
    reveal(parse_array_literal);
    reveal(parse_expression_list);
    lemma_parse_expression_list(s, TokenKind::RBracket);
}

/// A list of expressions goes forward, and a complete one has consumed
/// something.
pub proof fn lemma_parse_expression_list(s: ParserView, end: TokenKind)
    requires
        s.well_formed(),
        s.cur_token.kind != TokenKind::Eof,
    ensures
        advances(s, parse_expression_list(s, end).state),
        parse_expression_list(s, end).nodes is Some ==> consumes(
            s,
            parse_expression_list(s, end).state,
        ),
    decreases s.measure(), 3nat,
{
    reveal(parse_expression_list);
    reveal(parse_expression);
    reveal(parse_more_expressions);
    lemma_next_token(s);
    if !s.peek_token_is(end) {
        let e = parse_expression(s.next_token(), Precedence::LOWEST);
        lemma_parse_expression(s.next_token(), Precedence::LOWEST);
        match as_expression(e.node) {
            None => {},
            Some(first) => {
                lemma_parse_more_expressions(e.state, seq![first], end);
            },
        }
    }
}

/// The expressions behind the first go forward.
pub proof fn lemma_parse_more_expressions(s: ParserView, acc: Seq<NodeView>, end: TokenKind)
    requires
        s.well_formed(),
    ensures
        advances(s, parse_more_expressions(s, acc, end).state),
    decreases s.measure(), 2nat,
{
    reveal(parse_more_expressions);
    reveal(parse_expression);
    lemma_next_token(s);
    if s.peek_token_is(TokenKind::Comma) {
        lemma_next_token(s.next_token());
        let e = parse_expression(s.next_token().next_token(), Precedence::LOWEST);
        lemma_parse_expression(s.next_token().next_token(), Precedence::LOWEST);
        match as_expression(e.node) {
            None => {},
            Some(next) => {
                lemma_parse_more_expressions(e.state, acc.push(next), end);
            },
        }
    }
}

/// A hash literal goes forward.
pub proof fn lemma_parse_hash_literal(s: ParserView)
    requires
        s.well_formed(),
        s.cur_token.kind != TokenKind::Eof,
    ensures
        advances(s, parse_hash_literal(s).state),
    decreases s.measure(), 11nat,
{
    reveal(parse_hash_literal);
    reveal(parse_hash_pairs);
    lemma_parse_hash_pairs(s, Seq::empty());
}

/// The entries of a hash literal go forward.
pub proof fn lemma_parse_hash_pairs(s: ParserView, acc: Seq<(NodeView, NodeView)>)
    requires
        s.well_formed(),
        s.cur_token.kind != TokenKind::Eof,
    ensures
        advances(s, parse_hash_pairs(s, acc).state),
    decreases s.measure(), 3nat,
{
    reveal(parse_hash_pairs);
    reveal(parse_expression);
    lemma_next_token(s);
    if !s.peek_token_is(TokenKind::RBrace) {
        let k = parse_expression(s.next_token(), Precedence::LOWEST);
        lemma_parse_expression(s.next_token(), Precedence::LOWEST);
        match as_expression(k.node) {
            None => {},
            Some(key) => {
                lemma_next_token(k.state);
                let (colon, s1) = k.state.expect_peek(TokenKind::Colon);
                if colon {
                    lemma_next_token(s1);
                    let v = parse_expression(s1.next_token(), Precedence::LOWEST);
                    lemma_parse_expression(s1.next_token(), Precedence::LOWEST);
                    match as_expression(v.node) {
                        None => {},
                        Some(value) => {
                            lemma_next_token(v.state);
                            if !v.state.peek_token_is(TokenKind::RBrace) {
                                let (comma, s2) = v.state.expect_peek(TokenKind::Comma);
                                if comma {
                                    lemma_parse_hash_pairs(s2, acc.push((key, value)));
                                }
                            }
                        },
                    }
                }
            },
        }
    }
}

/// The infix operators behind an expression go forward.
pub proof fn lemma_parse_infix_operators(s: ParserView, left: NodeView, precedence: Precedence)
    requires
        s.well_formed(),
    ensures
        advances(s, parse_infix_operators(s, left, precedence).state),
    decreases s.measure(), 9nat,
{
    reveal(parse_infix_operators);
    reveal(parse_infix);
    if !(s.peek_token_is(TokenKind::SemiColon) || precedence.rank() >= Precedence::of(
        s.peek_token.kind,
    ).rank() || !has_infix(s.peek_token.kind)) {
        lemma_next_token(s);
        let r = parse_infix(s.next_token(), left);
        lemma_parse_infix(s.next_token(), left);
        match as_expression(r.node) {
            None => {},
            Some(node) => {
                lemma_parse_infix_operators(r.state, node, precedence);
            },
        }
    }
}

/// An infix operator and what stands behind it consume something.
pub proof fn lemma_parse_infix(s: ParserView, left: NodeView)
    requires
        s.well_formed(),
        has_infix(s.cur_token.kind),
    ensures
        advances(s, parse_infix(s, left).state),
        parse_infix(s, left).node is Some ==> consumes(s, parse_infix(s, left).state),
    decreases s.measure(), 8nat,
{
    reveal(parse_infix);
    reveal(parse_call_expression);
    reveal(parse_index_expression);
    reveal(parse_infix_expression);
    if s.cur_token_is(TokenKind::LParen) {
        lemma_parse_call_expression(s, left);
    } else if s.cur_token_is(TokenKind::LBracket) {
        lemma_parse_index_expression(s, left);
    } else {
        lemma_parse_infix_expression(s, left);
    }
}

/// A binary operator and its right operand consume something.
pub proof fn lemma_parse_infix_expression(s: ParserView, left: NodeView)
    requires
        s.well_formed(),
        s.cur_token.kind != TokenKind::Eof,
    ensures
        consumes(s, parse_infix_expression(s, left).state),
    decreases s.measure(), 7nat,
{
    reveal(parse_infix_expression);
    reveal(parse_expression);
    lemma_next_token(s);
    lemma_parse_expression(s.next_token(), Precedence::of(s.cur_token.kind));
}

/// The arguments of a call go forward, and a complete call has consumed
/// something.
pub proof fn lemma_parse_call_expression(s: ParserView, function: NodeView)
    requires
        s.well_formed(),
        s.cur_token.kind != TokenKind::Eof,
    ensures
        advances(s, parse_call_expression(s, function).state),
        parse_call_expression(s, function).node is Some ==> consumes(
            s,
            parse_call_expression(s, function).state,
        ),
    decreases s.measure(), 7nat,
{
    reveal(parse_call_expression);
    reveal(parse_expression_list);
    lemma_parse_expression_list(s, TokenKind::RParen);
}

/// An index consumes something.
pub proof fn lemma_parse_index_expression(s: ParserView, left: NodeView)
    requires
        s.well_formed(),
        s.cur_token.kind != TokenKind::Eof,
    ensures
        consumes(s, parse_index_expression(s, left).state),
    decreases s.measure(), 7nat,
{
    reveal(parse_index_expression);
    reveal(parse_expression);
    lemma_next_token(s);
    lemma_parse_expression(s.next_token(), Precedence::LOWEST);
    lemma_next_token(parse_expression(s.next_token(), Precedence::LOWEST).state);
}

} // verus!
