//! The grammar: what the parser makes of a token stream, as mathematical
//! functions from a parser state to a tree and a parser state.
//!
//! A state holds the lexer and a window of two tokens. Every function is
//! defined on well-formed states, on which taking a token never makes the
//! [`ParserView::measure`] larger; the measure is what shows that parsing
//! ends. Where a definition goes on behind a step only if the step has left
//! less to parse, the step always has: see [`crate::progress`].

use vstd::prelude::*;
use crate::ast::NodeView;
use crate::lexer::{lemma_token_progress, LexerView};
use crate::text::parse_integer;
use crate::token::{TokenKind, TokenView};

verus! {

/// The state of a parser: the lexer, the current token, the token behind
/// it, and the messages of the errors met so far.
pub struct ParserView {
    pub lexer: LexerView,
    pub cur_token: TokenView,
    pub peek_token: TokenView,
    pub errors: Seq<Seq<char>>,
}

/// What a parsing step gives: a node, or `None` where the text is not of
/// the form asked for, and the state afterwards.
pub struct Parsed {
    pub node: Option<NodeView>,
    pub state: ParserView,
}

/// What parsing a list gives: its nodes, or `None` where it failed, and the
/// state afterwards.
pub struct ParsedList {
    pub nodes: Option<Seq<NodeView>>,
    pub state: ParserView,
}

/// What parsing the entries of a hash literal gives.
pub struct ParsedPairs {
    pub pairs: Option<Seq<(NodeView, NodeView)>>,
    pub state: ParserView,
}

/// How tightly an operator binds, from `LOWEST` to `INDEX`.
#[allow(non_camel_case_types)]
#[derive(Debug, PartialEq, Eq, Structural, Clone, Copy)]
pub enum Precedence {
    LOWEST,
    EQUALS,
    LESSGREATER,
    SUM,
    PRODUCT,
    PREFIX,
    CALL,
    INDEX,
}

impl Precedence {
    /// The place of the precedence in the ladder, `LOWEST` being 0.
    pub open spec fn rank(self) -> nat {
        match self {
            Precedence::LOWEST => 0,
            Precedence::EQUALS => 1,
            Precedence::LESSGREATER => 2,
            Precedence::SUM => 3,
            Precedence::PRODUCT => 4,
            Precedence::PREFIX => 5,
            Precedence::CALL => 6,
            Precedence::INDEX => 7,
        }
    }

    /// The precedence of a token as an infix operator; `LOWEST` for a token
    /// that is none.
    pub open spec fn of(kind: TokenKind) -> Precedence {
        match kind {
            TokenKind::Eq => Precedence::EQUALS,
            TokenKind::NotEq => Precedence::EQUALS,
            TokenKind::LT => Precedence::LESSGREATER,
            TokenKind::GT => Precedence::LESSGREATER,
            TokenKind::Plus => Precedence::SUM,
            TokenKind::Minus => Precedence::SUM,
            TokenKind::Slash => Precedence::PRODUCT,
            TokenKind::Asterisk => Precedence::PRODUCT,
            TokenKind::LParen => Precedence::CALL,
            TokenKind::LBracket => Precedence::INDEX,
            _ => Precedence::LOWEST,
        }
    }
}

/// A token that stands between the two operands of a binary operator.
pub open spec fn is_binary_operator(kind: TokenKind) -> bool {
    kind == TokenKind::Plus || kind == TokenKind::Minus || kind == TokenKind::Slash || kind
        == TokenKind::Asterisk || kind == TokenKind::Eq || kind == TokenKind::NotEq || kind
        == TokenKind::LT || kind == TokenKind::GT
}

/// A token that an expression can begin with.
pub open spec fn has_prefix(kind: TokenKind) -> bool {
    kind == TokenKind::Ident || kind == TokenKind::Int || kind == TokenKind::Str || kind
        == TokenKind::Bang || kind == TokenKind::Minus || kind == TokenKind::True || kind
        == TokenKind::False || kind == TokenKind::LParen || kind == TokenKind::If || kind
        == TokenKind::Function || kind == TokenKind::LBracket || kind == TokenKind::LBrace
}

/// A token that can go on an expression: a binary operator, the `(` of a
/// call, or the `[` of an index.
pub open spec fn has_infix(kind: TokenKind) -> bool {
    is_binary_operator(kind) || kind == TokenKind::LParen || kind == TokenKind::LBracket
}

/// `expected next token to be <kind>, got <peek> instead`
pub open spec fn peek_error_message(kind: TokenKind, peek: TokenView) -> Seq<char> {
    "expected next token to be "@ + kind.name() + ", got "@ + peek.inspect() + " instead"@
}

/// `no prefix parse function for <token>`
pub open spec fn no_prefix_message(token: TokenView) -> Seq<char> {
    "no prefix parse function for "@ + token.inspect()
}

/// `could not parse <digits> as integer`
pub open spec fn bad_integer_message(digits: Seq<char>) -> Seq<char> {
    "could not parse "@ + digits + " as integer"@
}

/// The node, where it is there and is an expression.
pub open spec fn as_expression(node: Option<NodeView>) -> Option<NodeView> {
    match node {
        Some(n) => NodeView::new_expression(n),
        None => None,
    }
}

/// The node, where it is there and is a statement.
pub open spec fn as_statement(node: Option<NodeView>) -> Option<NodeView> {
    match node {
        Some(n) => NodeView::new_statement(n),
        None => None,
    }
}

impl ParserView {
    /// The lexer is well formed, and the end of the input, once it has come
    /// into the window, stays: behind it there is nothing but itself.
    pub open spec fn well_formed(self) -> bool {
        &&& self.lexer.well_formed()
        &&& self.peek_token.kind == TokenKind::Eof ==> self.lexer.position
            == self.lexer.input.len()
        &&& self.cur_token.kind == TokenKind::Eof ==> self.peek_token.kind == TokenKind::Eof
    }

    /// How much is left to parse: the characters that the lexer has not
    /// consumed, and one for each token of the window that is not the end
    /// of the input.
    pub open spec fn measure(self) -> nat {
        self.lexer.remaining() + (if self.cur_token.kind == TokenKind::Eof {
            0nat
        } else {
            1nat
        }) + (if self.peek_token.kind == TokenKind::Eof {
            0nat
        } else {
            1nat
        })
    }

    /// The state of a new parser on `lexer`: the first two tokens are in the
    /// window.
    pub open spec fn start(lexer: LexerView) -> ParserView {
        ParserView {
            lexer: lexer.token().1.token().1,
            cur_token: lexer.token().0,
            peek_token: lexer.token().1.token().0,
            errors: Seq::empty(),
        }
    }

    /// The state after the window moved on by one token.
    pub open spec fn next_token(self) -> ParserView {
        ParserView {
            lexer: self.lexer.token().1,
            cur_token: self.peek_token,
            peek_token: self.lexer.token().0,
            errors: self.errors,
        }
    }

    /// The state with one more error message.
    pub open spec fn with_error(self, message: Seq<char>) -> ParserView {
        ParserView {
            lexer: self.lexer,
            cur_token: self.cur_token,
            peek_token: self.peek_token,
            errors: self.errors.push(message),
        }
    }

    /// Whether the current token is of the kind.
    pub open spec fn cur_token_is(self, kind: TokenKind) -> bool {
        self.cur_token.kind == kind
    }

    /// Whether the token behind the current one is of the kind.
    pub open spec fn peek_token_is(self, kind: TokenKind) -> bool {
        self.peek_token.kind == kind
    }

    /// Whether the token behind the current one is of the kind asked for.
    /// Where it is, the window moves on to it; where it is not, an error is
    /// recorded and the window stays.
    pub open spec fn expect_peek(self, kind: TokenKind) -> (bool, ParserView) {
        if self.peek_token_is(kind) {
            (true, self.next_token())
        } else {
            (false, self.with_error(peek_error_message(kind, self.peek_token)))
        }
    }

    /// The state after a `;` behind the current token, if there is one, was
    /// taken.
    pub open spec fn skip_semicolon(self) -> ParserView {
        if self.peek_token_is(TokenKind::SemiColon) {
            self.next_token()
        } else {
            self
        }
    }

    /// An identifier of the current token.
    pub open spec fn identifier(self) -> NodeView {
        NodeView::new_identifier(self.cur_token, self.cur_token.literal())
    }
}

/// Taking a token keeps a state well formed and does not make its measure
/// larger; it makes it smaller unless the current token is the end of the
/// input.
pub proof fn lemma_next_token(s: ParserView)
    requires
        s.well_formed(),
    ensures
        s.next_token().well_formed(),
        s.next_token().measure() <= s.measure(),
        s.cur_token.kind != TokenKind::Eof ==> s.next_token().measure() < s.measure(),
        s.next_token().errors == s.errors,
{
    lemma_token_progress(s.lexer);
}

/// A new parser is in a well-formed state.
pub proof fn lemma_start(lexer: LexerView)
    requires
        lexer.well_formed(),
    ensures
        ParserView::start(lexer).well_formed(),
{
    lemma_token_progress(lexer);
    lemma_token_progress(lexer.token().1);
}

/// A program: the statements up to the end of the input. A statement that
/// fails to parse is left out, and parsing goes on behind the token at which
/// it failed.
pub open spec fn parse_program(s: ParserView) -> Parsed {
    let r = parse_program_statements(s, Seq::empty());
    Parsed { node: NodeView::new_program(r.nodes->0), state: r.state }
}

/// The statements of a program from the current token on, behind the
/// statements `acc`.
#[verifier::opaque]
pub open spec fn parse_program_statements(s: ParserView, acc: Seq<NodeView>) -> ParsedList
    decreases s.measure(), 20nat,
    when s.well_formed()
{
    if s.cur_token_is(TokenKind::Eof) {
        ParsedList { nodes: Some(acc), state: s }
    } else {
        let r = parse_statement(s);
        let statements = match r.node {
            Some(n) => acc.push(n),
            None => acc,
        };
        let next = r.state.next_token();
        if next.measure() < s.measure() {
            parse_program_statements(next, statements)
        } else {
            ParsedList { nodes: Some(statements), state: next }
        }
    }
}

/// One statement: a `let`, a `return`, or an expression.
#[verifier::opaque]
pub open spec fn parse_statement(s: ParserView) -> Parsed
    decreases s.measure(), 15nat,
    when s.well_formed()
{
    let r = if s.cur_token_is(TokenKind::Let) {
        parse_let_statement(s)
    } else if s.cur_token_is(TokenKind::Return) {
        parse_return_statement(s)
    } else {
        parse_expression_statement(s)
    };
    Parsed { node: as_statement(r.node), state: r.state }
}

/// `let <identifier> = <expression>`, and a `;` behind it if there is one.
#[verifier::opaque]
pub open spec fn parse_let_statement(s: ParserView) -> Parsed
    decreases s.measure(), 14nat,
    when s.well_formed() && s.cur_token.kind != TokenKind::Eof
{
    let (named, s1) = s.expect_peek(TokenKind::Ident);
    if !named {
        Parsed { node: None, state: s1 }
    } else {
        let (assigned, s2) = s1.expect_peek(TokenKind::Assign);
        if !assigned {
            Parsed { node: None, state: s2 }
        } else {
            proof {
                lemma_next_token(s);
                lemma_next_token(s1);
                lemma_next_token(s2);
            }
            let e = parse_expression(s2.next_token(), Precedence::LOWEST);
            match e.node {
                None => e,
                Some(value) => Parsed {
                    node: NodeView::new_let_statement(s.cur_token, s1.identifier(), value),
                    state: e.state.skip_semicolon(),
                },
            }
        }
    }
}

/// `return <expression>`, and a `;` behind it if there is one.
#[verifier::opaque]
pub open spec fn parse_return_statement(s: ParserView) -> Parsed
    decreases s.measure(), 14nat,
    when s.well_formed() && s.cur_token.kind != TokenKind::Eof
{
    proof {
        lemma_next_token(s);
    }
    let e = parse_expression(s.next_token(), Precedence::LOWEST);
    match e.node {
        None => e,
        Some(value) => Parsed {
            node: NodeView::new_return_statement(s.cur_token, value),
            state: e.state.skip_semicolon(),
        },
    }
}

/// An expression in the place of a statement, and a `;` behind it if there
/// is one.
#[verifier::opaque]
pub open spec fn parse_expression_statement(s: ParserView) -> Parsed
    decreases s.measure(), 14nat,
    when s.well_formed()
{
    let e = parse_expression(s, Precedence::LOWEST);
    match e.node {
        None => e,
        Some(expression) => Parsed {
            node: NodeView::new_expression_statement(s.cur_token, expression),
            state: e.state.skip_semicolon(),
        },
    }
}

/// An expression whose operators all bind tighter than `precedence`: what
/// the current token begins, carried on by every infix operator behind it
/// that binds tighter than `precedence`.
#[verifier::opaque]
pub open spec fn parse_expression(s: ParserView, precedence: Precedence) -> Parsed
    decreases s.measure(), 13nat,
    when s.well_formed()
{
    if !has_prefix(s.cur_token.kind) {
        Parsed { node: None, state: s.with_error(no_prefix_message(s.cur_token)) }
    } else {
        let p = parse_prefix(s);
        match as_expression(p.node) {
            None => Parsed { node: None, state: p.state },
            Some(left) => if p.state.measure() <= s.measure() {
                parse_infix_operators(p.state, left, precedence)
            } else {
                Parsed { node: Some(left), state: p.state }
            },
        }
    }
}

/// What the current token begins, by its kind.
#[verifier::opaque]
pub open spec fn parse_prefix(s: ParserView) -> Parsed
    decreases s.measure(), 12nat,
    when s.well_formed() && has_prefix(s.cur_token.kind)
{
    match s.cur_token.kind {
        TokenKind::Ident => parse_identifier(s),
        TokenKind::Int => parse_integer_literal(s),
        TokenKind::Str => parse_string_literal(s),
        TokenKind::Bang => parse_prefix_expression(s),
        TokenKind::Minus => parse_prefix_expression(s),
        TokenKind::True => parse_boolean(s),
        TokenKind::False => parse_boolean(s),
        TokenKind::LParen => parse_grouped_expression(s),
        TokenKind::If => parse_if_expression(s),
        TokenKind::Function => parse_function_literal(s),
        TokenKind::LBracket => parse_array_literal(s),
        _ => parse_hash_literal(s),
    }
}

/// The identifier that the current token names.
pub open spec fn parse_identifier(s: ParserView) -> Parsed {
    Parsed { node: Some(s.identifier()), state: s }
}

/// The integer that the current token writes; an error where it is no
/// integer of 64 bits.
pub open spec fn parse_integer_literal(s: ParserView) -> Parsed {
    match parse_integer(s.cur_token.literal()) {
        Some(value) => Parsed {
            node: Some(NodeView::new_integer_literal(s.cur_token, value)),
            state: s,
        },
        None => Parsed {
            node: None,
            state: s.with_error(bad_integer_message(s.cur_token.literal())),
        },
    }
}

/// The string that the current token holds.
pub open spec fn parse_string_literal(s: ParserView) -> Parsed {
    Parsed {
        node: Some(NodeView::new_string_literal(s.cur_token, s.cur_token.literal())),
        state: s,
    }
}

/// `true` or `false`.
pub open spec fn parse_boolean(s: ParserView) -> Parsed {
    Parsed {
        node: Some(NodeView::new_boolean(s.cur_token, s.cur_token_is(TokenKind::True))),
        state: s,
    }
}

/// The operator of the current token applied to the expression behind it.
#[verifier::opaque]
pub open spec fn parse_prefix_expression(s: ParserView) -> Parsed
    decreases s.measure(), 11nat,
    when s.well_formed() && s.cur_token.kind != TokenKind::Eof
{
    proof {
        lemma_next_token(s);
    }
    let r = parse_expression(s.next_token(), Precedence::PREFIX);
    match r.node {
        None => r,
        Some(right) => Parsed {
            node: NodeView::new_prefix_expression(s.cur_token, s.cur_token.literal(), right),
            state: r.state,
        },
    }
}

/// `( <expression> )`.
#[verifier::opaque]
pub open spec fn parse_grouped_expression(s: ParserView) -> Parsed
    decreases s.measure(), 11nat,
    when s.well_formed() && s.cur_token.kind != TokenKind::Eof
{
    proof {
        lemma_next_token(s);
    }
    let e = parse_expression(s.next_token(), Precedence::LOWEST);
    match e.node {
        None => e,
        Some(inner) => {
            let (closed, s1) = e.state.expect_peek(TokenKind::RParen);
            Parsed {
                node: if closed {
                    Some(inner)
                } else {
                    None
                },
                state: s1,
            }
        },
    }
}

/// `if ( <expression> ) <block>`, and `else <block>` behind it if there is
/// one.
#[verifier::opaque]
pub open spec fn parse_if_expression(s: ParserView) -> Parsed
    decreases s.measure(), 11nat,
    when s.well_formed() && s.cur_token.kind != TokenKind::Eof
{
    let (opened, s1) = s.expect_peek(TokenKind::LParen);
    if !opened {
        Parsed { node: None, state: s1 }
    } else {
        proof {
            lemma_next_token(s);
            lemma_next_token(s1);
        }
        let c = parse_expression(s1.next_token(), Precedence::LOWEST);
        match c.node {
            None => c,
            Some(condition) => {
                let (closed, s2) = c.state.expect_peek(TokenKind::RParen);
                if !closed {
                    Parsed { node: None, state: s2 }
                } else {
                    let (braced, s3) = s2.expect_peek(TokenKind::LBrace);
                    if !braced || s3.measure() >= s.measure() || !s3.well_formed() {
                        Parsed { node: None, state: s3 }
                    } else {
                        let b = parse_block_statement(s3);
                        match b.node {
                            None => b,
                            Some(consequence) => if !b.state.peek_token_is(TokenKind::Else) {
                                Parsed {
                                    node: NodeView::new_if_expression(
                                        s.cur_token,
                                        condition,
                                        consequence,
                                        None,
                                    ),
                                    state: b.state,
                                }
                            } else {
                                let (braced, s4) = b.state.next_token().expect_peek(
                                    TokenKind::LBrace,
                                );
                                if !braced || s4.measure() >= s.measure() || !s4.well_formed() {
                                    Parsed { node: None, state: s4 }
                                } else {
                                    let a = parse_block_statement(s4);
                                    match a.node {
                                        None => a,
                                        Some(alternative) => Parsed {
                                            node: NodeView::new_if_expression(
                                                s.cur_token,
                                                condition,
                                                consequence,
                                                Some(alternative),
                                            ),
                                            state: a.state,
                                        },
                                    }
                                }
                            },
                        }
                    }
                }
            },
        }
    }
}

/// A block: the statements from behind the `{` of the current token up to
/// the `}` that closes it, or to the end of the input. The `}` is then the
/// current token.
#[verifier::opaque]
pub open spec fn parse_block_statement(s: ParserView) -> Parsed
    decreases s.measure(), 10nat,
    when s.well_formed() && s.cur_token.kind != TokenKind::Eof
{
    proof {
        lemma_next_token(s);
    }
    let r = parse_block_statements(s.next_token(), Seq::empty());
    Parsed { node: NodeView::new_block_statement(s.cur_token, r.nodes->0), state: r.state }
}

/// The statements of a block from the current token on, behind the
/// statements `acc`.
#[verifier::opaque]
pub open spec fn parse_block_statements(s: ParserView, acc: Seq<NodeView>) -> ParsedList
    decreases s.measure(), 20nat,
    when s.well_formed()
{
    if s.cur_token_is(TokenKind::RBrace) || s.cur_token_is(TokenKind::Eof) {
        ParsedList { nodes: Some(acc), state: s }
    } else {
        let r = parse_statement(s);
        let statements = match r.node {
            Some(n) => acc.push(n),
            None => acc,
        };
        let next = r.state.next_token();
        if next.measure() < s.measure() {
            parse_block_statements(next, statements)
        } else {
            ParsedList { nodes: Some(statements), state: next }
        }
    }
}

/// `fn ( <parameters> ) <block>`.
#[verifier::opaque]
pub open spec fn parse_function_literal(s: ParserView) -> Parsed
    decreases s.measure(), 11nat,
    when s.well_formed() && s.cur_token.kind != TokenKind::Eof
{
    let (opened, s1) = s.expect_peek(TokenKind::LParen);
    if !opened {
        Parsed { node: None, state: s1 }
    } else {
        let p = parse_function_parameters(s1);
        match p.nodes {
            None => Parsed { node: None, state: p.state },
            Some(parameters) => {
                let (braced, s2) = p.state.expect_peek(TokenKind::LBrace);
                if !braced || s2.measure() >= s.measure() || !s2.well_formed() {
                    Parsed { node: None, state: s2 }
                } else {
                    let b = parse_block_statement(s2);
                    match b.node {
                        None => b,
                        Some(body) => Parsed {
                            node: NodeView::new_function_literal(s.cur_token, parameters, body),
                            state: b.state,
                        },
                    }
                }
            },
        }
    }
}

/// The parameters of a function literal, from behind the `(` of the current
/// token up to the `)` that closes them: identifiers with `,` between them.
pub open spec fn parse_function_parameters(s: ParserView) -> ParsedList {
    if s.peek_token_is(TokenKind::RParen) {
        ParsedList { nodes: Some(Seq::empty()), state: s.next_token() }
    } else {
        let (named, s1) = s.expect_peek(TokenKind::Ident);
        if !named {
            ParsedList { nodes: None, state: s1 }
        } else {
            parse_more_parameters(s1, seq![s1.identifier()])
        }
    }
}

/// The parameters behind the current one, each after a `,`, and the `)`
/// that closes them.
#[verifier::opaque]
pub open spec fn parse_more_parameters(s: ParserView, acc: Seq<NodeView>) -> ParsedList
    decreases s.measure(),
    when s.well_formed() && s.cur_token.kind != TokenKind::Eof
{
    if !s.peek_token_is(TokenKind::Comma) {
        let (closed, s1) = s.expect_peek(TokenKind::RParen);
        ParsedList {
            nodes: if closed {
                Some(acc)
            } else {
                None
            },
            state: s1,
        }
    } else {
        let (named, s1) = s.next_token().expect_peek(TokenKind::Ident);
        if !named {
            ParsedList { nodes: None, state: s1 }
        } else {
            proof {
                lemma_next_token(s);
                lemma_next_token(s.next_token());
            }
            parse_more_parameters(s1, acc.push(s1.identifier()))
        }
    }
}

/// `[ <expressions> ]`.
#[verifier::opaque]
pub open spec fn parse_array_literal(s: ParserView) -> Parsed
    decreases s.measure(), 11nat,
    when s.well_formed() && s.cur_token.kind != TokenKind::Eof
{
    let l = parse_expression_list(s, TokenKind::RBracket);
    match l.nodes {
        None => Parsed { node: None, state: l.state },
        Some(elements) => Parsed {
            node: NodeView::new_array_literal(s.cur_token, elements),
            state: l.state,
        },
    }
}

/// The expressions from behind the current token up to the token `end`
/// that closes them, with `,` between them.
#[verifier::opaque]
pub open spec fn parse_expression_list(s: ParserView, end: TokenKind) -> ParsedList
    decreases s.measure(), 3nat,
    when s.well_formed() && s.cur_token.kind != TokenKind::Eof
{
    if s.peek_token_is(end) {
        ParsedList { nodes: Some(Seq::empty()), state: s.next_token() }
    } else {
        proof {
            lemma_next_token(s);
        }
        let e = parse_expression(s.next_token(), Precedence::LOWEST);
        match as_expression(e.node) {
            None => ParsedList { nodes: None, state: e.state },
            Some(first) => if e.state.measure() < s.measure() && e.state.well_formed() {
                parse_more_expressions(e.state, seq![first], end)
            } else {
                ParsedList { nodes: None, state: e.state }
            },
        }
    }
}

/// The expressions behind the current one, each after a `,`, and the token
/// `end` that closes them.
#[verifier::opaque]
pub open spec fn parse_more_expressions(s: ParserView, acc: Seq<NodeView>, end: TokenKind) -> ParsedList
    decreases s.measure(), 2nat,
    when s.well_formed()
{
    if !s.peek_token_is(TokenKind::Comma) {
        let (closed, s1) = s.expect_peek(end);
        ParsedList {
            nodes: if closed {
                Some(acc)
            } else {
                None
            },
            state: s1,
        }
    } else {
        proof {
            lemma_next_token(s);
            lemma_next_token(s.next_token());
        }
        let e = parse_expression(s.next_token().next_token(), Precedence::LOWEST);
        match as_expression(e.node) {
            None => ParsedList { nodes: None, state: e.state },
            Some(next) => if e.state.measure() < s.measure() && e.state.well_formed() {
                parse_more_expressions(e.state, acc.push(next), end)
            } else {
                ParsedList { nodes: None, state: e.state }
            },
        }
    }
}

/// `{ <key> : <value>, .. }`.
#[verifier::opaque]
pub open spec fn parse_hash_literal(s: ParserView) -> Parsed
    decreases s.measure(), 11nat,
    when s.well_formed() && s.cur_token.kind != TokenKind::Eof
{
    let r = parse_hash_pairs(s, Seq::empty());
    match r.pairs {
        None => Parsed { node: None, state: r.state },
        Some(pairs) => Parsed {
            node: NodeView::new_hash_literal(s.cur_token, pairs),
            state: r.state,
        },
    }
}

/// The entries of a hash literal from behind the current token on, behind
/// the entries `acc`, and the `}` that closes them.
#[verifier::opaque]
pub open spec fn parse_hash_pairs(s: ParserView, acc: Seq<(NodeView, NodeView)>) -> ParsedPairs
    decreases s.measure(), 3nat,
    when s.well_formed() && s.cur_token.kind != TokenKind::Eof
{
    if s.peek_token_is(TokenKind::RBrace) {
        ParsedPairs { pairs: Some(acc), state: s.next_token() }
    } else {
        proof {
            lemma_next_token(s);
        }
        let k = parse_expression(s.next_token(), Precedence::LOWEST);
        match as_expression(k.node) {
            None => ParsedPairs { pairs: None, state: k.state },
            Some(key) => {
                let (colon, s1) = k.state.expect_peek(TokenKind::Colon);
                if !colon || s1.next_token().measure() >= s.measure() || !s1.well_formed() {
                    ParsedPairs { pairs: None, state: s1 }
                } else {
                    proof {
                        lemma_next_token(s1);
                    }
                    let v = parse_expression(s1.next_token(), Precedence::LOWEST);
                    match as_expression(v.node) {
                        None => ParsedPairs { pairs: None, state: v.state },
                        Some(value) => if v.state.peek_token_is(TokenKind::RBrace) {
                            ParsedPairs {
                                pairs: Some(acc.push((key, value))),
                                state: v.state.next_token(),
                            }
                        } else {
                            let (comma, s2) = v.state.expect_peek(TokenKind::Comma);
                            if !comma || s2.measure() >= s.measure() || !s2.well_formed() {
                                ParsedPairs { pairs: None, state: s2 }
                            } else {
                                parse_hash_pairs(s2, acc.push((key, value)))
                            }
                        },
                    }
                }
            },
        }
    }
}

/// The expression `left`, carried on by every infix operator behind it that
/// binds tighter than `precedence`. A `;` ends it.
#[verifier::opaque]
pub open spec fn parse_infix_operators(s: ParserView, left: NodeView, precedence: Precedence) -> Parsed
    decreases s.measure(), 9nat,
    when s.well_formed()
{
    if s.peek_token_is(TokenKind::SemiColon) || precedence.rank() >= Precedence::of(
        s.peek_token.kind,
    ).rank() || !has_infix(s.peek_token.kind) {
        Parsed { node: Some(left), state: s }
    } else {
        proof {
            lemma_next_token(s);
        }
        let r = parse_infix(s.next_token(), left);
        match as_expression(r.node) {
            None => Parsed { node: None, state: r.state },
            Some(node) => if r.state.measure() < s.measure() && r.state.well_formed() {
                parse_infix_operators(r.state, node, precedence)
            } else {
                Parsed { node: Some(node), state: r.state }
            },
        }
    }
}

/// What the infix operator of the current token makes of `left` and of what
/// stands behind it.
#[verifier::opaque]
pub open spec fn parse_infix(s: ParserView, left: NodeView) -> Parsed
    decreases s.measure(), 8nat,
    when s.well_formed() && has_infix(s.cur_token.kind)
{
    if s.cur_token_is(TokenKind::LParen) {
        parse_call_expression(s, left)
    } else if s.cur_token_is(TokenKind::LBracket) {
        parse_index_expression(s, left)
    } else {
        parse_infix_expression(s, left)
    }
}

/// `left <operator> <expression>`, where the expression holds only
/// operators that bind tighter than the operator itself.
#[verifier::opaque]
pub open spec fn parse_infix_expression(s: ParserView, left: NodeView) -> Parsed
    decreases s.measure(), 7nat,
    when s.well_formed() && s.cur_token.kind != TokenKind::Eof
{
    proof {
        lemma_next_token(s);
    }
    let r = parse_expression(s.next_token(), Precedence::of(s.cur_token.kind));
    match r.node {
        None => r,
        Some(right) => Parsed {
            node: NodeView::new_infix_expression(
                s.cur_token,
                left,
                s.cur_token.literal(),
                right,
            ),
            state: r.state,
        },
    }
}

/// `function ( <arguments> )`.
#[verifier::opaque]
pub open spec fn parse_call_expression(s: ParserView, function: NodeView) -> Parsed
    decreases s.measure(), 7nat,
    when s.well_formed() && s.cur_token.kind != TokenKind::Eof
{
    let l = parse_expression_list(s, TokenKind::RParen);
    match l.nodes {
        None => Parsed { node: None, state: l.state },
        Some(arguments) => Parsed {
            node: NodeView::new_call_expression(s.cur_token, function, arguments),
            state: l.state,
        },
    }
}

/// `left [ <expression> ]`.
#[verifier::opaque]
pub open spec fn parse_index_expression(s: ParserView, left: NodeView) -> Parsed
    decreases s.measure(), 7nat,
    when s.well_formed() && s.cur_token.kind != TokenKind::Eof
{
    proof {
        lemma_next_token(s);
    }
    let r = parse_expression(s.next_token(), Precedence::LOWEST);
    match r.node {
        None => r,
        Some(index) => {
            let (closed, s1) = r.state.expect_peek(TokenKind::RBracket);
            Parsed {
                node: if closed {
                    NodeView::new_index_expression(s.cur_token, left, index)
                } else {
                    None
                },
                state: s1,
            }
        },
    }
}

} // verus!
