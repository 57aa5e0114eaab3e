//! The parser: a Pratt parser that pulls tokens from a lexer and builds the
//! syntax tree.
//!
//! Every function here computes what the function of the same name in
//! [`crate::grammar`] states.

use vstd::prelude::*;
use crate::ast::{all_well_formed, optional_model, Node};
use crate::grammar;
use crate::grammar::{has_infix, has_prefix, Parsed, ParserView, Precedence};
use crate::lexer::Lexer;
use crate::text::read_integer;
use crate::token::{Token, TokenKind};

verus! {

/// The texts of a list of strings.
pub open spec fn texts(strings: &Vec<String>) -> Seq<Seq<char>> {
    Seq::new(strings.len() as nat, |i: int| strings[i]@)
}

/// What a returned node and a parser state stand for.
pub open spec fn parsed(node: Option<Box<Node>>, state: ParserView) -> Parsed {
    Parsed { node: optional_model(node), state }
}

impl Precedence {
    /// The place of the precedence in the ladder.
    pub fn level(self) -> (r: u8)
        ensures
            r == self.rank(),
    {
        match self {
            Precedence::LOWEST => 0,
            Precedence::EQUALS => 1,
            Precedence::LESSGREATER => 2,
            Precedence::SUM => 3,
            Precedence::PRODUCT => 4,
            Precedence::PREFIX => 5,
            Precedence::CALL => 6,
            Precedence::INDEX => 7,
        }
    }
}

/// A parser on a lexer, with the current token and the token behind it.
pub struct Parser {
    lexer: Lexer,
    cur_token: Token,
    peek_token: Token,
    errors: Vec<String>,
}

impl View for Parser {
    type V = ParserView;

    closed spec fn view(&self) -> ParserView {
        ParserView {
            lexer: self.lexer@,
            cur_token: self.cur_token@,
            peek_token: self.peek_token@,
            errors: texts(&self.errors),
        }
    }
}

impl Parser {
    /// A parser on `lexer`, with the first two tokens in its window.
    pub fn new(lexer: Lexer) -> (p: Parser)
        requires
            lexer@.well_formed(),
        ensures
            p@ == ParserView::start(lexer@),
            p@.well_formed(),
    {
        let mut lexer = lexer;
        proof {
            grammar::lemma_start(lexer@);
        }
        let cur_token = lexer.token();
        let peek_token = lexer.token();
        let p = Parser { lexer, cur_token, peek_token, errors: Vec::new() };
        assert(p@.errors =~= Seq::empty());
        p
    }

    /// The messages of the errors met so far, in the order in which they
    /// were met.
    pub fn errors(&self) -> (r: &Vec<String>)
        ensures
            texts(r) == self@.errors,
    {
        &self.errors
    }

    /// The current token.
    pub fn cur_token(&self) -> (r: &Token)
        ensures
            r@ == self@.cur_token,
    {
        &self.cur_token
    }

    /// The token behind the current one.
    pub fn peek_token(&self) -> (r: &Token)
        ensures
            r@ == self@.peek_token,
    {
        &self.peek_token
    }

    fn next_token(&mut self)
        requires
            old(self)@.well_formed(),
        ensures
            final(self)@ == old(self)@.next_token(),
            final(self)@.well_formed(),
            final(self)@.measure() <= old(self)@.measure(),
            old(self)@.cur_token.kind != TokenKind::Eof ==> final(self)@.measure() < old(
                self,
            )@.measure(),
    {
        proof {
            grammar::lemma_next_token(self@);
        }
        core::mem::swap(&mut self.cur_token, &mut self.peek_token);
        self.peek_token = self.lexer.token();
    }

    fn cur_token_is(&self, kind: TokenKind) -> (r: bool)
        ensures
            r == self@.cur_token_is(kind),
    {
        self.cur_token.kind() == kind
    }

    fn peek_token_is(&self, kind: TokenKind) -> (r: bool)
        ensures
            r == self@.peek_token_is(kind),
    {
        self.peek_token.kind() == kind
    }

    fn add_error(&mut self, message: String)
        ensures
            final(self)@ == old(self)@.with_error(message@),
    {
        self.errors.push(message);
        assert(self@.errors =~= old(self)@.errors.push(message@));
    }

    fn peek_error(&mut self, kind: TokenKind)
        ensures
            final(self)@ == old(self)@.with_error(
                grammar::peek_error_message(kind, old(self)@.peek_token),
            ),
    {
        let mut message = "expected next token to be ".to_owned();
        message.append(kind.name_str());
        message.append(", got ");
        message.append(self.peek_token.inspect().as_str());
        message.append(" instead");
        self.add_error(message);
    }

    fn expect_peek(&mut self, kind: TokenKind) -> (r: bool)
        requires
            old(self)@.well_formed(),
        ensures
            (r, final(self)@) == old(self)@.expect_peek(kind),
            final(self)@.well_formed(),
            final(self)@.measure() <= old(self)@.measure(),
            r && old(self)@.cur_token.kind != TokenKind::Eof ==> final(self)@.measure() < old(
                self,
            )@.measure(),
    {
        if self.peek_token_is(kind) {
            self.next_token();
            true
        } else {
            self.peek_error(kind);
            false
        }
    }

    fn skip_semicolon(&mut self)
        requires
            old(self)@.well_formed(),
        ensures
            final(self)@ == old(self)@.skip_semicolon(),
            final(self)@.well_formed(),
            final(self)@.measure() <= old(self)@.measure(),
    {
        if self.peek_token_is(TokenKind::SemiColon) {
            self.next_token();
        }
    }

    fn precedence(kind: TokenKind) -> (r: Precedence)
        ensures
            r == Precedence::of(kind),
    {
        match kind {
            TokenKind::Eq => Precedence::EQUALS,
            TokenKind::NotEq => Precedence::EQUALS,
            TokenKind::LT => Precedence::LESSGREATER,
            TokenKind::GT => Precedence::LESSGREATER,
            TokenKind::Plus => Precedence::SUM,
            TokenKind::Minus => Precedence::SUM,
            TokenKind::Slash => Precedence::PRODUCT,
            TokenKind::Asterisk => Precedence::PRODUCT,
            TokenKind::LParen => Precedence::CALL,
            TokenKind::LBracket => Precedence::INDEX,
            _ => Precedence::LOWEST,
        }
    }

    fn peek_precedence(&self) -> (r: Precedence)
        ensures
            r == Precedence::of(self@.peek_token.kind),
    {
        Parser::precedence(self.peek_token.kind())
    }

    fn cur_precedence(&self) -> (r: Precedence)
        ensures
            r == Precedence::of(self@.cur_token.kind),
    {
        Parser::precedence(self.cur_token.kind())
    }

    fn is_prefix_token(kind: TokenKind) -> (r: bool)
        ensures
            r == has_prefix(kind),
    {
        match kind {
            TokenKind::Ident => true,
            TokenKind::Int => true,
            TokenKind::Str => true,
            TokenKind::Bang => true,
            TokenKind::Minus => true,
            TokenKind::True => true,
            TokenKind::False => true,
            TokenKind::LParen => true,
            TokenKind::If => true,
            TokenKind::Function => true,
            TokenKind::LBracket => true,
            TokenKind::LBrace => true,
            _ => false,
        }
    }

    fn is_infix_token(kind: TokenKind) -> (r: bool)
        ensures
            r == has_infix(kind),
    {
        match kind {
            TokenKind::Plus => true,
            TokenKind::Minus => true,
            TokenKind::Slash => true,
            TokenKind::Asterisk => true,
            TokenKind::Eq => true,
            TokenKind::NotEq => true,
            TokenKind::LT => true,
            TokenKind::GT => true,
            TokenKind::LParen => true,
            TokenKind::LBracket => true,
            _ => false,
        }
    }

    fn identifier(&self) -> (r: Box<Node>)
        ensures
            r@ == self@.identifier(),
            r@.well_formed(),
    {
        Node::new_identifier(self.cur_token.clone(), self.cur_token.literal())
    }

    /// Parses the whole input. The result is a program of the statements
    /// that could be parsed; the others have left their messages in
    /// [`Parser::errors`].
    pub fn parse_program(&mut self) -> (r: Option<Box<Node>>)
        requires
            old(self)@.well_formed(),
        ensures
            r is Some,
            r matches Some(n) ==> n@.well_formed(),
            parsed(r, final(self)@) == grammar::parse_program(old(self)@),
            final(self)@.well_formed(),
            final(self)@.cur_token.kind == TokenKind::Eof,
    {
        let statements = self.parse_program_statements();
        Node::new_program(statements)
    }

    fn parse_program_statements(&mut self) -> (r: Vec<Box<Node>>)
        requires
            old(self)@.well_formed(),
        ensures
            all_well_formed(Node::models(&r)),
            forall|i: int| 0 <= i < r.len() ==> (#[trigger] Node::models(&r)[i]).is_statement(),
            grammar::parse_program_statements(old(self)@, Seq::empty()) == (grammar::ParsedList {
                nodes: Some(Node::models(&r)),
                state: final(self)@,
            }),
            final(self)@.well_formed(),
            final(self)@.cur_token.kind == TokenKind::Eof,
    {
        proof {
            reveal(grammar::parse_program_statements);
        }
        let mut statements: Vec<Box<Node>> = Vec::new();
        assert(Node::models(&statements) =~= Seq::empty());
        let ghost start = self@;
        while !self.cur_token_is(TokenKind::Eof)
            invariant
                self@.well_formed(),
                all_well_formed(Node::models(&statements)),
                forall|i: int|
                    0 <= i < statements.len() ==> (#[trigger] Node::models(
                        &statements,
                    )[i]).is_statement(),
                grammar::parse_program_statements(self@, Node::models(&statements))
                    == grammar::parse_program_statements(start, Seq::empty()),
            decreases self@.measure(),
        {
            proof {
                reveal(grammar::parse_program_statements);
                }
            let ghost before = Node::models(&statements);
            let ghost head = self@;
            assert(head.cur_token.kind != TokenKind::Eof);
            match self.parse_statement() {
                Some(statement) => {
                    statements.push(statement);
                    assert(Node::models(&statements) =~= before.push(statement@));
                },
                None => {},
            }
            self.next_token();
        }
        statements
    }

    fn parse_statement(&mut self) -> (r: Option<Box<Node>>)
        requires
            old(self)@.well_formed(),
        ensures
            r matches Some(n) ==> n@.well_formed() && n@.is_statement(),
            parsed(r, final(self)@) == grammar::parse_statement(old(self)@),
            final(self)@.well_formed(),
            final(self)@.measure() <= old(self)@.measure(),
        decreases old(self)@.measure(), 15nat,
    {
        proof {
            reveal(grammar::parse_statement);
            reveal(grammar::parse_let_statement);
            reveal(grammar::parse_return_statement);
            reveal(grammar::parse_expression_statement);
        }
        let statement = if self.cur_token_is(TokenKind::Let) {
            self.parse_let_statement()
        } else if self.cur_token_is(TokenKind::Return) {
            self.parse_return_statement()
        } else {
            self.parse_expression_statement()
        };
        match statement {
            Some(s) => Node::new_statement(s),
            None => None,
        }
    }

    fn parse_let_statement(&mut self) -> (r: Option<Box<Node>>)
        requires
            old(self)@.well_formed(),
            old(self)@.cur_token.kind != TokenKind::Eof,
        ensures
            r matches Some(n) ==> n@.well_formed(),
            parsed(r, final(self)@) == grammar::parse_let_statement(old(self)@),
            final(self)@.well_formed(),
            final(self)@.measure() <= old(self)@.measure(),
        decreases old(self)@.measure(), 14nat,
    {
        proof {
            reveal(grammar::parse_let_statement);
            reveal(grammar::parse_expression);
        }
        let let_token = self.cur_token.clone();
        if !self.expect_peek(TokenKind::Ident) {
            return None;
        }
        let identifier = self.identifier();
        if !self.expect_peek(TokenKind::Assign) {
            return None;
        }
        self.next_token();
        let expression = match self.parse_expression(Precedence::LOWEST) {
            None => {
                return None;
            },
            Some(e) => e,
        };
        self.skip_semicolon();
        Node::new_let_statement(let_token, identifier, expression)
    }

    fn parse_return_statement(&mut self) -> (r: Option<Box<Node>>)
        requires
            old(self)@.well_formed(),
            old(self)@.cur_token.kind != TokenKind::Eof,
        ensures
            r matches Some(n) ==> n@.well_formed(),
            parsed(r, final(self)@) == grammar::parse_return_statement(old(self)@),
            final(self)@.well_formed(),
            final(self)@.measure() <= old(self)@.measure(),
        decreases old(self)@.measure(), 14nat,
    {
        proof {
            reveal(grammar::parse_return_statement);
            reveal(grammar::parse_expression);
        }
        let token = self.cur_token.clone();
        self.next_token();
        let expression = match self.parse_expression(Precedence::LOWEST) {
            None => {
                return None;
            },
            Some(e) => e,
        };
        self.skip_semicolon();
        Node::new_return_statement(token, expression)
    }

    fn parse_expression_statement(&mut self) -> (r: Option<Box<Node>>)
        requires
            old(self)@.well_formed(),
        ensures
            r matches Some(n) ==> n@.well_formed(),
            parsed(r, final(self)@) == grammar::parse_expression_statement(old(self)@),
            final(self)@.well_formed(),
            final(self)@.measure() <= old(self)@.measure(),
        decreases old(self)@.measure(), 14nat,
    {
        proof {
            reveal(grammar::parse_expression_statement);
            reveal(grammar::parse_expression);
        }
        let token = self.cur_token.clone();
        let expression = match self.parse_expression(Precedence::LOWEST) {
            None => {
                return None;
            },
            Some(e) => e,
        };
        self.skip_semicolon();
        Node::new_expression_statement(token, expression)
    }

    #[verifier::loop_isolation(false)]
    fn parse_expression(&mut self, precedence: Precedence) -> (r: Option<Box<Node>>)
        requires
            old(self)@.well_formed(),
        ensures
            r matches Some(n) ==> n@.well_formed(),
            parsed(r, final(self)@) == grammar::parse_expression(old(self)@, precedence),
            final(self)@.well_formed(),
            final(self)@.measure() <= old(self)@.measure(),
        decreases old(self)@.measure(), 13nat,
    {
        proof {
            reveal(grammar::parse_expression);
            reveal(grammar::parse_infix_operators);
            reveal(grammar::parse_prefix);
            reveal(grammar::parse_infix);
        }
        if !Parser::is_prefix_token(self.cur_token.kind()) {
            let mut message = "no prefix parse function for ".to_owned();
            message.append(self.cur_token.inspect().as_str());
            self.add_error(message);
            return None;
        }
        let prefix = match self.parse_prefix() {
            None => {
                return None;
            },
            Some(p) => p,
        };
        let mut left = match Node::new_expression(prefix) {
            None => {
                return None;
            },
            Some(e) => e,
        };
        let ghost start = self@;
        let ghost first = left@;
        loop
            invariant
                self@.well_formed(),
                self@.measure() <= old(self)@.measure(),
                left@.well_formed(),
                grammar::parse_infix_operators(self@, left@, precedence)
                    == grammar::parse_infix_operators(start, first, precedence),
            decreases self@.measure(),
        {
            if self.peek_token_is(TokenKind::SemiColon) || precedence.level()
                >= self.peek_precedence().level() || !Parser::is_infix_token(
                self.peek_token.kind(),
            ) {
                return Some(left);
            }
            self.next_token();
            let combined = match self.parse_infix(left) {
                None => {
                    return None;
                },
                Some(c) => c,
            };
            left = match Node::new_expression(combined) {
                None => {
                    return None;
                },
                Some(e) => e,
            };
        }
    }

    fn parse_prefix(&mut self) -> (r: Option<Box<Node>>)
        requires
            old(self)@.well_formed(),
            has_prefix(old(self)@.cur_token.kind),
        ensures
            r matches Some(n) ==> n@.well_formed(),
            parsed(r, final(self)@) == grammar::parse_prefix(old(self)@),
            final(self)@.well_formed(),
            final(self)@.measure() <= old(self)@.measure(),
        decreases old(self)@.measure(), 12nat,
    {
        proof {
            reveal(grammar::parse_prefix);
            reveal(grammar::parse_prefix_expression);
            reveal(grammar::parse_grouped_expression);
            reveal(grammar::parse_if_expression);
            reveal(grammar::parse_function_literal);
            reveal(grammar::parse_array_literal);
            reveal(grammar::parse_hash_literal);
        }
        match self.cur_token.kind() {
            TokenKind::Ident => self.parse_identifier(),
            TokenKind::Int => self.parse_integer_literal(),
            TokenKind::Str => self.parse_string_literal(),
            TokenKind::Bang => self.parse_prefix_expression(),
            TokenKind::Minus => self.parse_prefix_expression(),
            TokenKind::True => self.parse_boolean(),
            TokenKind::False => self.parse_boolean(),
            TokenKind::LParen => self.parse_grouped_expression(),
            TokenKind::If => self.parse_if_expression(),
            TokenKind::Function => self.parse_function_literal(),
            TokenKind::LBracket => self.parse_array_literal(),
            _ => self.parse_hash_literal(),
        }
    }

    fn parse_identifier(&mut self) -> (r: Option<Box<Node>>)
        ensures
            r matches Some(n) ==> n@.well_formed(),
            parsed(r, final(self)@) == grammar::parse_identifier(old(self)@),
            final(self)@ == old(self)@,
    {
        Some(self.identifier())
    }

    fn parse_integer_literal(&mut self) -> (r: Option<Box<Node>>)
        ensures
            r matches Some(n) ==> n@.well_formed(),
            parsed(r, final(self)@) == grammar::parse_integer_literal(old(self)@),
            final(self)@.lexer == old(self)@.lexer,
            final(self)@.cur_token == old(self)@.cur_token,
            final(self)@.peek_token == old(self)@.peek_token,
    {
        let digits = self.cur_token.literal();
        match read_integer(digits.as_str()) {
            Some(value) => Some(Node::new_integer_literal(self.cur_token.clone(), value)),
            None => {
                let mut message = "could not parse ".to_owned();
                message.append(digits.as_str());
                message.append(" as integer");
                self.add_error(message);
                None
            },
        }
    }

    fn parse_string_literal(&mut self) -> (r: Option<Box<Node>>)
        ensures
            r matches Some(n) ==> n@.well_formed(),
            parsed(r, final(self)@) == grammar::parse_string_literal(old(self)@),
            final(self)@ == old(self)@,
    {
        Some(Node::new_string_literal(self.cur_token.clone(), self.cur_token.literal()))
    }

    fn parse_boolean(&mut self) -> (r: Option<Box<Node>>)
        ensures
            r matches Some(n) ==> n@.well_formed(),
            parsed(r, final(self)@) == grammar::parse_boolean(old(self)@),
            final(self)@ == old(self)@,
    {
        Some(Node::new_boolean(self.cur_token.clone(), self.cur_token_is(TokenKind::True)))
    }

    fn parse_prefix_expression(&mut self) -> (r: Option<Box<Node>>)
        requires
            old(self)@.well_formed(),
            old(self)@.cur_token.kind != TokenKind::Eof,
        ensures
            r matches Some(n) ==> n@.well_formed(),
            parsed(r, final(self)@) == grammar::parse_prefix_expression(old(self)@),
            final(self)@.well_formed(),
            final(self)@.measure() <= old(self)@.measure(),
        decreases old(self)@.measure(), 11nat,
    {
        proof {
            reveal(grammar::parse_prefix_expression);
            reveal(grammar::parse_expression);
        }
        let token = self.cur_token.clone();
        let operator = self.cur_token.literal();
        self.next_token();
        let right = match self.parse_expression(Precedence::PREFIX) {
            None => {
                return None;
            },
            Some(e) => e,
        };
        Node::new_prefix_expression(token, operator, right)
    }

    fn parse_grouped_expression(&mut self) -> (r: Option<Box<Node>>)
        requires
            old(self)@.well_formed(),
            old(self)@.cur_token.kind != TokenKind::Eof,
        ensures
            r matches Some(n) ==> n@.well_formed(),
            parsed(r, final(self)@) == grammar::parse_grouped_expression(old(self)@),
            final(self)@.well_formed(),
            final(self)@.measure() <= old(self)@.measure(),
        decreases old(self)@.measure(), 11nat,
    {
        proof {
            reveal(grammar::parse_grouped_expression);
            reveal(grammar::parse_expression);
        }
        self.next_token();
        let inner = match self.parse_expression(Precedence::LOWEST) {
            None => {
                return None;
            },
            Some(e) => e,
        };
        if !self.expect_peek(TokenKind::RParen) {
            return None;
        }
        Some(inner)
    }

    #[verifier::rlimit(40)]
    fn parse_if_expression(&mut self) -> (r: Option<Box<Node>>)
        requires
            old(self)@.well_formed(),
            old(self)@.cur_token.kind != TokenKind::Eof,
        ensures
            r matches Some(n) ==> n@.well_formed(),
            parsed(r, final(self)@) == grammar::parse_if_expression(old(self)@),
            final(self)@.well_formed(),
            final(self)@.measure() <= old(self)@.measure(),
        decreases old(self)@.measure(), 11nat,
    {
        proof {
            reveal(grammar::parse_if_expression);
            reveal(grammar::parse_expression);
            reveal(grammar::parse_block_statement);
        }
        let token = self.cur_token.clone();
        if !self.expect_peek(TokenKind::LParen) {
            return None;
        }
        self.next_token();
        let condition = match self.parse_expression(Precedence::LOWEST) {
            None => {
                return None;
            },
            Some(e) => e,
        };
        if !self.expect_peek(TokenKind::RParen) {
            return None;
        }
        if !self.expect_peek(TokenKind::LBrace) {
            return None;
        }
        let consequence = match self.parse_block_statement() {
            None => {
                return None;
            },
            Some(b) => b,
        };
        if !self.peek_token_is(TokenKind::Else) {
            return Node::new_if_expression(token, condition, consequence, None);
        }
        self.next_token();
        if !self.expect_peek(TokenKind::LBrace) {
            return None;
        }
        let alternative = match self.parse_block_statement() {
            None => {
                return None;
            },
            Some(b) => b,
        };
        Node::new_if_expression(token, condition, consequence, Some(alternative))
    }

    #[verifier::loop_isolation(false)]
    fn parse_block_statement(&mut self) -> (r: Option<Box<Node>>)
        requires
            old(self)@.well_formed(),
            old(self)@.cur_token.kind != TokenKind::Eof,
        ensures
            r matches Some(n) ==> n@.well_formed(),
            parsed(r, final(self)@) == grammar::parse_block_statement(old(self)@),
            final(self)@.well_formed(),
            final(self)@.measure() <= old(self)@.measure(),
        decreases old(self)@.measure(), 10nat,
    {
        proof {
            reveal(grammar::parse_block_statement);
            reveal(grammar::parse_block_statements);
            reveal(grammar::parse_statement);
        }
        let token = self.cur_token.clone();
        let mut statements: Vec<Box<Node>> = Vec::new();
        assert(Node::models(&statements) =~= Seq::empty());
        self.next_token();
        let ghost start = self@;
        while !self.cur_token_is(TokenKind::RBrace) && !self.cur_token_is(TokenKind::Eof)
            invariant
                self@.well_formed(),
                self@.measure() < old(self)@.measure(),
                all_well_formed(Node::models(&statements)),
                grammar::parse_block_statements(self@, Node::models(&statements))
                    == grammar::parse_block_statements(start, Seq::empty()),
            decreases self@.measure(),
        {
            let ghost before = Node::models(&statements);
            match self.parse_statement() {
                Some(statement) => {
                    statements.push(statement);
                    assert(Node::models(&statements) =~= before.push(statement@));
                },
                None => {},
            }
            self.next_token();
        }
        Node::new_block_statement(token, statements)
    }

    fn parse_function_literal(&mut self) -> (r: Option<Box<Node>>)
        requires
            old(self)@.well_formed(),
            old(self)@.cur_token.kind != TokenKind::Eof,
        ensures
            r matches Some(n) ==> n@.well_formed(),
            parsed(r, final(self)@) == grammar::parse_function_literal(old(self)@),
            final(self)@.well_formed(),
            final(self)@.measure() <= old(self)@.measure(),
        decreases old(self)@.measure(), 11nat,
    {
        proof {
            reveal(grammar::parse_function_literal);
            reveal(grammar::parse_block_statement);
        }
        let token = self.cur_token.clone();
        if !self.expect_peek(TokenKind::LParen) {
            return None;
        }
        let parameters = match self.parse_function_parameters() {
            None => {
                return None;
            },
            Some(p) => p,
        };
        if !self.expect_peek(TokenKind::LBrace) {
            return None;
        }
        let body = match self.parse_block_statement() {
            None => {
                return None;
            },
            Some(b) => b,
        };
        Node::new_function_literal(token, parameters, body)
    }

    #[verifier::loop_isolation(false)]
    fn parse_function_parameters(&mut self) -> (r: Option<Vec<Box<Node>>>)
        requires
            old(self)@.well_formed(),
            old(self)@.cur_token.kind != TokenKind::Eof,
        ensures
            r matches Some(nodes) ==> all_well_formed(Node::models(&nodes)),
            match r {
                Some(nodes) => Some(Node::models(&nodes)),
                None => None,
            } == grammar::parse_function_parameters(old(self)@).nodes,
            final(self)@ == grammar::parse_function_parameters(old(self)@).state,
            final(self)@.well_formed(),
            final(self)@.measure() <= old(self)@.measure(),
    {
        proof {
            reveal(grammar::parse_more_parameters);
        }
        let mut identifiers: Vec<Box<Node>> = Vec::new();
        if self.peek_token_is(TokenKind::RParen) {
            self.next_token();
            assert(Node::models(&identifiers) =~= Seq::empty());
            return Some(identifiers);
        }
        if !self.expect_peek(TokenKind::Ident) {
            return None;
        }
        identifiers.push(self.identifier());
        assert(Node::models(&identifiers) =~= seq![self@.identifier()]);
        let ghost start = self@;
        let ghost first = Node::models(&identifiers);
        while self.peek_token_is(TokenKind::Comma)
            invariant
                self@.well_formed(),
                self@.cur_token.kind != TokenKind::Eof,
                self@.measure() <= old(self)@.measure(),
                all_well_formed(Node::models(&identifiers)),
                grammar::parse_more_parameters(self@, Node::models(&identifiers))
                    == grammar::parse_more_parameters(start, first),
            decreases self@.measure(),
        {
            self.next_token();
            if !self.expect_peek(TokenKind::Ident) {
                return None;
            }
            let ghost before = Node::models(&identifiers);
            let identifier = self.identifier();
            identifiers.push(identifier);
            assert(Node::models(&identifiers) =~= before.push(identifier@));
        }
        if !self.expect_peek(TokenKind::RParen) {
            return None;
        }
        Some(identifiers)
    }

    fn parse_array_literal(&mut self) -> (r: Option<Box<Node>>)
        requires
            old(self)@.well_formed(),
            old(self)@.cur_token.kind != TokenKind::Eof,
        ensures
            r matches Some(n) ==> n@.well_formed(),
            parsed(r, final(self)@) == grammar::parse_array_literal(old(self)@),
            final(self)@.well_formed(),
            final(self)@.measure() <= old(self)@.measure(),
        decreases old(self)@.measure(), 11nat,
    {
        proof {
            reveal(grammar::parse_array_literal);
            reveal(grammar::parse_expression_list);
        }
        let token = self.cur_token.clone();
        let elements = match self.parse_expression_list(TokenKind::RBracket) {
            None => {
                return None;
            },
            Some(l) => l,
        };
        Node::new_array_literal(token, elements)
    }

    #[verifier::loop_isolation(false)]
    fn parse_expression_list(&mut self, end: TokenKind) -> (r: Option<Vec<Box<Node>>>)
        requires
            old(self)@.well_formed(),
            old(self)@.cur_token.kind != TokenKind::Eof,
        ensures
            r matches Some(nodes) ==> all_well_formed(Node::models(&nodes)),
            match r {
                Some(nodes) => Some(Node::models(&nodes)),
                None => None,
            } == grammar::parse_expression_list(old(self)@, end).nodes,
            final(self)@ == grammar::parse_expression_list(old(self)@, end).state,
            final(self)@.well_formed(),
            final(self)@.measure() <= old(self)@.measure(),
            r is Some ==> final(self)@.measure() < old(self)@.measure(),
        decreases old(self)@.measure(), 3nat,
    {
        proof {
            reveal(grammar::parse_expression_list);
            reveal(grammar::parse_more_expressions);
            reveal(grammar::parse_expression);
        }
        let mut list: Vec<Box<Node>> = Vec::new();
        if self.peek_token_is(end) {
            self.next_token();
            assert(Node::models(&list) =~= Seq::empty());
            return Some(list);
        }
        self.next_token();
        let first = match self.parse_expression(Precedence::LOWEST) {
            None => {
                return None;
            },
            Some(e) => e,
        };
        let first = match Node::new_expression(first) {
            None => {
                return None;
            },
            Some(e) => e,
        };
        list.push(first);
        assert(Node::models(&list) =~= seq![first@]);
        let ghost start = self@;
        let ghost head = Node::models(&list);
        while self.peek_token_is(TokenKind::Comma)
            invariant
                self@.well_formed(),
                self@.measure() < old(self)@.measure(),
                all_well_formed(Node::models(&list)),
                grammar::parse_more_expressions(self@, Node::models(&list), end)
                    == grammar::parse_more_expressions(start, head, end),
            decreases self@.measure(),
        {
            self.next_token();
            self.next_token();
            let next = match self.parse_expression(Precedence::LOWEST) {
                None => {
                    return None;
                },
                Some(e) => e,
            };
            let next = match Node::new_expression(next) {
                None => {
                    return None;
                },
                Some(e) => e,
            };
            let ghost before = Node::models(&list);
            list.push(next);
            assert(Node::models(&list) =~= before.push(next@));
        }
        if !self.expect_peek(end) {
            return None;
        }
        Some(list)
    }

    #[verifier::loop_isolation(false)]
    fn parse_hash_literal(&mut self) -> (r: Option<Box<Node>>)
        requires
            old(self)@.well_formed(),
            old(self)@.cur_token.kind != TokenKind::Eof,
        ensures
            r matches Some(n) ==> n@.well_formed(),
            parsed(r, final(self)@) == grammar::parse_hash_literal(old(self)@),
            final(self)@.well_formed(),
            final(self)@.measure() <= old(self)@.measure(),
        decreases old(self)@.measure(), 11nat,
    {
        proof {
            reveal(grammar::parse_hash_literal);
            reveal(grammar::parse_hash_pairs);
            reveal(grammar::parse_expression);
        }
        let token = self.cur_token.clone();
        let mut pairs: Vec<(Box<Node>, Box<Node>)> = Vec::new();
        assert(Node::pair_models(&pairs) =~= Seq::empty());
        loop
            invariant
                self@.well_formed(),
                self@.cur_token.kind != TokenKind::Eof,
                self@.measure() <= old(self)@.measure(),
                forall|i: int|
                    0 <= i < pairs.len() ==> (#[trigger] Node::pair_models(&pairs)[i]).0.well_formed()
                        && Node::pair_models(&pairs)[i].1.well_formed(),
                grammar::parse_hash_pairs(self@, Node::pair_models(&pairs))
                    == grammar::parse_hash_pairs(old(self)@, Seq::empty()),
            decreases self@.measure(),
        {
            if self.peek_token_is(TokenKind::RBrace) {
                self.next_token();
                return Node::new_hash_literal(token, pairs);
            }
            self.next_token();
            let key = match self.parse_expression(Precedence::LOWEST) {
                None => {
                    return None;
                },
                Some(e) => e,
            };
            let key = match Node::new_expression(key) {
                None => {
                    return None;
                },
                Some(e) => e,
            };
            if !self.expect_peek(TokenKind::Colon) {
                return None;
            }
            self.next_token();
            let value = match self.parse_expression(Precedence::LOWEST) {
                None => {
                    return None;
                },
                Some(e) => e,
            };
            let value = match Node::new_expression(value) {
                None => {
                    return None;
                },
                Some(e) => e,
            };
            let ghost before = Node::pair_models(&pairs);
            pairs.push((key, value));
            assert(Node::pair_models(&pairs) =~= before.push((key@, value@)));
            if self.peek_token_is(TokenKind::RBrace) {
                self.next_token();
                return Node::new_hash_literal(token, pairs);
            }
            if !self.expect_peek(TokenKind::Comma) {
                return None;
            }
        }
    }

    fn parse_infix(&mut self, left: Box<Node>) -> (r: Option<Box<Node>>)
        requires
            left@.well_formed(),
            old(self)@.well_formed(),
            has_infix(old(self)@.cur_token.kind),
        ensures
            r matches Some(n) ==> n@.well_formed(),
            parsed(r, final(self)@) == grammar::parse_infix(old(self)@, left@),
            final(self)@.well_formed(),
            final(self)@.measure() <= old(self)@.measure(),
            r is Some ==> final(self)@.measure() < old(self)@.measure(),
        decreases old(self)@.measure(), 8nat,
    {
        proof {
            reveal(grammar::parse_infix);
            reveal(grammar::parse_infix_expression);
            reveal(grammar::parse_call_expression);
            reveal(grammar::parse_index_expression);
        }
        if self.cur_token_is(TokenKind::LParen) {
            self.parse_call_expression(left)
        } else if self.cur_token_is(TokenKind::LBracket) {
            self.parse_index_expression(left)
        } else {
            self.parse_infix_expression(left)
        }
    }

    fn parse_infix_expression(&mut self, left: Box<Node>) -> (r: Option<Box<Node>>)
        requires
            left@.well_formed(),
            old(self)@.well_formed(),
            old(self)@.cur_token.kind != TokenKind::Eof,
        ensures
            r matches Some(n) ==> n@.well_formed(),
            parsed(r, final(self)@) == grammar::parse_infix_expression(old(self)@, left@),
            final(self)@.well_formed(),
            final(self)@.measure() < old(self)@.measure(),
        decreases old(self)@.measure(), 7nat,
    {
        proof {
            reveal(grammar::parse_infix_expression);
            reveal(grammar::parse_expression);
        }
        let token = self.cur_token.clone();
        let operator = self.cur_token.literal();
        let precedence = self.cur_precedence();
        self.next_token();
        let right = match self.parse_expression(precedence) {
            None => {
                return None;
            },
            Some(e) => e,
        };
        Node::new_infix_expression(token, left, operator, right)
    }

    fn parse_call_expression(&mut self, function: Box<Node>) -> (r: Option<Box<Node>>)
        requires
            function@.well_formed(),
            old(self)@.well_formed(),
            old(self)@.cur_token.kind != TokenKind::Eof,
        ensures
            r matches Some(n) ==> n@.well_formed(),
            parsed(r, final(self)@) == grammar::parse_call_expression(old(self)@, function@),
            final(self)@.well_formed(),
            final(self)@.measure() <= old(self)@.measure(),
            r is Some ==> final(self)@.measure() < old(self)@.measure(),
        decreases old(self)@.measure(), 7nat,
    {
        proof {
            reveal(grammar::parse_call_expression);
            reveal(grammar::parse_expression_list);
        }
        let token = self.cur_token.clone();
        let arguments = match self.parse_expression_list(TokenKind::RParen) {
            None => {
                return None;
            },
            Some(l) => l,
        };
        Node::new_call_expression(token, function, arguments)
    }

    fn parse_index_expression(&mut self, left: Box<Node>) -> (r: Option<Box<Node>>)
        requires
            left@.well_formed(),
            old(self)@.well_formed(),
            old(self)@.cur_token.kind != TokenKind::Eof,
        ensures
            r matches Some(n) ==> n@.well_formed(),
            parsed(r, final(self)@) == grammar::parse_index_expression(old(self)@, left@),
            final(self)@.well_formed(),
            final(self)@.measure() < old(self)@.measure(),
        decreases old(self)@.measure(), 7nat,
    {
        proof {
            reveal(grammar::parse_index_expression);
            reveal(grammar::parse_expression);
        }
        let token = self.cur_token.clone();
        self.next_token();
        let index = match self.parse_expression(Precedence::LOWEST) {
            None => {
                return None;
            },
            Some(e) => e,
        };
        if !self.expect_peek(TokenKind::RBracket) {
            return None;
        }
        Node::new_index_expression(token, left, index)
    }
}

} // verus!
