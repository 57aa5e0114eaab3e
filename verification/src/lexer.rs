//! The lexer: a cursor over the source text that hands out one token per call.

use vstd::prelude::*;
use crate::text::{chars_of, string_of_range};
use crate::token::{fixed_kind, Token, TokenKind, TokenView};

verus! {

/// A letter of an identifier: an ASCII letter or `_`.
pub open spec fn is_letter(c: char) -> bool {
    ('a' <= c <= 'z') || ('A' <= c <= 'Z') || c == '_'
}

/// An ASCII decimal digit.
pub open spec fn is_digit(c: char) -> bool {
    '0' <= c <= '9'
}

/// A character with the Unicode property White_Space.
pub open spec fn is_whitespace(c: char) -> bool {
    let u = c as u32;
    (0x09 <= u <= 0x0D) || u == 0x20 || u == 0x85 || u == 0xA0 || u == 0x1680 || (0x2000 <= u
        <= 0x200A) || u == 0x2028 || u == 0x2029 || u == 0x202F || u == 0x205F || u == 0x3000
}

/// The sets of characters that the lexer reads in runs.
#[derive(Debug, PartialEq, Eq, Structural, Clone, Copy)]
pub enum CharClass {
    /// White space between tokens.
    Whitespace,
    /// The letters of an identifier or keyword.
    Letter,
    /// The digits of an integer literal.
    Digit,
    /// What may stand inside a string literal: anything but `"`.
    StringBody,
}

impl CharClass {
    /// Whether `c` belongs to the class.
    pub open spec fn contains(self, c: char) -> bool {
        match self {
            CharClass::Whitespace => is_whitespace(c),
            CharClass::Letter => is_letter(c),
            CharClass::Digit => is_digit(c),
            CharClass::StringBody => c != '"',
        }
    }

    /// Whether `c` belongs to the class.
    pub fn holds(self, c: char) -> (r: bool)
        ensures
            r == self.contains(c),
    {
        match self {
            CharClass::Whitespace => {
                let u: u32 = c as u32;
                (0x09 <= u && u <= 0x0D) || u == 0x20 || u == 0x85 || u == 0xA0 || u == 0x1680 || (
                0x2000 <= u && u <= 0x200A) || u == 0x2028 || u == 0x2029 || u == 0x202F || u
                    == 0x205F || u == 0x3000
            },
            CharClass::Letter => ('a' <= c && c <= 'z') || ('A' <= c && c <= 'Z') || c == '_',
            CharClass::Digit => '0' <= c && c <= '9',
            CharClass::StringBody => c != '"',
        }
    }
}

/// Where the longest run of characters of `class` that starts at `pos` ends:
/// the first index from `pos` on whose character is not in the class, or the
/// length of `s`.
pub open spec fn run_end(s: Seq<char>, pos: int, class: CharClass) -> int
    decreases s.len() - pos,
{
    if 0 <= pos < s.len() && class.contains(s[pos]) {
        run_end(s, pos + 1, class)
    } else {
        pos
    }
}

/// The token of a one-character operator or delimiter other than `=` and `!`.
pub open spec fn symbol_kind(c: char) -> Option<TokenKind> {
    match c {
        '+' => Some(TokenKind::Plus),
        '-' => Some(TokenKind::Minus),
        '*' => Some(TokenKind::Asterisk),
        '/' => Some(TokenKind::Slash),
        '<' => Some(TokenKind::LT),
        '>' => Some(TokenKind::GT),
        ',' => Some(TokenKind::Comma),
        ';' => Some(TokenKind::SemiColon),
        ':' => Some(TokenKind::Colon),
        '(' => Some(TokenKind::LParen),
        ')' => Some(TokenKind::RParen),
        '{' => Some(TokenKind::LBrace),
        '}' => Some(TokenKind::RBrace),
        '[' => Some(TokenKind::LBracket),
        ']' => Some(TokenKind::RBracket),
        _ => None,
    }
}

/// The token that a run of letters stands for: a keyword where it spells
/// one, an identifier otherwise.
pub open spec fn word_token(word: Seq<char>) -> TokenView {
    match fixed_kind(word) {
        Some(k) => k.token(),
        None => TokenView { kind: TokenKind::Ident, text: word },
    }
}

/// The state of a lexer: the source text and the index of the first
/// character that no token has consumed yet.
pub struct LexerView {
    pub input: Seq<char>,
    pub position: nat,
}

impl LexerView {
    /// The cursor lies within the text or just behind it.
    pub open spec fn well_formed(self) -> bool {
        self.position <= self.input.len()
    }

    /// The same text with the cursor at `position`.
    pub open spec fn at(self, position: int) -> LexerView {
        LexerView { input: self.input, position: position as nat }
    }

    /// The character under the cursor, if the text has not ended.
    pub open spec fn current(self) -> Option<char> {
        if self.position < self.input.len() {
            Some(self.input[self.position as int])
        } else {
            None
        }
    }

    /// The character behind the one under the cursor, if there is one.
    pub open spec fn peek(self) -> Option<char> {
        if self.position + 1 < self.input.len() {
            Some(self.input[self.position as int + 1])
        } else {
            None
        }
    }

    /// The state after one character was consumed; at the end of the text
    /// nothing changes.
    pub open spec fn advance(self) -> LexerView {
        if self.position < self.input.len() {
            self.at(self.position as int + 1)
        } else {
            self
        }
    }

    /// The characters of the run of `class` under the cursor.
    pub open spec fn run(self, class: CharClass) -> Seq<char> {
        self.input.subrange(
            self.position as int,
            run_end(self.input, self.position as int, class),
        )
    }

    /// The state after the run of `class` under the cursor was consumed.
    pub open spec fn skip(self, class: CharClass) -> LexerView {
        self.at(run_end(self.input, self.position as int, class))
    }

    /// The next token and the state after it was consumed, white space in
    /// front of it included.
    #[verifier::opaque]
    pub open spec fn token(self) -> (TokenView, LexerView) {
        let start = self.skip(CharClass::Whitespace);
        match start.current() {
            None => (TokenKind::Eof.token(), start),
            Some(c) => {
                if is_letter(c) {
                    (word_token(start.run(CharClass::Letter)), start.skip(CharClass::Letter))
                } else if is_digit(c) {
                    (
                        TokenView { kind: TokenKind::Int, text: start.run(CharClass::Digit) },
                        start.skip(CharClass::Digit),
                    )
                } else if c == '"' {
                    let body = start.advance();
                    (
                        TokenView { kind: TokenKind::Str, text: body.run(CharClass::StringBody) },
                        body.skip(CharClass::StringBody).advance(),
                    )
                } else if c == '=' {
                    if start.peek() == Some('=') {
                        (TokenKind::Eq.token(), start.advance().advance())
                    } else {
                        (TokenKind::Assign.token(), start.advance())
                    }
                } else if c == '!' {
                    if start.peek() == Some('=') {
                        (TokenKind::NotEq.token(), start.advance().advance())
                    } else {
                        (TokenKind::Bang.token(), start.advance())
                    }
                } else {
                    match symbol_kind(c) {
                        Some(k) => (k.token(), start.advance()),
                        None => (
                            TokenView { kind: TokenKind::Illegal, text: seq![c] },
                            start.advance(),
                        ),
                    }
                }
            },
        }
    }

    /// How many characters no token has consumed yet.
    pub open spec fn remaining(self) -> nat {
        (self.input.len() - self.position) as nat
    }
}

/// A run ends between its start and the end of the text.
pub proof fn lemma_run_end_bounds(s: Seq<char>, pos: int, class: CharClass)
    requires
        0 <= pos <= s.len(),
    ensures
        pos <= run_end(s, pos, class) <= s.len(),
    decreases s.len() - pos,
{
    if pos < s.len() && class.contains(s[pos]) {
        lemma_run_end_bounds(s, pos + 1, class);
    }
}

/// Every character of a run is in the class, and the character behind the
/// run, if there is one, is not.
pub proof fn lemma_run_end_maximal(s: Seq<char>, pos: int, class: CharClass)
    requires
        0 <= pos <= s.len(),
    ensures
        forall|i: int| pos <= i < run_end(s, pos, class) ==> class.contains(#[trigger] s[i]),
        run_end(s, pos, class) < s.len() ==> !class.contains(s[run_end(s, pos, class)]),
    decreases s.len() - pos,
{
    if pos < s.len() && class.contains(s[pos]) {
        lemma_run_end_maximal(s, pos + 1, class);
    }
}

/// Lexing never moves the cursor back nor out of the text; a token other
/// than the end of input consumes at least one character; and the end of
/// input is only reported with the cursor at the end of the text, where every
/// later call reports it again.
pub proof fn lemma_token_progress(l: LexerView)
    requires
        l.well_formed(),
    ensures
        l.token().1.well_formed(),
        l.token().1.input == l.input,
        l.position <= l.token().1.position,
        l.token().0.kind != TokenKind::Eof ==> l.position < l.token().1.position,
        l.token().0.kind == TokenKind::Eof ==> l.token().1.position == l.input.len(),
        l.position == l.input.len() ==> l.token() == (TokenKind::Eof.token(), l),
{
    reveal(LexerView::token);
    let s = l.input;
    let p = run_end(s, l.position as int, CharClass::Whitespace);
    lemma_run_end_bounds(s, l.position as int, CharClass::Whitespace);
    if p < s.len() {
        lemma_run_end_bounds(s, p + 1, CharClass::Letter);
        lemma_run_end_bounds(s, p + 1, CharClass::Digit);
        lemma_run_end_bounds(s, p + 1, CharClass::StringBody);
    }
    let start = l.skip(CharClass::Whitespace);
    match start.current() {
        None => {},
        Some(c) => {
            if is_letter(c) {
                match fixed_kind(start.run(CharClass::Letter)) {
                    Some(k) => {},
                    None => {},
                }
            } else if is_digit(c) {
            } else if c == '"' {
            } else if c == '=' {
            } else if c == '!' {
            } else {
                match symbol_kind(c) {
                    Some(k) => {},
                    None => {},
                }
            }
        },
    }
}

/// A cursor over the characters of a source text.
pub struct Lexer {
    input: Vec<char>,
    position: usize,
}

impl View for Lexer {
    type V = LexerView;

    closed spec fn view(&self) -> LexerView {
        LexerView { input: self.input@, position: self.position as nat }
    }
}

impl Lexer {
    /// A lexer at the start of `input`.
    pub fn new(input: String) -> (l: Lexer)
        ensures
            l@.input == input@,
            l@.position == 0,
            l@.well_formed(),
    {
        Lexer { input: chars_of(input.as_str()), position: 0 }
    }

    fn current(&self) -> (r: Option<char>)
        requires
            self@.well_formed(),
        ensures
            r == self@.current(),
    {
        if self.position < self.input.len() {
            Some(self.input[self.position])
        } else {
            None
        }
    }

    fn peek_char(&self) -> (r: Option<char>)
        requires
            self@.well_formed(),
        ensures
            r == self@.peek(),
    {
        if self.position < self.input.len() && self.position + 1 < self.input.len() {
            Some(self.input[self.position + 1])
        } else {
            None
        }
    }

    /// Consumes one character; does nothing at the end of the text.
    pub fn next(&mut self)
        requires
            old(self)@.well_formed(),
        ensures
            final(self)@ == old(self)@.advance(),
            final(self)@.well_formed(),
    {
        if self.position < self.input.len() {
            self.position += 1;
        }
    }

    fn skip_run(&mut self, class: CharClass)
        requires
            old(self)@.well_formed(),
        ensures
            final(self)@ == old(self)@.skip(class),
            final(self)@.well_formed(),
    {
        while self.position < self.input.len() && class.holds(self.input[self.position])
            invariant
                self.input == old(self).input,
                old(self).position <= self.position <= self.input.len(),
                run_end(self.input@, self.position as int, class) == run_end(
                    old(self).input@,
                    old(self).position as int,
                    class,
                ),
            decreases self.input.len() - self.position,
        {
            self.position += 1;
        }
    }

    fn read_run(&mut self, class: CharClass) -> (r: String)
        requires
            old(self)@.well_formed(),
        ensures
            r@ == old(self)@.run(class),
            final(self)@ == old(self)@.skip(class),
            final(self)@.well_formed(),
    {
        let start = self.position;
        proof {
            lemma_run_end_bounds(self.input@, start as int, class);
        }
        self.skip_run(class);
        string_of_range(&self.input, start, self.position)
    }

    fn skip_whitespace(&mut self)
        requires
            old(self)@.well_formed(),
        ensures
            final(self)@ == old(self)@.skip(CharClass::Whitespace),
            final(self)@.well_formed(),
    {
        self.skip_run(CharClass::Whitespace);
    }

    /// Consumes the run of letters under the cursor and returns it.
    pub fn read_identifier(&mut self) -> (r: String)
        requires
            old(self)@.well_formed(),
        ensures
            r@ == old(self)@.run(CharClass::Letter),
            final(self)@ == old(self)@.skip(CharClass::Letter),
            final(self)@.well_formed(),
    {
        self.read_run(CharClass::Letter)
    }

    fn read_number(&mut self) -> (r: String)
        requires
            old(self)@.well_formed(),
        ensures
            r@ == old(self)@.run(CharClass::Digit),
            final(self)@ == old(self)@.skip(CharClass::Digit),
            final(self)@.well_formed(),
    {
        self.read_run(CharClass::Digit)
    }

    fn read_string(&mut self) -> (r: String)
        requires
            old(self)@.well_formed(),
        ensures
            r@ == old(self)@.advance().run(CharClass::StringBody),
            final(self)@ == old(self)@.advance().skip(CharClass::StringBody).advance(),
            final(self)@.well_formed(),
    {
        self.next();
        let body = self.read_run(CharClass::StringBody);
        self.next();
        body
    }

    fn symbol(c: char) -> (r: Option<Token>)
        ensures
            match symbol_kind(c) {
                Some(k) => r is Some && r->Some_0@ == k.token(),
                None => r is None,
            },
    {
        match c {
            '+' => Some(Token::Plus),
            '-' => Some(Token::Minus),
            '*' => Some(Token::Asterisk),
            '/' => Some(Token::Slash),
            '<' => Some(Token::LT),
            '>' => Some(Token::GT),
            ',' => Some(Token::Comma),
            ';' => Some(Token::SemiColon),
            ':' => Some(Token::Colon),
            '(' => Some(Token::LParen),
            ')' => Some(Token::RParen),
            '{' => Some(Token::LBrace),
            '}' => Some(Token::RBrace),
            '[' => Some(Token::LBracket),
            ']' => Some(Token::RBracket),
            _ => None,
        }
    }

    /// Skips white space and consumes the next token. At the end of the text
    /// every call returns `Eof`.
    pub fn token(&mut self) -> (t: Token)
        requires
            old(self)@.well_formed(),
        ensures
            (t@, final(self)@) == old(self)@.token(),
            final(self)@.well_formed(),
    {
        proof {
            reveal(LexerView::token);
            lemma_token_progress(self@);
        }
        self.skip_whitespace();
        let c = match self.current() {
            None => {
                return Token::Eof;
            },
            Some(c) => c,
        };
        if CharClass::Letter.holds(c) {
            let word = self.read_identifier();
            match Token::from_str(word.as_str()) {
                Ok(keyword) => keyword,
                Err(_) => Token::Ident(word),
            }
        } else if CharClass::Digit.holds(c) {
            Token::Int(self.read_number())
        } else if c == '"' {
            Token::Str(self.read_string())
        } else if c == '=' {
            if self.peek_char() == Some('=') {
                self.next();
                self.next();
                Token::Eq
            } else {
                self.next();
                Token::Assign
            }
        } else if c == '!' {
            if self.peek_char() == Some('=') {
                self.next();
                self.next();
                Token::NotEq
            } else {
                self.next();
                Token::Bang
            }
        } else {
            self.next();
            match Lexer::symbol(c) {
                Some(t) => t,
                None => {
                    let mut text = String::new();
                    text.push(c);
                    assert(text@ =~= seq![c]);
                    Token::Illegal(text)
                },
            }
        }
    }
}

} // verus!
