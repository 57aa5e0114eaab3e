//! Tokens: the words that the lexer cuts the source text into.

use vstd::prelude::*;
use crate::text::same_text;

verus! {

/// The category of a token, without its text.
#[derive(Debug, PartialEq, Eq, Structural, Clone, Copy, Hash)]
pub enum TokenKind {
    Illegal,
    Eof,
    Ident,
    Int,
    Assign,
    Plus,
    Minus,
    Bang,
    Asterisk,
    Slash,
    LT,
    GT,
    Comma,
    Colon,
    SemiColon,
    LParen,
    RParen,
    LBrace,
    RBrace,
    LBracket,
    RBracket,
    Eq,
    NotEq,
    Function,
    Let,
    True,
    False,
    If,
    Else,
    Return,
    Str,
}

/// A token. An identifier, an integer literal, a string literal and an
/// illegal character carry their text; every other token is fixed.
#[derive(Debug, PartialEq, Eq, Hash)]
pub enum Token {
    Illegal(String),
    Eof,
    Ident(String),
    Int(String),
    Assign,
    Plus,
    Minus,
    Bang,
    Asterisk,
    Slash,
    LT,
    GT,
    Comma,
    Colon,
    SemiColon,
    LParen,
    RParen,
    LBrace,
    RBrace,
    LBracket,
    RBracket,
    Eq,
    NotEq,
    Function,
    Let,
    True,
    False,
    If,
    Else,
    Return,
    Str(String),
}

/// The mathematical value of a token: its kind and, for the four kinds that
/// carry one, its text (empty for the others).
pub struct TokenView {
    pub kind: TokenKind,
    pub text: Seq<char>,
}

impl TokenKind {
    /// Whether tokens of this kind carry a text of their own.
    pub open spec fn has_payload(self) -> bool {
        self == TokenKind::Illegal || self == TokenKind::Ident || self == TokenKind::Int || self
            == TokenKind::Str
    }

    /// How a fixed token is written in source text; `EOF` for the end of the
    /// input, and nothing for a kind that carries its own text.
    pub open spec fn spelling(self) -> Seq<char> {
        match self {
            TokenKind::Illegal => Seq::empty(),
            TokenKind::Eof => "EOF"@,
            TokenKind::Ident => Seq::empty(),
            TokenKind::Int => Seq::empty(),
            TokenKind::Assign => "="@,
            TokenKind::Plus => "+"@,
            TokenKind::Minus => "-"@,
            TokenKind::Bang => "!"@,
            TokenKind::Asterisk => "*"@,
            TokenKind::Slash => "/"@,
            TokenKind::LT => "<"@,
            TokenKind::GT => ">"@,
            TokenKind::Comma => ","@,
            TokenKind::Colon => ":"@,
            TokenKind::SemiColon => ";"@,
            TokenKind::LParen => "("@,
            TokenKind::RParen => ")"@,
            TokenKind::LBrace => "{"@,
            TokenKind::RBrace => "}"@,
            TokenKind::LBracket => "["@,
            TokenKind::RBracket => "]"@,
            TokenKind::Eq => "=="@,
            TokenKind::NotEq => "!="@,
            TokenKind::Function => "fn"@,
            TokenKind::Let => "let"@,
            TokenKind::True => "true"@,
            TokenKind::False => "false"@,
            TokenKind::If => "if"@,
            TokenKind::Else => "else"@,
            TokenKind::Return => "return"@,
            TokenKind::Str => Seq::empty(),
        }
    }

    /// The name of the kind, as error messages show it.
    pub open spec fn name(self) -> Seq<char> {
        match self {
            TokenKind::Illegal => "Illegal"@,
            TokenKind::Eof => "Eof"@,
            TokenKind::Ident => "Ident"@,
            TokenKind::Int => "Int"@,
            TokenKind::Assign => "Assign"@,
            TokenKind::Plus => "Plus"@,
            TokenKind::Minus => "Minus"@,
            TokenKind::Bang => "Bang"@,
            TokenKind::Asterisk => "Asterisk"@,
            TokenKind::Slash => "Slash"@,
            TokenKind::LT => "LT"@,
            TokenKind::GT => "GT"@,
            TokenKind::Comma => "Comma"@,
            TokenKind::Colon => "Colon"@,
            TokenKind::SemiColon => "SemiColon"@,
            TokenKind::LParen => "LParen"@,
            TokenKind::RParen => "RParen"@,
            TokenKind::LBrace => "LBrace"@,
            TokenKind::RBrace => "RBrace"@,
            TokenKind::LBracket => "LBracket"@,
            TokenKind::RBracket => "RBracket"@,
            TokenKind::Eq => "Eq"@,
            TokenKind::NotEq => "NotEq"@,
            TokenKind::Function => "Function"@,
            TokenKind::Let => "Let"@,
            TokenKind::True => "True"@,
            TokenKind::False => "False"@,
            TokenKind::If => "If"@,
            TokenKind::Else => "Else"@,
            TokenKind::Return => "Return"@,
            TokenKind::Str => "Str"@,
        }
    }

    /// The fixed token of this kind; a kind that carries a text gets the empty one.
    pub open spec fn token(self) -> TokenView {
        TokenView { kind: self, text: Seq::empty() }
    }

    /// The source spelling of a fixed kind.
    pub fn spelling_str(self) -> (r: &'static str)
        ensures
            r@ == self.spelling(),
    {
        match self {
            TokenKind::Illegal => {
                proof {
                    reveal_strlit("");
                }
                assert(""@ =~= Seq::<char>::empty());
                ""
            },
            TokenKind::Eof => "EOF",
            TokenKind::Ident => {
                proof {
                    reveal_strlit("");
                }
                assert(""@ =~= Seq::<char>::empty());
                ""
            },
            TokenKind::Int => {
                proof {
                    reveal_strlit("");
                }
                assert(""@ =~= Seq::<char>::empty());
                ""
            },
            TokenKind::Assign => "=",
            TokenKind::Plus => "+",
            TokenKind::Minus => "-",
            TokenKind::Bang => "!",
            TokenKind::Asterisk => "*",
            TokenKind::Slash => "/",
            TokenKind::LT => "<",
            TokenKind::GT => ">",
            TokenKind::Comma => ",",
            TokenKind::Colon => ":",
            TokenKind::SemiColon => ";",
            TokenKind::LParen => "(",
            TokenKind::RParen => ")",
            TokenKind::LBrace => "{",
            TokenKind::RBrace => "}",
            TokenKind::LBracket => "[",
            TokenKind::RBracket => "]",
            TokenKind::Eq => "==",
            TokenKind::NotEq => "!=",
            TokenKind::Function => "fn",
            TokenKind::Let => "let",
            TokenKind::True => "true",
            TokenKind::False => "false",
            TokenKind::If => "if",
            TokenKind::Else => "else",
            TokenKind::Return => "return",
            TokenKind::Str => {
                proof {
                    reveal_strlit("");
                }
                assert(""@ =~= Seq::<char>::empty());
                ""
            },
        }
    }

    /// The name of the kind.
    pub fn name_str(self) -> (r: &'static str)
        ensures
            r@ == self.name(),
    {
        match self {
            TokenKind::Illegal => "Illegal",
            TokenKind::Eof => "Eof",
            TokenKind::Ident => "Ident",
            TokenKind::Int => "Int",
            TokenKind::Assign => "Assign",
            TokenKind::Plus => "Plus",
            TokenKind::Minus => "Minus",
            TokenKind::Bang => "Bang",
            TokenKind::Asterisk => "Asterisk",
            TokenKind::Slash => "Slash",
            TokenKind::LT => "LT",
            TokenKind::GT => "GT",
            TokenKind::Comma => "Comma",
            TokenKind::Colon => "Colon",
            TokenKind::SemiColon => "SemiColon",
            TokenKind::LParen => "LParen",
            TokenKind::RParen => "RParen",
            TokenKind::LBrace => "LBrace",
            TokenKind::RBrace => "RBrace",
            TokenKind::LBracket => "LBracket",
            TokenKind::RBracket => "RBracket",
            TokenKind::Eq => "Eq",
            TokenKind::NotEq => "NotEq",
            TokenKind::Function => "Function",
            TokenKind::Let => "Let",
            TokenKind::True => "True",
            TokenKind::False => "False",
            TokenKind::If => "If",
            TokenKind::Else => "Else",
            TokenKind::Return => "Return",
            TokenKind::Str => "Str",
        }
    }
}

/// The kind that the source spelling `s` stands for, if it is the spelling
/// of an operator, a delimiter or a keyword.
pub open spec fn fixed_kind(s: Seq<char>) -> Option<TokenKind> {
    if s == "="@ {
        Some(TokenKind::Assign)
    } else if s == "+"@ {
        Some(TokenKind::Plus)
    } else if s == "-"@ {
        Some(TokenKind::Minus)
    } else if s == "!"@ {
        Some(TokenKind::Bang)
    } else if s == "*"@ {
        Some(TokenKind::Asterisk)
    } else if s == "/"@ {
        Some(TokenKind::Slash)
    } else if s == "<"@ {
        Some(TokenKind::LT)
    } else if s == ">"@ {
        Some(TokenKind::GT)
    } else if s == ","@ {
        Some(TokenKind::Comma)
    } else if s == ":"@ {
        Some(TokenKind::Colon)
    } else if s == ";"@ {
        Some(TokenKind::SemiColon)
    } else if s == "("@ {
        Some(TokenKind::LParen)
    } else if s == ")"@ {
        Some(TokenKind::RParen)
    } else if s == "{"@ {
        Some(TokenKind::LBrace)
    } else if s == "}"@ {
        Some(TokenKind::RBrace)
    } else if s == "["@ {
        Some(TokenKind::LBracket)
    } else if s == "]"@ {
        Some(TokenKind::RBracket)
    } else if s == "=="@ {
        Some(TokenKind::Eq)
    } else if s == "!="@ {
        Some(TokenKind::NotEq)
    } else if s == "fn"@ {
        Some(TokenKind::Function)
    } else if s == "let"@ {
        Some(TokenKind::Let)
    } else if s == "true"@ {
        Some(TokenKind::True)
    } else if s == "false"@ {
        Some(TokenKind::False)
    } else if s == "if"@ {
        Some(TokenKind::If)
    } else if s == "else"@ {
        Some(TokenKind::Else)
    } else if s == "return"@ {
        Some(TokenKind::Return)
    } else {
        None
    }
}

impl View for Token {
    type V = TokenView;

    open spec fn view(&self) -> TokenView {
        match self {
            Token::Illegal(s) => TokenView { kind: TokenKind::Illegal, text: s@ },
            Token::Eof => TokenKind::Eof.token(),
            Token::Ident(s) => TokenView { kind: TokenKind::Ident, text: s@ },
            Token::Int(s) => TokenView { kind: TokenKind::Int, text: s@ },
            Token::Assign => TokenKind::Assign.token(),
            Token::Plus => TokenKind::Plus.token(),
            Token::Minus => TokenKind::Minus.token(),
            Token::Bang => TokenKind::Bang.token(),
            Token::Asterisk => TokenKind::Asterisk.token(),
            Token::Slash => TokenKind::Slash.token(),
            Token::LT => TokenKind::LT.token(),
            Token::GT => TokenKind::GT.token(),
            Token::Comma => TokenKind::Comma.token(),
            Token::Colon => TokenKind::Colon.token(),
            Token::SemiColon => TokenKind::SemiColon.token(),
            Token::LParen => TokenKind::LParen.token(),
            Token::RParen => TokenKind::RParen.token(),
            Token::LBrace => TokenKind::LBrace.token(),
            Token::RBrace => TokenKind::RBrace.token(),
            Token::LBracket => TokenKind::LBracket.token(),
            Token::RBracket => TokenKind::RBracket.token(),
            Token::Eq => TokenKind::Eq.token(),
            Token::NotEq => TokenKind::NotEq.token(),
            Token::Function => TokenKind::Function.token(),
            Token::Let => TokenKind::Let.token(),
            Token::True => TokenKind::True.token(),
            Token::False => TokenKind::False.token(),
            Token::If => TokenKind::If.token(),
            Token::Else => TokenKind::Else.token(),
            Token::Return => TokenKind::Return.token(),
            Token::Str(s) => TokenView { kind: TokenKind::Str, text: s@ },
        }
    }
}

impl TokenView {
    /// The text that the token stands for in the program: its own text where
    /// it carries one, its source spelling otherwise.
    pub open spec fn literal(self) -> Seq<char> {
        if self.kind.has_payload() {
            self.text
        } else {
            self.kind.spelling()
        }
    }

    /// The token as a user reads it: an identifier between double quotes, the
    /// keyword `fn` as `function`, an illegal character as `Illegal(..)`, and
    /// every other token as its literal.
    pub open spec fn display(self) -> Seq<char> {
        match self.kind {
            TokenKind::Ident => "\""@ + self.text + "\""@,
            TokenKind::Illegal => "Illegal("@ + self.text + ")"@,
            TokenKind::Function => "function"@,
            _ => self.literal(),
        }
    }

    /// The token as error messages show it: the name of its kind, followed
    /// for a token with a text by that text, quoted, in round brackets.
    pub open spec fn inspect(self) -> Seq<char> {
        if self.kind.has_payload() {
            self.kind.name() + "(\""@ + self.text + "\")"@
        } else {
            self.kind.name()
        }
    }
}

impl Clone for Token {
    fn clone(&self) -> (r: Self)
        ensures
            r@ == self@,
    {
        match self {
            Token::Illegal(s) => Token::Illegal(s.clone()),
            Token::Eof => Token::Eof,
            Token::Ident(s) => Token::Ident(s.clone()),
            Token::Int(s) => Token::Int(s.clone()),
            Token::Assign => Token::Assign,
            Token::Plus => Token::Plus,
            Token::Minus => Token::Minus,
            Token::Bang => Token::Bang,
            Token::Asterisk => Token::Asterisk,
            Token::Slash => Token::Slash,
            Token::LT => Token::LT,
            Token::GT => Token::GT,
            Token::Comma => Token::Comma,
            Token::Colon => Token::Colon,
            Token::SemiColon => Token::SemiColon,
            Token::LParen => Token::LParen,
            Token::RParen => Token::RParen,
            Token::LBrace => Token::LBrace,
            Token::RBrace => Token::RBrace,
            Token::LBracket => Token::LBracket,
            Token::RBracket => Token::RBracket,
            Token::Eq => Token::Eq,
            Token::NotEq => Token::NotEq,
            Token::Function => Token::Function,
            Token::Let => Token::Let,
            Token::True => Token::True,
            Token::False => Token::False,
            Token::If => Token::If,
            Token::Else => Token::Else,
            Token::Return => Token::Return,
            Token::Str(s) => Token::Str(s.clone()),
        }
    }
}

impl Token {
    /// The kind of the token.
    pub fn kind(&self) -> (r: TokenKind)
        ensures
            r == self@.kind,
    {
        match self {
            Token::Illegal(_) => TokenKind::Illegal,
            Token::Eof => TokenKind::Eof,
            Token::Ident(_) => TokenKind::Ident,
            Token::Int(_) => TokenKind::Int,
            Token::Assign => TokenKind::Assign,
            Token::Plus => TokenKind::Plus,
            Token::Minus => TokenKind::Minus,
            Token::Bang => TokenKind::Bang,
            Token::Asterisk => TokenKind::Asterisk,
            Token::Slash => TokenKind::Slash,
            Token::LT => TokenKind::LT,
            Token::GT => TokenKind::GT,
            Token::Comma => TokenKind::Comma,
            Token::Colon => TokenKind::Colon,
            Token::SemiColon => TokenKind::SemiColon,
            Token::LParen => TokenKind::LParen,
            Token::RParen => TokenKind::RParen,
            Token::LBrace => TokenKind::LBrace,
            Token::RBrace => TokenKind::RBrace,
            Token::LBracket => TokenKind::LBracket,
            Token::RBracket => TokenKind::RBracket,
            Token::Eq => TokenKind::Eq,
            Token::NotEq => TokenKind::NotEq,
            Token::Function => TokenKind::Function,
            Token::Let => TokenKind::Let,
            Token::True => TokenKind::True,
            Token::False => TokenKind::False,
            Token::If => TokenKind::If,
            Token::Else => TokenKind::Else,
            Token::Return => TokenKind::Return,
            Token::Str(_) => TokenKind::Str,
        }
    }

    /// Whether the two tokens are of the same kind, whatever text they carry.
    pub fn is_same(&self, other: &Token) -> (r: bool)
        ensures
            r == (self@.kind == other@.kind),
    {
        self.kind() == other.kind()
    }

    /// The fixed token that is spelled `s`: an operator, a delimiter or a
    /// keyword. Any other text is no fixed token.
    pub fn from_str(s: &str) -> (r: Result<Token, ()>)
        ensures
            match fixed_kind(s@) {
                Some(k) => r is Ok && r->Ok_0@ == k.token(),
                None => r is Err,
            },
    {
        if same_text(s, "=") {
            Ok(Token::Assign)
        } else if same_text(s, "+") {
            Ok(Token::Plus)
        } else if same_text(s, "-") {
            Ok(Token::Minus)
        } else if same_text(s, "!") {
            Ok(Token::Bang)
        } else if same_text(s, "*") {
            Ok(Token::Asterisk)
        } else if same_text(s, "/") {
            Ok(Token::Slash)
        } else if same_text(s, "<") {
            Ok(Token::LT)
        } else if same_text(s, ">") {
            Ok(Token::GT)
        } else if same_text(s, ",") {
            Ok(Token::Comma)
        } else if same_text(s, ":") {
            Ok(Token::Colon)
        } else if same_text(s, ";") {
            Ok(Token::SemiColon)
        } else if same_text(s, "(") {
            Ok(Token::LParen)
        } else if same_text(s, ")") {
            Ok(Token::RParen)
        } else if same_text(s, "{") {
            Ok(Token::LBrace)
        } else if same_text(s, "}") {
            Ok(Token::RBrace)
        } else if same_text(s, "[") {
            Ok(Token::LBracket)
        } else if same_text(s, "]") {
            Ok(Token::RBracket)
        } else if same_text(s, "==") {
            Ok(Token::Eq)
        } else if same_text(s, "!=") {
            Ok(Token::NotEq)
        } else if same_text(s, "fn") {
            Ok(Token::Function)
        } else if same_text(s, "let") {
            Ok(Token::Let)
        } else if same_text(s, "true") {
            Ok(Token::True)
        } else if same_text(s, "false") {
            Ok(Token::False)
        } else if same_text(s, "if") {
            Ok(Token::If)
        } else if same_text(s, "else") {
            Ok(Token::Else)
        } else if same_text(s, "return") {
            Ok(Token::Return)
        } else {
            Err(())
        }
    }

    /// The text that the token stands for in the program.
    pub fn literal(&self) -> (r: String)
        ensures
            r@ == self@.literal(),
    {
        match self {
            Token::Illegal(s) => s.clone(),
            Token::Ident(s) => s.clone(),
            Token::Int(s) => s.clone(),
            Token::Str(s) => s.clone(),
            _ => self.kind().spelling_str().to_owned(),
        }
    }

    /// The token as a user reads it.
    pub fn to_string(&self) -> (r: String)
        ensures
            r@ == self@.display(),
    {
        match self {
            Token::Ident(s) => {
                let mut out = "\"".to_owned();
                out.append(s.as_str());
                out.append("\"");
                out
            },
            Token::Illegal(s) => {
                let mut out = "Illegal(".to_owned();
                out.append(s.as_str());
                out.append(")");
                out
            },
            Token::Function => "function".to_owned(),
            _ => self.literal(),
        }
    }

    /// The token as error messages show it.
    pub fn inspect(&self) -> (r: String)
        ensures
            r@ == self@.inspect(),
    {
        let mut out = self.kind().name_str().to_owned();
        match self {
            Token::Illegal(s) | Token::Ident(s) | Token::Int(s) | Token::Str(s) => {
                out.append("(\"");
                out.append(s.as_str());
                out.append("\")");
            },
            _ => {},
        }
        out
    }
}

} // verus!
