use vstd::prelude::*;

use crate::num::Num;
use crate::span::Span;

verus! {

/// A fault found while scanning the source text.
#[derive(Clone, Copy, PartialEq, Eq, Structural, Debug, Hash)]
pub enum LexError {
    UnexpectedCharacter(char),
    UnterminatedStringLiteral,
}

/// The kind of a token. Text payloads are carried as character vectors;
/// number payloads as `Num` bit patterns.
#[derive(Clone, PartialEq, Eq, Debug, Hash)]
pub enum TokenKind {
    Whitespace,
    Newline,
    Comment,
    NumberLiteral(Num),
    BooleanLiteral(bool),
    StringLiteral(Vec<char>),
    Void,
    Identifier(Vec<char>),
    Let,
    Const,
    Fn,
    If,
    Else,
    For,
    While,
    In,
    Plus,
    Minus,
    Asterisk,
    Slash,
    Percent,
    Caret,
    Ampersand,
    AmpersandAmpersand,
    Pipe,
    PipePipe,
    EqualsEquals,
    Bang,
    BangEquals,
    LessThan,
    LessThanEquals,
    GreaterThan,
    GreaterThanEquals,
    Equals,
    LeftParen,
    RightParen,
    LeftBrace,
    RightBrace,
    LeftBracket,
    RightBracket,
    Comma,
    Dot,
    DotDot,
    Semicolon,
    Error(LexError),
    Eof,
}

/// The mathematical shape of a token kind: text payloads as sequences.
pub enum TokenKindView {
    Whitespace,
    Newline,
    Comment,
    NumberLiteral(Num),
    BooleanLiteral(bool),
    StringLiteral(Seq<char>),
    Void,
    Identifier(Seq<char>),
    Let,
    Const,
    Fn,
    If,
    Else,
    For,
    While,
    In,
    Plus,
    Minus,
    Asterisk,
    Slash,
    Percent,
    Caret,
    Ampersand,
    AmpersandAmpersand,
    Pipe,
    PipePipe,
    EqualsEquals,
    Bang,
    BangEquals,
    LessThan,
    LessThanEquals,
    GreaterThan,
    GreaterThanEquals,
    Equals,
    LeftParen,
    RightParen,
    LeftBrace,
    RightBrace,
    LeftBracket,
    RightBracket,
    Comma,
    Dot,
    DotDot,
    Semicolon,
    Error(LexError),
    Eof,
}

impl View for TokenKind {
    type V = TokenKindView;

    open spec fn view(&self) -> TokenKindView {
        match self {
            TokenKind::Whitespace => TokenKindView::Whitespace,
            TokenKind::Newline => TokenKindView::Newline,
            TokenKind::Comment => TokenKindView::Comment,
            TokenKind::NumberLiteral(n) => TokenKindView::NumberLiteral(*n),
            TokenKind::BooleanLiteral(b) => TokenKindView::BooleanLiteral(*b),
            TokenKind::StringLiteral(s) => TokenKindView::StringLiteral(s@),
            TokenKind::Void => TokenKindView::Void,
            TokenKind::Identifier(s) => TokenKindView::Identifier(s@),
            TokenKind::Let => TokenKindView::Let,
            TokenKind::Const => TokenKindView::Const,
            TokenKind::Fn => TokenKindView::Fn,
            TokenKind::If => TokenKindView::If,
            TokenKind::Else => TokenKindView::Else,
            TokenKind::For => TokenKindView::For,
            TokenKind::While => TokenKindView::While,
            TokenKind::In => TokenKindView::In,
            TokenKind::Plus => TokenKindView::Plus,
            TokenKind::Minus => TokenKindView::Minus,
            TokenKind::Asterisk => TokenKindView::Asterisk,
            TokenKind::Slash => TokenKindView::Slash,
            TokenKind::Percent => TokenKindView::Percent,
            TokenKind::Caret => TokenKindView::Caret,
            TokenKind::Ampersand => TokenKindView::Ampersand,
            TokenKind::AmpersandAmpersand => TokenKindView::AmpersandAmpersand,
            TokenKind::Pipe => TokenKindView::Pipe,
            TokenKind::PipePipe => TokenKindView::PipePipe,
            TokenKind::EqualsEquals => TokenKindView::EqualsEquals,
            TokenKind::Bang => TokenKindView::Bang,
            TokenKind::BangEquals => TokenKindView::BangEquals,
            TokenKind::LessThan => TokenKindView::LessThan,
            TokenKind::LessThanEquals => TokenKindView::LessThanEquals,
            TokenKind::GreaterThan => TokenKindView::GreaterThan,
            TokenKind::GreaterThanEquals => TokenKindView::GreaterThanEquals,
            TokenKind::Equals => TokenKindView::Equals,
            TokenKind::LeftParen => TokenKindView::LeftParen,
            TokenKind::RightParen => TokenKindView::RightParen,
            TokenKind::LeftBrace => TokenKindView::LeftBrace,
            TokenKind::RightBrace => TokenKindView::RightBrace,
            TokenKind::LeftBracket => TokenKindView::LeftBracket,
            TokenKind::RightBracket => TokenKindView::RightBracket,
            TokenKind::Comma => TokenKindView::Comma,
            TokenKind::Dot => TokenKindView::Dot,
            TokenKind::DotDot => TokenKindView::DotDot,
            TokenKind::Semicolon => TokenKindView::Semicolon,
            TokenKind::Error(e) => TokenKindView::Error(*e),
            TokenKind::Eof => TokenKindView::Eof,
        }
    }
}

/// A token: a kind together with the character range it covers.
#[derive(Clone, PartialEq, Eq, Debug)]
pub struct Token {
    pub kind: TokenKind,
    pub span: Span,
}

/// The mathematical shape of a token.
pub struct TokenView {
    pub kind: TokenKindView,
    pub span: Span,
}

impl View for Token {
    type V = TokenView;

    open spec fn view(&self) -> TokenView {
        TokenView { kind: self.kind@, span: self.span }
    }
}

/// Whether a token kind is dropped from the parser feed.
pub open spec fn is_ignored(k: TokenKindView) -> bool {
    k is Whitespace || k is Newline || k is Comment
}

/// The keyword or literal a run of identifier characters stands for, or an
/// identifier when it is none of them.
pub open spec fn from_identifier_view(s: Seq<char>) -> TokenKindView {
    if s == "let"@ {
        TokenKindView::Let
    } else if s == "const"@ {
        TokenKindView::Const
    } else if s == "fn"@ {
        TokenKindView::Fn
    } else if s == "if"@ {
        TokenKindView::If
    } else if s == "else"@ {
        TokenKindView::Else
    } else if s == "for"@ {
        TokenKindView::For
    } else if s == "while"@ {
        TokenKindView::While
    } else if s == "in"@ {
        TokenKindView::In
    } else if s == "true"@ {
        TokenKindView::BooleanLiteral(true)
    } else if s == "false"@ {
        TokenKindView::BooleanLiteral(false)
    } else if s == "void"@ {
        TokenKindView::Void
    } else {
        TokenKindView::Identifier(s)
    }
}

/// Whether two character vectors hold the same text as the given literal.
fn chars_eq_str(v: &Vec<char>, s: &str) -> (r: bool)
    ensures
        r == (v@ == s@),
{
    let n = s.unicode_len();
    if v.len() != n {
        proof {
            assert(v@.len() != s@.len());
        }
        return false;
    }
    let mut i: usize = 0;
    while i < n
        invariant
            i <= n,
            n == s@.len(),
            v@.len() == n,
            forall|j: int| 0 <= j < i ==> v@[j] == s@[j],
        decreases n - i,
    {
        if v[i] != s.get_char(i) {
            proof {
                assert(v@[i as int] != s@[i as int]);
            }
            return false;
        }
        i = i + 1;
    }
    proof {
        assert(v@ =~= s@);
    }
    true
}

impl TokenKind {
    /// Classifies a scanned identifier run: a keyword, a boolean or void
    /// literal, or a plain identifier.
    pub fn from_identifier(identifier: Vec<char>) -> (r: TokenKind)
        ensures
            r@ == from_identifier_view(identifier@),
    {
        if chars_eq_str(&identifier, "let") {
            TokenKind::Let
        } else if chars_eq_str(&identifier, "const") {
            TokenKind::Const
        } else if chars_eq_str(&identifier, "fn") {
            TokenKind::Fn
        } else if chars_eq_str(&identifier, "if") {
            TokenKind::If
        } else if chars_eq_str(&identifier, "else") {
            TokenKind::Else
        } else if chars_eq_str(&identifier, "for") {
            TokenKind::For
        } else if chars_eq_str(&identifier, "while") {
            TokenKind::While
        } else if chars_eq_str(&identifier, "in") {
            TokenKind::In
        } else if chars_eq_str(&identifier, "true") {
            TokenKind::BooleanLiteral(true)
        } else if chars_eq_str(&identifier, "false") {
            TokenKind::BooleanLiteral(false)
        } else if chars_eq_str(&identifier, "void") {
            TokenKind::Void
        } else {
            TokenKind::Identifier(identifier)
        }
    }
}

} // verus!
