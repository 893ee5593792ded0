use telid::lexer::Lexer;
use telid::num::Num;
use telid::span::Span;
use telid::tokens::{Token, TokenKind};

fn chars(s: &str) -> Vec<char> {
    s.chars().collect()
}

fn tok(kind: TokenKind, start: usize, end: usize) -> Token {
    Token { kind, span: Span { start, end } }
}

fn literals_case() {
    let source = "1 + 2.25";
    let mut lexer = Lexer::new(source);
    let tokens = lexer.lex(true);
    assert_eq!(
        tokens,
        vec![
            tok(TokenKind::NumberLiteral(Num(1.0f64.to_bits())), 0, 1),
            tok(TokenKind::Whitespace, 1, 2),
            tok(TokenKind::Plus, 2, 3),
            tok(TokenKind::Whitespace, 3, 4),
            tok(TokenKind::NumberLiteral(Num(2.25f64.to_bits())), 4, 8),
            tok(TokenKind::Eof, 8, 8),
        ]
    );

    let source = "'This is a string\\nIt can handle newlines (without \\\\n)\nSlash\\'s string literals are cool'";
    let mut lexer = Lexer::new(source);
    let tokens = lexer.lex(true);
    assert_eq!(
        tokens,
        vec![
            tok(
                TokenKind::StringLiteral(chars(
                    "This is a string\nIt can handle newlines (without \\n)\nSlash's string literals are cool"
                )),
                0,
                90
            ),
            tok(TokenKind::Eof, 90, 90),
        ]
    );

    let source = "true false void";
    let mut lexer = Lexer::new(source);
    let tokens = lexer.lex(true);
    assert_eq!(
        tokens,
        vec![
            tok(TokenKind::BooleanLiteral(true), 0, 4),
            tok(TokenKind::Whitespace, 4, 5),
            tok(TokenKind::BooleanLiteral(false), 5, 10),
            tok(TokenKind::Whitespace, 10, 11),
            tok(TokenKind::Void, 11, 15),
            tok(TokenKind::Eof, 15, 15),
        ]
    );
}

fn identifiers_case() {
    let source = "let x letx xletx xlet";
    let mut lexer = Lexer::new(source);
    let tokens = lexer.lex(true);
    assert_eq!(
        tokens,
        vec![
            tok(TokenKind::Let, 0, 3),
            tok(TokenKind::Whitespace, 3, 4),
            tok(TokenKind::Identifier(chars("x")), 4, 5),
            tok(TokenKind::Whitespace, 5, 6),
            tok(TokenKind::Identifier(chars("letx")), 6, 10),
            tok(TokenKind::Whitespace, 10, 11),
            tok(TokenKind::Identifier(chars("xletx")), 11, 16),
            tok(TokenKind::Whitespace, 16, 17),
            tok(TokenKind::Identifier(chars("xlet")), 17, 21),
            tok(TokenKind::Eof, 21, 21),
        ]
    );
}

#[test]
fn test_literals() {
    literals_case();
}

#[test]
fn lexer_test_literals() {
    literals_case();
}

#[test]
fn tests_test_literals() {
    literals_case();
}

#[test]
fn test_identifiers_keywords() {
    identifiers_case();
}

#[test]
fn lexer_test_identifiers_keywords() {
    identifiers_case();
}

#[test]
fn tests_test_identifiers_keywords() {
    identifiers_case();
}

#[test]
fn lexer_total_on_junk() {
    let source = "let @ # 'unterminated";
    let mut lexer = Lexer::new(source);
    let tokens = lexer.lex(true);
    assert!(matches!(tokens.last().unwrap().kind, TokenKind::Eof));
    let mut pos = 0;
    for t in tokens.iter().take(tokens.len() - 1) {
        assert_eq!(t.span.start, pos);
        assert!(t.span.end > t.span.start);
        pos = t.span.end;
    }
    assert_eq!(pos, source.len());
}

#[test]
fn lexer_spans_count_bytes() {
    let source = "'\u{e9}\u{e9}' 1";
    let mut lexer = Lexer::new(source);
    let tokens = lexer.lex(true);
    assert_eq!(
        tokens,
        vec![
            tok(TokenKind::StringLiteral(chars("\u{e9}\u{e9}")), 0, 6),
            tok(TokenKind::Whitespace, 6, 7),
            tok(TokenKind::NumberLiteral(Num(1.0f64.to_bits())), 7, 8),
            tok(TokenKind::Eof, 8, 8),
        ]
    );
}

#[test]
fn lexer_comments_and_operators() {
    let mut lexer = Lexer::new("1 // note\n2 /* block */ <= ..");
    let tokens = lexer.lex(false);
    let kinds: Vec<TokenKind> = tokens.into_iter().map(|t| t.kind).collect();
    assert_eq!(
        kinds,
        vec![
            TokenKind::NumberLiteral(Num(1.0f64.to_bits())),
            TokenKind::NumberLiteral(Num(2.0f64.to_bits())),
            TokenKind::LessThanEquals,
            TokenKind::DotDot,
            TokenKind::Eof,
        ]
    );
}
