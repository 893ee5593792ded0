use vstd::prelude::*;

use std::rc::Rc;

use crate::ast::{
    binop_of_token, is_binop_token, lemma_expr_views_rec, lemma_stmt_views_rec, stmt_view,
    expr_view, stmt_views_rec, expr_views_rec, unop_of_token, BinaryOperator, Expression,
    ExpressionKind, ExpressionKindView, ExpressionView, Identifier, Statement, StatementKind,
    StatementKindView, StatementView, UnaryOperator,
};
use crate::span::Span;
use crate::tokens::{TokenKind, TokenKindView};

verus! {

/// What the parser was looking for at the position it stopped at.
#[derive(Clone, Copy, PartialEq, Eq, Structural, Debug)]
pub enum Expected {
    AnExpression,
    AStatement,
    AnIdentifier,
    Equals,
    RightParen,
    RightBrace,
    RightBracket,
    Comma,
    DotDot,
    In,
    Eof,
}

/// The first failure the parser met: the token range it stopped at, the
/// token found there (nothing when the stream itself ran out), and the
/// forms that would have been accepted.
#[derive(Clone, PartialEq, Eq, Debug)]
pub struct ParseError {
    pub span: Span,
    pub found: Option<TokenKind>,
    pub expected: Vec<Expected>,
}

/// The mathematical shape of a parse error.
pub struct ParseErrorView {
    pub span: Span,
    pub found: Option<TokenKindView>,
    pub expected: Seq<Expected>,
}

impl View for ParseError {
    type V = ParseErrorView;

    open spec fn view(&self) -> ParseErrorView {
        ParseErrorView {
            span: self.span,
            found: match self.found {
                Some(k) => Some(k@),
                None => None,
            },
            expected: self.expected@,
        }
    }
}

/// The kinds of a token vector.
pub open spec fn kinds(toks: Seq<TokenKind>) -> Seq<TokenKindView> {
    toks.map_values(|t: TokenKind| t@)
}

/// The token kind at a position, or nothing past the end.
pub open spec fn peek(toks: Seq<TokenKindView>, pos: nat) -> Option<TokenKindView> {
    if pos < toks.len() {
        Some(toks[pos as int])
    } else {
        None
    }
}

/// The parse error raised at a position.
pub open spec fn perr(toks: Seq<TokenKindView>, pos: nat, expected: Seq<Expected>) -> ParseErrorView {
    ParseErrorView {
        span: Span {
            start: pos as usize,
            end: if pos + 1 <= usize::MAX {
                (pos + 1) as usize
            } else {
                0
            },
        },
        found: peek(toks, pos),
        expected,
    }
}

/// Whether a token can open an expression.
pub open spec fn starts_expr(k: TokenKindView) -> bool {
    ||| is_binop_token(k) && !(k is Ampersand)
    ||| k is Bang
    ||| k is LeftParen
    ||| k is LeftBracket
    ||| k is Identifier
    ||| k is If
    ||| k is For
    ||| k is While
    ||| k is Void
    ||| k is NumberLiteral
    ||| k is StringLiteral
    ||| k is BooleanLiteral
}

/// The identifier text at a position, if an identifier token stands there.
pub open spec fn ident_at(toks: Seq<TokenKindView>, pos: nat) -> Option<Seq<char>> {
    match peek(toks, pos) {
        Some(TokenKindView::Identifier(name)) => Some(name),
        _ => None,
    }
}

/// Whether the next token can open an expression.
pub open spec fn next_starts_expr(toks: Seq<TokenKindView>, pos: nat) -> bool {
    match peek(toks, pos) {
        Some(k) => starts_expr(k),
        None => false,
    }
}

pub open spec fn spec_parse_expr(toks: Seq<TokenKindView>, pos: nat) -> Result<
    (ExpressionView, nat),
    ParseErrorView,
>
    decreases toks.len() - pos, 1nat,
{
    match peek(toks, pos) {
        None => Err(perr(toks, pos, seq![Expected::AnExpression])),
        Some(k) => {
            if k is LeftParen {
                match spec_parse_expr(toks, pos + 1) {
                    Err(e) => Err(e),
                    Ok((inner, p2)) => {
                        if peek(toks, p2) matches Some(TokenKindView::RightParen) {
                            Ok((inner, p2 + 1))
                        } else {
                            Err(perr(toks, p2, seq![Expected::RightParen]))
                        }
                    },
                }
            } else if is_binop_token(k) && !(k is Ampersand) {
                match spec_parse_expr(toks, pos + 1) {
                    Err(e) => Err(e),
                    Ok((left, p2)) => {
                        if next_starts_expr(toks, p2) && p2 > pos && p2 < toks.len() {
                            match spec_parse_expr(toks, p2) {
                                Err(e) => Err(e),
                                Ok((right, p3)) => Ok((
                                    ExpressionView {
                                        kind: ExpressionKindView::Binary {
                                            operator: binop_of_token(k),
                                            left: Box::new(left),
                                            right: Box::new(right),
                                        },
                                        span: Span { start: pos as usize, end: p3 as usize },
                                    },
                                    p3,
                                )),
                            }
                        } else if k is Plus || k is Minus {
                            Ok((
                                ExpressionView {
                                    kind: ExpressionKindView::Unary {
                                        operator: unop_of_token(k),
                                        operand: Box::new(left),
                                    },
                                    span: Span { start: pos as usize, end: p2 as usize },
                                },
                                p2,
                            ))
                        } else {
                            Err(perr(toks, p2, seq![Expected::AnExpression]))
                        }
                    },
                }
            } else if k is Bang {
                match spec_parse_expr(toks, pos + 1) {
                    Err(e) => Err(e),
                    Ok((operand, p2)) => Ok((
                        ExpressionView {
                            kind: ExpressionKindView::Unary {
                                operator: UnaryOperator::Not,
                                operand: Box::new(operand),
                            },
                            span: Span { start: pos as usize, end: p2 as usize },
                        },
                        p2,
                    )),
                }
            } else if k is LeftBracket {
                spec_parse_bracket(toks, pos)
            } else if k is If {
                match spec_parse_expr(toks, pos + 1) {
                    Err(e) => Err(e),
                    Ok((cond, p2)) => if p2 <= pos || p2 > toks.len() {
                        Err(perr(toks, p2, seq![Expected::AStatement]))
                    } else {
                        match spec_parse_stmt(toks, p2) {
                        Err(e) => Err(e),
                        Ok((cons, p3)) => {
                            if peek(toks, p3) matches Some(TokenKindView::Else) && p3 > pos && p3
                                < toks.len() {
                                match spec_parse_stmt(toks, p3 + 1) {
                                    Err(e) => Err(e),
                                    Ok((alt, p4)) => Ok((
                                        ExpressionView {
                                            kind: ExpressionKindView::If {
                                                condition: Box::new(cond),
                                                consequence: Box::new(cons),
                                                alternative: Some(Box::new(alt)),
                                            },
                                            span: Span { start: pos as usize, end: p4 as usize },
                                        },
                                        p4,
                                    )),
                                }
                            } else {
                                Ok((
                                    ExpressionView {
                                        kind: ExpressionKindView::If {
                                            condition: Box::new(cond),
                                            consequence: Box::new(cons),
                                            alternative: None,
                                        },
                                        span: Span { start: pos as usize, end: p3 as usize },
                                    },
                                    p3,
                                ))
                            }
                        },
                    }
                    },
                }
            } else if k is For {
                match ident_at(toks, pos + 1) {
                    Some(variable) => {
                        if peek(toks, pos + 2) matches Some(TokenKindView::In) {
                            match spec_parse_expr(toks, pos + 3) {
                                Err(e) => Err(e),
                                Ok((iter, p2)) => if p2 <= pos || p2 > toks.len() {
                                    Err(perr(toks, p2, seq![Expected::AStatement]))
                                } else {
                                    match spec_parse_stmt(toks, p2) {
                                        Err(e) => Err(e),
                                        Ok((body, p3)) => Ok((
                                            ExpressionView {
                                                kind: ExpressionKindView::For {
                                                    variable: variable,
                                                    iterable: Box::new(iter),
                                                    body: Box::new(body),
                                                },
                                                span: Span {
                                                    start: pos as usize,
                                                    end: p3 as usize,
                                                },
                                            },
                                            p3,
                                        )),
                                    }
                                },
                            }
                        } else {
                            Err(perr(toks, pos + 2, seq![Expected::In]))
                        }
                    },
                    None => Err(perr(toks, pos + 1, seq![Expected::AnIdentifier])),
                }
            } else if k is While {
                match spec_parse_expr(toks, pos + 1) {
                    Err(e) => Err(e),
                    Ok((cond, p2)) => if p2 <= pos || p2 > toks.len() {
                        Err(perr(toks, p2, seq![Expected::AStatement]))
                    } else {
                        match spec_parse_stmt(toks, p2) {
                        Err(e) => Err(e),
                        Ok((body, p3)) => Ok((
                            ExpressionView {
                                kind: ExpressionKindView::While {
                                    condition: Box::new(cond),
                                    body: Box::new(body),
                                },
                                span: Span { start: pos as usize, end: p3 as usize },
                            },
                            p3,
                        )),
                        }
                    },
                }
            } else if k is Void {
                Ok((
                    ExpressionView {
                        kind: ExpressionKindView::Void,
                        span: Span { start: pos as usize, end: (pos + 1) as usize },
                    },
                    pos + 1,
                ))
            } else {
                match k {
                    TokenKindView::Identifier(name) => {
                        if peek(toks, pos + 1) matches Some(TokenKindView::LeftParen) {
                            if peek(toks, pos + 2) matches Some(TokenKindView::RightParen) {
                                Ok((
                                    ExpressionView {
                                        kind: ExpressionKindView::FunctionCall {
                                            name: name,
                                            arguments: Seq::empty(),
                                        },
                                        span: Span { start: pos as usize, end: (pos + 3) as usize },
                                    },
                                    pos + 3,
                                ))
                            } else {
                                match spec_parse_exprs_until(toks, pos + 2, false) {
                                    Err(e) => Err(e),
                                    Ok((args, p2)) => Ok((
                                        ExpressionView {
                                            kind: ExpressionKindView::FunctionCall {
                                                name: name,
                                                arguments: args,
                                            },
                                            span: Span { start: pos as usize, end: p2 as usize },
                                        },
                                        p2,
                                    )),
                                }
                            }
                        } else {
                            Ok((
                                ExpressionView {
                                    kind: ExpressionKindView::Identifier(name),
                                    span: Span { start: pos as usize, end: (pos + 1) as usize },
                                },
                                pos + 1,
                            ))
                        }
                    },
                    TokenKindView::NumberLiteral(n) => Ok((
                        ExpressionView {
                            kind: ExpressionKindView::NumberLiteral(n),
                            span: Span { start: pos as usize, end: (pos + 1) as usize },
                        },
                        pos + 1,
                    )),
                    TokenKindView::StringLiteral(text) => Ok((
                        ExpressionView {
                            kind: ExpressionKindView::StringLiteral(text),
                            span: Span { start: pos as usize, end: (pos + 1) as usize },
                        },
                        pos + 1,
                    )),
                    TokenKindView::BooleanLiteral(b) => Ok((
                        ExpressionView {
                            kind: ExpressionKindView::BooleanLiteral(b),
                            span: Span { start: pos as usize, end: (pos + 1) as usize },
                        },
                        pos + 1,
                    )),
                    _ => Err(perr(toks, pos, seq![Expected::AnExpression])),
                }
            }
        },
    }
}

/// The bracketed forms: an index, a slice, or an array literal, each
/// opening with `[` at `pos`.
pub open spec fn spec_parse_bracket(toks: Seq<TokenKindView>, pos: nat) -> Result<
    (ExpressionView, nat),
    ParseErrorView,
>
    decreases toks.len() - pos, 0nat,
{
    if pos < toks.len() && peek(toks, pos + 1) matches Some(TokenKindView::DotDot) {
        spec_parse_slice_tail(toks, pos, None, pos + 1)
    } else if peek(toks, pos + 1) matches Some(TokenKindView::RightBracket) {
        Ok((
            ExpressionView {
                kind: ExpressionKindView::ArrayLiteral(Seq::empty()),
                span: Span { start: pos as usize, end: (pos + 2) as usize },
            },
            pos + 2,
        ))
    } else if pos + 1 >= toks.len() {
        Err(perr(toks, pos + 1, seq![Expected::AnExpression]))
    } else {
        match spec_parse_expr(toks, pos + 1) {
            Err(e) => Err(e),
            Ok((first, p2)) => {
                if peek(toks, p2) matches Some(TokenKindView::RightBracket) {
                    if next_starts_expr(toks, p2 + 1) && p2 > pos && p2 + 1 < toks.len() {
                        match spec_parse_expr(toks, p2 + 1) {
                            Err(e) => Err(e),
                            Ok((iter, p3)) => Ok((
                                ExpressionView {
                                    kind: ExpressionKindView::Index {
                                        iterable: Box::new(iter),
                                        index: Box::new(first),
                                    },
                                    span: Span { start: pos as usize, end: p3 as usize },
                                },
                                p3,
                            )),
                        }
                    } else {
                        Ok((
                            ExpressionView {
                                kind: ExpressionKindView::ArrayLiteral(seq![first]),
                                span: Span { start: pos as usize, end: (p2 + 1) as usize },
                            },
                            p2 + 1,
                        ))
                    }
                } else if peek(toks, p2) matches Some(TokenKindView::DotDot) && p2 > pos && p2
                    < toks.len() {
                    spec_parse_slice_tail(toks, pos, Some(first), p2)
                } else if peek(toks, p2) matches Some(TokenKindView::Comma) && p2 > pos && p2
                    < toks.len() {
                    match spec_parse_exprs_until(toks, p2 + 1, true) {
                        Err(e) => Err(e),
                        Ok((rest, p3)) => Ok((
                            ExpressionView {
                                kind: ExpressionKindView::ArrayLiteral(seq![first] + rest),
                                span: Span { start: pos as usize, end: p3 as usize },
                            },
                            p3,
                        )),
                    }
                } else {
                    Err(
                        perr(
                            toks,
                            p2,
                            seq![Expected::RightBracket, Expected::DotDot, Expected::Comma],
                        ),
                    )
                }
            },
        }
    }
}

/// The rest of a slice after its optional start: `..` stands at `dotpos`,
/// and the whole form opened with `[` at `open`.
pub open spec fn spec_parse_slice_tail(
    toks: Seq<TokenKindView>,
    open: nat,
    start: Option<ExpressionView>,
    dotpos: nat,
) -> Result<(ExpressionView, nat), ParseErrorView>
    recommends
        open < dotpos,
    decreases toks.len() - dotpos, 0nat,
{
    let after_end: Result<(Option<ExpressionView>, nat), ParseErrorView> = if dotpos
        >= toks.len() {
        Err(perr(toks, dotpos, seq![Expected::AnExpression]))
    } else if peek(toks, dotpos + 1)
        matches Some(TokenKindView::RightBracket) {
        Ok((None, dotpos + 1))
    } else {
        match spec_parse_expr(toks, dotpos + 1) {
            Err(e) => Err(e),
            Ok((end_e, p2)) => {
                if peek(toks, p2) matches Some(TokenKindView::RightBracket) {
                    Ok((Some(end_e), p2))
                } else {
                    Err(perr(toks, p2, seq![Expected::RightBracket]))
                }
            },
        }
    };
    match after_end {
        Err(e) => Err(e),
        Ok((end_e, rb)) => {
            if rb < dotpos || rb >= toks.len() || dotpos >= toks.len() {
                Err(perr(toks, rb, seq![Expected::AnExpression]))
            } else {
            match spec_parse_expr(toks, rb + 1) {
                Err(e) => Err(e),
                Ok((iter, p3)) => Ok((
                    ExpressionView {
                        kind: ExpressionKindView::Slice {
                            start: match start {
                                Some(s) => Some(Box::new(s)),
                                None => None,
                            },
                            end: match end_e {
                                Some(e) => Some(Box::new(e)),
                                None => None,
                            },
                            iterable: Box::new(iter),
                        },
                        span: Span { start: open as usize, end: p3 as usize },
                    },
                    p3,
                )),
            }
            }
        },
    }
}

/// A comma-separated run of expressions closed by `]` (when `bracket`) or
/// `)`; the position after the closing token is returned.
pub open spec fn spec_parse_exprs_until(toks: Seq<TokenKindView>, pos: nat, bracket: bool) -> Result<
    (Seq<ExpressionView>, nat),
    ParseErrorView,
>
    decreases toks.len() - pos, 2nat,
{
    match spec_parse_expr(toks, pos) {
        Err(e) => Err(e),
        Ok((first, p2)) => {
            if peek(toks, p2) matches Some(TokenKindView::Comma) && p2 > pos && p2 < toks.len()
                && pos < toks.len() {
                match spec_parse_exprs_until(toks, p2 + 1, bracket) {
                    Err(e) => Err(e),
                    Ok((rest, p3)) => Ok((seq![first] + rest, p3)),
                }
            } else if bracket && peek(toks, p2) matches Some(TokenKindView::RightBracket) {
                Ok((seq![first], p2 + 1))
            } else if !bracket && peek(toks, p2) matches Some(TokenKindView::RightParen) {
                Ok((seq![first], p2 + 1))
            } else {
                Err(
                    perr(
                        toks,
                        p2,
                        seq![
                            Expected::Comma,
                            if bracket {
                                Expected::RightBracket
                            } else {
                                Expected::RightParen
                            },
                        ],
                    ),
                )
            }
        },
    }
}

/// A run of parameter names: identifiers up to the first token of another
/// kind.
pub open spec fn spec_parse_params(toks: Seq<TokenKindView>, pos: nat) -> (Seq<Seq<char>>, nat)
    decreases toks.len() - pos,
{
    match ident_at(toks, pos) {
        Some(name) => {
            let (rest, p2) = spec_parse_params(toks, pos + 1);
            (seq![name] + rest, p2)
        },
        None => (Seq::empty(), pos),
    }
}

/// A statement before its optional trailing semicolon.
pub open spec fn spec_parse_stmt_base(toks: Seq<TokenKindView>, pos: nat) -> Result<
    (StatementView, nat),
    ParseErrorView,
>
    decreases toks.len() - pos, 2nat,
{
    match peek(toks, pos) {
        None => Err(perr(toks, pos, seq![Expected::AStatement])),
        Some(k) => {
            if k is LeftBrace {
                match spec_parse_block_items(toks, pos + 1) {
                    Err(e) => Err(e),
                    Ok((stmts, p2)) => Ok((
                        StatementView {
                            kind: StatementKindView::Block(stmts),
                            span: Span { start: pos as usize, end: p2 as usize },
                        },
                        p2,
                    )),
                }
            } else if k is Let {
                if peek(toks, pos + 1) matches Some(TokenKindView::Const) {
                    match ident_at(toks, pos + 2) {
                    Some(name) => {
                        if peek(toks, pos + 3) matches Some(TokenKindView::Equals) {
                            match spec_parse_expr(toks, pos + 4) {
                                Err(e) => Err(e),
                                Ok((value, p2)) => Ok((
                                    StatementView {
                                        kind: StatementKindView::Let {
                                            name: name,
                                            value: value,
                                            constant: true,
                                        },
                                        span: Span { start: pos as usize, end: p2 as usize },
                                    },
                                    p2,
                                )),
                            }
                        } else {
                            Err(perr(toks, pos + 3, seq![Expected::Equals]))
                        }
                    },
                    None => Err(perr(toks, pos + 2, seq![Expected::AnIdentifier])),
                    }
                } else if peek(toks, pos + 1) matches Some(TokenKindView::Fn) {
                    match ident_at(toks, pos + 2) {
                    Some(name) => {
                        let (params, p2) = spec_parse_params(toks, pos + 3);
                        if peek(toks, p2) matches Some(TokenKindView::Equals) && p2 > pos && p2
                            < toks.len() {
                            match spec_parse_stmt(toks, p2 + 1) {
                                Err(e) => Err(e),
                                Ok((body, p3)) => Ok((
                                    StatementView {
                                        kind: StatementKindView::FunctionDeclaration {
                                            name: name,
                                            parameters: params,
                                            body: Box::new(body),
                                        },
                                        span: Span { start: pos as usize, end: p3 as usize },
                                    },
                                    p3,
                                )),
                            }
                        } else {
                            Err(perr(toks, p2, seq![Expected::AnIdentifier, Expected::Equals]))
                        }
                    },
                    None => Err(perr(toks, pos + 2, seq![Expected::AnIdentifier])),
                    }
                } else {
                    match ident_at(toks, pos + 1) {
                    Some(name) => {
                    if peek(toks, pos + 2) matches Some(TokenKindView::Equals) {
                        match spec_parse_expr(toks, pos + 3) {
                            Err(e) => Err(e),
                            Ok((value, p2)) => Ok((
                                StatementView {
                                    kind: StatementKindView::Let {
                                        name: name,
                                        value: value,
                                        constant: false,
                                    },
                                    span: Span { start: pos as usize, end: p2 as usize },
                                },
                                p2,
                            )),
                        }
                    } else {
                        Err(perr(toks, pos + 2, seq![Expected::Equals]))
                    }
                    },
                    None => Err(perr(toks, pos + 1, seq![Expected::AnIdentifier])),
                    }
                }
            } else if k is Identifier && peek(toks, pos + 1) matches Some(
                TokenKindView::Equals,
            ) {
                match ident_at(toks, pos) {
                    Some(name) => match spec_parse_expr(toks, pos + 2) {
                        Err(e) => Err(e),
                        Ok((value, p2)) => Ok((
                            StatementView {
                                kind: StatementKindView::Assignment { name: name, value: value },
                                span: Span { start: pos as usize, end: p2 as usize },
                            },
                            p2,
                        )),
                    },
                    None => Err(perr(toks, pos, seq![Expected::AnIdentifier])),
                }
            } else {
                match spec_parse_expr(toks, pos) {
                    Err(e) => Err(e),
                    Ok((e, p2)) => Ok((
                        StatementView {
                            kind: StatementKindView::Expression(e),
                            span: e.span,
                        },
                        p2,
                    )),
                }
            }
        },
    }
}

pub open spec fn spec_parse_stmt(toks: Seq<TokenKindView>, pos: nat) -> Result<
    (StatementView, nat),
    ParseErrorView,
>
    decreases toks.len() - pos, 3nat,
{
    match spec_parse_stmt_base(toks, pos) {
        Err(e) => Err(e),
        Ok((s, p2)) => {
            if peek(toks, p2) matches Some(TokenKindView::Semicolon) {
                Ok((s, p2 + 1))
            } else {
                Ok((s, p2))
            }
        },
    }
}

/// The statements of a block, closed by `}`; the position after the
/// closing brace is returned.
pub open spec fn spec_parse_block_items(toks: Seq<TokenKindView>, pos: nat) -> Result<
    (Seq<StatementView>, nat),
    ParseErrorView,
>
    decreases toks.len() - pos, 4nat,
{
    if peek(toks, pos) matches Some(TokenKindView::RightBrace) {
        Ok((Seq::empty(), pos + 1))
    } else if peek(toks, pos) is None {
        Err(perr(toks, pos, seq![Expected::AStatement, Expected::RightBrace]))
    } else {
        match spec_parse_stmt(toks, pos) {
            Err(e) => Err(e),
            Ok((s, p2)) => {
                if p2 > pos && p2 <= toks.len() {
                    match spec_parse_block_items(toks, p2) {
                        Err(e) => Err(e),
                        Ok((rest, p3)) => Ok((seq![s] + rest, p3)),
                    }
                } else {
                    Err(perr(toks, pos, seq![Expected::AStatement, Expected::RightBrace]))
                }
            },
        }
    }
}

/// A whole program: statements up to the end-of-input token, which is
/// consumed.
pub open spec fn spec_parse_program(toks: Seq<TokenKindView>, pos: nat) -> Result<
    (Seq<StatementView>, nat),
    ParseErrorView,
>
    decreases toks.len() - pos, 5nat,
{
    if peek(toks, pos) matches Some(TokenKindView::Eof) {
        Ok((Seq::empty(), pos + 1))
    } else if peek(toks, pos) is None {
        Err(perr(toks, pos, seq![Expected::AStatement, Expected::Eof]))
    } else {
        match spec_parse_stmt(toks, pos) {
            Err(e) => Err(e),
            Ok((s, p2)) => {
                if p2 > pos && p2 <= toks.len() {
                    match spec_parse_program(toks, p2) {
                        Err(e) => Err(e),
                        Ok((rest, p3)) => Ok((seq![s] + rest, p3)),
                    }
                } else {
                    Err(perr(toks, pos, seq![Expected::AStatement, Expected::Eof]))
                }
            },
        }
    }
}

/// A run of parameter names never moves backwards and stays within the
/// stream.
pub proof fn lemma_params_progress(toks: Seq<TokenKindView>, pos: nat)
    requires
        pos <= toks.len(),
    ensures
        pos <= spec_parse_params(toks, pos).1 <= toks.len(),
    decreases toks.len() - pos,
{
    if ident_at(toks, pos) is Some {
        lemma_params_progress(toks, pos + 1);
    }
}

/// Every successful expression parse consumes at least one token and ends
/// within the stream.
pub proof fn lemma_expr_progress(toks: Seq<TokenKindView>, pos: nat)
    ensures
        spec_parse_expr(toks, pos) matches Ok((e, p2)) ==> pos < p2 <= toks.len(),
    decreases toks.len() - pos, 1nat,
{
    if peek(toks, pos) is Some {
        lemma_expr_progress(toks, pos + 1);
        lemma_bracket_progress(toks, pos);
        if pos + 2 <= toks.len() {
            lemma_exprs_until_progress(toks, pos + 2, false);
        }
        if pos + 3 <= toks.len() {
            lemma_expr_progress(toks, pos + 3);
        }
        match spec_parse_expr(toks, pos + 1) {
            Ok((l, p2)) => {
                if p2 > pos && p2 < toks.len() {
                    lemma_expr_progress(toks, p2);
                }
                if p2 > pos && p2 <= toks.len() {
                    lemma_stmt_progress(toks, p2);
                    match spec_parse_stmt(toks, p2) {
                        Ok((s1, p3)) => {
                            if p3 > pos && p3 < toks.len() {
                                lemma_stmt_progress(toks, p3 + 1);
                            }
                        },
                        Err(_) => {
                        },
                    }
                }
            },
            Err(_) => {
            },
        }
        match spec_parse_expr(toks, pos + 3) {
            Ok((it, p2)) => {
                if p2 > pos && p2 <= toks.len() {
                    lemma_stmt_progress(toks, p2);
                }
            },
            Err(_) => {
            },
        }
    }
}

/// Every successful bracketed parse consumes at least one token and ends
/// within the stream.
pub proof fn lemma_bracket_progress(toks: Seq<TokenKindView>, pos: nat)
    ensures
        spec_parse_bracket(toks, pos) matches Ok((e, p2)) ==> pos < p2 <= toks.len(),
    decreases toks.len() - pos, 0nat,
{
    if pos < toks.len() {
        lemma_slice_tail_progress(toks, pos, None, pos + 1);
    }
    if pos + 1 < toks.len() {
        lemma_expr_progress(toks, pos + 1);
        match spec_parse_expr(toks, pos + 1) {
            Ok((first, p2)) => {
                if p2 > pos && p2 + 1 < toks.len() {
                    lemma_expr_progress(toks, p2 + 1);
                }
                if p2 > pos && p2 < toks.len() {
                    lemma_slice_tail_progress(toks, pos, Some(first), p2);
                    lemma_exprs_until_progress(toks, p2 + 1, true);
                }
            },
            Err(_) => {
            },
        }
    }
}

/// Every successful slice tail ends past the `..` and within the stream.
#[verifier::rlimit(100)]
pub proof fn lemma_slice_tail_progress(
    toks: Seq<TokenKindView>,
    open: nat,
    start: Option<ExpressionView>,
    dotpos: nat,
)
    ensures
        spec_parse_slice_tail(toks, open, start, dotpos) matches Ok((e, p2)) ==> dotpos < p2
            <= toks.len(),
    decreases toks.len() - dotpos, 0nat,
{
    if dotpos < toks.len() {
        if peek(toks, dotpos + 1) matches Some(TokenKindView::RightBracket) {
            if dotpos + 2 <= toks.len() {
                lemma_expr_progress(toks, dotpos + 2);
            }
        } else {
            lemma_expr_progress(toks, dotpos + 1);
            match spec_parse_expr(toks, dotpos + 1) {
                Ok((e2, p2)) => {
                    if p2 + 1 <= toks.len() {
                        lemma_expr_progress(toks, p2 + 1);
                    }
                },
                Err(_) => {
                },
            }
        }
    }
}

/// Every successful expression row consumes at least one token and ends
/// within the stream.
pub proof fn lemma_exprs_until_progress(toks: Seq<TokenKindView>, pos: nat, bracket: bool)
    ensures
        spec_parse_exprs_until(toks, pos, bracket) matches Ok((es, p2)) ==> pos < p2 <= toks.len(),
    decreases toks.len() - pos, 2nat,
{
    lemma_expr_progress(toks, pos);
    match spec_parse_expr(toks, pos) {
        Ok((first, p2)) => {
            if p2 > pos && p2 < toks.len() && pos < toks.len() {
                lemma_exprs_until_progress(toks, p2 + 1, bracket);
            }
        },
        Err(_) => {
        },
    }
}

/// Every successful statement parse, before its optional semicolon,
/// consumes at least one token and ends within the stream.
pub proof fn lemma_stmt_base_progress(toks: Seq<TokenKindView>, pos: nat)
    ensures
        spec_parse_stmt_base(toks, pos) matches Ok((s, p2)) ==> pos < p2 <= toks.len(),
    decreases toks.len() - pos, 2nat,
{
    if peek(toks, pos) is Some {
        lemma_expr_progress(toks, pos);
        lemma_block_items_progress(toks, pos + 1);
        if pos + 2 <= toks.len() {
            lemma_expr_progress(toks, pos + 2);
        }
        if pos + 3 <= toks.len() {
            lemma_expr_progress(toks, pos + 3);
            lemma_params_progress(toks, pos + 3);
            let (params, p2) = spec_parse_params(toks, pos + 3);
            if p2 > pos && p2 < toks.len() {
                lemma_stmt_progress(toks, p2 + 1);
            }
        }
        if pos + 4 <= toks.len() {
            lemma_expr_progress(toks, pos + 4);
        }
    }
}

/// Every successful statement parse consumes at least one token and ends
/// within the stream.
pub proof fn lemma_stmt_progress(toks: Seq<TokenKindView>, pos: nat)
    ensures
        spec_parse_stmt(toks, pos) matches Ok((s, p2)) ==> pos < p2 <= toks.len(),
    decreases toks.len() - pos, 3nat,
{
    lemma_stmt_base_progress(toks, pos);
}

/// Every successful block body consumes at least one token and ends
/// within the stream.
pub proof fn lemma_block_items_progress(toks: Seq<TokenKindView>, pos: nat)
    ensures
        spec_parse_block_items(toks, pos) matches Ok((ss, p2)) ==> pos < p2 <= toks.len(),
    decreases toks.len() - pos, 4nat,
{
    if !(peek(toks, pos) is None) {
        lemma_stmt_progress(toks, pos);
        match spec_parse_stmt(toks, pos) {
            Ok((s, p2)) => {
                if p2 > pos && p2 <= toks.len() {
                    lemma_block_items_progress(toks, p2);
                }
            },
            Err(_) => {
            },
        }
    }
}

/// The parser never fails to make progress: a successful parse of a whole
/// program consumes at least one token, ends within the stream, and its
/// guard branches against a standstill never fire. Together with
/// `parse_program`'s contract, which ties the result exactly to
/// `spec_parse_program` — the written-out grammar — this is the
/// terminating-consumption half of parser totality on grammatical input.
pub proof fn lemma_program_progress(toks: Seq<TokenKindView>, pos: nat)
    ensures
        spec_parse_program(toks, pos) matches Ok((ss, p2)) ==> pos < p2 <= toks.len(),
    decreases toks.len() - pos, 5nat,
{
    if !(peek(toks, pos) is None) {
        lemma_stmt_progress(toks, pos);
        match spec_parse_stmt(toks, pos) {
            Ok((s, p2)) => {
                if p2 > pos && p2 <= toks.len() {
                    lemma_program_progress(toks, p2);
                }
            },
            Err(_) => {
            },
        }
    }
}

/// The view of each character vector of a sequence of identifiers.
pub open spec fn ident_views(v: Seq<Identifier>) -> Seq<Seq<char>> {
    Seq::new(v.len(), |i: int| v[i]@)
}

/// Prepending an expression prepends its view.
proof fn lemma_views_insert_front(es: Seq<Expression>, rest: Seq<Expression>, first: Expression)
    requires
        es == rest.insert(0, first),
    ensures
        expr_views_rec(es) == seq![expr_view(first)] + expr_views_rec(rest),
{
    lemma_expr_views_rec(es);
    lemma_expr_views_rec(rest);
    assert(expr_views_rec(es) =~= seq![expr_view(first)] + expr_views_rec(rest));
}

/// Prepending a statement prepends its view.
proof fn lemma_stmt_views_insert_front(ss: Seq<Statement>, rest: Seq<Statement>, first: Statement)
    requires
        ss == rest.insert(0, first),
    ensures
        stmt_views_rec(ss) == seq![stmt_view(first)] + stmt_views_rec(rest),
{
    lemma_stmt_views_rec(ss);
    lemma_stmt_views_rec(rest);
    assert(stmt_views_rec(ss) =~= seq![stmt_view(first)] + stmt_views_rec(rest));
}

fn clone_chars(v: &Vec<char>) -> (r: Vec<char>)
    ensures
        r@ == v@,
{
    let mut out: Vec<char> = Vec::new();
    let mut i: usize = 0;
    while i < v.len()
        invariant
            i <= v@.len(),
            out@ == v@.subrange(0, i as int),
        decreases v@.len() - i,
    {
        out.push(v[i]);
        proof {
            assert(out@ =~= v@.subrange(0, i + 1));
        }
        i = i + 1;
    }
    proof {
        assert(out@ =~= v@);
    }
    out
}

/// The token `off` places past `pos`, when the stream reaches that far.
fn peek_at<'a>(toks: &'a Vec<TokenKind>, pos: usize, off: usize) -> (r: Option<&'a TokenKind>)
    ensures
        match r {
            Some(t) => peek(kinds(toks@), pos as nat + off as nat) == Some(t@) && pos + off
                < toks@.len(),
            None => peek(kinds(toks@), pos as nat + off as nat) is None,
        },
{
    if pos < toks.len() && off < toks.len() - pos {
        let t = &toks[pos + off];
        proof {
            assert(kinds(toks@)[pos + off] == toks@[pos + off]@);
        }
        Some(t)
    } else {
        None
    }
}

/// The identifier text `off` places past `pos`, if one stands there.
fn ident_at_exec(toks: &Vec<TokenKind>, pos: usize, off: usize) -> (r: Option<Vec<char>>)
    ensures
        match r {
            Some(v) => ident_at(kinds(toks@), pos as nat + off as nat) == Some(v@) && pos + off
                < toks@.len(),
            None => ident_at(kinds(toks@), pos as nat + off as nat) is None,
        },
{
    match peek_at(toks, pos, off) {
        Some(TokenKind::Identifier(name)) => Some(clone_chars(name)),
        _ => None,
    }
}

#[verifier::rlimit(100)]
pub fn parse_expr(toks: &Vec<TokenKind>, pos: usize) -> (r: Result<(Expression, usize), ParseError>)
    ensures
        r matches Ok((e, p2)) ==> spec_parse_expr(kinds(toks@), pos as nat) == Ok::<
            (ExpressionView, nat),
            ParseErrorView,
        >((expr_view(e), p2 as nat)) && p2 <= toks@.len(),
        r matches Err(pe) ==> spec_parse_expr(kinds(toks@), pos as nat) == Err::<
            (ExpressionView, nat),
            ParseErrorView,
        >(pe@),
    decreases toks@.len() - pos, 1nat,
{
    let _n: usize = toks.len();
    let ghost tv = kinds(toks@);
    match peek_at(toks, pos, 0) {
        None => Err(mk_err(toks, pos, exp1(Expected::AnExpression))),
        Some(t0) => {
            match t0 {
                TokenKind::LeftParen => {
                    match parse_expr(toks, pos + 1) {
                        Err(e) => Err(e),
                        Ok((inner, p2)) => {
                            if matches!(peek_at(toks, p2, 0), Some(TokenKind::RightParen)) {
                                Ok((inner, p2 + 1))
                            } else {
                                Err(mk_err(toks, p2, exp1(Expected::RightParen)))
                            }
                        },
                    }
                },
                TokenKind::Bang => {
                    match parse_expr(toks, pos + 1) {
                        Err(e) => Err(e),
                        Ok((operand, p2)) => Ok((
                            Expression {
                                kind: ExpressionKind::Unary {
                                    operator: UnaryOperator::Not,
                                    operand: Box::new(operand),
                                },
                                span: Span { start: pos, end: p2 },
                            },
                            p2,
                        )),
                    }
                },
                TokenKind::LeftBracket => parse_bracket(toks, pos),
                TokenKind::If => parse_if_expr(toks, pos),
                TokenKind::For => parse_for_expr(toks, pos),
                TokenKind::While => parse_while_expr(toks, pos),
                TokenKind::Void => Ok((
                    Expression {
                        kind: ExpressionKind::Void,
                        span: Span { start: pos, end: pos + 1 },
                    },
                    pos + 1,
                )),
                TokenKind::NumberLiteral(n) => Ok((
                    Expression {
                        kind: ExpressionKind::NumberLiteral(*n),
                        span: Span { start: pos, end: pos + 1 },
                    },
                    pos + 1,
                )),
                TokenKind::StringLiteral(text) => Ok((
                    Expression {
                        kind: ExpressionKind::StringLiteral(clone_chars(text)),
                        span: Span { start: pos, end: pos + 1 },
                    },
                    pos + 1,
                )),
                TokenKind::BooleanLiteral(b) => Ok((
                    Expression {
                        kind: ExpressionKind::BooleanLiteral(*b),
                        span: Span { start: pos, end: pos + 1 },
                    },
                    pos + 1,
                )),
                TokenKind::Identifier(name) => parse_ident_expr(toks, pos, clone_chars(name)),
                _ => parse_prefix_op_expr(toks, pos),
            }
        },
    }
}


fn parse_if_expr(toks: &Vec<TokenKind>, pos: usize) -> (r: Result<(Expression, usize), ParseError>)
    requires
        pos < toks@.len(),
        kinds(toks@)[pos as int] is If,
    ensures
        r matches Ok((e, p2)) ==> spec_parse_expr(kinds(toks@), pos as nat) == Ok::<
            (ExpressionView, nat),
            ParseErrorView,
        >((expr_view(e), p2 as nat)) && p2 <= toks@.len(),
        r matches Err(pe) ==> spec_parse_expr(kinds(toks@), pos as nat) == Err::<
            (ExpressionView, nat),
            ParseErrorView,
        >(pe@),
    decreases toks@.len() - pos, 0nat,
{
    let _n: usize = toks.len();

                    match parse_expr(toks, pos + 1) {
                        Err(e) => Err(e),
                        Ok((cond, p2)) => {
                            if p2 <= pos || p2 > toks.len() {
                                Err(mk_err(toks, p2, exp1(Expected::AStatement)))
                            } else {
                                match parse_stmt(toks, p2) {
                                    Err(e) => Err(e),
                                    Ok((cons, p3)) => {
                                        let has_else = matches!(
                                            peek_at(toks, p3, 0),
                                            Some(TokenKind::Else),
                                        ) && p3 > pos && p3 < toks.len();
                                        if has_else {
                                            match parse_stmt(toks, p3 + 1) {
                                                Err(e) => Err(e),
                                                Ok((alt, p4)) => Ok((
                                                    Expression {
                                                        kind: ExpressionKind::If {
                                                            condition: Box::new(cond),
                                                            consequence: Box::new(cons),
                                                            alternative: Box::new(Some(alt)),
                                                        },
                                                        span: Span { start: pos, end: p4 },
                                                    },
                                                    p4,
                                                )),
                                            }
                                        } else {
                                            Ok((
                                                Expression {
                                                    kind: ExpressionKind::If {
                                                        condition: Box::new(cond),
                                                        consequence: Box::new(cons),
                                                        alternative: Box::new(None),
                                                    },
                                                    span: Span { start: pos, end: p3 },
                                                },
                                                p3,
                                            ))
                                        }
                                    },
                                }
                            }
                        },
                    }
                
}

fn parse_for_expr(toks: &Vec<TokenKind>, pos: usize) -> (r: Result<(Expression, usize), ParseError>)
    requires
        pos < toks@.len(),
        kinds(toks@)[pos as int] is For,
    ensures
        r matches Ok((e, p2)) ==> spec_parse_expr(kinds(toks@), pos as nat) == Ok::<
            (ExpressionView, nat),
            ParseErrorView,
        >((expr_view(e), p2 as nat)) && p2 <= toks@.len(),
        r matches Err(pe) ==> spec_parse_expr(kinds(toks@), pos as nat) == Err::<
            (ExpressionView, nat),
            ParseErrorView,
        >(pe@),
    decreases toks@.len() - pos, 0nat,
{
    let _n: usize = toks.len();

                    match ident_at_exec(toks, pos, 1) {
                        Some(variable) => {
                            if matches!(peek_at(toks, pos, 2), Some(TokenKind::In)) {
                                match parse_expr(toks, pos + 3) {
                                    Err(e) => Err(e),
                                    Ok((iter, p2)) => {
                                        if p2 <= pos || p2 > toks.len() {
                                            Err(mk_err(toks, p2, exp1(Expected::AStatement)))
                                        } else {
                                            match parse_stmt(toks, p2) {
                                                Err(e) => Err(e),
                                                Ok((body, p3)) => Ok((
                                                    Expression {
                                                        kind: ExpressionKind::For {
                                                            variable: Identifier(variable),
                                                            iterable: Box::new(iter),
                                                            body: Rc::new(body),
                                                        },
                                                        span: Span { start: pos, end: p3 },
                                                    },
                                                    p3,
                                                )),
                                            }
                                        }
                                    },
                                }
                            } else {
                                Err(mk_err(toks, pos + 2, exp1(Expected::In)))
                            }
                        },
                        None => Err(mk_err(toks, pos + 1, exp1(Expected::AnIdentifier))),
                    }
                
}

fn parse_while_expr(toks: &Vec<TokenKind>, pos: usize) -> (r: Result<
    (Expression, usize),
    ParseError,
>)
    requires
        pos < toks@.len(),
        kinds(toks@)[pos as int] is While,
    ensures
        r matches Ok((e, p2)) ==> spec_parse_expr(kinds(toks@), pos as nat) == Ok::<
            (ExpressionView, nat),
            ParseErrorView,
        >((expr_view(e), p2 as nat)) && p2 <= toks@.len(),
        r matches Err(pe) ==> spec_parse_expr(kinds(toks@), pos as nat) == Err::<
            (ExpressionView, nat),
            ParseErrorView,
        >(pe@),
    decreases toks@.len() - pos, 0nat,
{
    let _n: usize = toks.len();

                    match parse_expr(toks, pos + 1) {
                        Err(e) => Err(e),
                        Ok((cond, p2)) => {
                            if p2 <= pos || p2 > toks.len() {
                                Err(mk_err(toks, p2, exp1(Expected::AStatement)))
                            } else {
                                match parse_stmt(toks, p2) {
                                    Err(e) => Err(e),
                                    Ok((body, p3)) => Ok((
                                        Expression {
                                            kind: ExpressionKind::While {
                                                condition: Box::new(cond),
                                                body: Rc::new(body),
                                            },
                                            span: Span { start: pos, end: p3 },
                                        },
                                        p3,
                                    )),
                                }
                            }
                        },
                    }
                
}

fn parse_ident_expr(toks: &Vec<TokenKind>, pos: usize, name: Vec<char>) -> (r: Result<
    (Expression, usize),
    ParseError,
>)
    requires
        pos < toks@.len(),
        kinds(toks@)[pos as int] == TokenKindView::Identifier(name@),
    ensures
        r matches Ok((e, p2)) ==> spec_parse_expr(kinds(toks@), pos as nat) == Ok::<
            (ExpressionView, nat),
            ParseErrorView,
        >((expr_view(e), p2 as nat)) && p2 <= toks@.len(),
        r matches Err(pe) ==> spec_parse_expr(kinds(toks@), pos as nat) == Err::<
            (ExpressionView, nat),
            ParseErrorView,
        >(pe@),
    decreases toks@.len() - pos, 0nat,
{
    let _n: usize = toks.len();

                    if matches!(peek_at(toks, pos, 1), Some(TokenKind::LeftParen)) {
                        if matches!(peek_at(toks, pos, 2), Some(TokenKind::RightParen)) {
                            let args0: Vec<Expression> = Vec::new();
                            proof {
                                assert(expr_views_rec(args0@) =~= Seq::<ExpressionView>::empty());
                            }
                            Ok((
                                Expression {
                                    kind: ExpressionKind::FunctionCall {
                                        name: Identifier(clone_chars(&name)),
                                        arguments: args0,
                                    },
                                    span: Span { start: pos, end: pos + 3 },
                                },
                                pos + 3,
                            ))
                        } else {
                            match parse_exprs_until(toks, pos + 2, false) {
                                Err(e) => Err(e),
                                Ok((args, p2)) => Ok((
                                    Expression {
                                        kind: ExpressionKind::FunctionCall {
                                            name: Identifier(clone_chars(&name)),
                                            arguments: args,
                                        },
                                        span: Span { start: pos, end: p2 },
                                    },
                                    p2,
                                )),
                            }
                        }
                    } else {
                        Ok((
                            Expression {
                                kind: ExpressionKind::Identifier(Identifier(clone_chars(&name))),
                                span: Span { start: pos, end: pos + 1 },
                            },
                            pos + 1,
                        ))
                    }
                
}

fn parse_prefix_op_expr(toks: &Vec<TokenKind>, pos: usize) -> (r: Result<
    (Expression, usize),
    ParseError,
>)
    requires
        pos < toks@.len(),
        !(kinds(toks@)[pos as int] is LeftParen),
        !(kinds(toks@)[pos as int] is Bang),
        !(kinds(toks@)[pos as int] is LeftBracket),
        !(kinds(toks@)[pos as int] is If),
        !(kinds(toks@)[pos as int] is For),
        !(kinds(toks@)[pos as int] is While),
        !(kinds(toks@)[pos as int] is Void),
        !(kinds(toks@)[pos as int] is Identifier),
        !(kinds(toks@)[pos as int] is NumberLiteral),
        !(kinds(toks@)[pos as int] is StringLiteral),
        !(kinds(toks@)[pos as int] is BooleanLiteral),
    ensures
        r matches Ok((e, p2)) ==> spec_parse_expr(kinds(toks@), pos as nat) == Ok::<
            (ExpressionView, nat),
            ParseErrorView,
        >((expr_view(e), p2 as nat)) && p2 <= toks@.len(),
        r matches Err(pe) ==> spec_parse_expr(kinds(toks@), pos as nat) == Err::<
            (ExpressionView, nat),
            ParseErrorView,
        >(pe@),
    decreases toks@.len() - pos, 0nat,
{
    let _n: usize = toks.len();
    let t0 = &toks[pos];
    proof {
        assert(kinds(toks@)[pos as int] == toks@[pos as int]@);
    }

                    let is_binop = is_usable_binop(t0);
                    if is_binop {
                        let op = t0.to_binary_operator();
                        let is_plus_minus = matches!(t0, TokenKind::Plus | TokenKind::Minus);
                        match parse_expr(toks, pos + 1) {
                            Err(e) => Err(e),
                            Ok((left, p2)) => {
                                let second = match peek_at(toks, p2, 0) {
                                    Some(t) => tok_starts_expr(t),
                                    None => false,
                                };
                                if second && p2 > pos && p2 < toks.len() {
                                    match parse_expr(toks, p2) {
                                        Err(e) => Err(e),
                                        Ok((right, p3)) => Ok((
                                            Expression {
                                                kind: ExpressionKind::Binary {
                                                    operator: op,
                                                    left: Box::new(left),
                                                    right: Box::new(right),
                                                },
                                                span: Span { start: pos, end: p3 },
                                            },
                                            p3,
                                        )),
                                    }
                                } else if is_plus_minus {
                                    let uop = t0.to_unary_operator();
                                    Ok((
                                        Expression {
                                            kind: ExpressionKind::Unary {
                                                operator: uop,
                                                operand: Box::new(left),
                                            },
                                            span: Span { start: pos, end: p2 },
                                        },
                                        p2,
                                    ))
                                } else {
                                    Err(mk_err(toks, p2, exp1(Expected::AnExpression)))
                                }
                            },
                        }
                    } else {
                        Err(mk_err(toks, pos, exp1(Expected::AnExpression)))
                    }
                
}

fn exp1(a: Expected) -> (r: Vec<Expected>)
    ensures
        r@ == seq![a],
{
    let mut v: Vec<Expected> = Vec::new();
    v.push(a);
    proof {
        assert(v@ =~= seq![a]);
    }
    v
}

fn exp2(a: Expected, b: Expected) -> (r: Vec<Expected>)
    ensures
        r@ == seq![a, b],
{
    let mut v: Vec<Expected> = Vec::new();
    v.push(a);
    v.push(b);
    proof {
        assert(v@ =~= seq![a, b]);
    }
    v
}

fn exp3(a: Expected, b: Expected, c: Expected) -> (r: Vec<Expected>)
    ensures
        r@ == seq![a, b, c],
{
    let mut v: Vec<Expected> = Vec::new();
    v.push(a);
    v.push(b);
    v.push(c);
    proof {
        assert(v@ =~= seq![a, b, c]);
    }
    v
}

/// The parse error raised at a position.
fn mk_err(toks: &Vec<TokenKind>, pos: usize, expected: Vec<Expected>) -> (r: ParseError)
    ensures
        r@ == perr(kinds(toks@), pos as nat, expected@),
{
    let found = match peek_at(toks, pos, 0) {
        Some(t) => Some(clone_kind(t)),
        None => None,
    };
    let end: usize = if pos < usize::MAX {
        pos + 1
    } else {
        0
    };
    ParseError { span: Span { start: pos, end }, found, expected }
}

/// Whether the token is one the grammar's binary-operator choice accepts.
fn is_usable_binop(t: &TokenKind) -> (r: bool)
    ensures
        r == (is_binop_token(t@) && !(t@ is Ampersand)),
{
    matches!(
        t,
        TokenKind::Plus | TokenKind::Minus | TokenKind::Asterisk | TokenKind::Slash
            | TokenKind::Percent | TokenKind::EqualsEquals | TokenKind::BangEquals
            | TokenKind::LessThan | TokenKind::LessThanEquals | TokenKind::GreaterThan
            | TokenKind::GreaterThanEquals | TokenKind::AmpersandAmpersand | TokenKind::PipePipe
            | TokenKind::DotDot,
    )
}

/// Whether the token can open an expression.
fn tok_starts_expr(t: &TokenKind) -> (r: bool)
    ensures
        r == starts_expr(t@),
{
    is_usable_binop(t) || matches!(
        t,
        TokenKind::Bang | TokenKind::LeftParen | TokenKind::LeftBracket | TokenKind::Identifier(_)
            | TokenKind::If | TokenKind::For | TokenKind::While | TokenKind::Void
            | TokenKind::NumberLiteral(_) | TokenKind::StringLiteral(_)
            | TokenKind::BooleanLiteral(_),
    )
}

#[verifier::rlimit(100)]
fn parse_bracket(toks: &Vec<TokenKind>, pos: usize) -> (r: Result<(Expression, usize), ParseError>)
    requires
        pos < toks@.len(),
    ensures
        r matches Ok((e, p2)) ==> spec_parse_bracket(kinds(toks@), pos as nat) == Ok::<
            (ExpressionView, nat),
            ParseErrorView,
        >((expr_view(e), p2 as nat)) && p2 <= toks@.len(),
        r matches Err(pe) ==> spec_parse_bracket(kinds(toks@), pos as nat) == Err::<
            (ExpressionView, nat),
            ParseErrorView,
        >(pe@),
    decreases toks@.len() - pos, 0nat,
{
    let _n: usize = toks.len();
    if matches!(peek_at(toks, pos, 1), Some(TokenKind::DotDot)) {
        parse_slice_tail(toks, pos, None, pos + 1)
    } else if matches!(peek_at(toks, pos, 1), Some(TokenKind::RightBracket)) {
        let none: Vec<Expression> = Vec::new();
        proof {
            assert(expr_views_rec(none@) =~= Seq::<ExpressionView>::empty());
        }
        Ok((
            Expression {
                kind: ExpressionKind::ArrayLiteral(none),
                span: Span { start: pos, end: pos + 2 },
            },
            pos + 2,
        ))
    } else if pos + 1 >= toks.len() {
        Err(mk_err(toks, pos + 1, exp1(Expected::AnExpression)))
    } else {
        match parse_expr(toks, pos + 1) {
            Err(e) => Err(e),
            Ok((first, p2)) => {
                if matches!(peek_at(toks, p2, 0), Some(TokenKind::RightBracket)) {
                    let second = match peek_at(toks, p2, 1) {
                        Some(t) => tok_starts_expr(t),
                        None => false,
                    };
                    if second && p2 > pos && p2 + 1 < toks.len() {
                        match parse_expr(toks, p2 + 1) {
                            Err(e) => Err(e),
                            Ok((iter, p3)) => Ok((
                                Expression {
                                    kind: ExpressionKind::Index {
                                        iterable: Box::new(iter),
                                        index: Box::new(first),
                                    },
                                    span: Span { start: pos, end: p3 },
                                },
                                p3,
                            )),
                        }
                    } else {
                        let mut elems: Vec<Expression> = Vec::new();
                        elems.push(first);
                        proof {
                            lemma_expr_views_rec(elems@);
                            assert(expr_views_rec(elems@) =~= seq![
                                expr_view(elems@[0]),
                            ]);
                        }
                        Ok((
                            Expression {
                                kind: ExpressionKind::ArrayLiteral(elems),
                                span: Span { start: pos, end: p2 + 1 },
                            },
                            p2 + 1,
                        ))
                    }
                } else if matches!(peek_at(toks, p2, 0), Some(TokenKind::DotDot)) && p2 > pos && p2
                    < toks.len() {
                    parse_slice_tail(toks, pos, Some(first), p2)
                } else if matches!(peek_at(toks, p2, 0), Some(TokenKind::Comma)) && p2 > pos && p2
                    < toks.len() {
                    match parse_exprs_until(toks, p2 + 1, true) {
                        Err(e) => Err(e),
                        Ok((rest, p3)) => {
                            let ghost rest_seq = rest@;
                            let ghost first_v = expr_view(first);
                            let mut elems = rest;
                            elems.insert(0, first);
                            proof {
                                lemma_views_insert_front(elems@, rest_seq, first);
                            }
                            Ok((
                                Expression {
                                    kind: ExpressionKind::ArrayLiteral(elems),
                                    span: Span { start: pos, end: p3 },
                                },
                                p3,
                            ))
                        },
                    }
                } else {
                    Err(
                        mk_err(
                            toks,
                            p2,
                            exp3(Expected::RightBracket, Expected::DotDot, Expected::Comma),
                        ),
                    )
                }
            },
        }
    }
}

#[verifier::rlimit(100)]
fn parse_slice_tail(
    toks: &Vec<TokenKind>,
    open_pos: usize,
    start: Option<Expression>,
    dotpos: usize,
) -> (r: Result<(Expression, usize), ParseError>)
    ensures
        r matches Ok((e, p2)) ==> spec_parse_slice_tail(
            kinds(toks@),
            open_pos as nat,
            match start {
                Some(s) => Some(expr_view(s)),
                None => None,
            },
            dotpos as nat,
        ) == Ok::<(ExpressionView, nat), ParseErrorView>((expr_view(e), p2 as nat)) && p2
            <= toks@.len(),
        r matches Err(pe) ==> spec_parse_slice_tail(
            kinds(toks@),
            open_pos as nat,
            match start {
                Some(s) => Some(expr_view(s)),
                None => None,
            },
            dotpos as nat,
        ) == Err::<(ExpressionView, nat), ParseErrorView>(pe@),
    decreases toks@.len() - dotpos, 0nat,
{
    let _n: usize = toks.len();
    let after_end: Result<(Option<Expression>, usize), ParseError> = if dotpos >= toks.len() {
        Err(mk_err(toks, dotpos, exp1(Expected::AnExpression)))
    } else if matches!(peek_at(toks, dotpos, 1), Some(TokenKind::RightBracket)) {
        Ok((None, dotpos + 1))
    } else {
        match parse_expr(toks, dotpos + 1) {
            Err(e) => Err(e),
            Ok((end_e, p2)) => {
                if matches!(peek_at(toks, p2, 0), Some(TokenKind::RightBracket)) {
                    Ok((Some(end_e), p2))
                } else {
                    Err(mk_err(toks, p2, exp1(Expected::RightBracket)))
                }
            },
        }
    };
    match after_end {
        Err(e) => Err(e),
        Ok((end_e, rb)) => {
            if rb < dotpos || rb >= toks.len() || dotpos >= toks.len() {
                Err(mk_err(toks, rb, exp1(Expected::AnExpression)))
            } else {
                match parse_expr(toks, rb + 1) {
                    Err(e) => Err(e),
                    Ok((iter, p3)) => Ok((
                        Expression {
                            kind: ExpressionKind::Slice {
                                start: Box::new(start),
                                end: Box::new(end_e),
                                iterable: Box::new(iter),
                            },
                            span: Span { start: open_pos, end: p3 },
                        },
                        p3,
                    )),
                }
            }
        },
    }
}

fn parse_exprs_until(toks: &Vec<TokenKind>, pos: usize, bracket: bool) -> (r: Result<
    (Vec<Expression>, usize),
    ParseError,
>)
    ensures
        r matches Ok((es, p2)) ==> spec_parse_exprs_until(kinds(toks@), pos as nat, bracket)
            == Ok::<(Seq<ExpressionView>, nat), ParseErrorView>((expr_views_rec(es@), p2 as nat))
            && p2 <= toks@.len(),
        r matches Err(pe) ==> spec_parse_exprs_until(kinds(toks@), pos as nat, bracket) == Err::<
            (Seq<ExpressionView>, nat),
            ParseErrorView,
        >(pe@),
    decreases toks@.len() - pos, 2nat,
{
    let _n: usize = toks.len();
    match parse_expr(toks, pos) {
        Err(e) => Err(e),
        Ok((first, p2)) => {
            if matches!(peek_at(toks, p2, 0), Some(TokenKind::Comma)) && p2 > pos && p2
                < toks.len() && pos < toks.len() {
                match parse_exprs_until(toks, p2 + 1, bracket) {
                    Err(e) => Err(e),
                    Ok((rest, p3)) => {
                        let ghost rest_seq = rest@;
                        let mut es = rest;
                        es.insert(0, first);
                        proof {
                            lemma_views_insert_front(es@, rest_seq, first);
                        }
                        Ok((es, p3))
                    },
                }
            } else if bracket && matches!(peek_at(toks, p2, 0), Some(TokenKind::RightBracket)) {
                let mut es: Vec<Expression> = Vec::new();
                es.push(first);
                proof {
                    lemma_expr_views_rec(es@);
                    assert(expr_views_rec(es@) =~= seq![expr_view(es@[0])]);
                }
                Ok((es, p2 + 1))
            } else if !bracket && matches!(peek_at(toks, p2, 0), Some(TokenKind::RightParen)) {
                let mut es: Vec<Expression> = Vec::new();
                es.push(first);
                proof {
                    lemma_expr_views_rec(es@);
                    assert(expr_views_rec(es@) =~= seq![expr_view(es@[0])]);
                }
                Ok((es, p2 + 1))
            } else {
                Err(
                    mk_err(
                        toks,
                        p2,
                        exp2(
                            Expected::Comma,
                            if bracket {
                                Expected::RightBracket
                            } else {
                                Expected::RightParen
                            },
                        ),
                    ),
                )
            }
        },
    }
}

fn parse_params(toks: &Vec<TokenKind>, pos: usize) -> (r: (Vec<Identifier>, usize))
    ensures
        spec_parse_params(kinds(toks@), pos as nat) == (ident_views(r.0@), r.1 as nat),
        pos <= r.1 <= toks@.len() || r.1 == pos,
    decreases toks@.len() - pos,
{
    let _n: usize = toks.len();
    match ident_at_exec(toks, pos, 0) {
        Some(name) => {
            let (rest, p2) = parse_params(toks, pos + 1);
            let ghost rest_seq = rest@;
            let mut out = rest;
            out.insert(0, Identifier(name));
            proof {
                assert(ident_views(out@) =~= seq![out@[0]@] + ident_views(rest_seq));
            }
            (out, p2)
        },
        None => {
            proof {
                assert(ident_views(Seq::<Identifier>::empty()) =~= Seq::<Seq<char>>::empty());
            }
            (Vec::new(), pos)
        },
    }
}

#[verifier::rlimit(100)]
pub fn parse_stmt(toks: &Vec<TokenKind>, pos: usize) -> (r: Result<(Statement, usize), ParseError>)
    ensures
        r matches Ok((s, p2)) ==> spec_parse_stmt(kinds(toks@), pos as nat) == Ok::<
            (StatementView, nat),
            ParseErrorView,
        >((stmt_view(s), p2 as nat)) && p2 <= toks@.len(),
        r matches Err(pe) ==> spec_parse_stmt(kinds(toks@), pos as nat) == Err::<
            (StatementView, nat),
            ParseErrorView,
        >(pe@),
    decreases toks@.len() - pos, 3nat,
{
    let _n: usize = toks.len();
    let base: Result<(Statement, usize), ParseError> = match peek_at(toks, pos, 0) {
        None => Err(mk_err(toks, pos, exp1(Expected::AStatement))),
        Some(t0) => {
            match t0 {
                TokenKind::LeftBrace => {
                    match parse_block_items(toks, pos + 1) {
                        Err(e) => Err(e),
                        Ok((stmts, p2)) => Ok((
                            Statement {
                                kind: StatementKind::Block(stmts),
                                span: Span { start: pos, end: p2 },
                            },
                            p2,
                        )),
                    }
                },
                TokenKind::Let => parse_let_stmt(toks, pos),
                TokenKind::Identifier(_) => {
                    if matches!(peek_at(toks, pos, 1), Some(TokenKind::Equals)) {
                        match ident_at_exec(toks, pos, 0) {
                            Some(name) => {
                                match parse_expr(toks, pos + 2) {
                                    Err(e) => Err(e),
                                    Ok((value, p2)) => Ok((
                                        Statement {
                                            kind: StatementKind::Assignment {
                                                name: Identifier(name),
                                                value,
                                            },
                                            span: Span { start: pos, end: p2 },
                                        },
                                        p2,
                                    )),
                                }
                            },
                            None => Err(mk_err(toks, pos, exp1(Expected::AnIdentifier))),
                        }
                    } else {
                        match parse_expr(toks, pos) {
                            Err(e) => Err(e),
                            Ok((e, p2)) => {
                                let sp = e.span;
                                Ok((
                                    Statement { kind: StatementKind::Expression(e), span: sp },
                                    p2,
                                ))
                            },
                        }
                    }
                },
                _ => {
                    match parse_expr(toks, pos) {
                        Err(e) => Err(e),
                        Ok((e, p2)) => {
                            let sp = e.span;
                            Ok((Statement { kind: StatementKind::Expression(e), span: sp }, p2))
                        },
                    }
                },
            }
        },
    };
    match base {
        Err(e) => Err(e),
        Ok((s, p2)) => {
            if matches!(peek_at(toks, p2, 0), Some(TokenKind::Semicolon)) {
                Ok((s, p2 + 1))
            } else {
                Ok((s, p2))
            }
        },
    }
}


fn parse_let_stmt(toks: &Vec<TokenKind>, pos: usize) -> (r: Result<(Statement, usize), ParseError>)
    requires
        pos < toks@.len(),
        kinds(toks@)[pos as int] is Let,
    ensures
        r matches Ok((s, p2)) ==> spec_parse_stmt_base(kinds(toks@), pos as nat) == Ok::<
            (StatementView, nat),
            ParseErrorView,
        >((stmt_view(s), p2 as nat)) && p2 <= toks@.len(),
        r matches Err(pe) ==> spec_parse_stmt_base(kinds(toks@), pos as nat) == Err::<
            (StatementView, nat),
            ParseErrorView,
        >(pe@),
    decreases toks@.len() - pos, 2nat,
{
    let _n: usize = toks.len();

                    if matches!(peek_at(toks, pos, 1), Some(TokenKind::Const)) {
                        match ident_at_exec(toks, pos, 2) {
                            Some(name) => {
                                if matches!(peek_at(toks, pos, 3), Some(TokenKind::Equals)) {
                                    match parse_expr(toks, pos + 4) {
                                        Err(e) => Err(e),
                                        Ok((value, p2)) => Ok((
                                            Statement {
                                                kind: StatementKind::Let {
                                                    name: Identifier(name),
                                                    value,
                                                    constant: true,
                                                },
                                                span: Span { start: pos, end: p2 },
                                            },
                                            p2,
                                        )),
                                    }
                                } else {
                                    Err(mk_err(toks, pos + 3, exp1(Expected::Equals)))
                                }
                            },
                            None => Err(mk_err(toks, pos + 2, exp1(Expected::AnIdentifier))),
                        }
                    } else if matches!(peek_at(toks, pos, 1), Some(TokenKind::Fn)) {
                        match ident_at_exec(toks, pos, 2) {
                            Some(name) => {
                                let (params, p2) = parse_params(toks, pos + 3);
                                if matches!(peek_at(toks, p2, 0), Some(TokenKind::Equals)) && p2
                                    > pos && p2 < toks.len() {
                                    match parse_stmt(toks, p2 + 1) {
                                        Err(e) => Err(e),
                                        Ok((body, p3)) => Ok((
                                            Statement {
                                                kind: StatementKind::FunctionDeclaration {
                                                    name: Identifier(name),
                                                    parameters: params,
                                                    body: Rc::new(body),
                                                },
                                                span: Span { start: pos, end: p3 },
                                            },
                                            p3,
                                        )),
                                    }
                                } else {
                                    Err(
                                        mk_err(
                                            toks,
                                            p2,
                                            exp2(Expected::AnIdentifier, Expected::Equals),
                                        ),
                                    )
                                }
                            },
                            None => Err(mk_err(toks, pos + 2, exp1(Expected::AnIdentifier))),
                        }
                    } else {
                        match ident_at_exec(toks, pos, 1) {
                            Some(name) => {
                                if matches!(peek_at(toks, pos, 2), Some(TokenKind::Equals)) {
                                    match parse_expr(toks, pos + 3) {
                                        Err(e) => Err(e),
                                        Ok((value, p2)) => Ok((
                                            Statement {
                                                kind: StatementKind::Let {
                                                    name: Identifier(name),
                                                    value,
                                                    constant: false,
                                                },
                                                span: Span { start: pos, end: p2 },
                                            },
                                            p2,
                                        )),
                                    }
                                } else {
                                    Err(mk_err(toks, pos + 2, exp1(Expected::Equals)))
                                }
                            },
                            None => Err(mk_err(toks, pos + 1, exp1(Expected::AnIdentifier))),
                        }
                    }
                
}

fn parse_block_items(toks: &Vec<TokenKind>, pos: usize) -> (r: Result<
    (Vec<Statement>, usize),
    ParseError,
>)
    ensures
        r matches Ok((ss, p2)) ==> spec_parse_block_items(kinds(toks@), pos as nat) == Ok::<
            (Seq<StatementView>, nat),
            ParseErrorView,
        >((stmt_views_rec(ss@), p2 as nat)) && p2 <= toks@.len(),
        r matches Err(pe) ==> spec_parse_block_items(kinds(toks@), pos as nat) == Err::<
            (Seq<StatementView>, nat),
            ParseErrorView,
        >(pe@),
    decreases toks@.len() - pos, 4nat,
{
    let _n: usize = toks.len();
    if matches!(peek_at(toks, pos, 0), Some(TokenKind::RightBrace)) {
        proof {
            assert(stmt_views_rec(Seq::<Statement>::empty()) =~= Seq::<StatementView>::empty());
        }
        Ok((Vec::new(), pos + 1))
    } else if peek_at(toks, pos, 0).is_none() {
        Err(mk_err(toks, pos, exp2(Expected::AStatement, Expected::RightBrace)))
    } else {
        match parse_stmt(toks, pos) {
            Err(e) => Err(e),
            Ok((s, p2)) => {
                if p2 > pos && p2 <= toks.len() {
                    match parse_block_items(toks, p2) {
                        Err(e) => Err(e),
                        Ok((rest, p3)) => {
                            let ghost rest_seq = rest@;
                            let mut ss = rest;
                            ss.insert(0, s);
                            proof {
                                lemma_stmt_views_insert_front(ss@, rest_seq, ss@[0]);
                            }
                            Ok((ss, p3))
                        },
                    }
                } else {
                    Err(mk_err(toks, pos, exp2(Expected::AStatement, Expected::RightBrace)))
                }
            },
        }
    }
}

fn parse_program_from(toks: &Vec<TokenKind>, pos: usize) -> (r: Result<
    (Vec<Statement>, usize),
    ParseError,
>)
    ensures
        r matches Ok((ss, p2)) ==> spec_parse_program(kinds(toks@), pos as nat) == Ok::<
            (Seq<StatementView>, nat),
            ParseErrorView,
        >((stmt_views_rec(ss@), p2 as nat)) && p2 <= toks@.len(),
        r matches Err(pe) ==> spec_parse_program(kinds(toks@), pos as nat) == Err::<
            (Seq<StatementView>, nat),
            ParseErrorView,
        >(pe@),
    decreases toks@.len() - pos, 5nat,
{
    let _n: usize = toks.len();
    if matches!(peek_at(toks, pos, 0), Some(TokenKind::Eof)) {
        proof {
            assert(stmt_views_rec(Seq::<Statement>::empty()) =~= Seq::<StatementView>::empty());
        }
        Ok((Vec::new(), pos + 1))
    } else if peek_at(toks, pos, 0).is_none() {
        Err(mk_err(toks, pos, exp2(Expected::AStatement, Expected::Eof)))
    } else {
        match parse_stmt(toks, pos) {
            Err(e) => Err(e),
            Ok((s, p2)) => {
                if p2 > pos && p2 <= toks.len() {
                    match parse_program_from(toks, p2) {
                        Err(e) => Err(e),
                        Ok((rest, p3)) => {
                            let ghost rest_seq = rest@;
                            let mut ss = rest;
                            ss.insert(0, s);
                            proof {
                                lemma_stmt_views_insert_front(ss@, rest_seq, ss@[0]);
                            }
                            Ok((ss, p3))
                        },
                    }
                } else {
                    Err(mk_err(toks, pos, exp2(Expected::AStatement, Expected::Eof)))
                }
            },
        }
    }
}

/// Parses a whole token stream, as the lexer hands it over with the
/// ignored kinds dropped, into the program's statements or the first
/// structured parse error.
pub fn parse_program(tokens: &Vec<TokenKind>) -> (r: Result<Vec<Statement>, ParseError>)
    ensures
        r matches Ok(prog) ==> (spec_parse_program(kinds(tokens@), 0) matches Ok((ss, p))
            && ss == stmt_views_rec(prog@)),
        r matches Err(pe) ==> spec_parse_program(kinds(tokens@), 0) == Err::<
            (Seq<StatementView>, nat),
            ParseErrorView,
        >(pe@),
{
    match parse_program_from(tokens, 0) {
        Ok((ss, _p)) => Ok(ss),
        Err(e) => Err(e),
    }
}

/// A copy of a token kind, its payload included.
fn clone_kind(t: &TokenKind) -> (r: TokenKind)
    ensures
        r@ == t@,
{
    match t {
        TokenKind::Whitespace => TokenKind::Whitespace,
        TokenKind::Newline => TokenKind::Newline,
        TokenKind::Comment => TokenKind::Comment,
        TokenKind::NumberLiteral(n) => TokenKind::NumberLiteral(*n),
        TokenKind::BooleanLiteral(b) => TokenKind::BooleanLiteral(*b),
        TokenKind::StringLiteral(s) => TokenKind::StringLiteral(clone_chars(s)),
        TokenKind::Void => TokenKind::Void,
        TokenKind::Identifier(s) => TokenKind::Identifier(clone_chars(s)),
        TokenKind::Let => TokenKind::Let,
        TokenKind::Const => TokenKind::Const,
        TokenKind::Fn => TokenKind::Fn,
        TokenKind::If => TokenKind::If,
        TokenKind::Else => TokenKind::Else,
        TokenKind::For => TokenKind::For,
        TokenKind::While => TokenKind::While,
        TokenKind::In => TokenKind::In,
        TokenKind::Plus => TokenKind::Plus,
        TokenKind::Minus => TokenKind::Minus,
        TokenKind::Asterisk => TokenKind::Asterisk,
        TokenKind::Slash => TokenKind::Slash,
        TokenKind::Percent => TokenKind::Percent,
        TokenKind::Caret => TokenKind::Caret,
        TokenKind::Ampersand => TokenKind::Ampersand,
        TokenKind::AmpersandAmpersand => TokenKind::AmpersandAmpersand,
        TokenKind::Pipe => TokenKind::Pipe,
        TokenKind::PipePipe => TokenKind::PipePipe,
        TokenKind::EqualsEquals => TokenKind::EqualsEquals,
        TokenKind::Bang => TokenKind::Bang,
        TokenKind::BangEquals => TokenKind::BangEquals,
        TokenKind::LessThan => TokenKind::LessThan,
        TokenKind::LessThanEquals => TokenKind::LessThanEquals,
        TokenKind::GreaterThan => TokenKind::GreaterThan,
        TokenKind::GreaterThanEquals => TokenKind::GreaterThanEquals,
        TokenKind::Equals => TokenKind::Equals,
        TokenKind::LeftParen => TokenKind::LeftParen,
        TokenKind::RightParen => TokenKind::RightParen,
        TokenKind::LeftBrace => TokenKind::LeftBrace,
        TokenKind::RightBrace => TokenKind::RightBrace,
        TokenKind::LeftBracket => TokenKind::LeftBracket,
        TokenKind::RightBracket => TokenKind::RightBracket,
        TokenKind::Comma => TokenKind::Comma,
        TokenKind::Dot => TokenKind::Dot,
        TokenKind::DotDot => TokenKind::DotDot,
        TokenKind::Semicolon => TokenKind::Semicolon,
        TokenKind::Error(e) => TokenKind::Error(*e),
        TokenKind::Eof => TokenKind::Eof,
    }
}

} // verus!
