use telid::ast::{
    stmt_eq, BinaryOperator, Expression, ExpressionKind, Statement, StatementKind, UnaryOperator,
};
use telid::lexer::Lexer;
use telid::num::Num;
use telid::parser::parse_program;
use telid::span::Span;
use telid::tokens::TokenKind;

fn kinds_of(source: &str) -> Vec<TokenKind> {
    let mut lexer = Lexer::new(source);
    lexer.lex(false).into_iter().map(|t| t.kind).collect()
}

fn num_expr(v: f64, start: usize, end: usize) -> Expression {
    Expression {
        kind: ExpressionKind::NumberLiteral(Num(v.to_bits())),
        span: Span { start, end },
    }
}

#[test]
fn test_operators() {
    let tokens = kinds_of("- - 5 6");
    let ast = match parse_program(&tokens) {
        Ok(ast) => ast,
        Err(_) => panic!("the program should parse"),
    };
    let expected = Statement {
        kind: StatementKind::Expression(Expression {
            kind: ExpressionKind::Unary {
                operator: UnaryOperator::Negate,
                operand: Box::new(Expression {
                    kind: ExpressionKind::Binary {
                        operator: BinaryOperator::Subtract,
                        left: Box::new(num_expr(5.0, 2, 3)),
                        right: Box::new(num_expr(6.0, 3, 4)),
                    },
                    span: Span { start: 1, end: 4 },
                }),
            },
            span: Span { start: 0, end: 4 },
        }),
        span: Span { start: 0, end: 4 },
    };
    assert_eq!(ast.len(), 1);
    assert!(stmt_eq(&ast[0], &expected));

    let tokens = kinds_of("- (-5) 6");
    let ast = match parse_program(&tokens) {
        Ok(ast) => ast,
        Err(_) => panic!("the program should parse"),
    };
    let expected = Statement {
        kind: StatementKind::Expression(Expression {
            kind: ExpressionKind::Binary {
                operator: BinaryOperator::Subtract,
                left: Box::new(Expression {
                    kind: ExpressionKind::Unary {
                        operator: UnaryOperator::Negate,
                        operand: Box::new(num_expr(5.0, 3, 4)),
                    },
                    span: Span { start: 2, end: 4 },
                }),
                right: Box::new(num_expr(6.0, 5, 6)),
            },
            span: Span { start: 0, end: 6 },
        }),
        span: Span { start: 0, end: 6 },
    };
    assert_eq!(ast.len(), 1);
    assert!(stmt_eq(&ast[0], &expected));
}

#[test]
fn parser_rejects_stray_input() {
    let tokens = kinds_of("let = 5");
    assert!(parse_program(&tokens).is_err());
    let tokens = kinds_of("( 1");
    match parse_program(&tokens) {
        Err(err) => assert!(err.expected.len() > 0),
        Ok(_) => panic!("a parse error was expected"),
    }
}

#[test]
fn parser_spans_cover_program() {
    let tokens = kinds_of("let x = 1; { x }");
    let ast = match parse_program(&tokens) {
        Ok(ast) => ast,
        Err(_) => panic!("the program should parse"),
    };
    assert_eq!(ast.len(), 2);
    assert_eq!(ast[0].span.start, 0);
    assert_eq!(ast.last().unwrap().span.end, tokens.len() - 1);
}
