use telid::errors::EvaluationErrorKind;
use telid::evaluator::{evaluate, Halt, Host};
use telid::lexer::Lexer;
use telid::num::Num;
use telid::parser::parse_program;
use telid::scope;
use telid::scope::Scope;
use telid::span::Span;
use telid::value::Value;

fn chars(s: &str) -> Vec<char> {
    s.chars().collect()
}

fn run(source: &str) -> Result<(Value, Scope), Halt> {
    let mut lexer = Lexer::new(source);
    let tokens = lexer.lex(false);
    let kinds: Vec<telid::tokens::TokenKind> = tokens.into_iter().map(|t| t.kind).collect();
    let program = match parse_program(&kinds) {
        Ok(p) => p,
        Err(_) => panic!("the program should parse: {}", source),
    };
    let mut host = Host::new();
    evaluate(program, scope::default(), &mut host)
}

fn run_value(source: &str) -> Value {
    run(source).map(|p| p.0).unwrap_or_else(|_| panic!("evaluation failed"))
}

fn run_error(source: &str) -> telid::errors::EvaluationError {
    match run(source) {
        Err(Halt::Failed(e)) => e,
        _ => panic!("an evaluation error was expected"),
    }
}

fn is_num(v: &Value, x: f64) -> bool {
    matches!(v, Value::Number(n) if n.0 == x.to_bits())
}

fn expression_case() {
    let source = "let x = + 5 * 5 2;";
    let mut lexer = Lexer::new(source);
    let tokens = lexer.lex(false);
    let kinds: Vec<telid::tokens::TokenKind> = tokens.into_iter().map(|t| t.kind).collect();
    let ast = match parse_program(&kinds) {
        Ok(p) => p,
        Err(_) => panic!("the program should parse"),
    };
    let mut host = Host::new();
    let result = evaluate(ast, Scope::new(), &mut host).unwrap();
    let var = result.1.get(&chars("x")).unwrap();
    assert!(is_num(&var.value, 15.0));
    assert!(!var.constant);
}

#[test]
fn test_expression() {
    expression_case();
}

#[test]
fn tests_test_expression() {
    expression_case();
}

#[test]
fn factorial_recursion() {
    let v = run_value("let fn factorial n = if == n 0 { 1 } else { * n factorial(- n 1) }\nfactorial(5)");
    assert!(is_num(&v, 120.0));
}

#[test]
fn constant_reassignment_is_located() {
    let e = run_error("let const k = 1; k = 2;");
    assert!(matches!(&e.kind, EvaluationErrorKind::ConstantReassignment(n) if *n == chars("k")));
    assert_eq!(e.span, Span { start: 6, end: 9 });
}

#[test]
fn index_into_array() {
    let v = run_value("let a = [1, 2, 3]; [1]a");
    assert!(is_num(&v, 2.0));
}

#[test]
fn while_loop_counts() {
    let v = run_value("let i = 0; while < i 3 { i = + i 1 }; i");
    assert!(is_num(&v, 3.0));
}

#[test]
fn assertion_failure_is_located() {
    let e = run_error("assert(== 1 1); assert(== 1 2);");
    assert!(matches!(e.kind, EvaluationErrorKind::AssertionFailed));
    assert_eq!(e.span, Span { start: 7, end: 13 });
}

#[test]
fn block_value_is_last_statement() {
    assert!(is_num(&run_value("{ 1; 2; 3 }"), 3.0));
    assert!(matches!(run_value("{}"), Value::Void));
}

#[test]
fn scope_shadowing_restores_outer() {
    assert!(is_num(&run_value("let x = 1; { let x = 2; } x"), 1.0));
}

#[test]
fn const_rebinding_fails() {
    let e = run_error("let const x = 5; let x = 6;");
    assert!(matches!(&e.kind, EvaluationErrorKind::ConstantReassignment(n) if *n == chars("x")));
}

#[test]
fn short_circuit_skips_right_operand() {
    assert!(matches!(run_value("&& false missing()"), Value::Boolean(false)));
    assert!(matches!(run_value("|| true missing()"), Value::Boolean(true)));
}

#[test]
fn for_over_range() {
    let v = run_value("for i in .. 0 3 { i }");
    match v {
        Value::Array(items) => {
            assert_eq!(items.len(), 4);
            for (k, item) in items.iter().enumerate() {
                assert!(is_num(item, k as f64));
            }
        },
        _ => panic!("an array was expected"),
    }
    let e = run_error("for i in .. 0 - 0 5 { i }");
    assert!(matches!(e.kind, EvaluationErrorKind::InvalidRange(_, _)));
}

#[test]
fn index_round_trip_and_bounds() {
    assert!(is_num(&run_value("let a = [7, 8, 9]; [1]a"), 8.0));
    let e = run_error("let a = [7, 8, 9]; [5]a");
    assert!(matches!(e.kind, EvaluationErrorKind::IndexOutOfBounds(5, 3)));
}

#[test]
fn slice_identity() {
    assert!(matches!(run_value("let a = [1, 2]; == [..]a a"), Value::Boolean(true)));
    assert!(matches!(run_value("== [..]'abc' 'abc'"), Value::Boolean(true)));
}

#[test]
fn concat_and_len_add_up() {
    assert!(is_num(&run_value("len(concat([1, 2], [3, 4, 5]))"), 5.0));
}

#[test]
fn arithmetic_through_soft_float() {
    assert!(is_num(&run_value("+ 1 2"), 3.0));
    assert!(is_num(&run_value("/ 1 2"), 0.5));
    assert!(is_num(&run_value("% 7 4"), 3.0));
    assert!(is_num(&run_value("- 0 5"), -5.0));
}

#[test]
fn parse_builtin_reads_decimals() {
    assert!(is_num(&run_value("parse('4.5')"), 4.5));
    assert!(matches!(run_value("parse('nonsense')"), Value::Void));
    assert!(is_num(&run_value("parse('-2e2')"), -200.0));
}

#[test]
fn stringify_joins_numbers() {
    let v = run_value("+ 'v=' 15");
    match v {
        Value::String(s) => assert_eq!(s, chars("v=15")),
        _ => panic!("a string was expected"),
    }
    let v = run_value("+ '' 2.25");
    match v {
        Value::String(s) => assert_eq!(s, chars("2.25")),
        _ => panic!("a string was expected"),
    }
}

#[test]
fn type_tags() {
    match run_value("type(1)") {
        Value::String(s) => assert_eq!(s, chars("Number")),
        _ => panic!("a string was expected"),
    }
    match run_value("type(type)") {
        Value::String(s) => assert_eq!(s, chars("RustFunction")),
        _ => panic!("a string was expected"),
    }
}

#[test]
fn filter_removes_matching_kinds() {
    let v = run_value("filter([1, 'a', 2, true], 'Number')");
    match v {
        Value::Array(items) => {
            assert_eq!(items.len(), 2);
            assert!(matches!(items[0], Value::String(_)));
            assert!(matches!(items[1], Value::Boolean(true)));
        },
        _ => panic!("an array was expected"),
    }
}

#[test]
fn error_variants_have_inputs() {
    assert!(matches!(run_error("missing").kind, EvaluationErrorKind::UndefinedVariable(_)));
    assert!(matches!(run_error("if 1 1").kind, EvaluationErrorKind::InvalidType(_, _)));
    assert!(matches!(run_error("+ true false").kind, EvaluationErrorKind::InvalidOperator(_, _, _)));
    assert!(matches!(
        run_error("len()").kind,
        EvaluationErrorKind::IncorrectParameterCount(0, 1)
    ));
    assert!(matches!(run_error("[2..1][9, 9, 9]").kind, EvaluationErrorKind::InvalidRange(_, _)));
}

#[test]
fn error_messages_render() {
    let to_text = |v: Vec<char>| -> String { v.iter().collect() };
    let e = run_error("let a = [7, 8, 9]; [5]a");
    assert_eq!(
        to_text(telid::errors::error_kind_chars(&e.kind)),
        "IndexOutOfBounds: index 5 is not within the range [0..3)"
    );
    let e = run_error("+ true false");
    assert_eq!(
        to_text(telid::errors::error_kind_chars(&e.kind)),
        "InvalidOperator: \"Boolean\" \"+\" \"Boolean\""
    );
    let e = run_error("if 1 1");
    assert_eq!(
        to_text(telid::errors::error_kind_chars(&e.kind)),
        "InvalidType: found \"Number\", expected one of [\"Boolean\"]"
    );
    let e = run_error("missing");
    assert_eq!(
        to_text(telid::errors::error_kind_chars(&e.kind)),
        "UndefinedVariable: missing"
    );
    assert_eq!(
        to_text(telid::errors::lex_error_chars(
            &telid::tokens::LexError::UnterminatedStringLiteral
        )),
        "Unterminated string literal"
    );
}

#[test]
fn number_model_matches_hardware() {
    let samples: [(f64, f64); 6] = [
        (1.5, 2.5),
        (-1.0, 1.0),
        (0.0, -0.0),
        (f64::NAN, 1.0),
        (f64::INFINITY, 1.0e308),
        (-3.75, -3.5),
    ];
    for (a, b) in samples {
        let na = Num(a.to_bits());
        let nb = Num(b.to_bits());
        assert_eq!(na.lt_num(nb), a < b);
        assert_eq!(na.le_num(nb), a <= b);
        assert_eq!(na.eq_num(nb), a == b);
        assert_eq!(na.neg_num().0, (-a).to_bits());
        assert_eq!(na.trunc_index(), a as usize);
    }
    assert_eq!(
        telid::num::parse_num_chars(&chars("inf")).unwrap().0,
        f64::INFINITY.to_bits()
    );
    assert_eq!(
        telid::num::parse_num_chars(&chars("-Infinity")).unwrap().0,
        f64::NEG_INFINITY.to_bits()
    );
    assert!(telid::num::parse_num_chars(&chars("0x10")).is_none());
}
