use vstd::prelude::*;

use crate::ast::{
    binop_str, unop_str, BinaryOperator, ExpressionKindView, ExpressionView, StatementKindView,
    StatementView, UnaryOperator,
};
use crate::errors::{EvaluationErrorKindView, EvaluationErrorView};
use crate::num::{
    add_bits, div_bits, float_eq, float_le, float_lt, from_int_bits, mod_bits, mul_bits, neg_bits,
    parse_num_spec, sub_bits, trunc_usize, Num,
};
use crate::scope::{pop_frame, scope_assign, scope_insert, scope_lookup};
use crate::span::Span;
use crate::value::{
    eq_value, str_of_value, type_tag, utf8_len_clamped, utf8_len_seq, HostFn, ValueView,
    VariableView,
};

verus! {

/// How one evaluation step ended: a value, a fault, a request to end the
/// process, exhaustion of the step budget, or a step outside the model (a
/// line read from standard input, whose text the environment decides).
pub enum Flow {
    Next(ValueView),
    Failed(EvaluationErrorView),
    Exited(Num),
    Spent,
    Outside,
}

/// The result of evaluating a construct: how it ended, the scope it left,
/// and the text it wrote to standard output on the way.
pub struct EvalRes {
    pub flow: Flow,
    pub sc: Seq<Map<Seq<char>, VariableView>>,
    pub log: Seq<char>,
}

pub open spec fn failed(
    kind: EvaluationErrorKindView,
    span: Span,
    sc: Seq<Map<Seq<char>, VariableView>>,
) -> EvalRes {
    EvalRes { flow: Flow::Failed(EvaluationErrorView { kind, span }), sc, log: Seq::empty() }
}

pub open spec fn invalid_type(
    found: ValueView,
    expected: Seq<Seq<char>>,
    span: Span,
    sc: Seq<Map<Seq<char>, VariableView>>,
) -> EvalRes {
    failed(EvaluationErrorKindView::InvalidType(type_tag(found), expected), span, sc)
}

/// What a unary operator makes of a value.
pub open spec fn apply_unary(op: UnaryOperator, v: ValueView, span: Span) -> Result<
    ValueView,
    EvaluationErrorView,
> {
    match (op, v) {
        (UnaryOperator::Negate, ValueView::Number(n)) => Ok(ValueView::Number(Num(neg_bits(n.0)))),
        (UnaryOperator::Not, ValueView::Boolean(b)) => Ok(ValueView::Boolean(!b)),
        (UnaryOperator::Identity, ValueView::Number(n)) => Ok(ValueView::Number(n)),
        _ => Err(
            EvaluationErrorView {
                kind: EvaluationErrorKindView::InvalidOperator(
                    unop_str(op),
                    type_tag(v),
                    Seq::empty(),
                ),
                span,
            },
        ),
    }
}

/// The numbers of an inclusive whole range.
pub open spec fn range_vals(a: nat, b: nat) -> Seq<ValueView> {
    if a > b {
        Seq::empty()
    } else {
        Seq::new((b - a + 1) as nat, |i: int| ValueView::Number(Num(from_int_bits((a + i) as u64))))
    }
}

/// What a binary operator, other than the short-circuit pair, makes of
/// its two evaluated operands.
pub open spec fn apply_binary(op: BinaryOperator, l: ValueView, r: ValueView, span: Span) -> Result<
    ValueView,
    EvaluationErrorView,
> {
    if op is Equal {
        Ok(ValueView::Boolean(eq_value(l, r)))
    } else if op is NotEqual {
        Ok(ValueView::Boolean(!eq_value(l, r)))
    } else {
        match (l, r) {
            (ValueView::Number(x), ValueView::Number(y)) => {
                match op {
                    BinaryOperator::Add => Ok(ValueView::Number(Num(add_bits(x.0, y.0)))),
                    BinaryOperator::Subtract => Ok(ValueView::Number(Num(sub_bits(x.0, y.0)))),
                    BinaryOperator::Multiply => Ok(ValueView::Number(Num(mul_bits(x.0, y.0)))),
                    BinaryOperator::Divide => Ok(ValueView::Number(Num(div_bits(x.0, y.0)))),
                    BinaryOperator::Modulo => Ok(ValueView::Number(Num(mod_bits(x.0, y.0)))),
                    BinaryOperator::LessThan => Ok(ValueView::Boolean(float_lt(x.0, y.0))),
                    BinaryOperator::LessThanOrEqual => Ok(ValueView::Boolean(float_le(x.0, y.0))),
                    BinaryOperator::GreaterThan => Ok(ValueView::Boolean(float_lt(y.0, x.0))),
                    BinaryOperator::GreaterThanOrEqual => Ok(
                        ValueView::Boolean(float_le(y.0, x.0)),
                    ),
                    BinaryOperator::Range => {
                        if float_lt(y.0, x.0) {
                            Err(
                                EvaluationErrorView {
                                    kind: EvaluationErrorKindView::InvalidRange(x, y),
                                    span,
                                },
                            )
                        } else {
                            Ok(
                                ValueView::Array(
                                    range_vals(trunc_usize(x.0), trunc_usize(y.0)),
                                ),
                            )
                        }
                    },
                    _ => Err(invalid_operator(op, l, r, span)),
                }
            },
            (ValueView::String(x), ValueView::String(y)) => {
                match op {
                    BinaryOperator::Add => Ok(ValueView::String(x + y)),
                    BinaryOperator::LessThan => Ok(ValueView::Boolean(crate::value::lex_lt(x, y))),
                    BinaryOperator::LessThanOrEqual => Ok(
                        ValueView::Boolean(crate::value::lex_le(x, y)),
                    ),
                    BinaryOperator::GreaterThan => Ok(
                        ValueView::Boolean(crate::value::lex_lt(y, x)),
                    ),
                    BinaryOperator::GreaterThanOrEqual => Ok(
                        ValueView::Boolean(crate::value::lex_le(y, x)),
                    ),
                    _ => Err(invalid_operator(op, l, r, span)),
                }
            },
            (ValueView::String(x), _) => {
                if op is Add {
                    Ok(ValueView::String(x + str_of_value(r)))
                } else {
                    Err(invalid_operator(op, l, r, span))
                }
            },
            (_, ValueView::String(y)) => {
                if op is Add {
                    Ok(ValueView::String(str_of_value(l) + y))
                } else {
                    Err(invalid_operator(op, l, r, span))
                }
            },
            _ => Err(invalid_operator(op, l, r, span)),
        }
    }
}

pub open spec fn invalid_operator(
    op: BinaryOperator,
    l: ValueView,
    r: ValueView,
    span: Span,
) -> EvaluationErrorView {
    EvaluationErrorView {
        kind: EvaluationErrorKindView::InvalidOperator(binop_str(op), type_tag(l), type_tag(r)),
        span,
    }
}

/// The byte length of a text clamped to the machine index range, as error
/// payloads report it.
pub open spec fn byte_len_usize(s: Seq<char>) -> usize {
    if utf8_len_seq(s) > usize::MAX {
        usize::MAX
    } else {
        utf8_len_seq(s) as usize
    }
}

/// What indexing an iterable value at a number yields.
pub open spec fn apply_index(itv: ValueView, idxv: ValueView, span: Span) -> Result<
    ValueView,
    EvaluationErrorView,
> {
    match (itv, idxv) {
        (ValueView::Array(a), ValueView::Number(n)) => {
            let i = trunc_usize(n.0);
            if i < a.len() {
                Ok(a[i as int])
            } else {
                Err(
                    EvaluationErrorView {
                        kind: EvaluationErrorKindView::IndexOutOfBounds(
                            i as usize,
                            a.len() as usize,
                        ),
                        span,
                    },
                )
            }
        },
        (ValueView::String(s), ValueView::Number(n)) => {
            let i = trunc_usize(n.0);
            if i < s.len() {
                Ok(ValueView::String(seq![s[i as int]]))
            } else {
                Err(
                    EvaluationErrorView {
                        kind: EvaluationErrorKindView::IndexOutOfBounds(
                            i as usize,
                            byte_len_usize(s),
                        ),
                        span,
                    },
                )
            }
        },
        _ => Err(
            EvaluationErrorView {
                kind: EvaluationErrorKindView::InvalidType(type_tag(itv), seq!["Array"@]),
                span,
            },
        ),
    }
}

/// The single-character strings a text iterates as.
pub open spec fn char_vals(s: Seq<char>) -> Seq<ValueView> {
    Seq::new(s.len(), |i: int| ValueView::String(seq![s[i]]))
}

/// The elements whose kind tag differs from the given one, in order.
pub open spec fn filtered_vals(a: Seq<ValueView>, tag: Seq<char>, i: nat) -> Seq<ValueView>
    decreases a.len() - i,
{
    if i >= a.len() {
        Seq::empty()
    } else if type_tag(a[i as int]) != tag {
        seq![a[i as int]] + filtered_vals(a, tag, i + 1)
    } else {
        filtered_vals(a, tag, i + 1)
    }
}

/// What a builtin makes of its evaluated arguments: how the call ends and
/// what it writes. A line read from standard input leaves the model.
pub open spec fn host_call(f: HostFn, args: Seq<ValueView>, span: Span) -> (Flow, Seq<char>) {
    if args.len() != f.spec_arity() {
        (
            Flow::Failed(
                EvaluationErrorView {
                    kind: EvaluationErrorKindView::IncorrectParameterCount(
                        args.len() as usize,
                        f.spec_arity() as usize,
                    ),
                    span,
                },
            ),
            Seq::empty(),
        )
    } else {
    match f {
        HostFn::Println => (Flow::Next(ValueView::Void), str_of_value(args[0]) + seq!['\n']),
        HostFn::Print => (Flow::Next(ValueView::Void), str_of_value(args[0])),
        HostFn::Exit => match args[0] {
            ValueView::Number(n) => (Flow::Exited(n), Seq::empty()),
            _ => (host_fail(type_tag(args[0]), seq!["Number"@], span), Seq::empty()),
        },
        HostFn::Readln => (Flow::Outside, Seq::empty()),
        HostFn::Assert => match args[0] {
            ValueView::Boolean(b) => if b {
                (Flow::Next(ValueView::Void), Seq::empty())
            } else {
                (
                    Flow::Failed(
                        EvaluationErrorView { kind: EvaluationErrorKindView::AssertionFailed, span },
                    ),
                    Seq::empty(),
                )
            },
            _ => (host_fail(type_tag(args[0]), seq!["Boolean"@], span), Seq::empty()),
        },
        HostFn::Parse => match args[0] {
            ValueView::String(s) => match parse_num_spec(s) {
                Some(bits) => (Flow::Next(ValueView::Number(Num(bits))), Seq::empty()),
                None => (Flow::Next(ValueView::Void), Seq::empty()),
            },
            _ => (host_fail(type_tag(args[0]), seq!["String"@], span), Seq::empty()),
        },
        HostFn::Type => (Flow::Next(ValueView::String(type_tag(args[0]))), Seq::empty()),
        HostFn::Len => match args[0] {
            ValueView::String(s) => (
                Flow::Next(ValueView::Number(Num(from_int_bits(utf8_len_clamped(s))))),
                Seq::empty(),
            ),
            ValueView::Array(a) => (
                Flow::Next(ValueView::Number(Num(from_int_bits(a.len() as u64)))),
                Seq::empty(),
            ),
            _ => (host_fail(type_tag(args[0]), seq!["String"@, "Array"@], span), Seq::empty()),
        },
        HostFn::Filter => match args[0] {
            ValueView::Array(a) => match args[1] {
                ValueView::String(tag) => (
                    Flow::Next(ValueView::Array(filtered_vals(a, tag, 0))),
                    Seq::empty(),
                ),
                _ => (host_fail(type_tag(args[1]), seq!["String"@], span), Seq::empty()),
            },
            _ => (host_fail(type_tag(args[0]), seq!["Array"@], span), Seq::empty()),
        },
        HostFn::Concat => match args[0] {
            ValueView::Array(a) => match args[1] {
                ValueView::Array(b) => (Flow::Next(ValueView::Array(a + b)), Seq::empty()),
                _ => (host_fail(type_tag(args[1]), seq!["Array"@], span), Seq::empty()),
            },
            _ => (host_fail(type_tag(args[0]), seq!["Array"@], span), Seq::empty()),
        },
    }
    }
}

pub open spec fn host_fail(found: Seq<char>, expected: Seq<Seq<char>>, span: Span) -> Flow {
    Flow::Failed(
        EvaluationErrorView { kind: EvaluationErrorKindView::InvalidType(found, expected), span },
    )
}

/// Evaluates a statement. The budget pays for one step of every nested
/// evaluation, so any terminating run has a budget that reaches its end.
pub open spec fn eval_stmt(
    s: StatementView,
    sc: Seq<Map<Seq<char>, VariableView>>,
    fuel: nat,
) -> EvalRes
    decreases fuel,
{
    if fuel == 0 {
        EvalRes { flow: Flow::Spent, sc, log: Seq::empty() }
    } else {
        match s.kind {
            StatementKindView::Block(ss) => {
                let r = eval_stmts(ss, 0, ValueView::Void, sc.push(Map::empty()), (fuel - 1) as nat);
                match r.flow {
                    Flow::Next(v) => EvalRes {
                        flow: Flow::Next(v),
                        sc: pop_frame(r.sc),
                        log: r.log,
                    },
                    _ => r,
                }
            },
            StatementKindView::Let { name, value, constant } => {
                let bound = scope_lookup(sc, name);
                if bound matches Some(var) && var.constant {
                    failed(EvaluationErrorKindView::ConstantReassignment(name), s.span, sc)
                } else {
                    let r = eval_expr(value, sc, (fuel - 1) as nat);
                    match r.flow {
                        Flow::Next(v) => EvalRes {
                            flow: Flow::Next(v),
                            sc: scope_insert(r.sc, name, VariableView { value: v, constant }),
                            log: r.log,
                        },
                        _ => r,
                    }
                }
            },
            StatementKindView::Expression(e) => eval_expr(e, sc, (fuel - 1) as nat),
            StatementKindView::FunctionDeclaration { name, parameters, body } => {
                let f = ValueView::Function { parameters, body: *body };
                EvalRes {
                    flow: Flow::Next(ValueView::Void),
                    sc: scope_insert(sc, name, VariableView { value: f, constant: false }),
                    log: Seq::empty(),
                }
            },
            StatementKindView::Assignment { name, value } => {
                match scope_lookup(sc, name) {
                    None => failed(EvaluationErrorKindView::UndefinedVariable(name), s.span, sc),
                    Some(var) => {
                        if var.constant {
                            failed(
                                EvaluationErrorKindView::ConstantReassignment(name),
                                s.span,
                                sc,
                            )
                        } else {
                            let r = eval_expr(value, sc, (fuel - 1) as nat);
                            match r.flow {
                                Flow::Next(v) => EvalRes {
                                    flow: Flow::Next(v),
                                    sc: scope_assign(
                                        r.sc,
                                        name,
                                        VariableView { value: v, constant: false },
                                    ),
                                    log: r.log,
                                },
                                _ => r,
                            }
                        }
                    },
                }
            },
        }
    }
}

/// Evaluates the statements from `i` on; the whole run's value is the
/// last statement's, or the given one when none is left.
pub open spec fn eval_stmts(
    ss: Seq<StatementView>,
    i: nat,
    last: ValueView,
    sc: Seq<Map<Seq<char>, VariableView>>,
    fuel: nat,
) -> EvalRes
    decreases fuel,
{
    if fuel == 0 {
        EvalRes { flow: Flow::Spent, sc, log: Seq::empty() }
    } else if i >= ss.len() {
        EvalRes { flow: Flow::Next(last), sc, log: Seq::empty() }
    } else {
        let r = eval_stmt(ss[i as int], sc, (fuel - 1) as nat);
        match r.flow {
            Flow::Next(v) => {
                let rest = eval_stmts(ss, i + 1, v, r.sc, (fuel - 1) as nat);
                EvalRes { flow: rest.flow, sc: rest.sc, log: r.log + rest.log }
            },
            _ => r,
        }
    }
}

/// Evaluates the expressions from `i` on, left to right, carrying the
/// values gathered so far as an array.
pub open spec fn eval_exprs(
    es: Seq<ExpressionView>,
    i: nat,
    acc: Seq<ValueView>,
    sc: Seq<Map<Seq<char>, VariableView>>,
    fuel: nat,
) -> EvalRes
    decreases fuel,
{
    if fuel == 0 {
        EvalRes { flow: Flow::Spent, sc, log: Seq::empty() }
    } else if i >= es.len() {
        EvalRes { flow: Flow::Next(ValueView::Array(acc)), sc, log: Seq::empty() }
    } else {
        let r = eval_expr(es[i as int], sc, (fuel - 1) as nat);
        match r.flow {
            Flow::Next(v) => {
                let rest = eval_exprs(es, i + 1, acc.push(v), r.sc, (fuel - 1) as nat);
                EvalRes { flow: rest.flow, sc: rest.sc, log: r.log + rest.log }
            },
            _ => r,
        }
    }
}

/// Runs a while loop, carrying the values of the completed iterations.
pub open spec fn eval_while(
    cond: ExpressionView,
    body: StatementView,
    acc: Seq<ValueView>,
    span: Span,
    sc: Seq<Map<Seq<char>, VariableView>>,
    fuel: nat,
) -> EvalRes
    decreases fuel,
{
    if fuel == 0 {
        EvalRes { flow: Flow::Spent, sc, log: Seq::empty() }
    } else {
        let rc = eval_expr(cond, sc, (fuel - 1) as nat);
        match rc.flow {
            Flow::Next(cv) => match cv {
                ValueView::Boolean(b) => {
                    if !b {
                        EvalRes { flow: Flow::Next(ValueView::Array(acc)), sc: rc.sc, log: rc.log }
                    } else {
                        let rb = eval_stmt(body, rc.sc.push(Map::empty()), (fuel - 1) as nat);
                        match rb.flow {
                            Flow::Next(v) => {
                                let rest = eval_while(
                                    cond,
                                    body,
                                    acc.push(v),
                                    span,
                                    pop_frame(rb.sc),
                                    (fuel - 1) as nat,
                                );
                                EvalRes {
                                    flow: rest.flow,
                                    sc: rest.sc,
                                    log: rc.log + rb.log + rest.log,
                                }
                            },
                            _ => EvalRes { flow: rb.flow, sc: rb.sc, log: rc.log + rb.log },
                        }
                    }
                },
                _ => EvalRes {
                    flow: invalid_type(cv, seq!["Boolean"@], span, rc.sc).flow,
                    sc: rc.sc,
                    log: rc.log,
                },
            },
            _ => rc,
        }
    }
}

/// Runs a for loop over the items from `i` on, carrying the values of the
/// completed iterations.
pub open spec fn eval_foreach(
    var: Seq<char>,
    items: Seq<ValueView>,
    i: nat,
    body: StatementView,
    acc: Seq<ValueView>,
    sc: Seq<Map<Seq<char>, VariableView>>,
    fuel: nat,
) -> EvalRes
    decreases fuel,
{
    if fuel == 0 {
        EvalRes { flow: Flow::Spent, sc, log: Seq::empty() }
    } else if i >= items.len() {
        EvalRes { flow: Flow::Next(ValueView::Array(acc)), sc, log: Seq::empty() }
    } else {
        let pushed = scope_insert(
            sc.push(Map::empty()),
            var,
            VariableView { value: items[i as int], constant: true },
        );
        let rb = eval_stmt(body, pushed, (fuel - 1) as nat);
        match rb.flow {
            Flow::Next(v) => {
                let rest = eval_foreach(
                    var,
                    items,
                    i + 1,
                    body,
                    acc.push(v),
                    pop_frame(rb.sc),
                    (fuel - 1) as nat,
                );
                EvalRes { flow: rest.flow, sc: rest.sc, log: rb.log + rest.log }
            },
            _ => rb,
        }
    }
}

/// Evaluates the arguments of a user function call from `i` on inside the
/// already-entered frame, binding each under its parameter name as a
/// constant before the next is evaluated.
pub open spec fn eval_bind_args(
    params: Seq<Seq<char>>,
    args: Seq<ExpressionView>,
    i: nat,
    sc: Seq<Map<Seq<char>, VariableView>>,
    fuel: nat,
) -> EvalRes
    decreases fuel,
{
    if fuel == 0 {
        EvalRes { flow: Flow::Spent, sc, log: Seq::empty() }
    } else if i >= args.len() || i >= params.len() {
        EvalRes { flow: Flow::Next(ValueView::Void), sc, log: Seq::empty() }
    } else {
        let r = eval_expr(args[i as int], sc, (fuel - 1) as nat);
        match r.flow {
            Flow::Next(v) => {
                let bound = scope_insert(
                    r.sc,
                    params[i as int],
                    VariableView { value: v, constant: true },
                );
                let rest = eval_bind_args(params, args, i + 1, bound, (fuel - 1) as nat);
                EvalRes { flow: rest.flow, sc: rest.sc, log: r.log + rest.log }
            },
            _ => r,
        }
    }
}

/// Evaluates an expression.
pub open spec fn eval_expr(
    e: ExpressionView,
    sc: Seq<Map<Seq<char>, VariableView>>,
    fuel: nat,
) -> EvalRes
    decreases fuel,
{
    if fuel == 0 {
        EvalRes { flow: Flow::Spent, sc, log: Seq::empty() }
    } else {
        match e.kind {
            ExpressionKindView::Void => EvalRes {
                flow: Flow::Next(ValueView::Void),
                sc,
                log: Seq::empty(),
            },
            ExpressionKindView::Identifier(name) => match scope_lookup(sc, name) {
                Some(var) => EvalRes { flow: Flow::Next(var.value), sc, log: Seq::empty() },
                None => failed(EvaluationErrorKindView::UndefinedVariable(name), e.span, sc),
            },
            ExpressionKindView::NumberLiteral(n) => EvalRes {
                flow: Flow::Next(ValueView::Number(n)),
                sc,
                log: Seq::empty(),
            },
            ExpressionKindView::StringLiteral(s) => EvalRes {
                flow: Flow::Next(ValueView::String(s)),
                sc,
                log: Seq::empty(),
            },
            ExpressionKindView::BooleanLiteral(b) => EvalRes {
                flow: Flow::Next(ValueView::Boolean(b)),
                sc,
                log: Seq::empty(),
            },
            ExpressionKindView::ArrayLiteral(es) => eval_exprs(
                es,
                0,
                Seq::empty(),
                sc,
                (fuel - 1) as nat,
            ),
            ExpressionKindView::Index { iterable, index } => {
                let ri = eval_expr(*iterable, sc, (fuel - 1) as nat);
                match ri.flow {
                    Flow::Next(itv) => {
                        let rx = eval_expr(*index, ri.sc, (fuel - 1) as nat);
                        match rx.flow {
                            Flow::Next(xv) => {
                                let res = match apply_index(itv, xv, e.span) {
                                    Ok(v) => Flow::Next(v),
                                    Err(err) => Flow::Failed(err),
                                };
                                EvalRes { flow: res, sc: rx.sc, log: ri.log + rx.log }
                            },
                            _ => EvalRes { flow: rx.flow, sc: rx.sc, log: ri.log + rx.log },
                        }
                    },
                    _ => ri,
                }
            },
            ExpressionKindView::Slice { start, end, iterable } => eval_slice_expr(
                e,
                start,
                end,
                *iterable,
                sc,
                (fuel - 1) as nat,
            ),
            ExpressionKindView::FunctionCall { name, arguments } => {
                match scope_lookup(sc, name) {
                    None => failed(EvaluationErrorKindView::UndefinedVariable(name), e.span, sc),
                    Some(var) => match var.value {
                        ValueView::RustFunction { parameter_count, function } => {
                            if arguments.len() != parameter_count {
                                failed(
                                    EvaluationErrorKindView::IncorrectParameterCount(
                                        arguments.len() as usize,
                                        parameter_count,
                                    ),
                                    e.span,
                                    sc,
                                )
                            } else {
                                let ra = eval_exprs(
                                    arguments,
                                    0,
                                    Seq::empty(),
                                    sc,
                                    (fuel - 1) as nat,
                                );
                                match ra.flow {
                                    Flow::Next(carrier) => {
                                        let (hf, hlog) = host_call(
                                            function,
                                            carrier->Array_0,
                                            e.span,
                                        );
                                        EvalRes { flow: hf, sc: ra.sc, log: ra.log + hlog }
                                    },
                                    _ => ra,
                                }
                            }
                        },
                        ValueView::Function { parameters, body } => {
                            if arguments.len() != parameters.len() {
                                failed(
                                    EvaluationErrorKindView::IncorrectParameterCount(
                                        arguments.len() as usize,
                                        parameters.len() as usize,
                                    ),
                                    e.span,
                                    sc,
                                )
                            } else {
                                let rb = eval_bind_args(
                                    parameters,
                                    arguments,
                                    0,
                                    sc.push(Map::empty()),
                                    (fuel - 1) as nat,
                                );
                                match rb.flow {
                                    Flow::Next(_) => {
                                        let rr = eval_stmt(body, rb.sc, (fuel - 1) as nat);
                                        match rr.flow {
                                            Flow::Next(v) => EvalRes {
                                                flow: Flow::Next(v),
                                                sc: pop_frame(rr.sc),
                                                log: rb.log + rr.log,
                                            },
                                            _ => EvalRes {
                                                flow: rr.flow,
                                                sc: pop_frame(rr.sc),
                                                log: rb.log + rr.log,
                                            },
                                        }
                                    },
                                    _ => rb,
                                }
                            }
                        },
                        _ => invalid_type(var.value, seq!["Function"@], e.span, sc),
                    },
                }
            },
            ExpressionKindView::If { condition, consequence, alternative } => {
                let rc = eval_expr(*condition, sc, (fuel - 1) as nat);
                match rc.flow {
                    Flow::Next(cv) => match cv {
                        ValueView::Boolean(b) => {
                            if b {
                                let rr = eval_stmt(*consequence, rc.sc, (fuel - 1) as nat);
                                EvalRes { flow: rr.flow, sc: rr.sc, log: rc.log + rr.log }
                            } else {
                                match alternative {
                                    Some(alt) => {
                                        let rr = eval_stmt(*alt, rc.sc, (fuel - 1) as nat);
                                        EvalRes { flow: rr.flow, sc: rr.sc, log: rc.log + rr.log }
                                    },
                                    None => EvalRes {
                                        flow: Flow::Next(ValueView::Void),
                                        sc: rc.sc,
                                        log: rc.log,
                                    },
                                }
                            }
                        },
                        _ => EvalRes {
                            flow: invalid_type(cv, seq!["Boolean"@], e.span, rc.sc).flow,
                            sc: rc.sc,
                            log: rc.log,
                        },
                    },
                    _ => rc,
                }
            },
            ExpressionKindView::For { variable, iterable, body } => {
                let ri = eval_expr(*iterable, sc, (fuel - 1) as nat);
                match ri.flow {
                    Flow::Next(itv) => match itv {
                        ValueView::Array(items) => {
                            let rr = eval_foreach(
                                variable,
                                items,
                                0,
                                *body,
                                Seq::empty(),
                                ri.sc,
                                (fuel - 1) as nat,
                            );
                            EvalRes { flow: rr.flow, sc: rr.sc, log: ri.log + rr.log }
                        },
                        ValueView::String(s) => {
                            let rr = eval_foreach(
                                variable,
                                char_vals(s),
                                0,
                                *body,
                                Seq::empty(),
                                ri.sc,
                                (fuel - 1) as nat,
                            );
                            EvalRes { flow: rr.flow, sc: rr.sc, log: ri.log + rr.log }
                        },
                        _ => EvalRes {
                            flow: invalid_type(itv, seq!["Array"@], e.span, ri.sc).flow,
                            sc: ri.sc,
                            log: ri.log,
                        },
                    },
                    _ => ri,
                }
            },
            ExpressionKindView::While { condition, body } => eval_while(
                *condition,
                *body,
                Seq::empty(),
                e.span,
                sc,
                (fuel - 1) as nat,
            ),
            ExpressionKindView::Binary { operator, left, right } => {
                if operator is And || operator is Or {
                    let rl = eval_expr(*left, sc, (fuel - 1) as nat);
                    match rl.flow {
                        Flow::Next(lv) => match lv {
                            ValueView::Boolean(lb) => {
                                if (operator is And && !lb) || (operator is Or && lb) {
                                    EvalRes {
                                        flow: Flow::Next(ValueView::Boolean(lb)),
                                        sc: rl.sc,
                                        log: rl.log,
                                    }
                                } else {
                                    let rr = eval_expr(*right, rl.sc, (fuel - 1) as nat);
                                    match rr.flow {
                                        Flow::Next(rv) => match rv {
                                            ValueView::Boolean(rb) => EvalRes {
                                                flow: Flow::Next(ValueView::Boolean(rb)),
                                                sc: rr.sc,
                                                log: rl.log + rr.log,
                                            },
                                            _ => EvalRes {
                                                flow: invalid_type(
                                                    rv,
                                                    seq!["Boolean"@],
                                                    e.span,
                                                    rr.sc,
                                                ).flow,
                                                sc: rr.sc,
                                                log: rl.log + rr.log,
                                            },
                                        },
                                        _ => EvalRes {
                                            flow: rr.flow,
                                            sc: rr.sc,
                                            log: rl.log + rr.log,
                                        },
                                    }
                                }
                            },
                            _ => EvalRes {
                                flow: invalid_type(lv, seq!["Boolean"@], e.span, rl.sc).flow,
                                sc: rl.sc,
                                log: rl.log,
                            },
                        },
                        _ => rl,
                    }
                } else {
                    let rl = eval_expr(*left, sc, (fuel - 1) as nat);
                    match rl.flow {
                        Flow::Next(lv) => {
                            let rr = eval_expr(*right, rl.sc, (fuel - 1) as nat);
                            match rr.flow {
                                Flow::Next(rv) => {
                                    let res = match apply_binary(operator, lv, rv, e.span) {
                                        Ok(v) => Flow::Next(v),
                                        Err(err) => Flow::Failed(err),
                                    };
                                    EvalRes { flow: res, sc: rr.sc, log: rl.log + rr.log }
                                },
                                _ => EvalRes { flow: rr.flow, sc: rr.sc, log: rl.log + rr.log },
                            }
                        },
                        _ => rl,
                    }
                }
            },
            ExpressionKindView::Unary { operator, operand } => {
                let ro = eval_expr(*operand, sc, (fuel - 1) as nat);
                match ro.flow {
                    Flow::Next(v) => {
                        let res = match apply_unary(operator, v, e.span) {
                            Ok(v2) => Flow::Next(v2),
                            Err(err) => Flow::Failed(err),
                        };
                        EvalRes { flow: res, sc: ro.sc, log: ro.log }
                    },
                    _ => ro,
                }
            },
        }
    }
}

/// Evaluates a slice: the iterable, then the optional bounds, then the
/// checked cut.
pub open spec fn eval_slice_expr(
    e: ExpressionView,
    start: Option<Box<ExpressionView>>,
    end: Option<Box<ExpressionView>>,
    iterable: ExpressionView,
    sc: Seq<Map<Seq<char>, VariableView>>,
    fuel: nat,
) -> EvalRes
    decreases fuel, 0nat,
{
    if fuel == 0 {
        EvalRes { flow: Flow::Spent, sc, log: Seq::empty() }
    } else {
        let ri = eval_expr(iterable, sc, (fuel - 1) as nat);
        match ri.flow {
            Flow::Next(itv) => {
                if !(itv is Array || itv is String) {
                    EvalRes {
                        flow: invalid_type(itv, seq!["Array"@, "String"@], e.span, ri.sc).flow,
                        sc: ri.sc,
                        log: ri.log,
                    }
                } else {
                    let len: nat = match itv {
                        ValueView::Array(a) => a.len(),
                        ValueView::String(s) => s.len(),
                        _ => 0,
                    };
                    let (rs, a) = eval_slice_bound(e, start, 0, ri.sc, (fuel - 1) as nat);
                    match rs.flow {
                        Flow::Next(sv) => {
                            let (re, b) = eval_slice_bound(e, end, len, rs.sc, (fuel - 1) as nat);
                            match re.flow {
                                Flow::Next(ev) => {
                                    let res: Flow = if a > b {
                                        Flow::Failed(
                                            EvaluationErrorView {
                                                kind: EvaluationErrorKindView::InvalidRange(
                                                    Num(from_int_bits(a as u64)),
                                                    Num(from_int_bits(b as u64)),
                                                ),
                                                span: e.span,
                                            },
                                        )
                                    } else if b > len {
                                        Flow::Failed(
                                            EvaluationErrorView {
                                                kind: EvaluationErrorKindView::IndexOutOfBounds(
                                                    b as usize,
                                                    len as usize,
                                                ),
                                                span: e.span,
                                            },
                                        )
                                    } else {
                                        match itv {
                                            ValueView::Array(arr) => Flow::Next(
                                                ValueView::Array(arr.subrange(a as int, b as int)),
                                            ),
                                            ValueView::String(st) => Flow::Next(
                                                ValueView::String(st.subrange(a as int, b as int)),
                                            ),
                                            _ => Flow::Next(ValueView::Void),
                                        }
                                    };
                                    EvalRes {
                                        flow: res,
                                        sc: re.sc,
                                        log: ri.log + rs.log + re.log,
                                    }
                                },
                                _ => EvalRes {
                                    flow: re.flow,
                                    sc: re.sc,
                                    log: ri.log + rs.log + re.log,
                                },
                            }
                        },
                        _ => EvalRes { flow: rs.flow, sc: rs.sc, log: ri.log + rs.log },
                    }
                }
            },
            _ => ri,
        }
    }
}

/// Evaluates one optional slice bound: the default position when absent,
/// and otherwise a value that must be a number, truncated to a position.
pub open spec fn eval_slice_bound(
    e: ExpressionView,
    bound: Option<Box<ExpressionView>>,
    deflt: nat,
    sc: Seq<Map<Seq<char>, VariableView>>,
    fuel: nat,
) -> (EvalRes, nat)
    decreases fuel, 0nat,
{
    match bound {
        None => (
            EvalRes { flow: Flow::Next(ValueView::Void), sc, log: Seq::empty() },
            deflt,
        ),
        Some(b) => {
            if fuel == 0 {
                (EvalRes { flow: Flow::Spent, sc, log: Seq::empty() }, 0)
            } else {
                let r = eval_expr(*b, sc, (fuel - 1) as nat);
                match r.flow {
                    Flow::Next(v) => match v {
                        ValueView::Number(n) => (r, trunc_usize(n.0)),
                        _ => (
                            EvalRes {
                                flow: invalid_type(v, seq!["Number"@], e.span, r.sc).flow,
                                sc: r.sc,
                                log: r.log,
                            },
                            0,
                        ),
                    },
                    _ => (r, 0),
                }
            }
        },
    }
}

/// Evaluates a whole program: the statements in order, the value being
/// the last one's, or void for an empty program.
pub open spec fn eval_program(
    ss: Seq<StatementView>,
    sc: Seq<Map<Seq<char>, VariableView>>,
    fuel: nat,
) -> EvalRes {
    eval_stmts(ss, 0, ValueView::Void, sc, fuel)
}

} // verus!
