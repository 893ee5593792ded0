use vstd::prelude::*;

use crate::ast::{BinaryOperator, ExpressionView, StatementKindView, StatementView};
use crate::errors::{EvaluationErrorKindView, EvaluationErrorView};
use crate::num::{float_lt, from_int_bits, num_is_nan, num_mag, num_sign, Num};
use crate::scope::{pop_frame, scope_insert, scope_lookup};
use crate::semantics::{
    apply_binary, apply_index, eval_expr, eval_slice_expr, eval_stmt, eval_stmts, range_vals,
    EvalRes, Flow,
};
use crate::span::Span;
use crate::value::{ValueView, VariableView};

verus! {

/// The value of a block does not come from the carried default: for a
/// statement row with statements left, the run reads the same whatever
/// value it would fall back to, so a block's value is its statements'.
pub proof fn lemma_stmts_default_free(
    ss: Seq<StatementView>,
    i: nat,
    a: ValueView,
    b: ValueView,
    sc: Seq<Map<Seq<char>, VariableView>>,
    fuel: nat,
)
    requires
        i < ss.len(),
    ensures
        eval_stmts(ss, i, a, sc, fuel) == eval_stmts(ss, i, b, sc, fuel),
{
}

/// The value of an empty block is void, and the block leaves the scope as
/// it found it and writes nothing.
pub proof fn lemma_block_empty_void(
    s: StatementView,
    sc: Seq<Map<Seq<char>, VariableView>>,
    fuel: nat,
)
    requires
        fuel >= 2,
        s.kind == StatementKindView::Block(Seq::<StatementView>::empty()),
        sc.len() >= 1,
    ensures
        eval_stmt(s, sc, fuel) == (EvalRes {
            flow: Flow::Next(ValueView::Void),
            sc,
            log: Seq::<char>::empty(),
        }),
{
    assert(pop_frame(sc.push(Map::empty())) =~= sc);
    assert(eval_stmt(s, sc, fuel) == (EvalRes {
        flow: Flow::Next(ValueView::Void),
        sc: pop_frame(sc.push(Map::empty())),
        log: Seq::<char>::empty(),
    }));
}

/// The value of a statement row ending at its last statement is exactly
/// that statement's value: a block's value is its last statement's.
pub proof fn lemma_stmts_last_value(
    ss: Seq<StatementView>,
    a: ValueView,
    sc: Seq<Map<Seq<char>, VariableView>>,
    fuel: nat,
)
    requires
        fuel >= 2,
        ss.len() >= 1,
    ensures
        ({
            let r = eval_stmt(ss.last(), sc, (fuel - 1) as nat);
            eval_stmts(ss, (ss.len() - 1) as nat, a, sc, fuel) == (EvalRes {
                flow: r.flow,
                sc: r.sc,
                log: r.log,
            })
        }),
{
    let i = (ss.len() - 1) as nat;
    let r = eval_stmt(ss[i as int], sc, (fuel - 1) as nat);
    assert(ss[i as int] == ss.last());
    match r.flow {
        Flow::Next(v) => {
            let rest = eval_stmts(ss, i + 1, v, r.sc, (fuel - 1) as nat);
            assert(rest == (EvalRes {
                flow: Flow::Next(v),
                sc: r.sc,
                log: Seq::<char>::empty(),
            }));
            assert(r.log + Seq::<char>::empty() =~= r.log);
            assert(eval_stmts(ss, i, a, sc, fuel) == (EvalRes {
                flow: rest.flow,
                sc: rest.sc,
                log: r.log + rest.log,
            }));
        },
        _ => {
            assert(eval_stmts(ss, i, a, sc, fuel) == r);
        },
    }
}

/// A frame entered, written and left again leaves no trace: whatever was
/// bound inside the block's own frame disappears with it, and every outer
/// binding stands untouched. This is the shadowing law: `let` inside a
/// block shadows only until the block ends.
pub proof fn lemma_frame_discard(
    sc: Seq<Map<Seq<char>, VariableView>>,
    name: Seq<char>,
    var: VariableView,
)
    requires
        sc.len() >= 1,
    ensures
        pop_frame(scope_insert(sc.push(Map::empty()), name, var)) == sc,
        forall|other: Seq<char>|
            scope_lookup(pop_frame(scope_insert(sc.push(Map::empty()), name, var)), other)
                == scope_lookup(sc, other),
{
    assert(pop_frame(scope_insert(sc.push(Map::empty()), name, var)) =~= sc);
}

/// A binding written into the innermost frame is what its name resolves
/// to.
pub proof fn lemma_lookup_insert_same(
    sc: Seq<Map<Seq<char>, VariableView>>,
    x: Seq<char>,
    v: VariableView,
)
    requires
        sc.len() >= 1,
    ensures
        scope_lookup(scope_insert(sc, x, v), x) == Some(v),
{
}

/// A binding written under one name leaves every other name's resolution
/// alone.
pub proof fn lemma_lookup_insert_other(
    sc: Seq<Map<Seq<char>, VariableView>>,
    x: Seq<char>,
    v: VariableView,
    y: Seq<char>,
)
    requires
        sc.len() >= 1,
        y != x,
    ensures
        scope_lookup(scope_insert(sc, x, v), y) == scope_lookup(sc, y),
{
    assert(scope_insert(sc, x, v).drop_last() =~= sc.drop_last());
}

/// An empty frame on top changes no resolution.
pub proof fn lemma_lookup_push_empty(sc: Seq<Map<Seq<char>, VariableView>>, y: Seq<char>)
    ensures
        scope_lookup(sc.push(Map::empty()), y) == scope_lookup(sc, y),
{
    assert(sc.push(Map::<Seq<char>, VariableView>::empty()).drop_last() =~= sc);
}

/// Scope shadowing, over the program `let x = a; { let x = b; } x` with
/// the two values carried in by bound names: the run yields the outer
/// value `a`, whatever `b` is — the inner binding lives only inside the
/// block's frame, and the block leaves the outer binding of `x`
/// untouched.
#[verifier::rlimit(100)]
pub proof fn lemma_scope_shadowing(
    x: Seq<char>,
    ya: Seq<char>,
    yb: Seq<char>,
    ea: ExpressionView,
    eb: ExpressionView,
    s_outer: StatementView,
    s_block: StatementView,
    s_inner: StatementView,
    s_read: StatementView,
    sc: Seq<Map<Seq<char>, VariableView>>,
    fuel: nat,
)
    requires
        fuel >= 9,
        sc.len() >= 1,
        yb != x,
        scope_lookup(sc, ya) is Some,
        scope_lookup(sc, yb) is Some,
        !(scope_lookup(sc, x) matches Some(v) && v.constant),
        ea.kind == crate::ast::ExpressionKindView::Identifier(ya),
        eb.kind == crate::ast::ExpressionKindView::Identifier(yb),
        s_outer.kind == (StatementKindView::Let { name: x, value: ea, constant: false }),
        s_inner.kind == (StatementKindView::Let { name: x, value: eb, constant: false }),
        s_block.kind == StatementKindView::Block(seq![s_inner]),
        s_read.kind == StatementKindView::Expression(
            ExpressionView {
                kind: crate::ast::ExpressionKindView::Identifier(x),
                span: s_read.span,
            },
        ),
    ensures
        ({
            let va = scope_lookup(sc, ya)->Some_0.value;
            eval_stmts(seq![s_outer, s_block, s_read], 0, ValueView::Void, sc, fuel) == (EvalRes {
                flow: Flow::Next(va),
                sc: scope_insert(sc, x, VariableView { value: va, constant: false }),
                log: Seq::<char>::empty(),
            })
        }),
{
    let ss = seq![s_outer, s_block, s_read];
    let va = scope_lookup(sc, ya)->Some_0.value;
    let vb_var = scope_lookup(sc, yb)->Some_0;
    let bound_a = VariableView { value: va, constant: false };
    let sc1 = scope_insert(sc, x, bound_a);
    lemma_lookup_insert_same(sc, x, bound_a);
    lemma_lookup_insert_other(sc, x, bound_a, yb);

    let r_ea = eval_expr(ea, sc, (fuel - 2) as nat);
    assert(r_ea == (EvalRes { flow: Flow::Next(va), sc, log: Seq::<char>::empty() }));
    let r1 = eval_stmt(ss[0], sc, (fuel - 1) as nat);
    assert(r1 == (EvalRes { flow: Flow::Next(va), sc: sc1, log: Seq::<char>::empty() }));

    let pushed = sc1.push(Map::empty());
    lemma_lookup_push_empty(sc1, x);
    lemma_lookup_push_empty(sc1, yb);
    assert(scope_lookup(pushed, x) == Some(bound_a));
    assert(scope_lookup(pushed, yb) == Some(vb_var));
    let bound_b = VariableView { value: vb_var.value, constant: false };
    let sc2 = scope_insert(pushed, x, bound_b);
    let r_eb = eval_expr(eb, pushed, (fuel - 5) as nat);
    assert(r_eb == (EvalRes { flow: Flow::Next(vb_var.value), sc: pushed, log: Seq::<char>::empty() }));
    let r_inner = eval_stmt(s_inner, pushed, (fuel - 4) as nat);
    assert(r_inner == (EvalRes { flow: Flow::Next(vb_var.value), sc: sc2, log: Seq::<char>::empty() }));
    let rest_i = eval_stmts(seq![s_inner], 1, vb_var.value, sc2, (fuel - 4) as nat);
    assert(rest_i == (EvalRes {
        flow: Flow::Next(vb_var.value),
        sc: sc2,
        log: Seq::<char>::empty(),
    }));
    assert(Seq::<char>::empty() + Seq::<char>::empty() =~= Seq::<char>::empty());
    let r_items = eval_stmts(seq![s_inner], 0, ValueView::Void, pushed, (fuel - 3) as nat);
    assert(seq![s_inner][0] == s_inner);
    assert(r_items.flow == Flow::Next(vb_var.value) && r_items.sc == sc2 && r_items.log
        =~= Seq::<char>::empty());
    lemma_frame_discard(sc1, x, bound_b);
    assert(pop_frame(sc2) == sc1);
    let r2 = eval_stmt(ss[1], sc1, (fuel - 2) as nat);
    assert(r2.flow == Flow::Next(vb_var.value) && r2.sc == sc1 && r2.log =~= Seq::<char>::empty());

    let r3 = eval_stmt(ss[2], sc1, (fuel - 3) as nat);
    assert(r3.flow == Flow::Next(va) && r3.sc == sc1 && r3.log =~= Seq::<char>::empty());

    let rest3 = eval_stmts(ss, 3, va, sc1, (fuel - 3) as nat);
    assert(rest3 == (EvalRes { flow: Flow::Next(va), sc: sc1, log: Seq::<char>::empty() }));
    let rest2 = eval_stmts(ss, 2, vb_var.value, sc1, (fuel - 2) as nat);
    assert(rest2.flow == Flow::Next(va) && rest2.sc == sc1 && rest2.log =~= Seq::<char>::empty());
    let rest1 = eval_stmts(ss, 1, va, sc1, (fuel - 1) as nat);
    assert(rest1.flow == Flow::Next(va) && rest1.sc == sc1 && rest1.log =~= Seq::<char>::empty());
    let whole = eval_stmts(ss, 0, ValueView::Void, sc, fuel);
    assert(whole.flow == Flow::Next(va) && whole.sc == sc1 && whole.log =~= Seq::<char>::empty());
}

/// A name bound constant cannot be re-declared: `let` over a constant
/// binding fails with the constant-reassignment fault at the statement's
/// span, before the right-hand side is looked at, leaving the scope as it
/// was and writing nothing.
pub proof fn lemma_let_constant_fails(
    s: StatementView,
    name: Seq<char>,
    value: ExpressionView,
    constant: bool,
    sc: Seq<Map<Seq<char>, VariableView>>,
    fuel: nat,
)
    requires
        fuel >= 1,
        s.kind == (StatementKindView::Let { name, value, constant }),
        scope_lookup(sc, name) is Some,
        scope_lookup(sc, name)->Some_0.constant,
    ensures
        eval_stmt(s, sc, fuel) == (EvalRes {
            flow: Flow::Failed(
                EvaluationErrorView {
                    kind: EvaluationErrorKindView::ConstantReassignment(name),
                    span: s.span,
                },
            ),
            sc,
            log: Seq::<char>::empty(),
        }),
{
}

/// A false left operand decides `&&` alone: the right operand is not
/// evaluated, so no fault it would raise occurs, and the scope and the
/// output are exactly the left operand's.
pub proof fn lemma_and_short_circuit(
    e: ExpressionView,
    left: ExpressionView,
    right: ExpressionView,
    sc: Seq<Map<Seq<char>, VariableView>>,
    fuel: nat,
)
    requires
        fuel >= 1,
        e.kind == (crate::ast::ExpressionKindView::Binary {
            operator: BinaryOperator::And,
            left: Box::new(left),
            right: Box::new(right),
        }),
        eval_expr(left, sc, (fuel - 1) as nat).flow == Flow::Next(ValueView::Boolean(false)),
    ensures
        eval_expr(e, sc, fuel) == (EvalRes {
            flow: Flow::Next(ValueView::Boolean(false)),
            sc: eval_expr(left, sc, (fuel - 1) as nat).sc,
            log: eval_expr(left, sc, (fuel - 1) as nat).log,
        }),
{
}

/// A true left operand decides `||` alone, the right operand untouched.
pub proof fn lemma_or_short_circuit(
    e: ExpressionView,
    left: ExpressionView,
    right: ExpressionView,
    sc: Seq<Map<Seq<char>, VariableView>>,
    fuel: nat,
)
    requires
        fuel >= 1,
        e.kind == (crate::ast::ExpressionKindView::Binary {
            operator: BinaryOperator::Or,
            left: Box::new(left),
            right: Box::new(right),
        }),
        eval_expr(left, sc, (fuel - 1) as nat).flow == Flow::Next(ValueView::Boolean(true)),
    ensures
        eval_expr(e, sc, fuel) == (EvalRes {
            flow: Flow::Next(ValueView::Boolean(true)),
            sc: eval_expr(left, sc, (fuel - 1) as nat).sc,
            log: eval_expr(left, sc, (fuel - 1) as nat).log,
        }),
{
}

/// A whole range holds both endpoints: from `a` up to `b` it has
/// `b - a + 1` numbers, the number at place `i` being `a + i`.
pub proof fn lemma_range_vals_shape(a: nat, b: nat)
    requires
        a <= b,
    ensures
        range_vals(a, b).len() == b - a + 1,
        forall|i: int|
            0 <= i <= b - a ==> range_vals(a, b)[i] == ValueView::Number(
                Num(from_int_bits((a + i) as u64)),
            ),
{
}

/// A range whose upper bound is a negative number fails with the
/// invalid-range fault: `0..n` for `n < 0` never yields an array.
pub proof fn lemma_range_negative(zero: Num, n: Num, span: Span)
    requires
        zero.0 == 0,
        num_sign(n.0) == 1,
        num_mag(n.0) != 0,
        !num_is_nan(n.0),
    ensures
        apply_binary(
            BinaryOperator::Range,
            ValueView::Number(zero),
            ValueView::Number(n),
            span,
        ) == Err::<ValueView, EvaluationErrorView>(
            EvaluationErrorView { kind: EvaluationErrorKindView::InvalidRange(zero, n), span },
        ),
{
    assert(float_lt(n.0, zero.0));
}

/// Indexing an array round-trips: a position inside the array yields
/// exactly the element there, and a position at or past the length fails
/// with the out-of-bounds fault carrying that position and the length.
pub proof fn lemma_index_round_trip(a: Seq<ValueView>, n: Num, span: Span)
    requires
        a.len() <= usize::MAX,
    ensures
        crate::num::trunc_usize(n.0) < a.len() ==> apply_index(
            ValueView::Array(a),
            ValueView::Number(n),
            span,
        ) == Ok::<ValueView, EvaluationErrorView>(a[crate::num::trunc_usize(n.0) as int]),
        crate::num::trunc_usize(n.0) >= a.len() ==> apply_index(
            ValueView::Array(a),
            ValueView::Number(n),
            span,
        ) == Err::<ValueView, EvaluationErrorView>(
            EvaluationErrorView {
                kind: EvaluationErrorKindView::IndexOutOfBounds(
                    crate::num::trunc_usize(n.0) as usize,
                    a.len() as usize,
                ),
                span,
            },
        ),
{
}

/// A slice with both bounds left out is the iterable itself: `[..]a`
/// equals `a`, for arrays and for strings, with the scope and output of
/// evaluating the iterable alone.
pub proof fn lemma_slice_identity(
    e: ExpressionView,
    iterable: ExpressionView,
    sc: Seq<Map<Seq<char>, VariableView>>,
    fuel: nat,
)
    requires
        fuel >= 1,
        ({
            let r = eval_expr(iterable, sc, (fuel - 1) as nat);
            r.flow matches Flow::Next(v) && (v is Array || v is String)
        }),
    ensures
        ({
            let r = eval_expr(iterable, sc, (fuel - 1) as nat);
            eval_slice_expr(e, None, None, iterable, sc, fuel) == (EvalRes {
                flow: r.flow,
                sc: r.sc,
                log: r.log,
            })
        }),
{
    let r = eval_expr(iterable, sc, (fuel - 1) as nat);
    match r.flow {
        Flow::Next(v) => {
            match v {
                ValueView::Array(a) => {
                    assert(a.subrange(0, a.len() as int) =~= a);
                    assert(r.log + Seq::<char>::empty() + Seq::<char>::empty() =~= r.log);
                },
                ValueView::String(st) => {
                    assert(st.subrange(0, st.len() as int) =~= st);
                    assert(r.log + Seq::<char>::empty() + Seq::<char>::empty() =~= r.log);
                },
                _ => {
                },
            }
        },
        _ => {
        },
    }
}

} // verus!
