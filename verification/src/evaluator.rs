use vstd::prelude::*;

use crate::ast::{BinaryOperator, Expression, ExpressionKind, Statement, StatementKind, UnaryOperator};
use crate::errors::{invalid_type_1, invalid_type_2, EvaluationError, EvaluationErrorKind};
use crate::num::{from_int_bits, Num};
use crate::scope::{scope_lookup, Scope};
use crate::semantics::{
    apply_binary, apply_index, apply_unary, byte_len_usize, eval_bind_args, eval_expr,
    eval_exprs, eval_foreach, eval_program, eval_slice_bound, eval_slice_expr, eval_stmt,
    eval_stmts, eval_while, filtered_vals, host_call, range_vals, EvalRes, Flow,
};
use crate::span::Span;
use crate::value::{
    lemma_value_views_rec, value_views_rec, HostFn, Value, ValueView, Variable,
};

verus! {

broadcast use vstd::std_specs::vec::axiom_vec_index_decreases;

/// Relies on std::io: writes the text to standard output and flushes it.
#[verifier::external_body]
fn emit_text(s: &Vec<char>) {
    let text: String = s.iter().collect();
    let mut so = std::io::stdout();
    let _ = std::io::Write::write_all(&mut so, text.as_bytes());
    let _ = std::io::Write::flush(&mut so);
}

/// Relies on std::io: writes the text and a line end to standard output.
#[verifier::external_body]
fn emit_line(s: &Vec<char>) {
    let text: String = s.iter().collect();
    let mut so = std::io::stdout();
    let _ = std::io::Write::write_all(&mut so, text.as_bytes());
    let _ = std::io::Write::write_all(&mut so, b"\n");
    let _ = std::io::Write::flush(&mut so);
}

/// Relies on std::io: reads one line from standard input, line end
/// included, or nothing at the end of the stream.
#[verifier::external_body]
fn read_stdin_line() -> (r: Vec<char>) {
    let mut line = String::new();
    let _ = std::io::stdin().read_line(&mut line);
    line.chars().collect()
}

/// The evaluator's window to the process: real standard output and input,
/// with the text written so far carried as its mathematical log.
pub struct Host {
    pub log: Ghost<Seq<char>>,
}

impl Host {
    /// A host that has written nothing yet.
    pub fn new() -> (r: Host)
        ensures
            r.log@ == Seq::<char>::empty(),
    {
        Host { log: Ghost(Seq::empty()) }
    }

    /// Writes the text, flushed, as the `print` builtin does.
    fn print_text(&mut self, s: &Vec<char>)
        ensures
            final(self).log@ == old(self).log@ + s@,
    {
        emit_text(s);
        proof {
            self.log@ = self.log@ + s@;
        }
    }

    /// Writes the text and a line end, as the `println` builtin does.
    fn print_line(&mut self, s: &Vec<char>)
        ensures
            final(self).log@ == old(self).log@ + s@ + seq!['\n'],
    {
        emit_line(s);
        proof {
            self.log@ = self.log@ + s@ + seq!['\n'];
        }
    }

    /// Reads one line, its trailing line end stripped, as the `readln`
    /// builtin does. What comes back depends on the environment.
    fn read_line(&mut self) -> (r: Vec<char>)
        ensures
            final(self).log@ == old(self).log@,
    {
        let mut line = read_stdin_line();
        if line.len() > 0 && line[line.len() - 1] == '\n' {
            line.pop();
        }
        if line.len() > 0 && line[line.len() - 1] == '\r' {
            line.pop();
        }
        line
    }
}

/// Why evaluation stopped short of a value.
#[derive(Debug)]
pub enum Halt {
    Failed(EvaluationError),
    Exited(Num),
    Spent,
}

/// Whether an executable outcome, final scope and written text agree with
/// a step of the model; a step that left the model binds nothing.
pub open spec fn matches_eval(
    r: Result<Value, Halt>,
    sr: EvalRes,
    sc_new: Seq<Map<Seq<char>, crate::value::VariableView>>,
    log_old: Seq<char>,
    log_new: Seq<char>,
) -> bool {
    sr.flow is Outside || {
        &&& match r {
            Ok(v) => sr.flow == Flow::Next(v@),
            Err(Halt::Failed(e)) => sr.flow == Flow::Failed(e@),
            Err(Halt::Exited(n)) => sr.flow == Flow::Exited(n),
            Err(Halt::Spent) => sr.flow is Spent,
        }
        &&& sc_new == sr.sc
        &&& log_new == log_old + sr.log
    }
}

/// Applies a unary operator to its evaluated operand.
fn apply_unary_exec(op: UnaryOperator, v: Value, span: Span) -> (r: Result<Value, EvaluationError>)
    ensures
        match r {
            Ok(out) => apply_unary(op, v@, span) == Ok::<ValueView, crate::errors::EvaluationErrorView>(out@),
            Err(e) => apply_unary(op, v@, span) == Err::<ValueView, crate::errors::EvaluationErrorView>(e@),
        },
{
    match (op, &v) {
        (UnaryOperator::Negate, Value::Number(n)) => Ok(Value::Number(n.neg_num())),
        (UnaryOperator::Not, Value::Boolean(b)) => Ok(Value::Boolean(!*b)),
        (UnaryOperator::Identity, Value::Number(n)) => Ok(Value::Number(*n)),
        _ => {
            let tag = crate::value::value_type_chars(&v);
            let optext = match op {
                UnaryOperator::Identity => crate::value::str_to_chars("+"),
                UnaryOperator::Negate => crate::value::str_to_chars("-"),
                UnaryOperator::Not => crate::value::str_to_chars("!"),
            };
            let empty: Vec<char> = Vec::new();
            let e = EvaluationError {
                kind: EvaluationErrorKind::InvalidOperator(optext, tag, empty),
                span,
            };
            proof {
                assert(e@.kind->InvalidOperator_2 =~= Seq::<char>::empty());
            }
            Err(e)
        },
    }
}

/// The numbers of an inclusive whole range, as a vector.
fn range_vec(a: usize, b: usize) -> (r: Vec<Value>)
    ensures
        value_views_rec(r@) == range_vals(a as nat, b as nat),
{
    let mut out: Vec<Value> = Vec::new();
    if a > b {
        proof {
            lemma_value_views_rec(out@);
            assert(value_views_rec(out@) =~= range_vals(a as nat, b as nat));
        }
        return out;
    }
    let mut k: usize = a;
    while k < b
        invariant
            a <= k <= b,
            out@.len() == k - a,
            forall|j: int|
                0 <= j < out@.len() ==> crate::value::value_view(out@[j])
                    == ValueView::Number(Num(from_int_bits((a + j) as u64))),
        decreases b - k,
    {
        out.push(Value::Number(Num(crate::num::num_from_u64_raw(k as u64))));
        k = k + 1;
    }
    out.push(Value::Number(Num(crate::num::num_from_u64_raw(b as u64))));
    proof {
        lemma_value_views_rec(out@);
        assert(value_views_rec(out@) =~= range_vals(a as nat, b as nat));
    }
    out
}

/// Applies a binary operator, other than the short-circuit pair, to its
/// two evaluated operands.
#[verifier::rlimit(100)]
fn apply_binary_exec(op: BinaryOperator, l: Value, r: Value, span: Span) -> (res: Result<
    Value,
    EvaluationError,
>)
    ensures
        match res {
            Ok(out) => apply_binary(op, l@, r@, span) == Ok::<ValueView, crate::errors::EvaluationErrorView>(out@),
            Err(e) => apply_binary(op, l@, r@, span) == Err::<ValueView, crate::errors::EvaluationErrorView>(e@),
        },
{
    if matches!(op, BinaryOperator::Equal) {
        let b = crate::value::value_eq(&l, &r);
        return Ok(Value::Boolean(b));
    }
    if matches!(op, BinaryOperator::NotEqual) {
        let b = crate::value::value_eq(&l, &r);
        return Ok(Value::Boolean(!b));
    }
    match (&l, &r) {
        (Value::Number(x), Value::Number(y)) => {
            match op {
                BinaryOperator::Add => Ok(
                    Value::Number(Num(crate::num::num_add_raw(x.0, y.0))),
                ),
                BinaryOperator::Subtract => Ok(
                    Value::Number(Num(crate::num::num_sub_raw(x.0, y.0))),
                ),
                BinaryOperator::Multiply => Ok(
                    Value::Number(Num(crate::num::num_mul_raw(x.0, y.0))),
                ),
                BinaryOperator::Divide => Ok(
                    Value::Number(Num(crate::num::num_div_raw(x.0, y.0))),
                ),
                BinaryOperator::Modulo => Ok(
                    Value::Number(Num(crate::num::num_mod_raw(x.0, y.0))),
                ),
                BinaryOperator::LessThan => Ok(Value::Boolean(x.lt_num(*y))),
                BinaryOperator::LessThanOrEqual => Ok(Value::Boolean(x.le_num(*y))),
                BinaryOperator::GreaterThan => Ok(Value::Boolean(y.lt_num(*x))),
                BinaryOperator::GreaterThanOrEqual => Ok(Value::Boolean(y.le_num(*x))),
                BinaryOperator::Range => {
                    if y.lt_num(*x) {
                        Err(
                            EvaluationError {
                                kind: EvaluationErrorKind::InvalidRange(*x, *y),
                                span,
                            },
                        )
                    } else {
                        let a = x.trunc_index();
                        let b = y.trunc_index();
                        Ok(Value::Array(range_vec(a, b)))
                    }
                },
                _ => Err(invalid_operator_exec(op, &l, &r, span)),
            }
        },
        (Value::String(x), Value::String(y)) => {
            match op {
                BinaryOperator::Add => {
                    let mut out = crate::value::clone_chars(x);
                    let mut i: usize = 0;
                    while i < y.len()
                        invariant
                            i <= y@.len(),
                            out@ == x@ + y@.subrange(0, i as int),
                        decreases y@.len() - i,
                    {
                        out.push(y[i]);
                        proof {
                            assert(out@ =~= x@ + y@.subrange(0, i as int + 1));
                        }
                        i = i + 1;
                    }
                    proof {
                        assert(out@ =~= x@ + y@);
                    }
                    Ok(Value::String(out))
                },
                BinaryOperator::LessThan => Ok(Value::Boolean(crate::value::chars_lt(x, y))),
                BinaryOperator::LessThanOrEqual => Ok(Value::Boolean(crate::value::chars_le(x, y))),
                BinaryOperator::GreaterThan => Ok(Value::Boolean(crate::value::chars_lt(y, x))),
                BinaryOperator::GreaterThanOrEqual => Ok(
                    Value::Boolean(crate::value::chars_le(y, x)),
                ),
                _ => Err(invalid_operator_exec(op, &l, &r, span)),
            }
        },
        (Value::String(x), _) => {
            if matches!(op, BinaryOperator::Add) {
                let mut out = crate::value::clone_chars(x);
                crate::value::push_value_str(&r, &mut out);
                Ok(Value::String(out))
            } else {
                Err(invalid_operator_exec(op, &l, &r, span))
            }
        },
        (_, Value::String(y)) => {
            if matches!(op, BinaryOperator::Add) {
                let mut out = crate::value::value_to_chars(&l);
                crate::value::push_chars(y, &mut out);
                Ok(Value::String(out))
            } else {
                Err(invalid_operator_exec(op, &l, &r, span))
            }
        },
        _ => Err(invalid_operator_exec(op, &l, &r, span)),
    }
}

/// The fault for an operator applied to kinds it does not accept.
fn invalid_operator_exec(op: BinaryOperator, l: &Value, r: &Value, span: Span) -> (e:
    EvaluationError)
    ensures
        e@ == crate::semantics::invalid_operator(op, l@, r@, span),
{
    let optext = crate::value::str_to_chars(match op {
        BinaryOperator::Add => "+",
        BinaryOperator::Subtract => "-",
        BinaryOperator::Multiply => "*",
        BinaryOperator::Divide => "/",
        BinaryOperator::Modulo => "%",
        BinaryOperator::Equal => "==",
        BinaryOperator::NotEqual => "!=",
        BinaryOperator::LessThan => "<",
        BinaryOperator::LessThanOrEqual => "<=",
        BinaryOperator::GreaterThan => ">",
        BinaryOperator::GreaterThanOrEqual => ">=",
        BinaryOperator::And => "&&",
        BinaryOperator::Or => "||",
        BinaryOperator::Range => "..",
    });
    EvaluationError {
        kind: EvaluationErrorKind::InvalidOperator(
            optext,
            crate::value::value_type_chars(l),
            crate::value::value_type_chars(r),
        ),
        span,
    }
}

/// Indexes an evaluated iterable at an evaluated position.
fn apply_index_exec(itv: Value, idxv: Value, span: Span) -> (r: Result<Value, EvaluationError>)
    ensures
        match r {
            Ok(out) => apply_index(itv@, idxv@, span) == Ok::<ValueView, crate::errors::EvaluationErrorView>(out@),
            Err(e) => apply_index(itv@, idxv@, span) == Err::<ValueView, crate::errors::EvaluationErrorView>(e@),
        },
{
    match (&itv, &idxv) {
        (Value::Array(a), Value::Number(n)) => {
            proof {
                lemma_value_views_rec(a@);
            }
            let i = n.trunc_index();
            if i < a.len() {
                Ok(a[i].duplicate())
            } else {
                Err(
                    EvaluationError {
                        kind: EvaluationErrorKind::IndexOutOfBounds(i, a.len()),
                        span,
                    },
                )
            }
        },
        (Value::String(s), Value::Number(n)) => {
            let i = n.trunc_index();
            if i < s.len() {
                let mut one: Vec<char> = Vec::new();
                one.push(s[i]);
                proof {
                    assert(one@ =~= seq![s@[i as int]]);
                }
                Ok(Value::String(one))
            } else {
                let bl = crate::value::utf8_len(s);
                let blu: usize = if bl > usize::MAX as u64 {
                    usize::MAX
                } else {
                    bl as usize
                };
                proof {
                    assert(blu == byte_len_usize(s@));
                }
                Err(
                    EvaluationError {
                        kind: EvaluationErrorKind::IndexOutOfBounds(i, blu),
                        span,
                    },
                )
            }
        },
        _ => {
            let tag = crate::value::value_type_chars(&itv);
            Err(invalid_type_1(tag, "Array", span))
        },
    }
}

/// Calls a builtin on its evaluated arguments, performing its effect.
#[verifier::rlimit(100)]
fn host_call_exec(f: HostFn, args: Vec<Value>, span: Span, host: &mut Host) -> (r: Result<
    Value,
    Halt,
>)
    ensures
        ({
            let (hf, hlog) = host_call(f, value_views_rec(args@), span);
            hf is Outside || ({
                &&& match r {
                    Ok(v) => hf == Flow::Next(v@),
                    Err(Halt::Failed(e)) => hf == Flow::Failed(e@),
                    Err(Halt::Exited(n)) => hf == Flow::Exited(n),
                    Err(Halt::Spent) => false,
                }
                &&& final(host).log@ == old(host).log@ + hlog
            })
        }),
{
    proof {
        lemma_value_views_rec(args@);
    }
    let need = f.arity();
    if args.len() != need {
        return Err(
            Halt::Failed(
                EvaluationError {
                    kind: EvaluationErrorKind::IncorrectParameterCount(args.len(), need),
                    span,
                },
            ),
        );
    }
    let ghost avs = value_views_rec(args@);
    let mut it = args;
    match f {
        HostFn::Println => {
            let a0 = it.remove(0);
            let text = crate::value::value_to_chars(&a0);
            host.print_line(&text);
            proof {
                assert(host.log@ =~= old(host).log@ + (crate::value::str_of_value(avs[0])
                    + seq!['\n']));
            }
            Ok(Value::Void)
        },
        HostFn::Print => {
            let a0 = it.remove(0);
            let text = crate::value::value_to_chars(&a0);
            host.print_text(&text);
            Ok(Value::Void)
        },
        HostFn::Exit => {
            let a0 = it.remove(0);
            match a0 {
                Value::Number(n) => Err(Halt::Exited(n)),
                _ => {
                    let tag = crate::value::value_type_chars(&a0);
                    Err(Halt::Failed(invalid_type_1(tag, "Number", span)))
                },
            }
        },
        HostFn::Readln => {
            let line = host.read_line();
            Ok(Value::String(line))
        },
        HostFn::Assert => {
            let a0 = it.remove(0);
            match a0 {
                Value::Boolean(true) => Ok(Value::Void),
                Value::Boolean(false) => Err(
                    Halt::Failed(
                        EvaluationError { kind: EvaluationErrorKind::AssertionFailed, span },
                    ),
                ),
                _ => {
                    let tag = crate::value::value_type_chars(&a0);
                    Err(Halt::Failed(invalid_type_1(tag, "Boolean", span)))
                },
            }
        },
        HostFn::Parse => {
            let a0 = it.remove(0);
            match &a0 {
                Value::String(s) => match crate::num::parse_num_chars(s) {
                    Some(n) => Ok(Value::Number(n)),
                    None => Ok(Value::Void),
                },
                _ => {
                    let tag = crate::value::value_type_chars(&a0);
                    Err(Halt::Failed(invalid_type_1(tag, "String", span)))
                },
            }
        },
        HostFn::Type => {
            let a0 = it.remove(0);
            Ok(Value::String(crate::value::value_type_chars(&a0)))
        },
        HostFn::Len => {
            let a0 = it.remove(0);
            match &a0 {
                Value::String(s) => {
                    let bl = crate::value::utf8_len(s);
                    Ok(Value::Number(Num(crate::num::num_from_u64_raw(bl))))
                },
                Value::Array(a) => {
                    proof {
                        lemma_value_views_rec(a@);
                    }
                    Ok(Value::Number(Num(crate::num::num_from_u64_raw(a.len() as u64))))
                },
                _ => {
                    let tag = crate::value::value_type_chars(&a0);
                    Err(Halt::Failed(invalid_type_2(tag, "String", "Array", span)))
                },
            }
        },
        HostFn::Filter => {
            let a0 = it.remove(0);
            let a1 = it.remove(0);
            match a0 {
                Value::Array(a) => {
                    match &a1 {
                        Value::String(tag) => {
                            proof {
                                lemma_value_views_rec(a@);
                            }
                            let ghost gav = value_views_rec(a@);
                            let ghost gtag = tag@;
                            let mut out: Vec<Value> = Vec::new();
                            let mut i: usize = 0;
                            proof {
                                lemma_value_views_rec(out@);
                                assert(value_views_rec(out@) + filtered_vals(gav, gtag, 0)
                                    =~= filtered_vals(gav, gtag, 0));
                            }
                            while i < a.len()
                                invariant
                                    i <= a@.len(),
                                    gav == value_views_rec(a@),
                                    gav.len() == a@.len(),
                                    forall|j: int|
                                        0 <= j < a@.len() ==> gav[j] == crate::value::value_view(
                                            a@[j],
                                        ),
                                    value_views_rec(out@) + filtered_vals(gav, gtag, i as nat)
                                        == filtered_vals(gav, gtag, 0),
                                decreases a@.len() - i,
                            {
                                let etag = crate::value::value_type_chars(&a[i]);
                                let ghost out0 = out@;
                                if !crate::ast::eq_chars(&etag, tag) {
                                    out.push(a[i].duplicate());
                                    proof {
                                        lemma_value_views_rec(out@);
                                        lemma_value_views_rec(out0);
                                        assert(value_views_rec(out@) =~= value_views_rec(
                                            out0,
                                        ).push(crate::value::value_view(a@[i as int])));
                                        assert(value_views_rec(out@) + filtered_vals(
                                            gav,
                                            gtag,
                                            (i + 1) as nat,
                                        ) =~= value_views_rec(out0) + (seq![gav[i as int]]
                                            + filtered_vals(gav, gtag, (i + 1) as nat)));
                                    }
                                } else {
                                    proof {
                                        assert(filtered_vals(gav, gtag, i as nat) == filtered_vals(
                                            gav,
                                            gtag,
                                            (i + 1) as nat,
                                        ));
                                    }
                                }
                                i = i + 1;
                            }
                            proof {
                                assert(filtered_vals(gav, gtag, a@.len() as nat) =~= Seq::<
                                    ValueView,
                                >::empty());
                                assert(value_views_rec(out@) =~= filtered_vals(gav, gtag, 0));
                            }
                            Ok(Value::Array(out))
                        },
                        _ => {
                            let tag1 = crate::value::value_type_chars(&a1);
                            Err(Halt::Failed(invalid_type_1(tag1, "String", span)))
                        },
                    }
                },
                _ => {
                    let tag0 = crate::value::value_type_chars(&a0);
                    Err(Halt::Failed(invalid_type_1(tag0, "Array", span)))
                },
            }
        },
        HostFn::Concat => {
            let a0 = it.remove(0);
            let a1 = it.remove(0);
            match a0 {
                Value::Array(a) => {
                    match a1 {
                        Value::Array(b) => {
                            proof {
                                lemma_value_views_rec(a@);
                                lemma_value_views_rec(b@);
                            }
                            let ghost gav = value_views_rec(a@);
                            let ghost gbv = value_views_rec(b@);
                            let mut out = a;
                            let mut i: usize = 0;
                            while i < b.len()
                                invariant
                                    i <= b@.len(),
                                    out@.len() == gav.len() + i,
                                    forall|j: int|
                                        0 <= j < out@.len() ==> crate::value::value_view(out@[j])
                                            == (gav + gbv)[j],
                                    gbv.len() == b@.len(),
                                    forall|j: int|
                                        0 <= j < b@.len() ==> gbv[j] == crate::value::value_view(
                                            b@[j],
                                        ),
                                    gav.len() <= out@.len(),
                                decreases b@.len() - i,
                            {
                                out.push(b[i].duplicate());
                                i = i + 1;
                            }
                            proof {
                                lemma_value_views_rec(out@);
                                assert(value_views_rec(out@) =~= gav + gbv);
                            }
                            Ok(Value::Array(out))
                        },
                        other => {
                            let tag1 = crate::value::value_type_chars(&other);
                            Err(Halt::Failed(invalid_type_1(tag1, "Array", span)))
                        },
                    }
                },
                _ => {
                    let tag0 = crate::value::value_type_chars(&a0);
                    Err(Halt::Failed(invalid_type_1(tag0, "Array", span)))
                },
            }
        },
    }
}

/// The single-character string values of a text, as `for` iterates them.
fn to_char_vals(s: &Vec<char>) -> (r: Vec<Value>)
    ensures
        value_views_rec(r@) == crate::semantics::char_vals(s@),
{
    let mut out: Vec<Value> = Vec::new();
    let mut i: usize = 0;
    while i < s.len()
        invariant
            i <= s@.len(),
            out@.len() == i,
            forall|j: int|
                0 <= j < i ==> crate::value::value_view(out@[j]) == ValueView::String(
                    seq![s@[j]],
                ),
        decreases s@.len() - i,
    {
        let mut one: Vec<char> = Vec::new();
        one.push(s[i]);
        proof {
            assert(one@ =~= seq![s@[i as int]]);
        }
        out.push(Value::String(one));
        i = i + 1;
    }
    proof {
        lemma_value_views_rec(out@);
        assert(value_views_rec(out@) =~= crate::semantics::char_vals(s@));
    }
    out
}

/// Evaluates a statement against the live scope and host.
pub fn eval_stmt_exec(s: &Statement, scope: &mut Scope, host: &mut Host, fuel: u64) -> (r: Result<
    Value,
    Halt,
>)
    ensures
        matches_eval(
            r,
            eval_stmt(s@, old(scope)@, fuel as nat),
            final(scope)@,
            old(host).log@,
            final(host).log@,
        ),
    decreases fuel, 1nat,
{
    if fuel == 0 {
        return Err(Halt::Spent);
    }
    match &s.kind {
        StatementKind::Block(ss) => {
            scope.push_scope();
            let r = eval_stmts_exec(ss, 0, Value::Void, scope, host, fuel - 1);
            match r {
                Ok(v) => {
                    scope.pop_scope();
                    Ok(v)
                },
                Err(h) => Err(h),
            }
        },
        StatementKind::Let { name, value, constant } => {
            let already_constant = match scope.get(&name.0) {
                Some(var) => var.constant,
                None => false,
            };
            if already_constant {
                Err(
                    Halt::Failed(
                        EvaluationError {
                            kind: EvaluationErrorKind::ConstantReassignment(
                                crate::value::clone_chars(&name.0),
                            ),
                            span: s.span,
                        },
                    ),
                )
            } else {
                match eval_expr_exec(value, scope, host, fuel - 1) {
                    Ok(v) => {
                        let out = v.duplicate();
                        scope.insert(
                            crate::value::clone_chars(&name.0),
                            Variable { value: v, constant: *constant },
                        );
                        Ok(out)
                    },
                    Err(h) => Err(h),
                }
            }
        },
        StatementKind::Expression(e) => eval_expr_exec(e, scope, host, fuel - 1),
        StatementKind::FunctionDeclaration { name, parameters, body } => {
            let mut ps: Vec<Vec<char>> = Vec::new();
            let mut i: usize = 0;
            while i < parameters.len()
                invariant
                    i <= parameters@.len(),
                    ps@.len() == i,
                    forall|j: int| 0 <= j < i ==> ps@[j]@ == parameters@[j]@,
                decreases parameters@.len() - i,
            {
                ps.push(crate::value::clone_chars(&parameters[i].0));
                i = i + 1;
            }
            let f = Value::Function { parameters: ps, body: crate::value::rc_stmt_clone(body) };
            proof {
                assert(Seq::new(f->Function_parameters@.len(), |j: int| f->Function_parameters@[j]@)
                    =~= Seq::new(parameters@.len(), |j: int| parameters@[j]@));
            }
            scope.insert(
                crate::value::clone_chars(&name.0),
                Variable { value: f, constant: false },
            );
            Ok(Value::Void)
        },
        StatementKind::Assignment { name, value } => {
            let missing = match scope.get(&name.0) {
                Some(_) => false,
                None => true,
            };
            if missing {
                Err(
                    Halt::Failed(
                        EvaluationError {
                            kind: EvaluationErrorKind::UndefinedVariable(
                                crate::value::clone_chars(&name.0),
                            ),
                            span: s.span,
                        },
                    ),
                )
            } else {
                let is_const = match scope.get(&name.0) {
                    Some(var) => var.constant,
                    None => false,
                };
                if is_const {
                    Err(
                        Halt::Failed(
                            EvaluationError {
                                kind: EvaluationErrorKind::ConstantReassignment(
                                    crate::value::clone_chars(&name.0),
                                ),
                                span: s.span,
                            },
                        ),
                    )
                } else {
                    match eval_expr_exec(value, scope, host, fuel - 1) {
                        Ok(v) => {
                            let out = v.duplicate();
                            scope.insert_existing(
                                crate::value::clone_chars(&name.0),
                                Variable { value: v, constant: false },
                            );
                            Ok(out)
                        },
                        Err(h) => Err(h),
                    }
                }
            }
        },
    }
}

/// Evaluates the statements from `i` on; the run's value is the last
/// statement's.
fn eval_stmts_exec(
    ss: &Vec<Statement>,
    i: usize,
    last: Value,
    scope: &mut Scope,
    host: &mut Host,
    fuel: u64,
) -> (r: Result<Value, Halt>)
    ensures
        matches_eval(
            r,
            eval_stmts(
                crate::ast::stmt_views_rec(ss@),
                i as nat,
                last@,
                old(scope)@,
                fuel as nat,
            ),
            final(scope)@,
            old(host).log@,
            final(host).log@,
        ),
    decreases fuel, 2nat,
{
    proof {
        crate::ast::lemma_stmt_views_rec(ss@);
    }
    if fuel == 0 {
        return Err(Halt::Spent);
    }
    if i >= ss.len() {
        return Ok(last);
    }
    let ghost log0 = host.log@;
    match eval_stmt_exec(&ss[i], scope, host, fuel - 1) {
        Ok(v) => {
            let r = eval_stmts_exec(ss, i + 1, v, scope, host, fuel - 1);
            proof {
                let srall = eval_stmts(
                    crate::ast::stmt_views_rec(ss@),
                    i as nat,
                    last@,
                    old(scope)@,
                    fuel as nat,
                );
                if !(srall.flow is Outside) {
                    assert(host.log@ =~= old(host).log@ + srall.log);
                }
            }
            r
        },
        Err(h) => Err(h),
    }
}

/// Evaluates the expressions from `i` on, left to right, extending the
/// values gathered so far.
fn eval_exprs_exec(
    es: &Vec<Expression>,
    i: usize,
    acc: Vec<Value>,
    scope: &mut Scope,
    host: &mut Host,
    fuel: u64,
) -> (r: Result<Vec<Value>, Halt>)
    ensures
        ({
            let sr = eval_exprs(
                crate::ast::expr_views_rec(es@),
                i as nat,
                value_views_rec(acc@),
                old(scope)@,
                fuel as nat,
            );
            sr.flow is Outside || ({
                &&& match r {
                    Ok(vs) => sr.flow == Flow::Next(ValueView::Array(value_views_rec(vs@))),
                    Err(Halt::Failed(e)) => sr.flow == Flow::Failed(e@),
                    Err(Halt::Exited(n)) => sr.flow == Flow::Exited(n),
                    Err(Halt::Spent) => sr.flow is Spent,
                }
                &&& final(scope)@ == sr.sc
                &&& final(host).log@ == old(host).log@ + sr.log
            })
        }),
    decreases fuel, 2nat,
{
    proof {
        crate::ast::lemma_expr_views_rec(es@);
    }
    if fuel == 0 {
        return Err(Halt::Spent);
    }
    if i >= es.len() {
        return Ok(acc);
    }
    let ghost acc0 = value_views_rec(acc@);
    match eval_expr_exec(&es[i], scope, host, fuel - 1) {
        Ok(v) => {
            let mut acc2 = acc;
            let ghost acc2_before = acc2@;
            acc2.push(v);
            proof {
                lemma_value_views_rec(acc2@);
                lemma_value_views_rec(acc2_before);
                assert(value_views_rec(acc2@) =~= acc0.push(
                    crate::value::value_view(acc2@.last()),
                ));
            }
            let r = eval_exprs_exec(es, i + 1, acc2, scope, host, fuel - 1);
            proof {
                let srall = eval_exprs(
                    crate::ast::expr_views_rec(es@),
                    i as nat,
                    acc0,
                    old(scope)@,
                    fuel as nat,
                );
                if !(srall.flow is Outside) {
                    assert(host.log@ =~= old(host).log@ + srall.log);
                }
            }
            r
        },
        Err(h) => Err(h),
    }
}

/// Evaluates and binds a user call's arguments from `i` on, each under
/// its parameter name as a constant, inside the already-entered frame.
fn eval_bind_args_exec(
    params: &Vec<Vec<char>>,
    args: &Vec<Expression>,
    i: usize,
    scope: &mut Scope,
    host: &mut Host,
    fuel: u64,
) -> (r: Result<(), Halt>)
    ensures
        ({
            let sr = eval_bind_args(
                Seq::new(params@.len(), |j: int| params@[j]@),
                crate::ast::expr_views_rec(args@),
                i as nat,
                old(scope)@,
                fuel as nat,
            );
            sr.flow is Outside || ({
                &&& match r {
                    Ok(_) => sr.flow == Flow::Next(ValueView::Void),
                    Err(Halt::Failed(e)) => sr.flow == Flow::Failed(e@),
                    Err(Halt::Exited(n)) => sr.flow == Flow::Exited(n),
                    Err(Halt::Spent) => sr.flow is Spent,
                }
                &&& final(scope)@ == sr.sc
                &&& final(host).log@ == old(host).log@ + sr.log
            })
        }),
    decreases fuel, 2nat,
{
    proof {
        crate::ast::lemma_expr_views_rec(args@);
    }
    if fuel == 0 {
        return Err(Halt::Spent);
    }
    if i >= args.len() || i >= params.len() {
        return Ok(());
    }
    match eval_expr_exec(&args[i], scope, host, fuel - 1) {
        Ok(v) => {
            scope.insert(
                crate::value::clone_chars(&params[i]),
                Variable { value: v, constant: true },
            );
            let r = eval_bind_args_exec(params, args, i + 1, scope, host, fuel - 1);
            proof {
                let srall = eval_bind_args(
                    Seq::new(params@.len(), |j: int| params@[j]@),
                    crate::ast::expr_views_rec(args@),
                    i as nat,
                    old(scope)@,
                    fuel as nat,
                );
                if !(srall.flow is Outside) {
                    assert(host.log@ =~= old(host).log@ + srall.log);
                }
            }
            r
        },
        Err(h) => Err(h),
    }
}

/// Evaluates an expression against the live scope and host.
#[verifier::rlimit(100)]
pub fn eval_expr_exec(e: &Expression, scope: &mut Scope, host: &mut Host, fuel: u64) -> (r: Result<
    Value,
    Halt,
>)
    ensures
        matches_eval(
            r,
            eval_expr(e@, old(scope)@, fuel as nat),
            final(scope)@,
            old(host).log@,
            final(host).log@,
        ),
    decreases fuel, 1nat,
{
    if fuel == 0 {
        return Err(Halt::Spent);
    }
    match &e.kind {
        ExpressionKind::Void => Ok(Value::Void),
        ExpressionKind::Identifier(name) => {
            match scope.get(&name.0) {
                Some(var) => Ok(var.value.duplicate()),
                None => Err(
                    Halt::Failed(
                        EvaluationError {
                            kind: EvaluationErrorKind::UndefinedVariable(
                                crate::value::clone_chars(&name.0),
                            ),
                            span: e.span,
                        },
                    ),
                ),
            }
        },
        ExpressionKind::NumberLiteral(n) => Ok(Value::Number(*n)),
        ExpressionKind::StringLiteral(s) => Ok(Value::String(crate::value::clone_chars(s))),
        ExpressionKind::BooleanLiteral(b) => Ok(Value::Boolean(*b)),
        ExpressionKind::ArrayLiteral(es) => {
            proof {
                lemma_value_views_rec(Seq::<Value>::empty());
            }
            match eval_exprs_exec(es, 0, Vec::new(), scope, host, fuel - 1) {
                Ok(vs) => Ok(Value::Array(vs)),
                Err(h) => Err(h),
            }
        },
        ExpressionKind::Index { iterable, index } => {
            let ghost log0 = host.log@;
            match eval_expr_exec(iterable, scope, host, fuel - 1) {
                Ok(itv) => {
                    match eval_expr_exec(index, scope, host, fuel - 1) {
                        Ok(idxv) => {
                            let res = match apply_index_exec(itv, idxv, e.span) {
                                Ok(v) => Ok(v),
                                Err(err) => Err(Halt::Failed(err)),
                            };
                            proof {
                                let sr = eval_expr(e@, old(scope)@, fuel as nat);
                                if !(sr.flow is Outside) {
                                    assert(host.log@ =~= old(host).log@ + sr.log);
                                }
                            }
                            res
                        },
                        Err(h) => {
                            proof {
                                let sr = eval_expr(e@, old(scope)@, fuel as nat);
                                if !(sr.flow is Outside) {
                                    assert(host.log@ =~= old(host).log@ + sr.log);
                                }
                            }
                            Err(h)
                        },
                    }
                },
                Err(h) => Err(h),
            }
        },
        ExpressionKind::Slice { .. } => eval_slice_exec(e, scope, host, fuel),
        ExpressionKind::FunctionCall { .. } => eval_call_exec(e, scope, host, fuel),
        ExpressionKind::If { .. } => eval_if_exec(e, scope, host, fuel),
        ExpressionKind::For { .. } => eval_for_exec(e, scope, host, fuel),
        ExpressionKind::While { .. } => eval_while_exec(e, scope, host, fuel),
        ExpressionKind::Binary { .. } => eval_binary_exec(e, scope, host, fuel),
        ExpressionKind::Unary { operator, operand } => {
            match eval_expr_exec(operand, scope, host, fuel - 1) {
                Ok(v) => {
                    match apply_unary_exec(*operator, v, e.span) {
                        Ok(out) => Ok(out),
                        Err(err) => Err(Halt::Failed(err)),
                    }
                },
                Err(h) => Err(h),
            }
        },
    }
}

/// Evaluates an if expression: the condition, then one arm.
#[verifier::rlimit(100)]
fn eval_if_exec(e: &Expression, scope: &mut Scope, host: &mut Host, fuel: u64) -> (r: Result<
    Value,
    Halt,
>)
    requires
        fuel >= 1,
        e@.kind is If,
    ensures
        matches_eval(
            r,
            eval_expr(e@, old(scope)@, fuel as nat),
            final(scope)@,
            old(host).log@,
            final(host).log@,
        ),
    decreases fuel, 0nat,
{
    match &e.kind {
        ExpressionKind::If { condition, consequence, alternative } => {
            let ghost log0 = host.log@;
            match eval_expr_exec(condition, scope, host, fuel - 1) {
                Ok(cv) => {
                    match cv {
                        Value::Boolean(b) => {
                            let rr: Result<Value, Halt> = if b {
                                eval_stmt_exec(consequence, scope, host, fuel - 1)
                            } else {
                                match &**alternative {
                                    Some(alt) => eval_stmt_exec(alt, scope, host, fuel - 1),
                                    None => Ok(Value::Void),
                                }
                            };
                            proof {
                                let sr = eval_expr(e@, old(scope)@, fuel as nat);
                                if !(sr.flow is Outside) {
                                    assert(host.log@ =~= old(host).log@ + sr.log);
                                }
                            }
                            rr
                        },
                        other => {
                            let tag = crate::value::value_type_chars(&other);
                            Err(Halt::Failed(invalid_type_1(tag, "Boolean", e.span)))
                        },
                    }
                },
                Err(h) => Err(h),
            }
        },
        _ => {
            proof {
                assert(false);
            }
            Err(Halt::Spent)
        },
    }
}

/// Evaluates a binary expression, the short-circuit pair first.
#[verifier::rlimit(100)]
fn eval_binary_exec(e: &Expression, scope: &mut Scope, host: &mut Host, fuel: u64) -> (r: Result<
    Value,
    Halt,
>)
    requires
        fuel >= 1,
        e@.kind is Binary,
    ensures
        matches_eval(
            r,
            eval_expr(e@, old(scope)@, fuel as nat),
            final(scope)@,
            old(host).log@,
            final(host).log@,
        ),
    decreases fuel, 0nat,
{
    match &e.kind {
        ExpressionKind::Binary { operator, left, right } => {
            if matches!(operator, BinaryOperator::And | BinaryOperator::Or) {
                let is_and = matches!(operator, BinaryOperator::And);
                match eval_expr_exec(left, scope, host, fuel - 1) {
                    Ok(lv) => {
                        match lv {
                            Value::Boolean(lb) => {
                                if (is_and && !lb) || (!is_and && lb) {
                                    Ok(Value::Boolean(lb))
                                } else {
                                    match eval_expr_exec(right, scope, host, fuel - 1) {
                                        Ok(rv) => {
                                            match rv {
                                                Value::Boolean(rb) => {
                                                    proof {
                                                        let sr = eval_expr(
                                                            e@,
                                                            old(scope)@,
                                                            fuel as nat,
                                                        );
                                                        if !(sr.flow is Outside) {
                                                            assert(host.log@ =~= old(
                                                                host,
                                                            ).log@ + sr.log);
                                                        }
                                                    }
                                                    Ok(Value::Boolean(rb))
                                                },
                                                other => {
                                                    let tag = crate::value::value_type_chars(
                                                        &other,
                                                    );
                                                    proof {
                                                        let sr = eval_expr(
                                                            e@,
                                                            old(scope)@,
                                                            fuel as nat,
                                                        );
                                                        if !(sr.flow is Outside) {
                                                            assert(host.log@ =~= old(
                                                                host,
                                                            ).log@ + sr.log);
                                                        }
                                                    }
                                                    Err(
                                                        Halt::Failed(
                                                            invalid_type_1(
                                                                tag,
                                                                "Boolean",
                                                                e.span,
                                                            ),
                                                        ),
                                                    )
                                                },
                                            }
                                        },
                                        Err(h) => {
                                            proof {
                                                let sr = eval_expr(e@, old(scope)@, fuel as nat);
                                                if !(sr.flow is Outside) {
                                                    assert(host.log@ =~= old(host).log@
                                                        + sr.log);
                                                }
                                            }
                                            Err(h)
                                        },
                                    }
                                }
                            },
                            other => {
                                let tag = crate::value::value_type_chars(&other);
                                Err(Halt::Failed(invalid_type_1(tag, "Boolean", e.span)))
                            },
                        }
                    },
                    Err(h) => Err(h),
                }
            } else {
                match eval_expr_exec(left, scope, host, fuel - 1) {
                    Ok(lv) => {
                        match eval_expr_exec(right, scope, host, fuel - 1) {
                            Ok(rv) => {
                                let res = match apply_binary_exec(*operator, lv, rv, e.span) {
                                    Ok(v) => Ok(v),
                                    Err(err) => Err(Halt::Failed(err)),
                                };
                                proof {
                                    let sr = eval_expr(e@, old(scope)@, fuel as nat);
                                    if !(sr.flow is Outside) {
                                        assert(host.log@ =~= old(host).log@ + sr.log);
                                    }
                                }
                                res
                            },
                            Err(h) => {
                                proof {
                                    let sr = eval_expr(e@, old(scope)@, fuel as nat);
                                    if !(sr.flow is Outside) {
                                        assert(host.log@ =~= old(host).log@ + sr.log);
                                    }
                                }
                                Err(h)
                            },
                        }
                    },
                    Err(h) => Err(h),
                }
            }
        },
        _ => {
            proof {
                assert(false);
            }
            Err(Halt::Spent)
        },
    }
}

/// Evaluates a function call: a builtin, or a user function with its
/// arguments bound in a fresh frame.
#[verifier::rlimit(100)]
fn eval_call_exec(e: &Expression, scope: &mut Scope, host: &mut Host, fuel: u64) -> (r: Result<
    Value,
    Halt,
>)
    requires
        fuel >= 1,
        e@.kind is FunctionCall,
    ensures
        matches_eval(
            r,
            eval_expr(e@, old(scope)@, fuel as nat),
            final(scope)@,
            old(host).log@,
            final(host).log@,
        ),
    decreases fuel, 0nat,
{
    match &e.kind {
        ExpressionKind::FunctionCall { name, arguments } => {
            proof {
                crate::ast::lemma_expr_views_rec(arguments@);
            }
            let fetched: Option<Value> = match scope.get(&name.0) {
                Some(var) => Some(var.value.duplicate()),
                None => None,
            };
            match fetched {
                None => Err(
                    Halt::Failed(
                        EvaluationError {
                            kind: EvaluationErrorKind::UndefinedVariable(
                                crate::value::clone_chars(&name.0),
                            ),
                            span: e.span,
                        },
                    ),
                ),
                Some(fval) => {
                    match fval {
                        Value::RustFunction { parameter_count, function } => {
                            if arguments.len() != parameter_count {
                                Err(
                                    Halt::Failed(
                                        EvaluationError {
                                            kind: EvaluationErrorKind::IncorrectParameterCount(
                                                arguments.len(),
                                                parameter_count,
                                            ),
                                            span: e.span,
                                        },
                                    ),
                                )
                            } else {
                                proof {
                                    lemma_value_views_rec(Seq::<Value>::empty());
                                }
                                match eval_exprs_exec(
                                    arguments,
                                    0,
                                    Vec::new(),
                                    scope,
                                    host,
                                    fuel - 1,
                                ) {
                                    Ok(vs) => {
                                        let res = host_call_exec(function, vs, e.span, host);
                                        proof {
                                            let sr = eval_expr(e@, old(scope)@, fuel as nat);
                                            if !(sr.flow is Outside) {
                                                assert(host.log@ =~= old(host).log@
                                                    + sr.log);
                                            }
                                        }
                                        res
                                    },
                                    Err(h) => Err(h),
                                }
                            }
                        },
                        Value::Function { parameters, body } => {
                            if arguments.len() != parameters.len() {
                                Err(
                                    Halt::Failed(
                                        EvaluationError {
                                            kind: EvaluationErrorKind::IncorrectParameterCount(
                                                arguments.len(),
                                                parameters.len(),
                                            ),
                                            span: e.span,
                                        },
                                    ),
                                )
                            } else {
                                scope.push_scope();
                                match eval_bind_args_exec(
                                    &parameters,
                                    arguments,
                                    0,
                                    scope,
                                    host,
                                    fuel - 1,
                                ) {
                                    Ok(_) => {
                                        let rr = eval_stmt_exec(&*body, scope, host, fuel - 1);
                                        scope.pop_scope();
                                        proof {
                                            let sr = eval_expr(e@, old(scope)@, fuel as nat);
                                            if !(sr.flow is Outside) {
                                                assert(host.log@ =~= old(host).log@
                                                    + sr.log);
                                            }
                                        }
                                        rr
                                    },
                                    Err(h) => Err(h),
                                }
                            }
                        },
                        other => {
                            let tag = crate::value::value_type_chars(&other);
                            Err(Halt::Failed(invalid_type_1(tag, "Function", e.span)))
                        },
                    }
                },
            }
        },
        _ => {
            proof {
                assert(false);
            }
            Err(Halt::Spent)
        },
    }
}

/// Evaluates a while loop, the values of its completed iterations
/// gathered into an array.
#[verifier::rlimit(100)]
fn eval_while_exec(e: &Expression, scope: &mut Scope, host: &mut Host, fuel: u64) -> (r: Result<
    Value,
    Halt,
>)
    requires
        fuel >= 1,
        e@.kind is While,
    ensures
        matches_eval(
            r,
            eval_expr(e@, old(scope)@, fuel as nat),
            final(scope)@,
            old(host).log@,
            final(host).log@,
        ),
    decreases fuel, 0nat,
{
    match &e.kind {
        ExpressionKind::While { condition, body } => {
            let ghost cv = *e@.kind->While_condition;
            let ghost bv = *e@.kind->While_body;
            let ghost log0 = host.log@;
            let ghost target = eval_while(
                cv,
                bv,
                Seq::empty(),
                e.span,
                old(scope)@,
                (fuel - 1) as nat,
            );
            let mut acc: Vec<Value> = Vec::new();
            let mut fuel_cur: u64 = fuel - 1;
            proof {
                lemma_value_views_rec(acc@);
            }
            loop
                invariant
                    ({
                        let rest = eval_while(
                            cv,
                            bv,
                            value_views_rec(acc@),
                            e.span,
                            scope@,
                            fuel_cur as nat,
                        );
                        target.flow is Outside || ({
                            &&& target.flow == rest.flow
                            &&& target.sc == rest.sc
                            &&& log0 + target.log == host.log@ + rest.log
                        })
                    }),
                    (**condition)@ == cv,
                    (**body)@ == bv,
                    fuel_cur < fuel,
                decreases fuel_cur,
            {
                let ghost rest0 = eval_while(
                    cv,
                    bv,
                    value_views_rec(acc@),
                    e.span,
                    scope@,
                    fuel_cur as nat,
                );
                if fuel_cur == 0 {
                    proof {
                        let sr = eval_expr(e@, old(scope)@, fuel as nat);
                        if !(sr.flow is Outside) {
                            assert(host.log@ + rest0.log =~= host.log@);
                            assert(host.log@ =~= old(host).log@ + sr.log);
                        }
                    }
                    return Err(Halt::Spent);
                }
                let ghost sc_before = scope@;
                let ghost log_before = host.log@;
                match eval_expr_exec(condition, scope, host, fuel_cur - 1) {
                    Ok(cvv) => {
                        match cvv {
                            Value::Boolean(b) => {
                                if !b {
                                    proof {
                                        lemma_value_views_rec(acc@);
                                        let sr = eval_expr(e@, old(scope)@, fuel as nat);
                                        if !(sr.flow is Outside) {
                                            assert(host.log@ =~= old(host).log@ + sr.log);
                                        }
                                    }
                                    return Ok(Value::Array(acc));
                                }
                                scope.push_scope();
                                match eval_stmt_exec(body, scope, host, fuel_cur - 1) {
                                    Ok(v) => {
                                        scope.pop_scope();
                                        let ghost acc_before = acc@;
                                        acc.push(v);
                                        proof {
                                            lemma_value_views_rec(acc@);
                                            lemma_value_views_rec(acc_before);
                                            assert(value_views_rec(acc@) =~= value_views_rec(
                                                acc_before,
                                            ).push(crate::value::value_view(acc@.last())));
                                        }
                                        fuel_cur = fuel_cur - 1;
                                        proof {
                                            let rest2 = eval_while(
                                                cv,
                                                bv,
                                                value_views_rec(acc@),
                                                e.span,
                                                scope@,
                                                fuel_cur as nat,
                                            );
                                            if !(target.flow is Outside) {
                                                assert(log0 + target.log =~= host.log@
                                                    + rest2.log);
                                            }
                                        }
                                    },
                                    Err(h) => {
                                        proof {
                                            let sr = eval_expr(e@, old(scope)@, fuel as nat);
                                            if !(sr.flow is Outside) {
                                                assert(host.log@ =~= old(host).log@ + sr.log);
                                            }
                                        }
                                        return Err(h);
                                    },
                                }
                            },
                            other => {
                                let tag = crate::value::value_type_chars(&other);
                                proof {
                                    let sr = eval_expr(e@, old(scope)@, fuel as nat);
                                    if !(sr.flow is Outside) {
                                        assert(host.log@ =~= old(host).log@ + sr.log);
                                    }
                                }
                                return Err(Halt::Failed(invalid_type_1(tag, "Boolean", e.span)));
                            },
                        }
                    },
                    Err(h) => {
                        proof {
                            let sr = eval_expr(e@, old(scope)@, fuel as nat);
                            if !(sr.flow is Outside) {
                                assert(host.log@ =~= old(host).log@ + sr.log);
                            }
                        }
                        return Err(h);
                    },
                }
            }
        },
        _ => {
            proof {
                assert(false);
            }
            Err(Halt::Spent)
        },
    }
}

/// Evaluates a for loop over an evaluated iterable, the values of its
/// iterations gathered into an array.
#[verifier::rlimit(100)]
fn eval_for_exec(e: &Expression, scope: &mut Scope, host: &mut Host, fuel: u64) -> (r: Result<
    Value,
    Halt,
>)
    requires
        fuel >= 1,
        e@.kind is For,
    ensures
        matches_eval(
            r,
            eval_expr(e@, old(scope)@, fuel as nat),
            final(scope)@,
            old(host).log@,
            final(host).log@,
        ),
    decreases fuel, 0nat,
{
    match &e.kind {
        ExpressionKind::For { variable, iterable, body } => {
            let ghost var_v = e@.kind->For_variable;
            let ghost bv = *e@.kind->For_body;
            match eval_expr_exec(iterable, scope, host, fuel - 1) {
                Ok(itval) => {
                    let items: Vec<Value> = match itval {
                        Value::Array(a) => a,
                        Value::String(s) => to_char_vals(&s),
                        other => {
                            let tag = crate::value::value_type_chars(&other);
                            return Err(Halt::Failed(invalid_type_1(tag, "Array", e.span)));
                        },
                    };
                    let ghost items_v = value_views_rec(items@);
                    let ghost log0 = host.log@;
                    let ghost target = eval_foreach(
                        var_v,
                        items_v,
                        0,
                        bv,
                        Seq::empty(),
                        scope@,
                        (fuel - 1) as nat,
                    );
                    let mut acc: Vec<Value> = Vec::new();
                    let mut i: usize = 0;
                    let mut fuel_cur: u64 = fuel - 1;
                    proof {
                        lemma_value_views_rec(acc@);
                        lemma_value_views_rec(items@);
                    }
                    loop
                        invariant
                            i <= items@.len(),
                            items_v == value_views_rec(items@),
                            items_v.len() == items@.len(),
                            forall|j: int|
                                0 <= j < items@.len() ==> items_v[j] == crate::value::value_view(
                                    items@[j],
                                ),
                            (**body)@ == bv,
                            variable@ == var_v,
                            ({
                                let rest = eval_foreach(
                                    var_v,
                                    items_v,
                                    i as nat,
                                    bv,
                                    value_views_rec(acc@),
                                    scope@,
                                    fuel_cur as nat,
                                );
                                target.flow is Outside || ({
                                    &&& target.flow == rest.flow
                                    &&& target.sc == rest.sc
                                    &&& log0 + target.log == host.log@ + rest.log
                                })
                            }),
                            fuel_cur < fuel,
                        decreases fuel_cur,
                    {
                        if fuel_cur == 0 {
                            proof {
                                let rest0 = eval_foreach(
                                    var_v,
                                    items_v,
                                    i as nat,
                                    bv,
                                    value_views_rec(acc@),
                                    scope@,
                                    fuel_cur as nat,
                                );
                                let sr = eval_expr(e@, old(scope)@, fuel as nat);
                                if !(sr.flow is Outside) {
                                    assert(host.log@ + rest0.log =~= host.log@);
                                    assert(host.log@ =~= old(host).log@ + sr.log);
                                }
                            }
                            return Err(Halt::Spent);
                        }
                        if i >= items.len() {
                            proof {
                                let sr = eval_expr(e@, old(scope)@, fuel as nat);
                                if !(sr.flow is Outside) {
                                    assert(host.log@ =~= old(host).log@ + sr.log);
                                }
                            }
                            return Ok(Value::Array(acc));
                        }
                        scope.push_scope();
                        scope.insert(
                            crate::value::clone_chars(&variable.0),
                            Variable { value: items[i].duplicate(), constant: true },
                        );
                        match eval_stmt_exec(body, scope, host, fuel_cur - 1) {
                            Ok(v) => {
                                scope.pop_scope();
                                let ghost acc_before = acc@;
                                acc.push(v);
                                proof {
                                    lemma_value_views_rec(acc@);
                                    lemma_value_views_rec(acc_before);
                                    assert(value_views_rec(acc@) =~= value_views_rec(
                                        acc_before,
                                    ).push(crate::value::value_view(acc@.last())));
                                }
                                i = i + 1;
                                fuel_cur = fuel_cur - 1;
                                proof {
                                    let rest2 = eval_foreach(
                                        var_v,
                                        items_v,
                                        i as nat,
                                        bv,
                                        value_views_rec(acc@),
                                        scope@,
                                        fuel_cur as nat,
                                    );
                                    if !(target.flow is Outside) {
                                        assert(log0 + target.log =~= host.log@ + rest2.log);
                                    }
                                }
                            },
                            Err(h) => {
                                proof {
                                    let sr = eval_expr(e@, old(scope)@, fuel as nat);
                                    if !(sr.flow is Outside) {
                                        assert(host.log@ =~= old(host).log@ + sr.log);
                                    }
                                }
                                return Err(h);
                            },
                        }
                    }
                },
                Err(h) => Err(h),
            }
        },
        _ => {
            proof {
                assert(false);
            }
            Err(Halt::Spent)
        },
    }
}

/// The elements of an array between two positions.
fn slice_array(arr: &Vec<Value>, a: usize, b: usize) -> (out: Vec<Value>)
    requires
        a <= b <= arr@.len(),
    ensures
        value_views_rec(out@) == value_views_rec(arr@).subrange(a as int, b as int),
{
    let mut out: Vec<Value> = Vec::new();
    let mut k: usize = a;
    while k < b
        invariant
            a <= k <= b <= arr@.len(),
            out@.len() == k - a,
            forall|j: int|
                0 <= j < out@.len() ==> crate::value::value_view(out@[j])
                    == crate::value::value_view(arr@[a + j]),
        decreases b - k,
    {
        out.push(arr[k].duplicate());
        k = k + 1;
    }
    proof {
        lemma_value_views_rec(out@);
        lemma_value_views_rec(arr@);
        assert(value_views_rec(out@) =~= value_views_rec(arr@).subrange(a as int, b as int));
    }
    out
}

/// The characters of a text between two positions.
fn slice_chars(st: &Vec<char>, a: usize, b: usize) -> (out: Vec<char>)
    requires
        a <= b <= st@.len(),
    ensures
        out@ == st@.subrange(a as int, b as int),
{
    let mut out: Vec<char> = Vec::new();
    let mut k: usize = a;
    while k < b
        invariant
            a <= k <= b <= st@.len(),
            out@ == st@.subrange(a as int, k as int),
        decreases b - k,
    {
        out.push(st[k]);
        proof {
            assert(out@ =~= st@.subrange(a as int, k + 1));
        }
        k = k + 1;
    }
    out
}

/// Evaluates a slice: the iterable, the optional bounds, and the checked
/// cut, arrays staying arrays and strings staying strings.
#[verifier::rlimit(100)]
#[verifier::spinoff_prover]
fn eval_slice_exec(e: &Expression, scope: &mut Scope, host: &mut Host, fuel: u64) -> (r: Result<
    Value,
    Halt,
>)
    requires
        fuel >= 1,
        e@.kind is Slice,
    ensures
        matches_eval(
            r,
            eval_expr(e@, old(scope)@, fuel as nat),
            final(scope)@,
            old(host).log@,
            final(host).log@,
        ),
    decreases fuel, 0nat,
{
    match &e.kind {
        ExpressionKind::Slice { start, end, iterable } => {
            let ghost srall = eval_slice_expr(
                e@,
                e@.kind->Slice_start,
                e@.kind->Slice_end,
                *e@.kind->Slice_iterable,
                old(scope)@,
                (fuel - 1) as nat,
            );
            proof {
                assert(eval_expr(e@, old(scope)@, fuel as nat) == srall);
            }
            if fuel == 1 {
                proof {
                    assert(old(host).log@ + Seq::<char>::empty() =~= old(host).log@);
                }
                return Err(Halt::Spent);
            }
            let itval = match eval_expr_exec(iterable, scope, host, fuel - 2) {
                Ok(v) => v,
                Err(h) => {
                    return Err(h);
                },
            };
            if !matches!(&itval, Value::Array(_) | Value::String(_)) {
                let tag = crate::value::value_type_chars(&itval);
                return Err(Halt::Failed(invalid_type_2(tag, "Array", "String", e.span)));
            }
            let len: usize = match &itval {
                Value::Array(a) => a.len(),
                Value::String(s) => s.len(),
                _ => 0,
            };
            proof {
                if itval@ is Array {
                    lemma_value_views_rec(itval->Array_0@);
                }
            }
            let a = match eval_slice_bound_exec(e, start, 0, scope, host, fuel - 2) {
                Ok(i) => i,
                Err(h) => {
                    proof {
                        if !(srall.flow is Outside) {
                            assert(host.log@ =~= old(host).log@ + srall.log);
                        }
                    }
                    return Err(h);
                },
            };
            let b = match eval_slice_bound_exec(e, end, len, scope, host, fuel - 2) {
                Ok(i) => i,
                Err(h) => {
                    proof {
                        if !(srall.flow is Outside) {
                            assert(host.log@ =~= old(host).log@ + srall.log);
                        }
                    }
                    return Err(h);
                },
            };
            proof {
                if !(srall.flow is Outside) {
                    assert(host.log@ =~= old(host).log@ + srall.log);
                }
            }
            if a > b {
                let err = EvaluationError {
                    kind: EvaluationErrorKind::InvalidRange(
                        Num(crate::num::num_from_u64_raw(a as u64)),
                        Num(crate::num::num_from_u64_raw(b as u64)),
                    ),
                    span: e.span,
                };
                proof {
                    if !(srall.flow is Outside) {
                        assert(srall.flow == Flow::Failed(err@));
                        assert(scope@ =~= srall.sc);
                    }
                }
                return Err(Halt::Failed(err));
            }
            if b > len {
                let err = EvaluationError {
                    kind: EvaluationErrorKind::IndexOutOfBounds(b, len),
                    span: e.span,
                };
                proof {
                    if !(srall.flow is Outside) {
                        assert(srall.flow == Flow::Failed(err@));
                        assert(scope@ =~= srall.sc);
                    }
                }
                return Err(Halt::Failed(err));
            }
            match &itval {
                Value::Array(arr) => {
                    proof {
                        lemma_value_views_rec(arr@);
                    }
                    let cut = slice_array(arr, a, b);
                    proof {
                        if !(srall.flow is Outside) {
                            assert(srall.flow == Flow::Next(ValueView::Array(value_views_rec(
                                cut@,
                            ))));
                            assert(scope@ =~= srall.sc);
                        }
                    }
                    Ok(Value::Array(cut))
                },
                Value::String(st) => {
                    let cut = slice_chars(st, a, b);
                    proof {
                        if !(srall.flow is Outside) {
                            assert(srall.flow == Flow::Next(ValueView::String(cut@)));
                            assert(scope@ =~= srall.sc);
                        }
                    }
                    Ok(Value::String(cut))
                },
                _ => {
                    proof {
                        assert(false);
                    }
                    Err(Halt::Spent)
                },
            }
        },
        _ => {
            proof {
                assert(false);
            }
            Err(Halt::Spent)
        },
    }
}

/// Evaluates one optional slice bound: the default position when absent,
/// and otherwise a number truncated to a position.
fn eval_slice_bound_exec(
    e: &Expression,
    bound: &Box<Option<Expression>>,
    deflt: usize,
    scope: &mut Scope,
    host: &mut Host,
    fuel: u64,
) -> (r: Result<usize, Halt>)
    ensures
        ({
            let (sr, idx) = eval_slice_bound(
                e@,
                match **bound {
                    Some(b) => Some(Box::new(crate::ast::expr_view(b))),
                    None => None,
                },
                deflt as nat,
                old(scope)@,
                fuel as nat,
            );
            sr.flow is Outside || ({
                &&& match r {
                    Ok(i) => sr.flow is Next && i == idx,
                    Err(Halt::Failed(err)) => sr.flow == Flow::Failed(err@),
                    Err(Halt::Exited(n)) => sr.flow == Flow::Exited(n),
                    Err(Halt::Spent) => sr.flow is Spent,
                }
                &&& final(scope)@ == sr.sc
                &&& final(host).log@ == old(host).log@ + sr.log
            })
        }),
    decreases fuel, 0nat,
{
    match &**bound {
        None => Ok(deflt),
        Some(b) => {
            if fuel == 0 {
                return Err(Halt::Spent);
            }
            match eval_expr_exec(b, scope, host, fuel - 1) {
                Ok(v) => {
                    match v {
                        Value::Number(n) => Ok(n.trunc_index()),
                        other => {
                            let tag = crate::value::value_type_chars(&other);
                            Err(Halt::Failed(invalid_type_1(tag, "Number", e.span)))
                        },
                    }
                },
                Err(h) => Err(h),
            }
        },
    }
}

/// Evaluates a whole program in the given scope, against the process's
/// real standard output and input. On success the value of the last
/// statement comes back with the scope as the run left it; otherwise the
/// first fault, a request to end the process, or exhaustion of the step
/// budget. The model tracks the run exactly up to the first line read
/// from standard input, whose text the environment decides.
pub fn evaluate(program: Vec<Statement>, scope: Scope, host: &mut Host) -> (r: Result<
    (Value, Scope),
    Halt,
>)
    ensures
        ({
            let sr = eval_program(
                crate::ast::stmt_views_rec(program@),
                scope@,
                u64::MAX as nat,
            );
            sr.flow is Outside || ({
                &&& match r {
                    Ok((v, sc2)) => sr.flow == Flow::Next(v@) && sc2@ == sr.sc,
                    Err(Halt::Failed(e)) => sr.flow == Flow::Failed(e@),
                    Err(Halt::Exited(n)) => sr.flow == Flow::Exited(n),
                    Err(Halt::Spent) => sr.flow is Spent,
                }
                &&& final(host).log@ == old(host).log@ + sr.log
            })
        }),
{
    let mut sc = scope;
    match eval_stmts_exec(&program, 0, Value::Void, &mut sc, host, u64::MAX) {
        Ok(v) => Ok((v, sc)),
        Err(h) => Err(h),
    }
}

} // verus!
