use vstd::prelude::*;

use std::rc::Rc;

use crate::ast::{stmt_eq, stmt_view, Statement, StatementView};
use crate::num::{
    dec_bits, float_eq, from_int_bits, num_str, num_to_chars, Num, NAN_BITS, POS_INF_BITS,
    SIGN_BIT,
};

verus! {

broadcast use vstd::std_specs::vec::axiom_vec_index_decreases;

/// The host-provided builtins.
#[derive(Clone, Copy, PartialEq, Eq, Structural, Debug)]
pub enum HostFn {
    Println,
    Print,
    Exit,
    Readln,
    Assert,
    Parse,
    Type,
    Len,
    Filter,
    Concat,
}

impl HostFn {
    /// How many arguments the builtin takes.
    pub open spec fn spec_arity(self) -> nat {
        match self {
            HostFn::Readln => 0,
            HostFn::Filter => 2,
            HostFn::Concat => 2,
            _ => 1,
        }
    }

    pub fn arity(&self) -> (r: usize)
        ensures
            r == self.spec_arity(),
    {
        match self {
            HostFn::Readln => 0,
            HostFn::Filter => 2,
            HostFn::Concat => 2,
            _ => 1,
        }
    }
}

/// A runtime value of the Language.
pub enum Value {
    Void,
    Number(Num),
    String(Vec<char>),
    Boolean(bool),
    Array(Vec<Value>),
    Function { parameters: Vec<Vec<char>>, body: Rc<Statement> },
    RustFunction { parameter_count: usize, function: HostFn },
}

/// The mathematical shape of a value.
pub enum ValueView {
    Void,
    Number(Num),
    String(Seq<char>),
    Boolean(bool),
    Array(Seq<ValueView>),
    Function { parameters: Seq<Seq<char>>, body: StatementView },
    RustFunction { parameter_count: usize, function: HostFn },
}

pub open spec fn value_views_rec(vs: Seq<Value>) -> Seq<ValueView>
    decreases vs,
{
    if vs.len() == 0 {
        Seq::empty()
    } else {
        value_views_rec(vs.drop_last()).push(value_view(vs.last()))
    }
}

pub open spec fn value_view(v: Value) -> ValueView
    decreases v,
{
    match v {
        Value::Void => ValueView::Void,
        Value::Number(n) => ValueView::Number(n),
        Value::String(s) => ValueView::String(s@),
        Value::Boolean(b) => ValueView::Boolean(b),
        Value::Array(a) => ValueView::Array(value_views_rec(a@)),
        Value::Function { parameters, body } => ValueView::Function {
            parameters: Seq::new(parameters@.len(), |i: int| parameters@[i]@),
            body: stmt_view(*body),
        },
        Value::RustFunction { parameter_count, function } => ValueView::RustFunction {
            parameter_count,
            function,
        },
    }
}

impl View for Value {
    type V = ValueView;

    open spec fn view(&self) -> ValueView {
        value_view(*self)
    }
}

pub proof fn lemma_value_views_rec(vs: Seq<Value>)
    ensures
        value_views_rec(vs).len() == vs.len(),
        forall|i: int| 0 <= i < vs.len() ==> value_views_rec(vs)[i] == value_view(vs[i]),
    decreases vs,
{
    if vs.len() > 0 {
        lemma_value_views_rec(vs.drop_last());
    }
}

/// A binding: the value and whether it may be reassigned.
pub struct Variable {
    pub value: Value,
    pub constant: bool,
}

/// The mathematical shape of a binding.
pub struct VariableView {
    pub value: ValueView,
    pub constant: bool,
}

impl View for Variable {
    type V = VariableView;

    open spec fn view(&self) -> VariableView {
        VariableView { value: value_view(self.value), constant: self.constant }
    }
}

/// Relies on `Rc::clone`, for which no specification is supplied here:
/// another handle to the same statement tree.
#[verifier::external_body]
pub(crate) fn rc_stmt_clone(b: &Rc<Statement>) -> (r: Rc<Statement>)
    ensures
        r == *b,
{
    Rc::clone(b)
}

pub fn clone_chars(v: &Vec<char>) -> (r: Vec<char>)
    ensures
        r@ == v@,
{
    let mut out: Vec<char> = Vec::new();
    let mut i: usize = 0;
    while i < v.len()
        invariant
            i <= v@.len(),
            out@ == v@.subrange(0, i as int),
        decreases v@.len() - i,
    {
        out.push(v[i]);
        proof {
            assert(out@ =~= v@.subrange(0, i as int + 1));
        }
        i = i + 1;
    }
    proof {
        assert(out@ =~= v@);
    }
    out
}

impl Value {
    /// A copy of the value; function bodies are shared, as user function
    /// values hold a shared handle to their tree.
    pub fn duplicate(&self) -> (r: Value)
        ensures
            r@ == self@,
        decreases *self,
    {
        match self {
            Value::Void => Value::Void,
            Value::Number(n) => Value::Number(*n),
            Value::String(s) => Value::String(clone_chars(s)),
            Value::Boolean(b) => Value::Boolean(*b),
            Value::Array(a) => {
                let mut out: Vec<Value> = Vec::new();
                let mut i: usize = 0;
                while i < a.len()
                    invariant
                        i <= a@.len(),
                        out@.len() == i,
                        forall|j: int| 0 <= j < i ==> value_view(out@[j]) == value_view(a@[j]),
                    decreases a@.len() - i,
                {
                    out.push(a[i].duplicate());
                    i = i + 1;
                }
                proof {
                    lemma_value_views_rec(out@);
                    lemma_value_views_rec(a@);
                    assert(value_views_rec(out@) =~= value_views_rec(a@));
                }
                Value::Array(out)
            },
            Value::Function { parameters, body } => {
                let mut ps: Vec<Vec<char>> = Vec::new();
                let mut i: usize = 0;
                while i < parameters.len()
                    invariant
                        i <= parameters@.len(),
                        ps@.len() == i,
                        forall|j: int| 0 <= j < i ==> ps@[j]@ == parameters@[j]@,
                    decreases parameters@.len() - i,
                {
                    ps.push(clone_chars(&parameters[i]));
                    i = i + 1;
                }
                proof {
                    assert(Seq::new(ps@.len(), |i: int| ps@[i]@) =~= Seq::new(
                        parameters@.len(),
                        |i: int| parameters@[i]@,
                    ));
                }
                Value::Function { parameters: ps, body: rc_stmt_clone(body) }
            },
            Value::RustFunction { parameter_count, function } => Value::RustFunction {
                parameter_count: *parameter_count,
                function: *function,
            },
        }
    }
}

/// The Language's structural equality of two values: numbers compare as
/// IEEE-754 values, arrays element by element, functions by their
/// parameter lists and whole body trees, builtins by identity.
pub open spec fn eq_value(a: ValueView, b: ValueView) -> bool
    decreases a,
{
    match (a, b) {
        (ValueView::Void, ValueView::Void) => true,
        (ValueView::Number(x), ValueView::Number(y)) => float_eq(x.0, y.0),
        (ValueView::String(x), ValueView::String(y)) => x == y,
        (ValueView::Boolean(x), ValueView::Boolean(y)) => x == y,
        (ValueView::Array(x), ValueView::Array(y)) => eq_values(x, y),
        (
            ValueView::Function { parameters: pa, body: ba },
            ValueView::Function { parameters: pb, body: bb },
        ) => pa == pb && ba == bb,
        (
            ValueView::RustFunction { parameter_count: ca, function: fa },
            ValueView::RustFunction { parameter_count: cb, function: fb },
        ) => ca == cb && fa == fb,
        _ => false,
    }
}

pub open spec fn eq_values(a: Seq<ValueView>, b: Seq<ValueView>) -> bool
    decreases a,
{
    if a.len() != b.len() {
        false
    } else if a.len() == 0 {
        true
    } else {
        eq_value(a.last(), b.last()) && eq_values(a.drop_last(), b.drop_last())
    }
}

/// Decides the Language's `==` on two values.
pub fn value_eq(a: &Value, b: &Value) -> (r: bool)
    ensures
        r == eq_value(a@, b@),
    decreases *a,
{
    match (a, b) {
        (Value::Void, Value::Void) => true,
        (Value::Number(x), Value::Number(y)) => x.eq_num(*y),
        (Value::String(x), Value::String(y)) => crate::ast::eq_chars(x, y),
        (Value::Boolean(x), Value::Boolean(y)) => x == y,
        (Value::Array(x), Value::Array(y)) => {
            proof {
                lemma_value_views_rec(x@);
                lemma_value_views_rec(y@);
            }
            if x.len() != y.len() {
                proof {
                    lemma_eq_values_pointwise(value_views_rec(x@), value_views_rec(y@));
                }
                return false;
            }
            let mut i: usize = 0;
            while i < x.len()
                invariant
                    i <= x@.len(),
                    x@.len() == y@.len(),
                    forall|j: int| 0 <= j < i ==> eq_value(value_view(x@[j]), value_view(y@[j])),
                decreases x@.len() - i,
            {
                if !value_eq(&x[i], &y[i]) {
                    proof {
                        lemma_value_views_rec(x@);
                        lemma_value_views_rec(y@);
                        lemma_eq_values_pointwise(value_views_rec(x@), value_views_rec(y@));
                        assert(!eq_value(
                            value_views_rec(x@)[i as int],
                            value_views_rec(y@)[i as int],
                        ));
                    }
                    return false;
                }
                i = i + 1;
            }
            proof {
                lemma_value_views_rec(x@);
                lemma_value_views_rec(y@);
                lemma_eq_values_pointwise(value_views_rec(x@), value_views_rec(y@));
            }
            true
        },
        (
            Value::Function { parameters: pa, body: ba },
            Value::Function { parameters: pb, body: bb },
        ) => {
            if pa.len() != pb.len() {
                proof {
                    assert(value_view(*a)->Function_parameters.len() != value_view(
                        *b,
                    )->Function_parameters.len());
                }
                return false;
            }
            let mut i: usize = 0;
            while i < pa.len()
                invariant
                    i <= pa@.len(),
                    pa@.len() == pb@.len(),
                    forall|j: int| 0 <= j < i ==> pa@[j]@ == pb@[j]@,
                decreases pa@.len() - i,
            {
                if !crate::ast::eq_chars(&pa[i], &pb[i]) {
                    proof {
                        assert(value_view(*a)->Function_parameters[i as int] != value_view(
                            *b,
                        )->Function_parameters[i as int]);
                    }
                    return false;
                }
                i = i + 1;
            }
            proof {
                assert(value_view(*a)->Function_parameters =~= value_view(
                    *b,
                )->Function_parameters);
            }
            stmt_eq(ba, bb)
        },
        (
            Value::RustFunction { parameter_count: ca, function: fa },
            Value::RustFunction { parameter_count: cb, function: fb },
        ) => ca == cb && fa == fb,
        _ => false,
    }
}

/// Element-wise equality of two value rows is equality index by index.
pub proof fn lemma_eq_values_pointwise(a: Seq<ValueView>, b: Seq<ValueView>)
    ensures
        eq_values(a, b) == (a.len() == b.len() && forall|i: int|
            0 <= i < a.len() ==> eq_value(a[i], b[i])),
    decreases a,
{
    if a.len() == b.len() && a.len() > 0 {
        lemma_eq_values_pointwise(a.drop_last(), b.drop_last());
        if eq_value(a.last(), b.last()) && eq_values(a.drop_last(), b.drop_last()) {
            assert(forall|i: int| 0 <= i < a.len() ==> eq_value(a[i], b[i])) by {
                assert(forall|i: int|
                    0 <= i < a.len() - 1 ==> a[i] == a.drop_last()[i] && b[i] == b.drop_last()[i]);
            }
        }
    }
}

/// The kind tag of a value, as the `type` builtin reports it.
pub open spec fn type_tag(v: ValueView) -> Seq<char> {
    match v {
        ValueView::Void => "Void"@,
        ValueView::Number(_) => "Number"@,
        ValueView::String(_) => "String"@,
        ValueView::Boolean(_) => "Boolean"@,
        ValueView::Array(_) => "Array"@,
        ValueView::Function { .. } => "Function"@,
        ValueView::RustFunction { .. } => "RustFunction"@,
    }
}

/// The kind tag of a value as text.
pub fn value_type_chars(v: &Value) -> (r: Vec<char>)
    ensures
        r@ == type_tag(v@),
{
    let text: &str = match v {
        Value::Void => "Void",
        Value::Number(_) => "Number",
        Value::String(_) => "String",
        Value::Boolean(_) => "Boolean",
        Value::Array(_) => "Array",
        Value::Function { .. } => "Function",
        Value::RustFunction { .. } => "RustFunction",
    };
    str_to_chars(text)
}

/// The characters of a text slice.
pub fn str_to_chars(s: &str) -> (r: Vec<char>)
    ensures
        r@ == s@,
{
    let n = s.unicode_len();
    let mut out: Vec<char> = Vec::new();
    let mut i: usize = 0;
    while i < n
        invariant
            i <= n,
            n == s@.len(),
            out@ == s@.subrange(0, i as int),
        decreases n - i,
    {
        out.push(s.get_char(i));
        proof {
            assert(out@ =~= s@.subrange(0, i as int + 1));
        }
        i = i + 1;
    }
    proof {
        assert(out@ =~= s@);
    }
    out
}

/// The decimal digits of a machine integer.
pub open spec fn dec_str(n: nat) -> Seq<char>
    decreases n,
{
    if n < 10 {
        seq![((48 + n) as u8) as char]
    } else {
        dec_str(n / 10) + seq![((48 + (n % 10)) as u8) as char]
    }
}

/// Appends the decimal digits of `n`.
pub fn push_dec(n: usize, out: &mut Vec<char>)
    ensures
        final(out)@ == old(out)@ + dec_str(n as nat),
    decreases n,
{
    if n >= 10 {
        push_dec(n / 10, out);
    }
    let d: u8 = 48 + (n % 10) as u8;
    out.push(d as char);
    proof {
        assert(out@ =~= old(out)@ + dec_str(n as nat));
    }
}

/// The rendering of a value: what `print`, `println` and string
/// concatenation show.
pub open spec fn str_of_value(v: ValueView) -> Seq<char>
    decreases v, 0nat, 0nat,
{
    match v {
        ValueView::Void => "void"@,
        ValueView::Number(n) => num_str(n.0),
        ValueView::String(s) => s,
        ValueView::Boolean(b) => if b {
            "true"@
        } else {
            "false"@
        },
        ValueView::Array(els) => "["@ + (if els.len() == 0 {
            Seq::<char>::empty()
        } else {
            str_of_value(els[0]) + join_from(els, 1)
        }) + "]"@,
        ValueView::Function { parameters, .. } => "fn ("@ + params_text(parameters) + ") "@,
        ValueView::RustFunction { parameter_count, .. } => "RustFn("@ + dec_str(
            parameter_count as nat,
        ) + ")"@,
    }
}

/// The tail of a rendered array: a separator and a value for each element
/// from `i` on.
pub open spec fn join_from(els: Seq<ValueView>, i: nat) -> Seq<char>
    decreases els, 1nat, els.len() - i,
{
    if i >= els.len() {
        Seq::empty()
    } else {
        ", "@ + str_of_value(els[i as int]) + join_from(els, i + 1)
    }
}

/// The rendered parameter list of a function value: every name followed by
/// a separator.
pub open spec fn params_text(params: Seq<Seq<char>>) -> Seq<char>
    decreases params,
{
    if params.len() == 0 {
        Seq::empty()
    } else {
        params_text(params.drop_last()) + params.last() + ", "@
    }
}

/// Appends the characters of a text slice.
pub fn push_str_chars(s: &str, out: &mut Vec<char>)
    ensures
        final(out)@ == old(out)@ + s@,
{
    let n = s.unicode_len();
    let mut i: usize = 0;
    while i < n
        invariant
            i <= n,
            n == s@.len(),
            out@ == old(out)@ + s@.subrange(0, i as int),
        decreases n - i,
    {
        out.push(s.get_char(i));
        proof {
            assert(out@ =~= old(out)@ + s@.subrange(0, i as int + 1));
        }
        i = i + 1;
    }
    proof {
        assert(old(out)@ + s@.subrange(0, n as int) =~= old(out)@ + s@);
    }
}

/// Appends the characters of a character vector.
pub fn push_chars(s: &Vec<char>, out: &mut Vec<char>)
    ensures
        final(out)@ == old(out)@ + s@,
{
    let mut i: usize = 0;
    while i < s.len()
        invariant
            i <= s@.len(),
            out@ == old(out)@ + s@.subrange(0, i as int),
        decreases s@.len() - i,
    {
        out.push(s[i]);
        proof {
            assert(out@ =~= old(out)@ + s@.subrange(0, i as int + 1));
        }
        i = i + 1;
    }
    proof {
        assert(old(out)@ + s@.subrange(0, s@.len() as int) =~= old(out)@ + s@);
    }
}

/// Appends the rendering of a value.
pub fn push_value_str(v: &Value, out: &mut Vec<char>)
    ensures
        final(out)@ == old(out)@ + str_of_value(v@),
    decreases *v, 0nat, 0nat,
{
    match v {
        Value::Void => {
            push_str_chars("void", out);
        },
        Value::Number(n) => {
            let digits = num_to_chars(*n);
            push_chars(&digits, out);
        },
        Value::String(s) => {
            push_chars(s, out);
        },
        Value::Boolean(b) => {
            if *b {
                push_str_chars("true", out);
            } else {
                push_str_chars("false", out);
            }
        },
        Value::Array(els) => {
            proof {
                lemma_value_views_rec(els@);
            }
            push_str_chars("[", out);
            if els.len() > 0 {
                push_value_str(&els[0], out);
                push_join_from(els, 1, out);
            }
            push_str_chars("]", out);
            proof {
                if els@.len() == 0 {
                    assert(final(out)@ =~= old(out)@ + str_of_value(v@));
                } else {
                    assert(final(out)@ =~= old(out)@ + str_of_value(v@));
                }
            }
        },
        Value::Function { parameters, .. } => {
            push_str_chars("fn (", out);
            let mut i: usize = 0;
            while i < parameters.len()
                invariant
                    i <= parameters@.len(),
                    out@ == old(out)@ + "fn ("@ + params_text(
                        Seq::new(parameters@.len(), |k: int| parameters@[k]@).take(i as int),
                    ),
                decreases parameters@.len() - i,
            {
                let ghost pview = Seq::new(parameters@.len(), |k: int| parameters@[k]@);
                push_chars(&parameters[i], out);
                push_str_chars(", ", out);
                proof {
                    assert(pview.take(i + 1).drop_last() =~= pview.take(i as int));
                    assert(out@ =~= old(out)@ + "fn ("@ + params_text(pview.take(i + 1)));
                }
                i = i + 1;
            }
            push_str_chars(") ", out);
            proof {
                let pview = Seq::new(parameters@.len(), |k: int| parameters@[k]@);
                assert(pview.take(parameters@.len() as int) =~= pview);
                assert(final(out)@ =~= old(out)@ + str_of_value(v@));
            }
        },
        Value::RustFunction { parameter_count, .. } => {
            push_str_chars("RustFn(", out);
            push_dec(*parameter_count, out);
            push_str_chars(")", out);
            proof {
                assert(final(out)@ =~= old(out)@ + str_of_value(v@));
            }
        },
    }
}

/// Appends the separated tail of a rendered array from element `i` on.
fn push_join_from(els: &Vec<Value>, i: usize, out: &mut Vec<char>)
    requires
        i >= 1,
    ensures
        final(out)@ == old(out)@ + join_from(value_views_rec(els@), i as nat),
    decreases els@, 1nat, els@.len() - i,
{
    proof {
        lemma_value_views_rec(els@);
    }
    if i < els.len() {
        push_str_chars(", ", out);
        push_value_str(&els[i], out);
        push_join_from(els, i + 1, out);
        proof {
            assert(final(out)@ =~= old(out)@ + join_from(value_views_rec(els@), i as nat));
        }
    } else {
        proof {
            assert(final(out)@ =~= old(out)@ + join_from(value_views_rec(els@), i as nat));
        }
    }
}

/// The rendering of a value as a fresh character vector.
pub fn value_to_chars(v: &Value) -> (r: Vec<char>)
    ensures
        r@ == str_of_value(v@),
{
    let mut out: Vec<char> = Vec::new();
    push_value_str(v, &mut out);
    proof {
        assert(out@ =~= str_of_value(v@));
    }
    out
}

/// The number of bytes the UTF-8 form of a character takes.
pub open spec fn utf8_len_char(c: char) -> nat {
    let u = c as u32;
    if u < 0x80 {
        1
    } else if u < 0x800 {
        2
    } else if u < 0x10000 {
        3
    } else {
        4
    }
}

/// The number of bytes the UTF-8 form of a text takes.
pub open spec fn utf8_len_seq(s: Seq<char>) -> nat
    decreases s,
{
    if s.len() == 0 {
        0
    } else {
        utf8_len_seq(s.drop_last()) + utf8_len_char(s.last())
    }
}

/// The byte length of a text, capped at the range a number index carries.
pub open spec fn utf8_len_clamped(s: Seq<char>) -> u64 {
    if utf8_len_seq(s) > u64::MAX {
        u64::MAX
    } else {
        utf8_len_seq(s) as u64
    }
}

pub proof fn lemma_utf8_len_take(s: Seq<char>, i: int)
    requires
        0 <= i < s.len(),
    ensures
        utf8_len_seq(s.take(i + 1)) == utf8_len_seq(s.take(i)) + utf8_len_char(s[i]),
{
    assert(s.take(i + 1).drop_last() =~= s.take(i));
    assert(s.take(i + 1).last() == s[i]);
}

/// The number of bytes one character takes in UTF-8.
pub fn char_utf8_len(c: char) -> (r: usize)
    ensures
        r == utf8_len_char(c),
{
    let u = c as u32;
    if u < 0x80 {
        1
    } else if u < 0x800 {
        2
    } else if u < 0x10000 {
        3
    } else {
        4
    }
}

/// The byte length of a text, as the `len` builtin reports it for strings.
pub fn utf8_len(s: &Vec<char>) -> (r: u64)
    ensures
        r == utf8_len_clamped(s@),
{
    let mut total: u64 = 0;
    let mut i: usize = 0;
    proof {
        assert(s@.take(0) =~= Seq::<char>::empty());
    }
    while i < s.len()
        invariant
            i <= s@.len(),
            total as nat == utf8_len_seq(s@.take(i as int)) || (total == u64::MAX && utf8_len_seq(
                s@.take(i as int),
            ) >= u64::MAX),
        decreases s@.len() - i,
    {
        let u = s[i] as u32;
        let step: u64 = if u < 0x80 {
            1
        } else if u < 0x800 {
            2
        } else if u < 0x10000 {
            3
        } else {
            4
        };
        proof {
            lemma_utf8_len_take(s@, i as int);
        }
        if total > u64::MAX - step {
            total = u64::MAX;
        } else {
            total = total + step;
            proof {
                if total == u64::MAX {
                    assert(utf8_len_seq(s@.take(i + 1)) >= u64::MAX);
                }
            }
        }
        i = i + 1;
    }
    proof {
        assert(s@.take(s@.len() as int) =~= s@);
    }
    total
}

/// Lexicographic order of two texts by code point, the order byte-wise
/// comparison of their UTF-8 forms gives.
pub open spec fn lex_lt(a: Seq<char>, b: Seq<char>) -> bool
    decreases a,
{
    if b.len() == 0 {
        false
    } else if a.len() == 0 {
        true
    } else if a[0] == b[0] {
        lex_lt(a.drop_first(), b.drop_first())
    } else {
        (a[0] as u32) < (b[0] as u32)
    }
}

/// Lexicographic order-or-equality of two texts.
pub open spec fn lex_le(a: Seq<char>, b: Seq<char>) -> bool {
    lex_lt(a, b) || a == b
}

/// Decides the lexicographic order of two texts.
pub fn chars_lt(a: &Vec<char>, b: &Vec<char>) -> (r: bool)
    ensures
        r == lex_lt(a@, b@),
{
    let mut i: usize = 0;
    let ghost ga = a@;
    let ghost gb = b@;
    proof {
        assert(ga.skip(0) =~= ga);
        assert(gb.skip(0) =~= gb);
    }
    while i < a.len() && i < b.len() && a[i] == b[i]
        invariant
            i <= ga.len(),
            i <= gb.len(),
            forall|j: int| 0 <= j < i ==> ga[j] == gb[j],
            lex_lt(ga, gb) == lex_lt(ga.skip(i as int), gb.skip(i as int)),
        decreases ga.len() - i,
    {
        proof {
            assert(ga.skip(i as int).drop_first() =~= ga.skip(i + 1));
            assert(gb.skip(i as int).drop_first() =~= gb.skip(i + 1));
        }
        i = i + 1;
    }
    proof {
        assert(ga.skip(i as int).len() == ga.len() - i);
        assert(gb.skip(i as int).len() == gb.len() - i);
    }
    if i >= b.len() {
        false
    } else if i >= a.len() {
        true
    } else {
        let r = (a[i] as u32) < (b[i] as u32);
        proof {
            assert(ga.skip(i as int)[0] == ga[i as int]);
            assert(gb.skip(i as int)[0] == gb[i as int]);
        }
        r
    }
}

/// Decides lexicographic order-or-equality of two texts.
pub fn chars_le(a: &Vec<char>, b: &Vec<char>) -> (r: bool)
    ensures
        r == lex_le(a@, b@),
{
    chars_lt(a, b) || crate::ast::eq_chars(a, b)
}

} // verus!
