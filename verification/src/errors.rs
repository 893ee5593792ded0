use vstd::prelude::*;

use crate::num::Num;
use crate::span::Span;

verus! {

/// What went wrong during evaluation.
#[derive(Debug)]
pub enum EvaluationErrorKind {
    UndefinedVariable(Vec<char>),
    InvalidOperator(Vec<char>, Vec<char>, Vec<char>),
    InvalidType(Vec<char>, Vec<Vec<char>>),
    IndexOutOfBounds(usize, usize),
    IncorrectParameterCount(usize, usize),
    ConstantReassignment(Vec<char>),
    InvalidRange(Num, Num),
    AssertionFailed,
}

/// The mathematical shape of an evaluation fault.
pub enum EvaluationErrorKindView {
    UndefinedVariable(Seq<char>),
    InvalidOperator(Seq<char>, Seq<char>, Seq<char>),
    InvalidType(Seq<char>, Seq<Seq<char>>),
    IndexOutOfBounds(usize, usize),
    IncorrectParameterCount(usize, usize),
    ConstantReassignment(Seq<char>),
    InvalidRange(Num, Num),
    AssertionFailed,
}

impl View for EvaluationErrorKind {
    type V = EvaluationErrorKindView;

    open spec fn view(&self) -> EvaluationErrorKindView {
        match self {
            EvaluationErrorKind::UndefinedVariable(n) => EvaluationErrorKindView::UndefinedVariable(
                n@,
            ),
            EvaluationErrorKind::InvalidOperator(op, l, r) =>
                EvaluationErrorKindView::InvalidOperator(op@, l@, r@),
            EvaluationErrorKind::InvalidType(found, expected) =>
                EvaluationErrorKindView::InvalidType(
                found@,
                Seq::new(expected@.len(), |i: int| expected@[i]@),
            ),
            EvaluationErrorKind::IndexOutOfBounds(i, l) => EvaluationErrorKindView::IndexOutOfBounds(
                *i,
                *l,
            ),
            EvaluationErrorKind::IncorrectParameterCount(f, e) =>
                EvaluationErrorKindView::IncorrectParameterCount(*f, *e),
            EvaluationErrorKind::ConstantReassignment(n) =>
                EvaluationErrorKindView::ConstantReassignment(n@),
            EvaluationErrorKind::InvalidRange(s, e) => EvaluationErrorKindView::InvalidRange(
                *s,
                *e,
            ),
            EvaluationErrorKind::AssertionFailed => EvaluationErrorKindView::AssertionFailed,
        }
    }
}

/// An evaluation fault and the token range of the construct it arose in.
#[derive(Debug)]
pub struct EvaluationError {
    pub kind: EvaluationErrorKind,
    pub span: Span,
}

/// The mathematical shape of an evaluation error.
pub struct EvaluationErrorView {
    pub kind: EvaluationErrorKindView,
    pub span: Span,
}

impl View for EvaluationError {
    type V = EvaluationErrorView;

    open spec fn view(&self) -> EvaluationErrorView {
        EvaluationErrorView { kind: self.kind@, span: self.span }
    }
}

/// One character of quoted text: quotes, backslashes and the common
/// control characters gain an escape; every other character stands as is.
pub open spec fn dbg_esc(c: char) -> Seq<char> {
    if c == '"' {
        seq!['\\', '"']
    } else if c == '\\' {
        seq!['\\', '\\']
    } else if c == '\n' {
        seq!['\\', 'n']
    } else if c == '\r' {
        seq!['\\', 'r']
    } else if c == '\t' {
        seq!['\\', 't']
    } else {
        seq![c]
    }
}

pub open spec fn dbg_body(s: Seq<char>) -> Seq<char>
    decreases s,
{
    if s.len() == 0 {
        Seq::empty()
    } else {
        dbg_body(s.drop_last()) + dbg_esc(s.last())
    }
}

/// The text wrapped in quotes with its escapes, the way diagnostics show
/// an embedded string.
pub open spec fn dbg_quote(s: Seq<char>) -> Seq<char> {
    seq!['"'] + dbg_body(s) + seq!['"']
}

/// A bracketed, comma-separated row of quoted texts.
pub open spec fn dbg_list_body(ss: Seq<Seq<char>>) -> Seq<char>
    decreases ss,
{
    if ss.len() == 0 {
        Seq::empty()
    } else if ss.len() == 1 {
        dbg_quote(ss[0])
    } else {
        dbg_list_body(ss.drop_last()) + seq![',', ' '] + dbg_quote(ss.last())
    }
}

pub open spec fn dbg_list(ss: Seq<Seq<char>>) -> Seq<char> {
    seq!['['] + dbg_list_body(ss) + seq![']']
}

/// The one-line message of an evaluation fault.
pub open spec fn error_kind_text(k: EvaluationErrorKindView) -> Seq<char> {
    match k {
        EvaluationErrorKindView::AssertionFailed => "AssertionFailed"@,
        EvaluationErrorKindView::UndefinedVariable(name) => "UndefinedVariable: "@ + name,
        EvaluationErrorKindView::InvalidOperator(op, left, right) => "InvalidOperator: "@
            + dbg_quote(left) + " "@ + dbg_quote(op) + " "@ + dbg_quote(right),
        EvaluationErrorKindView::InvalidType(found, expected) => "InvalidType: found "@
            + dbg_quote(found) + ", expected one of "@ + dbg_list(expected),
        EvaluationErrorKindView::IndexOutOfBounds(index, length) => "IndexOutOfBounds: index "@
            + crate::value::dec_str(index as nat) + " is not within the range [0.."@
            + crate::value::dec_str(length as nat) + ")"@,
        EvaluationErrorKindView::IncorrectParameterCount(found, expected) =>
            "IncorrectParameterCount: expected "@ + crate::value::dec_str(expected as nat)
            + ", found "@ + crate::value::dec_str(found as nat),
        EvaluationErrorKindView::ConstantReassignment(name) => "ConstantReassignment: "@ + name,
        EvaluationErrorKindView::InvalidRange(start, end) => "InvalidRange: "@ + crate::num::num_str(
            start.0,
        ) + ".."@ + crate::num::num_str(end.0),
    }
}

/// Appends the quoted form of a text.
fn push_dbg_quote(s: &Vec<char>, out: &mut Vec<char>)
    ensures
        final(out)@ == old(out)@ + dbg_quote(s@),
{
    out.push('"');
    let mut i: usize = 0;
    while i < s.len()
        invariant
            i <= s@.len(),
            out@ == old(out)@ + seq!['"'] + dbg_body(s@.take(i as int)),
        decreases s@.len() - i,
    {
        let c = s[i];
        if c == '"' {
            out.push('\\');
            out.push('"');
        } else if c == '\\' {
            out.push('\\');
            out.push('\\');
        } else if c == '\n' {
            out.push('\\');
            out.push('n');
        } else if c == '\r' {
            out.push('\\');
            out.push('r');
        } else if c == '\t' {
            out.push('\\');
            out.push('t');
        } else {
            out.push(c);
        }
        proof {
            assert(s@.take(i + 1).drop_last() =~= s@.take(i as int));
            assert(out@ =~= old(out)@ + seq!['"'] + dbg_body(s@.take(i + 1)));
        }
        i = i + 1;
    }
    out.push('"');
    proof {
        assert(s@.take(s@.len() as int) =~= s@);
        assert(out@ =~= old(out)@ + dbg_quote(s@));
    }
}

/// Appends the bracketed row of quoted texts.
fn push_dbg_list(ss: &Vec<Vec<char>>, out: &mut Vec<char>)
    ensures
        final(out)@ == old(out)@ + dbg_list(Seq::new(ss@.len(), |i: int| ss@[i]@)),
{
    let ghost views = Seq::new(ss@.len(), |i: int| ss@[i]@);
    out.push('[');
    let mut i: usize = 0;
    proof {
        assert(out@ =~= old(out)@ + seq!['['] + dbg_list_body(views.take(0)));
    }
    while i < ss.len()
        invariant
            i <= ss@.len(),
            views == Seq::new(ss@.len(), |j: int| ss@[j]@),
            out@ == old(out)@ + seq!['['] + dbg_list_body(views.take(i as int)),
        decreases ss@.len() - i,
    {
        if i > 0 {
            out.push(',');
            out.push(' ');
        }
        push_dbg_quote(&ss[i], out);
        proof {
            assert(views.take(i + 1).drop_last() =~= views.take(i as int));
            assert(views.take(i + 1).last() == ss@[i as int]@);
            assert(out@ =~= old(out)@ + seq!['['] + dbg_list_body(views.take(i + 1)));
        }
        i = i + 1;
    }
    out.push(']');
    proof {
        assert(views.take(views.len() as int) =~= views);
        assert(out@ =~= old(out)@ + dbg_list(views));
    }
}

/// The one-line message of an evaluation fault, as the interactive shell
/// and the file runner report it.
pub fn error_kind_chars(kind: &EvaluationErrorKind) -> (r: Vec<char>)
    ensures
        r@ == error_kind_text(kind@),
{
    let mut out: Vec<char> = Vec::new();
    match kind {
        EvaluationErrorKind::AssertionFailed => {
            crate::value::push_str_chars("AssertionFailed", &mut out);
        },
        EvaluationErrorKind::UndefinedVariable(name) => {
            crate::value::push_str_chars("UndefinedVariable: ", &mut out);
            crate::value::push_chars(name, &mut out);
        },
        EvaluationErrorKind::InvalidOperator(op, left, right) => {
            crate::value::push_str_chars("InvalidOperator: ", &mut out);
            push_dbg_quote(left, &mut out);
            crate::value::push_str_chars(" ", &mut out);
            push_dbg_quote(op, &mut out);
            crate::value::push_str_chars(" ", &mut out);
            push_dbg_quote(right, &mut out);
        },
        EvaluationErrorKind::InvalidType(found, expected) => {
            crate::value::push_str_chars("InvalidType: found ", &mut out);
            push_dbg_quote(found, &mut out);
            crate::value::push_str_chars(", expected one of ", &mut out);
            push_dbg_list(expected, &mut out);
        },
        EvaluationErrorKind::IndexOutOfBounds(index, length) => {
            crate::value::push_str_chars("IndexOutOfBounds: index ", &mut out);
            crate::value::push_dec(*index, &mut out);
            crate::value::push_str_chars(" is not within the range [0..", &mut out);
            crate::value::push_dec(*length, &mut out);
            crate::value::push_str_chars(")", &mut out);
        },
        EvaluationErrorKind::IncorrectParameterCount(found, expected) => {
            crate::value::push_str_chars("IncorrectParameterCount: expected ", &mut out);
            crate::value::push_dec(*expected, &mut out);
            crate::value::push_str_chars(", found ", &mut out);
            crate::value::push_dec(*found, &mut out);
        },
        EvaluationErrorKind::ConstantReassignment(name) => {
            crate::value::push_str_chars("ConstantReassignment: ", &mut out);
            crate::value::push_chars(name, &mut out);
        },
        EvaluationErrorKind::InvalidRange(start, end) => {
            crate::value::push_str_chars("InvalidRange: ", &mut out);
            let sd = crate::num::num_to_chars(*start);
            crate::value::push_chars(&sd, &mut out);
            crate::value::push_str_chars("..", &mut out);
            let ed = crate::num::num_to_chars(*end);
            crate::value::push_chars(&ed, &mut out);
        },
    }
    proof {
        assert(out@ =~= error_kind_text(kind@));
    }
    out
}

/// The one-line message of a scanning fault.
pub open spec fn lex_error_text(e: crate::tokens::LexError) -> Seq<char> {
    match e {
        crate::tokens::LexError::UnexpectedCharacter(c) => "Unexpected character: "@ + seq![c],
        crate::tokens::LexError::UnterminatedStringLiteral => "Unterminated string literal"@,
    }
}

/// The one-line message of a scanning fault, as the runners report it.
pub fn lex_error_chars(e: &crate::tokens::LexError) -> (r: Vec<char>)
    ensures
        r@ == lex_error_text(*e),
{
    let mut out: Vec<char> = Vec::new();
    match e {
        crate::tokens::LexError::UnexpectedCharacter(c) => {
            crate::value::push_str_chars("Unexpected character: ", &mut out);
            out.push(*c);
            proof {
                assert(out@ =~= lex_error_text(*e));
            }
        },
        crate::tokens::LexError::UnterminatedStringLiteral => {
            crate::value::push_str_chars("Unterminated string literal", &mut out);
        },
    }
    out
}

/// A fault whose payload is a found kind tag and one accepted kind.
pub fn invalid_type_1(found: Vec<char>, expected: &str, span: Span) -> (r: EvaluationError)
    ensures
        r@ == (EvaluationErrorView {
            kind: EvaluationErrorKindView::InvalidType(found@, seq![expected@]),
            span,
        }),
{
    let mut ex: Vec<Vec<char>> = Vec::new();
    ex.push(crate::value::str_to_chars(expected));
    let e = EvaluationError { kind: EvaluationErrorKind::InvalidType(found, ex), span };
    proof {
        assert(Seq::new(1, |i: int| e.kind->InvalidType_1@[i]@) =~= seq![expected@]);
    }
    e
}

/// A fault whose payload is a found kind tag and two accepted kinds.
pub fn invalid_type_2(found: Vec<char>, e1: &str, e2: &str, span: Span) -> (r: EvaluationError)
    ensures
        r@ == (EvaluationErrorView {
            kind: EvaluationErrorKindView::InvalidType(found@, seq![e1@, e2@]),
            span,
        }),
{
    let mut ex: Vec<Vec<char>> = Vec::new();
    ex.push(crate::value::str_to_chars(e1));
    ex.push(crate::value::str_to_chars(e2));
    let e = EvaluationError { kind: EvaluationErrorKind::InvalidType(found, ex), span };
    proof {
        assert(Seq::new(2, |i: int| e.kind->InvalidType_1@[i]@) =~= seq![e1@, e2@]);
    }
    e
}

} // verus!
