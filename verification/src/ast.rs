use vstd::prelude::*;

use std::rc::Rc;

use crate::num::Num;
use crate::span::Span;
use crate::tokens::{TokenKind, TokenKindView};

verus! {

broadcast use vstd::std_specs::vec::axiom_vec_index_decreases;

/// A name appearing in the source.
#[derive(Clone, PartialEq, Eq, Debug, Hash)]
pub struct Identifier(pub Vec<char>);

impl View for Identifier {
    type V = Seq<char>;

    open spec fn view(&self) -> Seq<char> {
        self.0@
    }
}

/// The operators that take two operands, written before both.
#[derive(Clone, Copy, PartialEq, Eq, Structural, Debug)]
pub enum BinaryOperator {
    Add,
    Subtract,
    Multiply,
    Divide,
    Modulo,
    Equal,
    NotEqual,
    LessThan,
    LessThanOrEqual,
    GreaterThan,
    GreaterThanOrEqual,
    And,
    Or,
    Range,
}

/// The operators that take one operand.
#[derive(Clone, Copy, PartialEq, Eq, Structural, Debug)]
pub enum UnaryOperator {
    Identity,
    Negate,
    Not,
}

/// A statement: its form and the token range it covers.
pub struct Statement {
    pub kind: StatementKind,
    pub span: Span,
}

pub enum StatementKind {
    Block(Vec<Statement>),
    Let { name: Identifier, value: Expression, constant: bool },
    Expression(Expression),
    FunctionDeclaration { name: Identifier, parameters: Vec<Identifier>, body: Rc<Statement> },
    Assignment { name: Identifier, value: Expression },
}

/// An expression: its form and the token range it covers.
pub struct Expression {
    pub kind: ExpressionKind,
    pub span: Span,
}

pub enum ExpressionKind {
    Void,
    Identifier(Identifier),
    NumberLiteral(Num),
    StringLiteral(Vec<char>),
    BooleanLiteral(bool),
    ArrayLiteral(Vec<Expression>),
    Index { iterable: Box<Expression>, index: Box<Expression> },
    Slice {
        start: Box<Option<Expression>>,
        end: Box<Option<Expression>>,
        iterable: Box<Expression>,
    },
    FunctionCall { name: Identifier, arguments: Vec<Expression> },
    If {
        condition: Box<Expression>,
        consequence: Box<Statement>,
        alternative: Box<Option<Statement>>,
    },
    For { variable: Identifier, iterable: Box<Expression>, body: Rc<Statement> },
    While { condition: Box<Expression>, body: Rc<Statement> },
    Binary { operator: BinaryOperator, left: Box<Expression>, right: Box<Expression> },
    Unary { operator: UnaryOperator, operand: Box<Expression> },
}

/// The mathematical shape of a statement.
pub struct StatementView {
    pub kind: StatementKindView,
    pub span: Span,
}

pub enum StatementKindView {
    Block(Seq<StatementView>),
    Let { name: Seq<char>, value: ExpressionView, constant: bool },
    Expression(ExpressionView),
    FunctionDeclaration {
        name: Seq<char>,
        parameters: Seq<Seq<char>>,
        body: Box<StatementView>,
    },
    Assignment { name: Seq<char>, value: ExpressionView },
}

/// The mathematical shape of an expression.
pub struct ExpressionView {
    pub kind: ExpressionKindView,
    pub span: Span,
}

pub enum ExpressionKindView {
    Void,
    Identifier(Seq<char>),
    NumberLiteral(Num),
    StringLiteral(Seq<char>),
    BooleanLiteral(bool),
    ArrayLiteral(Seq<ExpressionView>),
    Index { iterable: Box<ExpressionView>, index: Box<ExpressionView> },
    Slice {
        start: Option<Box<ExpressionView>>,
        end: Option<Box<ExpressionView>>,
        iterable: Box<ExpressionView>,
    },
    FunctionCall { name: Seq<char>, arguments: Seq<ExpressionView> },
    If {
        condition: Box<ExpressionView>,
        consequence: Box<StatementView>,
        alternative: Option<Box<StatementView>>,
    },
    For { variable: Seq<char>, iterable: Box<ExpressionView>, body: Box<StatementView> },
    While { condition: Box<ExpressionView>, body: Box<StatementView> },
    Binary { operator: BinaryOperator, left: Box<ExpressionView>, right: Box<ExpressionView> },
    Unary { operator: UnaryOperator, operand: Box<ExpressionView> },
}

pub open spec fn stmt_views_rec(ss: Seq<Statement>) -> Seq<StatementView>
    decreases ss,
{
    if ss.len() == 0 {
        Seq::empty()
    } else {
        stmt_views_rec(ss.drop_last()).push(stmt_view(ss.last()))
    }
}

pub open spec fn expr_views_rec(es: Seq<Expression>) -> Seq<ExpressionView>
    decreases es,
{
    if es.len() == 0 {
        Seq::empty()
    } else {
        expr_views_rec(es.drop_last()).push(expr_view(es.last()))
    }
}

pub open spec fn stmt_view(s: Statement) -> StatementView
    decreases s,
{
    StatementView { kind: stmt_kind_view(s.kind), span: s.span }
}

pub open spec fn stmt_kind_view(k: StatementKind) -> StatementKindView
    decreases k,
{
    match k {
        StatementKind::Block(stmts) => StatementKindView::Block(stmt_views_rec(stmts@)),
        StatementKind::Let { name, value, constant } => StatementKindView::Let {
            name: name@,
            value: expr_view(value),
            constant,
        },
        StatementKind::Expression(e) => StatementKindView::Expression(expr_view(e)),
        StatementKind::FunctionDeclaration { name, parameters, body } =>
            StatementKindView::FunctionDeclaration {
            name: name@,
            parameters: Seq::new(parameters@.len(), |i: int| parameters@[i]@),
            body: Box::new(stmt_view(*body)),
        },
        StatementKind::Assignment { name, value } => StatementKindView::Assignment {
            name: name@,
            value: expr_view(value),
        },
    }
}

pub open spec fn expr_view(e: Expression) -> ExpressionView
    decreases e,
{
    ExpressionView { kind: expr_kind_view(e.kind), span: e.span }
}

pub open spec fn expr_kind_view(k: ExpressionKind) -> ExpressionKindView
    decreases k,
{
    match k {
        ExpressionKind::Void => ExpressionKindView::Void,
        ExpressionKind::Identifier(id) => ExpressionKindView::Identifier(id@),
        ExpressionKind::NumberLiteral(n) => ExpressionKindView::NumberLiteral(n),
        ExpressionKind::StringLiteral(s) => ExpressionKindView::StringLiteral(s@),
        ExpressionKind::BooleanLiteral(b) => ExpressionKindView::BooleanLiteral(b),
        ExpressionKind::ArrayLiteral(es) => ExpressionKindView::ArrayLiteral(expr_views_rec(es@)),
        ExpressionKind::Index { iterable, index } => ExpressionKindView::Index {
            iterable: Box::new(expr_view(*iterable)),
            index: Box::new(expr_view(*index)),
        },
        ExpressionKind::Slice { start, end, iterable } => ExpressionKindView::Slice {
            start: match *start {
                Some(e) => Some(Box::new(expr_view(e))),
                None => None,
            },
            end: match *end {
                Some(e) => Some(Box::new(expr_view(e))),
                None => None,
            },
            iterable: Box::new(expr_view(*iterable)),
        },
        ExpressionKind::FunctionCall { name, arguments } => ExpressionKindView::FunctionCall {
            name: name@,
            arguments: expr_views_rec(arguments@),
        },
        ExpressionKind::If { condition, consequence, alternative } => ExpressionKindView::If {
            condition: Box::new(expr_view(*condition)),
            consequence: Box::new(stmt_view(*consequence)),
            alternative: match *alternative {
                Some(s) => Some(Box::new(stmt_view(s))),
                None => None,
            },
        },
        ExpressionKind::For { variable, iterable, body } => ExpressionKindView::For {
            variable: variable@,
            iterable: Box::new(expr_view(*iterable)),
            body: Box::new(stmt_view(*body)),
        },
        ExpressionKind::While { condition, body } => ExpressionKindView::While {
            condition: Box::new(expr_view(*condition)),
            body: Box::new(stmt_view(*body)),
        },
        ExpressionKind::Binary { operator, left, right } => ExpressionKindView::Binary {
            operator,
            left: Box::new(expr_view(*left)),
            right: Box::new(expr_view(*right)),
        },
        ExpressionKind::Unary { operator, operand } => ExpressionKindView::Unary {
            operator,
            operand: Box::new(expr_view(*operand)),
        },
    }
}

impl View for Statement {
    type V = StatementView;

    open spec fn view(&self) -> StatementView {
        stmt_view(*self)
    }
}

impl View for Expression {
    type V = ExpressionView;

    open spec fn view(&self) -> ExpressionView {
        expr_view(*self)
    }
}

/// The views of the statements of a sequence, element by element.
pub proof fn lemma_stmt_views_rec(ss: Seq<Statement>)
    ensures
        stmt_views_rec(ss).len() == ss.len(),
        forall|i: int| 0 <= i < ss.len() ==> stmt_views_rec(ss)[i] == stmt_view(ss[i]),
    decreases ss,
{
    if ss.len() > 0 {
        lemma_stmt_views_rec(ss.drop_last());
    }
}

/// The views of the expressions of a sequence, element by element.
pub proof fn lemma_expr_views_rec(es: Seq<Expression>)
    ensures
        expr_views_rec(es).len() == es.len(),
        forall|i: int| 0 <= i < es.len() ==> expr_views_rec(es)[i] == expr_view(es[i]),
    decreases es,
{
    if es.len() > 0 {
        lemma_expr_views_rec(es.drop_last());
    }
}

/// The source text of a binary operator.
pub open spec fn binop_str(op: BinaryOperator) -> Seq<char> {
    match op {
        BinaryOperator::Add => "+"@,
        BinaryOperator::Subtract => "-"@,
        BinaryOperator::Multiply => "*"@,
        BinaryOperator::Divide => "/"@,
        BinaryOperator::Modulo => "%"@,
        BinaryOperator::Equal => "=="@,
        BinaryOperator::NotEqual => "!="@,
        BinaryOperator::LessThan => "<"@,
        BinaryOperator::LessThanOrEqual => "<="@,
        BinaryOperator::GreaterThan => ">"@,
        BinaryOperator::GreaterThanOrEqual => ">="@,
        BinaryOperator::And => "&&"@,
        BinaryOperator::Or => "||"@,
        BinaryOperator::Range => ".."@,
    }
}

/// The source text of a unary operator.
pub open spec fn unop_str(op: UnaryOperator) -> Seq<char> {
    match op {
        UnaryOperator::Identity => "+"@,
        UnaryOperator::Negate => "-"@,
        UnaryOperator::Not => "!"@,
    }
}

impl BinaryOperator {
    /// The operator as text.
    pub fn to_string(&self) -> (r: String)
        ensures
            r@ == binop_str(*self),
    {
        match self {
            BinaryOperator::Add => String::from_str("+"),
            BinaryOperator::Subtract => String::from_str("-"),
            BinaryOperator::Multiply => String::from_str("*"),
            BinaryOperator::Divide => String::from_str("/"),
            BinaryOperator::Modulo => String::from_str("%"),
            BinaryOperator::Equal => String::from_str("=="),
            BinaryOperator::NotEqual => String::from_str("!="),
            BinaryOperator::LessThan => String::from_str("<"),
            BinaryOperator::LessThanOrEqual => String::from_str("<="),
            BinaryOperator::GreaterThan => String::from_str(">"),
            BinaryOperator::GreaterThanOrEqual => String::from_str(">="),
            BinaryOperator::And => String::from_str("&&"),
            BinaryOperator::Or => String::from_str("||"),
            BinaryOperator::Range => String::from_str(".."),
        }
    }
}

impl UnaryOperator {
    /// The operator as text.
    pub fn to_string(&self) -> (r: String)
        ensures
            r@ == unop_str(*self),
    {
        match self {
            UnaryOperator::Identity => String::from_str("+"),
            UnaryOperator::Negate => String::from_str("-"),
            UnaryOperator::Not => String::from_str("!"),
        }
    }
}

/// Which token kinds stand for a binary operator.
pub open spec fn is_binop_token(k: TokenKindView) -> bool {
    ||| k is Plus
    ||| k is Minus
    ||| k is Asterisk
    ||| k is Slash
    ||| k is Percent
    ||| k is EqualsEquals
    ||| k is BangEquals
    ||| k is LessThan
    ||| k is LessThanEquals
    ||| k is GreaterThan
    ||| k is GreaterThanEquals
    ||| k is Ampersand
    ||| k is AmpersandAmpersand
    ||| k is PipePipe
    ||| k is DotDot
}

/// The binary operator a token stands for.
pub open spec fn binop_of_token(k: TokenKindView) -> BinaryOperator {
    match k {
        TokenKindView::Plus => BinaryOperator::Add,
        TokenKindView::Minus => BinaryOperator::Subtract,
        TokenKindView::Asterisk => BinaryOperator::Multiply,
        TokenKindView::Slash => BinaryOperator::Divide,
        TokenKindView::Percent => BinaryOperator::Modulo,
        TokenKindView::EqualsEquals => BinaryOperator::Equal,
        TokenKindView::BangEquals => BinaryOperator::NotEqual,
        TokenKindView::LessThan => BinaryOperator::LessThan,
        TokenKindView::LessThanEquals => BinaryOperator::LessThanOrEqual,
        TokenKindView::GreaterThan => BinaryOperator::GreaterThan,
        TokenKindView::GreaterThanEquals => BinaryOperator::GreaterThanOrEqual,
        TokenKindView::Ampersand => BinaryOperator::And,
        TokenKindView::AmpersandAmpersand => BinaryOperator::And,
        TokenKindView::PipePipe => BinaryOperator::Or,
        TokenKindView::DotDot => BinaryOperator::Range,
        _ => BinaryOperator::Add,
    }
}

/// Which token kinds stand for a unary operator.
pub open spec fn is_unop_token(k: TokenKindView) -> bool {
    k is Plus || k is Minus || k is Bang
}

/// The unary operator a token stands for.
pub open spec fn unop_of_token(k: TokenKindView) -> UnaryOperator {
    match k {
        TokenKindView::Plus => UnaryOperator::Identity,
        TokenKindView::Minus => UnaryOperator::Negate,
        TokenKindView::Bang => UnaryOperator::Not,
        _ => UnaryOperator::Identity,
    }
}

impl TokenKind {
    /// The binary operator this token stands for.
    pub fn to_binary_operator(&self) -> (r: BinaryOperator)
        requires
            is_binop_token(self@),
        ensures
            r == binop_of_token(self@),
    {
        match self {
            TokenKind::Plus => BinaryOperator::Add,
            TokenKind::Minus => BinaryOperator::Subtract,
            TokenKind::Asterisk => BinaryOperator::Multiply,
            TokenKind::Slash => BinaryOperator::Divide,
            TokenKind::Percent => BinaryOperator::Modulo,
            TokenKind::EqualsEquals => BinaryOperator::Equal,
            TokenKind::BangEquals => BinaryOperator::NotEqual,
            TokenKind::LessThan => BinaryOperator::LessThan,
            TokenKind::LessThanEquals => BinaryOperator::LessThanOrEqual,
            TokenKind::GreaterThan => BinaryOperator::GreaterThan,
            TokenKind::GreaterThanEquals => BinaryOperator::GreaterThanOrEqual,
            TokenKind::Ampersand => BinaryOperator::And,
            TokenKind::AmpersandAmpersand => BinaryOperator::And,
            TokenKind::PipePipe => BinaryOperator::Or,
            TokenKind::DotDot => BinaryOperator::Range,
            _ => BinaryOperator::Add,
        }
    }

    /// The unary operator this token stands for.
    pub fn to_unary_operator(&self) -> (r: UnaryOperator)
        requires
            is_unop_token(self@),
        ensures
            r == unop_of_token(self@),
    {
        match self {
            TokenKind::Plus => UnaryOperator::Identity,
            TokenKind::Minus => UnaryOperator::Negate,
            TokenKind::Bang => UnaryOperator::Not,
            _ => UnaryOperator::Identity,
        }
    }
}

/// Whether two character vectors hold the same text.
pub fn eq_chars(a: &Vec<char>, b: &Vec<char>) -> (r: bool)
    ensures
        r == (a@ == b@),
{
    if a.len() != b.len() {
        proof {
            assert(a@.len() != b@.len());
        }
        return false;
    }
    let mut i: usize = 0;
    while i < a.len()
        invariant
            i <= a@.len(),
            a@.len() == b@.len(),
            forall|j: int| 0 <= j < i ==> a@[j] == b@[j],
        decreases a@.len() - i,
    {
        if a[i] != b[i] {
            return false;
        }
        i = i + 1;
    }
    proof {
        assert(a@ =~= b@);
    }
    true
}

/// Whether two statements are the same tree, spans included.
pub fn stmt_eq(a: &Statement, b: &Statement) -> (r: bool)
    ensures
        r == (stmt_view(*a) == stmt_view(*b)),
    decreases *a,
{
    if !(a.span.start == b.span.start && a.span.end == b.span.end) {
        return false;
    }
    match (&a.kind, &b.kind) {
        (StatementKind::Block(xs), StatementKind::Block(ys)) => {
            proof {
                lemma_stmt_views_rec(xs@);
                lemma_stmt_views_rec(ys@);
            }
            if xs.len() != ys.len() {
                return false;
            }
            let mut i: usize = 0;
            while i < xs.len()
                invariant
                    i <= xs@.len(),
                    xs@.len() == ys@.len(),
                    forall|j: int| 0 <= j < i ==> stmt_view(xs@[j]) == stmt_view(ys@[j]),
                decreases xs@.len() - i,
            {
                if !stmt_eq(&xs[i], &ys[i]) {
                    proof {
                        lemma_stmt_views_rec(xs@);
                        lemma_stmt_views_rec(ys@);
                        assert(stmt_views_rec(xs@)[i as int] != stmt_views_rec(ys@)[i as int]);
                    }
                    return false;
                }
                i = i + 1;
            }
            proof {
                lemma_stmt_views_rec(xs@);
                lemma_stmt_views_rec(ys@);
                assert(stmt_views_rec(xs@) =~= stmt_views_rec(ys@));
            }
            true
        },
        (
            StatementKind::Let { name: na, value: va, constant: ca },
            StatementKind::Let { name: nb, value: vb, constant: cb },
        ) => eq_chars(&na.0, &nb.0) && *ca == *cb && expr_eq(va, vb),
        (StatementKind::Expression(ea), StatementKind::Expression(eb)) => expr_eq(ea, eb),
        (
            StatementKind::FunctionDeclaration { name: na, parameters: pa, body: ba },
            StatementKind::FunctionDeclaration { name: nb, parameters: pb, body: bb },
        ) => {
            if !eq_chars(&na.0, &nb.0) {
                return false;
            }
            if pa.len() != pb.len() {
                proof {
                    assert(stmt_kind_view(a.kind)->FunctionDeclaration_parameters.len()
                        != stmt_kind_view(b.kind)->FunctionDeclaration_parameters.len());
                }
                return false;
            }
            let mut i: usize = 0;
            while i < pa.len()
                invariant
                    i <= pa@.len(),
                    pa@.len() == pb@.len(),
                    forall|j: int| 0 <= j < i ==> pa@[j]@ == pb@[j]@,
                decreases pa@.len() - i,
            {
                if !eq_chars(&pa[i].0, &pb[i].0) {
                    proof {
                        assert(stmt_kind_view(a.kind)->FunctionDeclaration_parameters[i as int]
                            != stmt_kind_view(b.kind)->FunctionDeclaration_parameters[i as int]);
                    }
                    return false;
                }
                i = i + 1;
            }
            proof {
                assert(stmt_kind_view(a.kind)->FunctionDeclaration_parameters =~= stmt_kind_view(
                    b.kind,
                )->FunctionDeclaration_parameters);
            }
            stmt_eq(ba, bb)
        },
        (
            StatementKind::Assignment { name: na, value: va },
            StatementKind::Assignment { name: nb, value: vb },
        ) => eq_chars(&na.0, &nb.0) && expr_eq(va, vb),
        _ => false,
    }
}

/// Whether two expressions are the same tree, spans included.
#[verifier::rlimit(60)]
pub fn expr_eq(a: &Expression, b: &Expression) -> (r: bool)
    ensures
        r == (expr_view(*a) == expr_view(*b)),
    decreases *a,
{
    if !(a.span.start == b.span.start && a.span.end == b.span.end) {
        return false;
    }
    match (&a.kind, &b.kind) {
        (ExpressionKind::Void, ExpressionKind::Void) => true,
        (ExpressionKind::Identifier(x), ExpressionKind::Identifier(y)) => eq_chars(&x.0, &y.0),
        (ExpressionKind::NumberLiteral(x), ExpressionKind::NumberLiteral(y)) => x.0 == y.0,
        (ExpressionKind::StringLiteral(x), ExpressionKind::StringLiteral(y)) => eq_chars(x, y),
        (ExpressionKind::BooleanLiteral(x), ExpressionKind::BooleanLiteral(y)) => *x == *y,
        (ExpressionKind::ArrayLiteral(xs), ExpressionKind::ArrayLiteral(ys)) => {
            proof {
                lemma_expr_views_rec(xs@);
                lemma_expr_views_rec(ys@);
            }
            if xs.len() != ys.len() {
                return false;
            }
            let mut i: usize = 0;
            while i < xs.len()
                invariant
                    i <= xs@.len(),
                    xs@.len() == ys@.len(),
                    forall|j: int| 0 <= j < i ==> expr_view(xs@[j]) == expr_view(ys@[j]),
                decreases xs@.len() - i,
            {
                if !expr_eq(&xs[i], &ys[i]) {
                    proof {
                        lemma_expr_views_rec(xs@);
                        lemma_expr_views_rec(ys@);
                        assert(expr_views_rec(xs@)[i as int] != expr_views_rec(ys@)[i as int]);
                    }
                    return false;
                }
                i = i + 1;
            }
            proof {
                lemma_expr_views_rec(xs@);
                lemma_expr_views_rec(ys@);
                assert(expr_views_rec(xs@) =~= expr_views_rec(ys@));
            }
            true
        },
        (
            ExpressionKind::Index { iterable: ia, index: xa },
            ExpressionKind::Index { iterable: ib, index: xb },
        ) => expr_eq(ia, ib) && expr_eq(xa, xb),
        (
            ExpressionKind::Slice { start: sa, end: ea, iterable: ia },
            ExpressionKind::Slice { start: sb, end: eb, iterable: ib },
        ) => {
            let starts = match (&**sa, &**sb) {
                (Some(x), Some(y)) => expr_eq(x, y),
                (None, None) => true,
                _ => false,
            };
            let ends = match (&**ea, &**eb) {
                (Some(x), Some(y)) => expr_eq(x, y),
                (None, None) => true,
                _ => false,
            };
            starts && ends && expr_eq(ia, ib)
        },
        (
            ExpressionKind::FunctionCall { name: na, arguments: xs },
            ExpressionKind::FunctionCall { name: nb, arguments: ys },
        ) => {
            if !eq_chars(&na.0, &nb.0) {
                return false;
            }
            proof {
                lemma_expr_views_rec(xs@);
                lemma_expr_views_rec(ys@);
            }
            if xs.len() != ys.len() {
                return false;
            }
            let mut i: usize = 0;
            while i < xs.len()
                invariant
                    i <= xs@.len(),
                    xs@.len() == ys@.len(),
                    forall|j: int| 0 <= j < i ==> expr_view(xs@[j]) == expr_view(ys@[j]),
                decreases xs@.len() - i,
            {
                if !expr_eq(&xs[i], &ys[i]) {
                    proof {
                        lemma_expr_views_rec(xs@);
                        lemma_expr_views_rec(ys@);
                        assert(expr_views_rec(xs@)[i as int] != expr_views_rec(ys@)[i as int]);
                    }
                    return false;
                }
                i = i + 1;
            }
            proof {
                lemma_expr_views_rec(xs@);
                lemma_expr_views_rec(ys@);
                assert(expr_views_rec(xs@) =~= expr_views_rec(ys@));
            }
            true
        },
        (
            ExpressionKind::If { condition: ca, consequence: qa, alternative: aa },
            ExpressionKind::If { condition: cb, consequence: qb, alternative: ab },
        ) => {
            let alts = match (&**aa, &**ab) {
                (Some(x), Some(y)) => stmt_eq(x, y),
                (None, None) => true,
                _ => false,
            };
            expr_eq(ca, cb) && stmt_eq(qa, qb) && alts
        },
        (
            ExpressionKind::For { variable: va, iterable: ia, body: ba },
            ExpressionKind::For { variable: vb, iterable: ib, body: bb },
        ) => eq_chars(&va.0, &vb.0) && expr_eq(ia, ib) && stmt_eq(ba, bb),
        (
            ExpressionKind::While { condition: ca, body: ba },
            ExpressionKind::While { condition: cb, body: bb },
        ) => expr_eq(ca, cb) && stmt_eq(ba, bb),
        (
            ExpressionKind::Binary { operator: oa, left: la, right: ra },
            ExpressionKind::Binary { operator: ob, left: lb, right: rb },
        ) => *oa == *ob && expr_eq(la, lb) && expr_eq(ra, rb),
        (
            ExpressionKind::Unary { operator: oa, operand: pa },
            ExpressionKind::Unary { operator: ob, operand: pb },
        ) => *oa == *ob && expr_eq(pa, pb),
        _ => false,
    }
}

} // verus!
