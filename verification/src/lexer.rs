use vstd::prelude::*;

use crate::num::{dec_bits, Num};
use crate::span::Span;
use crate::value::{char_utf8_len, lemma_utf8_len_take, utf8_len_char, utf8_len_seq};
use crate::tokens::{from_identifier_view, is_ignored, LexError, Token, TokenKind, TokenKindView, TokenView};

verus! {

/// Relies on `char::is_alphabetic`: the Unicode `Alphabetic` property,
/// which depends on the character alone, and within ASCII holds exactly
/// of the letters.
#[verifier::external_body]
fn is_alpha(c: char) -> (r: bool)
    ensures
        r == alpha_char(c),
        (c as u32) < 128 ==> r == (97 <= c as u32 <= 122 || 65 <= c as u32 <= 90),
{
    c.is_alphabetic()
}

pub uninterp spec fn alpha_char(c: char) -> bool;

/// The Unicode `White_Space` characters, the set `char::is_whitespace` accepts.
pub open spec fn is_ws_char(c: char) -> bool {
    let u = c as u32;
    u == 0x09 || u == 0x0A || u == 0x0B || u == 0x0C || u == 0x0D || u == 0x20 || u == 0x85
        || u == 0xA0 || u == 0x1680 || (0x2000 <= u <= 0x200A) || u == 0x2028 || u == 0x2029
        || u == 0x202F || u == 0x205F || u == 0x3000
}

pub open spec fn is_digit_char(c: char) -> bool {
    48 <= c as u32 <= 57
}

pub open spec fn is_ident_start_char(c: char) -> bool {
    97 <= c as u32 <= 122 || 65 <= c as u32 <= 90 || c == '_'
}

pub open spec fn is_ident_cont_char(c: char) -> bool {
    alpha_char(c) || is_digit_char(c) || c == '_' || c == '$'
}

fn is_ws(c: char) -> (r: bool)
    ensures
        r == is_ws_char(c),
{
    let u = c as u32;
    u == 0x09 || u == 0x0A || u == 0x0B || u == 0x0C || u == 0x0D || u == 0x20 || u == 0x85
        || u == 0xA0 || u == 0x1680 || (0x2000 <= u && u <= 0x200A) || u == 0x2028 || u == 0x2029
        || u == 0x202F || u == 0x205F || u == 0x3000
}

fn is_digit(c: char) -> (r: bool)
    ensures
        r == is_digit_char(c),
{
    let u = c as u32;
    48 <= u && u <= 57
}

fn is_ident_cont(c: char) -> (r: bool)
    ensures
        r == is_ident_cont_char(c),
{
    is_alpha(c) || is_digit(c) || c == '_' || c == '$'
}

/// The position after a run of whitespace characters starting at `j`.
pub open spec fn ws_end(src: Seq<char>, j: nat) -> nat
    decreases src.len() - j,
{
    if j < src.len() && is_ws_char(src[j as int]) {
        ws_end(src, j + 1)
    } else {
        j
    }
}

/// The position after a run of identifier characters starting at `j`.
pub open spec fn ident_end(src: Seq<char>, j: nat) -> nat
    decreases src.len() - j,
{
    if j < src.len() && is_ident_cont_char(src[j as int]) {
        ident_end(src, j + 1)
    } else {
        j
    }
}

/// The position after the remaining characters of a number literal: digits
/// and at most one dot; a second dot, or a dot that opens a `..` token,
/// ends the literal.
pub open spec fn num_end(src: Seq<char>, j: nat, has_dot: bool) -> nat
    decreases src.len() - j,
{
    if j < src.len() && (is_digit_char(src[j as int]) || src[j as int] == '.') {
        if src[j as int] == '.' {
            if has_dot || (j + 1 < src.len() && src[j as int + 1] == '.') {
                j
            } else {
                num_end(src, j + 1, true)
            }
        } else {
            num_end(src, j + 1, has_dot)
        }
    } else {
        j
    }
}

proof fn lemma_num_end_chars(src: Seq<char>, j: nat, has_dot: bool)
    requires
        j <= src.len(),
    ensures
        forall|k: int|
            j <= k < num_end(src, j, has_dot) ==> (48 <= #[trigger] (src[k] as u32) <= 57
                || src[k] == '.'),
    decreases src.len() - j,
{
    if j < src.len() && (is_digit_char(src[j as int]) || src[j as int] == '.') {
        if src[j as int] == '.' {
            if !(has_dot || (j + 1 < src.len() && src[j as int + 1] == '.')) {
                lemma_num_end_chars(src, j + 1, true);
            }
        } else {
            lemma_num_end_chars(src, j + 1, has_dot);
        }
    }
}

proof fn lemma_num_end_true_digits(src: Seq<char>, j: nat)
    requires
        j <= src.len(),
    ensures
        forall|k: int| j <= k < num_end(src, j, true) ==> 48 <= #[trigger] (src[k] as u32) <= 57,
    decreases src.len() - j,
{
    if j < src.len() && is_digit_char(src[j as int]) {
        lemma_num_end_true_digits(src, j + 1);
    }
}

proof fn lemma_num_end_one_dot(src: Seq<char>, j: nat)
    requires
        j <= src.len(),
    ensures
        forall|k1: int, k2: int|
            j <= k1 < k2 < num_end(src, j, false) && src[k1] == '.' ==> src[k2] != '.',
    decreases src.len() - j,
{
    if j < src.len() && (is_digit_char(src[j as int]) || src[j as int] == '.') {
        if src[j as int] == '.' {
            if !(j + 1 < src.len() && src[j as int + 1] == '.') {
                lemma_num_end_true_digits(src, j + 1);
            }
        } else {
            lemma_num_end_one_dot(src, j + 1);
        }
    }
}

/// A scanned number literal is a decimal body: digits around at most one
/// dot, opened by a digit, which is the form the decimal conversion takes.
proof fn lemma_numlit_decimal(src: Seq<char>, pos: nat)
    requires
        pos < src.len(),
        is_digit_char(src[pos as int]),
    ensures
        crate::num::dec_body_ok(src.subrange(pos as int, num_end(src, pos + 1, false) as int)),
{
    let e = num_end(src, pos + 1, false);
    lemma_num_end_range(src, pos + 1, false);
    lemma_num_end_chars(src, pos + 1, false);
    lemma_num_end_one_dot(src, pos + 1);
    let b = src.subrange(pos as int, e as int);
    crate::num::lemma_digits_end_facts(b, 0);
    let m1 = crate::num::digits_end(b, 0);
    assert(m1 >= 1) by {
        assert(48 <= b[0] as u32 <= 57);
    }
    if m1 < b.len() {
        assert(b[m1 as int] == src[pos as int + m1 as int]);
        assert(b[m1 as int] == '.');
        crate::num::lemma_digits_end_facts(b, m1 + 1);
        let m2 = crate::num::digits_end(b, m1 + 1);
        if m2 < b.len() {
            assert(b[m2 as int] == src[pos as int + m2 as int]);
            assert(src[pos as int + m2 as int] == '.');
            assert(src[pos as int + m1 as int] == '.' && pos + m1 < pos + m2);
            assert(false);
        }
        assert(m2 == b.len());
    }
}

/// What an escape introducer turns the following character into.
pub open spec fn esc_char(c: char) -> char {
    if c == 'n' {
        '\n'
    } else if c == 'r' {
        '\r'
    } else if c == 't' {
        '\t'
    } else if c == '0' {
        '\0'
    } else {
        c
    }
}

/// The outcome of scanning a string literal body from `j`: the decoded text
/// and the position after the closing quote, or no closing quote at all.
pub enum StrScan {
    Closed { text: Seq<char>, end: nat },
    Open,
}

pub open spec fn str_scan(src: Seq<char>, quote: char, j: nat) -> StrScan
    decreases src.len() - j,
{
    if j >= src.len() {
        StrScan::Open
    } else if src[j as int] == quote {
        StrScan::Closed { text: Seq::empty(), end: j + 1 }
    } else if src[j as int] == '\\' {
        if j + 1 < src.len() {
            match str_scan(src, quote, j + 2) {
                StrScan::Closed { text, end } => StrScan::Closed {
                    text: seq![esc_char(src[j as int + 1])] + text,
                    end,
                },
                StrScan::Open => StrScan::Open,
            }
        } else {
            StrScan::Open
        }
    } else {
        match str_scan(src, quote, j + 1) {
            StrScan::Closed { text, end } => StrScan::Closed {
                text: seq![src[j as int]] + text,
                end,
            },
            StrScan::Open => StrScan::Open,
        }
    }
}

/// The position after a line comment body: everything up to and including
/// the next newline, or the end of the input.
pub open spec fn line_end(src: Seq<char>, j: nat) -> nat
    decreases src.len() - j,
{
    if j < src.len() {
        if src[j as int] == '\n' {
            j + 1
        } else {
            line_end(src, j + 1)
        }
    } else {
        j
    }
}

/// The position after a block comment body: everything up to and including
/// the first `*/`, or the end of the input.
pub open spec fn block_end(src: Seq<char>, j: nat) -> nat
    decreases src.len() - j,
{
    if j < src.len() {
        if src[j as int] == '*' && j + 1 < src.len() && src[j as int + 1] == '/' {
            j + 2
        } else {
            block_end(src, j + 1)
        }
    } else {
        j
    }
}

/// The byte offset of a character position: the UTF-8 length of the text
/// before it, held to the machine index range.
pub open spec fn byte_at(src: Seq<char>, p: nat) -> usize {
    if utf8_len_seq(src.take(p as int)) > usize::MAX {
        usize::MAX
    } else {
        utf8_len_seq(src.take(p as int)) as usize
    }
}

/// One step of the byte offset: the next character's UTF-8 length, the sum
/// held to the machine index range.
pub proof fn lemma_byte_at_step(src: Seq<char>, p: nat)
    requires
        p < src.len(),
    ensures
        byte_at(src, p + 1) == if byte_at(src, p) + utf8_len_char(src[p as int]) > usize::MAX {
            usize::MAX
        } else {
            (byte_at(src, p) + utf8_len_char(src[p as int])) as usize
        },
{
    lemma_utf8_len_take(src, p as int);
}

/// Byte offsets grow with the position, strictly below the clamp.
pub proof fn lemma_byte_at_grows(src: Seq<char>, p: nat, q: nat)
    requires
        p <= q <= src.len(),
    ensures
        byte_at(src, p) <= byte_at(src, q),
        p < q && utf8_len_seq(src) <= usize::MAX ==> byte_at(src, p) < byte_at(src, q),
    decreases q - p,
{
    if p < q {
        lemma_byte_at_step(src, (q - 1) as nat);
        lemma_byte_at_grows(src, p, (q - 1) as nat);
        if utf8_len_seq(src) <= usize::MAX {
            lemma_utf8_len_take(src, q - 1);
            lemma_utf8_take_bounded(src, q - 1);
            lemma_utf8_take_bounded(src, q as int);
        }
    }
}

/// The byte length of a prefix is at most the whole text's.
pub proof fn lemma_utf8_take_bounded(src: Seq<char>, q: int)
    requires
        0 <= q <= src.len(),
    ensures
        utf8_len_seq(src.take(q)) <= utf8_len_seq(src),
    decreases src.len() - q,
{
    if q < src.len() {
        lemma_utf8_len_take(src, q);
        lemma_utf8_take_bounded(src, q + 1);
    } else {
        assert(src.take(q) =~= src);
    }
}

/// One scanned token: its kind and the position it ends at.
pub struct Scanned {
    pub kind: TokenKindView,
    pub end: nat,
}

/// The token that starts at position `pos` of the source.
pub open spec fn scan(src: Seq<char>, pos: nat) -> Scanned
    recommends
        pos < src.len(),
{
    let c = src[pos as int];
    let one = (pos + 1) as nat;
    if c == ' ' || c == '\t' {
        Scanned { kind: TokenKindView::Whitespace, end: ws_end(src, one) }
    } else if c == '\n' {
        Scanned { kind: TokenKindView::Newline, end: one }
    } else if is_digit_char(c) {
        let e = num_end(src, one, false);
        Scanned {
            kind: TokenKindView::NumberLiteral(Num(dec_bits(src.subrange(pos as int, e as int)))),
            end: e,
        }
    } else if c == '"' || c == '\'' {
        match str_scan(src, c, one) {
            StrScan::Closed { text, end } => Scanned {
                kind: TokenKindView::StringLiteral(text),
                end,
            },
            StrScan::Open => Scanned {
                kind: TokenKindView::Error(LexError::UnterminatedStringLiteral),
                end: src.len(),
            },
        }
    } else if is_ident_start_char(c) {
        let e = ident_end(src, one);
        Scanned { kind: from_identifier_view(src.subrange(pos as int, e as int)), end: e }
    } else if c == '+' {
        Scanned { kind: TokenKindView::Plus, end: one }
    } else if c == '-' {
        Scanned { kind: TokenKindView::Minus, end: one }
    } else if c == '*' {
        Scanned { kind: TokenKindView::Asterisk, end: one }
    } else if c == '/' {
        if one < src.len() && src[one as int] == '/' {
            Scanned { kind: TokenKindView::Comment, end: line_end(src, pos + 2) }
        } else if one < src.len() && src[one as int] == '*' {
            Scanned { kind: TokenKindView::Comment, end: block_end(src, pos + 2) }
        } else {
            Scanned { kind: TokenKindView::Slash, end: one }
        }
    } else if c == '%' {
        Scanned { kind: TokenKindView::Percent, end: one }
    } else if c == '^' {
        Scanned { kind: TokenKindView::Caret, end: one }
    } else if c == '&' {
        if one < src.len() && src[one as int] == '&' {
            Scanned { kind: TokenKindView::AmpersandAmpersand, end: pos + 2 }
        } else {
            Scanned { kind: TokenKindView::Ampersand, end: one }
        }
    } else if c == '|' {
        if one < src.len() && src[one as int] == '|' {
            Scanned { kind: TokenKindView::PipePipe, end: pos + 2 }
        } else {
            Scanned { kind: TokenKindView::Pipe, end: one }
        }
    } else if c == '=' {
        if one < src.len() && src[one as int] == '=' {
            Scanned { kind: TokenKindView::EqualsEquals, end: pos + 2 }
        } else {
            Scanned { kind: TokenKindView::Equals, end: one }
        }
    } else if c == '!' {
        if one < src.len() && src[one as int] == '=' {
            Scanned { kind: TokenKindView::BangEquals, end: pos + 2 }
        } else {
            Scanned { kind: TokenKindView::Bang, end: one }
        }
    } else if c == '<' {
        if one < src.len() && src[one as int] == '=' {
            Scanned { kind: TokenKindView::LessThanEquals, end: pos + 2 }
        } else {
            Scanned { kind: TokenKindView::LessThan, end: one }
        }
    } else if c == '>' {
        if one < src.len() && src[one as int] == '=' {
            Scanned { kind: TokenKindView::GreaterThanEquals, end: pos + 2 }
        } else {
            Scanned { kind: TokenKindView::GreaterThan, end: one }
        }
    } else if c == '(' {
        Scanned { kind: TokenKindView::LeftParen, end: one }
    } else if c == ')' {
        Scanned { kind: TokenKindView::RightParen, end: one }
    } else if c == '[' {
        Scanned { kind: TokenKindView::LeftBracket, end: one }
    } else if c == ']' {
        Scanned { kind: TokenKindView::RightBracket, end: one }
    } else if c == '{' {
        Scanned { kind: TokenKindView::LeftBrace, end: one }
    } else if c == '}' {
        Scanned { kind: TokenKindView::RightBrace, end: one }
    } else if c == ',' {
        Scanned { kind: TokenKindView::Comma, end: one }
    } else if c == '.' {
        if one < src.len() && src[one as int] == '.' {
            Scanned { kind: TokenKindView::DotDot, end: pos + 2 }
        } else {
            Scanned { kind: TokenKindView::Dot, end: one }
        }
    } else if c == ';' {
        Scanned { kind: TokenKindView::Semicolon, end: one }
    } else {
        Scanned { kind: TokenKindView::Error(LexError::UnexpectedCharacter(c)), end: one }
    }
}

proof fn lemma_ws_end_range(src: Seq<char>, j: nat)
    requires
        j <= src.len(),
    ensures
        j <= ws_end(src, j) <= src.len(),
    decreases src.len() - j,
{
    if j < src.len() && is_ws_char(src[j as int]) {
        lemma_ws_end_range(src, j + 1);
    }
}

proof fn lemma_ident_end_range(src: Seq<char>, j: nat)
    requires
        j <= src.len(),
    ensures
        j <= ident_end(src, j) <= src.len(),
    decreases src.len() - j,
{
    if j < src.len() && is_ident_cont_char(src[j as int]) {
        lemma_ident_end_range(src, j + 1);
    }
}

proof fn lemma_num_end_range(src: Seq<char>, j: nat, has_dot: bool)
    requires
        j <= src.len(),
    ensures
        j <= num_end(src, j, has_dot) <= src.len(),
    decreases src.len() - j,
{
    if j < src.len() && (is_digit_char(src[j as int]) || src[j as int] == '.') {
        if src[j as int] == '.' {
            if !has_dot {
                lemma_num_end_range(src, j + 1, true);
            }
        } else {
            lemma_num_end_range(src, j + 1, has_dot);
        }
    }
}

proof fn lemma_str_scan_range(src: Seq<char>, quote: char, j: nat)
    requires
        j <= src.len(),
    ensures
        str_scan(src, quote, j) matches StrScan::Closed { end, .. } ==> j < end <= src.len(),
    decreases src.len() - j,
{
    if j < src.len() && src[j as int] != quote {
        if src[j as int] == '\\' {
            if j + 1 < src.len() {
                lemma_str_scan_range(src, quote, j + 2);
            }
        } else {
            lemma_str_scan_range(src, quote, j + 1);
        }
    }
}

proof fn lemma_line_end_range(src: Seq<char>, j: nat)
    requires
        j <= src.len(),
    ensures
        j <= line_end(src, j) <= src.len(),
    decreases src.len() - j,
{
    if j < src.len() && src[j as int] != '\n' {
        lemma_line_end_range(src, j + 1);
    }
}

proof fn lemma_block_end_range(src: Seq<char>, j: nat)
    requires
        j <= src.len(),
    ensures
        j <= block_end(src, j) <= src.len(),
    decreases src.len() - j,
{
    if j < src.len() && !(src[j as int] == '*' && j + 1 < src.len() && src[j as int + 1] == '/') {
        lemma_block_end_range(src, j + 1);
    }
}

/// Every scanned token makes progress and stays within the input.
pub proof fn lemma_scan_range(src: Seq<char>, pos: nat)
    requires
        pos < src.len(),
    ensures
        pos < scan(src, pos).end <= src.len(),
{
    let c = src[pos as int];
    let one = (pos + 1) as nat;
    lemma_ws_end_range(src, one);
    lemma_ident_end_range(src, one);
    lemma_num_end_range(src, one, false);
    lemma_str_scan_range(src, c, one);
    if pos + 2 <= src.len() {
        lemma_line_end_range(src, pos + 2);
        lemma_block_end_range(src, pos + 2);
    }
}

/// The token stream from position `pos` on: each scanned token (the ignored
/// kinds only when `emit` asks for them), closed by an end-of-input token
/// whose empty span sits at the end of the source.
pub open spec fn lex_from(src: Seq<char>, pos: nat, emit: bool) -> Seq<TokenView>
    decreases src.len() - pos,
        via lex_from_dec
{
    if pos >= src.len() {
        seq![
            TokenView {
                kind: TokenKindView::Eof,
                span: Span { start: byte_at(src, src.len()), end: byte_at(src, src.len()) },
            },
        ]
    } else {
        let sc = scan(src, pos);
        let t = TokenView {
            kind: sc.kind,
            span: Span { start: byte_at(src, pos), end: byte_at(src, sc.end) },
        };
        let rest = lex_from(src, sc.end, emit);
        if is_ignored(sc.kind) && !emit {
            rest
        } else {
            seq![t] + rest
        }
    }
}

#[via_fn]
proof fn lex_from_dec(src: Seq<char>, pos: nat, emit: bool) {
    if pos < src.len() {
        lemma_scan_range(src, pos);
    }
}

/// The tokens of a whole source text, for the parser feed (`emit` false) or
/// with whitespace, newlines and comments kept (`emit` true).
pub open spec fn lex_spec(src: Seq<char>, emit: bool) -> Seq<TokenView> {
    lex_from(src, 0, emit)
}

/// The views of a token vector.
pub open spec fn views(ts: Seq<Token>) -> Seq<TokenView> {
    ts.map_values(|t: Token| t@)
}

/// Scanning never fails: from any position the token stream is finite and
/// is closed by the end-of-input token, whatever the input holds.
pub proof fn lemma_lex_ends_eof(src: Seq<char>, pos: nat, emit: bool)
    requires
        pos <= src.len(),
    ensures
        lex_from(src, pos, emit).len() >= 1,
        lex_from(src, pos, emit).last().kind is Eof,
    decreases src.len() - pos,
{
    if pos < src.len() {
        lemma_scan_range(src, pos);
        lemma_lex_ends_eof(src, scan(src, pos).end, emit);
    }
}

/// With the ignored kinds kept, the byte spans of the token stream tile
/// the input: the first token starts at the byte offset of `pos`, every
/// later token starts where the one before it ended, every span lies
/// within the input's byte length and is non-empty, and the closing
/// end-of-input token carries the empty span at the end. The
/// concatenation of the spans is therefore exactly the byte range from
/// `pos` to the end of the input.
pub proof fn lemma_lex_covers(src: Seq<char>, pos: nat)
    requires
        pos <= src.len(),
        utf8_len_seq(src) <= usize::MAX,
    ensures
        ({
            let ts = lex_from(src, pos, true);
            &&& ts.len() >= 1
            &&& ts.last().kind is Eof
            &&& ts.last().span == (Span {
                start: byte_at(src, src.len()),
                end: byte_at(src, src.len()),
            })
            &&& ts[0].span.start == byte_at(src, pos)
            &&& forall|i: int|
                0 <= i < ts.len() - 1 ==> #[trigger] ts[i].span.end == ts[i + 1].span.start
            &&& forall|i: int|
                0 <= i < ts.len() - 1 ==> #[trigger] ts[i].span.start < ts[i].span.end <= byte_at(
                    src,
                    src.len(),
                )
        }),
    decreases src.len() - pos,
{
    if pos < src.len() {
        lemma_scan_range(src, pos);
        let e = scan(src, pos).end;
        lemma_byte_at_grows(src, pos, e);
        lemma_byte_at_grows(src, e, src.len());
        lemma_lex_covers(src, e);
    }
}

/// Whether the string scan resumed at `cur` with `built` already decoded
/// agrees with the scan from `j0`.
pub open spec fn str_resume(
    src: Seq<char>,
    quote: char,
    j0: nat,
    built: Seq<char>,
    cur: nat,
) -> bool {
    match str_scan(src, quote, cur) {
        StrScan::Closed { text, end } => str_scan(src, quote, j0) == (StrScan::Closed {
            text: built + text,
            end,
        }),
        StrScan::Open => str_scan(src, quote, j0) is Open,
    }
}

/// The scanner state: the source as characters, the start and end
/// positions of the token being scanned, and their byte offsets, which
/// the spans carry.
pub struct Lexer {
    pub source: Vec<char>,
    pub start: usize,
    pub current: usize,
    pub byte_start: usize,
    pub byte_current: usize,
}

impl Lexer {
    /// A scanner over the characters of the source text.
    pub fn new(source: &str) -> (r: Lexer)
        ensures
            r.source@ == source@,
            r.start == 0,
            r.current == 0,
            r.byte_start == 0,
            r.byte_current == 0,
    {
        let n = source.unicode_len();
        let mut chars: Vec<char> = Vec::new();
        let mut i: usize = 0;
        while i < n
            invariant
                i <= n,
                n == source@.len(),
                chars@ == source@.subrange(0, i as int),
            decreases n - i,
        {
            chars.push(source.get_char(i));
            proof {
                assert(chars@ =~= source@.subrange(0, i as int + 1));
            }
            i = i + 1;
        }
        proof {
            assert(chars@ =~= source@);
        }
        Lexer { source: chars, start: 0, current: 0, byte_start: 0, byte_current: 0 }
    }

    /// Consumes one character, moving the character and byte cursors
    /// together.
    fn step(&mut self)
        requires
            old(self).current < old(self).source@.len(),
            old(self).byte_current == byte_at(old(self).source@, old(self).current as nat),
        ensures
            final(self).source@ == old(self).source@,
            final(self).start == old(self).start,
            final(self).byte_start == old(self).byte_start,
            final(self).current == old(self).current + 1,
            final(self).byte_current == byte_at(
                old(self).source@,
                old(self).current as nat + 1,
            ),
    {
        let _n: usize = self.source.len();
        let c = self.source[self.current];
        let l = char_utf8_len(c);
        proof {
            lemma_byte_at_step(self.source@, self.current as nat);
        }
        if self.byte_current > usize::MAX - l {
            self.byte_current = usize::MAX;
        } else {
            self.byte_current = self.byte_current + l;
        }
        self.current = self.current + 1;
    }

    /// Consumes everything left, moving both cursors to the end.
    fn advance_to_end(&mut self)
        requires
            old(self).current <= old(self).source@.len(),
            old(self).byte_current == byte_at(old(self).source@, old(self).current as nat),
        ensures
            final(self).source@ == old(self).source@,
            final(self).start == old(self).start,
            final(self).byte_start == old(self).byte_start,
            final(self).current == old(self).source@.len(),
            final(self).byte_current == byte_at(old(self).source@, old(self).source@.len()),
    {
        while self.current < self.source.len()
            invariant
                self.source@ == old(self).source@,
                self.start == old(self).start,
                self.byte_start == old(self).byte_start,
                self.current <= self.source@.len(),
                self.byte_current == byte_at(self.source@, self.current as nat),
            decreases self.source@.len() - self.current,
        {
            self.step();
        }
    }

    /// Whether every character has been consumed.
    pub fn is_at_end(&self) -> (r: bool)
        ensures
            r == (self.current >= self.source@.len()),
    {
        self.current >= self.source.len()
    }

    /// A token of the given kind covering the byte span scanned last.
    pub fn token(&self, token: TokenKind) -> (t: Token)
        ensures
            t@.kind == token@,
            t@.span == (Span { start: self.byte_start, end: self.byte_current }),
    {
        Token { kind: token, span: Span { start: self.byte_start, end: self.byte_current } }
    }

    /// An error token covering the byte span scanned last.
    pub fn error(&self, message: LexError) -> (t: Token)
        ensures
            t@.kind == TokenKindView::Error(message),
            t@.span == (Span { start: self.byte_start, end: self.byte_current }),
    {
        Token {
            kind: TokenKind::Error(message),
            span: Span { start: self.byte_start, end: self.byte_current },
        }
    }

    /// Scans the token starting at the current position.
    #[verifier::rlimit(100)]
    pub fn lex_token(&mut self) -> (t: Token)
        requires
            old(self).current < old(self).source@.len(),
            old(self).byte_current == byte_at(old(self).source@, old(self).current as nat),
        ensures
            final(self).source@ == old(self).source@,
            final(self).start == old(self).current,
            final(self).current == scan(old(self).source@, old(self).current as nat).end,
            final(self).byte_current == byte_at(old(self).source@, final(self).current as nat),
            final(self).byte_start == byte_at(old(self).source@, old(self).current as nat),
            t@.kind == scan(old(self).source@, old(self).current as nat).kind,
            t@.span == (Span {
                start: byte_at(old(self).source@, old(self).current as nat),
                end: byte_at(old(self).source@, final(self).current as nat),
            }),
    {
        let ghost src = old(self).source@;
        let ghost pos = old(self).current as nat;
        let _n: usize = self.source.len();
        let c = self.source[self.current];
        self.start = self.current;
        self.byte_start = self.byte_current;
        self.step();
        if c == ' ' || c == '\t' {
            while self.current < self.source.len() && is_ws(self.source[self.current])
                invariant
                    self.source@ == src,
                    self.start == pos,
                    self.byte_start == byte_at(src, pos),
                    self.byte_current == byte_at(src, self.current as nat),
                    pos < self.current <= src.len(),
                    ws_end(src, (pos + 1) as nat) == ws_end(src, self.current as nat),
                decreases src.len() - self.current,
            {
                self.step();
            }
            self.token(TokenKind::Whitespace)
        } else if c == '\n' {
            self.token(TokenKind::Newline)
        } else if is_digit(c) {
            let mut has_dot = false;
            while self.current < self.source.len() && (is_digit(self.source[self.current])
                || (self.source[self.current] == '.' && !has_dot && !(self.current + 1
                    < self.source.len() && self.source[self.current + 1] == '.')))
                invariant
                    self.source@ == src,
                    self.start == pos,
                    self.byte_start == byte_at(src, pos),
                    self.byte_current == byte_at(src, self.current as nat),
                    pos < self.current <= src.len(),
                    num_end(src, (pos + 1) as nat, false) == num_end(
                        src,
                        self.current as nat,
                        has_dot,
                    ),
                decreases src.len() - self.current,
            {
                if self.source[self.current] == '.' {
                    has_dot = true;
                }
                self.step();
            }

            let mut literal: Vec<char> = Vec::new();
            let mut i: usize = self.start;
            while i < self.current
                invariant
                    self.source@ == src,
                    pos <= i <= self.current <= src.len(),
                    literal@ == src.subrange(pos as int, i as int),
                decreases self.current - i,
            {
                literal.push(self.source[i]);
                proof {
                    assert(literal@ =~= src.subrange(pos as int, i as int + 1));
                }
                i = i + 1;
            }
            proof {
                lemma_numlit_decimal(src, pos);
                assert(crate::num::strip_sign(literal@) == literal@) by {
                    assert(48 <= literal@[0] as u32 <= 57);
                }
            }
            let bits = crate::num::num_from_decimal_raw(&literal);
            self.token(TokenKind::NumberLiteral(Num(bits)))
        } else if c == '"' || c == '\'' {
            let quote = c;
            let mut text: Vec<char> = Vec::new();
            loop
                invariant
                    self.source@ == src,
                    self.start == pos,
                    self.byte_start == byte_at(src, pos),
                    self.byte_current == byte_at(src, self.current as nat),
                    pos < self.current <= src.len(),
                    str_resume(src, quote, (pos + 1) as nat, text@, self.current as nat),
                decreases src.len() - self.current,
            {
                if self.current >= self.source.len() {
                    return self.error(LexError::UnterminatedStringLiteral);
                }
                let ch = self.source[self.current];
                if ch == quote {
                    self.step();
                    proof {
                        assert(text@ + Seq::<char>::empty() =~= text@);
                    }
                    return self.token(TokenKind::StringLiteral(text));
                }
                if ch == '\\' {
                    if self.current + 1 < self.source.len() {
                        let e = self.source[self.current + 1];
                        let decoded = if e == 'n' {
                            '\n'
                        } else if e == 'r' {
                            '\r'
                        } else if e == 't' {
                            '\t'
                        } else if e == '0' {
                            '\0'
                        } else {
                            e
                        };
                        let ghost t0 = text@;
                        let ghost cur = self.current as nat;
                        text.push(decoded);
                        self.step();
                        self.step();
                        proof {
                            assert(decoded == esc_char(src[cur as int + 1]));
                            assert(text@ =~= t0 + seq![esc_char(src[cur as int + 1])]);
                            match str_scan(src, quote, cur + 2) {
                                StrScan::Closed { text: t2, end } => {
                                    assert(t0 + (seq![esc_char(src[cur as int + 1])] + t2) =~= (t0
                                        + seq![esc_char(src[cur as int + 1])]) + t2);
                                },
                                StrScan::Open => {},
                            }
                        }
                    } else {
                        self.advance_to_end();
                        return self.error(LexError::UnterminatedStringLiteral);
                    }
                } else {
                    let ghost t0 = text@;
                    let ghost cur = self.current as nat;
                    text.push(ch);
                    self.step();
                    proof {
                        assert(text@ =~= t0 + seq![src[cur as int]]);
                        match str_scan(src, quote, cur + 1) {
                            StrScan::Closed { text: t2, end } => {
                                assert(t0 + (seq![src[cur as int]] + t2) =~= (t0 + seq![
                                    src[cur as int],
                                ]) + t2);
                            },
                            StrScan::Open => {},
                        }
                    }
                }
            }
        } else if c == '_' || (97 <= c as u32 && c as u32 <= 122) || (65 <= c as u32 && c as u32
            <= 90) {
            while self.current < self.source.len() && is_ident_cont(self.source[self.current])
                invariant
                    self.source@ == src,
                    self.start == pos,
                    self.byte_start == byte_at(src, pos),
                    self.byte_current == byte_at(src, self.current as nat),
                    pos < self.current <= src.len(),
                    ident_end(src, (pos + 1) as nat) == ident_end(src, self.current as nat),
                decreases src.len() - self.current,
            {
                self.step();
            }
            let mut literal: Vec<char> = Vec::new();
            let mut i: usize = self.start;
            while i < self.current
                invariant
                    self.source@ == src,
                    pos <= i <= self.current <= src.len(),
                    literal@ == src.subrange(pos as int, i as int),
                decreases self.current - i,
            {
                literal.push(self.source[i]);
                proof {
                    assert(literal@ =~= src.subrange(pos as int, i as int + 1));
                }
                i = i + 1;
            }
            self.token(TokenKind::from_identifier(literal))
        } else if c == '+' {
            self.token(TokenKind::Plus)
        } else if c == '-' {
            self.token(TokenKind::Minus)
        } else if c == '*' {
            self.token(TokenKind::Asterisk)
        } else if c == '/' {
            if self.current < self.source.len() && self.source[self.current] == '/' {
                self.step();
                while self.current < self.source.len() && self.source[self.current] != '\n'
                    invariant
                        self.source@ == src,
                        self.start == pos,
                        self.byte_start == byte_at(src, pos),
                        self.byte_current == byte_at(src, self.current as nat),
                        pos + 2 <= self.current <= src.len(),
                        line_end(src, (pos + 2) as nat) == line_end(src, self.current as nat),
                    decreases src.len() - self.current,
                {
                    self.step();
                }
                if self.current < self.source.len() {
                    self.step();
                }
                self.token(TokenKind::Comment)
            } else if self.current < self.source.len() && self.source[self.current] == '*' {
                self.step();
                while self.current < self.source.len() && !(self.source[self.current] == '*'
                    && self.current + 1 < self.source.len() && self.source[self.current + 1] == '/')
                    invariant
                        self.source@ == src,
                        self.start == pos,
                        self.byte_start == byte_at(src, pos),
                        self.byte_current == byte_at(src, self.current as nat),
                        pos + 2 <= self.current <= src.len(),
                        block_end(src, (pos + 2) as nat) == block_end(src, self.current as nat),
                    decreases src.len() - self.current,
                {
                    self.step();
                }
                if self.current < self.source.len() {
                    self.step();
                        self.step();
                }
                self.token(TokenKind::Comment)
            } else {
                self.token(TokenKind::Slash)
            }
        } else if c == '%' {
            self.token(TokenKind::Percent)
        } else if c == '^' {
            self.token(TokenKind::Caret)
        } else if c == '&' {
            if self.current < self.source.len() && self.source[self.current] == '&' {
                self.step();
                self.token(TokenKind::AmpersandAmpersand)
            } else {
                self.token(TokenKind::Ampersand)
            }
        } else if c == '|' {
            if self.current < self.source.len() && self.source[self.current] == '|' {
                self.step();
                self.token(TokenKind::PipePipe)
            } else {
                self.token(TokenKind::Pipe)
            }
        } else if c == '=' {
            if self.current < self.source.len() && self.source[self.current] == '=' {
                self.step();
                self.token(TokenKind::EqualsEquals)
            } else {
                self.token(TokenKind::Equals)
            }
        } else if c == '!' {
            if self.current < self.source.len() && self.source[self.current] == '=' {
                self.step();
                self.token(TokenKind::BangEquals)
            } else {
                self.token(TokenKind::Bang)
            }
        } else if c == '<' {
            if self.current < self.source.len() && self.source[self.current] == '=' {
                self.step();
                self.token(TokenKind::LessThanEquals)
            } else {
                self.token(TokenKind::LessThan)
            }
        } else if c == '>' {
            if self.current < self.source.len() && self.source[self.current] == '=' {
                self.step();
                self.token(TokenKind::GreaterThanEquals)
            } else {
                self.token(TokenKind::GreaterThan)
            }
        } else if c == '(' {
            self.token(TokenKind::LeftParen)
        } else if c == ')' {
            self.token(TokenKind::RightParen)
        } else if c == '[' {
            self.token(TokenKind::LeftBracket)
        } else if c == ']' {
            self.token(TokenKind::RightBracket)
        } else if c == '{' {
            self.token(TokenKind::LeftBrace)
        } else if c == '}' {
            self.token(TokenKind::RightBrace)
        } else if c == ',' {
            self.token(TokenKind::Comma)
        } else if c == '.' {
            if self.current < self.source.len() && self.source[self.current] == '.' {
                self.step();
                self.token(TokenKind::DotDot)
            } else {
                self.token(TokenKind::Dot)
            }
        } else if c == ';' {
            self.token(TokenKind::Semicolon)
        } else {
            self.error(LexError::UnexpectedCharacter(c))
        }
    }

    /// Scans the whole source into tokens, dropping whitespace, newlines
    /// and comments unless `emit_ignored` keeps them, and closing the
    /// stream with an end-of-input token.
    pub fn lex(&mut self, emit_ignored: bool) -> (tokens: Vec<Token>)
        requires
            old(self).current == 0,
            old(self).byte_current == 0,
        ensures
            final(self).source@ == old(self).source@,
            views(tokens@) == lex_spec(old(self).source@, emit_ignored),
    {
        let ghost src = self.source@;
        let mut tokens: Vec<Token> = Vec::new();
        proof {
            assert(views(tokens@) =~= Seq::<TokenView>::empty());
            assert(src.take(0) =~= Seq::<char>::empty());
        }
        while !self.is_at_end()
            invariant
                self.source@ == src,
                self.current <= src.len(),
                self.byte_current == byte_at(src, self.current as nat),
                lex_from(src, 0, emit_ignored) =~= views(tokens@) + lex_from(
                    src,
                    self.current as nat,
                    emit_ignored,
                ),
            decreases src.len() - self.current,
        {
            proof {
                lemma_scan_range(src, self.current as nat);
            }
            let ghost prev = tokens@;
            let t = self.lex_token();
            match t.kind {
                TokenKind::Whitespace | TokenKind::Newline | TokenKind::Comment => {
                    if emit_ignored {
                        tokens.push(t);
                    }
                },
                _ => {
                    tokens.push(t);
                },
            }
            proof {
                if views(tokens@) != views(prev) {
                    assert(views(tokens@) =~= views(prev) + seq![t@]);
                }
                assert(lex_from(src, 0, emit_ignored) =~= views(tokens@) + lex_from(
                    src,
                    self.current as nat,
                    emit_ignored,
                ));
            }
        }
        let eof = Token {
            kind: TokenKind::Eof,
            span: Span { start: self.byte_current, end: self.byte_current },
        };
        tokens.push(eof);
        proof {
            assert(views(tokens@.drop_last()).push(eof@) =~= views(tokens@));
            assert(views(tokens@) =~= lex_spec(src, emit_ignored));
        }
        tokens
    }
}

} // verus!
