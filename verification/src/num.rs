use vstd::prelude::*;

use rustc_apfloat::Float;
use rustc_apfloat::ieee::Double;

verus! {

use vstd::arithmetic::power2::pow2;

/// A Language number: an IEEE-754 binary64 value carried as its bit pattern.
/// Arithmetic on numbers is delegated to the `rustc_apfloat` soft-float
/// implementation of the same format; comparisons, truncation to an index
/// and negation are defined here directly over the bit pattern.
#[derive(Clone, Copy, PartialEq, Eq, Structural, Debug, Hash)]
pub struct Num(pub u64);

pub const SIGN_BIT: u64 = 0x8000_0000_0000_0000;
pub const FRAC_ONE: u64 = 0x10_0000_0000_0000;
pub const EXP_MASK: u64 = 0x7FF;
pub const POS_INF_BITS: u64 = 0x7FF0_0000_0000_0000;
pub const NAN_BITS: u64 = 0x7FF8_0000_0000_0000;

/// The sign field of the bit pattern: 0 for positive, 1 for negative.
pub open spec fn num_sign(b: u64) -> u64 {
    b / SIGN_BIT
}

/// The bit pattern with the sign bit cleared.
pub open spec fn num_mag(b: u64) -> u64 {
    b % SIGN_BIT
}

/// The biased exponent field.
pub open spec fn num_exp(b: u64) -> u64 {
    num_mag(b) / FRAC_ONE
}

/// The fraction field.
pub open spec fn num_frac(b: u64) -> u64 {
    num_mag(b) % FRAC_ONE
}

/// Whether the pattern encodes a NaN.
pub open spec fn num_is_nan(b: u64) -> bool {
    num_exp(b) == EXP_MASK && num_frac(b) != 0
}

/// IEEE-754 equality of two binary64 values given by their bit patterns:
/// NaN equals nothing, and the two zeros equal each other; all other values
/// are equal exactly when their patterns are.
pub open spec fn float_eq(a: u64, b: u64) -> bool {
    &&& !num_is_nan(a)
    &&& !num_is_nan(b)
    &&& (a == b || (num_mag(a) == 0 && num_mag(b) == 0))
}

/// IEEE-754 `<` on two binary64 values given by their bit patterns. For
/// values that are not NaN the pattern order coincides with the numeric
/// order once the sign is accounted for.
pub open spec fn float_lt(a: u64, b: u64) -> bool {
    &&& !num_is_nan(a)
    &&& !num_is_nan(b)
    &&& if num_mag(a) == 0 && num_mag(b) == 0 {
        false
    } else if num_sign(a) != num_sign(b) {
        num_sign(a) == 1
    } else if num_sign(a) == 0 {
        num_mag(a) < num_mag(b)
    } else {
        num_mag(a) > num_mag(b)
    }
}

/// IEEE-754 `<=` on two binary64 bit patterns.
pub open spec fn float_le(a: u64, b: u64) -> bool {
    float_lt(a, b) || float_eq(a, b)
}

/// The bit pattern of the negated value: the sign bit flipped.
pub open spec fn neg_bits(b: u64) -> u64 {
    if b >= SIGN_BIT {
        (b - SIGN_BIT) as u64
    } else {
        (b + SIGN_BIT) as u64
    }
}

pub proof fn lemma_p2_le(a: nat, b: nat)
    requires
        a <= b,
    ensures
        pow2(a) <= pow2(b),
{
    if a < b {
        vstd::arithmetic::power2::lemma_pow2_strictly_increases(a, b);
    }
}

/// The value of the pattern truncated toward zero to a non-negative
/// integer, the way a Rust `as usize` cast behaves on a non-negative
/// double: NaN and negative values give 0, infinity is unbounded here
/// (the executable side saturates it to `usize::MAX`).
pub open spec fn trunc_val(b: u64) -> nat {
    if num_is_nan(b) || num_sign(b) == 1 {
        0
    } else if num_exp(b) < 1023 {
        0
    } else if num_exp(b) >= 1087 {
        pow2(64)
    } else {
        let sig = (FRAC_ONE + num_frac(b)) as nat;
        let ue = (num_exp(b) - 1023) as nat;
        if ue >= 52 {
            sig * pow2((ue - 52) as nat)
        } else {
            sig / pow2((52 - ue) as nat)
        }
    }
}

/// Truncation saturated to the machine index range.
pub open spec fn trunc_usize(b: u64) -> nat {
    if trunc_val(b) > usize::MAX {
        usize::MAX as nat
    } else {
        trunc_val(b)
    }
}

fn pow2_u64(k: u64) -> (r: u64)
    requires
        k <= 63,
    ensures
        r as nat == pow2(k as nat),
{
    let mut p: u64 = 1;
    let mut i: u64 = 0;
    assert(p as nat == pow2(0)) by {
        vstd::arithmetic::power2::lemma2_to64();
    }
    while i < k
        invariant
            i <= k <= 63,
            p as nat == pow2(i as nat),
        decreases k - i,
    {
        proof {
            lemma_p2_le(i as nat, 62);
            vstd::arithmetic::power2::lemma2_to64_rest();
            vstd::arithmetic::power2::lemma_pow2_unfold((i + 1) as nat);
        }
        p = p * 2;
        i = i + 1;
    }
    p
}

impl Num {
    /// IEEE-754 equality with the other number.
    pub fn eq_num(self, other: Num) -> (r: bool)
        ensures
            r == float_eq(self.0, other.0),
    {
        let a = self.0;
        let b = other.0;
        let a_nan = a % SIGN_BIT / FRAC_ONE == EXP_MASK && a % SIGN_BIT % FRAC_ONE != 0;
        let b_nan = b % SIGN_BIT / FRAC_ONE == EXP_MASK && b % SIGN_BIT % FRAC_ONE != 0;
        !a_nan && !b_nan && (a == b || (a % SIGN_BIT == 0 && b % SIGN_BIT == 0))
    }

    /// IEEE-754 `<` against the other number.
    pub fn lt_num(self, other: Num) -> (r: bool)
        ensures
            r == float_lt(self.0, other.0),
    {
        let a = self.0;
        let b = other.0;
        let a_nan = a % SIGN_BIT / FRAC_ONE == EXP_MASK && a % SIGN_BIT % FRAC_ONE != 0;
        let b_nan = b % SIGN_BIT / FRAC_ONE == EXP_MASK && b % SIGN_BIT % FRAC_ONE != 0;
        if a_nan || b_nan {
            false
        } else if a % SIGN_BIT == 0 && b % SIGN_BIT == 0 {
            false
        } else if a / SIGN_BIT != b / SIGN_BIT {
            a / SIGN_BIT == 1
        } else if a / SIGN_BIT == 0 {
            a % SIGN_BIT < b % SIGN_BIT
        } else {
            a % SIGN_BIT > b % SIGN_BIT
        }
    }

    /// IEEE-754 `<=` against the other number.
    pub fn le_num(self, other: Num) -> (r: bool)
        ensures
            r == float_le(self.0, other.0),
    {
        self.lt_num(other) || self.eq_num(other)
    }

    /// The negated number: the sign bit flipped, as IEEE-754 negation does.
    pub fn neg_num(self) -> (r: Num)
        ensures
            r.0 == neg_bits(self.0),
    {
        if self.0 >= SIGN_BIT {
            Num(self.0 - SIGN_BIT)
        } else {
            Num(self.0 + SIGN_BIT)
        }
    }

    /// The number truncated toward zero and saturated to an index, the way
    /// the interpreter turns a number into an array position.
    pub fn trunc_index(self) -> (r: usize)
        ensures
            r as nat == trunc_usize(self.0),
    {
        let b = self.0;
        let mag = b % SIGN_BIT;
        let exp = mag / FRAC_ONE;
        let frac = mag % FRAC_ONE;
        let is_nan = exp == EXP_MASK && frac != 0;
        if is_nan || b / SIGN_BIT == 1 {
            0
        } else if exp < 1023 {
            0
        } else if exp >= 1087 {
            proof {
                vstd::arithmetic::power2::lemma2_to64();
            }
            usize::MAX
        } else {
            let sig: u64 = FRAC_ONE + frac;
            let ue: u64 = exp - 1023;
            let v: u64 = if ue >= 52 {
                let p = pow2_u64(ue - 52);
                proof {
                    lemma_p2_le((ue - 52) as nat, 11);
                    vstd::arithmetic::power2::lemma2_to64();
                    assert(sig * p < 0x1_0000_0000_0000_0000) by (nonlinear_arith)
                        requires
                            sig < 0x20_0000_0000_0000,
                            p <= 0x800,
                    ;
                }
                sig * p
            } else {
                let p = pow2_u64(52 - ue);
                proof {
                    vstd::arithmetic::power2::lemma_pow2_pos((52 - ue) as nat);
                }
                sig / p
            };
            if v > usize::MAX as u64 {
                usize::MAX
            } else {
                v as usize
            }
        }
    }
}

pub uninterp spec fn add_bits(a: u64, b: u64) -> u64;

pub uninterp spec fn sub_bits(a: u64, b: u64) -> u64;

pub uninterp spec fn mul_bits(a: u64, b: u64) -> u64;

pub uninterp spec fn div_bits(a: u64, b: u64) -> u64;

pub uninterp spec fn mod_bits(a: u64, b: u64) -> u64;

pub uninterp spec fn from_int_bits(n: u64) -> u64;

pub uninterp spec fn dec_bits(s: Seq<char>) -> u64;

pub uninterp spec fn ryu_bits_str(b: u64) -> Seq<char>;

/// Relies on `rustc_apfloat::ieee::Double::add_r`: IEEE-754 binary64
/// addition, rounded to nearest with ties to even, a function of the two
/// operand bit patterns alone.
#[verifier::external_body]
pub(crate) fn num_add_raw(a: u64, b: u64) -> (r: u64)
    ensures
        r == add_bits(a, b),
{
    let x = Double::from_bits(a as u128);
    let y = Double::from_bits(b as u128);
    (x + y).value.to_bits() as u64
}

/// Relies on `rustc_apfloat::ieee::Double::sub_r`: IEEE-754 binary64
/// subtraction, rounded to nearest with ties to even.
#[verifier::external_body]
pub(crate) fn num_sub_raw(a: u64, b: u64) -> (r: u64)
    ensures
        r == sub_bits(a, b),
{
    let x = Double::from_bits(a as u128);
    let y = Double::from_bits(b as u128);
    (x - y).value.to_bits() as u64
}

/// Relies on `rustc_apfloat::ieee::Double::mul_r`: IEEE-754 binary64
/// multiplication, rounded to nearest with ties to even.
#[verifier::external_body]
pub(crate) fn num_mul_raw(a: u64, b: u64) -> (r: u64)
    ensures
        r == mul_bits(a, b),
{
    let x = Double::from_bits(a as u128);
    let y = Double::from_bits(b as u128);
    (x * y).value.to_bits() as u64
}

/// Relies on `rustc_apfloat::ieee::Double::div_r`: IEEE-754 binary64
/// division, rounded to nearest with ties to even; division by zero gives
/// an infinity or NaN as the format prescribes.
#[verifier::external_body]
pub(crate) fn num_div_raw(a: u64, b: u64) -> (r: u64)
    ensures
        r == div_bits(a, b),
{
    let x = Double::from_bits(a as u128);
    let y = Double::from_bits(b as u128);
    (x / y).value.to_bits() as u64
}

/// Relies on `rustc_apfloat::ieee::Double::c_fmod`: the C `fmod` remainder,
/// which is what `%` on Rust doubles computes.
#[verifier::external_body]
pub(crate) fn num_mod_raw(a: u64, b: u64) -> (r: u64)
    ensures
        r == mod_bits(a, b),
{
    let x = Double::from_bits(a as u128);
    let y = Double::from_bits(b as u128);
    (x % y).value.to_bits() as u64
}

/// Relies on `rustc_apfloat::ieee::Double::from_u128`: conversion of an
/// unsigned integer to the nearest binary64 value, ties to even, the same
/// rounding an `as` cast performs.
#[verifier::external_body]
pub(crate) fn num_from_u64_raw(n: u64) -> (r: u64)
    ensures
        r == from_int_bits(n),
{
    Double::from_u128(n as u128).value.to_bits() as u64
}

/// Relies on `rustc_apfloat`'s `FromStr` for `Double`: correctly rounded
/// conversion of a decimal significand-and-exponent string. A decimal body
/// is demanded so that the conversion stays on its decimal path; the
/// crate's hexadecimal path does not return on inputs with too long a
/// digit run. A string the conversion rejects is mapped to the zero
/// pattern; `dec_bits` names the whole mapping, which depends on the
/// characters alone.
#[verifier::external_body]
pub(crate) fn num_from_decimal_raw(s: &Vec<char>) -> (r: u64)
    requires
        dec_body_ok(strip_sign(s@)),
    ensures
        r == dec_bits(s@),
{
    let text: String = s.iter().collect();
    match text.parse::<Double>() {
        Ok(d) => d.to_bits() as u64,
        Err(_) => 0,
    }
}

/// Relies on `ryu::Buffer::format`: the shortest decimal form that parses
/// back to the same binary64 value, with "NaN", "inf" or "-inf" for the
/// non-finite patterns; `byteorder`'s `read_f64` rebuilds the value from
/// its bits. The text depends on the bit pattern alone.
#[verifier::external_body]
pub(crate) fn num_to_chars_raw(b: u64) -> (r: Vec<char>)
    ensures
        r@ == ryu_bits_str(b),
{
    let x = <byteorder::LittleEndian as byteorder::ByteOrder>::read_f64(&b.to_le_bytes());
    let mut buf = ryu::Buffer::new();
    buf.format(x).chars().collect()
}

/// The rendering of a number: the shortest round-trip decimal form, with a
/// whole-valued number shown without its fractional part.
pub open spec fn num_str(b: u64) -> Seq<char> {
    let raw = ryu_bits_str(b);
    if raw.len() >= 2 && raw[raw.len() - 2] == '.' && raw[raw.len() - 1] == '0' {
        raw.subrange(0, raw.len() - 2)
    } else {
        raw
    }
}

/// The position after a run of decimal digits starting at `j`.
pub open spec fn digits_end(s: Seq<char>, j: nat) -> nat
    decreases s.len() - j,
{
    if j < s.len() && 48 <= s[j as int] as u32 <= 57 {
        digits_end(s, j + 1)
    } else {
        j
    }
}

proof fn lemma_digits_end_range(s: Seq<char>, j: nat)
    requires
        j <= s.len(),
    ensures
        j <= digits_end(s, j) <= s.len(),
    decreases s.len() - j,
{
    if j < s.len() && 48 <= s[j as int] as u32 <= 57 {
        lemma_digits_end_range(s, j + 1);
    }
}

/// A digit run ends at the first character that is no digit.
pub proof fn lemma_digits_end_facts(s: Seq<char>, j: nat)
    requires
        j <= s.len(),
    ensures
        j <= digits_end(s, j) <= s.len(),
        forall|k: int| j <= k < digits_end(s, j) ==> 48 <= #[trigger] (s[k] as u32) <= 57,
        digits_end(s, j) < s.len() ==> !(48 <= s[digits_end(s, j) as int] as u32 <= 57),
    decreases s.len() - j,
{
    if j < s.len() && 48 <= s[j as int] as u32 <= 57 {
        lemma_digits_end_facts(s, j + 1);
    }
}

/// Whether a text, its sign already stripped, is a decimal number form:
/// digits around at most one dot, at least one digit among them, and an
/// optional exponent part with at least one digit.
pub open spec fn dec_body_ok(b: Seq<char>) -> bool {
    let m1 = digits_end(b, 0);
    let m2 = if m1 < b.len() && b[m1 as int] == '.' {
        digits_end(b, m1 + 1)
    } else {
        m1
    };
    let has_mantissa = m1 > 0 || (m1 < b.len() && b[m1 as int] == '.' && m2 > m1 + 1);
    if m2 == b.len() {
        has_mantissa
    } else if b[m2 as int] == 'e' || b[m2 as int] == 'E' {
        let es = if m2 + 1 < b.len() && (b[m2 as int + 1] == '+' || b[m2 as int + 1] == '-') {
            m2 + 2
        } else {
            m2 + 1
        };
        let e_end = digits_end(b, es);
        has_mantissa && e_end == b.len() && e_end > es
    } else {
        false
    }
}

/// The text with one leading sign removed.
pub open spec fn strip_sign(s: Seq<char>) -> Seq<char> {
    if s.len() > 0 && (s[0] == '+' || s[0] == '-') {
        s.drop_first()
    } else {
        s
    }
}

/// Whether the text carries a leading minus sign.
pub open spec fn has_minus(s: Seq<char>) -> bool {
    s.len() > 0 && s[0] == '-'
}

/// The character with an ASCII capital folded to its small form.
pub open spec fn lower_ascii(c: char) -> char {
    if 65 <= c as u32 <= 90 {
        ((c as u32 + 32) as u8) as char
    } else {
        c
    }
}

/// The text with ASCII capitals folded to their small forms.
pub open spec fn lower_ascii_seq(s: Seq<char>) -> Seq<char> {
    Seq::new(s.len(), |i: int| lower_ascii(s[i]))
}

/// What a text parses to as a number, if anything: the written infinities
/// and not-a-number forms in any ASCII case, or a decimal form converted
/// by correctly rounded decimal conversion.
pub open spec fn parse_num_spec(s: Seq<char>) -> Option<u64> {
    let body = lower_ascii_seq(strip_sign(s));
    let sign: u64 = if has_minus(s) {
        SIGN_BIT
    } else {
        0
    };
    if body == "inf"@ || body == "infinity"@ {
        Some((POS_INF_BITS + sign) as u64)
    } else if body == "nan"@ {
        Some((NAN_BITS + sign) as u64)
    } else if dec_body_ok(strip_sign(s)) {
        Some(dec_bits(s))
    } else {
        None
    }
}

fn lower_ascii_chars(s: &Vec<char>, from: usize) -> (r: Vec<char>)
    requires
        from <= s@.len(),
    ensures
        r@ == lower_ascii_seq(s@.skip(from as int)),
{
    let mut out: Vec<char> = Vec::new();
    let mut i: usize = from;
    proof {
        assert(out@ =~= lower_ascii_seq(s@.skip(from as int)).take(0));
    }
    while i < s.len()
        invariant
            from <= i <= s@.len(),
            out@ == lower_ascii_seq(s@.skip(from as int)).take(i - from),
        decreases s@.len() - i,
    {
        let u = s[i] as u32;
        let c: char = if 65 <= u && u <= 90 {
            ((u + 32) as u8) as char
        } else {
            s[i]
        };
        out.push(c);
        proof {
            assert(out@ =~= lower_ascii_seq(s@.skip(from as int)).take(i - from + 1));
        }
        i = i + 1;
    }
    proof {
        assert(lower_ascii_seq(s@.skip(from as int)).take(s@.len() - from) =~= lower_ascii_seq(
            s@.skip(from as int),
        ));
    }
    out
}

fn digits_end_exec(s: &Vec<char>, j: usize) -> (r: usize)
    requires
        j <= s@.len(),
    ensures
        r == digits_end(s@, j as nat),
        j <= r <= s@.len(),
{
    let mut i: usize = j;
    while i < s.len() && 48 <= s[i] as u32 && s[i] as u32 <= 57
        invariant
            j <= i <= s@.len(),
            digits_end(s@, j as nat) == digits_end(s@, i as nat),
        decreases s@.len() - i,
    {
        i = i + 1;
    }
    i
}

/// Decides the decimal body form.
fn dec_body_ok_exec(s: &Vec<char>, from: usize) -> (r: bool)
    requires
        from <= s@.len(),
    ensures
        r == dec_body_ok(s@.skip(from as int)),
{
    let ghost b = s@.skip(from as int);
    let body = {
        let mut out: Vec<char> = Vec::new();
        let mut i: usize = from;
        proof {
            assert(out@ =~= b.take(0));
        }
        while i < s.len()
            invariant
                from <= i <= s@.len(),
                out@ == b.take(i - from),
            decreases s@.len() - i,
        {
            out.push(s[i]);
            proof {
                assert(out@ =~= b.take(i - from + 1));
            }
            i = i + 1;
        }
        proof {
            assert(b.take(s@.len() - from) =~= b);
        }
        out
    };
    let m1 = digits_end_exec(&body, 0);
    let m2: usize = if m1 < body.len() && body[m1] == '.' {
        digits_end_exec(&body, m1 + 1)
    } else {
        m1
    };
    let has_mantissa = m1 > 0 || (m1 < body.len() && body[m1] == '.' && m2 > m1 + 1);
    if m2 == body.len() {
        has_mantissa
    } else if body[m2] == 'e' || body[m2] == 'E' {
        let es: usize = if m2 + 1 < body.len() && (body[m2 + 1] == '+' || body[m2 + 1] == '-') {
            m2 + 2
        } else {
            m2 + 1
        };
        if es > body.len() {
            proof {
                lemma_digits_end_range(b, es as nat);
            }
            false
        } else {
            let e_end = digits_end_exec(&body, es);
            has_mantissa && e_end == body.len() && e_end > es
        }
    } else {
        false
    }
}

/// What a text parses to as a number, if anything: the builtin `parse`.
pub fn parse_num_chars(s: &Vec<char>) -> (r: Option<Num>)
    ensures
        match r {
            Some(n) => parse_num_spec(s@) == Some(n.0),
            None => parse_num_spec(s@) is None,
        },
{
    let signed = s.len() > 0 && (s[0] == '+' || s[0] == '-');
    let minus = s.len() > 0 && s[0] == '-';
    let from: usize = if signed {
        1
    } else {
        0
    };
    proof {
        if signed {
            assert(strip_sign(s@) =~= s@.skip(1));
        } else {
            assert(strip_sign(s@) =~= s@.skip(0));
        }
    }
    let body = lower_ascii_chars(s, from);
    let sign_bits: u64 = if minus {
        SIGN_BIT
    } else {
        0
    };
    if chars_eq_lit(&body, "inf") || chars_eq_lit(&body, "infinity") {
        Some(Num(POS_INF_BITS + sign_bits))
    } else if chars_eq_lit(&body, "nan") {
        Some(Num(NAN_BITS + sign_bits))
    } else if dec_body_ok_exec(s, from) {
        Some(Num(num_from_decimal_raw(s)))
    } else {
        None
    }
}

/// Whether the characters spell the given literal.
fn chars_eq_lit(v: &Vec<char>, s: &str) -> (r: bool)
    ensures
        r == (v@ == s@),
{
    let n = s.unicode_len();
    if v.len() != n {
        proof {
            assert(v@.len() != s@.len());
        }
        return false;
    }
    let mut i: usize = 0;
    while i < n
        invariant
            i <= n,
            n == s@.len(),
            v@.len() == n,
            forall|j: int| 0 <= j < i ==> v@[j] == s@[j],
        decreases n - i,
    {
        if v[i] != s.get_char(i) {
            return false;
        }
        i = i + 1;
    }
    proof {
        assert(v@ =~= s@);
    }
    true
}

/// The text of a number as `print` and string concatenation show it.
pub fn num_to_chars(b: Num) -> (r: Vec<char>)
    ensures
        r@ == num_str(b.0),
{
    let mut raw = num_to_chars_raw(b.0);
    let n = raw.len();
    if n >= 2 && raw[n - 2] == '.' && raw[n - 1] == '0' {
        raw.pop();
        raw.pop();
        assert(raw@ =~= num_str(b.0));
        raw
    } else {
        raw
    }
}

} // verus!
