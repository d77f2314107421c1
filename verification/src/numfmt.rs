//! Verified decimal rendering of the numeric payloads: signed integers, and
//! float literals carried as a sign, a decimal mantissa and a scale.

use vstd::prelude::*;

verus! {

/// The character for one decimal digit.
pub open spec fn digit_char(d: nat) -> char {
    if d == 0 {
        '0'
    } else if d == 1 {
        '1'
    } else if d == 2 {
        '2'
    } else if d == 3 {
        '3'
    } else if d == 4 {
        '4'
    } else if d == 5 {
        '5'
    } else if d == 6 {
        '6'
    } else if d == 7 {
        '7'
    } else if d == 8 {
        '8'
    } else {
        '9'
    }
}

/// The decimal digits of a natural number, most significant first.
pub open spec fn dec_chars(n: nat) -> Seq<char>
    decreases n,
{
    if n < 10 {
        seq![digit_char(n)]
    } else {
        dec_chars(n / 10).push(digit_char(n % 10))
    }
}

/// The decimal text of a signed integer: a minus sign for negatives,
/// then the digits of the magnitude.
pub open spec fn int_chars(i: int) -> Seq<char> {
    if i < 0 {
        seq!['-'] + dec_chars((-i) as nat)
    } else {
        dec_chars(i as nat)
    }
}

/// `n` with its last `k` decimal digits removed.
pub open spec fn drop_digits(n: nat, k: nat) -> nat
    decreases k,
{
    if k == 0 {
        n
    } else {
        drop_digits(n / 10, (k - 1) as nat)
    }
}

/// The last `k` decimal digits of `n`, zero-padded to exactly `k` characters.
pub open spec fn pad_chars(n: nat, k: nat) -> Seq<char>
    decreases k,
{
    if k == 0 {
        Seq::empty()
    } else {
        pad_chars(n / 10, (k - 1) as nat).push(digit_char(n % 10))
    }
}

/// Ten to the `k`.
pub open spec fn pow10(k: nat) -> nat
    decreases k,
{
    if k == 0 {
        1
    } else {
        10 * pow10((k - 1) as nat)
    }
}

/// A one-character string slice for one decimal digit.
pub fn digit_str(d: u64) -> (r: &'static str)
    requires
        d < 10,
    ensures
        r@ == seq![digit_char(d as nat)],
{
    proof {
        reveal_strlit("0");
        reveal_strlit("1");
        reveal_strlit("2");
        reveal_strlit("3");
        reveal_strlit("4");
        reveal_strlit("5");
        reveal_strlit("6");
        reveal_strlit("7");
        reveal_strlit("8");
        reveal_strlit("9");
    }
    let r = if d == 0 {
        "0"
    } else if d == 1 {
        "1"
    } else if d == 2 {
        "2"
    } else if d == 3 {
        "3"
    } else if d == 4 {
        "4"
    } else if d == 5 {
        "5"
    } else if d == 6 {
        "6"
    } else if d == 7 {
        "7"
    } else if d == 8 {
        "8"
    } else {
        "9"
    };
    proof {
        assert(r@ =~= seq![digit_char(d as nat)]);
    }
    r
}

/// Appends the decimal digits of `n` to `out`.
pub fn push_dec(out: &mut String, n: u64)
    ensures
        final(out)@ == old(out)@ + dec_chars(n as nat),
    decreases n,
{
    if n < 10 {
        out.append(digit_str(n));
        proof {
            assert(final(out)@ =~= old(out)@ + dec_chars(n as nat));
        }
    } else {
        push_dec(out, n / 10);
        out.append(digit_str(n % 10));
        proof {
            assert(final(out)@ =~= old(out)@ + dec_chars(n as nat));
        }
    }
}

/// Appends the decimal text of a signed integer to `out`.
pub fn push_int(out: &mut String, n: i64)
    ensures
        final(out)@ == old(out)@ + int_chars(n as int),
{
    if n < 0 {
        out.append("-");
        let m: u64 = (-(n as i128)) as u64;
        proof {
            assert(m == -(n as int));
        }
        push_dec(out, m);
        proof {
            reveal_strlit("-");
            assert("-"@ =~= seq!['-']);
            assert(final(out)@ =~= old(out)@ + int_chars(n as int));
        }
    } else {
        push_dec(out, n as u64);
    }
}

/// Appends the last `k` decimal digits of `n`, zero-padded to `k` characters.
pub fn push_pad(out: &mut String, n: u64, k: u32)
    ensures
        final(out)@ == old(out)@ + pad_chars(n as nat, k as nat),
    decreases k,
{
    if k > 0 {
        push_pad(out, n / 10, k - 1);
        out.append(digit_str(n % 10));
        proof {
            assert(final(out)@ =~= old(out)@ + pad_chars(n as nat, k as nat));
        }
    } else {
        proof {
            assert(final(out)@ =~= old(out)@ + pad_chars(n as nat, 0));
        }
    }
}

/// `n` with its last `k` decimal digits removed, computed executably.
pub fn div_digits(n: u64, k: u32) -> (r: u64)
    ensures
        r as nat == drop_digits(n as nat, k as nat),
    decreases k,
{
    if k == 0 {
        n
    } else {
        div_digits(n / 10, k - 1)
    }
}

/// A float literal carried as plain values: a sign, a decimal mantissa and
/// a scale (the count of digits after the decimal point). The literal
/// `-2.5` is `{ neg: true, mantissa: 25, scale: 1 }`.
#[derive(Clone, Copy, PartialEq, Eq, Structural, Debug)]
pub struct FloatLit {
    pub neg: bool,
    pub mantissa: u64,
    pub scale: u32,
}

/// A float literal is well formed when it is normalized: no trailing zero
/// digit after the point, and zero carries no sign and no scale.
pub open spec fn float_wf(f: FloatLit) -> bool {
    &&& f.scale > 0 ==> f.mantissa % 10 != 0
    &&& f.mantissa == 0 ==> !f.neg && f.scale == 0
}

/// The decimal text of a float literal: optional minus sign, the digits
/// before the point, and, when the scale is positive, a point followed by
/// exactly `scale` fractional digits.
pub open spec fn float_chars(f: FloatLit) -> Seq<char> {
    let digits = if f.scale == 0 {
        dec_chars(f.mantissa as nat)
    } else {
        dec_chars(drop_digits(f.mantissa as nat, f.scale as nat)) + seq!['.'] + pad_chars(
            f.mantissa as nat,
            f.scale as nat,
        )
    };
    if f.neg {
        seq!['-'] + digits
    } else {
        digits
    }
}

/// Ten to any power is positive.
pub proof fn lemma_pow10_pos(k: nat)
    ensures
        pow10(k) >= 1,
    decreases k,
{
    if k > 0 {
        lemma_pow10_pos((k - 1) as nat);
    }
}

/// Appends the decimal text of a float literal to `out`.
pub fn push_float(out: &mut String, f: &FloatLit)
    ensures
        final(out)@ == old(out)@ + float_chars(*f),
{
    if f.neg {
        out.append("-");
        proof {
            reveal_strlit("-");
        }
    }
    if f.scale == 0 {
        push_dec(out, f.mantissa);
    } else {
        let ip = div_digits(f.mantissa, f.scale);
        push_dec(out, ip);
        out.append(".");
        proof {
            reveal_strlit(".");
        }
        push_pad(out, f.mantissa, f.scale);
    }
    proof {
        assert(final(out)@ =~= old(out)@ + float_chars(*f));
    }
}

/// The decimal text of a float literal.
pub fn float_to_string(f: &FloatLit) -> (r: String)
    ensures
        r@ == float_chars(*f),
{
    let mut out = String::new();
    push_float(&mut out, f);
    proof {
        assert(out@ =~= float_chars(*f));
    }
    out
}

/// Builds a normalized float literal denoting `mantissa / 10^scale` with the
/// given sign: trailing zero digits after the point are stripped, and zero
/// loses its sign and scale.
pub fn float_lit(neg: bool, mantissa: u64, scale: u32) -> (r: FloatLit)
    ensures
        float_wf(r),
        r.mantissa as nat * pow10(scale as nat) == mantissa as nat * pow10(r.scale as nat),
        r.neg == (neg && mantissa != 0),
        r.scale <= scale,
{
    let mut m: u64 = mantissa;
    let mut s: u32 = scale;
    while s > 0 && m % 10 == 0
        invariant
            m as nat * pow10(scale as nat) == mantissa as nat * pow10(s as nat),
            s <= scale,
            m == 0 ==> mantissa == 0,
        decreases s,
    {
        proof {
            lemma_pow10_pos(scale as nat);
            lemma_pow10_pos((s - 1) as nat);
            assert((m / 10) as nat * pow10(scale as nat) == mantissa as nat * pow10(
                (s - 1) as nat,
            )) by (nonlinear_arith)
                requires
                    m as nat * pow10(scale as nat) == mantissa as nat * pow10(s as nat),
                    m % 10 == 0,
                    s >= 1,
                    pow10(s as nat) == 10 * pow10((s - 1) as nat),
                    pow10(scale as nat) >= 1,
            ;
            assert(m / 10 == 0 ==> m == 0);
        }
        m = m / 10;
        s = s - 1;
    }
    if m == 0 {
        proof {
            lemma_pow10_pos(scale as nat);
            lemma_pow10_pos(s as nat);
        }
        FloatLit { neg: false, mantissa: 0, scale: 0 }
    } else {
        proof {
            lemma_pow10_pos(scale as nat);
            lemma_pow10_pos(s as nat);
            assert(mantissa != 0) by (nonlinear_arith)
                requires
                    m as nat * pow10(scale as nat) == mantissa as nat * pow10(s as nat),
                    m != 0,
                    pow10(scale as nat) >= 1,
                    pow10(s as nat) >= 1,
            ;
        }
        FloatLit { neg, mantissa: m, scale: s }
    }
}

/// Ten to a sum is the product of the powers.
pub proof fn lemma_pow10_add(a: nat, b: nat)
    ensures
        pow10(a + b) == pow10(a) * pow10(b),
    decreases b,
{
    if b > 0 {
        let b1 = (b - 1) as nat;
        lemma_pow10_add(a, b1);
        assert(pow10(b) == 10 * pow10(b1));
        assert((a + b - 1) as nat == a + b1);
        assert(pow10(a + b) == 10 * pow10(a + b1));
        assert(10 * (pow10(a) * pow10(b1)) == pow10(a) * (10 * pow10(b1))) by (nonlinear_arith);
        assert(pow10(a + b) == pow10(a) * pow10(b));
    } else {
        assert(b == 0);
        assert(a + b == a);
        assert(pow10(0) == 1);
        assert(pow10(b) == 1);
        assert(pow10(a) * pow10(b) == pow10(a)) by (nonlinear_arith)
            requires
                pow10(b) == 1,
        ;
        assert(pow10(a + b) == pow10(a) * pow10(b));
    }
}

proof fn lemma_float_value_unique_le(a: FloatLit, b: FloatLit)
    requires
        float_wf(a),
        float_wf(b),
        a.scale <= b.scale,
        a.neg == b.neg,
        a.mantissa as nat * pow10(b.scale as nat) == b.mantissa as nat * pow10(a.scale as nat),
    ensures
        a == b,
{
    let sa = a.scale as nat;
    let sb = b.scale as nat;
    let d = (sb - sa) as nat;
    lemma_pow10_add(sa, d);
    lemma_pow10_pos(sa);
    lemma_pow10_pos(d);
    assert(a.mantissa as nat * (pow10(sa) * pow10(d)) == b.mantissa as nat * pow10(sa));
    assert(a.mantissa as nat * pow10(d) == b.mantissa as nat) by (nonlinear_arith)
        requires
            a.mantissa as nat * (pow10(sa) * pow10(d)) == b.mantissa as nat * pow10(sa),
            pow10(sa) >= 1,
    ;
    if d > 0 {
        lemma_pow10_add(1, (d - 1) as nat);
        if b.mantissa == 0 {
            assert(a.mantissa == 0) by (nonlinear_arith)
                requires
                    a.mantissa as nat * pow10(d) == 0,
                    pow10(d) >= 1,
            ;
        } else {
            // a mantissa multiplied by a positive power of ten ends in a
            // zero digit, which normalization forbids
            assert(pow10(0) == 1);
            assert(pow10(1) == 10);
            assert(b.mantissa as nat == (a.mantissa as nat * pow10((d - 1) as nat)) * 10)
                by (nonlinear_arith)
                requires
                    a.mantissa as nat * pow10(d) == b.mantissa as nat,
                    pow10(d) == pow10(1) * pow10((d - 1) as nat),
                    pow10(1) == 10,
            ;
            assert(b.mantissa as nat % 10 == 0) by (nonlinear_arith)
                requires
                    b.mantissa as nat == (a.mantissa as nat * pow10((d - 1) as nat)) * 10,
            ;
        }
    } else {
        assert(pow10(d) == 1);
    }
}

/// Two well-formed float literals are the same value exactly when they
/// denote the same signed decimal number: the normalized representation is
/// unique, so structural equality on float literals is value equality.
pub proof fn lemma_float_eq_is_value_eq(a: FloatLit, b: FloatLit)
    requires
        float_wf(a),
        float_wf(b),
    ensures
        (a == b) <==> (a.neg == b.neg && a.mantissa as nat * pow10(b.scale as nat) == b.mantissa
            as nat * pow10(a.scale as nat)),
{
    if a.neg == b.neg && a.mantissa as nat * pow10(b.scale as nat) == b.mantissa as nat * pow10(
        a.scale as nat,
    ) {
        if a.scale <= b.scale {
            lemma_float_value_unique_le(a, b);
        } else {
            lemma_float_value_unique_le(b, a);
        }
    }
}

/// The float literal that a signed integer widens to.
pub open spec fn spec_float_of_int(n: i64) -> FloatLit {
    FloatLit {
        neg: n < 0,
        mantissa: (if n < 0 {
            -(n as int)
        } else {
            n as int
        }) as u64,
        scale: 0,
    }
}

/// Widens a signed integer to a float literal with the same value.
pub fn float_of_int(n: i64) -> (r: FloatLit)
    ensures
        r == spec_float_of_int(n),
{
    if n < 0 {
        let m: u64 = (-(n as i128)) as u64;
        proof {
            assert(m == -(n as int));
        }
        FloatLit { neg: true, mantissa: m, scale: 0 }
    } else {
        FloatLit { neg: false, mantissa: n as u64, scale: 0 }
    }
}

/// The decimal text of a signed integer.
pub fn int_to_string(n: i64) -> (r: String)
    ensures
        r@ == int_chars(n as int),
{
    let mut out = String::new();
    push_int(&mut out, n);
    proof {
        assert(out@ =~= int_chars(n as int));
    }
    out
}

} // verus!
