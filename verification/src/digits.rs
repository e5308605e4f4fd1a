//! Exact decimal naturals, kept as little-endian digit vectors.
//!
//! The connection scoreboard rescales a weight by 0.9 or 20.2 on every
//! update and compares it against 1.0.  Those rescalings are carried out
//! exactly here: the weight is the rational `n / 10^k`, where `n` is a
//! digit vector and `10^k` is kept as a digit vector too, so an update
//! multiplies the numerator by 9 or 202 and the denominator by 10.

use vstd::prelude::*;

verus! {

/// Numeric value of a little-endian sequence of decimal digits.
pub open spec fn dec_val(s: Seq<u8>) -> nat
    decreases s.len(),
{
    if s.len() == 0 {
        0
    } else {
        s[0] as nat + 10 * dec_val(s.skip(1))
    }
}

/// Every element is a decimal digit.
pub open spec fn all_digits(s: Seq<u8>) -> bool {
    forall|i: int| 0 <= i < s.len() ==> s[i] < 10
}

/// Canonical digit vector: nonempty, digits only, no leading zero on top.
pub open spec fn canonical(s: Seq<u8>) -> bool {
    &&& s.len() > 0
    &&& all_digits(s)
    &&& s[s.len() - 1] != 0
}

pub open spec fn pow10(n: nat) -> nat
    decreases n,
{
    if n == 0 {
        1
    } else {
        10 * pow10((n - 1) as nat)
    }
}

/// The digit vector that denotes exactly `10^(len - 1)`: zeros below one
/// top digit 1.
pub open spec fn pow10_rep(s: Seq<u8>) -> bool {
    &&& s.len() > 0
    &&& s[s.len() - 1] == 1
    &&& forall|i: int| 0 <= i < s.len() - 1 ==> s[i] == 0
}

pub proof fn lemma_pow10_pos(n: nat)
    ensures
        pow10(n) >= 1,
    decreases n,
{
    if n > 0 {
        lemma_pow10_pos((n - 1) as nat);
    }
}

pub proof fn lemma_pow10_mono(a: nat, b: nat)
    requires
        a <= b,
    ensures
        pow10(a) <= pow10(b),
    decreases b,
{
    if a < b {
        lemma_pow10_mono(a, (b - 1) as nat);
        lemma_pow10_pos((b - 1) as nat);
    }
}

/// Appending a digit on top adds `d * 10^len`.
pub proof fn lemma_dec_val_push(s: Seq<u8>, d: u8)
    ensures
        dec_val(s.push(d)) == dec_val(s) + d * pow10(s.len()),
    decreases s.len(),
{
    let p = s.push(d);
    if s.len() == 0 {
        assert(p.skip(1) =~= Seq::<u8>::empty());
        assert(p[0] == d);
        assert(dec_val(p) == d as nat + 10 * dec_val(p.skip(1)));
        assert(pow10(0) == 1);
    } else {
        assert(p.skip(1) =~= s.skip(1).push(d));
        lemma_dec_val_push(s.skip(1), d);
        let n = (s.len() - 1) as nat;
        assert(p[0] == s[0]);
        assert(dec_val(p) == s[0] as nat + 10 * dec_val(s.skip(1).push(d)));
        assert(dec_val(s.skip(1).push(d)) == dec_val(s.skip(1)) + d as nat * pow10(n));
        assert(10 * (dec_val(s.skip(1)) + d as nat * pow10(n)) == 10 * dec_val(s.skip(1)) + d as nat
            * (10 * pow10(n))) by (nonlinear_arith);
        assert(pow10(s.len()) == 10 * pow10(n));
        assert(dec_val(s) == s[0] as nat + 10 * dec_val(s.skip(1)));
    }
}

/// A digit vector is worth less than `10^len`.
pub proof fn lemma_dec_val_upper(s: Seq<u8>)
    requires
        all_digits(s),
    ensures
        dec_val(s) < pow10(s.len()),
    decreases s.len(),
{
    if s.len() > 0 {
        lemma_dec_val_upper(s.skip(1));
        assert(dec_val(s) == s[0] as nat + 10 * dec_val(s.skip(1)));
        assert(10 * dec_val(s.skip(1)) <= 10 * (pow10((s.len() - 1) as nat) - 1))
            by (nonlinear_arith)
            requires dec_val(s.skip(1)) <= pow10((s.len() - 1) as nat) - 1;
    }
}

/// A canonical digit vector is worth at least `10^(len - 1)`.
pub proof fn lemma_dec_val_lower(s: Seq<u8>)
    requires
        canonical(s),
    ensures
        dec_val(s) >= pow10((s.len() - 1) as nat),
    decreases s.len(),
{
    if s.len() == 1 {
    } else {
        assert(canonical(s.skip(1)));
        lemma_dec_val_lower(s.skip(1));
        assert(10 * dec_val(s.skip(1)) >= 10 * pow10((s.len() - 2) as nat)) by (nonlinear_arith)
            requires dec_val(s.skip(1)) >= pow10((s.len() - 2) as nat);
    }
}

/// The value of the `10^k` representative.
pub proof fn lemma_pow10_rep_val(s: Seq<u8>)
    requires
        pow10_rep(s),
    ensures
        dec_val(s) == pow10((s.len() - 1) as nat),
    decreases s.len(),
{
    if s.len() == 1 {
        assert(dec_val(s) == s[0] as nat + 10 * dec_val(s.skip(1)));
        assert(s.skip(1) =~= Seq::<u8>::empty());
    } else {
        let t = s.skip(1);
        assert(t[t.len() - 1] == s[s.len() - 1]);
        assert(forall|i: int| 0 <= i < t.len() - 1 ==> t[i] == s[i + 1]);
        assert(pow10_rep(t));
        lemma_pow10_rep_val(t);
        assert(s[0] == 0);
        assert(dec_val(s) == s[0] as nat + 10 * dec_val(t));
        assert(pow10((s.len() - 1) as nat) == 10 * pow10((s.len() - 2) as nat));
    }
}

/// Comparing a canonical numerator against a power of ten only takes the
/// lengths of the two digit vectors.
pub proof fn lemma_len_decides_below(num: Seq<u8>, den: Seq<u8>)
    requires
        canonical(num),
        pow10_rep(den),
    ensures
        (dec_val(num) < dec_val(den)) <==> (num.len() < den.len()),
{
    lemma_pow10_rep_val(den);
    if num.len() < den.len() {
        lemma_dec_val_upper(num);
        lemma_pow10_mono(num.len(), (den.len() - 1) as nat);
    } else {
        lemma_dec_val_lower(num);
        lemma_pow10_mono((den.len() - 1) as nat, (num.len() - 1) as nat);
    }
}

/// Multiply a canonical digit vector by a small positive constant, exactly.
pub fn dec_mul(v: &Vec<u8>, m: u16) -> (r: Vec<u8>)
    requires
        canonical(v@),
        1 <= m,
    ensures
        canonical(r@),
        dec_val(r@) == dec_val(v@) * m,
{
    let mut r: Vec<u8> = Vec::new();
    let mut carry: u32 = 0;
    let mut i: usize = 0;
    proof {
        assert(v@.take(0int) =~= Seq::<u8>::empty());
        assert(dec_val(v@.take(0int)) == 0);
        assert(dec_val(v@.take(0int)) * m == 0) by (nonlinear_arith)
            requires
                dec_val(v@.take(0int)) == 0,
        ;
    }
    while i < v.len()
        invariant
            canonical(v@),
            1 <= m,
            i <= v.len(),
            r@.len() == i,
            all_digits(r@),
            carry < m,
            dec_val(r@) + carry * pow10(i as nat) == dec_val(v@.take(i as int)) * m,
            (i == v.len() && carry == 0) ==> r@[i - 1] != 0,
        decreases v.len() - i,
    {
        let d: u32 = v[i] as u32;
        proof {
            assert(v@[i as int] < 10);
            assert(d * (m as u32) <= 9 * (m as u32)) by (nonlinear_arith)
                requires
                    d <= 9,
            ;
        }
        let t: u32 = d * (m as u32) + carry;
        let digit: u8 = (t % 10) as u8;
        let new_carry: u32 = t / 10;
        proof {
            let ghost old_r = r@;
            let ghost old_carry = carry;
            // t == 10 * new_carry + digit and t <= 10 * m - 1, so new_carry < m
            assert(t == 10 * new_carry + digit);
            assert(10 * new_carry <= 10 * (m as u32) - 1);
            if new_carry == 0 && i + 1 == v.len() {
                // the top digit of the result is not zero
                assert(d >= 1);
                assert(d * (m as u32) >= 1) by (nonlinear_arith)
                    requires
                        d >= 1,
                        m >= 1,
                ;
                assert(digit >= 1);
            }
            assert(v@.take(i + 1) =~= v@.take(i as int).push(v@[i as int]));
            lemma_dec_val_push_take_step(
                v@,
                i as int,
                m,
                old_r,
                old_carry as nat,
                digit,
                new_carry as nat,
            );
        }
        r.push(digit);
        carry = new_carry;
        i = i + 1;
    }
    proof {
        assert(v@.take(i as int) =~= v@);
    }
    while carry > 0
        invariant
            all_digits(r@),
            dec_val(r@) + carry * pow10(r@.len()) == dec_val(v@) * m,
            carry == 0 ==> (r@.len() > 0 && r@[r@.len() - 1] != 0),
        decreases carry,
    {
        let digit: u8 = (carry % 10) as u8;
        let new_carry: u32 = carry / 10;
        proof {
            lemma_dec_val_push(r@, digit);
            assert(digit + 10 * new_carry == carry);
            assert((digit as nat + 10 * new_carry as nat) * pow10(r@.len()) == digit as nat * pow10(
                r@.len(),
            ) + new_carry as nat * (10 * pow10(r@.len()))) by (nonlinear_arith);
        }
        r.push(digit);
        carry = new_carry;
    }
    proof {
        lemma_pow10_pos(r@.len());
    }
    r
}

/// One step of the main multiplication loop keeps the running value right.
proof fn lemma_dec_val_push_take_step(
    v: Seq<u8>,
    i: int,
    m: u16,
    r: Seq<u8>,
    carry: nat,
    digit: u8,
    new_carry: nat,
)
    requires
        0 <= i < v.len(),
        all_digits(v),
        r.len() == i,
        dec_val(r) + carry * pow10(i as nat) == dec_val(v.take(i)) * m,
        digit as nat + 10 * new_carry == v[i] as nat * m + carry,
        v.take(i + 1) == v.take(i).push(v[i]),
    ensures
        dec_val(r.push(digit)) + new_carry * pow10((i + 1) as nat) == dec_val(v.take(i + 1)) * m,
{
    lemma_dec_val_push(r, digit);
    lemma_dec_val_push(v.take(i), v[i]);
    assert(dec_val(v.take(i + 1)) == dec_val(v.take(i)) + v[i] as nat * pow10(i as nat));
    assert((dec_val(v.take(i)) + v[i] as nat * pow10(i as nat)) * m == dec_val(v.take(i)) * m + (
    v[i] as nat * m) * pow10(i as nat)) by (nonlinear_arith);
    assert(dec_val(r.push(digit)) + new_carry * pow10((i + 1) as nat) == dec_val(r) + digit as nat
        * pow10(i as nat) + new_carry * (10 * pow10(i as nat)));
    assert(digit as nat * pow10(i as nat) + new_carry * (10 * pow10(i as nat)) == (digit as nat + 10
        * new_carry) * pow10(i as nat)) by (nonlinear_arith);
    assert((v[i] as nat * m + carry) * pow10(i as nat) == (v[i] as nat * m) * pow10(i as nat) + carry
        * pow10(i as nat)) by (nonlinear_arith);
}

} // verus!
