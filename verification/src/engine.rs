//! The arithmetic engine: GCD/LCM-based normalization that keeps
//! rationals in lowest terms and combines them correctly.
//!
//! Every operation is pure and stateless; the mathematical meaning of
//! each executable function is pinned down by the spec functions
//! [`spec_gcd`], [`spec_lcm`] and [`reduce_spec`], and the number-theoretic
//! facts the contracts rest on are proved as public lemmas here.

use vstd::prelude::*;
use vstd::arithmetic::div_mod::{
    lemma_fundamental_div_mod, lemma_small_mod, lemma_mod_self_0, lemma_div_multiples_vanish,
};
use crate::value::{Rational, canonical_default};

verus! {

/// Greatest common divisor by the Euclidean algorithm.
/// `spec_gcd(a, 0) == a`, and in particular `spec_gcd(0, 0) == 0`.
pub open spec fn spec_gcd(a: nat, b: nat) -> nat
    decreases b,
{
    if b == 0 {
        a
    } else {
        spec_gcd(b, a % b)
    }
}

/// `d` divides `n`: some whole number of copies of `d` makes `n`.
/// Under this reading `0` divides only `0`, and every `d` divides `0`.
pub open spec fn divides(d: nat, n: nat) -> bool {
    exists|k: nat| n == #[trigger] (d * k)
}

/// The greatest common divisor of two numbers is zero exactly when both are.
pub proof fn lemma_gcd_zero_iff(a: nat, b: nat)
    ensures
        spec_gcd(a, b) == 0 <==> (a == 0 && b == 0),
    decreases b,
{
    if b != 0 {
        lemma_gcd_zero_iff(b, a % b);
    }
}

/// The greatest common divisor of anything with zero is that thing,
/// on either side; of zero with zero it is zero.
pub proof fn lemma_gcd_zero(a: nat)
    ensures
        spec_gcd(a, 0) == a,
        spec_gcd(0, a) == a,
        spec_gcd(0, 0) == 0,
{
    if a != 0 {
        lemma_small_mod(0, a);
        assert(spec_gcd(0, a) == spec_gcd(a, 0nat % a));
    }
}

/// The greatest common divisor does not depend on the order of its
/// arguments.
pub proof fn lemma_gcd_symmetric(a: nat, b: nat)
    ensures
        spec_gcd(a, b) == spec_gcd(b, a),
{
    if a == 0 || b == 0 {
        lemma_gcd_zero(a);
        lemma_gcd_zero(b);
    } else if a == b {
        lemma_mod_self_0(a as int);
        assert(spec_gcd(a, b) == spec_gcd(b, a % b) == spec_gcd(b, 0) == b);
    } else if a < b {
        lemma_small_mod(a, b);
        assert(spec_gcd(a, b) == spec_gcd(b, a % b) == spec_gcd(b, a));
    } else {
        lemma_small_mod(b, a);
        assert(spec_gcd(b, a) == spec_gcd(a, b % a) == spec_gcd(a, b));
    }
}

/// The greatest common divisor of `a` and `b` divides both `a` and `b`.
pub proof fn lemma_gcd_divides_both(a: nat, b: nat)
    ensures
        divides(spec_gcd(a, b), a),
        divides(spec_gcd(a, b), b),
    decreases b,
{
    let g = spec_gcd(a, b);
    if b == 0 {
        assert(a == g * 1);
        assert(b == g * 0);
    } else {
        lemma_gcd_divides_both(b, a % b);
        let k1 = choose|k: nat| b == #[trigger] (g * k);
        let k2 = choose|k: nat| a % b == #[trigger] (g * k);
        lemma_fundamental_div_mod(a as int, b as int);
        let q = a as int / b as int;
        assert(a as int == b as int * q + (a % b) as int);
        assert(q >= 0);
        assert(a == g * (k1 * q + k2)) by (nonlinear_arith)
            requires
                b == g * k1,
                a % b == g * k2,
                q >= 0,
                a as int == b as int * q + (a % b) as int,
        ;
        assert(a == g * ((k1 * q + k2) as nat));
    }
}

/// A positive multiple is at least its divisor, and its divisor is positive.
pub proof fn lemma_divides_le(d: nat, n: nat)
    requires
        divides(d, n),
        n > 0,
    ensures
        0 < d <= n,
{
    let k = choose|k: nat| n == #[trigger] (d * k);
    assert(0 < d <= d * k) by (nonlinear_arith)
        requires
            d * k > 0,
    ;
}

/// A common divisor of `a` and `b` divides their greatest common divisor.
pub proof fn lemma_common_divisor_divides_gcd(a: nat, b: nat, d: nat)
    requires
        divides(d, a),
        divides(d, b),
    ensures
        divides(d, spec_gcd(a, b)),
    decreases b,
{
    if b == 0 {
        // spec_gcd(a, 0) == a, which d divides by assumption.
    } else {
        let k1 = choose|k: nat| a == #[trigger] (d * k);
        let k2 = choose|k: nat| b == #[trigger] (d * k);
        lemma_fundamental_div_mod(a as int, b as int);
        let q = a as int / b as int;
        let r = (a % b) as int;
        assert(a as int == b as int * q + r);
        assert(q >= 0);
        assert(d != 0) by (nonlinear_arith)
            requires
                b == d * k2,
                b > 0,
        ;
        let m: int = k1 - k2 * q;
        assert(r == d * m) by (nonlinear_arith)
            requires
                a == d * k1,
                b == d * k2,
                m == k1 - k2 * q,
                a as int == b as int * q + r,
        ;
        assert(m >= 0) by (nonlinear_arith)
            requires
                r == d * m,
                r >= 0,
                d > 0,
        ;
        assert((a % b) == d * (m as nat));
        lemma_common_divisor_divides_gcd(b, a % b, d);
    }
}

/// Exact division: when `d` divides `n` and is positive, multiplying the
/// quotient back recovers `n`.
pub proof fn lemma_div_exact(d: nat, n: nat)
    requires
        divides(d, n),
        d > 0,
    ensures
        n == d * (n / d),
{
    let k = choose|k: nat| n == #[trigger] (d * k);
    lemma_div_multiples_vanish(k as int, d as int);
    assert(n / d == k);
}

/// Dividing two numbers by their greatest common divisor leaves them
/// coprime, provided they are not both zero.
pub proof fn lemma_gcd_quotients_coprime(a: nat, b: nat)
    requires
        a > 0 || b > 0,
    ensures
        spec_gcd(a / spec_gcd(a, b), b / spec_gcd(a, b)) == 1,
{
    let g = spec_gcd(a, b);
    lemma_gcd_zero_iff(a, b);
    lemma_gcd_divides_both(a, b);
    lemma_div_exact(g, a);
    lemma_div_exact(g, b);
    let a2 = a / g;
    let b2 = b / g;
    if a > 0 {
        assert(a2 > 0) by (nonlinear_arith)
            requires
                a == g * a2,
                a > 0,
        ;
    } else {
        assert(b2 > 0) by (nonlinear_arith)
            requires
                b == g * b2,
                b > 0,
        ;
    }
    let g2 = spec_gcd(a2, b2);
    lemma_gcd_zero_iff(a2, b2);
    lemma_gcd_divides_both(a2, b2);
    let m1 = choose|k: nat| a2 == #[trigger] (g2 * k);
    let m2 = choose|k: nat| b2 == #[trigger] (g2 * k);
    assert(a == (g * g2) * m1) by (nonlinear_arith)
        requires
            a == g * a2,
            a2 == g2 * m1,
    ;
    assert(b == (g * g2) * m2) by (nonlinear_arith)
        requires
            b == g * b2,
            b2 == g2 * m2,
    ;
    assert(divides(g * g2, a));
    assert(divides(g * g2, b));
    lemma_common_divisor_divides_gcd(a, b, g * g2);
    lemma_divides_le(g * g2, g);
    assert(g2 == 1) by (nonlinear_arith)
        requires
            0 < g * g2 <= g,
            g > 0,
            g2 > 0,
    ;
}

/// Least common multiple. When either argument is zero the result is
/// zero: a long-standing convention of this interface, kept bit-for-bit
/// for compatibility rather than redesigned.
pub open spec fn spec_lcm(a: nat, b: nat) -> nat {
    if a == 0 || b == 0 {
        0
    } else {
        (a * b) / spec_gcd(a, b)
    }
}

/// Multiplying one factor by the other's quotient over a common exact
/// divisor is the same as dividing the product: `x * (y / g) == (x * y) / g`.
pub proof fn lemma_mul_div_exact(x: nat, y: nat, g: nat)
    requires
        g > 0,
        divides(g, y),
    ensures
        x * (y / g) == (x * y) / g,
{
    lemma_div_exact(g, y);
    let k = y / g;
    assert(x * y == g * (x * k)) by (nonlinear_arith)
        requires
            y == g * k,
    ;
    lemma_div_multiples_vanish((x * k) as int, g as int);
    assert((x * y) / g == x * k);
}

/// The least common multiple of two positive numbers is a positive common
/// multiple of both: `lcm == a * (b / gcd) == b * (a / gcd)`.
pub proof fn lemma_lcm_is_common_multiple(a: nat, b: nat)
    requires
        a > 0,
        b > 0,
    ensures
        spec_lcm(a, b) == a * (b / spec_gcd(a, b)),
        spec_lcm(a, b) == b * (a / spec_gcd(a, b)),
        divides(a, spec_lcm(a, b)),
        divides(b, spec_lcm(a, b)),
        spec_lcm(a, b) > 0,
{
    let g = spec_gcd(a, b);
    lemma_gcd_zero_iff(a, b);
    lemma_gcd_divides_both(a, b);
    lemma_mul_div_exact(a, b, g);
    lemma_mul_div_exact(b, a, g);
    assert(a * b == b * a) by (nonlinear_arith);
    assert(divides(a, a * (b / g)));
    assert(divides(b, b * (a / g)));
    lemma_div_exact(g, b);
    assert(b / g > 0) by (nonlinear_arith)
        requires
            b == g * (b / g),
            b > 0,
    ;
    assert(a * (b / g) > 0) by (nonlinear_arith)
        requires
            a > 0,
            b / g > 0,
    ;
}

/// The product of the least common multiple and the greatest common
/// divisor of two numbers is the product of the numbers themselves,
/// whenever the greatest common divisor is positive.
pub proof fn lemma_lcm_gcd_product(a: nat, b: nat)
    requires
        spec_gcd(a, b) > 0,
    ensures
        spec_lcm(a, b) * spec_gcd(a, b) == a * b,
{
    let g = spec_gcd(a, b);
    if a == 0 || b == 0 {
        assert(spec_lcm(a, b) * g == 0) by (nonlinear_arith)
            requires
                spec_lcm(a, b) == 0,
        ;
        assert(a * b == 0) by (nonlinear_arith)
            requires
                a == 0 || b == 0,
        ;
    } else {
        lemma_gcd_divides_both(a, b);
        lemma_mul_div_exact(a, b, g);
        lemma_div_exact(g, b);
        assert(spec_lcm(a, b) == a * (b / g));
        assert((a * (b / g)) * g == a * b) by (nonlinear_arith)
            requires
                b == g * (b / g),
        ;
    }
}

/// The least common multiple of a positive number with itself is itself.
pub proof fn lemma_lcm_self(d: nat)
    requires
        d > 0,
    ensures
        spec_gcd(d, d) == d,
        spec_lcm(d, d) == d,
{
    lemma_mod_self_0(d as int);
    lemma_gcd_zero(d);
    assert(spec_gcd(d, d) == spec_gcd(d, d % d));
    lemma_div_multiples_vanish(d as int, d as int);
    assert((d * d) / d == d);
}

/// Greatest common divisor by the Euclidean algorithm: the larger operand
/// is reduced modulo the smaller until one operand reaches zero.
pub fn gcd(x: u64, y: u64) -> (r: u64)
    ensures
        r == spec_gcd(x as nat, y as nat),
{
    let mut a = x;
    let mut b = y;
    if b > a {
        let t = a;
        a = b;
        b = t;
        proof {
            lemma_gcd_symmetric(x as nat, y as nat);
        }
    }

    while b != 0
        invariant
            spec_gcd(a as nat, b as nat) == spec_gcd(x as nat, y as nat),
        decreases b,
    {
        a = a % b;
        let t = a;
        a = b;
        b = t;
    }

    proof {
        lemma_gcd_zero(a as nat);
    }
    a
}

/// Least common multiple, computed as `larger * (smaller / gcd)`.
/// With a zero operand the result is zero — the compatibility quirk
/// recorded in [`spec_lcm`].
pub fn lcm(x: u64, y: u64) -> (r: u64)
    requires
        spec_lcm(x as nat, y as nat) <= u64::MAX,
    ensures
        r == spec_lcm(x as nat, y as nat),
{
    let mut a = x;
    let mut b = y;
    if b > a {
        let t = a;
        a = b;
        b = t;
        proof {
            lemma_gcd_symmetric(x as nat, y as nat);
            assert(x as nat * y as nat == y as nat * x as nat) by (nonlinear_arith);
        }
    }

    if b == 0 {
        0
    } else {
        let g = gcd(a, b);
        proof {
            lemma_gcd_zero_iff(a as nat, b as nat);
            lemma_lcm_is_common_multiple(a as nat, b as nat);
        }
        a * (b / g)
    }
}

/// The distinguished fault for a definedness error: an operation met a
/// value whose reduction would divide by a zero greatest common divisor,
/// which happens exactly on the value `0/0`.
#[derive(Clone, Copy, PartialEq, Eq, Structural, Debug)]
pub enum ArithmeticFault {
    ZeroGcd,
}

/// A rational with both fields divided by their greatest common divisor.
/// On `0/0` (and only there) the divisor is zero and the value is left
/// as it stands.
pub open spec fn reduce_spec(v: Rational) -> Rational {
    let g = spec_gcd(v.numerator as nat, v.denominator as nat);
    if g == 0 {
        v
    } else {
        Rational {
            numerator: (v.numerator as nat / g) as u64,
            denominator: (v.denominator as nat / g) as u64,
        }
    }
}

/// Reduces a rational to lowest terms in place, dividing both fields by
/// their greatest common divisor.
///
/// The one undefined input is `0/0`, whose greatest common divisor is
/// zero: that input is reported as an explicit [`ArithmeticFault`] and
/// the value is left untouched, rather than dividing by zero.
pub fn normalize_one(x: &mut Rational) -> (r: Result<(), ArithmeticFault>)
    ensures
        r is Ok <==> !(old(x).numerator == 0 && old(x).denominator == 0),
        *final(x) == reduce_spec(*old(x)),
        r is Ok ==> spec_gcd(final(x).numerator as nat, final(x).denominator as nat) == 1,
        old(x).denominator != 0 ==> final(x).denominator != 0,
{
    let g = gcd(x.numerator, x.denominator);
    proof {
        lemma_gcd_zero_iff(x.numerator as nat, x.denominator as nat);
    }
    if g == 0 {
        return Err(ArithmeticFault::ZeroGcd);
    }
    proof {
        lemma_gcd_quotients_coprime(x.numerator as nat, x.denominator as nat);
        lemma_gcd_divides_both(x.numerator as nat, x.denominator as nat);
        if x.denominator != 0 {
            lemma_div_exact(g as nat, x.denominator as nat);
            assert(x.denominator as nat / g as nat > 0) by (nonlinear_arith)
                requires
                    x.denominator as nat == g as nat * (x.denominator as nat / g as nat),
                    x.denominator as nat > 0,
            ;
        }
    }
    x.numerator = x.numerator / g;
    x.denominator = x.denominator / g;
    Ok(())
}

/// The exact effect of bringing two rationals onto a common denominator:
/// a no-op when the denominators already agree, and otherwise each
/// operand whose denominator differs from the least common multiple is
/// scaled up to it. Neither operand is reduced to lowest terms.
pub open spec fn aligned_spec(x: Rational, y: Rational, x2: Rational, y2: Rational) -> bool {
    if x.denominator == y.denominator {
        x2 == x && y2 == y
    } else {
        let l = spec_lcm(x.denominator as nat, y.denominator as nat);
        &&& (l == x.denominator as nat ==> x2 == x)
        &&& (l != x.denominator as nat ==> x2.numerator as nat == x.numerator as nat * (l
            / x.denominator as nat) && x2.denominator as nat == l)
        &&& (l == y.denominator as nat ==> y2 == y)
        &&& (l != y.denominator as nat ==> y2.numerator as nat == y.numerator as nat * (l
            / y.denominator as nat) && y2.denominator as nat == l)
    }
}

/// Brings two rationals onto a common denominator, the least common
/// multiple of their denominators, without reducing either to lowest
/// terms. Operands already sharing a denominator are left untouched.
pub fn normalize_two(x: &mut Rational, y: &mut Rational)
    requires
        old(x).denominator != old(y).denominator ==> spec_lcm(
            old(x).denominator as nat,
            old(y).denominator as nat,
        ) <= u64::MAX,
        old(x).denominator != old(y).denominator ==> old(x).numerator as nat * (spec_lcm(
            old(x).denominator as nat,
            old(y).denominator as nat,
        ) / old(x).denominator as nat) <= u64::MAX,
        old(x).denominator != old(y).denominator ==> old(y).numerator as nat * (spec_lcm(
            old(x).denominator as nat,
            old(y).denominator as nat,
        ) / old(y).denominator as nat) <= u64::MAX,
    ensures
        aligned_spec(*old(x), *old(y), *final(x), *final(y)),
{
    let dx = x.denominator;
    let dy = y.denominator;
    if dx == dy {
        return;
    }

    let l = lcm(dx, dy);

    if l != x.denominator {
        proof {
            if x.denominator == 0 {
                assert(spec_lcm(dx as nat, dy as nat) == 0);
                assert(false);
            }
        }
        let factor = l / x.denominator;
        x.numerator = x.numerator * factor;
        x.denominator = l;
    }

    if l != y.denominator {
        proof {
            if y.denominator == 0 {
                assert(spec_lcm(dx as nat, dy as nat) == 0);
                assert(false);
            }
        }
        let factor = l / y.denominator;
        y.numerator = y.numerator * factor;
        y.denominator = l;
    }
}

/// The numerator of the sum of two rationals with positive denominators,
/// taken over their common denominator [`spec_lcm`] before any reduction.
pub open spec fn sum_numerator(x: Rational, y: Rational) -> nat {
    let l = spec_lcm(x.denominator as nat, y.denominator as nat);
    x.numerator as nat * (l / x.denominator as nat) + y.numerator as nat * (l
        / y.denominator as nat)
}

/// The exact relation between two summands and the result of [`add`]:
/// a zero denominator on either side yields the canonical default, and
/// otherwise the result is the aligned numerator sum over the common
/// denominator, reduced to lowest terms.
pub open spec fn sum_spec(x: Rational, y: Rational, r: Rational) -> bool {
    if x.denominator == 0 || y.denominator == 0 {
        r == canonical_default()
    } else {
        let l = spec_lcm(x.denominator as nat, y.denominator as nat);
        let s = sum_numerator(x, y);
        let g = spec_gcd(s, l);
        r.numerator as nat == s / g && r.denominator as nat == l / g
    }
}

/// Both denominators positive: the denominators each divide their least
/// common multiple exactly, and scaling by the quotient reaches it.
proof fn lemma_alignment_factors(x: Rational, y: Rational)
    requires
        x.denominator != 0,
        y.denominator != 0,
    ensures
        spec_lcm(x.denominator as nat, y.denominator as nat) > 0,
        ({
            let l = spec_lcm(x.denominator as nat, y.denominator as nat);
            &&& x.denominator as nat * (l / x.denominator as nat) == l
            &&& y.denominator as nat * (l / y.denominator as nat) == l
            &&& (l == x.denominator as nat ==> l / x.denominator as nat == 1)
            &&& (l == y.denominator as nat ==> l / y.denominator as nat == 1)
            &&& (x.denominator == y.denominator ==> l == x.denominator as nat)
        }),
{
    let dx = x.denominator as nat;
    let dy = y.denominator as nat;
    let l = spec_lcm(dx, dy);
    if dx == dy {
        lemma_lcm_self(dx);
    }
    lemma_lcm_is_common_multiple(dx, dy);
    lemma_div_exact(dx, l);
    lemma_div_exact(dy, l);
    if l == dx {
        assert(l / dx == 1) by (nonlinear_arith)
            requires
                l == dx * (l / dx),
                l == dx,
                dx > 0,
        ;
    }
    if l == dy {
        assert(l / dy == 1) by (nonlinear_arith)
            requires
                l == dy * (l / dy),
                l == dy,
                dy > 0,
        ;
    }
}

/// Adds two rationals: if either denominator is zero the operation is
/// undefined and the canonical default `0/1` is returned (the documented
/// silent-default policy of the interface). Otherwise the operands are
/// brought onto their common denominator, the numerators are summed, and
/// the result is fully reduced. The result is always in lowest terms.
pub fn add(x: &Rational, y: &Rational) -> (r: Rational)
    requires
        x.denominator != 0 && y.denominator != 0 ==> spec_lcm(
            x.denominator as nat,
            y.denominator as nat,
        ) <= u64::MAX,
        x.denominator != 0 && y.denominator != 0 ==> sum_numerator(*x, *y) <= u64::MAX,
    ensures
        sum_spec(*x, *y, r),
        r.denominator > 0,
        spec_gcd(r.numerator as nat, r.denominator as nat) == 1,
{
    if x.denominator == 0 || y.denominator == 0 {
        proof {
            lemma_gcd_zero(1);
        }
        return Rational::default();
    }

    let mut a = *x;
    let mut b = *y;
    proof {
        lemma_alignment_factors(*x, *y);
    }
    normalize_two(&mut a, &mut b);

    let ghost l = spec_lcm(x.denominator as nat, y.denominator as nat);
    proof {
        assert(a.numerator as nat == x.numerator as nat * (l / x.denominator as nat)
            && a.denominator as nat == l) by {
            if x.denominator as nat == l {
                assert(x.numerator as nat * 1 == x.numerator as nat) by (nonlinear_arith);
            }
        }
        assert(b.numerator as nat == y.numerator as nat * (l / y.denominator as nat)) by {
            if y.denominator as nat == l {
                assert(y.numerator as nat * 1 == y.numerator as nat) by (nonlinear_arith);
            }
        }
    }

    let mut ret = Rational::new(a.numerator + b.numerator, a.denominator);
    let _ = normalize_one(&mut ret);
    ret
}

/// Adds two rationals without any precondition: where the intermediate
/// values of [`add`] — the common denominator or the aligned numerator
/// sum — would not fit in the field width, `None` is returned instead of
/// a wrong answer; everywhere else the result is exactly that of [`add`].
pub fn checked_add(x: &Rational, y: &Rational) -> (r: Option<Rational>)
    ensures
        r is Some <==> (x.denominator == 0 || y.denominator == 0 || (spec_lcm(
            x.denominator as nat,
            y.denominator as nat,
        ) <= u64::MAX && sum_numerator(*x, *y) <= u64::MAX)),
        r matches Some(v) ==> sum_spec(*x, *y, v) && v.denominator > 0 && spec_gcd(
            v.numerator as nat,
            v.denominator as nat,
        ) == 1,
{
    if x.denominator == 0 || y.denominator == 0 {
        return Some(crate::engine::add(x, y));
    }

    let ghost dx = x.denominator as nat;
    let ghost dy = y.denominator as nat;
    proof {
        lemma_alignment_factors(*x, *y);
        if dx == dy {
            lemma_lcm_self(dx);
        } else {
            lemma_gcd_zero_iff(dx, dy);
            lemma_gcd_divides_both(dx, dy);
            lemma_mul_div_exact(dx, dy, spec_gcd(dx, dy));
        }
    }
    let g = gcd(x.denominator, y.denominator);
    let l = match x.denominator.checked_mul(y.denominator / g) {
        Some(l) => l,
        None => {
            return None;
        },
    };

    let fx = l / x.denominator;
    let fy = l / y.denominator;
    let t1 = match x.numerator.checked_mul(fx) {
        Some(t) => t,
        None => {
            return None;
        },
    };
    let t2 = match y.numerator.checked_mul(fy) {
        Some(t) => t,
        None => {
            return None;
        },
    };
    match t1.checked_add(t2) {
        Some(_) => Some(crate::engine::add(x, y)),
        None => None,
    }
}

/// Reducing a value to lowest terms does not change the rational it
/// represents: the cross products of the value before and after agree.
pub proof fn lemma_reduce_preserves_value(v: Rational)
    ensures
        reduce_spec(v).numerator as nat * v.denominator as nat == v.numerator as nat * reduce_spec(
            v,
        ).denominator as nat,
{
    let n = v.numerator as nat;
    let d = v.denominator as nat;
    let g = spec_gcd(n, d);
    if g != 0 {
        lemma_gcd_divides_both(n, d);
        lemma_div_exact(g, n);
        lemma_div_exact(g, d);
        assert((n / g) * d == n * (d / g)) by (nonlinear_arith)
            requires
                n == g * (n / g),
                d == g * (d / g),
                g > 0,
        ;
    }
}

/// Adding two rationals with positive denominators yields the true
/// rational sum: the reduced result and the cross-multiplied sum of the
/// operands agree as cross products.
pub proof fn lemma_add_preserves_value(x: Rational, y: Rational, r: Rational)
    requires
        x.denominator != 0,
        y.denominator != 0,
        sum_spec(x, y, r),
    ensures
        r.numerator as nat * (x.denominator as nat * y.denominator as nat) == (x.numerator as nat
            * y.denominator as nat + y.numerator as nat * x.denominator as nat)
            * r.denominator as nat,
{
    let dx = x.denominator as nat;
    let dy = y.denominator as nat;
    let nx = x.numerator as nat;
    let ny = y.numerator as nat;
    let l = spec_lcm(dx, dy);
    let s = sum_numerator(x, y);
    let g = spec_gcd(s, l);
    lemma_alignment_factors(x, y);
    let fx = l / dx;
    let fy = l / dy;
    assert(s * (dx * dy) == (nx * dy + ny * dx) * l) by (nonlinear_arith)
        requires
            s == nx * fx + ny * fy,
            dx * fx == l,
            dy * fy == l,
    ;
    lemma_gcd_zero_iff(s, l);
    lemma_gcd_divides_both(s, l);
    lemma_div_exact(g, s);
    lemma_div_exact(g, l);
    assert((s / g) * (dx * dy) * g == ((nx * dy + ny * dx) * (l / g)) * g) by (nonlinear_arith)
        requires
            s == g * (s / g),
            l == g * (l / g),
            s * (dx * dy) == (nx * dy + ny * dx) * l,
    ;
    assert((s / g) * (dx * dy) == (nx * dy + ny * dx) * (l / g)) by (nonlinear_arith)
        requires
            (s / g) * (dx * dy) * g == ((nx * dy + ny * dx) * (l / g)) * g,
            g > 0,
    ;
}

/// Reducing a value to lowest terms is idempotent: normalizing an
/// already-normalized value yields the same value. This also covers the
/// faulting input `0/0`, which is left unchanged both times.
pub proof fn lemma_reduce_idempotent(v: Rational)
    ensures
        reduce_spec(reduce_spec(v)) == reduce_spec(v),
{
    let n = v.numerator as nat;
    let d = v.denominator as nat;
    let g = spec_gcd(n, d);
    lemma_gcd_zero_iff(n, d);
    if g != 0 {
        lemma_gcd_quotients_coprime(n, d);
        let w = reduce_spec(v);
        assert(spec_gcd(w.numerator as nat, w.denominator as nat) == 1);
        assert(w.numerator as nat / 1 == w.numerator as nat);
        assert(w.denominator as nat / 1 == w.denominator as nat);
    }
}

} // verus!
