//! The consumer wrapper: a thin, safe API over the boundary surface.
//! Every function is a direct, allocation-free pass-through; none retain
//! state between calls.

use vstd::prelude::*;
use crate::value::Rational;
use crate::boundary::{VERSION_MAJOR, VERSION_MINOR, VERSION_PATCH, operand_or_default};
use crate::engine::{sum_spec, sum_numerator, spec_lcm, spec_gcd, reduce_spec};

verus! {

/// Returns the version triple of the linked interface.
pub fn version() -> (r: (i32, i32, i32))
    ensures
        r == (VERSION_MAJOR, VERSION_MINOR, VERSION_PATCH),
{
    let mut major: Option<i32> = Some(0);
    let mut minor: Option<i32> = Some(0);
    let mut patch: Option<i32> = Some(0);
    crate::boundary::get_version(&mut major, &mut minor, &mut patch);
    (major.unwrap(), minor.unwrap(), patch.unwrap())
}

/// Returns `true` when the artifact was built for dynamic linkage,
/// `false` for a static archive — consistent, by contract, with the
/// explicit build configuration and with the boundary's numeric answer.
pub fn is_dynamically_linked(link_static: bool) -> (r: bool)
    ensures
        r <==> !link_static,
{
    crate::boundary::is_dynamically_linked(link_static) != 0
}

/// Adds the given rationals, returning the fully reduced sum; a zero
/// denominator on either side yields the canonical default `0/1`.
pub fn add(x: &Rational, y: &Rational) -> (r: Rational)
    requires
        x.denominator != 0 && y.denominator != 0 ==> spec_lcm(
            x.denominator as nat,
            y.denominator as nat,
        ) <= u64::MAX && sum_numerator(*x, *y) <= u64::MAX,
    ensures
        sum_spec(*x, *y, r),
        r.denominator > 0,
        spec_gcd(r.numerator as nat, r.denominator as nat) == 1,
{
    crate::boundary::add_rationals(Some(x), Some(y))
}

/// Normalizes the given rational in place; the undefined input `0/0` is
/// left unchanged.
pub fn normalize(x: &mut Rational)
    ensures
        *final(x) == reduce_spec(*old(x)),
{
    crate::boundary::normalize_rational(x);
}

} // verus!
