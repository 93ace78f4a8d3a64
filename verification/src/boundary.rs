//! The boundary surface: the fixed set of entry points through which an
//! independently built caller uses the engine.
//!
//! The surface is deliberately forgiving. An absent operand stands for
//! the canonical default rather than faulting, an output slot the caller
//! did not supply is skipped, and the engine's one definedness fault is
//! collapsed back to "leave the value alone" — explicit policies, stated
//! in each contract.

use vstd::prelude::*;
use crate::value::{Rational, canonical_default};
use crate::engine::{sum_spec, sum_numerator, spec_lcm, spec_gcd, reduce_spec};

verus! {

/// Major component of the interface version, fixed when the artifact is built.
pub const VERSION_MAJOR: i32 = 0;

/// Minor component of the interface version.
pub const VERSION_MINOR: i32 = 1;

/// Patch component of the interface version.
pub const VERSION_PATCH: i32 = 0;

/// The value an optional operand stands for: the operand itself where one
/// was passed, the canonical default `0/1` where none was.
pub open spec fn operand_or_default(p: Option<&Rational>) -> Rational {
    match p {
        Some(r) => *r,
        None => canonical_default(),
    }
}

/// An absent operand stands for exactly the canonical default, so adding
/// with a missing operand and adding with an explicit `0/1` are one and
/// the same operation.
pub proof fn lemma_absent_operand_is_default(b: Rational, r: Rational)
    ensures
        operand_or_default(None) == canonical_default(),
        sum_spec(operand_or_default(None), b, r) == sum_spec(canonical_default(), b, r),
{
}

/// Writes the three components of the interface version into the
/// caller-supplied output slots. A slot holding `None` stands for an
/// output the caller did not provide; it is skipped, never a fault.
pub fn get_version(major: &mut Option<i32>, minor: &mut Option<i32>, patch: &mut Option<i32>)
    ensures
        (*old(major)) is Some ==> *final(major) == Some(VERSION_MAJOR),
        (*old(major)) is None ==> *final(major) == None::<i32>,
        (*old(minor)) is Some ==> *final(minor) == Some(VERSION_MINOR),
        (*old(minor)) is None ==> *final(minor) == None::<i32>,
        (*old(patch)) is Some ==> *final(patch) == Some(VERSION_PATCH),
        (*old(patch)) is None ==> *final(patch) == None::<i32>,
{
    if major.is_some() {
        *major = Some(VERSION_MAJOR);
    }
    if minor.is_some() {
        *minor = Some(VERSION_MINOR);
    }
    if patch.is_some() {
        *patch = Some(VERSION_PATCH);
    }
}

/// Reports how the artifact was built: nonzero for dynamic linkage, zero
/// for a static archive. Rather than baking the choice in as a hidden
/// compile-time switch, the build configuration is an explicit parameter,
/// so the answer is consistent with the configuration by contract.
pub fn is_dynamically_linked(link_static: bool) -> (r: i32)
    ensures
        link_static ==> r == 0,
        !link_static ==> r == 1,
        (r != 0) <==> !link_static,
{
    if link_static {
        0
    } else {
        1
    }
}

/// Adds two optional rationals, substituting the canonical default for an
/// absent operand, and returns the fully reduced sum by value.
pub fn add_rationals(a: Option<&Rational>, b: Option<&Rational>) -> (r: Rational)
    requires
        ({
            let x = operand_or_default(a);
            let y = operand_or_default(b);
            x.denominator != 0 && y.denominator != 0 ==> spec_lcm(
                x.denominator as nat,
                y.denominator as nat,
            ) <= u64::MAX && sum_numerator(x, y) <= u64::MAX
        }),
    ensures
        sum_spec(operand_or_default(a), operand_or_default(b), r),
        r.denominator > 0,
        spec_gcd(r.numerator as nat, r.denominator as nat) == 1,
{
    let x = match a {
        Some(r) => *r,
        None => Rational::default(),
    };
    let y = match b {
        Some(r) => *r,
        None => Rational::default(),
    };
    crate::engine::add(&x, &y)
}

/// Normalizes the caller's rational in place. The engine reports the one
/// undefined input `0/0` as an explicit fault; the boundary collapses
/// that fault to "leave the value unchanged" for compatibility.
pub fn normalize_rational(r: &mut Rational)
    ensures
        *final(r) == reduce_spec(*old(r)),
{
    let _ = crate::engine::normalize_one(r);
}

} // verus!
