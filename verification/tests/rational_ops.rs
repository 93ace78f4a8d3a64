use rational::engine::{self, ArithmeticFault};
use rational::value::Rational;
use rational::{api, boundary};

#[test]
fn gcd_is_symmetric_and_divides() {
    let g = engine::gcd(12, 18);
    assert_eq!(g, 6);
    assert_eq!(engine::gcd(18, 12), 6);
    assert_eq!(12 % g, 0);
    assert_eq!(18 % g, 0);
    assert_eq!(engine::gcd(35, 21), engine::gcd(21, 35));
}

#[test]
fn gcd_with_zero() {
    assert_eq!(engine::gcd(7, 0), 7);
    assert_eq!(engine::gcd(0, 7), 7);
    assert_eq!(engine::gcd(0, 0), 0);
}

#[test]
fn gcd_of_coprime_values() {
    assert_eq!(engine::gcd(9, 16), 1);
    assert_eq!(engine::gcd(1, 1), 1);
}

#[test]
fn lcm_times_gcd_is_product() {
    assert_eq!(engine::lcm(4, 6), 12);
    assert_eq!(engine::lcm(6, 4), 12);
    assert_eq!(engine::lcm(4, 6) * engine::gcd(4, 6), 4 * 6);
    assert_eq!(engine::lcm(7, 7), 7);
}

#[test]
fn lcm_with_zero_is_zero() {
    // The interface's compatibility quirk: a zero operand yields zero.
    assert_eq!(engine::lcm(5, 0), 0);
    assert_eq!(engine::lcm(0, 5), 0);
    assert_eq!(engine::lcm(0, 0), 0);
}

#[test]
fn normalize_one_reduces_to_lowest_terms() {
    let mut r = Rational::new(22, 128);
    let res = engine::normalize_one(&mut r);
    assert!(res.is_ok());
    assert_eq!(r, Rational::new(11, 64));
}

#[test]
fn normalize_one_faults_on_zero_over_zero() {
    let mut r = Rational::new(0, 0);
    let res = engine::normalize_one(&mut r);
    assert_eq!(res, Err(ArithmeticFault::ZeroGcd));
    assert_eq!(r, Rational::new(0, 0));
}

#[test]
fn normalize_one_of_zero_is_canonical() {
    let mut r = Rational::new(0, 5);
    assert!(engine::normalize_one(&mut r).is_ok());
    assert_eq!(r, Rational::new(0, 1));
}

#[test]
fn normalize_two_aligns_denominators() {
    let mut x = Rational::new(1, 2);
    let mut y = Rational::new(1, 3);
    engine::normalize_two(&mut x, &mut y);
    assert_eq!(x, Rational::new(3, 6));
    assert_eq!(y, Rational::new(2, 6));
}

#[test]
fn normalize_two_keeps_shared_denominator() {
    let mut x = Rational::new(5, 8);
    let mut y = Rational::new(7, 8);
    engine::normalize_two(&mut x, &mut y);
    assert_eq!(x, Rational::new(5, 8));
    assert_eq!(y, Rational::new(7, 8));
}

#[test]
fn normalize_two_scales_only_the_smaller_denominator() {
    let mut x = Rational::new(1, 4);
    let mut y = Rational::new(1, 2);
    engine::normalize_two(&mut x, &mut y);
    assert_eq!(x, Rational::new(1, 4));
    assert_eq!(y, Rational::new(2, 4));
}

#[test]
fn add_reduces_result() {
    // 41/64 + 11/64 = 52/64, reduced by gcd 4 to 13/16.
    let x = Rational::new(41, 64);
    let y = Rational::new(11, 64);
    assert_eq!(engine::add(&x, &y), Rational::new(13, 16));
}

#[test]
fn add_with_unequal_denominators() {
    // 1/2 + 1/3 = 5/6; 1/2 + 1/2 = 1/1.
    assert_eq!(
        engine::add(&Rational::new(1, 2), &Rational::new(1, 3)),
        Rational::new(5, 6)
    );
    assert_eq!(
        engine::add(&Rational::new(1, 2), &Rational::new(1, 2)),
        Rational::new(1, 1)
    );
}

#[test]
fn add_with_zero_denominator_yields_default() {
    let x = Rational::new(1, 0);
    let y = Rational::new(1, 2);
    assert_eq!(engine::add(&x, &y), Rational::default());
    assert_eq!(engine::add(&y, &x), Rational::new(0, 1));
}

#[test]
fn checked_add_agrees_with_add() {
    let x = Rational::new(41, 64);
    let y = Rational::new(11, 64);
    assert_eq!(engine::checked_add(&x, &y), Some(Rational::new(13, 16)));
    let z = Rational::new(1, 0);
    assert_eq!(engine::checked_add(&z, &y), Some(Rational::new(0, 1)));
}

#[test]
fn checked_add_reports_overflow() {
    // The aligned numerator u64::MAX * 3 cannot fit in the field width.
    let x = Rational::new(u64::MAX, 2);
    let y = Rational::new(1, 3);
    assert_eq!(engine::checked_add(&x, &y), None);
}

#[test]
fn absent_operand_behaves_as_canonical_default() {
    let y = Rational::new(11, 64);
    let explicit = boundary::add_rationals(Some(&Rational::new(0, 1)), Some(&y));
    let absent = boundary::add_rationals(None, Some(&y));
    assert_eq!(absent, explicit);
    assert_eq!(absent, Rational::new(11, 64));
    assert_eq!(
        boundary::add_rationals(None, None),
        Rational::new(0, 1)
    );
}

#[test]
fn normalize_rational_is_idempotent() {
    let mut r = Rational::new(22, 128);
    boundary::normalize_rational(&mut r);
    assert_eq!(r, Rational::new(11, 64));
    boundary::normalize_rational(&mut r);
    assert_eq!(r, Rational::new(11, 64));
}

#[test]
fn normalize_rational_leaves_undefined_value_alone() {
    let mut r = Rational::new(0, 0);
    boundary::normalize_rational(&mut r);
    assert_eq!(r, Rational::new(0, 0));
}

#[test]
fn get_version_fills_supplied_slots() {
    let mut major = Some(-1);
    let mut minor = Some(-1);
    let mut patch = Some(-1);
    boundary::get_version(&mut major, &mut minor, &mut patch);
    assert_eq!(major, Some(boundary::VERSION_MAJOR));
    assert_eq!(minor, Some(boundary::VERSION_MINOR));
    assert_eq!(patch, Some(boundary::VERSION_PATCH));
}

#[test]
fn get_version_skips_missing_slots() {
    let mut major = Some(-1);
    let mut minor = None;
    let mut patch = Some(-1);
    boundary::get_version(&mut major, &mut minor, &mut patch);
    assert_eq!(major, Some(boundary::VERSION_MAJOR));
    assert_eq!(minor, None);
    assert_eq!(patch, Some(boundary::VERSION_PATCH));
}

#[test]
fn link_kind_is_consistent_with_build_configuration() {
    assert_eq!(boundary::is_dynamically_linked(true), 0);
    assert_eq!(boundary::is_dynamically_linked(false), 1);
    assert!(!api::is_dynamically_linked(true));
    assert!(api::is_dynamically_linked(false));
    assert_eq!(
        api::is_dynamically_linked(true),
        boundary::is_dynamically_linked(true) != 0
    );
    assert_eq!(
        api::is_dynamically_linked(false),
        boundary::is_dynamically_linked(false) != 0
    );
}

#[test]
fn api_version_is_the_interface_version() {
    assert_eq!(
        api::version(),
        (
            boundary::VERSION_MAJOR,
            boundary::VERSION_MINOR,
            boundary::VERSION_PATCH
        )
    );
}

#[test]
fn api_add_and_normalize_pass_through() {
    let x = Rational::new(41, 64);
    let mut y = Rational::new(22, 128);
    api::normalize(&mut y);
    assert_eq!(y, Rational::new(11, 64));
    let mut sum = api::add(&x, &y);
    api::normalize(&mut sum);
    assert_eq!(sum, Rational::new(13, 16));
}

#[test]
fn render_is_numerator_slash_denominator() {
    assert_eq!(Rational::new(22, 7).render(), "22/7");
    assert_eq!(Rational::default().render(), "0/1");
    assert_eq!(Rational::new(1234567890, 0).render(), "1234567890/0");
}

#[test]
fn add_result_equals_true_sum_by_cross_products() {
    // 3/4 + 5/6 = 19/12, already in lowest terms.
    let x = Rational::new(3, 4);
    let y = Rational::new(5, 6);
    let r = rational::engine::add(&x, &y);
    assert_eq!(r, Rational::new(19, 12));
    assert_eq!(r.numerator * (4 * 6), (3 * 6 + 5 * 4) * r.denominator);
}

#[test]
fn normalize_preserves_represented_value() {
    let mut r = Rational::new(22, 128);
    boundary::normalize_rational(&mut r);
    assert_eq!(r.numerator * 128, 22 * r.denominator);
}

#[test]
fn new_stores_fields_unvalidated() {
    let r = Rational::new(3, 0);
    assert_eq!(r.numerator, 3);
    assert_eq!(r.denominator, 0);
}
