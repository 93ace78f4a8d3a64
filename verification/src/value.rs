//! The rational value type: two unsigned fields, a validating-nothing
//! constructor, and a canonical default.

use vstd::prelude::*;
use vstd::string::StringExecFns;

verus! {

/// The character for one decimal digit.
pub open spec fn digit_char(d: nat) -> char {
    if d == 0 {
        '0'
    } else if d == 1 {
        '1'
    } else if d == 2 {
        '2'
    } else if d == 3 {
        '3'
    } else if d == 4 {
        '4'
    } else if d == 5 {
        '5'
    } else if d == 6 {
        '6'
    } else if d == 7 {
        '7'
    } else if d == 8 {
        '8'
    } else {
        '9'
    }
}

/// The decimal digits of `n`, most significant first, with no leading
/// zero except for `n == 0` itself.
pub open spec fn decimal_digits(n: nat) -> Seq<char>
    decreases n,
{
    if n < 10 {
        seq![digit_char(n)]
    } else {
        decimal_digits(n / 10).push(digit_char(n % 10))
    }
}

/// A rational number as a numerator/denominator pair.
///
/// No invariant is imposed at construction: any pair of unsigned values,
/// including a zero denominator, is representable. The operations that
/// reduce a value to lowest terms live in [`crate::engine`].
#[derive(Clone, Copy, PartialEq, Eq, Structural, Debug)]
pub struct Rational {
    pub numerator: u64,
    pub denominator: u64,
}

/// The canonical "zero" `0/1`, used as the sentinel result for
/// undefined operations.
pub open spec fn canonical_default() -> Rational {
    Rational { numerator: 0, denominator: 1 }
}

impl Rational {
    /// Builds a rational from its two fields, with no validation.
    pub fn new(numerator: u64, denominator: u64) -> (r: Self)
        ensures
            r.numerator == numerator,
            r.denominator == denominator,
    {
        Rational { numerator, denominator }
    }
}

/// The string for one decimal digit.
fn digit_str(d: u64) -> (s: &'static str)
    requires
        d < 10,
    ensures
        s@ == seq![digit_char(d as nat)],
{
    proof {
        reveal_strlit("0");
        reveal_strlit("1");
        reveal_strlit("2");
        reveal_strlit("3");
        reveal_strlit("4");
        reveal_strlit("5");
        reveal_strlit("6");
        reveal_strlit("7");
        reveal_strlit("8");
        reveal_strlit("9");
    }
    let s = if d == 0 {
        "0"
    } else if d == 1 {
        "1"
    } else if d == 2 {
        "2"
    } else if d == 3 {
        "3"
    } else if d == 4 {
        "4"
    } else if d == 5 {
        "5"
    } else if d == 6 {
        "6"
    } else if d == 7 {
        "7"
    } else if d == 8 {
        "8"
    } else {
        "9"
    };
    proof {
        assert(s@ =~= seq![digit_char(d as nat)]);
    }
    s
}

/// Appends the decimal rendering of `n` to `out`.
fn push_decimal(n: u64, out: &mut String)
    ensures
        final(out)@ == old(out)@ + decimal_digits(n as nat),
    decreases n,
{
    if n >= 10 {
        push_decimal(n / 10, out);
    }
    out.append(digit_str(n % 10));
    proof {
        if n < 10 {
            assert(old(out)@ + seq![digit_char(n as nat % 10)] =~= old(out)@ + decimal_digits(
                n as nat,
            ));
        } else {
            assert(old(out)@ + decimal_digits(n as nat / 10) + seq![digit_char(n as nat % 10)]
                =~= old(out)@ + decimal_digits(n as nat));
        }
    }
}

impl Rational {
    /// The human-readable rendering `"N/D"`, used for diagnostics and
    /// never parsed back.
    pub fn render(&self) -> (s: String)
        ensures
            s@ == decimal_digits(self.numerator as nat) + seq!['/'] + decimal_digits(
                self.denominator as nat,
            ),
    {
        let mut out = String::new();
        push_decimal(self.numerator, &mut out);
        out.append("/");
        push_decimal(self.denominator, &mut out);
        proof {
            reveal_strlit("/");
            assert(Seq::<char>::empty() + decimal_digits(self.numerator as nat) + "/"@
                + decimal_digits(self.denominator as nat) =~= decimal_digits(
                self.numerator as nat,
            ) + seq!['/'] + decimal_digits(self.denominator as nat));
        }
        out
    }
}

impl Default for Rational {
    /// The canonical default value `0/1`.
    fn default() -> (r: Self)
        ensures
            r == canonical_default(),
    {
        Rational::new(0, 1)
    }
}

} // verus!
