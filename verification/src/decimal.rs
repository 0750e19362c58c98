//! Prices with exactly two fractional digits, held as a count of hundredths.

use vstd::prelude::*;
use core::cmp::Ordering;
use vstd::std_specs::cmp::PartialOrdSpecImpl;
use crate::error::FeedError;
use crate::text::{decimal_digits, digit_char, digit_to_char, push_decimal};

verus! {

/// Hundredths in one whole unit.
pub const SCALE: i64 = 100;

/// The quotient of `a` by `b` rounded toward zero.
pub open spec fn trunc_div(a: int, b: int) -> int
    recommends
        b != 0,
{
    if a >= 0 && b > 0 {
        a / b
    } else if a < 0 && b > 0 {
        -((-a) / b)
    } else if a >= 0 && b < 0 {
        -(a / (-b))
    } else {
        (-a) / (-b)
    }
}

/// The magnitude of `x`.
pub open spec fn magnitude(x: int) -> nat {
    if x < 0 {
        (-x) as nat
    } else {
        x as nat
    }
}

/// How a count of hundredths is written: a minus sign where it is negative,
/// the whole units without leading zeros, a point, and two digits.
pub open spec fn decimal_text(raw: int) -> Seq<char> {
    let m = magnitude(raw);
    let sign = if raw < 0 {
        seq!['-']
    } else {
        Seq::<char>::empty()
    };
    sign + decimal_digits(m / 100).push('.').push(digit_char(((m / 10) % 10) as int)).push(
        digit_char((m % 10) as int),
    )
}

/// A fixed-point quantity with two fractional digits: `1.23` is held as the
/// 123 hundredths it counts.  Equality and order are those of the count.
#[derive(Clone, Copy, Debug, PartialEq, Eq, Ord, Hash, Structural)]
pub struct FixedPoint(i64);

impl PartialOrd for FixedPoint {
    /// The order of two values is the order of their counts.
    fn partial_cmp(&self, other: &FixedPoint) -> (r: Option<Ordering>) {
        if self.0 < other.0 {
            Some(Ordering::Less)
        } else if self.0 > other.0 {
            Some(Ordering::Greater)
        } else {
            Some(Ordering::Equal)
        }
    }
}

impl PartialOrdSpecImpl for FixedPoint {
    open spec fn obeys_partial_cmp_spec() -> bool {
        true
    }

    open spec fn partial_cmp_spec(&self, other: &FixedPoint) -> Option<Ordering> {
        if self@ < other@ {
            Some(Ordering::Less)
        } else if self@ > other@ {
            Some(Ordering::Greater)
        } else {
            Some(Ordering::Equal)
        }
    }
}

impl View for FixedPoint {
    type V = int;

    /// The count of hundredths.
    closed spec fn view(&self) -> int {
        self.0 as int
    }
}

impl FixedPoint {
    /// The value of `value` hundredths; nothing is rounded.
    pub fn from_int(value: i64) -> (r: FixedPoint)
        ensures
            r@ == value,
    {
        FixedPoint(value)
    }

    /// The count of hundredths.
    pub fn raw(self) -> (r: i64)
        ensures
            r == self@,
    {
        self.0
    }

    /// The exact sum.  The sum has to fit the 64-bit count: overflow is a
    /// known limit of the type and is not guarded against.
    pub fn add(self, other: FixedPoint) -> (r: FixedPoint)
        requires
            i64::MIN <= self@ + other@ <= i64::MAX,
        ensures
            r@ == self@ + other@,
    {
        FixedPoint(self.0 + other.0)
    }

    /// The exact difference, under the same limit as the sum.
    pub fn sub(self, other: FixedPoint) -> (r: FixedPoint)
        requires
            i64::MIN <= self@ - other@ <= i64::MAX,
        ensures
            r@ == self@ - other@,
    {
        FixedPoint(self.0 - other.0)
    }

    /// The product, scaled back to two fractional digits by dividing the
    /// product of the counts by 100 and dropping the remainder toward zero.
    /// The product of the two counts has to fit 64 bits.
    pub fn mul(self, other: FixedPoint) -> (r: FixedPoint)
        requires
            i64::MIN <= self@ * other@ <= i64::MAX,
        ensures
            r@ == trunc_div(self@ * other@, 100),
    {
        let product: i64 = self.0 * other.0;
        FixedPoint(product / SCALE)
    }

    /// The quotient: the dividend's count times 100, divided by the divisor's
    /// count and rounded toward zero.  A zero divisor is an error; otherwise
    /// the scaled dividend has to fit 64 bits.
    pub fn div(self, other: FixedPoint) -> (r: Result<FixedPoint, FeedError>)
        requires
            other@ != 0 ==> i64::MIN <= self@ * 100 <= i64::MAX,
        ensures
            other@ == 0 <==> r is Err,
            r is Err ==> r == Err::<FixedPoint, FeedError>(FeedError::DivisionByZero),
            r matches Ok(q) ==> q@ == trunc_div(self@ * 100, other@),
    {
        if other.0 == 0 {
            return Err(FeedError::DivisionByZero);
        }
        let scaled: i64 = self.0 * SCALE;
        proof {
            lemma_trunc_div_bounded(scaled as int, other.0 as int);
        }
        let quotient: Option<i64> = scaled.checked_div(other.0);
        Ok(FixedPoint(quotient.unwrap()))
    }

    /// The value written with exactly two digits after the point.
    pub fn to_text(self) -> (s: String)
        ensures
            s@ == decimal_text(self@),
    {
        let mut s: String = String::new();
        let m: u64 = if self.0 < 0 {
            s.push('-');
            ((-(self.0 + 1)) as u64) + 1
        } else {
            self.0 as u64
        };
        push_decimal(&mut s, m / 100);
        s.push('.');
        s.push(digit_to_char(((m / 10) % 10) as u8));
        s.push(digit_to_char((m % 10) as u8));
        assert(s@ =~= decimal_text(self@));
        s
    }
}

/// A quotient rounded toward zero is no larger in magnitude than its dividend.
pub proof fn lemma_trunc_div_bounded(a: int, b: int)
    requires
        b != 0,
    ensures
        magnitude(trunc_div(a, b)) <= magnitude(a),
{
    let m = magnitude(a) as int;
    let d = magnitude(b) as int;
    assert(0 <= m / d <= m) by (nonlinear_arith)
        requires
            m >= 0,
            d > 0,
    ;
}

/// Two values with the same count of hundredths are the same value.
pub proof fn lemma_equal_counts_equal_values(a: FixedPoint, b: FixedPoint)
    requires
        a@ == b@,
    ensures
        a == b,
{
}

} // verus!
