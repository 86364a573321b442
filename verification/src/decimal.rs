//! Decimal numbers with a 96-bit coefficient and up to 28 digits behind the point.
//!
//! The arithmetic itself is done by `rust_decimal`; this module holds the value as plain
//! integers and says over mathematical integers what each operation gives back.

use rust_decimal::prelude::ToPrimitive;
use std::cmp::Ordering;
use vstd::prelude::*;

verus! {

/// Ten to the power `n`, for `n` from 0 to 28.
pub open spec fn pow10(n: int) -> int {
    if n <= 0 {
        1
    } else if n == 1 {
        10
    } else if n == 2 {
        100
    } else if n == 3 {
        1000
    } else if n == 4 {
        10000
    } else if n == 5 {
        100000
    } else if n == 6 {
        1000000
    } else if n == 7 {
        10000000
    } else if n == 8 {
        100000000
    } else if n == 9 {
        1000000000
    } else if n == 10 {
        10000000000
    } else if n == 11 {
        100000000000
    } else if n == 12 {
        1000000000000
    } else if n == 13 {
        10000000000000
    } else if n == 14 {
        100000000000000
    } else if n == 15 {
        1000000000000000
    } else if n == 16 {
        10000000000000000
    } else if n == 17 {
        100000000000000000
    } else if n == 18 {
        1000000000000000000
    } else if n == 19 {
        10000000000000000000
    } else if n == 20 {
        100000000000000000000
    } else if n == 21 {
        1000000000000000000000
    } else if n == 22 {
        10000000000000000000000
    } else if n == 23 {
        100000000000000000000000
    } else if n == 24 {
        1000000000000000000000000
    } else if n == 25 {
        10000000000000000000000000
    } else if n == 26 {
        100000000000000000000000000
    } else if n == 27 {
        1000000000000000000000000000
    } else {
        10000000000000000000000000000
    }
}

/// One more than the largest coefficient: two to the power 96.
pub open spec fn coefficient_limit() -> int {
    79228162514264337593543950336
}

/// The number `n / 10^scale`, counted in units of `10^-28`.
pub open spec fn units(n: int, scale: int) -> int {
    n * pow10(28 - scale)
}

/// The integer nearest to `n / d`, ties going to the even neighbour.
pub open spec fn half_even(n: int, d: int) -> int {
    let q = n / d;
    let r = n % d;
    if 2 * r < d || (2 * r == d && q % 2 == 0) {
        q
    } else {
        q + 1
    }
}

/// `n / d` units, rounded to the finest scale at which the coefficient fits, where scales with
/// fewer than `28 - k` digits or exactly that many are tried.
pub open spec fn rounded_from(n: int, d: int, k: int) -> Option<int>
    decreases 29 - k,
{
    if k < 0 || k > 28 {
        None
    } else {
        let m = half_even(n, d * pow10(k));
        if -coefficient_limit() < m < coefficient_limit() {
            Some(m * pow10(k))
        } else {
            rounded_from(n, d, k + 1)
        }
    }
}

/// `n / d` units as a decimal number: rounded half to even at the finest scale that fits, or
/// nothing if the number is too large for any scale.
#[verifier::opaque]
pub open spec fn rounded(n: int, d: int) -> Option<int> {
    rounded_from(n, d, 0)
}

/// The value of a decimal, as an operand of the functions below.
pub open spec fn num(d: Decimal) -> Option<int> {
    Some(d@)
}

/// The decimal literal `n / 10^scale`, as an operand of the functions below.
pub open spec fn lit(n: int, scale: int) -> Option<int> {
    Some(units(n, scale))
}

/// Sum of two decimals; nothing if an operand is missing or the sum overflows.
pub open spec fn sum(x: Option<int>, y: Option<int>) -> Option<int> {
    if x is Some && y is Some {
        rounded(x->0 + y->0, 1)
    } else {
        None
    }
}

/// Difference of two decimals; nothing if an operand is missing or it overflows.
pub open spec fn difference(x: Option<int>, y: Option<int>) -> Option<int> {
    if x is Some && y is Some {
        rounded(x->0 - y->0, 1)
    } else {
        None
    }
}

/// Product of two decimals; nothing if an operand is missing or it overflows.
pub open spec fn product(x: Option<int>, y: Option<int>) -> Option<int> {
    if x is Some && y is Some {
        rounded(x->0 * y->0, pow10(28))
    } else {
        None
    }
}

/// Quotient of two decimals; nothing if an operand is missing, the divisor is zero or the
/// quotient overflows.
pub open spec fn quotient(x: Option<int>, y: Option<int>) -> Option<int> {
    if x is Some && y is Some && y->0 != 0 {
        if y->0 > 0 {
            rounded(x->0 * pow10(28), y->0)
        } else {
            rounded(-x->0 * pow10(28), -y->0)
        }
    } else {
        None
    }
}

/// Whether the exact quotient of `x` by `y` has `t` digits behind the point, the last of them a 5,
/// and a coefficient that is the first to outgrow 96 bits, or one of the next billion.
pub open spec fn on_edge_at(x: int, y: int, t: int) -> bool {
    let n = (if x < 0 { -x } else { x }) * pow10(t);
    let d = if y < 0 { -y } else { y };
    &&& n % d == 0
    &&& coefficient_limit() <= n / d < coefficient_limit() + pow10(9)
    &&& (n / d) % 10 == 5
}

/// Whether the exact quotient of `x` by `y` lies half way between two decimals right above the
/// largest coefficient of some scale.
#[verifier::opaque]
pub open spec fn on_edge(x: int, y: int) -> bool {
    exists|t: int| 1 <= t <= 28 && #[trigger] on_edge_at(x, y, t)
}

/// Quotient of two decimals, where nothing is known of the divisor but its value, so that it may
/// have a coefficient of more than 64 bits; nothing if an operand is missing, the divisor is zero, or
/// the quotient overflows or is on the edge between two coefficients.
pub open spec fn divided(x: Option<int>, y: Option<int>) -> Option<int> {
    if x is Some && y is Some && on_edge(x->0, y->0) {
        None
    } else {
        quotient(x, y)
    }
}

/// Quotient of a number by a decimal; nothing if the number is missing, the divisor is zero, or the
/// quotient overflows or, with a coefficient of more than 64 bits in the divisor, is on the edge
/// between two coefficients.
pub open spec fn divided_by(x: Option<int>, y: Decimal) -> Option<int> {
    if x is Some && !y.is_short() && on_edge(x->0, y@) {
        None
    } else {
        quotient(x, num(y))
    }
}

/// The first number of steps of ten, from `k` on, after which the coefficient of `n / d` units
/// fits.
pub open spec fn coarsened(n: int, d: int, k: int) -> int
    decreases 29 - k,
{
    if k < 0 || k >= 28 {
        28
    } else {
        let m = half_even(n, d * pow10(k));
        if -coefficient_limit() < m < coefficient_limit() {
            k
        } else {
            coarsened(n, d, k + 1)
        }
    }
}

/// The number of digits behind the point of a product: those of both factors together, as far as
/// the coefficient fits; none where a factor is zero, nor where two coefficients of 32 bits have
/// more than 47 of them.
pub open spec fn product_scale(x: Decimal, y: Decimal) -> int {
    let digits = x.spec_scale() + y.spec_scale();
    let finest = 28 - coarsened(x@ * y@, pow10(28), 0);
    if x@ == 0 || y@ == 0 || (digits > 47 && x.is_small() && y.is_small()) {
        0
    } else if digits < finest {
        digits
    } else {
        finest
    }
}

/// The number of digits behind the point of a sum or difference with the value `v`: the larger of
/// both, as far as the coefficient fits; where a term is zero, those of the other.
pub open spec fn sum_scale(x: Decimal, y: Decimal, v: int) -> int {
    let digits = if x.spec_scale() < y.spec_scale() {
        y.spec_scale()
    } else {
        x.spec_scale()
    };
    let finest = 28 - coarsened(v, 1, 0);
    if x@ == 0 {
        y.spec_scale()
    } else if y@ == 0 {
        x.spec_scale()
    } else if digits < finest {
        digits
    } else {
        finest
    }
}

/// The number of digits behind the point that `rust_decimal` gives the quotient of two numbers,
/// each of them a coefficient and a scale. Trailing zeros are cut off in groups, some of which may
/// stay.
pub uninterp spec fn quotient_scale(
    mantissa: int,
    scale: int,
    divisor_mantissa: int,
    divisor_scale: int,
) -> int;

/// The smaller of two decimals.
pub open spec fn lesser(x: Option<int>, y: Option<int>) -> Option<int> {
    if x is Some && y is Some {
        if x->0 > y->0 { y } else { x }
    } else {
        None
    }
}

/// The larger of two decimals.
pub open spec fn greater(x: Option<int>, y: Option<int>) -> Option<int> {
    if x is Some && y is Some {
        if x->0 < y->0 { y } else { x }
    } else {
        None
    }
}

/// `x` brought into the interval from `lo` to `hi`.
pub open spec fn clamped(x: Option<int>, lo: Option<int>, hi: Option<int>) -> Option<int> {
    if x is Some && lo is Some && hi is Some {
        if x->0 < lo->0 {
            lo
        } else if x->0 > hi->0 {
            hi
        } else {
            x
        }
    } else {
        None
    }
}

/// Absolute value of a decimal.
pub open spec fn magnitude(x: Option<int>) -> Option<int> {
    if x is Some {
        Some(if x->0 < 0 { -x->0 } else { x->0 })
    } else {
        None
    }
}

/// The decimal with its sign turned.
pub open spec fn negated(x: Option<int>) -> Option<int> {
    if x is Some {
        Some(-x->0)
    } else {
        None
    }
}

/// Integer part of a value in units: the fraction is cut off, towards zero.
pub open spec fn integer_part(v: int) -> int {
    if v < 0 {
        -((-v) / pow10(28))
    } else {
        v / pow10(28)
    }
}

/// The whole part of a value in units as an `i32`, if it fits.
pub open spec fn whole_i32(v: int) -> Option<i32> {
    if i32::MIN <= integer_part(v) <= i32::MAX {
        Some(integer_part(v) as i32)
    } else {
        None
    }
}

/// The whole part of a value in units as an `i64`, if it fits.
pub open spec fn whole_i64(v: int) -> Option<i64> {
    if i64::MIN <= integer_part(v) <= i64::MAX {
        Some(integer_part(v) as i64)
    } else {
        None
    }
}

/// The whole part of a value in units as a `u32`, if the value is not negative and it fits.
pub open spec fn whole_u32(v: int) -> Option<u32> {
    if v >= 0 && integer_part(v) <= u32::MAX {
        Some(integer_part(v) as u32)
    } else {
        None
    }
}

/// The whole part of a value in units as a `u64`, if the value is not negative and it fits.
pub open spec fn whole_u64(v: int) -> Option<u64> {
    if v >= 0 && integer_part(v) <= u64::MAX {
        Some(integer_part(v) as u64)
    } else {
        None
    }
}

/// `v` units rounded half to even to `dp` digits behind the point.
pub open spec fn to_places(v: int, dp: int) -> int {
    half_even(v, pow10(28 - dp)) * pow10(28 - dp)
}

/// `v` units rounded down to a whole number.
pub open spec fn rounded_down(v: int) -> int {
    (v / pow10(28)) * pow10(28)
}

/// The sum of a list of decimals, added up from the first to the last.
pub open spec fn total(s: Seq<Decimal>) -> Option<int>
    decreases s.len(),
{
    if s.len() == 0 {
        Some(0)
    } else {
        sum(total(s.drop_last()), num(s.last()))
    }
}

/// Where the sum of a list exists, so do the sums of its beginnings.
pub proof fn lemma_total_prefix(s: Seq<Decimal>, n: int)
    requires
        0 <= n <= s.len(),
        total(s) is Some,
    ensures
        total(s.take(n)) is Some,
        n < s.len() ==> total(s.take(n + 1)) == sum(total(s.take(n)), num(s[n])) && total(
            s.take(n + 1),
        ) is Some,
    decreases s.len() - n,
{
    if n == s.len() {
        assert(s.take(n) =~= s);
    } else {
        lemma_total_prefix(s, n + 1);
        assert(s.take(n + 1).drop_last() =~= s.take(n));
    }
}

/// A decimal number: `mantissa / 10^scale`.
#[derive(Clone, Copy, Debug)]
pub struct Decimal {
    mantissa: i128,
    scale: u32,
}

/// The value, counted in units of `10^-28`.
impl View for Decimal {
    type V = int;

    closed spec fn view(&self) -> int {
        units(self.mantissa as int, self.scale as int)
    }
}

impl PartialEq for Decimal {
    /// Equality of values: `0.40` equals `0.4`.
    fn eq(&self, other: &Decimal) -> (r: bool) {
        self.same_value(*other)
    }
}

impl vstd::std_specs::cmp::PartialEqSpecImpl for Decimal {
    open spec fn obeys_eq_spec() -> bool {
        true
    }

    open spec fn eq_spec(&self, other: &Decimal) -> bool {
        self@ == other@
    }
}

impl Eq for Decimal {
}

impl PartialOrd for Decimal {
    /// Order of values.
    fn partial_cmp(&self, other: &Decimal) -> (r: Option<Ordering>) {
        Some(self.compared_to(*other))
    }
}

impl vstd::std_specs::cmp::PartialOrdSpecImpl for Decimal {
    open spec fn obeys_partial_cmp_spec() -> bool {
        true
    }

    open spec fn partial_cmp_spec(&self, other: &Decimal) -> Option<Ordering> {
        if self@ < other@ {
            Some(Ordering::Less)
        } else if self@ > other@ {
            Some(Ordering::Greater)
        } else {
            Some(Ordering::Equal)
        }
    }
}

impl Decimal {
    #[verifier::type_invariant]
    spec fn in_bounds(self) -> bool {
        &&& -coefficient_limit() < self.mantissa < coefficient_limit()
        &&& self.scale <= 28
    }

    /// The coefficient.
    pub closed spec fn spec_mantissa(self) -> int {
        self.mantissa as int
    }

    /// The number of digits behind the point.
    pub closed spec fn spec_scale(self) -> int {
        self.scale as int
    }

    /// Whether the coefficient takes no more than 32 bits.
    pub open spec fn is_small(self) -> bool {
        -0x1_0000_0000 < self.spec_mantissa() < 0x1_0000_0000
    }

    /// Whether the coefficient takes no more than 64 bits.
    pub open spec fn is_short(self) -> bool {
        -0x1_0000_0000_0000_0000 < self.spec_mantissa() < 0x1_0000_0000_0000_0000
    }

    /// Coefficient and scale determine the value.
    pub proof fn law_parts_make_value(d: Decimal)
        ensures
            d@ == units(d.spec_mantissa(), d.spec_scale()),
    {
    }

    /// Value and scale determine the coefficient, and so the text of a number.
    pub proof fn law_scale_fixes_mantissa(a: Decimal, b: Decimal)
        requires
            a@ == b@,
            a.spec_scale() == b.spec_scale(),
        ensures
            a.spec_mantissa() == b.spec_mantissa(),
    {
        let p = pow10(28 - a.spec_scale());
        let m = a.spec_mantissa();
        let n = b.spec_mantissa();
        assert(m == n) by (nonlinear_arith)
            requires
                m * p == n * p,
                p >= 1,
        ;
    }

    /// The decimal `num / 10^scale`.
    pub fn new(num: i64, scale: u32) -> (r: Decimal)
        requires
            scale <= 28,
        ensures
            r@ == units(num as int, scale as int),
            r.spec_mantissa() == num,
            r.spec_scale() == scale,
    {
        Decimal { mantissa: num as i128, scale }
    }

    /// The decimal with the given coefficient and scale, if they are within bounds.
    pub fn from_parts(mantissa: i128, scale: u32) -> (r: Option<Decimal>)
        ensures
            r is Some <==> (-coefficient_limit() < mantissa < coefficient_limit() && scale <= 28),
            r is Some ==> r->0@ == units(mantissa as int, scale as int) && r->0.spec_mantissa()
                == mantissa && r->0.spec_scale() == scale,
    {
        if scale <= 28 && -79228162514264337593543950336 < mantissa && mantissa
            < 79228162514264337593543950336 {
            Some(Decimal { mantissa, scale })
        } else {
            None
        }
    }

    /// States that the value of the number can be written as a decimal.
    pub(crate) fn note_representable(&self)
        ensures
            representable(self@),
    {
        proof {
            use_type_invariant(self);
            let m = self.mantissa as int;
            let k = 28 - self.scale as int;
            assert(self@ == m * pow10(k));
        }
    }

    /// The coefficient.
    pub fn mantissa(&self) -> (r: i128)
        ensures
            r == self.spec_mantissa(),
    {
        self.mantissa
    }

    /// The number of digits behind the point.
    pub fn scale(&self) -> (r: u32)
        ensures
            r == self.spec_scale(),
    {
        self.scale
    }

    /// The number 0.
    pub fn zero() -> (r: Decimal)
        ensures
            r@ == 0,
            r.spec_mantissa() == 0,
            r.spec_scale() == 0,
    {
        Decimal { mantissa: 0, scale: 0 }
    }

    /// The number 1.
    pub fn one() -> (r: Decimal)
        ensures
            r@ == units(1, 0),
            r.spec_mantissa() == 1,
            r.spec_scale() == 0,
    {
        Decimal { mantissa: 1, scale: 0 }
    }

    /// The whole number `n`.
    pub fn from_i64(n: i64) -> (r: Decimal)
        ensures
            r@ == units(n as int, 0),
            r.spec_mantissa() == n,
            r.spec_scale() == 0,
    {
        Decimal { mantissa: n as i128, scale: 0 }
    }

    /// The whole number `n`.
    pub fn from_u64(n: u64) -> (r: Decimal)
        ensures
            r@ == units(n as int, 0),
            r.spec_mantissa() == n,
            r.spec_scale() == 0,
    {
        Decimal { mantissa: n as i128, scale: 0 }
    }

    /// Whether the number is 0.
    pub fn is_zero(&self) -> (r: bool)
        ensures
            r == (self@ == 0),
    {
        proof {
            use_type_invariant(self);
            lemma_pow10_positive(28 - self.scale as int);
            lemma_mul_zero(self.mantissa as int, pow10(28 - self.scale as int));
        }
        self.mantissa == 0
    }

    /// The number without its sign.
    pub fn abs(&self) -> (r: Decimal)
        ensures
            Some(r@) == magnitude(num(*self)),
            r.spec_mantissa() == (if self.spec_mantissa() < 0 {
                -self.spec_mantissa()
            } else {
                self.spec_mantissa()
            }),
            r.spec_scale() == self.spec_scale(),
    {
        proof {
            use_type_invariant(self);
            lemma_pow10_positive(28 - self.scale as int);
            lemma_mul_sign(self.mantissa as int, pow10(28 - self.scale as int));
        }
        if self.mantissa < 0 {
            Decimal { mantissa: -self.mantissa, scale: self.scale }
        } else {
            *self
        }
    }

    /// The number with its sign turned.
    pub fn neg(&self) -> (r: Decimal)
        ensures
            Some(r@) == negated(num(*self)),
            r.spec_mantissa() == -self.spec_mantissa(),
            r.spec_scale() == self.spec_scale(),
    {
        proof {
            use_type_invariant(self);
            lemma_mul_sign(self.mantissa as int, pow10(28 - self.scale as int));
        }
        Decimal { mantissa: -self.mantissa, scale: self.scale }
    }

    /// The smaller of the two numbers; the first if they are equal.
    pub fn min(self, other: Decimal) -> (r: Decimal)
        ensures
            r == if self@ > other@ { other } else { self },
            Some(r@) == lesser(num(self), num(other)),
    {
        if self > other { other } else { self }
    }

    /// The larger of the two numbers; the first if they are equal.
    pub fn max(self, other: Decimal) -> (r: Decimal)
        ensures
            r == if self@ < other@ { other } else { self },
            Some(r@) == greater(num(self), num(other)),
    {
        if self < other { other } else { self }
    }

    /// The number brought into the interval from `lo` to `hi`.
    pub fn clamp(self, lo: Decimal, hi: Decimal) -> (r: Decimal)
        ensures
            Some(r@) == clamped(num(self), num(lo), num(hi)),
    {
        if self < lo {
            lo
        } else if self > hi {
            hi
        } else {
            self
        }
    }

    /// `Decimal::eq` of `rust_decimal`: true if and only if the two values are equal.
    #[verifier::external_body]
    fn same_value(self, other: Decimal) -> (r: bool)
        ensures
            r == (self@ == other@),
    {
        rust_decimal::Decimal::from_i128_with_scale(self.mantissa, self.scale)
            == rust_decimal::Decimal::from_i128_with_scale(other.mantissa, other.scale)
    }

    /// `Decimal::cmp` of `rust_decimal`: the order of the two values.
    #[verifier::external_body]
    fn compared_to(self, other: Decimal) -> (r: Ordering)
        ensures
            r == if self@ < other@ {
                Ordering::Less
            } else if self@ > other@ {
                Ordering::Greater
            } else {
                Ordering::Equal
            },
    {
        rust_decimal::Decimal::from_i128_with_scale(self.mantissa, self.scale).cmp(
            &rust_decimal::Decimal::from_i128_with_scale(other.mantissa, other.scale),
        )
    }

    /// The operator `+` of `rust_decimal::Decimal`: the exact sum, rounded half to even to the
    /// finest scale at which the coefficient fits. It panics where no scale fits. The scale is the
    /// larger of both, or the finest that fits; where a term is 0 it is that of the other.
    #[verifier::external_body]
    pub(crate) fn plus(self, rhs: Decimal) -> (r: Decimal)
        requires
            sum(num(self), num(rhs)) is Some,
        ensures
            Some(r@) == sum(num(self), num(rhs)),
            r.spec_scale() == sum_scale(self, rhs, self@ + rhs@),
    {
        let r = rust_decimal::Decimal::from_i128_with_scale(self.mantissa, self.scale)
            + rust_decimal::Decimal::from_i128_with_scale(rhs.mantissa, rhs.scale);
        Decimal { mantissa: r.mantissa(), scale: r.scale() }
    }

    /// The operator `-` of `rust_decimal::Decimal`: the exact difference, rounded half to even to
    /// the finest scale at which the coefficient fits. It panics where no scale fits. The scale is
    /// the larger of both, or the finest that fits; where a term is 0 it is that of the other.
    #[verifier::external_body]
    pub(crate) fn minus(self, rhs: Decimal) -> (r: Decimal)
        requires
            difference(num(self), num(rhs)) is Some,
        ensures
            Some(r@) == difference(num(self), num(rhs)),
            r.spec_scale() == sum_scale(self, rhs, self@ - rhs@),
    {
        let r = rust_decimal::Decimal::from_i128_with_scale(self.mantissa, self.scale)
            - rust_decimal::Decimal::from_i128_with_scale(rhs.mantissa, rhs.scale);
        Decimal { mantissa: r.mantissa(), scale: r.scale() }
    }

    /// The operator `*` of `rust_decimal::Decimal`: the exact product, rounded half to even to
    /// the finest scale at which the coefficient fits. It panics where no scale fits. The scale is
    /// the sum of both, or the finest that fits; it is 0 where a factor is 0, or where the product of
    /// two coefficients of 32 bits is so far behind the point that nothing of it is left.
    #[verifier::external_body]
    pub(crate) fn times(self, rhs: Decimal) -> (r: Decimal)
        requires
            product(num(self), num(rhs)) is Some,
        ensures
            Some(r@) == product(num(self), num(rhs)),
            r.spec_scale() == product_scale(self, rhs),
    {
        let r = rust_decimal::Decimal::from_i128_with_scale(self.mantissa, self.scale)
            * rust_decimal::Decimal::from_i128_with_scale(rhs.mantissa, rhs.scale);
        Decimal { mantissa: r.mantissa(), scale: r.scale() }
    }

    /// The operator `/` of `rust_decimal::Decimal`: the exact quotient, rounded half to even to
    /// the finest scale at which the coefficient fits. It panics where no scale fits and on a
    /// divisor of 0. With a divisor whose coefficient takes more than 64 bits, a quotient right
    /// above the largest coefficient that lies half way between two decimals is rounded up: such
    /// operands are left out. The scale of the result goes by the coefficients and scales of both
    /// numbers.
    #[verifier::external_body]
    pub(crate) fn over(self, rhs: Decimal) -> (r: Decimal)
        requires
            quotient(num(self), num(rhs)) is Some,
            rhs.is_short() || !on_edge(self@, rhs@),
        ensures
            Some(r@) == quotient(num(self), num(rhs)),
            r.spec_scale() == quotient_scale(
                self.spec_mantissa(),
                self.spec_scale(),
                rhs.spec_mantissa(),
                rhs.spec_scale(),
            ),
    {
        let r = rust_decimal::Decimal::from_i128_with_scale(self.mantissa, self.scale)
            / rust_decimal::Decimal::from_i128_with_scale(rhs.mantissa, rhs.scale);
        Decimal { mantissa: r.mantissa(), scale: r.scale() }
    }

    /// `Decimal::round_dp` of `rust_decimal`: the number rounded half to even to `dp` digits
    /// behind the point. A number with no more digits than that keeps its scale.
    #[verifier::external_body]
    pub(crate) fn round_dp(self, dp: u32) -> (r: Decimal)
        requires
            dp <= 28,
        ensures
            r@ == to_places(self@, dp as int),
            r.spec_scale() == if self.spec_scale() < dp {
                self.spec_scale()
            } else {
                dp as int
            },
    {
        let r = rust_decimal::Decimal::from_i128_with_scale(self.mantissa, self.scale).round_dp(dp);
        Decimal { mantissa: r.mantissa(), scale: r.scale() }
    }

    /// `Decimal::floor` of `rust_decimal`: the largest whole number that is not above the number,
    /// without digits behind the point.
    #[verifier::external_body]
    pub(crate) fn floor(self) -> (r: Decimal)
        ensures
            r@ == rounded_down(self@),
            r.spec_scale() == 0,
    {
        let r = rust_decimal::Decimal::from_i128_with_scale(self.mantissa, self.scale).floor();
        Decimal { mantissa: r.mantissa(), scale: r.scale() }
    }

    /// `ToPrimitive::to_i32` of `rust_decimal`: the whole part, if it fits.
    #[verifier::external_body]
    pub(crate) fn to_i32(self) -> (r: Option<i32>)
        ensures
            r == whole_i32(self@),
    {
        rust_decimal::Decimal::from_i128_with_scale(self.mantissa, self.scale).to_i32()
    }

    /// `ToPrimitive::to_i64` of `rust_decimal`: the whole part, if it fits.
    #[verifier::external_body]
    pub(crate) fn to_i64(self) -> (r: Option<i64>)
        ensures
            r == whole_i64(self@),
    {
        rust_decimal::Decimal::from_i128_with_scale(self.mantissa, self.scale).to_i64()
    }

    /// `ToPrimitive::to_u32` of `rust_decimal`: the whole part, if the number is not negative and
    /// it fits.
    #[verifier::external_body]
    pub(crate) fn to_u32(self) -> (r: Option<u32>)
        ensures
            r == whole_u32(self@),
    {
        rust_decimal::Decimal::from_i128_with_scale(self.mantissa, self.scale).to_u32()
    }

    /// `ToPrimitive::to_u64` of `rust_decimal`: the whole part, if the number is not negative and
    /// it fits.
    #[verifier::external_body]
    pub(crate) fn to_u64(self) -> (r: Option<u64>)
        ensures
            r == whole_u64(self@),
    {
        rust_decimal::Decimal::from_i128_with_scale(self.mantissa, self.scale).to_u64()
    }
}

/// Powers of ten are positive.
pub proof fn lemma_pow10_positive(n: int)
    ensures
        pow10(n) >= 1,
{
}

/// Ten times a power of ten is the next one.
pub proof fn lemma_pow10_next(n: int)
    requires
        0 <= n < 28,
    ensures
        pow10(n + 1) == 10 * pow10(n),
{
}

/// Powers of ten multiply by adding the exponents.
pub proof fn lemma_pow10_add(a: int, b: int)
    requires
        0 <= a,
        0 <= b,
        a + b <= 28,
    ensures
        pow10(a + b) == pow10(a) * pow10(b),
    decreases b,
{
    if b > 0 {
        lemma_pow10_add(a, b - 1);
        lemma_pow10_next(a + b - 1);
        lemma_pow10_next(b - 1);
        let p = pow10(a);
        let q = pow10(b - 1);
        assert(10 * (p * q) == p * (10 * q)) by (nonlinear_arith);
    }
}

/// Dividing a multiple gives back the factor, whatever the rounding.
proof fn lemma_half_even_exact(q: int, d: int)
    requires
        d > 0,
    ensures
        half_even(q * d, d) == q,
{
    assert((q * d) / d == q && (q * d) % d == 0) by (nonlinear_arith)
        requires
            d > 0,
    ;
}

proof fn lemma_exact_from(n: int, d: int, m: int, k: int, j: int)
    requires
        d > 0,
        0 <= j <= k <= 28,
        -coefficient_limit() < m < coefficient_limit(),
        n == d * (m * pow10(k)),
    ensures
        rounded_from(n, d, j) == Some(m * pow10(k)),
    decreases k - j,
{
    let p = pow10(j);
    let q = pow10(k - j);
    lemma_pow10_add(k - j, j);
    lemma_pow10_positive(j);
    assert(n == (m * q) * (d * p)) by (nonlinear_arith)
        requires
            n == d * (m * (q * p)),
    ;
    assert(d * p > 0) by (nonlinear_arith)
        requires
            d > 0,
            p >= 1,
    ;
    lemma_half_even_exact(m * q, d * p);
    assert((m * q) * p == m * (q * p)) by (nonlinear_arith);
    if j < k {
        lemma_exact_from(n, d, m, k, j + 1);
    } else {
        assert(m * q == m) by (nonlinear_arith)
            requires
                q == 1,
        ;
    }
}

/// A result that can be written with a coefficient of 96 bits is not rounded.
pub proof fn lemma_exact(n: int, d: int, m: int, k: int)
    requires
        d > 0,
        0 <= k <= 28,
        -coefficient_limit() < m < coefficient_limit(),
        n == d * (m * pow10(k)),
    ensures
        rounded(n, d) == Some(m * pow10(k)),
{
    reveal(rounded);
    lemma_exact_from(n, d, m, k, 0);
}

/// The nearest integer lies between any two integers that enclose the number.
proof fn lemma_half_even_between(n: int, d: int, lo: int, hi: int)
    requires
        d > 0,
        lo * d <= n <= hi * d,
    ensures
        lo <= half_even(n, d) <= hi,
{
    let q = n / d;
    let r = n % d;
    assert(n == q * d + r && 0 <= r < d) by (nonlinear_arith)
        requires
            d > 0,
            q == n / d,
            r == n % d,
    ;
    assert(lo <= q) by (nonlinear_arith)
        requires
            lo * d <= q * d + r,
            0 <= r < d,
    ;
    assert(q <= hi) by (nonlinear_arith)
        requires
            q * d + r <= hi * d,
            0 <= r < d,
    ;
    if q == hi {
        assert(r == 0) by (nonlinear_arith)
            requires
                q * d + r <= hi * d,
                0 <= r,
                q == hi,
        ;
    }
}

proof fn lemma_fits_from(n: int, d: int, k: int)
    requires
        d > 0,
        0 <= k <= 28,
        -(coefficient_limit() - 1) * (d * pow10(28)) <= n,
        n <= (coefficient_limit() - 1) * (d * pow10(28)),
    ensures
        rounded_from(n, d, k) is Some,
    decreases 28 - k,
{
    if k < 28 {
        lemma_fits_from(n, d, k + 1);
    } else {
        let p = pow10(28);
        assert(d * p > 0) by (nonlinear_arith)
            requires
                d > 0,
                p >= 1,
        ;
        lemma_half_even_between(n, d * p, -(coefficient_limit() - 1), coefficient_limit() - 1);
    }
}

/// How far the nearest integer is from the number: half a step at most, and at half a step it is
/// even.
proof fn lemma_half_even_bounds(n: int, d: int)
    requires
        d > 0,
    ensures
        (2 * half_even(n, d) - 1) * d <= 2 * n <= (2 * half_even(n, d) + 1) * d,
        2 * n == (2 * half_even(n, d) - 1) * d ==> half_even(n, d) % 2 == 0,
        2 * n == (2 * half_even(n, d) + 1) * d ==> half_even(n, d) % 2 == 0,
{
    let q = n / d;
    let r = n % d;
    let m = half_even(n, d);
    assert(n == q * d + r && 0 <= r < d) by (nonlinear_arith)
        requires
            d > 0,
            q == n / d,
            r == n % d,
    ;
    assert((2 * q - 1) * d == 2 * (q * d) - d && (2 * q + 1) * d == 2 * (q * d) + d && (2 * q + 3)
        * d == 2 * (q * d) + 3 * d) by (nonlinear_arith);
    if m == q {
    } else {
        assert(2 * m - 1 == 2 * q + 1 && 2 * m + 1 == 2 * q + 3);
    }
}

/// The nearest integer does not fall as the number grows.
proof fn lemma_half_even_monotone(a: int, d: int, b: int, e: int)
    requires
        d > 0,
        e > 0,
        a * e <= b * d,
    ensures
        half_even(a, d) <= half_even(b, e),
{
    let p = half_even(a, d);
    let q = half_even(b, e);
    lemma_half_even_bounds(a, d);
    lemma_half_even_bounds(b, e);
    if q < p {
        let lo = (2 * p - 1) * d;
        let hi = (2 * q + 1) * e;
        assert(lo * e <= (2 * a) * e && (2 * b) * d <= hi * d) by (nonlinear_arith)
            requires
                lo <= 2 * a,
                2 * b <= hi,
                d > 0,
                e > 0,
        ;
        assert((2 * a) * e <= (2 * b) * d) by (nonlinear_arith)
            requires
                a * e <= b * d,
        ;
        assert(lo * e == (2 * p - 1) * (d * e) && hi * d == (2 * q + 1) * (d * e))
            by (nonlinear_arith)
            requires
                lo == (2 * p - 1) * d,
                hi == (2 * q + 1) * e,
        ;
        assert(d * e > 0) by (nonlinear_arith)
            requires
                d > 0,
                e > 0,
        ;
        let s = d * e;
        assert(2 * p - 1 <= 2 * q + 1) by (nonlinear_arith)
            requires
                (2 * p - 1) * s <= (2 * q + 1) * s,
                s > 0,
        ;
        assert(p == q + 1);
        assert(lo * e == (2 * a) * e && (2 * b) * d == hi * d);
        assert(lo == 2 * a) by (nonlinear_arith)
            requires
                lo * e == (2 * a) * e,
                e > 0,
        ;
        assert(2 * b == hi) by (nonlinear_arith)
            requires
                (2 * b) * d == hi * d,
                d > 0,
        ;
    }
}

/// The nearest integer of the negated number is the negated nearest integer.
proof fn lemma_half_even_negated(n: int, d: int)
    requires
        d > 0,
    ensures
        half_even(-n, d) == -half_even(n, d),
{
    let m = half_even(n, d);
    let w = half_even(-n, d);
    lemma_half_even_bounds(n, d);
    lemma_half_even_bounds(-n, d);
    assert((2 * m - 1) * d == 2 * (m * d) - d && (2 * m + 1) * d == 2 * (m * d) + d)
        by (nonlinear_arith);
    assert((2 * w - 1) * d == 2 * (w * d) - d && (2 * w + 1) * d == 2 * (w * d) + d)
        by (nonlinear_arith);
    let s = m + w;
    assert(m * d + w * d == s * d) by (nonlinear_arith)
        requires
            s == m + w,
    ;
    assert(-d <= s * d <= d);
    assert(-1 <= s <= 1) by (nonlinear_arith)
        requires
            -d <= s * d <= d,
            d > 0,
    ;
    if s == 1 {
        assert(s * d == d) by (nonlinear_arith)
            requires
                s == 1,
        ;
    } else if s == -1 {
        assert(s * d == -d) by (nonlinear_arith)
            requires
                s == -1,
        ;
    }
}

/// Rounding the negated number gives the negated result.
proof fn lemma_rounded_from_negated(n: int, d: int, k: int)
    requires
        d > 0,
        0 <= k,
    ensures
        match rounded_from(n, d, k) {
            Some(v) => rounded_from(-n, d, k) == Some(-v),
            None => rounded_from(-n, d, k) is None,
        },
    decreases 29 - k,
{
    if k <= 28 {
        let p = pow10(k);
        assert(d * p > 0) by (nonlinear_arith)
            requires
                d > 0,
                p >= 1,
        ;
        lemma_half_even_negated(n, d * p);
        let m = half_even(n, d * p);
        assert((-m) * p == -(m * p)) by (nonlinear_arith);
        if !(-coefficient_limit() < m < coefficient_limit()) {
            lemma_rounded_from_negated(n, d, k + 1);
        }
    }
}

/// A number that is too large for a scale is not rounded below the largest that fits there.
proof fn lemma_beyond(n: int, d: int, k: int)
    requires
        d > 0,
        0 <= k,
        half_even(n, d * pow10(k)) >= coefficient_limit(),
        rounded_from(n, d, k + 1) is Some,
    ensures
        rounded_from(n, d, k + 1)->0 >= (coefficient_limit() - 1) * pow10(k),
    decreases 29 - k,
{
    let l = coefficient_limit();
    let p = pow10(k);
    let p2 = pow10(k + 1);
    lemma_pow10_next(k);
    let e = d * p;
    let f = d * p2;
    assert(f == 10 * e && e > 0) by (nonlinear_arith)
        requires
            e == d * p,
            f == d * p2,
            p2 == 10 * p,
            d > 0,
            p >= 1,
    ;
    lemma_half_even_bounds(n, e);
    lemma_half_even_bounds(n, f);
    let m = half_even(n, e);
    let x = half_even(n, f);
    assert(2 * n >= (2 * l - 1) * e) by (nonlinear_arith)
        requires
            2 * n >= (2 * m - 1) * e,
            m >= l,
            e > 0,
    ;
    assert(10 * (2 * x + 1) >= 2 * l - 1) by (nonlinear_arith)
        requires
            2 * n >= (2 * l - 1) * e,
            2 * n <= (2 * x + 1) * f,
            f == 10 * e,
            e > 0,
    ;
    assert(10 * x >= l - 1);
    assert(x * p2 >= (l - 1) * p) by (nonlinear_arith)
        requires
            10 * x >= l - 1,
            p2 == 10 * p,
            p >= 1,
    ;
    if !(-l < x < l) {
        lemma_beyond(n, d, k + 1);
        assert((l - 1) * p2 >= (l - 1) * p) by (nonlinear_arith)
            requires
                p2 == 10 * p,
                p >= 1,
                l >= 1,
        ;
    }
}

proof fn lemma_rounded_from_monotone(a: int, d: int, b: int, e: int, k: int)
    requires
        d > 0,
        e > 0,
        0 <= k,
        a * e <= b * d,
        rounded_from(a, d, k) is Some,
        rounded_from(b, e, k) is Some,
    ensures
        rounded_from(a, d, k)->0 <= rounded_from(b, e, k)->0,
    decreases 29 - k,
{
    let l = coefficient_limit();
    let p = pow10(k);
    let dp = d * p;
    let ep = e * p;
    assert(dp > 0 && ep > 0 && a * ep <= b * dp) by (nonlinear_arith)
        requires
            d > 0,
            e > 0,
            p >= 1,
            dp == d * p,
            ep == e * p,
            a * e <= b * d,
    ;
    lemma_half_even_monotone(a, dp, b, ep);
    let m = half_even(a, dp);
    let n = half_even(b, ep);
    let m_fits = -l < m < l;
    let n_fits = -l < n < l;
    assert(m * p <= n * p) by (nonlinear_arith)
        requires
            m <= n,
            p >= 1,
    ;
    if m_fits && !n_fits {
        lemma_beyond(b, e, k);
        assert(m * p <= (l - 1) * p) by (nonlinear_arith)
            requires
                m <= l - 1,
                p >= 1,
        ;
    } else if !m_fits && n_fits {
        lemma_half_even_negated(a, dp);
        lemma_rounded_from_negated(a, d, k + 1);
        lemma_beyond(-a, d, k);
        assert(n * p >= -((l - 1) * p)) by (nonlinear_arith)
            requires
                n >= -(l - 1),
                p >= 1,
        ;
    } else if !m_fits {
        lemma_rounded_from_monotone(a, d, b, e, k + 1);
    }
}

/// A larger number is not rounded to less.
pub proof fn lemma_rounded_monotone(a: int, d: int, b: int, e: int)
    requires
        d > 0,
        e > 0,
        a * e <= b * d,
        rounded(a, d) is Some,
        rounded(b, e) is Some,
    ensures
        rounded(a, d)->0 <= rounded(b, e)->0,
{
    reveal(rounded);
    lemma_rounded_from_monotone(a, d, b, e, 0);
}

/// Sums grow with their terms.
pub proof fn lemma_sum_monotone(x: int, y: int, z: int)
    requires
        y <= z,
        sum(Some(x), Some(y)) is Some,
        sum(Some(x), Some(z)) is Some,
    ensures
        sum(Some(x), Some(y))->0 <= sum(Some(x), Some(z))->0,
{
    lemma_rounded_monotone(x + y, 1, x + z, 1);
}

/// Products with a factor that is not negative grow with the other factor.
pub proof fn lemma_product_monotone(x: int, y: int, z: int)
    requires
        0 <= x,
        y <= z,
        product(Some(x), Some(y)) is Some,
        product(Some(x), Some(z)) is Some,
    ensures
        product(Some(x), Some(y))->0 <= product(Some(x), Some(z))->0,
{
    let p = pow10(28);
    assert((x * y) * p <= (x * z) * p) by (nonlinear_arith)
        requires
            0 <= x,
            y <= z,
            p >= 0,
    ;
    lemma_rounded_monotone(x * y, p, x * z, p);
}

/// Quotients by a positive divisor grow with the dividend.
pub proof fn lemma_quotient_monotone(x: int, y: int, z: int)
    requires
        x <= y,
        0 < z,
        quotient(Some(x), Some(z)) is Some,
        quotient(Some(y), Some(z)) is Some,
    ensures
        quotient(Some(x), Some(z))->0 <= quotient(Some(y), Some(z))->0,
{
    let p = pow10(28);
    assert((x * p) * z <= (y * p) * z) by (nonlinear_arith)
        requires
            x <= y,
            0 < z,
            p >= 0,
    ;
    lemma_rounded_monotone(x * p, z, y * p, z);
}

/// Rounding to places moves a value by half a step at most.
pub proof fn lemma_to_places_near(v: int, dp: int)
    requires
        0 <= dp <= 28,
    ensures
        2 * v - pow10(28 - dp) <= 2 * to_places(v, dp) <= 2 * v + pow10(28 - dp),
{
    let p = pow10(28 - dp);
    let m = half_even(v, p);
    lemma_half_even_bounds(v, p);
    assert((2 * m - 1) * p == 2 * (m * p) - p && (2 * m + 1) * p == 2 * (m * p) + p)
        by (nonlinear_arith);
}

/// What a number is rounded to, where that is easy to tell: to the nearest unit, as long as its
/// coefficient then fits; not at all, where 14 digits behind the point are enough for it. With this
/// law in scope, results on given numbers can be computed.
pub broadcast proof fn law_rounded_value(n: int, d: int)
    requires
        d > 0,
    ensures
        #![trigger rounded(n, d)]
        -coefficient_limit() < half_even(n, d) < coefficient_limit() ==> rounded(n, d) == Some(
            half_even(n, d),
        ),
        n % (d * pow10(14)) == 0 && -coefficient_limit() < n / (d * pow10(14)) < coefficient_limit()
            ==> rounded(n, d) == Some(n / d),
{
    reveal(rounded);
    assert(d * 1 == d);
    assert(pow10(0) == 1);
    let m = half_even(n, d);
    assert(m * 1 == m);
    let p = pow10(14);
    let e = d * p;
    if n % e == 0 && -coefficient_limit() < n / e < coefficient_limit() {
        let c = n / e;
        assert(e > 0) by (nonlinear_arith)
            requires
                d > 0,
                p >= 1,
                e == d * p,
        ;
        assert(n == c * e) by (nonlinear_arith)
            requires
                e > 0,
                n % e == 0,
                c == n / e,
        ;
        assert(n == d * (c * p)) by (nonlinear_arith)
            requires
                n == c * e,
                e == d * p,
        ;
        let v = c * p;
        assert((d * v) / d == v) by (nonlinear_arith)
            requires
                d > 0,
        ;
        lemma_exact(n, d, c, 14);
    }
}

/// Where a quotient is not on the edge, as is easy to tell: it is below the largest coefficient at
/// 28 digits, has more than 28 digits, or 14 are enough for it. With this law in scope, quotients of
/// given numbers can be computed.
pub broadcast proof fn law_off_edge(x: int, y: int)
    requires
        y != 0,
    ensures
        #![trigger on_edge(x, y)]
        ({
            let n = (if x < 0 { -x } else { x }) * pow10(28);
            let d = if y < 0 { -y } else { y };
            n < coefficient_limit() * d || n % d != 0 || (n % (d * pow10(14)) == 0 && n / (d * pow10(
                14,
            )) < coefficient_limit())
        }) ==> !on_edge(x, y),
{
    reveal(on_edge);
    let a = if x < 0 {
        -x
    } else {
        x
    };
    let d = if y < 0 {
        -y
    } else {
        y
    };
    let n = a * pow10(28);
    if on_edge(x, y) {
        let t = choose|t: int| 1 <= t <= 28 && #[trigger] on_edge_at(x, y, t);
        let p = pow10(t);
        let q = pow10(28 - t);
        lemma_pow10_add(t, 28 - t);
        let c = (a * p) / d;
        assert(a * p == c * d) by (nonlinear_arith)
            requires
                d > 0,
                (a * p) % d == 0,
                c == (a * p) / d,
        ;
        assert(n == (c * q) * d) by (nonlinear_arith)
            requires
                n == a * (p * q),
                a * p == c * d,
        ;
        let whole = c * q;
        assert((whole * d) % d == 0) by (nonlinear_arith)
            requires
                d > 0,
        ;
        assert(whole >= coefficient_limit()) by (nonlinear_arith)
            requires
                whole == c * q,
                c >= coefficient_limit(),
                coefficient_limit() > 0,
                q >= 1,
        ;
        assert(n >= coefficient_limit() * d) by (nonlinear_arith)
            requires
                n == whole * d,
                whole >= coefficient_limit(),
                d > 0,
        ;
        let r = pow10(14);
        if n % (d * r) == 0 && n / (d * r) < coefficient_limit() {
            let e = n / (d * r);
            assert(d * r > 0) by (nonlinear_arith)
                requires
                    d > 0,
                    r >= 1,
            ;
            let dr = d * r;
            assert(n == e * dr) by (nonlinear_arith)
                requires
                    dr > 0,
                    n % dr == 0,
                    e == n / dr,
            ;
            assert(whole == e * r) by (nonlinear_arith)
                requires
                    n == whole * d,
                    n == e * dr,
                    dr == d * r,
                    d > 0,
            ;
            if t > 14 {
                let f = pow10(t - 14);
                let g = pow10(t - 15);
                lemma_pow10_add(t - 14, 28 - t);
                lemma_pow10_next(t - 15);
                assert(c == e * f) by (nonlinear_arith)
                    requires
                        c * q == e * (f * q),
                        q >= 1,
                ;
                assert(c == 10 * (e * g)) by (nonlinear_arith)
                    requires
                        c == e * f,
                        f == 10 * g,
                ;
            } else {
                let f = pow10(14 - t);
                lemma_pow10_add(14 - t, 14);
                assert(c * f == e) by (nonlinear_arith)
                    requires
                        c * (f * r) == e * r,
                        r >= 1,
                ;
                assert(c * f >= c) by (nonlinear_arith)
                    requires
                        c >= 0,
                        f >= 1,
                ;
            }
        }
    }
}

/// A number that is no larger than the largest decimal can be rounded to one.
pub proof fn lemma_fits(n: int, d: int)
    requires
        d > 0,
        -(coefficient_limit() - 1) * (d * pow10(28)) <= n,
        n <= (coefficient_limit() - 1) * (d * pow10(28)),
    ensures
        rounded(n, d) is Some,
{
    reveal(rounded);
    lemma_fits_from(n, d, 0);
}

/// The largest decimal, in units.
pub open spec fn max_units() -> int {
    (coefficient_limit() - 1) * pow10(28)
}

/// Sums up to the largest decimal do not overflow.
pub broadcast proof fn lemma_sum_fits(x: int, y: int)
    requires
        -max_units() <= x + y <= max_units(),
    ensures
        #[trigger] sum(Some(x), Some(y)) is Some,
{
    lemma_mul_sign(coefficient_limit() - 1, pow10(28));
    lemma_fits(x + y, 1);
}

/// Differences up to the largest decimal do not overflow.
pub broadcast proof fn lemma_difference_fits(x: int, y: int)
    requires
        -max_units() <= x - y <= max_units(),
    ensures
        #[trigger] difference(Some(x), Some(y)) is Some,
{
    lemma_mul_sign(coefficient_limit() - 1, pow10(28));
    lemma_fits(x - y, 1);
}

/// Products up to the largest decimal do not overflow.
pub broadcast proof fn lemma_product_fits(x: int, y: int)
    requires
        -max_units() * pow10(28) <= x * y <= max_units() * pow10(28),
    ensures
        #[trigger] product(Some(x), Some(y)) is Some,
{
    let l = coefficient_limit() - 1;
    let p = pow10(28);
    assert((l * p) * p == l * (p * p) && -(l * p) * p == -l * (p * p)) by (nonlinear_arith);
    lemma_mul_sign(l, p * p);
    lemma_mul_sign(l * p, p);
    lemma_fits(x * y, p);
}

/// Quotients up to the largest decimal do not overflow.
pub broadcast proof fn lemma_quotient_fits(x: int, y: int)
    requires
        y != 0,
        y > 0 ==> -max_units() * y <= x * pow10(28) <= max_units() * y,
        y < 0 ==> -max_units() * -y <= x * pow10(28) <= max_units() * -y,
    ensures
        #[trigger] quotient(Some(x), Some(y)) is Some,
{
    let l = coefficient_limit() - 1;
    let p = pow10(28);
    if y > 0 {
        assert((l * p) * y == l * (y * p) && -(l * p) * y == -l * (y * p)) by (nonlinear_arith);
        lemma_fits(x * p, y);
    } else {
        let z = -y;
        assert((l * p) * z == l * (z * p) && -(l * p) * z == -l * (z * p)) by (nonlinear_arith);
        assert(-x * p == -(x * p)) by (nonlinear_arith);
        lemma_mul_sign(l, z * p);
        lemma_mul_sign(l * p, z);
        lemma_fits(-x * p, z);
    }
}

/// Arithmetic within the largest decimal does not overflow.
pub broadcast group group_fits {
    lemma_sum_fits,
    lemma_difference_fits,
    lemma_product_fits,
    lemma_quotient_fits,
}

proof fn lemma_sign_from(n: int, d: int, k: int)
    requires
        d > 0,
        0 <= k,
        rounded_from(n, d, k) is Some,
    ensures
        n >= 0 ==> rounded_from(n, d, k)->0 >= 0,
        n <= 0 ==> rounded_from(n, d, k)->0 <= 0,
    decreases 29 - k,
{
    let p = pow10(k);
    lemma_pow10_positive(k);
    assert(d * p > 0) by (nonlinear_arith)
        requires
            d > 0,
            p >= 1,
    ;
    let m = half_even(n, d * p);
    let q = n / (d * p);
    assert(n >= 0 ==> q >= 0) by (nonlinear_arith)
        requires
            d * p > 0,
            q == n / (d * p),
    ;
    if n <= 0 {
        let bound = n / (d * p) - 1;
        assert(bound * (d * p) <= n) by (nonlinear_arith)
            requires
                d * p > 0,
                bound == n / (d * p) - 1,
        ;
        assert(n <= 0 * (d * p)) by (nonlinear_arith)
            requires
                n <= 0,
        ;
        lemma_half_even_between(n, d * p, bound, 0);
    }
    lemma_mul_sign(m, p);
    lemma_mul_sign(-m, p);
    if !(-coefficient_limit() < m < coefficient_limit()) {
        lemma_sign_from(n, d, k + 1);
    }
}

/// Rounding keeps the sign.
pub proof fn lemma_sign(n: int, d: int)
    requires
        d > 0,
        rounded(n, d) is Some,
    ensures
        n >= 0 ==> rounded(n, d)->0 >= 0,
        n <= 0 ==> rounded(n, d)->0 <= 0,
{
    reveal(rounded);
    lemma_sign_from(n, d, 0);
}

/// Whether a value in units can be written as a decimal.
pub open spec fn representable(v: int) -> bool {
    exists|m: int, k: int|
        -coefficient_limit() < m < coefficient_limit() && 0 <= k <= 28 && v == #[trigger] (m
            * pow10(k))
}

/// A value that can be written as a decimal is not rounded.
pub proof fn lemma_unrounded(v: int)
    requires
        representable(v),
    ensures
        rounded(v, 1) == Some(v),
{
    let (m, k) = choose|m: int, k: int|
        -coefficient_limit() < m < coefficient_limit() && 0 <= k <= 28 && v == #[trigger] (m
            * pow10(k));
    lemma_exact(v, 1, m, k);
}

/// A result that can be written as a decimal is not rounded.
pub proof fn lemma_exact_value(n: int, d: int, v: int)
    requires
        d > 0,
        representable(v),
        n == d * v,
    ensures
        rounded(n, d) == Some(v),
{
    let (m, k) = choose|m: int, k: int|
        -coefficient_limit() < m < coefficient_limit() && 0 <= k <= 28 && v == #[trigger] (m
            * pow10(k));
    lemma_exact(n, d, m, k);
}

proof fn lemma_near_from(n: int, d: int, k: int, j: int)
    requires
        d > 0,
        0 <= j <= k <= 28,
        -(coefficient_limit() - 1) * (d * pow10(k)) <= n,
        n <= (coefficient_limit() - 1) * (d * pow10(k)),
    ensures
        rounded_from(n, d, j) is Some,
        -(d * pow10(k)) <= 2 * (rounded_from(n, d, j)->0 * d) - 2 * n <= d * pow10(k),
    decreases k - j,
{
    let p = pow10(j);
    let q = pow10(k);
    let e = d * p;
    lemma_pow10_positive(j);
    lemma_pow10_add(k - j, j);
    lemma_pow10_positive(k - j);
    assert(p <= q) by (nonlinear_arith)
        requires
            q == pow10(k - j) * p,
            pow10(k - j) >= 1,
            p >= 1,
    ;
    assert(0 < e <= d * q) by (nonlinear_arith)
        requires
            e == d * p,
            1 <= p <= q,
            d > 0,
    ;
    let m = half_even(n, e);
    if j == k {
        lemma_half_even_between(n, e, -(coefficient_limit() - 1), coefficient_limit() - 1);
    }
    if -coefficient_limit() < m < coefficient_limit() {
        lemma_half_even_bounds(n, e);
        let v = m * p;
        assert((2 * m - 1) * e == 2 * (v * d) - e && (2 * m + 1) * e == 2 * (v * d) + e)
            by (nonlinear_arith)
            requires
                v == m * p,
                e == d * p,
        ;
    } else {
        lemma_near_from(n, d, k, j + 1);
    }
}

/// How far a number is moved that fits with `28 - k` digits behind the point: by half a step of
/// that scale at most.
pub proof fn lemma_rounded_near(n: int, d: int, k: int)
    requires
        d > 0,
        0 <= k <= 28,
        -(coefficient_limit() - 1) * (d * pow10(k)) <= n,
        n <= (coefficient_limit() - 1) * (d * pow10(k)),
    ensures
        rounded(n, d) is Some,
        -(d * pow10(k)) <= 2 * (rounded(n, d)->0 * d) - 2 * n <= d * pow10(k),
{
    reveal(rounded);
    lemma_near_from(n, d, k, 0);
}

proof fn lemma_rounded_from_representable(n: int, d: int, k: int)
    requires
        rounded_from(n, d, k) is Some,
    ensures
        representable(rounded_from(n, d, k)->0),
    decreases 29 - k,
{
    let m = half_even(n, d * pow10(k));
    if !(-coefficient_limit() < m < coefficient_limit()) {
        lemma_rounded_from_representable(n, d, k + 1);
    }
}

/// What arithmetic gives back can be written as a decimal.
pub proof fn lemma_rounded_representable(n: int, d: int)
    requires
        rounded(n, d) is Some,
    ensures
        representable(rounded(n, d)->0),
{
    reveal(rounded);
    lemma_rounded_from_representable(n, d, 0);
}

proof fn lemma_at_most_from(n: int, d: int, m: int, j: int, k: int)
    requires
        0 <= n,
        0 < d,
        0 <= k <= j <= 28,
        0 <= m < coefficient_limit(),
        n <= d * (m * pow10(j)),
    ensures
        rounded_from(n, d, k) is Some,
        0 <= rounded_from(n, d, k)->0 <= m * pow10(j),
    decreases j - k,
{
    let p = pow10(k);
    let q = pow10(j - k);
    lemma_pow10_add(j - k, k);
    lemma_pow10_positive(k);
    lemma_pow10_positive(j - k);
    assert(d * p > 0) by (nonlinear_arith)
        requires
            d > 0,
            p >= 1,
    ;
    assert(d * (m * (q * p)) == (m * q) * (d * p)) by (nonlinear_arith);
    lemma_half_even_between(n, d * p, 0, m * q);
    let h = half_even(n, d * p);
    assert(0 <= h * p <= (m * q) * p) by (nonlinear_arith)
        requires
            0 <= h <= m * q,
            p >= 1,
    ;
    assert((m * q) * p == m * (q * p)) by (nonlinear_arith);
    if k < j {
        lemma_at_most_from(n, d, m, j, k + 1);
    } else {
        assert(m * q == m) by (nonlinear_arith)
            requires
                q == 1,
        ;
    }
}

/// Rounding a number that is not negative never goes beyond a decimal that is not below it.
pub proof fn lemma_at_most(n: int, d: int, v: int)
    requires
        0 <= n,
        0 < d,
        0 <= v,
        representable(v),
        n <= d * v,
    ensures
        rounded(n, d) is Some,
        0 <= rounded(n, d)->0 <= v,
{
    reveal(rounded);
    let (m, j) = choose|m: int, k: int|
        -coefficient_limit() < m < coefficient_limit() && 0 <= k <= 28 && v == #[trigger] (m
            * pow10(k));
    lemma_pow10_positive(j);
    lemma_mul_sign(m, pow10(j));
    lemma_at_most_from(n, d, m, j, 0);
}

/// Scaling a decimal by a factor from 0 to 1 does not make it larger.
pub proof fn lemma_product_shrinks(x: int, y: int)
    requires
        0 <= x,
        representable(x),
        0 <= y <= units(1, 0),
    ensures
        product(Some(x), Some(y)) is Some,
        0 <= product(Some(x), Some(y))->0 <= x,
{
    let one = pow10(28);
    assert(units(1, 0) == one);
    assert(0 <= x * y && x * y <= one * x) by (nonlinear_arith)
        requires
            0 <= x,
            0 <= y <= one,
    ;
    lemma_at_most(x * y, one, x);
}

/// Seconds as minutes.
pub open spec fn minutes_in(seconds: i64) -> Option<int> {
    quotient(lit(seconds as int, 0), lit(60, 0))
}

/// Any number of seconds has a number of minutes.
pub proof fn lemma_minutes_fit(seconds: i64)
    ensures
        minutes_in(seconds) is Some,
{
    let p = pow10(28);
    let n = seconds as int;
    assert((n * p) * p <= (coefficient_limit() - 1) * ((60 * p) * p) && -(coefficient_limit() - 1) * (
    (60 * p) * p) <= (n * p) * p) by (nonlinear_arith)
        requires
            -0x8000_0000_0000_0000 <= n < 0x8000_0000_0000_0000,
            p == 10000000000000000000000000000int,
            coefficient_limit() == 79228162514264337593543950336int,
    ;
    lemma_fits((n * p) * p, 60 * p);
}

/// Seconds as minutes.
pub fn minutes_of(seconds: i64) -> (r: Decimal)
    ensures
        Some(r@) == minutes_in(seconds),
{
    proof {
        lemma_minutes_fit(seconds);
    }
    Decimal::from_i64(seconds).over(Decimal::new(60, 0))
}

/// The product of two literals is exact as long as it can be written down.
pub proof fn lemma_lit_product(a: int, s: int, b: int, t: int)
    requires
        0 <= s,
        0 <= t,
        s + t <= 28,
        -coefficient_limit() < a * b < coefficient_limit(),
    ensures
        product(lit(a, s), lit(b, t)) == lit(a * b, s + t),
{
    let x = pow10(28 - s);
    let y = pow10(28 - t);
    let z = pow10(28 - s - t);
    lemma_pow10_add(28 - s - t, t);
    lemma_pow10_add(28 - t, t);
    assert((a * x) * (b * y) == pow10(28) * ((a * b) * z)) by (nonlinear_arith)
        requires
            x == z * pow10(t),
            pow10(28) == y * pow10(t),
    ;
    lemma_exact((a * x) * (b * y), pow10(28), a * b, 28 - s - t);
}

/// The sum of two literals of one scale is exact as long as it can be written down.
pub proof fn lemma_lit_sum(a: int, b: int, s: int)
    requires
        0 <= s <= 28,
        -coefficient_limit() < a + b < coefficient_limit(),
    ensures
        sum(lit(a, s), lit(b, s)) == lit(a + b, s),
{
    let x = pow10(28 - s);
    assert(a * x + b * x == 1 * ((a + b) * x)) by (nonlinear_arith);
    lemma_exact(a * x + b * x, 1, a + b, 28 - s);
}

/// The difference of two literals of one scale is exact as long as it can be written down.
pub proof fn lemma_lit_difference(a: int, b: int, s: int)
    requires
        0 <= s <= 28,
        -coefficient_limit() < a - b < coefficient_limit(),
    ensures
        difference(lit(a, s), lit(b, s)) == lit(a - b, s),
{
    let x = pow10(28 - s);
    assert(a * x - b * x == 1 * ((a - b) * x)) by (nonlinear_arith);
    lemma_exact(a * x - b * x, 1, a - b, 28 - s);
}

proof fn lemma_mul_zero(m: int, p: int)
    requires
        p >= 1,
    ensures
        (m * p == 0) <==> m == 0,
{
    if m > 0 {
        assert(m * p >= 1) by (nonlinear_arith)
            requires
                m > 0,
                p >= 1,
        ;
    } else if m < 0 {
        assert(m * p <= -1) by (nonlinear_arith)
            requires
                m < 0,
                p >= 1,
        ;
    }
}

proof fn lemma_mul_sign(m: int, p: int)
    ensures
        (-m) * p == -(m * p),
        p >= 1 && m < 0 ==> m * p < 0,
        p >= 1 && m >= 0 ==> m * p >= 0,
{
    assert((-m) * p == -(m * p)) by (nonlinear_arith);
    if p >= 1 {
        if m < 0 {
            assert(m * p < 0) by (nonlinear_arith)
                requires
                    m < 0,
                    p >= 1,
            ;
        } else {
            assert(m * p >= 0) by (nonlinear_arith)
                requires
                    m >= 0,
                    p >= 1,
            ;
        }
    }
}

/// Rounding the negated number gives the negated result.
pub proof fn lemma_rounded_negated(n: int, d: int)
    requires
        d > 0,
    ensures
        rounded(n, d) is Some <==> rounded(-n, d) is Some,
        rounded(n, d) is Some ==> rounded(-n, d) == Some(-rounded(n, d)->0),
{
    reveal(rounded);
    lemma_rounded_from_negated(n, d, 0);
}

/// Whether a quotient is on the edge does not depend on the signs.
pub proof fn lemma_edge_sign(x: int, y: int)
    ensures
        on_edge(x, y) == on_edge(-x, y),
        on_edge(x, y) == on_edge(x, -y),
{
    reveal(on_edge);
    if on_edge(x, y) {
        let t = choose|t: int| 1 <= t <= 28 && #[trigger] on_edge_at(x, y, t);
        assert(on_edge_at(-x, y, t));
        assert(on_edge_at(x, -y, t));
    }
    if on_edge(-x, y) {
        let t = choose|t: int| 1 <= t <= 28 && #[trigger] on_edge_at(-x, y, t);
        assert(on_edge_at(x, y, t));
    }
    if on_edge(x, -y) {
        let t = choose|t: int| 1 <= t <= 28 && #[trigger] on_edge_at(x, -y, t);
        assert(on_edge_at(x, y, t));
    }
}

/// Quotients have the sign of the dividend over a positive divisor, and grow with it.
pub proof fn lemma_quotient_sign(x: int, y: int)
    requires
        y > 0,
        quotient(Some(x), Some(y)) is Some,
    ensures
        x >= 0 ==> quotient(Some(x), Some(y))->0 >= 0,
        x <= 0 ==> quotient(Some(x), Some(y))->0 <= 0,
{
    let p = pow10(28);
    assert((x >= 0 ==> x * p >= 0) && (x <= 0 ==> x * p <= 0)) by (nonlinear_arith)
        requires
            p > 0,
    ;
    lemma_sign(x * p, y);
}

/// The smaller and the larger of two numbers are the two numbers, in order; a number brought into
/// an interval lies in it, and stays where it was if it lay there.
pub proof fn law_smaller_and_larger(x: int, y: int, lo: int, hi: int)
    requires
        lo <= hi,
    ensures
        lesser(Some(x), Some(y))->0 + greater(Some(x), Some(y))->0 == x + y,
        lesser(Some(x), Some(y))->0 <= greater(Some(x), Some(y))->0,
        lesser(Some(x), Some(y)) == Some(x) || lesser(Some(x), Some(y)) == Some(y),
        lo <= clamped(Some(x), Some(lo), Some(hi))->0 <= hi,
        lo <= x <= hi ==> clamped(Some(x), Some(lo), Some(hi)) == Some(x),
        x < lo ==> clamped(Some(x), Some(lo), Some(hi)) == Some(lo),
        x > hi ==> clamped(Some(x), Some(lo), Some(hi)) == Some(hi),
        magnitude(Some(x))->0 >= 0,
        magnitude(Some(x)) == magnitude(Some(-x)),
        magnitude(Some(x))->0 == x || magnitude(Some(x))->0 == -x,
        negated(negated(Some(x))) == Some(x),
        negated(Some(x))->0 + x == 0,
{
}

/// Sums, differences, products and quotients of numbers whose exact result is a decimal are exact,
/// and adding and taking away undo each other there, as do multiplying and dividing.
pub proof fn law_arithmetic_is_exact(x: int, y: int)
    ensures
        representable(x + y) ==> sum(Some(x), Some(y)) == Some(x + y),
        representable(x - y) ==> difference(Some(x), Some(y)) == Some(x - y),
        representable(x) && representable(x + y) ==> difference(
            sum(Some(x), Some(y)),
            Some(y),
        ) == Some(x),
        sum(Some(x), Some(y)) == sum(Some(y), Some(x)),
        product(Some(x), Some(y)) == product(Some(y), Some(x)),
        representable(x) ==> product(Some(x), lit(1, 0)) == Some(x),
        representable(x) ==> quotient(Some(x), lit(1, 0)) == Some(x),
        representable(x) && x > 0 ==> quotient(Some(x), Some(x)) == lit(1, 0),
{
    let p = pow10(28);
    if representable(x + y) {
        lemma_unrounded(x + y);
    }
    if representable(x - y) {
        lemma_unrounded(x - y);
    }
    if representable(x) {
        lemma_unrounded(x);
        assert(x + y - y == x);
        assert(units(1, 0) == p);
        assert(x * p == p * x) by (nonlinear_arith);
        lemma_exact_value(x * p, p, x);
        if x > 0 {
            assert(p == 1 * pow10(28));
            assert(representable(p));
            lemma_exact_value(x * p, x, p);
        }
    }
    assert(x * y == y * x) by (nonlinear_arith);
}

/// Cutting off towards zero: what is cut off is less than one, and has the sign of the number.
/// Rounding down to whole numbers never goes up, and never by one or more.
pub proof fn law_whole_parts(v: int)
    ensures
        v >= 0 ==> 0 <= v - units(integer_part(v), 0) < units(1, 0),
        v <= 0 ==> -units(1, 0) < v - units(integer_part(v), 0) <= 0,
        0 <= v - rounded_down(v) < units(1, 0),
        rounded_down(v) % units(1, 0) == 0,
        whole_u64(v) is Some ==> v >= 0 && whole_u64(v)->0 == integer_part(v),
        whole_u32(v) is Some ==> v >= 0 && whole_u32(v)->0 == integer_part(v),
        whole_i64(v) is Some ==> whole_i64(v)->0 == integer_part(v),
        whole_i32(v) is Some ==> whole_i32(v)->0 == integer_part(v),
        0 <= v < units(1_000_000_000, 0) ==> whole_u64(v) is Some && whole_u32(v) is Some
            && whole_i64(v) is Some && whole_i32(v) is Some,
{
    let p = pow10(28);
    let w = -v;
    assert(v == (v / p) * p + v % p && 0 <= v % p < p) by (nonlinear_arith)
        requires
            p > 0,
    ;
    assert(w == (w / p) * p + w % p && 0 <= w % p < p) by (nonlinear_arith)
        requires
            p > 0,
    ;
    let q = v / p;
    assert((q * p) % p == 0) by (nonlinear_arith)
        requires
            p > 0,
    ;
    assert((-(w / p)) * p == -((w / p) * p)) by (nonlinear_arith);
    if v == 0 {
        assert(0int / p == 0) by (nonlinear_arith)
            requires
                p > 0,
        ;
    }
    if 0 <= v < units(1_000_000_000, 0) {
        assert(0 <= q < 1_000_000_000) by (nonlinear_arith)
            requires
                q == v / p,
                0 <= v < 1_000_000_000 * p,
                p > 0,
        ;
    }
}

/// So many times a value.
pub open spec fn multiple(n: int, v: int) -> int {
    n * v
}

/// A list of equal numbers sums up to its length times the number, and its mean is the number, as
/// long as the sums on the way are decimals.
pub proof fn law_mean_of_equals(s: Seq<Decimal>, v: int)
    requires
        s.len() > 0,
        forall|i: int| 0 <= i < s.len() ==> (#[trigger] s[i])@ == v,
        forall|n: int| 0 <= n <= s.len() ==> representable(#[trigger] multiple(n, v)),
    ensures
        total(s) == Some(multiple(s.len() as int, v)),
        quotient(total(s), lit(s.len() as int, 0)) == Some(v),
    decreases s.len(),
{
    let n = s.len() as int;
    let p = pow10(28);
    let rest = s.drop_last();
    if rest.len() > 0 {
        law_mean_of_equals(rest, v);
    }
    assert(multiple(n - 1, v) + v == multiple(n, v)) by (nonlinear_arith)
        requires
            multiple(n - 1, v) == (n - 1) * v,
            multiple(n, v) == n * v,
    ;
    assert(multiple(0, v) == 0);
    assert(total(rest) == Some(multiple(n - 1, v)));
    assert(s[n - 1]@ == v);
    assert(representable(multiple(n, v)));
    law_arithmetic_is_exact(multiple(n - 1, v), v);
    assert(multiple(1, v) == v);
    assert(representable(multiple(1, v)));
    assert((n * v) * p == (n * p) * v && n * p > 0) by (nonlinear_arith)
        requires
            n > 0,
            p > 0,
    ;
    lemma_exact_value((n * v) * p, n * p, v);
}

} // verus!
