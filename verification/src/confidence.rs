//! Confidence factors for order sizing.
//!
//! Four factors are derived from market conditions and combined into one multiplier:
//! `(time * distance * signal * book)^0.25 * 1.5`, kept between 0.5 and 3.

use vstd::prelude::*;
use crate::decimal::{
    Decimal, clamped, lemma_lit_product, lit, num, pow10, product, units,
};
use crate::signal::Signal;

verus! {

/// Smallest multiplier: half the base size.
pub fn min_multiplier() -> (r: Decimal)
    ensures
        r@ == units(5, 1),
{
    Decimal::new(5, 1)
}

/// Largest multiplier: three times the base size.
pub fn max_multiplier() -> (r: Decimal)
    ensures
        r@ == units(3, 0),
{
    Decimal::new(3, 0)
}

/// Market conditions from which confidence is derived.
#[derive(Clone, Copy, Debug)]
pub struct ConfidenceFactors {
    /// Distance from spot price to strike, in dollars.
    pub distance_to_strike: Decimal,
    /// Minutes remaining in the window.
    pub minutes_remaining: Decimal,
    /// Directional signal.
    pub signal: Signal,
    /// Order book imbalance, from -1 (all asks) to +1 (all bids).
    pub book_imbalance: Decimal,
    /// Depth on our side of the book, in dollars.
    pub favorable_depth: Decimal,
}

impl ConfidenceFactors {
    /// Factors with the given values.
    pub fn new(
        distance_to_strike: Decimal,
        minutes_remaining: Decimal,
        signal: Signal,
        book_imbalance: Decimal,
        favorable_depth: Decimal,
    ) -> (r: ConfidenceFactors)
        ensures
            r == (ConfidenceFactors {
                distance_to_strike,
                minutes_remaining,
                signal,
                book_imbalance,
                favorable_depth,
            }),
    {
        ConfidenceFactors {
            distance_to_strike,
            minutes_remaining,
            signal,
            book_imbalance,
            favorable_depth,
        }
    }

    /// Factors to use where none are known: mid-market, some distance, no signal.
    pub fn neutral() -> (r: ConfidenceFactors)
        ensures
            r.distance_to_strike@ == units(25, 0),
            r.minutes_remaining@ == units(7, 0),
            r.signal == Signal::Neutral,
            r.book_imbalance@ == 0,
            r.favorable_depth@ == units(15000, 0),
    {
        ConfidenceFactors {
            distance_to_strike: Decimal::new(25, 0),
            minutes_remaining: Decimal::new(7, 0),
            signal: Signal::Neutral,
            book_imbalance: Decimal::zero(),
            favorable_depth: Decimal::new(15000, 0),
        }
    }
}

/// The four factors of a multiplier.
#[derive(Clone, Copy, Debug)]
pub struct Confidence {
    /// Higher with less time left and far from the strike.
    pub time: Decimal,
    /// Higher far from the strike.
    pub distance: Decimal,
    /// Higher with a strong signal.
    pub signal: Decimal,
    /// Higher with a deep and lopsided book.
    pub book: Decimal,
}

impl Confidence {
    /// Product of the four factors.
    pub open spec fn combined(self) -> Option<int> {
        product(
            product(product(num(self.time), num(self.distance)), num(self.signal)),
            num(self.book),
        )
    }

    /// Confidence with the given factors.
    pub fn new(time: Decimal, distance: Decimal, signal: Decimal, book: Decimal) -> (r: Confidence)
        ensures
            r == (Confidence { time, distance, signal, book }),
    {
        Confidence { time, distance, signal, book }
    }

    /// Product of the four factors, whose fourth root is their geometric mean.
    pub fn factor_product(&self) -> (r: Decimal)
        requires
            self.combined() is Some,
        ensures
            Some(r@) == self.combined(),
    {
        self.time.times(self.distance).times(self.signal).times(self.book)
    }

    /// The multiplier: `scaled_root`, which is 1.5 times the fourth root of `factor_product`,
    /// kept between 0.5 and 3.
    pub fn total_multiplier(&self, scaled_root: Decimal) -> (r: Decimal)
        ensures
            Some(r@) == clamped(num(scaled_root), lit(5, 1), lit(3, 0)),
            units(5, 1) <= r@ <= units(3, 0),
    {
        scaled_root.clamp(min_multiplier(), max_multiplier())
    }

    /// All factors one.
    pub fn neutral() -> (r: Confidence)
        ensures
            r.time@ == units(1, 0),
            r.distance@ == units(1, 0),
            r.signal@ == units(1, 0),
            r.book@ == units(1, 0),
    {
        Confidence {
            time: Decimal::one(),
            distance: Decimal::one(),
            signal: Decimal::one(),
            book: Decimal::one(),
        }
    }

    /// All factors at the low end.
    pub fn low() -> (r: Confidence)
        ensures
            r.time@ == units(6, 1),
            r.distance@ == units(6, 1),
            r.signal@ == units(7, 1),
            r.book@ == units(9, 1),
    {
        Confidence {
            time: Decimal::new(6, 1),
            distance: Decimal::new(6, 1),
            signal: Decimal::new(7, 1),
            book: Decimal::new(9, 1),
        }
    }

    /// All factors at the high end.
    pub fn high() -> (r: Confidence)
        ensures
            r.time@ == units(16, 1),
            r.distance@ == units(15, 1),
            r.signal@ == units(14, 1),
            r.book@ == units(12, 1),
    {
        Confidence {
            time: Decimal::new(16, 1),
            distance: Decimal::new(15, 1),
            signal: Decimal::new(14, 1),
            book: Decimal::new(12, 1),
        }
    }
}

impl Default for Confidence {
    fn default() -> (r: Confidence)
        ensures
            r.time@ == units(1, 0),
            r.distance@ == units(1, 0),
            r.signal@ == units(1, 0),
            r.book@ == units(1, 0),
    {
        Confidence::neutral()
    }
}

/// Absolute value of an integer.
pub open spec fn abs_of(v: int) -> int {
    if v < 0 { -v } else { v }
}

/// Time factor before the distance is considered, in tenths.
pub open spec fn time_tenths(minutes: int) -> int {
    if minutes > units(12, 0) {
        6
    } else if minutes > units(9, 0) {
        8
    } else if minutes > units(6, 0) {
        10
    } else if minutes > units(3, 0) {
        13
    } else {
        16
    }
}

/// How much of the time factor counts at a distance from the strike, in tenths.
pub open spec fn nearness_tenths(distance: int) -> int {
    if abs_of(distance) > units(50, 0) {
        10
    } else if abs_of(distance) > units(20, 0) {
        8
    } else {
        5
    }
}

/// Time confidence for the minutes remaining and the distance in dollars, both in units.
pub open spec fn time_confidence_at(minutes: int, distance: int) -> int {
    units(time_tenths(minutes) * nearness_tenths(distance), 2)
}

/// Distance confidence for a distance in dollars, in units.
pub open spec fn distance_confidence_at(distance: int) -> int {
    if abs_of(distance) > units(100, 0) {
        units(15, 1)
    } else if abs_of(distance) > units(50, 0) {
        units(13, 1)
    } else if abs_of(distance) > units(30, 0) {
        units(11, 1)
    } else if abs_of(distance) > units(20, 0) {
        units(1, 0)
    } else if abs_of(distance) > units(10, 0) {
        units(8, 1)
    } else {
        units(6, 1)
    }
}

/// Signal confidence.
pub open spec fn signal_confidence_of(signal: Signal) -> int {
    match signal {
        Signal::StrongUp | Signal::StrongDown => units(14, 1),
        Signal::LeanUp | Signal::LeanDown => units(11, 1),
        Signal::Neutral => units(7, 1),
    }
}

/// Factor for the imbalance of a book, in tenths.
pub open spec fn imbalance_tenths(imbalance: int) -> int {
    if abs_of(imbalance) > units(3, 1) {
        12
    } else {
        10
    }
}

/// Factor for the depth of a book, in tenths.
pub open spec fn depth_tenths(depth: int) -> int {
    if depth > units(50000, 0) {
        12
    } else if depth > units(20000, 0) {
        11
    } else if depth < units(5000, 0) {
        9
    } else {
        10
    }
}

/// Book confidence for an imbalance and a depth, both in units.
pub open spec fn book_confidence_at(imbalance: int, depth: int) -> int {
    units(imbalance_tenths(imbalance) * depth_tenths(depth), 2)
}

/// Derives confidence from market conditions.
#[derive(Clone, Debug)]
pub struct ConfidenceCalculator;

impl ConfidenceCalculator {
    /// All four factors.
    pub fn calculate(factors: &ConfidenceFactors) -> (r: Confidence)
        ensures
            r.time@ == time_confidence_at(
                factors.minutes_remaining@,
                factors.distance_to_strike@,
            ),
            r.distance@ == distance_confidence_at(factors.distance_to_strike@),
            r.signal@ == signal_confidence_of(factors.signal),
            r.book@ == book_confidence_at(factors.book_imbalance@, factors.favorable_depth@),
    {
        Confidence {
            time: Self::time_confidence(factors.minutes_remaining, factors.distance_to_strike),
            distance: Self::distance_confidence(factors.distance_to_strike),
            signal: Self::signal_confidence(factors.signal),
            book: Self::book_confidence(factors.book_imbalance, factors.favorable_depth),
        }
    }

    /// Time confidence: higher with less time left, as far as the price is away from the strike.
    pub fn time_confidence(minutes_remaining: Decimal, distance: Decimal) -> (r: Decimal)
        ensures
            r@ == time_confidence_at(minutes_remaining@, distance@),
    {
        let time_factor = if minutes_remaining > Decimal::new(12, 0) {
            Decimal::new(6, 1)
        } else if minutes_remaining > Decimal::new(9, 0) {
            Decimal::new(8, 1)
        } else if minutes_remaining > Decimal::new(6, 0) {
            Decimal::new(10, 1)
        } else if minutes_remaining > Decimal::new(3, 0) {
            Decimal::new(13, 1)
        } else {
            Decimal::new(16, 1)
        };
        let abs_distance = distance.abs();
        let distance_modifier = if abs_distance > Decimal::new(50, 0) {
            Decimal::new(10, 1)
        } else if abs_distance > Decimal::new(20, 0) {
            Decimal::new(8, 1)
        } else {
            Decimal::new(5, 1)
        };
        proof {
            let a = time_tenths(minutes_remaining@);
            let b = nearness_tenths(distance@);
            assert(0 <= a * b <= 160) by (nonlinear_arith)
                requires
                    0 <= a <= 16,
                    0 <= b <= 10,
            ;
            lemma_lit_product(a, 1, b, 1);
        }
        time_factor.times(distance_modifier)
    }

    /// Distance confidence: higher far from the strike.
    pub fn distance_confidence(distance: Decimal) -> (r: Decimal)
        ensures
            r@ == distance_confidence_at(distance@),
    {
        let abs_distance = distance.abs();
        if abs_distance > Decimal::new(100, 0) {
            Decimal::new(15, 1)
        } else if abs_distance > Decimal::new(50, 0) {
            Decimal::new(13, 1)
        } else if abs_distance > Decimal::new(30, 0) {
            Decimal::new(11, 1)
        } else if abs_distance > Decimal::new(20, 0) {
            Decimal::one()
        } else if abs_distance > Decimal::new(10, 0) {
            Decimal::new(8, 1)
        } else {
            Decimal::new(6, 1)
        }
    }

    /// Signal confidence: higher with a strong signal.
    pub fn signal_confidence(signal: Signal) -> (r: Decimal)
        ensures
            r@ == signal_confidence_of(signal),
    {
        match signal {
            Signal::StrongUp | Signal::StrongDown => Decimal::new(14, 1),
            Signal::LeanUp | Signal::LeanDown => Decimal::new(11, 1),
            Signal::Neutral => Decimal::new(7, 1),
        }
    }

    /// Book confidence: higher with a lopsided and deep book.
    pub fn book_confidence(imbalance: Decimal, favorable_depth: Decimal) -> (r: Decimal)
        ensures
            r@ == book_confidence_at(imbalance@, favorable_depth@),
    {
        let imbalance_factor = if imbalance.abs() > Decimal::new(3, 1) {
            Decimal::new(12, 1)
        } else {
            Decimal::new(10, 1)
        };
        let depth_factor = if favorable_depth > Decimal::new(50000, 0) {
            Decimal::new(12, 1)
        } else if favorable_depth > Decimal::new(20000, 0) {
            Decimal::new(11, 1)
        } else if favorable_depth < Decimal::new(5000, 0) {
            Decimal::new(9, 1)
        } else {
            Decimal::new(10, 1)
        };
        proof {
            let a = imbalance_tenths(imbalance@);
            let b = depth_tenths(favorable_depth@);
            assert(0 <= a * b <= 144) by (nonlinear_arith)
                requires
                    0 <= a <= 12,
                    0 <= b <= 12,
            ;
            lemma_lit_product(a, 1, b, 1);
        }
        imbalance_factor.times(depth_factor)
    }
}

/// Every factor that the calculator derives stays within its documented range.
pub proof fn law_factor_ranges(minutes: int, distance: int, signal: Signal, imbalance: int, depth: int)
    ensures
        units(30, 2) <= time_confidence_at(minutes, distance) <= units(16, 1),
        units(6, 1) <= distance_confidence_at(distance) <= units(15, 1),
        units(7, 1) <= signal_confidence_of(signal) <= units(14, 1),
        units(9, 1) <= book_confidence_at(imbalance, depth) <= units(144, 2),
{
    let a = time_tenths(minutes);
    let b = nearness_tenths(distance);
    assert(30 <= a * b <= 160) by (nonlinear_arith)
        requires
            6 <= a <= 16,
            5 <= b <= 10,
    ;
    let c = imbalance_tenths(imbalance);
    let d = depth_tenths(depth);
    assert(90 <= c * d <= 144) by (nonlinear_arith)
        requires
            10 <= c <= 12,
            9 <= d <= 12,
    ;
    let p = pow10(26);
    let m = c * d;
    assert(90 * p <= m * p <= 144 * p) by (nonlinear_arith)
        requires
            90 <= m <= 144,
            p >= 0,
    ;
}

/// Less time remaining and a larger distance never lower the time confidence.
pub proof fn law_time_confidence_monotone(earlier: int, later: int, near: int, far: int)
    requires
        later <= earlier,
        abs_of(near) <= abs_of(far),
    ensures
        time_confidence_at(earlier, near) <= time_confidence_at(later, far),
        distance_confidence_at(near) <= distance_confidence_at(far),
{
    let a = time_tenths(earlier);
    let b = nearness_tenths(near);
    let c = time_tenths(later);
    let d = nearness_tenths(far);
    assert(a * b <= c * d) by (nonlinear_arith)
        requires
            0 <= a <= c,
            0 <= b <= d,
    ;
}

/// A stronger signal gives more confidence, whatever its direction.
pub proof fn law_signal_confidence_ordered()
    ensures
        signal_confidence_of(Signal::StrongUp) == signal_confidence_of(Signal::StrongDown),
        signal_confidence_of(Signal::LeanUp) == signal_confidence_of(Signal::LeanDown),
        signal_confidence_of(Signal::StrongUp) > signal_confidence_of(Signal::LeanUp),
        signal_confidence_of(Signal::LeanUp) > signal_confidence_of(Signal::Neutral),
{
}

/// A deeper and more lopsided book never lowers the book confidence.
pub proof fn law_book_confidence_monotone(even: int, lopsided: int, shallow: int, deep: int)
    requires
        abs_of(even) <= abs_of(lopsided),
        shallow <= deep,
    ensures
        book_confidence_at(even, shallow) <= book_confidence_at(lopsided, deep),
{
    let a = imbalance_tenths(even);
    let b = depth_tenths(shallow);
    let c = imbalance_tenths(lopsided);
    let d = depth_tenths(deep);
    assert(a * b <= c * d) by (nonlinear_arith)
        requires
            0 <= a <= c,
            0 <= b <= d,
    ;
}

/// Neither side of the strike nor the direction of an imbalance matters to confidence, only how far
/// and how much; a signal counts the same up and down.
pub proof fn law_confidence_has_no_side(minutes: int, distance: int, imbalance: int, depth: int)
    ensures
        time_confidence_at(minutes, -distance) == time_confidence_at(minutes, distance),
        distance_confidence_at(-distance) == distance_confidence_at(distance),
        book_confidence_at(-imbalance, depth) == book_confidence_at(imbalance, depth),
        signal_confidence_of(Signal::StrongUp) == signal_confidence_of(Signal::StrongDown),
        signal_confidence_of(Signal::LeanUp) == signal_confidence_of(Signal::LeanDown),
{
}

/// A larger distance never lowers distance confidence, and a deeper or more lopsided book never lowers
/// book confidence; near the strike time counts only half.
pub proof fn law_more_is_never_less(near: int, far: int, small: int, large: int, minutes: int)
    requires
        0 <= near <= far,
        0 <= small <= large,
    ensures
        distance_confidence_at(near) <= distance_confidence_at(far),
        imbalance_tenths(near) <= imbalance_tenths(far),
        depth_tenths(small) <= depth_tenths(large),
        far <= units(20, 0) ==> 2 * time_confidence_at(minutes, far) == units(
            time_tenths(minutes),
            1,
        ),
        near > units(50, 0) ==> time_confidence_at(minutes, near) == units(time_tenths(minutes), 1),
{
    let t = time_tenths(minutes);
    let p = crate::decimal::pow10(26);
    assert(2 * ((t * 5) * p) == t * (10 * p) && (t * 10) * p == t * (10 * p)) by (nonlinear_arith);
}

} // verus!
