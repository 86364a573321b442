//! Directional signal from spot price and strike.
//!
//! The distance of the spot price from the strike, as a ratio of the strike, is compared with two
//! thresholds that shrink with the time remaining:
//!
//! - more than 30 minutes: strong 0.042%, lean 0.021%
//! - more than 10 minutes: strong 0.029%, lean 0.015%
//! - more than 3 minutes: strong 0.021%, lean 0.011%
//! - otherwise: strong 0.013%, lean 0.006%
//!
//! The signal then decides how a position is split between UP and DOWN.

use vstd::prelude::*;
use crate::decimal::{
    Decimal, difference, divided_by, lemma_lit_difference, lemma_quotient_sign, lemma_sign, lit, num,
    pow10, product, representable, units, whole_i32,
};

verus! {

/// Directional signal of a market.
#[derive(Clone, Copy, Debug, PartialEq, Eq, Structural)]
pub enum Signal {
    /// Spot far above the strike.
    StrongUp,
    /// Spot above the strike.
    LeanUp,
    /// Spot near the strike.
    Neutral,
    /// Spot below the strike.
    LeanDown,
    /// Spot far below the strike.
    StrongDown,
}

impl Signal {
    /// UP share of a position, in percent.
    pub open spec fn up_percent(self) -> int {
        match self {
            Signal::StrongUp => 82,
            Signal::LeanUp => 65,
            Signal::Neutral => 50,
            Signal::LeanDown => 35,
            Signal::StrongDown => 18,
        }
    }

    /// Whether the signal points up.
    pub open spec fn is_up(self) -> bool {
        self is StrongUp || self is LeanUp
    }

    /// Whether the signal points down.
    pub open spec fn is_down(self) -> bool {
        self is StrongDown || self is LeanDown
    }

    /// The signal for the same distance on the other side of the strike.
    pub open spec fn mirrored(self) -> Signal {
        match self {
            Signal::StrongUp => Signal::StrongDown,
            Signal::LeanUp => Signal::LeanDown,
            Signal::Neutral => Signal::Neutral,
            Signal::LeanDown => Signal::LeanUp,
            Signal::StrongDown => Signal::StrongUp,
        }
    }

    /// Share of a position that goes to UP.
    pub fn up_ratio(&self) -> (r: Decimal)
        ensures
            r@ == units(self.up_percent(), 2),
    {
        match self {
            Signal::StrongUp => Decimal::new(82, 2),
            Signal::LeanUp => Decimal::new(65, 2),
            Signal::Neutral => Decimal::new(50, 2),
            Signal::LeanDown => Decimal::new(35, 2),
            Signal::StrongDown => Decimal::new(18, 2),
        }
    }

    /// Share of a position that goes to DOWN.
    pub fn down_ratio(&self) -> (r: Decimal)
        ensures
            r@ == units(100 - self.up_percent(), 2),
    {
        proof {
            lemma_lit_difference(100, self.up_percent(), 2);
        }
        Decimal::one().minus(self.up_ratio())
    }

    /// Whether the signal points up or down.
    pub fn is_directional(&self) -> (r: bool)
        ensures
            r == !(self is Neutral),
            r == (self.is_up() || self.is_down()),
    {
        !matches!(self, Signal::Neutral)
    }

    /// Whether the signal is strong.
    pub fn is_strong(&self) -> (r: bool)
        ensures
            r == (self is StrongUp || self is StrongDown),
    {
        matches!(self, Signal::StrongUp | Signal::StrongDown)
    }

    /// Whether the signal points up.
    pub fn points_up(&self) -> (r: bool)
        ensures
            r == self.is_up(),
    {
        matches!(self, Signal::StrongUp | Signal::LeanUp)
    }

    /// How far the split is from one half: 0 to 0.32.
    pub fn bias_strength(&self) -> (r: Decimal)
        ensures
            r@ == units(
                if self.up_percent() >= 50 {
                    self.up_percent() - 50
                } else {
                    50 - self.up_percent()
                },
                2,
            ),
    {
        proof {
            lemma_lit_difference(self.up_percent(), 50, 2);
        }
        self.up_ratio().minus(Decimal::new(50, 2)).abs()
    }

    /// Name of the variant.
    pub open spec fn spec_variant_name(self) -> Seq<char> {
        match self {
            Signal::StrongUp => "StrongUp"@,
            Signal::LeanUp => "LeanUp"@,
            Signal::Neutral => "Neutral"@,
            Signal::LeanDown => "LeanDown"@,
            Signal::StrongDown => "StrongDown"@,
        }
    }

    /// Name of the variant.
    pub fn variant_name(&self) -> (r: &'static str)
        ensures
            r@ == self.spec_variant_name(),
    {
        match self {
            Signal::StrongUp => "StrongUp",
            Signal::LeanUp => "LeanUp",
            Signal::Neutral => "Neutral",
            Signal::LeanDown => "LeanDown",
            Signal::StrongDown => "StrongDown",
        }
    }

    /// Name of the signal.
    pub open spec fn spec_text(self) -> Seq<char> {
        match self {
            Signal::StrongUp => "STRONG_UP"@,
            Signal::LeanUp => "LEAN_UP"@,
            Signal::Neutral => "NEUTRAL"@,
            Signal::LeanDown => "LEAN_DOWN"@,
            Signal::StrongDown => "STRONG_DOWN"@,
        }
    }

    /// Name of the signal.
    pub fn to_string(&self) -> (r: String)
        ensures
            r@ == self.spec_text(),
    {
        match self {
            Signal::StrongUp => "STRONG_UP".to_owned(),
            Signal::LeanUp => "LEAN_UP".to_owned(),
            Signal::Neutral => "NEUTRAL".to_owned(),
            Signal::LeanDown => "LEAN_DOWN".to_owned(),
            Signal::StrongDown => "STRONG_DOWN".to_owned(),
        }
    }
}

/// Distances from which a signal is strong or lean.
#[derive(Clone, Copy, Debug)]
pub struct SignalThresholds {
    pub strong: Decimal,
    pub lean: Decimal,
}

impl SignalThresholds {
    /// Thresholds with the given distances.
    pub fn new(strong: Decimal, lean: Decimal) -> (r: SignalThresholds)
        ensures
            r.strong == strong,
            r.lean == lean,
    {
        SignalThresholds { strong, lean }
    }
}

/// Distance of a strong signal, in units, with the given minutes (in units) remaining.
pub open spec fn strong_threshold(minutes: int) -> int {
    if minutes > units(30, 0) {
        units(42, 5)
    } else if minutes > units(10, 0) {
        units(29, 5)
    } else if minutes > units(3, 0) {
        units(21, 5)
    } else {
        units(13, 5)
    }
}

/// Distance of a lean signal, in units, with the given minutes (in units) remaining.
pub open spec fn lean_threshold(minutes: int) -> int {
    if minutes > units(30, 0) {
        units(21, 5)
    } else if minutes > units(10, 0) {
        units(15, 5)
    } else if minutes > units(3, 0) {
        units(11, 5)
    } else {
        units(6, 5)
    }
}

/// Thresholds for the given minutes remaining.
pub fn get_thresholds(minutes_remaining: Decimal) -> (r: SignalThresholds)
    ensures
        r.strong@ == strong_threshold(minutes_remaining@),
        r.lean@ == lean_threshold(minutes_remaining@),
{
    if minutes_remaining > Decimal::new(30, 0) {
        SignalThresholds::new(Decimal::new(42, 5), Decimal::new(21, 5))
    } else if minutes_remaining > Decimal::new(10, 0) {
        SignalThresholds::new(Decimal::new(29, 5), Decimal::new(15, 5))
    } else if minutes_remaining > Decimal::new(3, 0) {
        SignalThresholds::new(Decimal::new(21, 5), Decimal::new(11, 5))
    } else {
        SignalThresholds::new(Decimal::new(13, 5), Decimal::new(6, 5))
    }
}

/// Distance of the spot price from the strike, as a ratio of the strike; zero for a strike of zero.
pub open spec fn distance_ratio(spot: Decimal, strike: Decimal) -> Option<int> {
    if strike@ == 0 {
        Some(0)
    } else {
        divided_by(difference(num(spot), num(strike)), strike)
    }
}

/// The signal for a distance (in units) and the minutes (in units) remaining.
pub open spec fn signal_at(distance: int, minutes: int) -> Signal {
    if distance > 0 {
        if distance >= strong_threshold(minutes) {
            Signal::StrongUp
        } else if distance >= lean_threshold(minutes) {
            Signal::LeanUp
        } else {
            Signal::Neutral
        }
    } else {
        if -distance >= strong_threshold(minutes) {
            Signal::StrongDown
        } else if -distance >= lean_threshold(minutes) {
            Signal::LeanDown
        } else {
            Signal::Neutral
        }
    }
}

/// The signal of a market from its spot price, its strike and the minutes remaining.
pub fn get_signal(spot_price: Decimal, strike_price: Decimal, minutes_remaining: Decimal) -> (r:
    Signal)
    requires
        distance_ratio(spot_price, strike_price) is Some,
    ensures
        r == signal_at(distance_ratio(spot_price, strike_price)->0, minutes_remaining@),
{
    let distance = calculate_distance(spot_price, strike_price);
    let thresholds = get_thresholds(minutes_remaining);
    let abs_distance = distance.abs();
    if distance > Decimal::zero() {
        if abs_distance >= thresholds.strong {
            Signal::StrongUp
        } else if abs_distance >= thresholds.lean {
            Signal::LeanUp
        } else {
            Signal::Neutral
        }
    } else if distance < Decimal::zero() {
        if abs_distance >= thresholds.strong {
            Signal::StrongDown
        } else if abs_distance >= thresholds.lean {
            Signal::LeanDown
        } else {
            Signal::Neutral
        }
    } else {
        Signal::Neutral
    }
}

/// Distance of the spot price from the strike, as a ratio of the strike.
pub fn calculate_distance(spot_price: Decimal, strike_price: Decimal) -> (r: Decimal)
    requires
        distance_ratio(spot_price, strike_price) is Some,
    ensures
        Some(r@) == distance_ratio(spot_price, strike_price),
{
    if strike_price.is_zero() {
        Decimal::zero()
    } else {
        spot_price.minus(strike_price).over(strike_price)
    }
}

/// Distance in whole basis points, cut off towards zero; 0 where it is beyond `i32`.
pub fn distance_bps(spot_price: Decimal, strike_price: Decimal) -> (r: i32)
    requires
        product(distance_ratio(spot_price, strike_price), lit(10000, 0)) is Some,
    ensures
        r == match whole_i32(
            product(distance_ratio(spot_price, strike_price), lit(10000, 0))->0,
        ) {
            Some(bps) => bps,
            None => 0,
        },
{
    let distance = calculate_distance(spot_price, strike_price);
    let bps = distance.times(Decimal::new(10000, 0));
    match bps.to_i32() {
        Some(bps) => bps,
        None => 0,
    }
}

/// The UP and DOWN shares of a signal add up to one.
pub proof fn law_ratios_add_up(signal: Signal)
    ensures
        units(signal.up_percent(), 2) + units(100 - signal.up_percent(), 2) == units(1, 0),
        signal.mirrored().up_percent() == 100 - signal.up_percent(),
{
    let a = signal.up_percent();
    let p = pow10(26);
    assert(a * p + (100 - a) * p == 100 * p) by (nonlinear_arith);
}

/// The same distance below the strike gives the mirrored signal.
pub proof fn law_signal_symmetric(distance: int, minutes: int)
    ensures
        signal_at(-distance, minutes) == signal_at(distance, minutes).mirrored(),
{
}

/// A larger distance never gives a weaker signal.
pub proof fn law_signal_monotone(near: int, far: int, minutes: int)
    requires
        0 <= near <= far,
    ensures
        signal_at(near, minutes) is StrongUp ==> signal_at(far, minutes) is StrongUp,
        signal_at(near, minutes) is LeanUp ==> signal_at(far, minutes).is_up(),
        signal_at(near, minutes).up_percent() <= signal_at(far, minutes).up_percent(),
{
}

/// With less time remaining a smaller distance is enough: a signal never weakens as time passes.
pub proof fn law_thresholds_tighten(earlier: int, later: int, distance: int)
    requires
        later <= earlier,
    ensures
        strong_threshold(later) <= strong_threshold(earlier),
        lean_threshold(later) <= lean_threshold(earlier),
        lean_threshold(later) < strong_threshold(later),
        distance >= 0 ==> signal_at(distance, earlier).up_percent() <= signal_at(
            distance,
            later,
        ).up_percent(),
{
}

/// A signal points up only with the spot price above a positive strike, and down only with it below;
/// at the strike there is none. It points up exactly from the lean distance on.
pub proof fn law_signal_follows_the_price(spot: Decimal, strike: Decimal, minutes: int)
    requires
        strike@ > 0,
        distance_ratio(spot, strike) is Some,
    ensures
        ({
            let s = signal_at(distance_ratio(spot, strike)->0, minutes);
            &&& (s is StrongUp || s is LeanUp) ==> spot@ > strike@
            &&& (s is StrongDown || s is LeanDown) ==> spot@ < strike@
            &&& spot@ == strike@ ==> s is Neutral
        }),
{
    let d = difference(num(spot), num(strike))->0;
    lemma_sign(spot@ - strike@, 1);
    lemma_quotient_sign(d, strike@);
}

/// The distance from the strike is a share of the strike: at twice the strike it is one, at nothing
/// minus one, and at the strike zero.
pub proof fn law_distance_is_a_share(spot: Decimal, strike: Decimal)
    requires
        strike@ > 0,
        representable(strike@),
        distance_ratio(spot, strike) is Some,
    ensures
        spot@ == 2 * strike@ ==> distance_ratio(spot, strike) == lit(1, 0),
        spot@ == strike@ ==> distance_ratio(spot, strike) == Some(0int),
        spot@ > strike@ ==> distance_ratio(spot, strike)->0 >= 0,
        spot@ < strike@ ==> distance_ratio(spot, strike)->0 <= 0,
{
    let d = difference(num(spot), num(strike))->0;
    lemma_sign(spot@ - strike@, 1);
    lemma_quotient_sign(d, strike@);
    crate::decimal::law_arithmetic_is_exact(strike@, 0);
    if spot@ == strike@ {
        assert(0 == 0 * pow10(0));
        crate::decimal::lemma_exact(0, 1, 0, 0);
        crate::decimal::lemma_exact(0, strike@, 0, 0);
        assert(0 * pow10(28) == 0);
    }
}

} // verus!
