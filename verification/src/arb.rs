//! Arbitrage detection.
//!
//! One YES and one NO share together pay one dollar at settlement. Where both can be bought for
//! less, the difference is the margin. The margin must reach a threshold that falls as the window
//! runs out: 2.5% above 5 minutes, 1.5% above 2 minutes, 0.5% below.

use vstd::prelude::*;
use crate::decimal::{
    Decimal, difference, divided_by, lemma_sign, lit, num, product, sum, units,
    whole_i32,
};
use crate::types::{CryptoAsset, MarketState, WindowPhase};

verus! {

/// Margin thresholds by time remaining.
#[derive(Clone, Copy, Debug)]
pub struct ArbThresholds {
    /// Smallest margin in the early phase.
    pub early: Decimal,
    /// Smallest margin in the mid phase.
    pub mid: Decimal,
    /// Smallest margin in the late phase.
    pub late: Decimal,
    /// The early phase lasts while more than this many seconds remain.
    pub early_threshold_secs: u64,
    /// The mid phase lasts while more than this many seconds remain.
    pub mid_threshold_secs: u64,
    /// Least number of seconds remaining to trade.
    pub min_time_remaining_secs: u64,
}

impl Default for ArbThresholds {
    fn default() -> (r: ArbThresholds)
        ensures
            r.early@ == units(25, 3),
            r.mid@ == units(15, 3),
            r.late@ == units(5, 3),
            r.early_threshold_secs == 300,
            r.mid_threshold_secs == 120,
            r.min_time_remaining_secs == 30,
    {
        ArbThresholds {
            early: Decimal::new(25, 3),
            mid: Decimal::new(15, 3),
            late: Decimal::new(5, 3),
            early_threshold_secs: 300,
            mid_threshold_secs: 120,
            min_time_remaining_secs: 30,
        }
    }
}

impl ArbThresholds {
    /// Threshold of a phase.
    pub open spec fn spec_for_phase(self, phase: WindowPhase) -> Decimal {
        match phase {
            WindowPhase::Early => self.early,
            WindowPhase::Mid => self.mid,
            WindowPhase::Late => self.late,
        }
    }

    /// Phase for the seconds remaining.
    pub open spec fn spec_phase_for_time(self, seconds_remaining: i64) -> WindowPhase {
        if seconds_remaining > self.early_threshold_secs {
            WindowPhase::Early
        } else if seconds_remaining > self.mid_threshold_secs {
            WindowPhase::Mid
        } else {
            WindowPhase::Late
        }
    }

    /// Threshold of a phase.
    pub fn for_phase(&self, phase: WindowPhase) -> (r: Decimal)
        ensures
            r == self.spec_for_phase(phase),
    {
        match phase {
            WindowPhase::Early => self.early,
            WindowPhase::Mid => self.mid,
            WindowPhase::Late => self.late,
        }
    }

    /// Phase for the seconds remaining.
    pub fn phase_for_time(&self, seconds_remaining: i64) -> (r: WindowPhase)
        ensures
            r == self.spec_phase_for_time(seconds_remaining),
    {
        if seconds_remaining <= 0 {
            return WindowPhase::Late;
        }
        let remaining: u64 = seconds_remaining as u64;
        if remaining > self.early_threshold_secs {
            WindowPhase::Early
        } else if remaining > self.mid_threshold_secs {
            WindowPhase::Mid
        } else {
            WindowPhase::Late
        }
    }
}

/// An arbitrage opportunity.
#[derive(Debug, PartialEq, Eq)]
pub struct ArbOpportunity {
    pub event_id: String,
    pub asset: CryptoAsset,
    pub yes_token_id: String,
    pub no_token_id: String,
    /// Best YES ask.
    pub yes_ask: Decimal,
    /// Best NO ask.
    pub no_ask: Decimal,
    /// Cost of a YES and NO pair.
    pub combined_cost: Decimal,
    /// One less the combined cost.
    pub margin: Decimal,
    /// Margin in basis points.
    pub margin_bps: i32,
    /// Size available on both sides.
    pub max_size: Decimal,
    pub seconds_remaining: i64,
    pub phase: WindowPhase,
    /// Threshold of the phase.
    pub required_threshold: Decimal,
    /// Score from 0 to 100.
    pub confidence: u8,
    pub spot_price: Option<Decimal>,
    pub strike_price: Decimal,
    /// Time of detection in milliseconds.
    pub detected_at_ms: i64,
}

impl Clone for ArbOpportunity {
    fn clone(&self) -> (r: ArbOpportunity)
        ensures
            r == *self,
    {
        ArbOpportunity {
            event_id: self.event_id.clone(),
            asset: self.asset,
            yes_token_id: self.yes_token_id.clone(),
            no_token_id: self.no_token_id.clone(),
            yes_ask: self.yes_ask,
            no_ask: self.no_ask,
            combined_cost: self.combined_cost,
            margin: self.margin,
            margin_bps: self.margin_bps,
            max_size: self.max_size,
            seconds_remaining: self.seconds_remaining,
            phase: self.phase,
            required_threshold: self.required_threshold,
            confidence: self.confidence,
            spot_price: self.spot_price,
            strike_price: self.strike_price,
            detected_at_ms: self.detected_at_ms,
        }
    }
}

impl ArbOpportunity {
    /// Profit of a pair position of this size: size times margin.
    pub fn expected_profit(&self, size: Decimal) -> (r: Decimal)
        requires
            product(num(size), num(self.margin)) is Some,
        ensures
            Some(r@) == product(num(size), num(self.margin)),
    {
        size.times(self.margin)
    }

    /// Whether the spot price is above the strike, if it is known.
    pub fn spot_suggests_yes(&self) -> (r: Option<bool>)
        ensures
            r == match self.spot_price {
                Some(s) => Some(s@ > self.strike_price@),
                None => None,
            },
    {
        match self.spot_price {
            Some(s) => Some(s > self.strike_price),
            None => None,
        }
    }

    /// Whether the margin is at least one and a half times the threshold.
    pub fn has_significant_edge(&self) -> (r: bool)
        requires
            product(num(self.required_threshold), lit(15, 1)) is Some,
        ensures
            r == (self.margin@ >= product(num(self.required_threshold), lit(15, 1))->0),
    {
        self.margin >= self.required_threshold.times(Decimal::new(15, 1))
    }
}

/// Why there is no arbitrage to trade.
#[derive(Clone, Copy, Debug, PartialEq, Eq, Structural)]
pub enum ArbRejection {
    /// A best bid or ask is missing.
    NoQuotes,
    /// A pair costs one dollar or more.
    NoArbitrage,
    /// The margin is below the threshold of the phase.
    BelowThreshold,
    /// Too little time remains.
    InsufficientTime,
    /// There is nothing to buy at the best ask of a side.
    NoLiquidity,
    /// The score is too low.
    LowConfidence,
}

impl ArbRejection {
    /// The reason in words.
    pub open spec fn spec_text(self) -> Seq<char> {
        match self {
            ArbRejection::NoQuotes => "no valid quotes"@,
            ArbRejection::NoArbitrage => "no arbitrage (combined >= 1.0)"@,
            ArbRejection::BelowThreshold => "margin below threshold"@,
            ArbRejection::InsufficientTime => "insufficient time remaining"@,
            ArbRejection::NoLiquidity => "no liquidity available"@,
            ArbRejection::LowConfidence => "confidence too low"@,
        }
    }

    /// The reason in words.
    pub fn to_string(&self) -> (r: String)
        ensures
            r@ == self.spec_text(),
    {
        match self {
            ArbRejection::NoQuotes => "no valid quotes".to_owned(),
            ArbRejection::NoArbitrage => "no arbitrage (combined >= 1.0)".to_owned(),
            ArbRejection::BelowThreshold => "margin below threshold".to_owned(),
            ArbRejection::InsufficientTime => "insufficient time remaining".to_owned(),
            ArbRejection::NoLiquidity => "no liquidity available".to_owned(),
            ArbRejection::LowConfidence => "confidence too low".to_owned(),
        }
    }
}

/// Points for the margin over the threshold.
pub open spec fn margin_points(threshold: int, ratio: int) -> int {
    if threshold <= 0 {
        0
    } else if ratio >= units(2, 0) {
        25
    } else if ratio >= units(15, 1) {
        20
    } else if ratio >= units(12, 1) {
        15
    } else if ratio >= units(11, 1) {
        10
    } else {
        5
    }
}

/// Points for the phase.
pub open spec fn phase_points(phase: WindowPhase) -> int {
    match phase {
        WindowPhase::Late => 15,
        WindowPhase::Mid => 10,
        WindowPhase::Early => 5,
    }
}

/// Points for the size available on both sides.
pub open spec fn liquidity_points(size: int) -> int {
    if size >= units(500, 0) {
        20
    } else if size >= units(200, 0) {
        15
    } else if size >= units(100, 0) {
        10
    } else if size >= units(50, 0) {
        5
    } else {
        0
    }
}

/// Points for the mean spread in basis points.
pub open spec fn spread_points(avg_spread: int) -> int {
    if avg_spread <= 100 {
        15
    } else if avg_spread <= 200 {
        12
    } else if avg_spread <= 500 {
        8
    } else if avg_spread <= 1000 {
        4
    } else {
        0
    }
}

/// Points for prices that agree, or disagree, with the spot price.
pub open spec fn alignment_points(market: MarketState) -> int {
    match market.spot_price {
        Some(spot) => {
            let yes = match market.yes_book.ask() {
                Some(p) => p@,
                None => 0,
            };
            let no = match market.no_book.ask() {
                Some(p) => p@,
                None => 0,
            };
            if (spot@ > market.strike_price@) == (yes < no) {
                10int
            } else {
                -5int
            }
        },
        None => 0,
    }
}

/// Spread of a book in basis points, the largest number where there is none.
pub open spec fn spread_or_max(spread: Option<u32>) -> int {
    match spread {
        Some(bps) => bps as int,
        None => u32::MAX as int,
    }
}

/// Smaller of the sizes at the two best asks.
pub open spec fn pair_size(market: MarketState) -> int {
    let yes = market.yes_book.ask_size_or_zero();
    let no = market.no_book.ask_size_or_zero();
    if yes > no { no } else { yes }
}

/// Score before it is brought into the range from 0 to 100.
pub open spec fn raw_score(
    thresholds: ArbThresholds,
    market: MarketState,
    margin: int,
    phase: WindowPhase,
) -> int {
    let threshold = thresholds.spec_for_phase(phase);
    50 + margin_points(threshold@, divided_by(Some(margin), threshold)->0) + phase_points(phase)
        + liquidity_points(pair_size(market)) + spread_points(
        (spread_or_max(market.yes_book.spec_spread_bps()) + spread_or_max(
            market.no_book.spec_spread_bps(),
        )) / 2,
    ) + alignment_points(market)
}

/// The score, from 0 to 100.
pub open spec fn score(
    thresholds: ArbThresholds,
    market: MarketState,
    margin: int,
    phase: WindowPhase,
) -> int {
    let raw = raw_score(thresholds, market, margin, phase);
    if raw < 0 {
        0
    } else if raw > 100 {
        100
    } else {
        raw
    }
}

/// Whether the arithmetic of the score stays within range.
pub open spec fn score_fits(
    thresholds: ArbThresholds,
    market: MarketState,
    margin: int,
    phase: WindowPhase,
) -> bool {
    let threshold = thresholds.spec_for_phase(phase);
    &&& threshold@ > 0 ==> divided_by(Some(margin), threshold) is Some
    &&& market.yes_book.spread_fits()
    &&& market.no_book.spread_fits()
    &&& spread_or_max(market.yes_book.spec_spread_bps()) + spread_or_max(
        market.no_book.spec_spread_bps(),
    ) <= u32::MAX
}

/// More margin over the threshold gives more points.
fn points_for_margin(margin: Decimal, threshold: Decimal) -> (r: i32)
    requires
        threshold@ > 0 ==> divided_by(num(margin), threshold) is Some,
    ensures
        r == margin_points(threshold@, divided_by(num(margin), threshold)->0),
        0 <= r <= 25,
{
    if threshold > Decimal::zero() {
        let margin_ratio = margin.over(threshold);
        if margin_ratio >= Decimal::new(2, 0) {
            25
        } else if margin_ratio >= Decimal::new(15, 1) {
            20
        } else if margin_ratio >= Decimal::new(12, 1) {
            15
        } else if margin_ratio >= Decimal::new(11, 1) {
            10
        } else {
            5
        }
    } else {
        0
    }
}

/// The outcome is clearer later.
fn points_for_phase(phase: &WindowPhase) -> (r: i32)
    ensures
        r == phase_points(*phase),
        0 <= r <= 15,
{
    match phase {
        WindowPhase::Late => 15,
        WindowPhase::Mid => 10,
        WindowPhase::Early => 5,
    }
}

/// More size gives more points.
fn points_for_liquidity(size: Decimal) -> (r: i32)
    ensures
        r == liquidity_points(size@),
        0 <= r <= 20,
{
    if size >= Decimal::new(500, 0) {
        20
    } else if size >= Decimal::new(200, 0) {
        15
    } else if size >= Decimal::new(100, 0) {
        10
    } else if size >= Decimal::new(50, 0) {
        5
    } else {
        0
    }
}

/// Tighter spreads give more points.
fn points_for_spread(avg_spread: u32) -> (r: i32)
    ensures
        r == spread_points(avg_spread as int),
        0 <= r <= 15,
{
    if avg_spread <= 100 {
        15
    } else if avg_spread <= 200 {
        12
    } else if avg_spread <= 500 {
        8
    } else if avg_spread <= 1000 {
        4
    } else {
        0
    }
}

/// Prices that agree with the spot price give points, others take some away.
fn points_for_alignment(market: &MarketState) -> (r: i32)
    ensures
        r == alignment_points(*market),
        -5 <= r <= 10,
{
    match market.spot_price {
        Some(spot) => {
            let spot_above = spot > market.strike_price;
            let yes_implied = market.yes_book.best_ask().unwrap_or(Decimal::zero());
            let no_implied = market.no_book.best_ask().unwrap_or(Decimal::zero());
            let prices_suggest_yes = yes_implied < no_implied;
            if spot_above == prices_suggest_yes {
                10
            } else {
                -5
            }
        },
        None => 0,
    }
}

/// Arbitrage detector.
#[derive(Clone, Copy, Debug)]
pub struct ArbDetector {
    pub thresholds: ArbThresholds,
    /// Least score to accept.
    pub min_confidence: u8,
}

impl Default for ArbDetector {
    fn default() -> (r: ArbDetector)
        ensures
            r.min_confidence == 50,
            r.thresholds.early@ == units(25, 3),
            r.thresholds.mid@ == units(15, 3),
            r.thresholds.late@ == units(5, 3),
            r.thresholds.early_threshold_secs == 300,
            r.thresholds.mid_threshold_secs == 120,
            r.thresholds.min_time_remaining_secs == 30,
    {
        ArbDetector { thresholds: ArbThresholds::default(), min_confidence: 50 }
    }
}

impl ArbDetector {
    /// A detector with these thresholds that accepts scores from 50.
    pub fn new(thresholds: ArbThresholds) -> (r: ArbDetector)
        ensures
            r == (ArbDetector { thresholds, min_confidence: 50 }),
    {
        ArbDetector { thresholds, min_confidence: 50 }
    }

    /// A detector with thresholds given one by one.
    pub fn from_config(
        min_margin_early: Decimal,
        min_margin_mid: Decimal,
        min_margin_late: Decimal,
        early_threshold_secs: u64,
        mid_threshold_secs: u64,
        min_time_remaining_secs: u64,
    ) -> (r: ArbDetector)
        ensures
            r == (ArbDetector {
                thresholds: ArbThresholds {
                    early: min_margin_early,
                    mid: min_margin_mid,
                    late: min_margin_late,
                    early_threshold_secs,
                    mid_threshold_secs,
                    min_time_remaining_secs,
                },
                min_confidence: 50,
            }),
    {
        ArbDetector {
            thresholds: ArbThresholds {
                early: min_margin_early,
                mid: min_margin_mid,
                late: min_margin_late,
                early_threshold_secs,
                mid_threshold_secs,
                min_time_remaining_secs,
            },
            min_confidence: 50,
        }
    }

    /// The detector with another least score.
    pub fn with_min_confidence(self, min_confidence: u8) -> (r: ArbDetector)
        ensures
            r == (ArbDetector { thresholds: self.thresholds, min_confidence }),
    {
        ArbDetector { thresholds: self.thresholds, min_confidence }
    }

    /// Phase of the market.
    pub open spec fn phase_of(self, market: MarketState) -> WindowPhase {
        self.thresholds.spec_phase_for_time(market.seconds_remaining)
    }

    /// Whether enough time remains.
    pub open spec fn has_time(self, market: MarketState) -> bool {
        market.seconds_remaining >= self.thresholds.min_time_remaining_secs
    }

    /// Why the market is rejected before its score is looked at, given the margin of a pair.
    pub open spec fn early_rejection(self, market: MarketState, margin: int) -> Option<
        ArbRejection,
    > {
        if !self.has_time(market) {
            Some(ArbRejection::InsufficientTime)
        } else if !market.spec_is_valid() {
            Some(ArbRejection::NoQuotes)
        } else if margin <= 0 {
            Some(ArbRejection::NoArbitrage)
        } else if margin < self.thresholds.spec_for_phase(self.phase_of(market))@ {
            Some(ArbRejection::BelowThreshold)
        } else if pair_size(market) <= 0 {
            Some(ArbRejection::NoLiquidity)
        } else {
            None
        }
    }

    /// Why the market is rejected.
    pub open spec fn rejection(self, market: MarketState) -> Option<ArbRejection> {
        let margin = market.pair_margin()->0;
        if self.early_rejection(market, margin) is Some {
            self.early_rejection(market, margin)
        } else if score(self.thresholds, market, margin, self.phase_of(market))
            < self.min_confidence {
            Some(ArbRejection::LowConfidence)
        } else {
            None
        }
    }

    /// Whether the arithmetic of `detect` stays within range.
    pub open spec fn detect_fits(self, market: MarketState) -> bool {
        self.has_time(market) && market.spec_is_valid() ==> {
            &&& market.pair_margin() is Some
            &&& self.early_rejection(market, market.pair_margin()->0) is None ==> score_fits(
                self.thresholds,
                market,
                market.pair_margin()->0,
                self.phase_of(market),
            )
            &&& self.early_rejection(market, market.pair_margin()->0) is None ==> product(
                market.pair_margin(),
                lit(10000, 0),
            ) is Some
        }
    }

    /// Whether `o` describes the pair position that the market offers.
    pub open spec fn describes(self, market: MarketState, now_ms: i64, o: ArbOpportunity) -> bool {
        &&& o.event_id == market.event_id
        &&& o.asset == market.asset
        &&& o.yes_token_id == market.yes_book.token_id
        &&& o.no_token_id == market.no_book.token_id
        &&& o.yes_ask == market.yes_book.ask()->0
        &&& o.no_ask == market.no_book.ask()->0
        &&& Some(o.combined_cost@) == market.pair_cost()
        &&& Some(o.margin@) == market.pair_margin()
        &&& o.margin_bps == match whole_i32(product(market.pair_margin(), lit(10000, 0))->0) {
            Some(bps) => bps,
            None => i32::MAX,
        }
        &&& o.max_size@ == pair_size(market)
        &&& o.seconds_remaining == market.seconds_remaining
        &&& o.phase == self.phase_of(market)
        &&& o.required_threshold == self.thresholds.spec_for_phase(self.phase_of(market))
        &&& o.confidence == score(self.thresholds, market, o.margin@, self.phase_of(market))
        &&& o.spot_price == market.spot_price
        &&& o.strike_price == market.strike_price
        &&& o.detected_at_ms == now_ms
    }

    /// Looks for an arbitrage in the market at the time `now_ms`.
    pub fn detect(&self, market: &MarketState, now_ms: i64) -> (r: Result<
        ArbOpportunity,
        ArbRejection,
    >)
        requires
            self.detect_fits(*market),
        ensures
            match r {
                Ok(o) => {
                    &&& self.rejection(*market) is None
                    &&& self.describes(*market, now_ms, o)
                },
                Err(reason) => self.rejection(*market) == Some(reason),
            },
    {
        if (market.seconds_remaining as i128) < self.thresholds.min_time_remaining_secs as i128 {
            return Err(ArbRejection::InsufficientTime);
        }
        if !market.is_valid() {
            return Err(ArbRejection::NoQuotes);
        }
        let yes_ask = market.yes_book.best_ask().unwrap();
        let no_ask = market.no_book.best_ask().unwrap();
        let combined_cost = yes_ask.plus(no_ask);
        let margin = Decimal::one().minus(combined_cost);
        if margin <= Decimal::zero() {
            return Err(ArbRejection::NoArbitrage);
        }
        let phase = self.thresholds.phase_for_time(market.seconds_remaining);
        let required_threshold = self.thresholds.for_phase(phase);
        if margin < required_threshold {
            return Err(ArbRejection::BelowThreshold);
        }
        let yes_size = market.yes_book.best_ask_size().unwrap_or(Decimal::zero());
        let no_size = market.no_book.best_ask_size().unwrap_or(Decimal::zero());
        let max_size = yes_size.min(no_size);
        if max_size <= Decimal::zero() {
            return Err(ArbRejection::NoLiquidity);
        }
        let confidence: u8 = self.calculate_confidence(market, margin, &phase);
        if confidence < self.min_confidence {
            return Err(ArbRejection::LowConfidence);
        }
        let margin_bps: i32 = match margin.times(Decimal::new(10000, 0)).to_i32() {
            Some(bps) => bps,
            None => i32::MAX,
        };
        Ok(
            ArbOpportunity {
                event_id: market.event_id.clone(),
                asset: market.asset,
                yes_token_id: market.yes_book.token_id.clone(),
                no_token_id: market.no_book.token_id.clone(),
                yes_ask,
                no_ask,
                combined_cost,
                margin,
                margin_bps,
                max_size,
                seconds_remaining: market.seconds_remaining,
                phase,
                required_threshold,
                confidence,
                spot_price: market.spot_price,
                strike_price: market.strike_price,
                detected_at_ms: now_ms,
            },
        )
    }

    /// Score of an opportunity: margin over threshold, phase, liquidity, spreads and whether the
    /// prices agree with the spot price.
    pub fn calculate_confidence(&self, market: &MarketState, margin: Decimal, phase: &WindowPhase)
        -> (r: u8)
        requires
            score_fits(self.thresholds, *market, margin@, *phase),
        ensures
            r == score(self.thresholds, *market, margin@, *phase),
            r <= 100,
    {
        let threshold = self.thresholds.for_phase(*phase);
        let yes_size = market.yes_book.best_ask_size().unwrap_or(Decimal::zero());
        let no_size = market.no_book.best_ask_size().unwrap_or(Decimal::zero());
        let yes_spread: u32 = market.yes_book.spread_bps().unwrap_or(u32::MAX);
        let no_spread: u32 = market.no_book.spread_bps().unwrap_or(u32::MAX);
        let avg_spread: u32 = (yes_spread + no_spread) / 2;
        let score: i32 = 50 + points_for_margin(margin, threshold) + points_for_phase(phase)
            + points_for_liquidity(yes_size.min(no_size)) + points_for_spread(avg_spread)
            + points_for_alignment(market);
        if score < 0 {
            0
        } else if score > 100 {
            100
        } else {
            score as u8
        }
    }

    /// Whether a YES and NO pair costs less than one dollar.
    pub fn has_potential_arb(market: &MarketState) -> (r: bool)
        requires
            market.yes_book.ask() is Some && market.no_book.ask() is Some
                ==> market.pair_margin() is Some,
        ensures
            r == (market.yes_book.ask() is Some && market.no_book.ask() is Some
                && market.pair_margin()->0 > 0),
    {
        match market.arb_margin() {
            Some(margin) => margin > Decimal::zero(),
            None => false,
        }
    }
}

/// A pair that is accepted costs less than one dollar, so that it pays whichever side wins. Its
/// margin meets the threshold of the phase, its size is positive and its score is high enough.
pub proof fn law_accepted_pairs_profit(
    detector: ArbDetector,
    market: MarketState,
    now_ms: i64,
    o: ArbOpportunity,
)
    requires
        detector.detect_fits(market),
        detector.rejection(market) is None,
        detector.describes(market, now_ms, o),
    ensures
        o.combined_cost@ < units(1, 0),
        o.margin@ > 0,
        o.margin@ >= o.required_threshold@,
        o.max_size@ > 0,
        detector.min_confidence <= o.confidence <= 100,
{
    if o.combined_cost@ >= units(1, 0) {
        lemma_sign(units(1, 0) - o.combined_cost@, 1);
    }
}

/// An accepted pair would have passed the quick test.
pub proof fn law_potential_is_necessary(detector: ArbDetector, market: MarketState)
    requires
        detector.detect_fits(market),
        detector.rejection(market) is None,
    ensures
        market.yes_book.ask() is Some && market.no_book.ask() is Some,
        market.pair_margin()->0 > 0,
{
}

/// As a window runs out its threshold falls, where the thresholds are ordered so.
pub proof fn law_thresholds_fall(thresholds: ArbThresholds, earlier: i64, later: i64)
    requires
        later <= earlier,
        thresholds.late@ <= thresholds.mid@ <= thresholds.early@,
    ensures
        thresholds.spec_for_phase(thresholds.spec_phase_for_time(later))@
            <= thresholds.spec_for_phase(thresholds.spec_phase_for_time(earlier))@,
{
}

/// An accepted pair is bought at the best asks of both books, and only as much as both of them
/// offer: its size is the smaller of the two sizes there. Its margin is what is left of a dollar.
pub proof fn law_pairs_are_what_both_sides_offer(
    detector: ArbDetector,
    market: MarketState,
    now_ms: i64,
    o: ArbOpportunity,
)
    requires
        detector.detect_fits(market),
        detector.rejection(market) is None,
        detector.describes(market, now_ms, o),
    ensures
        market.yes_book.asks@.len() > 0 && market.no_book.asks@.len() > 0,
        market.yes_book.bids@.len() > 0 && market.no_book.bids@.len() > 0,
        o.max_size@ <= market.yes_book.asks@[0].size@,
        o.max_size@ <= market.no_book.asks@[0].size@,
        o.max_size@ == market.yes_book.asks@[0].size@ || o.max_size@
            == market.no_book.asks@[0].size@,
        market.yes_book.asks@[0].size@ > 0,
        market.no_book.asks@[0].size@ > 0,
        o.yes_ask == market.yes_book.asks@[0].price,
        o.no_ask == market.no_book.asks@[0].price,
        o.yes_token_id == market.yes_book.token_id,
        o.no_token_id == market.no_book.token_id,
        Some(o.combined_cost@) == sum(num(o.yes_ask), num(o.no_ask)),
        Some(o.margin@) == difference(lit(1, 0), num(o.combined_cost)),
        o.seconds_remaining == market.seconds_remaining,
        o.seconds_remaining >= detector.thresholds.min_time_remaining_secs,
        o.spot_price == market.spot_price,
        o.strike_price == market.strike_price,
        o.event_id == market.event_id,
        o.asset == market.asset,
{
}

/// The threshold that an accepted pair meets is that of the time remaining: the early one with more
/// seconds than the early boundary, the late one from the mid boundary down, the mid one between.
pub proof fn law_threshold_goes_by_time(
    detector: ArbDetector,
    market: MarketState,
    now_ms: i64,
    o: ArbOpportunity,
)
    requires
        detector.detect_fits(market),
        detector.rejection(market) is None,
        detector.describes(market, now_ms, o),
        detector.thresholds.mid_threshold_secs <= detector.thresholds.early_threshold_secs,
    ensures
        o.seconds_remaining > detector.thresholds.early_threshold_secs ==> o.phase is Early
            && o.required_threshold == detector.thresholds.early,
        detector.thresholds.mid_threshold_secs < o.seconds_remaining
            <= detector.thresholds.early_threshold_secs ==> o.phase is Mid && o.required_threshold
            == detector.thresholds.mid,
        o.seconds_remaining <= detector.thresholds.mid_threshold_secs ==> o.phase is Late
            && o.required_threshold == detector.thresholds.late,
        o.margin@ >= o.required_threshold@,
{
}

/// Whether two markets are the same but for YES and NO trading places; the spot price, where it is
/// known, changes sides of the strike.
pub open spec fn turned(a: MarketState, b: MarketState) -> bool {
    &&& b.yes_book == a.no_book
    &&& b.no_book == a.yes_book
    &&& b.seconds_remaining == a.seconds_remaining
    &&& match (a.spot_price, b.spot_price) {
        (Some(x), Some(y)) => (x@ > a.strike_price@) != (y@ > b.strike_price@),
        (None, None) => true,
        _ => false,
    }
}

/// A pair is a pair: with YES and NO trading places the same pairs are accepted, with the same size,
/// margin and score, and others are rejected for the same reason.
pub proof fn law_pairs_have_no_sides(
    detector: ArbDetector,
    a: MarketState,
    b: MarketState,
    now_ms: i64,
    x: ArbOpportunity,
    y: ArbOpportunity,
)
    requires
        turned(a, b),
        a.yes_book.asks@.len() > 0 && a.no_book.asks@.len() > 0,
        a.yes_book.asks@[0].price@ != a.no_book.asks@[0].price@,
    ensures
        detector.rejection(a) == detector.rejection(b),
        detector.describes(a, now_ms, x) && detector.describes(b, now_ms, y) ==> {
            &&& x.max_size@ == y.max_size@
            &&& x.margin@ == y.margin@
            &&& x.combined_cost@ == y.combined_cost@
            &&& x.confidence == y.confidence
            &&& x.yes_ask == y.no_ask
            &&& x.no_ask == y.yes_ask
            &&& x.phase == y.phase
        },
{
    let s = a.yes_book.asks@[0].price@;
    let t = a.no_book.asks@[0].price@;
    assert(s + t == t + s);
}

/// The score of a pair never falls as the margin grows, as more is offered, or as spreads narrow; it
/// is higher later in the window, and where prices agree with the spot price.
pub proof fn law_score_rewards_quality(margin_a: int, margin_b: int, threshold: int, a: int, b: int)
    requires
        margin_a <= margin_b,
        a <= b,
    ensures
        margin_points(threshold, margin_a) <= margin_points(threshold, margin_b),
        liquidity_points(a) <= liquidity_points(b),
        spread_points(b) <= spread_points(a),
        phase_points(WindowPhase::Early) < phase_points(WindowPhase::Mid),
        phase_points(WindowPhase::Mid) < phase_points(WindowPhase::Late),
{
}

/// Prices agree with the spot price where the cheaper side is the one that would win by it: they
/// then raise the score; they lower it otherwise, and do nothing without a spot price.
pub proof fn law_agreement_raises_the_score(market: MarketState)
    requires
        market.yes_book.asks@.len() > 0 && market.no_book.asks@.len() > 0,
    ensures
        market.spot_price is None ==> alignment_points(market) == 0,
        market.spot_price is Some && market.spot_price->0@ > market.strike_price@
            && market.yes_book.asks@[0].price@ < market.no_book.asks@[0].price@
            ==> alignment_points(market) > 0,
        market.spot_price is Some && market.spot_price->0@ <= market.strike_price@
            && market.yes_book.asks@[0].price@ >= market.no_book.asks@[0].price@
            ==> alignment_points(market) > 0,
        market.spot_price is Some && market.spot_price->0@ > market.strike_price@
            && market.yes_book.asks@[0].price@ >= market.no_book.asks@[0].price@
            ==> alignment_points(market) < 0,
        market.spot_price is Some && market.spot_price->0@ <= market.strike_price@
            && market.yes_book.asks@[0].price@ < market.no_book.asks@[0].price@
            ==> alignment_points(market) < 0,
{
}

/// Each reason for which a pair is rejected holds of the market.
pub proof fn law_rejections_are_true(detector: ArbDetector, market: MarketState)
    ensures
        detector.rejection(market) == Some(ArbRejection::InsufficientTime) <==>
            market.seconds_remaining < detector.thresholds.min_time_remaining_secs,
        detector.rejection(market) == Some(ArbRejection::NoQuotes) ==> market.yes_book.bids@.len()
            == 0 || market.yes_book.asks@.len() == 0 || market.no_book.bids@.len() == 0
            || market.no_book.asks@.len() == 0,
        detector.rejection(market) == Some(ArbRejection::NoArbitrage) ==> difference(
            lit(1, 0),
            sum(
                num(market.yes_book.asks@[0].price),
                num(market.no_book.asks@[0].price),
            ),
        )->0 <= 0,
        detector.rejection(market) == Some(ArbRejection::NoLiquidity) ==>
            market.yes_book.asks@[0].size@ <= 0 || market.no_book.asks@[0].size@ <= 0,
        detector.rejection(market) is Some && market.seconds_remaining
            >= detector.thresholds.min_time_remaining_secs && market.yes_book.bids@.len() > 0
            && market.yes_book.asks@.len() > 0 && market.no_book.bids@.len() > 0
            && market.no_book.asks@.len() > 0 ==> !(detector.rejection(market)
            == Some(ArbRejection::NoQuotes)),
{
}

/// The more a margin exceeds its threshold the more points it is worth: five at the threshold, ten
/// from a tenth above it, fifteen from a fifth, twenty from a half, and twenty-five at twice as much.
pub proof fn law_margins_earn_points(threshold: int, ratio: int)
    requires
        threshold > 0,
    ensures
        ratio >= units(2, 0) ==> margin_points(threshold, ratio) == 25,
        units(15, 1) <= ratio < units(2, 0) ==> margin_points(threshold, ratio) == 20,
        units(12, 1) <= ratio < units(15, 1) ==> margin_points(threshold, ratio) == 15,
        units(11, 1) <= ratio < units(12, 1) ==> margin_points(threshold, ratio) == 10,
        ratio < units(11, 1) ==> margin_points(threshold, ratio) == 5,
        margin_points(0, ratio) == 0,
{
}

/// A score counts its points from nothing to a hundred.
pub proof fn law_scores_are_bounded(
    thresholds: ArbThresholds,
    market: MarketState,
    margin: int,
    phase: WindowPhase,
)
    ensures
        ({
            let points = raw_score(thresholds, market, margin, phase);
            let s = score(thresholds, market, margin, phase);
            &&& 0 <= s <= 100
            &&& 0 <= points <= 100 ==> s == points
            &&& points > 100 ==> s == 100
            &&& points < 0 ==> s == 0
        }),
{
}

} // verus!
