//! Phase-based position management.
//!
//! A window is divided into four phases by the time remaining. Each has a share of the budget and
//! a least confidence:
//!
//! - early, above 10 minutes: 15% of the budget, confidence 0.80
//! - build, above 5 minutes: 25%, 0.60
//! - core, above 2 minutes: 30%, 0.50
//! - final, up to 2 minutes: 30%, 0.40

use vstd::prelude::*;
use crate::decimal::{
    Decimal, coefficient_limit, difference, divided, divided_by, greater, lemma_exact_value,
    lemma_fits, lemma_product_monotone, lemma_quotient_monotone, lemma_rounded_near, lemma_sign,
    lemma_sum_monotone, lemma_unrounded, lesser, lit, magnitude, minutes_in, minutes_of, num, pow10,
    product, quotient, representable, rounded, sum, units,
};

verus! {

/// Phase of a window.
#[derive(Clone, Copy, Debug, PartialEq, Eq, Structural, Hash)]
pub enum Phase {
    /// More than 10 minutes remain.
    Early,
    /// More than 5 minutes remain.
    Build,
    /// More than 2 minutes remain.
    Core,
    /// Up to 2 minutes remain.
    Final,
}

/// Phase for the minutes (in units) remaining.
pub open spec fn phase_at(minutes: int) -> Phase {
    if minutes > units(10, 0) {
        Phase::Early
    } else if minutes > units(5, 0) {
        Phase::Build
    } else if minutes > units(2, 0) {
        Phase::Core
    } else {
        Phase::Final
    }
}

/// Phase for the seconds remaining.
pub open spec fn phase_of(seconds: i64) -> Phase {
    phase_at(minutes_in(seconds)->0)
}

impl Phase {
    /// Share of the budget, in percent.
    pub open spec fn budget_percent(self) -> int {
        match self {
            Phase::Early => 15,
            Phase::Build => 25,
            Phase::Core => 30,
            Phase::Final => 30,
        }
    }

    /// Least confidence, in percent.
    pub open spec fn confidence_percent(self) -> int {
        match self {
            Phase::Early => 80,
            Phase::Build => 60,
            Phase::Core => 50,
            Phase::Final => 40,
        }
    }

    /// Phase for the minutes remaining.
    pub fn from_minutes(minutes: Decimal) -> (r: Phase)
        ensures
            r == phase_at(minutes@),
    {
        if minutes > Decimal::new(10, 0) {
            Phase::Early
        } else if minutes > Decimal::new(5, 0) {
            Phase::Build
        } else if minutes > Decimal::new(2, 0) {
            Phase::Core
        } else {
            Phase::Final
        }
    }

    /// Phase for the seconds remaining.
    pub fn from_seconds(seconds: i64) -> (r: Phase)
        ensures
            r == phase_of(seconds),
    {
        Phase::from_minutes(minutes_of(seconds))
    }

    /// Share of the budget.
    pub fn budget_allocation(&self) -> (r: Decimal)
        ensures
            r@ == units(self.budget_percent(), 2),
    {
        match self {
            Phase::Early => Decimal::new(15, 2),
            Phase::Build => Decimal::new(25, 2),
            Phase::Core => Decimal::new(30, 2),
            Phase::Final => Decimal::new(30, 2),
        }
    }

    /// Least confidence to trade.
    pub fn min_confidence(&self) -> (r: Decimal)
        ensures
            r@ == units(self.confidence_percent(), 2),
    {
        match self {
            Phase::Early => Decimal::new(80, 2),
            Phase::Build => Decimal::new(60, 2),
            Phase::Core => Decimal::new(50, 2),
            Phase::Final => Decimal::new(40, 2),
        }
    }

    /// Name of the phase.
    pub open spec fn spec_name(self) -> Seq<char> {
        match self {
            Phase::Early => "early"@,
            Phase::Build => "build"@,
            Phase::Core => "core"@,
            Phase::Final => "final"@,
        }
    }

    /// Name of the phase.
    pub fn name(&self) -> (r: &'static str)
        ensures
            r@ == self.spec_name(),
    {
        match self {
            Phase::Early => "early",
            Phase::Build => "build",
            Phase::Core => "core",
            Phase::Final => "final",
        }
    }

    /// Name of the phase.
    pub fn to_string(&self) -> (r: String)
        ensures
            r@ == self.spec_name(),
    {
        self.name().to_owned()
    }
}

/// Settings of a position manager.
#[derive(Clone, Copy, Debug)]
pub struct PositionConfig {
    /// Budget of the market in dollars.
    pub total_budget: Decimal,
    /// Smallest order (default $1).
    pub min_order_size: Decimal,
    /// Largest order (default $100).
    pub max_order_size: Decimal,
    /// Largest share on one side (default 0.80).
    pub max_single_side_exposure: Decimal,
    /// Smallest share of the hedge (default 0.20).
    pub min_hedge_ratio: Decimal,
    /// Number of trades that the budget of a phase is meant for.
    pub trades_per_phase: u32,
    /// Average true range, by which distances are measured.
    pub atr: Decimal,
    /// Least confidence in the early phase.
    pub early_threshold: Decimal,
    /// Least confidence in the build phase.
    pub build_threshold: Decimal,
    /// Least confidence in the core phase.
    pub core_threshold: Decimal,
    /// Least confidence in the final phase.
    pub final_threshold: Decimal,
    /// Time confidence at the start of a window (default 0.30).
    pub time_conf_floor: Decimal,
    /// Distance confidence at the strike (default 0.20).
    pub dist_conf_floor: Decimal,
    /// Distance confidence gained per average true range (default 0.50).
    pub dist_conf_per_atr: Decimal,
}

impl PositionConfig {
    /// Whether all settings but budget and range have their default values.
    pub open spec fn has_defaults(self) -> bool {
        &&& self.min_order_size@ == units(1, 0)
        &&& self.max_order_size@ == units(100, 0)
        &&& self.max_single_side_exposure@ == units(80, 2)
        &&& self.min_hedge_ratio@ == units(20, 2)
        &&& self.trades_per_phase == 15
        &&& self.early_threshold@ == units(80, 2)
        &&& self.build_threshold@ == units(60, 2)
        &&& self.core_threshold@ == units(50, 2)
        &&& self.final_threshold@ == units(40, 2)
        &&& self.time_conf_floor@ == units(30, 2)
        &&& self.dist_conf_floor@ == units(20, 2)
        &&& self.dist_conf_per_atr@ == units(50, 2)
    }

    /// Least confidence in a phase.
    pub open spec fn spec_threshold(self, phase: Phase) -> Decimal {
        match phase {
            Phase::Early => self.early_threshold,
            Phase::Build => self.build_threshold,
            Phase::Core => self.core_threshold,
            Phase::Final => self.final_threshold,
        }
    }

    /// Budget of a phase.
    pub open spec fn spec_phase_budget(self, phase: Phase) -> Option<int> {
        product(num(self.total_budget), lit(phase.budget_percent(), 2))
    }

    /// Settings with this budget.
    pub fn new(total_budget: Decimal) -> (r: PositionConfig)
        ensures
            r.total_budget == total_budget,
            r.atr@ == units(100, 0),
            r.has_defaults(),
    {
        PositionConfig { total_budget, ..PositionConfig::default() }
    }

    /// Settings with this budget and average true range.
    pub fn with_atr(total_budget: Decimal, atr: Decimal) -> (r: PositionConfig)
        ensures
            r.total_budget == total_budget,
            r.atr == atr,
            r.has_defaults(),
    {
        PositionConfig { total_budget, atr, ..PositionConfig::default() }
    }

    /// Least confidence in a phase.
    pub fn threshold_for_phase(&self, phase: Phase) -> (r: Decimal)
        ensures
            r == self.spec_threshold(phase),
    {
        match phase {
            Phase::Early => self.early_threshold,
            Phase::Build => self.build_threshold,
            Phase::Core => self.core_threshold,
            Phase::Final => self.final_threshold,
        }
    }

    /// Budget of a phase.
    pub fn phase_budget(&self, phase: Phase) -> (r: Decimal)
        requires
            self.spec_phase_budget(phase) is Some,
        ensures
            Some(r@) == self.spec_phase_budget(phase),
    {
        self.total_budget.times(phase.budget_allocation())
    }
}

impl Default for PositionConfig {
    fn default() -> (r: PositionConfig)
        ensures
            r.total_budget@ == units(100, 0),
            r.atr@ == units(100, 0),
            r.has_defaults(),
    {
        PositionConfig {
            total_budget: Decimal::new(100, 0),
            min_order_size: Decimal::new(1, 0),
            max_order_size: Decimal::new(100, 0),
            max_single_side_exposure: Decimal::new(80, 2),
            min_hedge_ratio: Decimal::new(20, 2),
            trades_per_phase: 15,
            atr: Decimal::new(100, 0),
            early_threshold: Decimal::new(80, 2),
            build_threshold: Decimal::new(60, 2),
            core_threshold: Decimal::new(50, 2),
            final_threshold: Decimal::new(40, 2),
            time_conf_floor: Decimal::new(30, 2),
            dist_conf_floor: Decimal::new(20, 2),
            dist_conf_per_atr: Decimal::new(50, 2),
        }
    }
}

/// Why there is no trade.
#[derive(Clone, Copy, Debug, PartialEq, Eq, Structural)]
pub enum SkipReason {
    /// Too little confidence.
    LowConfidence,
    /// The budget of the phase is spent.
    PhaseBudgetExhausted,
    /// The budget of the market is spent.
    TotalBudgetExhausted,
    /// The position would be too large.
    PositionLimitExceeded,
    /// The order would be too small.
    BelowMinimumSize,
}

impl SkipReason {
    /// Name of the variant.
    pub open spec fn spec_variant_name(self) -> Seq<char> {
        match self {
            SkipReason::LowConfidence => "LowConfidence"@,
            SkipReason::PhaseBudgetExhausted => "PhaseBudgetExhausted"@,
            SkipReason::TotalBudgetExhausted => "TotalBudgetExhausted"@,
            SkipReason::PositionLimitExceeded => "PositionLimitExceeded"@,
            SkipReason::BelowMinimumSize => "BelowMinimumSize"@,
        }
    }

    /// Name of the variant.
    pub fn variant_name(&self) -> (r: &'static str)
        ensures
            r@ == self.spec_variant_name(),
    {
        match self {
            SkipReason::LowConfidence => "LowConfidence",
            SkipReason::PhaseBudgetExhausted => "PhaseBudgetExhausted",
            SkipReason::TotalBudgetExhausted => "TotalBudgetExhausted",
            SkipReason::PositionLimitExceeded => "PositionLimitExceeded",
            SkipReason::BelowMinimumSize => "BelowMinimumSize",
        }
    }

    /// The reason in words.
    pub open spec fn spec_text(self) -> Seq<char> {
        match self {
            SkipReason::LowConfidence => "confidence below phase threshold"@,
            SkipReason::PhaseBudgetExhausted => "phase budget exhausted"@,
            SkipReason::TotalBudgetExhausted => "total budget exhausted"@,
            SkipReason::PositionLimitExceeded => "position limit exceeded"@,
            SkipReason::BelowMinimumSize => "order size below minimum"@,
        }
    }

    /// The reason in words.
    pub fn to_string(&self) -> (r: String)
        ensures
            r@ == self.spec_text(),
    {
        match self {
            SkipReason::LowConfidence => "confidence below phase threshold".to_owned(),
            SkipReason::PhaseBudgetExhausted => "phase budget exhausted".to_owned(),
            SkipReason::TotalBudgetExhausted => "total budget exhausted".to_owned(),
            SkipReason::PositionLimitExceeded => "position limit exceeded".to_owned(),
            SkipReason::BelowMinimumSize => "order size below minimum".to_owned(),
        }
    }
}

/// Decision of a position manager.
#[derive(Clone, Copy, Debug)]
pub enum TradeDecision {
    /// No trade.
    Skip(SkipReason),
    /// A trade of this size in dollars.
    Trade { size: Decimal, confidence: Decimal, phase: Phase },
}

impl TradeDecision {
    /// Whether there is a trade.
    pub fn is_trade(&self) -> (r: bool)
        ensures
            r == self is Trade,
    {
        matches!(self, TradeDecision::Trade { .. })
    }

    /// Size of the trade, if there is one.
    pub fn size(&self) -> (r: Option<Decimal>)
        ensures
            r == match *self {
                TradeDecision::Trade { size, .. } => Some(size),
                TradeDecision::Skip(_) => None,
            },
    {
        match self {
            TradeDecision::Trade { size, .. } => Some(*size),
            TradeDecision::Skip(_) => None,
        }
    }
}

/// One amount for each phase.
#[derive(Clone, Copy, Debug)]
pub struct PhaseAmounts {
    pub early: Decimal,
    pub build: Decimal,
    pub core: Decimal,
    pub closing: Decimal,
}

impl PhaseAmounts {
    /// Amount of a phase.
    pub open spec fn at(self, phase: Phase) -> Decimal {
        match phase {
            Phase::Early => self.early,
            Phase::Build => self.build,
            Phase::Core => self.core,
            Phase::Final => self.closing,
        }
    }

    /// The amounts with that of one phase replaced.
    pub open spec fn with(self, phase: Phase, amount: Decimal) -> PhaseAmounts {
        match phase {
            Phase::Early => PhaseAmounts { early: amount, ..self },
            Phase::Build => PhaseAmounts { build: amount, ..self },
            Phase::Core => PhaseAmounts { core: amount, ..self },
            Phase::Final => PhaseAmounts { closing: amount, ..self },
        }
    }

    /// Nothing for any phase.
    pub fn zero() -> (r: PhaseAmounts)
        ensures
            forall|phase: Phase| (#[trigger] r.at(phase))@ == 0,
    {
        PhaseAmounts {
            early: Decimal::zero(),
            build: Decimal::zero(),
            core: Decimal::zero(),
            closing: Decimal::zero(),
        }
    }

    /// Amount of a phase.
    pub fn get(&self, phase: Phase) -> (r: Decimal)
        ensures
            r == self.at(phase),
    {
        match phase {
            Phase::Early => self.early,
            Phase::Build => self.build,
            Phase::Core => self.core,
            Phase::Final => self.closing,
        }
    }

    /// Sets the amount of a phase.
    pub fn set(&mut self, phase: Phase, amount: Decimal)
        ensures
            *final(self) == old(self).with(phase, amount),
    {
        match phase {
            Phase::Early => {
                self.early = amount;
            },
            Phase::Build => {
                self.build = amount;
            },
            Phase::Core => {
                self.core = amount;
            },
            Phase::Final => {
                self.closing = amount;
            },
        }
    }
}

/// Spent amounts and budgets of all phases.
#[derive(Clone, Copy, Debug)]
pub struct PhaseSummary {
    pub spent: PhaseAmounts,
    pub budget: PhaseAmounts,
}

impl PhaseSummary {
    /// Spent amount and budget of a phase.
    pub fn get(&self, phase: Phase) -> (r: (Decimal, Decimal))
        ensures
            r == (self.spent.at(phase), self.budget.at(phase)),
    {
        (self.spent.get(phase), self.budget.get(phase))
    }
}

/// Decides when and how much to trade in one market.
#[derive(Clone, Copy, Debug)]
pub struct PositionManager {
    pub config: PositionConfig,
    /// Amount spent in each phase.
    pub phase_spent: PhaseAmounts,
    /// Amount spent in all phases.
    pub total_spent: Decimal,
    /// Share on the UP side.
    pub up_exposure: Decimal,
    /// Share on the DOWN side.
    pub down_exposure: Decimal,
    pub trade_count: u32,
}

/// Part of the window that remains, from 0 to 1.
pub open spec fn remaining_share(seconds: i64, window: i64) -> Option<int> {
    greater(
        lesser(
            if window > 0 {
                quotient(lit(if seconds > 0 { seconds as int } else { 0 }, 0), lit(window as int, 0))
            } else {
                Some(0)
            },
            lit(1, 0),
        ),
        Some(0),
    )
}

/// Seconds remaining over the length of the window; zero for a window without length.
pub open spec fn time_factor(seconds: i64, window: i64) -> Option<int> {
    if window > 0 {
        quotient(lit(seconds as int, 0), lit(window as int, 0))
    } else {
        Some(0)
    }
}

/// The ratio of two whole numbers of 64 bits never overflows.
pub proof fn lemma_ratio_fits(a: int, b: int)
    requires
        i64::MIN <= a <= i64::MAX,
        0 < b <= i64::MAX,
    ensures
        quotient(lit(a, 0), lit(b, 0)) is Some,
{
    let p = pow10(28);
    assert(b * p > 0) by (nonlinear_arith)
        requires
            b > 0,
            p > 0,
    ;
    let l = crate::decimal::coefficient_limit() - 1;
    assert(-(l * ((b * p) * p)) <= (a * p) * p <= l * ((b * p) * p)) by (nonlinear_arith)
        requires
            -0x8000_0000_0000_0000 <= a < 0x8000_0000_0000_0000,
            1 <= b,
            p > 0,
            l > 0x8000_0000_0000_0000,
    ;
    assert(-l * ((b * p) * p) == -(l * ((b * p) * p))) by (nonlinear_arith);
    lemma_fits((a * p) * p, b * p);
}

impl PositionManager {
    /// A manager that has not traded.
    pub open spec fn is_fresh(self) -> bool {
        &&& forall|phase: Phase| (#[trigger] self.phase_spent.at(phase))@ == 0
        &&& self.total_spent@ == 0
        &&& self.up_exposure@ == 0
        &&& self.down_exposure@ == 0
        &&& self.trade_count == 0
    }

    /// A manager with these settings.
    pub fn new(config: PositionConfig) -> (r: PositionManager)
        ensures
            r.config == config,
            r.is_fresh(),
    {
        PositionManager {
            config,
            phase_spent: PhaseAmounts::zero(),
            total_spent: Decimal::zero(),
            up_exposure: Decimal::zero(),
            down_exposure: Decimal::zero(),
            trade_count: 0,
        }
    }

    /// A manager with this budget and default settings.
    pub fn with_budget(total_budget: Decimal) -> (r: PositionManager)
        ensures
            r.config.total_budget == total_budget,
            r.config.atr@ == units(100, 0),
            r.config.has_defaults(),
            r.is_fresh(),
    {
        PositionManager::new(PositionConfig::new(total_budget))
    }

    /// A manager with this budget and average true range.
    pub fn with_budget_and_atr(total_budget: Decimal, atr: Decimal) -> (r: PositionManager)
        ensures
            r.config.total_budget == total_budget,
            r.config.atr == atr,
            r.config.has_defaults(),
            r.is_fresh(),
    {
        PositionManager::new(PositionConfig::with_atr(total_budget, atr))
    }

    /// Sets the average true range.
    pub fn set_atr(&mut self, atr: Decimal)
        ensures
            *final(self) == (PositionManager {
                config: PositionConfig { atr, ..old(self).config },
                ..*old(self)
            }),
    {
        self.config.atr = atr;
    }

    /// The average true range.
    pub fn atr(&self) -> (r: Decimal)
        ensures
            r == self.config.atr,
    {
        self.config.atr
    }

    /// Time confidence: the floor at the start of the window, 1 at its end.
    pub open spec fn time_conf(self, seconds: i64, window: i64) -> Option<int> {
        let floor = num(self.config.time_conf_floor);
        sum(
            floor,
            product(
                difference(lit(1, 0), floor),
                difference(lit(1, 0), remaining_share(seconds, window)),
            ),
        )
    }

    /// Distance in average true ranges; zero where the range is not positive.
    pub open spec fn atr_multiple(self, distance: Decimal) -> Option<int> {
        if self.config.atr@ > 0 {
            divided_by(magnitude(num(distance)), self.config.atr)
        } else {
            Some(0)
        }
    }

    /// Distance confidence: rises from the floor by a fixed amount per range, up to 1.
    pub open spec fn dist_conf(self, multiple: Option<int>) -> Option<int> {
        greater(
            lesser(
                sum(
                    num(self.config.dist_conf_floor),
                    product(num(self.config.dist_conf_per_atr), multiple),
                ),
                lit(1, 0),
            ),
            num(self.config.dist_conf_floor),
        )
    }

    /// Product of time and distance confidence.
    pub open spec fn conf_product(self, distance: Decimal, seconds: i64, window: i64) -> Option<
        int,
    > {
        product(self.time_conf(seconds, window), self.dist_conf(self.atr_multiple(distance)))
    }

    /// Confidence, where `root` is the square root of that product: more if both are strong.
    pub open spec fn confidence(
        self,
        distance: Decimal,
        seconds: i64,
        window: i64,
        root: Decimal,
    ) -> Option<int> {
        if self.time_conf(seconds, window)->0 > units(7, 1) && self.dist_conf(
            self.atr_multiple(distance),
        )->0 > units(7, 1) {
            lesser(product(num(root), lit(12, 1)), lit(1, 0))
        } else {
            num(root)
        }
    }

    /// Product of time and distance confidence, whose square root is their geometric mean.
    pub fn confidence_product(
        &self,
        distance_dollars: Decimal,
        seconds_remaining: i64,
        window_duration_secs: i64,
    ) -> (r: Decimal)
        requires
            self.conf_product(distance_dollars, seconds_remaining, window_duration_secs) is Some,
        ensures
            Some(r@) == self.conf_product(
                distance_dollars,
                seconds_remaining,
                window_duration_secs,
            ),
    {
        let time_conf = self.time_confidence(seconds_remaining, window_duration_secs);
        let dist_conf = self.distance_confidence(self.distance_in_atr(distance_dollars));
        time_conf.times(dist_conf)
    }

    /// Distance in average true ranges.
    fn distance_in_atr(&self, distance_dollars: Decimal) -> (r: Decimal)
        requires
            self.atr_multiple(distance_dollars) is Some,
        ensures
            Some(r@) == self.atr_multiple(distance_dollars),
    {
        if self.config.atr > Decimal::zero() {
            distance_dollars.abs().over(self.config.atr)
        } else {
            Decimal::zero()
        }
    }

    /// Confidence from distance and time; `root` is the square root of `confidence_product`.
    pub fn calculate_confidence(
        &self,
        distance_dollars: Decimal,
        seconds_remaining: i64,
        window_duration_secs: i64,
        root: Decimal,
    ) -> (r: Decimal)
        requires
            self.time_conf(seconds_remaining, window_duration_secs) is Some,
            self.dist_conf(self.atr_multiple(distance_dollars)) is Some,
            self.confidence(distance_dollars, seconds_remaining, window_duration_secs, root) is Some,
        ensures
            Some(r@) == self.confidence(
                distance_dollars,
                seconds_remaining,
                window_duration_secs,
                root,
            ),
    {
        let time_conf = self.time_confidence(seconds_remaining, window_duration_secs);
        let dist_conf = self.distance_confidence(self.distance_in_atr(distance_dollars));
        if time_conf > Decimal::new(7, 1) && dist_conf > Decimal::new(7, 1) {
            root.times(Decimal::new(12, 1)).min(Decimal::one())
        } else {
            root
        }
    }

    /// Time confidence: the floor at the start of the window, 1 at its end.
    pub fn time_confidence(&self, seconds_remaining: i64, window_duration_secs: i64) -> (r: Decimal)
        requires
            self.time_conf(seconds_remaining, window_duration_secs) is Some,
        ensures
            Some(r@) == self.time_conf(seconds_remaining, window_duration_secs),
    {
        let time_ratio = if window_duration_secs > 0 {
            let left: i64 = if seconds_remaining > 0 {
                seconds_remaining
            } else {
                0
            };
            proof {
                lemma_ratio_fits(left as int, window_duration_secs as int);
            }
            Decimal::from_i64(left).over(Decimal::from_i64(window_duration_secs))
        } else {
            Decimal::zero()
        };
        let time_ratio = time_ratio.min(Decimal::one()).max(Decimal::zero());
        let floor = self.config.time_conf_floor;
        floor.plus(Decimal::one().minus(floor).times(Decimal::one().minus(time_ratio)))
    }

    /// Distance confidence: rises from the floor by a fixed amount per range, up to 1.
    pub fn distance_confidence(&self, atr_multiple: Decimal) -> (r: Decimal)
        requires
            self.dist_conf(num(atr_multiple)) is Some,
        ensures
            Some(r@) == self.dist_conf(num(atr_multiple)),
    {
        let floor = self.config.dist_conf_floor;
        let per_atr = self.config.dist_conf_per_atr;
        floor.plus(per_atr.times(atr_multiple)).min(Decimal::one()).max(floor)
    }

    /// Least edge: falls from `max_edge_factor` to zero over the window.
    pub open spec fn min_edge(max_edge_factor: Decimal, seconds: i64, window: i64) -> Option<int> {
        product(num(max_edge_factor), time_factor(seconds, window))
    }

    /// Whether there is too little confidence: expected value below the least edge or, without an
    /// edge factor, confidence below the threshold of the phase.
    pub open spec fn lacks_confidence(
        self,
        confidence: int,
        seconds: i64,
        price: Decimal,
        max_edge_factor: Decimal,
        window: i64,
    ) -> bool {
        if max_edge_factor@ > 0 {
            difference(Some(confidence), num(price))->0 < Self::min_edge(
                max_edge_factor,
                seconds,
                window,
            )->0
        } else {
            confidence < self.config.spec_threshold(phase_of(seconds))@
        }
    }

    /// Budget of the market that is left.
    pub open spec fn total_left(self) -> Option<int> {
        difference(num(self.config.total_budget), num(self.total_spent))
    }

    /// Budget of the phase that is left.
    pub open spec fn phase_left(self, phase: Phase) -> Option<int> {
        difference(self.config.spec_phase_budget(phase), num(self.phase_spent.at(phase)))
    }

    /// Size of a trade: a share of the phase's budget, scaled by confidence and kept within the
    /// budgets and the smallest and largest order.
    pub open spec fn size_for(self, phase_left: int, total_left: int, confidence: int) -> Option<
        int,
    > {
        let base = quotient(Some(phase_left), lit(self.config.trades_per_phase as int, 0));
        let multiplier = sum(lit(5, 1), product(Some(confidence), lit(15, 1)));
        greater(
            lesser(
                lesser(
                    lesser(product(base, multiplier), Some(phase_left)),
                    product(Some(total_left), lit(15, 2)),
                ),
                num(self.config.max_order_size),
            ),
            num(self.config.min_order_size),
        )
    }

    /// Why there is no trade.
    pub open spec fn skip_reason(
        self,
        confidence: int,
        seconds: i64,
        price: Decimal,
        max_edge_factor: Decimal,
        window: i64,
    ) -> Option<SkipReason> {
        if self.lacks_confidence(confidence, seconds, price, max_edge_factor, window) {
            Some(SkipReason::LowConfidence)
        } else if self.total_left()->0 <= 0 {
            Some(SkipReason::TotalBudgetExhausted)
        } else if self.phase_left(phase_of(seconds))->0 <= 0 {
            Some(SkipReason::PhaseBudgetExhausted)
        } else if self.size_for(
            self.phase_left(phase_of(seconds))->0,
            self.total_left()->0,
            confidence,
        )->0 < self.config.min_order_size@ {
            Some(SkipReason::BelowMinimumSize)
        } else {
            None
        }
    }

    /// Whether the arithmetic of a decision stays within range.
    pub open spec fn decision_fits(
        self,
        confidence: int,
        seconds: i64,
        price: Decimal,
        max_edge_factor: Decimal,
        window: i64,
    ) -> bool {
        &&& max_edge_factor@ > 0 ==> {
            &&& difference(Some(confidence), num(price)) is Some
            &&& Self::min_edge(max_edge_factor, seconds, window) is Some
        }
        &&& !self.lacks_confidence(confidence, seconds, price, max_edge_factor, window) ==> {
            &&& self.total_left() is Some
            &&& self.total_left()->0 > 0 ==> {
                &&& self.phase_left(phase_of(seconds)) is Some
                &&& self.phase_left(phase_of(seconds))->0 > 0 ==> self.size_for(
                    self.phase_left(phase_of(seconds))->0,
                    self.total_left()->0,
                    confidence,
                ) is Some
            }
        }
    }

    /// Whether `r` is the decision.
    pub open spec fn decides(
        self,
        confidence: int,
        seconds: i64,
        price: Decimal,
        max_edge_factor: Decimal,
        window: i64,
        r: TradeDecision,
    ) -> bool {
        match self.skip_reason(confidence, seconds, price, max_edge_factor, window) {
            Some(reason) => r == TradeDecision::Skip(reason),
            None => match r {
                TradeDecision::Trade { size, confidence: c, phase } => {
                    &&& c@ == confidence
                    &&& phase == phase_of(seconds)
                    &&& Some(size@) == self.size_for(
                        self.phase_left(phase)->0,
                        self.total_left()->0,
                        confidence,
                    )
                },
                TradeDecision::Skip(_) => false,
            },
        }
    }

    /// Decides on a trade at a distance from the strike; `root` is the square root of
    /// `confidence_product`.
    pub fn should_trade(
        &self,
        distance_dollars: Decimal,
        seconds_remaining: i64,
        favorable_price: Decimal,
        max_edge_factor: Decimal,
        window_duration_secs: i64,
        root: Decimal,
    ) -> (r: TradeDecision)
        requires
            self.time_conf(seconds_remaining, window_duration_secs) is Some,
            self.dist_conf(self.atr_multiple(distance_dollars)) is Some,
            self.confidence(distance_dollars, seconds_remaining, window_duration_secs, root) is Some,
            self.decision_fits(
                self.confidence(distance_dollars, seconds_remaining, window_duration_secs, root)->0,
                seconds_remaining,
                favorable_price,
                max_edge_factor,
                window_duration_secs,
            ),
        ensures
            self.decides(
                self.confidence(distance_dollars, seconds_remaining, window_duration_secs, root)->0,
                seconds_remaining,
                favorable_price,
                max_edge_factor,
                window_duration_secs,
                r,
            ),
    {
        let confidence = self.calculate_confidence(
            distance_dollars,
            seconds_remaining,
            window_duration_secs,
            root,
        );
        self.should_trade_with_confidence(
            confidence,
            seconds_remaining,
            favorable_price,
            max_edge_factor,
            window_duration_secs,
        )
    }

    /// Decides on a trade with a given confidence.
    pub fn should_trade_with_confidence(
        &self,
        confidence: Decimal,
        seconds_remaining: i64,
        favorable_price: Decimal,
        max_edge_factor: Decimal,
        window_duration_secs: i64,
    ) -> (r: TradeDecision)
        requires
            self.decision_fits(
                confidence@,
                seconds_remaining,
                favorable_price,
                max_edge_factor,
                window_duration_secs,
            ),
        ensures
            self.decides(
                confidence@,
                seconds_remaining,
                favorable_price,
                max_edge_factor,
                window_duration_secs,
                r,
            ),
    {
        let phase = Phase::from_seconds(seconds_remaining);
        let should_skip = if max_edge_factor > Decimal::zero() {
            let ev = confidence.minus(favorable_price);
            let factor = if window_duration_secs > 0 {
                proof {
                    lemma_ratio_fits(seconds_remaining as int, window_duration_secs as int);
                }
                Decimal::from_i64(seconds_remaining).over(Decimal::from_i64(window_duration_secs))
            } else {
                Decimal::zero()
            };
            let min_edge = max_edge_factor.times(factor);
            ev < min_edge
        } else {
            confidence < self.config.threshold_for_phase(phase)
        };
        if should_skip {
            return TradeDecision::Skip(SkipReason::LowConfidence);
        }
        let total_remaining = self.config.total_budget.minus(self.total_spent);
        if total_remaining <= Decimal::zero() {
            return TradeDecision::Skip(SkipReason::TotalBudgetExhausted);
        }
        let phase_remaining = self.config.phase_budget(phase).minus(self.phase_spent.get(phase));
        if phase_remaining <= Decimal::zero() {
            return TradeDecision::Skip(SkipReason::PhaseBudgetExhausted);
        }
        let size = self.calculate_size(phase_remaining, total_remaining, confidence);
        if size < self.config.min_order_size {
            return TradeDecision::Skip(SkipReason::BelowMinimumSize);
        }
        TradeDecision::Trade { size, confidence, phase }
    }

    /// Size of a trade.
    pub fn calculate_size(
        &self,
        phase_remaining: Decimal,
        total_remaining: Decimal,
        confidence: Decimal,
    ) -> (r: Decimal)
        requires
            self.size_for(phase_remaining@, total_remaining@, confidence@) is Some,
        ensures
            Some(r@) == self.size_for(phase_remaining@, total_remaining@, confidence@),
    {
        let trades_per_phase = Decimal::from_i64(self.config.trades_per_phase as i64);
        let base_size = phase_remaining.over(trades_per_phase);
        let multiplier = Decimal::new(5, 1).plus(confidence.times(Decimal::new(15, 1)));
        let size = base_size.times(multiplier);
        size.min(phase_remaining).min(total_remaining.times(Decimal::new(15, 2))).min(
            self.config.max_order_size,
        ).max(self.config.min_order_size)
    }

    /// Spent amounts after a trade of this size.
    pub open spec fn spent_after(self, size: int, phase: Phase) -> (Option<int>, Option<int>) {
        (
            sum(num(self.phase_spent.at(phase)), Some(size)),
            sum(num(self.total_spent), Some(size)),
        )
    }

    /// Dollars on a side after a trade.
    pub open spec fn side_after(self, exposure: Decimal, size: int, amount: int) -> Option<
        int,
    > {
        sum(
            product(
                num(exposure),
                difference(sum(num(self.total_spent), Some(size)), Some(size)),
            ),
            Some(amount),
        )
    }

    /// Whether a trade can be booked within range.
    pub open spec fn trade_fits(
        self,
        size: int,
        up_amount: int,
        down_amount: int,
        seconds: i64,
    ) -> bool {
        let (phase_spent, total_spent) = self.spent_after(size, phase_of(seconds));
        &&& phase_spent is Some
        &&& total_spent is Some
        &&& self.side_after(self.up_exposure, size, up_amount) is Some
        &&& self.side_after(self.down_exposure, size, down_amount) is Some
        &&& total_spent->0 > 0 ==> {
            &&& divided(self.side_after(self.up_exposure, size, up_amount), total_spent) is Some
            &&& divided(self.side_after(self.down_exposure, size, down_amount), total_spent) is Some
        }
        &&& self.trade_count < u32::MAX
    }

    /// Whether `after` is this manager with a trade booked.
    pub open spec fn traded(
        self,
        size: int,
        up_amount: int,
        down_amount: int,
        seconds: i64,
        after: PositionManager,
    ) -> bool {
        let phase = phase_of(seconds);
        let (phase_spent, total_spent) = self.spent_after(size, phase);
        &&& after.config == self.config
        &&& after.phase_spent == self.phase_spent.with(phase, after.phase_spent.at(phase))
        &&& Some(after.phase_spent.at(phase)@) == phase_spent
        &&& Some(after.total_spent@) == total_spent
        &&& after.trade_count == self.trade_count + 1
        &&& if total_spent->0 > 0 {
            &&& Some(after.up_exposure@) == divided(
                self.side_after(self.up_exposure, size, up_amount),
                total_spent,
            )
            &&& Some(after.down_exposure@) == divided(
                self.side_after(self.down_exposure, size, down_amount),
                total_spent,
            )
        } else {
            after.up_exposure == self.up_exposure && after.down_exposure == self.down_exposure
        }
    }

    /// Books a trade: spent amounts, and the shares on either side.
    pub fn record_trade(
        &mut self,
        size: Decimal,
        up_amount: Decimal,
        down_amount: Decimal,
        seconds_remaining: i64,
    )
        requires
            old(self).trade_fits(size@, up_amount@, down_amount@, seconds_remaining),
        ensures
            old(self).traded(size@, up_amount@, down_amount@, seconds_remaining, *final(self)),
    {
        let phase = Phase::from_seconds(seconds_remaining);
        let spent = self.phase_spent.get(phase).plus(size);
        self.phase_spent.set(phase, spent);
        self.total_spent = self.total_spent.plus(size);
        let before = self.total_spent.minus(size);
        let total_up = self.up_exposure.times(before).plus(up_amount);
        let total_down = self.down_exposure.times(before).plus(down_amount);
        if self.total_spent > Decimal::zero() {
            self.up_exposure = total_up.over(self.total_spent);
            self.down_exposure = total_down.over(self.total_spent);
        }
        self.trade_count = self.trade_count + 1;
    }

    /// Whether `after` is this manager with budget set aside.
    pub open spec fn reserved(self, size: Decimal, seconds: i64, after: PositionManager) -> bool {
        let phase = phase_of(seconds);
        &&& after.config == self.config
        &&& after.up_exposure == self.up_exposure
        &&& after.down_exposure == self.down_exposure
        &&& after.trade_count == self.trade_count
        &&& Some(after.total_spent@) == sum(num(self.total_spent), num(size))
        &&& Some(after.phase_spent.at(phase)@) == sum(num(self.phase_spent.at(phase)), num(size))
        &&& after.phase_spent == self.phase_spent.with(phase, after.phase_spent.at(phase))
    }

    /// Sets budget aside for an order: it counts as spent until it is released or committed.
    pub fn reserve_budget(&mut self, size: Decimal, seconds_remaining: i64)
        requires
            sum(num(old(self).phase_spent.at(phase_of(seconds_remaining))), num(size)) is Some,
            sum(num(old(self).total_spent), num(size)) is Some,
        ensures
            old(self).reserved(size, seconds_remaining, *final(self)),
    {
        let phase = Phase::from_seconds(seconds_remaining);
        let spent = self.phase_spent.get(phase).plus(size);
        self.phase_spent.set(phase, spent);
        self.total_spent = self.total_spent.plus(size);
    }

    /// Gives back budget that was set aside.
    pub fn release_reservation(&mut self, size: Decimal, seconds_remaining: i64)
        requires
            difference(num(old(self).phase_spent.at(phase_of(seconds_remaining))), num(size)) is Some,
            difference(num(old(self).total_spent), num(size)) is Some,
        ensures
            old(self).released(size, seconds_remaining, *final(self)),
    {
        let phase = Phase::from_seconds(seconds_remaining);
        let spent = self.phase_spent.get(phase).minus(size);
        self.phase_spent.set(phase, spent);
        self.total_spent = self.total_spent.minus(size);
    }

    /// Whether `after` is this manager with budget given back.
    pub open spec fn released(self, size: Decimal, seconds: i64, after: PositionManager) -> bool {
        let phase = phase_of(seconds);
        &&& after.config == self.config
        &&& after.up_exposure == self.up_exposure
        &&& after.down_exposure == self.down_exposure
        &&& after.trade_count == self.trade_count
        &&& Some(after.total_spent@) == difference(num(self.total_spent), num(size))
        &&& Some(after.phase_spent.at(phase)@) == difference(
            num(self.phase_spent.at(phase)),
            num(size),
        )
        &&& after.phase_spent == self.phase_spent.with(phase, after.phase_spent.at(phase))
    }

    /// Turns budget that was set aside into a trade of what was filled.
    pub fn commit_reservation(
        &mut self,
        reserved_size: Decimal,
        filled_size: Decimal,
        up_amount: Decimal,
        down_amount: Decimal,
        seconds_remaining: i64,
    )
        requires
            difference(
                num(old(self).phase_spent.at(phase_of(seconds_remaining))),
                num(reserved_size),
            ) is Some,
            difference(num(old(self).total_spent), num(reserved_size)) is Some,
            forall|between: PositionManager| #[trigger]
                old(self).released(reserved_size, seconds_remaining, between)
                    ==> between.trade_fits(filled_size@, up_amount@, down_amount@, seconds_remaining),
        ensures
            exists|between: PositionManager| #[trigger]
                old(self).released(reserved_size, seconds_remaining, between) && between.traded(
                    filled_size@,
                    up_amount@,
                    down_amount@,
                    seconds_remaining,
                    *final(self),
                ),
    {
        self.release_reservation(reserved_size, seconds_remaining);
        let ghost between = *self;
        assert(old(self).released(reserved_size, seconds_remaining, between));
        self.record_trade(filled_size, up_amount, down_amount, seconds_remaining);
    }

    /// Spent amounts and budgets of all phases.
    pub fn phase_summary(&self) -> (r: PhaseSummary)
        requires
            forall|phase: Phase| (#[trigger] self.config.spec_phase_budget(phase)) is Some,
        ensures
            r.spent == self.phase_spent,
            forall|phase: Phase|
                Some((#[trigger] r.budget.at(phase))@) == self.config.spec_phase_budget(phase),
    {
        assert(self.config.spec_phase_budget(Phase::Early) is Some);
        assert(self.config.spec_phase_budget(Phase::Build) is Some);
        assert(self.config.spec_phase_budget(Phase::Core) is Some);
        assert(self.config.spec_phase_budget(Phase::Final) is Some);
        PhaseSummary {
            spent: self.phase_spent,
            budget: PhaseAmounts {
                early: self.config.phase_budget(Phase::Early),
                build: self.config.phase_budget(Phase::Build),
                core: self.config.phase_budget(Phase::Core),
                closing: self.config.phase_budget(Phase::Final),
            },
        }
    }

    /// Budget of the market that is left.
    pub fn budget_remaining(&self) -> (r: Decimal)
        requires
            self.total_left() is Some,
        ensures
            Some(r@) == self.total_left(),
    {
        self.config.total_budget.minus(self.total_spent)
    }

    /// Shares on the UP and the DOWN side.
    pub fn exposure(&self) -> (r: (Decimal, Decimal))
        ensures
            r == (self.up_exposure, self.down_exposure),
    {
        (self.up_exposure, self.down_exposure)
    }

    /// Number of trades.
    pub fn trade_count(&self) -> (r: u32)
        ensures
            r == self.trade_count,
    {
        self.trade_count
    }

    /// Whether the share on a side has reached its limit.
    pub open spec fn is_limited(self, favor_up: bool) -> bool {
        if favor_up {
            self.up_exposure@ >= self.config.max_single_side_exposure@
        } else {
            self.down_exposure@ >= self.config.max_single_side_exposure@
        }
    }

    /// Whether the share on a side has reached its limit.
    pub fn at_position_limit(&self, favor_up: bool) -> (r: bool)
        ensures
            r == self.is_limited(favor_up),
    {
        if favor_up {
            self.up_exposure >= self.config.max_single_side_exposure
        } else {
            self.down_exposure >= self.config.max_single_side_exposure
        }
    }

    /// Starts over for a new market.
    pub fn reset(&mut self)
        ensures
            final(self).config == old(self).config,
            final(self).is_fresh(),
    {
        self.phase_spent = PhaseAmounts::zero();
        self.total_spent = Decimal::zero();
        self.up_exposure = Decimal::zero();
        self.down_exposure = Decimal::zero();
        self.trade_count = 0;
    }
}

/// The shares of the phases make up the whole budget.
pub proof fn law_allocations_add_up()
    ensures
        Phase::Early.budget_percent() + Phase::Build.budget_percent() + Phase::Core.budget_percent()
            + Phase::Final.budget_percent() == 100,
{
}

/// The least confidence falls, and the phase moves on, as time passes.
pub proof fn law_phases_move_on(earlier: int, later: int)
    requires
        later <= earlier,
    ensures
        phase_at(later).confidence_percent() <= phase_at(earlier).confidence_percent(),
        phase_at(later) is Early ==> phase_at(earlier) is Early,
        phase_at(earlier) is Final ==> phase_at(later) is Final,
{
}

/// A trade is at least as large as the smallest order. As long as the smallest order fits into
/// what is left, it does not exceed the budget of the phase, the largest order or 15% of the
/// budget of the market.
pub proof fn law_trade_within_budget(
    manager: PositionManager,
    confidence: int,
    seconds: i64,
    price: Decimal,
    max_edge_factor: Decimal,
    window: i64,
    r: TradeDecision,
)
    requires
        manager.decision_fits(confidence, seconds, price, max_edge_factor, window),
        manager.decides(confidence, seconds, price, max_edge_factor, window, r),
        r is Trade,
    ensures
        r->Trade_size@ >= manager.config.min_order_size@,
        manager.config.min_order_size@ <= manager.phase_left(phase_of(seconds))->0
            ==> r->Trade_size@ <= manager.phase_left(phase_of(seconds))->0,
        manager.config.min_order_size@ <= manager.config.max_order_size@ ==> r->Trade_size@
            <= manager.config.max_order_size@,
        manager.config.min_order_size@ <= product(manager.total_left(), lit(15, 2))->0
            ==> r->Trade_size@ <= product(manager.total_left(), lit(15, 2))->0,
        manager.total_left()->0 > 0,
        manager.phase_left(phase_of(seconds))->0 > 0,
{
}

/// Time confidence is the floor with the whole window remaining, and 1 with nothing of it.
pub proof fn law_time_confidence_ends(manager: PositionManager, window: i64)
    requires
        window > 0,
        manager.config.time_conf_floor@ == units(30, 2),
    ensures
        manager.time_conf(window, window) == lit(30, 2),
        manager.time_conf(0, window) == lit(1, 0),
{
    let p = pow10(28);
    let w = window as int;
    assert((w * p) * p == (w * p) * (1 * p)) by (nonlinear_arith);
    assert(w * p > 0) by (nonlinear_arith)
        requires
            w > 0,
            p > 0,
    ;
    crate::decimal::lemma_exact((w * p) * p, w * p, 1, 28);
    assert((0 * p) * p == (w * p) * (0 * p)) by (nonlinear_arith);
    crate::decimal::lemma_exact((0 * p) * p, w * p, 0, 28);
    crate::decimal::lemma_lit_difference(100, 30, 2);
    crate::decimal::lemma_lit_difference(1, 1, 0);
    crate::decimal::lemma_lit_difference(1, 0, 0);
    crate::decimal::lemma_lit_product(70, 2, 0, 0);
    crate::decimal::lemma_lit_product(70, 2, 1, 0);
    crate::decimal::lemma_lit_sum(30, 0, 2);
    crate::decimal::lemma_lit_sum(30, 70, 2);
}

/// More confidence never makes a trade smaller.
pub proof fn law_size_grows_with_confidence(
    manager: PositionManager,
    phase_left: int,
    total_left: int,
    low: int,
    high: int,
)
    requires
        0 <= phase_left,
        low <= high,
        manager.size_for(phase_left, total_left, low) is Some,
        manager.size_for(phase_left, total_left, high) is Some,
    ensures
        manager.size_for(phase_left, total_left, low)->0 <= manager.size_for(
            phase_left,
            total_left,
            high,
        )->0,
{
    let trades = units(manager.config.trades_per_phase as int, 0);
    let base = quotient(Some(phase_left), Some(trades))->0;
    let p = pow10(28);
    assert(trades > 0) by (nonlinear_arith)
        requires
            trades == manager.config.trades_per_phase * p,
            trades != 0,
            p >= 0,
    ;
    assert(phase_left * p >= 0) by (nonlinear_arith)
        requires
            phase_left >= 0,
            p >= 0,
    ;
    lemma_sign(phase_left * p, trades);
    let unit = units(15, 1);
    assert(low * unit == unit * low && high * unit == unit * high) by (nonlinear_arith);
    lemma_product_monotone(unit, low, high);
    let scaled_low = product(Some(low), lit(15, 1));
    let scaled_high = product(Some(high), lit(15, 1));
    lemma_sum_monotone(units(5, 1), scaled_low->0, scaled_high->0);
    lemma_product_monotone(
        base,
        sum(lit(5, 1), scaled_low)->0,
        sum(lit(5, 1), scaled_high)->0,
    );
}

/// The least edge falls as time passes.
pub proof fn law_edge_shrinks_with_time(
    max_edge_factor: Decimal,
    earlier: i64,
    later: i64,
    window: i64,
)
    requires
        0 <= max_edge_factor@,
        later <= earlier,
        PositionManager::min_edge(max_edge_factor, earlier, window) is Some,
        PositionManager::min_edge(max_edge_factor, later, window) is Some,
    ensures
        PositionManager::min_edge(max_edge_factor, later, window)->0 <= PositionManager::min_edge(
            max_edge_factor,
            earlier,
            window,
        )->0,
{
    let p = pow10(28);
    if window > 0 {
        assert(later * p <= earlier * p && 0 < window * p) by (nonlinear_arith)
            requires
                later <= earlier,
                0 < window,
                p > 0,
        ;
        lemma_quotient_monotone(later * p, earlier * p, window * p);
        lemma_product_monotone(
            max_edge_factor@,
            time_factor(later, window)->0,
            time_factor(earlier, window)->0,
        );
    }
}

/// Budget that was set aside for an order that came to nothing is all given back, as long as the
/// sums are exact.
pub proof fn law_release_undoes_reservation(
    before: PositionManager,
    size: Decimal,
    seconds: i64,
    between: PositionManager,
    after: PositionManager,
)
    requires
        representable(before.total_spent@),
        representable(before.phase_spent.at(phase_of(seconds))@),
        between.total_spent@ == before.total_spent@ + size@,
        between.phase_spent.at(phase_of(seconds))@ == before.phase_spent.at(phase_of(seconds))@
            + size@,
        between.phase_spent == before.phase_spent.with(
            phase_of(seconds),
            between.phase_spent.at(phase_of(seconds)),
        ),
        between.released(size, seconds, after),
    ensures
        after.total_spent@ == before.total_spent@,
        forall|p: Phase| (#[trigger] after.phase_spent.at(p))@ == before.phase_spent.at(p)@,
{
    lemma_unrounded(before.total_spent@);
    lemma_unrounded(before.phase_spent.at(phase_of(seconds))@);
}

/// A trade as it is booked.
pub struct BookedTrade {
    pub size: Decimal,
    pub up_amount: Decimal,
    pub down_amount: Decimal,
    pub seconds_remaining: i64,
}

/// Whether trades lead from each manager of a list to the next.
pub open spec fn booked(managers: Seq<PositionManager>, trades: Seq<BookedTrade>) -> bool {
    &&& managers.len() == trades.len() + 1
    &&& forall|i: int|
        0 <= i < trades.len() ==> #[trigger] managers[i].traded(
            trades[i].size@,
            trades[i].up_amount@,
            trades[i].down_amount@,
            trades[i].seconds_remaining,
            managers[i + 1],
        )
}

/// An amount with the sizes of trades added to it, one after the other; of all trades, or of those
/// in one phase.
pub open spec fn with_trades(start: int, trades: Seq<BookedTrade>, phase: Option<Phase>) -> Option<int>
    decreases trades.len(),
{
    if trades.len() == 0 {
        Some(start)
    } else {
        let before = with_trades(start, trades.drop_last(), phase);
        if phase is None || phase == Some(phase_of(trades.last().seconds_remaining)) {
            sum(before, num(trades.last().size))
        } else {
            before
        }
    }
}

/// The sizes of trades, added up without rounding; of all trades, or of those in one phase.
pub open spec fn plain_in(trades: Seq<BookedTrade>, phase: Option<Phase>) -> int
    decreases trades.len(),
{
    if trades.len() == 0 {
        0
    } else if phase is None || phase == Some(phase_of(trades.last().seconds_remaining)) {
        plain_in(trades.drop_last(), phase) + trades.last().size@
    } else {
        plain_in(trades.drop_last(), phase)
    }
}

/// The sizes of trades, added up without rounding.
pub open spec fn plain_total(trades: Seq<BookedTrade>) -> int {
    plain_in(trades, None)
}

/// The UP or the DOWN amounts of trades, added up without rounding.
pub open spec fn plain_side(trades: Seq<BookedTrade>, up: bool) -> int
    decreases trades.len(),
{
    if trades.len() == 0 {
        0
    } else {
        plain_side(trades.drop_last(), up) + (if up {
            trades.last().up_amount@
        } else {
            trades.last().down_amount@
        })
    }
}

/// After any list of trades, what was spent in all and in each phase is what was spent before with
/// the sizes added up, and each trade was counted.
pub proof fn law_totals_are_sums(managers: Seq<PositionManager>, trades: Seq<BookedTrade>)
    requires
        booked(managers, trades),
    ensures
        num(managers.last().total_spent) == with_trades(
            managers[0].total_spent@,
            trades,
            None,
        ),
        forall|phase: Phase|
            num((#[trigger] managers.last().phase_spent.at(phase))) == with_trades(
                managers[0].phase_spent.at(phase)@,
                trades,
                Some(phase),
            ),
        managers.last().trade_count == managers[0].trade_count + trades.len(),
    decreases trades.len(),
{
    if trades.len() > 0 {
        let n = trades.len() - 1;
        let before = managers.drop_last();
        assert forall|i: int| 0 <= i < trades.drop_last().len() implies #[trigger] before[i].traded(
            trades.drop_last()[i].size@,
            trades.drop_last()[i].up_amount@,
            trades.drop_last()[i].down_amount@,
            trades.drop_last()[i].seconds_remaining,
            before[i + 1],
        ) by {
            assert(managers[i].traded(
                trades[i].size@,
                trades[i].up_amount@,
                trades[i].down_amount@,
                trades[i].seconds_remaining,
                managers[i + 1],
            ));
        }
        law_totals_are_sums(before, trades.drop_last());
        assert(managers[n as int].traded(
            trades[n as int].size@,
            trades[n as int].up_amount@,
            trades[n as int].down_amount@,
            trades[n as int].seconds_remaining,
            managers[n + 1],
        ));
        assert(before.last() == managers[n as int]);
        assert forall|phase: Phase|
            num((#[trigger] managers.last().phase_spent.at(phase))) == with_trades(
                managers[0].phase_spent.at(phase)@,
                trades,
                Some(phase),
            ) by {
            assert(num(before.last().phase_spent.at(phase)) == with_trades(
                before[0].phase_spent.at(phase)@,
                trades.drop_last(),
                Some(phase),
            ));
        }
    }
}

/// Where the sums along the way can be written as decimals, adding up rounds nothing, in all and in
/// each phase.
pub proof fn law_totals_are_exact(start: int, trades: Seq<BookedTrade>, phase: Option<Phase>)
    requires
        forall|n: int|
            0 <= n <= trades.len() ==> representable(
                start + #[trigger] plain_in(trades.take(n), phase),
            ),
    ensures
        with_trades(start, trades, phase) == Some(start + plain_in(trades, phase)),
    decreases trades.len(),
{
    assert(trades.take(trades.len() as int) =~= trades);
    if trades.len() > 0 {
        let before = trades.drop_last();
        assert forall|n: int| 0 <= n <= before.len() implies representable(
            start + #[trigger] plain_in(before.take(n), phase),
        ) by {
            assert(before.take(n) =~= trades.take(n));
        }
        law_totals_are_exact(start, before, phase);
        lemma_unrounded(start + plain_in(trades, phase));
    }
}

/// The sizes of the trades of the four phases add up to those of all trades.
pub proof fn law_phases_add_up(trades: Seq<BookedTrade>)
    ensures
        plain_in(trades, Some(Phase::Early)) + plain_in(trades, Some(Phase::Build)) + plain_in(
            trades,
            Some(Phase::Core),
        ) + plain_in(trades, Some(Phase::Final)) == plain_total(trades),
    decreases trades.len(),
{
    if trades.len() > 0 {
        law_phases_add_up(trades.drop_last());
    }
}

proof fn lemma_plain_parts(trades: Seq<BookedTrade>, n: int)
    requires
        0 <= n < trades.len(),
    ensures
        plain_total(trades.take(n + 1)) == plain_total(trades.take(n)) + trades[n].size@,
        plain_side(trades.take(n + 1), true) == plain_side(trades.take(n), true)
            + trades[n].up_amount@,
        plain_side(trades.take(n + 1), false) == plain_side(trades.take(n), false)
            + trades[n].down_amount@,
{
    assert(trades.take(n + 1).drop_last() =~= trades.take(n));
}

/// Whether a side has an exact share of a positive total, all of them being decimals.
pub open spec fn has_exact_share(side: int, total: int) -> bool {
    &&& total > 0
    &&& representable(total)
    &&& representable(side)
    &&& (side * pow10(28)) % total == 0
    &&& representable((side * pow10(28)) / total)
}

/// One more trade keeps the share of a side exact.
proof fn lemma_exact_share(share: int, side: int, total: int, size: int, amount: int)
    requires
        (total == 0 && side == 0 && share == 0) || (has_exact_share(side, total) && share == (side
            * pow10(28)) / total),
        has_exact_share(side + amount, total + size),
    ensures
        quotient(
            sum(
                product(Some(share), difference(sum(Some(total), Some(size)), Some(size))),
                Some(amount),
            ),
            sum(Some(total), Some(size)),
        ) == Some(((side + amount) * pow10(28)) / (total + size)),
        sum(Some(total), Some(size)) == Some(total + size),
{
    let p = pow10(28);
    assert(0 == 0 * pow10(0));
    assert(representable(0));
    lemma_unrounded(total + size);
    assert(total + size - size == total);
    lemma_unrounded(total);
    let x = side * p;
    assert(share * total == p * side) by (nonlinear_arith)
        requires
            x == side * p,
            (total == 0 && side == 0) || (total > 0 && x % total == 0 && share == x / total),
    ;
    lemma_exact_value(share * total, p, side);
    lemma_unrounded(side + amount);
    let y = (side + amount) * p;
    let d = total + size;
    let v = y / d;
    assert(y == d * v) by (nonlinear_arith)
        requires
            d > 0,
            y % d == 0,
            v == y / d,
    ;
    lemma_exact_value(y, d, v);
}

/// After any list of trades of a new manager, the exposure of each side is the sum of its amounts
/// over the sum of the sizes, where sums and shares along the way can be written as decimals.
pub proof fn law_exposure_is_exact(managers: Seq<PositionManager>, trades: Seq<BookedTrade>)
    requires
        booked(managers, trades),
        managers[0].is_fresh(),
        trades.len() > 0,
        forall|n: int|
            1 <= n <= trades.len() ==> has_exact_share(
                plain_side(#[trigger] trades.take(n), true),
                plain_total(trades.take(n)),
            ) && has_exact_share(
                plain_side(trades.take(n), false),
                plain_total(trades.take(n)),
            ),
    ensures
        managers.last().total_spent@ == plain_total(trades),
        managers.last().up_exposure@ * plain_total(trades) == plain_side(trades, true) * pow10(28),
        managers.last().down_exposure@ * plain_total(trades) == plain_side(trades, false) * pow10(
            28,
        ),
{
    let last = trades.len() as int;
    lemma_exposure_exact(managers, trades, last);
    assert(trades.take(last) =~= trades);
    let total = plain_total(trades);
    let up = plain_side(trades, true) * pow10(28);
    let down = plain_side(trades, false) * pow10(28);
    assert((up / total) * total == up && (down / total) * total == down) by (nonlinear_arith)
        requires
            total > 0,
            up % total == 0,
            down % total == 0,
    ;
}

proof fn lemma_exposure_exact(managers: Seq<PositionManager>, trades: Seq<BookedTrade>, n: int)
    requires
        booked(managers, trades),
        managers[0].is_fresh(),
        1 <= n <= trades.len(),
        forall|n: int|
            1 <= n <= trades.len() ==> has_exact_share(
                plain_side(#[trigger] trades.take(n), true),
                plain_total(trades.take(n)),
            ) && has_exact_share(
                plain_side(trades.take(n), false),
                plain_total(trades.take(n)),
            ),
    ensures
        ({
            let t = trades.take(n);
            &&& managers[n].total_spent@ == plain_total(t)
            &&& managers[n].up_exposure@ == (plain_side(t, true) * pow10(28)) / plain_total(t)
            &&& managers[n].down_exposure@ == (plain_side(t, false) * pow10(28)) / plain_total(t)
        }),
    decreases n,
{
    let i = n - 1;
    let m = managers[i];
    let trade = trades[i];
    let t = trades.take(i);
    if i > 0 {
        lemma_exposure_exact(managers, trades, i);
        assert(has_exact_share(plain_side(t, true), plain_total(t)));
    }
    assert(has_exact_share(plain_side(trades.take(n), true), plain_total(trades.take(n))));
    lemma_plain_parts(trades, i);
    assert(m.traded(
        trade.size@,
        trade.up_amount@,
        trade.down_amount@,
        trade.seconds_remaining,
        managers[i + 1],
    ));
    lemma_exact_share(
        m.up_exposure@,
        plain_side(t, true),
        plain_total(t),
        trade.size@,
        trade.up_amount@,
    );
    lemma_exact_share(
        m.down_exposure@,
        plain_side(t, false),
        plain_total(t),
        trade.size@,
        trade.down_amount@,
    );
}

/// Whether a share of a total is that of a side, up to an error of `c` units for each of `n` trades.
pub open spec fn is_share(share: int, side: int, total: int, n: int, c: int) -> bool {
    let error = share * total - side * pow10(28);
    -(n * c * total) <= error <= n * c * total
}

/// One more trade adds one step of rounding to the share of a side.
proof fn lemma_share_step(
    share: int,
    side: int,
    total: int,
    size: int,
    amount: int,
    n: int,
    k: int,
)
    requires
        0 <= n <= u32::MAX,
        0 <= k <= 17,
        0 <= side <= total,
        0 <= amount <= size,
        size >= units(1, 0),
        is_share(share, side, total, n, pow10(k) + 1),
        4 * (total + size) <= (coefficient_limit() - 1) * pow10(k),
    ensures
        ({
            let q = product(Some(share), Some(total));
            let s = sum(q, Some(amount));
            let r = quotient(s, Some(total + size));
            r is Some && is_share(r->0, side + amount, total + size, n + 1, pow10(k) + 1)
        }),
{
    let p = pow10(28);
    let w = pow10(k);
    let c = w + 1;
    let l = coefficient_limit() - 1;
    let d = total + size;
    let x = share * total;
    let err = n * c * total;
    assert(1 <= w <= 100000000000000000);
    let nc = n * c;
    assert(0 <= nc <= p) by (nonlinear_arith)
        requires
            nc == n * c,
            0 <= n <= 4294967295,
            0 <= c <= 100000000000000001,
            p == 10000000000000000000000000000int,
    ;
    assert(err == nc * total);
    assert(0 <= err <= p * total) by (nonlinear_arith)
        requires
            err == nc * total,
            0 <= nc <= p,
            total >= 0,
    ;
    assert(0 <= side * p <= p * total) by (nonlinear_arith)
        requires
            0 <= side <= total,
            p > 0,
    ;
    // The product
    let pw = p * w;
    assert(2 * (p * total) <= l * pw && -l * pw == -(l * pw) && pw >= 0) by (nonlinear_arith)
        requires
            4 * d <= l * w,
            0 <= total <= d,
            pw == p * w,
            p > 0,
            w > 0,
    ;
    lemma_rounded_near(x, p, k);
    let q = rounded(x, p)->0;
    // The sum
    assert(q * p == p * q) by (nonlinear_arith);
    assert(q + amount <= 2 * d + w && q + amount >= -(d + w)) by (nonlinear_arith)
        requires
            -pw <= 2 * (q * p) - 2 * x <= pw,
            -(p * total) <= x <= 2 * (p * total),
            pw == p * w,
            0 <= amount <= size,
            d == total + size,
            total >= 0,
            w > 0,
            p > 0,
    ;
    assert(2 * d + w <= l * w && -(d + w) >= -(l * w) && -l * w == -(l * w)) by (nonlinear_arith)
        requires
            4 * d <= l * w,
            l >= 4,
            w > 0,
            d >= 0,
    ;
    assert(1 * w == w);
    lemma_rounded_near(q + amount, 1, k);
    let s = rounded(q + amount, 1)->0;
    assert(s * 1 == s);
    // The quotient
    let y = s * p;
    let qp = q * p;
    let ap = amount * p;
    assert(-w <= 2 * s - 2 * (q + amount) <= w);
    assert(-pw <= 2 * y - 2 * (qp + ap) <= pw) by (nonlinear_arith)
        requires
            -w <= 2 * s - 2 * (q + amount) <= w,
            y == s * p,
            qp == q * p,
            ap == amount * p,
            pw == p * w,
            p > 0,
    ;
    assert(0 <= ap <= p * size) by (nonlinear_arith)
        requires
            0 <= amount <= size,
            ap == amount * p,
            p > 0,
    ;
    assert(p * total + p * size == p * d) by (nonlinear_arith)
        requires
            d == total + size,
    ;
    assert(pw <= p * d) by (nonlinear_arith)
        requires
            pw == p * w,
            w <= d,
            p > 0,
    ;
    assert(-(3 * (p * d)) <= y <= 3 * (p * d));
    assert(3 * (p * d) <= l * d && -l * d == -(l * d)) by (nonlinear_arith)
        requires
            3 * p <= l,
            d >= 0,
    ;
    assert(pow10(0) == 1);
    assert(d * 1 == d);
    lemma_rounded_near(y, d, 0);
    let r = rounded(y, d)->0;
    // The error
    let more = (n + 1) * c * d;
    assert((side + amount) * p == side * p + ap) by (nonlinear_arith)
        requires
            ap == amount * p,
    ;
    let e = r * d - (side + amount) * p;
    assert(2 * e <= d + 2 * pw + 2 * err && 2 * e >= -(d + 2 * pw + 2 * err));
    assert(pw <= w * d) by (nonlinear_arith)
        requires
            pw == p * w,
            p <= d,
            w > 0,
    ;
    assert(more == nc * d + c * d && nc * d >= nc * total && c * d == w * d + d)
        by (nonlinear_arith)
        requires
            more == (n + 1) * c * d,
            nc == n * c,
            nc >= 0,
            d >= total,
            c == w + 1,
    ;
}

/// What holds of trades so that rounding stays small: each is of a dollar at least, of which either
/// side has a part; the sums of the sizes can be written as decimals, and a quarter of the largest
/// number with `28 - k` digits behind the point is not exceeded.
pub open spec fn ordinary(trades: Seq<BookedTrade>, k: int) -> bool {
    &&& 0 <= k <= 17
    &&& trades.len() <= u32::MAX
    &&& forall|i: int|
        0 <= i < trades.len() ==> {
            &&& (#[trigger] trades[i]).size@ >= units(1, 0)
            &&& 0 <= trades[i].up_amount@ <= trades[i].size@
            &&& 0 <= trades[i].down_amount@ <= trades[i].size@
        }
    &&& forall|n: int|
        0 <= n <= trades.len() ==> {
            &&& representable(plain_total(#[trigger] trades.take(n)))
            &&& 4 * plain_total(trades.take(n)) <= (coefficient_limit() - 1) * pow10(k)
        }
}

proof fn lemma_exposure_near(
    managers: Seq<PositionManager>,
    trades: Seq<BookedTrade>,
    n: int,
    k: int,
)
    requires
        booked(managers, trades),
        managers[0].is_fresh(),
        0 <= n <= trades.len(),
        ordinary(trades, k),
    ensures
        ({
            let t = trades.take(n);
            let total = plain_total(t);
            &&& managers[n].total_spent@ == total
            &&& 0 <= plain_side(t, true) <= total
            &&& 0 <= plain_side(t, false) <= total
            &&& is_share(
                managers[n].up_exposure@,
                plain_side(t, true),
                total,
                n,
                pow10(k) + 1,
            )
            &&& is_share(
                managers[n].down_exposure@,
                plain_side(t, false),
                total,
                n,
                pow10(k) + 1,
            )
        }),
    decreases n,
{
    let c = pow10(k) + 1;
    if n == 0 {
        assert(0 * c * 0 == 0);
        assert(0 * pow10(28) == 0);
    } else {
        let i = n - 1;
        let m = managers[i];
        let trade = trades[i];
        let t = trades.take(i);
        let total = plain_total(t);
        lemma_exposure_near(managers, trades, i, k);
        lemma_plain_parts(trades, i);
        assert(trade.size@ >= units(1, 0));
        assert(representable(plain_total(t)));
        assert(representable(plain_total(trades.take(n))));
        lemma_unrounded(total + trade.size@);
        lemma_unrounded(total);
        assert(total + trade.size@ - trade.size@ == total);
        assert(m.traded(
            trade.size@,
            trade.up_amount@,
            trade.down_amount@,
            trade.seconds_remaining,
            managers[i + 1],
        ));
        lemma_share_step(
            m.up_exposure@,
            plain_side(t, true),
            total,
            trade.size@,
            trade.up_amount@,
            i,
            k,
        );
        lemma_share_step(
            m.down_exposure@,
            plain_side(t, false),
            total,
            trade.size@,
            trade.down_amount@,
            i,
            k,
        );
    }
}

/// After any list of ordinary trades of a new manager, the exposure of each side is the sum of its
/// amounts over the sum of the sizes, up to rounding: `10^k + 1` units of `10^-28` for each trade.
pub proof fn law_exposure_is_near(managers: Seq<PositionManager>, trades: Seq<BookedTrade>, k: int)
    requires
        booked(managers, trades),
        managers[0].is_fresh(),
        ordinary(trades, k),
    ensures
        managers.last().total_spent@ == plain_total(trades),
        is_share(
            managers.last().up_exposure@,
            plain_side(trades, true),
            plain_total(trades),
            trades.len() as int,
            pow10(k) + 1,
        ),
        is_share(
            managers.last().down_exposure@,
            plain_side(trades, false),
            plain_total(trades),
            trades.len() as int,
            pow10(k) + 1,
        ),
{
    lemma_exposure_near(managers, trades, trades.len() as int, k);
    assert(trades.take(trades.len() as int) =~= trades);
}

/// Budget that is set aside counts as spent until it is released, which gives all of it back where
/// the sums are exact: less of it is left meanwhile, by just that much, and no trade is counted.
pub proof fn law_reserved_budget_counts_as_spent(
    before: PositionManager,
    size: Decimal,
    seconds: i64,
    between: PositionManager,
    after: PositionManager,
)
    requires
        before.reserved(size, seconds, between),
        between.released(size, seconds, after),
        representable(before.total_spent@),
        representable(before.total_spent@ + size@),
        representable(before.phase_spent.at(phase_of(seconds))@),
        representable(before.phase_spent.at(phase_of(seconds))@ + size@),
    ensures
        between.total_spent@ == before.total_spent@ + size@,
        between.phase_spent.at(phase_of(seconds))@ == before.phase_spent.at(phase_of(seconds))@
            + size@,
        forall|p: Phase|
            p != phase_of(seconds) ==> (#[trigger] between.phase_spent.at(p))
                == before.phase_spent.at(p),
        after.total_spent@ == before.total_spent@,
        forall|p: Phase| (#[trigger] after.phase_spent.at(p))@ == before.phase_spent.at(p)@,
        between.trade_count == before.trade_count,
        after.trade_count == before.trade_count,
        between.up_exposure == before.up_exposure,
        between.down_exposure == before.down_exposure,
{
    crate::decimal::law_arithmetic_is_exact(before.total_spent@, size@);
    crate::decimal::law_arithmetic_is_exact(before.phase_spent.at(phase_of(seconds))@, size@);
}

/// Nothing is bought for more than it is thought to be worth: a trade that goes by its edge is made
/// only where confidence is at least the price, and more than that as long as time remains.
pub proof fn law_trades_have_an_edge(
    manager: PositionManager,
    confidence: int,
    seconds: i64,
    price: Decimal,
    max_edge_factor: Decimal,
    window: i64,
    r: TradeDecision,
)
    requires
        manager.decision_fits(confidence, seconds, price, max_edge_factor, window),
        manager.decides(confidence, seconds, price, max_edge_factor, window, r),
        max_edge_factor@ > 0,
        window > 0,
        r is Trade,
    ensures
        seconds >= 0 ==> confidence >= price@,
        difference(Some(confidence), num(price))->0 >= product(
            num(max_edge_factor),
            quotient(lit(seconds as int, 0), lit(window as int, 0)),
        )->0,
        r->Trade_confidence@ == confidence,
{
    if seconds >= 0 {
        let p = pow10(28);
        assert(seconds * p >= 0 && window * p > 0) by (nonlinear_arith)
            requires
                seconds >= 0,
                window > 0,
                p > 0,
        ;
        lemma_ratio_fits(seconds as int, window as int);
        crate::decimal::lemma_quotient_sign(seconds * p, window * p);
        let f = time_factor(seconds, window)->0;
        let e = max_edge_factor@;
        assert(e * f >= 0) by (nonlinear_arith)
            requires
                e > 0,
                f >= 0,
        ;
        lemma_sign(e * f, p);
        if confidence < price@ {
            let d = confidence - price@;
            crate::decimal::lemma_exact(-1, 1, -1, 0);
            crate::decimal::lemma_rounded_monotone(d, 1, -1, 1);
        }
    }
}

/// A cheaper price or more confidence never turns a trade away for want of confidence.
pub proof fn law_better_terms_are_not_refused(
    manager: PositionManager,
    low: int,
    high: int,
    seconds: i64,
    dear: Decimal,
    cheap: Decimal,
    max_edge_factor: Decimal,
    window: i64,
)
    requires
        low <= high,
        cheap@ <= dear@,
        difference(Some(low), num(dear)) is Some,
        difference(Some(high), num(cheap)) is Some,
        !manager.lacks_confidence(low, seconds, dear, max_edge_factor, window),
    ensures
        !manager.lacks_confidence(high, seconds, cheap, max_edge_factor, window),
{
    crate::decimal::lemma_rounded_monotone(low - dear@, 1, high - cheap@, 1);
}

/// Without an edge factor a trade needs the confidence of its phase; in any case nothing is traded
/// once the budget of the market, or that of the phase, is spent.
pub proof fn law_budgets_end_trading(
    manager: PositionManager,
    confidence: int,
    seconds: i64,
    price: Decimal,
    max_edge_factor: Decimal,
    window: i64,
    r: TradeDecision,
)
    requires
        manager.decision_fits(confidence, seconds, price, max_edge_factor, window),
        manager.decides(confidence, seconds, price, max_edge_factor, window, r),
    ensures
        manager.total_spent@ >= manager.config.total_budget@ ==> r is Skip,
        manager.config.spec_phase_budget(phase_of(seconds)) is Some && manager.phase_spent.at(
            phase_of(seconds),
        )@ >= manager.config.spec_phase_budget(phase_of(seconds))->0 ==> r is Skip,
        max_edge_factor@ <= 0 && confidence < manager.config.spec_threshold(phase_of(seconds))@
            ==> r == TradeDecision::Skip(SkipReason::LowConfidence),
        r is Trade ==> r->phase == phase_of(seconds) && r->Trade_confidence@ == confidence,
{
    if manager.total_left() is Some {
        lemma_sign(manager.config.total_budget@ - manager.total_spent@, 1);
    }
    if manager.phase_left(phase_of(seconds)) is Some {
        lemma_sign(
            manager.config.spec_phase_budget(phase_of(seconds))->0 - manager.phase_spent.at(
                phase_of(seconds),
            )@,
            1,
        );
    }
}

/// Each phase has its own amounts and its own threshold: what is set for one changes no other.
pub proof fn law_phases_are_separate(
    amounts: PhaseAmounts,
    a: Phase,
    b: Phase,
    amount: Decimal,
    config: PositionConfig,
)
    ensures
        amounts.with(a, amount).at(a) == amount,
        a != b ==> amounts.with(a, amount).at(b) == amounts.at(b),
        config.spec_threshold(Phase::Early) == config.early_threshold,
        config.spec_threshold(Phase::Build) == config.build_threshold,
        config.spec_threshold(Phase::Core) == config.core_threshold,
        config.spec_threshold(Phase::Final) == config.final_threshold,
        config.spec_phase_budget(a) == product(
            num(config.total_budget),
            lit(a.budget_percent(), 2),
        ),
        a is Early ==> a.budget_percent() <= b.budget_percent(),
{
}

/// A side is at its limit by its own share, whatever the other side's is.
pub proof fn law_sides_have_their_own_limit(a: PositionManager, b: PositionManager)
    requires
        a.config.max_single_side_exposure@ == b.config.max_single_side_exposure@,
    ensures
        a.up_exposure@ == b.up_exposure@ ==> a.is_limited(true) == b.is_limited(true),
        a.down_exposure@ == b.down_exposure@ ==> a.is_limited(false) == b.is_limited(false),
        a.up_exposure@ == b.down_exposure@ ==> a.is_limited(true) == b.is_limited(false),
        a.up_exposure@ <= b.up_exposure@ && a.is_limited(true) ==> b.is_limited(true),
        a.up_exposure@ >= a.config.max_single_side_exposure@ ==> a.is_limited(true),
        a.up_exposure@ < a.config.max_single_side_exposure@ ==> !a.is_limited(true),
{
}

/// Confidence in a distance goes by how far it is, not on which side of the strike; it grows with the
/// distance, from the floor up to one.
pub proof fn law_distance_confidence_grows(
    manager: PositionManager,
    near: Decimal,
    far: Decimal,
    other: Decimal,
)
    requires
        0 <= near@ <= far@,
        other@ == -near@,
        0 <= manager.config.dist_conf_floor@ <= units(1, 0),
        0 <= manager.config.dist_conf_per_atr@,
        manager.config.atr@ > 0,
        manager.dist_conf(manager.atr_multiple(near)) is Some,
        manager.dist_conf(manager.atr_multiple(far)) is Some,
    ensures
        manager.atr_multiple(other) == manager.atr_multiple(near),
        manager.dist_conf(manager.atr_multiple(near))->0 <= manager.dist_conf(
            manager.atr_multiple(far),
        )->0,
        manager.config.dist_conf_floor@ <= manager.dist_conf(manager.atr_multiple(near))->0
            <= units(1, 0),
{
    let x = manager.atr_multiple(near)->0;
    let y = manager.atr_multiple(far)->0;
    lemma_quotient_monotone(near@, far@, manager.config.atr@);
    let k = manager.config.dist_conf_per_atr@;
    lemma_product_monotone(k, x, y);
    lemma_sum_monotone(
        manager.config.dist_conf_floor@,
        product(Some(k), Some(x))->0,
        product(Some(k), Some(y))->0,
    );
}

/// Time confidence grows as time runs out, from the floor up to one.
pub proof fn law_time_confidence_grows(
    manager: PositionManager,
    earlier: i64,
    later: i64,
    window: i64,
)
    requires
        later <= earlier,
        window > 0,
        0 <= manager.config.time_conf_floor@ <= units(1, 0),
        manager.time_conf(earlier, window) is Some,
        manager.time_conf(later, window) is Some,
    ensures
        manager.time_conf(earlier, window)->0 <= manager.time_conf(later, window)->0,
{
    let p = pow10(28);
    let a: int = if later > 0 {
        later as int
    } else {
        0
    };
    let b: int = if earlier > 0 {
        earlier as int
    } else {
        0
    };
    assert(a * p <= b * p && window * p > 0) by (nonlinear_arith)
        requires
            a <= b,
            window > 0,
            p > 0,
    ;
    lemma_ratio_fits(a, window as int);
    lemma_ratio_fits(b, window as int);
    lemma_quotient_monotone(a * p, b * p, window * p);
    let x = remaining_share(earlier, window)->0;
    let y = remaining_share(later, window)->0;
    let one = units(1, 0);
    crate::decimal::lemma_rounded_monotone(one - x, 1, one - y, 1);
    let f = manager.config.time_conf_floor@;
    lemma_sign(one - f, 1);
    let k = difference(lit(1, 0), Some(f))->0;
    let u = difference(lit(1, 0), Some(x))->0;
    let v = difference(lit(1, 0), Some(y))->0;
    lemma_product_monotone(k, u, v);
    lemma_sum_monotone(f, product(Some(k), Some(u))->0, product(Some(k), Some(v))->0);
}

/// Strong time and strong distance together raise confidence by a fifth, up to one; otherwise it is
/// the mean of both.
pub proof fn law_strong_factors_raise_confidence(
    manager: PositionManager,
    distance: Decimal,
    seconds: i64,
    window: i64,
    root: Decimal,
)
    requires
        manager.confidence(distance, seconds, window, root) is Some,
        0 <= root@ <= units(1, 0),
        representable(root@),
    ensures
        ({
            let t = manager.time_conf(seconds, window)->0;
            let d = manager.dist_conf(manager.atr_multiple(distance))->0;
            let c = manager.confidence(distance, seconds, window, root)->0;
            &&& t <= units(7, 1) || d <= units(7, 1) ==> c == root@
            &&& t > units(7, 1) && d > units(7, 1) ==> c >= root@ && c <= units(1, 0)
        }),
{
    let p = pow10(28);
    let x = root@;
    if product(num(root), lit(12, 1)) is Some {
        crate::decimal::law_arithmetic_is_exact(x, 0);
        lemma_product_monotone(x, units(1, 0), units(12, 1));
    }
}

/// Time and distance both count: where one of them is certain the product is the other, and the
/// product is never above either.
pub proof fn law_time_and_distance_both_count(
    manager: PositionManager,
    distance: Decimal,
    seconds: i64,
    window: i64,
)
    requires
        manager.time_conf(seconds, window) is Some,
        manager.dist_conf(manager.atr_multiple(distance)) is Some,
        0 <= manager.time_conf(seconds, window)->0 <= units(1, 0),
        0 <= manager.dist_conf(manager.atr_multiple(distance))->0 <= units(1, 0),
        representable(manager.time_conf(seconds, window)->0),
        representable(manager.dist_conf(manager.atr_multiple(distance))->0),
    ensures
        ({
            let t = manager.time_conf(seconds, window)->0;
            let d = manager.dist_conf(manager.atr_multiple(distance))->0;
            let both = manager.conf_product(distance, seconds, window);
            &&& both is Some
            &&& 0 <= both->0 <= t
            &&& both->0 <= d
            &&& t == units(1, 0) ==> both->0 == d
            &&& d == units(1, 0) ==> both->0 == t
        }),
{
    let t = manager.time_conf(seconds, window)->0;
    let d = manager.dist_conf(manager.atr_multiple(distance))->0;
    crate::decimal::lemma_product_shrinks(t, d);
    crate::decimal::lemma_product_shrinks(d, t);
    crate::decimal::law_arithmetic_is_exact(t, d);
    crate::decimal::law_arithmetic_is_exact(d, t);
}

} // verus!
