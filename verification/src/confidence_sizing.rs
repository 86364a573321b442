//! Order sizes scaled by confidence, within a budget per market.
//!
//! An order is the base size times the confidence multiplier, as far as the budget reaches.

use vstd::prelude::*;
use crate::config::SizingConfig;
use crate::confidence::{
    Confidence, ConfidenceCalculator, ConfidenceFactors, book_confidence_at,
    distance_confidence_at, signal_confidence_of, time_confidence_at,
};
use crate::decimal::{
    Decimal, clamped, difference, divided, greater, lemma_product_monotone, lesser, lit, num,
    product, sum, units, whole_u32,
};
use crate::signal::Signal;

verus! {

/// Result of confidence sizing.
#[derive(Clone, Copy, Debug)]
pub struct OrderSizeResult {
    /// Order size in dollars.
    pub size: Decimal,
    pub is_valid: bool,
    /// Size before confidence was applied.
    pub base_size: Decimal,
    pub confidence_multiplier: Decimal,
    pub confidence: Confidence,
    /// Why there is no order.
    pub rejection_reason: Option<SizeRejection>,
    /// Budget left after the order.
    pub budget_remaining: Decimal,
    /// Orders of the base size left after the order.
    pub trades_remaining: u32,
}

impl OrderSizeResult {
    /// Whether this is a rejection for the reason.
    pub open spec fn is_rejection(self, reason: SizeRejection, budget_remaining: int) -> bool {
        &&& self.size@ == 0
        &&& !self.is_valid
        &&& self.base_size@ == 0
        &&& self.confidence_multiplier@ == units(1, 0)
        &&& self.confidence.time@ == units(1, 0)
        &&& self.confidence.distance@ == units(1, 0)
        &&& self.confidence.signal@ == units(1, 0)
        &&& self.confidence.book@ == units(1, 0)
        &&& self.rejection_reason == Some(reason)
        &&& self.budget_remaining@ == budget_remaining
        &&& self.trades_remaining == 0
    }

    /// No order, for the reason.
    pub fn rejected(reason: SizeRejection, budget_remaining: Decimal) -> (r: OrderSizeResult)
        ensures
            r.is_rejection(reason, budget_remaining@),
    {
        OrderSizeResult {
            size: Decimal::zero(),
            is_valid: false,
            base_size: Decimal::zero(),
            confidence_multiplier: Decimal::one(),
            confidence: Confidence::neutral(),
            rejection_reason: Some(reason),
            budget_remaining,
            trades_remaining: 0,
        }
    }
}

/// Why there is no order.
#[derive(Clone, Copy, Debug, PartialEq, Eq, Structural)]
pub enum SizeRejection {
    /// The budget is spent.
    BudgetExhausted,
    /// The order would be too small.
    BelowMinimum,
    /// There is no balance.
    NoBalance,
}

impl SizeRejection {
    /// The reason in words.
    pub open spec fn spec_text(self) -> Seq<char> {
        match self {
            SizeRejection::BudgetExhausted => "budget exhausted"@,
            SizeRejection::BelowMinimum => "below minimum order size"@,
            SizeRejection::NoBalance => "no available balance"@,
        }
    }

    /// The reason in words.
    pub fn to_string(&self) -> (r: String)
        ensures
            r@ == self.spec_text(),
    {
        match self {
            SizeRejection::BudgetExhausted => "budget exhausted".to_owned(),
            SizeRejection::BelowMinimum => "below minimum order size".to_owned(),
            SizeRejection::NoBalance => "no available balance".to_owned(),
        }
    }
}

/// Sizes orders by confidence and keeps track of the budget.
#[derive(Clone, Copy, Debug)]
pub struct ConfidenceSizer {
    pub config: SizingConfig,
    /// Dollars spent in this session.
    pub spent: Decimal,
    /// Trades in this session.
    pub trades: u32,
}

impl ConfidenceSizer {
    /// Budget less what was spent.
    pub open spec fn unspent(self) -> Option<int> {
        difference(self.config.budget(), num(self.spent))
    }

    /// Multiplier for a scaled root: within its bounds and the configured maximum.
    pub open spec fn multiplier(self, scaled_root: Decimal) -> Option<int> {
        lesser(
            clamped(num(scaled_root), lit(5, 1), lit(3, 0)),
            num(self.config.max_confidence_multiplier),
        )
    }

    /// Order size: base size times multiplier, at most what is left of the budget.
    pub open spec fn order_size(self, scaled_root: Decimal) -> Option<int> {
        lesser(product(self.config.base_size(), self.multiplier(scaled_root)), self.unspent())
    }

    /// Budget left after an order.
    pub open spec fn left_after(self, scaled_root: Decimal) -> Option<int> {
        difference(self.unspent(), self.order_size(scaled_root))
    }

    /// Orders of the base size left after an order.
    pub open spec fn trades_after(self, scaled_root: Decimal) -> Option<int> {
        divided(self.left_after(scaled_root), self.config.base_size())
    }

    /// Why there is no order.
    pub open spec fn rejection(self, scaled_root: Decimal) -> Option<SizeRejection> {
        if self.unspent()->0 <= 0 {
            Some(SizeRejection::BudgetExhausted)
        } else if self.order_size(scaled_root)->0 < self.config.min_order_size@ {
            Some(SizeRejection::BelowMinimum)
        } else {
            None
        }
    }

    /// Whether the arithmetic of `get_order_size` stays within range.
    pub open spec fn order_fits(self, scaled_root: Decimal) -> bool {
        &&& self.config.budget() is Some
        &&& self.unspent() is Some
        &&& self.unspent()->0 > 0 ==> {
            &&& self.config.base_size() is Some
            &&& self.order_size(scaled_root) is Some
        }
        &&& self.rejection(scaled_root) is None ==> {
            &&& self.left_after(scaled_root) is Some
            &&& self.config.base_size()->0 > 0 ==> self.trades_after(scaled_root) is Some
        }
    }

    /// Whether `r` is the order size for the factors and their scaled root.
    pub open spec fn sizes(
        self,
        factors: ConfidenceFactors,
        scaled_root: Decimal,
        r: OrderSizeResult,
    ) -> bool {
        match self.rejection(scaled_root) {
            Some(reason) => r.is_rejection(
                reason,
                if reason is BudgetExhausted {
                    0
                } else {
                    self.unspent()->0
                },
            ),
            None => {
                &&& r.is_valid
                &&& r.rejection_reason is None
                &&& Some(r.size@) == self.order_size(scaled_root)
                &&& Some(r.base_size@) == self.config.base_size()
                &&& Some(r.confidence_multiplier@) == self.multiplier(scaled_root)
                &&& r.confidence.time@ == time_confidence_at(
                    factors.minutes_remaining@,
                    factors.distance_to_strike@,
                )
                &&& r.confidence.distance@ == distance_confidence_at(factors.distance_to_strike@)
                &&& r.confidence.signal@ == signal_confidence_of(factors.signal)
                &&& r.confidence.book@ == book_confidence_at(
                    factors.book_imbalance@,
                    factors.favorable_depth@,
                )
                &&& Some(r.budget_remaining@) == self.left_after(scaled_root)
                &&& r.trades_remaining == if self.config.base_size()->0 > 0 {
                    match whole_u32(self.trades_after(scaled_root)->0) {
                        Some(n) => n,
                        None => 0,
                    }
                } else {
                    0
                }
            },
        }
    }

    /// A sizer that has spent nothing.
    pub fn new(config: SizingConfig) -> (r: ConfidenceSizer)
        ensures
            r.config == config,
            r.spent@ == 0,
            r.trades == 0,
    {
        ConfidenceSizer { config, spent: Decimal::zero(), trades: 0 }
    }

    /// A sizer with default settings for the balance.
    pub fn with_balance(available_balance: Decimal) -> (r: ConfidenceSizer)
        ensures
            r.config.available_balance == available_balance,
            r.config.max_market_allocation@ == units(20, 2),
            r.config.expected_trades_per_market == 200,
            r.config.min_order_size@ == units(1, 0),
            r.config.max_confidence_multiplier@ == units(3, 0),
            r.spent@ == 0,
            r.trades == 0,
    {
        ConfidenceSizer::new(SizingConfig::new(available_balance))
    }

    /// Order size for the market conditions; `scaled_root` is 1.5 times the fourth root of the
    /// product of their confidence factors.
    pub fn get_order_size(&self, factors: &ConfidenceFactors, scaled_root: Decimal) -> (r:
        OrderSizeResult)
        requires
            self.order_fits(scaled_root),
        ensures
            self.sizes(*factors, scaled_root, r),
    {
        let budget = self.config.market_budget();
        let remaining_budget = budget.minus(self.spent);
        if remaining_budget <= Decimal::zero() {
            return OrderSizeResult::rejected(SizeRejection::BudgetExhausted, Decimal::zero());
        }
        let base_size = self.config.base_order_size();
        let confidence = ConfidenceCalculator::calculate(factors);
        let raw_multiplier = confidence.total_multiplier(scaled_root);
        let confidence_multiplier = raw_multiplier.min(self.config.max_confidence_multiplier);
        let mut size = base_size.times(confidence_multiplier);
        if size > remaining_budget {
            size = remaining_budget;
        }
        if size < self.config.min_order_size {
            return OrderSizeResult::rejected(SizeRejection::BelowMinimum, remaining_budget);
        }
        let budget_after = remaining_budget.minus(size);
        let trades_remaining: u32 = if base_size > Decimal::zero() {
            match budget_after.over(base_size).to_u32() {
                Some(n) => n,
                None => 0,
            }
        } else {
            0
        };
        OrderSizeResult {
            size,
            is_valid: true,
            base_size,
            confidence_multiplier,
            confidence,
            rejection_reason: None,
            budget_remaining: budget_after,
            trades_remaining,
        }
    }

    /// Books a filled order.
    pub fn record_trade(&mut self, cost: Decimal)
        requires
            sum(num(old(self).spent), num(cost)) is Some,
            old(self).trades < u32::MAX,
        ensures
            final(self).config == old(self).config,
            Some(final(self).spent@) == sum(num(old(self).spent), num(cost)),
            final(self).trades == old(self).trades + 1,
    {
        self.spent = self.spent.plus(cost);
        self.trades = self.trades + 1;
    }

    /// Budget of the market.
    pub fn market_budget(&self) -> (r: Decimal)
        requires
            self.config.budget() is Some,
        ensures
            Some(r@) == self.config.budget(),
    {
        self.config.market_budget()
    }

    /// Dollars spent.
    pub fn spent(&self) -> (r: Decimal)
        ensures
            r == self.spent,
    {
        self.spent
    }

    /// What is left of the budget, at least zero.
    pub fn remaining_budget(&self) -> (r: Decimal)
        requires
            self.config.budget() is Some,
            self.unspent() is Some,
        ensures
            Some(r@) == greater(self.unspent(), Some(0)),
    {
        self.config.market_budget().minus(self.spent).max(Decimal::zero())
    }

    /// Number of trades.
    pub fn trades(&self) -> (r: u32)
        ensures
            r == self.trades,
    {
        self.trades
    }

    /// Whether the budget is spent.
    pub fn is_budget_exhausted(&self) -> (r: bool)
        requires
            self.config.budget() is Some,
        ensures
            r == (self.spent@ >= self.config.budget()->0),
    {
        self.spent >= self.config.market_budget()
    }

    /// Starts a new session.
    pub fn reset(&mut self)
        ensures
            final(self).config == old(self).config,
            final(self).spent@ == 0,
            final(self).trades == 0,
    {
        self.spent = Decimal::zero();
        self.trades = 0;
    }

    /// The settings.
    pub fn config(&self) -> (r: &SizingConfig)
        ensures
            *r == self.config,
    {
        &self.config
    }

    /// Sets the balance.
    pub fn set_available_balance(&mut self, balance: Decimal)
        ensures
            final(self).config == (SizingConfig {
                available_balance: balance,
                ..old(self).config
            }),
            final(self).spent == old(self).spent,
            final(self).trades == old(self).trades,
    {
        self.config.available_balance = balance;
    }

    /// Time confidence.
    pub fn time_confidence(minutes_remaining: Decimal, distance: Decimal) -> (r: Decimal)
        ensures
            r@ == time_confidence_at(minutes_remaining@, distance@),
    {
        ConfidenceCalculator::time_confidence(minutes_remaining, distance)
    }

    /// Distance confidence.
    pub fn distance_confidence(distance: Decimal) -> (r: Decimal)
        ensures
            r@ == distance_confidence_at(distance@),
    {
        ConfidenceCalculator::distance_confidence(distance)
    }

    /// Signal confidence.
    pub fn signal_confidence(signal: Signal) -> (r: Decimal)
        ensures
            r@ == signal_confidence_of(signal),
    {
        ConfidenceCalculator::signal_confidence(signal)
    }

    /// Book confidence.
    pub fn book_confidence(imbalance: Decimal, favorable_depth: Decimal) -> (r: Decimal)
        ensures
            r@ == book_confidence_at(imbalance@, favorable_depth@),
    {
        ConfidenceCalculator::book_confidence(imbalance, favorable_depth)
    }
}

/// An order never takes more than is left of the budget, nor is it below the smallest order; the
/// multiplier stays within its bounds and the configured maximum.
pub proof fn law_order_within_budget(
    sizer: ConfidenceSizer,
    factors: ConfidenceFactors,
    scaled_root: Decimal,
    r: OrderSizeResult,
)
    requires
        sizer.order_fits(scaled_root),
        sizer.sizes(factors, scaled_root, r),
        r.is_valid,
    ensures
        r.size@ <= sizer.unspent()->0,
        r.size@ >= sizer.config.min_order_size@,
        r.confidence_multiplier@ <= units(3, 0),
        r.confidence_multiplier@ <= sizer.config.max_confidence_multiplier@,
        sizer.config.max_confidence_multiplier@ >= units(5, 1) ==> r.confidence_multiplier@ >= units(
            5,
            1,
        ),
{
}

/// A sizer that was reset sizes orders as a new one does.
pub proof fn law_reset_is_fresh(
    reset: ConfidenceSizer,
    fresh: ConfidenceSizer,
    factors: ConfidenceFactors,
    scaled_root: Decimal,
    r: OrderSizeResult,
)
    requires
        reset.config == fresh.config,
        reset.spent@ == 0,
        fresh.spent@ == 0,
    ensures
        reset.sizes(factors, scaled_root, r) == fresh.sizes(factors, scaled_root, r),
{
}

/// More confidence never makes an order smaller.
pub proof fn law_order_grows_with_confidence(sizer: ConfidenceSizer, low: Decimal, high: Decimal)
    requires
        low@ <= high@,
        sizer.config.base_size() is Some,
        sizer.config.base_size()->0 >= 0,
        sizer.order_size(low) is Some,
        sizer.order_size(high) is Some,
    ensures
        sizer.order_size(low)->0 <= sizer.order_size(high)->0,
{
    lemma_product_monotone(
        sizer.config.base_size()->0,
        sizer.multiplier(low)->0,
        sizer.multiplier(high)->0,
    );
}

/// An order is the base size times the multiplier, cut off at what is left of the budget; the
/// multiplier is the scaled root within a half and three, and within the configured maximum. What the
/// result shows adds up: what is left of the budget is what was left before less the order.
pub proof fn law_orders_scale_the_base(
    sizer: ConfidenceSizer,
    factors: ConfidenceFactors,
    scaled_root: Decimal,
    r: OrderSizeResult,
)
    requires
        sizer.order_fits(scaled_root),
        sizer.sizes(factors, scaled_root, r),
        r.is_valid,
    ensures
        Some(r.size@) == lesser(
            product(Some(r.base_size@), Some(r.confidence_multiplier@)),
            difference(sizer.config.budget(), num(sizer.spent)),
        ),
        r.confidence_multiplier@ <= sizer.config.max_confidence_multiplier@,
        r.confidence_multiplier@ <= units(3, 0),
        r.confidence_multiplier@ == sizer.config.max_confidence_multiplier@
            || r.confidence_multiplier@ >= units(5, 1),
        units(5, 1) <= scaled_root@ <= units(3, 0) && scaled_root@
            <= sizer.config.max_confidence_multiplier@ ==> r.confidence_multiplier@ == scaled_root@,
        r.size@ >= sizer.config.min_order_size@,
        sizer.config.budget()->0 > sizer.spent@,
        r.rejection_reason is None,
{
    crate::decimal::lemma_sign(sizer.config.budget()->0 - sizer.spent@, 1);
}

/// Once the budget is spent there is no order, and an order below the smallest is none either.
pub proof fn law_spent_budgets_end_orders(
    sizer: ConfidenceSizer,
    factors: ConfidenceFactors,
    scaled_root: Decimal,
    r: OrderSizeResult,
)
    requires
        sizer.order_fits(scaled_root),
        sizer.sizes(factors, scaled_root, r),
    ensures
        sizer.spent@ >= sizer.config.budget()->0 ==> !r.is_valid && r.size@ == 0
            && r.rejection_reason == Some(SizeRejection::BudgetExhausted),
        r.rejection_reason == Some(SizeRejection::BudgetExhausted) ==> sizer.spent@
            >= sizer.config.budget()->0,
        !r.is_valid <==> r.rejection_reason is Some,
        r.rejection_reason == Some(SizeRejection::BelowMinimum) ==> sizer.order_size(
            scaled_root,
        )->0 < sizer.config.min_order_size@,
{
    let d = sizer.config.budget()->0 - sizer.spent@;
    crate::decimal::lemma_sign(d, 1);
    if d > 0 {
        crate::decimal::lemma_exact(1, 1, 1, 0);
        crate::decimal::lemma_rounded_monotone(1, 1, d, 1);
    }
}

/// What an order leaves of the budget is the budget less what was spent and less the order; an order
/// that is refused leaves it as it was, and there is nothing left of a budget that is spent.
pub proof fn law_orders_leave_the_rest(
    sizer: ConfidenceSizer,
    factors: ConfidenceFactors,
    scaled_root: Decimal,
    r: OrderSizeResult,
)
    requires
        sizer.order_fits(scaled_root),
        sizer.sizes(factors, scaled_root, r),
        sizer.config.budget() is Some,
        crate::decimal::representable(sizer.config.budget()->0 - sizer.spent@),
        crate::decimal::representable(sizer.config.budget()->0 - sizer.spent@ - r.size@),
    ensures
        r.is_valid ==> r.budget_remaining@ == sizer.config.budget()->0 - sizer.spent@ - r.size@,
        r.rejection_reason == Some(SizeRejection::BelowMinimum) ==> r.budget_remaining@
            == sizer.config.budget()->0 - sizer.spent@,
        r.rejection_reason == Some(SizeRejection::BudgetExhausted) ==> r.budget_remaining@ == 0,
        !r.is_valid ==> r.size@ == 0 && r.trades_remaining == 0 && r.confidence_multiplier@ == units(
            1,
            0,
        ),
{
    let b = sizer.config.budget()->0;
    crate::decimal::law_arithmetic_is_exact(b, sizer.spent@);
    crate::decimal::law_arithmetic_is_exact(b - sizer.spent@, r.size@);
}

} // verus!
