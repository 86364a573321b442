//! Position sizing: fixed sizes within limits, sizes by confidence, or both.
//!
//! The size of a pair position is the base size, capped in turn by liquidity, by a share of the
//! liquidity, by what the market and the whole account may still take, and then scaled down for a
//! lopsided inventory and for toxic flow.

use vstd::prelude::*;
use vstd::string::*;
use crate::arb::ArbOpportunity;
use crate::confidence::ConfidenceFactors;
use crate::confidence_sizing::{ConfidenceSizer, OrderSizeResult};
use crate::config::SizingConfig as ConfidenceSizingConfig;
use crate::config::TradingConfig;
use crate::decimal::{
    Decimal, difference, divided_by, greater, lemma_lit_product, lemma_product_shrinks,
    lemma_rounded_representable, lesser, lit, num, pow10, product, representable, sum, units,
};
use crate::toxic::{ToxicFlowWarning, ToxicSeverity};
use crate::types::{Inventory, InventoryState};

verus! {

/// Limits of position sizing.
#[derive(Clone, Copy, Debug)]
pub struct SizingConfig {
    /// Size of an order.
    pub base_order_size: Decimal,
    /// Most dollars in one market.
    pub max_position_per_market: Decimal,
    /// Most dollars in all markets.
    pub max_total_exposure: Decimal,
    /// Smallest order.
    pub min_order_size: Decimal,
    /// Largest share of the liquidity to take.
    pub max_liquidity_take: Decimal,
}

impl Default for SizingConfig {
    fn default() -> (r: SizingConfig)
        ensures
            r.base_order_size@ == units(50, 0),
            r.max_position_per_market@ == units(1000, 0),
            r.max_total_exposure@ == units(5000, 0),
            r.min_order_size@ == units(1, 0),
            r.max_liquidity_take@ == units(5, 1),
    {
        SizingConfig {
            base_order_size: Decimal::new(50, 0),
            max_position_per_market: Decimal::new(1000, 0),
            max_total_exposure: Decimal::new(5000, 0),
            min_order_size: Decimal::new(1, 0),
            max_liquidity_take: Decimal::new(5, 1),
        }
    }
}

impl SizingConfig {
    /// Limits from the settings of trading.
    pub fn from_trading_config(config: &TradingConfig) -> (r: SizingConfig)
        ensures
            r.base_order_size == config.base_order_size,
            r.max_position_per_market == config.max_position_per_market,
            r.max_total_exposure == config.max_total_exposure,
            r.min_order_size@ == units(1, 0),
            r.max_liquidity_take@ == units(5, 1),
    {
        SizingConfig {
            base_order_size: config.base_order_size,
            max_position_per_market: config.max_position_per_market,
            max_total_exposure: config.max_total_exposure,
            min_order_size: Decimal::new(1, 0),
            max_liquidity_take: Decimal::new(5, 1),
        }
    }
}

/// Result of position sizing.
#[derive(Clone, Copy, Debug, PartialEq, Eq)]
pub struct SizingResult {
    /// Size in shares.
    pub size: Decimal,
    pub is_valid: bool,
    pub expected_cost: Decimal,
    pub expected_profit: Decimal,
    /// What the size was limited by.
    pub limit_reason: Option<SizingLimit>,
    pub adjustments: SizingAdjustments,
}

impl SizingResult {
    /// Whether this is a rejection for the reason.
    pub open spec fn is_rejection(self, reason: SizingLimit) -> bool {
        &&& self.size@ == 0
        &&& !self.is_valid
        &&& self.expected_cost@ == 0
        &&& self.expected_profit@ == 0
        &&& self.limit_reason == Some(reason)
        &&& self.adjustments.inventory_multiplier@ == 0
        &&& self.adjustments.toxic_multiplier@ == 0
        &&& self.adjustments.combined_multiplier@ == 0
        &&& self.adjustments.size_before_adjustments@ == 0
    }

    /// No position, for the reason.
    pub fn invalid(reason: SizingLimit) -> (r: SizingResult)
        ensures
            r.is_rejection(reason),
    {
        SizingResult {
            size: Decimal::zero(),
            is_valid: false,
            expected_cost: Decimal::zero(),
            expected_profit: Decimal::zero(),
            limit_reason: Some(reason),
            adjustments: SizingAdjustments::default(),
        }
    }
}

/// What a size was limited by.
#[derive(Clone, Copy, Debug, PartialEq, Eq, Structural)]
pub enum SizingLimit {
    /// Nothing: it is the base size.
    BaseSize,
    /// What the market may still take.
    PositionLimit,
    /// What the account may still take.
    ExposureLimit,
    /// The liquidity.
    LiquidityLimit,
    /// The share of the liquidity to take.
    LiquidityTakeLimit,
    /// A lopsided inventory.
    ImbalanceAdjustment,
    /// Toxic flow.
    ToxicFlowAdjustment,
    /// It would be below the smallest order.
    BelowMinimum,
    /// There is nothing to buy.
    NoOpportunity,
}

impl SizingLimit {
    /// The limit in words.
    pub open spec fn spec_text(self) -> Seq<char> {
        match self {
            SizingLimit::BaseSize => "base size"@,
            SizingLimit::PositionLimit => "position limit"@,
            SizingLimit::ExposureLimit => "exposure limit"@,
            SizingLimit::LiquidityLimit => "liquidity limit"@,
            SizingLimit::LiquidityTakeLimit => "liquidity take limit"@,
            SizingLimit::ImbalanceAdjustment => "imbalance adjustment"@,
            SizingLimit::ToxicFlowAdjustment => "toxic flow adjustment"@,
            SizingLimit::BelowMinimum => "below minimum"@,
            SizingLimit::NoOpportunity => "no opportunity"@,
        }
    }

    /// The limit in words.
    pub fn to_string(&self) -> (r: String)
        ensures
            r@ == self.spec_text(),
    {
        match self {
            SizingLimit::BaseSize => "base size".to_owned(),
            SizingLimit::PositionLimit => "position limit".to_owned(),
            SizingLimit::ExposureLimit => "exposure limit".to_owned(),
            SizingLimit::LiquidityLimit => "liquidity limit".to_owned(),
            SizingLimit::LiquidityTakeLimit => "liquidity take limit".to_owned(),
            SizingLimit::ImbalanceAdjustment => "imbalance adjustment".to_owned(),
            SizingLimit::ToxicFlowAdjustment => "toxic flow adjustment".to_owned(),
            SizingLimit::BelowMinimum => "below minimum".to_owned(),
            SizingLimit::NoOpportunity => "no opportunity".to_owned(),
        }
    }
}

/// Multipliers applied to a size.
#[derive(Clone, Copy, Debug, PartialEq, Eq)]
pub struct SizingAdjustments {
    pub inventory_multiplier: Decimal,
    pub toxic_multiplier: Decimal,
    /// Product of the two.
    pub combined_multiplier: Decimal,
    /// Size before the multipliers were applied.
    pub size_before_adjustments: Decimal,
}

impl Default for SizingAdjustments {
    fn default() -> (r: SizingAdjustments)
        ensures
            r.inventory_multiplier@ == 0,
            r.toxic_multiplier@ == 0,
            r.combined_multiplier@ == 0,
            r.size_before_adjustments@ == 0,
    {
        SizingAdjustments {
            inventory_multiplier: Decimal::zero(),
            toxic_multiplier: Decimal::zero(),
            combined_multiplier: Decimal::zero(),
            size_before_adjustments: Decimal::zero(),
        }
    }
}

/// Share of the order size that an inventory state leaves, in percent.
pub open spec fn inventory_percent(state: InventoryState) -> int {
    match state {
        InventoryState::Balanced => 100,
        InventoryState::Skewed => 75,
        InventoryState::Exposed => 50,
        InventoryState::Crisis => 25,
    }
}

/// A size and what it was limited by so far.
pub type Capped = (int, SizingLimit);

/// The size after a cap was applied.
pub open spec fn capped(before: Capped, cap: int, reason: SizingLimit) -> Capped {
    if before.0 > cap {
        (cap, reason)
    } else {
        before
    }
}

/// All that decides the size of a position.
pub struct SizingCase {
    pub config: SizingConfig,
    pub opportunity: ArbOpportunity,
    pub inventory: Option<Inventory>,
    pub total_exposure: Decimal,
    pub severity: Option<ToxicSeverity>,
}

impl SizingCase {
    /// The base size, as far as there is liquidity.
    pub open spec fn by_liquidity(self) -> Capped {
        capped(
            (self.config.base_order_size@, SizingLimit::BaseSize),
            self.opportunity.max_size@,
            SizingLimit::LiquidityLimit,
        )
    }

    /// Share of the liquidity to take.
    pub open spec fn take_limit(self) -> Option<int> {
        product(num(self.opportunity.max_size), num(self.config.max_liquidity_take))
    }

    pub open spec fn by_take(self) -> Capped {
        capped(self.by_liquidity(), self.take_limit()->0, SizingLimit::LiquidityTakeLimit)
    }

    /// Dollars in the market.
    pub open spec fn existing(self) -> Option<int> {
        match self.inventory {
            Some(inventory) => inventory.exposure(),
            None => Some(0),
        }
    }

    /// Dollars that the market may still take.
    pub open spec fn position_room(self) -> Option<int> {
        difference(num(self.config.max_position_per_market), self.existing())
    }

    /// Shares that the market may still take.
    pub open spec fn position_shares(self) -> Option<int> {
        divided_by(self.position_room(), self.opportunity.combined_cost)
    }

    pub open spec fn by_position(self) -> Capped {
        capped(self.by_take(), self.position_shares()->0, SizingLimit::PositionLimit)
    }

    /// Dollars that the account may still take.
    pub open spec fn exposure_room(self) -> Option<int> {
        difference(num(self.config.max_total_exposure), num(self.total_exposure))
    }

    /// Shares that the account may still take.
    pub open spec fn exposure_shares(self) -> Option<int> {
        divided_by(self.exposure_room(), self.opportunity.combined_cost)
    }

    /// The size before adjustments.
    pub open spec fn unadjusted(self) -> Capped {
        capped(self.by_position(), self.exposure_shares()->0, SizingLimit::ExposureLimit)
    }

    /// Percent that the inventory leaves.
    pub open spec fn inventory_share(self) -> int {
        match self.inventory {
            Some(inventory) => inventory_percent(inventory.spec_state()),
            None => 100,
        }
    }

    /// Percent that toxic flow leaves.
    pub open spec fn toxic_share(self) -> int {
        match self.severity {
            Some(severity) => severity.size_percent(),
            None => 100,
        }
    }

    /// The two shares together.
    pub open spec fn combined(self) -> int {
        units(self.inventory_share() * self.toxic_share(), 4)
    }

    /// The size after adjustments.
    pub open spec fn adjusted(self) -> Option<int> {
        product(Some(self.unadjusted().0), Some(self.combined()))
    }

    /// What the size was limited by.
    pub open spec fn limit(self) -> SizingLimit {
        if self.adjusted()->0 < self.unadjusted().0 {
            if self.inventory_share() < 100 && self.toxic_share() >= self.inventory_share() {
                SizingLimit::ImbalanceAdjustment
            } else if self.toxic_share() < 100 {
                SizingLimit::ToxicFlowAdjustment
            } else {
                self.unadjusted().1
            }
        } else {
            self.unadjusted().1
        }
    }

    /// Why there is no position.
    pub open spec fn rejection(self) -> Option<SizingLimit> {
        if self.opportunity.max_size@ <= 0 {
            Some(SizingLimit::NoOpportunity)
        } else if self.position_room()->0 <= 0 {
            Some(SizingLimit::PositionLimit)
        } else if self.exposure_room()->0 <= 0 {
            Some(SizingLimit::ExposureLimit)
        } else if self.adjusted()->0 < self.config.min_order_size@ {
            Some(SizingLimit::BelowMinimum)
        } else {
            None
        }
    }

    /// Whether the arithmetic stays within range.
    pub open spec fn fits(self) -> bool {
        self.opportunity.max_size@ > 0 ==> {
            &&& self.take_limit() is Some
            &&& self.existing() is Some
            &&& self.position_room() is Some
            &&& self.position_room()->0 > 0 ==> {
                &&& self.position_shares() is Some
                &&& self.exposure_room() is Some
                &&& self.exposure_room()->0 > 0 ==> {
                    &&& self.exposure_shares() is Some
                    &&& self.inventory is Some ==> self.inventory->0.state_fits()
                    &&& self.adjusted() is Some
                    &&& self.rejection() is None ==> {
                        &&& product(self.adjusted(), num(self.opportunity.combined_cost)) is Some
                        &&& product(self.adjusted(), num(self.opportunity.margin)) is Some
                    }
                }
            }
        }
    }

    /// Whether `r` is the size of the position.
    pub open spec fn sizes(self, r: SizingResult) -> bool {
        match self.rejection() {
            Some(reason) => r.is_rejection(reason),
            None => {
                &&& Some(r.size@) == self.adjusted()
                &&& r.is_valid
                &&& Some(r.expected_cost@) == product(
                    self.adjusted(),
                    num(self.opportunity.combined_cost),
                )
                &&& Some(r.expected_profit@) == product(
                    self.adjusted(),
                    num(self.opportunity.margin),
                )
                &&& r.limit_reason == Some(self.limit())
                &&& r.adjustments.inventory_multiplier@ == units(self.inventory_share(), 2)
                &&& r.adjustments.toxic_multiplier@ == units(self.toxic_share(), 2)
                &&& r.adjustments.combined_multiplier@ == self.combined()
                &&& r.adjustments.size_before_adjustments@ == self.unadjusted().0
            },
        }
    }
}

/// The case of an opportunity, as it is handed to a sizer.
pub open spec fn case_of(
    config: SizingConfig,
    opportunity: ArbOpportunity,
    inventory: Option<&Inventory>,
    total_exposure: Decimal,
    warning: Option<&ToxicFlowWarning>,
) -> SizingCase {
    SizingCase {
        config,
        opportunity,
        inventory: match inventory {
            Some(inventory) => Some(*inventory),
            None => None,
        },
        total_exposure,
        severity: match warning {
            Some(warning) => Some(warning.severity),
            None => None,
        },
    }
}

/// Sizes positions within limits.
#[derive(Clone, Copy, Debug)]
pub struct PositionSizer {
    pub config: SizingConfig,
}

impl Default for PositionSizer {
    fn default() -> (r: PositionSizer)
        ensures
            r.config.base_order_size@ == units(50, 0),
            r.config.max_position_per_market@ == units(1000, 0),
            r.config.max_total_exposure@ == units(5000, 0),
            r.config.min_order_size@ == units(1, 0),
            r.config.max_liquidity_take@ == units(5, 1),
    {
        PositionSizer::new(SizingConfig::default())
    }
}

impl PositionSizer {
    /// A sizer with these limits.
    pub fn new(config: SizingConfig) -> (r: PositionSizer)
        ensures
            r.config == config,
    {
        PositionSizer { config }
    }

    /// A sizer with the limits of the settings of trading.
    pub fn from_trading_config(config: &TradingConfig) -> (r: PositionSizer)
        ensures
            r.config.base_order_size == config.base_order_size,
            r.config.max_position_per_market == config.max_position_per_market,
            r.config.max_total_exposure == config.max_total_exposure,
            r.config.min_order_size@ == units(1, 0),
            r.config.max_liquidity_take@ == units(5, 1),
    {
        PositionSizer::new(SizingConfig::from_trading_config(config))
    }

    /// Size of a pair position.
    pub fn calculate_size(
        &self,
        opportunity: &ArbOpportunity,
        inventory: Option<&Inventory>,
        total_exposure: Decimal,
        toxic_warning: Option<&ToxicFlowWarning>,
    ) -> (r: SizingResult)
        requires
            case_of(self.config, *opportunity, inventory, total_exposure, toxic_warning).fits(),
        ensures
            case_of(self.config, *opportunity, inventory, total_exposure, toxic_warning).sizes(r),
    {
        let ghost case = case_of(
            self.config,
            *opportunity,
            inventory,
            total_exposure,
            toxic_warning,
        );
        let available_liquidity = opportunity.max_size;
        if available_liquidity <= Decimal::zero() {
            return SizingResult::invalid(SizingLimit::NoOpportunity);
        }
        let (size, limit) = cap(
            self.config.base_order_size,
            SizingLimit::BaseSize,
            available_liquidity,
            SizingLimit::LiquidityLimit,
        );
        assert((size@, limit) == case.by_liquidity());
        let take_limit = available_liquidity.times(self.config.max_liquidity_take);
        let (size, limit) = cap(size, limit, take_limit, SizingLimit::LiquidityTakeLimit);
        assert((size@, limit) == case.by_take());
        let existing_position = match inventory {
            Some(inventory) => inventory.total_exposure(),
            None => Decimal::zero(),
        };
        let position_room = self.config.max_position_per_market.minus(existing_position);
        if position_room <= Decimal::zero() {
            return SizingResult::invalid(SizingLimit::PositionLimit);
        }
        let cost_per_share = opportunity.combined_cost;
        let position_shares = position_room.over(cost_per_share);
        let (size, limit) = cap(size, limit, position_shares, SizingLimit::PositionLimit);
        assert((size@, limit) == case.by_position());
        let exposure_room = self.config.max_total_exposure.minus(total_exposure);
        if exposure_room <= Decimal::zero() {
            return SizingResult::invalid(SizingLimit::ExposureLimit);
        }
        let exposure_shares = exposure_room.over(cost_per_share);
        let (size, limit) = cap(size, limit, exposure_shares, SizingLimit::ExposureLimit);
        assert((size@, limit) == case.unadjusted());
        let inventory_multiplier = match inventory {
            Some(inventory) => inventory.state().size_multiplier(),
            None => Decimal::one(),
        };
        let toxic_multiplier = match toxic_warning {
            Some(warning) => warning.severity.size_multiplier(),
            None => Decimal::one(),
        };
        proof {
            lemma_shares(case.inventory_share(), case.toxic_share());
        }
        let combined_multiplier = inventory_multiplier.times(toxic_multiplier);
        let adjusted_size = size.times(combined_multiplier);
        let limit = if adjusted_size < size {
            if inventory_multiplier < Decimal::one() && toxic_multiplier >= inventory_multiplier {
                SizingLimit::ImbalanceAdjustment
            } else if toxic_multiplier < Decimal::one() {
                SizingLimit::ToxicFlowAdjustment
            } else {
                limit
            }
        } else {
            limit
        };
        assert(limit == case.limit());
        if adjusted_size < self.config.min_order_size {
            return SizingResult::invalid(SizingLimit::BelowMinimum);
        }
        SizingResult {
            size: adjusted_size,
            is_valid: true,
            expected_cost: adjusted_size.times(cost_per_share),
            expected_profit: adjusted_size.times(opportunity.margin),
            limit_reason: Some(limit),
            adjustments: SizingAdjustments {
                inventory_multiplier,
                toxic_multiplier,
                combined_multiplier,
                size_before_adjustments: size,
            },
        }
    }

    /// Whether market and account may still take anything.
    pub open spec fn allows(self, existing_position: Decimal, total_exposure: Decimal) -> bool {
        &&& existing_position@ < self.config.max_position_per_market@
        &&& total_exposure@ < self.config.max_total_exposure@
    }

    /// Whether market and account may still take anything.
    pub fn can_trade(&self, existing_position: Decimal, total_exposure: Decimal) -> (r: bool)
        ensures
            r == self.allows(existing_position, total_exposure),
    {
        if existing_position >= self.config.max_position_per_market {
            return false;
        }
        if total_exposure >= self.config.max_total_exposure {
            return false;
        }
        true
    }

    /// The limits.
    pub fn config(&self) -> (r: &SizingConfig)
        ensures
            *r == self.config,
    {
        &self.config
    }

    /// Shares that market and account may still take at a cost per share.
    pub open spec fn room(
        self,
        existing_position: Decimal,
        total_exposure: Decimal,
        cost_per_share: Decimal,
    ) -> Option<int> {
        lesser(
            divided_by(
                difference(num(self.config.max_position_per_market), num(existing_position)),
                cost_per_share,
            ),
            divided_by(
                difference(num(self.config.max_total_exposure), num(total_exposure)),
                cost_per_share,
            ),
        )
    }

    /// Largest size for a market by the two limits alone; zero at a cost that is not positive.
    pub fn max_possible_size(
        &self,
        existing_position: Decimal,
        total_exposure: Decimal,
        cost_per_share: Decimal,
    ) -> (r: Decimal)
        requires
            cost_per_share@ > 0 ==> self.room(existing_position, total_exposure, cost_per_share) is Some,
        ensures
            Some(r@) == if cost_per_share@ <= 0 {
                Some(0)
            } else {
                greater(self.room(existing_position, total_exposure, cost_per_share), Some(0))
            },
    {
        if cost_per_share <= Decimal::zero() {
            return Decimal::zero();
        }
        let remaining_position = self.config.max_position_per_market.minus(existing_position);
        let remaining_exposure = self.config.max_total_exposure.minus(total_exposure);
        let max_by_position = remaining_position.over(cost_per_share);
        let max_by_exposure = remaining_exposure.over(cost_per_share);
        max_by_position.min(max_by_exposure).max(Decimal::zero())
    }
}

/// The size after a cap was applied, and what it was limited by.
fn cap(size: Decimal, limit: SizingLimit, most: Decimal, reason: SizingLimit) -> (r: (
    Decimal,
    SizingLimit,
))
    ensures
        (r.0@, r.1) == capped((size@, limit), most@, reason),
{
    if size > most {
        (most, reason)
    } else {
        (size, limit)
    }
}

proof fn lemma_shares(a: int, b: int)
    requires
        0 <= a <= 100,
        0 <= b <= 100,
    ensures
        product(lit(a, 2), lit(b, 2)) == lit(a * b, 4),
        (units(a, 2) < units(1, 0)) == (a < 100),
        (units(b, 2) < units(1, 0)) == (b < 100),
        (units(b, 2) >= units(a, 2)) == (b >= a),
        0 <= units(a * b, 4) <= units(1, 0),
{
    assert(0 <= a * b <= 10000) by (nonlinear_arith)
        requires
            0 <= a <= 100,
            0 <= b <= 100,
    ;
    lemma_lit_product(a, 2, b, 2);
    let p = pow10(24);
    let m = a * b;
    assert(0 <= m * p <= 10000 * p) by (nonlinear_arith)
        requires
            0 <= m <= 10000,
            p >= 0,
    ;
}

/// A position never exceeds the base size, the liquidity, the share of it to take, nor what market
/// and account may still take.
pub proof fn law_size_within_limits(case: SizingCase)
    requires
        case.fits(),
        case.rejection() is None,
        case.config.base_order_size@ >= 0,
        case.config.max_liquidity_take@ >= 0,
        case.opportunity.combined_cost@ > 0,
        representable(case.config.base_order_size@),
        representable(case.opportunity.max_size@),
    ensures
        0 <= case.adjusted()->0 <= case.config.base_order_size@,
        case.adjusted()->0 <= case.opportunity.max_size@,
        case.adjusted()->0 <= case.take_limit()->0,
        case.adjusted()->0 <= case.position_shares()->0,
        case.adjusted()->0 <= case.exposure_shares()->0,
        case.adjusted()->0 >= case.config.min_order_size@,
{
    lemma_case_signs(case);
    lemma_shares(case.inventory_share(), case.toxic_share());
    lemma_product_shrinks(case.unadjusted().0, case.combined());
}

proof fn lemma_case_signs(case: SizingCase)
    requires
        case.fits(),
        case.rejection() is None,
        case.config.base_order_size@ >= 0,
        case.config.max_liquidity_take@ >= 0,
        case.opportunity.combined_cost@ > 0,
        representable(case.config.base_order_size@),
        representable(case.opportunity.max_size@),
    ensures
        case.unadjusted().0 >= 0,
        representable(case.unadjusted().0),
{
    let p = pow10(28);
    let liquidity = case.opportunity.max_size@;
    let take = case.config.max_liquidity_take@;
    let cost = case.opportunity.combined_cost@;
    let position = case.position_room()->0;
    let exposure = case.exposure_room()->0;
    assert(liquidity * take >= 0) by (nonlinear_arith)
        requires
            liquidity >= 0,
            take >= 0,
    ;
    assert(position * p >= 0) by (nonlinear_arith)
        requires
            position >= 0,
            p >= 0,
    ;
    assert(exposure * p >= 0) by (nonlinear_arith)
        requires
            exposure >= 0,
            p >= 0,
    ;
    crate::decimal::lemma_sign(liquidity * take, p);
    crate::decimal::lemma_sign(position * p, cost);
    crate::decimal::lemma_sign(exposure * p, cost);
    lemma_rounded_representable(liquidity * take, p);
    lemma_rounded_representable(position * p, cost);
    lemma_rounded_representable(exposure * p, cost);
}

/// Critical flow leaves nothing of a position: with a smallest order above zero there is none.
pub proof fn law_critical_flow_blocks(case: SizingCase)
    requires
        case.fits(),
        case.severity == Some(ToxicSeverity::Critical),
        case.config.min_order_size@ > 0,
    ensures
        case.rejection() is Some,
{
    if case.rejection() is None {
        let x = case.unadjusted().0;
        let a = case.inventory_share();
        assert(a * 0 == 0);
        assert(case.combined() == 0);
        assert(x * 0 == 0);
        crate::decimal::lemma_exact(0, pow10(28), 0, 0);
    }
}

// ============================================================================
// Sizing modes
// ============================================================================

/// How sizes are found.
#[derive(Clone, Copy, Debug, PartialEq, Eq, Structural)]
pub enum SizingMode {
    /// Fixed base size within limits.
    Limits,
    /// By confidence.
    Confidence,
    /// By confidence, within limits.
    Hybrid,
}

impl Default for SizingMode {
    fn default() -> (r: SizingMode)
        ensures
            r == SizingMode::Limits,
    {
        SizingMode::Limits
    }
}

/// Whether a character reads as the lower-case letter.
pub open spec fn reads_as_letter(c: char, letter: char) -> bool {
    c == letter || ('A' <= c && c <= 'Z' && c as u32 + 32 == letter as u32)
}

/// Whether a text reads as the lower-case word, whatever the case of its letters.
pub open spec fn reads_as(text: Seq<char>, word: Seq<char>) -> bool {
    &&& text.len() == word.len()
    &&& forall|i: int| 0 <= i < text.len() ==> reads_as_letter(#[trigger] text[i], word[i])
}

/// Whether a text reads as the lower-case word, whatever the case of its letters.
fn matches_word(text: &str, word: &str) -> (r: bool)
    ensures
        r == reads_as(text@, word@),
{
    let n: usize = text.unicode_len();
    if n != word.unicode_len() {
        return false;
    }
    let mut i: usize = 0;
    while i < n
        invariant
            i <= n,
            n == text@.len(),
            n == word@.len(),
            forall|j: int| 0 <= j < i ==> reads_as_letter(#[trigger] text@[j], word@[j]),
        decreases n - i,
    {
        let c = text.get_char(i);
        let letter = word.get_char(i);
        let same = c == letter || ('A' <= c && c <= 'Z' && c as u32 + 32 == letter as u32);
        if !same {
            assert(!reads_as_letter(text@[i as int], word@[i as int]));
            return false;
        }
        i = i + 1;
    }
    true
}

impl SizingMode {
    /// Name of the mode.
    pub open spec fn spec_text(self) -> Seq<char> {
        match self {
            SizingMode::Limits => "limits"@,
            SizingMode::Confidence => "confidence"@,
            SizingMode::Hybrid => "hybrid"@,
        }
    }

    /// The mode with this name, whatever the case of its letters.
    pub fn parse(s: &str) -> (r: Option<SizingMode>)
        ensures
            match r {
                Some(mode) => reads_as(s@, mode.spec_text()),
                None => forall|mode: SizingMode| !reads_as(s@, #[trigger] mode.spec_text()),
            },
    {
        if matches_word(s, "limits") {
            Some(SizingMode::Limits)
        } else if matches_word(s, "confidence") {
            Some(SizingMode::Confidence)
        } else if matches_word(s, "hybrid") {
            Some(SizingMode::Hybrid)
        } else {
            None
        }
    }

    /// Name of the mode.
    pub fn to_string(&self) -> (r: String)
        ensures
            r@ == self.spec_text(),
    {
        match self {
            SizingMode::Limits => "limits".to_owned(),
            SizingMode::Confidence => "confidence".to_owned(),
            SizingMode::Hybrid => "hybrid".to_owned(),
        }
    }

    /// The mode with this name, or a text that says that there is none.
    pub fn from_text(s: &str) -> (r: Result<SizingMode, String>)
        ensures
            match r {
                Ok(mode) => reads_as(s@, mode.spec_text()),
                Err(text) => text@ == "invalid sizing mode: "@ + s@ && forall|mode: SizingMode|
                    !reads_as(s@, #[trigger] mode.spec_text()),
            },
    {
        match SizingMode::parse(s) {
            Some(mode) => Ok(mode),
            None => Err("invalid sizing mode: ".to_owned().concat(s)),
        }
    }
}

impl std::str::FromStr for SizingMode {
    type Err = String;

    fn from_str(s: &str) -> Result<SizingMode, String> {
        SizingMode::from_text(s)
    }
}

/// A text that names a mode names only one.
pub proof fn law_mode_names_differ(text: Seq<char>, a: SizingMode, b: SizingMode)
    requires
        reads_as(text, a.spec_text()),
        reads_as(text, b.spec_text()),
    ensures
        a == b,
{
    reveal_strlit("limits");
    reveal_strlit("confidence");
    reveal_strlit("hybrid");
    assert(reads_as_letter(text[0], a.spec_text()[0]));
    assert(reads_as_letter(text[0], b.spec_text()[0]));
}

/// All that a sizer may look at.
#[derive(Clone, Copy, Debug)]
pub struct SizingInput<'a> {
    pub opportunity: &'a ArbOpportunity,
    pub inventory: Option<&'a Inventory>,
    /// Dollars in all markets.
    pub total_exposure: Decimal,
    pub toxic_warning: Option<&'a ToxicFlowWarning>,
    pub confidence_factors: Option<ConfidenceFactors>,
    /// 1.5 times the fourth root of the product of the confidence factors; of the neutral factors
    /// where none are given.
    pub scaled_root: Decimal,
}

impl<'a> SizingInput<'a> {
    /// The case for these limits.
    pub open spec fn case(self, config: SizingConfig) -> SizingCase {
        case_of(
            config,
            *self.opportunity,
            self.inventory,
            self.total_exposure,
            self.toxic_warning,
        )
    }

    /// Input without confidence factors.
    pub fn new(
        opportunity: &'a ArbOpportunity,
        inventory: Option<&'a Inventory>,
        total_exposure: Decimal,
        toxic_warning: Option<&'a ToxicFlowWarning>,
        scaled_root: Decimal,
    ) -> (r: SizingInput<'a>)
        ensures
            r.opportunity == opportunity,
            r.inventory == inventory,
            r.total_exposure == total_exposure,
            r.toxic_warning == toxic_warning,
            r.confidence_factors is None,
            r.scaled_root == scaled_root,
    {
        SizingInput {
            opportunity,
            inventory,
            total_exposure,
            toxic_warning,
            confidence_factors: None,
            scaled_root,
        }
    }

    /// The input with confidence factors and their scaled root.
    pub fn with_confidence(self, factors: ConfidenceFactors, scaled_root: Decimal) -> (r:
        SizingInput<'a>)
        ensures
            r.opportunity == self.opportunity,
            r.inventory == self.inventory,
            r.total_exposure == self.total_exposure,
            r.toxic_warning == self.toxic_warning,
            r.confidence_factors == Some(factors),
            r.scaled_root == scaled_root,
    {
        SizingInput {
            opportunity: self.opportunity,
            inventory: self.inventory,
            total_exposure: self.total_exposure,
            toxic_warning: self.toxic_warning,
            confidence_factors: Some(factors),
            scaled_root,
        }
    }
}

/// Result of any sizer.
#[derive(Clone, Debug)]
pub struct UnifiedSizingResult {
    /// Size in shares.
    pub size: Decimal,
    pub is_valid: bool,
    pub expected_cost: Decimal,
    pub expected_profit: Decimal,
    /// What the size was limited by, or why there is none.
    pub limit_reason: Option<String>,
    pub confidence_multiplier: Decimal,
    /// Mode of the sizer.
    pub strategy: SizingMode,
}

/// Whether an optional text is there and reads as given.
pub open spec fn says(text: Option<String>, words: Seq<char>) -> bool {
    text is Some && text->0@ == words
}

impl UnifiedSizingResult {
    /// Whether this is a rejection in these words.
    pub open spec fn is_rejection(self, words: Seq<char>, strategy: SizingMode) -> bool {
        &&& self.size@ == 0
        &&& !self.is_valid
        &&& self.expected_cost@ == 0
        &&& self.expected_profit@ == 0
        &&& says(self.limit_reason, words)
        &&& self.confidence_multiplier@ == units(1, 0)
        &&& self.strategy == strategy
    }

    /// Whether this restates a result of limit sizing.
    pub open spec fn restates_limits(self, result: SizingResult) -> bool {
        &&& self.size == result.size
        &&& self.is_valid == result.is_valid
        &&& self.expected_cost == result.expected_cost
        &&& self.expected_profit == result.expected_profit
        &&& match result.limit_reason {
            Some(limit) => says(self.limit_reason, limit.spec_text()),
            None => self.limit_reason is None,
        }
        &&& self.confidence_multiplier@ == units(1, 0)
        &&& self.strategy == SizingMode::Limits
    }

    /// Whether this restates a result of confidence sizing.
    pub open spec fn restates_confidence(
        self,
        result: OrderSizeResult,
        opportunity: ArbOpportunity,
    ) -> bool {
        &&& self.size == result.size
        &&& self.is_valid == result.is_valid
        &&& Some(self.expected_cost@) == product(
            num(result.size),
            num(opportunity.combined_cost),
        )
        &&& Some(self.expected_profit@) == product(num(result.size), num(opportunity.margin))
        &&& match result.rejection_reason {
            Some(reason) => says(self.limit_reason, reason.spec_text()),
            None => self.limit_reason is None,
        }
        &&& self.confidence_multiplier == result.confidence_multiplier
        &&& self.strategy == SizingMode::Confidence
    }

    /// No position, in these words.
    pub fn invalid(reason: &str, strategy: SizingMode) -> (r: UnifiedSizingResult)
        ensures
            r.is_rejection(reason@, strategy),
    {
        UnifiedSizingResult {
            size: Decimal::zero(),
            is_valid: false,
            expected_cost: Decimal::zero(),
            expected_profit: Decimal::zero(),
            limit_reason: Some(reason.to_owned()),
            confidence_multiplier: Decimal::one(),
            strategy,
        }
    }

    /// A result of limit sizing.
    pub fn from_limits_result(result: &SizingResult, _opportunity: &ArbOpportunity) -> (r:
        UnifiedSizingResult)
        ensures
            r.restates_limits(*result),
    {
        UnifiedSizingResult {
            size: result.size,
            is_valid: result.is_valid,
            expected_cost: result.expected_cost,
            expected_profit: result.expected_profit,
            limit_reason: match result.limit_reason {
                Some(limit) => Some(limit.to_string()),
                None => None,
            },
            confidence_multiplier: Decimal::one(),
            strategy: SizingMode::Limits,
        }
    }

    /// A result of confidence sizing, with cost and profit from the opportunity.
    pub fn from_confidence_result(result: &OrderSizeResult, opportunity: &ArbOpportunity) -> (r:
        UnifiedSizingResult)
        requires
            product(num(result.size), num(opportunity.combined_cost)) is Some,
            product(num(result.size), num(opportunity.margin)) is Some,
        ensures
            r.restates_confidence(*result, *opportunity),
    {
        UnifiedSizingResult {
            size: result.size,
            is_valid: result.is_valid,
            expected_cost: result.size.times(opportunity.combined_cost),
            expected_profit: result.size.times(opportunity.margin),
            limit_reason: match result.rejection_reason {
                Some(reason) => Some(reason.to_string()),
                None => None,
            },
            confidence_multiplier: result.confidence_multiplier,
            strategy: SizingMode::Confidence,
        }
    }
}

/// A way to size positions.
pub trait SizingStrategy: Sized {
    /// Whether the arithmetic of `calculate` stays within range.
    spec fn input_fits(&self, input: SizingInput<'_>) -> bool;

    /// Whether `r` is the size for the input.
    spec fn gives(&self, input: SizingInput<'_>, r: UnifiedSizingResult) -> bool;

    /// Whether the arithmetic of `can_trade` stays within range.
    spec fn limits_fit(&self) -> bool;

    /// Whether trading is possible.
    spec fn permits(&self, existing_position: Decimal, total_exposure: Decimal) -> bool;

    /// Mode of the sizer.
    spec fn spec_mode(&self) -> SizingMode;

    /// Whether a trade of this cost can be booked.
    spec fn trade_fits(&self, cost: Decimal) -> bool;

    /// Whether `after` is this sizer with a trade of this cost booked.
    spec fn traded(&self, cost: Decimal, after: Self) -> bool;

    /// Whether `after` is this sizer at the start of a session.
    spec fn restarted(&self, after: Self) -> bool;

    /// Size of a position.
    fn calculate(&self, input: &SizingInput<'_>) -> (r: UnifiedSizingResult)
        requires
            self.input_fits(*input),
        ensures
            self.gives(*input, r),
    ;

    /// Whether trading is possible within limits and budget.
    fn can_trade(&self, existing_position: Decimal, total_exposure: Decimal) -> (r: bool)
        requires
            self.limits_fit(),
        ensures
            r == self.permits(existing_position, total_exposure),
    ;

    /// Mode of the sizer.
    fn mode(&self) -> (r: SizingMode)
        ensures
            r == self.spec_mode(),
    ;

    /// Books a trade.
    fn record_trade(&mut self, cost: Decimal)
        requires
            old(self).trade_fits(cost),
        ensures
            old(self).traded(cost, *final(self)),
    ;

    /// Starts a new session.
    fn reset(&mut self)
        ensures
            old(self).restarted(*final(self)),
    ;
}

impl SizingStrategy for PositionSizer {
    open spec fn input_fits(&self, input: SizingInput<'_>) -> bool {
        input.case(self.config).fits()
    }

    open spec fn gives(&self, input: SizingInput<'_>, r: UnifiedSizingResult) -> bool {
        exists|result: SizingResult| #[trigger]
            input.case(self.config).sizes(result) && r.restates_limits(result)
    }

    open spec fn limits_fit(&self) -> bool {
        true
    }

    open spec fn permits(&self, existing_position: Decimal, total_exposure: Decimal) -> bool {
        self.allows(existing_position, total_exposure)
    }

    open spec fn spec_mode(&self) -> SizingMode {
        SizingMode::Limits
    }

    open spec fn trade_fits(&self, cost: Decimal) -> bool {
        true
    }

    open spec fn traded(&self, cost: Decimal, after: PositionSizer) -> bool {
        after == *self
    }

    open spec fn restarted(&self, after: PositionSizer) -> bool {
        after == *self
    }

    fn calculate(&self, input: &SizingInput<'_>) -> (r: UnifiedSizingResult) {
        let result = self.calculate_size(
            input.opportunity,
            input.inventory,
            input.total_exposure,
            input.toxic_warning,
        );
        assert(input.case(self.config).sizes(result));
        UnifiedSizingResult::from_limits_result(&result, input.opportunity)
    }

    fn can_trade(&self, existing_position: Decimal, total_exposure: Decimal) -> (r: bool) {
        PositionSizer::can_trade(self, existing_position, total_exposure)
    }

    fn mode(&self) -> (r: SizingMode) {
        SizingMode::Limits
    }

    fn record_trade(&mut self, cost: Decimal) {
    }

    fn reset(&mut self) {
    }
}

/// Whether cost and profit of a confidence-sized order stay within range.
pub open spec fn order_value_fits(size: Option<int>, opportunity: ArbOpportunity) -> bool {
    &&& product(size, num(opportunity.combined_cost)) is Some
    &&& product(size, num(opportunity.margin)) is Some
}

/// Size of a confidence-sized order: zero where there is none.
pub open spec fn ordered(sizer: ConfidenceSizer, scaled_root: Decimal) -> Option<int> {
    if sizer.rejection(scaled_root) is Some {
        Some(0)
    } else {
        sizer.order_size(scaled_root)
    }
}

impl SizingStrategy for ConfidenceSizer {
    open spec fn input_fits(&self, input: SizingInput<'_>) -> bool {
        input.confidence_factors is Some ==> {
            &&& self.order_fits(input.scaled_root)
            &&& order_value_fits(ordered(*self, input.scaled_root), *input.opportunity)
        }
    }

    open spec fn gives(&self, input: SizingInput<'_>, r: UnifiedSizingResult) -> bool {
        match input.confidence_factors {
            Some(factors) => exists|result: OrderSizeResult| #[trigger]
                self.sizes(factors, input.scaled_root, result) && r.restates_confidence(
                    result,
                    *input.opportunity,
                ),
            None => r.is_rejection(
                "confidence factors required for confidence mode"@,
                SizingMode::Confidence,
            ),
        }
    }

    open spec fn limits_fit(&self) -> bool {
        self.config.budget() is Some
    }

    open spec fn permits(&self, existing_position: Decimal, total_exposure: Decimal) -> bool {
        self.spent@ < self.config.budget()->0
    }

    open spec fn spec_mode(&self) -> SizingMode {
        SizingMode::Confidence
    }

    open spec fn trade_fits(&self, cost: Decimal) -> bool {
        sum(num(self.spent), num(cost)) is Some && self.trades < u32::MAX
    }

    open spec fn traded(&self, cost: Decimal, after: ConfidenceSizer) -> bool {
        &&& after.config == self.config
        &&& Some(after.spent@) == sum(num(self.spent), num(cost))
        &&& after.trades == self.trades + 1
    }

    open spec fn restarted(&self, after: ConfidenceSizer) -> bool {
        after.config == self.config && after.spent@ == 0 && after.trades == 0
    }

    fn calculate(&self, input: &SizingInput<'_>) -> (r: UnifiedSizingResult) {
        match input.confidence_factors {
            Some(factors) => {
                let result = self.get_order_size(&factors, input.scaled_root);
                assert(self.sizes(factors, input.scaled_root, result));
                UnifiedSizingResult::from_confidence_result(&result, input.opportunity)
            },
            None => UnifiedSizingResult::invalid(
                "confidence factors required for confidence mode",
                SizingMode::Confidence,
            ),
        }
    }

    fn can_trade(&self, existing_position: Decimal, total_exposure: Decimal) -> (r: bool) {
        !self.is_budget_exhausted()
    }

    fn mode(&self) -> (r: SizingMode) {
        SizingMode::Confidence
    }

    fn record_trade(&mut self, cost: Decimal) {
        ConfidenceSizer::record_trade(self, cost);
    }

    fn reset(&mut self) {
        ConfidenceSizer::reset(self);
    }
}

/// Sizes by confidence and keeps within limits.
#[derive(Clone, Copy, Debug)]
pub struct HybridSizer {
    pub confidence_sizer: ConfidenceSizer,
    pub limits_sizer: PositionSizer,
}

impl HybridSizer {
    /// A sizer with the given settings.
    pub fn new(confidence_config: ConfidenceSizingConfig, limits_config: SizingConfig) -> (r:
        HybridSizer)
        ensures
            r.confidence_sizer.config == confidence_config,
            r.confidence_sizer.spent@ == 0,
            r.confidence_sizer.trades == 0,
            r.limits_sizer.config == limits_config,
    {
        HybridSizer {
            confidence_sizer: ConfidenceSizer::new(confidence_config),
            limits_sizer: PositionSizer::new(limits_config),
        }
    }

    /// A sizer with the settings of trading.
    pub fn from_trading_config(trading_config: &TradingConfig) -> (r: HybridSizer)
        ensures
            r.confidence_sizer.config == trading_config.sizing,
            r.confidence_sizer.spent@ == 0,
            r.confidence_sizer.trades == 0,
            r.limits_sizer.config.base_order_size == trading_config.base_order_size,
            r.limits_sizer.config.max_position_per_market == trading_config.max_position_per_market,
            r.limits_sizer.config.max_total_exposure == trading_config.max_total_exposure,
            r.limits_sizer.config.min_order_size@ == units(1, 0),
            r.limits_sizer.config.max_liquidity_take@ == units(5, 1),
    {
        HybridSizer {
            confidence_sizer: ConfidenceSizer::new(trading_config.sizing),
            limits_sizer: PositionSizer::from_trading_config(trading_config),
        }
    }

    /// The sizer by confidence.
    pub fn confidence_sizer(&self) -> (r: &ConfidenceSizer)
        ensures
            *r == self.confidence_sizer,
    {
        &self.confidence_sizer
    }

    /// The sizer within limits.
    pub fn limits_sizer(&self) -> (r: &PositionSizer)
        ensures
            *r == self.limits_sizer,
    {
        &self.limits_sizer
    }

    /// Whether market and account may still take anything.
    pub open spec fn within_limits(self, input: SizingInput<'_>) -> bool {
        let case = input.case(self.limits_sizer.config);
        &&& case.existing()->0 < self.limits_sizer.config.max_position_per_market@
        &&& input.total_exposure@ < self.limits_sizer.config.max_total_exposure@
    }

    /// Size of the limit sizer: zero where it rejects.
    pub open spec fn limit_size(self, input: SizingInput<'_>) -> Option<int> {
        let case = input.case(self.limits_sizer.config);
        if case.rejection() is Some {
            Some(0)
        } else {
            case.adjusted()
        }
    }

    /// The smaller of the two sizes.
    pub open spec fn final_size(self, input: SizingInput<'_>) -> Option<int> {
        lesser(self.confidence_sizer.order_size(input.scaled_root), self.limit_size(input))
    }

    /// Multiplier of a position that the limits decide.
    pub open spec fn limited_multiplier(self, input: SizingInput<'_>) -> Option<int> {
        let case = input.case(self.limits_sizer.config);
        product(
            Some(if case.rejection() is Some { 0 } else { case.combined() }),
            self.confidence_sizer.multiplier(input.scaled_root),
        )
    }

    /// Whether confidence decides the size.
    pub open spec fn confidence_decides(self, input: SizingInput<'_>) -> bool {
        self.confidence_sizer.order_size(input.scaled_root)->0 <= self.limit_size(input)->0
    }
}

impl SizingStrategy for HybridSizer {
    open spec fn input_fits(&self, input: SizingInput<'_>) -> bool {
        let case = input.case(self.limits_sizer.config);
        &&& case.existing() is Some
        &&& self.within_limits(input) ==> {
            &&& self.confidence_sizer.order_fits(input.scaled_root)
            &&& self.confidence_sizer.rejection(input.scaled_root) is Some ==> order_value_fits(
                Some(0),
                *input.opportunity,
            )
            &&& self.confidence_sizer.rejection(input.scaled_root) is None ==> {
                &&& case.fits()
                &&& self.final_size(input)->0 >= self.limits_sizer.config.min_order_size@ ==> {
                    &&& !self.confidence_decides(input) ==> self.limited_multiplier(input) is Some
                    &&& order_value_fits(self.final_size(input), *input.opportunity)
                }
            }
        }
    }

    open spec fn gives(&self, input: SizingInput<'_>, r: UnifiedSizingResult) -> bool {
        let case = input.case(self.limits_sizer.config);
        if !self.within_limits(input) {
            r.is_rejection("position or exposure limit reached"@, SizingMode::Hybrid)
        } else if self.confidence_sizer.rejection(input.scaled_root) is Some {
            &&& r.size@ == 0
            &&& !r.is_valid
            &&& says(
                r.limit_reason,
                self.confidence_sizer.rejection(input.scaled_root)->0.spec_text(),
            )
            &&& r.confidence_multiplier@ == units(1, 0)
            &&& r.strategy == SizingMode::Confidence
            &&& Some(r.expected_cost@) == product(
                Some(0),
                num(input.opportunity.combined_cost),
            )
            &&& Some(r.expected_profit@) == product(Some(0), num(input.opportunity.margin))
        } else if self.final_size(input)->0 < self.limits_sizer.config.min_order_size@ {
            r.is_rejection("below minimum order size"@, SizingMode::Hybrid)
        } else {
            &&& Some(r.size@) == self.final_size(input)
            &&& r.is_valid
            &&& Some(r.expected_cost@) == product(
                self.final_size(input),
                num(input.opportunity.combined_cost),
            )
            &&& Some(r.expected_profit@) == product(
                self.final_size(input),
                num(input.opportunity.margin),
            )
            &&& r.strategy == SizingMode::Hybrid
            &&& if self.confidence_decides(input) {
                &&& says(r.limit_reason, "confidence sized"@)
                &&& Some(r.confidence_multiplier@) == self.confidence_sizer.multiplier(
                    input.scaled_root,
                )
            } else {
                &&& says(
                    r.limit_reason,
                    (if case.rejection() is Some {
                        case.rejection()->0
                    } else {
                        case.limit()
                    }).spec_text(),
                )
                &&& Some(r.confidence_multiplier@) == self.limited_multiplier(input)
            }
        }
    }

    open spec fn limits_fit(&self) -> bool {
        self.confidence_sizer.config.budget() is Some
    }

    open spec fn permits(&self, existing_position: Decimal, total_exposure: Decimal) -> bool {
        &&& self.limits_sizer.allows(existing_position, total_exposure)
        &&& self.confidence_sizer.spent@ < self.confidence_sizer.config.budget()->0
    }

    open spec fn spec_mode(&self) -> SizingMode {
        SizingMode::Hybrid
    }

    open spec fn trade_fits(&self, cost: Decimal) -> bool {
        self.confidence_sizer.trade_fits(cost)
    }

    open spec fn traded(&self, cost: Decimal, after: HybridSizer) -> bool {
        &&& self.confidence_sizer.traded(cost, after.confidence_sizer)
        &&& after.limits_sizer == self.limits_sizer
    }

    open spec fn restarted(&self, after: HybridSizer) -> bool {
        &&& self.confidence_sizer.restarted(after.confidence_sizer)
        &&& after.limits_sizer == self.limits_sizer
    }

    fn calculate(&self, input: &SizingInput<'_>) -> (r: UnifiedSizingResult) {
        let ghost case = input.case(self.limits_sizer.config);
        let existing_position = match input.inventory {
            Some(inventory) => inventory.total_exposure(),
            None => Decimal::zero(),
        };
        if !self.limits_sizer.can_trade(existing_position, input.total_exposure) {
            return UnifiedSizingResult::invalid(
                "position or exposure limit reached",
                SizingMode::Hybrid,
            );
        }
        let factors = match input.confidence_factors {
            Some(factors) => factors,
            None => ConfidenceFactors::neutral(),
        };
        let confidence_result = self.confidence_sizer.get_order_size(&factors, input.scaled_root);
        if !confidence_result.is_valid {
            return UnifiedSizingResult::from_confidence_result(
                &confidence_result,
                input.opportunity,
            );
        }
        let limits_result = self.limits_sizer.calculate_size(
            input.opportunity,
            input.inventory,
            input.total_exposure,
            input.toxic_warning,
        );
        assert(Some(limits_result.size@) == self.limit_size(*input));
        let final_size = confidence_result.size.min(limits_result.size);
        assert(Some(final_size@) == self.final_size(*input));
        if final_size < self.limits_sizer.config.min_order_size {
            return UnifiedSizingResult::invalid("below minimum order size", SizingMode::Hybrid);
        }
        let (limit_reason, final_multiplier) = if confidence_result.size <= limits_result.size {
            (Some("confidence sized".to_owned()), confidence_result.confidence_multiplier)
        } else {
            (
                match limits_result.limit_reason {
                    Some(limit) => Some(limit.to_string()),
                    None => None,
                },
                limits_result.adjustments.combined_multiplier.times(
                    confidence_result.confidence_multiplier,
                ),
            )
        };
        UnifiedSizingResult {
            size: final_size,
            is_valid: true,
            expected_cost: final_size.times(input.opportunity.combined_cost),
            expected_profit: final_size.times(input.opportunity.margin),
            limit_reason,
            confidence_multiplier: final_multiplier,
            strategy: SizingMode::Hybrid,
        }
    }

    fn can_trade(&self, existing_position: Decimal, total_exposure: Decimal) -> (r: bool) {
        self.limits_sizer.can_trade(existing_position, total_exposure)
            && !self.confidence_sizer.is_budget_exhausted()
    }

    fn mode(&self) -> (r: SizingMode) {
        SizingMode::Hybrid
    }

    fn record_trade(&mut self, cost: Decimal) {
        ConfidenceSizer::record_trade(&mut self.confidence_sizer, cost);
    }

    fn reset(&mut self) {
        ConfidenceSizer::reset(&mut self.confidence_sizer);
    }
}

/// A hybrid position is no larger than either sizer alone would make it.
pub proof fn law_hybrid_within_both(sizer: HybridSizer, input: SizingInput<'_>, r: UnifiedSizingResult)
    requires
        sizer.input_fits(input),
        sizer.gives(input, r),
        r.is_valid,
    ensures
        r.size@ <= sizer.confidence_sizer.order_size(input.scaled_root)->0,
        r.size@ <= sizer.limit_size(input)->0,
        r.size@ <= sizer.confidence_sizer.unspent()->0,
        r.size@ >= sizer.limits_sizer.config.min_order_size@,
        sizer.within_limits(input),
{
}

/// A sizer of any mode.
#[derive(Clone, Copy, Debug)]
pub enum Sizer {
    Limits(PositionSizer),
    Confidence(ConfidenceSizer),
    Hybrid(HybridSizer),
}

impl SizingStrategy for Sizer {
    open spec fn input_fits(&self, input: SizingInput<'_>) -> bool {
        match *self {
            Sizer::Limits(s) => s.input_fits(input),
            Sizer::Confidence(s) => s.input_fits(input),
            Sizer::Hybrid(s) => s.input_fits(input),
        }
    }

    open spec fn gives(&self, input: SizingInput<'_>, r: UnifiedSizingResult) -> bool {
        match *self {
            Sizer::Limits(s) => s.gives(input, r),
            Sizer::Confidence(s) => s.gives(input, r),
            Sizer::Hybrid(s) => s.gives(input, r),
        }
    }

    open spec fn limits_fit(&self) -> bool {
        match *self {
            Sizer::Limits(s) => s.limits_fit(),
            Sizer::Confidence(s) => s.limits_fit(),
            Sizer::Hybrid(s) => s.limits_fit(),
        }
    }

    open spec fn permits(&self, existing_position: Decimal, total_exposure: Decimal) -> bool {
        match *self {
            Sizer::Limits(s) => s.permits(existing_position, total_exposure),
            Sizer::Confidence(s) => s.permits(existing_position, total_exposure),
            Sizer::Hybrid(s) => s.permits(existing_position, total_exposure),
        }
    }

    open spec fn spec_mode(&self) -> SizingMode {
        match *self {
            Sizer::Limits(_) => SizingMode::Limits,
            Sizer::Confidence(_) => SizingMode::Confidence,
            Sizer::Hybrid(_) => SizingMode::Hybrid,
        }
    }

    open spec fn trade_fits(&self, cost: Decimal) -> bool {
        match *self {
            Sizer::Limits(s) => s.trade_fits(cost),
            Sizer::Confidence(s) => s.trade_fits(cost),
            Sizer::Hybrid(s) => s.trade_fits(cost),
        }
    }

    open spec fn traded(&self, cost: Decimal, after: Sizer) -> bool {
        match (*self, after) {
            (Sizer::Limits(s), Sizer::Limits(t)) => s.traded(cost, t),
            (Sizer::Confidence(s), Sizer::Confidence(t)) => s.traded(cost, t),
            (Sizer::Hybrid(s), Sizer::Hybrid(t)) => s.traded(cost, t),
            _ => false,
        }
    }

    open spec fn restarted(&self, after: Sizer) -> bool {
        match (*self, after) {
            (Sizer::Limits(s), Sizer::Limits(t)) => s.restarted(t),
            (Sizer::Confidence(s), Sizer::Confidence(t)) => s.restarted(t),
            (Sizer::Hybrid(s), Sizer::Hybrid(t)) => s.restarted(t),
            _ => false,
        }
    }

    fn calculate(&self, input: &SizingInput<'_>) -> (r: UnifiedSizingResult) {
        match self {
            Sizer::Limits(s) => s.calculate(input),
            Sizer::Confidence(s) => s.calculate(input),
            Sizer::Hybrid(s) => s.calculate(input),
        }
    }

    fn can_trade(&self, existing_position: Decimal, total_exposure: Decimal) -> (r: bool) {
        match self {
            Sizer::Limits(s) => SizingStrategy::can_trade(s, existing_position, total_exposure),
            Sizer::Confidence(s) => SizingStrategy::can_trade(s, existing_position, total_exposure),
            Sizer::Hybrid(s) => SizingStrategy::can_trade(s, existing_position, total_exposure),
        }
    }

    fn mode(&self) -> (r: SizingMode) {
        match self {
            Sizer::Limits(_) => SizingMode::Limits,
            Sizer::Confidence(_) => SizingMode::Confidence,
            Sizer::Hybrid(_) => SizingMode::Hybrid,
        }
    }

    fn record_trade(&mut self, cost: Decimal) {
        match self {
            Sizer::Limits(s) => SizingStrategy::record_trade(s, cost),
            Sizer::Confidence(s) => SizingStrategy::record_trade(s, cost),
            Sizer::Hybrid(s) => SizingStrategy::record_trade(s, cost),
        }
    }

    fn reset(&mut self) {
        match self {
            Sizer::Limits(s) => SizingStrategy::reset(s),
            Sizer::Confidence(s) => SizingStrategy::reset(s),
            Sizer::Hybrid(s) => SizingStrategy::reset(s),
        }
    }
}

/// A sizer of the mode with the settings of trading.
pub fn create_sizer(mode: SizingMode, trading_config: &TradingConfig) -> (r: Sizer)
    ensures
        r.spec_mode() == mode,
        match r {
            Sizer::Limits(s) => s.config.base_order_size == trading_config.base_order_size
                && s.config.max_position_per_market == trading_config.max_position_per_market
                && s.config.max_total_exposure == trading_config.max_total_exposure
                && s.config.min_order_size@ == units(1, 0) && s.config.max_liquidity_take@ == units(
                5,
                1,
            ),
            Sizer::Confidence(s) => s.config == trading_config.sizing && s.spent@ == 0 && s.trades
                == 0,
            Sizer::Hybrid(s) => s.confidence_sizer.config == trading_config.sizing
                && s.confidence_sizer.spent@ == 0 && s.confidence_sizer.trades == 0
                && s.limits_sizer.config.base_order_size == trading_config.base_order_size
                && s.limits_sizer.config.max_position_per_market
                == trading_config.max_position_per_market
                && s.limits_sizer.config.max_total_exposure == trading_config.max_total_exposure
                && s.limits_sizer.config.min_order_size@ == units(1, 0)
                && s.limits_sizer.config.max_liquidity_take@ == units(5, 1),
        },
{
    match mode {
        SizingMode::Limits => Sizer::Limits(PositionSizer::from_trading_config(trading_config)),
        SizingMode::Confidence => Sizer::Confidence(ConfidenceSizer::new(trading_config.sizing)),
        SizingMode::Hybrid => Sizer::Hybrid(HybridSizer::from_trading_config(trading_config)),
    }
}

/// A position is no larger than the base order, than what the pair offers and the share of it that
/// may be taken, than what the market may still hold beside what both of its sides cost already, and
/// than what the account may still hold beside its exposure. Cost and profit are those of its size.
pub proof fn law_positions_respect_every_limit(
    config: SizingConfig,
    opportunity: ArbOpportunity,
    inventory: Option<&Inventory>,
    total_exposure: Decimal,
    warning: Option<&ToxicFlowWarning>,
    r: SizingResult,
)
    requires
        case_of(config, opportunity, inventory, total_exposure, warning).fits(),
        case_of(config, opportunity, inventory, total_exposure, warning).sizes(r),
        config.base_order_size@ >= 0,
        config.max_liquidity_take@ >= 0,
        opportunity.combined_cost@ > 0,
        representable(config.base_order_size@),
        representable(opportunity.max_size@),
        r.is_valid,
    ensures
        0 <= r.size@ <= config.base_order_size@,
        r.size@ <= opportunity.max_size@,
        r.size@ <= product(num(opportunity.max_size), num(config.max_liquidity_take))->0,
        inventory is None ==> r.size@ <= divided_by(
            difference(num(config.max_position_per_market), Some(0)),
            opportunity.combined_cost,
        )->0,
        inventory is Some ==> r.size@ <= divided_by(
            difference(
                num(config.max_position_per_market),
                sum(num(inventory->0.yes_cost_basis), num(inventory->0.no_cost_basis)),
            ),
            opportunity.combined_cost,
        )->0,
        r.size@ <= divided_by(
            difference(num(config.max_total_exposure), num(total_exposure)),
            opportunity.combined_cost,
        )->0,
        r.size@ >= config.min_order_size@,
        Some(r.expected_cost@) == product(Some(r.size@), num(opportunity.combined_cost)),
        Some(r.expected_profit@) == product(Some(r.size@), num(opportunity.margin)),
{
    law_size_within_limits(case_of(config, opportunity, inventory, total_exposure, warning));
}

/// A full market, a full account, or a pair without size gives no position.
pub proof fn law_full_markets_take_nothing(
    config: SizingConfig,
    opportunity: ArbOpportunity,
    inventory: Option<&Inventory>,
    total_exposure: Decimal,
    warning: Option<&ToxicFlowWarning>,
    r: SizingResult,
)
    requires
        case_of(config, opportunity, inventory, total_exposure, warning).fits(),
        case_of(config, opportunity, inventory, total_exposure, warning).sizes(r),
    ensures
        opportunity.max_size@ <= 0 ==> !r.is_valid && r.size@ == 0,
        inventory is Some && sum(
            num(inventory->0.yes_cost_basis),
            num(inventory->0.no_cost_basis),
        ) is Some && sum(num(inventory->0.yes_cost_basis), num(inventory->0.no_cost_basis))->0
            >= config.max_position_per_market@ ==> !r.is_valid && r.size@ == 0,
        total_exposure@ >= config.max_total_exposure@ ==> !r.is_valid && r.size@ == 0,
        !r.is_valid ==> r.size@ == 0 && r.expected_cost@ == 0 && r.expected_profit@ == 0,
{
    let case = case_of(config, opportunity, inventory, total_exposure, warning);
    if case.position_room() is Some && inventory is Some {
        crate::decimal::lemma_sign(
            config.max_position_per_market@ - case.existing()->0,
            1,
        );
    }
    if case.exposure_room() is Some {
        crate::decimal::lemma_sign(config.max_total_exposure@ - total_exposure@, 1);
    }
}

/// Without a warning and with an inventory in balance nothing is taken off a position: it is the
/// smallest of its limits. A warning or a lopsided inventory takes its share off.
pub proof fn law_nothing_is_taken_off_without_cause(
    config: SizingConfig,
    opportunity: ArbOpportunity,
    inventory: Option<&Inventory>,
    total_exposure: Decimal,
    warning: Option<&ToxicFlowWarning>,
    r: SizingResult,
)
    requires
        case_of(config, opportunity, inventory, total_exposure, warning).fits(),
        case_of(config, opportunity, inventory, total_exposure, warning).sizes(r),
        config.base_order_size@ >= 0,
        config.max_liquidity_take@ >= 0,
        opportunity.combined_cost@ > 0,
        representable(config.base_order_size@),
        representable(opportunity.max_size@),
        r.is_valid,
    ensures
        inventory is None || inventory->0.spec_state() is Balanced
            ==> r.adjustments.inventory_multiplier@ == units(1, 0),
        inventory is Some ==> r.adjustments.inventory_multiplier@
            == inventory->0.spec_state().spec_size_multiplier(),
        warning is None ==> r.adjustments.toxic_multiplier@ == units(1, 0),
        warning is Some && warning->0.severity is Low ==> r.adjustments.toxic_multiplier@ == units(
            75,
            2,
        ),
        warning is Some && warning->0.severity is Medium ==> r.adjustments.toxic_multiplier@
            == units(50, 2),
        warning is Some && warning->0.severity is High ==> r.adjustments.toxic_multiplier@ == units(
            25,
            2,
        ),
        warning is Some && warning->0.severity is Critical ==> r.adjustments.toxic_multiplier@ == 0,
        (inventory is None || inventory->0.spec_state() is Balanced) && warning is None ==> {
            &&& r.size@ == r.adjustments.size_before_adjustments@
            &&& r.size@ == config.base_order_size@ || r.size@ == opportunity.max_size@ || Some(
                r.size@,
            ) == product(num(opportunity.max_size), num(config.max_liquidity_take))
                || r.limit_reason == Some(SizingLimit::PositionLimit) || r.limit_reason == Some(
                SizingLimit::ExposureLimit,
            )
        },
        Some(r.size@) == product(
            Some(r.adjustments.size_before_adjustments@),
            Some(r.adjustments.combined_multiplier@),
        ),
{
    let case = case_of(config, opportunity, inventory, total_exposure, warning);
    lemma_case_signs(case);
    let x = case.unadjusted().0;
    if case.inventory_share() == 100 && case.toxic_share() == 100 {
        assert(case.combined() == units(1, 0));
        crate::decimal::law_arithmetic_is_exact(x, 0);
    }
}

/// What a size is said to be limited by is what limited it.
pub proof fn law_limits_are_named_truly(case: SizingCase, r: SizingResult)
    requires
        case.fits(),
        case.sizes(r),
        r.is_valid,
        representable(r.adjustments.size_before_adjustments@),
    ensures
        r.limit_reason is Some,
        ({
            let reason = r.limit_reason->0;
            let before = r.adjustments.size_before_adjustments@;
            &&& reason is BaseSize ==> before == case.config.base_order_size@
            &&& reason is LiquidityLimit ==> before == case.opportunity.max_size@
            &&& reason is LiquidityTakeLimit ==> Some(before) == product(
                num(case.opportunity.max_size),
                num(case.config.max_liquidity_take),
            )
            &&& reason is PositionLimit ==> Some(before) == case.position_shares()
            &&& reason is ExposureLimit ==> Some(before) == case.exposure_shares()
            &&& reason is ImbalanceAdjustment ==> r.adjustments.inventory_multiplier@ < units(1, 0)
                && r.size@ < before
            &&& reason is ToxicFlowAdjustment ==> r.adjustments.toxic_multiplier@ < units(1, 0)
                && r.size@ < before
            &&& r.size@ < before ==> reason is ImbalanceAdjustment || reason is ToxicFlowAdjustment
            &&& !(reason is NoOpportunity) && !(reason is BelowMinimum)
        }),
{
    let x = case.unadjusted().0;
    let h = pow10(26);
    assert(units(case.inventory_share(), 2) < units(1, 0) <==> case.inventory_share() < 100)
        by (nonlinear_arith)
        requires
            units(case.inventory_share(), 2) == case.inventory_share() * h,
            units(1, 0) == 100 * h,
            h > 0,
    ;
    assert(units(case.toxic_share(), 2) < units(1, 0) <==> case.toxic_share() < 100)
        by (nonlinear_arith)
        requires
            units(case.toxic_share(), 2) == case.toxic_share() * h,
            units(1, 0) == 100 * h,
            h > 0,
    ;
    if case.inventory_share() == 100 && case.toxic_share() == 100 {
        assert(case.combined() == units(1, 0));
        crate::decimal::law_arithmetic_is_exact(x, 0);
    }
}

/// There is room exactly where market and account are below their limits, and never more than either
/// of them leaves.
pub proof fn law_room_ends_at_the_limits(
    sizer: PositionSizer,
    existing: Decimal,
    total_exposure: Decimal,
    cost_per_share: Decimal,
)
    requires
        cost_per_share@ > 0,
        sizer.room(existing, total_exposure, cost_per_share) is Some,
    ensures
        ({
            let room = sizer.room(existing, total_exposure, cost_per_share)->0;
            let by_market = divided_by(
                difference(num(sizer.config.max_position_per_market), num(existing)),
                cost_per_share,
            );
            let by_account = divided_by(
                difference(num(sizer.config.max_total_exposure), num(total_exposure)),
                cost_per_share,
            );
            &&& room <= by_market->0
            &&& room <= by_account->0
            &&& Some(room) == by_market || Some(room) == by_account
            &&& sizer.allows(existing, total_exposure) ==> room >= 0
            &&& !sizer.allows(existing, total_exposure) ==> room <= 0
        }),
        sizer.allows(existing, total_exposure) <==> existing@
            < sizer.config.max_position_per_market@ && total_exposure@
            < sizer.config.max_total_exposure@,
{
    let a = sizer.config.max_position_per_market@ - existing@;
    let b = sizer.config.max_total_exposure@ - total_exposure@;
    crate::decimal::lemma_sign(a, 1);
    crate::decimal::lemma_sign(b, 1);
    let x = difference(num(sizer.config.max_position_per_market), num(existing))->0;
    let y = difference(num(sizer.config.max_total_exposure), num(total_exposure))->0;
    crate::decimal::lemma_quotient_sign(x, cost_per_share@);
    crate::decimal::lemma_quotient_sign(y, cost_per_share@);
}

/// A position that is refused has no size, no cost and no profit, whichever way it was sized.
pub proof fn law_refused_positions_are_empty(
    a: SizingResult,
    limit: SizingLimit,
    b: UnifiedSizingResult,
    words: Seq<char>,
    mode: SizingMode,
)
    requires
        a.is_rejection(limit),
        b.is_rejection(words, mode),
    ensures
        !a.is_valid && a.size@ == 0 && a.expected_cost@ == 0 && a.expected_profit@ == 0,
        a.limit_reason == Some(limit),
        !b.is_valid && b.size@ == 0 && b.expected_cost@ == 0 && b.expected_profit@ == 0,
        b.limit_reason is Some && b.limit_reason->0@ == words,
        b.strategy == mode,
{
}

/// A result that is restated is the same position: same size, same cost, same profit.
pub proof fn law_restated_results_agree(
    by_limits: SizingResult,
    a: UnifiedSizingResult,
    by_confidence: OrderSizeResult,
    opportunity: ArbOpportunity,
    b: UnifiedSizingResult,
)
    requires
        a.restates_limits(by_limits),
        b.restates_confidence(by_confidence, opportunity),
    ensures
        a.size == by_limits.size && a.is_valid == by_limits.is_valid,
        a.expected_cost == by_limits.expected_cost && a.expected_profit
            == by_limits.expected_profit,
        a.confidence_multiplier@ == units(1, 0) && a.strategy is Limits,
        b.size == by_confidence.size && b.is_valid == by_confidence.is_valid,
        b.confidence_multiplier == by_confidence.confidence_multiplier && b.strategy is Confidence,
        Some(b.expected_cost@) == product(num(b.size), num(opportunity.combined_cost)),
        Some(b.expected_profit@) == product(num(b.size), num(opportunity.margin)),
        by_confidence.rejection_reason is None <==> b.limit_reason is None,
        by_limits.limit_reason is None <==> a.limit_reason is None,
{
}

/// A word is read in small letters and in capitals, letter by letter, and in no other way.
pub proof fn law_words_are_read_in_any_case(text: Seq<char>, word: Seq<char>)
    ensures
        reads_as(word, word),
        reads_as(text, word) ==> text.len() == word.len() && forall|i: int|
            0 <= i < text.len() ==> (#[trigger] text[i] == word[i] || text[i] as u32 + 32
                == word[i] as u32),
        reads_as_letter('H', 'h') && reads_as_letter('h', 'h') && !reads_as_letter('g', 'h'),
{
    assert forall|i: int| 0 <= i < word.len() implies reads_as_letter(#[trigger] word[i], word[i]) by {
    }
}

/// A hybrid position is the smaller of what confidence and limits allow, and there is none in a market
/// or an account that is full, nor below the smallest order.
pub proof fn law_hybrid_takes_the_smaller(
    sizer: HybridSizer,
    input: SizingInput<'_>,
    r: UnifiedSizingResult,
)
    requires
        sizer.input_fits(input),
        sizer.gives(input, r),
    ensures
        r.is_valid ==> {
            &&& Some(r.size@) == sizer.confidence_sizer.order_size(input.scaled_root) || Some(r.size@)
                == sizer.limit_size(input)
            &&& r.size@ <= sizer.confidence_sizer.order_size(input.scaled_root)->0
            &&& r.size@ <= sizer.limit_size(input)->0
            &&& Some(r.expected_cost@) == product(
                Some(r.size@),
                num(input.opportunity.combined_cost),
            )
            &&& Some(r.expected_profit@) == product(Some(r.size@), num(input.opportunity.margin))
            &&& r.size@ >= sizer.limits_sizer.config.min_order_size@
        },
        !r.is_valid ==> r.size@ == 0,
        input.total_exposure@ >= sizer.limits_sizer.config.max_total_exposure@ ==> !r.is_valid,
        input.inventory is Some && sum(
            num(input.inventory->0.yes_cost_basis),
            num(input.inventory->0.no_cost_basis),
        )->0 >= sizer.limits_sizer.config.max_position_per_market@ ==> !r.is_valid,
        sizer.confidence_sizer.rejection(input.scaled_root) is Some ==> !r.is_valid,
{
}

/// Limit sizing within a hybrid sizes nothing where it refuses, and what it sizes otherwise.
pub proof fn law_refused_limits_leave_nothing(sizer: HybridSizer, input: SizingInput<'_>, r: SizingResult)
    requires
        input.case(sizer.limits_sizer.config).sizes(r),
    ensures
        sizer.limit_size(input) is Some || r.is_valid,
        !r.is_valid ==> sizer.limit_size(input) == Some(0int),
        r.is_valid ==> sizer.limit_size(input) == Some(r.size@),
        sizer.confidence_sizer.rejection(input.scaled_root) is Some ==> ordered(
            sizer.confidence_sizer,
            input.scaled_root,
        ) == Some(0int),
        sizer.confidence_sizer.rejection(input.scaled_root) is None ==> ordered(
            sizer.confidence_sizer,
            input.scaled_root,
        ) == sizer.confidence_sizer.order_size(input.scaled_root),
{
}

/// A sizer of any mode is allowed to trade as its parts are: within limits by those, by confidence as
/// long as there is a budget, and a hybrid only where both agree.
pub proof fn law_hybrids_need_both(
    hybrid: HybridSizer,
    existing: Decimal,
    total_exposure: Decimal,
)
    ensures
        hybrid.permits(existing, total_exposure) <==> hybrid.limits_sizer.permits(
            existing,
            total_exposure,
        ) && hybrid.confidence_sizer.permits(existing, total_exposure),
        Sizer::Hybrid(hybrid).permits(existing, total_exposure) == hybrid.permits(
            existing,
            total_exposure,
        ),
        hybrid.limits_sizer.permits(existing, total_exposure) <==> existing@
            < hybrid.limits_sizer.config.max_position_per_market@ && total_exposure@
            < hybrid.limits_sizer.config.max_total_exposure@,
        hybrid.confidence_sizer.permits(existing, total_exposure) <==> hybrid.confidence_sizer.spent@
            < hybrid.confidence_sizer.config.budget()->0,
        Sizer::Hybrid(hybrid).spec_mode() is Hybrid,
        Sizer::Limits(hybrid.limits_sizer).spec_mode() is Limits,
        Sizer::Confidence(hybrid.confidence_sizer).spec_mode() is Confidence,
{
}

/// Trades use up the budget that confidence sizing goes by, until it is restarted; limits do not
/// change with them.
pub proof fn law_trades_use_up_the_budget(
    sizer: HybridSizer,
    cost: Decimal,
    after: HybridSizer,
    fresh: HybridSizer,
)
    requires
        sizer.traded(cost, after),
        after.restarted(fresh),
        representable(sizer.confidence_sizer.spent@ + cost@),
    ensures
        after.confidence_sizer.spent@ == sizer.confidence_sizer.spent@ + cost@,
        after.confidence_sizer.trades == sizer.confidence_sizer.trades + 1,
        after.limits_sizer == sizer.limits_sizer,
        after.confidence_sizer.config == sizer.confidence_sizer.config,
        fresh.confidence_sizer.spent@ == 0 && fresh.confidence_sizer.trades == 0,
        fresh.confidence_sizer.config == sizer.confidence_sizer.config,
{
    crate::decimal::law_arithmetic_is_exact(sizer.confidence_sizer.spent@, cost@);
}

} // verus!
