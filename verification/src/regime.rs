//! Market regime by volatility, and parameters adapted to it.
//!
//! The current average true range is compared with its mean over the recent past: more than one
//! and a half times that is high volatility, less than 0.7 times is low.

use vstd::prelude::*;
use vstd::string::*;
use crate::atr::{elapsed, elapsed_ms};
use crate::decimal::{
    Decimal, clamped, divided, law_arithmetic_is_exact, law_mean_of_equals, lemma_exact,
    lemma_rounded_monotone, lemma_total_prefix, lit, multiple, num, pow10, product, quotient,
    representable, sum, total, units,
};
use crate::text::{fixed_chars, fixed_text};
use crate::types::{ByAsset, CryptoAsset};

verus! {

/// Regime of a market.
#[derive(Clone, Copy, Debug, PartialEq, Eq, Structural, Hash)]
pub enum MarketRegime {
    /// High volatility: be more selective.
    High,
    /// Normal volatility.
    Normal,
    /// Low volatility: be less selective.
    Low,
}

/// Regime for a ratio of current to usual volatility.
pub open spec fn regime_at(ratio: int) -> MarketRegime {
    if ratio > units(15, 1) {
        MarketRegime::High
    } else if ratio < units(7, 1) {
        MarketRegime::Low
    } else {
        MarketRegime::Normal
    }
}

impl MarketRegime {
    /// Regime for a ratio of current to usual volatility.
    pub fn from_atr_ratio(ratio: Decimal) -> (r: MarketRegime)
        ensures
            r == regime_at(ratio@),
    {
        if ratio > Decimal::new(15, 1) {
            MarketRegime::High
        } else if ratio < Decimal::new(7, 1) {
            MarketRegime::Low
        } else {
            MarketRegime::Normal
        }
    }

    /// Name of the regime.
    pub open spec fn spec_name(self) -> Seq<char> {
        match self {
            MarketRegime::High => "high_vol"@,
            MarketRegime::Normal => "normal"@,
            MarketRegime::Low => "low_vol"@,
        }
    }

    /// Name of the regime.
    pub fn name(&self) -> (r: &'static str)
        ensures
            r@ == self.spec_name(),
    {
        match self {
            MarketRegime::High => "high_vol",
            MarketRegime::Normal => "normal",
            MarketRegime::Low => "low_vol",
        }
    }

    /// Name of the regime.
    pub fn to_string(&self) -> (r: String)
        ensures
            r@ == self.spec_name(),
    {
        self.name().to_owned()
    }
}

/// Parameters for a regime.
#[derive(Clone, Copy, Debug)]
pub struct AdaptiveParams {
    pub regime: MarketRegime,
    /// Ratio that determined the regime.
    pub atr_ratio: Decimal,
    /// Edge required at the start of a window.
    pub max_edge_factor: Decimal,
    /// Distance confidence per average true range.
    pub dist_conf_per_atr: Decimal,
    /// Time confidence at the start of a window.
    pub time_conf_floor: Decimal,
    /// Factor for the confidence thresholds of the phases.
    pub phase_confidence_multiplier: Decimal,
}

/// Edge, confidence per range, time confidence and threshold factor of a regime, in percent.
pub open spec fn percentages(regime: MarketRegime) -> (int, int, int, int) {
    match regime {
        MarketRegime::High => (25, 25, 25, 115),
        MarketRegime::Normal => (20, 30, 30, 100),
        MarketRegime::Low => (12, 45, 40, 85),
    }
}

impl AdaptiveParams {
    /// Whether these are the parameters of their regime, for this ratio.
    pub open spec fn suits(self, regime: MarketRegime, ratio: int) -> bool {
        let (edge, per_atr, floor, factor) = percentages(regime);
        &&& self.regime == regime
        &&& self.atr_ratio@ == ratio
        &&& self.max_edge_factor@ == units(edge, 2)
        &&& self.dist_conf_per_atr@ == units(per_atr, 2)
        &&& self.time_conf_floor@ == units(floor, 2)
        &&& self.phase_confidence_multiplier@ == units(factor, 2)
    }

    /// Parameters for a regime.
    pub fn for_regime(regime: MarketRegime, atr_ratio: Decimal) -> (r: AdaptiveParams)
        ensures
            r.suits(regime, atr_ratio@),
            r.atr_ratio == atr_ratio,
    {
        match regime {
            MarketRegime::High => AdaptiveParams {
                regime,
                atr_ratio,
                max_edge_factor: Decimal::new(25, 2),
                dist_conf_per_atr: Decimal::new(25, 2),
                time_conf_floor: Decimal::new(25, 2),
                phase_confidence_multiplier: Decimal::new(115, 2),
            },
            MarketRegime::Normal => AdaptiveParams {
                regime,
                atr_ratio,
                max_edge_factor: Decimal::new(20, 2),
                dist_conf_per_atr: Decimal::new(30, 2),
                time_conf_floor: Decimal::new(30, 2),
                phase_confidence_multiplier: Decimal::one(),
            },
            MarketRegime::Low => AdaptiveParams {
                regime,
                atr_ratio,
                max_edge_factor: Decimal::new(12, 2),
                dist_conf_per_atr: Decimal::new(45, 2),
                time_conf_floor: Decimal::new(40, 2),
                phase_confidence_multiplier: Decimal::new(85, 2),
            },
        }
    }

    /// Threshold of a phase for the regime, kept between 0.30 and 0.95.
    pub fn adjusted_phase_confidence(&self, base_threshold: Decimal) -> (r: Decimal)
        requires
            product(num(base_threshold), num(self.phase_confidence_multiplier)) is Some,
        ensures
            Some(r@) == clamped(
                product(num(base_threshold), num(self.phase_confidence_multiplier)),
                lit(30, 2),
                lit(95, 2),
            ),
            units(30, 2) <= r@ <= units(95, 2),
    {
        let adjusted = base_threshold.times(self.phase_confidence_multiplier);
        adjusted.max(Decimal::new(30, 2)).min(Decimal::new(95, 2))
    }
}

impl Default for AdaptiveParams {
    fn default() -> (r: AdaptiveParams)
        ensures
            r.suits(MarketRegime::Normal, units(1, 0)),
    {
        AdaptiveParams::for_regime(MarketRegime::Normal, Decimal::one())
    }
}

/// An average true range and when it was seen.
#[derive(Clone, Copy, Debug)]
pub struct AtrSample {
    pub at_ms: i64,
    pub atr: Decimal,
}

/// The samples that are at most `history_ms` old.
pub open spec fn kept(samples: Seq<AtrSample>, now_ms: i64, history_ms: u64) -> Seq<AtrSample>
    decreases samples.len(),
{
    if samples.len() == 0 {
        samples
    } else {
        let rest = kept(samples.drop_last(), now_ms, history_ms);
        if now_ms - samples.last().at_ms <= history_ms {
            rest.push(samples.last())
        } else {
            rest
        }
    }
}

/// The values of a list of samples.
pub open spec fn atrs(samples: Seq<AtrSample>) -> Seq<Decimal> {
    samples.map_values(|s: AtrSample| s.atr)
}

/// Mean of the samples.
pub open spec fn baseline_of(samples: Seq<AtrSample>) -> Option<int> {
    quotient(total(atrs(samples)), lit(samples.len() as int, 0))
}

/// Latest sample over the mean of the samples.
pub open spec fn ratio_of(samples: Seq<AtrSample>) -> Option<int> {
    divided(num(samples.last().atr), baseline_of(samples))
}

/// Recent average true ranges of an asset.
#[derive(Debug)]
pub struct AtrHistory {
    /// Samples, the oldest first.
    pub samples: Vec<AtrSample>,
    /// Milliseconds for which samples are kept.
    pub history_ms: u64,
}

impl AtrHistory {
    /// A history without samples.
    pub fn new(history_ms: u64) -> (r: AtrHistory)
        ensures
            r.samples@.len() == 0,
            r.history_ms == history_ms,
    {
        AtrHistory { samples: Vec::new(), history_ms }
    }

    /// Adds a sample and drops those that are too old.
    pub fn record(&mut self, atr: Decimal, now_ms: i64)
        ensures
            final(self).history_ms == old(self).history_ms,
            final(self).samples@ == kept(old(self).samples@, now_ms, old(self).history_ms).push(
                AtrSample { at_ms: now_ms, atr },
            ),
    {
        let mut fresh: Vec<AtrSample> = Vec::new();
        let mut i: usize = 0;
        let ghost all = self.samples@;
        assert(all.take(0) =~= Seq::<AtrSample>::empty());
        while i < self.samples.len()
            invariant
                i <= self.samples@.len(),
                all == self.samples@,
                self.history_ms == old(self).history_ms,
                fresh@ == kept(all.take(i as int), now_ms, self.history_ms),
            decreases self.samples@.len() - i,
        {
            let sample = self.samples[i];
            let age: i128 = now_ms as i128 - sample.at_ms as i128;
            assert(all.take(i + 1).drop_last() =~= all.take(i as int));
            if age <= self.history_ms as i128 {
                fresh.push(sample);
            }
            i = i + 1;
        }
        assert(all.take(i as int) =~= all);
        fresh.push(AtrSample { at_ms: now_ms, atr });
        self.samples = fresh;
    }

    /// Mean of the samples.
    pub fn baseline(&self) -> (r: Option<Decimal>)
        requires
            self.samples@.len() > 0 ==> baseline_of(self.samples@) is Some,
        ensures
            match r {
                Some(mean) => self.samples@.len() > 0 && Some(mean@) == baseline_of(self.samples@),
                None => self.samples@.len() == 0,
            },
    {
        if self.samples.len() == 0 {
            return None;
        }
        let mut acc = Decimal::zero();
        let mut i: usize = 0;
        let ghost all = atrs(self.samples@);
        assert(all.take(0) =~= Seq::<Decimal>::empty());
        while i < self.samples.len()
            invariant
                i <= self.samples@.len(),
                all == atrs(self.samples@),
                total(all) is Some,
                Some(acc@) == total(all.take(i as int)),
            decreases self.samples@.len() - i,
        {
            proof {
                lemma_total_prefix(all, i as int);
            }
            acc = acc.plus(self.samples[i].atr);
            i = i + 1;
        }
        assert(all.take(i as int) =~= all);
        Some(acc.over(Decimal::from_u64(self.samples.len() as u64)))
    }

    /// Latest sample.
    pub fn current(&self) -> (r: Option<Decimal>)
        ensures
            r == if self.samples@.len() > 0 {
                Some(self.samples@.last().atr)
            } else {
                None
            },
    {
        let n: usize = self.samples.len();
        if n > 0 {
            Some(self.samples[n - 1].atr)
        } else {
            None
        }
    }
}

/// The samples of a history; none where there is no history.
pub open spec fn samples_in(history: Option<AtrHistory>) -> Seq<AtrSample> {
    match history {
        Some(history) => history.samples@,
        None => Seq::empty(),
    }
}

/// The assets, in the order in which they are looked at.
pub open spec fn asset_at(i: int) -> CryptoAsset {
    if i <= 0 {
        CryptoAsset::Btc
    } else if i == 1 {
        CryptoAsset::Eth
    } else if i == 2 {
        CryptoAsset::Sol
    } else {
        CryptoAsset::Xrp
    }
}

fn nth_asset(i: usize) -> (r: CryptoAsset)
    ensures
        r == asset_at(i as int),
{
    if i == 0 {
        CryptoAsset::Btc
    } else if i == 1 {
        CryptoAsset::Eth
    } else if i == 2 {
        CryptoAsset::Sol
    } else {
        CryptoAsset::Xrp
    }
}

/// Regimes of the assets and the samples from which the overall regime is found.
pub struct RegimeView {
    pub regimes: ByAsset<Option<MarketRegime>>,
    pub samples: ByAsset<Seq<AtrSample>>,
}

impl RegimeView {
    /// Whether an asset takes part in the overall regime: it has one of its own, and a positive
    /// mean.
    pub open spec fn counts(self, asset: CryptoAsset) -> bool {
        &&& self.regimes.at(asset) is Some
        &&& self.samples.at(asset).len() > 0
        &&& baseline_of(self.samples.at(asset))->0 > 0
    }

    /// Sum of the ratios of the first `n` assets that take part.
    pub open spec fn ratio_sum(self, n: int) -> Option<int>
        decreases n,
    {
        if n <= 0 {
            Some(0)
        } else if self.counts(asset_at(n - 1)) {
            sum(self.ratio_sum(n - 1), ratio_of(self.samples.at(asset_at(n - 1))))
        } else {
            self.ratio_sum(n - 1)
        }
    }

    /// Number of the first `n` assets that take part.
    pub open spec fn ratio_count(self, n: int) -> int
        decreases n,
    {
        if n <= 0 {
            0
        } else if self.counts(asset_at(n - 1)) {
            self.ratio_count(n - 1) + 1
        } else {
            self.ratio_count(n - 1)
        }
    }

    /// Mean ratio of the assets that take part.
    pub open spec fn mean_ratio(self) -> Option<int> {
        quotient(self.ratio_sum(4), lit(self.ratio_count(4), 0))
    }

    /// Whether the arithmetic of the overall regime stays within range.
    pub open spec fn fits(self) -> bool {
        &&& forall|asset: CryptoAsset|
            self.regimes.at(asset) is Some && self.samples.at(asset).len() > 0 ==> (
            #[trigger] baseline_of(self.samples.at(asset))) is Some
        &&& self.ratio_sum(1) is Some
        &&& self.ratio_sum(2) is Some
        &&& self.ratio_sum(3) is Some
        &&& self.ratio_sum(4) is Some
        &&& self.ratio_count(4) > 0 ==> self.mean_ratio() is Some
    }

    /// Whether `after` are the parameters that follow from the regimes, `before` where none does.
    pub open spec fn adapts(self, before: AdaptiveParams, after: AdaptiveParams) -> bool {
        if self.ratio_count(4) > 0 {
            after.suits(regime_at(self.mean_ratio()->0), self.mean_ratio()->0)
        } else {
            after == before
        }
    }
}

/// Finds the regime of each asset and of the market as a whole.
#[derive(Debug)]
pub struct RegimeDetector {
    pub atr_history: ByAsset<Option<AtrHistory>>,
    /// Milliseconds for which samples are kept.
    pub history_ms: u64,
    /// Number of samples before a regime is found.
    pub min_samples: usize,
    pub current_regime: ByAsset<Option<MarketRegime>>,
    /// Parameters for the overall regime.
    pub cached_params: AdaptiveParams,
    /// Time of the last change of regime, in milliseconds.
    pub last_update_ms: i64,
    /// Milliseconds between two changes of regime.
    pub cooldown_ms: u64,
}

impl RegimeDetector {
    /// The samples of all assets.
    pub open spec fn samples(self) -> ByAsset<Seq<AtrSample>> {
        ByAsset {
            btc: samples_in(self.atr_history.btc),
            eth: samples_in(self.atr_history.eth),
            sol: samples_in(self.atr_history.sol),
            xrp: samples_in(self.atr_history.xrp),
        }
    }

    /// Milliseconds for which the samples of an asset are kept.
    pub open spec fn kept_for(self, asset: CryptoAsset) -> u64 {
        match self.atr_history.at(asset) {
            Some(history) => history.history_ms,
            None => self.history_ms,
        }
    }

    /// The samples of an asset once a new one is in.
    pub open spec fn samples_with(self, asset: CryptoAsset, atr: Decimal, now_ms: i64) -> Seq<
        AtrSample,
    > {
        kept(self.samples().at(asset), now_ms, self.kept_for(asset)).push(
            AtrSample { at_ms: now_ms, atr },
        )
    }

    /// Whether a sample leads to a new look at the regimes.
    pub open spec fn refreshes(self, asset: CryptoAsset, atr: Decimal, now_ms: i64) -> bool {
        &&& elapsed(self.last_update_ms, now_ms) >= self.cooldown_ms
        &&& self.samples_with(asset, atr, now_ms).len() >= self.min_samples
    }

    /// The regimes of the assets after a new look at one of them.
    pub open spec fn regimes_with(self, asset: CryptoAsset, atr: Decimal, now_ms: i64) -> ByAsset<
        Option<MarketRegime>,
    > {
        let samples = self.samples_with(asset, atr, now_ms);
        if baseline_of(samples)->0 > 0 {
            self.current_regime.with(asset, Some(regime_at(ratio_of(samples)->0)))
        } else {
            self.current_regime
        }
    }

    /// What the overall regime is found from after a sample.
    pub open spec fn view_with(self, asset: CryptoAsset, atr: Decimal, now_ms: i64) -> RegimeView {
        RegimeView {
            regimes: self.regimes_with(asset, atr, now_ms),
            samples: self.samples().with(asset, self.samples_with(asset, atr, now_ms)),
        }
    }

    /// Whether the arithmetic of `update_atr` stays within range.
    pub open spec fn update_fits(self, asset: CryptoAsset, atr: Decimal, now_ms: i64) -> bool {
        self.refreshes(asset, atr, now_ms) ==> {
            let samples = self.samples_with(asset, atr, now_ms);
            &&& baseline_of(samples) is Some
            &&& baseline_of(samples)->0 > 0 ==> ratio_of(samples) is Some
            &&& self.view_with(asset, atr, now_ms).fits()
        }
    }

    /// A detector without samples, with a history of 4 hours, at least 20 samples and one minute
    /// between two changes.
    pub fn new(now_ms: i64) -> (r: RegimeDetector)
        ensures
            r.is_fresh(14400000, 20, 60000, now_ms),
    {
        RegimeDetector::with_config(14400000, 20, 60000, now_ms)
    }

    /// Whether the detector has these settings and no samples.
    pub open spec fn is_fresh(
        self,
        history_ms: u64,
        min_samples: usize,
        cooldown_ms: u64,
        now_ms: i64,
    ) -> bool {
        &&& forall|asset: CryptoAsset| (#[trigger] self.atr_history.at(asset)) is None
        &&& forall|asset: CryptoAsset| (#[trigger] self.current_regime.at(asset)) is None
        &&& self.history_ms == history_ms
        &&& self.min_samples == min_samples
        &&& self.cached_params.suits(MarketRegime::Normal, units(1, 0))
        &&& self.last_update_ms == now_ms
        &&& self.cooldown_ms == cooldown_ms
    }

    /// A detector with the given settings and no samples.
    pub fn with_config(history_ms: u64, min_samples: usize, cooldown_ms: u64, now_ms: i64) -> (r:
        RegimeDetector)
        ensures
            r.is_fresh(history_ms, min_samples, cooldown_ms, now_ms),
    {
        RegimeDetector {
            atr_history: ByAsset { btc: None, eth: None, sol: None, xrp: None },
            history_ms,
            min_samples,
            current_regime: ByAsset { btc: None, eth: None, sol: None, xrp: None },
            cached_params: AdaptiveParams::default(),
            last_update_ms: now_ms,
            cooldown_ms,
        }
    }

    /// Whether `after` is this detector once a sample was taken in.
    pub open spec fn updated(
        self,
        asset: CryptoAsset,
        atr: Decimal,
        now_ms: i64,
        after: RegimeDetector,
    ) -> bool {
        &&& after.history_ms == self.history_ms
        &&& after.min_samples == self.min_samples
        &&& after.cooldown_ms == self.cooldown_ms
        &&& after.atr_history == self.atr_history.with(asset, after.atr_history.at(asset))
        &&& after.atr_history.at(asset) is Some
        &&& samples_in(after.atr_history.at(asset)) == self.samples_with(asset, atr, now_ms)
        &&& after.kept_for(asset) == self.kept_for(asset)
        &&& if self.refreshes(asset, atr, now_ms) {
            &&& after.current_regime == self.regimes_with(asset, atr, now_ms)
            &&& self.view_with(asset, atr, now_ms).adapts(self.cached_params, after.cached_params)
            &&& after.last_update_ms == now_ms
        } else {
            &&& after.current_regime == self.current_regime
            &&& after.cached_params == self.cached_params
            &&& after.last_update_ms == self.last_update_ms
        }
    }

    /// Takes in an average true range. With enough samples, and not too soon after the last
    /// change, the regimes of the asset and of the market are found anew.
    pub fn update_atr(&mut self, asset: CryptoAsset, current_atr: Decimal, now_ms: i64)
        requires
            old(self).update_fits(asset, current_atr, now_ms),
        ensures
            old(self).updated(asset, current_atr, now_ms, *final(self)),
    {
        let history_ms: u64 = self.history_ms;
        let slot = self.atr_history.get_mut(asset);
        let mut history = match slot.take() {
            Some(history) => history,
            None => AtrHistory::new(history_ms),
        };
        assert(history.samples@ =~= old(self).samples().at(asset));
        history.record(current_atr, now_ms);
        let count: usize = history.samples.len();
        let refresh = elapsed_ms(self.last_update_ms, now_ms) >= self.cooldown_ms && count
            >= self.min_samples;
        let ghost samples = history.samples@;
        if !refresh {
            self.atr_history.set(asset, Some(history));
            return;
        }
        let current = history.current();
        let baseline = history.baseline();
        self.atr_history.set(asset, Some(history));
        if let (Some(current), Some(baseline)) = (current, baseline) {
            if baseline > Decimal::zero() {
                let ratio = current.over(baseline);
                self.current_regime.set(asset, Some(MarketRegime::from_atr_ratio(ratio)));
            }
        }
        proof {
            let view = old(self).view_with(asset, current_atr, now_ms);
            assert(self.current_regime == view.regimes);
            assert(self.samples().btc == view.samples.btc);
            assert(self.samples().eth == view.samples.eth);
            assert(self.samples().sol == view.samples.sol);
            assert(self.samples().xrp == view.samples.xrp);
            assert(self.samples() == view.samples);
            assert((RegimeView { regimes: self.current_regime, samples: self.samples() }) == view);
        }
        self.update_overall_regime();
        self.last_update_ms = now_ms;
    }

    /// Finds the overall regime from the mean ratio of the assets.
    fn update_overall_regime(&mut self)
        requires
            (RegimeView { regimes: old(self).current_regime, samples: old(self).samples() }).fits(),
        ensures
            *final(self) == (RegimeDetector {
                cached_params: final(self).cached_params,
                ..*old(self)
            }),
            (RegimeView { regimes: old(self).current_regime, samples: old(self).samples() }).adapts(
                old(self).cached_params,
                final(self).cached_params,
            ),
    {
        let ghost view = RegimeView { regimes: self.current_regime, samples: self.samples() };
        let mut total_ratio = Decimal::zero();
        let mut count: u64 = 0;
        let mut i: usize = 0;
        while i < 4
            invariant
                i <= 4,
                *self == *old(self),
                view == (RegimeView { regimes: self.current_regime, samples: self.samples() }),
                view.fits(),
                Some(total_ratio@) == view.ratio_sum(i as int),
                count == view.ratio_count(i as int),
                count <= i,
            decreases 4 - i,
        {
            let asset = nth_asset(i);
            proof {
                assert(view.samples.at(asset) == samples_in(self.atr_history.at(asset)));
                assert(view.regimes.at(asset) == self.current_regime.at(asset));
                assert(view.ratio_sum(i + 1) is Some);
                if view.regimes.at(asset) is Some && view.samples.at(asset).len() > 0 {
                    assert(baseline_of(view.samples.at(asset)) is Some);
                }
            }
            if self.current_regime.get(asset).is_some() {
                if let Some(history) = self.atr_history.get(asset) {
                    if let (Some(current), Some(baseline)) = (history.current(), history.baseline()) {
                        if baseline > Decimal::zero() {
                            let ratio = current.over(baseline);
                            total_ratio = total_ratio.plus(ratio);
                            count = count + 1;
                        }
                    }
                }
            }
            i = i + 1;
        }
        if count > 0 {
            let avg_ratio = total_ratio.over(Decimal::from_u64(count));
            let regime = MarketRegime::from_atr_ratio(avg_ratio);
            self.cached_params = AdaptiveParams::for_regime(regime, avg_ratio);
        }
    }

    /// Parameters for the overall regime.
    pub fn get_adaptive_params(&self) -> (r: &AdaptiveParams)
        ensures
            *r == self.cached_params,
    {
        &self.cached_params
    }

    /// The overall regime.
    pub fn current_regime(&self) -> (r: MarketRegime)
        ensures
            r == self.cached_params.regime,
    {
        self.cached_params.regime
    }

    /// Regime of an asset; normal until one was found.
    pub fn asset_regime(&self, asset: CryptoAsset) -> (r: MarketRegime)
        ensures
            r == match self.current_regime.at(asset) {
                Some(regime) => regime,
                None => MarketRegime::Normal,
            },
    {
        match self.current_regime.get(asset) {
            Some(regime) => *regime,
            None => MarketRegime::Normal,
        }
    }

    /// Whether an asset has a history with enough samples.
    pub open spec fn has_samples(self, asset: CryptoAsset) -> bool {
        match self.atr_history.at(asset) {
            Some(history) => history.samples@.len() >= self.min_samples,
            None => false,
        }
    }

    fn asset_has_samples(&self, asset: CryptoAsset) -> (r: bool)
        ensures
            r == self.has_samples(asset),
    {
        match self.atr_history.get(asset) {
            Some(history) => history.samples.len() >= self.min_samples,
            None => false,
        }
    }

    /// Whether any asset has enough samples.
    pub fn is_warmed_up(&self) -> (r: bool)
        ensures
            r == exists|asset: CryptoAsset| #[trigger] self.has_samples(asset),
    {
        let btc = self.asset_has_samples(CryptoAsset::Btc);
        let eth = self.asset_has_samples(CryptoAsset::Eth);
        let sol = self.asset_has_samples(CryptoAsset::Sol);
        let xrp = self.asset_has_samples(CryptoAsset::Xrp);
        btc || eth || sol || xrp
    }

    /// Whether the status of an asset can be computed within range.
    pub open spec fn status_fits(self, asset: CryptoAsset) -> bool {
        let samples = samples_in(self.atr_history.at(asset));
        samples.len() > 0 ==> baseline_of(samples) is Some && (baseline_of(samples)->0 > 0
            ==> ratio_of(samples) is Some)
    }

    /// Status of an asset as text: empty without samples.
    pub open spec fn spec_asset_status(self, asset: CryptoAsset) -> Seq<char> {
        let samples = samples_in(self.atr_history.at(asset));
        let baseline = baseline_of(samples)->0;
        let ratio = if baseline > 0 {
            ratio_of(samples)
        } else {
            lit(1, 0)
        };
        if samples.len() == 0 {
            ""@
        } else {
            " "@ + asset.spec_name() + ":cur="@ + fixed_chars(samples.last().atr@, 2) + "/base="@
                + fixed_chars(baseline, 2) + "("@ + fixed_chars(ratio->0, 2) + "x)"@
        }
    }

    fn asset_status(&self, asset: CryptoAsset) -> (r: String)
        requires
            self.status_fits(asset),
        ensures
            r@ == self.spec_asset_status(asset),
    {
        if let Some(history) = self.atr_history.get(asset) {
            if let (Some(current), Some(baseline)) = (history.current(), history.baseline()) {
                let ratio = if baseline > Decimal::zero() {
                    current.over(baseline)
                } else {
                    Decimal::one()
                };
                return " ".to_owned().concat(asset.name()).concat(":cur=").concat(
                    fixed_text(current, 2).as_str(),
                ).concat("/base=").concat(fixed_text(baseline, 2).as_str()).concat("(").concat(
                    fixed_text(ratio, 2).as_str(),
                ).concat("x)");
            }
        }
        "".to_owned()
    }

    /// Regime, ratio and the status of each asset with samples, in one line.
    pub fn status_summary(&self) -> (r: String)
        requires
            forall|asset: CryptoAsset| #[trigger] self.status_fits(asset),
        ensures
            r@ == "regime="@ + self.cached_params.regime.spec_name() + " atr_ratio="@
                + fixed_chars(self.cached_params.atr_ratio@, 2) + self.spec_asset_status(
                CryptoAsset::Btc,
            ) + self.spec_asset_status(CryptoAsset::Eth) + self.spec_asset_status(CryptoAsset::Sol)
                + self.spec_asset_status(CryptoAsset::Xrp),
    {
        assert(self.status_fits(CryptoAsset::Btc));
        assert(self.status_fits(CryptoAsset::Eth));
        assert(self.status_fits(CryptoAsset::Sol));
        assert(self.status_fits(CryptoAsset::Xrp));
        let btc = self.asset_status(CryptoAsset::Btc);
        let eth = self.asset_status(CryptoAsset::Eth);
        let sol = self.asset_status(CryptoAsset::Sol);
        let xrp = self.asset_status(CryptoAsset::Xrp);
        "regime=".to_owned().concat(self.cached_params.regime.name()).concat(" atr_ratio=").concat(
            fixed_text(self.cached_params.atr_ratio, 2).as_str(),
        ).concat(btc.as_str()).concat(eth.as_str()).concat(sol.as_str()).concat(xrp.as_str())
    }

    /// Sets the overall regime by hand.
    pub fn force_regime(&mut self, regime: MarketRegime)
        ensures
            *final(self) == (RegimeDetector {
                cached_params: final(self).cached_params,
                ..*old(self)
            }),
            final(self).cached_params.suits(regime, units(1, 0)),
    {
        self.cached_params = AdaptiveParams::for_regime(regime, Decimal::one());
    }
}

/// The more volatile the market, the more edge is required, the less a distance counts, the less
/// the time counts early on, and the higher are the thresholds.
pub proof fn law_volatility_is_selective(calm: int, wild: int)
    requires
        calm <= wild,
    ensures
        ({
            let (edge_c, per_atr_c, floor_c, factor_c) = percentages(regime_at(calm));
            let (edge_w, per_atr_w, floor_w, factor_w) = percentages(regime_at(wild));
            &&& edge_c <= edge_w
            &&& per_atr_w <= per_atr_c
            &&& floor_w <= floor_c
            &&& factor_c <= factor_w
        }),
{
}

/// Exactly the samples that are no older than the history are kept, in their order.
pub proof fn law_recent_samples_are_kept(samples: Seq<AtrSample>, now_ms: i64, history_ms: u64)
    ensures
        forall|i: int|
            0 <= i < kept(samples, now_ms, history_ms).len() ==> now_ms - (#[trigger] kept(
                samples,
                now_ms,
                history_ms,
            )[i]).at_ms <= history_ms && samples.contains(kept(samples, now_ms, history_ms)[i]),
        forall|j: int|
            0 <= j < samples.len() && now_ms - (#[trigger] samples[j]).at_ms <= history_ms ==> kept(
                samples,
                now_ms,
                history_ms,
            ).contains(samples[j]),
        (forall|j: int|
            0 <= j < samples.len() ==> now_ms - (#[trigger] samples[j]).at_ms <= history_ms)
            ==> kept(samples, now_ms, history_ms) == samples,
    decreases samples.len(),
{
    if samples.len() > 0 {
        let rest = samples.drop_last();
        let last = samples.len() - 1;
        law_recent_samples_are_kept(rest, now_ms, history_ms);
        let before = kept(rest, now_ms, history_ms);
        let after = kept(samples, now_ms, history_ms);
        assert forall|i: int| 0 <= i < after.len() implies now_ms - (#[trigger] after[i]).at_ms
            <= history_ms && samples.contains(after[i]) by {
            if i < before.len() {
                assert(after[i] == before[i]);
                let k = choose|k: int| 0 <= k < rest.len() && rest[k] == before[i];
                assert(samples[k] == after[i]);
            } else {
                assert(samples[last] == after[i]);
            }
        }
        assert forall|j: int|
            0 <= j < samples.len() && now_ms - (#[trigger] samples[j]).at_ms
                <= history_ms implies after.contains(samples[j]) by {
            if j < last {
                assert(rest[j] == samples[j]);
                let k = choose|k: int| 0 <= k < before.len() && before[k] == samples[j];
                assert(after[k] == samples[j]);
            } else {
                assert(after[after.len() - 1] == samples[j]);
            }
        }
        if forall|j: int|
            0 <= j < samples.len() ==> now_ms - (#[trigger] samples[j]).at_ms <= history_ms {
            assert forall|j: int| 0 <= j < rest.len() implies now_ms - (#[trigger] rest[j]).at_ms
                <= history_ms by {
                assert(samples[j] == rest[j]);
            }
            assert(samples[last].at_ms == samples.last().at_ms);
            assert(after =~= samples);
        }
    }
}

/// Volatility that stays the same is the usual volatility: the mean is that value and the ratio one.
pub proof fn law_steady_volatility_is_normal(samples: Seq<AtrSample>, atr: int)
    requires
        samples.len() > 0,
        atr > 0,
        forall|i: int| 0 <= i < samples.len() ==> (#[trigger] samples[i]).atr@ == atr,
        forall|n: int| 0 <= n <= samples.len() ==> representable(#[trigger] multiple(n, atr)),
        ratio_of(samples) is Some,
    ensures
        baseline_of(samples) == Some(atr),
        ratio_of(samples) == Some(units(1, 0)),
        regime_at(ratio_of(samples)->0) is Normal,
{
    let s = atrs(samples);
    assert forall|i: int| 0 <= i < s.len() implies (#[trigger] s[i])@ == atr by {
        assert(samples[i].atr@ == atr);
    }
    law_mean_of_equals(s, atr);
    assert(multiple(1, atr) == atr);
    assert(representable(multiple(1, atr)));
    assert(samples[samples.len() - 1].atr@ == atr);
    law_arithmetic_is_exact(atr, 0);
}

/// The latest volatility is compared with the mean: above it the ratio is one or more, below it one or
/// less.
pub proof fn law_ratio_compares_with_the_mean(samples: Seq<AtrSample>)
    requires
        samples.len() > 0,
        baseline_of(samples) is Some,
        baseline_of(samples)->0 > 0,
        ratio_of(samples) is Some,
    ensures
        samples.last().atr@ >= baseline_of(samples)->0 ==> ratio_of(samples)->0 >= units(1, 0),
        samples.last().atr@ <= baseline_of(samples)->0 ==> ratio_of(samples)->0 <= units(1, 0),
{
    let mean = baseline_of(samples)->0;
    let last = samples.last().atr@;
    let p = pow10(28);
    lemma_exact(p, 1, 1, 28);
    if last >= mean {
        assert(p * mean <= (last * p) * 1) by (nonlinear_arith)
            requires
                last >= mean,
                p > 0,
        ;
        lemma_rounded_monotone(p, 1, last * p, mean);
    }
    if last <= mean {
        assert((last * p) * 1 <= p * mean) by (nonlinear_arith)
            requires
                last <= mean,
                p > 0,
        ;
        lemma_rounded_monotone(last * p, mean, p, 1);
    }
}

/// Volatility is high above one and a half times the usual, low below seven tenths of it, and normal
/// in between.
pub proof fn law_regimes_of_ratios(ratio: int)
    ensures
        regime_at(ratio) is High <==> 2 * ratio > units(3, 0),
        regime_at(ratio) is Low <==> 10 * ratio < units(7, 0),
{
    let p = pow10(27);
    assert(pow10(28) == 10 * p);
}

/// A sample concerns its own asset only: it joins that asset's history, and the history and regime of
/// the others are left alone. Too soon after the last change no regime changes.
pub proof fn law_samples_concern_their_asset(
    before: RegimeDetector,
    asset: CryptoAsset,
    atr: Decimal,
    now_ms: i64,
    after: RegimeDetector,
    other: CryptoAsset,
)
    requires
        before.updated(asset, atr, now_ms, after),
        other != asset,
    ensures
        after.atr_history.at(other) == before.atr_history.at(other),
        after.current_regime.at(other) == before.current_regime.at(other),
        samples_in(after.atr_history.at(asset)).last() == (AtrSample { at_ms: now_ms, atr }),
        before.last_update_ms <= now_ms && now_ms - before.last_update_ms < before.cooldown_ms
            ==> after.current_regime == before.current_regime && after.cached_params
            == before.cached_params && after.last_update_ms == before.last_update_ms,
        samples_in(after.atr_history.at(asset)).len() < before.min_samples ==> after.current_regime
            == before.current_regime && after.cached_params == before.cached_params,
        after.last_update_ms == before.last_update_ms || after.last_update_ms == now_ms,
{
}

/// With one asset alone the market is as that asset is.
pub proof fn law_one_asset_makes_the_market(
    view: RegimeView,
    asset: CryptoAsset,
    before: AdaptiveParams,
    after: AdaptiveParams,
)
    requires
        view.counts(asset),
        forall|other: CryptoAsset| other != asset ==> !(#[trigger] view.counts(other)),
        ratio_of(view.samples.at(asset)) is Some,
        representable(ratio_of(view.samples.at(asset))->0),
        view.adapts(before, after),
    ensures
        view.ratio_count(4) == 1,
        view.mean_ratio() == ratio_of(view.samples.at(asset)),
        after.regime == regime_at(ratio_of(view.samples.at(asset))->0),
        after.atr_ratio@ == ratio_of(view.samples.at(asset))->0,
{
    let ratio = ratio_of(view.samples.at(asset))->0;
    reveal_with_fuel(RegimeView::ratio_sum, 5);
    reveal_with_fuel(RegimeView::ratio_count, 5);
    assert(asset == asset_at(0) || asset == asset_at(1) || asset == asset_at(2) || asset == asset_at(
        3,
    ));
    law_arithmetic_is_exact(0, ratio);
    law_arithmetic_is_exact(ratio, 0);
}

/// Where no asset has a regime the parameters stay as they are.
pub proof fn law_unknown_markets_change_nothing(
    view: RegimeView,
    before: AdaptiveParams,
    after: AdaptiveParams,
)
    requires
        forall|asset: CryptoAsset| !(#[trigger] view.counts(asset)),
        view.adapts(before, after),
    ensures
        after == before,
{
    reveal_with_fuel(RegimeView::ratio_count, 5);
}

} // verus!
