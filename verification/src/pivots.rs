//! Support and resistance levels, and how they adjust confidence.
//!
//! Swing highs and lows of one-minute bars are clustered into levels. A trade away from a nearby
//! level gains confidence, one into it loses some; how much depends on whether the market is
//! ranging or trending.

use std::collections::VecDeque;
use vstd::prelude::*;
use vstd::string::*;
use crate::atr::{highest, last_of, lowest, values};
use crate::decimal::{
    Decimal, clamped, difference, divided, lemma_at_most, lemma_quotient_monotone,
    lemma_rounded_monotone, lemma_sign, lemma_sum_monotone, lemma_unrounded, lit, magnitude,
    negated, num, product, quotient, representable, rounded, sum, units,
};
use crate::text::{fixed_chars, fixed_text};
use crate::types::{ByAsset, CryptoAsset};

verus! {

/// Whether prices move between levels or through them.
#[derive(Clone, Copy, Debug, PartialEq, Eq, Structural)]
pub enum Regime {
    /// Between levels: they matter.
    Ranging,
    /// In one direction: levels matter less.
    Trending,
    /// Not known.
    Unknown,
}

impl Default for Regime {
    fn default() -> (r: Regime)
        ensures
            r == Regime::Unknown,
    {
        Regime::Unknown
    }
}

impl Regime {
    /// Weight of the levels.
    pub open spec fn weight(self) -> int {
        match self {
            Regime::Ranging => units(40, 2),
            Regime::Trending => units(15, 2),
            Regime::Unknown => units(25, 2),
        }
    }

    /// Weight of the levels.
    pub fn pivot_weight(&self) -> (r: Decimal)
        ensures
            r@ == self.weight(),
    {
        match self {
            Regime::Ranging => Decimal::new(40, 2),
            Regime::Trending => Decimal::new(15, 2),
            Regime::Unknown => Decimal::new(25, 2),
        }
    }

    /// Name of the regime.
    pub open spec fn spec_name(self) -> Seq<char> {
        match self {
            Regime::Ranging => "ranging"@,
            Regime::Trending => "trending"@,
            Regime::Unknown => "unknown"@,
        }
    }

    /// Name of the regime.
    pub fn name(&self) -> (r: &'static str)
        ensures
            r@ == self.spec_name(),
    {
        match self {
            Regime::Ranging => "ranging",
            Regime::Trending => "trending",
            Regime::Unknown => "unknown",
        }
    }

    /// Name of the regime.
    pub fn to_string(&self) -> (r: String)
        ensures
            r@ == self.spec_name(),
    {
        self.name().to_owned()
    }
}

/// Adjustment of confidence by the levels around a price.
#[derive(Clone, Copy, Debug)]
pub struct PivotConfidence {
    pub regime: Regime,
    /// Nearest level above the price.
    pub resistance: Option<Decimal>,
    /// Nearest level below the price.
    pub support: Option<Decimal>,
    /// Place of the price between support (0) and resistance (1).
    pub range_position: Option<Decimal>,
    /// How much the levels speak for the trade, from -1 to +1.
    pub raw_factor: Decimal,
    /// Factor for confidence, from 0.3 to 1.5.
    pub multiplier: Decimal,
}

impl PivotConfidence {
    /// A confidence after the adjustment.
    pub open spec fn applied(self, base: Decimal) -> Option<int> {
        clamped(product(num(base), num(self.multiplier)), Some(0), lit(1, 0))
    }

    /// Applies the adjustment to a confidence; the result is between 0 and 1.
    pub fn apply(&self, base_confidence: Decimal) -> (r: Decimal)
        requires
            product(num(base_confidence), num(self.multiplier)) is Some,
        ensures
            Some(r@) == self.applied(base_confidence),
            0 <= r@ <= units(1, 0),
    {
        base_confidence.times(self.multiplier).min(Decimal::one()).max(Decimal::zero())
    }
}

impl Default for PivotConfidence {
    fn default() -> (r: PivotConfidence)
        ensures
            r.regime == Regime::Unknown,
            r.resistance is None,
            r.support is None,
            r.range_position is None,
            r.raw_factor@ == 0,
            r.multiplier@ == 0,
    {
        PivotConfidence {
            regime: Regime::Unknown,
            resistance: None,
            support: None,
            range_position: None,
            raw_factor: Decimal::zero(),
            multiplier: Decimal::zero(),
        }
    }
}

/// Settings of the tracker.
#[derive(Clone, Copy, Debug)]
pub struct PivotConfig {
    /// Number of bars to keep.
    pub lookback_bars: usize,
    /// Distance, in average true ranges, within which a level is near.
    pub near_pivot_atr: Decimal,
    /// Largest gain of confidence.
    pub max_boost: Decimal,
    /// Largest loss of confidence.
    pub max_penalty: Decimal,
    /// Range, in average true ranges, below which a market may be ranging.
    pub range_atr_threshold: Decimal,
}

impl Default for PivotConfig {
    fn default() -> (r: PivotConfig)
        ensures
            r.lookback_bars == 60,
            r.near_pivot_atr@ == units(5, 1),
            r.max_boost@ == units(40, 2),
            r.max_penalty@ == units(50, 2),
            r.range_atr_threshold@ == units(2, 0),
    {
        PivotConfig {
            lookback_bars: 60,
            near_pivot_atr: Decimal::new(5, 1),
            max_boost: Decimal::new(40, 2),
            max_penalty: Decimal::new(50, 2),
            range_atr_threshold: Decimal::new(2, 0),
        }
    }
}

/// Prices of one minute.
#[derive(Clone, Copy, Debug)]
pub struct Bar {
    pub high: Decimal,
    pub low: Decimal,
    pub close: Decimal,
    /// Time of the first price, in seconds.
    pub timestamp: i64,
}

/// The minute of a time in seconds, cut off towards zero.
pub open spec fn minute_of(timestamp: i64) -> int {
    if timestamp >= 0 {
        timestamp as int / 60
    } else {
        -((-timestamp) / 60)
    }
}

fn to_minute(timestamp: i64) -> (r: i64)
    ensures
        r == minute_of(timestamp),
{
    if timestamp >= 0 {
        timestamp / 60
    } else {
        let magnitude: u64 = (-(timestamp + 1)) as u64 + 1;
        -((magnitude / 60) as i64)
    }
}

/// A bar with one more price.
pub open spec fn merged(bar: Bar, price: Decimal) -> Bar {
    Bar {
        high: if bar.high@ < price@ { price } else { bar.high },
        low: if bar.low@ > price@ { price } else { bar.low },
        close: price,
        timestamp: bar.timestamp,
    }
}

/// Whether a price falls into the minute of the last bar.
pub open spec fn continues_bar(bars: Seq<Bar>, timestamp: i64) -> bool {
    bars.len() > 0 && minute_of(bars.last().timestamp) == minute_of(timestamp)
}

/// The bars with one more price.
pub open spec fn bars_with(bars: Seq<Bar>, price: Decimal, timestamp: i64, lookback: int) -> Seq<
    Bar,
> {
    if continues_bar(bars, timestamp) {
        bars.drop_last().push(merged(bars.last(), price))
    } else {
        last_of(bars.push(Bar { high: price, low: price, close: price, timestamp }), lookback)
    }
}

/// Whether a bar's high is above those of the two bars before and after it.
pub open spec fn is_swing_high(bars: Seq<Bar>, i: int) -> bool {
    &&& bars[i].high@ > bars[i - 1].high@
    &&& bars[i].high@ > bars[i - 2].high@
    &&& bars[i].high@ > bars[i + 1].high@
    &&& bars[i].high@ > bars[i + 2].high@
}

/// Whether a bar's low is below those of the two bars before and after it.
pub open spec fn is_swing_low(bars: Seq<Bar>, i: int) -> bool {
    &&& bars[i].low@ < bars[i - 1].low@
    &&& bars[i].low@ < bars[i - 2].low@
    &&& bars[i].low@ < bars[i + 1].low@
    &&& bars[i].low@ < bars[i + 2].low@
}

/// The swing highs among the bars before `n`.
pub open spec fn swing_highs(bars: Seq<Bar>, n: int) -> Seq<Decimal>
    decreases n,
{
    if n <= 2 {
        Seq::empty()
    } else if is_swing_high(bars, n - 1) {
        swing_highs(bars, n - 1).push(bars[n - 1].high)
    } else {
        swing_highs(bars, n - 1)
    }
}

/// The swing lows among the bars before `n`.
pub open spec fn swing_lows(bars: Seq<Bar>, n: int) -> Seq<Decimal>
    decreases n,
{
    if n <= 2 {
        Seq::empty()
    } else if is_swing_low(bars, n - 1) {
        swing_lows(bars, n - 1).push(bars[n - 1].low)
    } else {
        swing_lows(bars, n - 1)
    }
}

/// A sorted list with one more value in its place.
pub open spec fn inserted(s: Seq<int>, v: int) -> Seq<int>
    decreases s.len(),
{
    if s.len() == 0 {
        seq![v]
    } else if s[0] > v {
        seq![v] + s
    } else {
        seq![s[0]] + inserted(s.skip(1), v)
    }
}

/// The values in rising order.
pub open spec fn ordered(s: Seq<int>) -> Seq<int>
    decreases s.len(),
{
    if s.len() == 0 {
        s
    } else {
        inserted(ordered(s.drop_last()), s.last())
    }
}

/// The means of the clusters of a sorted list from index `i` on, where the cluster before it sums
/// up to `acc` over `count` values. Neighbours closer than `threshold` share a cluster. Nothing if
/// the arithmetic overflows.
pub open spec fn clusters_from(
    levels: Seq<int>,
    i: int,
    acc: Option<int>,
    count: int,
    threshold: int,
) -> Option<Seq<int>>
    decreases levels.len() - i,
{
    if i <= 0 || i >= levels.len() {
        match quotient(acc, lit(count, 0)) {
            Some(mean) => Some(seq![mean]),
            None => None,
        }
    } else {
        match difference(Some(levels[i]), Some(levels[i - 1])) {
            Some(gap) => if gap < threshold {
                clusters_from(levels, i + 1, sum(acc, Some(levels[i])), count + 1, threshold)
            } else {
                match (
                    quotient(acc, lit(count, 0)),
                    clusters_from(levels, i + 1, Some(levels[i]), 1, threshold),
                ) {
                    (Some(mean), Some(rest)) => Some(seq![mean] + rest),
                    _ => None,
                }
            },
            None => None,
        }
    }
}

/// The levels that a list of swings comes down to: the means of the clusters, of which the five
/// highest are kept. Nothing if the arithmetic overflows.
pub open spec fn clustered(swings: Seq<int>, atr: int) -> Option<Seq<int>> {
    if swings.len() == 0 {
        Some(swings)
    } else {
        let levels = ordered(swings);
        match product(Some(atr), lit(3, 1)) {
            Some(threshold) => match clusters_from(levels, 1, Some(levels[0]), 1, threshold) {
                Some(means) => Some(last_of(means, 5)),
                None => None,
            },
            None => None,
        }
    }
}

proof fn lemma_ordered_len(s: Seq<int>)
    ensures
        ordered(s).len() == s.len(),
    decreases s.len(),
{
    if s.len() > 0 {
        lemma_ordered_len(s.drop_last());
        lemma_inserted_len(ordered(s.drop_last()), s.last());
    }
}

proof fn lemma_inserted_len(s: Seq<int>, v: int)
    ensures
        inserted(s, v).len() == s.len() + 1,
    decreases s.len(),
{
    if s.len() > 0 && s[0] <= v {
        lemma_inserted_len(s.skip(1), v);
    }
}

proof fn lemma_inserted_at(s: Seq<int>, v: int, j: int)
    requires
        0 <= j <= s.len(),
        forall|i: int| 0 <= i < j ==> #[trigger] s[i] <= v,
        j < s.len() ==> s[j] > v,
    ensures
        s.insert(j, v) =~= inserted(s, v),
    decreases s.len(),
{
    if s.len() > 0 && j > 0 {
        assert(s[0] <= v);
        let rest = s.skip(1);
        assert forall|i: int| 0 <= i < j - 1 implies #[trigger] rest[i] <= v by {
            assert(s[i + 1] <= v);
        }
        lemma_inserted_at(rest, v, j - 1);
        assert(s.insert(j, v) =~= seq![s[0]] + rest.insert(j - 1, v));
    }
}

/// Whether the values of a list rise.
pub open spec fn rising(s: Seq<int>) -> bool {
    forall|i: int, j: int| 0 <= i < j < s.len() ==> #[trigger] s[i] <= #[trigger] s[j]
}

proof fn lemma_inserted_rising(s: Seq<int>, v: int)
    requires
        rising(s),
    ensures
        rising(inserted(s, v)),
        inserted(s, v).to_multiset() =~= s.to_multiset().insert(v),
        forall|i: int|
            0 <= i < inserted(s, v).len() ==> (#[trigger] inserted(s, v)[i] == v || s.contains(
                inserted(s, v)[i],
            )),
    decreases s.len(),
{
    broadcast use vstd::seq_lib::group_to_multiset_ensures;

    if s.len() == 0 {
        assert(seq![v] =~= Seq::<int>::empty().push(v));
        assert(s =~= Seq::<int>::empty());
    } else if s[0] > v {
        let out = seq![v] + s;
        assert(out =~= s.insert(0, v));
        vstd::seq_lib::lemma_multiset_commutative(seq![v], s);
        assert(seq![v] =~= Seq::<int>::empty().push(v));
        assert forall|i: int, j: int| 0 <= i < j < out.len() implies #[trigger] out[i]
            <= #[trigger] out[j] by {
            if i == 0 {
                assert(s[0] <= s[j - 1]);
            } else {
                assert(s[i - 1] <= s[j - 1]);
            }
        }
        assert forall|i: int| 0 <= i < out.len() implies (#[trigger] out[i] == v || s.contains(
            out[i],
        )) by {
            if i > 0 {
                assert(out[i] == s[i - 1]);
            }
        }
    } else {
        let rest = s.skip(1);
        assert forall|i: int, j: int| 0 <= i < j < rest.len() implies #[trigger] rest[i]
            <= #[trigger] rest[j] by {
            assert(s[i + 1] <= s[j + 1]);
        }
        lemma_inserted_rising(rest, v);
        let tail = inserted(rest, v);
        let out = seq![s[0]] + tail;
        assert forall|i: int, j: int| 0 <= i < j < out.len() implies #[trigger] out[i]
            <= #[trigger] out[j] by {
            if i == 0 {
                let x = tail[j - 1];
                assert(x == v || rest.contains(x));
                if x != v {
                    let k = choose|k: int| 0 <= k < rest.len() && rest[k] == x;
                    assert(s[0] <= s[k + 1]);
                }
            } else {
                assert(tail[i - 1] <= tail[j - 1]);
            }
        }
        assert forall|i: int| 0 <= i < out.len() implies (#[trigger] out[i] == v || s.contains(
            out[i],
        )) by {
            if i == 0 {
                assert(s[0] == out[0]);
            } else {
                let x = tail[i - 1];
                assert(x == v || rest.contains(x));
                if x != v {
                    let k = choose|k: int| 0 <= k < rest.len() && rest[k] == x;
                    assert(s[k + 1] == x);
                }
            }
        }
        vstd::seq_lib::lemma_multiset_commutative(seq![s[0]], tail);
        vstd::seq_lib::lemma_multiset_commutative(seq![s[0]], rest);
        assert(s =~= seq![s[0]] + rest);
    }
}

/// Ordering a list keeps its values and makes them rise.
pub proof fn law_ordered_sorts(s: Seq<int>)
    ensures
        rising(ordered(s)),
        ordered(s).to_multiset() =~= s.to_multiset(),
    decreases s.len(),
{
    broadcast use vstd::seq_lib::group_to_multiset_ensures;

    if s.len() > 0 {
        law_ordered_sorts(s.drop_last());
        lemma_inserted_rising(ordered(s.drop_last()), s.last());
        assert(s =~= s.drop_last().push(s.last()));
    }
}

/// The levels in rising order.
fn sort_levels(levels: &Vec<Decimal>) -> (r: Vec<Decimal>)
    ensures
        values(r@) == ordered(values(levels@)),
{
    let mut out: Vec<Decimal> = Vec::new();
    let mut i: usize = 0;
    let ghost all = values(levels@);
    assert(values(out@) =~= ordered(all.take(0)));
    while i < levels.len()
        invariant
            i <= levels.len(),
            all == values(levels@),
            values(out@) == ordered(all.take(i as int)),
        decreases levels.len() - i,
    {
        let level = levels[i];
        let ghost before = out@;
        let mut j: usize = 0;
        while j < out.len() && !(out[j] > level)
            invariant
                j <= out.len(),
                out@ == before,
                forall|k: int| 0 <= k < j ==> #[trigger] values(before)[k] <= level@,
            decreases out.len() - j,
        {
            assert(values(before)[j as int] == out@[j as int]@);
            j = j + 1;
        }
        proof {
            if j < before.len() {
                assert(values(before)[j as int] == before[j as int]@);
            }
            lemma_inserted_at(values(before), level@, j as int);
            assert(all.take(i + 1).drop_last() =~= all.take(i as int));
            assert(all.take(i + 1).last() == level@);
        }
        out.insert(j, level);
        assert(values(out@) =~= values(before).insert(j as int, level@));
        i = i + 1;
    }
    assert(all.take(i as int) =~= all);
    out
}

/// The nearest level below a price.
pub open spec fn nearest_below(levels: Seq<Decimal>, price: int) -> Option<int>
    decreases levels.len(),
{
    if levels.len() == 0 {
        None
    } else {
        let rest = nearest_below(levels.drop_last(), price);
        let level = levels.last()@;
        if level < price && (rest is None || level >= rest->0) {
            Some(level)
        } else {
            rest
        }
    }
}

/// The nearest level above a price.
pub open spec fn nearest_above(levels: Seq<Decimal>, price: int) -> Option<int>
    decreases levels.len(),
{
    if levels.len() == 0 {
        None
    } else {
        let rest = nearest_above(levels.drop_last(), price);
        let level = levels.last()@;
        if level > price && (rest is None || level < rest->0) {
            Some(level)
        } else {
            rest
        }
    }
}

/// The value of an optional decimal.
pub open spec fn value_of(d: Option<Decimal>) -> Option<int> {
    match d {
        Some(d) => Some(d@),
        None => None,
    }
}

fn find_below(levels: &Vec<Decimal>, price: Decimal) -> (r: Option<Decimal>)
    ensures
        value_of(r) == nearest_below(levels@, price@),
{
    let mut best: Option<Decimal> = None;
    let mut i: usize = 0;
    assert(levels@.take(0) =~= Seq::<Decimal>::empty());
    while i < levels.len()
        invariant
            i <= levels.len(),
            value_of(best) == nearest_below(levels@.take(i as int), price@),
        decreases levels.len() - i,
    {
        assert(levels@.take(i + 1).drop_last() =~= levels@.take(i as int));
        let level = levels[i];
        if level < price {
            let better = match best {
                Some(b) => level >= b,
                None => true,
            };
            if better {
                best = Some(level);
            }
        }
        i = i + 1;
    }
    assert(levels@.take(i as int) =~= levels@);
    best
}

fn find_above(levels: &Vec<Decimal>, price: Decimal) -> (r: Option<Decimal>)
    ensures
        value_of(r) == nearest_above(levels@, price@),
{
    let mut best: Option<Decimal> = None;
    let mut i: usize = 0;
    assert(levels@.take(0) =~= Seq::<Decimal>::empty());
    while i < levels.len()
        invariant
            i <= levels.len(),
            value_of(best) == nearest_above(levels@.take(i as int), price@),
        decreases levels.len() - i,
    {
        assert(levels@.take(i + 1).drop_last() =~= levels@.take(i as int));
        let level = levels[i];
        if level > price {
            let better = match best {
                Some(b) => level < b,
                None => true,
            };
            if better {
                best = Some(level);
            }
        }
        i = i + 1;
    }
    assert(levels@.take(i as int) =~= levels@);
    best
}

/// Highs of a list of bars.
pub open spec fn bar_highs(bars: Seq<Bar>) -> Seq<Decimal> {
    bars.map_values(|b: Bar| b.high)
}

/// Lows of a list of bars.
pub open spec fn bar_lows(bars: Seq<Bar>) -> Seq<Decimal> {
    bars.map_values(|b: Bar| b.low)
}

/// Highest less lowest price of the bars.
pub open spec fn bar_range(bars: Seq<Bar>) -> Option<int> {
    difference(Some(highest(bar_highs(bars))), Some(lowest(bar_lows(bars))))
}

/// How far the last close is from the first.
pub open spec fn bar_drift(bars: Seq<Bar>) -> Option<int> {
    magnitude(difference(num(bars.last().close), num(bars[0].close)))
}

/// Drift over range; zero without a range.
pub open spec fn drift_ratio(bars: Seq<Bar>) -> Option<int> {
    if bar_range(bars)->0 > 0 {
        divided(bar_drift(bars), bar_range(bars))
    } else {
        Some(0)
    }
}

/// Place of a price between two levels, from 0 to 1.
pub open spec fn place_between(price: Decimal, support: Option<int>, resistance: Option<int>)
    -> Option<int> {
    divided(difference(num(price), support), difference(resistance, support))
}

/// Whether there are two levels, the resistance above the support.
pub open spec fn has_span(support: Option<int>, resistance: Option<int>) -> bool {
    support is Some && resistance is Some && resistance->0 > support->0
}

/// How much a nearby support speaks for a trade, in tenths of the proximity.
pub open spec fn support_tenths(above: bool, favor_up: bool, regime: Regime) -> int {
    if above {
        if favor_up { 8 } else { -9 }
    } else if regime is Trending {
        if favor_up { -5 } else { 6 }
    } else {
        if favor_up { 4 } else { -3 }
    }
}

/// How much a nearby resistance speaks for a trade, in tenths of the proximity.
pub open spec fn resistance_tenths(below: bool, favor_up: bool, regime: Regime) -> int {
    if below {
        if favor_up { -9 } else { 8 }
    } else if regime is Trending {
        if favor_up { 6 } else { -5 }
    } else {
        if favor_up { -3 } else { 4 }
    }
}

/// Proximity to a level at a distance: 1 at the level, 0 at the threshold.
pub open spec fn proximity(distance: Option<int>, threshold: Option<int>) -> Option<int> {
    difference(lit(1, 0), divided(magnitude(distance), threshold))
}

/// A number times a signed number of tenths.
pub open spec fn in_tenths(x: Option<int>, tenths: int) -> Option<int> {
    if tenths >= 0 {
        product(x, lit(tenths, 1))
    } else {
        product(negated(x), lit(-tenths, 1))
    }
}

/// How much the place between the levels speaks for a trade: only near the ends of the range, for
/// a trade back into it.
pub open spec fn range_factor(position: int, favor_up: bool) -> Option<int> {
    if position > units(3, 1) && position < units(7, 1) {
        Some(0)
    } else if position >= units(7, 1) {
        in_tenths(
            quotient(difference(Some(position), lit(7, 1)), lit(3, 1)),
            if favor_up { -3 } else { 3 },
        )
    } else {
        in_tenths(
            quotient(difference(lit(3, 1), Some(position)), lit(3, 1)),
            if favor_up { 3 } else { -3 },
        )
    }
}

impl PivotConfig {
    /// Distance within which a level is near.
    pub open spec fn near(self, atr: int) -> Option<int> {
        product(num(self.near_pivot_atr), Some(atr))
    }

    /// How much the levels around a price speak for a trade: by a near support, else by a near
    /// resistance, else by the place between them. Nothing if the arithmetic overflows.
    pub open spec fn factor(
        self,
        price: Decimal,
        support: Option<int>,
        resistance: Option<int>,
        atr: int,
        favor_up: bool,
        regime: Regime,
    ) -> Option<int> {
        let near = self.near(atr);
        let to_support = difference(num(price), support);
        let to_resistance = difference(resistance, num(price));
        if near is None || (support is Some && to_support is None) || (resistance is Some
            && to_resistance is None) {
            None
        } else if support is Some && magnitude(to_support)->0 < near->0 {
            in_tenths(
                proximity(to_support, near),
                support_tenths(to_support->0 >= 0, favor_up, regime),
            )
        } else if resistance is Some && magnitude(to_resistance)->0 < near->0 {
            in_tenths(
                proximity(to_resistance, near),
                resistance_tenths(to_resistance->0 >= 0, favor_up, regime),
            )
        } else if has_span(support, resistance) {
            match place_between(price, support, resistance) {
                Some(place) => range_factor(
                    clamped(Some(place), Some(0), lit(1, 0))->0,
                    favor_up,
                ),
                None => None,
            }
        } else {
            Some(0)
        }
    }

    /// Factor for confidence before it is brought into its range.
    pub open spec fn raw_multiplier(self, raw_factor: int, regime: Regime) -> Option<int> {
        sum(
            lit(1, 0),
            quotient(
                product(
                    product(
                        Some(raw_factor),
                        num(
                            if raw_factor >= 0 {
                                self.max_boost
                            } else {
                                self.max_penalty
                            },
                        ),
                    ),
                    Some(regime.weight()),
                ),
                lit(4, 1),
            ),
        )
    }

    /// Regime of a list of bars: not known before 20 of them; the last 30 count.
    pub open spec fn regime_of(self, bars: Seq<Bar>, atr: int) -> Regime {
        let recent = last_of(bars, 30);
        let ratio = drift_ratio(recent)->0;
        if bars.len() < 20 {
            Regime::Unknown
        } else if divided(bar_range(recent), Some(atr))->0 < self.range_atr_threshold@ && ratio
            < units(5, 1) {
            Regime::Ranging
        } else if ratio > units(6, 1) {
            Regime::Trending
        } else {
            Regime::Unknown
        }
    }

    /// Whether the arithmetic of the regime stays within range.
    pub open spec fn regime_fits(self, bars: Seq<Bar>, atr: int) -> bool {
        let recent = last_of(bars, 30);
        bars.len() >= 20 ==> {
            &&& bar_range(recent) is Some
            &&& bar_drift(recent) is Some
            &&& divided(bar_range(recent), Some(atr)) is Some
            &&& drift_ratio(recent) is Some
        }
    }
}

/// Tracks bars and levels of all assets.
#[derive(Debug)]
pub struct PivotTracker {
    /// One-minute bars, the oldest first.
    pub history: ByAsset<VecDeque<Bar>>,
    pub atr: ByAsset<Option<Decimal>>,
    pub support_levels: ByAsset<Vec<Decimal>>,
    pub resistance_levels: ByAsset<Vec<Decimal>>,
    pub config: PivotConfig,
}

impl Default for PivotTracker {
    fn default() -> (r: PivotTracker)
        ensures
            r.is_empty(),
            r.config.lookback_bars == 60,
            r.config.near_pivot_atr@ == units(5, 1),
            r.config.max_boost@ == units(40, 2),
            r.config.max_penalty@ == units(50, 2),
            r.config.range_atr_threshold@ == units(2, 0),
    {
        PivotTracker::new(PivotConfig::default())
    }
}

impl PivotTracker {
    /// Whether nothing was recorded.
    pub open spec fn is_empty(self) -> bool {
        &&& forall|asset: CryptoAsset| (#[trigger] self.history.at(asset))@.len() == 0
        &&& forall|asset: CryptoAsset| (#[trigger] self.atr.at(asset)) is None
        &&& forall|asset: CryptoAsset| (#[trigger] self.support_levels.at(asset))@.len() == 0
        &&& forall|asset: CryptoAsset| (#[trigger] self.resistance_levels.at(asset))@.len() == 0
    }

    /// A tracker without bars.
    pub fn new(config: PivotConfig) -> (r: PivotTracker)
        ensures
            r.is_empty(),
            r.config == config,
    {
        PivotTracker {
            history: ByAsset {
                btc: VecDeque::new(),
                eth: VecDeque::new(),
                sol: VecDeque::new(),
                xrp: VecDeque::new(),
            },
            atr: ByAsset { btc: None, eth: None, sol: None, xrp: None },
            support_levels: ByAsset {
                btc: Vec::new(),
                eth: Vec::new(),
                sol: Vec::new(),
                xrp: Vec::new(),
            },
            resistance_levels: ByAsset {
                btc: Vec::new(),
                eth: Vec::new(),
                sol: Vec::new(),
                xrp: Vec::new(),
            },
            config,
        }
    }

    /// Sets the average true range of an asset.
    pub fn set_atr(&mut self, asset: CryptoAsset, atr: Decimal)
        ensures
            *final(self) == (PivotTracker {
                atr: old(self).atr.with(asset, Some(atr)),
                ..*old(self)
            }),
    {
        self.atr.set(asset, Some(atr));
    }

    /// Average true range of an asset, or an estimate of it; at least 0.01.
    pub open spec fn atr_of(self, asset: CryptoAsset) -> int {
        let known = match self.atr.at(asset) {
            Some(atr) => atr@,
            None => asset.spec_estimated_atr_15m(),
        };
        if known < units(1, 2) { units(1, 2) } else { known }
    }

    /// Average true range of an asset, or an estimate of it; at least 0.01.
    pub fn get_atr(&self, asset: CryptoAsset) -> (r: Decimal)
        ensures
            r@ == self.atr_of(asset),
    {
        let known = match self.atr.get(asset) {
            Some(atr) => *atr,
            None => asset.estimated_atr_15m(),
        };
        known.max(Decimal::new(1, 2))
    }

    /// Bars of an asset with one more price.
    pub open spec fn bars_after(self, asset: CryptoAsset, price: Decimal, timestamp: i64) -> Seq<Bar> {
        bars_with(
            self.history.at(asset)@,
            price,
            timestamp,
            self.config.lookback_bars as int,
        )
    }

    /// Whether a price leads to new levels: with every fifth bar, from the seventh on.
    pub open spec fn renews(self, asset: CryptoAsset, price: Decimal, timestamp: i64) -> bool {
        let bars = self.bars_after(asset, price, timestamp);
        &&& !continues_bar(self.history.at(asset)@, timestamp)
        &&& bars.len() % 5 == 0
        &&& bars.len() >= 7
    }

    /// Whether the levels of a list of bars can be found within range.
    pub open spec fn levels_fit(bars: Seq<Bar>, atr: int) -> bool {
        &&& clustered(values(swing_lows(bars, bars.len() - 2)), atr) is Some
        &&& clustered(values(swing_highs(bars, bars.len() - 2)), atr) is Some
    }

    /// Whether `after` is this tracker with a price recorded.
    pub open spec fn recorded(
        self,
        asset: CryptoAsset,
        price: Decimal,
        timestamp: i64,
        after: PivotTracker,
    ) -> bool {
        &&& after.config == self.config
        &&& after.atr == self.atr
        &&& after.history == self.history.with(asset, after.history.at(asset))
        &&& after.history.at(asset)@ == self.bars_after(asset, price, timestamp)
        &&& if self.renews(asset, price, timestamp) {
            after.renewed_from(self, asset)
        } else {
            &&& after.support_levels == self.support_levels
            &&& after.resistance_levels == self.resistance_levels
        }
    }

    /// Records a price: it joins the bar of its minute or begins a new one, and every fifth bar
    /// the levels are found anew.
    pub fn record_price(&mut self, asset: CryptoAsset, price: Decimal, timestamp: i64)
        requires
            old(self).renews(asset, price, timestamp) ==> Self::levels_fit(
                old(self).bars_after(asset, price, timestamp),
                old(self).atr_of(asset),
            ),
        ensures
            old(self).recorded(asset, price, timestamp, *final(self)),
    {
        let ghost bars = self.history.at(asset)@;
        let minute: i64 = to_minute(timestamp);
        let lookback: usize = self.config.lookback_bars;
        let history = self.history.get_mut(asset);
        let n: usize = history.len();
        if n > 0 {
            let last = history[n - 1];
            if to_minute(last.timestamp) == minute {
                let dropped = history.pop_back();
                history.push_back(
                    Bar {
                        high: last.high.max(price),
                        low: last.low.min(price),
                        close: price,
                        timestamp: last.timestamp,
                    },
                );
                return;
            }
        }
        history.push_back(Bar { high: price, low: price, close: price, timestamp });
        let ghost all = history@;
        let ghost mut dropped: int = 0;
        assert(all.skip(0) =~= all);
        while history.len() > lookback
            invariant
                0 <= dropped <= all.len(),
                history@ == all.skip(dropped),
                dropped > 0 ==> history@.len() >= lookback,
            decreases history@.len(),
        {
            let oldest = history.pop_front();
            proof {
                dropped = dropped + 1;
                assert(history@ =~= all.skip(dropped));
            }
        }
        assert(history@ =~= last_of(all, lookback as int));
        let len: usize = history.len();
        if len % 5 == 0 {
            self.update_pivots(asset);
        }
    }

    /// Whether the levels of an asset follow from its bars, all else being as in `before`.
    pub open spec fn renewed_from(self, before: PivotTracker, asset: CryptoAsset) -> bool {
        let bars = self.history.at(asset)@;
        &&& self.support_levels == before.support_levels.with(
            asset,
            self.support_levels.at(asset),
        )
        &&& self.resistance_levels == before.resistance_levels.with(
            asset,
            self.resistance_levels.at(asset),
        )
        &&& Some(values(self.support_levels.at(asset)@)) == clustered(
            values(swing_lows(bars, bars.len() - 2)),
            before.atr_of(asset),
        )
        &&& Some(values(self.resistance_levels.at(asset)@)) == clustered(
            values(swing_highs(bars, bars.len() - 2)),
            before.atr_of(asset),
        )
    }

    /// Finds the swings of an asset, from seven bars on, and clusters them into levels.
    fn update_pivots(&mut self, asset: CryptoAsset)
        requires
            old(self).history.at(asset)@.len() >= 7 ==> Self::levels_fit(
                old(self).history.at(asset)@,
                old(self).atr_of(asset),
            ),
        ensures
            final(self).config == old(self).config,
            final(self).atr == old(self).atr,
            final(self).history == old(self).history,
            if old(self).history.at(asset)@.len() >= 7 {
                final(self).renewed_from(*old(self), asset)
            } else {
                &&& final(self).support_levels == old(self).support_levels
                &&& final(self).resistance_levels == old(self).resistance_levels
            },
    {
        let bars = self.history.get(asset);
        let n: usize = bars.len();
        if n < 7 {
            return;
        }
        let mut supports: Vec<Decimal> = Vec::new();
        let mut resistances: Vec<Decimal> = Vec::new();
        let mut i: usize = 2;
        while i < n - 2
            invariant
                n == bars@.len(),
                n >= 7,
                2 <= i <= n - 2,
                supports@ == swing_lows(bars@, i as int),
                resistances@ == swing_highs(bars@, i as int),
            decreases n - i,
        {
            let curr = bars[i];
            if curr.high > bars[i - 1].high && curr.high > bars[i - 2].high && curr.high
                > bars[i + 1].high && curr.high > bars[i + 2].high {
                resistances.push(curr.high);
            }
            if curr.low < bars[i - 1].low && curr.low < bars[i - 2].low && curr.low
                < bars[i + 1].low && curr.low < bars[i + 2].low {
                supports.push(curr.low);
            }
            i = i + 1;
        }
        let atr = self.get_atr(asset);
        let supports = Self::cluster_levels(supports, atr);
        let resistances = Self::cluster_levels(resistances, atr);
        self.support_levels.set(asset, supports);
        self.resistance_levels.set(asset, resistances);
    }

    /// The levels that a list of swings comes down to: neighbours closer than 0.3 average true
    /// ranges are merged into their mean, and the five highest means are kept.
    pub fn cluster_levels(levels: Vec<Decimal>, atr: Decimal) -> (r: Vec<Decimal>)
        requires
            clustered(values(levels@), atr@) is Some,
        ensures
            Some(values(r@)) == clustered(values(levels@), atr@),
    {
        if levels.len() == 0 {
            assert(values(levels@) =~= levels@.map_values(|d: Decimal| d@));
            return levels;
        }
        let sorted = sort_levels(&levels);
        proof {
            lemma_ordered_len(values(levels@));
        }
        let ghost line = values(sorted@);
        let threshold = atr.times(Decimal::new(3, 1));
        let mut means: Vec<Decimal> = Vec::new();
        assert(line[0] == sorted@[0]@);
        let mut cluster_sum = sorted[0];
        let mut cluster_count: u64 = 1;
        let mut i: usize = 1;
        let ghost goal = clusters_from(line, 1, Some(line[0]), 1, threshold@);
        assert(goal is Some);
        assert(goal->0 =~= values(means@) + goal->0);
        while i < sorted.len()
            invariant
                line == values(sorted@),
                1 <= i <= sorted@.len(),
                1 <= cluster_count <= i,
                goal is Some,
                clusters_from(
                    line,
                    i as int,
                    Some(cluster_sum@),
                    cluster_count as int,
                    threshold@,
                ) is Some,
                goal->0 == values(means@) + clusters_from(
                    line,
                    i as int,
                    Some(cluster_sum@),
                    cluster_count as int,
                    threshold@,
                )->0,
            decreases sorted@.len() - i,
        {
            assert(line[i as int] == sorted@[i as int]@);
            assert(line[i - 1] == sorted@[i - 1]@);
            let gap = sorted[i].minus(sorted[i - 1]);
            if gap < threshold {
                proof {
                    if sum(Some(cluster_sum@), Some(line[i as int])) is None {
                        lemma_no_clusters(line, i + 1, cluster_count + 1, threshold@);
                    }
                }
                cluster_sum = cluster_sum.plus(sorted[i]);
                cluster_count = cluster_count + 1;
            } else {
                let mean = cluster_sum.over(Decimal::from_u64(cluster_count));
                let ghost before = values(means@);
                means.push(mean);
                proof {
                    let rest = clusters_from(line, i + 1, Some(line[i as int]), 1, threshold@)->0;
                    assert(values(means@) =~= before.push(mean@));
                    assert(before + (seq![mean@] + rest) =~= before.push(mean@) + rest);
                }
                cluster_sum = sorted[i];
                cluster_count = 1;
            }
            i = i + 1;
        }
        let mean = cluster_sum.over(Decimal::from_u64(cluster_count));
        let ghost before = values(means@);
        means.push(mean);
        assert(values(means@) =~= before + seq![mean@]);
        let n: usize = means.len();
        if n > 5 {
            let ghost all = means@;
            let kept = means.split_off(n - 5);
            assert(kept@ =~= all.skip(n - 5));
            assert(values(kept@) =~= last_of(values(all), 5));
            kept
        } else {
            means
        }
    }

    /// Regime of an asset.
    pub fn detect_regime(&self, asset: CryptoAsset) -> (r: Regime)
        requires
            self.config.regime_fits(self.history.at(asset)@, self.atr_of(asset)),
        ensures
            r == self.config.regime_of(self.history.at(asset)@, self.atr_of(asset)),
    {
        let bars = self.history.get(asset);
        let n: usize = bars.len();
        let atr = self.get_atr(asset);
        if n < 20 {
            return Regime::Unknown;
        }
        let start: usize = if n > 30 {
            n - 30
        } else {
            0
        };
        let ghost recent = last_of(bars@, 30);
        let mut high = bars[start].high;
        let mut low = bars[start].low;
        let mut i: usize = start + 1;
        proof {
            assert(recent =~= bars@.skip(start as int));
            assert(bar_highs(recent).take(1) =~= seq![high]);
            assert(bar_lows(recent).take(1) =~= seq![low]);
        }
        while i < n
            invariant
                n == bars@.len(),
                start < i <= n,
                recent == bars@.skip(start as int),
                high@ == highest(bar_highs(recent).take(i - start)),
                low@ == lowest(bar_lows(recent).take(i - start)),
            decreases n - i,
        {
            let bar = bars[i];
            proof {
                let k = i - start;
                assert(bar_highs(recent).take(k + 1).drop_last() =~= bar_highs(recent).take(k));
                assert(bar_lows(recent).take(k + 1).drop_last() =~= bar_lows(recent).take(k));
                assert(bar_highs(recent).take(k + 1).last() == bar.high);
                assert(bar_lows(recent).take(k + 1).last() == bar.low);
            }
            if bar.high >= high {
                high = bar.high;
            }
            if bar.low < low {
                low = bar.low;
            }
            i = i + 1;
        }
        proof {
            assert(bar_highs(recent).take(n - start) =~= bar_highs(recent));
            assert(bar_lows(recent).take(n - start) =~= bar_lows(recent));
            assert(recent.last() == bars@[n - 1]);
            assert(recent[0] == bars@[start as int]);
        }
        let range = high.minus(low);
        let direction = bars[n - 1].close.minus(bars[start].close).abs();
        let range_atr = range.over(atr);
        let directional_ratio = if range > Decimal::zero() {
            direction.over(range)
        } else {
            Decimal::zero()
        };
        if range_atr < self.config.range_atr_threshold && directional_ratio < Decimal::new(
            5,
            1,
        ) {
            Regime::Ranging
        } else if directional_ratio > Decimal::new(6, 1) {
            Regime::Trending
        } else {
            Regime::Unknown
        }
    }

    /// Whether the arithmetic of `calculate_confidence` stays within range.
    pub open spec fn confidence_fits(self, asset: CryptoAsset, price: Decimal, favor_up: bool) -> bool {
        let support = nearest_below(self.support_levels.at(asset)@, price@);
        let resistance = nearest_above(self.resistance_levels.at(asset)@, price@);
        let regime = self.config.regime_of(self.history.at(asset)@, self.atr_of(asset));
        let raw = self.config.factor(
            price,
            support,
            resistance,
            self.atr_of(asset),
            favor_up,
            regime,
        );
        &&& self.config.regime_fits(self.history.at(asset)@, self.atr_of(asset))
        &&& has_span(support, resistance) ==> place_between(price, support, resistance) is Some
        &&& raw is Some
        &&& self.config.raw_multiplier(raw->0, regime) is Some
    }

    /// Whether `c` is the adjustment for a trade at a price.
    pub open spec fn adjusts(
        self,
        asset: CryptoAsset,
        price: Decimal,
        favor_up: bool,
        c: PivotConfidence,
    ) -> bool {
        let support = nearest_below(self.support_levels.at(asset)@, price@);
        let resistance = nearest_above(self.resistance_levels.at(asset)@, price@);
        &&& c.regime == self.config.regime_of(self.history.at(asset)@, self.atr_of(asset))
        &&& value_of(c.support) == support
        &&& value_of(c.resistance) == resistance
        &&& value_of(c.range_position) == if has_span(support, resistance) {
            place_between(price, support, resistance)
        } else {
            None
        }
        &&& Some(c.raw_factor@) == self.config.factor(
            price,
            support,
            resistance,
            self.atr_of(asset),
            favor_up,
            c.regime,
        )
        &&& Some(c.multiplier@) == clamped(
            self.config.raw_multiplier(c.raw_factor@, c.regime),
            lit(3, 1),
            lit(15, 1),
        )
    }

    /// Adjustment of confidence for a trade at the price, up or down.
    pub fn calculate_confidence(&self, asset: CryptoAsset, current_price: Decimal, favor_up: bool)
        -> (r: PivotConfidence)
        requires
            self.confidence_fits(asset, current_price, favor_up),
        ensures
            self.adjusts(asset, current_price, favor_up, r),
            units(3, 1) <= r.multiplier@ <= units(15, 1),
    {
        let regime = self.detect_regime(asset);
        let atr = self.get_atr(asset);
        let weight = regime.pivot_weight();
        let support = find_below(self.support_levels.get(asset), current_price);
        let resistance = find_above(self.resistance_levels.get(asset), current_price);
        let range_position = match (support, resistance) {
            (Some(s), Some(r)) => if r > s {
                Some(current_price.minus(s).over(r.minus(s)))
            } else {
                None
            },
            _ => None,
        };
        let raw_factor = self.calc_raw_factor(
            current_price,
            support,
            resistance,
            atr,
            favor_up,
            regime,
        );
        let strength = if raw_factor >= Decimal::zero() {
            self.config.max_boost
        } else {
            self.config.max_penalty
        };
        let multiplier = Decimal::one().plus(
            raw_factor.times(strength).times(weight).over(Decimal::new(4, 1)),
        );
        PivotConfidence {
            regime,
            resistance,
            support,
            range_position,
            raw_factor,
            multiplier: multiplier.max(Decimal::new(3, 1)).min(Decimal::new(15, 1)),
        }
    }

    /// How much the levels around a price speak for a trade, from -1 to +1.
    pub fn calc_raw_factor(
        &self,
        price: Decimal,
        support: Option<Decimal>,
        resistance: Option<Decimal>,
        atr: Decimal,
        favor_up: bool,
        regime: Regime,
    ) -> (r: Decimal)
        requires
            self.config.factor(
                price,
                value_of(support),
                value_of(resistance),
                atr@,
                favor_up,
                regime,
            ) is Some,
        ensures
            Some(r@) == self.config.factor(
                price,
                value_of(support),
                value_of(resistance),
                atr@,
                favor_up,
                regime,
            ),
            -units(1, 0) <= r@ <= units(1, 0),
    {
        proof {
            lemma_factor_range(
                self.config,
                price,
                value_of(support),
                value_of(resistance),
                atr@,
                favor_up,
                regime,
            );
        }
        let near_threshold = self.config.near_pivot_atr.times(atr);
        let dist_to_support = match support {
            Some(s) => Some(price.minus(s)),
            None => None,
        };
        let dist_to_resistance = match resistance {
            Some(r) => Some(r.minus(price)),
            None => None,
        };
        if let Some(dist) = dist_to_support {
            if dist.abs() < near_threshold {
                let above = dist >= Decimal::zero();
                let tenths: i64 = if above {
                    if favor_up { 8 } else { -9 }
                } else if regime == Regime::Trending {
                    if favor_up { -5 } else { 6 }
                } else {
                    if favor_up { 4 } else { -3 }
                };
                return scale_proximity(dist, near_threshold, tenths);
            }
        }
        if let Some(dist) = dist_to_resistance {
            if dist.abs() < near_threshold {
                let below = dist >= Decimal::zero();
                let tenths: i64 = if below {
                    if favor_up { -9 } else { 8 }
                } else if regime == Regime::Trending {
                    if favor_up { 6 } else { -5 }
                } else {
                    if favor_up { -3 } else { 4 }
                };
                return scale_proximity(dist, near_threshold, tenths);
            }
        }
        match self.calc_range_position(price, support, resistance) {
            Some(pos) => {
                if pos > Decimal::new(3, 1) && pos < Decimal::new(7, 1) {
                    return Decimal::zero();
                }
                if pos >= Decimal::new(7, 1) {
                    let factor = pos.minus(Decimal::new(7, 1)).over(Decimal::new(3, 1));
                    return signed_tenths(factor, if favor_up { -3 } else { 3 });
                }
                let factor = Decimal::new(3, 1).minus(pos).over(Decimal::new(3, 1));
                signed_tenths(factor, if favor_up { 3 } else { -3 })
            },
            None => Decimal::zero(),
        }
    }

    /// Place of a price between two levels, from 0 to 1.
    pub fn calc_range_position(
        &self,
        price: Decimal,
        support: Option<Decimal>,
        resistance: Option<Decimal>,
    ) -> (r: Option<Decimal>)
        requires
            has_span(value_of(support), value_of(resistance)) ==> place_between(
                price,
                value_of(support),
                value_of(resistance),
            ) is Some,
        ensures
            match r {
                Some(place) => has_span(value_of(support), value_of(resistance)) && Some(place@)
                    == clamped(
                    place_between(price, value_of(support), value_of(resistance)),
                    Some(0),
                    lit(1, 0),
                ),
                None => !has_span(value_of(support), value_of(resistance)),
            },
    {
        match (support, resistance) {
            (Some(s), Some(r)) => if r > s {
                Some(price.minus(s).over(r.minus(s)).max(Decimal::zero()).min(Decimal::one()))
            } else {
                None
            },
            _ => None,
        }
    }

    /// Whether an asset has at least 15 bars.
    pub fn is_ready(&self, asset: CryptoAsset) -> (r: bool)
        ensures
            r == (self.history.at(asset)@.len() >= 15),
    {
        self.history.get(asset).len() >= 15
    }

    /// Adjustment for an upward trade at the price, in one line.
    pub fn status(&self, asset: CryptoAsset, price: Decimal) -> (r: String)
        requires
            self.confidence_fits(asset, price, true),
            ({
                let support = nearest_below(self.support_levels.at(asset)@, price@);
                let resistance = nearest_above(self.resistance_levels.at(asset)@, price@);
                has_span(support, resistance) ==> product(
                    place_between(price, support, resistance),
                    lit(100, 0),
                ) is Some
            }),
        ensures
            exists|c: PivotConfidence| #[trigger]
                self.adjusts(asset, price, true, c) && r@ == asset.spec_name() + ": "@
                    + c.regime.spec_name() + " S="@ + level_chars(value_of(c.support)) + " R="@
                    + level_chars(value_of(c.resistance)) + " pos="@ + fixed_chars(
                    percent_of(value_of(c.range_position))->0,
                    0,
                ) + "% mult="@ + fixed_chars(c.multiplier@, 2),
    {
        let c = self.calculate_confidence(asset, price, true);
        let percent = match c.range_position {
            Some(place) => {
                place.times(Decimal::new(100, 0))
            },
            None => {
                proof {
                    crate::decimal::lemma_lit_product(-1, 0, 100, 0);
                }
                Decimal::new(-1, 0).times(Decimal::new(100, 0))
            },
        };
        asset.name().to_owned().concat(": ").concat(c.regime.name()).concat(" S=").concat(
            level_text(c.support).as_str(),
        ).concat(" R=").concat(level_text(c.resistance).as_str()).concat(" pos=").concat(
            fixed_text(percent, 0).as_str(),
        ).concat("% mult=").concat(fixed_text(c.multiplier, 2).as_str())
    }
}

/// A place between two levels in percent; -100 where there is none.
pub open spec fn percent_of(place: Option<int>) -> Option<int> {
    if place is Some {
        product(place, lit(100, 0))
    } else {
        lit(-100, 0)
    }
}

/// A level without decimals, or a dash.
pub open spec fn level_chars(level: Option<int>) -> Seq<char> {
    match level {
        Some(level) => fixed_chars(level, 0),
        None => "-"@,
    }
}

fn level_text(level: Option<Decimal>) -> (r: String)
    ensures
        r@ == level_chars(value_of(level)),
{
    match level {
        Some(level) => fixed_text(level, 0),
        None => "-".to_owned(),
    }
}

proof fn lemma_no_clusters(levels: Seq<int>, i: int, count: int, threshold: int)
    ensures
        clusters_from(levels, i, None, count, threshold) is None,
    decreases levels.len() - i,
{
    if 0 < i < levels.len() {
        lemma_no_clusters(levels, i + 1, count + 1, threshold);
    }
}

/// A number times a signed number of tenths.
fn signed_tenths(x: Decimal, tenths: i64) -> (r: Decimal)
    requires
        -10 <= tenths <= 10,
        in_tenths(num(x), tenths as int) is Some,
    ensures
        Some(r@) == in_tenths(num(x), tenths as int),
{
    if tenths >= 0 {
        x.times(Decimal::new(tenths, 1))
    } else {
        x.neg().times(Decimal::new(-tenths, 1))
    }
}

/// Proximity to a level, times a signed number of tenths.
fn scale_proximity(distance: Decimal, threshold: Decimal, tenths: i64) -> (r: Decimal)
    requires
        -10 <= tenths <= 10,
        in_tenths(proximity(num(distance), num(threshold)), tenths as int) is Some,
    ensures
        Some(r@) == in_tenths(proximity(num(distance), num(threshold)), tenths as int),
{
    let near = Decimal::one().minus(distance.abs().over(threshold));
    signed_tenths(near, tenths)
}

/// Without a level that speaks for or against a trade, confidence is left as it is.
pub proof fn law_no_factor_no_change(config: PivotConfig, regime: Regime)
    ensures
        config.raw_multiplier(0, regime) == lit(1, 0),
{
    let p = crate::decimal::pow10(28);
    assert(0 * config.max_boost@ == 0);
    crate::decimal::lemma_exact(0, p, 0, 0);
    assert(0 * regime.weight() == 0);
    crate::decimal::lemma_exact(0 * p, units(4, 1), 0, 0);
    crate::decimal::lemma_lit_sum(1, 0, 0);
}

/// Proximity to a level within reach is not negative.
proof fn lemma_proximity_sign(distance: int, near: int)
    requires
        0 <= distance < near,
        proximity(Some(distance), Some(near)) is Some,
    ensures
        proximity(Some(distance), Some(near))->0 >= 0,
{
    let p = crate::decimal::pow10(28);
    assert(distance * p <= near * p && 0 <= distance * p) by (nonlinear_arith)
        requires
            0 <= distance < near,
            p > 0,
    ;
    assert(p == 1 * crate::decimal::pow10(28));
    assert(representable(p));
    lemma_at_most(distance * p, near, p);
    lemma_sign(units(1, 0) - divided(Some(distance), Some(near))->0, 1);
}

/// A number of tenths keeps or turns the sign.
proof fn lemma_tenths_sign(x: int, tenths: int)
    requires
        x >= 0,
        in_tenths(Some(x), tenths) is Some,
    ensures
        tenths >= 0 ==> in_tenths(Some(x), tenths)->0 >= 0,
        tenths < 0 ==> in_tenths(Some(x), tenths)->0 <= 0,
{
    let p = crate::decimal::pow10(28);
    let t = if tenths >= 0 { units(tenths, 1) } else { units(-tenths, 1) };
    assert(x * t >= 0 && -x * t <= 0) by (nonlinear_arith)
        requires
            x >= 0,
            t >= 0,
    ;
    if tenths >= 0 {
        lemma_sign(x * t, p);
    } else {
        lemma_sign(-x * t, p);
    }
}

/// A share from 0 to 1, times a number of tenths up to one whole, lies between -1 and 1.
proof fn lemma_tenths_range(x: int, tenths: int)
    requires
        0 <= x <= units(1, 0),
        -10 <= tenths <= 10,
        in_tenths(Some(x), tenths) is Some,
    ensures
        -units(1, 0) <= in_tenths(Some(x), tenths)->0 <= units(1, 0),
{
    let p = crate::decimal::pow10(28);
    let t = if tenths >= 0 { units(tenths, 1) } else { units(-tenths, 1) };
    assert(0 <= x * t <= p * p && -x * t == -(x * t)) by (nonlinear_arith)
        requires
            0 <= x <= p,
            0 <= t <= p,
    ;
    assert(p == 1 * crate::decimal::pow10(28));
    assert(representable(p));
    lemma_tenths_sign(x, tenths);
    if tenths >= 0 {
        lemma_at_most(x * t, p, p);
    } else {
        assert(-1 * p == -p);
        assert(p * (-1 * p) == -(p * p)) by (nonlinear_arith);
        crate::decimal::lemma_exact(-(p * p), p, -1, 28);
        assert(-(p * p) * p <= (-x * t) * p) by (nonlinear_arith)
            requires
                -x * t == -(x * t),
                x * t <= p * p,
                p > 0,
        ;
        crate::decimal::lemma_rounded_monotone(-(p * p), p, -x * t, p);
    }
}

/// Proximity to a level within reach lies between 0 and 1.
proof fn lemma_proximity_range(distance: int, near: int)
    requires
        -near < distance < near,
        proximity(Some(distance), Some(near)) is Some,
    ensures
        0 <= proximity(Some(distance), Some(near))->0 <= units(1, 0),
{
    let p = crate::decimal::pow10(28);
    let away = if distance < 0 { -distance } else { distance };
    assert(proximity(Some(distance), Some(near)) == proximity(Some(away), Some(near)));
    lemma_proximity_sign(away, near);
    assert(away * p >= 0) by (nonlinear_arith)
        requires
            away >= 0,
            p > 0,
    ;
    lemma_sign(away * p, near);
    assert(p == 1 * crate::decimal::pow10(28));
    assert(representable(p));
    let q = divided(Some(away), Some(near))->0;
    assert(away * p <= near * p) by (nonlinear_arith)
        requires
            away < near,
            p > 0,
    ;
    lemma_at_most(away * p, near, p);
    lemma_at_most(p - q, 1, p);
}

/// How far into an outer third a place lies, over the length of that third, lies between 0 and 1.
proof fn lemma_third_range(n: int)
    requires
        0 <= n <= units(3, 1),
    ensures
        quotient(rounded(n, 1), lit(3, 1)) is Some ==> 0 <= quotient(rounded(n, 1), lit(3, 1))->0
            <= units(1, 0),
{
    let p = crate::decimal::pow10(28);
    let third = units(3, 1);
    assert(third == 3 * crate::decimal::pow10(27));
    assert(representable(third));
    assert(p == 1 * crate::decimal::pow10(28));
    assert(representable(p));
    lemma_at_most(n, 1, third);
    let v = rounded(n, 1)->0;
    assert(0 <= v * p <= third * p) by (nonlinear_arith)
        requires
            0 <= v <= third,
            p > 0,
    ;
    lemma_at_most(v * p, third, p);
}

/// The factor for one direction lies between -1 and 1.
proof fn lemma_factor_range(
    config: PivotConfig,
    price: Decimal,
    support: Option<int>,
    resistance: Option<int>,
    atr: int,
    favor_up: bool,
    regime: Regime,
)
    requires
        config.factor(price, support, resistance, atr, favor_up, regime) is Some,
    ensures
        ({
            let f = config.factor(price, support, resistance, atr, favor_up, regime)->0;
            let g = config.factor(price, support, resistance, atr, !favor_up, regime);
            &&& -units(1, 0) <= f <= units(1, 0)
            &&& g is Some ==> (f >= 0 && g->0 <= 0) || (f <= 0 && g->0 >= 0)
        }),
{
    let near = config.near(atr);
    let to_support = difference(num(price), support);
    let to_resistance = difference(resistance, num(price));
    if support is Some && magnitude(to_support)->0 < near->0 {
        let x = proximity(to_support, near)->0;
        let above = to_support->0 >= 0;
        lemma_proximity_range(to_support->0, near->0);
        lemma_tenths_range(x, support_tenths(above, favor_up, regime));
        lemma_tenths_sign(x, support_tenths(above, favor_up, regime));
        if in_tenths(Some(x), support_tenths(above, !favor_up, regime)) is Some {
            lemma_tenths_sign(x, support_tenths(above, !favor_up, regime));
        }
    } else if resistance is Some && magnitude(to_resistance)->0 < near->0 {
        let x = proximity(to_resistance, near)->0;
        let below = to_resistance->0 >= 0;
        lemma_proximity_range(to_resistance->0, near->0);
        lemma_tenths_range(x, resistance_tenths(below, favor_up, regime));
        lemma_tenths_sign(x, resistance_tenths(below, favor_up, regime));
        if in_tenths(Some(x), resistance_tenths(below, !favor_up, regime)) is Some {
            lemma_tenths_sign(x, resistance_tenths(below, !favor_up, regime));
        }
    } else if has_span(support, resistance) {
        let place = clamped(place_between(price, support, resistance), Some(0), lit(1, 0))->0;
        let n = if place >= units(7, 1) { place - units(7, 1) } else { units(3, 1) - place };
        if !(place > units(3, 1) && place < units(7, 1)) {
            lemma_third_range(n);
            let x = quotient(rounded(n, 1), lit(3, 1))->0;
            lemma_tenths_range(x, if favor_up == (place >= units(7, 1)) { -3 } else { 3 });
            lemma_tenths_sign(x, if favor_up == (place >= units(7, 1)) { -3 } else { 3 });
            let other: int = if favor_up == (place >= units(7, 1)) { 3 } else { -3 };
            if in_tenths(Some(x), other) is Some {
                lemma_tenths_sign(x, other);
            }
        }
    }
}

/// The factor of the levels lies between -1 and 1 for either direction, and the two directions have
/// opposite signs: levels never speak for both, nor against both. Without levels it is zero.
pub proof fn law_factor_is_bounded(
    config: PivotConfig,
    price: Decimal,
    support: Option<int>,
    resistance: Option<int>,
    atr: int,
    regime: Regime,
)
    requires
        config.factor(price, support, resistance, atr, true, regime) is Some,
        config.factor(price, support, resistance, atr, false, regime) is Some,
    ensures
        ({
            let up = config.factor(price, support, resistance, atr, true, regime)->0;
            let down = config.factor(price, support, resistance, atr, false, regime)->0;
            &&& -units(1, 0) <= up <= units(1, 0)
            &&& -units(1, 0) <= down <= units(1, 0)
            &&& (up >= 0 && down <= 0) || (up <= 0 && down >= 0)
            &&& up * down <= 0
            &&& support is None && resistance is None ==> up == 0 && down == 0
        }),
{
    let up = config.factor(price, support, resistance, atr, true, regime)->0;
    let down = config.factor(price, support, resistance, atr, false, regime)->0;
    lemma_factor_range(config, price, support, resistance, atr, true, regime);
    lemma_factor_range(config, price, support, resistance, atr, false, regime);
    assert(up * down <= 0) by (nonlinear_arith)
        requires
            (up >= 0 && down <= 0) || (up <= 0 && down >= 0),
    ;
}

/// A support just below the price speaks for a trade up and against a trade down.
pub proof fn law_support_holds(
    config: PivotConfig,
    price: Decimal,
    support: int,
    resistance: Option<int>,
    atr: int,
    favor_up: bool,
    regime: Regime,
)
    requires
        config.factor(price, Some(support), resistance, atr, favor_up, regime) is Some,
        0 <= difference(num(price), Some(support))->0 < config.near(atr)->0,
    ensures
        favor_up ==> config.factor(price, Some(support), resistance, atr, favor_up, regime)->0 >= 0,
        !favor_up ==> config.factor(price, Some(support), resistance, atr, favor_up, regime)->0
            <= 0,
{
    let distance = difference(num(price), Some(support))->0;
    let near = config.near(atr)->0;
    lemma_proximity_sign(distance, near);
    lemma_tenths_sign(
        proximity(Some(distance), Some(near))->0,
        support_tenths(true, favor_up, regime),
    );
}

/// A resistance just above the price, with no support as near, speaks for a trade down and against
/// a trade up.
pub proof fn law_resistance_holds(
    config: PivotConfig,
    price: Decimal,
    support: Option<int>,
    resistance: int,
    atr: int,
    favor_up: bool,
    regime: Regime,
)
    requires
        config.factor(price, support, Some(resistance), atr, favor_up, regime) is Some,
        support is Some ==> magnitude(difference(num(price), support))->0 >= config.near(atr)->0,
        0 <= difference(Some(resistance), num(price))->0 < config.near(atr)->0,
    ensures
        favor_up ==> config.factor(price, support, Some(resistance), atr, favor_up, regime)->0 <= 0,
        !favor_up ==> config.factor(price, support, Some(resistance), atr, favor_up, regime)->0
            >= 0,
{
    let distance = difference(Some(resistance), num(price))->0;
    let near = config.near(atr)->0;
    lemma_proximity_sign(distance, near);
    lemma_tenths_sign(
        proximity(Some(distance), Some(near))->0,
        resistance_tenths(true, favor_up, regime),
    );
}

/// What the levels speak for raises confidence, what they speak against lowers it, and the more so
/// the more the regime lets them matter.
pub proof fn law_factor_moves_confidence(
    config: PivotConfig,
    raw_factor: int,
    less: Regime,
    more: Regime,
)
    requires
        config.max_boost@ >= 0,
        config.max_penalty@ >= 0,
        less.weight() <= more.weight(),
        config.raw_multiplier(raw_factor, less) is Some,
        config.raw_multiplier(raw_factor, more) is Some,
    ensures
        raw_factor >= 0 ==> units(1, 0) <= config.raw_multiplier(raw_factor, less)->0
            <= config.raw_multiplier(raw_factor, more)->0,
        raw_factor <= 0 ==> units(1, 0) >= config.raw_multiplier(raw_factor, less)->0
            >= config.raw_multiplier(raw_factor, more)->0,
{
    let p = crate::decimal::pow10(28);
    let one = units(1, 0);
    let strength = if raw_factor >= 0 { config.max_boost@ } else { config.max_penalty@ };
    let x = product(Some(raw_factor), Some(strength))->0;
    assert((raw_factor >= 0 ==> raw_factor * strength >= 0) && (raw_factor <= 0 ==> raw_factor
        * strength <= 0)) by (nonlinear_arith)
        requires
            strength >= 0,
    ;
    lemma_sign(raw_factor * strength, p);
    let v = less.weight();
    let w = more.weight();
    assert((x >= 0 ==> 0 <= x * v <= x * w) && (x <= 0 ==> x * w <= x * v <= 0)) by (nonlinear_arith)
        requires
            0 <= v <= w,
    ;
    let a = product(Some(x), Some(v))->0;
    let b = product(Some(x), Some(w))->0;
    lemma_sign(x * v, p);
    lemma_sign(x * w, p);
    if x >= 0 {
        assert((x * v) * p <= (x * w) * p) by (nonlinear_arith)
            requires
                x * v <= x * w,
                p > 0,
        ;
        lemma_rounded_monotone(x * v, p, x * w, p);
    }
    if x <= 0 {
        assert((x * w) * p <= (x * v) * p) by (nonlinear_arith)
            requires
                x * w <= x * v,
                p > 0,
        ;
        lemma_rounded_monotone(x * w, p, x * v, p);
    }
    let fourth = units(4, 1);
    let c = quotient(Some(a), Some(fourth))->0;
    let d = quotient(Some(b), Some(fourth))->0;
    assert((a >= 0 ==> a * p >= 0) && (a <= 0 ==> a * p <= 0)) by (nonlinear_arith)
        requires
            p > 0,
    ;
    lemma_sign(a * p, fourth);
    if a <= b {
        lemma_quotient_monotone(a, b, fourth);
    }
    if b <= a {
        lemma_quotient_monotone(b, a, fourth);
    }
    assert(one == 1 * crate::decimal::pow10(28));
    assert(representable(one));
    lemma_unrounded(one);
    if c >= 0 {
        lemma_rounded_monotone(one, 1, one + c, 1);
    }
    if c <= 0 {
        lemma_rounded_monotone(one + c, 1, one, 1);
    }
    if c <= d {
        lemma_sum_monotone(one, c, d);
    }
    if d <= c {
        lemma_sum_monotone(one, d, c);
    }
}

/// The nearest support is one of the levels below the price, and no such level is nearer.
pub proof fn law_support_is_nearest(levels: Seq<Decimal>, price: int)
    ensures
        match nearest_below(levels, price) {
            Some(v) => {
                &&& v < price
                &&& exists|i: int| 0 <= i < levels.len() && (#[trigger] levels[i])@ == v
                &&& forall|i: int|
                    0 <= i < levels.len() && (#[trigger] levels[i])@ < price ==> levels[i]@ <= v
            },
            None => forall|i: int| 0 <= i < levels.len() ==> (#[trigger] levels[i])@ >= price,
        },
    decreases levels.len(),
{
    if levels.len() > 0 {
        let rest = levels.drop_last();
        law_support_is_nearest(rest, price);
        let last = levels.len() - 1;
        match nearest_below(rest, price) {
            Some(v) => {
                let i = choose|i: int| 0 <= i < rest.len() && (#[trigger] rest[i])@ == v;
                assert(levels[i]@ == v);
                assert(levels[last]@ == levels.last()@);
                assert forall|i: int|
                    0 <= i < levels.len() && (#[trigger] levels[i])@ < price implies levels[i]@
                    <= nearest_below(levels, price)->0 by {
                    if i < last {
                        assert(rest[i]@ <= v);
                    }
                }
            },
            None => {
                assert(levels[last]@ == levels.last()@);
                assert forall|i: int| 0 <= i < last implies (#[trigger] levels[i])@ >= price by {
                    assert(rest[i]@ >= price);
                }
            },
        }
    }
}

/// The nearest resistance is one of the levels above the price, and no such level is nearer.
pub proof fn law_resistance_is_nearest(levels: Seq<Decimal>, price: int)
    ensures
        match nearest_above(levels, price) {
            Some(v) => {
                &&& v > price
                &&& exists|i: int| 0 <= i < levels.len() && (#[trigger] levels[i])@ == v
                &&& forall|i: int|
                    0 <= i < levels.len() && (#[trigger] levels[i])@ > price ==> levels[i]@ >= v
            },
            None => forall|i: int| 0 <= i < levels.len() ==> (#[trigger] levels[i])@ <= price,
        },
    decreases levels.len(),
{
    if levels.len() > 0 {
        let rest = levels.drop_last();
        law_resistance_is_nearest(rest, price);
        let last = levels.len() - 1;
        match nearest_above(rest, price) {
            Some(v) => {
                let i = choose|i: int| 0 <= i < rest.len() && (#[trigger] rest[i])@ == v;
                assert(levels[i]@ == v);
                assert(levels[last]@ == levels.last()@);
                assert forall|i: int|
                    0 <= i < levels.len() && (#[trigger] levels[i])@ > price implies levels[i]@
                    >= nearest_above(levels, price)->0 by {
                    if i < last {
                        assert(rest[i]@ >= v);
                    }
                }
            },
            None => {
                assert(levels[last]@ == levels.last()@);
                assert forall|i: int| 0 <= i < last implies (#[trigger] levels[i])@ <= price by {
                    assert(rest[i]@ <= price);
                }
            },
        }
    }
}

/// A swing high is the high of a bar that stands out among the two bars before and after it, and
/// every such bar gives one; swing lows are the lows of bars that stand out below.
pub proof fn law_swings_stand_out(bars: Seq<Bar>, n: int)
    requires
        2 <= n <= bars.len() - 2,
    ensures
        forall|v: Decimal|
            #![trigger swing_highs(bars, n).contains(v)]
            swing_highs(bars, n).contains(v) <==> exists|i: int|
                2 <= i < n && v == (#[trigger] bars[i]).high && bars[i].high@ > bars[i - 1].high@
                    && bars[i].high@ > bars[i - 2].high@ && bars[i].high@ > bars[i + 1].high@
                    && bars[i].high@ > bars[i + 2].high@,
        forall|v: Decimal|
            #![trigger swing_lows(bars, n).contains(v)]
            swing_lows(bars, n).contains(v) <==> exists|i: int|
                2 <= i < n && v == (#[trigger] bars[i]).low && bars[i].low@ < bars[i - 1].low@
                    && bars[i].low@ < bars[i - 2].low@ && bars[i].low@ < bars[i + 1].low@
                    && bars[i].low@ < bars[i + 2].low@,
    decreases n,
{
    if n > 2 {
        law_swings_stand_out(bars, n - 1);
        lemma_swings_grow(bars, n);
    } else {
        assert(swing_highs(bars, n).len() == 0 && swing_lows(bars, n).len() == 0);
    }
}

proof fn lemma_swings_grow(bars: Seq<Bar>, n: int)
    requires
        2 < n <= bars.len() - 2,
    ensures
        forall|v: Decimal|
            #![trigger swing_highs(bars, n).contains(v)]
            swing_highs(bars, n).contains(v) <==> swing_highs(bars, n - 1).contains(v) || (
            is_swing_high(bars, n - 1) && v == bars[n - 1].high),
        forall|v: Decimal|
            #![trigger swing_lows(bars, n).contains(v)]
            swing_lows(bars, n).contains(v) <==> swing_lows(bars, n - 1).contains(v) || (
            is_swing_low(bars, n - 1) && v == bars[n - 1].low),
{
    let high = swing_highs(bars, n - 1);
    let low = swing_lows(bars, n - 1);
    assert forall|v: Decimal|
        #![trigger swing_highs(bars, n).contains(v)]
        swing_highs(bars, n).contains(v) <==> high.contains(v) || (is_swing_high(bars, n - 1) && v
            == bars[n - 1].high) by {
        lemma_contains_pushed(high, bars[n - 1].high, v);
    }
    assert forall|v: Decimal|
        #![trigger swing_lows(bars, n).contains(v)]
        swing_lows(bars, n).contains(v) <==> low.contains(v) || (is_swing_low(bars, n - 1) && v
            == bars[n - 1].low) by {
        lemma_contains_pushed(low, bars[n - 1].low, v);
    }
}

proof fn lemma_contains_pushed(s: Seq<Decimal>, last: Decimal, v: Decimal)
    ensures
        s.push(last).contains(v) <==> s.contains(v) || v == last,
{
    let grown = s.push(last);
    if s.contains(v) {
        let i = choose|i: int| 0 <= i < s.len() && s[i] == v;
        assert(grown[i] == v);
    }
    if v == last {
        assert(grown[s.len() as int] == v);
    }
    if grown.contains(v) && v != last {
        let i = choose|i: int| 0 <= i < grown.len() && grown[i] == v;
        assert(s[i] == v);
    }
}

/// A bar spans all of its prices, and closes at the last of them; it keeps the time it began at.
pub proof fn law_bars_span_their_prices(bar: Bar, price: Decimal)
    requires
        bar.low@ <= bar.high@,
    ensures
        merged(bar, price).low@ <= price@ <= merged(bar, price).high@,
        merged(bar, price).low@ <= bar.low@ && bar.high@ <= merged(bar, price).high@,
        merged(bar, price).high@ == price@ || merged(bar, price).high@ == bar.high@,
        merged(bar, price).low@ == price@ || merged(bar, price).low@ == bar.low@,
        merged(bar, price).close == price,
        merged(bar, price).timestamp == bar.timestamp,
{
}

/// A price within the minute of the last bar joins it; any other begins a bar of its own, and only
/// the oldest bars give way to it. Minutes are sixty seconds long.
pub proof fn law_bars_are_minutes(bars: Seq<Bar>, price: Decimal, timestamp: i64, lookback: int)
    requires
        0 < lookback,
        bars.len() <= lookback,
        timestamp >= 0,
        bars.len() > 0 ==> bars.last().timestamp >= 0,
    ensures
        ({
            let after = bars_with(bars, price, timestamp, lookback);
            let same = bars.len() > 0 && bars.last().timestamp as int / 60 == timestamp as int / 60;
            &&& after.len() > 0
            &&& after.len() <= lookback
            &&& after.last().close == price
            &&& same ==> after.len() == bars.len() && after.drop_last() == bars.drop_last()
                && after.last().timestamp == bars.last().timestamp
            &&& !same ==> after.last() == (Bar { high: price, low: price, close: price, timestamp })
            &&& !same && bars.len() < lookback ==> after.drop_last() == bars
            &&& !same && bars.len() == lookback ==> after.drop_last() == bars.skip(1)
        }),
{
    let after = bars_with(bars, price, timestamp, lookback);
    if continues_bar(bars, timestamp) {
        assert(after.drop_last() =~= bars.drop_last());
    } else if bars.len() < lookback {
        assert(after.drop_last() =~= bars);
    } else {
        assert(after.drop_last() =~= bars.skip(1));
    }
}

/// New levels come of the bars of the asset alone: without a swing low there is no support and
/// without a swing high no resistance, and a lone swing is a level as it is. The levels of the other
/// assets stay.
pub proof fn law_levels_come_of_swings(
    before: PivotTracker,
    after: PivotTracker,
    asset: CryptoAsset,
    other: CryptoAsset,
)
    requires
        after.renewed_from(before, asset),
        other != asset,
    ensures
        ({
            let bars = after.history.at(asset)@;
            let lows = swing_lows(bars, bars.len() - 2);
            let highs = swing_highs(bars, bars.len() - 2);
            let supports = after.support_levels.at(asset)@;
            let resistances = after.resistance_levels.at(asset)@;
            &&& lows.len() == 0 ==> supports.len() == 0
            &&& highs.len() == 0 ==> resistances.len() == 0
            &&& lows.len() == 1 && representable(lows[0]@) ==> supports.len() == 1 && supports[0]@
                == lows[0]@
            &&& highs.len() == 1 && representable(highs[0]@) ==> resistances.len() == 1
                && resistances[0]@ == highs[0]@
            &&& supports.len() <= 5
            &&& resistances.len() <= 5
        }),
        after.support_levels.at(other) == before.support_levels.at(other),
        after.resistance_levels.at(other) == before.resistance_levels.at(other),
{
    let bars = after.history.at(asset)@;
    let lows = swing_lows(bars, bars.len() - 2);
    let highs = swing_highs(bars, bars.len() - 2);
    let supports = after.support_levels.at(asset)@;
    let resistances = after.resistance_levels.at(asset)@;
    assert(values(supports).len() == supports.len());
    assert(values(resistances).len() == resistances.len());
    if supports.len() > 0 {
        assert(values(supports)[0] == supports[0]@);
    }
    if resistances.len() > 0 {
        assert(values(resistances)[0] == resistances[0]@);
    }
    if lows.len() == 1 && representable(lows[0]@) {
        assert(values(lows) =~= seq![lows[0]@]);
        law_lone_swings_are_levels(lows[0]@, before.atr_of(asset));
    }
    if highs.len() == 1 && representable(highs[0]@) {
        assert(values(highs) =~= seq![highs[0]@]);
        law_lone_swings_are_levels(highs[0]@, before.atr_of(asset));
    }
}

/// A swing without a neighbour is a level as it is.
pub proof fn law_lone_swings_are_levels(v: int, atr: int)
    requires
        representable(v),
        clustered(seq![v], atr) is Some,
    ensures
        clustered(seq![v], atr) == Some(seq![v]),
{
    lemma_ordered_one(v);
    crate::decimal::law_arithmetic_is_exact(v, 0);
    assert(last_of(seq![v], 5) =~= seq![v]);
}

proof fn lemma_ordered_one(v: int)
    ensures
        ordered(seq![v]) == seq![v],
{
    let s = seq![v];
    assert(s.drop_last() =~= Seq::<int>::empty());
    assert(ordered(s.drop_last()) =~= Seq::<int>::empty());
    assert(inserted(Seq::<int>::empty(), v) =~= seq![v]);
}

/// Two swings closer than three tenths of the average true range are one level, half way between
/// them; further apart each is a level of its own, the lower first, whichever came first.
pub proof fn law_close_swings_are_one_level(low: int, high: int, atr: int, threshold: int, middle: int)
    requires
        low <= high,
        10 * threshold == 3 * atr,
        2 * middle == low + high,
        representable(threshold),
        representable(low),
        representable(high),
        representable(middle),
        representable(low + high),
        representable(high - low),
    ensures
        high - low < threshold ==> clustered(seq![low, high], atr) == Some(seq![middle])
            && clustered(seq![high, low], atr) == Some(seq![middle]),
        high - low >= threshold ==> clustered(seq![low, high], atr) == Some(seq![low, high])
            && clustered(seq![high, low], atr) == Some(seq![low, high]),
{
    let a = seq![low, high];
    let b = seq![high, low];
    assert(a.drop_last() =~= seq![low]);
    assert(b.drop_last() =~= seq![high]);
    lemma_ordered_one(low);
    lemma_ordered_one(high);
    reveal_with_fuel(inserted, 3);
    assert(ordered(a) =~= a) by {
        let one = seq![low];
        assert(one.skip(1) =~= Seq::<int>::empty());
    }
    assert(ordered(b) =~= a) by {
        let one = seq![high];
        assert(one.skip(1) =~= Seq::<int>::empty());
    }
    let p = crate::decimal::pow10(27);
    let h = crate::decimal::pow10(28);
    assert(atr * (3 * p) == h * threshold) by (nonlinear_arith)
        requires
            h == 10 * p,
            10 * threshold == 3 * atr,
    ;
    crate::decimal::lemma_exact_value(atr * units(3, 1), h, threshold);
    crate::decimal::law_arithmetic_is_exact(low, high);
    crate::decimal::law_arithmetic_is_exact(high, low);
    crate::decimal::law_arithmetic_is_exact(low, 0);
    crate::decimal::law_arithmetic_is_exact(high, 0);
    assert((low + high) * h == (2 * h) * middle) by (nonlinear_arith)
        requires
            2 * middle == low + high,
    ;
    crate::decimal::lemma_exact_value((low + high) * h, 2 * h, middle);
    reveal_with_fuel(clusters_from, 3);
    assert(seq![low] + seq![high] =~= a);
    assert(last_of(a, 5) =~= a);
    assert(last_of(seq![middle], 5) =~= seq![middle]);
}

/// Support and resistance mirror each other: what a support below the price is to a trade up, a
/// resistance as far above it is to a trade down.
pub proof fn law_levels_mirror(
    config: PivotConfig,
    price: Decimal,
    support: int,
    resistance: int,
    atr: int,
    favor_up: bool,
    regime: Regime,
)
    requires
        price@ - support == resistance - price@,
        config.factor(price, Some(support), None, atr, favor_up, regime) is Some,
    ensures
        config.factor(price, Some(support), None, atr, favor_up, regime) == config.factor(
            price,
            None,
            Some(resistance),
            atr,
            !favor_up,
            regime,
        ),
{
}

/// The nearer a support below the price, the more it counts, in either direction.
pub proof fn law_nearer_levels_count_more(
    config: PivotConfig,
    price: Decimal,
    nearer: int,
    further: int,
    atr: int,
    regime: Regime,
)
    requires
        further <= nearer < price@,
        representable(price@ - nearer),
        representable(price@ - further),
        price@ - further < config.near(atr)->0,
        config.factor(price, Some(nearer), None, atr, true, regime) is Some,
        config.factor(price, Some(further), None, atr, true, regime) is Some,
        config.factor(price, Some(nearer), None, atr, false, regime) is Some,
        config.factor(price, Some(further), None, atr, false, regime) is Some,
    ensures
        config.factor(price, Some(nearer), None, atr, true, regime)->0 >= config.factor(
            price,
            Some(further),
            None,
            atr,
            true,
            regime,
        )->0,
        config.factor(price, Some(nearer), None, atr, false, regime)->0 <= config.factor(
            price,
            Some(further),
            None,
            atr,
            false,
            regime,
        )->0,
{
    let near = config.near(atr)->0;
    let a = price@ - nearer;
    let b = price@ - further;
    lemma_unrounded(a);
    lemma_unrounded(b);
    let p = crate::decimal::pow10(28);
    assert((a * p) * near <= (b * p) * near) by (nonlinear_arith)
        requires
            a <= b,
            p > 0,
            near > 0,
    ;
    lemma_rounded_monotone(a * p, near, b * p, near);
    let qa = divided(Some(a), Some(near))->0;
    let qb = divided(Some(b), Some(near))->0;
    lemma_rounded_monotone(units(1, 0) - qb, 1, units(1, 0) - qa, 1);
    let xa = proximity(Some(a), Some(near))->0;
    let xb = proximity(Some(b), Some(near))->0;
    let eight = units(8, 1);
    let nine = units(9, 1);
    assert((xb * eight) * p <= (xa * eight) * p && (-xa * nine) * p <= (-xb * nine) * p)
        by (nonlinear_arith)
        requires
            xb <= xa,
            eight > 0,
            nine > 0,
            p > 0,
    ;
    lemma_rounded_monotone(xb * eight, p, xa * eight, p);
    lemma_rounded_monotone(-xa * nine, p, -xb * nine, p);
}

/// Between the levels only the outer parts of the range count: near the top they speak against a
/// trade up and for one down, near the bottom the other way round, and the two ends mirror each other.
pub proof fn law_ends_of_the_range(position: int, favor_up: bool)
    requires
        0 <= position <= units(1, 0),
        range_factor(position, favor_up) is Some,
    ensures
        units(3, 1) < position < units(7, 1) ==> range_factor(position, favor_up) == Some(0int),
        position >= units(7, 1) && favor_up ==> range_factor(position, favor_up)->0 <= 0,
        position >= units(7, 1) && !favor_up ==> range_factor(position, favor_up)->0 >= 0,
        position <= units(3, 1) && favor_up ==> range_factor(position, favor_up)->0 >= 0,
        position <= units(3, 1) && !favor_up ==> range_factor(position, favor_up)->0 <= 0,
        range_factor(units(1, 0) - position, !favor_up) == range_factor(position, favor_up),
{
    let p = crate::decimal::pow10(27);
    assert(units(1, 0) == 10 * p && units(3, 1) == 3 * p && units(7, 1) == 7 * p);
    if position >= units(7, 1) {
        lemma_third_range(position - units(7, 1));
        assert(units(3, 1) - (units(1, 0) - position) == position - units(7, 1));
        lemma_tenths_sign(
            quotient(difference(Some(position), lit(7, 1)), lit(3, 1))->0,
            if favor_up {
                -3
            } else {
                3
            },
        );
    } else if position <= units(3, 1) {
        lemma_third_range(units(3, 1) - position);
        assert(units(1, 0) - position - units(7, 1) == units(3, 1) - position);
        lemma_tenths_sign(
            quotient(difference(lit(3, 1), Some(position)), lit(3, 1))->0,
            if favor_up {
                3
            } else {
                -3
            },
        );
    }
}

/// A price at the support is at the bottom of the range, one at the resistance at the top.
pub proof fn law_place_in_the_range(price: Decimal, support: int, resistance: int)
    requires
        support < resistance,
        representable(resistance - support),
        price@ == support || price@ == resistance,
        place_between(price, Some(support), Some(resistance)) is Some,
    ensures
        price@ == support ==> place_between(price, Some(support), Some(resistance)) == Some(0int),
        price@ == resistance ==> place_between(price, Some(support), Some(resistance)) == Some(
            units(1, 0),
        ),
{
    lemma_unrounded(resistance - support);
    crate::decimal::lemma_exact(0, 1, 0, 0);
    crate::decimal::lemma_exact(0, resistance - support, 0, 0);
    assert(0 * crate::decimal::pow10(28) == 0);
    crate::decimal::law_arithmetic_is_exact(resistance - support, 0);
}

/// An adjustment names the levels around the price, support below and resistance above; it never cuts
/// confidence below three tenths of it nor raises it by more than half, and where nothing speaks for
/// or against the trade it changes nothing.
pub proof fn law_adjustments_are_moderate(
    tracker: PivotTracker,
    asset: CryptoAsset,
    price: Decimal,
    favor_up: bool,
    c: PivotConfidence,
    base: Decimal,
)
    requires
        tracker.adjusts(asset, price, favor_up, c),
        0 <= base@ <= units(1, 0),
        representable(base@),
    ensures
        units(3, 1) <= c.multiplier@ <= units(15, 1),
        c.support is Some ==> c.support->0@ < price@,
        c.resistance is Some ==> c.resistance->0@ > price@,
        c.support is None ==> forall|i: int|
            0 <= i < tracker.support_levels.at(asset)@.len() ==> (
            #[trigger] tracker.support_levels.at(asset)@[i])@ >= price@,
        c.resistance is None ==> forall|i: int|
            0 <= i < tracker.resistance_levels.at(asset)@.len() ==> (
            #[trigger] tracker.resistance_levels.at(asset)@[i])@ <= price@,
        c.raw_factor@ == 0 ==> c.multiplier@ == units(1, 0) && c.applied(base) == Some(base@),
        c.range_position is Some ==> c.support is Some && c.resistance is Some,
{
    law_support_is_nearest(tracker.support_levels.at(asset)@, price@);
    law_resistance_is_nearest(tracker.resistance_levels.at(asset)@, price@);
    law_no_factor_no_change(tracker.config, c.regime);
    crate::decimal::law_arithmetic_is_exact(base@, 0);
}

/// Confidence after an adjustment stays between zero and one.
pub proof fn law_adjusted_confidence_is_bounded(c: PivotConfidence, base: Decimal)
    requires
        c.applied(base) is Some,
    ensures
        0 <= c.applied(base)->0 <= units(1, 0),
{
}

/// Levels matter most where prices range and least where they trend.
pub proof fn law_ranging_markets_heed_levels()
    ensures
        Regime::Trending.weight() < Regime::Unknown.weight() < Regime::Ranging.weight(),
{
}

/// Nothing is known of fewer than twenty bars. Prices that end where they began do not trend, and a
/// range that is wide for the average true range is no ranging market.
pub proof fn law_what_makes_a_trend(config: PivotConfig, bars: Seq<Bar>, atr: int)
    requires
        config.regime_fits(bars, atr),
    ensures
        bars.len() < 20 ==> config.regime_of(bars, atr) is Unknown,
        bars.len() == 20 && bars.last().close@ == bars[0].close@ ==> !(config.regime_of(
            bars,
            atr,
        ) is Trending),
        config.regime_of(bars, atr) is Ranging ==> divided(
            bar_range(last_of(bars, 30)),
            Some(atr),
        )->0 < config.range_atr_threshold@ && drift_ratio(last_of(bars, 30))->0 < units(5, 1),
        config.regime_of(bars, atr) is Trending ==> drift_ratio(last_of(bars, 30))->0 > units(6, 1),
{
    if bars.len() == 20 && bars.last().close@ == bars[0].close@ {
        let range = bar_range(bars)->0;
        crate::decimal::lemma_exact(0, 1, 0, 0);
        assert(0 * crate::decimal::pow10(28) == 0);
        if range > 0 {
            crate::decimal::lemma_exact(0, range, 0, 0);
        }
    }
}

/// The range of some bars spans every price in them.
pub proof fn law_range_of_bars(bars: Seq<Bar>, i: int, j: int)
    requires
        0 <= i < bars.len(),
        0 <= j < bars.len(),
        representable(bars[i].high@ - bars[j].low@),
        bar_range(bars) is Some,
    ensures
        bar_range(bars)->0 >= bars[i].high@ - bars[j].low@,
{
    let highs = bar_highs(bars);
    let lows = bar_lows(bars);
    crate::atr::law_highest_and_lowest(highs);
    crate::atr::law_highest_and_lowest(lows);
    assert(highs[i] == bars[i].high && lows[j] == bars[j].low);
    lemma_unrounded(bars[i].high@ - bars[j].low@);
    lemma_rounded_monotone(bars[i].high@ - bars[j].low@, 1, highest(highs) - lowest(lows), 1);
}

/// The average true range of an asset is the one that was set, else an estimate of its own, and never
/// below a cent.
pub proof fn law_ranges_of_assets(tracker: PivotTracker, asset: CryptoAsset)
    ensures
        tracker.atr_of(asset) >= units(1, 2),
        tracker.atr.at(asset) is Some && tracker.atr.at(asset)->0@ >= units(1, 2)
            ==> tracker.atr_of(asset) == tracker.atr.at(asset)->0@,
        tracker.atr.at(asset) is None ==> tracker.atr_of(asset) == asset.spec_estimated_atr_15m(),
{
}

/// Levels are found anew with every fifth bar, from ten bars on, and not within a minute.
pub proof fn law_levels_are_renewed(
    before: PivotTracker,
    asset: CryptoAsset,
    price: Decimal,
    timestamp: i64,
    after: PivotTracker,
)
    requires
        before.recorded(asset, price, timestamp, after),
    ensures
        ({
            let bars = after.history.at(asset)@;
            let joined = before.history.at(asset)@.len() > 0 && minute_of(
                before.history.at(asset)@.last().timestamp,
            ) == minute_of(timestamp);
            &&& joined || bars.len() % 5 != 0 || bars.len() < 10 ==> after.support_levels
                == before.support_levels && after.resistance_levels == before.resistance_levels
            &&& !joined && bars.len() % 5 == 0 && bars.len() >= 10 ==> after.renewed_from(
                before,
                asset,
            )
        }),
{
}

} // verus!
