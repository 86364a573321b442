//! Average true range of prices, from windows of fixed length.
//!
//! The range of a window is its highest less its lowest price. The average runs over the latest
//! completed windows and never falls below a minimum for the asset.

use std::collections::VecDeque;
use vstd::prelude::*;
use vstd::string::*;
use crate::decimal::{
    Decimal, difference, greater, law_mean_of_equals, lemma_rounded_monotone, lemma_total_prefix,
    lemma_unrounded, lit, multiple, num, quotient, representable, total, units,
};
use crate::text::{digits, fixed_chars, fixed_text, number_text};
use crate::types::{ByAsset, CryptoAsset};

verus! {

/// A price and when it was seen.
#[derive(Clone, Copy, Debug)]
pub struct PricePoint {
    pub price: Decimal,
    pub timestamp_ms: i64,
}

/// Milliseconds from `from` to `to`; zero if `to` is not later.
pub open spec fn elapsed(from: i64, to: i64) -> int {
    if to > from {
        to - from
    } else {
        0
    }
}

/// Milliseconds from `from` to `to`; zero if `to` is not later.
pub fn elapsed_ms(from: i64, to: i64) -> (r: u64)
    ensures
        r == elapsed(from, to),
{
    if to > from {
        (to as i128 - from as i128) as u64
    } else {
        0
    }
}

/// The last `n` elements of a list, or all if it has no more.
pub open spec fn last_of<A>(s: Seq<A>, n: int) -> Seq<A> {
    if s.len() > n {
        s.skip(s.len() - n)
    } else {
        s
    }
}

/// The points from the first one that is at most a minute old.
pub open spec fn recent_points(points: Seq<PricePoint>, now_ms: i64) -> Seq<PricePoint>
    decreases points.len(),
{
    if points.len() > 0 && elapsed(points[0].timestamp_ms, now_ms) > 60000 {
        recent_points(points.skip(1), now_ms)
    } else {
        points
    }
}

/// The larger of a price and a high, where there is one.
pub open spec fn raised(high: Option<Decimal>, price: Decimal) -> Option<Decimal> {
    match high {
        Some(h) => if price@ > h@ { Some(price) } else { high },
        None => None,
    }
}

/// The smaller of a price and a low, where there is one.
pub open spec fn lowered(low: Option<Decimal>, price: Decimal) -> Option<Decimal> {
    match low {
        Some(l) => if price@ < l@ { Some(price) } else { low },
        None => None,
    }
}

/// The largest value of a list that is not empty.
pub open spec fn highest(s: Seq<Decimal>) -> int
    decreases s.len(),
{
    if s.len() <= 1 {
        s[0]@
    } else {
        let rest = highest(s.drop_last());
        if s.last()@ >= rest { s.last()@ } else { rest }
    }
}

/// The smallest value of a list that is not empty.
pub open spec fn lowest(s: Seq<Decimal>) -> int
    decreases s.len(),
{
    if s.len() <= 1 {
        s[0]@
    } else {
        let rest = lowest(s.drop_last());
        if s.last()@ < rest { s.last()@ } else { rest }
    }
}

/// Values of a list of decimals.
pub open spec fn values(s: Seq<Decimal>) -> Seq<int> {
    s.map_values(|d: Decimal| d@)
}

/// Prices and ranges of one asset.
#[derive(Debug)]
pub struct AssetTracker {
    /// Prices of the last minute.
    pub prices: VecDeque<PricePoint>,
    /// Length of a window in milliseconds.
    pub window_ms: u64,
    /// Number of windows to average.
    pub num_windows: usize,
    /// Ranges of the latest completed windows, the oldest first.
    pub ranges: VecDeque<Decimal>,
    /// Highest price of the current window.
    pub current_high: Option<Decimal>,
    /// Lowest price of the current window.
    pub current_low: Option<Decimal>,
    /// Start of the current window.
    pub window_start: Option<i64>,
    /// Smallest average.
    pub min_atr: Decimal,
}

impl AssetTracker {
    /// Highest price of the window that a price falls into.
    pub open spec fn high_with(self, price: Decimal) -> Option<Decimal> {
        if self.window_start is None {
            Some(price)
        } else {
            raised(self.current_high, price)
        }
    }

    /// Lowest price of the window that a price falls into.
    pub open spec fn low_with(self, price: Decimal) -> Option<Decimal> {
        if self.window_start is None {
            Some(price)
        } else {
            lowered(self.current_low, price)
        }
    }

    /// Start of the window that a price falls into.
    pub open spec fn start_with(self, now_ms: i64) -> i64 {
        match self.window_start {
            Some(start) => start,
            None => now_ms,
        }
    }

    /// Whether a price at this time completes the window.
    pub open spec fn completes(self, now_ms: i64) -> bool {
        elapsed(self.start_with(now_ms), now_ms) >= self.window_ms
    }

    /// Range of the window with a price.
    pub open spec fn range_with(self, price: Decimal) -> Option<int> {
        difference(num(self.high_with(price)->0), num(self.low_with(price)->0))
    }

    /// Whether the range of the window is known once a price is in.
    pub open spec fn has_range(self, price: Decimal) -> bool {
        self.high_with(price) is Some && self.low_with(price) is Some
    }

    /// Average of the ranges.
    pub open spec fn average(self) -> Option<int> {
        quotient(total(self.ranges@), lit(self.ranges@.len() as int, 0))
    }

    /// The average true range, at least its minimum.
    pub open spec fn spec_atr(self) -> Option<int> {
        if self.ranges@.len() == 0 {
            num(self.min_atr)
        } else {
            greater(self.average(), num(self.min_atr))
        }
    }

    /// Whether `after` is this tracker with a price recorded.
    pub open spec fn recorded(self, price: Decimal, now_ms: i64, after: AssetTracker) -> bool {
        &&& after.window_ms == self.window_ms
        &&& after.num_windows == self.num_windows
        &&& after.min_atr == self.min_atr
        &&& after.prices@ == recent_points(
            self.prices@.push(PricePoint { price, timestamp_ms: now_ms }),
            now_ms,
        )
        &&& if self.completes(now_ms) {
            &&& after.window_start == Some(now_ms)
            &&& after.current_high == Some(price)
            &&& after.current_low == Some(price)
            &&& if self.has_range(price) {
                values(after.ranges@) == last_of(
                    values(self.ranges@).push(self.range_with(price)->0),
                    self.num_windows as int,
                )
            } else {
                after.ranges@ == self.ranges@
            }
        } else {
            &&& after.window_start == Some(self.start_with(now_ms))
            &&& after.current_high == self.high_with(price)
            &&& after.current_low == self.low_with(price)
            &&& after.ranges@ == self.ranges@
        }
    }

    /// A tracker without prices.
    pub open spec fn is_fresh(self, window_ms: u64, num_windows: usize, min_atr: int) -> bool {
        &&& self.prices@.len() == 0
        &&& self.window_ms == window_ms
        &&& self.num_windows == num_windows
        &&& self.ranges@.len() == 0
        &&& self.current_high is None
        &&& self.current_low is None
        &&& self.window_start is None
        &&& self.min_atr@ == min_atr
    }

    /// A tracker without prices.
    pub fn new(window_ms: u64, num_windows: usize, min_atr: Decimal) -> (r: AssetTracker)
        ensures
            r.is_fresh(window_ms, num_windows, min_atr@),
    {
        AssetTracker {
            prices: VecDeque::new(),
            window_ms,
            num_windows,
            ranges: VecDeque::new(),
            current_high: None,
            current_low: None,
            window_start: None,
            min_atr,
        }
    }

    /// Adds a range, dropping the oldest ones that are no longer averaged.
    fn push_range(&mut self, range: Decimal)
        ensures
            *final(self) == (AssetTracker { ranges: final(self).ranges, ..*old(self) }),
            final(self).ranges@ == last_of(
                old(self).ranges@.push(range),
                old(self).num_windows as int,
            ),
    {
        self.ranges.push_back(range);
        let ghost all = self.ranges@;
        let keep: usize = self.num_windows;
        let ghost mut dropped: int = 0;
        assert(all.skip(0) =~= all);
        while self.ranges.len() > keep
            invariant
                keep == self.num_windows,
                *self == (AssetTracker { ranges: self.ranges, ..*old(self) }),
                0 <= dropped <= all.len(),
                self.ranges@ == all.skip(dropped),
                dropped > 0 ==> self.ranges@.len() >= keep,
            decreases self.ranges@.len(),
        {
            let oldest = self.ranges.pop_front();
            proof {
                dropped = dropped + 1;
                assert(self.ranges@ =~= all.skip(dropped));
            }
        }
        assert(self.ranges@ =~= last_of(all, keep as int));
    }

    /// Records a price: the window it falls into grows, and is completed once its time is up.
    pub fn record_price(&mut self, price: Decimal, now_ms: i64)
        requires
            old(self).completes(now_ms) && old(self).has_range(price) ==> old(self).range_with(
                price,
            ) is Some,
        ensures
            old(self).recorded(price, now_ms, *final(self)),
    {
        if self.window_start.is_none() {
            self.window_start = Some(now_ms);
            self.current_high = Some(price);
            self.current_low = Some(price);
        }
        if let Some(high) = self.current_high {
            if price > high {
                self.current_high = Some(price);
            }
        }
        if let Some(low) = self.current_low {
            if price < low {
                self.current_low = Some(price);
            }
        }
        let start: i64 = self.window_start.unwrap_or(now_ms);
        assert(self.current_high == old(self).high_with(price));
        assert(self.current_low == old(self).low_with(price));
        if elapsed_ms(start, now_ms) >= self.window_ms {
            if let (Some(high), Some(low)) = (self.current_high, self.current_low) {
                let range = high.minus(low);
                let ghost before = self.ranges@;
                self.push_range(range);
                proof {
                    assert(values(self.ranges@) =~= last_of(
                        values(before).push(range@),
                        self.num_windows as int,
                    ));
                }
            }
            self.window_start = Some(now_ms);
            self.current_high = Some(price);
            self.current_low = Some(price);
        }
        let ghost ranges = self.ranges@;
        self.prices.push_back(PricePoint { price, timestamp_ms: now_ms });
        let ghost points = self.prices@;
        let ghost state = *self;
        while self.prices.len() > 0 && elapsed_ms(self.prices[0].timestamp_ms, now_ms) > 60000
            invariant
                *self == (AssetTracker { prices: self.prices, ..state }),
                recent_points(self.prices@, now_ms) == recent_points(points, now_ms),
            decreases self.prices@.len(),
        {
            let ghost before = self.prices@;
            let oldest = self.prices.pop_front();
            assert(self.prices@ =~= before.skip(1));
        }
    }

    /// The average true range of the completed windows, at least its minimum.
    pub fn get_atr(&self) -> (r: Decimal)
        requires
            self.ranges@.len() <= u32::MAX,
            self.spec_atr() is Some,
        ensures
            Some(r@) == self.spec_atr(),
    {
        if self.ranges.len() == 0 {
            return self.min_atr;
        }
        let mut acc = Decimal::zero();
        let mut i: usize = 0;
        let ghost all = self.ranges@;
        assert(all.take(0) =~= Seq::<Decimal>::empty());
        while i < self.ranges.len()
            invariant
                i <= self.ranges@.len(),
                all == self.ranges@,
                total(all) is Some,
                Some(acc@) == total(all.take(i as int)),
            decreases self.ranges@.len() - i,
        {
            proof {
                lemma_total_prefix(all, i as int);
            }
            acc = acc.plus(self.ranges[i]);
            i = i + 1;
        }
        assert(all.take(i as int) =~= all);
        let count = Decimal::from_u64(self.ranges.len() as u64);
        acc.over(count).max(self.min_atr)
    }

    /// Range of the current window so far.
    pub fn current_range(&self) -> (r: Option<Decimal>)
        requires
            self.current_high is Some && self.current_low is Some ==> difference(
                num(self.current_high->0),
                num(self.current_low->0),
            ) is Some,
        ensures
            match r {
                Some(range) => self.current_high is Some && self.current_low is Some && Some(range@)
                    == difference(num(self.current_high->0), num(self.current_low->0)),
                None => self.current_high is None || self.current_low is None,
            },
    {
        match (self.current_high, self.current_low) {
            (Some(high), Some(low)) => Some(high.minus(low)),
            _ => None,
        }
    }

    /// Number of completed windows.
    pub fn completed_windows(&self) -> (r: usize)
        ensures
            r == self.ranges@.len(),
    {
        self.ranges.len()
    }
}

/// Length of the chunks into which prices are cut to warm up: one chunk for each window, of at
/// least two prices where there are five or more.
pub open spec fn chunk_len(prices: Seq<Decimal>, num_windows: int) -> int {
    if prices.len() as int / num_windows >= 2 {
        prices.len() as int / num_windows
    } else if prices.len() >= 5 {
        2
    } else {
        1
    }
}

/// The chunk of the prices that begins at `from`.
pub open spec fn chunk_at(prices: Seq<Decimal>, from: int, len: int) -> Seq<Decimal> {
    prices.subrange(from, if from + len < prices.len() { from + len } else { prices.len() as int })
}

/// Range of a chunk.
pub open spec fn chunk_range(chunk: Seq<Decimal>) -> Option<int> {
    difference(Some(highest(chunk)), Some(lowest(chunk)))
}

/// The ranges after the chunks from `from` on were added, each of at least two prices.
pub open spec fn warmed(
    ranges: Seq<int>,
    prices: Seq<Decimal>,
    from: int,
    len: int,
    keep: int,
) -> Seq<int>
    decreases
            if from < prices.len() {
                prices.len() - from
            } else {
                0
            },
{
    if from >= prices.len() || from < 0 || len <= 0 {
        ranges
    } else {
        let chunk = chunk_at(prices, from, len);
        let grown = if chunk.len() >= 2 {
            last_of(ranges.push(chunk_range(chunk)->0), keep)
        } else {
            ranges
        };
        warmed(grown, prices, from + len, len, keep)
    }
}

/// Warming up loses no range but those beyond the number to keep.
proof fn lemma_warmed_keeps(ranges: Seq<int>, prices: Seq<Decimal>, from: int, len: int, keep: int)
    requires
        0 <= keep,
    ensures
        warmed(ranges, prices, from, len, keep).len() >= ranges.len() || warmed(
            ranges,
            prices,
            from,
            len,
            keep,
        ).len() >= keep,
    decreases
            if from < prices.len() {
                prices.len() - from
            } else {
                0
            },
{
    if from < prices.len() && from >= 0 && len > 0 {
        let chunk = chunk_at(prices, from, len);
        let grown = if chunk.len() >= 2 {
            last_of(ranges.push(chunk_range(chunk)->0), keep)
        } else {
            ranges
        };
        lemma_warmed_keeps(grown, prices, from + len, len, keep);
    }
}

/// Five prices give two ranges, where so many are kept.
proof fn lemma_warmed_enough(ranges: Seq<int>, prices: Seq<Decimal>, keep: int)
    requires
        prices.len() >= 5,
        keep >= 2,
    ensures
        warmed(ranges, prices, 0, chunk_len(prices, keep), keep).len() >= 2,
{
    let n = prices.len() as int;
    let len = chunk_len(prices, keep);
    assert(2 * (n / keep) <= n) by (nonlinear_arith)
        requires
            n >= 0,
            keep >= 2,
    ;
    let one = last_of(ranges.push(chunk_range(chunk_at(prices, 0, len))->0), keep);
    let two = last_of(one.push(chunk_range(chunk_at(prices, len, len))->0), keep);
    assert(warmed(ranges, prices, 0, len, keep) == warmed(one, prices, len, len, keep));
    assert(warmed(one, prices, len, len, keep) == warmed(two, prices, len + len, len, keep));
    lemma_warmed_keeps(two, prices, len + len, len, keep);
}

/// Highest and lowest value of the prices from `from` to before `to`.
fn extremes(prices: &[Decimal], from: usize, to: usize) -> (r: (Decimal, Decimal))
    requires
        from < to <= prices@.len(),
    ensures
        r.0@ == highest(prices@.subrange(from as int, to as int)),
        r.1@ == lowest(prices@.subrange(from as int, to as int)),
{
    let mut high = prices[from];
    let mut low = prices[from];
    let mut i: usize = from + 1;
    assert(prices@.subrange(from as int, i as int) =~= seq![prices@[from as int]]);
    while i < to
        invariant
            from < i <= to <= prices@.len(),
            high@ == highest(prices@.subrange(from as int, i as int)),
            low@ == lowest(prices@.subrange(from as int, i as int)),
        decreases to - i,
    {
        let ghost seen = prices@.subrange(from as int, i as int);
        let ghost more = prices@.subrange(from as int, i + 1);
        assert(more.drop_last() =~= seen);
        let price = prices[i];
        assert(more.last() == price);
        if price >= high {
            high = price;
        }
        if price < low {
            low = price;
        }
        i = i + 1;
    }
    (high, low)
}

/// Average true ranges of all assets.
#[derive(Debug)]
pub struct AtrTracker {
    pub trackers: ByAsset<AssetTracker>,
}

impl Default for AtrTracker {
    fn default() -> (r: AtrTracker)
        ensures
            r.is_fresh(60000, 5),
    {
        AtrTracker::new(60000, 5)
    }
}

/// Smallest average true range of an asset.
pub open spec fn min_atr_of(asset: CryptoAsset) -> int {
    match asset {
        CryptoAsset::Btc => units(20, 0),
        CryptoAsset::Eth => units(1, 0),
        CryptoAsset::Sol => units(20, 2),
        CryptoAsset::Xrp => units(2, 3),
    }
}

/// An asset, its average true range, its number of windows and its current range as text.
pub open spec fn status_chars(asset: CryptoAsset, atr: int, windows: nat, current: int) -> Seq<char> {
    asset.spec_name() + ":$"@ + fixed_chars(atr, 2) + "("@ + digits(windows) + "w,cur=$"@
        + fixed_chars(current, 2) + ")"@
}

impl AtrTracker {
    /// Trackers without prices.
    pub open spec fn is_fresh(self, window_ms: u64, num_windows: usize) -> bool {
        forall|asset: CryptoAsset|
            (#[trigger] self.trackers.at(asset)).is_fresh(window_ms, num_windows, min_atr_of(asset))
    }

    /// Trackers with windows of this length, of which so many are averaged.
    pub fn new(window_ms: u64, num_windows: usize) -> (r: AtrTracker)
        ensures
            r.is_fresh(window_ms, num_windows),
    {
        AtrTracker {
            trackers: ByAsset {
                btc: AssetTracker::new(window_ms, num_windows, Decimal::new(20, 0)),
                eth: AssetTracker::new(window_ms, num_windows, Decimal::new(1, 0)),
                sol: AssetTracker::new(window_ms, num_windows, Decimal::new(20, 2)),
                xrp: AssetTracker::new(window_ms, num_windows, Decimal::new(2, 3)),
            },
        }
    }

    /// Whether the ranges of all chunks of the prices stay within range.
    pub open spec fn warmup_fits(self, asset: CryptoAsset, prices: Seq<Decimal>) -> bool {
        let tracker = self.trackers.at(asset);
        let len = chunk_len(prices, tracker.num_windows as int);
        &&& tracker.num_windows > 0
        &&& forall|from: int|
            0 <= from < prices.len() ==> chunk_range(#[trigger] chunk_at(prices, from, len)) is Some
    }

    /// Whether `after` are these trackers once an asset was warmed up.
    pub open spec fn warmed_to(
        self,
        asset: CryptoAsset,
        prices: Seq<Decimal>,
        now_ms: i64,
        after: AtrTracker,
    ) -> bool {
        let was = self.trackers.at(asset);
        let is = after.trackers.at(asset);
        let len = chunk_len(prices, was.num_windows as int);
        &&& after.trackers == self.trackers.with(asset, is)
        &&& values(is.ranges@) == warmed(
            values(was.ranges@),
            prices,
            0,
            len,
            was.num_windows as int,
        )
        &&& is.prices == was.prices
        &&& is.window_ms == was.window_ms
        &&& is.num_windows == was.num_windows
        &&& is.min_atr == was.min_atr
        &&& if prices.len() >= 2 {
            let recent = last_of(prices, len);
            &&& is.current_high is Some && is.current_high->0@ == highest(recent)
            &&& is.current_low is Some && is.current_low->0@ == lowest(recent)
            &&& is.window_start == Some(now_ms)
        } else {
            &&& is.current_high == was.current_high
            &&& is.current_low == was.current_low
            &&& is.window_start == was.window_start
        }
    }

    /// Fills the ranges of an asset from past prices, the oldest first: one range for each chunk
    /// of at least two prices. The last prices become the current window, which starts now. Five
    /// prices are enough to be warmed up, where two windows or more are averaged; fewer prices than
    /// twice the windows give no range otherwise.
    pub fn warmup(&mut self, asset: CryptoAsset, prices: &[Decimal], now_ms: i64)
        requires
            prices@.len() > 0 ==> old(self).warmup_fits(asset, prices@),
        ensures
            prices@.len() == 0 ==> *final(self) == *old(self),
            prices@.len() > 0 ==> old(self).warmed_to(asset, prices@, now_ms, *final(self)),
            prices@.len() >= 5 && old(self).trackers.at(asset).num_windows >= 2
                ==> final(self).trackers.at(asset).ranges@.len() >= 2,
    {
        if prices.len() == 0 {
            return;
        }
        let tracker = self.trackers.get_mut(asset);
        let ghost before = *tracker;
        let keep: usize = tracker.num_windows;
        let n: usize = prices.len();
        let even: usize = n / keep;
        let len: usize = if even >= 2 {
            even
        } else if n >= 5 {
            2
        } else {
            1
        };
        assert(len == chunk_len(prices@, keep as int));
        let mut from: usize = 0;
        let ghost goal = warmed(
            values(before.ranges@),
            prices@,
            0,
            len as int,
            keep as int,
        );
        while from < n
            invariant
                n == prices@.len(),
                from <= n,
                len > 0,
                keep == before.num_windows,
                *tracker == (AssetTracker { ranges: tracker.ranges, ..before }),
                goal == warmed(
                    values(tracker.ranges@),
                    prices@,
                    from as int,
                    len as int,
                    keep as int,
                ),
                forall|from: int|
                    0 <= from < prices@.len() ==> chunk_range(
                        #[trigger] chunk_at(prices@, from, len as int),
                    ) is Some,
            decreases n - from,
        {
            let to: usize = if len < n - from {
                from + len
            } else {
                n
            };
            let ghost chunk = chunk_at(prices@, from as int, len as int);
            assert(chunk == prices@.subrange(from as int, to as int));
            if to - from >= 2 {
                let (high, low) = extremes(prices, from, to);
                let range = high.minus(low);
                let ghost ranges = tracker.ranges@;
                tracker.push_range(range);
                assert(values(tracker.ranges@) =~= last_of(
                    values(ranges).push(range@),
                    keep as int,
                ));
            }
            proof {
                let next = from + len;
                if to < next {
                    assert(warmed(
                        values(tracker.ranges@),
                        prices@,
                        next,
                        len as int,
                        keep as int,
                    ) == values(tracker.ranges@));
                }
            }
            from = to;
        }
        if n >= 2 {
            let start: usize = if n > len {
                n - len
            } else {
                0
            };
            let (high, low) = extremes(prices, start, n);
            assert(prices@.subrange(start as int, n as int) =~= last_of(prices@, len as int));
            tracker.current_high = Some(high);
            tracker.current_low = Some(low);
            tracker.window_start = Some(now_ms);
        }
        proof {
            if n >= 5 && keep >= 2 {
                lemma_warmed_enough(values(before.ranges@), prices@, keep as int);
                assert(values(tracker.ranges@).len() == tracker.ranges@.len());
            }
        }
    }

    /// Whether every asset has a completed window.
    pub fn is_warmed_up_all(&self) -> (r: bool)
        ensures
            r == (forall|asset: CryptoAsset|
                (#[trigger] self.trackers.at(asset)).ranges@.len() > 0),
    {
        let r = self.trackers.btc.ranges.len() > 0 && self.trackers.eth.ranges.len() > 0
            && self.trackers.sol.ranges.len() > 0 && self.trackers.xrp.ranges.len() > 0;
        proof {
            if !r {
                let btc = self.trackers.at(CryptoAsset::Btc);
                let eth = self.trackers.at(CryptoAsset::Eth);
                let sol = self.trackers.at(CryptoAsset::Sol);
                let xrp = self.trackers.at(CryptoAsset::Xrp);
                assert(btc.ranges@.len() == 0 || eth.ranges@.len() == 0 || sol.ranges@.len() == 0
                    || xrp.ranges@.len() == 0);
            }
        }
        r
    }

    /// Records a price of an asset.
    pub fn record_price(&mut self, asset: CryptoAsset, price: Decimal, now_ms: i64)
        requires
            ({
                let tracker = old(self).trackers.at(asset);
                tracker.completes(now_ms) && tracker.has_range(price) ==> tracker.range_with(
                    price,
                ) is Some
            }),
        ensures
            final(self).trackers == old(self).trackers.with(
                asset,
                final(self).trackers.at(asset),
            ),
            old(self).trackers.at(asset).recorded(price, now_ms, final(self).trackers.at(asset)),
    {
        let tracker = self.trackers.get_mut(asset);
        tracker.record_price(price, now_ms);
    }

    /// The average true range of an asset.
    pub fn get_atr(&self, asset: CryptoAsset) -> (r: Decimal)
        requires
            self.trackers.at(asset).ranges@.len() <= u32::MAX,
            self.trackers.at(asset).spec_atr() is Some,
        ensures
            Some(r@) == self.trackers.at(asset).spec_atr(),
    {
        self.trackers.get(asset).get_atr()
    }

    /// Whether an asset has at least two completed windows.
    pub fn is_warmed_up(&self, asset: CryptoAsset) -> (r: bool)
        ensures
            r == (self.trackers.at(asset).ranges@.len() >= 2),
    {
        self.trackers.get(asset).completed_windows() >= 2
    }

    /// Whether the status of an asset can be computed within range.
    pub open spec fn status_fits(self, asset: CryptoAsset) -> bool {
        let tracker = self.trackers.at(asset);
        &&& tracker.ranges@.len() <= u32::MAX
        &&& tracker.spec_atr() is Some
        &&& tracker.current_high is Some && tracker.current_low is Some ==> difference(
            num(tracker.current_high->0),
            num(tracker.current_low->0),
        ) is Some
    }

    /// Status of an asset as text.
    pub open spec fn spec_asset_status(self, asset: CryptoAsset) -> Seq<char> {
        let tracker = self.trackers.at(asset);
        let current = if tracker.current_high is Some && tracker.current_low is Some {
            difference(num(tracker.current_high->0), num(tracker.current_low->0))
        } else {
            Some(0)
        };
        status_chars(asset, tracker.spec_atr()->0, tracker.ranges@.len(), current->0)
    }

    /// Status of one asset.
    pub fn asset_status(&self, asset: CryptoAsset) -> (r: String)
        requires
            self.status_fits(asset),
        ensures
            r@ == self.spec_asset_status(asset),
    {
        let tracker = self.trackers.get(asset);
        let atr = tracker.get_atr();
        let windows: u64 = tracker.completed_windows() as u64;
        let current = tracker.current_range().unwrap_or(Decimal::zero());
        asset.name().to_owned().concat(":$").concat(fixed_text(atr, 2).as_str()).concat("(").concat(
            number_text(windows).as_str(),
        ).concat("w,cur=$").concat(fixed_text(current, 2).as_str()).concat(")")
    }

    /// Status of all assets, in one line.
    pub fn status_summary(&self) -> (r: String)
        requires
            forall|asset: CryptoAsset| #[trigger] self.status_fits(asset),
        ensures
            r@ == self.spec_asset_status(CryptoAsset::Btc) + " "@ + self.spec_asset_status(
                CryptoAsset::Eth,
            ) + " "@ + self.spec_asset_status(CryptoAsset::Sol) + " "@ + self.spec_asset_status(
                CryptoAsset::Xrp,
            ),
    {
        assert(self.status_fits(CryptoAsset::Btc));
        assert(self.status_fits(CryptoAsset::Eth));
        assert(self.status_fits(CryptoAsset::Sol));
        assert(self.status_fits(CryptoAsset::Xrp));
        let btc = self.asset_status(CryptoAsset::Btc);
        let eth = self.asset_status(CryptoAsset::Eth);
        let sol = self.asset_status(CryptoAsset::Sol);
        let xrp = self.asset_status(CryptoAsset::Xrp);
        btc.concat(" ").concat(eth.as_str()).concat(" ").concat(sol.as_str()).concat(" ").concat(
            xrp.as_str(),
        )
    }
}

/// The average true range never falls below its minimum.
pub proof fn law_atr_has_minimum(tracker: AssetTracker)
    requires
        tracker.spec_atr() is Some,
    ensures
        tracker.spec_atr()->0 >= tracker.min_atr@,
{
}

/// No more ranges are kept than are averaged.
pub proof fn law_ranges_are_bounded(
    before: AssetTracker,
    price: Decimal,
    now_ms: i64,
    after: AssetTracker,
)
    requires
        before.recorded(price, now_ms, after),
        before.ranges@.len() <= before.num_windows,
    ensures
        after.ranges@.len() <= after.num_windows,
{
    if before.completes(now_ms) && before.has_range(price) {
        assert(values(after.ranges@).len() == after.ranges@.len());
    }
}

/// The highest and the lowest of a list are in it, and the others lie between them.
pub proof fn law_highest_and_lowest(s: Seq<Decimal>)
    requires
        s.len() > 0,
    ensures
        forall|i: int| 0 <= i < s.len() ==> lowest(s) <= (#[trigger] s[i])@ <= highest(s),
        exists|i: int| 0 <= i < s.len() && (#[trigger] s[i])@ == highest(s),
        exists|i: int| 0 <= i < s.len() && (#[trigger] s[i])@ == lowest(s),
    decreases s.len(),
{
    let n = s.len() as int;
    if n == 1 {
        assert(s[0]@ == highest(s) && s[0]@ == lowest(s));
    } else {
        let rest = s.drop_last();
        law_highest_and_lowest(rest);
        assert(s[n - 1] == s.last());
        let i = choose|i: int| 0 <= i < rest.len() && (#[trigger] rest[i])@ == highest(rest);
        let j = choose|j: int| 0 <= j < rest.len() && (#[trigger] rest[j])@ == lowest(rest);
        assert(s[i] == rest[i] && s[j] == rest[j]);
        assert forall|k: int| 0 <= k < n implies lowest(s) <= (#[trigger] s[k])@ <= highest(s) by {
            if k < n - 1 {
                assert(s[k] == rest[k]);
            }
        }
    }
}

/// A window holds the highest and the lowest of its prices: neither is ever inside the other, and a
/// price moves them only outwards, to itself.
pub proof fn law_windows_hold_their_extremes(
    before: AssetTracker,
    price: Decimal,
    now_ms: i64,
    after: AssetTracker,
)
    requires
        before.recorded(price, now_ms, after),
        !before.completes(now_ms),
        before.window_start is Some ==> before.current_high is Some && before.current_low is Some,
    ensures
        after.current_high is Some && after.current_low is Some,
        after.current_low->0@ <= price@ <= after.current_high->0@,
        before.window_start is None ==> after.current_high->0@ == price@ && after.current_low->0@
            == price@ && after.window_start == Some(now_ms),
        before.window_start is Some ==> {
            &&& after.current_high->0@ >= before.current_high->0@
            &&& after.current_low->0@ <= before.current_low->0@
            &&& after.current_high->0@ == price@ || after.current_high == before.current_high
            &&& after.current_low->0@ == price@ || after.current_low == before.current_low
            &&& after.window_start == before.window_start
        },
        after.ranges@ == before.ranges@,
{
}

/// A window is complete once its length has passed. What it leaves behind is how far its highest
/// price was from its lowest, its last price included; the next window starts there and then.
pub proof fn law_completed_windows_leave_their_range(
    before: AssetTracker,
    price: Decimal,
    now_ms: i64,
    after: AssetTracker,
    high: int,
    low: int,
)
    requires
        before.recorded(price, now_ms, after),
        before.window_start is Some,
        before.current_high is Some && before.current_low is Some,
        now_ms - before.window_start->0 >= before.window_ms,
        before.window_ms > 0,
        before.num_windows > 0,
        high >= price@ && high >= before.current_high->0@ && (high == price@ || high
            == before.current_high->0@),
        low <= price@ && low <= before.current_low->0@ && (low == price@ || low
            == before.current_low->0@),
        representable(high - low),
    ensures
        after.ranges@.len() > 0,
        after.ranges@.last()@ == high - low,
        before.ranges@.len() < before.num_windows ==> after.ranges@.len() == before.ranges@.len() + 1,
        after.window_start == Some(now_ms),
        after.current_high == Some(price) && after.current_low == Some(price),
{
    lemma_unrounded(high - low);
    let grown = values(before.ranges@).push(high - low);
    let kept = last_of(grown, before.num_windows as int);
    assert(values(after.ranges@) == kept);
    assert(values(after.ranges@).len() == after.ranges@.len());
    assert(kept.last() == grown.last());
    assert(values(after.ranges@).last() == after.ranges@.last()@);
}

/// A window is not complete before its length has passed.
pub proof fn law_windows_take_their_time(tracker: AssetTracker, now_ms: i64)
    requires
        tracker.window_start is Some,
        tracker.window_ms > 0,
    ensures
        tracker.completes(now_ms) <==> now_ms - tracker.window_start->0 >= tracker.window_ms,
{
}

/// Where all windows had the same range, that is the average true range, unless it is below the
/// minimum; before any window is complete, it is the minimum.
pub proof fn law_average_of_equal_ranges(tracker: AssetTracker, range: int)
    requires
        forall|i: int| 0 <= i < tracker.ranges@.len() ==> (#[trigger] tracker.ranges@[i])@ == range,
        forall|n: int|
            0 <= n <= tracker.ranges@.len() ==> representable(#[trigger] multiple(n, range)),
    ensures
        tracker.ranges@.len() == 0 ==> tracker.spec_atr() == Some(tracker.min_atr@),
        tracker.ranges@.len() > 0 && range >= tracker.min_atr@ ==> tracker.spec_atr() == Some(range),
        tracker.ranges@.len() > 0 && range < tracker.min_atr@ ==> tracker.spec_atr() == Some(
            tracker.min_atr@,
        ),
{
    if tracker.ranges@.len() > 0 {
        law_mean_of_equals(tracker.ranges@, range);
    }
}

/// Prices are kept for a minute: the latest is always there, what is kept is the end of what was
/// there, and the oldest that is kept is at most a minute old.
pub proof fn law_prices_are_kept_for_a_minute(points: Seq<PricePoint>, now_ms: i64)
    ensures
        exists|n: int|
            {
                &&& 0 <= n <= points.len()
                &&& recent_points(points, now_ms) == #[trigger] points.skip(n)
                &&& forall|i: int|
                    0 <= i < n ==> now_ms - (#[trigger] points[i]).timestamp_ms > 60000
            },
        recent_points(points, now_ms).len() > 0 ==> now_ms - recent_points(
            points,
            now_ms,
        )[0].timestamp_ms <= 60000,
        points.len() > 0 && points.last().timestamp_ms == now_ms ==> recent_points(
            points,
            now_ms,
        ).len() > 0,
    decreases points.len(),
{
    if points.len() > 0 && elapsed(points[0].timestamp_ms, now_ms) > 60000 {
        let rest = points.skip(1);
        law_prices_are_kept_for_a_minute(rest, now_ms);
        let m = choose|n: int|
            {
                &&& 0 <= n <= rest.len()
                &&& recent_points(rest, now_ms) == #[trigger] rest.skip(n)
                &&& forall|i: int| 0 <= i < n ==> now_ms - (#[trigger] rest[i]).timestamp_ms > 60000
            };
        assert(points.skip(m + 1) =~= rest.skip(m));
        assert forall|i: int| 0 <= i < m + 1 implies now_ms - (#[trigger] points[i]).timestamp_ms
            > 60000 by {
            if i > 0 {
                assert(points[i] == rest[i - 1]);
            }
        }
        assert(points.len() > 1 ==> rest.last() == points.last());
        if points.len() == 1 {
            assert(points.last() == points[0]);
        }
    } else {
        assert(points.skip(0) =~= points);
    }
}

/// Milliseconds from one time to a later one; none to an earlier one.
pub proof fn law_time_elapses(from: i64, to: i64)
    ensures
        to >= from ==> elapsed(from, to) == to - from,
        to <= from ==> elapsed(from, to) == 0,
{
}

/// To warm up, prices are cut into chunks of one window each where there are enough of them, and the
/// range of a chunk spans all of its prices.
pub proof fn law_chunks_of_past_prices(prices: Seq<Decimal>, num_windows: int, from: int, i: int, j: int)
    requires
        num_windows > 0,
        0 <= from,
        from + chunk_len(prices, num_windows) <= prices.len(),
        from <= i < from + chunk_len(prices, num_windows),
        from <= j < from + chunk_len(prices, num_windows),
        chunk_range(chunk_at(prices, from, chunk_len(prices, num_windows))) is Some,
    ensures
        ({
            let len = chunk_len(prices, num_windows);
            let chunk = chunk_at(prices, from, len);
            &&& chunk.len() == len
            &&& lowest(chunk) <= prices[i]@ <= highest(chunk)
            &&& representable(prices[i]@ - prices[j]@) ==> chunk_range(chunk)->0 >= prices[i]@
                - prices[j]@
            &&& prices.len() >= 2 * num_windows ==> len * num_windows <= prices.len() < (len + 1)
                * num_windows
        }),
{
    let len = chunk_len(prices, num_windows);
    let chunk = chunk_at(prices, from, len);
    law_highest_and_lowest(chunk);
    assert(chunk[i - from] == prices[i] && chunk[j - from] == prices[j]);
    if representable(prices[i]@ - prices[j]@) {
        lemma_unrounded(prices[i]@ - prices[j]@);
        lemma_rounded_monotone(prices[i]@ - prices[j]@, 1, highest(chunk) - lowest(chunk), 1);
    }
    let n = prices.len() as int;
    let q = n / num_windows;
    assert(q * num_windows <= n < (q + 1) * num_windows) by (nonlinear_arith)
        requires
            num_windows > 0,
            q == n / num_windows,
    ;
    if n >= 2 * num_windows {
        assert(q >= 2) by (nonlinear_arith)
            requires
                n >= 2 * num_windows,
                num_windows > 0,
                n < (q + 1) * num_windows,
        ;
    }
}

/// Warming up with prices for one window adds the range of that window, and the current window is
/// left with the highest and lowest of the latest prices, from now on; other assets are left alone.
pub proof fn law_warming_up(
    before: AtrTracker,
    asset: CryptoAsset,
    prices: Seq<Decimal>,
    now_ms: i64,
    after: AtrTracker,
    other: CryptoAsset,
    i: int,
)
    requires
        before.warmed_to(asset, prices, now_ms, after),
        other != asset,
        prices.len() >= 2,
        before.trackers.at(asset).num_windows == 1,
        0 <= i < prices.len(),
    ensures
        after.trackers.at(other) == before.trackers.at(other),
        after.trackers.at(asset).window_start == Some(now_ms),
        after.trackers.at(asset).current_low is Some && after.trackers.at(asset).current_high is Some,
        after.trackers.at(asset).current_low->0@ <= prices[i]@
            <= after.trackers.at(asset).current_high->0@,
        after.trackers.at(asset).ranges@.len() == 1,
        after.trackers.at(asset).ranges@[0]@ == difference(
            Some(highest(prices)),
            Some(lowest(prices)),
        )->0,
{
    let was = before.trackers.at(asset);
    let is = after.trackers.at(asset);
    let len = chunk_len(prices, 1);
    assert(prices.len() as int / 1 == prices.len());
    assert(len == prices.len());
    assert(chunk_at(prices, 0, len) =~= prices);
    assert(last_of(prices, len) =~= prices);
    law_highest_and_lowest(prices);
    let grown = last_of(values(was.ranges@).push(chunk_range(prices)->0), 1);
    assert(warmed(grown, prices, len, len, 1) == grown);
    assert(warmed(values(was.ranges@), prices, 0, len, 1) == grown);
    assert(values(is.ranges@).len() == is.ranges@.len());
    assert(values(is.ranges@)[0] == is.ranges@[0]@);
    assert(prices[i]@ >= lowest(prices));
}

} // verus!
