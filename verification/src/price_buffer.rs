//! Recent prices by time, to look up the price at the opening of a window.

use std::collections::VecDeque;
use vstd::prelude::*;
use crate::atr::last_of;
use crate::decimal::Decimal;
use crate::types::{ByAsset, CryptoAsset};

verus! {

/// Number of prices kept for each asset.
pub const CAPACITY: usize = 120;

/// Largest distance in milliseconds from the time that was asked for.
pub const MAX_DELTA_MS: u64 = 2000;

/// A price and its time in milliseconds.
#[derive(Clone, Copy, Debug)]
pub struct TimedPrice {
    pub at_ms: i64,
    pub price: Decimal,
}

/// Distance of two times.
pub open spec fn time_gap(a: i64, b: i64) -> int {
    if a >= b {
        a - b
    } else {
        b - a
    }
}

fn gap_ms(a: i64, b: i64) -> (r: u64)
    ensures
        r == time_gap(a, b),
{
    if a >= b {
        (a as i128 - b as i128) as u64
    } else {
        (b as i128 - a as i128) as u64
    }
}

/// Index of the first entry whose time is nearest to the target.
pub open spec fn nearest_index(entries: Seq<TimedPrice>, target_ms: i64) -> int
    decreases entries.len(),
{
    if entries.len() <= 1 {
        0
    } else {
        let best = nearest_index(entries.drop_last(), target_ms);
        if time_gap(entries.last().at_ms, target_ms) < time_gap(entries[best].at_ms, target_ms) {
            entries.len() - 1
        } else {
            best
        }
    }
}

/// Price at a time: that of the nearest entry, if it is near enough.
pub open spec fn price_near(entries: Seq<TimedPrice>, target_ms: i64) -> Option<Decimal> {
    let nearest = entries[nearest_index(entries, target_ms)];
    if entries.len() > 0 && time_gap(nearest.at_ms, target_ms) <= MAX_DELTA_MS {
        Some(nearest.price)
    } else {
        None
    }
}

/// Recent prices of all assets.
#[derive(Debug)]
pub struct PriceBuffer {
    /// Prices of an asset, the oldest first.
    pub entries: ByAsset<VecDeque<TimedPrice>>,
}

impl PriceBuffer {
    /// A buffer without prices.
    pub fn new() -> (r: PriceBuffer)
        ensures
            forall|asset: CryptoAsset| (#[trigger] r.entries.at(asset))@.len() == 0,
    {
        PriceBuffer {
            entries: ByAsset {
                btc: VecDeque::new(),
                eth: VecDeque::new(),
                sol: VecDeque::new(),
                xrp: VecDeque::new(),
            },
        }
    }

    /// Whether `after` is this buffer with a price added.
    pub open spec fn recorded(
        self,
        asset: CryptoAsset,
        at_ms: i64,
        price: Decimal,
        after: PriceBuffer,
    ) -> bool {
        &&& after.entries == self.entries.with(asset, after.entries.at(asset))
        &&& after.entries.at(asset)@ == last_of(
            self.entries.at(asset)@.push(TimedPrice { at_ms, price }),
            CAPACITY as int,
        )
    }

    /// Adds a price, dropping the oldest beyond the capacity.
    pub fn record(&mut self, asset: CryptoAsset, timestamp_ms: i64, price: Decimal)
        ensures
            old(self).recorded(asset, timestamp_ms, price, *final(self)),
    {
        let entries = self.entries.get_mut(asset);
        entries.push_back(TimedPrice { at_ms: timestamp_ms, price });
        let ghost all = entries@;
        let ghost mut dropped: int = 0;
        assert(all.skip(0) =~= all);
        while entries.len() > CAPACITY
            invariant
                0 <= dropped <= all.len(),
                entries@ == all.skip(dropped),
                dropped > 0 ==> entries@.len() >= CAPACITY,
            decreases entries@.len(),
        {
            let oldest = entries.pop_front();
            proof {
                dropped = dropped + 1;
                assert(entries@ =~= all.skip(dropped));
            }
        }
        assert(entries@ =~= last_of(all, CAPACITY as int));
    }

    /// Price nearest to a time; nothing if none is within two seconds of it.
    pub fn lookup(&self, asset: CryptoAsset, target_ms: i64) -> (r: Option<Decimal>)
        ensures
            r == price_near(self.entries.at(asset)@, target_ms),
    {
        let entries = self.entries.get(asset);
        if entries.len() == 0 {
            return None;
        }
        let mut best: usize = 0;
        let mut i: usize = 1;
        while i < entries.len()
            invariant
                1 <= i <= entries@.len(),
                best < i,
                best == nearest_index(entries@.take(i as int), target_ms),
            decreases entries@.len() - i,
        {
            assert(entries@.take(i + 1).drop_last() =~= entries@.take(i as int));
            if gap_ms(entries[i].at_ms, target_ms) < gap_ms(entries[best].at_ms, target_ms) {
                best = i;
            }
            i = i + 1;
        }
        assert(entries@.take(i as int) =~= entries@);
        if gap_ms(entries[best].at_ms, target_ms) <= MAX_DELTA_MS {
            Some(entries[best].price)
        } else {
            None
        }
    }
}

proof fn lemma_nearest_bounds(entries: Seq<TimedPrice>, target_ms: i64)
    requires
        entries.len() > 0,
    ensures
        0 <= nearest_index(entries, target_ms) < entries.len(),
        forall|i: int|
            0 <= i < entries.len() ==> time_gap(
                entries[nearest_index(entries, target_ms)].at_ms,
                target_ms,
            ) <= time_gap((#[trigger] entries[i]).at_ms, target_ms),
    decreases entries.len(),
{
    if entries.len() > 1 {
        let rest = entries.drop_last();
        lemma_nearest_bounds(rest, target_ms);
        let best = nearest_index(rest, target_ms);
        assert forall|i: int| 0 <= i < entries.len() implies time_gap(
            entries[nearest_index(entries, target_ms)].at_ms,
            target_ms,
        ) <= time_gap((#[trigger] entries[i]).at_ms, target_ms) by {
            if i < rest.len() {
                assert(rest[i] == entries[i]);
                assert(rest[best] == entries[best]);
            }
        }
    }
}

/// A price that is found is that of an entry within two seconds of the time, and no entry is
/// nearer; none is found only if no entry is that near.
pub proof fn law_lookup_is_nearest(entries: Seq<TimedPrice>, target_ms: i64)
    ensures
        match price_near(entries, target_ms) {
            Some(price) => exists|i: int|
                {
                    &&& 0 <= i < entries.len()
                    &&& (#[trigger] entries[i]).price == price
                    &&& time_gap(entries[i].at_ms, target_ms) <= 2000
                    &&& forall|j: int|
                        0 <= j < entries.len() ==> time_gap(entries[i].at_ms, target_ms)
                            <= time_gap((#[trigger] entries[j]).at_ms, target_ms)
                },
            None => forall|j: int|
                0 <= j < entries.len() ==> time_gap((#[trigger] entries[j]).at_ms, target_ms)
                    > 2000,
        },
{
    if entries.len() > 0 {
        lemma_nearest_bounds(entries, target_ms);
        let i = nearest_index(entries, target_ms);
        assert(entries[i].price == entries[i].price);
    }
}

/// A price that is added is the latest of its asset; earlier prices stay in order before it, only the
/// oldest ones giving way, and the prices of other assets are left alone.
pub proof fn law_recorded_prices_are_kept(
    before: PriceBuffer,
    asset: CryptoAsset,
    at_ms: i64,
    price: Decimal,
    after: PriceBuffer,
    other: CryptoAsset,
)
    requires
        before.recorded(asset, at_ms, price, after),
        before.entries.at(asset)@.len() <= 120,
    ensures
        ({
            let old_entries = before.entries.at(asset)@;
            let new_entries = after.entries.at(asset)@;
            &&& 0 < new_entries.len() <= 120
            &&& new_entries.last() == (TimedPrice { at_ms, price })
            &&& old_entries.len() < 120 ==> new_entries.drop_last() == old_entries
            &&& old_entries.len() == 120 ==> new_entries.drop_last() == old_entries.skip(1)
        }),
        other != asset ==> after.entries.at(other) == before.entries.at(other),
{
    let old_entries = before.entries.at(asset)@;
    let new_entries = after.entries.at(asset)@;
    if old_entries.len() < 120 {
        assert(new_entries.drop_last() =~= old_entries);
    } else {
        assert(new_entries.drop_last() =~= old_entries.skip(1));
    }
}

/// A price that was just recorded is found at its own time.
pub proof fn law_recorded_prices_are_found(
    before: PriceBuffer,
    asset: CryptoAsset,
    at_ms: i64,
    price: Decimal,
    after: PriceBuffer,
)
    requires
        before.recorded(asset, at_ms, price, after),
        before.entries.at(asset)@.len() <= 120,
        forall|i: int|
            0 <= i < before.entries.at(asset)@.len() ==> (#[trigger] before.entries.at(
                asset,
            )@[i]).at_ms != at_ms,
    ensures
        price_near(after.entries.at(asset)@, at_ms) == Some(price),
{
    let entries = after.entries.at(asset)@;
    law_recorded_prices_are_kept(before, asset, at_ms, price, after, asset);
    law_lookup_is_nearest(entries, at_ms);
    let n = entries.len() - 1;
    assert(entries[n] == entries.last());
    assert(time_gap(entries[n].at_ms, at_ms) == 0);
    let i = choose|i: int|
        {
            &&& 0 <= i < entries.len()
            &&& (#[trigger] entries[i]).price == price_near(entries, at_ms)->0
            &&& time_gap(entries[i].at_ms, at_ms) <= 2000
            &&& forall|j: int|
                0 <= j < entries.len() ==> time_gap(entries[i].at_ms, at_ms) <= time_gap(
                    (#[trigger] entries[j]).at_ms,
                    at_ms,
                )
        };
    if i < n {
        let old_entries = before.entries.at(asset)@;
        assert(entries[i] == entries.drop_last()[i]);
        if old_entries.len() < 120 {
            assert(entries[i] == old_entries[i]);
        } else {
            assert(entries[i] == old_entries[i + 1]);
        }
    }
}

/// The gap of two times is how far apart they are, in either order.
pub proof fn law_gap_of_times(a: i64, b: i64)
    ensures
        time_gap(a, b) == time_gap(b, a),
        a >= b ==> time_gap(a, b) == a - b,
{
}

} // verus!
