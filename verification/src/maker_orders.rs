//! Resting orders and when to take them back.

use vstd::prelude::*;
use crate::decimal::{Decimal, difference, divided_by, lit, magnitude, num, product, sum, units};
use crate::table::{Table, ValueTest, lists};
use crate::types::Side;

verus! {

/// Settings of order management.
#[derive(Clone, Copy, Debug)]
pub struct MakerOrderConfig {
    /// Milliseconds after which an order is stale.
    pub stale_threshold_ms: i64,
    /// Price change, in basis points, from which an order is replaced.
    pub price_refresh_threshold_bps: u32,
    /// Most orders in one market.
    pub max_orders_per_market: usize,
}

impl Default for MakerOrderConfig {
    fn default() -> (r: MakerOrderConfig)
        ensures
            r.stale_threshold_ms == 5000,
            r.price_refresh_threshold_bps == 20,
            r.max_orders_per_market == 4,
    {
        MakerOrderConfig {
            stale_threshold_ms: 5000,
            price_refresh_threshold_bps: 20,
            max_orders_per_market: 4,
        }
    }
}

/// A resting order.
#[derive(Debug)]
pub struct ActiveMakerOrder {
    pub order_id: String,
    pub token_id: String,
    pub side: Side,
    pub price: Decimal,
    pub original_size: Decimal,
    pub remaining_size: Decimal,
    pub filled_size: Decimal,
    /// When it was placed, in milliseconds.
    pub placed_at_ms: i64,
    /// When it last changed, in milliseconds.
    pub updated_at_ms: i64,
}

impl Clone for ActiveMakerOrder {
    fn clone(&self) -> (r: ActiveMakerOrder)
        ensures
            r == *self,
    {
        ActiveMakerOrder {
            order_id: self.order_id.clone(),
            token_id: self.token_id.clone(),
            side: self.side,
            price: self.price,
            original_size: self.original_size,
            remaining_size: self.remaining_size,
            filled_size: self.filled_size,
            placed_at_ms: self.placed_at_ms,
            updated_at_ms: self.updated_at_ms,
        }
    }
}

impl ActiveMakerOrder {
    /// Distance of a price from that of the order, in basis points of the latter.
    pub open spec fn price_change(self, optimal_price: Decimal) -> Option<int> {
        product(
            divided_by(magnitude(difference(num(optimal_price), num(self.price))), self.price),
            lit(10000, 0),
        )
    }

    /// Whether the order is stale.
    pub open spec fn stale(self, now_ms: i64, threshold_ms: i64) -> bool {
        now_ms - self.placed_at_ms > threshold_ms
    }

    /// Whether the order should be replaced for its price: it is further away than the threshold.
    pub open spec fn mispriced(self, optimal_price: Decimal, threshold_bps: u32) -> bool {
        &&& self.price@ != 0
        &&& self.price_change(optimal_price)->0 > units(threshold_bps as int, 0)
    }

    /// Whether nothing of the order remains.
    pub open spec fn filled(self) -> bool {
        self.remaining_size@ <= 0
    }

    /// A new order.
    pub fn new(
        order_id: String,
        token_id: String,
        side: Side,
        price: Decimal,
        size: Decimal,
        now_ms: i64,
    ) -> (r: ActiveMakerOrder)
        ensures
            r.order_id == order_id,
            r.token_id == token_id,
            r.side == side,
            r.price == price,
            r.original_size == size,
            r.remaining_size == size,
            r.filled_size@ == 0,
            r.placed_at_ms == now_ms,
            r.updated_at_ms == now_ms,
    {
        ActiveMakerOrder {
            order_id,
            token_id,
            side,
            price,
            original_size: size,
            remaining_size: size,
            filled_size: Decimal::zero(),
            placed_at_ms: now_ms,
            updated_at_ms: now_ms,
        }
    }

    /// Whether the order is older than the threshold.
    pub fn is_stale(&self, now_ms: i64, threshold_ms: i64) -> (r: bool)
        ensures
            r == self.stale(now_ms, threshold_ms),
    {
        now_ms as i128 - self.placed_at_ms as i128 > threshold_ms as i128
    }

    /// Whether the best price is further from that of the order than the threshold.
    pub fn needs_price_refresh(&self, optimal_price: Decimal, threshold_bps: u32) -> (r: bool)
        requires
            self.price@ != 0 ==> self.price_change(optimal_price) is Some,
        ensures
            r == self.mispriced(optimal_price, threshold_bps),
    {
        if self.price.is_zero() {
            return false;
        }
        let diff = optimal_price.minus(self.price).abs();
        diff.over(self.price).times(Decimal::new(10000, 0)) > Decimal::from_i64(threshold_bps as i64)
    }

    /// Size filled after one more fill.
    pub open spec fn filled_with(self, size: Decimal) -> Option<int> {
        sum(num(self.filled_size), num(size))
    }

    /// Whether `after` is this order with a fill booked.
    pub open spec fn filled_further(self, size: Decimal, now_ms: i64, after: ActiveMakerOrder) -> bool {
        &&& after == (ActiveMakerOrder {
            filled_size: after.filled_size,
            remaining_size: after.remaining_size,
            updated_at_ms: now_ms,
            ..self
        })
        &&& Some(after.filled_size@) == self.filled_with(size)
        &&& Some(after.remaining_size@) == difference(
            num(self.original_size),
            self.filled_with(size),
        )
    }

    /// Books a fill.
    pub fn record_fill(&mut self, filled_size: Decimal, now_ms: i64)
        requires
            old(self).filled_with(filled_size) is Some,
            difference(num(old(self).original_size), old(self).filled_with(filled_size)) is Some,
        ensures
            old(self).filled_further(filled_size, now_ms, *final(self)),
    {
        self.filled_size = self.filled_size.plus(filled_size);
        self.remaining_size = self.original_size.minus(self.filled_size);
        self.updated_at_ms = now_ms;
    }

    /// Whether nothing of the order remains.
    pub fn is_fully_filled(&self) -> (r: bool)
        ensures
            r == self.filled(),
    {
        self.remaining_size <= Decimal::zero()
    }
}

/// Whether an order of the token is to be taken back before another is placed at a price.
pub open spec fn outdated(
    order: ActiveMakerOrder,
    token_id: Seq<char>,
    price: Decimal,
    now_ms: i64,
    config: MakerOrderConfig,
) -> bool {
    &&& order.token_id@ == token_id
    &&& (order.stale(now_ms, config.stale_threshold_ms) || order.mispriced(
        price,
        config.price_refresh_threshold_bps,
    ) || order.filled())
}

/// Ids of the orders of a token that are stale, off their price or filled.
pub fn outdated_orders(
    orders: &Table<ActiveMakerOrder>,
    token_id: &str,
    price: Decimal,
    now_ms: i64,
    config: &MakerOrderConfig,
) -> (r: Vec<String>)
    requires
        forall|k: Seq<char>| #[trigger]
            orders@.dom().contains(k) && orders@[k].token_id@ == token_id@ && !orders@[k].stale(
                now_ms,
                config.stale_threshold_ms,
            ) && orders@[k].price@ != 0 ==> orders@[k].price_change(price) is Some,
    ensures
        lists(
            r@,
            orders@,
            |o: ActiveMakerOrder| outdated(o, token_id@, price, now_ms, *config),
        ),
{
    let test = OutdatedTest { token_id: token_id.to_owned(), price, now_ms, config: *config };
    orders.keys_where(&test)
}

/// Test for orders that are to be taken back.
struct OutdatedTest {
    token_id: String,
    price: Decimal,
    now_ms: i64,
    config: MakerOrderConfig,
}

impl ValueTest<ActiveMakerOrder> for OutdatedTest {
    closed spec fn fits(&self, o: ActiveMakerOrder) -> bool {
        o.token_id@ == self.token_id@ && !o.stale(self.now_ms, self.config.stale_threshold_ms)
            && o.price@ != 0 ==> o.price_change(self.price) is Some
    }

    closed spec fn passes(&self, o: ActiveMakerOrder) -> bool {
        outdated(o, self.token_id@, self.price, self.now_ms, self.config)
    }

    fn check(&self, o: &ActiveMakerOrder) -> (r: bool) {
        o.token_id == self.token_id && (o.is_stale(self.now_ms, self.config.stale_threshold_ms)
            || o.needs_price_refresh(self.price, self.config.price_refresh_threshold_bps)
            || o.is_fully_filled())
    }
}

/// Whether an order is to be refreshed: it is stale or filled.
pub open spec fn worn_out(order: ActiveMakerOrder, now_ms: i64, config: MakerOrderConfig) -> bool {
    order.stale(now_ms, config.stale_threshold_ms) || order.filled()
}

/// Ids of the orders that are stale or filled.
pub fn worn_out_orders(orders: &Table<ActiveMakerOrder>, now_ms: i64, config: &MakerOrderConfig)
    -> (r: Vec<String>)
    ensures
        lists(r@, orders@, |o: ActiveMakerOrder| worn_out(o, now_ms, *config)),
{
    let test = WornOutTest { now_ms, config: *config };
    orders.keys_where(&test)
}

/// Test for orders that are stale or filled.
struct WornOutTest {
    now_ms: i64,
    config: MakerOrderConfig,
}

impl ValueTest<ActiveMakerOrder> for WornOutTest {
    closed spec fn fits(&self, o: ActiveMakerOrder) -> bool {
        true
    }

    closed spec fn passes(&self, o: ActiveMakerOrder) -> bool {
        worn_out(o, self.now_ms, self.config)
    }

    fn check(&self, o: &ActiveMakerOrder) -> (r: bool) {
        o.is_stale(self.now_ms, self.config.stale_threshold_ms) || o.is_fully_filled()
    }
}

/// Whether an order of this token, side and price is resting.
pub fn has_order_at(orders: &Table<ActiveMakerOrder>, token_id: &str, side: Side, price: Decimal)
    -> (r: bool)
    ensures
        r == exists|k: Seq<char>| #[trigger]
            orders@.dom().contains(k) && orders@[k].token_id@ == token_id@ && orders@[k].side == side
                && orders@[k].price@ == price@,
{
    let wanted = token_id.to_owned();
    let keys = orders.keys();
    let mut i: usize = 0;
    while i < keys.len()
        invariant
            i <= keys@.len(),
            wanted@ == token_id@,
            forall|j: int| 0 <= j < keys@.len() ==> orders@.dom().contains((#[trigger] keys@[j])@),
            forall|j: int|
                0 <= j < i ==> {
                    let o = orders@[(#[trigger] keys@[j])@];
                    !(o.token_id@ == token_id@ && o.side == side && o.price@ == price@)
                },
        decreases keys@.len() - i,
    {
        assert(orders@.dom().contains(keys@[i as int]@));
        if let Some(order) = orders.get(keys[i].as_str()) {
            if order.token_id == wanted && order.side == side && order.price == price {
                return true;
            }
        }
        i = i + 1;
    }
    proof {
        if exists|k: Seq<char>| #[trigger]
            orders@.dom().contains(k) && orders@[k].token_id@ == token_id@ && orders@[k].side == side
                && orders@[k].price@ == price@ {
            let k = choose|k: Seq<char>| #[trigger]
                orders@.dom().contains(k) && orders@[k].token_id@ == token_id@ && orders@[k].side
                    == side && orders@[k].price@ == price@;
            let m = choose|m: int| 0 <= m < keys@.len() && (#[trigger] keys@[m])@ == k;
            assert(orders@[keys@[m]@] == orders@[k]);
        }
    }
    false
}

/// As long as sizes are not rounded, what is filled and what remains make up the order.
pub proof fn law_fill_is_conserved(order: ActiveMakerOrder, size: Decimal)
    requires
        order.filled_with(size) == Some(order.filled_size@ + size@),
        difference(num(order.original_size), order.filled_with(size)) == Some(
            order.original_size@ - (order.filled_size@ + size@),
        ),
    ensures
        order.filled_with(size)->0 + difference(
            num(order.original_size),
            order.filled_with(size),
        )->0 == order.original_size@,
{
}

/// A fill adds to what is filled and takes as much from what remains; size, price, side and token of
/// the order stay. It is done when all of it is filled, and not before.
pub proof fn law_fills_add_up(
    before: ActiveMakerOrder,
    size: Decimal,
    now_ms: i64,
    after: ActiveMakerOrder,
)
    requires
        before.filled_further(size, now_ms, after),
        crate::decimal::representable(before.filled_size@ + size@),
        crate::decimal::representable(before.original_size@ - (before.filled_size@ + size@)),
    ensures
        after.filled_size@ == before.filled_size@ + size@,
        after.filled_size@ + after.remaining_size@ == before.original_size@,
        after.original_size == before.original_size,
        after.price == before.price,
        after.side == before.side,
        after.token_id == before.token_id,
        after.order_id == before.order_id,
        after.placed_at_ms == before.placed_at_ms,
        after.updated_at_ms == now_ms,
        after.filled() <==> before.filled_size@ + size@ >= before.original_size@,
{
    crate::decimal::law_arithmetic_is_exact(before.filled_size@, size@);
    crate::decimal::law_arithmetic_is_exact(
        before.original_size@,
        before.filled_size@ + size@,
    );
}

/// An order grows stale once it is older than the threshold, and stays so; one at the best price is
/// never replaced for its price, and prices equally far above and below are treated alike.
pub proof fn law_orders_go_stale(
    order: ActiveMakerOrder,
    price: Decimal,
    other: Decimal,
    earlier: i64,
    later: i64,
    threshold_ms: i64,
    threshold_bps: u32,
)
    requires
        earlier <= later,
    ensures
        order.stale(later, threshold_ms) <==> later > order.placed_at_ms + threshold_ms,
        order.stale(earlier, threshold_ms) ==> order.stale(later, threshold_ms),
        order.price@ > 0 && price@ == order.price@ ==> !order.mispriced(price, threshold_bps),
        price@ - order.price@ == order.price@ - other@ ==> order.mispriced(price, threshold_bps)
            == order.mispriced(other, threshold_bps),
{
    let d = price@ - order.price@;
    if order.price@ > 0 && price@ == order.price@ {
        crate::decimal::lemma_exact(0, 1, 0, 0);
        assert(0 * crate::decimal::pow10(28) == 0);
        crate::decimal::lemma_exact(0, order.price@, 0, 0);
        assert(0 * units(10000, 0) == 0);
        crate::decimal::lemma_exact(0, crate::decimal::pow10(28), 0, 0);
        crate::decimal::law_off_edge(0, order.price@);
        assert(order.price_change(price) == Some(0int));
        assert(units(threshold_bps as int, 0) >= 0) by (nonlinear_arith)
            requires
                units(threshold_bps as int, 0) == threshold_bps * crate::decimal::pow10(28),
                crate::decimal::pow10(28) >= 0,
                threshold_bps >= 0,
        ;
    }
    if d == order.price@ - other@ {
        assert(other@ - order.price@ == -d);
        crate::decimal::lemma_rounded_negated(d, 1);
    }
}

/// What is taken back before an order is placed: orders of the same token that are old, filled or too
/// far from the price; orders of other tokens stay.
pub proof fn law_what_is_taken_back(
    order: ActiveMakerOrder,
    token_id: Seq<char>,
    price: Decimal,
    now_ms: i64,
    config: MakerOrderConfig,
)
    ensures
        order.token_id@ != token_id ==> !outdated(order, token_id, price, now_ms, config),
        order.token_id@ == token_id && now_ms - order.placed_at_ms > config.stale_threshold_ms
            ==> outdated(order, token_id, price, now_ms, config),
        order.token_id@ == token_id && order.remaining_size@ <= 0 ==> outdated(
            order,
            token_id,
            price,
            now_ms,
            config,
        ),
        order.token_id@ == token_id && order.price@ != 0 && order.price_change(price)->0 > units(
            config.price_refresh_threshold_bps as int,
            0,
        ) ==> outdated(order, token_id, price, now_ms, config),
        outdated(order, token_id, price, now_ms, config) && now_ms - order.placed_at_ms
            <= config.stale_threshold_ms && order.remaining_size@ > 0 ==> order.price@ != 0
            && order.price_change(price)->0 > units(config.price_refresh_threshold_bps as int, 0),
        worn_out(order, now_ms, config) <==> now_ms - order.placed_at_ms
            > config.stale_threshold_ms || order.remaining_size@ <= 0,
{
}

} // verus!
