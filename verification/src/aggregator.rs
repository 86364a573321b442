//! Choice between the decisions of the engines.
//!
//! The engine with the highest priority that has an opportunity wins. Maker orders are passive and
//! may run beside the winner.

use vstd::prelude::*;
use crate::arb::ArbOpportunity;
use crate::config::EnginesConfig;
use crate::decimal::{
    Decimal, difference, law_arithmetic_is_exact, lemma_total_prefix, lit, num, product,
    representable, sum, total, units,
};
use crate::directional::DirectionalOpportunity;
use crate::maker::MakerOpportunity;
use crate::types::EngineType;

verus! {

/// Decision of one engine.
#[derive(Debug)]
pub enum EngineDecision {
    Arbitrage(ArbOpportunity),
    Directional(DirectionalOpportunity),
    Maker(Vec<MakerOpportunity>),
}

/// The rebates of a list of maker opportunities.
pub open spec fn rebates(opps: Seq<MakerOpportunity>) -> Seq<Decimal> {
    opps.map_values(|o: MakerOpportunity| o.expected_rebate)
}

impl EngineDecision {
    /// Engine that made the decision.
    pub open spec fn engine(self) -> EngineType {
        match self {
            EngineDecision::Arbitrage(_) => EngineType::Arbitrage,
            EngineDecision::Directional(_) => EngineType::Directional,
            EngineDecision::Maker(_) => EngineType::MakerRebates,
        }
    }

    /// Whether two decisions hold the same opportunities.
    pub open spec fn same(self, other: EngineDecision) -> bool {
        match (self, other) {
            (EngineDecision::Arbitrage(a), EngineDecision::Arbitrage(b)) => a == b,
            (EngineDecision::Directional(a), EngineDecision::Directional(b)) => a == b,
            (EngineDecision::Maker(a), EngineDecision::Maker(b)) => a@ == b@,
            _ => false,
        }
    }

    /// Profit or rebate to expect.
    pub open spec fn spec_expected_value(self) -> Option<int> {
        match self {
            EngineDecision::Arbitrage(o) => product(num(o.margin), num(o.max_size)),
            EngineDecision::Directional(o) => difference(lit(1, 0), num(o.combined_cost)),
            EngineDecision::Maker(opps) => total(rebates(opps@)),
        }
    }

    /// Engine that made the decision.
    pub fn engine_type(&self) -> (r: EngineType)
        ensures
            r == self.engine(),
    {
        match self {
            EngineDecision::Arbitrage(_) => EngineType::Arbitrage,
            EngineDecision::Directional(_) => EngineType::Directional,
            EngineDecision::Maker(_) => EngineType::MakerRebates,
        }
    }

    /// Event of the decision; empty for a maker decision without opportunities.
    pub fn event_id(&self) -> (r: &str)
        ensures
            r@ == match *self {
                EngineDecision::Arbitrage(o) => o.event_id@,
                EngineDecision::Directional(o) => o.event_id@,
                EngineDecision::Maker(opps) => if opps@.len() > 0 {
                    opps@[0].event_id@
                } else {
                    ""@
                },
            },
    {
        match self {
            EngineDecision::Arbitrage(o) => o.event_id.as_str(),
            EngineDecision::Directional(o) => o.event_id.as_str(),
            EngineDecision::Maker(opps) => if opps.len() > 0 {
                opps[0].event_id.as_str()
            } else {
                ""
            },
        }
    }

    /// Profit or rebate to expect: margin times size of an arbitrage, one less the cost of a pair
    /// for a directional trade, the sum of the rebates of maker orders.
    pub fn expected_value(&self) -> (r: Decimal)
        requires
            self.spec_expected_value() is Some,
        ensures
            Some(r@) == self.spec_expected_value(),
    {
        match self {
            EngineDecision::Arbitrage(o) => o.margin.times(o.max_size),
            EngineDecision::Directional(o) => o.expected_profit(),
            EngineDecision::Maker(opps) => sum_of_rebates(opps),
        }
    }

    /// Whether two decisions may be executed together: one of them is a maker decision.
    pub fn can_run_concurrently_with(&self, other: &EngineDecision) -> (r: bool)
        ensures
            r == (self is Maker || other is Maker),
    {
        matches!(self, EngineDecision::Maker(_)) || matches!(other, EngineDecision::Maker(_))
    }

    /// The arbitrage opportunity, if it is one.
    pub fn as_arbitrage(&self) -> (r: Option<&ArbOpportunity>)
        ensures
            match *self {
                EngineDecision::Arbitrage(o) => r is Some && *r->0 == o,
                _ => r is None,
            },
    {
        match self {
            EngineDecision::Arbitrage(o) => Some(o),
            _ => None,
        }
    }

    /// The directional opportunity, if it is one.
    pub fn as_directional(&self) -> (r: Option<&DirectionalOpportunity>)
        ensures
            match *self {
                EngineDecision::Directional(o) => r is Some && *r->0 == o,
                _ => r is None,
            },
    {
        match self {
            EngineDecision::Directional(o) => Some(o),
            _ => None,
        }
    }

    /// The maker opportunities, if it is a maker decision.
    pub fn as_maker(&self) -> (r: Option<&[MakerOpportunity]>)
        ensures
            match *self {
                EngineDecision::Maker(opps) => r is Some && r->0@ == opps@,
                _ => r is None,
            },
    {
        match self {
            EngineDecision::Maker(opps) => Some(opps.as_slice()),
            _ => None,
        }
    }
}

impl Clone for EngineDecision {
    fn clone(&self) -> (r: EngineDecision)
        ensures
            r.same(*self),
    {
        match self {
            EngineDecision::Arbitrage(o) => EngineDecision::Arbitrage(o.clone()),
            EngineDecision::Directional(o) => EngineDecision::Directional(o.clone()),
            EngineDecision::Maker(opps) => EngineDecision::Maker(copy_makers(opps)),
        }
    }
}

/// Sum of the expected rebates.
fn sum_of_rebates(opps: &Vec<MakerOpportunity>) -> (r: Decimal)
    requires
        total(rebates(opps@)) is Some,
    ensures
        Some(r@) == total(rebates(opps@)),
{
    let mut acc = Decimal::zero();
    let mut i: usize = 0;
    let ghost all = rebates(opps@);
    assert(all.take(0) =~= Seq::<Decimal>::empty());
    while i < opps.len()
        invariant
            i <= opps.len(),
            all == rebates(opps@),
            total(all) is Some,
            Some(acc@) == total(all.take(i as int)),
        decreases opps.len() - i,
    {
        proof {
            lemma_total_prefix(all, i as int);
        }
        acc = acc.plus(opps[i].expected_rebate);
        i = i + 1;
    }
    assert(all.take(i as int) =~= all);
    acc
}

/// A copy of a list of maker opportunities.
fn copy_makers(opps: &Vec<MakerOpportunity>) -> (r: Vec<MakerOpportunity>)
    ensures
        r@ == opps@,
{
    let mut out: Vec<MakerOpportunity> = Vec::new();
    let mut i: usize = 0;
    while i < opps.len()
        invariant
            i <= opps.len(),
            out@ =~= opps@.take(i as int),
        decreases opps.len() - i,
    {
        out.push(opps[i].clone());
        i = i + 1;
    }
    assert(out@ =~= opps@);
    out
}

/// What the engines' decisions come to.
#[derive(Debug)]
pub struct AggregatedDecision {
    /// Decision to execute.
    pub primary: Option<EngineDecision>,
    /// Maker orders to place beside it; only with a primary decision that is no maker decision.
    pub concurrent_maker: Option<Vec<MakerOpportunity>>,
    /// What each engine found.
    pub summary: DecisionSummary,
}

impl Clone for AggregatedDecision {
    fn clone(&self) -> (r: AggregatedDecision)
        ensures
            match (self.primary, r.primary) {
                (Some(a), Some(b)) => b.same(a),
                (None, None) => true,
                _ => false,
            },
            match (self.concurrent_maker, r.concurrent_maker) {
                (Some(a), Some(b)) => a@ == b@,
                (None, None) => true,
                _ => false,
            },
            r.summary == self.summary,
    {
        AggregatedDecision {
            primary: match &self.primary {
                Some(d) => Some(d.clone()),
                None => None,
            },
            concurrent_maker: match &self.concurrent_maker {
                Some(opps) => Some(copy_makers(opps)),
                None => None,
            },
            summary: self.summary.clone(),
        }
    }
}

impl AggregatedDecision {
    /// Whether there is a decision to execute.
    pub fn should_act(&self) -> (r: bool)
        ensures
            r == self.primary is Some,
    {
        self.primary.is_some()
    }

    /// All decisions to execute: the primary one, then the concurrent maker orders.
    pub fn all_decisions(&self) -> (r: Vec<EngineDecision>)
        ensures
            r@.len() == (if self.primary is Some { 1int } else { 0 }) + (
            if self.concurrent_maker is Some { 1int } else { 0 }),
            self.primary is Some ==> r@[0].same(self.primary->0),
            self.concurrent_maker is Some ==> r@.last() is Maker && r@.last()->Maker_0@
                == self.concurrent_maker->0@,
    {
        let mut decisions: Vec<EngineDecision> = Vec::new();
        if let Some(primary) = &self.primary {
            decisions.push(primary.clone());
        }
        if let Some(opps) = &self.concurrent_maker {
            decisions.push(EngineDecision::Maker(copy_makers(opps)));
        }
        decisions
    }

    /// Engine of the primary decision.
    pub fn primary_engine(&self) -> (r: Option<EngineType>)
        ensures
            r == match self.primary {
                Some(d) => Some(d.engine()),
                None => None,
            },
    {
        match &self.primary {
            Some(d) => Some(d.engine_type()),
            None => None,
        }
    }
}

impl Default for AggregatedDecision {
    fn default() -> (r: AggregatedDecision)
        ensures
            r.primary is None,
            r.concurrent_maker is None,
            r.summary.is_empty(),
    {
        AggregatedDecision {
            primary: None,
            concurrent_maker: None,
            summary: DecisionSummary::default(),
        }
    }
}

/// What each engine found, for observers.
#[derive(Debug)]
pub struct DecisionSummary {
    pub has_arb: bool,
    /// Margin in basis points.
    pub arb_margin_bps: Option<i32>,
    pub has_directional: bool,
    /// Name of the signal.
    pub directional_signal: Option<String>,
    pub has_maker: bool,
    pub maker_count: usize,
    /// Engine that won.
    pub winning_engine: Option<EngineType>,
    /// Why it won.
    pub selection_reason: Option<String>,
}

/// A copy of an optional text.
fn copy_text(text: &Option<String>) -> (r: Option<String>)
    ensures
        r == *text,
{
    match text {
        Some(s) => Some(s.clone()),
        None => None,
    }
}

impl Clone for DecisionSummary {
    fn clone(&self) -> (r: DecisionSummary)
        ensures
            r == *self,
    {
        DecisionSummary {
            has_arb: self.has_arb,
            arb_margin_bps: self.arb_margin_bps,
            has_directional: self.has_directional,
            directional_signal: copy_text(&self.directional_signal),
            has_maker: self.has_maker,
            maker_count: self.maker_count,
            winning_engine: self.winning_engine,
            selection_reason: copy_text(&self.selection_reason),
        }
    }
}

impl DecisionSummary {
    /// Whether no engine found anything.
    pub open spec fn is_empty(self) -> bool {
        &&& !self.has_arb && self.arb_margin_bps is None
        &&& !self.has_directional && self.directional_signal is None
        &&& !self.has_maker && self.maker_count == 0
        &&& self.winning_engine is None && self.selection_reason is None
    }
}

impl Default for DecisionSummary {
    fn default() -> (r: DecisionSummary)
        ensures
            r.is_empty(),
    {
        DecisionSummary {
            has_arb: false,
            arb_margin_bps: None,
            has_directional: false,
            directional_signal: None,
            has_maker: false,
            maker_count: 0,
            winning_engine: None,
            selection_reason: None,
        }
    }
}

/// Whether an engine has an opportunity.
pub open spec fn offers(
    engine: EngineType,
    arb: Option<ArbOpportunity>,
    directional: Option<DirectionalOpportunity>,
    maker: Seq<MakerOpportunity>,
) -> bool {
    match engine {
        EngineType::Arbitrage => arb is Some,
        EngineType::Directional => directional is Some,
        EngineType::MakerRebates => maker.len() > 0,
    }
}

/// The first engine of the list that has an opportunity.
pub open spec fn first_offering(
    priority: Seq<EngineType>,
    arb: Option<ArbOpportunity>,
    directional: Option<DirectionalOpportunity>,
    maker: Seq<MakerOpportunity>,
) -> Option<EngineType>
    decreases priority.len(),
{
    if priority.len() == 0 {
        None
    } else if offers(priority[0], arb, directional, maker) {
        Some(priority[0])
    } else {
        first_offering(priority.skip(1), arb, directional, maker)
    }
}

/// Position of an engine in the list.
pub open spec fn rank_of(priority: Seq<EngineType>, engine: EngineType) -> Option<int>
    decreases priority.len(),
{
    if priority.len() == 0 {
        None
    } else if priority[0] == engine {
        Some(0)
    } else {
        match rank_of(priority.skip(1), engine) {
            Some(r) => Some(r + 1),
            None => None,
        }
    }
}

/// Whether `a` comes before `b` in the list, or only `a` is in it.
pub open spec fn outranks(priority: Seq<EngineType>, a: EngineType, b: EngineType) -> bool {
    match (rank_of(priority, a), rank_of(priority, b)) {
        (Some(x), Some(y)) => x < y,
        (Some(_), None) => true,
        _ => false,
    }
}

/// Why an engine won.
pub open spec fn reason_of(winner: EngineType, arb_found: bool) -> Seq<char> {
    match winner {
        EngineType::Arbitrage => "highest priority with opportunity"@,
        EngineType::Directional => if arb_found {
            "highest priority with opportunity"@
        } else {
            "no arbitrage, directional signal present"@
        },
        EngineType::MakerRebates => "no higher-priority opportunities"@,
    }
}

/// Chooses between the decisions of the engines.
#[derive(Clone, Debug)]
pub struct DecisionAggregator {
    /// Engines by priority, the highest first.
    pub priority: Vec<EngineType>,
    /// Whether maker orders may run beside the primary decision.
    pub allow_concurrent_maker: bool,
}

impl DecisionAggregator {
    /// An aggregator with the configured priorities.
    pub fn new(config: &EnginesConfig) -> (r: DecisionAggregator)
        ensures
            r.priority@ == config.priority@,
            r.allow_concurrent_maker,
    {
        let mut priority: Vec<EngineType> = Vec::new();
        let mut i: usize = 0;
        while i < config.priority.len()
            invariant
                i <= config.priority.len(),
                priority@ =~= config.priority@.take(i as int),
            decreases config.priority.len() - i,
        {
            priority.push(config.priority[i]);
            i = i + 1;
        }
        assert(priority@ =~= config.priority@);
        DecisionAggregator { priority, allow_concurrent_maker: true }
    }

    /// An aggregator with the given priorities.
    pub fn with_priority(priority: Vec<EngineType>) -> (r: DecisionAggregator)
        ensures
            r.priority == priority,
            r.allow_concurrent_maker,
    {
        DecisionAggregator { priority, allow_concurrent_maker: true }
    }

    /// Sets whether maker orders may run beside the primary decision.
    pub fn set_allow_concurrent_maker(&mut self, allow: bool)
        ensures
            final(self).allow_concurrent_maker == allow,
            final(self).priority == old(self).priority,
    {
        self.allow_concurrent_maker = allow;
    }

    /// Whether `r` is the choice between what the engines found.
    pub open spec fn decides(
        self,
        arb: Option<ArbOpportunity>,
        directional: Option<DirectionalOpportunity>,
        maker: Seq<MakerOpportunity>,
        r: AggregatedDecision,
    ) -> bool {
        &&& r.summary.has_arb == arb is Some
        &&& r.summary.arb_margin_bps == match arb {
            Some(o) => Some(o.margin_bps),
            None => None,
        }
        &&& r.summary.has_directional == directional is Some
        &&& match directional {
            Some(o) => r.summary.directional_signal is Some && r.summary.directional_signal->0@
                == o.signal.spec_variant_name(),
            None => r.summary.directional_signal is None,
        }
        &&& r.summary.has_maker == (maker.len() > 0)
        &&& r.summary.maker_count == maker.len()
        &&& r.summary.winning_engine == first_offering(self.priority@, arb, directional, maker)
        &&& match first_offering(self.priority@, arb, directional, maker) {
            Some(winner) => {
                &&& r.summary.selection_reason is Some
                &&& r.summary.selection_reason->0@ == reason_of(winner, arb is Some)
                &&& r.primary is Some
                &&& match winner {
                    EngineType::Arbitrage => r.primary->0 == EngineDecision::Arbitrage(arb->0),
                    EngineType::Directional => r.primary->0 == EngineDecision::Directional(
                        directional->0,
                    ),
                    EngineType::MakerRebates => r.primary->0 is Maker && r.primary->0->Maker_0@
                        == maker,
                }
                &&& r.concurrent_maker is Some <==> self.allow_concurrent_maker && maker.len() > 0
                    && winner != EngineType::MakerRebates && self.priority@.contains(
                    EngineType::MakerRebates,
                )
                &&& r.concurrent_maker is Some ==> r.concurrent_maker->0@ == maker
            },
            None => r.summary.selection_reason is None && r.primary is None
                && r.concurrent_maker is None,
        }
    }

    /// Chooses between what the engines found.
    pub fn aggregate(
        &self,
        arb: Option<ArbOpportunity>,
        directional: Option<DirectionalOpportunity>,
        maker: Vec<MakerOpportunity>,
    ) -> (r: AggregatedDecision)
        ensures
            self.decides(arb, directional, maker@, r),
    {
        let arb_found = arb.is_some();
        let arb_margin_bps: Option<i32> = match &arb {
            Some(o) => Some(o.margin_bps),
            None => None,
        };
        let directional_found = directional.is_some();
        let directional_signal = match &directional {
            Some(o) => Some(o.signal.variant_name().to_owned()),
            None => None,
        };
        let maker_count: usize = maker.len();
        let mut winner: Option<EngineType> = None;
        let mut maker_listed = false;
        let mut i: usize = 0;
        assert(self.priority@.skip(0) =~= self.priority@);
        while i < self.priority.len()
            invariant
                i <= self.priority.len(),
                arb_found == arb is Some,
                directional_found == directional is Some,
                maker_count == maker@.len(),
                maker_listed == self.priority@.take(i as int).contains(EngineType::MakerRebates),
                first_offering(self.priority@, arb, directional, maker@) == if winner is Some {
                    winner
                } else {
                    first_offering(self.priority@.skip(i as int), arb, directional, maker@)
                },
                winner is Some ==> offers(winner->0, arb, directional, maker@),
            decreases self.priority.len() - i,
        {
            let engine = self.priority[i];
            let found = match engine {
                EngineType::Arbitrage => arb_found,
                EngineType::Directional => directional_found,
                EngineType::MakerRebates => {
                    maker_listed = true;
                    maker_count > 0
                },
            };
            if found && winner.is_none() {
                winner = Some(engine);
            }
            proof {
                let seen = self.priority@.take(i as int);
                let more = self.priority@.take(i + 1);
                assert(more =~= seen.push(engine));
                assert(more[i as int] == engine);
                if seen.contains(EngineType::MakerRebates) {
                    let j = choose|j: int| 0 <= j < seen.len() && seen[j] == EngineType::MakerRebates;
                    assert(more[j] == EngineType::MakerRebates);
                }
                if more.contains(EngineType::MakerRebates) && engine != EngineType::MakerRebates {
                    let j = choose|j: int| 0 <= j < more.len() && more[j] == EngineType::MakerRebates;
                    assert(seen[j] == EngineType::MakerRebates);
                }
                assert(self.priority@.skip(i as int).skip(1) =~= self.priority@.skip(i + 1));
            }
            i = i + 1;
        }
        assert(self.priority@.take(i as int) =~= self.priority@);
        let selection_reason = match winner {
            Some(EngineType::Arbitrage) => Some("highest priority with opportunity".to_owned()),
            Some(EngineType::Directional) => Some(
                if arb_found {
                    "highest priority with opportunity".to_owned()
                } else {
                    "no arbitrage, directional signal present".to_owned()
                },
            ),
            Some(EngineType::MakerRebates) => Some("no higher-priority opportunities".to_owned()),
            None => None,
        };
        let summary = DecisionSummary {
            has_arb: arb_found,
            arb_margin_bps,
            has_directional: directional_found,
            directional_signal,
            has_maker: maker_count > 0,
            maker_count,
            winning_engine: winner,
            selection_reason,
        };
        let beside = self.allow_concurrent_maker && maker_count > 0 && maker_listed;
        match winner {
            Some(EngineType::Arbitrage) => AggregatedDecision {
                primary: Some(EngineDecision::Arbitrage(arb.unwrap())),
                concurrent_maker: if beside {
                    Some(maker)
                } else {
                    None
                },
                summary,
            },
            Some(EngineType::Directional) => AggregatedDecision {
                primary: Some(EngineDecision::Directional(directional.unwrap())),
                concurrent_maker: if beside {
                    Some(maker)
                } else {
                    None
                },
                summary,
            },
            Some(EngineType::MakerRebates) => AggregatedDecision {
                primary: Some(EngineDecision::Maker(maker)),
                concurrent_maker: None,
                summary,
            },
            None => AggregatedDecision { primary: None, concurrent_maker: None, summary },
        }
    }

    /// Rank of an engine, 0 being the highest.
    pub fn get_priority(&self, engine: EngineType) -> (r: Option<usize>)
        ensures
            match r {
                Some(i) => rank_of(self.priority@, engine) == Some(i as int),
                None => rank_of(self.priority@, engine) is None,
            },
    {
        let mut i: usize = 0;
        assert(self.priority@.skip(0) =~= self.priority@);
        while i < self.priority.len()
            invariant
                i <= self.priority.len(),
                rank_of(self.priority@, engine) == match rank_of(
                    self.priority@.skip(i as int),
                    engine,
                ) {
                    Some(r) => Some(r + i),
                    None => None,
                },
            decreases self.priority.len() - i,
        {
            assert(self.priority@.skip(i as int).skip(1) =~= self.priority@.skip(i + 1));
            if self.priority[i] == engine {
                return Some(i);
            }
            i = i + 1;
        }
        None
    }

    /// Whether engine `a` has a higher priority than engine `b`.
    pub fn has_higher_priority(&self, a: EngineType, b: EngineType) -> (r: bool)
        ensures
            r == outranks(self.priority@, a, b),
    {
        match (self.get_priority(a), self.get_priority(b)) {
            (Some(pa), Some(pb)) => pa < pb,
            (Some(_), None) => true,
            (None, _) => false,
        }
    }
}

impl Default for DecisionAggregator {
    fn default() -> (r: DecisionAggregator)
        ensures
            r.priority@ == seq![
                EngineType::Arbitrage,
                EngineType::Directional,
                EngineType::MakerRebates,
            ],
            r.allow_concurrent_maker,
    {
        DecisionAggregator {
            priority: vec![
                EngineType::Arbitrage,
                EngineType::Directional,
                EngineType::MakerRebates,
            ],
            allow_concurrent_maker: true,
        }
    }
}

proof fn lemma_rank_bounds(priority: Seq<EngineType>, engine: EngineType)
    ensures
        match rank_of(priority, engine) {
            Some(r) => 0 <= r < priority.len() && priority[r] == engine,
            None => !priority.contains(engine),
        },
    decreases priority.len(),
{
    if priority.len() > 0 && priority[0] != engine {
        let rest = priority.skip(1);
        lemma_rank_bounds(rest, engine);
        if rank_of(rest, engine) is None && priority.contains(engine) {
            let j = choose|j: int| 0 <= j < priority.len() && priority[j] == engine;
            assert(rest[j - 1] == engine);
        }
    }
}

/// Ranking is a strict order: no engine outranks itself, two never outrank each other, and
/// outranking carries over.
pub proof fn law_ranking_is_strict(
    priority: Seq<EngineType>,
    a: EngineType,
    b: EngineType,
    c: EngineType,
)
    ensures
        !outranks(priority, a, a),
        !(outranks(priority, a, b) && outranks(priority, b, a)),
        outranks(priority, a, b) && outranks(priority, b, c) ==> outranks(priority, a, c),
{
}

/// The winner has an opportunity, is on the list, and no engine with an opportunity outranks it.
pub proof fn law_winner_is_highest(
    priority: Seq<EngineType>,
    arb: Option<ArbOpportunity>,
    directional: Option<DirectionalOpportunity>,
    maker: Seq<MakerOpportunity>,
    other: EngineType,
)
    requires
        offers(other, arb, directional, maker),
    ensures
        match first_offering(priority, arb, directional, maker) {
            Some(winner) => {
                &&& offers(winner, arb, directional, maker)
                &&& priority.contains(winner)
                &&& !outranks(priority, other, winner)
            },
            None => !priority.contains(other),
        },
    decreases priority.len(),
{
    if priority.len() > 0 {
        if offers(priority[0], arb, directional, maker) {
            assert(priority.contains(priority[0]));
            lemma_rank_bounds(priority, other);
        } else {
            let rest = priority.skip(1);
            law_winner_is_highest(rest, arb, directional, maker, other);
            match first_offering(rest, arb, directional, maker) {
                Some(winner) => {
                    let j = choose|j: int| 0 <= j < rest.len() && rest[j] == winner;
                    assert(priority[j + 1] == winner);
                },
                None => {
                    if priority.contains(other) {
                        let j = choose|j: int| 0 <= j < priority.len() && priority[j] == other;
                        assert(rest[j - 1] == other);
                    }
                },
            }
        }
    }
}

proof fn lemma_winner_offers(
    priority: Seq<EngineType>,
    arb: Option<ArbOpportunity>,
    directional: Option<DirectionalOpportunity>,
    maker: Seq<MakerOpportunity>,
)
    ensures
        match first_offering(priority, arb, directional, maker) {
            Some(winner) => offers(winner, arb, directional, maker),
            None => true,
        },
    decreases priority.len(),
{
    if priority.len() > 0 && !offers(priority[0], arb, directional, maker) {
        lemma_winner_offers(priority.skip(1), arb, directional, maker);
    }
}

/// What is executed is what the engine that won has found, unchanged, and nothing is executed where
/// no engine on the list has found anything. Maker orders run beside another decision, never beside
/// themselves, and only where they are allowed to.
pub proof fn law_the_winner_is_executed(
    aggregator: DecisionAggregator,
    arb: Option<ArbOpportunity>,
    directional: Option<DirectionalOpportunity>,
    maker: Seq<MakerOpportunity>,
    r: AggregatedDecision,
)
    requires
        aggregator.decides(arb, directional, maker, r),
    ensures
        r.primary is None ==> r.concurrent_maker is None && r.summary.winning_engine is None,
        match r.primary {
            Some(EngineDecision::Arbitrage(o)) => arb == Some(o) && r.summary.winning_engine == Some(
                EngineType::Arbitrage,
            ),
            Some(EngineDecision::Directional(o)) => directional == Some(o)
                && r.summary.winning_engine == Some(EngineType::Directional),
            Some(EngineDecision::Maker(opps)) => opps@ == maker && maker.len() > 0
                && r.concurrent_maker is None && r.summary.winning_engine == Some(
                EngineType::MakerRebates,
            ),
            None => true,
        },
        r.concurrent_maker is Some ==> r.concurrent_maker->0@ == maker && maker.len() > 0
            && aggregator.allow_concurrent_maker && aggregator.priority@.contains(
            EngineType::MakerRebates,
        ) && !(r.primary->0 is Maker),
        aggregator.allow_concurrent_maker && maker.len() > 0 && aggregator.priority@.contains(
            EngineType::MakerRebates,
        ) && r.primary is Some && !(r.primary->0 is Maker) ==> r.concurrent_maker is Some,
        r.summary.has_arb == arb is Some,
        r.summary.has_directional == directional is Some,
        r.summary.maker_count == maker.len(),
{
    if r.primary is Some {
        let winner = first_offering(aggregator.priority@, arb, directional, maker)->0;
        lemma_winner_offers(aggregator.priority@, arb, directional, maker);
    }
}

/// In the usual order an arbitrage is taken wherever there is one, a directional trade only without
/// one, and maker orders come first only without either.
pub proof fn law_usual_order(
    aggregator: DecisionAggregator,
    arb: Option<ArbOpportunity>,
    directional: Option<DirectionalOpportunity>,
    maker: Seq<MakerOpportunity>,
    r: AggregatedDecision,
)
    requires
        aggregator.priority@ == seq![
            EngineType::Arbitrage,
            EngineType::Directional,
            EngineType::MakerRebates,
        ],
        aggregator.decides(arb, directional, maker, r),
    ensures
        arb is Some ==> r.primary == Some(EngineDecision::Arbitrage(arb->0)),
        arb is None && directional is Some ==> r.primary == Some(
            EngineDecision::Directional(directional->0),
        ),
        arb is None && directional is None && maker.len() > 0 ==> r.primary is Some
            && r.primary->0 is Maker && r.primary->0->Maker_0@ == maker,
        arb is None && directional is None && maker.len() == 0 ==> r.primary is None,
{
    let p = aggregator.priority@;
    reveal_with_fuel(first_offering, 4);
    assert(p.skip(1)[0] == EngineType::Directional);
    assert(p.skip(1).skip(1)[0] == EngineType::MakerRebates);
}

/// What a decision is worth: an arbitrage its margin on every pair, a directional trade what is left
/// of a dollar after a pair, maker orders all of their rebates.
pub proof fn law_expected_value(d: EngineDecision)
    ensures
        d is Arbitrage ==> d.spec_expected_value() == product(
            num(d->Arbitrage_0.max_size),
            num(d->Arbitrage_0.margin),
        ),
        d is Arbitrage && d->Arbitrage_0.max_size@ == units(1, 0) && representable(
            d->Arbitrage_0.margin@,
        ) ==> d.spec_expected_value() == Some(d->Arbitrage_0.margin@),
        d is Directional && representable(units(1, 0) - d->Directional_0.combined_cost@)
            ==> d.spec_expected_value() == Some(units(1, 0) - d->Directional_0.combined_cost@),
        d is Maker && d->Maker_0@.len() == 0 ==> d.spec_expected_value() == Some(0int),
        d is Maker && d->Maker_0@.len() == 1 && representable(d->Maker_0@[0].expected_rebate@)
            ==> d.spec_expected_value() == Some(d->Maker_0@[0].expected_rebate@),
{
    match d {
        EngineDecision::Arbitrage(o) => {
            law_arithmetic_is_exact(o.margin@, o.max_size@);
            if o.max_size@ == units(1, 0) {
                assert(num(o.max_size) == lit(1, 0));
            }
        },
        EngineDecision::Directional(o) => {
            law_arithmetic_is_exact(units(1, 0), o.combined_cost@);
        },
        EngineDecision::Maker(opps) => {
            if opps@.len() == 1 {
                let s = rebates(opps@);
                assert(s.drop_last() =~= Seq::<Decimal>::empty());
                assert(total(s.drop_last()) == Some(0int));
                assert(s.last() == opps@[0].expected_rebate);
                assert(total(s) == sum(Some(0int), Some(opps@[0].expected_rebate@)));
                law_arithmetic_is_exact(0, opps@[0].expected_rebate@);
            }
        },
    }
}

} // verus!
