//! Fills and settlements as rows of a table, and the figures of a session.

use vstd::prelude::*;
use vstd::string::*;
use crate::decimal::{
    Decimal, divided_by, lemma_at_most, lemma_rounded_monotone, lemma_sum_fits, lemma_unrounded,
    lit, max_units, num, pow10, product, quotient, representable, sum, units,
};
use crate::decision_log::{csv_line, decimal_or_empty, optional_decimal_text};
use crate::text::{
    concat_all, decimal_chars, decimal_text, digits, fixed_chars, fixed_text, flat, is_date,
    join_all, joined, millis_pattern, number_text, parse_decimal, parsed, parsed_value,
    signed_digits, signed_text, split, split_text, texts, utc_chars, utc_text, words_pattern,
};
use crate::types::CryptoAsset;

verus! {

/// Kind of a row.
#[derive(Clone, Copy, Debug, PartialEq, Eq, Structural)]
pub enum TradeRecordType {
    Fill,
    Settle,
}

impl TradeRecordType {
    /// Name of the kind.
    pub open spec fn spec_text(self) -> Seq<char> {
        match self {
            TradeRecordType::Fill => "FILL"@,
            TradeRecordType::Settle => "SETTLE"@,
        }
    }

    /// Name of the kind.
    pub fn to_string(&self) -> (r: String)
        ensures
            r@ == self.spec_text(),
    {
        match self {
            TradeRecordType::Fill => "FILL".to_owned(),
            TradeRecordType::Settle => "SETTLE".to_owned(),
        }
    }
}

/// A row of the log.
#[derive(Clone, Debug)]
pub struct TradeRow {
    /// Time in milliseconds since 1970.
    pub timestamp_ms: i64,
    pub mode: String,
    pub record_type: TradeRecordType,
    pub event_id: String,
    pub asset: CryptoAsset,
    pub outcome: String,
    pub shares: Decimal,
    pub price: Decimal,
    pub fee: Decimal,
    pub cost: Decimal,
    pub strike_price: Decimal,
    pub spot_price: Decimal,
    pub signal: String,
    pub confidence: Decimal,
    pub balance: Decimal,
    pub yes_wins: Option<bool>,
    pub yes_shares_after: Decimal,
    pub no_shares_after: Decimal,
    pub cost_basis_after: Decimal,
    pub payout: Option<Decimal>,
    pub realized_pnl: Option<Decimal>,
}

/// An optional truth value as text; empty where there is none.
pub open spec fn flag_or_empty(flag: Option<bool>) -> Seq<char> {
    match flag {
        Some(true) => "true"@,
        Some(false) => "false"@,
        None => ""@,
    }
}

/// The names of the columns, as a line.
pub fn csv_header() -> (r: &'static str)
    ensures
        r@ == "timestamp,mode,type,event_id,asset,outcome,shares,price,fee,cost,strike_price,spot_price,signal,confidence,balance,yes_wins,yes_shares_after,no_shares_after,cost_basis_after,payout,realized_pnl\n"@,
{
    "timestamp,mode,type,event_id,asset,outcome,shares,price,fee,cost,strike_price,spot_price,signal,confidence,balance,yes_wins,yes_shares_after,no_shares_after,cost_basis_after,payout,realized_pnl\n"
}

impl TradeRow {
    /// The fields of the row.
    pub open spec fn fields(self) -> Seq<Seq<char>> {
        seq![
            utc_chars(self.timestamp_ms as int, millis_pattern()),
            self.mode@,
            self.record_type.spec_text(),
            self.event_id@,
            self.asset.spec_name(),
            self.outcome@,
            decimal_chars(self.shares),
            decimal_chars(self.price),
            decimal_chars(self.fee),
            decimal_chars(self.cost),
            decimal_chars(self.strike_price),
            decimal_chars(self.spot_price),
            self.signal@,
            decimal_chars(self.confidence),
            decimal_chars(self.balance),
            flag_or_empty(self.yes_wins),
            decimal_chars(self.yes_shares_after),
            decimal_chars(self.no_shares_after),
            decimal_chars(self.cost_basis_after),
            decimal_or_empty(self.payout),
            decimal_or_empty(self.realized_pnl),
        ]
    }

    /// The row as a line.
    pub fn csv_row(&self) -> (r: String)
        requires
            is_date(self.timestamp_ms as int),
        ensures
            r@ == csv_line(self.fields()),
            parsed(decimal_chars(self.cost)) == Some(
                (self.cost.spec_mantissa(), self.cost.spec_scale()),
            ),
            match self.realized_pnl {
                Some(pnl) => parsed(decimal_chars(pnl)) == Some(
                    (pnl.spec_mantissa(), pnl.spec_scale()),
                ),
                None => true,
            },
    {
        let mut row: Vec<String> = Vec::new();
        row.push(utc_text(self.timestamp_ms, "%Y-%m-%dT%H:%M:%S%.3fZ"));
        row.push(self.mode.clone());
        row.push(self.record_type.to_string());
        row.push(self.event_id.clone());
        row.push(self.asset.name().to_owned());
        row.push(self.outcome.clone());
        row.push(decimal_text(self.shares));
        row.push(decimal_text(self.price));
        row.push(decimal_text(self.fee));
        row.push(decimal_text(self.cost));
        row.push(decimal_text(self.strike_price));
        row.push(decimal_text(self.spot_price));
        row.push(self.signal.clone());
        row.push(decimal_text(self.confidence));
        row.push(decimal_text(self.balance));
        row.push(
            match self.yes_wins {
                Some(flag) => if flag {
                    "true".to_owned()
                } else {
                    "false".to_owned()
                },
                None => "".to_owned(),
            },
        );
        row.push(decimal_text(self.yes_shares_after));
        row.push(decimal_text(self.no_shares_after));
        row.push(decimal_text(self.cost_basis_after));
        row.push(optional_decimal_text(self.payout));
        row.push(
            match self.realized_pnl {
                Some(pnl) => decimal_text(pnl),
                None => String::new(),
            },
        );
        assert(texts(row@) =~= self.fields());
        join_all(&row, ",").concat("\n")
    }
}

/// A fill, as it is logged.
#[derive(Clone, Debug)]
pub struct FillEntry {
    pub timestamp_ms: i64,
    pub mode: String,
    pub event_id: String,
    pub asset: CryptoAsset,
    /// "YES" or "NO".
    pub outcome: String,
    pub shares: Decimal,
    pub price: Decimal,
    pub fee: Decimal,
    pub cost: Decimal,
    pub strike_price: Decimal,
    pub spot_price: Decimal,
    pub signal: String,
    pub confidence: Decimal,
    pub balance: Decimal,
    pub yes_shares_after: Decimal,
    pub no_shares_after: Decimal,
    pub cost_basis_after: Decimal,
}

impl FillEntry {
    /// The row of a fill.
    pub fn row(self) -> (r: TradeRow)
        ensures
            r == (TradeRow {
                timestamp_ms: self.timestamp_ms,
                mode: self.mode,
                record_type: TradeRecordType::Fill,
                event_id: self.event_id,
                asset: self.asset,
                outcome: self.outcome,
                shares: self.shares,
                price: self.price,
                fee: self.fee,
                cost: self.cost,
                strike_price: self.strike_price,
                spot_price: self.spot_price,
                signal: self.signal,
                confidence: self.confidence,
                balance: self.balance,
                yes_wins: None,
                yes_shares_after: self.yes_shares_after,
                no_shares_after: self.no_shares_after,
                cost_basis_after: self.cost_basis_after,
                payout: None,
                realized_pnl: None,
            }),
    {
        TradeRow {
            timestamp_ms: self.timestamp_ms,
            mode: self.mode,
            record_type: TradeRecordType::Fill,
            event_id: self.event_id,
            asset: self.asset,
            outcome: self.outcome,
            shares: self.shares,
            price: self.price,
            fee: self.fee,
            cost: self.cost,
            strike_price: self.strike_price,
            spot_price: self.spot_price,
            signal: self.signal,
            confidence: self.confidence,
            balance: self.balance,
            yes_wins: None,
            yes_shares_after: self.yes_shares_after,
            no_shares_after: self.no_shares_after,
            cost_basis_after: self.cost_basis_after,
            payout: None,
            realized_pnl: None,
        }
    }
}

/// A settlement, as it is logged.
#[derive(Clone, Debug)]
pub struct SettlementEntry {
    pub timestamp_ms: i64,
    pub mode: String,
    pub event_id: String,
    pub asset: CryptoAsset,
    pub yes_wins: bool,
    pub strike_price: Decimal,
    pub final_spot: Decimal,
    pub yes_shares: Decimal,
    pub no_shares: Decimal,
    pub cost_basis: Decimal,
    pub payout: Decimal,
    pub realized_pnl: Decimal,
    pub balance: Decimal,
}

impl SettlementEntry {
    /// The row of a settlement.
    pub fn row(self) -> (r: TradeRow)
        requires
            sum(num(self.yes_shares), num(self.no_shares)) is Some,
        ensures
            r.timestamp_ms == self.timestamp_ms,
            r.mode == self.mode,
            r.record_type == TradeRecordType::Settle,
            r.event_id == self.event_id,
            r.asset == self.asset,
            r.outcome@ == if self.yes_wins {
                "YES_WINS"@
            } else {
                "NO_WINS"@
            },
            Some(r.shares@) == sum(num(self.yes_shares), num(self.no_shares)),
            r.price@ == 0,
            r.fee@ == 0,
            r.cost == self.cost_basis,
            r.strike_price == self.strike_price,
            r.spot_price == self.final_spot,
            r.signal@ == ""@,
            r.confidence@ == 0,
            r.balance == self.balance,
            r.yes_wins == Some(self.yes_wins),
            r.yes_shares_after@ == 0,
            r.no_shares_after@ == 0,
            r.cost_basis_after == self.cost_basis,
            r.payout == Some(self.payout),
            r.realized_pnl == Some(self.realized_pnl),
    {
        TradeRow {
            timestamp_ms: self.timestamp_ms,
            mode: self.mode,
            record_type: TradeRecordType::Settle,
            event_id: self.event_id,
            asset: self.asset,
            outcome: if self.yes_wins {
                "YES_WINS".to_owned()
            } else {
                "NO_WINS".to_owned()
            },
            shares: self.yes_shares.plus(self.no_shares),
            price: Decimal::zero(),
            fee: Decimal::zero(),
            cost: self.cost_basis,
            strike_price: self.strike_price,
            spot_price: self.final_spot,
            signal: "".to_owned(),
            confidence: Decimal::zero(),
            balance: self.balance,
            yes_wins: Some(self.yes_wins),
            yes_shares_after: Decimal::zero(),
            no_shares_after: Decimal::zero(),
            cost_basis_after: self.cost_basis,
            payout: Some(self.payout),
            realized_pnl: Some(self.realized_pnl),
        }
    }
}

// ============================================================================
// Order of texts
// ============================================================================

/// Whether a text comes before another, character by character.
pub open spec fn text_before(a: Seq<char>, b: Seq<char>) -> bool
    decreases a.len(),
{
    if b.len() == 0 {
        false
    } else if a.len() == 0 {
        true
    } else if a[0] != b[0] {
        a[0] < b[0]
    } else {
        text_before(a.skip(1), b.skip(1))
    }
}

proof fn lemma_text_order(a: Seq<char>, b: Seq<char>)
    ensures
        !text_before(a, a),
        !(text_before(a, b) && text_before(b, a)),
        a != b ==> text_before(a, b) || text_before(b, a),
    decreases a.len(),
{
    if a.len() > 0 && b.len() > 0 {
        lemma_text_order(a.skip(1), b.skip(1));
        if a != b && a[0] == b[0] {
            assert(a =~= seq![a[0]] + a.skip(1));
            assert(b =~= seq![b[0]] + b.skip(1));
        }
    } else if a.len() > 0 {
        lemma_text_order(a.skip(1), b);
    } else if b.len() == 0 {
        assert(a =~= b);
    }
}

proof fn lemma_text_order_carries(a: Seq<char>, b: Seq<char>, c: Seq<char>)
    requires
        text_before(a, b),
        text_before(b, c),
    ensures
        text_before(a, c),
    decreases a.len(),
{
    if a.len() > 0 && b.len() > 0 && c.len() > 0 && a[0] == b[0] && b[0] == c[0] {
        lemma_text_order_carries(a.skip(1), b.skip(1), c.skip(1));
    }
}

/// Whether a text comes before another, character by character.
fn comes_before(a: &str, b: &str) -> (r: bool)
    ensures
        r == text_before(a@, b@),
{
    let n: usize = a.unicode_len();
    let m: usize = b.unicode_len();
    let mut i: usize = 0;
    assert(a@.skip(0) =~= a@);
    assert(b@.skip(0) =~= b@);
    while i < n && i < m
        invariant
            i <= n,
            i <= m,
            n == a@.len(),
            m == b@.len(),
            text_before(a@, b@) == text_before(a@.skip(i as int), b@.skip(i as int)),
        decreases n - i,
    {
        let x = a.get_char(i);
        let y = b.get_char(i);
        assert(a@.skip(i as int).skip(1) =~= a@.skip(i + 1));
        assert(b@.skip(i as int).skip(1) =~= b@.skip(i + 1));
        if x != y {
            return x < y;
        }
        i = i + 1;
    }
    i < m
}

/// Whether every text of a list comes before the next ones.
pub open spec fn in_order(s: Seq<Seq<char>>) -> bool {
    forall|i: int, j: int| 0 <= i < j < s.len() ==> text_before(#[trigger] s[i], #[trigger] s[j])
}

/// Adds a text to a list in order, unless it is there.
fn add_text(list: &mut Vec<String>, text: &String)
    requires
        in_order(texts(old(list)@)),
    ensures
        in_order(texts(final(list)@)),
        texts(final(list)@).to_set() == texts(old(list)@).to_set().insert(text@),
        final(list)@.len() <= old(list)@.len() + 1,
{
    let ghost before = texts(list@);
    let mut i: usize = 0;
    while i < list.len() && comes_before(list[i].as_str(), text.as_str())
        invariant
            i <= list@.len(),
            before == texts(list@),
            list@ == old(list)@,
            forall|j: int| 0 <= j < i ==> text_before(#[trigger] before[j], text@),
        decreases list@.len() - i,
    {
        assert(before[i as int] == list@[i as int]@);
        i = i + 1;
    }
    if i < list.len() && list[i] == *text {
        proof {
            assert(before[i as int] == text@);
            assert(before.to_set().insert(text@) =~= before.to_set());
        }
        return;
    }
    list.insert(i, text.clone());
    proof {
        let after = texts(list@);
        assert(after =~= before.insert(i as int, text@));
        if i < before.len() {
            lemma_text_order(before[i as int], text@);
            assert(text_before(text@, before[i as int]));
        }
        assert forall|a: int, b: int| 0 <= a < b < after.len() implies text_before(
            #[trigger] after[a],
            #[trigger] after[b],
        ) by {
            if b < i {
                assert(text_before(before[a], before[b]));
            } else if b == i {
                assert(text_before(before[a], text@));
            } else if a < i {
                assert(text_before(before[a], before[b - 1]));
            } else if a == i {
                if b - 1 > i {
                    assert(text_before(before[i as int], before[b - 1]));
                    lemma_text_order_carries(text@, before[i as int], before[b - 1]);
                }
            } else {
                assert(text_before(before[a - 1], before[b - 1]));
            }
        }
        assert forall|t: Seq<char>| after.to_set().contains(t) <==> before.to_set().insert(
            text@,
        ).contains(t) by {
            if after.contains(t) {
                let k = choose|k: int| 0 <= k < after.len() && after[k] == t;
                if k < i {
                    assert(before[k] == t);
                } else if k > i {
                    assert(before[k - 1] == t);
                }
            }
            if before.contains(t) {
                let k = choose|k: int| 0 <= k < before.len() && before[k] == t;
                if k < i {
                    assert(after[k] == t);
                } else {
                    assert(after[k + 1] == t);
                }
            }
            assert(after[i as int] == text@);
        }
        assert(after.to_set() =~= before.to_set().insert(text@));
    }
}

// ============================================================================
// Figures of a session
// ============================================================================

/// The figures of a session as they follow from the rows of its log.
pub struct SessionFigures {
    pub fills: int,
    pub settlements: int,
    pub cost: Option<int>,
    pub pnl: Option<int>,
    pub wins: int,
    pub losses: int,
    pub profit: Option<int>,
    pub loss: Option<int>,
    pub assets: Set<Seq<char>>,
    pub events: Set<Seq<char>>,
    /// Profit or loss of each settlement where it can be read.
    pub results: Seq<int>,
    /// The same as text, of every settlement.
    pub result_texts: Seq<Seq<char>>,
}

/// The figures of a session without rows.
pub open spec fn no_figures() -> SessionFigures {
    SessionFigures {
        fills: 0,
        settlements: 0,
        cost: Some(0),
        pnl: Some(0),
        wins: 0,
        losses: 0,
        profit: Some(0),
        loss: Some(0),
        assets: Set::empty(),
        events: Set::empty(),
        results: Seq::empty(),
        result_texts: Seq::empty(),
    }
}

impl SessionFigures {
    /// The figures with one more row.
    pub open spec fn with_row(self, line: Seq<char>) -> SessionFigures {
        let cols = split(line, ',');
        if cols.len() < 21 {
            self
        } else if cols[2] == "FILL"@ {
            SessionFigures {
                fills: self.fills + 1,
                events: self.events.insert(cols[3]),
                assets: self.assets.insert(cols[4]),
                cost: match parsed_value(cols[9]) {
                    Some(cost) => sum(self.cost, Some(cost)),
                    None => self.cost,
                },
                ..self
            }
        } else if cols[2] == "SETTLE"@ {
            match parsed_value(cols[20]) {
                Some(pnl) => SessionFigures {
                    settlements: self.settlements + 1,
                    pnl: sum(self.pnl, Some(pnl)),
                    wins: if pnl > 0 { self.wins + 1 } else { self.wins },
                    losses: if pnl < 0 { self.losses + 1 } else { self.losses },
                    profit: if pnl > 0 { sum(self.profit, Some(pnl)) } else { self.profit },
                    loss: if pnl < 0 { sum(self.loss, Some(-pnl)) } else { self.loss },
                    results: self.results.push(pnl),
                    result_texts: self.result_texts.push(cols[20]),
                    ..self
                },
                None => SessionFigures {
                    settlements: self.settlements + 1,
                    result_texts: self.result_texts.push(cols[20]),
                    ..self
                },
            }
        } else {
            self
        }
    }

    /// Whether no sum has overflowed.
    pub open spec fn fits(self) -> bool {
        self.cost is Some && self.pnl is Some && self.profit is Some && self.loss is Some
    }
}

/// The figures of the first `n` lines of a log, the first line being the names of the columns.
pub open spec fn figures_of(lines: Seq<Seq<char>>, n: int) -> SessionFigures
    decreases n,
{
    if n <= 1 {
        no_figures()
    } else {
        figures_of(lines, n - 1).with_row(lines[n - 1])
    }
}

/// Where the sums of a log stay within range, so do those of its beginnings.
proof fn lemma_figures_prefix(lines: Seq<Seq<char>>, n: int, m: int)
    requires
        n <= m,
        figures_of(lines, m).fits(),
    ensures
        figures_of(lines, n).fits(),
    decreases m - n,
{
    if n < m {
        if m > 1 {
            let before = figures_of(lines, m - 1);
            assert(before.fits());
        }
        lemma_figures_prefix(lines, n, m - 1);
    }
}

/// Largest amount in dollars of which no log can hold too many to be summed up.
pub const SUMMABLE_DOLLARS: u64 = 1_000_000_000_000_000_000;

/// Whether an amount, where there is one, can be summed up.
pub open spec fn summable(amount: Option<int>) -> bool {
    match amount {
        Some(v) => -units(SUMMABLE_DOLLARS as int, 0) <= v <= units(SUMMABLE_DOLLARS as int, 0),
        None => true,
    }
}

/// Whether the amount that counts in a row can be summed up.
pub open spec fn summable_row(line: Seq<char>) -> bool {
    let cols = split(line, ',');
    cols.len() >= 21 ==> {
        &&& cols[2] == "FILL"@ ==> summable(parsed_value(cols[9]))
        &&& cols[2] == "SETTLE"@ ==> summable(parsed_value(cols[20]))
    }
}

/// Whether a log is short enough, and its amounts small enough, to be summed up.
pub open spec fn summable_log(lines: Seq<Seq<char>>) -> bool {
    &&& lines.len() <= u32::MAX
    &&& forall|i: int| 1 <= i < lines.len() ==> summable_row(#[trigger] lines[i])
}

/// One more amount keeps a sum within its bound.
proof fn lemma_sum_bounded(n: int, x: int, v: int)
    requires
        0 <= n <= u32::MAX,
        -(n * units(SUMMABLE_DOLLARS as int, 0)) <= x <= n * units(SUMMABLE_DOLLARS as int, 0),
        summable(Some(v)),
    ensures
        sum(Some(x), Some(v)) is Some,
        -((n + 1) * units(SUMMABLE_DOLLARS as int, 0)) <= sum(Some(x), Some(v))->0,
        sum(Some(x), Some(v))->0 <= (n + 1) * units(SUMMABLE_DOLLARS as int, 0),
{
    let s = SUMMABLE_DOLLARS as int;
    let l = units(s, 0);
    let p = pow10(28);
    let m = n + 1;
    let b = m * l;
    let c = m * s;
    assert(b == c * p && -b == (-c) * p) by (nonlinear_arith)
        requires
            b == m * l,
            l == s * p,
            c == m * s,
    ;
    assert(b == n * l + l) by (nonlinear_arith)
        requires
            b == m * l,
            m == n + 1,
    ;
    assert(0 <= c <= 4294967296 * s) by (nonlinear_arith)
        requires
            0 <= m <= 4294967296,
            c == m * s,
            s >= 0,
    ;
    assert(b <= max_units()) by (nonlinear_arith)
        requires
            b == c * p,
            c <= 4294967296 * s,
            s == 1_000_000_000_000_000_000,
            p == 10000000000000000000000000000,
            max_units() == 79228162514264337593543950335 * p,
    ;
    assert(representable(b));
    assert(representable(-b));
    lemma_unrounded(b);
    lemma_unrounded(-b);
    lemma_sum_fits(x, v);
    lemma_rounded_monotone(x + v, 1, b, 1);
    lemma_rounded_monotone(-b, 1, x + v, 1);
}

/// The sums of a log with such rows stay within range.
proof fn lemma_summable_fits(lines: Seq<Seq<char>>, n: int)
    requires
        0 <= n <= u32::MAX,
        forall|i: int| 1 <= i < n ==> summable_row(#[trigger] lines[i]),
    ensures
        ({
            let f = figures_of(lines, n);
            let b = n * units(SUMMABLE_DOLLARS as int, 0);
            &&& f.fits()
            &&& -b <= f.cost->0 <= b
            &&& -b <= f.pnl->0 <= b
            &&& -b <= f.profit->0 <= b
            &&& -b <= f.loss->0 <= b
        }),
    decreases n,
{
    let l = units(SUMMABLE_DOLLARS as int, 0);
    assert(0 <= n * l) by (nonlinear_arith)
        requires
            0 <= n,
            0 <= l,
    ;
    if n > 1 {
        lemma_summable_fits(lines, n - 1);
        let f = figures_of(lines, n - 1);
        let cols = split(lines[n - 1], ',');
        assert(summable_row(lines[n - 1]));
        assert(n * l == (n - 1) * l + l) by (nonlinear_arith);
        if cols.len() >= 21 && cols[2] == "FILL"@ {
            if let Some(v) = parsed_value(cols[9]) {
                lemma_sum_bounded(n - 1, f.cost->0, v);
            }
        }
        if cols.len() >= 21 && cols[2] == "SETTLE"@ {
            if let Some(v) = parsed_value(cols[20]) {
                lemma_sum_bounded(n - 1, f.pnl->0, v);
                lemma_sum_bounded(n - 1, f.profit->0, v);
                lemma_sum_bounded(n - 1, f.loss->0, -v);
            }
        }
    }
}

/// Whether an amount, where there is one, can be summed up.
fn is_summable(text: &str) -> (r: bool)
    ensures
        r == summable(parsed_value(text@)),
{
    match parse_decimal(text) {
        Some(amount) => amount.abs() <= Decimal::from_u64(SUMMABLE_DOLLARS),
        None => true,
    }
}

/// Whether the amount that counts in a row can be summed up.
fn is_summable_row(line: &str) -> (r: bool)
    ensures
        r == summable_row(line@),
{
    let cols = split_text(line, ',');
    let ghost parts = split(line@, ',');
    if cols.len() < 21 {
        return true;
    }
    proof {
        assert(parts[2] == cols@[2]@);
        assert(parts[9] == cols@[9]@);
        assert(parts[20] == cols@[20]@);
        reveal_strlit("FILL");
        reveal_strlit("SETTLE");
        assert("FILL"@.len() != "SETTLE"@.len());
    }
    if cols[2] == "FILL".to_owned() {
        is_summable(cols[9].as_str())
    } else if cols[2] == "SETTLE".to_owned() {
        is_summable(cols[20].as_str())
    } else {
        true
    }
}

/// The figures of a session.
#[derive(Clone, Debug)]
pub struct SessionStats {
    pub total_fills: u32,
    pub total_settlements: u32,
    pub total_cost: Decimal,
    pub total_pnl: Decimal,
    pub wins: u32,
    pub losses: u32,
    pub gross_profit: Decimal,
    pub gross_loss: Decimal,
    /// Assets with a fill, in order.
    pub assets: Vec<String>,
    /// Events with a fill, in order.
    pub events: Vec<String>,
    /// Profit or loss of each settlement where it can be read.
    pub pnl_series: Vec<Decimal>,
    /// The same as text, of every settlement.
    pub pnl_texts: Vec<String>,
}

/// The values of a list of decimals.
pub open spec fn amounts(s: Seq<Decimal>) -> Seq<int> {
    s.map_values(|d: Decimal| d@)
}

/// A part of a whole in percent never overflows.
proof fn lemma_percent_fits(part: int, whole: int)
    requires
        0 <= part <= whole,
        0 < whole,
    ensures
        quotient(lit(part, 0), lit(whole, 0)) is Some,
        product(quotient(lit(part, 0), lit(whole, 0)), lit(100, 0)) is Some,
{
    let p = pow10(28);
    let a = part * p;
    let b = whole * p;
    assert(0 <= a <= b && 0 < b && 0 <= a * p <= b * p) by (nonlinear_arith)
        requires
            a == part * p,
            b == whole * p,
            0 <= part <= whole,
            0 < whole,
            p > 0,
    ;
    assert(p == 1 * pow10(28));
    assert(representable(p));
    lemma_at_most(a * p, b, p);
    let q = quotient(lit(part, 0), lit(whole, 0))->0;
    let h = units(100, 0);
    assert(0 <= q * h <= p * h) by (nonlinear_arith)
        requires
            0 <= q <= p,
            h >= 0,
    ;
    assert(h == 100 * pow10(28));
    assert(representable(h));
    lemma_at_most(q * h, p, h);
}

impl SessionStats {
    /// Whether these are the figures.
    pub open spec fn shows(self, f: SessionFigures) -> bool {
        &&& self.total_fills == f.fills
        &&& self.total_settlements == f.settlements
        &&& Some(self.total_cost@) == f.cost
        &&& Some(self.total_pnl@) == f.pnl
        &&& self.wins == f.wins
        &&& self.losses == f.losses
        &&& Some(self.gross_profit@) == f.profit
        &&& Some(self.gross_loss@) == f.loss
        &&& in_order(texts(self.assets@))
        &&& texts(self.assets@).to_set() == f.assets
        &&& in_order(texts(self.events@))
        &&& texts(self.events@).to_set() == f.events
        &&& amounts(self.pnl_series@) == f.results
        &&& texts(self.pnl_texts@) == f.result_texts
    }

    /// The figures of a log, given its lines; the first holds the names of the columns.
    pub fn from_lines(lines: &Vec<String>) -> (r: SessionStats)
        requires
            lines@.len() <= u32::MAX,
            figures_of(texts(lines@), lines@.len() as int).fits(),
        ensures
            r.shows(figures_of(texts(lines@), lines@.len() as int)),
    {
        let mut stats = SessionStats {
            total_fills: 0,
            total_settlements: 0,
            total_cost: Decimal::zero(),
            total_pnl: Decimal::zero(),
            wins: 0,
            losses: 0,
            gross_profit: Decimal::zero(),
            gross_loss: Decimal::zero(),
            assets: Vec::new(),
            events: Vec::new(),
            pnl_series: Vec::new(),
            pnl_texts: Vec::new(),
        };
        let ghost all = texts(lines@);
        proof {
            assert(texts(stats.assets@).to_set() =~= Set::<Seq<char>>::empty());
            assert(texts(stats.events@).to_set() =~= Set::<Seq<char>>::empty());
            assert(amounts(stats.pnl_series@) =~= Seq::<int>::empty());
            assert(texts(stats.pnl_texts@) =~= Seq::<Seq<char>>::empty());
        }
        let mut i: usize = 1;
        while i < lines.len()
            invariant
                1 <= i,
                i <= lines@.len() || i == 1,
                all == texts(lines@),
                lines@.len() <= u32::MAX,
                figures_of(all, lines@.len() as int).fits(),
                stats.shows(figures_of(all, i as int)),
                stats.total_fills < i,
                stats.total_settlements < i,
                stats.wins < i,
                stats.losses < i,
            decreases lines@.len() - i,
        {
            proof {
                lemma_figures_prefix(all, i + 1, lines@.len() as int);
                assert(all[i as int] == lines@[i as int]@);
            }
            stats.add_row(lines[i].as_str(), Ghost(figures_of(all, i as int)));
            i = i + 1;
        }
        assert(lines@.len() <= 1 ==> figures_of(all, lines@.len() as int) == figures_of(all, 1));
        stats
    }

    /// The figures of a log, given its lines, if it can be summed up; otherwise nothing.
    pub fn of_summable(lines: &Vec<String>) -> (r: Option<SessionStats>)
        ensures
            match r {
                Some(stats) => summable_log(texts(lines@)) && stats.shows(
                    figures_of(texts(lines@), lines@.len() as int),
                ),
                None => !summable_log(texts(lines@)),
            },
    {
        let ghost all = texts(lines@);
        if lines.len() as u64 > u32::MAX as u64 {
            return None;
        }
        let mut i: usize = 1;
        while i < lines.len()
            invariant
                1 <= i,
                i <= lines@.len() || i == 1,
                all == texts(lines@),
                forall|j: int| 1 <= j < i && j < all.len() ==> summable_row(#[trigger] all[j]),
            decreases lines@.len() - i,
        {
            assert(all[i as int] == lines@[i as int]@);
            if !is_summable_row(lines[i].as_str()) {
                return None;
            }
            i = i + 1;
        }
        proof {
            lemma_summable_fits(all, lines@.len() as int);
        }
        Some(SessionStats::from_lines(lines))
    }

    /// Takes in a row.
    fn add_row(&mut self, line: &str, Ghost(f): Ghost<SessionFigures>)
        requires
            old(self).shows(f),
            f.with_row(line@).fits(),
            old(self).total_fills < u32::MAX,
            old(self).total_settlements < u32::MAX,
            old(self).wins < u32::MAX,
            old(self).losses < u32::MAX,
        ensures
            final(self).shows(f.with_row(line@)),
            final(self).total_fills <= old(self).total_fills + 1,
            final(self).total_settlements <= old(self).total_settlements + 1,
            final(self).wins <= old(self).wins + 1,
            final(self).losses <= old(self).losses + 1,
    {
        let cols = split_text(line, ',');
        let ghost parts = split(line@, ',');
        if cols.len() < 21 {
            return;
        }
        proof {
            assert(parts[2] == cols@[2]@);
            assert(parts[3] == cols@[3]@);
            assert(parts[4] == cols@[4]@);
            assert(parts[9] == cols@[9]@);
            assert(parts[20] == cols@[20]@);
        }
        if cols[2] == "FILL".to_owned() {
            self.total_fills = self.total_fills + 1;
            add_text(&mut self.events, &cols[3]);
            add_text(&mut self.assets, &cols[4]);
            if let Some(cost) = parse_decimal(cols[9].as_str()) {
                self.total_cost = self.total_cost.plus(cost);
            }
        } else if cols[2] == "SETTLE".to_owned() {
            self.total_settlements = self.total_settlements + 1;
            let ghost series = self.pnl_series@;
            let ghost shown = self.pnl_texts@;
            if let Some(pnl) = parse_decimal(cols[20].as_str()) {
                self.total_pnl = self.total_pnl.plus(pnl);
                self.pnl_series.push(pnl);
                if pnl > Decimal::zero() {
                    self.wins = self.wins + 1;
                    self.gross_profit = self.gross_profit.plus(pnl);
                } else if pnl < Decimal::zero() {
                    self.losses = self.losses + 1;
                    self.gross_loss = self.gross_loss.plus(pnl.abs());
                }
                assert(amounts(self.pnl_series@) =~= amounts(series).push(pnl@));
            }
            self.pnl_texts.push(cols[20].clone());
            assert(texts(self.pnl_texts@) =~= texts(shown).push(parts[20]));
        }
    }

    /// Share of wins in percent.
    pub open spec fn win_percent(self) -> Option<int> {
        product(
            quotient(lit(self.wins as int, 0), lit(self.wins + self.losses, 0)),
            lit(100, 0),
        )
    }

    /// Share of wins as text.
    pub open spec fn spec_win_rate(self) -> Seq<char> {
        if self.wins + self.losses > 0 {
            fixed_chars(self.win_percent()->0, 1) + "%"@
        } else {
            "N/A"@
        }
    }

    /// Share of wins in percent with one decimal; `N/A` without wins and losses.
    pub fn win_rate(&self) -> (r: String)
        ensures
            r@ == self.spec_win_rate(),
    {
        let decided: u64 = self.wins as u64 + self.losses as u64;
        if decided > 0 {
            proof {
                lemma_percent_fits(self.wins as int, decided as int);
            }
            let rate = Decimal::from_u64(self.wins as u64).over(Decimal::from_u64(decided)).times(
                Decimal::new(100, 0),
            );
            fixed_text(rate, 1).concat("%")
        } else {
            "N/A".to_owned()
        }
    }

    /// Gross profit over gross loss as text.
    pub open spec fn spec_profit_factor(self) -> Seq<char> {
        if self.gross_loss@ > 0 {
            fixed_chars(divided_by(num(self.gross_profit), self.gross_loss)->0, 2)
        } else if self.gross_profit@ > 0 {
            "inf"@
        } else {
            "N/A"@
        }
    }

    /// Gross profit over gross loss with two decimals; `inf` without losses, `N/A` without either.
    pub fn profit_factor(&self) -> (r: String)
        requires
            self.gross_loss@ > 0 ==> divided_by(num(self.gross_profit), self.gross_loss) is Some,
        ensures
            r@ == self.spec_profit_factor(),
    {
        if self.gross_loss > Decimal::zero() {
            fixed_text(self.gross_profit.over(self.gross_loss), 2)
        } else if self.gross_profit > Decimal::zero() {
            "inf".to_owned()
        } else {
            "N/A".to_owned()
        }
    }
}

/// Number of seconds as hours, minutes and seconds.
pub open spec fn duration_chars(seconds: int) -> Seq<char> {
    let hours = quot(seconds, 3600);
    let minutes = quot(rem(seconds, 3600), 60);
    let rest = rem(seconds, 60);
    if hours > 0 {
        signed_digits(hours) + "h "@ + signed_digits(minutes) + "m "@ + signed_digits(rest) + "s"@
    } else if minutes > 0 {
        signed_digits(minutes) + "m "@ + signed_digits(rest) + "s"@
    } else {
        signed_digits(rest) + "s"@
    }
}

/// Quotient, cut off towards zero.
pub open spec fn quot(n: int, d: int) -> int {
    if n >= 0 { n / d } else { -((-n) / d) }
}

/// Remainder of that quotient; it has the sign of `n`.
pub open spec fn rem(n: int, d: int) -> int {
    n - quot(n, d) * d
}

fn divide(n: i64, d: i64) -> (r: (i64, i64))
    requires
        1 < d,
    ensures
        r.0 == quot(n as int, d as int),
        r.1 == rem(n as int, d as int),
{
    if n >= 0 {
        let q: i64 = n / d;
        proof {
            assert(n as int == (n as int / d as int) * d as int + n as int % d as int)
                by (nonlinear_arith)
                requires
                    d > 0,
            ;
        }
        (q, n % d)
    } else {
        let m: u64 = (-(n + 1)) as u64 + 1;
        let e: u64 = d as u64;
        proof {
            let a = m as int;
            let b = e as int;
            assert(a == (a / b) * b + a % b && 0 <= a % b < b && 0 <= a / b <= a) by (nonlinear_arith)
                requires
                    a >= 0,
                    b > 0,
            ;
            assert(a / b < 0x8000_0000_0000_0000) by (nonlinear_arith)
                requires
                    0 <= a <= 0x8000_0000_0000_0000,
                    b >= 2,
            ;
            let q = a / b;
            assert((-q) * b == -(q * b)) by (nonlinear_arith);
        }
        (-((m / e) as i64), -((m % e) as i64))
    }
}

/// A number of seconds as hours, minutes and seconds, as far as they are needed.
pub fn format_duration(total_secs: i64) -> (r: String)
    ensures
        r@ == duration_chars(total_secs as int),
{
    let (hours, in_hour) = divide(total_secs, 3600);
    let (mins, _) = divide(in_hour, 60);
    let (_, secs) = divide(total_secs, 60);
    if hours > 0 {
        signed_text(hours).concat("h ").concat(signed_text(mins).as_str()).concat("m ").concat(
            signed_text(secs).as_str(),
        ).concat("s")
    } else if mins > 0 {
        signed_text(mins).concat("m ").concat(signed_text(secs).as_str()).concat("s")
    } else {
        signed_text(secs).concat("s")
    }
}

/// Figures of a session that are computed in floating point, as text.
#[derive(Clone, Debug)]
pub struct RiskTexts {
    pub final_balance: String,
    pub return_pct: String,
    pub sharpe: String,
    pub sortino: String,
    pub max_drawdown: String,
    pub calmar: String,
}

/// What a summary is written for.
#[derive(Clone, Debug)]
pub struct SessionInfo {
    pub mode: String,
    /// First event, in milliseconds since 1970.
    pub start_ms: i64,
    /// Last event, in milliseconds since 1970.
    pub end_ms: i64,
    pub initial_balance: Decimal,
    /// Where the log is.
    pub path: String,
}

impl SessionInfo {
    /// The pieces of the summary.
    pub open spec fn pieces(self, stats: SessionStats, risk: RiskTexts) -> Seq<Seq<char>> {
        seq![
            "Session Summary\n===============\nMode:              "@,
            self.mode@,
            "\nStart:             "@,
            utc_chars(self.start_ms as int, words_pattern()),
            "\nEnd:               "@,
            utc_chars(self.end_ms as int, words_pattern()),
            "\nDuration:          "@,
            duration_chars(quot(self.end_ms - self.start_ms, 1000)),
            "\n\nPerformance\n-----------\nInitial Balance:   $"@,
            fixed_chars(self.initial_balance@, 2),
            "\nFinal Balance:     $"@,
            risk.final_balance@,
            "\nTotal P&L:         $"@,
            fixed_chars(stats.total_pnl@, 2),
            "\nReturn:            "@,
            risk.return_pct@,
            "%\n\nRisk Metrics\n------------\nWin Rate:          "@,
            stats.spec_win_rate(),
            " ("@,
            digits(stats.wins as nat),
            " wins / "@,
            digits(stats.losses as nat),
            " losses)\nProfit Factor:     "@,
            stats.spec_profit_factor(),
            "\nGross Profit:      $"@,
            fixed_chars(stats.gross_profit@, 2),
            "\nGross Loss:        $"@,
            fixed_chars(stats.gross_loss@, 2),
            "\nSharpe Ratio:      "@,
            risk.sharpe@,
            "\nSortino Ratio:     "@,
            risk.sortino@,
            "\nMax Drawdown:      "@,
            risk.max_drawdown@,
            "\nCalmar Ratio:      "@,
            risk.calmar@,
            "\n\nTrading Activity\n----------------\nFill Events:       "@,
            digits(stats.total_fills as nat),
            "\nMarkets Settled:   "@,
            digits(stats.total_settlements as nat),
            "\nUnique Markets:    "@,
            digits(stats.events@.len()),
            "\nAssets Traded:     "@,
            joined(texts(stats.assets@), ", "@),
            "\nTotal Cost:        $"@,
            fixed_chars(stats.total_cost@, 2),
            "\n\nTrades Log:        "@,
            self.path@,
            "\n"@,
        ]
    }

    /// The summary of a session.
    pub fn summary_text(&self, stats: &SessionStats, risk: &RiskTexts) -> (r: String)
        requires
            is_date(self.start_ms as int),
            is_date(self.end_ms as int),
            stats.gross_loss@ > 0 ==> divided_by(
                num(stats.gross_profit),
                stats.gross_loss,
            ) is Some,
        ensures
            r@ == flat(self.pieces(*stats, *risk)),
    {
        let (seconds, _) = divide(self.end_ms - self.start_ms, 1000);
        let mut out: Vec<String> = Vec::new();
        out.push("Session Summary\n===============\nMode:              ".to_owned());
        out.push(self.mode.clone());
        out.push("\nStart:             ".to_owned());
        out.push(utc_text(self.start_ms, "%Y-%m-%d %H:%M:%S UTC"));
        out.push("\nEnd:               ".to_owned());
        out.push(utc_text(self.end_ms, "%Y-%m-%d %H:%M:%S UTC"));
        out.push("\nDuration:          ".to_owned());
        out.push(format_duration(seconds));
        out.push("\n\nPerformance\n-----------\nInitial Balance:   $".to_owned());
        out.push(fixed_text(self.initial_balance, 2));
        out.push("\nFinal Balance:     $".to_owned());
        out.push(risk.final_balance.clone());
        out.push("\nTotal P&L:         $".to_owned());
        out.push(fixed_text(stats.total_pnl, 2));
        out.push("\nReturn:            ".to_owned());
        out.push(risk.return_pct.clone());
        out.push("%\n\nRisk Metrics\n------------\nWin Rate:          ".to_owned());
        out.push(stats.win_rate());
        out.push(" (".to_owned());
        out.push(number_text(stats.wins as u64));
        out.push(" wins / ".to_owned());
        out.push(number_text(stats.losses as u64));
        out.push(" losses)\nProfit Factor:     ".to_owned());
        out.push(stats.profit_factor());
        out.push("\nGross Profit:      $".to_owned());
        out.push(fixed_text(stats.gross_profit, 2));
        out.push("\nGross Loss:        $".to_owned());
        out.push(fixed_text(stats.gross_loss, 2));
        out.push("\nSharpe Ratio:      ".to_owned());
        out.push(risk.sharpe.clone());
        out.push("\nSortino Ratio:     ".to_owned());
        out.push(risk.sortino.clone());
        out.push("\nMax Drawdown:      ".to_owned());
        out.push(risk.max_drawdown.clone());
        out.push("\nCalmar Ratio:      ".to_owned());
        out.push(risk.calmar.clone());
        out.push("\n\nTrading Activity\n----------------\nFill Events:       ".to_owned());
        out.push(number_text(stats.total_fills as u64));
        out.push("\nMarkets Settled:   ".to_owned());
        out.push(number_text(stats.total_settlements as u64));
        out.push("\nUnique Markets:    ".to_owned());
        out.push(number_text(stats.events.len() as u64));
        out.push("\nAssets Traded:     ".to_owned());
        out.push(join_all(&stats.assets, ", "));
        out.push("\nTotal Cost:        $".to_owned());
        out.push(fixed_text(stats.total_cost, 2));
        out.push("\n\nTrades Log:        ".to_owned());
        out.push(self.path.clone());
        out.push("\n".to_owned());
        assert(texts(out@) =~= self.pieces(*stats, *risk));
        concat_all(&out)
    }
}

/// A row without commas in its texts is split into its fields again.
pub proof fn law_rows_read_back(row: TradeRow)
    requires
        forall|i: int| 0 <= i < row.fields().len() ==> !(#[trigger] row.fields()[i]).contains(','),
    ensures
        split(joined(row.fields(), ","@), ',') =~= row.fields(),
{
    reveal_strlit(",");
    assert(","@ =~= seq![',']);
    crate::text::law_split_undoes_join(row.fields(), ',');
}

/// A logged settlement adds its profit or loss to the figures of the session, and a logged fill its
/// cost, given that both can be read back from their text.
pub proof fn law_figures_follow_rows(row: TradeRow, figures: SessionFigures)
    requires
        forall|i: int| 0 <= i < row.fields().len() ==> !(#[trigger] row.fields()[i]).contains(','),
        parsed_value(decimal_chars(row.cost)) == Some(row.cost@),
        row.realized_pnl is Some ==> parsed_value(decimal_chars(row.realized_pnl->0)) == Some(
            row.realized_pnl->0@,
        ),
    ensures
        ({
            let after = figures.with_row(joined(row.fields(), ","@));
            &&& row.record_type is Fill ==> after.fills == figures.fills + 1 && after.cost == sum(
                figures.cost,
                Some(row.cost@),
            ) && after.events == figures.events.insert(row.event_id@) && after.pnl == figures.pnl
            &&& row.record_type is Settle && row.realized_pnl is Some ==> after.settlements
                == figures.settlements + 1 && after.pnl == sum(
                figures.pnl,
                Some(row.realized_pnl->0@),
            ) && after.cost == figures.cost
        }),
{
    law_rows_read_back(row);
    reveal_strlit("FILL");
    reveal_strlit("SETTLE");
    assert("FILL"@.len() != "SETTLE"@.len());
}

/// Every column of a row holds what its name says, as long as no text in it has a comma.
pub proof fn law_columns_of_a_trade(row: TradeRow)
    requires
        forall|i: int| 0 <= i < row.fields().len() ==> !(#[trigger] row.fields()[i]).contains(','),
    ensures
        ({
            let columns = split(joined(row.fields(), ","@), ',');
            &&& columns.len() == 21
            &&& columns[0] == utc_chars(row.timestamp_ms as int, millis_pattern())
            &&& columns[1] == row.mode@
            &&& row.record_type is Fill ==> columns[2] == "FILL"@
            &&& row.record_type is Settle ==> columns[2] == "SETTLE"@
            &&& columns[3] == row.event_id@
            &&& columns[4] == row.asset.spec_name()
            &&& columns[5] == row.outcome@
            &&& columns[6] == decimal_chars(row.shares)
            &&& columns[7] == decimal_chars(row.price)
            &&& columns[8] == decimal_chars(row.fee)
            &&& columns[9] == decimal_chars(row.cost)
            &&& columns[10] == decimal_chars(row.strike_price)
            &&& columns[11] == decimal_chars(row.spot_price)
            &&& columns[12] == row.signal@
            &&& columns[13] == decimal_chars(row.confidence)
            &&& columns[14] == decimal_chars(row.balance)
            &&& row.yes_wins == Some(true) ==> columns[15] == "true"@
            &&& row.yes_wins == Some(false) ==> columns[15] == "false"@
            &&& row.yes_wins is None ==> columns[15] == ""@
            &&& columns[16] == decimal_chars(row.yes_shares_after)
            &&& columns[17] == decimal_chars(row.no_shares_after)
            &&& columns[18] == decimal_chars(row.cost_basis_after)
            &&& row.payout is Some ==> columns[19] == decimal_chars(row.payout->0)
            &&& row.payout is None ==> columns[19].len() == 0
            &&& row.realized_pnl is Some ==> columns[20] == decimal_chars(row.realized_pnl->0)
            &&& row.realized_pnl is None ==> columns[20].len() == 0
        }),
{
    law_rows_read_back(row);
}

/// A settlement with a profit is a win, one with a loss a loss, and one with neither is neither; what
/// was earned and what was lost are counted apart, so that their difference is the profit in all.
pub proof fn law_profits_and_losses_are_apart(f: SessionFigures, line: Seq<char>, pnl: int)
    requires
        split(line, ',').len() >= 21,
        split(line, ',')[2] == "SETTLE"@,
        parsed_value(split(line, ',')[20]) == Some(pnl),
        f.fits(),
        f.pnl->0 == f.profit->0 - f.loss->0,
        representable(f.pnl->0 + pnl),
        representable(f.profit->0 + pnl),
        representable(f.loss->0 - pnl),
    ensures
        ({
            let after = f.with_row(line);
            &&& after.settlements == f.settlements + 1
            &&& after.fills == f.fills
            &&& after.cost == f.cost
            &&& pnl > 0 ==> after.wins == f.wins + 1 && after.losses == f.losses
            &&& pnl < 0 ==> after.losses == f.losses + 1 && after.wins == f.wins
            &&& pnl == 0 ==> after.losses == f.losses && after.wins == f.wins
            &&& after.fits()
            &&& after.pnl->0 == f.pnl->0 + pnl
            &&& after.pnl->0 == after.profit->0 - after.loss->0
            &&& after.profit->0 >= f.profit->0
            &&& after.loss->0 >= f.loss->0
            &&& after.results == f.results.push(pnl)
        }),
{
    reveal_strlit("FILL");
    reveal_strlit("SETTLE");
    assert("FILL"@.len() != "SETTLE"@.len());
    lemma_unrounded(f.pnl->0 + pnl);
    lemma_unrounded(f.profit->0 + pnl);
    lemma_unrounded(f.loss->0 - pnl);
    assert(f.loss->0 + -pnl == f.loss->0 - pnl);
}

/// Rows that are neither fills nor settlements, or that are cut short, count for nothing; a fill adds
/// its event, asset and cost, and touches no profit.
pub proof fn law_what_counts_in_a_log(f: SessionFigures, line: Seq<char>)
    ensures
        split(line, ',').len() < 21 ==> f.with_row(line) == f,
        split(line, ',').len() >= 21 && split(line, ',')[2] != "FILL"@ && split(line, ',')[2]
            != "SETTLE"@ ==> f.with_row(line) == f,
        split(line, ',').len() >= 21 && split(line, ',')[2] == "FILL"@ ==> ({
            let after = f.with_row(line);
            &&& after.fills == f.fills + 1
            &&& after.settlements == f.settlements
            &&& after.pnl == f.pnl && after.profit == f.profit && after.loss == f.loss
            &&& after.wins == f.wins && after.losses == f.losses
            &&& after.events == f.events.insert(split(line, ',')[3])
            &&& after.assets == f.assets.insert(split(line, ',')[4])
        }),
{
}

/// The share of wins is all where nothing was lost, none where nothing was won, and half where both
/// happened as often.
pub proof fn law_share_of_wins(stats: SessionStats)
    requires
        stats.wins + stats.losses > 0,
    ensures
        stats.losses == 0 ==> stats.win_percent() == Some(units(100, 0)),
        stats.wins == 0 ==> stats.win_percent() == Some(0int),
        stats.wins == stats.losses ==> stats.win_percent() == Some(units(50, 0)),
{
    let p = pow10(28);
    let h = units(100, 0);
    let a = units(stats.wins as int, 0);
    let b = units(stats.wins + stats.losses, 0);
    assert(b > 0) by (nonlinear_arith)
        requires
            b == (stats.wins + stats.losses) * p,
            stats.wins + stats.losses > 0,
            p > 0,
    ;
    assert(p == 1 * pow10(28));
    assert(representable(p));
    assert(h == 100 * pow10(28));
    assert(representable(h));
    let half = 5 * pow10(27);
    assert(representable(half));
    let fifty = 50 * pow10(28);
    assert(representable(fifty));
    if stats.losses == 0 {
        crate::decimal::lemma_exact_value(a * p, b, p);
        crate::decimal::lemma_exact_value(p * h, p, h);
    }
    if stats.wins == 0 {
        assert(a == 0);
        assert(0 * p == 0 && 0 * h == 0);
        crate::decimal::lemma_exact(0, b, 0, 0);
        crate::decimal::lemma_exact(0, p, 0, 0);
    }
    if stats.wins == stats.losses {
        assert(b == 2 * a) by (nonlinear_arith)
            requires
                a == stats.wins * p,
                b == (stats.wins + stats.losses) * p,
                stats.wins == stats.losses,
        ;
        assert(a * p == b * half) by (nonlinear_arith)
            requires
                b == 2 * a,
                p == 2 * half,
        ;
        crate::decimal::lemma_exact_value(a * p, b, half);
        assert(half * h == p * fifty) by (nonlinear_arith)
            requires
                p == 2 * half,
                h == 2 * fifty,
        ;
        crate::decimal::lemma_exact_value(half * h, p, fifty);
    }
}

/// A duration shows hours, minutes and seconds that add up to it, with fewer than sixty minutes and
/// fewer than sixty seconds; what is zero in front is left out.
pub proof fn law_durations_add_up(hours: int, minutes: int, seconds: int)
    requires
        hours >= 0,
        0 <= minutes < 60,
        0 <= seconds < 60,
    ensures
        ({
            let total = 3600 * hours + 60 * minutes + seconds;
            let shown = duration_chars(total);
            &&& hours > 0 ==> shown == signed_digits(hours) + "h "@ + signed_digits(minutes) + "m "@
                + signed_digits(seconds) + "s"@
            &&& hours == 0 && minutes > 0 ==> shown == signed_digits(minutes) + "m "@
                + signed_digits(seconds) + "s"@
            &&& hours == 0 && minutes == 0 ==> shown == signed_digits(seconds) + "s"@
        }),
{
    let total = 3600 * hours + 60 * minutes + seconds;
    assert(total / 3600 == hours && total / 60 == 60 * hours + minutes);
    let within = 60 * minutes + seconds;
    assert(within / 60 == minutes);
}

/// Cutting off towards zero: quotient and remainder make up the number, and the remainder is smaller
/// than the divisor and has the sign of the number.
pub proof fn law_quotient_and_remainder(n: int, d: int)
    requires
        d > 0,
    ensures
        quot(n, d) * d + rem(n, d) == n,
        n >= 0 ==> 0 <= rem(n, d) < d,
        n <= 0 ==> -d < rem(n, d) <= 0,
{
    let m = if n >= 0 {
        n
    } else {
        -n
    };
    assert(m == (m / d) * d + m % d && 0 <= m % d < d) by (nonlinear_arith)
        requires
            d > 0,
    ;
    let q = m / d;
    assert((-q) * d == -(q * d)) by (nonlinear_arith);
}

/// The summary shows each figure behind its name.
pub proof fn law_summary_names_its_figures(info: SessionInfo, stats: SessionStats, risk: RiskTexts)
    ensures
        ({
            let pieces = info.pieces(stats, risk);
            &&& pieces[2] == "\nStart:             "@ && pieces[3] == utc_chars(
                info.start_ms as int,
                words_pattern(),
            )
            &&& pieces[4] == "\nEnd:               "@ && pieces[5] == utc_chars(
                info.end_ms as int,
                words_pattern(),
            )
            &&& pieces[6] == "\nDuration:          "@ && pieces[7] == duration_chars(
                quot(info.end_ms - info.start_ms, 1000),
            )
            &&& pieces[9] == fixed_chars(info.initial_balance@, 2)
            &&& pieces[12] == "\nTotal P&L:         $"@ && pieces[13] == fixed_chars(
                stats.total_pnl@,
                2,
            )
            &&& pieces[19] == digits(stats.wins as nat) && pieces[20] == " wins / "@
            &&& pieces[21] == digits(stats.losses as nat)
            &&& pieces[24] == "\nGross Profit:      $"@ && pieces[25] == fixed_chars(
                stats.gross_profit@,
                2,
            )
            &&& pieces[26] == "\nGross Loss:        $"@ && pieces[27] == fixed_chars(
                stats.gross_loss@,
                2,
            )
            &&& pieces[37] == digits(stats.total_fills as nat)
            &&& pieces[38] == "\nMarkets Settled:   "@ && pieces[39] == digits(
                stats.total_settlements as nat,
            )
            &&& pieces[40] == "\nUnique Markets:    "@ && pieces[41] == digits(stats.events@.len())
            &&& pieces[44] == "\nTotal Cost:        $"@ && pieces[45] == fixed_chars(
                stats.total_cost@,
                2,
            )
        }),
{
}

/// The figures of a log are those of its rows, one after the other, the names of the columns not
/// counting: there are no more fills and settlements than rows, and no more wins and losses than
/// settlements.
pub proof fn law_figures_add_up_row_by_row(lines: Seq<Seq<char>>, n: int)
    requires
        n >= 1,
    ensures
        figures_of(lines, 1).fills == 0 && figures_of(lines, 1).settlements == 0,
        figures_of(lines, 1).pnl == Some(0int) && figures_of(lines, 1).cost == Some(0int),
        figures_of(lines, n + 1) == figures_of(lines, n).with_row(lines[n]),
        ({
            let f = figures_of(lines, n);
            &&& f.fills >= 0 && f.wins >= 0 && f.losses >= 0
            &&& f.fills + f.settlements <= n - 1
            &&& f.wins + f.losses <= f.settlements
            &&& f.result_texts.len() == f.settlements
            &&& f.results.len() <= f.settlements
        }),
    decreases n,
{
    if n > 1 {
        law_figures_add_up_row_by_row(lines, n - 1);
    }
}

} // verus!
