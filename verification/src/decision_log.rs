//! Trading decisions as rows of a table, with all that led to them.

use vstd::prelude::*;
use vstd::string::*;
use crate::decimal::{
    Decimal, divided_by, magnitude, num, product, product_scale, quotient_scale, representable, units,
};
use crate::position::SkipReason;
use crate::signal::Signal;
use crate::text::{
    concat_all, decimal_chars, decimal_text, flat, is_date, join_all, joined, millis_pattern,
    seconds_pattern, signed_digits, signed_text, split, texts, utc_chars, utc_text,
};
use crate::types::CryptoAsset;

verus! {

/// A decision and what led to it.
#[derive(Clone, Debug)]
pub struct DecisionRecord {
    /// Time of the decision in milliseconds since 1970.
    pub timestamp_ms: i64,
    /// "live", "paper" or "backtest".
    pub mode: String,
    pub event_id: String,
    pub asset: CryptoAsset,
    pub spot_price: Decimal,
    pub strike_price: Decimal,
    /// Distance from the strike, as a ratio.
    pub distance: Decimal,
    pub distance_dollars: Decimal,
    pub atr: Decimal,
    /// Distance in average true ranges.
    pub atr_multiple: Decimal,
    pub seconds_remaining: i64,
    pub phase: String,
    pub signal: Signal,
    pub yes_price: Decimal,
    pub no_price: Decimal,
    /// Confidence before it was adjusted by levels.
    pub base_confidence: Decimal,
    pub pivot_multiplier: Decimal,
    pub confidence: Decimal,
    /// Confidence less favourable price.
    pub ev: Decimal,
    pub min_edge: Decimal,
    pub favorable_price: Decimal,
    /// "SKIP" or "EXECUTE".
    pub action: String,
    pub skip_reason: Option<String>,
    pub trade_size: Option<Decimal>,
    /// Share of the trade on the UP side.
    pub up_ratio: Option<Decimal>,
}

/// An optional text; empty where there is none.
pub open spec fn text_or_empty(text: Option<String>) -> Seq<char> {
    match text {
        Some(text) => text@,
        None => Seq::empty(),
    }
}

/// An optional decimal as text; empty where there is none.
pub open spec fn decimal_or_empty(d: Option<Decimal>) -> Seq<char> {
    match d {
        Some(d) => decimal_chars(d),
        None => Seq::empty(),
    }
}

/// An optional decimal as text; empty where there is none.
pub(crate) fn optional_decimal_text(d: Option<Decimal>) -> (r: String)
    ensures
        r@ == decimal_or_empty(d),
{
    match d {
        Some(d) => decimal_text(d),
        None => String::new(),
    }
}

/// The fields with commas between them, as a line.
pub open spec fn csv_line(fields: Seq<Seq<char>>) -> Seq<char> {
    joined(fields, ","@) + "\n"@
}

impl DecisionRecord {
    /// The fields of the row.
    pub open spec fn fields(self) -> Seq<Seq<char>> {
        seq![
            utc_chars(self.timestamp_ms as int, millis_pattern()),
            self.mode@,
            self.event_id@,
            self.asset.spec_name(),
            decimal_chars(self.spot_price),
            decimal_chars(self.strike_price),
            decimal_chars(self.distance),
            decimal_chars(self.distance_dollars),
            decimal_chars(self.atr),
            decimal_chars(self.atr_multiple),
            signed_digits(self.seconds_remaining as int),
            self.phase@,
            self.signal.spec_variant_name(),
            decimal_chars(self.yes_price),
            decimal_chars(self.no_price),
            decimal_chars(self.base_confidence),
            decimal_chars(self.pivot_multiplier),
            decimal_chars(self.confidence),
            decimal_chars(self.ev),
            decimal_chars(self.min_edge),
            decimal_chars(self.favorable_price),
            self.action@,
            text_or_empty(self.skip_reason),
            decimal_or_empty(self.trade_size),
            decimal_or_empty(self.up_ratio),
        ]
    }

    /// The record as a row.
    pub fn to_csv_row(&self) -> (r: String)
        requires
            is_date(self.timestamp_ms as int),
        ensures
            r@ == csv_line(self.fields()),
    {
        let mut row: Vec<String> = Vec::new();
        row.push(utc_text(self.timestamp_ms, "%Y-%m-%dT%H:%M:%S%.3fZ"));
        row.push(self.mode.clone());
        row.push(self.event_id.clone());
        row.push(self.asset.name().to_owned());
        row.push(decimal_text(self.spot_price));
        row.push(decimal_text(self.strike_price));
        row.push(decimal_text(self.distance));
        row.push(decimal_text(self.distance_dollars));
        row.push(decimal_text(self.atr));
        row.push(decimal_text(self.atr_multiple));
        row.push(signed_text(self.seconds_remaining));
        row.push(self.phase.clone());
        row.push(self.signal.variant_name().to_owned());
        row.push(decimal_text(self.yes_price));
        row.push(decimal_text(self.no_price));
        row.push(decimal_text(self.base_confidence));
        row.push(decimal_text(self.pivot_multiplier));
        row.push(decimal_text(self.confidence));
        row.push(decimal_text(self.ev));
        row.push(decimal_text(self.min_edge));
        row.push(decimal_text(self.favorable_price));
        row.push(self.action.clone());
        row.push(
            match &self.skip_reason {
                Some(reason) => reason.clone(),
                None => String::new(),
            },
        );
        row.push(optional_decimal_text(self.trade_size));
        row.push(optional_decimal_text(self.up_ratio));
        assert(texts(row@) =~= self.fields());
        join_all(&row, ",").concat("\n")
    }

    /// The names of the columns, as a line.
    pub fn csv_header() -> (r: &'static str)
        ensures
            r@ == "timestamp,mode,event_id,asset,spot_price,strike_price,distance,distance_dollars,atr,atr_multiple,seconds_remaining,phase,signal,yes_price,no_price,base_confidence,pivot_multiplier,confidence,ev,min_edge,favorable_price,action,skip_reason,trade_size,up_ratio\n"@,
    {
        "timestamp,mode,event_id,asset,spot_price,strike_price,distance,distance_dollars,atr,atr_multiple,seconds_remaining,phase,signal,yes_price,no_price,base_confidence,pivot_multiplier,confidence,ev,min_edge,favorable_price,action,skip_reason,trade_size,up_ratio\n"
    }
}

/// What is known when a decision is made.
#[derive(Clone, Debug)]
pub struct DecisionInputs {
    pub timestamp_ms: i64,
    pub mode: String,
    pub event_id: String,
    pub asset: CryptoAsset,
    pub spot_price: Decimal,
    pub strike_price: Decimal,
    pub distance: Decimal,
    pub atr: Decimal,
    pub seconds_remaining: i64,
    pub phase: String,
    pub signal: Signal,
    pub yes_price: Decimal,
    pub no_price: Decimal,
    pub base_confidence: Decimal,
    pub pivot_multiplier: Decimal,
    pub confidence: Decimal,
    pub ev: Decimal,
    pub min_edge: Decimal,
    pub favorable_price: Decimal,
}

impl DecisionInputs {
    /// Distance from the strike in dollars.
    pub open spec fn dollars(self) -> Option<int> {
        product(num(self.distance), num(self.strike_price))
    }

    /// Distance in average true ranges; zero where the range is not positive.
    pub open spec fn ranges(self) -> Option<int> {
        if self.atr@ > 0 {
            divided_by(magnitude(self.dollars()), self.atr)
        } else {
            Some(0)
        }
    }

    /// Whether a record holds these inputs. The scales of the two computed amounts are fixed too, as
    /// a row shows all of their digits.
    pub open spec fn held_by(self, r: DecisionRecord) -> bool {
        &&& r.timestamp_ms == self.timestamp_ms
        &&& r.mode == self.mode
        &&& r.event_id == self.event_id
        &&& r.asset == self.asset
        &&& r.spot_price == self.spot_price
        &&& r.strike_price == self.strike_price
        &&& r.distance == self.distance
        &&& Some(r.distance_dollars@) == self.dollars()
        &&& r.distance_dollars.spec_scale() == product_scale(self.distance, self.strike_price)
        &&& r.atr == self.atr
        &&& Some(r.atr_multiple@) == self.ranges()
        &&& r.atr_multiple.spec_scale() == if self.atr@ > 0 {
            quotient_scale(
                vstd::math::abs(r.distance_dollars.spec_mantissa()) as int,
                r.distance_dollars.spec_scale(),
                self.atr.spec_mantissa(),
                self.atr.spec_scale(),
            )
        } else {
            0
        }
        &&& r.seconds_remaining == self.seconds_remaining
        &&& r.phase == self.phase
        &&& r.signal == self.signal
        &&& r.yes_price == self.yes_price
        &&& r.no_price == self.no_price
        &&& r.base_confidence == self.base_confidence
        &&& r.pivot_multiplier == self.pivot_multiplier
        &&& r.confidence == self.confidence
        &&& r.ev == self.ev
        &&& r.min_edge == self.min_edge
        &&& r.favorable_price == self.favorable_price
    }

    /// A record of these inputs and the given outcome.
    fn record(
        self,
        action: &str,
        skip_reason: Option<String>,
        trade_size: Option<Decimal>,
        up_ratio: Option<Decimal>,
    ) -> (r: DecisionRecord)
        requires
            self.dollars() is Some,
            self.ranges() is Some,
        ensures
            self.held_by(r),
            r.action@ == action@,
            r.skip_reason == skip_reason,
            r.trade_size == trade_size,
            r.up_ratio == up_ratio,
    {
        let distance_dollars = self.distance.times(self.strike_price);
        let atr_multiple = if self.atr > Decimal::zero() {
            distance_dollars.abs().over(self.atr)
        } else {
            Decimal::zero()
        };
        DecisionRecord {
            timestamp_ms: self.timestamp_ms,
            mode: self.mode,
            event_id: self.event_id,
            asset: self.asset,
            spot_price: self.spot_price,
            strike_price: self.strike_price,
            distance: self.distance,
            distance_dollars,
            atr: self.atr,
            atr_multiple,
            seconds_remaining: self.seconds_remaining,
            phase: self.phase,
            signal: self.signal,
            yes_price: self.yes_price,
            no_price: self.no_price,
            base_confidence: self.base_confidence,
            pivot_multiplier: self.pivot_multiplier,
            confidence: self.confidence,
            ev: self.ev,
            min_edge: self.min_edge,
            favorable_price: self.favorable_price,
            action: action.to_owned(),
            skip_reason,
            trade_size,
            up_ratio,
        }
    }

    /// Record of a trade that was not made.
    pub fn skip(self, reason: SkipReason) -> (r: DecisionRecord)
        requires
            self.dollars() is Some,
            self.ranges() is Some,
        ensures
            self.held_by(r),
            r.action@ == "SKIP"@,
            r.skip_reason is Some && r.skip_reason->0@ == reason.spec_variant_name(),
            r.trade_size is None,
            r.up_ratio is None,
    {
        self.record("SKIP", Some(reason.variant_name().to_owned()), None, None)
    }

    /// Record of a trade that was made.
    pub fn execute(self, trade_size: Decimal, up_ratio: Decimal) -> (r: DecisionRecord)
        requires
            self.dollars() is Some,
            self.ranges() is Some,
        ensures
            self.held_by(r),
            r.action@ == "EXECUTE"@,
            r.skip_reason is None,
            r.trade_size == Some(trade_size),
            r.up_ratio == Some(up_ratio),
    {
        self.record("EXECUTE", None, Some(trade_size), Some(up_ratio))
    }
}

/// Settings written at the top of a log.
#[derive(Clone, Copy, Debug)]
pub struct DecisionLogConfig {
    pub base_order_size: Decimal,
    pub min_order_size: Decimal,
    pub max_market_exposure: Decimal,
    pub max_total_exposure: Decimal,
    pub available_balance: Decimal,
    pub max_edge_factor: Decimal,
    pub window_duration_secs: i64,
    pub strong_up_ratio: Decimal,
    pub lean_up_ratio: Decimal,
}

impl DecisionLogConfig {
    /// The lines of the settings.
    pub open spec fn lines(self, mode: Seq<char>, generated_ms: int) -> Seq<Seq<char>> {
        seq![
            "# Decision Log Configuration\n"@,
            "# mode: "@ + mode + "\n"@,
            "# generated: "@ + utc_chars(generated_ms, seconds_pattern()) + "\n"@,
            "# base_order_size: "@ + decimal_chars(self.base_order_size) + "\n"@,
            "# min_order_size: "@ + decimal_chars(self.min_order_size) + "\n"@,
            "# max_market_exposure: "@ + decimal_chars(self.max_market_exposure) + "\n"@,
            "# max_total_exposure: "@ + decimal_chars(self.max_total_exposure) + "\n"@,
            "# available_balance: "@ + decimal_chars(self.available_balance) + "\n"@,
            "# max_edge_factor: "@ + decimal_chars(self.max_edge_factor) + "\n"@,
            "# window_duration_secs: "@ + signed_digits(self.window_duration_secs as int) + "\n"@,
            "# strong_up_ratio: "@ + decimal_chars(self.strong_up_ratio) + "\n"@,
            "# lean_up_ratio: "@ + decimal_chars(self.lean_up_ratio) + "\n"@,
            "#\n"@,
        ]
    }

    /// The settings as lines that begin with a hash.
    pub fn header_text(&self, mode: &str, generated_ms: i64) -> (r: String)
        requires
            is_date(generated_ms as int),
        ensures
            r@ == flat(self.lines(mode@, generated_ms as int)),
    {
        let mut lines: Vec<String> = Vec::new();
        lines.push("# Decision Log Configuration\n".to_owned());
        lines.push(line("# mode: ", mode));
        lines.push(
            line("# generated: ", utc_text(generated_ms, "%Y-%m-%dT%H:%M:%SZ").as_str()),
        );
        lines.push(line("# base_order_size: ", decimal_text(self.base_order_size).as_str()));
        lines.push(line("# min_order_size: ", decimal_text(self.min_order_size).as_str()));
        lines.push(
            line("# max_market_exposure: ", decimal_text(self.max_market_exposure).as_str()),
        );
        lines.push(line("# max_total_exposure: ", decimal_text(self.max_total_exposure).as_str()));
        lines.push(line("# available_balance: ", decimal_text(self.available_balance).as_str()));
        lines.push(line("# max_edge_factor: ", decimal_text(self.max_edge_factor).as_str()));
        lines.push(
            line("# window_duration_secs: ", signed_text(self.window_duration_secs).as_str()),
        );
        lines.push(line("# strong_up_ratio: ", decimal_text(self.strong_up_ratio).as_str()));
        lines.push(line("# lean_up_ratio: ", decimal_text(self.lean_up_ratio).as_str()));
        lines.push("#\n".to_owned());
        assert(texts(lines@) =~= self.lines(mode@, generated_ms as int));
        concat_all(&lines)
    }
}

/// A label and a value, as a line.
fn line(label: &str, value: &str) -> (r: String)
    ensures
        r@ == label@ + value@ + "\n"@,
{
    label.to_owned().concat(value).concat("\n")
}

/// Every column of a row holds what its name says, as long as no text in it has a comma: time, mode,
/// event, asset, prices and distances, range, time left, phase and signal, the prices of both sides,
/// confidence, edge, and what came of it.
pub proof fn law_columns_of_a_decision(r: DecisionRecord)
    requires
        forall|i: int| 0 <= i < r.fields().len() ==> !(#[trigger] r.fields()[i]).contains(','),
    ensures
        ({
            let columns = split(joined(r.fields(), ","@), ',');
            &&& columns.len() == 25
            &&& columns[0] == utc_chars(r.timestamp_ms as int, millis_pattern())
            &&& columns[1] == r.mode@
            &&& columns[2] == r.event_id@
            &&& columns[3] == r.asset.spec_name()
            &&& columns[4] == decimal_chars(r.spot_price)
            &&& columns[5] == decimal_chars(r.strike_price)
            &&& columns[6] == decimal_chars(r.distance)
            &&& columns[7] == decimal_chars(r.distance_dollars)
            &&& columns[8] == decimal_chars(r.atr)
            &&& columns[9] == decimal_chars(r.atr_multiple)
            &&& columns[10] == signed_digits(r.seconds_remaining as int)
            &&& columns[11] == r.phase@
            &&& columns[12] == r.signal.spec_variant_name()
            &&& columns[13] == decimal_chars(r.yes_price)
            &&& columns[14] == decimal_chars(r.no_price)
            &&& columns[15] == decimal_chars(r.base_confidence)
            &&& columns[16] == decimal_chars(r.pivot_multiplier)
            &&& columns[17] == decimal_chars(r.confidence)
            &&& columns[18] == decimal_chars(r.ev)
            &&& columns[19] == decimal_chars(r.min_edge)
            &&& columns[20] == decimal_chars(r.favorable_price)
            &&& columns[21] == r.action@
            &&& r.skip_reason is Some ==> columns[22] == r.skip_reason->0@
            &&& r.skip_reason is None ==> columns[22].len() == 0
            &&& r.trade_size is Some ==> columns[23] == decimal_chars(r.trade_size->0)
            &&& r.trade_size is None ==> columns[23].len() == 0
            &&& r.up_ratio is Some ==> columns[24] == decimal_chars(r.up_ratio->0)
            &&& r.up_ratio is None ==> columns[24].len() == 0
        }),
{
    reveal_strlit(",");
    assert(","@ =~= seq![',']);
    crate::text::law_split_undoes_join(r.fields(), ',');
}

/// The distance in dollars is the ratio times the strike; in average true ranges it has no sign, is
/// one at a distance of one range, and zero where the range is not known.
pub proof fn law_distances_of_a_decision(inputs: DecisionInputs, opposite: DecisionInputs)
    requires
        opposite.distance@ == -inputs.distance@,
        opposite.strike_price@ == inputs.strike_price@,
        opposite.atr == inputs.atr,
    ensures
        inputs.strike_price@ == units(1, 0) && representable(inputs.distance@)
            ==> inputs.dollars() == Some(inputs.distance@),
        inputs.dollars() is Some ==> opposite.dollars() == Some(-inputs.dollars()->0),
        inputs.dollars() is Some ==> opposite.ranges() == inputs.ranges(),
        inputs.atr@ <= 0 ==> inputs.ranges() == Some(0int),
        inputs.atr@ > 0 && representable(inputs.atr@) && inputs.dollars() == Some(inputs.atr@)
            && inputs.ranges() is Some ==> inputs.ranges() == Some(units(1, 0)),
{
    let d = inputs.distance@;
    let s = inputs.strike_price@;
    crate::decimal::law_arithmetic_is_exact(d, s);
    crate::decimal::law_arithmetic_is_exact(inputs.atr@, 0);
    assert((-d) * s == -(d * s)) by (nonlinear_arith);
    crate::decimal::lemma_rounded_negated(d * s, crate::decimal::pow10(28));
}

/// The settings at the top of a log stand under their names.
pub proof fn law_settings_of_a_log(config: DecisionLogConfig, mode: Seq<char>, generated_ms: int)
    ensures
        ({
            let lines = config.lines(mode, generated_ms);
            &&& lines.len() == 13
            &&& lines[1] == "# mode: "@ + mode + "\n"@
            &&& lines[2] == "# generated: "@ + utc_chars(generated_ms, seconds_pattern()) + "\n"@
            &&& lines[3] == "# base_order_size: "@ + decimal_chars(config.base_order_size) + "\n"@
            &&& lines[4] == "# min_order_size: "@ + decimal_chars(config.min_order_size) + "\n"@
            &&& lines[5] == "# max_market_exposure: "@ + decimal_chars(config.max_market_exposure)
                + "\n"@
            &&& lines[6] == "# max_total_exposure: "@ + decimal_chars(config.max_total_exposure)
                + "\n"@
            &&& lines[7] == "# available_balance: "@ + decimal_chars(config.available_balance)
                + "\n"@
            &&& lines[8] == "# max_edge_factor: "@ + decimal_chars(config.max_edge_factor) + "\n"@
            &&& lines[9] == "# window_duration_secs: "@ + signed_digits(
                config.window_duration_secs as int,
            ) + "\n"@
            &&& lines[10] == "# strong_up_ratio: "@ + decimal_chars(config.strong_up_ratio) + "\n"@
            &&& lines[11] == "# lean_up_ratio: "@ + decimal_chars(config.lean_up_ratio) + "\n"@
        }),
{
}

/// A record holds what was known, each under its own name.
pub proof fn law_records_hold_their_inputs(inputs: DecisionInputs, r: DecisionRecord)
    requires
        inputs.held_by(r),
    ensures
        r.timestamp_ms == inputs.timestamp_ms && r.mode == inputs.mode,
        r.event_id == inputs.event_id && r.asset == inputs.asset,
        r.spot_price == inputs.spot_price && r.strike_price == inputs.strike_price,
        r.distance == inputs.distance && r.atr == inputs.atr,
        Some(r.distance_dollars@) == product(num(inputs.distance), num(inputs.strike_price)),
        r.seconds_remaining == inputs.seconds_remaining && r.phase == inputs.phase,
        r.signal == inputs.signal,
        r.yes_price == inputs.yes_price && r.no_price == inputs.no_price,
        r.base_confidence == inputs.base_confidence && r.pivot_multiplier
            == inputs.pivot_multiplier && r.confidence == inputs.confidence,
        r.ev == inputs.ev && r.min_edge == inputs.min_edge && r.favorable_price
            == inputs.favorable_price,
{
}

} // verus!
