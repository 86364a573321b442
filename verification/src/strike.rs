//! Opening and closing prices from the page of an event.
//!
//! The page carries its data as JSON in a script element. Among the queries there, the one for
//! crypto prices holds the price at the opening of the window (the strike) and, later, the one at
//! its close.

use vstd::prelude::*;
use vstd::string::*;
use crate::decimal::Decimal;
use crate::text::{chars_of, parse_decimal, parsed, signed_digits, signed_text};
use crate::types::CryptoAsset;

verus! {

/// A parsed JSON document.
#[derive(Debug)]
pub enum Json {
    Null,
    Bool(bool),
    /// A number, as it is displayed once it was read as a double.
    Number(String),
    Text(String),
    List(Vec<Json>),
    /// Fields by name.
    Object(Vec<(String, Json)>),
}

/// A JSON value of `serde_json`.
#[verifier::external_type_specification]
#[verifier::external_body]
pub struct OutsideJson(serde_json::Value);

/// The document that `serde_json` reads from a text; nothing if it is malformed.
pub uninterp spec fn json_of(text: Seq<char>) -> Option<Json>;

/// A value of `serde_json` taken over case by case; nothing is claimed of the result here.
#[verifier::external_body]
fn to_json(value: serde_json::Value) -> (r: Json) {
    match value {
        serde_json::Value::Null => Json::Null,
        serde_json::Value::Bool(b) => Json::Bool(b),
        serde_json::Value::Number(n) => match n.as_f64() {
            Some(shown) => Json::Number(format!("{}", shown)),
            None => Json::Null,
        },
        serde_json::Value::String(s) => Json::Text(s),
        serde_json::Value::Array(items) => Json::List(items.into_iter().map(to_json).collect()),
        serde_json::Value::Object(fields) => Json::Object(
            fields.into_iter().map(|(name, field)| (name, to_json(field))).collect(),
        ),
    }
}

/// `serde_json::from_str`: the document that a text stands for, which depends on the text alone;
/// nothing if it is malformed.
#[verifier::external_body]
fn parse_json(text: &str) -> (r: Option<Json>)
    ensures
        r == json_of(text@),
{
    match serde_json::from_str::<serde_json::Value>(text) {
        Ok(value) => Some(to_json(value)),
        Err(_) => None,
    }
}

/// The first field of that name.
pub open spec fn field_in(fields: Seq<(String, Json)>, name: Seq<char>) -> Option<Json>
    decreases fields.len(),
{
    if fields.len() == 0 {
        None
    } else if fields[0].0@ == name {
        Some(fields[0].1)
    } else {
        field_in(fields.skip(1), name)
    }
}

impl Json {
    /// A field of an object.
    pub open spec fn field(self, name: Seq<char>) -> Option<Json> {
        match self {
            Json::Object(fields) => field_in(fields@, name),
            _ => None,
        }
    }

    /// The elements of a list.
    pub open spec fn elements(self) -> Option<Seq<Json>> {
        match self {
            Json::List(items) => Some(items@),
            _ => None,
        }
    }

    /// A field of an object.
    pub fn get(&self, name: &str) -> (r: Option<&Json>)
        ensures
            match r {
                Some(value) => self.field(name@) == Some(*value),
                None => self.field(name@) is None,
            },
    {
        match self {
            Json::Object(fields) => {
                let wanted = name.to_owned();
                let mut i: usize = 0;
                assert(fields@.skip(0) =~= fields@);
                while i < fields.len()
                    invariant
                        i <= fields@.len(),
                        wanted@ == name@,
                        self.field(name@) == field_in(fields@, name@),
                        field_in(fields@, name@) == field_in(fields@.skip(i as int), name@),
                    decreases fields@.len() - i,
                {
                    assert(fields@.skip(i as int).skip(1) =~= fields@.skip(i + 1));
                    assert(fields@.skip(i as int)[0] == fields@[i as int]);
                    if fields[i].0 == wanted {
                        return Some(&fields[i].1);
                    }
                    i = i + 1;
                }
                None
            },
            _ => None,
        }
    }
}

/// A field of a value that may be missing.
pub open spec fn field_of(value: Option<Json>, name: Seq<char>) -> Option<Json> {
    match value {
        Some(value) => value.field(name),
        None => None,
    }
}

/// The queries of a page.
pub open spec fn queries_of(data: Json) -> Option<Seq<Json>> {
    match field_of(
        field_of(field_of(data.field("props"@), "pageProps"@), "dehydratedState"@),
        "queries"@,
    ) {
        Some(queries) => queries.elements(),
        None => None,
    }
}

/// First element of the key of a query, if it is a text.
pub open spec fn key_of(query: Json) -> Option<Seq<char>> {
    match query.field("queryKey"@) {
        Some(key) => match key.elements() {
            Some(items) => if items.len() > 0 {
                match items[0] {
                    Json::Text(text) => Some(text@),
                    _ => None,
                }
            } else {
                None
            },
            None => None,
        },
        None => None,
    }
}

/// Coefficient and scale of a price, where it is a number.
pub open spec fn price_in(data: Json, name: Seq<char>) -> Option<(int, int)> {
    match data.field(name) {
        Some(Json::Number(text)) => parsed(text@),
        _ => None,
    }
}

/// A pair of prices as coefficient and scale.
pub type PriceParts = (Option<(int, int)>, Option<(int, int)>);

/// The prices of the first query for crypto prices from index `i` on. Nothing if there is none, if
/// a query before it has no text key, or if it holds no data.
pub open spec fn prices_among(queries: Seq<Json>, i: int) -> Option<PriceParts>
    decreases queries.len() - i,
{
    if i < 0 || i >= queries.len() {
        None
    } else {
        match key_of(queries[i]) {
            Some(key) => if key == "crypto-prices"@ {
                match field_of(queries[i].field("state"@), "data"@) {
                    Some(data) => Some(
                        (price_in(data, "openPrice"@), price_in(data, "closePrice"@)),
                    ),
                    None => None,
                }
            } else {
                prices_among(queries, i + 1)
            },
            None => None,
        }
    }
}

/// The prices of a page.
pub open spec fn prices_of(data: Json) -> Option<PriceParts> {
    match queries_of(data) {
        Some(queries) => prices_among(queries, 0),
        None => None,
    }
}

/// Both prices of a page.
#[derive(Clone, Copy, Debug)]
pub struct PagePrices {
    pub open_price: Option<Decimal>,
    pub close_price: Option<Decimal>,
}

/// Coefficient and scale of an optional decimal.
pub open spec fn parts_of(d: Option<Decimal>) -> Option<(int, int)> {
    match d {
        Some(d) => Some((d.spec_mantissa(), d.spec_scale())),
        None => None,
    }
}

impl PagePrices {
    /// Coefficients and scales of the prices.
    pub open spec fn parts(self) -> PriceParts {
        (parts_of(self.open_price), parts_of(self.close_price))
    }
}

/// The result of a page as coefficients and scales.
pub open spec fn page_parts(r: Option<PagePrices>) -> Option<PriceParts> {
    match r {
        Some(prices) => Some(prices.parts()),
        None => None,
    }
}

/// A price of the data, where it is a number.
fn read_price(data: &Json, name: &str) -> (r: Option<Decimal>)
    ensures
        parts_of(r) == price_in(*data, name@),
{
    match data.get(name) {
        Some(Json::Number(text)) => parse_decimal(text.as_str()),
        _ => None,
    }
}

/// The prices in the data of a page.
pub fn prices_from_json(data: &Json) -> (r: Option<PagePrices>)
    ensures
        page_parts(r) == prices_of(*data),
{
    let props = match data.get("props") {
        Some(value) => value,
        None => {
            return None;
        },
    };
    let page_props = match props.get("pageProps") {
        Some(value) => value,
        None => {
            return None;
        },
    };
    let state = match page_props.get("dehydratedState") {
        Some(value) => value,
        None => {
            return None;
        },
    };
    let queries = match state.get("queries") {
        Some(Json::List(items)) => items,
        _ => {
            return None;
        },
    };
    let mut i: usize = 0;
    while i < queries.len()
        invariant
            i <= queries@.len(),
            prices_of(*data) == prices_among(queries@, i as int),
        decreases queries@.len() - i,
    {
        let query = &queries[i];
        let key = match query.get("queryKey") {
            Some(Json::List(items)) => items,
            _ => {
                return None;
            },
        };
        if key.len() == 0 {
            return None;
        }
        let head = match &key[0] {
            Json::Text(text) => text,
            _ => {
                return None;
            },
        };
        if *head == "crypto-prices".to_owned() {
            let state = match query.get("state") {
                Some(value) => value,
                None => {
                    return None;
                },
            };
            let found = match state.get("data") {
                Some(value) => value,
                None => {
                    return None;
                },
            };
            return Some(
                PagePrices {
                    open_price: read_price(found, "openPrice"),
                    close_price: read_price(found, "closePrice"),
                },
            );
        }
        i = i + 1;
    }
    None
}

/// Whether a text occurs in another at an index.
pub open spec fn occurs_at(hay: Seq<char>, needle: Seq<char>, i: int) -> bool {
    &&& 0 <= i <= i + needle.len() <= hay.len()
    &&& hay.subrange(i, i + needle.len()) == needle
}

/// First index from `from` on at which a text occurs in another.
pub open spec fn first_at(hay: Seq<char>, needle: Seq<char>, from: int) -> Option<int>
    decreases hay.len() + 1 - from,
{
    if from < 0 || from + needle.len() > hay.len() {
        None
    } else if occurs_at(hay, needle, from) {
        Some(from)
    } else {
        first_at(hay, needle, from + 1)
    }
}

proof fn lemma_first_at_bounds(hay: Seq<char>, needle: Seq<char>, from: int)
    requires
        first_at(hay, needle, from) is Some,
    ensures
        from <= first_at(hay, needle, from)->0,
        first_at(hay, needle, from)->0 + needle.len() <= hay.len(),
    decreases hay.len() + 1 - from,
{
    if !occurs_at(hay, needle, from) {
        lemma_first_at_bounds(hay, needle, from + 1);
    }
}

fn matches_at(hay: &Vec<char>, needle: &Vec<char>, i: usize) -> (r: bool)
    requires
        i + needle@.len() <= hay@.len(),
    ensures
        r == occurs_at(hay@, needle@, i as int),
{
    let n: usize = hay.len();
    let mut j: usize = 0;
    while j < needle.len()
        invariant
            n == hay@.len(),
            i + needle@.len() <= hay@.len(),
            j <= needle@.len(),
            forall|k: int| 0 <= k < j ==> hay@[i + k] == #[trigger] needle@[k],
        decreases needle@.len() - j,
    {
        if hay[i + j] != needle[j] {
            assert(hay@.subrange(i as int, i + needle@.len())[j as int] != needle@[j as int]);
            return false;
        }
        j = j + 1;
    }
    assert(hay@.subrange(i as int, i + needle@.len()) =~= needle@);
    true
}

fn find_from(hay: &Vec<char>, needle: &str, from: usize) -> (r: Option<usize>)
    requires
        from <= hay@.len(),
    ensures
        match r {
            Some(i) => first_at(hay@, needle@, from as int) == Some(i as int) && i + needle@.len()
                <= hay@.len(),
            None => first_at(hay@, needle@, from as int) is None,
        },
{
    let wanted = chars_of(needle);
    let mut i: usize = from;
    while i < hay.len() && wanted.len() <= hay.len() - i
        invariant
            wanted@ == needle@,
            from <= i <= hay@.len(),
            first_at(hay@, needle@, from as int) == first_at(hay@, needle@, i as int),
        decreases hay@.len() - i,
    {
        if matches_at(hay, &wanted, i) {
            return Some(i);
        }
        i = i + 1;
    }
    if wanted.len() == 0 {
        assert(hay@.subrange(i as int, i as int) =~= needle@);
        return Some(i);
    }
    None
}

/// The text of the data script of a page: from behind the tag with its id to the next closing tag.
pub open spec fn script_of(html: Seq<char>) -> Option<Seq<char>> {
    match first_at(html, "id=\"__NEXT_DATA__\""@, 0) {
        Some(tag) => match first_at(html, ">"@, tag) {
            Some(bracket) => match first_at(html, "</script>"@, bracket + 1) {
                Some(end) => Some(html.subrange(bracket + 1, end)),
                None => None,
            },
            None => None,
        },
        None => None,
    }
}

/// The text of the data script of a page.
pub fn script_text(html: &str) -> (r: Option<&str>)
    ensures
        match r {
            Some(text) => script_of(html@) == Some(text@),
            None => script_of(html@) is None,
        },
{
    let chars = chars_of(html);
    let n: usize = chars.len();
    let tag: usize = match find_from(&chars, "id=\"__NEXT_DATA__\"", 0) {
        Some(i) => i,
        None => {
            return None;
        },
    };
    let bracket: usize = match find_from(&chars, ">", tag) {
        Some(i) => i,
        None => {
            return None;
        },
    };
    proof {
        reveal_strlit(">");
        assert(bracket + 1 <= n);
    }
    let start: usize = bracket + 1;
    match find_from(&chars, "</script>", start) {
        Some(end) => {
            proof {
                lemma_first_at_bounds(html@, "</script>"@, start as int);
            }
            Some(html.substring_char(start, end))
        },
        None => None,
    }
}

/// The prices on a page; nothing if the page has no data script, its JSON is malformed or it has
/// no query for crypto prices.
pub fn parse_prices_from_html(html: &str, _asset: CryptoAsset) -> (r: Option<PagePrices>)
    ensures
        page_parts(r) == match script_of(html@) {
            Some(script) => match json_of(script) {
                Some(data) => prices_of(data),
                None => None,
            },
            None => None,
        },
{
    let script = match script_text(html) {
        Some(script) => script,
        None => {
            return None;
        },
    };
    match parse_json(script) {
        Some(data) => prices_from_json(&data),
        None => None,
    }
}

/// Name of an asset in addresses.
pub open spec fn asset_slug(asset: CryptoAsset) -> Seq<char> {
    match asset {
        CryptoAsset::Btc => "btc"@,
        CryptoAsset::Eth => "eth"@,
        CryptoAsset::Sol => "sol"@,
        CryptoAsset::Xrp => "xrp"@,
    }
}

/// Address of the page of an event, by the start of its window in seconds since 1970 and the name
/// of its length.
pub fn build_event_url(asset: CryptoAsset, window_start_secs: i64, window_duration: &str) -> (r:
    String)
    ensures
        r@ == "https://polymarket.com/event/"@ + asset_slug(asset) + "-updown-"@ + window_duration@
            + "-"@ + signed_digits(window_start_secs as int),
{
    let slug = match asset {
        CryptoAsset::Btc => "btc",
        CryptoAsset::Eth => "eth",
        CryptoAsset::Sol => "sol",
        CryptoAsset::Xrp => "xrp",
    };
    "https://polymarket.com/event/".to_owned().concat(slug).concat("-updown-").concat(
        window_duration,
    ).concat("-").concat(signed_text(window_start_secs).as_str())
}

/// Retries for the price at the opening.
pub const OPEN_PRICE_RETRIES: u32 = 4;

/// Retries for the price at the close.
pub const CLOSE_PRICE_RETRIES: u32 = 3;

/// Seconds between two tries.
pub const RETRY_DELAY_SECS: u64 = 2;

/// What to do after a try to fetch a price.
#[derive(Clone, Copy, Debug)]
pub enum FetchStep {
    /// The price is there.
    Done(Decimal),
    /// Wait, then try again.
    Retry,
    /// No more tries.
    GiveUp,
}

/// What to do after a try.
pub open spec fn fetch_step(price: Option<Decimal>, retries: u32, max_retries: u32) -> FetchStep {
    match price {
        Some(price) => FetchStep::Done(price),
        None => if retries < max_retries {
            FetchStep::Retry
        } else {
            FetchStep::GiveUp
        },
    }
}

/// What to do after a try: a price ends it; without one there are at most `max_retries` retries,
/// of which `retries` were made.
pub fn next_fetch_step(price: Option<Decimal>, retries: u32, max_retries: u32) -> (r: FetchStep)
    ensures
        r == fetch_step(price, retries, max_retries),
{
    match price {
        Some(price) => FetchStep::Done(price),
        None => if retries < max_retries {
            FetchStep::Retry
        } else {
            FetchStep::GiveUp
        },
    }
}

/// The first occurrence of a text is one, and there is none before it; where none is found there is
/// none.
pub proof fn law_first_occurrence(hay: Seq<char>, needle: Seq<char>, from: int, i: int)
    requires
        0 <= from <= i,
    ensures
        match first_at(hay, needle, from) {
            Some(at) => {
                &&& from <= at
                &&& occurs_at(hay, needle, at)
                &&& i < at ==> !occurs_at(hay, needle, i)
            },
            None => !occurs_at(hay, needle, i),
        },
    decreases hay.len() + 1 - from,
{
    if from + needle.len() <= hay.len() && !occurs_at(hay, needle, from) && i > from {
        law_first_occurrence(hay, needle, from + 1, i);
    } else if from + needle.len() <= hay.len() && !occurs_at(hay, needle, from) {
        law_first_occurrence(hay, needle, from + 1, from + 1);
    }
}

/// The data script lies between the end of its tag and the closing tag, and holds no closing tag
/// itself.
pub proof fn law_script_ends_at_its_tag(html: Seq<char>, i: int)
    requires
        script_of(html) is Some,
        0 <= i,
        i + "</script>"@.len() <= script_of(html)->0.len(),
    ensures
        !occurs_at(script_of(html)->0, "</script>"@, i),
        exists|start: int|
            {
                &&& 0 < start <= start + script_of(html)->0.len() <= html.len()
                &&& script_of(html)->0 == #[trigger] html.subrange(
                    start,
                    start + script_of(html)->0.len(),
                )
                &&& html[start - 1] == '>'
                &&& occurs_at(html, "</script>"@, start + script_of(html)->0.len())
            },
{
    reveal_strlit(">");
    reveal_strlit("</script>");
    let tag = first_at(html, "id=\"__NEXT_DATA__\""@, 0)->0;
    law_first_occurrence(html, "id=\"__NEXT_DATA__\""@, 0, 0);
    let bracket = first_at(html, ">"@, tag)->0;
    law_first_occurrence(html, ">"@, tag, tag);
    let start = bracket + 1;
    let end = first_at(html, "</script>"@, start)->0;
    law_first_occurrence(html, "</script>"@, start, start);
    law_first_occurrence(html, "</script>"@, start, start + i);
    let script = html.subrange(start, end);
    assert(script == script_of(html)->0);
    assert(html.subrange(bracket, bracket + 1)[0] == html[bracket]);
    assert(html.subrange(start, start + script.len()) =~= script);
    if occurs_at(script, "</script>"@, i) {
        let n = "</script>"@.len() as int;
        assert(html.subrange(start + i, start + i + n) =~= script.subrange(i, i + n));
    }
}

/// The strike is what the data of the query for crypto prices give as the opening price, the result
/// what they give as the closing price; queries for other things before it are passed over.
pub proof fn law_prices_of_a_page(queries: Seq<Json>, i: int)
    requires
        0 <= i < queries.len(),
        key_of(queries[i]) is Some,
    ensures
        key_of(queries[i])->0 == "crypto-prices"@ && field_of(
            queries[i].field("state"@),
            "data"@,
        ) is Some ==> ({
            let data = field_of(queries[i].field("state"@), "data"@)->0;
            let open = price_in(data, "openPrice"@);
            let close = price_in(data, "closePrice"@);
            prices_among(queries, i) == Some((open, close))
        }),
        key_of(queries[i])->0 != "crypto-prices"@ ==> prices_among(queries, i) == prices_among(
            queries,
            i + 1,
        ),
{
}

/// A field of an object is the first of that name; anything but an object has none.
pub proof fn law_fields_have_names(fields: Seq<(String, Json)>, name: Seq<char>)
    ensures
        match field_in(fields, name) {
            Some(value) => exists|i: int|
                {
                    &&& 0 <= i < fields.len()
                    &&& (#[trigger] fields[i]).0@ == name
                    &&& fields[i].1 == value
                    &&& forall|j: int| 0 <= j < i ==> (#[trigger] fields[j]).0@ != name
                },
            None => forall|j: int| 0 <= j < fields.len() ==> (#[trigger] fields[j]).0@ != name,
        },
    decreases fields.len(),
{
    if fields.len() > 0 {
        if fields[0].0@ == name {
            assert(fields[0].1 == fields[0].1);
        } else {
            let rest = fields.skip(1);
            law_fields_have_names(rest, name);
            match field_in(rest, name) {
                Some(value) => {
                    let i = choose|i: int|
                        {
                            &&& 0 <= i < rest.len()
                            &&& (#[trigger] rest[i]).0@ == name
                            &&& rest[i].1 == value
                            &&& forall|j: int| 0 <= j < i ==> (#[trigger] rest[j]).0@ != name
                        };
                    assert(fields[i + 1] == rest[i]);
                    assert forall|j: int| 0 <= j < i + 1 implies (#[trigger] fields[j]).0@ != name by {
                        if j > 0 {
                            assert(fields[j] == rest[j - 1]);
                        }
                    }
                },
                None => {
                    assert forall|j: int| 0 <= j < fields.len() implies (#[trigger] fields[j]).0@
                        != name by {
                        if j > 0 {
                            assert(fields[j] == rest[j - 1]);
                        }
                    }
                },
            }
        }
    }
}

/// A price counts only where it is a number; every asset has an address of its own.
pub proof fn law_prices_are_numbers(data: Json, name: Seq<char>, a: CryptoAsset, b: CryptoAsset)
    ensures
        data.field(name) is None ==> price_in(data, name) is None,
        data.field(name) is Some && !(data.field(name)->0 is Number) ==> price_in(data, name) is None,
        data.field(name) is Some && data.field(name)->0 is Number ==> price_in(data, name) == parsed(
            data.field(name)->0->Number_0@,
        ),
        a != b ==> asset_slug(a) != asset_slug(b),
{
    reveal_strlit("btc");
    reveal_strlit("eth");
    reveal_strlit("sol");
    reveal_strlit("xrp");
    assert(asset_slug(CryptoAsset::Btc)[0] == 'b');
    assert(asset_slug(CryptoAsset::Eth)[0] == 'e');
    assert(asset_slug(CryptoAsset::Sol)[0] == 's');
    assert(asset_slug(CryptoAsset::Xrp)[0] == 'x');
}

/// A price is taken as soon as it is there; without one there are as many retries as are allowed and
/// no more.
pub proof fn law_fetching_ends(price: Option<Decimal>, retries: u32, max_retries: u32)
    ensures
        price is Some ==> fetch_step(price, retries, max_retries) == FetchStep::Done(price->0),
        price is None ==> (fetch_step(price, retries, max_retries) is Retry <==> retries
            < max_retries),
        price is None ==> (fetch_step(price, retries, max_retries) is GiveUp <==> retries
            >= max_retries),
{
}

/// The queries of a page are found where the page keeps them, and its prices among them.
pub proof fn law_queries_of_a_page(data: Json, a: Json, b: Json, c: Json, queries: Json)
    requires
        data.field("props"@) == Some(a),
        a.field("pageProps"@) == Some(b),
        b.field("dehydratedState"@) == Some(c),
        c.field("queries"@) == Some(queries),
        queries is List,
    ensures
        queries_of(data) == Some(queries->List_0@),
        prices_of(data) == prices_among(queries->List_0@, 0),
{
}

} // verus!
