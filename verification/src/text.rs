//! Numbers as text.

use vstd::prelude::*;
use vstd::string::*;
use crate::decimal::{Decimal, coefficient_limit, pow10, units};

verus! {

/// The character of a decimal digit.
pub open spec fn digit_char(d: int) -> char {
    if d <= 0 {
        '0'
    } else if d == 1 {
        '1'
    } else if d == 2 {
        '2'
    } else if d == 3 {
        '3'
    } else if d == 4 {
        '4'
    } else if d == 5 {
        '5'
    } else if d == 6 {
        '6'
    } else if d == 7 {
        '7'
    } else if d == 8 {
        '8'
    } else {
        '9'
    }
}

/// A natural number in decimal digits.
pub open spec fn digits(n: nat) -> Seq<char>
    decreases n,
{
    if n < 10 {
        seq![digit_char(n as int)]
    } else {
        digits(n / 10).push(digit_char((n % 10) as int))
    }
}

/// A whole number in decimal digits, with a minus sign if it is negative.
pub open spec fn signed_digits(n: int) -> Seq<char> {
    if n < 0 {
        "-"@ + digits((-n) as nat)
    } else {
        digits(n as nat)
    }
}

fn digit_text(d: u64) -> (r: &'static str)
    requires
        d < 10,
    ensures
        r@ == seq![digit_char(d as int)],
{
    proof {
        reveal_strlit("0");
        reveal_strlit("1");
        reveal_strlit("2");
        reveal_strlit("3");
        reveal_strlit("4");
        reveal_strlit("5");
        reveal_strlit("6");
        reveal_strlit("7");
        reveal_strlit("8");
        reveal_strlit("9");
    }
    let r = match d {
        0 => "0",
        1 => "1",
        2 => "2",
        3 => "3",
        4 => "4",
        5 => "5",
        6 => "6",
        7 => "7",
        8 => "8",
        _ => "9",
    };
    assert(r@ =~= seq![digit_char(d as int)]);
    r
}

/// A natural number in decimal digits.
pub fn number_text(n: u64) -> (r: String)
    ensures
        r@ == digits(n as nat),
    decreases n,
{
    if n < 10 {
        digit_text(n).to_owned()
    } else {
        let head = number_text(n / 10);
        let r = head.concat(digit_text(n % 10));
        assert(r@ =~= digits(n as nat));
        r
    }
}

/// A whole number in decimal digits.
pub fn signed_text(n: i64) -> (r: String)
    ensures
        r@ == signed_digits(n as int),
{
    if n >= 0 {
        number_text(n as u64)
    } else {
        let magnitude: u64 = (-(n + 1)) as u64 + 1;
        "-".to_owned().concat(number_text(magnitude).as_str())
    }
}

/// The last `places` digits of a natural number, with leading zeros.
pub open spec fn padded(n: nat, places: nat) -> Seq<char>
    decreases places,
{
    if places == 0 {
        Seq::empty()
    } else {
        padded(n / 10, (places - 1) as nat).push(digit_char((n % 10) as int))
    }
}

/// A sign, a whole part and `places` digits behind the point.
pub open spec fn point_chars(negative: bool, whole: nat, fraction: nat, places: nat) -> Seq<char> {
    let sign = if negative { "-"@ } else { ""@ };
    if places == 0 {
        sign + digits(whole)
    } else {
        sign + digits(whole) + "."@ + padded(fraction, places)
    }
}

/// The decimal `mantissa / 10^scale` with all of its digits.
pub open spec fn plain_chars(mantissa: int, scale: int) -> Seq<char> {
    let m = if mantissa < 0 { -mantissa } else { mantissa };
    point_chars(
        mantissa < 0,
        (m / pow10(scale)) as nat,
        (m % pow10(scale)) as nat,
        scale as nat,
    )
}

/// A decimal with all of its digits.
pub open spec fn decimal_chars(d: Decimal) -> Seq<char> {
    plain_chars(d.spec_mantissa(), d.spec_scale())
}

/// A value in units with `places` digits behind the point, the others being cut off.
pub open spec fn fixed_chars(v: int, places: int) -> Seq<char> {
    let m = if v < 0 { -v } else { v };
    point_chars(
        v < 0,
        (m / pow10(28)) as nat,
        ((m % pow10(28)) / pow10(28 - places)) as nat,
        places as nat,
    )
}

/// Coefficient and scale that `rust_decimal` reads from a text; nothing if it is not a number.
pub uninterp spec fn parsed(text: Seq<char>) -> Option<(int, int)>;

/// Value that is read from a text.
pub open spec fn parsed_value(text: Seq<char>) -> Option<int> {
    match parsed(text) {
        Some((mantissa, scale)) => Some(units(mantissa, scale)),
        None => None,
    }
}

/// `Display` of `rust_decimal::Decimal`: the number with all of its digits. Read back with
/// `FromStr`, the text gives the same coefficient and scale.
#[verifier::external_body]
pub(crate) fn decimal_text(d: Decimal) -> (r: String)
    ensures
        r@ == decimal_chars(d),
        parsed(r@) == Some((d.spec_mantissa(), d.spec_scale())),
{
    rust_decimal::Decimal::from_i128_with_scale(d.mantissa(), d.scale()).to_string()
}

/// `Display` of `rust_decimal::Decimal` with a precision: that many digits behind the point, the
/// others being cut off. It writes into 32 characters, which is enough for any number with two
/// digits behind the point and panics beyond that.
#[verifier::external_body]
pub(crate) fn fixed_text(d: Decimal, places: usize) -> (r: String)
    requires
        places <= 2,
    ensures
        r@ == fixed_chars(d@, places as int),
{
    let shown = rust_decimal::Decimal::from_i128_with_scale(d.mantissa(), d.scale());
    format!("{:.*}", places, shown)
}

/// `FromStr` of `rust_decimal::Decimal`: the number that a text stands for, if it is one.
#[verifier::external_body]
fn parse_parts(text: &str) -> (r: Option<(i128, u32)>)
    ensures
        match r {
            Some((mantissa, scale)) => parsed(text@) == Some((mantissa as int, scale as int))
                && -coefficient_limit() < mantissa < coefficient_limit() && scale <= 28,
            None => parsed(text@) is None,
        },
{
    match text.parse::<rust_decimal::Decimal>() {
        Ok(d) => Some((d.mantissa(), d.scale())),
        Err(_) => None,
    }
}

/// The decimal that a text stands for, if it is one.
pub fn parse_decimal(text: &str) -> (r: Option<Decimal>)
    ensures
        match r {
            Some(d) => parsed(text@) == Some((d.spec_mantissa(), d.spec_scale()))
                && parsed_value(text@) == Some(d@),
            None => parsed(text@) is None,
        },
{
    match parse_parts(text) {
        Some((mantissa, scale)) => Decimal::from_parts(mantissa, scale),
        None => None,
    }
}

/// Whether a time in milliseconds since 1970 can be written as a date.
pub open spec fn is_date(ms: int) -> bool {
    -8334601228800000 <= ms <= 8210266876799999
}

/// Date and time with milliseconds.
pub open spec fn millis_pattern() -> Seq<char> {
    "%Y-%m-%dT%H:%M:%S%.3fZ"@
}

/// Date and time with seconds.
pub open spec fn seconds_pattern() -> Seq<char> {
    "%Y-%m-%dT%H:%M:%SZ"@
}

/// Date and time in words.
pub open spec fn words_pattern() -> Seq<char> {
    "%Y-%m-%d %H:%M:%S UTC"@
}

/// What `chrono` writes for a time in milliseconds since 1970 UTC, by a pattern.
pub uninterp spec fn utc_chars(ms: int, pattern: Seq<char>) -> Seq<char>;

/// `DateTime::format` of `chrono`, on the time that `DateTime::from_timestamp_millis` gives for a
/// number of milliseconds: a text that depends on time and pattern alone.
#[verifier::external_body]
pub(crate) fn utc_text(ms: i64, pattern: &str) -> (r: String)
    requires
        is_date(ms as int),
        pattern@ == millis_pattern() || pattern@ == seconds_pattern() || pattern@
            == words_pattern(),
    ensures
        r@ == utc_chars(ms as int, pattern@),
{
    let time = chrono::DateTime::<chrono::Utc>::from_timestamp_millis(ms).unwrap();
    time.format(pattern).to_string()
}

/// The characters of a text.
pub fn chars_of(text: &str) -> (r: Vec<char>)
    ensures
        r@ == text@,
{
    let mut out: Vec<char> = Vec::new();
    for c in it: text.chars()
        invariant
            it.seq() == text@,
            out@ =~= text@.take(it.index()),
    {
        out.push(c);
    }
    assert(text@.take(text@.len() as int) =~= text@);
    out
}

/// The texts of a list.
pub open spec fn texts(s: Seq<String>) -> Seq<Seq<char>> {
    s.map_values(|t: String| t@)
}

/// The texts of a list one after the other.
pub open spec fn flat(parts: Seq<Seq<char>>) -> Seq<char>
    decreases parts.len(),
{
    if parts.len() == 0 {
        Seq::empty()
    } else {
        flat(parts.drop_last()) + parts.last()
    }
}

/// The texts of a list with a separator between them.
pub open spec fn joined(parts: Seq<Seq<char>>, separator: Seq<char>) -> Seq<char>
    decreases parts.len(),
{
    if parts.len() == 0 {
        Seq::empty()
    } else if parts.len() == 1 {
        parts[0]
    } else {
        joined(parts.drop_last(), separator) + separator + parts.last()
    }
}

/// The texts of a list one after the other.
pub fn concat_all(parts: &Vec<String>) -> (r: String)
    ensures
        r@ == flat(texts(parts@)),
{
    let mut out = String::new();
    let mut i: usize = 0;
    let ghost all = texts(parts@);
    assert(all.take(0) =~= Seq::<Seq<char>>::empty());
    while i < parts.len()
        invariant
            i <= parts.len(),
            all == texts(parts@),
            out@ == flat(all.take(i as int)),
        decreases parts.len() - i,
    {
        assert(all.take(i + 1).drop_last() =~= all.take(i as int));
        out.append(parts[i].as_str());
        i = i + 1;
    }
    assert(all.take(i as int) =~= all);
    out
}

/// The texts of a list with a separator between them.
pub fn join_all(parts: &Vec<String>, separator: &str) -> (r: String)
    ensures
        r@ == joined(texts(parts@), separator@),
{
    if parts.len() == 0 {
        return String::new();
    }
    let mut out = parts[0].clone();
    let mut i: usize = 1;
    let ghost all = texts(parts@);
    assert(all.take(1) =~= seq![parts@[0]@]);
    while i < parts.len()
        invariant
            1 <= i <= parts.len(),
            all == texts(parts@),
            out@ == joined(all.take(i as int), separator@),
        decreases parts.len() - i,
    {
        assert(all.take(i + 1).drop_last() =~= all.take(i as int));
        out.append(separator);
        out.append(parts[i].as_str());
        i = i + 1;
    }
    assert(all.take(i as int) =~= all);
    out
}

/// The parts of a text between separators.
pub open spec fn split(text: Seq<char>, separator: char) -> Seq<Seq<char>>
    decreases text.len(),
{
    if text.len() == 0 {
        seq![Seq::empty()]
    } else {
        let before = split(text.drop_last(), separator);
        if text.last() == separator {
            before.push(Seq::empty())
        } else {
            before.drop_last().push(before.last().push(text.last()))
        }
    }
}

/// The parts of a text between separators.
pub fn split_text(text: &str, separator: char) -> (r: Vec<String>)
    ensures
        texts(r@) == split(text@, separator),
{
    let chars = chars_of(text);
    let mut out: Vec<String> = Vec::new();
    let mut start: usize = 0;
    let mut i: usize = 0;
    assert(text@.take(0) =~= Seq::<char>::empty());
    assert(split(text@.take(0), separator) =~= texts(out@).push(text@.subrange(0, 0)));
    while i < chars.len()
        invariant
            chars@ == text@,
            start <= i <= text@.len(),
            split(text@.take(i as int), separator) == texts(out@).push(
                text@.subrange(start as int, i as int),
            ),
        decreases text@.len() - i,
    {
        let ghost seen = text@.take(i as int);
        let ghost more = text@.take(i + 1);
        assert(more.drop_last() =~= seen);
        assert(more.last() == text@[i as int]);
        if chars[i] == separator {
            let ghost before = out@;
            out.push(text.substring_char(start, i).to_owned());
            assert(texts(out@) =~= texts(before).push(text@.subrange(start as int, i as int)));
            start = i + 1;
            assert(text@.subrange(start as int, i + 1) =~= Seq::<char>::empty());
        } else {
            assert(text@.subrange(start as int, i + 1) =~= text@.subrange(
                start as int,
                i as int,
            ).push(text@[i as int]));
            assert(split(seen, separator).drop_last() =~= texts(out@));
        }
        i = i + 1;
    }
    assert(text@.take(i as int) =~= text@);
    let ghost before = out@;
    out.push(text.substring_char(start, i).to_owned());
    assert(texts(out@) =~= texts(before).push(text@.subrange(start as int, i as int)));
    out
}

proof fn lemma_split_nonempty(text: Seq<char>, separator: char)
    ensures
        split(text, separator).len() >= 1,
    decreases text.len(),
{
    if text.len() > 0 {
        lemma_split_nonempty(text.drop_last(), separator);
    }
}

proof fn lemma_split_append(text: Seq<char>, tail: Seq<char>, separator: char)
    requires
        !tail.contains(separator),
    ensures
        split(text + tail, separator) =~= split(text, separator).drop_last().push(
            split(text, separator).last() + tail,
        ),
    decreases tail.len(),
{
    lemma_split_nonempty(text, separator);
    if tail.len() == 0 {
        assert(text + tail =~= text);
        assert(split(text, separator).last() + tail =~= split(text, separator).last());
    } else {
        let rest = tail.drop_last();
        assert(!rest.contains(separator)) by {
            if rest.contains(separator) {
                let i = choose|i: int| 0 <= i < rest.len() && rest[i] == separator;
                assert(tail[i] == separator);
            }
        }
        assert(tail.contains(tail.last()));
        lemma_split_append(text, rest, separator);
        assert((text + tail).drop_last() =~= text + rest);
        assert((split(text, separator).last() + rest).push(tail.last()) =~= split(
            text,
            separator,
        ).last() + tail);
    }
}

/// Splitting a list of texts that were joined gives back the texts, as long as none of them holds
/// the separator.
pub proof fn law_split_undoes_join(parts: Seq<Seq<char>>, separator: char)
    requires
        parts.len() >= 1,
        forall|i: int| 0 <= i < parts.len() ==> !(#[trigger] parts[i]).contains(separator),
    ensures
        split(joined(parts, seq![separator]), separator) =~= parts,
    decreases parts.len(),
{
    if parts.len() == 1 {
        let empty = Seq::<char>::empty();
        lemma_split_append(empty, parts[0], separator);
        assert(empty + parts[0] =~= parts[0]);
        assert(split(empty, separator).last() + parts[0] =~= parts[0]);
    } else {
        let rest = parts.drop_last();
        assert forall|i: int| 0 <= i < rest.len() implies !(#[trigger] rest[i]).contains(
            separator,
        ) by {
            assert(!parts[i].contains(separator));
        }
        law_split_undoes_join(rest, separator);
        let head = joined(rest, seq![separator]) + seq![separator];
        assert(head.drop_last() =~= joined(rest, seq![separator]));
        assert(split(head, separator) == split(joined(rest, seq![separator]), separator).push(
            Seq::empty(),
        ));
        let last = parts.last();
        assert(!parts[parts.len() - 1].contains(separator));
        lemma_split_append(head, last, separator);
        assert(Seq::<char>::empty() + last =~= last);
    }
}

proof fn lemma_digits_plain(n: nat, c: char)
    requires
        c != '0' && c != '1' && c != '2' && c != '3' && c != '4',
        c != '5' && c != '6' && c != '7' && c != '8' && c != '9',
    ensures
        !digits(n).contains(c),
    decreases n,
{
    if n >= 10 {
        lemma_digits_plain(n / 10, c);
        let head = digits(n / 10);
        if digits(n).contains(c) {
            let i = choose|i: int| 0 <= i < digits(n).len() && digits(n)[i] == c;
            if i < head.len() {
                assert(head[i] == c);
            }
        }
    }
}

proof fn lemma_padded_plain(n: nat, places: nat, c: char)
    requires
        c != '0' && c != '1' && c != '2' && c != '3' && c != '4',
        c != '5' && c != '6' && c != '7' && c != '8' && c != '9',
    ensures
        !padded(n, places).contains(c),
    decreases places,
{
    if places > 0 {
        lemma_padded_plain(n / 10, (places - 1) as nat, c);
        let head = padded(n / 10, (places - 1) as nat);
        if padded(n, places).contains(c) {
            let i = choose|i: int| 0 <= i < padded(n, places).len() && padded(n, places)[i] == c;
            if i < head.len() {
                assert(head[i] == c);
            }
        }
    }
}

/// The text of a decimal holds no comma.
pub proof fn law_decimals_have_no_comma(mantissa: int, scale: int)
    ensures
        !plain_chars(mantissa, scale).contains(','),
{
    reveal_strlit("-");
    reveal_strlit("");
    reveal_strlit(".");
    let m = if mantissa < 0 { -mantissa } else { mantissa };
    let whole = (m / pow10(scale)) as nat;
    let fraction = (m % pow10(scale)) as nat;
    lemma_digits_plain(whole, ',');
    lemma_padded_plain(fraction, scale as nat, ',');
    let t = plain_chars(mantissa, scale);
    if t.contains(',') {
        let i = choose|i: int| 0 <= i < t.len() && t[i] == ',';
        let sign = if mantissa < 0 { "-"@ } else { ""@ };
        let a = sign.len() as int;
        let b = a + digits(whole).len();
        if i >= a && i < b {
            assert(digits(whole)[i - a] == ',');
        } else if i > b {
            assert(padded(fraction, scale as nat)[i - b - 1] == ',');
        }
    }
}

/// The number that a text of decimal digits stands for.
pub open spec fn read_digits(text: Seq<char>) -> int
    decreases text.len(),
{
    if text.len() == 0 {
        0
    } else {
        10 * read_digits(text.drop_last()) + (text.last() as int - '0' as int)
    }
}

/// A number is read back from its digits, and has no leading zeros.
pub proof fn law_digits_read_back(n: nat)
    ensures
        read_digits(digits(n)) == n,
        digits(n).len() > 0,
        n > 0 ==> digits(n)[0] != '0',
    decreases n,
{
    if n < 10 {
        let s = seq![digit_char(n as int)];
        assert(s.drop_last() =~= Seq::<char>::empty());
        assert(read_digits(s.drop_last()) == 0);
        assert(s.last() as int - '0' as int == n);
    } else {
        law_digits_read_back(n / 10);
        assert(digits(n).drop_last() =~= digits(n / 10));
    }
}

/// A number with fewer digits than there are places fills them all, and is read back from them.
pub proof fn law_padded_read_back(n: nat, places: nat)
    requires
        places <= 28,
        n < pow10(places as int),
    ensures
        padded(n, places).len() == places,
        read_digits(padded(n, places)) == n,
    decreases places,
{
    if places > 0 {
        let p = pow10(places - 1);
        crate::decimal::lemma_pow10_next(places - 1);
        law_padded_read_back(n / 10, (places - 1) as nat);
        assert(padded(n, places).drop_last() =~= padded(n / 10, (places - 1) as nat));
    }
}

/// An amount with two digits behind the point shows its whole cents, the rest being cut off, and a
/// minus sign where it is negative.
pub proof fn law_amounts_in_cents(v: int, dollars: nat, cents: nat)
    requires
        cents < 100,
        ({
            let size = if v < 0 {
                -v
            } else {
                v
            };
            let whole = (dollars * 100 + cents) as int;
            units(whole, 2) <= size < units(whole + 1, 2)
        }),
    ensures
        v >= 0 ==> fixed_chars(v, 2) =~= digits(dollars) + "."@ + padded(cents, 2),
        v < 0 ==> fixed_chars(v, 2) =~= "-"@ + digits(dollars) + "."@ + padded(cents, 2),
{
    let c = pow10(26);
    let p = pow10(28);
    let m = if v < 0 {
        -v
    } else {
        v
    };
    let k = (dollars * 100 + cents) as int;
    let rest = m - k * c;
    assert(0 <= rest < c) by (nonlinear_arith)
        requires
            rest == m - k * c,
            k * c <= m < (k + 1) * c,
    ;
    assert(p == 100 * c);
    let part = cents * c + rest;
    assert(0 <= part < p && m == dollars * p + part) by (nonlinear_arith)
        requires
            p == 100 * c,
            0 <= cents < 100,
            0 <= rest < c,
            part == cents * c + rest,
            rest == m - k * c,
            k == dollars * 100 + cents,
    ;
    assert(m / p == dollars && m % p == part) by (nonlinear_arith)
        requires
            0 <= part < p,
            m == dollars * p + part,
            dollars >= 0,
    ;
    assert(part / c == cents) by (nonlinear_arith)
        requires
            part == cents * c + rest,
            0 <= rest < c,
    ;
    reveal_strlit("");
    assert(""@ + digits(dollars) =~= digits(dollars));
}

/// Texts that are joined are separated by the separator, and texts one after the other by nothing.
pub proof fn law_two_texts(a: Seq<char>, b: Seq<char>, separator: Seq<char>)
    ensures
        joined(seq![a, b], separator) =~= a + separator + b,
        flat(seq![a, b]) =~= a + b,
{
    let pair = seq![a, b];
    let one = seq![a];
    assert(pair.drop_last() =~= one);
    assert(pair.last() == b && one.last() == a && one[0] == a);
    assert(joined(one, separator) == a);
    assert(one.drop_last() =~= Seq::<Seq<char>>::empty());
    assert(flat(one.drop_last()) =~= Seq::<char>::empty());
    assert(flat(one) =~= a);
}

} // verus!
