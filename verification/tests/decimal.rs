use poly_strategy::arb::ArbOpportunity;
use poly_strategy::decimal::{Decimal, minutes_of};
use poly_strategy::signal::calculate_distance;
use poly_strategy::steps::{FillAmounts, price_per_share};
use poly_strategy::types::{CryptoAsset, Inventory, WindowPhase};

/// A decimal from its text.
fn dec(text: &str) -> Decimal {
    let d: rust_decimal::Decimal = text.parse().unwrap();
    Decimal::from_parts(d.mantissa(), d.scale()).unwrap()
}

fn opportunity(margin: Decimal) -> ArbOpportunity {
    ArbOpportunity {
        event_id: "event".to_string(),
        asset: CryptoAsset::Btc,
        yes_token_id: "yes".to_string(),
        no_token_id: "no".to_string(),
        yes_ask: dec("0.45"),
        no_ask: dec("0.52"),
        combined_cost: dec("0.97"),
        margin,
        margin_bps: 300,
        max_size: dec("100"),
        seconds_remaining: 300,
        phase: WindowPhase::Mid,
        required_threshold: dec("0.015"),
        confidence: 80,
        spot_price: None,
        strike_price: dec("100000"),
        detected_at_ms: 0,
    }
}

/// Product through the profit of a size at a margin.
fn product(a: Decimal, b: Decimal) -> Decimal {
    opportunity(a).expected_profit(b)
}

/// Sum through the exposure of an inventory.
fn sum(a: Decimal, b: Decimal) -> Decimal {
    let mut inventory = Inventory::new("event".to_string());
    inventory.yes_cost_basis = a;
    inventory.no_cost_basis = b;
    inventory.total_exposure()
}

const LIMIT: u128 = 1 << 96;

fn half_even(n: u128, d: u128) -> u128 {
    let q = n / d;
    let r = n % d;
    if 2 * r < d || (2 * r == d && q % 2 == 0) { q } else { q + 1 }
}

/// The number `n / (d * 10^scale)` rounded to the finest scale, up to 28, whose coefficient fits.
fn finest(n: u128, d: u128, scale: u32) -> Decimal {
    let mut k = 0;
    loop {
        let cut = scale + k;
        let coefficient = if cut >= 28 {
            half_even(n, d * 10u128.pow(cut - 28))
        } else {
            half_even(n * 10u128.pow(28 - cut), d)
        };
        if coefficient < LIMIT {
            return Decimal::from_parts(coefficient as i128, 28 - k).unwrap();
        }
        k += 1;
    }
}

/// Numbers that look random and are the same in every run.
fn numbers(seed: u64, count: usize) -> Vec<u64> {
    let mut x = seed;
    let mut out = Vec::new();
    for _ in 0..count {
        x = x.wrapping_mul(6364136223846793005).wrapping_add(1442695040888963407);
        out.push(x >> 33);
    }
    out
}

#[test]
fn equal_values_compare_equal_whatever_their_scale() {
    assert_eq!(dec("1.0"), dec("1.00"));
    assert_eq!(dec("0"), dec("0.000"));
    assert_ne!(dec("1.0"), dec("1.01"));
    assert!(dec("-0.5") < dec("0.49"));
    assert!(dec("2") > dec("1.999999999999999999999999999"));
    assert!(dec("1.10") >= dec("1.1"));
}

#[test]
fn parts_out_of_range_are_no_decimal() {
    assert!(Decimal::from_parts(1 << 96, 0).is_none());
    assert!(Decimal::from_parts(-(1 << 96), 0).is_none());
    assert!(Decimal::from_parts((1 << 96) - 1, 28).is_some());
    assert!(Decimal::from_parts(1, 29).is_none());
}

#[test]
fn parts_are_kept() {
    let d = Decimal::from_parts(-12345, 3).unwrap();
    assert_eq!(d.mantissa(), -12345);
    assert_eq!(d.scale(), 3);
    assert_eq!(d.abs(), dec("12.345"));
    assert_eq!(d.neg(), dec("12.345"));
    assert_eq!(Decimal::new(42, 5), dec("0.00042"));
    assert!(Decimal::new(0, 7).is_zero());
    assert_eq!(Decimal::from_u64(u64::MAX), dec("18446744073709551615"));
    assert_eq!(Decimal::from_i64(i64::MIN), dec("-9223372036854775808"));
}

#[test]
fn smallest_and_largest() {
    assert_eq!(dec("1.5").min(dec("1.25")), dec("1.25"));
    assert_eq!(dec("1.5").max(dec("1.25")), dec("1.5"));
    assert_eq!(dec("7").clamp(dec("0.5"), dec("3")), dec("3"));
    assert_eq!(dec("0.1").clamp(dec("0.5"), dec("3")), dec("0.5"));
    assert_eq!(dec("2").clamp(dec("0.5"), dec("3")), dec("2"));
}

#[test]
fn minutes_of_seconds() {
    assert_eq!(minutes_of(90), dec("1.5"));
    assert_eq!(minutes_of(-30), dec("-0.5"));
    assert_eq!(minutes_of(20), dec("0.3333333333333333333333333333"));
}

#[test]
fn quotients_are_rounded_half_even_at_the_finest_scale() {
    // distance = (spot - strike) / strike
    let ns = numbers(1, 400);
    for pair in ns.chunks(2) {
        let n = pair[0] as u128 % 1_000_000_000 + 1;
        let d = pair[1] as u128 % 1_000_000_000 + 1;
        let strike = Decimal::from_u64(d as u64);
        let spot = Decimal::from_u64((d + n) as u64);
        assert_eq!(calculate_distance(spot, strike), finest(n, d, 0), "{} / {}", n, d);
    }
    // Divisors of more than 64 bits
    for group in numbers(4, 400).chunks(4) {
        let n = group[0] as u128 % 1_000_000_000 + 1;
        let d = (group[1] as u128 + 1) * (group[2] as u128 + 1) * (group[3] as u128 % 4096 + 1);
        let strike = Decimal::from_parts(d as i128, 0).unwrap();
        let spot = Decimal::from_parts((d + n) as i128, 0).unwrap();
        assert_eq!(calculate_distance(spot, strike), finest(n, d, 0), "{} / {}", n, d);
    }
    // 200 / 3 keeps 27 digits behind the point
    assert_eq!(calculate_distance(dec("203"), dec("3")), dec("66.666666666666666666666666667"));
    assert_eq!(calculate_distance(dec("1"), dec("3")), dec("-0.6666666666666666666666666667"));
    // Half way between two numbers right above the largest coefficient, the even one is taken
    let fill = FillAmounts {
        size: dec("2"),
        cost: dec("15845632502852867518708790069"),
        fee: dec("0"),
    };
    assert_eq!(price_per_share(&fill), dec("7922816251426433759354395034"));
}

#[test]
fn products_are_rounded_half_even_at_the_finest_scale() {
    let ns = numbers(2, 1200);
    for group in ns.chunks(4) {
        let a = group[0] * (group[1] % 1000 + 1);
        let b = group[1] * (group[2] % 1000 + 1);
        let s = (group[2] % 19) as u32;
        let t = (group[3] % 19) as u32;
        let x = Decimal::from_parts(a as i128, s).unwrap();
        let y = Decimal::from_parts(b as i128, t).unwrap();
        let want = if s + t >= 28 {
            finest(a as u128 * b as u128, 1, s + t)
        } else {
            // The product is exact: its coefficient is below 2^84
            Decimal::from_parts(a as i128 * b as i128, s + t).unwrap()
        };
        assert_eq!(product(x, y), want, "{} {} * {} {}", a, s, b, t);
    }
    // A tie goes to the even neighbour
    let tiny = Decimal::from_parts(5, 28).unwrap();
    assert_eq!(product(tiny, dec("0.1")), dec("0"));
    assert_eq!(product(tiny, dec("0.3")), Decimal::from_parts(2, 28).unwrap());
    assert_eq!(product(dec("-0.03"), dec("100")), dec("-3"));
}

#[test]
fn sums_are_rounded_half_even_at_the_finest_scale() {
    assert_eq!(sum(dec("0.1"), dec("0.22")), dec("0.32"));
    assert_eq!(sum(dec("1"), dec("-1.00")), dec("0"));
    // The coefficient of the exact sum has more than 96 bits
    let large = Decimal::from_parts((1 << 96) - 3, 0).unwrap();
    assert_eq!(sum(large, dec("0.4")), large);
    assert_eq!(sum(large, dec("0.5")), Decimal::from_parts((1 << 96) - 2, 0).unwrap());
    assert_eq!(sum(large, dec("1.5")), Decimal::from_parts((1 << 96) - 2, 0).unwrap());
    assert_eq!(sum(large, dec("1.6")), Decimal::from_parts((1 << 96) - 1, 0).unwrap());
}

#[test]
fn rounding_keeps_the_order() {
    let ns = numbers(3, 300);
    for group in ns.chunks(3) {
        let x = Decimal::from_parts(group[0] as i128, 9).unwrap();
        let low = Decimal::from_parts(group[1].min(group[2]) as i128, 25).unwrap();
        let high = Decimal::from_parts(group[1].max(group[2]) as i128, 25).unwrap();
        assert!(product(x, low) <= product(x, high));
        assert!(sum(x, low) <= sum(x, high));
    }
}

#[test]
fn sums_have_the_digits_of_their_terms() {
    let text = |a: &str, b: &str| {
        let r = sum(dec(a), dec(b));
        rust_decimal::Decimal::from_i128_with_scale(r.mantissa(), r.scale()).to_string()
    };
    assert_eq!(text("1.50", "2.5"), "4.00");
    assert_eq!(text("1.5", "-1.500"), "0.000");
    // Nothing of a zero is left, whatever its digits
    assert_eq!(text("0.000", "1.5"), "1.5");
    assert_eq!(text("1.5", "0.000"), "1.5");
    assert_eq!(text("0.0", "0.000"), "0.000");
    // As many digits as fit
    assert_eq!(text("7922816251426433759354395033.5", "0.05"), "7922816251426433759354395034");
    assert_eq!(text("7922816251426433759354395032.5", "0.05"), "7922816251426433759354395032.6");
}
