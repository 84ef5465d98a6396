use slight::value::{ParseValueError, Value};

fn pct(num: u32) -> Value {
    Value::Percent { num, den: 100 }
}

#[test]
fn half_of_seven_rounds_up() {
    assert_eq!(pct(50).to_absolute(7), 4);
}

#[test]
fn percent_edges_map_to_zero_and_max() {
    assert_eq!(pct(0).to_absolute(255), 0);
    assert_eq!(pct(100).to_absolute(255), 255);
    assert_eq!(pct(100).to_absolute(0), 0);
}

#[test]
fn percent_rounding_exact_values() {
    assert_eq!(pct(33).to_absolute(100), 33);
    assert_eq!(pct(25).to_absolute(10), 3);
    assert_eq!(pct(24).to_absolute(10), 2);
    assert_eq!(pct(1).to_absolute(u32::MAX), 42_949_673);
}

#[test]
fn fraction_above_one_is_clamped() {
    assert_eq!(Value::Percent { num: 3, den: 2 }.to_absolute(80), 80);
}

#[test]
fn absolute_is_clamped_to_max() {
    assert_eq!(Value::Absolute(150).to_absolute(100), 100);
    assert_eq!(Value::Absolute(99).to_absolute(100), 99);
}

#[test]
fn percent_round_trip_is_exact() {
    for max in 1..=64u32 {
        for a in 0..=max {
            let p = Value::Absolute(a).as_percent(max);
            assert_eq!(p.to_absolute(max), a);
        }
    }
}

#[test]
fn resolved_values_stay_within_max() {
    for max in 0..=20u32 {
        for num in 0..=100u32 {
            assert!(pct(num).to_absolute(max) <= max);
        }
        assert!(Value::Absolute(u32::MAX).to_absolute(max) <= max);
    }
}

#[test]
fn to_percent_of_level() {
    assert_eq!(Value::Absolute(3).to_percent(12), (3, 12));
    assert_eq!(Value::Absolute(3).to_percent(0), (0, 1));
    assert_eq!(pct(40).to_percent(12), (40, 100));
    assert_eq!(Value::Absolute(7).as_absolute(5), Value::Absolute(5));
}

#[test]
fn saturating_arithmetic() {
    assert_eq!(Value::saturating_add(90, Value::Absolute(20), 100), 100);
    assert_eq!(Value::saturating_add(50, pct(10), 200), 70);
    assert_eq!(Value::saturating_add(u32::MAX, Value::Absolute(5), u32::MAX), u32::MAX);
    assert_eq!(Value::saturating_sub(10, Value::Absolute(20), 100), 0);
    assert_eq!(Value::saturating_sub(150, Value::Absolute(10), 100), 140);
    assert_eq!(Value::saturating_sub(60, pct(50), 100), 10);
}

#[test]
fn parse_percent_and_absolute() {
    assert_eq!(Value::parse("50%"), Ok(pct(50)));
    assert_eq!(Value::parse(" 42 \n"), Ok(Value::Absolute(42)));
    assert_eq!(Value::parse("+5"), Ok(Value::Absolute(5)));
    assert_eq!(Value::parse("100%"), Ok(pct(100)));
    assert_eq!("0%".parse::<Value>(), Ok(pct(0)));
}

#[test]
fn parse_percent_out_of_range() {
    assert_eq!(Value::parse("101%"), Err(ParseValueError::PercentOutOfRange(101)));
    assert_eq!(Value::parse("255%"), Err(ParseValueError::PercentOutOfRange(255)));
}

#[test]
fn parse_malformed_percent_keeps_text() {
    match Value::parse(" abc% ") {
        Err(ParseValueError::ParsePercentError(_, text)) => assert_eq!(text, "abc%"),
        other => panic!("unexpected {:?}", other),
    }
    assert!(matches!(Value::parse("256%"), Err(ParseValueError::ParsePercentError(_, _))));
    assert!(matches!(Value::parse("%"), Err(ParseValueError::ParsePercentError(_, _))));
}

#[test]
fn parse_malformed_absolute_keeps_text() {
    match Value::parse("-1") {
        Err(ParseValueError::ParseAbsoluteError(_, text)) => assert_eq!(text, "-1"),
        other => panic!("unexpected {:?}", other),
    }
    assert!(matches!(Value::parse(""), Err(ParseValueError::ParseAbsoluteError(_, _))));
    assert!(matches!(Value::parse("4294967296"), Err(ParseValueError::ParseAbsoluteError(_, _))));
    assert_eq!(Value::parse("4294967295"), Ok(Value::Absolute(u32::MAX)));
}
