use hydration_reminder::{Duration, DurationParser, ParseError};

#[test]
fn single() {
    let time = DurationParser::new("10m").get().unwrap();
    assert_eq!(time, Duration::from_secs(600));
}

#[test]
fn multi() {
    let time = DurationParser::new("10m30s").get().unwrap();
    assert_eq!(time, Duration::from_secs(630));
}

#[test]
fn multi_all() {
    let time = DurationParser::new("1h10m30s").get().unwrap();
    assert_eq!(time, Duration::from_secs(3600 + 630));
}

#[test]
fn fail_empty() {
    let time = DurationParser::new("").get();
    assert!(time.is_err());
}

#[test]
fn fail_whitespace_only() {
    let time = DurationParser::new(" \t \r\n \n ").get();
    assert!(time.is_err());
}

#[test]
fn fail_wrong_suffix() {
    let time = DurationParser::new("10x").get();
    assert!(time.is_err());
}

fn parse(text: &str) -> Result<Duration, ParseError> {
    DurationParser::new(text).get()
}

#[test]
fn minutes_and_seconds() {
    assert_eq!(parse("20m30s"), Ok(Duration::from_secs(1230)));
}

#[test]
fn order_does_not_matter() {
    assert_eq!(parse("10s2h"), Ok(Duration::from_secs(7210)));
    assert_eq!(parse("2h10s"), Ok(Duration::from_secs(7210)));
    assert_eq!(parse("10s2h"), parse("2h10s"));
}

#[test]
fn repeated_units_add_up() {
    assert_eq!(parse("20s20s80s"), Ok(Duration::from_secs(120)));
    assert_eq!(parse("120s"), Ok(Duration::from_secs(120)));
    assert_eq!(parse("1m1m1h"), Ok(Duration::from_secs(3720)));
}

#[test]
fn round_trip_of_tokens() {
    let tokens: Vec<(u64, char)> = vec![(3, 'm'), (7, 's'), (2, 'h'), (10, 'm'), (1, 's')];
    let mut text = String::new();
    let mut by_unit = [0u64; 3];
    for (n, u) in &tokens {
        text.push_str(&format!("{}{}", n, u));
        match u {
            's' => by_unit[0] += n,
            'm' => by_unit[1] += n,
            _ => by_unit[2] += n,
        }
    }
    let total = by_unit[0] + 60 * by_unit[1] + 3600 * by_unit[2];
    assert_eq!(parse(&text), Ok(Duration::from_secs(total)));
    assert_eq!(total, 8 + 13 * 60 + 2 * 3600);
}

#[test]
fn zero_is_a_duration() {
    assert_eq!(parse("0s"), Ok(Duration::from_secs(0)));
    assert_eq!(parse("00m0h"), Ok(Duration::from_secs(0)));
}

#[test]
fn empty_is_empty_or_invalid() {
    assert_eq!(parse(""), Err(ParseError::EmptyOrInvalid));
    assert_eq!(parse(" \t \r\n \n "), Err(ParseError::EmptyOrInvalid));
    assert_eq!(parse("\u{0B}\u{0C}"), Err(ParseError::EmptyOrInvalid));
}

#[test]
fn surrounding_white_space_is_ignored() {
    assert_eq!(parse("  10m \n"), Ok(Duration::from_secs(600)));
    assert_eq!(parse("\t1h\t"), Ok(Duration::from_secs(3600)));
}

#[test]
fn no_digits_is_empty_or_invalid() {
    assert_eq!(parse("m"), Err(ParseError::EmptyOrInvalid));
    assert_eq!(parse("10m x"), Err(ParseError::EmptyOrInvalid));
    assert_eq!(parse("10ms"), Err(ParseError::EmptyOrInvalid));
    assert_eq!(parse("-5s"), Err(ParseError::EmptyOrInvalid));
}

#[test]
fn digits_at_end_miss_suffix() {
    assert_eq!(parse("10"), Err(ParseError::MissingSuffix));
    assert_eq!(parse("10m30"), Err(ParseError::MissingSuffix));
}

#[test]
fn unknown_suffix_is_invalid() {
    assert_eq!(parse("10x"), Err(ParseError::InvalidSuffix));
    assert_eq!(parse("10m5d"), Err(ParseError::InvalidSuffix));
    assert_eq!(parse("10S"), Err(ParseError::InvalidSuffix));
    assert_eq!(parse("5 m"), Err(ParseError::InvalidSuffix));
}

#[test]
fn overflow_is_reported() {
    assert_eq!(parse("18446744073709551615s"), Ok(Duration::from_secs(u64::MAX)));
    assert_eq!(parse("18446744073709551616s"), Err(ParseError::NumericOverflow));
    assert_eq!(parse("99999999999999999999999x"), Err(ParseError::NumericOverflow));
    assert_eq!(parse("18446744073709551615m"), Err(ParseError::NumericOverflow));
    assert_eq!(parse("18446744073709551615s1s"), Err(ParseError::NumericOverflow));
}

#[test]
fn parsing_is_deterministic() {
    assert_eq!(parse("1h2m3s"), parse("1h2m3s"));
    assert_eq!(parse("1h2q"), parse("1h2q"));
}
