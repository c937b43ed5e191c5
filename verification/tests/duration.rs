use r2e_macros::extract::duration::{duration_overflows_at_runtime, parse_duration_ms};

#[test]
fn seconds() {
    assert_eq!(parse_duration_ms("5s"), Ok(5_000));
}

#[test]
fn minutes() {
    assert_eq!(parse_duration_ms("2m"), Ok(120_000));
}

#[test]
fn milliseconds() {
    assert_eq!(parse_duration_ms("500ms"), Ok(500));
}

#[test]
fn hours_and_days() {
    assert_eq!(parse_duration_ms("1h"), Ok(3_600_000));
    assert_eq!(parse_duration_ms("1d"), Ok(86_400_000));
}

#[test]
fn segments_combine() {
    assert_eq!(parse_duration_ms("1h30m"), Ok(5_400_000));
    assert_eq!(parse_duration_ms("2m30s"), Ok(150_000));
    assert_eq!(parse_duration_ms("1h15m30s"), Ok(4_530_000));
    assert_eq!(parse_duration_ms("1m30s"), Ok(90_000));
}

#[test]
fn combination_is_the_sum_of_its_parts() {
    let a = parse_duration_ms("1h").unwrap();
    let b = parse_duration_ms("30m").unwrap();
    assert_eq!(parse_duration_ms("1h30m"), Ok(a + b));
}

#[test]
fn surrounding_whitespace_is_ignored() {
    assert_eq!(parse_duration_ms("  10s \n"), Ok(10_000));
}

#[test]
fn empty_is_refused() {
    assert_eq!(parse_duration_ms(""), Err("empty duration string".to_string()));
    assert_eq!(parse_duration_ms("   "), Err("empty duration string".to_string()));
}

#[test]
fn unit_without_number_is_refused() {
    assert_eq!(
        parse_duration_ms("s"),
        Err("unexpected 's' without a preceding number".to_string())
    );
}

#[test]
fn unknown_unit_is_refused() {
    assert_eq!(
        parse_duration_ms("5x"),
        Err("unknown duration suffix 'x' — use ms, s, m, h, or d".to_string())
    );
    assert_eq!(
        parse_duration_ms("5sec"),
        Err("unknown duration suffix 'sec' — use ms, s, m, h, or d".to_string())
    );
}

#[test]
fn unexpected_character_is_refused() {
    assert_eq!(
        parse_duration_ms("5 s"),
        Err("unexpected character ' ' in duration".to_string())
    );
    assert_eq!(
        parse_duration_ms("1.5s"),
        Err("unexpected character '.' in duration".to_string())
    );
}

#[test]
fn trailing_number_is_refused() {
    assert_eq!(
        parse_duration_ms("1h30"),
        Err("trailing number '30' without a unit suffix (ms, s, m, h, d)".to_string())
    );
}

#[test]
fn zero_is_refused() {
    assert_eq!(
        parse_duration_ms("0s"),
        Err("duration must be greater than zero".to_string())
    );
    assert_eq!(
        parse_duration_ms("0h0m"),
        Err("duration must be greater than zero".to_string())
    );
}

#[test]
fn number_too_large_is_refused() {
    assert_eq!(
        parse_duration_ms("99999999999999999999ms"),
        Err("invalid number: '99999999999999999999'".to_string())
    );
}

#[test]
fn overflow_is_detected() {
    assert!(duration_overflows_at_runtime("999999999999999d"));
    assert!(!duration_overflows_at_runtime("5s"));
}
