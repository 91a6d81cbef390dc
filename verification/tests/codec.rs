use otel_export::ids::generate_hex;
use otel_export::time::decode_nanos;
use otel_export::time::encode_nanos;
use otel_export::time::TimeError;
use otel_export::time::TimeWire;

fn number(s: &str) -> TimeWire {
    TimeWire::Number(s.to_string())
}

fn text(s: &str) -> TimeWire {
    TimeWire::Text(s.to_string())
}

#[test]
fn encode_zero_is_zero() {
    assert_eq!(encode_nanos(0), "0");
}

#[test]
fn encode_has_no_leading_zeros() {
    assert_eq!(encode_nanos(1000), "1000");
    assert_eq!(encode_nanos(7), "7");
    assert_eq!(encode_nanos(1_700_000_000_000_000_000), "1700000000000000000");
    assert_eq!(encode_nanos(u64::MAX), "18446744073709551615");
}

#[test]
fn round_trip_is_exact() {
    for t in [
        0u64,
        1,
        9,
        10,
        999,
        1_700_000_000_000_000_000,
        u64::MAX - 1,
        u64::MAX,
    ] {
        assert_eq!(decode_nanos(&text(&encode_nanos(t))), Ok(t));
        assert_eq!(decode_nanos(&number(&encode_nanos(t))), Ok(t));
    }
}

#[test]
fn number_and_string_decode_identically() {
    let as_number = decode_nanos(&number("1700000000000000000"));
    let as_string = decode_nanos(&text("1700000000000000000"));
    assert_eq!(as_number, Ok(1_700_000_000_000_000_000));
    assert_eq!(as_number, as_string);
}

#[test]
fn fractional_values_are_malformed() {
    assert_eq!(decode_nanos(&text("12.5")), Err(TimeError::Malformed));
    assert_eq!(decode_nanos(&number("12.5")), Err(TimeError::Malformed));
}

#[test]
fn non_numeric_tokens_are_malformed() {
    assert_eq!(decode_nanos(&text("")), Err(TimeError::Malformed));
    assert_eq!(decode_nanos(&number("")), Err(TimeError::Malformed));
    assert_eq!(decode_nanos(&text("abc")), Err(TimeError::Malformed));
    assert_eq!(decode_nanos(&number("-5")), Err(TimeError::Malformed));
    assert_eq!(decode_nanos(&number("1e5")), Err(TimeError::Malformed));
    assert_eq!(decode_nanos(&text(" 1")), Err(TimeError::Malformed));
    assert_eq!(decode_nanos(&text("1 ")), Err(TimeError::Malformed));
}

#[test]
fn beyond_64_bits_is_out_of_range() {
    assert_eq!(
        decode_nanos(&text("18446744073709551616")),
        Err(TimeError::OutOfRange)
    );
    assert_eq!(
        decode_nanos(&number("99999999999999999999999")),
        Err(TimeError::OutOfRange)
    );
}

#[test]
fn leading_zeros_are_tolerated_on_input() {
    assert_eq!(decode_nanos(&text("007")), Ok(7));
    assert_eq!(decode_nanos(&number("000")), Ok(0));
}

#[test]
fn generated_ids_are_hex_of_requested_length() {
    let id = generate_hex(8);
    assert_eq!(id.len(), 8);
    assert!(id.chars().all(|c| c.is_ascii_hexdigit() && !c.is_ascii_uppercase()));
    assert_eq!(generate_hex(0), "");
    let long = generate_hex(64);
    assert_eq!(long.len(), 64);
    assert!(long.chars().all(|c| "0123456789abcdef".contains(c)));
}
