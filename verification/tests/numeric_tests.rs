use notred::float_bits::{f32_bits_to_i64, i64_to_f32_bits};
use notred::numeric::{parse_i64, render_i64, u64_to_string};

#[test]
fn test_render_i64() {
    assert_eq!(render_i64(0), "0");
    assert_eq!(render_i64(42), "42");
    assert_eq!(render_i64(-1), "-1");
    assert_eq!(render_i64(i64::MAX), "9223372036854775807");
    assert_eq!(render_i64(i64::MIN), "-9223372036854775808");
    assert_eq!(u64_to_string(1234567890), "1234567890");
}

#[test]
fn test_parse_i64() {
    assert_eq!(parse_i64("0"), Some(0));
    assert_eq!(parse_i64("+7"), Some(7));
    assert_eq!(parse_i64("-0012"), Some(-12));
    assert_eq!(parse_i64("9223372036854775807"), Some(i64::MAX));
    assert_eq!(parse_i64("-9223372036854775808"), Some(i64::MIN));
    assert_eq!(parse_i64("9223372036854775808"), None);
    assert_eq!(parse_i64("-9223372036854775809"), None);
    assert_eq!(parse_i64(""), None);
    assert_eq!(parse_i64("+"), None);
    assert_eq!(parse_i64("-"), None);
    assert_eq!(parse_i64("12a"), None);
    assert_eq!(parse_i64(" 12"), None);
    assert_eq!(parse_i64("aaa"), None);
    assert_eq!(parse_i64("\u{FF11}\u{FF12}"), None);
}

// The round trip through decimal text is lossless for every integer.
#[test]
fn test_int_text_round_trip() {
    for v in [0i64, 1, -1, 999, -1000, i64::MAX, i64::MIN, 123456789012345678] {
        assert_eq!(parse_i64(&render_i64(v)), Some(v));
    }
}

// The library's integer-to-float cast agrees with the machine's own cast,
// bit for bit, including the rounding of values beyond 24 bits.
#[test]
fn test_int_to_float_matches_machine() {
    for v in [
        0i64,
        1,
        -1,
        42,
        16777215,
        16777216,
        16777217,
        16777219,
        -16777217,
        123456789,
        i64::MAX,
        i64::MIN,
        1 << 40,
        (1 << 40) + 12345,
    ] {
        assert_eq!(
            i64_to_f32_bits(v),
            (v as f32).to_bits(),
            "cast of {} disagrees with the machine",
            v
        );
    }
}

// The library's float-to-integer cast agrees with the machine's saturating
// truncation, including non-numbers.
#[test]
fn test_float_to_int_matches_machine() {
    for f in [
        0.0f32,
        0.5,
        -0.5,
        1.0,
        -1.0,
        3.9,
        -3.9,
        1e9,
        -1e9,
        1e30,
        -1e30,
        f32::MAX,
        f32::MIN,
        f32::INFINITY,
        f32::NEG_INFINITY,
        f32::NAN,
        f32::MIN_POSITIVE,
    ] {
        assert_eq!(
            f32_bits_to_i64(f.to_bits()),
            f as i64,
            "cast of {} disagrees with the machine",
            f
        );
    }
}

// The int -> float -> int round trip loses the low bits of large values
// (so it is not lossless), while small values survive.
#[test]
fn test_int_float_round_trip_lossy() {
    let small = 42i64;
    assert_eq!(f32_bits_to_i64(i64_to_f32_bits(small)), small);

    let big = 16777217i64;
    let back = f32_bits_to_i64(i64_to_f32_bits(big));
    assert_ne!(back, big);
    assert_eq!(back, 16777216);
}
