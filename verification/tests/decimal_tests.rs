use rustymcp::decimal::{parse_decimal_u16, parse_decimal_u64, parse_decimal_usize};

const SAMPLES: &[&str] = &[
    "", "+", "-", "-0", "0", "007", "+42", "42", " 42", "42 ", "4_2", "1e3", "\u{0663}",
    "65535", "65536", "4294967295", "4294967296", "18446744073709551615",
    "18446744073709551616", "99999999999999999999999", "+18446744073709551615",
];

#[test]
fn decimal_parse_agrees_with_std_for_u64() {
    for s in SAMPLES {
        assert_eq!(parse_decimal_u64(s), s.parse::<u64>().ok(), "input {:?}", s);
    }
}

#[test]
fn decimal_parse_agrees_with_std_for_usize_and_u16() {
    for s in SAMPLES {
        assert_eq!(parse_decimal_usize(s), s.parse::<usize>().ok(), "input {:?}", s);
        assert_eq!(parse_decimal_u16(s), s.parse::<u16>().ok(), "input {:?}", s);
    }
}

#[test]
fn decimal_parse_reads_exact_values() {
    assert_eq!(parse_decimal_u64("+007"), Some(7));
    assert_eq!(parse_decimal_u64("18446744073709551615"), Some(u64::MAX));
    assert_eq!(parse_decimal_u64("18446744073709551616"), None);
    assert_eq!(parse_decimal_u16("65535"), Some(65535));
    assert_eq!(parse_decimal_u16("65536"), None);
    assert_eq!(parse_decimal_usize("1536"), Some(1536));
}
