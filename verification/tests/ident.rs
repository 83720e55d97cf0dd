use gateway_proxy::ident::{id_text, parse_id, parse_number};

fn std_id(text: &str) -> Option<u64> {
    match text.parse::<u64>() {
        Ok(0) => None,
        Ok(n) => Some(n),
        Err(_) => None,
    }
}

#[test]
fn parse_id_reads_plain_decimal() {
    assert_eq!(parse_id("1"), Some(1));
    assert_eq!(parse_id("100"), Some(100));
    assert_eq!(parse_id("381880193251409931"), Some(381880193251409931));
}

#[test]
fn parse_id_refuses_zero() {
    assert_eq!(parse_id("0"), None);
    assert_eq!(parse_id("000"), None);
    assert_eq!(parse_id("+0"), None);
    assert_eq!(parse_number("0"), Some(0));
}

#[test]
fn parse_id_refuses_text_that_is_no_number() {
    assert_eq!(parse_id("abc"), None);
    assert_eq!(parse_id(""), None);
    assert_eq!(parse_id("+"), None);
    assert_eq!(parse_id("-5"), None);
    assert_eq!(parse_id(" 5"), None);
    assert_eq!(parse_id("5 "), None);
    assert_eq!(parse_id("5a"), None);
    assert_eq!(parse_id("1_000"), None);
    assert_eq!(parse_id("++5"), None);
    assert_eq!(parse_id("5+"), None);
    assert_eq!(parse_id("\u{0665}"), None);
    assert_eq!(parse_id("1.0"), None);
}

#[test]
fn parse_id_allows_a_plus_sign_and_leading_zeros() {
    assert_eq!(parse_id("+5"), Some(5));
    assert_eq!(parse_id("007"), Some(7));
    assert_eq!(parse_id("+007"), Some(7));
}

#[test]
fn parse_id_keeps_to_64_bits() {
    assert_eq!(parse_id("18446744073709551615"), Some(u64::MAX));
    assert_eq!(parse_id("18446744073709551616"), None);
    assert_eq!(parse_id("99999999999999999999"), None);
    assert_eq!(parse_id("184467440737095516150"), None);
    assert_eq!(parse_id("00018446744073709551615"), Some(u64::MAX));
}

#[test]
fn parse_id_agrees_with_the_standard_parser() {
    let samples = vec![
        "", "0", "1", "9", "10", "+", "-", "+1", "-1", "01", "1e3", "0x10", "12345678901234567890",
        "18446744073709551615", "18446744073709551616", "28446744073709551615", "abc", "1a", "a1",
        " 1", "1 ", "1\n", "\u{ff11}", "+18446744073709551615", "+18446744073709551616",
    ];
    for sample in samples {
        assert_eq!(parse_id(sample), std_id(sample), "{:?}", sample);
    }
}

#[test]
fn id_text_writes_decimal() {
    assert_eq!(id_text(0), "0");
    assert_eq!(id_text(7), "7");
    assert_eq!(id_text(10), "10");
    assert_eq!(id_text(100), "100");
    assert_eq!(id_text(1234567890), "1234567890");
    assert_eq!(id_text(u64::MAX), "18446744073709551615");
}

#[test]
fn id_text_and_parse_id_round_trip() {
    let samples: Vec<u64> = vec![1, 9, 10, 11, 99, 100, 4096, 381880193251409931, u64::MAX];
    for sample in samples {
        assert_eq!(parse_id(&id_text(sample)), Some(sample));
        assert_eq!(id_text(sample), sample.to_string());
    }
}
