use channels_console::text::{
    decimal_len, decimal_string, order_text, parse_unsigned, str_eq, to_chars, TextOrder,
};

fn std_order(a: &str, b: &str) -> TextOrder {
    if a < b {
        TextOrder::Before
    } else if a > b {
        TextOrder::After
    } else {
        TextOrder::Same
    }
}

#[test]
fn decimal_string_matches_display() {
    for n in [0u64, 1, 9, 10, 11, 99, 100, 12345, 1 << 32, u64::MAX - 1, u64::MAX] {
        assert_eq!(decimal_string(n), format!("{}", n));
        assert_eq!(decimal_len(n), format!("{}", n).len() as u64);
    }
}

#[test]
fn parse_unsigned_agrees_with_std_u64() {
    let inputs = [
        "", "+", "-", "0", "+0", "-0", "7", "+7", "007", "17", " 17", "17 ", "1_7", "1.0",
        "18446744073709551615", "18446744073709551616", "+18446744073709551615",
        "99999999999999999999999", "0x10", "１７", "++1", "+-1", "12a", "a12",
    ];
    for s in inputs {
        assert_eq!(parse_unsigned(s, u64::MAX), s.parse::<u64>().ok(), "input {:?}", s);
    }
}

#[test]
fn parse_unsigned_agrees_with_std_u16() {
    let inputs = ["0", "6770", "65535", "65536", "+65535", "-1", "port", "", "00080"];
    for s in inputs {
        let expected = s.parse::<u16>().ok().map(|v| v as u64);
        assert_eq!(parse_unsigned(s, u16::MAX as u64), expected, "input {:?}", s);
    }
}

#[test]
fn parse_reads_back_what_decimal_writes() {
    for n in [0u64, 5, 10, 4096, u64::MAX] {
        assert_eq!(parse_unsigned(&decimal_string(n), u64::MAX), Some(n));
    }
}

#[test]
fn order_text_agrees_with_str_order() {
    let words = ["", "a", "A", "ab", "abc", "b", "ä", "z", "zz", "é", "日本", "foo.rs:42", "foo.rs:5"];
    for a in words {
        for b in words {
            assert_eq!(order_text(a, b), std_order(a, b), "{:?} against {:?}", a, b);
        }
    }
}

#[test]
fn str_eq_compares_characters() {
    assert!(str_eq("", ""));
    assert!(str_eq("oneshot", "oneshot"));
    assert!(!str_eq("oneshot", "oneshoT"));
    assert!(!str_eq("one", "oneshot"));
}

#[test]
fn to_chars_lists_the_characters() {
    assert_eq!(to_chars("aé日"), vec!['a', 'é', '日']);
    assert_eq!(to_chars(""), Vec::<char>::new());
}
