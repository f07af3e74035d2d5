//! Numbers and words.

use infmon::duration::Duration;
use infmon::pairs::Pairs;
use infmon::text::{
    cat, cat3, decimal_text, pad_left, pad_right, parse_u64, push_hex_short, push_signed, split_on,
    starts_with, strip_suffix, trim, ParseIntError,
};

#[test]
fn numbers_round_trip() {
    for n in [0u64, 1, 9, 10, 999, 1000, u64::MAX] {
        assert_eq!(decimal_text(n), n.to_string());
        assert_eq!(parse_u64(&n.to_string()), Ok(n));
    }
    let mut s = String::new();
    push_signed(&mut s, -40);
    push_signed(&mut s, 7);
    push_signed(&mut s, i32::MIN);
    assert_eq!(s, format!("-407{}", i32::MIN));
    let mut h = String::new();
    push_hex_short(&mut h, 0);
    push_hex_short(&mut h, 0xbeef);
    assert_eq!(h, "0beef");
}

#[test]
fn numbers_are_refused_as_std_refuses_them() {
    for s in ["", "+", "-", "+1", "-1", "1a", " 1", "18446744073709551615", "18446744073709551616"] {
        let mine = match parse_u64(s) {
            Ok(n) => Ok(n),
            Err(e) => Err(e.message()),
        };
        assert_eq!(mine, s.parse::<u64>().map_err(|e| e.to_string()));
    }
    assert_eq!(parse_u64(""), Err(ParseIntError::Empty));
    assert_eq!(parse_u64("x"), Err(ParseIntError::InvalidDigit));
    assert_eq!(parse_u64("99999999999999999999"), Err(ParseIntError::PosOverflow));
}

#[test]
fn white_space_is_that_of_std() {
    for s in ["", "  a b ", "\u{3000}x\u{a0}", "\t\r\n", "\u{2007}y\u{85}", "\u{200b}z"] {
        assert_eq!(trim(s), s.trim());
        assert_eq!(trim(trim(s)), trim(s));
    }
    for c in 0..0x3100u32 {
        if let Some(c) = char::from_u32(c) {
            let s = c.to_string();
            assert_eq!(trim(&s).is_empty(), c.is_whitespace());
        }
    }
}

#[test]
fn pieces_of_text() {
    assert_eq!(split_on("a,,b", ','), vec!["a", "", "b"]);
    assert_eq!(split_on("", ','), vec![""]);
    assert!(starts_with("resource.x", "resource."));
    assert!(!starts_with("res", "resource."));
    assert_eq!(strip_suffix("800ms", "ms"), Some("800"));
    assert_eq!(strip_suffix("800", "ms"), None);
    assert_eq!(cat("a", "b"), "ab");
    assert_eq!(cat3("a", "b", "c"), "abc");
    assert_eq!(pad_right("ab", 4), format!("{:<4}", "ab"));
    assert_eq!(pad_left("\u{e9}", 3), format!("{:>3}", "\u{e9}"));
    assert_eq!(pad_left("abcd", 3), "abcd");
}

#[test]
fn spans() {
    let d = Duration::from_millis(1500);
    assert_eq!(d.as_millis(), 1500);
    assert_eq!(d.checked_sub(Duration::from_secs(1)), Some(Duration::from_nanos(500_000_000)));
    assert_eq!(Duration::from_secs(1).checked_sub(d), None);
    assert_eq!(d.doubled(Duration::from_secs(2)), Duration::from_secs(2));
    assert_eq!(d.doubled(Duration::from_secs(9)), Duration::from_secs(3));
    assert!(Duration::from_secs(0).is_zero());
}

#[test]
fn pairs_keep_each_key_once() {
    let mut p: Pairs<u32> = Pairs::new();
    assert!(p.is_empty());
    p.insert("a".to_string(), 1);
    p.insert("b".to_string(), 2);
    p.insert("a".to_string(), 3);
    assert_eq!(p.len(), 2);
    assert_eq!(p.get("a"), Some(&3));
    assert_eq!((p.key_at(1), *p.value_at(1)), ("b", 2));
    p.remove("a");
    p.remove("z");
    assert_eq!(p.len(), 1);
    assert_eq!(p.get("a"), None);
}
