use hypr_plugins::text::{contains, push_bool, push_decimal_i64, push_decimal_u64, trim};

#[test]
fn trim_matches_std() {
    for s in ["", "  ", " a ", "\u{3000}x y\u{85}", "\tword\n", "no-space", "\u{200b}z"] {
        assert_eq!(trim(s), s.trim());
    }
}

#[test]
fn contains_matches_std() {
    for (h, n) in [("abc", ""), ("abc", "b"), ("abc", "abcd"), ("[WebSocket] x", "[WebSocket]"), ("ab", "ba"), ("ééa", "éa")] {
        assert_eq!(contains(h, n), h.contains(n));
    }
}

#[test]
fn decimal_text() {
    for n in [0u64, 7, 10, 1234567890, u64::MAX] {
        let mut s = String::new();
        push_decimal_u64(&mut s, n);
        assert_eq!(s, n.to_string());
    }
    for n in [0i64, -1, 42, -9000, i64::MIN, i64::MAX] {
        let mut s = String::from("x");
        push_decimal_i64(&mut s, n);
        assert_eq!(s, format!("x{}", n));
    }
    let mut s = String::new();
    push_bool(&mut s, true);
    push_bool(&mut s, false);
    assert_eq!(s, "truefalse");
}
