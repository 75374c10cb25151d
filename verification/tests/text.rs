use coingecko_requests::text::{i64_to_decimal, join, push_decimal, u64_to_decimal};

#[test]
fn unsigned_decimal_matches_to_string() {
    assert_eq!(u64_to_decimal(0), "0");
    assert_eq!(u64_to_decimal(7), "7");
    assert_eq!(u64_to_decimal(10), "10");
    assert_eq!(u64_to_decimal(1392577232), "1392577232");
    assert_eq!(u64_to_decimal(u64::MAX), u64::MAX.to_string());
    for n in [1u64, 9, 99, 100, 101, 12345678901234567890] {
        assert_eq!(u64_to_decimal(n), n.to_string());
    }
}

#[test]
fn signed_decimal_matches_to_string() {
    assert_eq!(i64_to_decimal(0), "0");
    assert_eq!(i64_to_decimal(-7), "-7");
    assert_eq!(i64_to_decimal(42), "42");
    assert_eq!(i64_to_decimal(i64::MIN), "-9223372036854775808");
    assert_eq!(i64_to_decimal(i64::MAX), "9223372036854775807");
    for n in [-1i64, -10, -99, 100, 65536] {
        assert_eq!(i64_to_decimal(n), n.to_string());
    }
}

#[test]
fn push_decimal_appends() {
    let mut s = String::from("from=");
    push_decimal(&mut s, 1422577232);
    assert_eq!(s, "from=1422577232");
}

#[test]
fn join_matches_slice_join() {
    let empty: [&str; 0] = [];
    assert_eq!(join(&empty, ","), "");
    assert_eq!(join(&["bitcoin"], ","), "bitcoin");
    assert_eq!(join(&["bitcoin", "ethereum", "litecoin"], ","), "bitcoin,ethereum,litecoin");
    assert_eq!(join(&["a", "", "b"], ", "), "a, , b");
    let parts = ["usd", "eur"];
    assert_eq!(join(&parts, ","), parts.join(","));
}
