use starshield::text::{chars_of, count_in_range, find_at_or_after, push_decimal, push_signed_decimal, trim_bounds, trim_range, CharSet};

#[test]
fn trims_unicode_whitespace() {
    let s = "\u{3000}\t hello world \u{a0}\n";
    let v = chars_of(s);
    let (a, b) = trim_bounds(&v);
    let t: String = v[a..b].iter().collect();
    assert_eq!(t, s.trim());
}

#[test]
fn trims_delimiters() {
    let v = chars_of("[\"1.2.3.4\"],");
    let (a, b) = trim_range(&v, 0, v.len(), CharSet::LogDelims);
    let t: String = v[a..b].iter().collect();
    assert_eq!(t, "1.2.3.4");
    let v = chars_of("{'a'}");
    let (a, b) = trim_range(&v, 0, v.len(), CharSet::JsonDelims);
    assert_eq!((a, b), (2, 3));
    let v = chars_of("{\"}");
    let (a, b) = trim_range(&v, 0, v.len(), CharSet::JsonDelims);
    assert_eq!(a, b);
}

#[test]
fn finds_first_occurrence() {
    let v = chars_of("abcabc");
    assert_eq!(find_at_or_after(&v, &chars_of("bc"), 0), Some(1));
    assert_eq!(find_at_or_after(&v, &chars_of("bc"), 2), Some(4));
    assert_eq!(find_at_or_after(&v, &chars_of("x"), 0), None);
    assert_eq!(find_at_or_after(&v, &chars_of(""), 6), Some(6));
}

#[test]
fn counts_dots() {
    let v = chars_of("1.2.3.4");
    assert_eq!(count_in_range(&v, 0, v.len(), '.'), 3);
    assert_eq!(count_in_range(&v, 2, 5, '.'), 1);
    assert_eq!(count_in_range(&v, 1, 6, '.'), 3);
}

#[test]
fn decimal_rendering() {
    for n in [0u64, 7, 10, 1234567890, u64::MAX] {
        let mut s = String::from("x");
        push_decimal(&mut s, n);
        assert_eq!(s, format!("x{}", n));
    }
    for n in [0i64, -1, -2147483648, i64::MIN, i64::MAX] {
        let mut s = String::new();
        push_signed_decimal(&mut s, n);
        assert_eq!(s, n.to_string());
    }
}
