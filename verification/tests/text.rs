use story_thread::text::{decimal_string, natural_string, strip_leading};

#[test]
fn natural_numbers_are_written_in_decimal() {
    assert_eq!(natural_string(0), "0");
    assert_eq!(natural_string(7), "7");
    assert_eq!(natural_string(10), "10");
    assert_eq!(natural_string(1905), "1905");
    assert_eq!(natural_string(u64::MAX), "18446744073709551615");
}

#[test]
fn whole_numbers_are_written_with_their_sign() {
    assert_eq!(decimal_string(0), "0");
    assert_eq!(decimal_string(1), "1");
    assert_eq!(decimal_string(-1), "-1");
    assert_eq!(decimal_string(-120), "-120");
    assert_eq!(decimal_string(i64::MAX), "9223372036854775807");
    assert_eq!(decimal_string(i64::MIN), "-9223372036854775808");
}

#[test]
fn decimal_string_agrees_with_the_standard_library() {
    let mut n: i64 = -1_000_003;
    while n < 1_000_003 {
        assert_eq!(decimal_string(n), n.to_string());
        n += 7919;
    }
}

#[test]
fn a_leading_copy_is_removed() {
    assert_eq!(strip_leading("https://example.com", "https://"), "example.com");
    assert_eq!(strip_leading("www.example.com", "www."), "example.com");
    assert_eq!(strip_leading("www.", "www."), "");
}

#[test]
fn only_one_leading_copy_is_removed() {
    assert_eq!(strip_leading("www.www.example.com", "www."), "www.example.com");
    assert_eq!(strip_leading("ababab", "ab"), "abab");
    assert_eq!(strip_leading("aaab", "a"), "aab");
}

#[test]
fn text_that_starts_otherwise_is_left_alone() {
    assert_eq!(strip_leading("example.com/www.", "www."), "example.com/www.");
    assert_eq!(strip_leading("ww", "www."), "ww");
    assert_eq!(strip_leading("", "www."), "");
    assert_eq!(strip_leading("http://a", "https://"), "http://a");
    assert_eq!(strip_leading("WWW.a", "www."), "WWW.a");
}

#[test]
fn an_empty_prefix_removes_nothing() {
    assert_eq!(strip_leading("abc", ""), "abc");
    assert_eq!(strip_leading("", ""), "");
}

#[test]
fn strip_leading_agrees_with_the_standard_library() {
    let samples = ["", "a", "aa", "aab", "abab", "ba", "www.www.x", "https://https://x", "héhéllo"];
    let prefixes = ["", "a", "ab", "www.", "https://", "hé", "x"];
    for s in samples {
        for p in prefixes {
            assert_eq!(strip_leading(s, p), s.strip_prefix(p).unwrap_or(s));
        }
    }
}

#[test]
fn characters_are_counted_not_bytes() {
    assert_eq!(strip_leading("ééa", "é"), "éa");
    assert_eq!(strip_leading("日本語", "日本"), "語");
    assert_eq!(strip_leading("é", "e"), "é");
}
