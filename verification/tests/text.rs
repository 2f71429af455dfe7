use vllm_server::binary64::Binary64;
use vllm_server::names::precedes;
use vllm_server::text::begins_with;
use vllm_server::text::contains;
use vllm_server::text::decimal_text;
use vllm_server::text::is_blank;
use vllm_server::text::parse_i32;
use vllm_server::text::parse_u32;
use vllm_server::text::rsplit_once;
use vllm_server::text::signed_decimal_text;
use vllm_server::text::trim;

#[test]
fn numbers_are_read_as_std_reads_them() {
    for text in [
        "", "0", "7", "007", "+7", "-7", "+", "-", "-0", "1_000", " 1", "1 ", "4294967295",
        "4294967296", "2147483647", "2147483648", "-2147483648", "-2147483649", "12a", "\u{663}",
        "99999999999999999999999999",
    ] {
        assert_eq!(parse_u32(text), text.parse::<u32>().ok(), "{text}");
        assert_eq!(parse_i32(text), text.parse::<i32>().ok(), "{text}");
    }
}

#[test]
fn written_numbers_read_back() {
    for n in [0u64, 9, 10, 99, 100, 4294967295, u64::MAX] {
        assert_eq!(decimal_text(n), n.to_string());
    }
    for n in [0i64, -1, 10, i64::MIN, i64::MAX] {
        assert_eq!(signed_decimal_text(n), n.to_string());
    }
    assert_eq!(parse_u32(&decimal_text(4294967295)), Some(4294967295));
}

#[test]
fn texts_are_searched_by_characters() {
    assert!(contains("tcp://h\u{e9}", "p://"));
    assert!(contains("a", ""));
    assert!(!contains("a", "ab"));
    assert!(begins_with("\u{e9}tcp", "\u{e9}t"));
    assert!(!begins_with("t", "tc"));
    assert_eq!(rsplit_once("a:b:c", ':'), Some(("a:b", "c")));
    assert_eq!(rsplit_once("abc", ':'), None);
}

#[test]
fn white_space_is_that_of_unicode() {
    for text in [" a ", "\u{3000}\t\u{85}a b\u{2028}", "", " \n", "\u{200b}a"] {
        assert_eq!(trim(text), text.trim());
        assert_eq!(is_blank(text), text.trim().is_empty());
    }
}

#[test]
fn names_are_ordered_as_texts_are() {
    let names = ["", "a", "ab", "b", "\u{e9}", "\u{10000}", "\u{ffff}", "B"];
    for left in names {
        for right in names {
            assert_eq!(precedes(left, right), left < right, "{left} {right}");
        }
    }
}

#[test]
fn doubles_hold_small_integers_exactly() {
    for n in [0i64, 1, -1, 3, 1 << 52, 1 << 53, -(1 << 53), 123_456_789] {
        assert_eq!(Binary64::from_integer(n).bits, (n as f64).to_bits(), "{n}");
        assert_eq!(Binary64 { bits: (n as f64).to_bits() }.exact_integer(), Some(n), "{n}");
    }
    for value in [0.5f64, -2.25, f64::NAN, f64::INFINITY, 5e-324, 1e300] {
        assert_eq!(Binary64 { bits: value.to_bits() }.exact_integer(), None, "{value}");
    }
    assert!(Binary64 { bits: 1.5f64.to_bits() }.is_finite_number());
    assert!(!Binary64 { bits: f64::NAN.to_bits() }.is_finite_number());
}
