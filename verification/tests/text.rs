use cloud::storage::facade::callback_account;
use cloud::text::{i64_to_string, rfind_char, split_str, u64_to_string};
use cloud::util::IntoOne;
use std::collections::VecDeque;

#[test]
fn decimal_of_unsigned() {
    assert_eq!(u64_to_string(0), "0");
    assert_eq!(u64_to_string(1234), "1234");
    assert_eq!(u64_to_string(u64::MAX), "18446744073709551615");
}

#[test]
fn decimal_of_signed() {
    assert_eq!(i64_to_string(-42), "-42");
    assert_eq!(i64_to_string(7), "7");
    assert_eq!(i64_to_string(i64::MIN), "-9223372036854775808");
}

#[test]
fn split_keeps_empty_pieces() {
    assert_eq!(split_str("/a/b", '/'), vec!["", "a", "b"]);
    assert_eq!(split_str("", '/'), vec![""]);
    assert_eq!(split_str("a//", '/'), vec!["a", "", ""]);
    assert_eq!(split_str("abc", '/'), vec!["abc"]);
}

#[test]
fn last_slash_position() {
    assert_eq!(rfind_char("a/b/c", '/'), Some(3));
    assert_eq!(rfind_char("abc", '/'), None);
    assert_eq!(rfind_char("ü/x", '/'), Some(1));
}

#[test]
fn parse_account_ids() {
    assert_eq!(callback_account("12"), Some(12));
    assert_eq!(callback_account("+5"), Some(5));
    assert_eq!(callback_account("-17"), Some(-17));
    assert_eq!(callback_account("-"), None);
    assert_eq!(callback_account(""), None);
    assert_eq!(callback_account("12a"), None);
    assert_eq!(callback_account(" 1"), None);
    assert_eq!(callback_account("2147483648"), None);
    assert_eq!(callback_account("-2147483648"), Some(i32::MIN));
}

#[test]
fn decimal_then_parse_round_trip() {
    for v in [0, 1, -1, 42, i32::MAX, i32::MIN, 1000000] {
        assert_eq!(callback_account(&i64_to_string(v as i64)), Some(v));
    }
}

#[test]
fn into_one_takes_first() {
    assert_eq!(vec![3, 4].into_one(), Some(3));
    assert_eq!(Vec::<i32>::new().into_one(), None);
    assert_eq!(Some(9).into_one(), Some(9));
    let mut d = VecDeque::new();
    d.push_back(5);
    d.push_back(6);
    assert_eq!(d.into_one(), Some(5));
}
