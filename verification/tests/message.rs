use chat_hub::clock::{clock_string, time_of_day};
use chat_hub::message::ChatMessage;
use chat_hub::text::{digit, push_decimal, push_natural};

fn at(hour: i64, minute: i64, second: i64) -> i64 {
    hour * 3600 + minute * 60 + second
}

#[test]
fn renders_the_reference_line() {
    let msg = ChatMessage::new(at(14, 5, 9), 4821, String::from("hello"));
    assert_eq!(msg.to_string(), "[user_id:4821 14:05:09]: hello");
}

#[test]
fn renders_on_a_later_day() {
    let msg = ChatMessage::new(1_700_000_000, 1000, String::from("joined in the room"));
    // 1_700_000_000 is 2023-11-14 22:13:20 UTC.
    assert_eq!(msg.to_string(), "[user_id:1000 22:13:20]: joined in the room");
}

#[test]
fn renders_empty_text_and_unicode() {
    let empty = ChatMessage::new(0, 0, String::new());
    assert_eq!(empty.to_string(), "[user_id:0 00:00:00]: ");
    let msg = ChatMessage::new(at(23, 59, 59), 9999, String::from("gr\u{fc}\u{df}e \u{1f600}"));
    assert_eq!(msg.to_string(), "[user_id:9999 23:59:59]: gr\u{fc}\u{df}e \u{1f600}");
}

#[test]
fn renders_negative_author() {
    let msg = ChatMessage::new(at(1, 2, 3), -17, String::from("x"));
    assert_eq!(msg.to_string(), "[user_id:-17 01:02:03]: x");
}

#[test]
fn clone_keeps_every_field() {
    let msg = ChatMessage::new(42, 1234, String::from("same"));
    let copy = msg.clone();
    assert_eq!(copy, msg);
    assert_eq!(copy.created_at, 42);
    assert_eq!(copy.author_id, 1234);
    assert_eq!(copy.text, "same");
}

#[test]
fn clock_string_pads_with_zeros() {
    assert_eq!(clock_string(0), "00:00:00");
    assert_eq!(clock_string(at(9, 8, 7)), "09:08:07");
    assert_eq!(clock_string(at(14, 5, 9)), "14:05:09");
    assert_eq!(clock_string(86399), "23:59:59");
    assert_eq!(clock_string(86400), "00:00:00");
    assert_eq!(clock_string(86400 * 5 + 61), "00:01:01");
}

#[test]
fn clock_string_before_the_epoch() {
    assert_eq!(clock_string(-1), "23:59:59");
    assert_eq!(clock_string(-86400), "00:00:00");
    assert_eq!(clock_string(-86401), "23:59:59");
}

#[test]
fn time_of_day_is_euclidean() {
    assert_eq!(time_of_day(0), 0);
    assert_eq!(time_of_day(86399), 86399);
    assert_eq!(time_of_day(86400), 0);
    assert_eq!(time_of_day(-1), 86399);
    assert_eq!(time_of_day(-86400), 0);
    assert_eq!(time_of_day(i64::MAX), i64::MAX.rem_euclid(86400) as u32);
    assert_eq!(time_of_day(i64::MIN), i64::MIN.rem_euclid(86400) as u32);
}

#[test]
fn decimal_numerals() {
    let cases: Vec<i32> = vec![0, 7, 10, 99, 100, 4821, -1, -10, -4821, i32::MAX, i32::MIN];
    for n in cases {
        let mut out = String::from("n=");
        push_decimal(&mut out, n);
        assert_eq!(out, format!("n={}", n));
    }
}

#[test]
fn natural_numerals() {
    let cases: Vec<u64> = vec![0, 9, 10, 1234567890, u64::MAX];
    for n in cases {
        let mut out = String::new();
        push_natural(&mut out, n);
        assert_eq!(out, format!("{}", n));
    }
}

#[test]
fn digits() {
    let expected = ['0', '1', '2', '3', '4', '5', '6', '7', '8', '9'];
    for d in 0u8..10 {
        assert_eq!(digit(d), expected[d as usize]);
    }
}
