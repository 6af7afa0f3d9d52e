use webcord::shared::Message;
use webcord::web::{change_channel_request, parse_channel_id, send_request};

#[test]
fn parses_decimal_ids() {
    assert_eq!(parse_channel_id("123"), Some(123));
    assert_eq!(parse_channel_id("0"), Some(0));
    assert_eq!(parse_channel_id("007"), Some(7));
    assert_eq!(parse_channel_id("+7"), Some(7));
    assert_eq!(parse_channel_id("18446744073709551615"), Some(u64::MAX));
}

#[test]
fn refuses_what_is_no_id() {
    assert_eq!(parse_channel_id(""), None);
    assert_eq!(parse_channel_id("+"), None);
    assert_eq!(parse_channel_id("-1"), None);
    assert_eq!(parse_channel_id("12a"), None);
    assert_eq!(parse_channel_id(" 12"), None);
    assert_eq!(parse_channel_id("++1"), None);
    assert_eq!(parse_channel_id("18446744073709551616"), None);
    assert_eq!(parse_channel_id("99999999999999999999999"), None);
}

#[test]
fn parsing_agrees_with_std() {
    for text in ["1", "+1", "-0", "", "+", "42x", "0042", "18446744073709551615", "18446744073709551616", "٣"] {
        assert_eq!(parse_channel_id(text), text.parse::<u64>().ok(), "{:?}", text);
    }
}

#[test]
fn written_ids_read_back() {
    for n in [0u64, 9, 10, 1234567890123, u64::MAX] {
        assert_eq!(parse_channel_id(&n.to_string()), Some(n));
        assert_eq!(parse_channel_id(&format!("+{}", n)), Some(n));
    }
}

#[test]
fn change_channel_request_carries_the_id() {
    assert!(matches!(change_channel_request("55"), Some(Message::ChangeChannel(55))));
    assert!(change_channel_request("abc").is_none());
}

#[test]
fn send_request_carries_the_text() {
    assert!(matches!(send_request("hi there"), Message::Send(s) if s == "hi there"));
}
