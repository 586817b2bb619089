use chess_server::store::{
    decimal, keys_name, match_notice, parse_index, Notice, NoticeError, NoticeValue, ROOMS_KEY,
};

fn notice(value: NoticeValue) -> Notice {
    Notice { is_message: true, data: vec![NoticeValue::SimpleString("matchmaking:game".to_string()), value] }
}

#[test]
fn numbers_in_digits() {
    assert_eq!(decimal(0), "0");
    assert_eq!(decimal(9), "9");
    assert_eq!(decimal(10), "10");
    assert_eq!(decimal(1234567890), "1234567890");
    assert_eq!(decimal(usize::MAX), format!("{}", usize::MAX));
}

#[test]
fn names_in_the_store() {
    assert_eq!(ROOMS_KEY, "rooms");
    assert_eq!(keys_name(0), "room:0:keys");
    assert_eq!(keys_name(17), "room:17:keys");
    assert_ne!(keys_name(1), keys_name(11));
}

#[test]
fn reads_room_numbers() {
    assert_eq!(parse_index(b"7"), Some(7));
    assert_eq!(parse_index(b"007"), Some(7));
    assert_eq!(parse_index(b"+7"), Some(7));
    assert_eq!(parse_index(b""), None);
    assert_eq!(parse_index(b"+"), None);
    assert_eq!(parse_index(b"++7"), None);
    assert_eq!(parse_index(b"-7"), None);
    assert_eq!(parse_index(b" 7"), None);
    assert_eq!(parse_index(b"7a"), None);
}

#[test]
fn reads_what_std_reads() {
    for text in ["18446744073709551615", "18446744073709551616", "99999999999999999999", "0", "+0", "-0", "00018446744073709551615"] {
        assert_eq!(parse_index(text.as_bytes()), text.parse::<usize>().ok());
    }
}

#[test]
fn room_numbers_read_back() {
    for id in [0, 1, 9, 10, 99, 100, 4294967295, usize::MAX] {
        assert_eq!(parse_index(decimal(id).as_bytes()), Some(id));
        assert_eq!(match_notice(&notice(NoticeValue::SimpleString(decimal(id)))), Ok(Some(id)));
        assert_eq!(match_notice(&notice(NoticeValue::BulkString(decimal(id).into_bytes()))), Ok(Some(id)));
    }
}

#[test]
fn other_notices_are_passed_over() {
    assert_eq!(match_notice(&Notice { is_message: false, data: vec![] }), Ok(None));
}

#[test]
fn bad_notices() {
    assert_eq!(match_notice(&Notice { is_message: true, data: vec![] }), Err(NoticeError::NoMessage));
    assert_eq!(
        match_notice(&Notice { is_message: true, data: vec![NoticeValue::SimpleString("3".to_string())] }),
        Err(NoticeError::NoMessage)
    );
    assert_eq!(match_notice(&notice(NoticeValue::Other)), Err(NoticeError::WrongType));
    assert_eq!(match_notice(&notice(NoticeValue::BulkString(vec![0xff, 0x33]))), Err(NoticeError::NotUtf8));
    assert_eq!(
        match_notice(&notice(NoticeValue::BulkString("\u{e9}".to_string().into_bytes()))),
        Err(NoticeError::NotANumber)
    );
    assert_eq!(match_notice(&notice(NoticeValue::SimpleString("three".to_string()))), Err(NoticeError::NotANumber));
}
