use chess_server::moves::{move_text, parse_move, MoveValue};

fn mv(source: u8, dest: u8, promotion: Option<u8>) -> MoveValue {
    MoveValue { source, dest, promotion }
}

#[test]
fn reads_two_squares() {
    assert_eq!(parse_move("e2e4"), Some(mv(12, 28, None)));
    assert_eq!(parse_move("a1h8"), Some(mv(0, 63, None)));
    assert_eq!(parse_move("h8a1"), Some(mv(63, 0, None)));
}

#[test]
fn reads_promotions() {
    assert_eq!(parse_move("e7e8n"), Some(mv(52, 60, Some(1))));
    assert_eq!(parse_move("e7e8b"), Some(mv(52, 60, Some(2))));
    assert_eq!(parse_move("e7e8r"), Some(mv(52, 60, Some(3))));
    assert_eq!(parse_move("e7e8q"), Some(mv(52, 60, Some(4))));
    assert_eq!(parse_move("e7e8k"), None);
    assert_eq!(parse_move("e7e8p"), None);
    assert_eq!(parse_move("e7e8Q"), None);
}

#[test]
fn refuses_what_is_no_move() {
    assert_eq!(parse_move(""), None);
    assert_eq!(parse_move("e2"), None);
    assert_eq!(parse_move("e2e"), None);
    assert_eq!(parse_move("i2e4"), None);
    assert_eq!(parse_move("e0e4"), None);
    assert_eq!(parse_move("e2e9"), None);
    assert_eq!(parse_move("E2E4"), None);
    assert_eq!(parse_move("\u{e9}e4"), None);
    assert_eq!(parse_move("e\u{e9}e4"), None);
    assert_eq!(parse_move("\u{20ac}2e4"), None);
}

#[test]
fn passes_over_what_follows_the_squares() {
    assert_eq!(parse_move("e2e4qq"), Some(mv(12, 28, None)));
    assert_eq!(parse_move("e2e4 and more"), Some(mv(12, 28, None)));
    assert_eq!(parse_move("e2e4\u{e9}"), Some(mv(12, 28, None)));
}

#[test]
fn writes_moves() {
    assert_eq!(move_text(mv(12, 28, None)), "e2e4");
    assert_eq!(move_text(mv(52, 60, Some(4))), "e7e8q");
    assert_eq!(move_text(mv(0, 63, Some(0))), "a1h8p");
    assert_eq!(move_text(mv(7, 56, Some(5))), "h1a8k");
}

#[test]
fn move_text_reads_back() {
    for source in 0..64u8 {
        for dest in 0..64u8 {
            for promotion in [None, Some(1), Some(2), Some(3), Some(4)] {
                let value = mv(source, dest, promotion);
                assert_eq!(parse_move(&move_text(value)), Some(value));
            }
        }
    }
}
