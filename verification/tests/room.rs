use chess_server::clock::ClockError;
use chess_server::game::GameResult;
use chess_server::keys::Keys;
use chess_server::room::{
    append_room, issue_keys, new_rooms, offer_next, reset_room, reset_room_with, JoinOutcome, PlayOutcome, PlayedMove, Room,
    StoreCommand, ROOM_COUNT,
};
use chess_server::side::Color;

const START: &str = "rnbqkbnr/pppppppp/8/8/8/8/PPPPPPPP/RNBQKBNR w KQkq - 0 1";

fn open_room() -> Room {
    let mut room = Room::new(4);
    room.activate();
    assert_eq!(room.begin_match(Keys { keys: [71, 72], timestamp: 1000 }, Some(1500), 600), Ok(19500));
    room
}

fn take(room: &mut Room, color: Color, text: &str, now: u64, timer: u64) -> PlayedMove {
    let key = room.keys.unwrap().keys[color.to_index()];
    match room.play(color, key, text, now, timer) {
        PlayOutcome::Played(played) => played,
        other => panic!("{:?}", other),
    }
}

fn is_fresh(room: &Room) -> bool {
    !room.active
        && room.players.iter().all(|p| p.is_none())
        && room.game.actions().is_empty()
        && room.start_time == 0
        && room.last_move_time == 0
        && room.remaining_time == [180000, 180000]
        && room.write_streams == [None, None]
        && room.player_timeout.is_none()
}

#[test]
fn rooms_of_a_server() {
    assert_eq!(ROOM_COUNT, 10);
    let rooms = new_rooms(ROOM_COUNT);
    assert_eq!(rooms.len(), 10);
    for (i, room) in rooms.iter().enumerate() {
        assert_eq!(room.id, i);
        assert!(room.keys.is_none());
        assert!(is_fresh(room));
    }
    assert!(new_rooms(0).is_empty());
}

#[test]
fn sides() {
    assert_eq!(Color::White.to_index(), 0);
    assert_eq!(Color::Black.to_index(), 1);
    assert_eq!(Color::White.opponent(), Color::Black);
    assert_eq!(Color::Black.opponent(), Color::White);
    assert_eq!(Color::White.name(), "white");
    assert_eq!(Color::Black.name(), "black");
}

#[test]
fn first_keys_of_a_room() {
    let mut room = Room::new(2);
    match issue_keys(&mut room, 2) {
        StoreCommand::SetKeys { name, keys } => {
            assert_eq!(name, "room:2:keys");
            assert_eq!(keys.keys, room.keys.unwrap().keys);
            assert_eq!(keys.timestamp, 0);
            assert_ne!(keys.keys[0], keys.keys[1]);
        }
        other => panic!("{:?}", other),
    }
    assert!(is_fresh(&room));
    match append_room(2) {
        StoreCommand::AppendRoom { entry } => assert_eq!(entry, "2"),
        other => panic!("{:?}", other),
    }
}

#[test]
fn a_match_begins() {
    let room = open_room();
    assert_eq!(room.start_time, 100);
    assert_eq!(room.keys.unwrap().keys, [71, 72]);
    assert!(room.active);
}

#[test]
fn clocks_that_cannot_be_used() {
    let keys = Keys { keys: [71, 72], timestamp: 1000 };
    let mut room = Room::new(4);
    assert_eq!(room.begin_match(keys, None, 600), Err(ClockError::BeforeEpoch));
    assert_eq!(room.keys.unwrap().keys, [71, 72]);
    assert_eq!(room.start_time, 0);
    assert_eq!(room.begin_match(keys, Some(u128::MAX), 600), Err(ClockError::TooLarge));
    assert_eq!(room.begin_match(keys, Some(1500), u128::MAX), Err(ClockError::TooLarge));
    assert!(Room::can_begin(keys, None, 600));
    assert!(Room::can_begin(keys, Some(1500), 600));
    assert!(!Room::can_begin(keys, Some(1500), 499));
    assert!(!Room::can_begin(Keys { keys: [1, 2], timestamp: u64::MAX }, Some(1500), 600));
    assert!(!Room::can_begin(Keys { keys: [1, 2], timestamp: u64::MAX - 19999 }, Some(1500), 0));
}

#[test]
fn only_active_rooms_let_players_in() {
    let mut room = Room::new(4);
    issue_keys(&mut room, 4);
    let key = room.keys.unwrap().keys[0];
    assert!(matches!(room.join(key, &"alice".to_string(), 10), JoinOutcome::RoomNotActive));
    assert!(is_fresh(&room));
}

#[test]
fn each_key_opens_its_seat() {
    let mut room = open_room();
    match room.join(72, &"bob".to_string(), 11) {
        JoinOutcome::Seated { color, previous, position, start_time } => {
            assert_eq!(color, Color::Black);
            assert_eq!(previous, None);
            assert_eq!(position, START);
            assert_eq!(start_time, 100);
        }
        other => panic!("{:?}", other),
    }
    assert_eq!(room.write_streams, [None, Some(11)]);
    assert!(matches!(room.join(71, &"alice".to_string(), 10), JoinOutcome::Seated { color: Color::White, .. }));
    assert_eq!(room.write_streams, [Some(10), Some(11)]);
    assert_eq!(room.players[0].as_ref().unwrap().account_id, "alice");
    assert_eq!(room.players[1].as_ref().unwrap().account_id, "bob");
    assert!(matches!(room.join(73, &"eve".to_string(), 12), JoinOutcome::InvalidKey));
    assert_eq!(room.write_streams, [Some(10), Some(11)]);
}

#[test]
fn without_keys_no_key_fits() {
    let mut room = Room::new(4);
    room.activate();
    assert!(matches!(room.join(0, &"alice".to_string(), 10), JoinOutcome::InvalidKey));
    assert!(matches!(room.play(Color::White, 0, "e2e4", 10, 1), PlayOutcome::InvalidKey));
}

#[test]
fn coming_back_keeps_the_match() {
    let mut room = open_room();
    room.join(71, &"alice".to_string(), 10);
    room.join(72, &"bob".to_string(), 11);
    take(&mut room, Color::White, "e2e4", 1000, 1);
    match room.join(71, &"alice".to_string(), 12) {
        JoinOutcome::Seated { color, previous, position, .. } => {
            assert_eq!(color, Color::White);
            assert_eq!(previous, Some(10));
            assert_eq!(position, "rnbqkbnr/pppppppp/8/8/4P3/8/PPPP1PPP/RNBQKBNR b KQkq - 0 1");
        }
        other => panic!("{:?}", other),
    }
    assert_eq!(room.write_streams, [Some(12), Some(11)]);
    assert_eq!(room.game.actions().len(), 1);
    assert_eq!(room.player_timeout, Some(1));
}

#[test]
fn the_room_is_empty_once_both_have_left() {
    let mut room = open_room();
    room.join(71, &"alice".to_string(), 10);
    room.join(72, &"bob".to_string(), 11);
    assert!(!room.disconnect(Color::White, 99));
    assert_eq!(room.write_streams, [Some(10), Some(11)]);
    assert!(!room.disconnect(Color::White, 71));
    assert_eq!(room.write_streams, [None, Some(11)]);
    assert!(room.disconnect(Color::Black, 72));
    assert_eq!(room.write_streams, [None, None]);
    assert!(room.players[0].is_some());
}

#[test]
fn a_room_without_keys_lets_anyone_leave() {
    let mut room = Room::new(1);
    assert!(room.disconnect(Color::White, 5));
}

#[test]
fn moves_run_the_clocks() {
    let mut room = open_room();
    room.join(71, &"alice".to_string(), 10);
    room.join(72, &"bob".to_string(), 11);
    let first = take(&mut room, Color::White, "e2e4", 5000, 21);
    assert_eq!(first.aborted, None);
    assert_eq!(first.timestamp, 5000);
    assert_eq!((first.white_time, first.black_time), (180000, 180000));
    assert_eq!(first.position, "rnbqkbnr/pppppppp/8/8/4P3/8/PPPP1PPP/RNBQKBNR b KQkq - 0 1");
    assert_eq!(first.opponent, Some(11));
    assert_eq!(first.result, None);
    assert_eq!(first.opponent_time, 180000);
    assert_eq!(room.player_timeout, Some(21));
    let second = take(&mut room, Color::Black, "e7e5", 15000, 22);
    assert_eq!(second.aborted, Some(21));
    assert_eq!((second.white_time, second.black_time), (180000, 172000));
    assert_eq!(second.position, "rnbqkbnr/pppp1ppp/8/4p3/4P3/8/PPPP1PPP/RNBQKBNR w KQkq - 0 1");
    assert_eq!(second.opponent, Some(10));
    let third = take(&mut room, Color::White, "g1f3", 15500, 23);
    assert_eq!((third.white_time, third.black_time), (181500, 172000));
    assert_eq!(third.opponent_time, 172000);
    assert_eq!(room.last_move_time, 15500);
    assert_eq!(room.remaining_time, [181500, 172000]);
}

#[test]
fn moves_that_are_not_taken() {
    let mut room = open_room();
    assert!(matches!(room.play(Color::White, 72, "e2e4", 10, 1), PlayOutcome::InvalidKey));
    assert!(matches!(room.play(Color::Black, 72, "e7e5", 10, 1), PlayOutcome::OutOfTurn));
    assert!(matches!(room.play(Color::White, 71, "e2e5", 10, 1), PlayOutcome::InvalidMove));
    assert!(matches!(room.play(Color::White, 71, "hello", 10, 1), PlayOutcome::InvalidMove));
    assert!(room.game.actions().is_empty());
    assert_eq!(room.player_timeout, None);
    take(&mut room, Color::White, "e2e4", 10, 1);
    assert!(matches!(room.play(Color::White, 71, "d2d4", 20, 2), PlayOutcome::OutOfTurn));
    assert_eq!(room.game.actions().len(), 1);
    assert_eq!(room.player_timeout, Some(1));
    assert_eq!(room.last_move_time, 10);
}

#[test]
fn no_time_no_move() {
    let mut room = open_room();
    take(&mut room, Color::White, "e2e4", 1000, 1);
    assert!(matches!(room.play(Color::Black, 72, "e7e5", 183000, 2), PlayOutcome::OutOfTime));
    assert!(matches!(room.play(Color::Black, 99, "e7e5", 183000, 2), PlayOutcome::OutOfTime));
    assert_eq!(room.game.actions().len(), 1);
    let last = take(&mut room, Color::Black, "e7e5", 182999, 2);
    assert_eq!(last.black_time, 1);
}

#[test]
fn times_that_can_be_worked_out() {
    let mut room = open_room();
    assert!(room.can_time(Color::White, 0));
    take(&mut room, Color::White, "e2e4", 1000, 1);
    assert!(!room.can_time(Color::Black, 999));
    assert!(room.can_time(Color::Black, 1000));
}

#[test]
fn mate_ends_the_game() {
    let mut room = open_room();
    take(&mut room, Color::White, "f2f3", 1, 1);
    take(&mut room, Color::Black, "e7e5", 2, 2);
    take(&mut room, Color::White, "g2g4", 3, 3);
    let mate = take(&mut room, Color::Black, "d8h4", 4, 4);
    assert_eq!(mate.result, Some(GameResult::BlackCheckmates));
    assert_eq!(mate.aborted, Some(3));
    assert_eq!(room.player_timeout, None);
    assert!(matches!(room.play(Color::White, 71, "a2a3", 5, 5), PlayOutcome::InvalidMove));
}

#[test]
fn white_mates_too() {
    let mut room = open_room();
    for (i, text) in ["e2e4", "e7e5", "d1h5", "b8c6", "f1c4", "g8f6"].iter().enumerate() {
        let color = if i % 2 == 0 { Color::White } else { Color::Black };
        assert_eq!(take(&mut room, color, text, i as u64, i as u64).result, None);
    }
    assert_eq!(take(&mut room, Color::White, "h5f7", 9, 9).result, Some(GameResult::WhiteCheckmates));
}

#[test]
fn stalemate_ends_the_game() {
    let mut room = open_room();
    let moves = [
        "e2e3", "a7a5", "d1h5", "a8a6", "h5a5", "h7h5", "h2h4", "a6h6", "a5c7", "f7f6", "c7d7", "e8f7", "d7b7",
        "d8d3", "b7b8", "d3h7", "b8c8", "f7g6", "c8e6",
    ];
    for (i, text) in moves.iter().enumerate() {
        let color = if i % 2 == 0 { Color::White } else { Color::Black };
        let played = take(&mut room, color, text, i as u64, i as u64);
        assert_eq!(played.result, if i + 1 == moves.len() { Some(GameResult::Stalemate) } else { None });
    }
    assert_eq!(room.player_timeout, None);
}

#[test]
fn a_draw_is_declared_at_once() {
    let mut room = open_room();
    let moves = ["b1c3", "g8f6", "c3b1", "f6g8", "b1c3", "g8f6", "c3b1", "f6g8"];
    for (i, text) in moves.iter().enumerate() {
        let color = if i % 2 == 0 { Color::White } else { Color::Black };
        let played = take(&mut room, color, text, i as u64, i as u64);
        assert_eq!(played.result, if i == 7 { Some(GameResult::DrawDeclared) } else { None });
    }
    assert_eq!(room.player_timeout, None);
    assert_eq!(room.game.actions().len(), 9);
}

#[test]
fn only_matches_without_moves_are_called_off() {
    let mut room = open_room();
    room.join(72, &"bob".to_string(), 11);
    assert_eq!(room.unstarted(), Some([None, Some(11)]));
    take(&mut room, Color::White, "e2e4", 1, 1);
    assert_eq!(room.unstarted(), None);
}

#[test]
fn a_timer_goes_off() {
    let mut room = open_room();
    take(&mut room, Color::White, "e2e4", 1, 31);
    room.timer_expired();
    assert_eq!(room.player_timeout, None);
    assert_eq!(room.game.actions().len(), 1);
}

#[test]
fn clearing_a_room() {
    let mut room = open_room();
    room.join(71, &"alice".to_string(), 10);
    take(&mut room, Color::White, "e2e4", 1, 31);
    let effects = reset_room_with(&mut room, [5, 6]);
    assert_eq!(effects.aborted, Some(31));
    assert!(is_fresh(&room));
    assert_eq!(room.id, 4);
    assert_eq!(room.keys.unwrap().keys, [5, 6]);
    assert_eq!(room.keys.unwrap().timestamp, 0);
    assert_eq!(effects.commands.len(), 2);
    match (&effects.commands[0], &effects.commands[1]) {
        (StoreCommand::SetKeys { name, keys }, StoreCommand::AppendRoom { entry }) => {
            assert_eq!(name, "room:4:keys");
            assert_eq!(keys.keys, [5, 6]);
            assert_eq!(keys.timestamp, 0);
            assert_eq!(entry, "4");
        }
        other => panic!("{:?}", other),
    }
    assert!(matches!(room.join(5, &"alice".to_string(), 10), JoinOutcome::RoomNotActive));
    assert!(matches!(room.play(Color::White, 71, "e2e4", 9, 9), PlayOutcome::InvalidKey));
    assert!(!room.disconnect(Color::White, 71));
}

#[test]
fn clearing_draws_new_keys() {
    let mut room = open_room();
    let effects = reset_room(&mut room);
    assert_eq!(effects.aborted, None);
    assert!(is_fresh(&room));
    let keys = room.keys.unwrap();
    assert_ne!(keys.keys[0], keys.keys[1]);
    match &effects.commands[0] {
        StoreCommand::SetKeys { keys: sent, .. } => assert_eq!(sent.keys, keys.keys),
        other => panic!("{:?}", other),
    }
}

#[test]
fn clearing_twice_changes_only_the_keys() {
    let mut room = open_room();
    room.join(71, &"alice".to_string(), 10);
    take(&mut room, Color::White, "e2e4", 1, 31);
    reset_room_with(&mut room, [5, 6]);
    let effects = reset_room_with(&mut room, [7, 8]);
    assert_eq!(effects.aborted, None);
    assert!(is_fresh(&room));
    assert_eq!(room.id, 4);
    assert_eq!(room.keys.unwrap().keys, [7, 8]);
}

#[test]
fn clocks_over_a_game() {
    let mut room = open_room();
    take(&mut room, Color::White, "e2e4", 9000, 1);
    take(&mut room, Color::Black, "e7e5", 10000, 2);
    assert!(matches!(room.play(Color::Black, 72, "d7d5", 11000, 3), PlayOutcome::OutOfTurn));
    assert!(matches!(room.play(Color::White, 71, "e4e5", 12000, 3), PlayOutcome::InvalidMove));
    take(&mut room, Color::White, "g1f3", 17000, 3);
    take(&mut room, Color::Black, "b8c6", 17500, 4);
    take(&mut room, Color::White, "f1c4", 20500, 5);
    assert_eq!(room.remaining_time, [174000, 182500]);
    assert_eq!(room.last_move_time, 20500);
    assert_eq!(room.game.actions().len(), 5);
}

#[test]
fn rooms_get_keys_once_they_are_listed() {
    let mut room = Room::new(6);
    assert!(offer_next(&mut room, 6, false).is_none());
    assert!(room.keys.is_none());
    assert!(is_fresh(&room));
    match offer_next(&mut room, 6, true) {
        Some(StoreCommand::SetKeys { name, keys }) => {
            assert_eq!(name, "room:6:keys");
            assert_eq!(keys.keys, room.keys.unwrap().keys);
            assert_eq!(keys.timestamp, 0);
            assert_ne!(keys.keys[0], keys.keys[1]);
        }
        other => panic!("{:?}", other),
    }
    assert!(is_fresh(&room));
}
