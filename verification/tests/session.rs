use chess_server::clock::ClockError;
use chess_server::game::GameResult;
use chess_server::keys::Keys;
use chess_server::messages::received::ConnectionRequest;
use chess_server::messages::request::Request;
use chess_server::messages::response::Response;
use chess_server::room::{reset_room_with, Room};
use chess_server::session::{
    addressed, after_finish, after_reply, after_step, announced_winner, cancel_deliveries, on_event, Auth, AuthMessage, ConnectionAction, ConnectionEvent,
    Delivery, Ending, GameInner, GameMessage, GameStep, Lobby, LobbyAction, LobbyMessage, Outgoing, ServerState,
    HEARTBEAT_SECS, READ_TIMEOUT_SECS,
};
use chess_server::side::Color;

const START: &str = "rnbqkbnr/pppppppp/8/8/8/8/PPPPPPPP/RNBQKBNR w KQkq - 0 1";
const AFTER_E4: &str = "rnbqkbnr/pppppppp/8/8/4P3/8/PPPP1PPP/RNBQKBNR b KQkq - 0 1";
const AFTER_E5: &str = "rnbqkbnr/pppp1ppp/8/4p3/4P3/8/PPPP1PPP/RNBQKBNR w KQkq - 0 1";

/// A message in a form that can be compared; `None` is the end of a connection.
type Sent = (u64, Option<Response>, bool);

fn sent(deliveries: Vec<Delivery>) -> Vec<Sent> {
    deliveries
        .into_iter()
        .map(|d| match d.content {
            Outgoing::Response(response) => (d.to, Some(response), d.required),
            Outgoing::Close => (d.to, None, d.required),
        })
        .collect()
}

fn must(to: u64, response: Response) -> Sent {
    (to, Some(response), true)
}

fn may(to: u64, response: Response) -> Sent {
    (to, Some(response), false)
}

fn close(to: u64) -> Sent {
    (to, None, false)
}

fn fen(text: &str, timestamp: u64, white_time: u64, black_time: u64) -> Response {
    Response::Fen { fen: text.to_string(), timestamp, white_time, black_time }
}

fn over(winner: &str, timeout: bool) -> Response {
    Response::GameOver { winner: winner.to_string(), timeout }
}

fn lobby(name: &str, write: u64) -> Lobby {
    Lobby { account_id: name.to_string(), write }
}

fn open_room() -> Room {
    let mut room = Room::new(0);
    room.activate();
    room.begin_match(Keys { keys: [71, 72], timestamp: 1000 }, Some(1500), 600).unwrap();
    room
}

fn sit(room: &mut Room, name: &str, write: u64, key: u64) -> (GameInner, Vec<Sent>) {
    let step = lobby(name, write).join(room, 0, key);
    match step.state {
        ServerState::Game(game) => (game, sent(step.deliveries)),
        other => panic!("{:?}", other),
    }
}

fn say(game: &GameInner, room: &mut Room, text: &str, now: u128, timer: u64) -> GameStep {
    let msg = GameMessage::Text(text.to_string());
    assert!(game.can_take(room, &msg, now));
    game.try_next(room, &msg, now, timer).unwrap()
}

fn stayed(step: GameStep) -> Vec<Sent> {
    match step {
        GameStep::Stay { deliveries } => sent(deliveries),
        other => panic!("{:?}", other),
    }
}

#[test]
fn a_token_for_this_server_opens_the_lobby() {
    let msg = AuthMessage::Verified {
        audience: vec!["web".to_string(), "game-server".to_string()],
        account_id: "alice".to_string(),
    };
    let step = Auth::new(10).next(msg);
    assert_eq!(sent(step.deliveries), vec![must(10, Response::TokenValidated)]);
    match step.state {
        ServerState::Lobby(lobby) => assert_eq!((lobby.account_id.as_str(), lobby.write), ("alice", 10)),
        other => panic!("{:?}", other),
    }
}

#[test]
fn a_token_for_another_server_is_passed_over() {
    let msg = AuthMessage::Verified { audience: vec!["web".to_string()], account_id: "alice".to_string() };
    let step = Auth::new(10).next(msg);
    assert!(step.deliveries.is_empty());
    assert!(matches!(step.state, ServerState::Auth(Auth { write: 10 })));
    assert!(!addressed(&vec![]));
    assert!(!addressed(&vec!["game-servers".to_string()]));
    assert!(addressed(&vec!["game-server".to_string()]));
}

#[test]
fn a_bad_token_is_answered() {
    let step = Auth::new(10).next(AuthMessage::Rejected { reason: "expired".to_string() });
    assert_eq!(sent(step.deliveries), vec![must(10, Response::InvalidToken { reason: "expired".to_string() })]);
    assert!(matches!(step.state, ServerState::Auth(_)));
    let step = Auth::new(10).next(AuthMessage::Other);
    assert!(step.deliveries.is_empty());
    assert!(matches!(step.state, ServerState::Auth(_)));
}

#[test]
fn the_lobby_answers_requests() {
    match lobby("alice", 10).next(LobbyMessage::Request(Request::TimeSync), 12345) {
        Ok(LobbyAction::Answer(step)) => {
            assert_eq!(sent(step.deliveries), vec![must(10, Response::TimeSync { timestamp: 12345 })]);
            assert!(matches!(step.state, ServerState::Lobby(_)));
        }
        other => panic!("{:?}", other),
    }
    match lobby("alice", 10).next(LobbyMessage::Malformed { reason: "no".to_string() }, 0) {
        Ok(LobbyAction::Answer(step)) => {
            assert_eq!(sent(step.deliveries), vec![must(10, Response::InvalidRequest { reason: "no".to_string() })]);
        }
        other => panic!("{:?}", other),
    }
    match lobby("alice", 10).next(LobbyMessage::Other, 0) {
        Ok(LobbyAction::Answer(step)) => assert!(step.deliveries.is_empty()),
        other => panic!("{:?}", other),
    }
    let asked = ConnectionRequest { room: 3, key: 71 };
    match lobby("alice", 10).next(LobbyMessage::Request(Request::JoinRoom { room: asked.room, key: asked.key }), 0) {
        Ok(LobbyAction::Join { lobby, room_id, key }) => {
            assert_eq!((lobby.account_id.as_str(), lobby.write, room_id, key), ("alice", 10, 3, 71));
        }
        other => panic!("{:?}", other),
    }
    assert!(matches!(
        lobby("alice", 10).next(LobbyMessage::Request(Request::TimeSync), u128::MAX),
        Err(ClockError::TooLarge)
    ));
}

#[test]
fn test_join_room() {
    let mut room = open_room();
    let (game, messages) = sit(&mut room, "alice", 10, 71);
    assert_eq!((game.key, game.write, game.room_id, game.color), (71, 10, 0, Color::White));
    assert_eq!(
        messages,
        vec![
            must(10, Response::Connected),
            must(10, Response::Color { color: "white".to_string() }),
            must(10, fen(START, 100, 20000, 0)),
        ]
    );
    let (_, messages) = sit(&mut room, "bob", 11, 72);
    assert_eq!(messages[1], must(11, Response::Color { color: "black".to_string() }));
}

#[test]
fn a_seat_that_is_refused() {
    let mut room = open_room();
    let step = lobby("eve", 12).join(&mut room, 0, 73);
    assert_eq!(sent(step.deliveries), vec![must(12, Response::InvalidKey)]);
    assert!(matches!(step.state, ServerState::Lobby(_)));
    let mut room = Room::new(0);
    let step = lobby("eve", 12).join(&mut room, 0, 71);
    assert_eq!(sent(step.deliveries), vec![must(12, Response::RoomNotActive)]);
    assert!(matches!(step.state, ServerState::Lobby(_)));
    assert_eq!(room.write_streams, [None, None]);
}

#[test]
fn a_second_connection_cuts_off_the_first() {
    let mut room = open_room();
    sit(&mut room, "alice", 10, 71);
    let (_, messages) = sit(&mut room, "alice", 12, 71);
    assert_eq!(messages[0], close(10));
    assert_eq!(messages.len(), 4);
    assert_eq!(room.write_streams, [Some(12), None]);
}

#[test]
fn test_make_moves() {
    let mut room = open_room();
    let (white, _) = sit(&mut room, "alice", 10, 71);
    let (black, _) = sit(&mut room, "bob", 11, 72);
    assert_eq!(stayed(say(&black, &mut room, "e2e4", 4000, 1)), vec![must(11, Response::OutOfTurnMove)]);
    match say(&white, &mut room, "e2e4", 5000, 2) {
        GameStep::Played { aborted, timer, deliveries, finished } => {
            assert_eq!(aborted, None);
            let plan = timer.unwrap();
            assert_eq!((plan.timer, plan.after, plan.mover), (2, 180000, Color::White));
            assert_eq!((plan.write, plan.opponent), (10, Some(11)));
            assert_eq!(
                sent(plan.deliveries()),
                vec![may(10, over("white", true)), close(10), may(11, over("white", true)), close(11)]
            );
            assert_eq!(
                sent(deliveries),
                vec![
                    may(10, fen(AFTER_E4, 5000, 180000, 180000)),
                    may(11, Response::Move { move_: "e2e4".to_string() }),
                    may(11, fen(AFTER_E4, 5000, 180000, 180000)),
                ]
            );
            assert!(!finished);
        }
        other => panic!("{:?}", other),
    }
    assert_eq!(stayed(say(&white, &mut room, "e7e5", 6000, 3)), vec![must(10, Response::OutOfTurnMove)]);
    assert_eq!(stayed(say(&black, &mut room, "e7e3", 6000, 3)), vec![must(11, Response::InvalidMove)]);
    match say(&black, &mut room, "e7e5", 8500, 4) {
        GameStep::Played { aborted, timer, deliveries, finished } => {
            assert_eq!(aborted, Some(2));
            assert_eq!(timer.unwrap().mover, Color::Black);
            assert_eq!(
                sent(deliveries),
                vec![
                    may(11, fen(AFTER_E5, 8500, 180000, 178500)),
                    may(10, Response::Move { move_: "e7e5".to_string() }),
                    may(10, fen(AFTER_E5, 8500, 180000, 178500)),
                ]
            );
            assert!(!finished);
        }
        other => panic!("{:?}", other),
    }
}

#[test]
fn both_hear_of_the_mate() {
    let mut room = open_room();
    let (white, _) = sit(&mut room, "alice", 10, 71);
    let (black, _) = sit(&mut room, "bob", 11, 72);
    say(&white, &mut room, "f2f3", 1, 1);
    say(&black, &mut room, "e7e5", 2, 2);
    say(&white, &mut room, "g2g4", 3, 3);
    match say(&black, &mut room, "d8h4", 4, 4) {
        GameStep::Played { aborted, timer, deliveries, finished } => {
            assert_eq!(aborted, Some(3));
            assert!(timer.is_none());
            assert!(finished);
            let messages = sent(deliveries);
            assert_eq!(messages.len(), 7);
            assert_eq!(
                messages[3..],
                [may(11, over("black", false)), close(11), may(10, over("black", false)), close(10)]
            );
        }
        other => panic!("{:?}", other),
    }
    assert_eq!(stayed(say(&white, &mut room, "a2a3", 5, 5)), vec![must(10, Response::InvalidMove)]);
}

#[test]
fn an_absent_opponent_is_not_told() {
    let mut room = open_room();
    let (white, _) = sit(&mut room, "alice", 10, 71);
    match say(&white, &mut room, "e2e4", 5000, 2) {
        GameStep::Played { timer, deliveries, .. } => {
            assert_eq!(sent(deliveries), vec![may(10, fen(AFTER_E4, 5000, 180000, 180000))]);
            assert_eq!(sent(timer.unwrap().deliveries()), vec![may(10, over("white", true)), close(10)]);
        }
        other => panic!("{:?}", other),
    }
}

#[test]
fn what_is_no_text_is_passed_over() {
    let mut room = open_room();
    let (white, _) = sit(&mut room, "alice", 10, 71);
    assert!(white.can_take(&room, &GameMessage::Other, u128::MAX));
    let step = white.try_next(&mut room, &GameMessage::Other, u128::MAX, 1).unwrap();
    assert_eq!(stayed(step), vec![]);
}

#[test]
fn a_clock_that_cannot_be_used_ends_the_session() {
    let mut room = open_room();
    let (white, _) = sit(&mut room, "alice", 10, 71);
    let msg = GameMessage::Text("e2e4".to_string());
    assert!(white.can_take(&room, &msg, u128::MAX));
    assert!(matches!(white.try_next(&mut room, &msg, u128::MAX, 1), Err(ClockError::TooLarge)));
    assert!(room.game.actions().is_empty());
}

#[test]
fn a_clock_that_runs_back_is_not_taken() {
    let mut room = open_room();
    let (white, _) = sit(&mut room, "alice", 10, 71);
    let (black, _) = sit(&mut room, "bob", 11, 72);
    say(&white, &mut room, "e2e4", 5000, 1);
    assert!(!black.can_take(&room, &GameMessage::Text("e7e5".to_string()), 4999));
    assert!(black.can_take(&room, &GameMessage::Text("e7e5".to_string()), 5000));
}

#[test]
fn a_late_move_is_passed_over() {
    let mut room = open_room();
    let (white, _) = sit(&mut room, "alice", 10, 71);
    let (black, _) = sit(&mut room, "bob", 11, 72);
    say(&white, &mut room, "e2e4", 5000, 1);
    assert_eq!(stayed(say(&black, &mut room, "e7e5", 187000, 2)), vec![]);
    assert_eq!(room.game.actions().len(), 1);
}

#[test]
fn a_move_before_the_timer_is_in_time() {
    let mut room = open_room();
    let (white, _) = sit(&mut room, "alice", 10, 71);
    let (black, _) = sit(&mut room, "bob", 11, 72);
    let after = match say(&white, &mut room, "e2e4", 5000, 1) {
        GameStep::Played { timer, .. } => timer.unwrap().after,
        other => panic!("{:?}", other),
    };
    let late = 5000 + after as u128;
    assert!(matches!(say(&black, &mut room, "e7e5", late, 2), GameStep::Played { .. }));
    assert_eq!(room.remaining_time, [180000, 2000]);
}

#[test]
fn leftover_sessions_are_expelled() {
    let mut room = open_room();
    let (white, _) = sit(&mut room, "alice", 10, 71);
    reset_room_with(&mut room, [5, 6]);
    match say(&white, &mut room, "e2e4", 5000, 1) {
        GameStep::Expel { deliveries } => assert_eq!(sent(deliveries), vec![must(10, Response::InvalidKey)]),
        other => panic!("{:?}", other),
    }
    room.write_streams = [Some(20), None];
    assert!(!white.exit(&mut room));
    assert_eq!(room.write_streams, [Some(20), None]);
}

#[test]
fn the_last_one_out_empties_the_room() {
    let mut room = open_room();
    let (white, _) = sit(&mut room, "alice", 10, 71);
    let (black, _) = sit(&mut room, "bob", 11, 72);
    assert!(!black.exit(&mut room));
    assert_eq!(room.write_streams, [Some(10), None]);
    assert!(white.exit(&mut room));
}

#[test]
fn a_match_that_is_off() {
    assert_eq!(sent(cancel_deliveries(&[None, None])), vec![]);
    assert_eq!(sent(cancel_deliveries(&[None, Some(11)])), vec![may(11, Response::GameCanceled), close(11)]);
    assert_eq!(
        sent(cancel_deliveries(&[Some(10), Some(11)])),
        vec![may(10, Response::GameCanceled), close(10), may(11, Response::GameCanceled), close(11)]
    );
}

#[test]
fn winners() {
    assert_eq!(announced_winner(Some(GameResult::WhiteCheckmates)), Some("white".to_string()));
    assert_eq!(announced_winner(Some(GameResult::BlackCheckmates)), Some("black".to_string()));
    assert_eq!(announced_winner(Some(GameResult::Stalemate)), Some("draw".to_string()));
    assert_eq!(announced_winner(Some(GameResult::DrawDeclared)), Some("draw".to_string()));
    assert_eq!(announced_winner(Some(GameResult::DrawAccepted)), None);
    assert_eq!(announced_winner(Some(GameResult::WhiteResigns)), None);
    assert_eq!(announced_winner(Some(GameResult::BlackResigns)), None);
    assert_eq!(announced_winner(None), None);
}

#[test]
fn events_of_a_connection() {
    assert_eq!((HEARTBEAT_SECS, READ_TIMEOUT_SECS), (25, 60));
    let fresh = ServerState::Auth(Auth::new(10));
    let seated = ServerState::Game(GameInner { key: 71, write: 10, room_id: 0, color: Color::White });
    for state in [&fresh, &seated] {
        assert_eq!(on_event(state, ConnectionEvent::Heartbeat), ConnectionAction::Ping);
        assert_eq!(on_event(state, ConnectionEvent::Message), ConnectionAction::Handle);
        assert_eq!(on_event(state, ConnectionEvent::ReadFailed), ConnectionAction::Fail);
        assert_eq!(on_event(state, ConnectionEvent::TimedOut), ConnectionAction::Fail);
    }
    assert_eq!(on_event(&fresh, ConnectionEvent::Ended), ConnectionAction::Finish { exit: false });
    assert_eq!(on_event(&seated, ConnectionEvent::Ended), ConnectionAction::Finish { exit: true });
}

#[test]
fn what_becomes_of_a_session_before_a_game() {
    let mut room = open_room();
    let seated = lobby("alice", 10).join(&mut room, 0, 71);
    assert_eq!(seated.after_delivery(true), Ending::GoOn);
    assert_eq!(seated.after_delivery(false), Ending::GiveUp);
    let refused = lobby("eve", 12).join(&mut room, 0, 73);
    assert_eq!(refused.after_delivery(true), Ending::GoOn);
    assert_eq!(refused.after_delivery(false), Ending::Fail);
    let unchecked = Auth::new(10).next(AuthMessage::Other);
    assert_eq!(unchecked.after_delivery(false), Ending::Fail);
}

#[test]
fn what_becomes_of_a_session_in_a_game() {
    let mut room = open_room();
    let (white, _) = sit(&mut room, "alice", 10, 71);
    let (black, _) = sit(&mut room, "bob", 11, 72);
    let early = say(&black, &mut room, "e7e5", 1, 1);
    assert_eq!(after_step(&early, true), Ending::GoOn);
    assert_eq!(after_step(&early, false), Ending::GiveUp);
    let played = say(&white, &mut room, "f2f3", 1, 1);
    assert_eq!(after_step(&played, true), Ending::GoOn);
    assert_eq!(after_step(&played, false), Ending::GoOn);
    say(&black, &mut room, "e7e5", 2, 2);
    say(&white, &mut room, "g2g4", 3, 3);
    let mate = say(&black, &mut room, "d8h4", 4, 4);
    assert_eq!(after_step(&mate, true), Ending::Finish);
    assert_eq!(after_reply(&Ok(mate), false), Ending::Finish);
    assert_eq!(after_finish(true), Ending::GoOn);
    assert_eq!(after_finish(false), Ending::GiveUp);
    reset_room_with(&mut room, [5, 6]);
    let expelled = say(&white, &mut room, "e2e4", 5, 5);
    assert_eq!(after_step(&expelled, true), Ending::GiveUp);
    assert_eq!(after_reply(&Err(ClockError::TooLarge), true), Ending::GiveUp);
}

#[test]
fn leftover_sessions_are_expelled_from_the_next_match() {
    let mut room = open_room();
    let (old_white, _) = sit(&mut room, "alice", 10, 71);
    reset_room_with(&mut room, [5, 6]);
    room.activate();
    room.begin_match(Keys { keys: [5, 6], timestamp: 1000 }, Some(1500), 600).unwrap();
    let (new_white, _) = sit(&mut room, "carol", 20, 5);
    assert!(matches!(say(&old_white, &mut room, "e2e4", 5000, 1), GameStep::Expel { .. }));
    assert!(!old_white.exit(&mut room));
    assert_eq!(room.write_streams, [Some(20), None]);
    assert!(matches!(say(&new_white, &mut room, "e2e4", 6000, 2), GameStep::Played { .. }));
    assert!(matches!(say(&old_white, &mut room, "d2d4", 6500, 3), GameStep::Expel { .. }));
    assert!(matches!(say(&old_white, &mut room, "d2d4", 999999, 4), GameStep::Stay { .. }));
}
