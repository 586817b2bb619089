use chess_server::game::GameAction;
use chess_server::keys::Keys;
use chess_server::moves::{parse_move, MoveValue};
use chess_server::record::{list_actions, match_pgn, match_tags, record_steps, write_match, RecordError, RecordStep};
use chess_server::room::{game_record, PlayOutcome, Room};
use chess_server::side::Color;

fn mv(text: &str) -> MoveValue {
    parse_move(text).unwrap()
}

fn played(moves: &[&str]) -> Room {
    let mut room = Room::new(0);
    room.activate();
    room.begin_match(Keys { keys: [1, 2], timestamp: 1000 }, Some(1000), 50).unwrap();
    for (i, text) in moves.iter().enumerate() {
        let color = if i % 2 == 0 { Color::White } else { Color::Black };
        let outcome = room.play(color, color.to_index() as u64 + 1, text, 100 + i as u64, i as u64);
        assert!(matches!(outcome, PlayOutcome::Played(_)));
    }
    room
}

const HEAD: &str = "[Event \"?\"]\n[Site \"?\"]\n[Date \"????.??.??\"]\n[Round \"?\"]\n[White \"?\"]\n[Black \"?\"]\n";
const START: &str = "[FEN \"rnbqkbnr/pppppppp/8/8/8/8/PPPPPPPP/RNBQKBNR w KQkq - 0 1\"]\n\n";

#[test]
fn records_a_mate() {
    let room = played(&["f2f3", "e7e5", "g2g4", "d8h4"]);
    let expected = format!("{}[Result \"0-1\"]\n{}1. f3 e5 2. g4 Qh4# 0-1", HEAD, START);
    assert_eq!(match_pgn(&room.game), Ok(expected));
}

#[test]
fn records_a_loss_on_time_as_a_resignation() {
    let room = played(&["e2e4"]);
    let expected = format!("{}[Result \"1-0\"]\n{}1. e4 1-0", HEAD, START);
    assert_eq!(match_pgn(&room.game), Ok(expected));
    let room = played(&["e2e4", "e7e5"]);
    let expected = format!("{}[Result \"0-1\"]\n{}1. e4 e5 0-1", HEAD, START);
    assert_eq!(match_pgn(&room.game), Ok(expected));
}

#[test]
fn records_a_declared_draw() {
    let room = played(&["b1c3", "g8f6", "c3b1", "f6g8", "b1c3", "g8f6", "c3b1", "f6g8"]);
    let expected = format!(
        "{}[Result \"1/2-1/2\"]\n{}1. Nc3 Nf6 2. Nb1 Ng8 3. Nc3 Nf6 4. Nb1 Ng8 1/2-1/2",
        HEAD, START
    );
    assert_eq!(match_pgn(&room.game), Ok(expected));
    let actions = list_actions(&room.game);
    assert_eq!(actions.len(), 9);
    assert_eq!(actions[0], GameAction::MakeMove(mv("b1c3")));
    assert_eq!(actions[8], GameAction::DeclareDraw);
}

#[test]
fn lists_every_kind_of_action() {
    let mut game = chess::Game::new();
    assert!(game.offer_draw(chess::Color::White));
    assert!(game.offer_draw(chess::Color::Black));
    assert!(game.accept_draw());
    assert_eq!(
        list_actions(&game),
        vec![GameAction::OfferDraw(Color::White), GameAction::OfferDraw(Color::Black), GameAction::AcceptDraw]
    );
    let mut game = chess::Game::new();
    assert!(game.resign(chess::Color::White));
    assert_eq!(list_actions(&game), vec![GameAction::Resign(Color::White)]);
    let mut game = chess::Game::new();
    assert!(game.resign(chess::Color::Black));
    assert_eq!(list_actions(&game), vec![GameAction::Resign(Color::Black)]);
}

#[test]
fn steps_of_a_match() {
    let actions = vec![
        GameAction::MakeMove(mv("e2e4")),
        GameAction::OfferDraw(Color::White),
        GameAction::MakeMove(mv("e7e5")),
        GameAction::DeclareDraw,
    ];
    let all = vec![RecordStep::Move(mv("e2e4")), RecordStep::Move(mv("e7e5")), RecordStep::AgreeDraw];
    assert_eq!(record_steps(&actions, true, Color::White), all);
    let mut lost = all.clone();
    lost.push(RecordStep::Resign(Color::White));
    assert_eq!(record_steps(&actions, false, Color::White), lost);
    assert_eq!(record_steps(&vec![], false, Color::Black), vec![RecordStep::Resign(Color::Black)]);
    assert_eq!(record_steps(&vec![], true, Color::Black), vec![]);
}

#[test]
fn steps_that_are_refused() {
    assert_eq!(write_match(&vec![RecordStep::Move(mv("e2e5"))], match_tags()), Err(RecordError::MoveRefused));
    assert_eq!(
        write_match(&vec![RecordStep::AgreeDraw, RecordStep::AgreeDraw], match_tags()),
        Err(RecordError::DrawAfterEnd)
    );
    assert_eq!(
        write_match(&vec![RecordStep::AgreeDraw, RecordStep::Resign(Color::White)], match_tags()),
        Err(RecordError::ResignAfterEnd)
    );
    assert_eq!(
        write_match(&vec![RecordStep::Resign(Color::Black), RecordStep::Move(mv("e2e4"))], match_tags()),
        Err(RecordError::MoveRefused)
    );
}

#[test]
fn tags_that_are_missing() {
    for missing in 0..6 {
        let mut tags = match_tags();
        tags.remove(missing);
        assert_eq!(write_match(&vec![], tags), Err(RecordError::TagMissing));
    }
    assert!(write_match(&vec![], match_tags()).is_ok());
}

#[test]
fn refusals_of_steps() {
    assert_eq!(RecordStep::Move(mv("e2e4")).refusal(), RecordError::MoveRefused);
    assert_eq!(RecordStep::AgreeDraw.refusal(), RecordError::DrawAfterEnd);
    assert_eq!(RecordStep::Resign(Color::White).refusal(), RecordError::ResignAfterEnd);
}

#[test]
fn records_castling_and_promotion() {
    let steps: Vec<RecordStep> = [
        "e2e4", "e7e5", "g1f3", "g8f6", "f1c4", "f8c5", "e1g1",
    ].iter().map(|m| RecordStep::Move(mv(m))).collect();
    let text = write_match(&steps, match_tags()).unwrap();
    assert!(text.ends_with("1. e4 e5 2. Nf3 Nf6 3. Bc4 Bc5 4. O-O *"));
    let steps: Vec<RecordStep> = [
        "a2a4", "b7b5", "a4b5", "a7a6", "b5a6", "c8b7", "a6b7", "d7d6", "b7a8q",
    ].iter().map(|m| RecordStep::Move(mv(m))).collect();
    let text = write_match(&steps, match_tags()).unwrap();
    assert!(text.ends_with("5. bxa8=Q *"));
}

#[test]
fn keeps_both_players() {
    let mut room = Room::new(3);
    room.activate();
    room.begin_match(Keys { keys: [1, 2], timestamp: 1000 }, Some(1000), 50).unwrap();
    room.join(1, &"alice".to_string(), 10);
    room.join(2, &"bob".to_string(), 11);
    let record = game_record(&room, "text".to_string());
    assert_eq!(record.player_one_id, "alice");
    assert_eq!(record.player_two_id, "bob");
    assert_eq!(record.player_one_rating, 0);
    assert_eq!(record.player_two_rating, 0);
    assert_eq!(record.pgn, "text");
}
