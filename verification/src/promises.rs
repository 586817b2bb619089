//! What each operation is for, said of the values that go in and come out: the
//! fields of a room, the messages as they are sent, the characters of a text.

#[allow(unused_imports)]
use crate::clock::{
    clocks_fit, start_on_clock, time_after_move, time_left, wait_for_first_move, ClockError,
};
#[allow(unused_imports)]
use crate::game::{
    draw_declarable, game_actions, game_outcome, is_legal, moves_made, outcome, position_text, turn,
    BoardStatus, GameAction, GameResult,
};
#[allow(unused_imports)]
use crate::keys::Keys;
#[allow(unused_imports)]
use crate::messages::request::Request;
#[allow(unused_imports)]
use crate::messages::response::Response;
#[allow(unused_imports)]
use crate::moves::{move_chars, move_of, MoveValue};
#[allow(unused_imports)]
use crate::record::{
    match_text, pgn_text, record_accepts, record_ongoing, recorded, steps_of_actions,
    steps_of_match, tags_complete, tags_view, unknown_tags, RecordEntry, RecordError, RecordStep,
};
#[allow(unused_imports)]
use crate::room::{
    appends_room, cleared, lemma_after_move, moved, offers_room, same_but_keys, seated, sets_keys,
    tells, unplugged, PlayVerdict, PlayedMove, Player, Room, StoreCommand,
};
#[allow(unused_imports)]
use crate::session::{
    cancel_messages, deliveries_view, is_addressed, lemma_every_ending_is_announced,
    move_messages, timeout_messages, winner_of, Auth, AuthMessage, Delivery, GameInner,
    GameMessage, GameStep, Lobby, LobbyAction, LobbyMessage, Outgoing, ServerState, Step, TimerPlan,
};
#[allow(unused_imports)]
use crate::side::Color;
#[allow(unused_imports)]
use crate::store::{
    decimal_chars, digits_value, index_of, is_digit, keys_name_chars, notice_room, Notice,
    NoticeError, NoticeValue,
};
use vstd::prelude::*;

verus! {

// The sides, the turns and the end of a game.

/// White has the first place of each pair and black the second, each is the
/// other's opponent, and clients know them as "white" and "black".
pub proof fn law_the_two_sides(color: Color)
    ensures
        color is White ==> color.index() == 0 && color.other() is Black && color.label()
            == "white"@,
        color is Black ==> color.index() == 1 && color.other() is White && color.label()
            == "black"@,
{
}

/// White begins. A move hands the turn over, and nothing else does.
pub proof fn law_only_moves_pass_the_turn(actions: Seq<GameAction>, action: GameAction)
    ensures
        turn(Seq::empty()) is White,
        moves_made(Seq::empty()) == 0,
        action is MakeMove ==> turn(actions.push(action)) != turn(actions) && moves_made(
            actions.push(action),
        ) == moves_made(actions) + 1,
        action !is MakeMove ==> turn(actions.push(action)) == turn(actions) && moves_made(
            actions.push(action),
        ) == moves_made(actions),
{
    assert(actions.push(action).drop_last() =~= actions);
}

/// Who is mated has lost, to the side that moved last. A board on which the
/// game goes on leaves the end to the last action.
pub proof fn law_how_games_end(actions: Seq<GameAction>, status: BoardStatus)
    ensures
        outcome(actions, status) == Some(GameResult::WhiteCheckmates) <==> status is Checkmate
            && turn(actions) is Black,
        outcome(actions, status) == Some(GameResult::BlackCheckmates) <==> status is Checkmate
            && turn(actions) is White,
        outcome(actions, status) == Some(GameResult::Stalemate) <==> status is Stalemate,
        outcome(actions, status) == Some(GameResult::DrawDeclared) <==> status is Ongoing
            && actions.len() > 0 && actions.last() is DeclareDraw,
        outcome(actions, status) == Some(GameResult::DrawAccepted) <==> status is Ongoing
            && actions.len() > 0 && actions.last() is AcceptDraw,
        outcome(actions, status) == Some(GameResult::WhiteResigns) <==> status is Ongoing
            && actions.len() > 0 && actions.last() == GameAction::Resign(Color::White),
        outcome(actions, status) == Some(GameResult::BlackResigns) <==> status is Ongoing
            && actions.len() > 0 && actions.last() == GameAction::Resign(Color::Black),
        outcome(actions, status) is None <==> status is Ongoing && (actions.len() == 0
            || actions.last() is MakeMove || actions.last() is OfferDraw),
{
}

/// A game that ends in mate is announced as won by the side that mates, one
/// that is drawn as a draw, and no other is announced.
pub proof fn law_who_is_announced(result: GameResult)
    ensures
        winner_of(None) is None,
        winner_of(Some(result)) == Some("white"@) || winner_of(Some(result)) == Some("black"@)
            || winner_of(Some(result)) == Some("draw"@) || winner_of(Some(result)) is None,
        result is WhiteCheckmates ==> winner_of(Some(result)) == Some("white"@),
        result is BlackCheckmates ==> winner_of(Some(result)) == Some("black"@),
        result is Stalemate || result is DrawDeclared ==> winner_of(Some(result)) == Some("draw"@),
        winner_of(Some(result)) is Some ==> result is WhiteCheckmates || result is BlackCheckmates
            || result is Stalemate || result is DrawDeclared,
{
}

// The text of a move.

/// A move is written as its file and rank, twice, and the letter of the piece
/// that a pawn becomes.
pub proof fn law_how_a_move_is_written(mv: MoveValue)
    requires
        mv.wf(),
    ensures
        move_chars(mv).len() == (if mv.promotion is Some {
            5int
        } else {
            4int
        }),
        move_chars(mv)[0] as int == 97 + mv.source % 8,
        move_chars(mv)[1] as int == 49 + mv.source / 8,
        move_chars(mv)[2] as int == 97 + mv.dest % 8,
        move_chars(mv)[3] as int == 49 + mv.dest / 8,
        mv.promotion matches Some(p) ==> move_chars(mv)[4] == seq!['p', 'n', 'b', 'r', 'q', 'k'][
            p as int
        ],
{
    let text = move_chars(mv);
    assert(text[0] as int == 'a' as int + mv.source as int % 8);
    assert(text[1] as int == '1' as int + mv.source as int / 8);
    assert(text[2] as int == 'a' as int + mv.dest as int % 8);
    assert(text[3] as int == '1' as int + mv.dest as int / 8);
}

/// Only a text that begins with the squares of a move is read as that move,
/// and only one that is all of the move's text as a promotion.
pub proof fn law_what_is_read_stands_there(text: Seq<char>)
    ensures
        move_of(text) matches Some(mv) ==> {
            &&& mv.wf()
            &&& mv.promotes_properly()
            &&& text.len() >= 4
            &&& text.take(4) == move_chars(mv).take(4)
            &&& mv.promotion is Some ==> text == move_chars(mv)
            &&& mv.promotion is None ==> text.len() != 5 || text[4] as int >= 128
        },
{
    if let Some(mv) = move_of(text) {
        law_how_a_move_is_written(mv);
        let s = mv.source as int;
        let d = mv.dest as int;
        assert(s == 8 * (text[1] as int - 49) + (text[0] as int - 97));
        assert(d == 8 * (text[3] as int - 49) + (text[2] as int - 97));
        assert(s % 8 == text[0] as int - 97 && s / 8 == text[1] as int - 49);
        assert(d % 8 == text[2] as int - 97 && d / 8 == text[3] as int - 49);
        assert(text.take(4) =~= move_chars(mv).take(4));
        if mv.promotion is Some {
            assert(text =~= move_chars(mv)) by {
                assert forall|i: int| 0 <= i < 4 implies text[i] == move_chars(mv)[i] by {
                    assert(text.take(4)[i] == move_chars(mv).take(4)[i]);
                }
            }
        }
    }
}

/// Whatever follows the two squares is passed over, unless it is a single
/// ASCII character.
pub proof fn law_what_follows_the_squares_is_passed_over(mv: MoveValue, tail: Seq<char>)
    requires
        mv.wf(),
        mv.promotion is None,
        tail.len() != 1 || tail[0] as int >= 128,
    ensures
        move_of(move_chars(mv) + tail) == Some(mv),
{
    law_how_a_move_is_written(mv);
    let text = move_chars(mv) + tail;
    assert(text[0] == move_chars(mv)[0] && text[1] == move_chars(mv)[1]);
    assert(text[2] == move_chars(mv)[2] && text[3] == move_chars(mv)[3]);
    if tail.len() == 1 {
        assert(text[4] == tail[0]);
    }
}

// The clocks.

/// Two seconds are added for a move and the time that it took is taken off; a
/// player without any time left has none, not less.
pub proof fn law_time_adds_up(remaining: u64, last_move_time: u64, now: u64)
    requires
        last_move_time <= now,
    ensures
        ({
            let elapsed = now - last_move_time;
            let left = time_after_move(false, remaining, last_move_time, now);
            &&& left >= 0
            &&& left > 0 ==> left + elapsed == remaining + 2000
            &&& left == 0 <==> elapsed >= remaining + 2000
            &&& left == time_left(remaining as int, elapsed)
            &&& time_after_move(true, remaining, last_move_time, now) == remaining
        }),
{
}

/// The time of a move can be worked out unless the clock has run back or the
/// counter would overrun; that of the first move always can.
pub proof fn law_when_time_can_be_worked_out(
    room: Room,
    color: Color,
    msg: GameMessage,
    session: GameInner,
    reading: u128,
    remaining: u64,
    last_move_time: u64,
    now: u64,
)
    ensures
        clocks_fit(true, remaining, last_move_time, now),
        clocks_fit(false, remaining, last_move_time, now) <==> now >= last_move_time && (now
            - last_move_time > 2000 || remaining + 2000 <= 0xffff_ffff_ffff_ffff),
        room.clocks_fit(color, now) == clocks_fit(
            game_actions(room.game).len() == 0,
            room.remaining_time@[color.index()],
            room.last_move_time,
            now,
        ),
        session.fits(room, msg, reading) <==> (msg is Other || reading > 0xffff_ffff_ffff_ffff
            || room.clocks_fit(session.color, reading as u64)),
{
}

/// A match began as long before the present reading of the server's clock as
/// the system's clock is past the time at which the match was made, and the
/// wait for its first move ends twenty seconds after that time.
pub proof fn law_when_a_match_began(clock: int, timestamp: int, now: int)
    ensures
        clock - start_on_clock(clock, timestamp, now) == now - timestamp,
        now <= timestamp + 20000 ==> now + wait_for_first_move(timestamp, now) == timestamp + 20000,
        now > timestamp + 20000 ==> wait_for_first_move(timestamp, now) == 0,
{
}

/// A match begins by two clocks that count in 64 bits, the system's at or past
/// the epoch; and nothing but an overrun of the counter stands against it.
pub proof fn law_when_a_match_can_begin(keys: Keys, now: Option<u128>, clock: u128)
    ensures
        now is None ==> Room::readings(now, clock) == Err::<(u64, u64), ClockError>(
            ClockError::BeforeEpoch,
        ),
        now matches Some(n) ==> {
            if n <= 0xffff_ffff_ffff_ffff && clock <= 0xffff_ffff_ffff_ffff {
                Room::readings(now, clock) == Ok::<(u64, u64), ClockError>(
                    (n as u64, clock as u64),
                )
            } else {
                Room::readings(now, clock) == Err::<(u64, u64), ClockError>(ClockError::TooLarge)
            }
        },
        Room::readings(now, clock) is Err ==> Room::clocks_agree(keys, now, clock),
        Room::readings(now, clock) matches Ok((n, c)) ==> (Room::clocks_agree(keys, now, clock)
            <==> c + keys.timestamp <= 0xffff_ffff_ffff_ffff && n <= c + keys.timestamp
            && keys.timestamp + 20000 <= 0xffff_ffff_ffff_ffff),
{
}

// A room and its moves.

/// What is judged of a room is read off its fields.
pub proof fn law_what_a_room_shows(room: Room, color: Color, key: u64, now: u64)
    ensures
        room.actions() == game_actions(room.game),
        room.key_of(color) == (match room.keys {
            Some(keys) => Some(keys.keys@[color.index()]),
            None => None,
        }),
        room.seat_for(key) == Some(Color::White) <==> (room.keys matches Some(keys)
            && keys.keys@[0] == key),
        room.seat_for(key) == Some(Color::Black) <==> (room.keys matches Some(keys)
            && keys.keys@[0] != key && keys.keys@[1] == key),
        room.outdated(color, key) <==> (room.keys matches Some(keys) && keys.keys@[color.index()]
            != key),
        room.deserted() <==> room.write_streams@[0] is None && room.write_streams@[1] is None,
        game_actions(room.game).len() == 0 ==> room.time_for(color, now)
            == room.remaining_time@[color.index()],
        game_actions(room.game).len() > 0 ==> room.time_for(color, now) == time_left(
            room.remaining_time@[color.index()] as int,
            now - room.last_move_time,
        ),
{
}

/// Every legal move is taken, whatever it is: a player with time left, the key
/// of the seat and the turn has each move taken that is legal in a game
/// without a result, and the move follows all that was done before.
pub proof fn law_every_legal_move_is_taken(
    session: GameInner,
    pre: Room,
    post: Room,
    text: Seq<char>,
    now: u64,
    timer: u64,
    step: GameStep,
    mv: MoveValue,
)
    requires
        session.answers(pre, post, text, now, timer, step),
        move_of(text) == Some(mv),
        pre.time_for(session.color, now) != 0,
        pre.key_of(session.color) == Some(session.key),
        turn(pre.actions()) == session.color,
        game_outcome(pre.actions()) is None,
        is_legal(pre.actions(), mv),
    ensures
        step is Played,
        post.actions().len() > pre.actions().len(),
        post.actions().take(pre.actions().len() as int + 1) == pre.actions().push(
            GameAction::MakeMove(mv),
        ),
        post.actions().len() == pre.actions().len() + (if draw_declarable(
            pre.actions().push(GameAction::MakeMove(mv)),
        ) {
            2int
        } else {
            1int
        }),
        draw_declarable(pre.actions().push(GameAction::MakeMove(mv))) ==> post.actions().last()
            is DeclareDraw,
{
    assert(post.actions().take(pre.actions().len() as int + 1) =~= pre.actions().push(
        GameAction::MakeMove(mv),
    ));
}

/// What is to come of a message of a player, for each of the five outcomes:
/// time comes before the key, the key before the turn, and the turn before the
/// move.
pub proof fn law_what_comes_of_a_message(
    room: Room,
    color: Color,
    key: u64,
    text: Seq<char>,
    now: u64,
)
    ensures
        ({
            let actions = game_actions(room.game);
            let left = room.remaining_time@[color.index()];
            let late = if actions.len() == 0 {
                left == 0
            } else {
                now - room.last_move_time >= left + 2000
            };
            let keyed = room.keys matches Some(keys) && keys.keys@[color.index()] == key;
            let legal = move_of(text) matches Some(mv) && game_outcome(actions) is None && is_legal(
                actions,
                mv,
            );
            let verdict = room.verdict(color, key, text, now);
            &&& verdict is OutOfTime <==> late
            &&& verdict is InvalidKey <==> !late && !keyed
            &&& verdict is OutOfTurn <==> !late && keyed && turn(actions) != color
            &&& verdict is InvalidMove <==> !late && keyed && turn(actions) == color && !legal
            &&& verdict is Accepted <==> !late && keyed && turn(actions) == color && legal
            &&& verdict matches PlayVerdict::Accepted(mv) ==> move_of(text) == Some(mv)
        }),
{
}

/// What a message that is not taken as a move is answered: silence where the
/// time is up, else the reason; and the room is left as it was.
pub proof fn law_how_refusals_are_answered(
    session: GameInner,
    pre: Room,
    post: Room,
    text: Seq<char>,
    now: u64,
    timer: u64,
    step: GameStep,
)
    requires
        session.answers(pre, post, text, now, timer, step),
        step !is Played,
    ensures
        post == pre,
        pre.time_for(session.color, now) == 0 ==> (step matches GameStep::Stay { deliveries }
            && deliveries@.len() == 0),
        pre.time_for(session.color, now) != 0 && pre.key_of(session.color) != Some(session.key)
            ==> (step matches GameStep::Expel { deliveries } && deliveries@.len() == 1
            && has_to_say(deliveries@[0], session.write, Response::InvalidKey)),
        pre.time_for(session.color, now) != 0 && pre.key_of(session.color) == Some(session.key)
            && turn(pre.actions()) != session.color ==> (step matches GameStep::Stay { deliveries }
            && deliveries@.len() == 1 && has_to_say(
            deliveries@[0],
            session.write,
            Response::OutOfTurnMove,
        )),
        pre.time_for(session.color, now) != 0 && pre.key_of(session.color) == Some(session.key)
            && turn(pre.actions()) == session.color ==> (step matches GameStep::Stay { deliveries }
            && deliveries@.len() == 1 && has_to_say(
            deliveries@[0],
            session.write,
            Response::InvalidMove,
        )),
{
    if let GameStep::Stay { deliveries } = step {
        lemma_messages(deliveries@);
        if deliveries@.len() > 0 {
            assert(deliveries@[0]@ == deliveries_view(deliveries@)[0]);
        }
    }
    if let GameStep::Expel { deliveries } = step {
        lemma_messages(deliveries@);
        assert(deliveries@[0]@ == deliveries_view(deliveries@)[0]);
    }
}

/// What a move that is taken does to a room: the game goes on by it, the
/// mover's clock by the time that it took, and the timer is a new one or none.
/// All else stays.
pub proof fn law_what_a_move_changes(
    pre: Room,
    post: Room,
    color: Color,
    mv: MoveValue,
    now: u64,
    timer: u64,
)
    requires
        moved(pre, post, color, mv, now, timer),
    ensures
        ({
            let made = game_actions(pre.game).push(GameAction::MakeMove(mv));
            game_actions(post.game) == (if draw_declarable(made) {
                made.push(GameAction::DeclareDraw)
            } else {
                made
            })
        }),
        post.last_move_time == now,
        pre.time_for(color, now) <= 0xffff_ffff_ffff_ffff && pre.time_for(color, now) >= 0
            ==> post.remaining_time@[color.index()] == pre.time_for(color, now),
        post.remaining_time@[color.other().index()] == pre.remaining_time@[color.other().index()],
        game_outcome(game_actions(post.game)) is None ==> post.player_timeout == Some(timer),
        game_outcome(game_actions(post.game)) is Some ==> post.player_timeout is None,
        draw_declarable(game_actions(pre.game).push(GameAction::MakeMove(mv))) ==> game_outcome(
            game_actions(post.game),
        ) == Some(GameResult::DrawDeclared),
        post.id == pre.id,
        post.active == pre.active,
        post.players == pre.players,
        post.keys == pre.keys,
        post.start_time == pre.start_time,
        post.write_streams == pre.write_streams,
{
}

/// What is told of a move is what the room shows after it.
pub proof fn law_what_is_told_of_a_move(played: PlayedMove, pre: Room, post: Room, color: Color)
    requires
        tells(played, pre, post, color),
    ensures
        played.aborted == pre.player_timeout,
        played.timestamp == post.last_move_time,
        played.white_time == post.remaining_time@[0],
        played.black_time == post.remaining_time@[1],
        played.position@ == position_text(game_actions(post.game)),
        played.result == game_outcome(game_actions(post.game)),
        color is White ==> played.opponent == post.write_streams@[1] && played.opponent_time
            == post.remaining_time@[1],
        color is Black ==> played.opponent == post.write_streams@[0] && played.opponent_time
            == post.remaining_time@[0],
{
}

/// A cleared room has new keys, as they were given, and nothing of a match.
pub proof fn law_what_a_cleared_room_holds(pre: Room, post: Room, keys: [u64; 2])
    requires
        cleared(pre, post, keys),
    ensures
        post.id == pre.id,
        !post.active,
        post.players@[0] is None,
        post.players@[1] is None,
        game_actions(post.game).len() == 0,
        game_outcome(game_actions(post.game)) is None,
        position_text(game_actions(post.game))
            == "rnbqkbnr/pppppppp/8/8/8/8/PPPPPPPP/RNBQKBNR w KQkq - 0 1"@,
        post.keys matches Some(k) && k.keys == keys && k.timestamp == 0,
        post.start_time == 0,
        post.last_move_time == 0,
        post.remaining_time@[0] == 180000,
        post.remaining_time@[1] == 180000,
        post.write_streams@[0] is None,
        post.write_streams@[1] is None,
        post.player_timeout is None,
{
}

/// A player who takes a seat is in it, over the new connection; the other seat
/// and all else stay.
pub proof fn law_what_taking_a_seat_changes(
    pre: Room,
    post: Room,
    color: Color,
    account_id: String,
    connection: u64,
)
    requires
        seated(pre, post, color, account_id, connection),
    ensures
        post.players@[color.index()] == Some(Player { account_id }),
        post.write_streams@[color.index()] == Some(connection),
        post.players@[color.other().index()] == pre.players@[color.other().index()],
        post.write_streams@[color.other().index()] == pre.write_streams@[color.other().index()],
        post.id == pre.id,
        post.active == pre.active,
        post.game == pre.game,
        post.keys == pre.keys,
        post.start_time == pre.start_time,
        post.last_move_time == pre.last_move_time,
        post.remaining_time == pre.remaining_time,
        post.player_timeout == pre.player_timeout,
{
}

/// A connection that is taken out of a room is gone, and nothing else is; and
/// keys that are given change nothing else.
pub proof fn law_what_leaving_changes(pre: Room, post: Room, rekeyed: Room, color: Color)
    requires
        unplugged(pre, post, color),
        same_but_keys(pre, rekeyed),
    ensures
        post.write_streams@[color.index()] is None,
        post.write_streams@[color.other().index()] == pre.write_streams@[color.other().index()],
        post.id == pre.id,
        post.active == pre.active,
        post.players == pre.players,
        post.game == pre.game,
        post.keys == pre.keys,
        post.start_time == pre.start_time,
        post.last_move_time == pre.last_move_time,
        post.remaining_time == pre.remaining_time,
        post.player_timeout == pre.player_timeout,
        rekeyed == (Room { keys: rekeyed.keys, ..pre }),
{
}

// The messages.

/// A message that has to arrive.
pub open spec fn has_to_say(d: Delivery, to: u64, response: Response) -> bool {
    d.to == to && d.required && d.content == Outgoing::Response(response)
}

/// The end of a connection, that may get lost.
pub open spec fn ends(d: Delivery, to: u64) -> bool {
    d.to == to && !d.required && d.content is Close
}

/// A message that may get lost: the winner of a game.
pub open spec fn names_winner(d: Delivery, to: u64, name: Seq<char>, timed_out: bool) -> bool {
    &&& d.to == to
    &&& !d.required
    &&& d.content matches Outgoing::Response(Response::GameOver { winner, timeout })
    &&& winner@ == name
    &&& timeout == timed_out
}

/// A message that may get lost: the position, and both clocks.
pub open spec fn shows(
    d: Delivery,
    to: u64,
    position: Seq<char>,
    at: u64,
    white: u64,
    black: u64,
) -> bool {
    &&& d.to == to
    &&& !d.required
    &&& d.content matches Outgoing::Response(
        Response::Fen { fen, timestamp, white_time, black_time },
    )
    &&& fen@ == position
    &&& timestamp == at
    &&& white_time == white
    &&& black_time == black
}

/// A message that may get lost: a move, as it was sent.
pub open spec fn forwards(d: Delivery, to: u64, text: Seq<char>) -> bool {
    &&& d.to == to
    &&& !d.required
    &&& d.content matches Outgoing::Response(Response::Move { move_ })
    &&& move_@ == text
}

/// Messages and what is said of them go together one by one.
proof fn lemma_messages(deliveries: Seq<Delivery>)
    ensures
        deliveries_view(deliveries).len() == deliveries.len(),
        forall|i: int|
            0 <= i < deliveries.len() ==> #[trigger] deliveries_view(deliveries)[i]
                == deliveries[i]@,
{
}

/// What is sent of a move: the position and the clocks to the mover, the move
/// and the same to an opponent who is there, and then, where there is a
/// winner to announce, the winner to both, who are then cut off. Nothing else.
pub proof fn law_what_is_sent_of_a_move(
    deliveries: Seq<Delivery>,
    write: u64,
    text: Seq<char>,
    played: PlayedMove,
)
    requires
        deliveries_view(deliveries) == move_messages(write, text, played@),
    ensures
        ({
            let over = winner_of(played.result);
            match played.opponent {
                Some(opponent) => {
                    &&& deliveries.len() == 3 + (if over is Some {
                        4int
                    } else {
                        0int
                    })
                    &&& forwards(deliveries[1], opponent, text)
                    &&& shows(
                        deliveries[2],
                        opponent,
                        played.position@,
                        played.timestamp,
                        played.white_time,
                        played.black_time,
                    )
                    &&& over matches Some(name) ==> {
                        &&& names_winner(deliveries[3], write, name, false)
                        &&& ends(deliveries[4], write)
                        &&& names_winner(deliveries[5], opponent, name, false)
                        &&& ends(deliveries[6], opponent)
                    }
                },
                None => {
                    &&& deliveries.len() == 1 + (if over is Some {
                        2int
                    } else {
                        0int
                    })
                    &&& over matches Some(name) ==> {
                        &&& names_winner(deliveries[1], write, name, false)
                        &&& ends(deliveries[2], write)
                    }
                },
            }
        }),
        shows(
            deliveries[0],
            write,
            played.position@,
            played.timestamp,
            played.white_time,
            played.black_time,
        ),
{
    lemma_messages(deliveries);
    let m = move_messages(write, text, played@);
    assert(deliveries[0]@ == m[0]);
    if played.opponent is Some {
        assert(deliveries[1]@ == m[1]);
        assert(deliveries[2]@ == m[2]);
        if winner_of(played.result) is Some {
            assert(deliveries[3]@ == m[3]);
            assert(deliveries[4]@ == m[4]);
            assert(deliveries[5]@ == m[5]);
            assert(deliveries[6]@ == m[6]);
        }
    } else if winner_of(played.result) is Some {
        assert(deliveries[1]@ == m[1]);
        assert(deliveries[2]@ == m[2]);
    }
}

/// After a move, what both players are shown is what the room holds: the
/// position, the time of the move, white's clock as white's and black's as
/// black's. The opponent is told the move. Where the game is over, both are
/// told who has won, and are cut off.
pub proof fn law_both_are_shown_the_room(
    session: GameInner,
    pre: Room,
    post: Room,
    text: Seq<char>,
    now: u64,
    timer: u64,
    step: GameStep,
)
    requires
        session.answers(pre, post, text, now, timer, step),
        post.wf(),
        step is Played,
    ensures
        step matches GameStep::Played { aborted, deliveries, finished, .. } && {
            let opponent = post.write_streams@[session.color.other().index()];
            let fen = position_text(game_actions(post.game));
            let white = post.remaining_time@[0];
            let black = post.remaining_time@[1];
            let result = game_outcome(game_actions(post.game));
            let n: int = if opponent is Some {
                3
            } else {
                1
            };
            &&& aborted == pre.player_timeout
            &&& finished <==> result is Some
            &&& shows(deliveries@[0], session.write, fen, now, white, black)
            &&& opponent matches Some(to) ==> forwards(deliveries@[1], to, text) && shows(
                deliveries@[2],
                to,
                fen,
                now,
                white,
                black,
            )
            &&& result is None ==> deliveries@.len() == n
            &&& result matches Some(end) ==> {
                let name = if end is WhiteCheckmates {
                    "white"@
                } else if end is BlackCheckmates {
                    "black"@
                } else {
                    "draw"@
                };
                &&& names_winner(deliveries@[n], session.write, name, false)
                &&& ends(deliveries@[n + 1], session.write)
                &&& opponent is None ==> deliveries@.len() == n + 2
                &&& opponent matches Some(to) ==> {
                    &&& deliveries@.len() == n + 4
                    &&& names_winner(deliveries@[n + 2], to, name, false)
                    &&& ends(deliveries@[n + 3], to)
                }
            }
        },
{
    lemma_every_ending_is_announced(post);
    if let GameStep::Played { aborted, timer: started, deliveries, finished } = step {
        let played = crate::room::seen_after(post, session.color);
        let m = move_messages(session.write, text, played);
        lemma_messages(deliveries@);
        assert(deliveries@.len() == m.len());
        assert forall|i: int| 0 <= i < m.len() implies deliveries@[i]@ == #[trigger] m[i] by {
            assert(deliveries_view(deliveries@)[i] == deliveries@[i]@);
        }
        assert(deliveries@[0]@ == m[0]);
        if played.opponent is Some {
            assert(deliveries@[1]@ == m[1]);
            assert(deliveries@[2]@ == m[2]);
        }
        if winner_of(played.result) is Some {
            assert(deliveries@[1]@ == m[1]);
            assert(deliveries@[2]@ == m[2]);
            if played.opponent is Some {
                assert(deliveries@[3]@ == m[3]);
                assert(deliveries@[4]@ == m[4]);
                assert(deliveries@[5]@ == m[5]);
                assert(deliveries@[6]@ == m[6]);
            }
        }
    }
}

/// When a timer goes off, its mover is told to have won on time and cut off,
/// and so is an opponent who is there; nobody else hears of it.
pub proof fn law_what_is_sent_when_time_is_up(deliveries: Seq<Delivery>, plan: TimerPlan)
    requires
        deliveries_view(deliveries) == timeout_messages(plan),
    ensures
        ({
            let name = if plan.mover is White {
                "white"@
            } else {
                "black"@
            };
            &&& names_winner(deliveries[0], plan.write, name, true)
            &&& ends(deliveries[1], plan.write)
            &&& plan.opponent is None ==> deliveries.len() == 2
            &&& plan.opponent matches Some(to) ==> {
                &&& deliveries.len() == 4
                &&& names_winner(deliveries[2], to, name, true)
                &&& ends(deliveries[3], to)
            }
        }),
{
    lemma_messages(deliveries);
    let m = timeout_messages(plan);
    assert(deliveries[0]@ == m[0]);
    assert(deliveries[1]@ == m[1]);
    if plan.opponent is Some {
        assert(deliveries[2]@ == m[2]);
        assert(deliveries[3]@ == m[3]);
    }
}

/// Whoever is to move when the time is up has lost: the timer that a move
/// starts runs for what the opponent has left, and when it goes off, both
/// players are told that the side which is not to move has won on time.
pub proof fn law_the_side_to_move_loses_on_time(
    session: GameInner,
    pre: Room,
    post: Room,
    text: Seq<char>,
    now: u64,
    timer: u64,
    step: GameStep,
    deliveries: Seq<Delivery>,
)
    requires
        session.answers(pre, post, text, now, timer, step),
        step is Played,
        step matches GameStep::Played { timer: Some(plan), .. } ==> deliveries_view(deliveries)
            == timeout_messages(plan),
    ensures
        step matches GameStep::Played { timer: started, .. } && {
            let opponent = post.write_streams@[session.color.other().index()];
            let name = if turn(game_actions(post.game)) is White {
                "black"@
            } else {
                "white"@
            };
            &&& started is Some <==> game_outcome(game_actions(post.game)) is None
            &&& started matches Some(plan) ==> {
                &&& plan.timer == timer
                &&& post.player_timeout == Some(plan.timer)
                &&& plan.after == post.remaining_time@[turn(game_actions(post.game)).index()]
                &&& names_winner(deliveries[0], session.write, name, true)
                &&& ends(deliveries[1], session.write)
                &&& opponent is None ==> deliveries.len() == 2
                &&& opponent matches Some(to) ==> {
                    &&& deliveries.len() == 4
                    &&& names_winner(deliveries[2], to, name, true)
                    &&& ends(deliveries[3], to)
                }
            }
        },
{
    law_what_comes_of_a_message(pre, session.color, session.key, text, now);
    if let PlayVerdict::Accepted(mv) = pre.verdict(session.color, session.key, text, now) {
        lemma_after_move(pre.actions(), mv);
    }
    if let GameStep::Played { timer: Some(plan), .. } = step {
        law_what_is_sent_when_time_is_up(deliveries, plan);
    }
}

/// When a match is called off, whoever is in the room is told so and then cut
/// off, white first, each whether or not the other is there; nobody else hears
/// of it.
pub proof fn law_everyone_hears_that_the_match_is_off(
    deliveries: Seq<Delivery>,
    streams: Seq<Option<u64>>,
)
    requires
        streams.len() == 2,
        deliveries_view(deliveries) == cancel_messages(streams),
    ensures
        ({
            let before: int = if streams[0] is Some {
                2
            } else {
                0
            };
            let after: int = if streams[1] is Some {
                2
            } else {
                0
            };
            &&& deliveries.len() == before + after
            &&& streams[0] matches Some(to) ==> is_called_off(deliveries[0], to) && ends(
                deliveries[1],
                to,
            )
            &&& streams[1] matches Some(to) ==> is_called_off(deliveries[before], to) && ends(
                deliveries[before + 1],
                to,
            )
        }),
{
    lemma_messages(deliveries);
    let m = cancel_messages(streams);
    if streams[0] is Some || streams[1] is Some {
        assert(deliveries[0]@ == m[0]);
        assert(deliveries[1]@ == m[1]);
    }
    if streams[0] is Some && streams[1] is Some {
        assert(deliveries[2]@ == m[2]);
        assert(deliveries[3]@ == m[3]);
    }
}

/// A message that may get lost: the match is off.
pub open spec fn is_called_off(d: Delivery, to: u64) -> bool {
    d.to == to && !d.required && d.content == Outgoing::Response(Response::GameCanceled)
}

/// Who asks for a seat gets it with a key of an active room, and is told so:
/// whoever was in the seat is cut off, and then come the welcome, the side
/// that the key stands for, and the position that the room has reached, with
/// the start of the match. Anyone else is told why not and stays in the lobby.
pub proof fn law_what_a_joining_player_is_told(
    lobby: Lobby,
    room: Room,
    room_id: usize,
    key: u64,
    step: Step,
)
    requires
        step.state == lobby.join_state(room, room_id, key),
        deliveries_view(step.deliveries@) == lobby.join_messages(room, key),
    ensures
        !room.active ==> step.state == ServerState::Lobby(lobby) && step.deliveries@.len() == 1
            && has_to_say(step.deliveries@[0], lobby.write, Response::RoomNotActive),
        room.active && !(room.keys matches Some(keys) && (keys.keys@[0] == key || keys.keys@[1]
            == key)) ==> step.state == ServerState::Lobby(lobby) && step.deliveries@.len() == 1
            && has_to_say(step.deliveries@[0], lobby.write, Response::InvalidKey),
        room.active ==> (room.keys matches Some(keys) ==> (keys.keys@[0] == key || keys.keys@[1]
            == key ==> {
            let color = if keys.keys@[0] == key {
                Color::White
            } else {
                Color::Black
            };
            let held = room.write_streams@[color.index()];
            let n: int = if held is Some {
                1
            } else {
                0
            };
            let d = step.deliveries@;
            &&& step.state == ServerState::Game(
                GameInner { key, write: lobby.write, room_id, color },
            )
            &&& d.len() == n + 3
            &&& held matches Some(previous) ==> ends(d[0], previous)
            &&& has_to_say(d[n], lobby.write, Response::Connected)
            &&& d[n + 1].to == lobby.write && d[n + 1].required
            &&& d[n + 1].content matches Outgoing::Response(Response::Color { color: name })
                && name@ == (if keys.keys@[0] == key {
                "white"@
            } else {
                "black"@
            })
            &&& d[n + 2].to == lobby.write && d[n + 2].required
            &&& d[n + 2].content matches Outgoing::Response(
                Response::Fen { fen, timestamp, white_time, black_time },
            ) && fen@ == position_text(game_actions(room.game)) && timestamp == room.start_time
                && white_time == 20000 && black_time == 0
        })),
{
    let d = step.deliveries@;
    lemma_messages(d);
    let m = lobby.join_messages(room, key);
    assert(d[0]@ == m[0]);
    if m.len() >= 3 {
        assert(d[1]@ == m[1]);
        assert(d[2]@ == m[2]);
    }
    if m.len() >= 4 {
        assert(d[3]@ == m[3]);
    }
}

/// What joining does to the room: a key of an active room seats its holder on
/// the side that the key stands for, and anything else leaves the room alone.
pub proof fn law_who_gets_which_seat(lobby: Lobby, pre: Room, post: Room, key: u64)
    requires
        lobby.joins(pre, post, key),
    ensures
        pre.active && (pre.keys matches Some(keys) && keys.keys@[0] == key) ==> seated(
            pre,
            post,
            Color::White,
            lobby.account_id,
            lobby.write,
        ),
        pre.active && (pre.keys matches Some(keys) && keys.keys@[0] != key && keys.keys@[1] == key)
            ==> seated(pre, post, Color::Black, lobby.account_id, lobby.write),
        !pre.active || !(pre.keys matches Some(keys) && (keys.keys@[0] == key || keys.keys@[1]
            == key)) ==> post == pre,
{
}

/// A token that names this server among those it is meant for lets its account
/// into the lobby, and is confirmed; a token that does not hold is answered
/// with the reason; and nothing else is answered.
pub proof fn law_what_a_token_is_answered(auth: Auth, msg: AuthMessage, step: Step)
    requires
        step.state == auth.next_state(msg),
        deliveries_view(step.deliveries@) == auth.messages(msg),
    ensures
        match msg {
            AuthMessage::Verified { audience, account_id } => {
                if exists|i: int|
                    0 <= i < audience@.len() && (#[trigger] audience@[i])@ == "game-server"@ {
                    &&& step.state == ServerState::Lobby(Lobby { account_id, write: auth.write })
                    &&& step.deliveries@.len() == 1
                    &&& has_to_say(step.deliveries@[0], auth.write, Response::TokenValidated)
                } else {
                    &&& step.state == ServerState::Auth(auth)
                    &&& step.deliveries@.len() == 0
                }
            },
            AuthMessage::Rejected { reason } => {
                &&& step.state == ServerState::Auth(auth)
                &&& step.deliveries@.len() == 1
                &&& step.deliveries@[0].to == auth.write && step.deliveries@[0].required
                &&& step.deliveries@[0].content matches Outgoing::Response(
                    Response::InvalidToken { reason: said },
                ) && said@ == reason@
            },
            AuthMessage::Other => {
                &&& step.state == ServerState::Auth(auth)
                &&& step.deliveries@.len() == 0
            },
        },
{
    lemma_messages(step.deliveries@);
    if let AuthMessage::Verified { audience, .. } = msg {
        if exists|i: int| 0 <= i < audience@.len() && (#[trigger] audience@[i])@ == "game-server"@ {
            assert(is_addressed(audience@));
        }
    }
    if step.deliveries@.len() > 0 {
        assert(step.deliveries@[0]@ == auth.messages(msg)[0]);
    }
}

/// In the lobby, a request for a room turns to that room and no other, one for
/// the time is answered with it, and a text that is no request with the
/// reason.
pub proof fn law_what_the_lobby_answers(
    lobby: Lobby,
    msg: LobbyMessage,
    elapsed: u128,
    r: Result<LobbyAction, ClockError>,
)
    requires
        lobby.replies(msg, elapsed, r),
    ensures
        msg matches LobbyMessage::Request(Request::JoinRoom { room, key }) ==> (r matches Ok(
            LobbyAction::Join { lobby: asking, room_id, key: shown },
        ) && asking == lobby && room_id == room && shown == key),
        r matches Ok(LobbyAction::Join { .. }) ==> (msg matches LobbyMessage::Request(
            Request::JoinRoom { .. },
        )),
        msg matches LobbyMessage::Request(Request::TimeSync) ==> {
            if elapsed > 0xffff_ffff_ffff_ffff {
                r matches Err(e) && e is TooLarge
            } else {
                r matches Ok(LobbyAction::Answer(step)) && step.state == ServerState::Lobby(lobby)
                    && step.deliveries@.len() == 1 && has_to_say(
                    step.deliveries@[0],
                    lobby.write,
                    Response::TimeSync { timestamp: elapsed as u64 },
                )
            }
        },
        msg matches LobbyMessage::Malformed { reason } ==> (r matches Ok(LobbyAction::Answer(step))
            && step.state == ServerState::Lobby(lobby) && step.deliveries@.len() == 1
            && step.deliveries@[0].to == lobby.write && step.deliveries@[0].required
            && (step.deliveries@[0].content matches Outgoing::Response(
            Response::InvalidRequest { reason: said },
        ) && said@ == reason@)),
        msg is Other ==> (r matches Ok(LobbyAction::Answer(step)) && step.state
            == ServerState::Lobby(lobby) && step.deliveries@.len() == 0),
{
    if let Ok(LobbyAction::Answer(step)) = r {
        lemma_messages(step.deliveries@);
        if step.deliveries@.len() > 0 {
            assert(step.deliveries@[0]@ == deliveries_view(step.deliveries@)[0]);
        }
    }
}

/// Only a text is taken as a move, and only by a clock that counts in 64 bits.
pub proof fn law_only_texts_are_moves(
    session: GameInner,
    pre: Room,
    post: Room,
    msg: GameMessage,
    now: u128,
    timer: u64,
    r: Result<GameStep, ClockError>,
)
    requires
        session.replies(pre, post, msg, now, timer, r),
    ensures
        msg is Other ==> post == pre && (r matches Ok(GameStep::Stay { deliveries })
            && deliveries@.len() == 0),
        msg is Text && now > 0xffff_ffff_ffff_ffff ==> post == pre && (r matches Err(e)
            && e is TooLarge),
        msg matches GameMessage::Text(text) ==> (now <= 0xffff_ffff_ffff_ffff ==> (r matches Ok(step)
            && session.answers(pre, post, text@, now as u64, timer, step))),
{
    if let Ok(GameStep::Stay { deliveries }) = r {
        lemma_messages(deliveries@);
    }
}

// The store.

/// A number is written in decimal: its last digit is what is left by ten, the
/// digits before it are those of the tenth part, and there is no leading zero.
pub proof fn law_how_numbers_are_written(n: nat)
    ensures
        n < 10 ==> decimal_chars(n).len() == 1 && decimal_chars(n)[0] as int == 48 + n,
        n >= 10 ==> decimal_chars(n).drop_last() == decimal_chars(n / 10)
            && decimal_chars(n).last() as int == 48 + n % 10,
        decimal_chars(n).len() >= 1,
        n > 0 ==> decimal_chars(n)[0] as int != 48,
    decreases n,
{
    if n >= 10 {
        law_how_numbers_are_written(n / 10);
        assert(decimal_chars(n).drop_last() =~= decimal_chars(n / 10));
        assert(decimal_chars(n)[0] == decimal_chars(n / 10)[0]);
    }
}

/// Each further digit counts ten times what stands before it, and itself.
pub proof fn law_what_digits_stand_for(digits: Seq<u8>, digit: u8)
    requires
        48 <= digit <= 57,
    ensures
        digits_value(Seq::empty()) == 0,
        digits_value(digits.push(digit)) == 10 * digits_value(digits) + (digit - 48),
{
    assert(digits.push(digit).drop_last() =~= digits);
}

/// Digits within the range of an index are read as the number that they stand
/// for, with a plus sign before them or without; and nothing else is read.
pub proof fn law_what_is_read_as_a_room_number(digits: Seq<u8>, bytes: Seq<u8>)
    requires
        digits.len() > 0,
        forall|i: int| 0 <= i < digits.len() ==> 48 <= #[trigger] digits[i] <= 57,
    ensures
        digits_value(digits) <= usize::MAX ==> index_of(digits) == Some(
            digits_value(digits) as usize,
        ) && index_of(seq![43u8] + digits) == Some(digits_value(digits) as usize),
        digits_value(digits) > usize::MAX ==> index_of(digits) is None && index_of(
            seq![43u8] + digits,
        ) is None,
        index_of(bytes) is Some ==> {
            &&& bytes.len() > 0
            &&& bytes[0] == 43 ==> bytes.len() > 1
            &&& 48 <= bytes[0] <= 57 || bytes[0] == 43
            &&& forall|i: int| 1 <= i < bytes.len() ==> 48 <= #[trigger] bytes[i] <= 57
        },
{
    assert forall|i: int| 0 <= i < digits.len() implies is_digit(#[trigger] digits[i]) by {
        assert(48 <= digits[i] <= 57);
    }
    assert(48 <= digits[0] <= 57);
    assert((seq![43u8] + digits).drop_first() =~= digits);
    assert((seq![43u8] + digits)[0] == 43);
    if index_of(bytes) is Some {
        if bytes[0] == 43 {
            assert forall|i: int| 1 <= i < bytes.len() implies 48 <= #[trigger] bytes[i]
                <= 57 by {
                assert(is_digit(bytes.drop_first()[i - 1]));
            }
        } else {
            assert(is_digit(bytes[0]));
            assert forall|i: int| 1 <= i < bytes.len() implies 48 <= #[trigger] bytes[i]
                <= 57 by {
                assert(is_digit(bytes[i]));
            }
        }
    }
}

/// The second value of a message is the room, as a text; each way in which it
/// is none has its own error.
pub proof fn law_what_a_notice_says(notice: Notice)
    ensures
        !notice.is_message ==> notice_room(notice) == Ok::<Option<usize>, NoticeError>(None),
        notice.is_message && notice.data@.len() < 2 ==> notice_room(notice) == Err::<
            Option<usize>,
            NoticeError,
        >(NoticeError::NoMessage),
        notice.is_message && notice.data@.len() >= 2 ==> match notice.data@[1] {
            NoticeValue::Other => notice_room(notice) == Err::<Option<usize>, NoticeError>(
                NoticeError::WrongType,
            ),
            NoticeValue::SimpleString(text) => notice_room(notice) == (match index_of(
                vstd::utf8::encode_utf8(text@),
            ) {
                Some(id) => Ok::<Option<usize>, NoticeError>(Some(id)),
                None => Err(NoticeError::NotANumber),
            }),
            NoticeValue::BulkString(bytes) => if vstd::utf8::valid_utf8(bytes@) {
                notice_room(notice) == (match index_of(bytes@) {
                    Some(id) => Ok::<Option<usize>, NoticeError>(Some(id)),
                    None => Err(NoticeError::NotANumber),
                })
            } else {
                notice_room(notice) == Err::<Option<usize>, NoticeError>(NoticeError::NotUtf8)
            },
        },
{
}

/// A room that is offered has its keys stored under its own name, as they are,
/// and is then listed by its number.
pub proof fn law_what_the_store_is_told(
    commands: Seq<StoreCommand>,
    set: StoreCommand,
    append: StoreCommand,
    id: usize,
    keys: Keys,
)
    requires
        offers_room(commands, id, keys),
        sets_keys(set, id, keys),
        appends_room(append, id),
    ensures
        commands.len() == 2,
        sets_keys(commands[0], id, keys),
        appends_room(commands[1], id),
        set matches StoreCommand::SetKeys { name, keys: sent } && name@ == "room:"@ + decimal_chars(
            id as nat,
        ) + ":keys"@ && sent == keys,
        append matches StoreCommand::AppendRoom { entry } && entry@ == decimal_chars(id as nat),
        keys_name_chars(id as nat) == "room:"@ + decimal_chars(id as nat) + ":keys"@,
{
}

// The record.

/// Every move and every declared draw of a game goes into its record, in
/// order, and nothing else does; a match without a result ends in the
/// resignation of the side to move.
pub proof fn law_what_goes_into_the_record(
    actions: Seq<GameAction>,
    action: GameAction,
    to_move: Color,
)
    ensures
        steps_of_actions(Seq::empty()).len() == 0,
        action matches GameAction::MakeMove(mv) ==> steps_of_actions(actions.push(action))
            == steps_of_actions(actions).push(RecordStep::Move(mv)),
        action is DeclareDraw ==> steps_of_actions(actions.push(action)) == steps_of_actions(
            actions,
        ).push(RecordStep::AgreeDraw),
        action is OfferDraw || action is AcceptDraw || action is Resign ==> steps_of_actions(
            actions.push(action),
        ) == steps_of_actions(actions),
        steps_of_match(actions, true, to_move) == steps_of_actions(actions),
        steps_of_match(actions, false, to_move) == steps_of_actions(actions).push(
            RecordStep::Resign(to_move),
        ),
{
    assert(actions.push(action).drop_last() =~= actions);
}

/// The record takes a step where the board takes it, and then holds it after
/// what it held; the first step that is not taken decides the error.
pub proof fn law_how_the_record_grows(steps: Seq<RecordStep>, step: RecordStep)
    ensures
        recorded(Seq::empty()) == Ok::<Seq<RecordEntry>, RecordError>(Seq::empty()),
        recorded(steps) matches Err(e) ==> recorded(steps.push(step)) == Err::<
            Seq<RecordEntry>,
            RecordError,
        >(e),
        recorded(steps) matches Ok(entries) ==> match step {
            RecordStep::Move(mv) => recorded(steps.push(step)) == (if record_accepts(
                entries,
                move_chars(mv),
            ) {
                Ok::<Seq<RecordEntry>, RecordError>(
                    entries.push(RecordEntry::Move(move_chars(mv))),
                )
            } else {
                Err(RecordError::MoveRefused)
            }),
            RecordStep::AgreeDraw => recorded(steps.push(step)) == (if record_ongoing(entries) {
                Ok::<Seq<RecordEntry>, RecordError>(entries.push(RecordEntry::AgreeDraw))
            } else {
                Err(RecordError::DrawAfterEnd)
            }),
            RecordStep::Resign(side) => recorded(steps.push(step)) == (if record_ongoing(entries) {
                Ok::<Seq<RecordEntry>, RecordError>(entries.push(RecordEntry::Resign(side)))
            } else {
                Err(RecordError::ResignAfterEnd)
            }),
        },
{
    assert(steps.push(step).drop_last() =~= steps);
}

/// The text of a match is that of its record and its tags, and fails only with
/// the record or for want of one of the six tags.
pub proof fn law_what_the_text_is_made_of(
    steps: Seq<RecordStep>,
    tags: Seq<(Seq<char>, Seq<char>)>,
    given: Seq<(String, String)>,
    i: int,
)
    ensures
        recorded(steps) matches Err(e) ==> match_text(steps, tags) == Err::<Seq<char>, RecordError>(
            e,
        ),
        recorded(steps) matches Ok(entries) ==> match_text(steps, tags) == (if tags_complete(tags) {
            Ok::<Seq<char>, RecordError>(pgn_text(entries, tags))
        } else {
            Err(RecordError::TagMissing)
        }),
        tags_complete(tags) <==> is_tagged(tags, "Event"@) && is_tagged(tags, "Site"@)
            && is_tagged(tags, "Date"@) && is_tagged(tags, "Round"@) && is_tagged(tags, "White"@)
            && is_tagged(tags, "Black"@),
        tags_view(given).len() == given.len(),
        0 <= i < given.len() ==> tags_view(given)[i] == (given[i].0@, given[i].1@),
        unknown_tags() == seq![
            ("Event"@, "?"@),
            ("Site"@, "?"@),
            ("Date"@, "????.??.??"@),
            ("Round"@, "?"@),
            ("White"@, "?"@),
            ("Black"@, "?"@),
        ],
{
    let needed = crate::record::needed_tags();
    if tags_complete(tags) {
        assert(is_tagged(tags, needed[0]));
        assert(is_tagged(tags, needed[1]));
        assert(is_tagged(tags, needed[2]));
        assert(is_tagged(tags, needed[3]));
        assert(is_tagged(tags, needed[4]));
        assert(is_tagged(tags, needed[5]));
    }
    if is_tagged(tags, "Event"@) && is_tagged(tags, "Site"@) && is_tagged(tags, "Date"@)
        && is_tagged(tags, "Round"@) && is_tagged(tags, "White"@) && is_tagged(tags, "Black"@) {
        assert forall|k: int|
            #![trigger needed[k]]
            0 <= k < needed.len() implies exists|j: int|
            #![trigger tags[j]]
            0 <= j < tags.len() && tags[j].0 == needed[k] by {
            assert(is_tagged(tags, needed[k]));
        }
    }
}

/// A tag of this name is given.
pub open spec fn is_tagged(tags: Seq<(Seq<char>, Seq<char>)>, name: Seq<char>) -> bool {
    exists|j: int| #![trigger tags[j]] 0 <= j < tags.len() && tags[j].0 == name
}

} // verus!
