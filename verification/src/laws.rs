//! What holds of rooms and sessions over several steps.

use crate::game::{GameAction, GameResult};
#[allow(unused_imports)]
use crate::game::{game_outcome, moves_made, position_text, turn};
use crate::moves::MoveValue;
use crate::record::RecordStep;
#[allow(unused_imports)]
use crate::record::{steps_of_actions, steps_of_match};
use crate::room::Room;
#[allow(unused_imports)]
use crate::room::{
    cleared, lemma_after_move, moved, moves_then_draw, seated, unplugged, PlayVerdict, PlayedView,
};
use crate::session::{Auth, AuthMessage, GameInner, GameStep, Lobby, ServerState};
#[allow(unused_imports)]
use crate::session::{
    closes, deliveries_view, ending_of, is_addressed, may_send, move_messages, must_send, position_message,
    stage, winner_of,
};
#[allow(unused_imports)]
use crate::messages::response::ResponseView;
use crate::side::Color;
use vstd::prelude::*;

verus! {

/// The sides take turns: once a player's move was taken, it is the opponent's
/// turn, and nothing that the same player sends next is taken.
pub proof fn law_players_take_turns(
    pre: Room,
    post: Room,
    color: Color,
    key: u64,
    text: Seq<char>,
    now: u64,
    mv: MoveValue,
    timer: u64,
    next_key: u64,
    next_text: Seq<char>,
    later: u64,
)
    requires
        pre.verdict(color, key, text, now) == PlayVerdict::Accepted(mv),
        moved(pre, post, color, mv, now, timer),
    ensures
        turn(post.actions()) == color.other(),
        post.verdict(color, next_key, next_text, later) !is Accepted,
        post.time_for(color, later) != 0 && post.key_of(color) == Some(next_key) ==> post.verdict(
            color,
            next_key,
            next_text,
            later,
        ) is OutOfTurn,
{
    lemma_after_move(pre.actions(), mv);
}

/// Whoever mates has won: a game that ends in mate is announced as won by the
/// player who made the last move.
pub proof fn law_the_mover_mates(
    pre: Room,
    post: Room,
    color: Color,
    key: u64,
    text: Seq<char>,
    now: u64,
    mv: MoveValue,
    timer: u64,
)
    requires
        pre.verdict(color, key, text, now) == PlayVerdict::Accepted(mv),
        moved(pre, post, color, mv, now, timer),
        game_outcome(post.actions()) == Some(GameResult::WhiteCheckmates) || game_outcome(
            post.actions(),
        ) == Some(GameResult::BlackCheckmates),
    ensures
        winner_of(game_outcome(post.actions())) == Some(color.label()),
{
    lemma_after_move(pre.actions(), mv);
}

/// A move that is not taken changes nothing, and only the player who sent it
/// hears of it, in one message at most.
pub proof fn law_refusals_stay_private(
    session: GameInner,
    pre: Room,
    post: Room,
    text: Seq<char>,
    now: u64,
    timer: u64,
    step: GameStep,
)
    requires
        session.answers(pre, post, text, now, timer, step),
        pre.verdict(session.color, session.key, text, now) !is Accepted,
    ensures
        post == pre,
        step !is Played,
        ({
            let messages = match step {
                GameStep::Stay { deliveries } => deliveries_view(deliveries@),
                GameStep::Expel { deliveries } => deliveries_view(deliveries@),
                GameStep::Played { deliveries, .. } => deliveries_view(deliveries@),
            };
            messages.len() <= 1 && forall|i: int|
                0 <= i < messages.len() ==> (#[trigger] messages[i]).to == session.write
        }),
{
}

/// After a move both players are shown the same position and the same clocks,
/// and the opponent is first told the move, as it was sent.
pub proof fn law_both_see_the_same_position(
    write: u64,
    text: Seq<char>,
    played: PlayedView,
    opponent: u64,
)
    requires
        played.opponent == Some(opponent),
    ensures
        move_messages(write, text, played)[0] == may_send(write, position_message(played)),
        move_messages(write, text, played)[1] == may_send(
            opponent,
            ResponseView::Move { move_: text },
        ),
        move_messages(write, text, played)[2] == may_send(opponent, position_message(played)),
{
}

/// When a move ends the game, both players are told the same winner and both
/// connections are closed; otherwise neither happens.
pub proof fn law_both_hear_the_end(write: u64, text: Seq<char>, played: PlayedView, opponent: u64)
    requires
        played.opponent == Some(opponent),
    ensures
        ({
            let messages = move_messages(write, text, played);
            match winner_of(played.result) {
                Some(winner) => {
                    let over = ResponseView::GameOver { winner, timeout: false };
                    &&& messages.len() == 7
                    &&& messages[3] == may_send(write, over)
                    &&& messages[4] == closes(write)
                    &&& messages[5] == may_send(opponent, over)
                    &&& messages[6] == closes(opponent)
                },
                None => messages.len() == 3,
            }
        }),
{
}

/// After a move the game is either over, and no timer runs, or undecided, and
/// a timer runs against the opponent.
pub proof fn law_a_timer_runs_while_undecided(
    pre: Room,
    post: Room,
    session: GameInner,
    mv: MoveValue,
    now: u64,
    timer: u64,
)
    requires
        moved(pre, post, session.color, mv, now, timer),
    ensures
        post.player_timeout is Some <==> game_outcome(post.actions()) is None,
        session.timer_after(post, timer) is Some <==> post.player_timeout is Some,
        session.timer_after(post, timer) matches Some(plan) ==> {
            &&& post.player_timeout == Some(plan.timer)
            &&& plan.mover == session.color
            &&& plan.after == pre.remaining_time@[session.color.other().index()]
        },
{
}

/// Nobody is turned away for want of time before the timer has gone off: until
/// then, the player to move has time left.
pub proof fn law_no_one_is_late_before_the_timer(
    pre: Room,
    post: Room,
    session: GameInner,
    mv: MoveValue,
    now: u64,
    timer: u64,
    key: u64,
    text: Seq<char>,
    later: u64,
)
    requires
        moved(pre, post, session.color, mv, now, timer),
        session.timer_after(post, timer) is Some,
        now <= later <= now + session.timer_after(post, timer)->0.after,
    ensures
        post.time_for(session.color.other(), later) > 0,
        post.verdict(session.color.other(), key, text, later) !is OutOfTime,
{
    lemma_after_move(pre.actions(), mv);
}

/// Once the game is over, no move is taken.
pub proof fn law_no_move_after_the_end(
    room: Room,
    color: Color,
    key: u64,
    text: Seq<char>,
    now: u64,
)
    requires
        game_outcome(room.actions()) is Some,
    ensures
        room.verdict(color, key, text, now) !is Accepted,
{
}

/// A match in which a move was made is not called off: only a room without
/// moves is.
pub proof fn law_a_started_match_goes_on(
    pre: Room,
    post: Room,
    color: Color,
    mv: MoveValue,
    now: u64,
    timer: u64,
)
    requires
        moved(pre, post, color, mv, now, timer),
    ensures
        post.actions().len() > 0,
        moves_made(post.actions()) == moves_made(pre.actions()) + 1,
{
    lemma_after_move(pre.actions(), mv);
}

/// A cleared room keeps nothing of the match before: it is the same whatever
/// that was.
pub proof fn law_clearing_forgets(pre: Room, other: Room, post: Room, post_other: Room, keys: [u64; 2])
    requires
        pre.id == other.id,
        cleared(pre, post, keys),
        cleared(other, post_other, keys),
    ensures
        post.id == post_other.id,
        post.active == post_other.active,
        post.players@ == post_other.players@,
        post.actions() == post_other.actions(),
        post.keys == post_other.keys,
        post.start_time == post_other.start_time,
        post.last_move_time == post_other.last_move_time,
        post.remaining_time@ == post_other.remaining_time@,
        post.write_streams@ == post_other.write_streams@,
        post.player_timeout == post_other.player_timeout,
{
}

/// Nobody gets into a cleared room before the next match is made for it,
/// whatever the key.
pub proof fn law_a_cleared_room_is_shut(
    pre: Room,
    post: Room,
    keys: [u64; 2],
    lobby: Lobby,
    room_id: usize,
    key: u64,
)
    requires
        cleared(pre, post, keys),
    ensures
        lobby.join_state(post, room_id, key) == ServerState::Lobby(lobby),
        lobby.join_messages(post, key) == seq![must_send(lobby.write, ResponseView::RoomNotActive)],
{
}

/// A session that is left over from the match before has lost its seat: until
/// the next match has its first move, whoever has joined it by then, its moves
/// are answered with an invalid key, and its end leaves the room alone.
pub proof fn law_leftover_sessions_are_expelled(
    room: Room,
    session: GameInner,
    text: Seq<char>,
    now: u64,
)
    requires
        room.wf(),
        room.actions().len() == 0,
        room.key_of(session.color) matches Some(key) && key != session.key,
    ensures
        room.verdict(session.color, session.key, text, now) is InvalidKey,
        room.outdated(session.color, session.key),
{
}

/// At no point of a match does a session without the key of its seat have a
/// move taken, and its end leaves the room alone.
pub proof fn law_without_the_key_no_move_is_taken(
    room: Room,
    session: GameInner,
    text: Seq<char>,
    now: u64,
)
    requires
        room.key_of(session.color) matches Some(key) && key != session.key,
    ensures
        ({
            let verdict = room.verdict(session.color, session.key, text, now);
            verdict is InvalidKey || verdict is OutOfTime
        }),
        room.outdated(session.color, session.key),
{
}

/// Over its answer to a message, a session gives up its seat exactly when it
/// was expelled or when a message that it had to send was lost; a match is
/// finished exactly when a move ended it.
pub proof fn law_who_gives_up_the_seat(step: GameStep, delivered: bool)
    ensures
        ending_of(step, delivered) is GiveUp <==> step is Expel || (step is Stay && !delivered),
        ending_of(step, delivered) is Finish <==> (step matches GameStep::Played { finished, .. }
            && finished),
        ending_of(step, delivered) !is Fail,
{
}

/// Where the keys of a room differ, each opens its own seat and no other
/// number opens any.
pub proof fn law_each_key_opens_its_seat(room: Room, key: u64)
    requires
        room.keys is Some,
        room.keys->0.keys[0] != room.keys->0.keys[1],
    ensures
        room.seat_for(room.keys->0.keys[0]) == Some(Color::White),
        room.seat_for(room.keys->0.keys[1]) == Some(Color::Black),
        key != room.keys->0.keys[0] && key != room.keys->0.keys[1] ==> room.seat_for(key) is None,
{
}

/// A player may come back: joining changes nothing about the match. Every move
/// is judged as before, the position is the same, and whoever joins next with
/// the same key takes the same seat and cuts the connection off.
pub proof fn law_joining_keeps_the_match(
    pre: Room,
    post: Room,
    seat: Color,
    account_id: String,
    connection: u64,
    key: u64,
    mover: Color,
    mover_key: u64,
    text: Seq<char>,
    now: u64,
    lobby: Lobby,
    room_id: usize,
)
    requires
        pre.active,
        pre.seat_for(key) == Some(seat),
        seated(pre, post, seat, account_id, connection),
    ensures
        post.verdict(mover, mover_key, text, now) == pre.verdict(mover, mover_key, text, now),
        post.actions() == pre.actions(),
        lobby.join_state(post, room_id, key) == lobby.join_state(pre, room_id, key),
        lobby.join_state(post, room_id, key) == ServerState::Game(
            GameInner { key, write: lobby.write, room_id, color: seat },
        ),
        lobby.join_messages(post, key)[0] == closes(connection),
        post.write_streams@[seat.other().index()] == pre.write_streams@[seat.other().index()],
        post.players@[seat.other().index()] == pre.players@[seat.other().index()],
{
}

/// A player who leaves changes nothing about the match, and the opponent stays
/// connected.
pub proof fn law_leaving_keeps_the_match(
    pre: Room,
    post: Room,
    seat: Color,
    mover: Color,
    mover_key: u64,
    text: Seq<char>,
    now: u64,
)
    requires
        unplugged(pre, post, seat),
    ensures
        post.verdict(mover, mover_key, text, now) == pre.verdict(mover, mover_key, text, now),
        post.actions() == pre.actions(),
        post.write_streams@[seat.index()] is None,
        post.write_streams@[seat.other().index()] == pre.write_streams@[seat.other().index()],
{
}

/// A room has nobody left exactly when both players have gone.
pub proof fn law_both_must_leave(pre: Room, mid: Room, post: Room, first: Color)
    requires
        unplugged(pre, mid, first),
        unplugged(mid, post, first.other()),
    ensures
        post.deserted(),
        mid.deserted() <==> pre.write_streams@[first.other().index()] is None,
{
}

/// A session only goes forward, one stage at a time: into the lobby with a
/// token that is meant for this server, and into a game with a key of an
/// active room.
pub proof fn law_sessions_go_forward(
    auth: Auth,
    msg: AuthMessage,
    lobby: Lobby,
    room: Room,
    room_id: usize,
    key: u64,
)
    ensures
        0 <= stage(auth.next_state(msg)) <= 1,
        stage(auth.next_state(msg)) == 1 <==> (msg matches AuthMessage::Verified { audience, .. }
            && is_addressed(audience@)),
        1 <= stage(lobby.join_state(room, room_id, key)) <= 2,
        stage(lobby.join_state(room, room_id, key)) == 2 <==> room.active && room.seat_for(key)
            is Some,
{
}

/// A game of moves that may end in a draw is recorded action by action.
proof fn lemma_steps_follow_actions(actions: Seq<GameAction>)
    requires
        moves_then_draw(actions),
    ensures
        steps_of_actions(actions).len() == actions.len(),
        forall|i: int|
            0 <= i < actions.len() ==> (#[trigger] steps_of_actions(actions)[i] == match actions[i] {
                GameAction::MakeMove(mv) => RecordStep::Move(mv),
                _ => RecordStep::AgreeDraw,
            }),
    decreases actions.len(),
{
    if actions.len() > 0 {
        let before = actions.drop_last();
        assert forall|i: int| 0 <= i < before.len() implies {
            ||| #[trigger] before[i] is MakeMove
            ||| before[i] is DeclareDraw && i == before.len() - 1
        } by {
            assert(before[i] == actions[i]);
        }
        lemma_steps_follow_actions(before);
        assert(actions.last() == actions[actions.len() - 1]);
        assert forall|i: int| 0 <= i < actions.len() implies (#[trigger] steps_of_actions(actions)[i]
            == match actions[i] {
            GameAction::MakeMove(mv) => RecordStep::Move(mv),
            _ => RecordStep::AgreeDraw,
        }) by {
            if i < before.len() {
                assert(before[i] == actions[i]);
                assert(steps_of_actions(before)[i] == steps_of_actions(actions)[i]);
            }
        }
    }
}

/// The record of a match in a room holds every action of its game, in order,
/// and nothing else but the resignation of a match without a result.
pub proof fn law_the_record_is_complete(room: Room)
    requires
        room.wf(),
    ensures
        ({
            let actions = room.actions();
            let ended = game_outcome(actions) is Some;
            let steps = steps_of_match(actions, ended, turn(actions));
            &&& steps.len() == actions.len() + (if ended {
                0int
            } else {
                1int
            })
            &&& forall|i: int|
                0 <= i < actions.len() ==> (#[trigger] steps[i] == match actions[i] {
                    GameAction::MakeMove(mv) => RecordStep::Move(mv),
                    _ => RecordStep::AgreeDraw,
                })
            &&& !ended ==> steps.last() == RecordStep::Resign(turn(actions))
        }),
{
    let actions = room.actions();
    lemma_steps_follow_actions(actions);
    let ended = game_outcome(actions) is Some;
    let steps = steps_of_match(actions, ended, turn(actions));
    assert forall|i: int| 0 <= i < actions.len() implies (#[trigger] steps[i] == match actions[i] {
        GameAction::MakeMove(mv) => RecordStep::Move(mv),
        _ => RecordStep::AgreeDraw,
    }) by {
        assert(steps[i] == steps_of_actions(actions)[i]);
    }
}

/// A loss on time is recorded as it was announced: the player who moved last
/// is named as the winner, and the opponent is recorded as having resigned.
pub proof fn law_a_loss_on_time_is_recorded_as_announced(
    pre: Room,
    post: Room,
    session: GameInner,
    key: u64,
    text: Seq<char>,
    now: u64,
    mv: MoveValue,
    timer: u64,
)
    requires
        pre.verdict(session.color, key, text, now) == PlayVerdict::Accepted(mv),
        moved(pre, post, session.color, mv, now, timer),
        game_outcome(post.actions()) is None,
    ensures
        session.timer_after(post, timer) matches Some(plan) && steps_of_match(
            post.actions(),
            false,
            turn(post.actions()),
        ).last() == RecordStep::Resign(plan.mover.other()),
{
    lemma_after_move(pre.actions(), mv);
}

} // verus!
