//! What holds of a room over a whole game, of a session over everything that
//! its client sends, and of the store over any number of commands.

use crate::clock::{ClockError, INCREMENT, INITIAL_TIME};
use crate::game::GameAction;
#[allow(unused_imports)]
use crate::game::turn;
use crate::keys::Keys;
use crate::moves::MoveValue;
use crate::room::{Room, StoreCommand, StoreView};
#[allow(unused_imports)]
use crate::room::{
    after_move, appends_room, cleared, lemma_after_move, moved, offers_room, same_but_keys, seated,
    sets_keys, unplugged, PlayVerdict,
};
use crate::session::{
    AuthMessage, GameInner, GameMessage, GameStep, LobbyAction, LobbyMessage, ServerState,
};
#[allow(unused_imports)]
use crate::session::{is_addressed, stage};
use crate::side::Color;
#[allow(unused_imports)]
use crate::store::{decimal_chars, keys_name_chars, law_keys_names_differ};
use vstd::prelude::*;

verus! {

/// What happens in a room between two clearings.
pub enum RoomEvent {
    /// A session that has a seat takes a message.
    Message {
        session: GameInner,
        msg: GameMessage,
        now: u128,
        timer: u64,
        reply: Result<GameStep, ClockError>,
    },
    /// Something that does not touch the game or its clocks: a match is
    /// begun, a player comes or goes, or a timer goes off.
    Aside,
}

/// A move that was taken.
pub struct TakenMove {
    pub color: Color,
    pub mv: MoveValue,
    pub now: u64,
}

/// Neither the game nor its clocks were touched.
pub open spec fn undisturbed(pre: Room, post: Room) -> bool {
    &&& post.game == pre.game
    &&& post.remaining_time == pre.remaining_time
    &&& post.last_move_time == pre.last_move_time
}

/// The event leads from one room to the other.
pub open spec fn happens(pre: Room, post: Room, event: RoomEvent) -> bool {
    match event {
        RoomEvent::Message { session, msg, now, timer, reply } => session.fits(pre, msg, now)
            && session.replies(pre, post, msg, now, timer, reply),
        RoomEvent::Aside => undisturbed(pre, post),
    }
}

/// The move that is taken when this happens in this room.
pub open spec fn taken_move(pre: Room, event: RoomEvent) -> Option<TakenMove> {
    match event {
        RoomEvent::Message { session, msg: GameMessage::Text(text), now, .. } => if now
            <= u64::MAX {
            match pre.verdict(session.color, session.key, text@, now as u64) {
                PlayVerdict::Accepted(mv) => Some(
                    TakenMove { color: session.color, mv, now: now as u64 },
                ),
                _ => None,
            }
        } else {
            None
        },
        _ => None,
    }
}

/// The room went through these states, one event after the other.
pub open spec fn goes_through(rooms: Seq<Room>, events: Seq<RoomEvent>) -> bool {
    &&& rooms.len() == events.len() + 1
    &&& forall|i: int|
        0 <= i < events.len() ==> happens(rooms[i], rooms[i + 1], #[trigger] events[i])
}

/// The moves that were taken, in their order.
pub open spec fn taken(rooms: Seq<Room>, events: Seq<RoomEvent>) -> Seq<TakenMove>
    decreases events.len(),
{
    if events.len() == 0 {
        Seq::empty()
    } else {
        let before = taken(rooms, events.drop_last());
        match taken_move(rooms[events.len() - 1], events.last()) {
            Some(t) => before.push(t),
            None => before,
        }
    }
}

/// The moves among the actions of a game.
pub open spec fn moves_of(actions: Seq<GameAction>) -> Seq<MoveValue>
    decreases actions.len(),
{
    if actions.len() == 0 {
        Seq::empty()
    } else {
        match actions.last() {
            GameAction::MakeMove(mv) => moves_of(actions.drop_last()).push(mv),
            _ => moves_of(actions.drop_last()),
        }
    }
}

/// The side that is to move after this many moves, where this side began.
pub open spec fn alternate(first: Color, n: int) -> Color {
    if n % 2 == 0 {
        first
    } else {
        first.other()
    }
}

/// What a side has on the clock after these moves, the first of which was the
/// first of the match: for each of its own moves but that one, it got the
/// increment and gave the time since the move before.
pub open spec fn clock_after(moves: Seq<TakenMove>, side: Color) -> int
    decreases moves.len(),
{
    if moves.len() == 0 {
        INITIAL_TIME as int
    } else {
        let before = clock_after(moves.drop_last(), side);
        if moves.len() >= 2 && moves.last().color == side {
            before + INCREMENT - (moves.last().now - moves[moves.len() - 2].now)
        } else {
            before
        }
    }
}

/// A move that is taken changes the room as `moved` says, and whatever else
/// happens leaves game and clocks alone.
proof fn lemma_one_event(pre: Room, post: Room, event: RoomEvent)
    requires
        happens(pre, post, event),
    ensures
        match taken_move(pre, event) {
            Some(t) => {
                &&& exists|timer: u64| #[trigger] moved(pre, post, t.color, t.mv, t.now, timer)
                &&& t.color == turn(pre.actions())
                &&& pre.time_for(t.color, t.now) > 0
                &&& pre.clocks_fit(t.color, t.now)
            },
            None => undisturbed(pre, post),
        },
{
    if let RoomEvent::Message { session, msg, now, timer, reply } = event {
        if let Some(t) = taken_move(pre, event) {
            assert(moved(pre, post, t.color, t.mv, t.now, timer));
        }
    }
}

/// The part of a history before its last event.
proof fn lemma_history_before(rooms: Seq<Room>, events: Seq<RoomEvent>)
    requires
        goes_through(rooms, events),
        events.len() > 0,
    ensures
        goes_through(rooms.drop_last(), events.drop_last()),
        taken(rooms.drop_last(), events.drop_last()) == taken(rooms, events.drop_last()),
        rooms.drop_last().last() == rooms[events.len() - 1],
        happens(rooms[events.len() - 1], rooms.last(), events.last()),
{
    let before = events.drop_last();
    assert forall|i: int| 0 <= i < before.len() implies happens(
        rooms.drop_last()[i],
        rooms.drop_last()[i + 1],
        #[trigger] before[i],
    ) by {
        assert(before[i] == events[i]);
    }
    lemma_taken_looks_back(rooms, before);
    assert(events.last() == events[events.len() - 1]);
}

/// The last state of a room says nothing about the moves taken before it.
proof fn lemma_taken_looks_back(rooms: Seq<Room>, events: Seq<RoomEvent>)
    requires
        events.len() < rooms.len(),
    ensures
        taken(rooms.drop_last(), events) == taken(rooms, events),
    decreases events.len(),
{
    if events.len() > 0 {
        lemma_taken_looks_back(rooms, events.drop_last());
    }
}

/// A move, and a draw that may follow it, come after all that was done before.
proof fn lemma_actions_grow(actions: Seq<GameAction>, mv: MoveValue)
    ensures
        after_move(actions, mv).len() > actions.len(),
        after_move(actions, mv).take(actions.len() as int) == actions,
        moves_of(after_move(actions, mv)) == moves_of(actions).push(mv),
{
    let moved = actions.push(GameAction::MakeMove(mv));
    assert(moved.drop_last() =~= actions);
    assert(moved.push(GameAction::DeclareDraw).drop_last() =~= moved);
    reveal_with_fuel(moves_of, 3);
    assert(after_move(actions, mv).take(actions.len() as int) =~= actions);
}

/// The sides take turns over a whole game: what was done in a room stays, the
/// moves added to it are those that were taken, in their order, and they were
/// made by the two sides in turn, beginning with the side that was to move.
/// So no player has two moves taken in a row.
pub proof fn law_a_game_alternates(rooms: Seq<Room>, events: Seq<RoomEvent>)
    requires
        goes_through(rooms, events),
    ensures
        ({
            let first = rooms[0].actions();
            let last = rooms.last().actions();
            let moves = taken(rooms, events);
            &&& first.len() <= last.len()
            &&& last.take(first.len() as int) == first
            &&& moves_of(last) == moves_of(first) + moves.map_values(|t: TakenMove| t.mv)
            &&& first.len() == 0 ==> turn(first) == Color::White
            &&& turn(last) == alternate(turn(first), moves.len() as int)
            &&& forall|k: int|
                0 <= k < moves.len() ==> (#[trigger] moves[k]).color == alternate(turn(first), k)
            &&& forall|j: int, k: int|
                0 <= j < moves.len() && k == j + 1 && k < moves.len() ==> (
                #[trigger] moves[k]).color == (#[trigger] moves[j]).color.other()
        }),
    decreases events.len(),
{
    let first = rooms[0].actions();
    let last = rooms.last().actions();
    let moves = taken(rooms, events);
    if events.len() == 0 {
        assert(last.take(first.len() as int) =~= first);
        assert(moves_of(last) =~= moves_of(first) + moves.map_values(|t: TakenMove| t.mv));
    } else {
        lemma_history_before(rooms, events);
        law_a_game_alternates(rooms.drop_last(), events.drop_last());
        let pre = rooms[events.len() - 1];
        let before = taken(rooms, events.drop_last());
        lemma_one_event(pre, rooms.last(), events.last());
        if let Some(t) = taken_move(pre, events.last()) {
            lemma_actions_grow(pre.actions(), t.mv);
            lemma_after_move(pre.actions(), t.mv);
            assert(last.take(first.len() as int) =~= last.take(pre.actions().len() as int).take(
                first.len() as int,
            ));
            assert(moves.map_values(|t: TakenMove| t.mv) =~= before.map_values(
                |t: TakenMove| t.mv,
            ).push(t.mv));
            assert(moves_of(last) =~= moves_of(first) + moves.map_values(|t: TakenMove| t.mv));
            assert forall|k: int| 0 <= k < moves.len() implies (#[trigger] moves[k]).color
                == alternate(turn(first), k) by {
                if k < before.len() {
                    assert(moves[k] == before[k]);
                }
            }
        }
    }
}

/// A player who is not to move changes nothing, at any point of a game. With
/// the key of the seat and time on the clock, the answer is that it is not the
/// player's turn; without time there is none.
pub proof fn law_out_of_turn_changes_nothing(
    rooms: Seq<Room>,
    events: Seq<RoomEvent>,
    i: int,
    session: GameInner,
    text: String,
    now: u64,
    timer: u64,
    reply: Result<GameStep, ClockError>,
)
    requires
        goes_through(rooms, events),
        0 <= i < events.len(),
        events[i] == (RoomEvent::Message {
            session,
            msg: GameMessage::Text(text),
            now: now as u128,
            timer,
            reply,
        }),
        turn(rooms[i].actions()) != session.color,
    ensures
        rooms[i + 1] == rooms[i],
        reply matches Ok(step) && step !is Played,
        rooms[i].key_of(session.color) == Some(session.key) ==> {
            let verdict = rooms[i].verdict(session.color, session.key, text@, now);
            verdict is OutOfTurn || verdict is OutOfTime
        },
{
    assert(happens(rooms[i], rooms[i + 1], events[i]));
}

/// What the clocks show over a whole game: a side has the time that it began
/// with, and for each of its moves after the first of the match the increment
/// less the time since the move before. Messages that are not taken as moves
/// count for nothing.
pub proof fn law_clocks_over_a_game(rooms: Seq<Room>, events: Seq<RoomEvent>, side: Color)
    requires
        goes_through(rooms, events),
        rooms[0].wf(),
        rooms[0].actions().len() == 0,
    ensures
        ({
            let moves = taken(rooms, events);
            &&& rooms.last().remaining_time@[side.index()] == clock_after(moves, side)
            &&& rooms.last().last_move_time == (if moves.len() == 0 {
                0
            } else {
                moves.last().now
            })
            &&& rooms.last().actions().len() == 0 <==> moves.len() == 0
            &&& forall|j: int, k: int|
                0 <= j <= k < moves.len() ==> (#[trigger] moves[j]).now <= (
                #[trigger] moves[k]).now
        }),
    decreases events.len(),
{
    if events.len() > 0 {
        lemma_history_before(rooms, events);
        law_clocks_over_a_game(rooms.drop_last(), events.drop_last(), side);
        let pre = rooms[events.len() - 1];
        let post = rooms.last();
        let before = taken(rooms, events.drop_last());
        let moves = taken(rooms, events);
        lemma_one_event(pre, post, events.last());
        if let Some(t) = taken_move(pre, events.last()) {
            law_clocks_over_a_game(rooms.drop_last(), events.drop_last(), t.color);
            lemma_after_move(pre.actions(), t.mv);
            assert(moves.drop_last() =~= before);
            assert(moves.last() == t);
            if before.len() > 0 {
                assert(moves[moves.len() - 2] == before.last());
            }
            assert forall|j: int, k: int| 0 <= j <= k < moves.len() implies (
            #[trigger] moves[j]).now <= (#[trigger] moves[k]).now by {
                if j < before.len() {
                    assert(moves[j] == before[j]);
                    assert(before[j].now <= before[before.len() - 1].now);
                }
                if k < before.len() {
                    assert(moves[k] == before[k]);
                }
            }
        }
    }
}

/// Whoever comes or goes does not touch the game or its clocks; nor do a match
/// that is made or begun, new keys, or a timer that goes off.
pub proof fn law_comings_and_goings_are_asides(
    pre: Room,
    post: Room,
    color: Color,
    account_id: String,
    connection: u64,
)
    requires
        seated(pre, post, color, account_id, connection) || unplugged(pre, post, color)
            || same_but_keys(pre, post) || post == (Room { active: true, ..pre }) || post == (Room {
            keys: post.keys,
            start_time: post.start_time,
            ..pre
        }) || post == (Room { player_timeout: None, ..pre }),
    ensures
        happens(pre, post, RoomEvent::Aside),
{
}

/// Clearing a room again changes nothing but its keys, and there is no timer
/// to stop.
pub proof fn law_clearing_again_changes_only_the_keys(
    pre: Room,
    mid: Room,
    post: Room,
    keys: [u64; 2],
    new_keys: [u64; 2],
)
    requires
        cleared(pre, mid, keys),
        cleared(mid, post, new_keys),
    ensures
        post.keys == Some(Keys { keys: new_keys, timestamp: 0 }),
        mid.player_timeout is None,
        post.id == mid.id,
        post.active == mid.active,
        post.players@ == mid.players@,
        post.actions() == mid.actions(),
        post.start_time == mid.start_time,
        post.last_move_time == mid.last_move_time,
        post.remaining_time@ == mid.remaining_time@,
        post.write_streams@ == mid.write_streams@,
        post.player_timeout == mid.player_timeout,
{
}

/// When a room is offered, its keys are in the store before it is listed. It
/// then stands at the head of the list, unless it was on the list, which then
/// stays as it was. Nothing else in the store changes.
pub proof fn law_keys_come_before_the_listing(
    store: StoreView,
    commands: Seq<StoreCommand>,
    id: usize,
    keys: Keys,
)
    requires
        offers_room(commands, id, keys),
    ensures
        ({
            let entry = decimal_chars(id as nat);
            let mid = store.after_all(commands.take(1));
            let post = store.after_all(commands);
            &&& mid.keys == store.keys.insert(keys_name_chars(id as nat), keys)
            &&& mid.rooms == store.rooms
            &&& post.keys == mid.keys
            &&& post.rooms == (if store.rooms.contains(entry) {
                store.rooms
            } else {
                seq![entry] + store.rooms
            })
        }),
{
    reveal_with_fuel(StoreView::after_all, 3);
    assert(commands.take(1).drop_last() =~= Seq::<StoreCommand>::empty());
    assert(commands.drop_last() =~= commands.take(1));
    assert(commands.take(1).last() == commands[0]);
}

/// The commands for the room at this place: it is listed and then given its
/// keys.
pub open spec fn offers_at(commands: Seq<StoreCommand>, keys: Seq<Keys>, i: int) -> bool {
    &&& appends_room(commands[2 * i], i as usize)
    &&& sets_keys(commands[2 * i + 1], i as usize, keys[i])
}

/// The commands by which the store learns of the first rooms, with these keys.
pub open spec fn offers_rooms(commands: Seq<StoreCommand>, keys: Seq<Keys>) -> bool {
    &&& commands.len() == 2 * keys.len()
    &&& forall|i: int| 0 <= i < keys.len() ==> #[trigger] offers_at(commands, keys, i)
}

/// The room is on the list and has these keys in the store.
pub open spec fn offered(store: StoreView, id: nat, keys: Keys) -> bool {
    &&& store.rooms.contains(decimal_chars(id))
    &&& store.keys.contains_pair(keys_name_chars(id), keys)
}

/// When the server starts, every room that it has offered is on the list and
/// has its keys in the store. What was on the list before stays, in its order,
/// behind what was added.
pub proof fn law_every_room_is_offered(
    store: StoreView,
    commands: Seq<StoreCommand>,
    keys: Seq<Keys>,
)
    requires
        keys.len() <= usize::MAX,
        offers_rooms(commands, keys),
    ensures
        ({
            let post = store.after_all(commands);
            &&& forall|i: int| 0 <= i < keys.len() ==> #[trigger] offered(post, i as nat, keys[i])
            &&& store.rooms.len() <= post.rooms.len()
            &&& post.rooms.skip(post.rooms.len() - store.rooms.len()) == store.rooms
        }),
    decreases keys.len(),
{
    let post = store.after_all(commands);
    if keys.len() == 0 {
        assert(post.rooms.skip(0) =~= store.rooms);
    } else {
        let n = keys.len() - 1;
        let entry = decimal_chars(n as nat);
        let name = keys_name_chars(n as nat);
        let first = commands.drop_last().drop_last();
        let before = store.after_all(first);
        assert forall|i: int| 0 <= i < n implies #[trigger] offers_at(
            first,
            keys.drop_last(),
            i,
        ) by {
            assert(offers_at(commands, keys, i));
        }
        law_every_room_is_offered(store, first, keys.drop_last());
        assert(offers_at(commands, keys, n));
        reveal_with_fuel(StoreView::after_all, 3);
        assert(commands.last() == commands[2 * n + 1]);
        assert(commands.drop_last().last() == commands[2 * n]);
        assert(post.keys == before.keys.insert(name, keys[n]));
        assert(post.rooms == before.rooms || post.rooms == seq![entry] + before.rooms);
        if post.rooms != before.rooms {
            assert(post.rooms[0] == entry);
            assert forall|e: Seq<char>| before.rooms.contains(e) implies #[trigger]
                post.rooms.contains(e) by {
                let i = choose|i: int| 0 <= i < before.rooms.len() && before.rooms[i] == e;
                assert(post.rooms[i + 1] == e);
            }
            assert(post.rooms.skip(post.rooms.len() - store.rooms.len()) =~= before.rooms.skip(
                before.rooms.len() - store.rooms.len(),
            ));
        }
        assert forall|i: int| 0 <= i < keys.len() implies #[trigger] offered(
            post,
            i as nat,
            keys[i],
        ) by {
            if i < n {
                assert(offered(before, i as nat, keys.drop_last()[i]));
                law_keys_names_differ(i as usize, n as usize);
            }
        }
    }
}

/// A room that was on the list at most once is on it exactly once after any
/// number of commands that list it, and no command beyond the first of them
/// changes the list.
pub proof fn law_a_room_is_listed_once(store: StoreView, commands: Seq<StoreCommand>, id: usize)
    requires
        store.listings(id) <= 1,
        forall|i: int|
            0 <= i < commands.len() && #[trigger] commands[i] is AppendRoom ==> appends_room(
                commands[i],
                id,
            ),
        exists|i: int| 0 <= i < commands.len() && #[trigger] commands[i] is AppendRoom,
    ensures
        store.after_all(commands).listings(id) == 1,
        ({
            let entry = decimal_chars(id as nat);
            store.after_all(commands).rooms == (if store.rooms.contains(entry) {
                store.rooms
            } else {
                seq![entry] + store.rooms
            })
        }),
{
    lemma_list_after(store, commands, id);
    lemma_listings(store, id);
}

/// The list after commands that list this room, or none.
proof fn lemma_list_after(store: StoreView, commands: Seq<StoreCommand>, id: usize)
    requires
        forall|i: int|
            0 <= i < commands.len() && #[trigger] commands[i] is AppendRoom ==> appends_room(
                commands[i],
                id,
            ),
    ensures
        ({
            let entry = decimal_chars(id as nat);
            let some = exists|i: int| 0 <= i < commands.len() && #[trigger] commands[i] is AppendRoom;
            store.after_all(commands).rooms == (if !some || store.rooms.contains(entry) {
                store.rooms
            } else {
                seq![entry] + store.rooms
            })
        }),
    decreases commands.len(),
{
    let entry = decimal_chars(id as nat);
    if commands.len() > 0 {
        let before = commands.drop_last();
        assert forall|i: int|
            0 <= i < before.len() && #[trigger] before[i] is AppendRoom implies appends_room(
            before[i],
            id,
        ) by {
            assert(before[i] == commands[i]);
        }
        lemma_list_after(store, before, id);
        assert((seq![entry] + store.rooms)[0] == entry);
        let last = commands[commands.len() - 1];
        assert(commands.last() == last);
        let some_before = exists|i: int|
            0 <= i < before.len() && #[trigger] before[i] is AppendRoom;
        let some = exists|i: int| 0 <= i < commands.len() && #[trigger] commands[i] is AppendRoom;
        if some_before {
            let i = choose|i: int| 0 <= i < before.len() && #[trigger] before[i] is AppendRoom;
            assert(commands[i] is AppendRoom);
        }
        if some && !(last is AppendRoom) {
            let i = choose|i: int| 0 <= i < commands.len() && #[trigger] commands[i] is AppendRoom;
            assert(before[i] is AppendRoom);
        }
    }
}

/// How often a room is listed, before and after it is put at the head.
proof fn lemma_listings(store: StoreView, id: usize)
    ensures
        ({
            let entry = decimal_chars(id as nat);
            let listed = StoreView { rooms: seq![entry] + store.rooms, ..store };
            &&& listed.listings(id) == store.listings(id) + 1
            &&& store.rooms.contains(entry) <==> store.listings(id) > 0
        }),
{
    let entry = decimal_chars(id as nat);
    let listed = seq![entry] + store.rooms;
    broadcast use vstd::seq_lib::group_to_multiset_ensures;

    assert(listed.remove(0) =~= store.rooms);
    assert(listed[0] == entry);
    assert(listed.contains(entry));
}

/// What a client sends, as the session that gets it understands it.
pub enum ClientMessage {
    Token { token: AuthMessage },
    Request { request: LobbyMessage, elapsed: u128, answer: Result<LobbyAction, ClockError> },
    Play { msg: GameMessage, now: u128, timer: u64, reply: Result<GameStep, ClockError> },
}

/// One message of a client: the session and the rooms before it and after it.
pub struct SessionTurn {
    pub before: ServerState,
    pub after: ServerState,
    pub rooms: Seq<Room>,
    pub rooms_after: Seq<Room>,
    pub message: ClientMessage,
}

/// At most this room changed.
pub open spec fn only_room(pre: Seq<Room>, post: Seq<Room>, room_id: usize) -> bool {
    room_id < pre.len() && post == pre.update(room_id as int, post[room_id as int])
}

impl SessionTurn {
    /// The session went from the one state to the other over this message. One
    /// that fails over it has no state after it.
    pub open spec fn happened(self) -> bool {
        match (self.before, self.message) {
            (ServerState::Auth(auth), ClientMessage::Token { token }) => {
                &&& self.after == auth.next_state(token)
                &&& self.rooms_after == self.rooms
            },
            (ServerState::Lobby(lobby), ClientMessage::Request { request, elapsed, answer }) => {
                &&& lobby.replies(request, elapsed, answer)
                &&& match answer {
                    Ok(LobbyAction::Answer(step)) => {
                        &&& self.after == step.state
                        &&& self.rooms_after == self.rooms
                    },
                    Ok(LobbyAction::Join { lobby: asking, room_id, key }) => {
                        &&& only_room(self.rooms, self.rooms_after, room_id)
                        &&& self.after == asking.join_state(
                            self.rooms[room_id as int],
                            room_id,
                            key,
                        )
                        &&& asking.joins(
                            self.rooms[room_id as int],
                            self.rooms_after[room_id as int],
                            key,
                        )
                    },
                    Err(_) => false,
                }
            },
            (ServerState::Game(game), ClientMessage::Play { msg, now, timer, reply }) => {
                &&& only_room(self.rooms, self.rooms_after, game.room_id)
                &&& game.fits(self.rooms[game.room_id as int], msg, now)
                &&& game.replies(
                    self.rooms[game.room_id as int],
                    self.rooms_after[game.room_id as int],
                    msg,
                    now,
                    timer,
                    reply,
                )
                &&& reply matches Ok(step) && step !is Expel
                &&& self.after == self.before
            },
            _ => false,
        }
    }

    /// A token that is meant for this server was accepted.
    pub open spec fn accepts_token(self) -> bool {
        self.message matches ClientMessage::Token { token: AuthMessage::Verified { audience, .. } }
            && is_addressed(audience@)
    }

    /// A key of an active room was accepted, for this seat.
    pub open spec fn accepts_key(self, game: GameInner) -> bool {
        &&& self.message matches ClientMessage::Request {
            answer: Ok(LobbyAction::Join { room_id, key, .. }),
            ..
        }
        &&& room_id < self.rooms.len()
        &&& self.rooms[room_id as int].active
        &&& self.rooms[room_id as int].seat_for(key) == Some(game.color)
        &&& game.key == key
        &&& game.room_id == room_id
    }

    /// A move was played.
    pub open spec fn plays(self) -> bool {
        self.message matches ClientMessage::Play { reply: Ok(GameStep::Played { .. }), .. }
    }
}

/// These messages reached one session in turn, from its first on. In between,
/// others may have changed the rooms.
pub open spec fn conversation(turns: Seq<SessionTurn>) -> bool {
    &&& turns.len() > 0 ==> turns[0].before is Auth
    &&& forall|i: int| 0 <= i < turns.len() ==> (#[trigger] turns[i]).happened()
    &&& forall|i: int, j: int|
        0 <= i && j == i + 1 && j < turns.len() ==> (#[trigger] turns[j]).before == (
        #[trigger] turns[i]).after
}

/// One message takes a session one stage forward at most: into the lobby by a
/// token, into a game by a key.
proof fn lemma_one_turn(turn: SessionTurn)
    requires
        turn.happened(),
    ensures
        stage(turn.before) <= stage(turn.after) <= stage(turn.before) + 1,
        turn.before is Auth && turn.after is Lobby ==> turn.accepts_token(),
        turn.before is Auth ==> turn.rooms_after == turn.rooms && !turn.plays(),
        turn.before is Lobby ==> !turn.plays(),
        turn.before is Lobby ==> (turn.after matches ServerState::Game(game) ==> turn.accepts_key(
            game,
        )),
        turn.before is Game ==> turn.after == turn.before,
{
}

/// Where a session stands after any number of messages, and what brought it
/// there.
proof fn lemma_how_it_came(turns: Seq<SessionTurn>, j: int)
    requires
        conversation(turns),
        0 <= j < turns.len(),
    ensures
        stage(turns[j].before) >= 1 ==> exists|i: int|
            0 <= i < j && (#[trigger] turns[i]).accepts_token(),
        turns[j].before matches ServerState::Game(game) ==> exists|i: int|
            0 <= i < j && (#[trigger] turns[i]).accepts_key(game),
    decreases j,
{
    if j > 0 {
        lemma_how_it_came(turns, j - 1);
        lemma_one_turn(turns[j - 1]);
        assert(turns[j].before == turns[j - 1].after);
        if stage(turns[j].before) >= 1 {
            if turns[j - 1].before is Auth {
                assert(turns[j - 1].accepts_token());
            } else {
                let i = choose|i: int| 0 <= i < j - 1 && (#[trigger] turns[i]).accepts_token();
                assert(turns[i].accepts_token());
            }
        }
        if let ServerState::Game(game) = turns[j].before {
            if turns[j - 1].before is Lobby {
                assert(turns[j - 1].accepts_key(game));
            } else {
                let i = choose|i: int| 0 <= i < j - 1 && (#[trigger] turns[i]).accepts_key(game);
                assert(turns[i].accepts_key(game));
            }
        }
    }
}

/// Over everything that a client sends, its session never goes back, and no
/// message takes it more than one stage forward.
pub proof fn law_a_session_never_goes_back(turns: Seq<SessionTurn>, i: int, j: int)
    requires
        conversation(turns),
        0 <= i <= j < turns.len(),
    ensures
        stage(turns[i].before) <= stage(turns[j].before),
        stage(turns[j].before) <= stage(turns[j].after) <= stage(turns[j].before) + 1,
        stage(turns[j].before) <= j,
    decreases j,
{
    lemma_one_turn(turns[j]);
    if j > 0 {
        lemma_one_turn(turns[j - 1]);
        assert(turns[j].before == turns[j - 1].after);
        law_a_session_never_goes_back(turns, if i < j {
            i
        } else {
            j - 1
        }, j - 1);
    }
}

/// No client changes a room before it has shown a token that is meant for this
/// server.
pub proof fn law_no_room_changes_without_a_token(turns: Seq<SessionTurn>, j: int)
    requires
        conversation(turns),
        0 <= j < turns.len(),
        turns[j].rooms_after != turns[j].rooms,
    ensures
        exists|i: int| 0 <= i < j && (#[trigger] turns[i]).accepts_token(),
{
    lemma_one_turn(turns[j]);
    lemma_how_it_came(turns, j);
}

/// No client plays a move before it has shown a key of the room, and then it
/// plays in that room, for the seat of that key.
pub proof fn law_no_move_without_a_key(turns: Seq<SessionTurn>, j: int)
    requires
        conversation(turns),
        0 <= j < turns.len(),
        turns[j].plays(),
    ensures
        turns[j].before matches ServerState::Game(game) && exists|i: int|
            0 <= i < j && (#[trigger] turns[i]).accepts_key(game),
{
    lemma_one_turn(turns[j]);
    lemma_how_it_came(turns, j);
}

} // verus!
