use crate::clock::{
    first_move_delay, match_start, millis, remaining_after_move, ClockError, INCREMENT,
    INITIAL_TIME, START_WINDOW,
};
#[allow(unused_imports)]
use crate::clock::{clocks_fit, start_on_clock, time_after_move, wait_for_first_move};
use crate::game::{
    action_count, can_declare_draw, current_position, declare_draw, game_result, make_move,
    new_game, side_to_move, GameAction, GameResult,
};
#[allow(unused_imports)]
use crate::game::{
    draw_declarable, game_actions, game_outcome, is_legal, moves_made, position_text,
    starts_standard, turn,
};
use crate::keys::{generate_chess_keys, Keys};
use crate::moves::{parse_move, MoveValue};
#[allow(unused_imports)]
use crate::moves::move_of;
use crate::side::Color;
use crate::store::{decimal, keys_name};
#[allow(unused_imports)]
use crate::store::{decimal_chars, keys_name_chars};
use vstd::prelude::*;

verus! {

/// How many rooms the server keeps.
pub const ROOM_COUNT: usize = 10;

/// Who sits in a seat.
#[derive(Clone, Debug)]
pub struct Player {
    pub account_id: String,
}

/// A room in which two players meet for a match. Each pair holds white's part
/// first. Connections and timers are known by their numbers.
pub struct Room {
    pub id: usize,
    pub active: bool,
    pub players: [Option<Player>; 2],
    pub game: chess::Game,
    pub keys: Option<Keys>,
    pub start_time: u64,
    pub last_move_time: u64,
    pub remaining_time: [u64; 2],
    pub write_streams: [Option<u64>; 2],
    pub player_timeout: Option<u64>,
}

/// What the store is told of a room.
#[derive(Debug)]
pub enum StoreCommand {
    /// Keep the keys of the room under this name.
    SetKeys { name: String, keys: Keys },
    /// Put the room at the head of the list of free rooms, unless it is on it.
    AppendRoom { entry: String },
}

/// What the store holds: keys under their names, and the list of free rooms.
pub struct StoreView {
    pub keys: Map<Seq<char>, Keys>,
    pub rooms: Seq<Seq<char>>,
}

impl StoreView {
    /// What the store holds once it has followed a command.
    pub open spec fn after(self, command: StoreCommand) -> StoreView {
        match command {
            StoreCommand::SetKeys { name, keys } => StoreView {
                keys: self.keys.insert(name@, keys),
                ..self
            },
            StoreCommand::AppendRoom { entry } => StoreView {
                rooms: if self.rooms.contains(entry@) {
                    self.rooms
                } else {
                    seq![entry@] + self.rooms
                },
                ..self
            },
        }
    }

    /// What the store holds once it has followed these commands in order.
    pub open spec fn after_all(self, commands: Seq<StoreCommand>) -> StoreView
        decreases commands.len(),
    {
        if commands.len() == 0 {
            self
        } else {
            self.after_all(commands.drop_last()).after(commands.last())
        }
    }

    /// How often a room is on the list.
    pub open spec fn listings(self, id: usize) -> nat {
        self.rooms.to_multiset().count(decimal_chars(id as nat))
    }
}

/// What came of a request to join a room.
#[derive(Debug)]
pub enum JoinOutcome {
    RoomNotActive,
    InvalidKey,
    Seated { color: Color, previous: Option<u64>, position: String, start_time: u64 },
}

/// What a move that was taken led to.
#[derive(Debug)]
pub struct PlayedMove {
    /// The timer that ran against the player who has now moved.
    pub aborted: Option<u64>,
    pub timestamp: u64,
    pub white_time: u64,
    pub black_time: u64,
    pub position: String,
    pub opponent: Option<u64>,
    pub result: Option<GameResult>,
    /// What the opponent has left for the next move.
    pub opponent_time: u64,
}

/// What the players see of a move that was taken.
pub struct PlayedView {
    pub timestamp: u64,
    pub white_time: u64,
    pub black_time: u64,
    pub position: Seq<char>,
    pub opponent: Option<u64>,
    pub result: Option<GameResult>,
}

impl View for PlayedMove {
    type V = PlayedView;

    open spec fn view(&self) -> PlayedView {
        PlayedView {
            timestamp: self.timestamp,
            white_time: self.white_time,
            black_time: self.black_time,
            position: self.position@,
            opponent: self.opponent,
            result: self.result,
        }
    }
}

/// What came of a move that a player sent.
#[derive(Debug)]
pub enum PlayOutcome {
    OutOfTime,
    InvalidKey,
    OutOfTurn,
    InvalidMove,
    Played(PlayedMove),
}

/// What is to come of a move.
pub enum PlayVerdict {
    OutOfTime,
    InvalidKey,
    OutOfTurn,
    InvalidMove,
    Accepted(MoveValue),
}

/// The actions of a game after this move: where the draw can be declared, it
/// is declared at once.
pub open spec fn after_move(actions: Seq<GameAction>, mv: MoveValue) -> Seq<GameAction> {
    let moved = actions.push(GameAction::MakeMove(mv));
    if draw_declarable(moved) {
        moved.push(GameAction::DeclareDraw)
    } else {
        moved
    }
}

/// In a room, a game holds moves alone, but for a draw that may end it.
pub open spec fn moves_then_draw(actions: Seq<GameAction>) -> bool {
    forall|i: int|
        0 <= i < actions.len() ==> {
            ||| #[trigger] actions[i] is MakeMove
            ||| actions[i] is DeclareDraw && i == actions.len() - 1
        }
}

impl Room {
    /// What was done in the game of this room.
    pub open spec fn actions(self) -> Seq<GameAction> {
        game_actions(self.game)
    }

    /// What every room is like, whatever happened in it.
    pub open spec fn wf(self) -> bool {
        &&& starts_standard(self.game)
        &&& moves_then_draw(self.actions())
        // before the first move the clocks are full and no timer runs
        &&& self.actions().len() == 0 ==> {
            &&& self.remaining_time@ == seq![INITIAL_TIME, INITIAL_TIME]
            &&& self.last_move_time == 0
            &&& self.player_timeout is None
        }
        // a timer runs only while the game is undecided
        &&& self.player_timeout is Some ==> game_outcome(self.actions()) is None
        // nobody has more than was given
        &&& forall|i: int|
            0 <= i < 2 ==> #[trigger] self.remaining_time@[i] <= INITIAL_TIME + INCREMENT
                * moves_made(self.actions())
    }

    /// The room is as it was when the server started, but for its keys.
    pub open spec fn is_fresh(self) -> bool {
        &&& !self.active
        &&& self.players@ == seq![None::<Player>, None::<Player>]
        &&& starts_standard(self.game)
        &&& self.actions() == Seq::<GameAction>::empty()
        &&& game_outcome(self.actions()) is None
        &&& position_text(self.actions()) == crate::game::initial_position()
        &&& self.start_time == 0
        &&& self.last_move_time == 0
        &&& self.remaining_time@ == seq![INITIAL_TIME, INITIAL_TIME]
        &&& self.write_streams@ == seq![None::<u64>, None::<u64>]
        &&& self.player_timeout is None
    }

    /// No player is connected to the room.
    pub open spec fn deserted(self) -> bool {
        self.write_streams@[0] is None && self.write_streams@[1] is None
    }

    /// The key of a seat.
    pub open spec fn key_of(self, color: Color) -> Option<u64> {
        match self.keys {
            Some(keys) => Some(keys.keys@[color.index()]),
            None => None,
        }
    }

    /// The seat that a key stands for. White's comes first.
    pub open spec fn seat_for(self, key: u64) -> Option<Color> {
        if self.key_of(Color::White) == Some(key) {
            Some(Color::White)
        } else if self.key_of(Color::Black) == Some(key) {
            Some(Color::Black)
        } else {
            None
        }
    }

    /// What a player who moves now has left.
    pub open spec fn time_for(self, color: Color, now: u64) -> int {
        time_after_move(
            self.actions().len() == 0,
            self.remaining_time@[color.index()],
            self.last_move_time,
            now,
        )
    }

    /// The clocks allow the time of a move to be worked out.
    pub open spec fn clocks_fit(self, color: Color, now: u64) -> bool {
        clocks_fit(
            self.actions().len() == 0,
            self.remaining_time@[color.index()],
            self.last_move_time,
            now,
        )
    }

    /// What is to come of a move that a player sends now.
    pub open spec fn verdict(self, color: Color, key: u64, text: Seq<char>, now: u64) -> PlayVerdict {
        if self.time_for(color, now) == 0 {
            PlayVerdict::OutOfTime
        } else if self.key_of(color) != Some(key) {
            PlayVerdict::InvalidKey
        } else if turn(self.actions()) != color {
            PlayVerdict::OutOfTurn
        } else {
            match move_of(text) {
                Some(mv) => if game_outcome(self.actions()) is None && is_legal(
                    self.actions(),
                    mv,
                ) {
                    PlayVerdict::Accepted(mv)
                } else {
                    PlayVerdict::InvalidMove
                },
                None => PlayVerdict::InvalidMove,
            }
        }
    }
}

/// Nothing but the keys of the room changed.
pub open spec fn same_but_keys(pre: Room, post: Room) -> bool {
    &&& post.id == pre.id
    &&& post.active == pre.active
    &&& post.players == pre.players
    &&& post.game == pre.game
    &&& post.start_time == pre.start_time
    &&& post.last_move_time == pre.last_move_time
    &&& post.remaining_time == pre.remaining_time
    &&& post.write_streams == pre.write_streams
    &&& post.player_timeout == pre.player_timeout
}

/// The room was cleared and given new keys.
pub open spec fn cleared(pre: Room, post: Room, keys: [u64; 2]) -> bool {
    &&& post.id == pre.id
    &&& post.is_fresh()
    &&& post.keys == Some(Keys { keys, timestamp: 0 })
}

/// A player took a seat over a connection. Whoever sat there is replaced; the
/// match goes on as it stood.
pub open spec fn seated(
    pre: Room,
    post: Room,
    color: Color,
    account_id: String,
    connection: u64,
) -> bool {
    &&& post.id == pre.id
    &&& post.active == pre.active
    &&& post.players@ == pre.players@.update(color.index(), Some(Player { account_id }))
    &&& post.game == pre.game
    &&& post.keys == pre.keys
    &&& post.start_time == pre.start_time
    &&& post.last_move_time == pre.last_move_time
    &&& post.remaining_time == pre.remaining_time
    &&& post.write_streams@ == pre.write_streams@.update(color.index(), Some(connection))
    &&& post.player_timeout == pre.player_timeout
}

/// The connection of a seat was taken out of the room.
pub open spec fn unplugged(pre: Room, post: Room, color: Color) -> bool {
    &&& post.id == pre.id
    &&& post.active == pre.active
    &&& post.players == pre.players
    &&& post.game == pre.game
    &&& post.keys == pre.keys
    &&& post.start_time == pre.start_time
    &&& post.last_move_time == pre.last_move_time
    &&& post.remaining_time == pre.remaining_time
    &&& post.write_streams@ == pre.write_streams@.update(color.index(), None)
    &&& post.player_timeout == pre.player_timeout
}

/// A move was taken: the game, the mover's clock and the timer went on.
pub open spec fn moved(
    pre: Room,
    post: Room,
    color: Color,
    mv: MoveValue,
    now: u64,
    timer: u64,
) -> bool {
    &&& post.id == pre.id
    &&& post.active == pre.active
    &&& post.players == pre.players
    &&& post.actions() == after_move(pre.actions(), mv)
    &&& draw_declarable(pre.actions().push(GameAction::MakeMove(mv))) ==> game_outcome(
        post.actions(),
    ) == Some(GameResult::DrawDeclared)
    &&& post.keys == pre.keys
    &&& post.start_time == pre.start_time
    &&& post.last_move_time == now
    &&& post.remaining_time@ == pre.remaining_time@.update(
        color.index(),
        pre.time_for(color, now) as u64,
    )
    &&& post.write_streams == pre.write_streams
    &&& post.player_timeout == (if game_outcome(post.actions()) is None {
        Some(timer)
    } else {
        None
    })
}

/// What the players see of a move by this side that led to this room.
pub open spec fn seen_after(post: Room, color: Color) -> PlayedView {
    PlayedView {
        timestamp: post.last_move_time,
        white_time: post.remaining_time@[0],
        black_time: post.remaining_time@[1],
        position: position_text(post.actions()),
        opponent: post.write_streams@[color.other().index()],
        result: game_outcome(post.actions()),
    }
}

/// What is told of a move by this side that led from one room to another.
pub open spec fn tells(played: PlayedMove, pre: Room, post: Room, color: Color) -> bool {
    &&& played@ == seen_after(post, color)
    &&& played.aborted == pre.player_timeout
    &&& played.opponent_time == post.remaining_time@[color.other().index()]
}

/// A store command as the store sees it.
pub open spec fn sets_keys(command: StoreCommand, id: usize, keys: Keys) -> bool {
    command matches StoreCommand::SetKeys { name, keys: sent } && name@ == keys_name_chars(
        id as nat,
    ) && sent == keys
}

/// A store command that frees a room.
pub open spec fn appends_room(command: StoreCommand, id: usize) -> bool {
    command matches StoreCommand::AppendRoom { entry } && entry@ == decimal_chars(id as nat)
}

/// The command that puts a room on the list of free rooms.
pub fn append_room(id: usize) -> (command: StoreCommand)
    ensures
        appends_room(command, id),
{
    StoreCommand::AppendRoom { entry: decimal(id) }
}

impl Room {
    /// A room in which nothing has happened.
    pub fn new(id: usize) -> (room: Room)
        ensures
            room.wf(),
            room.is_fresh(),
            room.id == id,
            room.keys is None,
    {
        Room {
            id,
            active: false,
            players: [None, None],
            game: new_game(),
            keys: None,
            start_time: 0,
            last_move_time: 0,
            remaining_time: [INITIAL_TIME, INITIAL_TIME],
            write_streams: [None, None],
            player_timeout: None,
        }
    }

    /// Clears the room for the next match, with these keys. Returns the timer
    /// that has to be stopped.
    pub fn clear(&mut self, keys: [u64; 2]) -> (aborted: Option<u64>)
        ensures
            final(self).wf(),
            cleared(*old(self), *final(self), keys),
            aborted == old(self).player_timeout,
    {
        self.active = false;
        self.keys = Some(Keys { keys, timestamp: 0 });
        self.game = new_game();
        self.players = [None, None];
        self.start_time = 0;
        self.last_move_time = 0;
        self.remaining_time = [INITIAL_TIME, INITIAL_TIME];
        self.write_streams = [None, None];
        self.player_timeout.take()
    }

    /// Gives the room these keys, under the number by which the store knows
    /// it.
    pub fn assign_keys(&mut self, id: usize, keys: [u64; 2]) -> (command: StoreCommand)
        requires
            old(self).wf(),
        ensures
            final(self).wf(),
            same_but_keys(*old(self), *final(self)),
            final(self).keys == Some(Keys { keys, timestamp: 0 }),
            sets_keys(command, id, (Keys { keys, timestamp: 0 })),
    {
        let keys = Keys { keys, timestamp: 0 };
        self.keys = Some(keys);
        StoreCommand::SetKeys { name: keys_name(id), keys }
    }

    /// A match was made for the room.
    pub fn activate(&mut self)
        requires
            old(self).wf(),
        ensures
            final(self).wf(),
            *final(self) == (Room { active: true, ..*old(self) }),
    {
        self.active = true;
    }

    /// The reading of the clocks that a match begins with, if both are usable.
    pub open spec fn readings(now: Option<u128>, clock: u128) -> Result<(u64, u64), ClockError> {
        match now {
            None => Err(ClockError::BeforeEpoch),
            Some(now) => if now > u64::MAX || clock > u64::MAX {
                Err(ClockError::TooLarge)
            } else {
                Ok((now as u64, clock as u64))
            },
        }
    }

    /// The clocks, where they are usable, allow the start of a match and the
    /// end of its window to be worked out.
    pub open spec fn clocks_agree(keys: Keys, now: Option<u128>, clock: u128) -> bool {
        Room::readings(now, clock) matches Ok((now, clock)) ==> {
            &&& clock + keys.timestamp <= u64::MAX
            &&& now <= clock + keys.timestamp
            &&& keys.timestamp + START_WINDOW <= u64::MAX
        }
    }

    /// Whether a match with these keys can begin by these clocks.
    pub fn can_begin(keys: Keys, now: Option<u128>, clock: u128) -> (r: bool)
        ensures
            r == Room::clocks_agree(keys, now, clock),
    {
        let now: u64 = match now {
            Some(reading) => match millis(reading) {
                Ok(ms) => ms,
                Err(_) => {
                    return true;
                },
            },
            None => {
                return true;
            },
        };
        let clock: u64 = match millis(clock) {
            Ok(ms) => ms,
            Err(_) => {
                return true;
            },
        };
        clock <= u64::MAX - keys.timestamp && now <= clock + keys.timestamp && keys.timestamp
            <= u64::MAX - START_WINDOW
    }

    /// Begins the match that the keys belong to. `now` is the system's time
    /// since the Unix epoch and `clock` that of the server's clock. Returns
    /// how long to wait for the first move. The keys are taken over even where
    /// a clock cannot be used.
    pub fn begin_match(&mut self, keys: Keys, now: Option<u128>, clock: u128) -> (r: Result<
        u64,
        ClockError,
    >)
        requires
            old(self).wf(),
            Room::clocks_agree(keys, now, clock),
        ensures
            final(self).wf(),
            match Room::readings(now, clock) {
                Ok((now, clock)) => {
                    &&& r == Ok::<u64, ClockError>(
                        wait_for_first_move(keys.timestamp as int, now as int) as u64,
                    )
                    &&& *final(self) == (Room {
                        keys: Some(keys),
                        start_time: start_on_clock(
                            clock as int,
                            keys.timestamp as int,
                            now as int,
                        ) as u64,
                        ..*old(self)
                    })
                },
                Err(e) => {
                    &&& r == Err::<u64, ClockError>(e)
                    &&& *final(self) == (Room { keys: Some(keys), ..*old(self) })
                },
            },
    {
        self.keys = Some(keys);
        let now: u64 = match now {
            Some(reading) => match millis(reading) {
                Ok(ms) => ms,
                Err(e) => {
                    return Err(e);
                },
            },
            None => {
                return Err(ClockError::BeforeEpoch);
            },
        };
        let clock: u64 = match millis(clock) {
            Ok(ms) => ms,
            Err(e) => {
                return Err(e);
            },
        };
        self.start_time = match_start(clock, keys.timestamp, now);
        Ok(first_move_delay(keys.timestamp, now))
    }

    /// The connections to tell that the match is off, if no move was made.
    pub fn unstarted(&self) -> (r: Option<[Option<u64>; 2]>)
        ensures
            r == (if self.actions().len() == 0 {
                Some(self.write_streams)
            } else {
                None
            }),
    {
        if action_count(&self.game) != 0 {
            return None;
        }
        Some(self.write_streams)
    }

    /// Lets a player into the seat that the key stands for.
    pub fn join(&mut self, key: u64, account_id: &String, connection: u64) -> (r: JoinOutcome)
        requires
            old(self).wf(),
        ensures
            final(self).wf(),
            match (old(self).active, old(self).seat_for(key)) {
                (true, Some(seat)) => {
                    &&& r matches JoinOutcome::Seated { color, previous, position, start_time }
                    &&& color == seat
                    &&& previous == old(self).write_streams@[seat.index()]
                    &&& position@ == position_text(old(self).actions())
                    &&& start_time == old(self).start_time
                    &&& seated(*old(self), *final(self), seat, *account_id, connection)
                },
                (true, None) => r is InvalidKey && *final(self) == *old(self),
                (false, _) => r is RoomNotActive && *final(self) == *old(self),
            },
    {
        if !self.active {
            return JoinOutcome::RoomNotActive;
        }
        let color: Color = match self.keys {
            Some(keys) => if keys.keys[0] == key {
                Color::White
            } else if keys.keys[1] == key {
                Color::Black
            } else {
                return JoinOutcome::InvalidKey;
            },
            None => {
                return JoinOutcome::InvalidKey;
            },
        };
        let seat: usize = color.to_index();
        let previous: Option<u64> = self.write_streams[seat];
        self.players[seat] = Some(Player { account_id: account_id.clone() });
        self.write_streams[seat] = Some(connection);
        let position = current_position(&self.game);
        JoinOutcome::Seated { color, previous, position, start_time: self.start_time }
    }

    /// The seat of a session that is over: its key is no longer the one of the
    /// room.
    pub open spec fn outdated(self, color: Color, key: u64) -> bool {
        self.key_of(color) matches Some(current) && current != key
    }

    /// Takes the connection of a player out of the room, unless the seat has
    /// another key by now. Returns whether that left the room without any.
    pub fn disconnect(&mut self, color: Color, key: u64) -> (emptied: bool)
        requires
            old(self).wf(),
        ensures
            final(self).wf(),
            old(self).outdated(color, key) ==> *final(self) == *old(self) && !emptied,
            !old(self).outdated(color, key) ==> {
                &&& unplugged(*old(self), *final(self), color)
                &&& emptied == final(self).deserted()
            },
    {
        let seat: usize = color.to_index();
        if let Some(keys) = self.keys {
            if keys.keys[seat] != key {
                return false;
            }
        }
        self.write_streams[seat] = None;
        self.write_streams[0].is_none() && self.write_streams[1].is_none()
    }

    /// The timer that ran against a player has gone off.
    pub fn timer_expired(&mut self)
        requires
            old(self).wf(),
        ensures
            final(self).wf(),
            *final(self) == (Room { player_timeout: None, ..*old(self) }),
    {
        self.player_timeout = None;
    }

    /// Whether a player can be given the time for a move at this moment.
    pub fn can_time(&self, color: Color, now: u64) -> (r: bool)
        ensures
            r == self.clocks_fit(color, now),
    {
        let remaining: u64 = self.remaining_time[color.to_index()];
        action_count(&self.game) == 0 || (self.last_move_time <= now && (now - self.last_move_time
            > INCREMENT || remaining <= u64::MAX - INCREMENT))
    }

    /// Takes the move that a player sent. `timer` is the number of the timer
    /// that is to run against the opponent, if the game goes on.
    pub fn play(&mut self, color: Color, key: u64, text: &str, now: u64, timer: u64) -> (r:
        PlayOutcome)
        requires
            old(self).wf(),
            old(self).clocks_fit(color, now),
        ensures
            final(self).wf(),
            match old(self).verdict(color, key, text@, now) {
                PlayVerdict::OutOfTime => r is OutOfTime && *final(self) == *old(self),
                PlayVerdict::InvalidKey => r is InvalidKey && *final(self) == *old(self),
                PlayVerdict::OutOfTurn => r is OutOfTurn && *final(self) == *old(self),
                PlayVerdict::InvalidMove => r is InvalidMove && *final(self) == *old(self),
                PlayVerdict::Accepted(mv) => {
                    &&& moved(*old(self), *final(self), color, mv, now, timer)
                    &&& r matches PlayOutcome::Played(played)
                    &&& tells(played, *old(self), *final(self), color)
                },
            },
            // each legal move of a player with time, the key and the turn is taken
            r is Played <==> {
                &&& old(self).time_for(color, now) != 0
                &&& old(self).key_of(color) == Some(key)
                &&& turn(old(self).actions()) == color
                &&& game_outcome(old(self).actions()) is None
                &&& move_of(text@) matches Some(mv) && is_legal(old(self).actions(), mv)
            },
            r is Played ==> {
                &&& final(self).actions().len() > old(self).actions().len()
                &&& move_of(text@) matches Some(mv) && final(self).actions().take(
                    old(self).actions().len() as int + 1,
                ) == old(self).actions().push(GameAction::MakeMove(mv))
            },
            r !is Played ==> *final(self) == *old(self),
    {
        let seat: usize = color.to_index();
        let first_move: bool = action_count(&self.game) == 0;
        let left: u64 = remaining_after_move(
            first_move,
            self.remaining_time[seat],
            self.last_move_time,
            now,
        );
        if left == 0 {
            return PlayOutcome::OutOfTime;
        }
        match self.keys {
            Some(keys) => {
                if keys.keys[seat] != key {
                    return PlayOutcome::InvalidKey;
                }
            },
            None => {
                return PlayOutcome::InvalidKey;
            },
        }
        if side_to_move(&self.game) != color {
            return PlayOutcome::OutOfTurn;
        }
        let ghost pre = *self;
        let mv: MoveValue = match parse_move(text) {
            Some(mv) => mv,
            None => {
                return PlayOutcome::InvalidMove;
            },
        };
        if !make_move(&mut self.game, mv) {
            return PlayOutcome::InvalidMove;
        }
        let aborted: Option<u64> = self.player_timeout.take();
        self.remaining_time[seat] = left;
        self.last_move_time = now;
        let white_time: u64 = self.remaining_time[0];
        let black_time: u64 = self.remaining_time[1];
        if can_declare_draw(&self.game) {
            let _ = declare_draw(&mut self.game);
        }
        let position = current_position(&self.game);
        let other: usize = color.opponent().to_index();
        let opponent: Option<u64> = self.write_streams[other];
        let result: Option<GameResult> = game_result(&self.game);
        let opponent_time: u64 = self.remaining_time[other];
        if result.is_none() {
            self.player_timeout = Some(timer);
        }
        proof {
            lemma_after_move(pre.actions(), mv);
            assert forall|i: int| 0 <= i < 2 implies #[trigger] self.remaining_time@[i]
                <= INITIAL_TIME + INCREMENT * moves_made(self.actions()) by {
                assert(pre.remaining_time@[i] <= INITIAL_TIME + INCREMENT * moves_made(
                    pre.actions(),
                ));
            }
        }
        assert(self.actions().take(pre.actions().len() as int + 1) =~= pre.actions().push(
            GameAction::MakeMove(mv),
        ));
        PlayOutcome::Played(
            PlayedMove {
                aborted,
                timestamp: now,
                white_time,
                black_time,
                position,
                opponent,
                result,
                opponent_time,
            },
        )
    }
}

/// The commands by which the store learns that a room was cleared: it has the
/// keys before it lists the room.
pub open spec fn offers_room(commands: Seq<StoreCommand>, id: usize, keys: Keys) -> bool {
    &&& commands.len() == 2
    &&& sets_keys(commands[0], id, keys)
    &&& appends_room(commands[1], id)
}

/// What has to be done once a room was cleared: stop its timer, then tell the
/// store, in the order of the commands.
pub struct ResetEffects {
    pub aborted: Option<u64>,
    pub commands: Vec<StoreCommand>,
}

/// Clears a room for the next match, with the keys that were drawn for it.
pub fn reset_room_with(room: &mut Room, keys: [u64; 2]) -> (effects: ResetEffects)
    ensures
        final(room).wf(),
        cleared(*old(room), *final(room), keys),
        effects.aborted == old(room).player_timeout,
        offers_room(effects.commands@, old(room).id, (Keys { keys, timestamp: 0 })),
{
    let id: usize = room.id;
    let aborted: Option<u64> = room.clear(keys);
    let mut commands: Vec<StoreCommand> = Vec::new();
    commands.push(
        StoreCommand::SetKeys { name: keys_name(id), keys: Keys { keys, timestamp: 0 } },
    );
    commands.push(append_room(id));
    ResetEffects { aborted, commands }
}

/// Clears a room for the next match, with new keys.
pub fn reset_room(room: &mut Room) -> (effects: ResetEffects)
    ensures
        final(room).wf(),
        ({
            let keys = final(room).keys->0.keys;
            &&& keys[0] != keys[1]
            &&& cleared(*old(room), *final(room), keys)
            &&& effects.aborted == old(room).player_timeout
            &&& offers_room(effects.commands@, old(room).id, (Keys { keys, timestamp: 0 }))
        }),
{
    reset_room_with(room, generate_chess_keys())
}

/// Gives a room its first keys, under the number by which the store knows it.
pub fn issue_keys(room: &mut Room, id: usize) -> (command: StoreCommand)
    requires
        old(room).wf(),
    ensures
        final(room).wf(),
        same_but_keys(*old(room), *final(room)),
        final(room).keys matches Some(keys) && keys.keys[0] != keys.keys[1] && keys.timestamp == 0
            && sets_keys(command, id, keys),
{
    room.assign_keys(id, generate_chess_keys())
}

/// Goes on with a room that the server offers when it starts. Once the store
/// has listed it, it gets its first keys, which the store is told next; where
/// the listing failed, the room is left alone.
pub fn offer_next(room: &mut Room, index: usize, listed: bool) -> (command: Option<StoreCommand>)
    requires
        old(room).wf(),
    ensures
        final(room).wf(),
        !listed ==> command is None && *final(room) == *old(room),
        listed ==> same_but_keys(*old(room), *final(room)) && (final(room).keys matches Some(keys)
            && keys.keys[0] != keys.keys[1] && keys.timestamp == 0 && (command matches Some(c)
            && sets_keys(c, index, keys))),
{
    if listed {
        Some(issue_keys(room, index))
    } else {
        None
    }
}

/// The rooms of a server, each known by its place.
pub fn new_rooms(count: usize) -> (rooms: Vec<Room>)
    ensures
        rooms@.len() == count,
        forall|i: int|
            0 <= i < count ==> {
                &&& (#[trigger] rooms@[i]).wf()
                &&& rooms@[i].is_fresh()
                &&& rooms@[i].id == i
                &&& rooms@[i].keys is None
            },
{
    let mut rooms: Vec<Room> = Vec::new();
    let mut i: usize = 0;
    while i < count
        invariant
            i <= count,
            rooms@.len() == i,
            forall|j: int|
                0 <= j < i ==> {
                    &&& (#[trigger] rooms@[j]).wf()
                    &&& rooms@[j].is_fresh()
                    &&& rooms@[j].id == j
                    &&& rooms@[j].keys is None
                },
        decreases count - i,
    {
        rooms.push(Room::new(i));
        i = i + 1;
    }
    rooms
}

/// What is kept of a finished match.
#[derive(Debug)]
pub struct GameRecord {
    pub player_one_id: String,
    pub player_two_id: String,
    pub player_one_rating: i32,
    pub player_two_rating: i32,
    pub pgn: String,
}

/// What is kept of the match in a room, given its text.
pub fn game_record(room: &Room, pgn: String) -> (record: GameRecord)
    requires
        room.players@[0] is Some,
        room.players@[1] is Some,
    ensures
        record.player_one_id@ == room.players@[0]->0.account_id@,
        record.player_two_id@ == room.players@[1]->0.account_id@,
        record.player_one_rating == 0,
        record.player_two_rating == 0,
        record.pgn == pgn,
{
    GameRecord {
        player_one_id: room.players[0].as_ref().unwrap().account_id.clone(),
        player_two_id: room.players[1].as_ref().unwrap().account_id.clone(),
        player_one_rating: 0,
        player_two_rating: 0,
        pgn,
    }
}

/// A move adds one to the moves made and hands the turn over; what follows it
/// may be a draw.
pub proof fn lemma_after_move(actions: Seq<GameAction>, mv: MoveValue)
    ensures
        moves_made(after_move(actions, mv)) == moves_made(actions) + 1,
        turn(after_move(actions, mv)) == turn(actions).other(),
        after_move(actions, mv).len() > 0,
        moves_then_draw(actions) && game_outcome(actions) is None ==> moves_then_draw(
            after_move(actions, mv),
        ),
{
    let moved = actions.push(GameAction::MakeMove(mv));
    assert(moved.drop_last() =~= actions);
    assert(moved.push(GameAction::DeclareDraw).drop_last() =~= moved);
    reveal_with_fuel(moves_made, 3);
    if moves_then_draw(actions) && game_outcome(actions) is None {
        assert forall|i: int| 0 <= i < actions.len() implies #[trigger] actions[i] is MakeMove by {
            if actions[i] is DeclareDraw {
                assert(actions.last() == actions[i]);
            }
        }
        let after = after_move(actions, mv);
        assert forall|i: int| 0 <= i < after.len() implies {
            ||| #[trigger] after[i] is MakeMove
            ||| after[i] is DeclareDraw && i == after.len() - 1
        } by {
            if i < actions.len() {
                assert(after[i] == actions[i]);
            }
        }
    }
}

} // verus!
