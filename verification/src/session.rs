use crate::clock::{millis, ClockError, START_WINDOW};
use crate::game::GameResult;
#[allow(unused_imports)]
use crate::game::{game_outcome, is_legal, position_text, turn, GameAction};
use crate::messages::request::Request;
use crate::messages::response::Response;
#[allow(unused_imports)]
use crate::messages::response::ResponseView;
#[allow(unused_imports)]
use crate::moves::move_of;
use crate::room::{JoinOutcome, PlayOutcome, PlayedMove, Room};
#[allow(unused_imports)]
use crate::room::{moved, seated, seen_after, unplugged, PlayVerdict, PlayedView};
use crate::side::Color;
use vstd::prelude::*;

verus! {

/// How often a connection is pinged, in seconds.
pub const HEARTBEAT_SECS: u64 = 25;

/// How long a connection may stay silent, in seconds.
pub const READ_TIMEOUT_SECS: u64 = 60;

/// What goes out over a connection.
#[derive(Debug)]
pub enum Outgoing {
    Response(Response),
    Close,
}

/// A message for a connection. Where a required one cannot be sent, the
/// session that sends it is at an end and what follows is not sent; any other
/// is sent as well as may be.
#[derive(Debug)]
pub struct Delivery {
    pub to: u64,
    pub content: Outgoing,
    pub required: bool,
}

pub enum OutgoingView {
    Response(ResponseView),
    Close,
}

pub struct DeliveryView {
    pub to: u64,
    pub content: OutgoingView,
    pub required: bool,
}

impl View for Delivery {
    type V = DeliveryView;

    open spec fn view(&self) -> DeliveryView {
        DeliveryView {
            to: self.to,
            content: match self.content {
                Outgoing::Response(response) => OutgoingView::Response(response@),
                Outgoing::Close => OutgoingView::Close,
            },
            required: self.required,
        }
    }
}

/// Messages, in the order in which they are sent.
pub open spec fn deliveries_view(deliveries: Seq<Delivery>) -> Seq<DeliveryView> {
    deliveries.map_values(|d: Delivery| d@)
}

/// A response that has to arrive.
pub open spec fn must_send(to: u64, response: ResponseView) -> DeliveryView {
    DeliveryView { to, content: OutgoingView::Response(response), required: true }
}

/// A response that may get lost.
pub open spec fn may_send(to: u64, response: ResponseView) -> DeliveryView {
    DeliveryView { to, content: OutgoingView::Response(response), required: false }
}

/// The end of a connection.
pub open spec fn closes(to: u64) -> DeliveryView {
    DeliveryView { to, content: OutgoingView::Close, required: false }
}

/// A response, then the end of the connection.
pub open spec fn last_word(to: u64, response: ResponseView) -> Seq<DeliveryView> {
    seq![may_send(to, response), closes(to)]
}

/// A response and the end of the connection, where there is one.
pub open spec fn last_word_if(to: Option<u64>, response: ResponseView) -> Seq<DeliveryView> {
    match to {
        Some(to) => last_word(to, response),
        None => Seq::empty(),
    }
}

/// Adds a response that has to arrive.
fn push_must(deliveries: &mut Vec<Delivery>, to: u64, response: Response)
    ensures
        deliveries_view(final(deliveries)@) == deliveries_view(old(deliveries)@).push(
            must_send(to, response@),
        ),
{
    deliveries.push(Delivery { to, content: Outgoing::Response(response), required: true });
    assert(deliveries_view(deliveries@) =~= deliveries_view(old(deliveries)@).push(
        must_send(to, response@),
    ));
}

/// Adds a response that may get lost.
fn push_may(deliveries: &mut Vec<Delivery>, to: u64, response: Response)
    ensures
        deliveries_view(final(deliveries)@) == deliveries_view(old(deliveries)@).push(
            may_send(to, response@),
        ),
{
    deliveries.push(Delivery { to, content: Outgoing::Response(response), required: false });
    assert(deliveries_view(deliveries@) =~= deliveries_view(old(deliveries)@).push(
        may_send(to, response@),
    ));
}

/// Adds the end of a connection.
fn push_close(deliveries: &mut Vec<Delivery>, to: u64)
    ensures
        deliveries_view(final(deliveries)@) == deliveries_view(old(deliveries)@).push(closes(to)),
{
    deliveries.push(Delivery { to, content: Outgoing::Close, required: false });
    assert(deliveries_view(deliveries@) =~= deliveries_view(old(deliveries)@).push(closes(to)));
}

/// No messages yet.
fn no_deliveries() -> (deliveries: Vec<Delivery>)
    ensures
        deliveries_view(deliveries@) == Seq::<DeliveryView>::empty(),
{
    let deliveries: Vec<Delivery> = Vec::new();
    assert(deliveries_view(deliveries@) =~= Seq::<DeliveryView>::empty());
    deliveries
}

/// A session before its token was checked.
#[derive(Debug)]
pub struct Auth {
    pub write: u64,
}

/// A session that may look for a room.
#[derive(Debug)]
pub struct Lobby {
    pub account_id: String,
    pub write: u64,
}

/// A session that has a seat in a room.
#[derive(Clone, Copy, Debug)]
pub struct GameInner {
    pub key: u64,
    pub write: u64,
    pub room_id: usize,
    pub color: Color,
}

/// What a session has reached.
#[derive(Debug)]
pub enum ServerState {
    Auth(Auth),
    Lobby(Lobby),
    Game(GameInner),
}

/// How far a session is.
pub open spec fn stage(state: ServerState) -> int {
    match state {
        ServerState::Auth(_) => 0,
        ServerState::Lobby(_) => 1,
        ServerState::Game(_) => 2,
    }
}

/// What a session does next: send, then go on from a state.
#[derive(Debug)]
pub struct Step {
    pub deliveries: Vec<Delivery>,
    pub state: ServerState,
}

/// What becomes of a session once a message was answered.
#[derive(Clone, Copy, Debug, PartialEq, Eq, Structural)]
pub enum Ending {
    /// It goes on.
    GoOn,
    /// It fails.
    Fail,
    /// It gives up its seat and fails.
    GiveUp,
    /// Its match is over: it is recorded, as well as may be, and then the room
    /// is cleared.
    Finish,
}

impl Step {
    /// What becomes of the session, given whether all required messages were
    /// sent. One that has just got a seat gives it up again.
    pub fn after_delivery(&self, delivered: bool) -> (ending: Ending)
        ensures
            ending == (if delivered {
                Ending::GoOn
            } else if self.state is Game {
                Ending::GiveUp
            } else {
                Ending::Fail
            }),
    {
        if delivered {
            return Ending::GoOn;
        }
        match self.state {
            ServerState::Game(_) => Ending::GiveUp,
            _ => Ending::Fail,
        }
    }
}

/// What became of a message to a session without a checked token.
#[derive(Debug)]
pub enum AuthMessage {
    /// It was a text and its token holds.
    Verified { audience: Vec<String>, account_id: String },
    /// It was a text and its token does not hold.
    Rejected { reason: String },
    /// It was no text.
    Other,
}

/// The token is meant for this server.
pub open spec fn is_addressed(audience: Seq<String>) -> bool {
    exists|i: int| 0 <= i < audience.len() && (#[trigger] audience[i])@ == "game-server"@
}

/// Whether a token is meant for this server.
pub fn addressed(audience: &Vec<String>) -> (r: bool)
    ensures
        r == is_addressed(audience@),
{
    let wanted: String = "game-server".to_string();
    let mut i: usize = 0;
    while i < audience.len()
        invariant
            i <= audience@.len(),
            wanted@ == "game-server"@,
            forall|j: int| 0 <= j < i ==> (#[trigger] audience@[j])@ != "game-server"@,
        decreases audience@.len() - i,
    {
        if audience[i] == wanted {
            assert(audience@[i as int]@ == "game-server"@);
            return true;
        }
        i = i + 1;
    }
    false
}

impl Auth {
    /// A session for a connection that was just made.
    pub fn new(write: u64) -> (auth: Auth)
        ensures
            auth.write == write,
    {
        Auth { write }
    }

    pub open spec fn next_state(self, msg: AuthMessage) -> ServerState {
        match msg {
            AuthMessage::Verified { audience, account_id } => if is_addressed(audience@) {
                ServerState::Lobby(Lobby { account_id, write: self.write })
            } else {
                ServerState::Auth(self)
            },
            _ => ServerState::Auth(self),
        }
    }

    pub open spec fn messages(self, msg: AuthMessage) -> Seq<DeliveryView> {
        match msg {
            AuthMessage::Verified { audience, account_id } => if is_addressed(audience@) {
                seq![must_send(self.write, ResponseView::TokenValidated)]
            } else {
                Seq::empty()
            },
            AuthMessage::Rejected { reason } => seq![
                must_send(self.write, ResponseView::InvalidToken { reason: reason@ }),
            ],
            AuthMessage::Other => Seq::empty(),
        }
    }

    /// Lets a session into the lobby once it has shown a token that is meant
    /// for this server.
    pub fn next(self, msg: AuthMessage) -> (step: Step)
        ensures
            step.state == self.next_state(msg),
            deliveries_view(step.deliveries@) == self.messages(msg),
    {
        let mut deliveries = no_deliveries();
        match msg {
            AuthMessage::Verified { audience, account_id } => {
                if !addressed(&audience) {
                    return Step { deliveries, state: ServerState::Auth(self) };
                }
                push_must(&mut deliveries, self.write, Response::TokenValidated);
                Step {
                    deliveries,
                    state: ServerState::Lobby(Lobby { account_id, write: self.write }),
                }
            },
            AuthMessage::Rejected { reason } => {
                push_must(&mut deliveries, self.write, Response::InvalidToken { reason });
                Step { deliveries, state: ServerState::Auth(self) }
            },
            AuthMessage::Other => Step { deliveries, state: ServerState::Auth(self) },
        }
    }
}

/// What became of a message to a session in the lobby.
#[derive(Debug)]
pub enum LobbyMessage {
    /// It was a text with a request in it.
    Request(Request),
    /// It was a text that is no request.
    Malformed { reason: String },
    /// It was no text.
    Other,
}

/// What a session in the lobby does next.
#[derive(Debug)]
pub enum LobbyAction {
    /// Send, then go on from a state.
    Answer(Step),
    /// Ask for a seat in this room.
    Join { lobby: Lobby, room_id: usize, key: u64 },
}

impl Lobby {
    /// What this session does about a message, at this time on the server's
    /// clock.
    pub open spec fn replies(
        self,
        msg: LobbyMessage,
        elapsed: u128,
        r: Result<LobbyAction, ClockError>,
    ) -> bool {
        match msg {
            LobbyMessage::Request(Request::JoinRoom { room, key }) => r == Ok::<
                LobbyAction,
                ClockError,
            >(LobbyAction::Join { lobby: self, room_id: room as usize, key }),
            LobbyMessage::Request(Request::TimeSync) => if elapsed > u64::MAX {
                r == Err::<LobbyAction, ClockError>(ClockError::TooLarge)
            } else {
                self.stays(
                    r,
                    seq![
                        must_send(
                            self.write,
                            ResponseView::TimeSync { timestamp: elapsed as u64 },
                        ),
                    ],
                )
            },
            LobbyMessage::Malformed { reason } => self.stays(
                r,
                seq![must_send(self.write, ResponseView::InvalidRequest { reason: reason@ })],
            ),
            LobbyMessage::Other => self.stays(r, Seq::empty()),
        }
    }

    /// The session sends these messages and stays in the lobby.
    pub open spec fn stays(
        self,
        r: Result<LobbyAction, ClockError>,
        messages: Seq<DeliveryView>,
    ) -> bool {
        r matches Ok(LobbyAction::Answer(step)) && step.state == ServerState::Lobby(self)
            && deliveries_view(step.deliveries@) == messages
    }

    /// Answers a message, or turns to the room that it asks for. `elapsed` is
    /// the time on the server's clock.
    pub fn next(self, msg: LobbyMessage, elapsed: u128) -> (r: Result<LobbyAction, ClockError>)
        ensures
            self.replies(msg, elapsed, r),
    {
        let mut deliveries = no_deliveries();
        match msg {
            LobbyMessage::Request(Request::JoinRoom { room, key }) => {
                return Ok(LobbyAction::Join { lobby: self, room_id: room as usize, key });
            },
            LobbyMessage::Request(Request::TimeSync) => {
                match millis(elapsed) {
                    Ok(timestamp) => {
                        push_must(&mut deliveries, self.write, Response::TimeSync { timestamp });
                    },
                    Err(e) => {
                        return Err(e);
                    },
                }
            },
            LobbyMessage::Malformed { reason } => {
                push_must(&mut deliveries, self.write, Response::InvalidRequest { reason });
            },
            LobbyMessage::Other => {},
        }
        Ok(LobbyAction::Answer(Step { deliveries, state: ServerState::Lobby(self) }))
    }

    /// The state of this session after it asked for a seat.
    pub open spec fn join_state(self, room: Room, room_id: usize, key: u64) -> ServerState {
        match (room.active, room.seat_for(key)) {
            (true, Some(color)) => ServerState::Game(
                GameInner { key, write: self.write, room_id, color },
            ),
            _ => ServerState::Lobby(self),
        }
    }

    /// What is sent when this session asks for a seat. Whoever had the seat
    /// is cut off first.
    pub open spec fn join_messages(self, room: Room, key: u64) -> Seq<DeliveryView> {
        match (room.active, room.seat_for(key)) {
            (false, _) => seq![must_send(self.write, ResponseView::RoomNotActive)],
            (true, None) => seq![must_send(self.write, ResponseView::InvalidKey)],
            (true, Some(color)) => {
                let cut_off = match room.write_streams@[color.index()] {
                    Some(previous) => seq![closes(previous)],
                    None => Seq::empty(),
                };
                cut_off + seq![
                    must_send(self.write, ResponseView::Connected),
                    must_send(self.write, ResponseView::Color { color: color.label() }),
                    must_send(
                        self.write,
                        ResponseView::Fen {
                            fen: position_text(room.actions()),
                            timestamp: room.start_time,
                            white_time: START_WINDOW,
                            black_time: 0,
                        },
                    ),
                ]
            },
        }
    }

    /// What becomes of a room in which this session asks for a seat.
    pub open spec fn joins(self, pre: Room, post: Room, key: u64) -> bool {
        match (pre.active, pre.seat_for(key)) {
            (true, Some(color)) => seated(pre, post, color, self.account_id, self.write),
            _ => post == pre,
        }
    }

    /// Asks for the seat in a room that a key stands for.
    pub fn join(self, room: &mut Room, room_id: usize, key: u64) -> (step: Step)
        requires
            old(room).wf(),
        ensures
            final(room).wf(),
            step.state == self.join_state(*old(room), room_id, key),
            deliveries_view(step.deliveries@) == self.join_messages(*old(room), key),
            self.joins(*old(room), *final(room), key),
    {
        let mut deliveries = no_deliveries();
        match room.join(key, &self.account_id, self.write) {
            JoinOutcome::RoomNotActive => {
                push_must(&mut deliveries, self.write, Response::RoomNotActive);
                Step { deliveries, state: ServerState::Lobby(self) }
            },
            JoinOutcome::InvalidKey => {
                push_must(&mut deliveries, self.write, Response::InvalidKey);
                Step { deliveries, state: ServerState::Lobby(self) }
            },
            JoinOutcome::Seated { color, previous, position, start_time } => {
                if let Some(previous) = previous {
                    push_close(&mut deliveries, previous);
                }
                push_must(&mut deliveries, self.write, Response::Connected);
                push_must(&mut deliveries, self.write, Response::Color { color: color.name() });
                push_must(
                    &mut deliveries,
                    self.write,
                    Response::Fen {
                        fen: position,
                        timestamp: start_time,
                        white_time: START_WINDOW,
                        black_time: 0,
                    },
                );
                assert(deliveries_view(deliveries@) =~= self.join_messages(*old(room), key));
                Step {
                    deliveries,
                    state: ServerState::Game(
                        GameInner { key, write: self.write, room_id, color },
                    ),
                }
            },
        }
    }
}

/// A message to a session that has a seat.
#[derive(Debug)]
pub enum GameMessage {
    Text(String),
    Other,
}

/// A timer to be started against the player who is to move. When it goes off,
/// the player who moved last has won.
#[derive(Clone, Copy, Debug)]
pub struct TimerPlan {
    pub timer: u64,
    pub after: u64,
    pub mover: Color,
    pub write: u64,
    pub opponent: Option<u64>,
}

/// What a session that has a seat does next.
#[derive(Debug)]
pub enum GameStep {
    /// Send and go on.
    Stay { deliveries: Vec<Delivery> },
    /// Send, then fail: the session has lost its seat.
    Expel { deliveries: Vec<Delivery> },
    /// Stop a timer, start another, send and go on. A match that is finished
    /// is then recorded, and its room cleared.
    Played {
        aborted: Option<u64>,
        timer: Option<TimerPlan>,
        deliveries: Vec<Delivery>,
        finished: bool,
    },
}

/// What becomes of a session that has a seat, once it has answered.
pub open spec fn ending_of(step: GameStep, delivered: bool) -> Ending {
    match step {
        GameStep::Stay { .. } => if delivered {
            Ending::GoOn
        } else {
            Ending::GiveUp
        },
        GameStep::Expel { .. } => Ending::GiveUp,
        GameStep::Played { finished, .. } => if finished {
            Ending::Finish
        } else {
            Ending::GoOn
        },
    }
}

/// What becomes of a session that has a seat, given whether all required
/// messages of its answer were sent. Those of a move are not required.
pub fn after_step(step: &GameStep, delivered: bool) -> (ending: Ending)
    ensures
        ending == ending_of(*step, delivered),
{
    match step {
        GameStep::Stay { .. } => if delivered {
            Ending::GoOn
        } else {
            Ending::GiveUp
        },
        GameStep::Expel { .. } => Ending::GiveUp,
        GameStep::Played { finished, .. } => if *finished {
            Ending::Finish
        } else {
            Ending::GoOn
        },
    }
}

/// What becomes of a session that has a seat, given its reply to a message.
/// One without a usable clock gives up its seat.
pub fn after_reply(reply: &Result<GameStep, ClockError>, delivered: bool) -> (ending: Ending)
    ensures
        ending == (match *reply {
            Ok(step) => ending_of(step, delivered),
            Err(_) => Ending::GiveUp,
        }),
{
    match reply {
        Ok(step) => after_step(step, delivered),
        Err(_) => Ending::GiveUp,
    }
}

/// What becomes of the session that made the last move of a match, given
/// whether its room was cleared.
pub fn after_finish(cleared: bool) -> (ending: Ending)
    ensures
        ending == (if cleared {
            Ending::GoOn
        } else {
            Ending::GiveUp
        }),
{
    if cleared {
        Ending::GoOn
    } else {
        Ending::GiveUp
    }
}

/// Who is announced as the winner of a game.
pub open spec fn winner_of(result: Option<GameResult>) -> Option<Seq<char>> {
    match result {
        Some(GameResult::WhiteCheckmates) => Some("white"@),
        Some(GameResult::BlackCheckmates) => Some("black"@),
        Some(GameResult::Stalemate) => Some("draw"@),
        Some(GameResult::DrawDeclared) => Some("draw"@),
        _ => None,
    }
}

/// The name of the winner of a game, where one is announced.
pub fn announced_winner(result: Option<GameResult>) -> (winner: Option<String>)
    ensures
        match winner {
            Some(name) => winner_of(result) == Some(name@),
            None => winner_of(result) is None,
        },
{
    match result {
        Some(GameResult::WhiteCheckmates) => Some("white".to_string()),
        Some(GameResult::BlackCheckmates) => Some("black".to_string()),
        Some(GameResult::Stalemate) => Some("draw".to_string()),
        Some(GameResult::DrawDeclared) => Some("draw".to_string()),
        _ => None,
    }
}

/// The position that both players are shown after a move.
pub open spec fn position_message(played: PlayedView) -> ResponseView {
    ResponseView::Fen {
        fen: played.position,
        timestamp: played.timestamp,
        white_time: played.white_time,
        black_time: played.black_time,
    }
}

/// What is sent after a move: the position to the mover, the move and the
/// position to the opponent and, where the game is over, the winner to both.
pub open spec fn move_messages(write: u64, text: Seq<char>, played: PlayedView) -> Seq<
    DeliveryView,
> {
    let shown = seq![may_send(write, position_message(played))];
    let forwarded = match played.opponent {
        Some(opponent) => seq![
            may_send(opponent, ResponseView::Move { move_: text }),
            may_send(opponent, position_message(played)),
        ],
        None => Seq::empty(),
    };
    let ending = match winner_of(played.result) {
        Some(winner) => {
            let over = ResponseView::GameOver { winner, timeout: false };
            last_word(write, over) + last_word_if(played.opponent, over)
        },
        None => Seq::empty(),
    };
    shown + forwarded + ending
}

/// What is sent when the time of the player to move is up.
pub open spec fn timeout_messages(plan: TimerPlan) -> Seq<DeliveryView> {
    let over = ResponseView::GameOver { winner: plan.mover.label(), timeout: true };
    last_word(plan.write, over) + last_word_if(plan.opponent, over)
}

/// What is sent when a match is called off.
pub open spec fn cancel_messages(streams: Seq<Option<u64>>) -> Seq<DeliveryView> {
    last_word_if(streams[0], ResponseView::GameCanceled) + last_word_if(
        streams[1],
        ResponseView::GameCanceled,
    )
}

/// Tells both players what a move led to.
pub fn move_deliveries(write: u64, text: &String, played: &PlayedMove) -> (deliveries: Vec<
    Delivery,
>)
    ensures
        deliveries_view(deliveries@) == move_messages(write, text@, played@),
{
    let mut deliveries = no_deliveries();
    push_may(
        &mut deliveries,
        write,
        Response::Fen {
            fen: played.position.clone(),
            timestamp: played.timestamp,
            white_time: played.white_time,
            black_time: played.black_time,
        },
    );
    if let Some(opponent) = played.opponent {
        push_may(&mut deliveries, opponent, Response::Move { move_: text.clone() });
        push_may(
            &mut deliveries,
            opponent,
            Response::Fen {
                fen: played.position.clone(),
                timestamp: played.timestamp,
                white_time: played.white_time,
                black_time: played.black_time,
            },
        );
    }
    if let Some(winner) = announced_winner(played.result) {
        push_may(
            &mut deliveries,
            write,
            Response::GameOver { winner: winner.clone(), timeout: false },
        );
        push_close(&mut deliveries, write);
        if let Some(opponent) = played.opponent {
            push_may(&mut deliveries, opponent, Response::GameOver { winner, timeout: false });
            push_close(&mut deliveries, opponent);
        }
    }
    assert(deliveries_view(deliveries@) =~= move_messages(write, text@, played@));
    deliveries
}

/// Tells both players that the match is off.
pub fn cancel_deliveries(streams: &[Option<u64>; 2]) -> (deliveries: Vec<Delivery>)
    ensures
        deliveries_view(deliveries@) == cancel_messages(streams@),
{
    let mut deliveries = no_deliveries();
    if let Some(to) = streams[0] {
        push_may(&mut deliveries, to, Response::GameCanceled);
        push_close(&mut deliveries, to);
    }
    if let Some(to) = streams[1] {
        push_may(&mut deliveries, to, Response::GameCanceled);
        push_close(&mut deliveries, to);
    }
    assert(deliveries_view(deliveries@) =~= cancel_messages(streams@));
    deliveries
}

impl TimerPlan {
    /// Tells both players that the time is up.
    pub fn deliveries(&self) -> (deliveries: Vec<Delivery>)
        ensures
            deliveries_view(deliveries@) == timeout_messages(*self),
    {
        let mut deliveries = no_deliveries();
        push_may(
            &mut deliveries,
            self.write,
            Response::GameOver { winner: self.mover.name(), timeout: true },
        );
        push_close(&mut deliveries, self.write);
        if let Some(opponent) = self.opponent {
            push_may(
                &mut deliveries,
                opponent,
                Response::GameOver { winner: self.mover.name(), timeout: true },
            );
            push_close(&mut deliveries, opponent);
        }
        assert(deliveries_view(deliveries@) =~= timeout_messages(*self));
        deliveries
    }
}

impl GameInner {
    /// The clocks allow a message to be taken.
    pub open spec fn fits(self, room: Room, msg: GameMessage, now: u128) -> bool {
        msg is Text && now <= u64::MAX ==> room.clocks_fit(self.color, now as u64)
    }

    /// Whether a message can be taken by the clocks of this room.
    pub fn can_take(&self, room: &Room, msg: &GameMessage, now: u128) -> (r: bool)
        ensures
            r == self.fits(*room, *msg, now),
    {
        match (msg, millis(now)) {
            (GameMessage::Text(_), Ok(now)) => room.can_time(self.color, now),
            _ => true,
        }
    }

    /// The timer that runs once the move of this session led to this room.
    pub open spec fn timer_after(self, post: Room, timer: u64) -> Option<TimerPlan> {
        if game_outcome(post.actions()) is None {
            Some(
                TimerPlan {
                    timer,
                    after: post.remaining_time@[self.color.other().index()],
                    mover: self.color,
                    write: self.write,
                    opponent: post.write_streams@[self.color.other().index()],
                },
            )
        } else {
            None
        }
    }

    /// The step sends these messages and the session goes on.
    pub open spec fn stays(step: GameStep, messages: Seq<DeliveryView>) -> bool {
        step matches GameStep::Stay { deliveries } && deliveries_view(deliveries@) == messages
    }

    /// The step of a session that sent this text, at this time.
    pub open spec fn answers(
        self,
        pre: Room,
        post: Room,
        text: Seq<char>,
        now: u64,
        timer: u64,
        step: GameStep,
    ) -> bool {
        match pre.verdict(self.color, self.key, text, now) {
            PlayVerdict::OutOfTime => post == pre && Self::stays(step, Seq::empty()),
            PlayVerdict::InvalidKey => post == pre && (step matches GameStep::Expel { deliveries }
                && deliveries_view(deliveries@) == seq![
                must_send(self.write, ResponseView::InvalidKey),
            ]),
            PlayVerdict::OutOfTurn => post == pre && Self::stays(
                step,
                seq![must_send(self.write, ResponseView::OutOfTurnMove)],
            ),
            PlayVerdict::InvalidMove => post == pre && Self::stays(
                step,
                seq![must_send(self.write, ResponseView::InvalidMove)],
            ),
            PlayVerdict::Accepted(mv) => {
                &&& moved(pre, post, self.color, mv, now, timer)
                &&& step matches GameStep::Played {
                    aborted,
                    timer: started,
                    deliveries,
                    finished,
                }
                &&& aborted == pre.player_timeout
                &&& started == self.timer_after(post, timer)
                &&& deliveries_view(deliveries@) == move_messages(
                    self.write,
                    text,
                    seen_after(post, self.color),
                )
                &&& finished == (game_outcome(post.actions()) is Some)
            },
        }
    }

    /// What this session does about a message, and what becomes of its room.
    pub open spec fn replies(
        self,
        pre: Room,
        post: Room,
        msg: GameMessage,
        now: u128,
        timer: u64,
        r: Result<GameStep, ClockError>,
    ) -> bool {
        match msg {
            GameMessage::Other => post == pre && (r matches Ok(step) && Self::stays(
                step,
                Seq::empty(),
            )),
            GameMessage::Text(text) => if now > u64::MAX {
                post == pre && r == Err::<GameStep, ClockError>(ClockError::TooLarge)
            } else {
                r matches Ok(step) && self.answers(pre, post, text@, now as u64, timer, step)
            },
        }
    }

    /// Takes a message of a player. `now` is the time on the server's clock
    /// and `timer` the number for a timer that is to be started.
    pub fn try_next(&self, room: &mut Room, msg: &GameMessage, now: u128, timer: u64) -> (r: Result<
        GameStep,
        ClockError,
    >)
        requires
            old(room).wf(),
            self.fits(*old(room), *msg, now),
        ensures
            final(room).wf(),
            self.replies(*old(room), *final(room), *msg, now, timer, r),
            // each legal move of a player with time, the key and the turn is taken
            (r matches Ok(step) && step is Played) <==> {
                &&& now <= u64::MAX
                &&& msg matches GameMessage::Text(text)
                &&& old(room).time_for(self.color, now as u64) != 0
                &&& old(room).key_of(self.color) == Some(self.key)
                &&& turn(old(room).actions()) == self.color
                &&& game_outcome(old(room).actions()) is None
                &&& move_of(text@) matches Some(mv) && is_legal(old(room).actions(), mv)
            },
            (r matches Ok(step) && step is Played) ==> {
                &&& final(room).actions().len() > old(room).actions().len()
                &&& msg matches GameMessage::Text(text) && (move_of(text@) matches Some(mv)
                    && final(room).actions().take(old(room).actions().len() as int + 1) == old(room).actions().push(GameAction::MakeMove(mv)))
            },
    {
        let mut deliveries = no_deliveries();
        let text: &String = match msg {
            GameMessage::Text(text) => text,
            GameMessage::Other => {
                return Ok(GameStep::Stay { deliveries });
            },
        };
        let now: u64 = match millis(now) {
            Ok(ms) => ms,
            Err(e) => {
                return Err(e);
            },
        };
        let played = match room.play(self.color, self.key, text.as_str(), now, timer) {
            PlayOutcome::OutOfTime => {
                return Ok(GameStep::Stay { deliveries });
            },
            PlayOutcome::InvalidKey => {
                push_must(&mut deliveries, self.write, Response::InvalidKey);
                return Ok(GameStep::Expel { deliveries });
            },
            PlayOutcome::OutOfTurn => {
                push_must(&mut deliveries, self.write, Response::OutOfTurnMove);
                return Ok(GameStep::Stay { deliveries });
            },
            PlayOutcome::InvalidMove => {
                push_must(&mut deliveries, self.write, Response::InvalidMove);
                return Ok(GameStep::Stay { deliveries });
            },
            PlayOutcome::Played(played) => played,
        };
        let started: Option<TimerPlan> = if played.result.is_none() {
            Some(
                TimerPlan {
                    timer,
                    after: played.opponent_time,
                    mover: self.color,
                    write: self.write,
                    opponent: played.opponent,
                },
            )
        } else {
            None
        };
        let finished: bool = announced_winner(played.result).is_some();
        proof {
            lemma_every_ending_is_announced(*room);
        }
        Ok(
            GameStep::Played {
                aborted: played.aborted,
                timer: started,
                deliveries: move_deliveries(self.write, text, &played),
                finished,
            },
        )
    }

    /// Gives up the seat of a session that has failed or whose connection was
    /// closed, unless the room has gone on to another match. Returns whether
    /// the room is to be cleared.
    pub fn exit(&self, room: &mut Room) -> (emptied: bool)
        requires
            old(room).wf(),
        ensures
            final(room).wf(),
            old(room).outdated(self.color, self.key) ==> *final(room) == *old(room) && !emptied,
            !old(room).outdated(self.color, self.key) ==> {
                &&& unplugged(*old(room), *final(room), self.color)
                &&& emptied == final(room).deserted()
            },
    {
        room.disconnect(self.color, self.key)
    }
}

/// Whatever ends a game in a room is announced to the players.
pub proof fn lemma_every_ending_is_announced(room: Room)
    requires
        room.wf(),
    ensures
        winner_of(game_outcome(room.actions())) is Some <==> game_outcome(room.actions()) is Some,
{
    let actions = room.actions();
    if actions.len() > 0 {
        assert(actions.last() == actions[actions.len() - 1]);
    }
}

/// What happens to a connection.
#[derive(Clone, Copy, Debug, PartialEq, Eq, Structural)]
pub enum ConnectionEvent {
    Heartbeat,
    Message,
    ReadFailed,
    Ended,
    TimedOut,
}

/// What is done about it.
#[derive(Clone, Copy, Debug, PartialEq, Eq, Structural)]
pub enum ConnectionAction {
    /// Send a ping, and fail where that fails.
    Ping,
    /// Hand the message to the session.
    Handle,
    /// Drop the connection as it is.
    Fail,
    /// Stop, after a player has given up the seat.
    Finish { exit: bool },
}

/// What to do about what happened to a connection. Only a connection that was
/// closed in order gives up its seat.
pub fn on_event(state: &ServerState, event: ConnectionEvent) -> (action: ConnectionAction)
    ensures
        action == (match event {
            ConnectionEvent::Heartbeat => ConnectionAction::Ping,
            ConnectionEvent::Message => ConnectionAction::Handle,
            ConnectionEvent::ReadFailed => ConnectionAction::Fail,
            ConnectionEvent::Ended => ConnectionAction::Finish { exit: state is Game },
            ConnectionEvent::TimedOut => ConnectionAction::Fail,
        }),
{
    match event {
        ConnectionEvent::Heartbeat => ConnectionAction::Ping,
        ConnectionEvent::Message => ConnectionAction::Handle,
        ConnectionEvent::ReadFailed => ConnectionAction::Fail,
        ConnectionEvent::Ended => match state {
            ServerState::Game(_) => ConnectionAction::Finish { exit: true },
            _ => ConnectionAction::Finish { exit: false },
        },
        ConnectionEvent::TimedOut => ConnectionAction::Fail,
    }
}

} // verus!
