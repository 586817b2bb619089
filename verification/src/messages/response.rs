use vstd::prelude::*;

verus! {

/// What the server tells a client.
#[derive(Clone, Debug, PartialEq, Eq)]
pub enum Response {
    InvalidToken { reason: String },
    TokenValidated,
    InvalidKey,
    InvalidRequest { reason: String },
    RoomNotActive,
    Move { move_: String },
    InvalidMove,
    OutOfTurnMove,
    Fen { fen: String, timestamp: u64, white_time: u64, black_time: u64 },
    Color { color: String },
    Connected,
    GameOver { winner: String, timeout: bool },
    GameCanceled,
    TimeSync { timestamp: u64 },
}

/// A response with its texts as sequences of characters.
pub enum ResponseView {
    InvalidToken { reason: Seq<char> },
    TokenValidated,
    InvalidKey,
    InvalidRequest { reason: Seq<char> },
    RoomNotActive,
    Move { move_: Seq<char> },
    InvalidMove,
    OutOfTurnMove,
    Fen { fen: Seq<char>, timestamp: u64, white_time: u64, black_time: u64 },
    Color { color: Seq<char> },
    Connected,
    GameOver { winner: Seq<char>, timeout: bool },
    GameCanceled,
    TimeSync { timestamp: u64 },
}

impl View for Response {
    type V = ResponseView;

    open spec fn view(&self) -> ResponseView {
        match *self {
            Response::InvalidToken { reason } => ResponseView::InvalidToken { reason: reason@ },
            Response::TokenValidated => ResponseView::TokenValidated,
            Response::InvalidKey => ResponseView::InvalidKey,
            Response::InvalidRequest { reason } => ResponseView::InvalidRequest {
                reason: reason@,
            },
            Response::RoomNotActive => ResponseView::RoomNotActive,
            Response::Move { move_ } => ResponseView::Move { move_: move_@ },
            Response::InvalidMove => ResponseView::InvalidMove,
            Response::OutOfTurnMove => ResponseView::OutOfTurnMove,
            Response::Fen { fen, timestamp, white_time, black_time } => ResponseView::Fen {
                fen: fen@,
                timestamp,
                white_time,
                black_time,
            },
            Response::Color { color } => ResponseView::Color { color: color@ },
            Response::Connected => ResponseView::Connected,
            Response::GameOver { winner, timeout } => ResponseView::GameOver {
                winner: winner@,
                timeout,
            },
            Response::GameCanceled => ResponseView::GameCanceled,
            Response::TimeSync { timestamp } => ResponseView::TimeSync { timestamp },
        }
    }
}

} // verus!
