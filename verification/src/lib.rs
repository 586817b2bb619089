//! The rules of an online chess server: who may join a room, whose move is
//! taken, how the clocks run, what each player is told and what is recorded
//! of a finished match.

pub mod clock;
pub mod game;
pub mod history;
pub mod keys;
pub mod laws;
pub mod messages;
pub mod moves;
pub mod promises;
pub mod record;
pub mod room;
pub mod session;
pub mod side;
pub mod store;
