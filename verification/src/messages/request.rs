use vstd::prelude::*;

verus! {

/// What a client may ask for before it is in a game.
#[derive(Clone, Copy, Debug, PartialEq, Eq, Structural)]
pub enum Request {
    /// Take the seat in a room that a key stands for.
    JoinRoom { room: u32, key: u64 },
    /// Tell the time on the server's clock.
    TimeSync,
}

} // verus!
