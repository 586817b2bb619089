use vstd::prelude::*;

verus! {

/// A request to be let into a room.
#[derive(Clone, Copy, Debug, PartialEq, Eq, Structural)]
pub struct ConnectionRequest {
    pub room: u32,
    pub key: u64,
}

} // verus!
