use vstd::prelude::*;

verus! {

/// The side that a player has in a match.
#[derive(Clone, Copy, Debug, PartialEq, Eq, Structural)]
pub enum Color {
    White,
    Black,
}

impl Color {
    /// The place of this side in every pair that a room keeps: white first.
    pub open spec fn index(self) -> int {
        match self {
            Color::White => 0,
            Color::Black => 1,
        }
    }

    /// The other side.
    pub open spec fn other(self) -> Color {
        match self {
            Color::White => Color::Black,
            Color::Black => Color::White,
        }
    }

    /// The name under which clients know this side.
    pub open spec fn label(self) -> Seq<char> {
        match self {
            Color::White => "white"@,
            Color::Black => "black"@,
        }
    }

    /// The place of this side in every pair that a room keeps.
    pub fn to_index(&self) -> (i: usize)
        ensures
            i == self.index(),
            i < 2,
    {
        match self {
            Color::White => 0,
            Color::Black => 1,
        }
    }

    /// The side that plays against this one.
    pub fn opponent(&self) -> (c: Color)
        ensures
            c == self.other(),
    {
        match self {
            Color::White => Color::Black,
            Color::Black => Color::White,
        }
    }

    /// The name of this side in messages.
    pub fn name(&self) -> (s: String)
        ensures
            s@ == self.label(),
    {
        match self {
            Color::White => "white".to_string(),
            Color::Black => "black".to_string(),
        }
    }
}

} // verus!
