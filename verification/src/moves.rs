use std::str::FromStr;
use vstd::prelude::*;

verus! {

/// A move as plain numbers. Squares count from a1 along the ranks, so that h1
/// is 7, a2 is 8 and h8 is 63. A promotion is the place of the new piece in
/// pawn, knight, bishop, rook, queen, king.
#[derive(Clone, Copy, Debug, PartialEq, Eq, Structural)]
pub struct MoveValue {
    pub source: u8,
    pub dest: u8,
    pub promotion: Option<u8>,
}

impl MoveValue {
    /// Both squares lie on the board and the promotion names a piece.
    pub open spec fn wf(self) -> bool {
        &&& self.source < 64
        &&& self.dest < 64
        &&& self.promotion matches Some(p) ==> p < 6
    }

    /// The promotion, if there is one, is to a piece that a pawn can become.
    pub open spec fn promotes_properly(self) -> bool {
        self.promotion matches Some(p) ==> 1 <= p <= 4
    }
}

/// The letter of a file, 0 to 7.
pub open spec fn file_char(file: int) -> char {
    (('a' as int) + file) as char
}

/// The digit of a rank, 0 to 7.
pub open spec fn rank_char(rank: int) -> char {
    (('1' as int) + rank) as char
}

/// The letter of a piece.
pub open spec fn piece_char(piece: u8) -> char {
    if piece == 0 {
        'p'
    } else if piece == 1 {
        'n'
    } else if piece == 2 {
        'b'
    } else if piece == 3 {
        'r'
    } else if piece == 4 {
        'q'
    } else {
        'k'
    }
}

/// The text of a move: its two squares and the letter of the promotion.
pub open spec fn move_chars(mv: MoveValue) -> Seq<char> {
    let squares = seq![
        file_char(mv.source as int % 8),
        rank_char(mv.source as int / 8),
        file_char(mv.dest as int % 8),
        rank_char(mv.dest as int / 8),
    ];
    match mv.promotion {
        Some(p) => squares.push(piece_char(p)),
        None => squares,
    }
}

/// The square that a letter and a digit name.
pub open spec fn named_square(file: char, rank: char) -> Option<u8> {
    if 'a' <= file <= 'h' && '1' <= rank <= '8' {
        Some((8 * (rank as int - '1' as int) + (file as int - 'a' as int)) as u8)
    } else {
        None
    }
}

/// The piece that a promotion letter asks for.
pub open spec fn promotion_piece(letter: char) -> Option<u8> {
    if letter == 'n' {
        Some(1u8)
    } else if letter == 'b' {
        Some(2u8)
    } else if letter == 'r' {
        Some(3u8)
    } else if letter == 'q' {
        Some(4u8)
    } else {
        None
    }
}

/// The move that a text stands for. The first four characters name two
/// squares. A text of five bytes ends in a promotion letter; in any other
/// text, whatever follows the squares is passed over.
pub open spec fn move_of(text: Seq<char>) -> Option<MoveValue> {
    if text.len() < 4 {
        None
    } else {
        match (named_square(text[0], text[1]), named_square(text[2], text[3])) {
            (Some(source), Some(dest)) => if text.len() == 5 && (text[4] as int) < 128 {
                match promotion_piece(text[4]) {
                    Some(p) => Some(MoveValue { source, dest, promotion: Some(p) }),
                    None => None,
                }
            } else {
                Some(MoveValue { source, dest, promotion: None })
            },
            _ => None,
        }
    }
}

#[verifier::external_type_specification]
#[verifier::external_body]
pub struct ExChessError(chess::Error);

/// `<chess::ChessMove as FromStr>::from_str`. It reads the two squares from
/// the first four bytes and, in a text of five bytes, a promotion from the
/// last one; it refuses every text that `move_of` gives no move for.
#[verifier::external_body]
pub(crate) fn read_move(text: &str) -> (r: Result<MoveValue, chess::Error>)
    ensures
        match r {
            Ok(mv) => move_of(text@) == Some(mv),
            Err(_) => move_of(text@) is None,
        },
{
    let mv = chess::ChessMove::from_str(text)?;
    Ok(MoveValue {
        source: mv.get_source().to_index() as u8,
        dest: mv.get_dest().to_index() as u8,
        promotion: mv.get_promotion().map(|p| p.to_index() as u8),
    })
}

/// `chess::ChessMove` by its `Display`: the two squares, then the letter of
/// the promotion where there is one.
#[verifier::external_body]
pub(crate) fn write_move(mv: MoveValue) -> (text: String)
    requires
        mv.wf(),
    ensures
        text@ == move_chars(mv),
{
    chess::ChessMove::new(
        chess::ALL_SQUARES[mv.source as usize],
        chess::ALL_SQUARES[mv.dest as usize],
        mv.promotion.map(|p| chess::ALL_PIECES[p as usize]),
    ).to_string()
}

/// Reads the move that a client sent.
pub fn parse_move(text: &str) -> (r: Option<MoveValue>)
    ensures
        r == move_of(text@),
        r matches Some(mv) ==> mv.wf() && mv.promotes_properly(),
{
    match read_move(text) {
        Ok(mv) => Some(mv),
        Err(_) => None,
    }
}

/// The text under which a move is recorded.
pub fn move_text(mv: MoveValue) -> (text: String)
    requires
        mv.wf(),
    ensures
        text@ == move_chars(mv),
{
    write_move(mv)
}

/// Reading the text of a move gives the move back.
pub proof fn law_move_text_reads_back(mv: MoveValue)
    requires
        mv.wf(),
        mv.promotes_properly(),
    ensures
        move_of(move_chars(mv)) == Some(mv),
{
    let text = move_chars(mv);
    assert(text[0] as int == 'a' as int + mv.source as int % 8);
    assert(text[1] as int == '1' as int + mv.source as int / 8);
    assert(text[2] as int == 'a' as int + mv.dest as int % 8);
    assert(text[3] as int == '1' as int + mv.dest as int / 8);
}

} // verus!
