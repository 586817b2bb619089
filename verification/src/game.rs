use crate::moves::MoveValue;
use crate::side::Color;
use vstd::prelude::*;

verus! {

/// What was done in a game.
#[derive(Clone, Copy, Debug, PartialEq, Eq, Structural)]
pub enum GameAction {
    MakeMove(MoveValue),
    OfferDraw(Color),
    AcceptDraw,
    DeclareDraw,
    Resign(Color),
}

/// Whether the side to move can move, and if not, whether it is in check.
#[derive(Clone, Copy, Debug, PartialEq, Eq, Structural)]
pub enum BoardStatus {
    Ongoing,
    Stalemate,
    Checkmate,
}

/// How a game ended.
#[derive(Clone, Copy, Debug, PartialEq, Eq, Structural)]
pub enum GameResult {
    WhiteCheckmates,
    WhiteResigns,
    BlackCheckmates,
    BlackResigns,
    Stalemate,
    DrawAccepted,
    DrawDeclared,
}

/// The number of moves among the actions of a game.
pub open spec fn moves_made(actions: Seq<GameAction>) -> nat
    decreases actions.len(),
{
    if actions.len() == 0 {
        0
    } else if actions.last() is MakeMove {
        moves_made(actions.drop_last()) + 1
    } else {
        moves_made(actions.drop_last())
    }
}

/// The side whose turn it is: white moves first and the sides take turns.
pub open spec fn turn(actions: Seq<GameAction>) -> Color {
    if moves_made(actions) % 2 == 0 {
        Color::White
    } else {
        Color::Black
    }
}

/// How a game with these actions, on a board in this state, has ended.
pub open spec fn outcome(actions: Seq<GameAction>, status: BoardStatus) -> Option<GameResult> {
    match status {
        BoardStatus::Checkmate => match turn(actions) {
            Color::White => Some(GameResult::BlackCheckmates),
            Color::Black => Some(GameResult::WhiteCheckmates),
        },
        BoardStatus::Stalemate => Some(GameResult::Stalemate),
        BoardStatus::Ongoing => if actions.len() == 0 {
            None
        } else {
            match actions.last() {
                GameAction::AcceptDraw => Some(GameResult::DrawAccepted),
                GameAction::DeclareDraw => Some(GameResult::DrawDeclared),
                GameAction::Resign(Color::White) => Some(GameResult::WhiteResigns),
                GameAction::Resign(Color::Black) => Some(GameResult::BlackResigns),
                _ => None,
            }
        },
    }
}

/// How a game with these actions has ended, if it has.
pub open spec fn game_outcome(actions: Seq<GameAction>) -> Option<GameResult> {
    outcome(actions, board_status(actions))
}

/// The initial position of chess.
pub open spec fn initial_position() -> Seq<char> {
    "rnbqkbnr/pppppppp/8/8/8/8/PPPPPPPP/RNBQKBNR w KQkq - 0 1"@
}

#[verifier::external_type_specification]
#[verifier::external_body]
pub struct ExGame(chess::Game);

/// The actions that a `chess::Game` holds, oldest first.
pub uninterp spec fn game_actions(game: chess::Game) -> Seq<GameAction>;

/// The game began at the initial position of chess.
pub uninterp spec fn starts_standard(game: chess::Game) -> bool;

/// `chess::Board::status` after the moves among these actions, from the
/// initial position.
pub uninterp spec fn board_status(actions: Seq<GameAction>) -> BoardStatus;

/// `chess::Board::legal` after the moves among these actions, from the
/// initial position.
pub uninterp spec fn is_legal(actions: Seq<GameAction>, mv: MoveValue) -> bool;

/// `chess::Game::can_declare_draw` after these actions, from the initial
/// position.
pub uninterp spec fn draw_declarable(actions: Seq<GameAction>) -> bool;

/// The text by which `chess::Board` displays the position after these
/// actions, from the initial position.
pub uninterp spec fn position_text(actions: Seq<GameAction>) -> Seq<char>;

/// `chess::Game::new`: a game at the initial position in which nothing was
/// done. Nobody is mated or stalemated there.
#[verifier::external_body]
pub(crate) fn new_game() -> (game: chess::Game)
    ensures
        starts_standard(game),
        game_actions(game) == Seq::<GameAction>::empty(),
        board_status(game_actions(game)) == BoardStatus::Ongoing,
        position_text(game_actions(game)) == initial_position(),
{
    chess::Game::new()
}

/// The length of `chess::Game::actions`.
#[verifier::external_body]
pub(crate) fn action_count(game: &chess::Game) -> (n: usize)
    ensures
        n == game_actions(*game).len(),
{
    game.actions().len()
}

/// One item of `chess::Game::actions`. The squares and the promotion of a
/// move lie on the board and among the pieces.
#[verifier::external_body]
pub(crate) fn action_at(game: &chess::Game, i: usize) -> (action: GameAction)
    requires
        i < game_actions(*game).len(),
    ensures
        action == game_actions(*game)[i as int],
        action matches GameAction::MakeMove(mv) ==> mv.wf(),
{
    match game.actions()[i] {
        chess::Action::MakeMove(mv) => GameAction::MakeMove(MoveValue {
            source: mv.get_source().to_index() as u8,
            dest: mv.get_dest().to_index() as u8,
            promotion: mv.get_promotion().map(|p| p.to_index() as u8),
        }),
        chess::Action::OfferDraw(chess::Color::White) => GameAction::OfferDraw(Color::White),
        chess::Action::OfferDraw(chess::Color::Black) => GameAction::OfferDraw(Color::Black),
        chess::Action::AcceptDraw => GameAction::AcceptDraw,
        chess::Action::DeclareDraw => GameAction::DeclareDraw,
        chess::Action::Resign(chess::Color::White) => GameAction::Resign(Color::White),
        chess::Action::Resign(chess::Color::Black) => GameAction::Resign(Color::Black),
    }
}

/// `chess::Game::side_to_move`: it counts the moves and alternates from the
/// side that began, which is white at the initial position.
#[verifier::external_body]
pub(crate) fn side_to_move(game: &chess::Game) -> (side: Color)
    requires
        starts_standard(*game),
    ensures
        side == turn(game_actions(*game)),
{
    match game.side_to_move() {
        chess::Color::White => Color::White,
        chess::Color::Black => Color::Black,
    }
}

/// `chess::Game::make_move`: a legal move is taken while the game has no
/// result. A refused move leaves the game as it was.
#[verifier::external_body]
pub(crate) fn make_move(game: &mut chess::Game, mv: MoveValue) -> (taken: bool)
    requires
        starts_standard(*old(game)),
        mv.wf(),
    ensures
        taken == (outcome(game_actions(*old(game)), board_status(game_actions(*old(game)))) is None
            && is_legal(game_actions(*old(game)), mv)),
        taken ==> game_actions(*final(game)) == game_actions(*old(game)).push(
            GameAction::MakeMove(mv),
        ),
        taken ==> starts_standard(*final(game)),
        !taken ==> *final(game) == *old(game),
{
    game.make_move(chess::ChessMove::new(
        chess::ALL_SQUARES[mv.source as usize],
        chess::ALL_SQUARES[mv.dest as usize],
        mv.promotion.map(|p| chess::ALL_PIECES[p as usize]),
    ))
}

/// `chess::Game::can_declare_draw`: never after the game has a result.
#[verifier::external_body]
pub(crate) fn can_declare_draw(game: &chess::Game) -> (can: bool)
    requires
        starts_standard(*game),
    ensures
        can == draw_declarable(game_actions(*game)),
        can ==> outcome(game_actions(*game), board_status(game_actions(*game))) is None,
{
    game.can_declare_draw()
}

/// `chess::Game::declare_draw`: the draw is added to the actions where it can
/// be declared. It moves no piece, so the board stays as it is.
#[verifier::external_body]
pub(crate) fn declare_draw(game: &mut chess::Game) -> (declared: bool)
    requires
        starts_standard(*old(game)),
    ensures
        declared == draw_declarable(game_actions(*old(game))),
        declared ==> game_actions(*final(game)) == game_actions(*old(game)).push(
            GameAction::DeclareDraw,
        ),
        declared ==> board_status(game_actions(*final(game))) == board_status(
            game_actions(*old(game)),
        ),
        declared ==> position_text(game_actions(*final(game))) == position_text(
            game_actions(*old(game)),
        ),
        declared ==> starts_standard(*final(game)),
        !declared ==> *final(game) == *old(game),
{
    game.declare_draw()
}

/// `chess::Game::result`: mate and stalemate come from the board, every other
/// ending from the last action.
#[verifier::external_body]
pub(crate) fn game_result(game: &chess::Game) -> (result: Option<GameResult>)
    requires
        starts_standard(*game),
    ensures
        result == outcome(game_actions(*game), board_status(game_actions(*game))),
{
    game.result().map(|r| match r {
        chess::GameResult::WhiteCheckmates => GameResult::WhiteCheckmates,
        chess::GameResult::WhiteResigns => GameResult::WhiteResigns,
        chess::GameResult::BlackCheckmates => GameResult::BlackCheckmates,
        chess::GameResult::BlackResigns => GameResult::BlackResigns,
        chess::GameResult::Stalemate => GameResult::Stalemate,
        chess::GameResult::DrawAccepted => GameResult::DrawAccepted,
        chess::GameResult::DrawDeclared => GameResult::DrawDeclared,
    })
}

/// `chess::Game::current_position` by the `Display` of `chess::Board`.
#[verifier::external_body]
pub(crate) fn current_position(game: &chess::Game) -> (text: String)
    requires
        starts_standard(*game),
    ensures
        text@ == position_text(game_actions(*game)),
{
    game.current_position().to_string()
}

} // verus!
