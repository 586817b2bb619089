use crate::game::{action_at, action_count, game_result, side_to_move, GameAction};
#[allow(unused_imports)]
use crate::game::{game_actions, game_outcome, starts_standard, turn};
use crate::moves::{move_text, MoveValue};
#[allow(unused_imports)]
use crate::moves::move_chars;
use crate::side::Color;
use vstd::prelude::*;

verus! {

/// A step by which a match is written down.
#[derive(Clone, Copy, Debug, PartialEq, Eq, Structural)]
pub enum RecordStep {
    Move(MoveValue),
    AgreeDraw,
    Resign(Color),
}

/// A step as the record keeps it: a move by its text.
pub enum RecordEntry {
    Move(Seq<char>),
    AgreeDraw,
    Resign(Color),
}

/// Why a match could not be written down.
#[derive(Clone, Copy, Debug, PartialEq, Eq, Structural)]
pub enum RecordError {
    /// The record knows no such move at this point.
    MoveRefused,
    /// The record had the match at an end before its draw.
    DrawAfterEnd,
    /// The record had the match at an end before its resignation.
    ResignAfterEnd,
    /// A tag that every record needs was not given.
    TagMissing,
}

impl RecordStep {
    pub open spec fn wf(self) -> bool {
        self matches RecordStep::Move(mv) ==> mv.wf()
    }

    /// What it means that the record did not take this step.
    pub open spec fn refusal_error(self) -> RecordError {
        match self {
            RecordStep::Move(_) => RecordError::MoveRefused,
            RecordStep::AgreeDraw => RecordError::DrawAfterEnd,
            RecordStep::Resign(_) => RecordError::ResignAfterEnd,
        }
    }

    /// The error of a match whose record did not take this step.
    pub fn refusal(&self) -> (e: RecordError)
        ensures
            e == self.refusal_error(),
    {
        match self {
            RecordStep::Move(_) => RecordError::MoveRefused,
            RecordStep::AgreeDraw => RecordError::DrawAfterEnd,
            RecordStep::Resign(_) => RecordError::ResignAfterEnd,
        }
    }
}

impl View for RecordStep {
    type V = RecordEntry;

    open spec fn view(&self) -> RecordEntry {
        match *self {
            RecordStep::Move(mv) => RecordEntry::Move(move_chars(mv)),
            RecordStep::AgreeDraw => RecordEntry::AgreeDraw,
            RecordStep::Resign(side) => RecordEntry::Resign(side),
        }
    }
}

/// The steps that the actions of a game call for, in their order: its moves
/// and its declared draws.
pub open spec fn steps_of_actions(actions: Seq<GameAction>) -> Seq<RecordStep>
    decreases actions.len(),
{
    if actions.len() == 0 {
        Seq::empty()
    } else {
        let before = steps_of_actions(actions.drop_last());
        match actions.last() {
            GameAction::MakeMove(mv) => before.push(RecordStep::Move(mv)),
            GameAction::DeclareDraw => before.push(RecordStep::AgreeDraw),
            _ => before,
        }
    }
}

/// The steps by which a whole match is written down. A match without a result
/// was lost on time by the side to move, which is recorded as a resignation.
pub open spec fn steps_of_match(actions: Seq<GameAction>, ended: bool, to_move: Color) -> Seq<
    RecordStep,
> {
    let steps = steps_of_actions(actions);
    if ended {
        steps
    } else {
        steps.push(RecordStep::Resign(to_move))
    }
}

/// The record takes this step after these entries.
pub open spec fn takes(entries: Seq<RecordEntry>, step: RecordStep) -> bool {
    match step {
        RecordStep::Move(mv) => record_accepts(entries, move_chars(mv)),
        _ => record_ongoing(entries),
    }
}

/// What the record holds once it has taken these steps one after the other,
/// or the refusal of the first step that it did not take.
pub open spec fn recorded(steps: Seq<RecordStep>) -> Result<Seq<RecordEntry>, RecordError>
    decreases steps.len(),
{
    if steps.len() == 0 {
        Ok(Seq::empty())
    } else {
        match recorded(steps.drop_last()) {
            Err(e) => Err(e),
            Ok(entries) => if takes(entries, steps.last()) {
                Ok(entries.push(steps.last()@))
            } else {
                Err(steps.last().refusal_error())
            },
        }
    }
}

/// The tags that every record needs.
pub open spec fn needed_tags() -> Seq<Seq<char>> {
    seq!["Event"@, "Site"@, "Date"@, "Round"@, "White"@, "Black"@]
}

/// Every needed tag is among the given ones.
pub open spec fn tags_complete(tags: Seq<(Seq<char>, Seq<char>)>) -> bool {
    forall|i: int|
        #![trigger needed_tags()[i]]
        0 <= i < needed_tags().len() ==> exists|j: int|
            #![trigger tags[j]]
            0 <= j < tags.len() && tags[j].0 == needed_tags()[i]
}

/// The tags that go with every match: nothing is known but the names.
pub open spec fn unknown_tags() -> Seq<(Seq<char>, Seq<char>)> {
    seq![
        ("Event"@, "?"@),
        ("Site"@, "?"@),
        ("Date"@, "????.??.??"@),
        ("Round"@, "?"@),
        ("White"@, "?"@),
        ("Black"@, "?"@),
    ]
}

/// The text of a match with these tags, or why there is none.
pub open spec fn match_text(steps: Seq<RecordStep>, tags: Seq<(Seq<char>, Seq<char>)>) -> Result<
    Seq<char>,
    RecordError,
> {
    match recorded(steps) {
        Ok(entries) => if tags_complete(tags) {
            Ok(pgn_text(entries, tags))
        } else {
            Err(RecordError::TagMissing)
        },
        Err(e) => Err(e),
    }
}

/// Tags as sequences of characters.
pub open spec fn tags_view(tags: Seq<(String, String)>) -> Seq<(Seq<char>, Seq<char>)> {
    tags.map_values(|tag: (String, String)| (tag.0@, tag.1@))
}

#[verifier::external_type_specification]
#[verifier::external_body]
pub struct ExRecord(rschess::Board);

#[verifier::external_type_specification]
#[verifier::external_body]
pub struct ExInvalidUciMoveError(rschess::errors::InvalidUciMoveError);

#[verifier::external_type_specification]
#[verifier::external_body]
pub struct ExGameOverError(rschess::errors::GameOverError);

#[verifier::external_type_specification]
#[verifier::external_body]
pub struct ExInvalidPgnError(rschess::errors::InvalidPgnError);

/// What was done on a `rschess::Board` since it was made, oldest first: its
/// `move_history`, each move by its UCI text, then the draw where `draw_agreed`
/// is set, or the resignation of the `resigned_side`.
pub uninterp spec fn record_entries(board: rschess::Board) -> Seq<RecordEntry>;

/// The board was made at the initial position of chess.
pub uninterp spec fn record_standard(board: rschess::Board) -> bool;

/// `rschess::Board::make_move_uci` takes this text after these entries.
pub uninterp spec fn record_accepts(entries: Seq<RecordEntry>, uci: Seq<char>) -> bool;

/// `rschess::Board::is_ongoing` after these entries.
pub uninterp spec fn record_ongoing(entries: Seq<RecordEntry>) -> bool;

/// The text that `rschess::pgn::Pgn` displays for a board with these entries
/// and with these tags.
pub uninterp spec fn pgn_text(
    entries: Seq<RecordEntry>,
    tags: Seq<(Seq<char>, Seq<char>)>,
) -> Seq<char>;

/// `rschess::Board::default`: the initial position, with nothing done on it.
#[verifier::external_body]
fn new_record() -> (board: rschess::Board)
    ensures
        record_standard(board),
        record_entries(board) == Seq::<RecordEntry>::empty(),
        record_ongoing(record_entries(board)),
{
    rschess::Board::default()
}

/// `rschess::Board::make_move_uci`: the move is played and added, or refused
/// with the board left as it was. No move is played once the game is over. The
/// text has to be that of a move, with a small promotion letter, under which
/// the board keeps the move.
#[verifier::external_body]
fn record_move(board: &mut rschess::Board, uci: &str) -> (r: Result<
    (),
    rschess::errors::InvalidUciMoveError,
>)
    requires
        record_standard(*old(board)),
        exists|mv: MoveValue| mv.wf() && uci@ == #[trigger] move_chars(mv),
    ensures
        r is Ok <==> record_accepts(record_entries(*old(board)), uci@),
        r is Ok ==> record_ongoing(record_entries(*old(board))),
        r is Ok ==> record_entries(*final(board)) == record_entries(*old(board)).push(
            RecordEntry::Move(uci@),
        ),
        r is Ok ==> record_standard(*final(board)),
        r is Err ==> *final(board) == *old(board),
{
    board.make_move_uci(uci)
}

/// `rschess::Board::agree_draw`: it ends an ongoing game and refuses any
/// other.
#[verifier::external_body]
fn record_draw(board: &mut rschess::Board) -> (r: Result<(), rschess::errors::GameOverError>)
    requires
        record_standard(*old(board)),
    ensures
        r is Ok <==> record_ongoing(record_entries(*old(board))),
        r is Ok ==> record_entries(*final(board)) == record_entries(*old(board)).push(
            RecordEntry::AgreeDraw,
        ),
        r is Ok ==> !record_ongoing(record_entries(*final(board))),
        r is Ok ==> record_standard(*final(board)),
        r is Err ==> *final(board) == *old(board),
{
    board.agree_draw()
}

/// `rschess::Board::resign`: it ends an ongoing game and refuses any other.
#[verifier::external_body]
fn record_resignation(board: &mut rschess::Board, side: Color) -> (r: Result<
    (),
    rschess::errors::GameOverError,
>)
    requires
        record_standard(*old(board)),
    ensures
        r is Ok <==> record_ongoing(record_entries(*old(board))),
        r is Ok ==> record_entries(*final(board)) == record_entries(*old(board)).push(
            RecordEntry::Resign(side),
        ),
        r is Ok ==> !record_ongoing(record_entries(*final(board))),
        r is Ok ==> record_standard(*final(board)),
        r is Err ==> *final(board) == *old(board),
{
    match side {
        Color::White => board.resign(rschess::Color::White),
        Color::Black => board.resign(rschess::Color::Black),
    }
}

/// `rschess::pgn::Pgn::from_board`, then the `Display` of the `Pgn`. Tags that
/// lack one of the first six of the seven tag roster are refused. The text
/// holds the tags, the moves and the result.
#[verifier::external_body]
fn write_pgn(board: rschess::Board, tags: Vec<(String, String)>) -> (r: Result<
    String,
    rschess::errors::InvalidPgnError,
>)
    requires
        record_standard(board),
    ensures
        r is Ok <==> tags_complete(tags_view(tags@)),
        r matches Ok(text) ==> text@ == pgn_text(record_entries(board), tags_view(tags@)),
{
    rschess::pgn::Pgn::from_board(board, tags).map(|pgn| pgn.to_string())
}

/// The actions of a game, oldest first.
pub fn list_actions(game: &chess::Game) -> (actions: Vec<GameAction>)
    ensures
        actions@ == game_actions(*game),
        forall|i: int|
            0 <= i < actions@.len() ==> (#[trigger] actions@[i] matches GameAction::MakeMove(mv)
                ==> mv.wf()),
{
    let n: usize = action_count(game);
    let mut actions: Vec<GameAction> = Vec::new();
    let mut i: usize = 0;
    while i < n
        invariant
            i <= n,
            n == game_actions(*game).len(),
            actions@ == game_actions(*game).take(i as int),
            forall|j: int|
                0 <= j < actions@.len() ==> (#[trigger] actions@[j] matches GameAction::MakeMove(mv)
                    ==> mv.wf()),
        decreases n - i,
    {
        actions.push(action_at(game, i));
        i = i + 1;
        assert(actions@ =~= game_actions(*game).take(i as int));
    }
    assert(actions@ =~= game_actions(*game));
    actions
}

/// The steps by which a match with these actions is written down, given
/// whether it has a result and which side was to move.
pub fn record_steps(actions: &Vec<GameAction>, ended: bool, to_move: Color) -> (steps: Vec<
    RecordStep,
>)
    ensures
        steps@ == steps_of_match(actions@, ended, to_move),
        (forall|i: int|
            0 <= i < actions@.len() ==> (#[trigger] actions@[i] matches GameAction::MakeMove(mv)
                ==> mv.wf())) ==> forall|i: int|
            0 <= i < steps@.len() ==> (#[trigger] steps@[i]).wf(),
{
    let mut steps: Vec<RecordStep> = Vec::new();
    let mut i: usize = 0;
    assert(actions@.take(0) =~= Seq::<GameAction>::empty());
    while i < actions.len()
        invariant
            i <= actions@.len(),
            steps@ == steps_of_actions(actions@.take(i as int)),
            (forall|j: int|
                0 <= j < actions@.len() ==> (#[trigger] actions@[j] matches GameAction::MakeMove(mv)
                    ==> mv.wf())) ==> forall|j: int|
                0 <= j < steps@.len() ==> (#[trigger] steps@[j]).wf(),
        decreases actions@.len() - i,
    {
        assert(actions@.take(i + 1).drop_last() =~= actions@.take(i as int));
        assert(actions@.take(i + 1).last() == actions@[i as int]);
        match actions[i] {
            GameAction::MakeMove(mv) => {
                steps.push(RecordStep::Move(mv));
            },
            GameAction::DeclareDraw => {
                steps.push(RecordStep::AgreeDraw);
            },
            _ => {},
        }
        i = i + 1;
    }
    assert(actions@.take(i as int) =~= actions@);
    if !ended {
        steps.push(RecordStep::Resign(to_move));
    }
    steps
}

/// The tags of every match.
pub fn match_tags() -> (tags: Vec<(String, String)>)
    ensures
        tags_view(tags@) == unknown_tags(),
{
    let mut tags: Vec<(String, String)> = Vec::new();
    tags.push(("Event".to_string(), "?".to_string()));
    tags.push(("Site".to_string(), "?".to_string()));
    tags.push(("Date".to_string(), "????.??.??".to_string()));
    tags.push(("Round".to_string(), "?".to_string()));
    tags.push(("White".to_string(), "?".to_string()));
    tags.push(("Black".to_string(), "?".to_string()));
    assert(tags_view(tags@) =~= unknown_tags());
    tags
}

/// Once a step was refused, so is every longer list of steps.
proof fn lemma_refusal_stays(steps: Seq<RecordStep>, n: int)
    requires
        0 <= n <= steps.len(),
        recorded(steps.take(n)) is Err,
    ensures
        recorded(steps) == recorded(steps.take(n)),
    decreases steps.len() - n,
{
    if n < steps.len() {
        assert(steps.take(n + 1).drop_last() =~= steps.take(n));
        lemma_refusal_stays(steps, n + 1);
    } else {
        assert(steps.take(n) =~= steps);
    }
}

/// Writes down these steps, one after the other, and gives the text.
pub fn write_match(steps: &Vec<RecordStep>, tags: Vec<(String, String)>) -> (r: Result<
    String,
    RecordError,
>)
    requires
        forall|i: int| 0 <= i < steps@.len() ==> (#[trigger] steps@[i]).wf(),
    ensures
        match r {
            Ok(text) => match_text(steps@, tags_view(tags@)) == Ok::<Seq<char>, RecordError>(text@),
            Err(e) => match_text(steps@, tags_view(tags@)) == Err::<Seq<char>, RecordError>(e),
        },
{
    let mut board = new_record();
    let mut i: usize = 0;
    assert(steps@.take(0) =~= Seq::<RecordStep>::empty());
    while i < steps.len()
        invariant
            i <= steps@.len(),
            forall|j: int| 0 <= j < steps@.len() ==> (#[trigger] steps@[j]).wf(),
            record_standard(board),
            recorded(steps@.take(i as int)) == Ok::<Seq<RecordEntry>, RecordError>(
                record_entries(board),
            ),
        decreases steps@.len() - i,
    {
        let step: RecordStep = steps[i];
        proof {
            assert(steps@[i as int].wf());
            assert(steps@.take(i + 1).drop_last() =~= steps@.take(i as int));
            assert(steps@.take(i + 1).last() == step);
        }
        let taken: bool = match step {
            RecordStep::Move(mv) => {
                let text = move_text(mv);
                record_move(&mut board, text.as_str()).is_ok()
            },
            RecordStep::AgreeDraw => record_draw(&mut board).is_ok(),
            RecordStep::Resign(side) => record_resignation(&mut board, side).is_ok(),
        };
        if !taken {
            proof {
                lemma_refusal_stays(steps@, i + 1);
            }
            return Err(step.refusal());
        }
        i = i + 1;
    }
    assert(steps@.take(i as int) =~= steps@);
    match write_pgn(board, tags) {
        Ok(text) => Ok(text),
        Err(_) => Err(RecordError::TagMissing),
    }
}

/// The tags of every match are the needed ones, so that no match goes
/// unrecorded for want of a tag.
pub proof fn law_match_tags_are_complete()
    ensures
        tags_complete(unknown_tags()),
{
    let tags = unknown_tags();
    assert forall|i: int|
        #![trigger needed_tags()[i]]
        0 <= i < needed_tags().len() implies exists|j: int|
        #![trigger tags[j]]
        0 <= j < tags.len() && tags[j].0 == needed_tags()[i] by {
        assert(tags[i].0 == needed_tags()[i]);
    }
}

/// The text of the match that was played in a game.
pub fn match_pgn(game: &chess::Game) -> (r: Result<String, RecordError>)
    requires
        starts_standard(*game),
    ensures
        ({
            let actions = game_actions(*game);
            let steps = steps_of_match(actions, game_outcome(actions) is Some, turn(actions));
            match r {
                Ok(text) => recorded(steps) matches Ok(entries) && text@ == pgn_text(
                    entries,
                    unknown_tags(),
                ),
                Err(e) => recorded(steps) == Err::<Seq<RecordEntry>, RecordError>(e),
            }
        }),
{
    let actions = list_actions(game);
    let ended: bool = game_result(game).is_some();
    let steps = record_steps(&actions, ended, side_to_move(game));
    proof {
        law_match_tags_are_complete();
    }
    write_match(&steps, match_tags())
}

} // verus!
