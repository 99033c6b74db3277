//! The game: the grid, the falling piece and the moves that a player or the
//! clock can make.

use crate::board::empty_board;
use crate::board::empty_rows;
use crate::board::lemma_fitting_piece_is_on_board;
use crate::board::full_row_count;
use crate::board::on_board;
use crate::board::with_piece;
use crate::board::without_full_rows;
use crate::board::Board;
use crate::position::at;
use crate::position::Position;
use crate::randombag::RandomBag;
use crate::source::ShapeSource;
use crate::source::SourceState;
use crate::tetromino::clockwise_of;
use crate::tetromino::counterclockwise_of;
use crate::tetromino::Orientation;
use crate::tetromino::Shape;
use crate::tetromino::Tetromino;
use vstd::prelude::*;

verus! {

/// The two ways to turn a piece.
#[derive(Debug, PartialEq, Eq, Copy, Clone, Structural)]
pub enum Direction {
    Clockwise,
    CounterClockwise,
}

/// The anchors of a shape in an orientation: columns and rows from which the
/// places to try after a turn are derived. Only the I shape has five of
/// them; every other shape has the one anchor `(0, 0)`, so it turns in place
/// or not at all.
pub open spec fn anchors(shape: Shape, orientation: Orientation) -> Seq<(int, int)> {
    match shape {
        Shape::I => match orientation {
            Orientation::North => seq![(0, 0), (-1, 0), (2, 0), (-1, 0), (2, 0)],
            Orientation::East => seq![(-1, 0), (0, 0), (0, 0), (0, 1), (0, -2)],
            Orientation::South => seq![(-1, 1), (1, 1), (-2, 1), (1, 0), (-2, 0)],
            Orientation::West => seq![(0, 1), (0, 1), (0, 1), (0, -1), (0, 2)],
        },
        _ => seq![(0, 0)],
    }
}

/// The moves to try, in this order, after a turn of `shape` from one
/// orientation to another: each anchor of the first orientation less the
/// anchor of the second that stands in the same place.
pub open spec fn kicks(shape: Shape, from: Orientation, to: Orientation) -> Seq<(int, int)> {
    Seq::new(
        anchors(shape, from).len(),
        |i: int|
            (
                anchors(shape, from)[i].0 - anchors(shape, to)[i].0,
                anchors(shape, from)[i].1 - anchors(shape, to)[i].1,
            ),
    )
}

/// The pairs of a sequence of arrays of two numbers.
pub open spec fn pairs(offsets: Seq<[i32; 2]>) -> Seq<(int, int)> {
    Seq::new(offsets.len(), |i: int| (offsets[i][0] as int, offsets[i][1] as int))
}

/// The orientation that a turn in `direction` leads to.
pub open spec fn turn_of(orientation: Orientation, direction: Direction) -> Orientation {
    match direction {
        Direction::Clockwise => clockwise_of(orientation),
        Direction::CounterClockwise => counterclockwise_of(orientation),
    }
}

/// The places to try after a turn of `piece` in `direction`, in the order in
/// which they are tried: the turned piece, moved by each kick in turn.
pub open spec fn turn_candidates(piece: Tetromino, direction: Direction) -> Seq<Tetromino> {
    let to = turn_of(piece.orientation, direction);
    let turned = Tetromino { orientation: to, ..piece };
    let moves = kicks(piece.shape, piece.orientation, to);
    Seq::new(moves.len(), |i: int| turned.shifted(moves[i].0, moves[i].1))
}

/// The first of `candidates` that fits on the board, if one of them does.
pub open spec fn first_fit(board: Board, candidates: Seq<Tetromino>) -> Option<Tetromino>
    decreases candidates.len(),
{
    if candidates.len() == 0 {
        None
    } else if board.fits(candidates.first()) {
        Some(candidates.first())
    } else {
        first_fit(board, candidates.drop_first())
    }
}

/// The place where every piece enters the grid.
pub open spec fn start() -> Position {
    at(4, 22)
}

/// A fresh piece of `shape`: at the start, pointing north.
pub open spec fn fresh(shape: Shape) -> Tetromino {
    Tetromino { position: start(), shape, orientation: Orientation::North }
}

/// The place where every piece enters the grid: column 4 of row 22.
pub fn start_position() -> (position: Position)
    ensures
        position == start(),
{
    Position::new(4, 22)
}

/// A fresh piece of `shape`: at the start, pointing north.
pub fn spawn(shape: Shape) -> (piece: Tetromino)
    ensures
        piece == fresh(shape),
{
    Tetromino::new(start_position(), shape)
}

/// The anchors of the I shape in an orientation.
pub fn offset_table_i(orientation: Orientation) -> (table: Vec<[i32; 2]>)
    ensures
        pairs(table@) == anchors(Shape::I, orientation),
{
    let table = match orientation {
        Orientation::North => vec![[0, 0], [-1, 0], [2, 0], [-1, 0], [2, 0]],
        Orientation::East => vec![[-1, 0], [0, 0], [0, 0], [0, 1], [0, -2]],
        Orientation::South => vec![[-1, 1], [1, 1], [-2, 1], [1, 0], [-2, 0]],
        Orientation::West => vec![[0, 1], [0, 1], [0, 1], [0, -1], [0, 2]],
    };
    assert(pairs(table@) =~= anchors(Shape::I, orientation));
    table
}

/// The anchors of a shape in an orientation.
pub fn offset_table(shape: Shape, orientation: Orientation) -> (table: Vec<[i32; 2]>)
    ensures
        pairs(table@) == anchors(shape, orientation),
{
    match shape {
        Shape::I => offset_table_i(orientation),
        _ => {
            let table = vec![[0, 0]];
            assert(pairs(table@) =~= anchors(shape, orientation));
            table
        },
    }
}

/// No anchor is more than two columns or two rows away from the pivot, and
/// the anchors of one shape are as many in every orientation.
pub proof fn lemma_anchors_are_near(shape: Shape, orientation: Orientation, i: int)
    requires
        0 <= i < anchors(shape, orientation).len(),
    ensures
        -2 <= anchors(shape, orientation)[i].0 <= 2,
        -2 <= anchors(shape, orientation)[i].1 <= 2,
        anchors(shape, orientation).len() == anchors(shape, Orientation::North).len(),
{
}

/// The kicks for a turn of `shape` from one orientation to another, in the
/// order in which they are tried.
pub fn offsets(shape: Shape, from: Orientation, to: Orientation) -> (moves: Vec<[i32; 2]>)
    ensures
        pairs(moves@) == kicks(shape, from, to),
{
    let from_offsets = offset_table(shape, from);
    let to_offsets = offset_table(shape, to);
    let mut moves: Vec<[i32; 2]> = Vec::new();
    let mut i: usize = 0;
    proof {
        lemma_anchors_are_near(shape, from, 0);
        lemma_anchors_are_near(shape, to, 0);
        assert(pairs(from_offsets@).len() == pairs(to_offsets@).len());
    }
    while i < from_offsets.len()
        invariant
            i <= from_offsets.len(),
            from_offsets.len() == to_offsets.len(),
            pairs(from_offsets@) == anchors(shape, from),
            pairs(to_offsets@) == anchors(shape, to),
            moves.len() == i,
            from_offsets.len() == kicks(shape, from, to).len(),
            pairs(moves@) == kicks(shape, from, to).take(i as int),
        decreases from_offsets.len() - i,
    {
        proof {
            lemma_anchors_are_near(shape, from, i as int);
            lemma_anchors_are_near(shape, to, i as int);
            assert(pairs(from_offsets@)[i as int] == anchors(shape, from)[i as int]);
            assert(pairs(to_offsets@)[i as int] == anchors(shape, to)[i as int]);
        }
        let a = from_offsets[i];
        let b = to_offsets[i];
        let ghost before = moves@;
        let kick = [a[0] - b[0], a[1] - b[1]];
        moves.push(kick);
        proof {
            assert forall|k: int| 0 <= k < i + 1 implies pairs(moves@)[k] == kicks(
                shape,
                from,
                to,
            )[k] by {
                if k < i {
                    assert(pairs(before)[k] == kicks(shape, from, to).take(i as int)[k]);
                } else {
                    assert(moves@[k] == kick);
                }
            }
            assert(pairs(moves@) =~= kicks(shape, from, to).take(i + 1));
        }
        i += 1;
    }
    assert(kicks(shape, from, to).take(i as int) =~= kicks(shape, from, to));
    moves
}

/// The places to try after a turn of `t`, in the order in which they are
/// tried. No kick goes further than four columns or four rows, and the pivot
/// has to stay within the range of the coordinates over that distance.
pub fn rotation_candidates(t: Tetromino, direction: Direction) -> (candidates: Vec<Tetromino>)
    requires
        t.can_shift(-4, -4),
        t.can_shift(4, 4),
    ensures
        candidates@ == turn_candidates(t, direction),
{
    let new_t = match direction {
        Direction::Clockwise => t.get_rotated_clockwise(),
        Direction::CounterClockwise => t.get_rotated_counterclockwise(),
    };
    let moves = offsets(t.shape, t.orientation, new_t.orientation);
    let ghost wanted = kicks(t.shape, t.orientation, new_t.orientation);
    let mut candidates: Vec<Tetromino> = Vec::new();
    let mut i: usize = 0;
    while i < moves.len()
        invariant
            i <= moves.len(),
            t.can_shift(-4, -4),
            t.can_shift(4, 4),
            new_t == (Tetromino { orientation: turn_of(t.orientation, direction), ..t }),
            wanted == kicks(t.shape, t.orientation, new_t.orientation),
            pairs(moves@) == wanted,
            candidates.len() == i,
            moves.len() == turn_candidates(t, direction).len(),
            candidates@ == turn_candidates(t, direction).take(i as int),
        decreases moves.len() - i,
    {
        proof {
            lemma_anchors_are_near(t.shape, t.orientation, i as int);
            lemma_anchors_are_near(t.shape, new_t.orientation, 0);
            lemma_anchors_are_near(t.shape, new_t.orientation, i as int);
            assert(pairs(moves@)[i as int] == wanted[i as int]);
        }
        candidates.push(new_t.get_offset(moves[i]));
        assert(candidates@ =~= turn_candidates(t, direction).take(i + 1));
        i += 1;
    }
    assert(turn_candidates(t, direction).take(i as int) =~= turn_candidates(t, direction));
    candidates
}

/// How many rows `piece` falls on `board` when it is let go: it moves down
/// row by row for as long as the place below fits. With its pivot on the
/// floor or under it a piece falls no further, as no place below fits.
pub open spec fn fall(board: Board, piece: Tetromino) -> nat
    decreases piece.position.y,
{
    if piece.position.y > 0 && board.fits(piece.shifted(0, -1)) {
        1 + fall(board, piece.shifted(0, -1))
    } else {
        0
    }
}

/// A game in play.
pub struct Game {
    /// The grid with the pieces that have come to rest.
    pub board: Board,
    /// The piece that is falling.
    pub current_tetromino: Tetromino,
    /// How many full rows have been taken out so far.
    pub lines_removed: usize,
    /// Where the next pieces come from.
    pub shapes: ShapeSource,
}

impl Game {
    /// The pivot of the falling piece is on the grid.
    pub open spec fn wf(&self) -> bool {
        on_board(self.current_tetromino.position.x as int, self.current_tetromino.position.y as int)
    }

    /// What a try of `candidates` leaves of this game: the first of them
    /// that fits becomes the falling piece, and if none fits the game stays
    /// as it is.
    pub open spec fn after_try(&self, candidates: Seq<Tetromino>) -> Game {
        match first_fit(self.board, candidates) {
            Some(piece) => self.with_current(piece),
            None => *self,
        }
    }

    /// This game with `piece` as the falling piece.
    pub open spec fn with_current(&self, piece: Tetromino) -> Game {
        Game {
            board: self.board,
            current_tetromino: piece,
            lines_removed: self.lines_removed,
            shapes: self.shapes,
        }
    }

    /// What a move of the falling piece by `dx` columns and `dy` rows leaves
    /// of this game: the piece is moved if it fits in the new place, and
    /// stays where it is if it does not.
    pub open spec fn after_move(&self, dx: int, dy: int) -> Game {
        if self.board.fits(self.current_tetromino.shifted(dx, dy)) {
            self.with_current(self.current_tetromino.shifted(dx, dy))
        } else {
            *self
        }
    }

    /// A game on an empty grid in which every piece is an I, the one shape
    /// with a full table of kicks.
    pub fn new() -> (game: Game)
        ensures
            game.wf(),
            game.board@ == empty_rows(),
            game.current_tetromino == fresh(Shape::I),
            game.lines_removed == 0,
            game.shapes@ == SourceState::Fixed(Shape::I),
    {
        Game {
            board: empty_board(),
            current_tetromino: spawn(Shape::I),
            lines_removed: 0,
            shapes: ShapeSource::Fixed(Shape::I),
        }
    }

    /// A game on an empty grid that takes its shapes from `bag`, the first
    /// of them at once.
    pub fn with_bag(bag: RandomBag) -> (game: Game)
        ensures
            game.wf(),
            game.board@ == empty_rows(),
            game.current_tetromino == fresh(bag@.next_shape()),
            game.lines_removed == 0,
            SourceState::Bag(bag@).draws(game.shapes@, bag@.next_shape()),
    {
        let mut shapes = ShapeSource::Bag(bag);
        let shape = shapes.draw();
        Game { board: empty_board(), current_tetromino: spawn(shape), lines_removed: 0, shapes }
    }

    /// Replaces the falling piece by a fresh one of the next shape. Whether
    /// the fresh piece fits is not looked at.
    pub fn spawn(&mut self)
        ensures
            final(self).wf(),
            final(self).current_tetromino == fresh(old(self).shapes@.next_shape()),
            old(self).shapes@.draws(final(self).shapes@, old(self).shapes@.next_shape()),
            final(self).board == old(self).board,
            final(self).lines_removed == old(self).lines_removed,
    {
        let shape = self.shapes.draw();
        self.current_tetromino = spawn(shape);
    }

    /// Writes the falling piece into the grid where it fits there, and
    /// brings the next piece. Where it does not fit, nothing changes.
    pub fn put_current_tetromino(&mut self) -> (placed: bool)
        ensures
            placed == old(self).board.fits(old(self).current_tetromino),
            !placed ==> *final(self) == *old(self),
            placed ==> {
                &&& final(self).wf()
                &&& final(self).board@ == with_piece(old(self).board@, old(self).current_tetromino)
                &&& final(self).current_tetromino == fresh(old(self).shapes@.next_shape())
                &&& old(self).shapes@.draws(final(self).shapes@, old(self).shapes@.next_shape())
                &&& final(self).lines_removed == old(self).lines_removed
            },
    {
        if self.board.can_put(&self.current_tetromino) {
            self.board.put(&self.current_tetromino);
            self.spawn();
            return true;
        }
        false
    }

    /// Moves the falling piece one row down if it fits there.
    pub fn move_down(&mut self) -> (moved: bool)
        requires
            old(self).wf(),
        ensures
            final(self).wf(),
            moved == old(self).board.fits(old(self).current_tetromino.shifted(0, -1)),
            *final(self) == old(self).after_move(0, -1),
    {
        let candidates = vec![self.current_tetromino.get_moved_down()];
        proof {
            lemma_try_of_one(self.board, candidates@[0]);
            assert(candidates@ =~= seq![self.current_tetromino.shifted(0, -1)]);
        }
        self.update_tetromino(candidates)
    }

    /// Moves the falling piece one column to the left if it fits there.
    pub fn move_left(&mut self) -> (moved: bool)
        requires
            old(self).wf(),
        ensures
            final(self).wf(),
            moved == old(self).board.fits(old(self).current_tetromino.shifted(-1, 0)),
            *final(self) == old(self).after_move(-1, 0),
    {
        let candidates = vec![self.current_tetromino.get_moved_left()];
        proof {
            lemma_try_of_one(self.board, candidates@[0]);
            assert(candidates@ =~= seq![self.current_tetromino.shifted(-1, 0)]);
        }
        self.update_tetromino(candidates)
    }

    /// Moves the falling piece one column to the right if it fits there.
    pub fn move_right(&mut self) -> (moved: bool)
        requires
            old(self).wf(),
        ensures
            final(self).wf(),
            moved == old(self).board.fits(old(self).current_tetromino.shifted(1, 0)),
            *final(self) == old(self).after_move(1, 0),
    {
        let candidates = vec![self.current_tetromino.get_moved_right()];
        proof {
            lemma_try_of_one(self.board, candidates@[0]);
            assert(candidates@ =~= seq![self.current_tetromino.shifted(1, 0)]);
        }
        self.update_tetromino(candidates)
    }

    /// Lets the falling piece fall as far as it can.
    pub fn drop(&mut self)
        requires
            old(self).wf(),
        ensures
            final(self).wf(),
            final(self).current_tetromino == old(self).current_tetromino.shifted(
                0,
                -fall(old(self).board, old(self).current_tetromino),
            ),
            final(self).board == old(self).board,
            final(self).lines_removed == old(self).lines_removed,
            final(self).shapes == old(self).shapes,
    {
        let ghost fallen: int = 0;
        while self.move_down()
            invariant
                self.wf(),
                old(self).wf(),
                self.board == old(self).board,
                self.lines_removed == old(self).lines_removed,
                self.shapes == old(self).shapes,
                0 <= fallen <= old(self).current_tetromino.position.y,
                self.current_tetromino == old(self).current_tetromino.shifted(0, -fallen),
                fall(old(self).board, old(self).current_tetromino) == fallen + fall(
                    self.board,
                    self.current_tetromino,
                ),
            decreases self.current_tetromino.position.y,
        {
            proof {
                fallen = fallen + 1;
            }
        }
    }

    /// One step of the clock. The falling piece moves one row down if it
    /// fits there. If it does not, it comes to rest: it is written into the
    /// grid, the full rows are taken out and counted, and the next piece
    /// enters. The answer is whether the game goes on: it is over when the
    /// piece that has just entered does not fit.
    pub fn tick(&mut self) -> (goes_on: bool)
        requires
            old(self).wf(),
            old(self).lines_removed + 24 <= usize::MAX,
        ensures
            final(self).wf(),
            final(self).lines_removed <= old(self).lines_removed + 24,
            old(self).board.fits(old(self).current_tetromino.shifted(0, -1)) ==> {
                &&& goes_on
                &&& final(self).current_tetromino == old(self).current_tetromino.shifted(0, -1)
                &&& final(self).board == old(self).board
                &&& final(self).lines_removed == old(self).lines_removed
                &&& final(self).shapes == old(self).shapes
            },
            !old(self).board.fits(old(self).current_tetromino.shifted(0, -1)) ==> {
                let locked = with_piece(old(self).board@, old(self).current_tetromino);
                &&& final(self).board@ == without_full_rows(locked)
                &&& final(self).lines_removed == old(self).lines_removed + full_row_count(locked)
                &&& final(self).current_tetromino == fresh(old(self).shapes@.next_shape())
                &&& old(self).shapes@.draws(final(self).shapes@, old(self).shapes@.next_shape())
                &&& goes_on == final(self).board.fits(final(self).current_tetromino)
            },
    {
        if !self.move_down() {
            self.board.put(&self.current_tetromino);
            let removed = self.board.remove_full_lines();
            self.lines_removed += removed;
            self.spawn();
            return self.board.can_put(&self.current_tetromino);
        }
        true
    }

    /// Turns the falling piece a quarter clockwise, into the first place of
    /// its candidates that fits; where none fits the piece stays as it is.
    pub fn rotate_clockwise(&mut self) -> (turned: bool)
        requires
            old(self).wf(),
        ensures
            final(self).wf(),
            turned == first_fit(
                old(self).board,
                turn_candidates(old(self).current_tetromino, Direction::Clockwise),
            ).is_some(),
            *final(self) == old(self).after_try(
                turn_candidates(old(self).current_tetromino, Direction::Clockwise),
            ),
            final(self).current_tetromino == turn(
                old(self).board,
                old(self).current_tetromino,
                Direction::Clockwise,
            ),
    {
        self.update_tetromino(rotation_candidates(self.current_tetromino, Direction::Clockwise))
    }

    /// Turns the falling piece a quarter counter-clockwise, into the first
    /// place of its candidates that fits; where none fits the piece stays as
    /// it is.
    pub fn rotate_counterclockwise(&mut self) -> (turned: bool)
        requires
            old(self).wf(),
        ensures
            final(self).wf(),
            turned == first_fit(
                old(self).board,
                turn_candidates(old(self).current_tetromino, Direction::CounterClockwise),
            ).is_some(),
            *final(self) == old(self).after_try(
                turn_candidates(old(self).current_tetromino, Direction::CounterClockwise),
            ),
            final(self).current_tetromino == turn(
                old(self).board,
                old(self).current_tetromino,
                Direction::CounterClockwise,
            ),
    {
        self.update_tetromino(
            rotation_candidates(self.current_tetromino, Direction::CounterClockwise),
        )
    }

    /// Makes the first of `candidates` that fits the falling piece, and says
    /// whether one of them did.
    pub fn update_tetromino(&mut self, candidates: Vec<Tetromino>) -> (moved: bool)
        ensures
            moved == first_fit(old(self).board, candidates@).is_some(),
            *final(self) == old(self).after_try(candidates@),
            old(self).wf() ==> final(self).wf(),
    {
        if let Some(t) = self.test_candidates(candidates) {
            proof {
                lemma_first_fit_fits(self.board, candidates@);
                lemma_fitting_piece_is_on_board(self.board, t);
            }
            self.current_tetromino = t;
            return true;
        }
        false
    }

    /// The first of `candidates` that fits on the board, if one of them does.
    pub fn test_candidates(&self, candidates: Vec<Tetromino>) -> (found: Option<Tetromino>)
        ensures
            found == first_fit(self.board, candidates@),
    {
        let mut i: usize = 0;
        assert(candidates@.skip(0) =~= candidates@);
        while i < candidates.len()
            invariant
                i <= candidates.len(),
                first_fit(self.board, candidates@) == first_fit(
                    self.board,
                    candidates@.skip(i as int),
                ),
            decreases candidates.len() - i,
        {
            let candidate = candidates[i];
            proof {
                assert(candidates@.skip(i as int).first() == candidate);
                assert(candidates@.skip(i as int).drop_first() =~= candidates@.skip(i + 1));
            }
            if self.board.can_put(&candidate) {
                return Some(candidate);
            }
            i += 1;
        }
        None
    }

    /// Whether the game is over: the falling piece has no room where it
    /// stands, as it is after the step of the clock that answered `false`.
    pub fn is_over(&self) -> (over: bool)
        ensures
            over == !self.board.fits(self.current_tetromino),
    {
        !self.board.can_put(&self.current_tetromino)
    }

    /// How many full rows have been taken out so far.
    pub fn lines_removed(&self) -> (lines: usize)
        ensures
            lines == self.lines_removed,
    {
        self.lines_removed
    }
}

/// A try of one candidate finds it where it fits and nothing where it does
/// not.
pub proof fn lemma_try_of_one(board: Board, piece: Tetromino)
    ensures
        first_fit(board, seq![piece]) == if board.fits(piece) {
            Some(piece)
        } else {
            None
        },
{
    reveal_with_fuel(first_fit, 2);
    assert(seq![piece].first() == piece);
    assert(seq![piece].drop_first().len() == 0);
}

/// What a try finds is one of the candidates, it fits, and no candidate
/// before it fits; where a try finds nothing, no candidate fits.
pub proof fn lemma_first_fit_fits(board: Board, candidates: Seq<Tetromino>)
    ensures
        match first_fit(board, candidates) {
            Some(piece) => exists|i: int|
                {
                    &&& 0 <= i < candidates.len()
                    &&& candidates[i] == piece
                    &&& board.fits(piece)
                    &&& forall|j: int| 0 <= j < i ==> !board.fits(#[trigger] candidates[j])
                },
            None => forall|j: int| 0 <= j < candidates.len() ==> !board.fits(#[trigger] candidates[j]),
        },
    decreases candidates.len(),
{
    if candidates.len() > 0 && !board.fits(candidates.first()) {
        let rest = candidates.drop_first();
        lemma_first_fit_fits(board, rest);
        assert forall|j: int| 0 <= j < rest.len() implies rest[j] == candidates[j + 1] by {}
        match first_fit(board, rest) {
            Some(piece) => {
                let i = choose|i: int|
                    {
                        &&& 0 <= i < rest.len()
                        &&& rest[i] == piece
                        &&& board.fits(piece)
                        &&& forall|j: int| 0 <= j < i ==> !board.fits(#[trigger] rest[j])
                    };
                assert forall|j: int| 0 <= j < i + 1 implies !board.fits(
                    #[trigger] candidates[j],
                ) by {
                    if j > 0 {
                        assert(candidates[j] == rest[j - 1]);
                    }
                }
                assert(candidates[i + 1] == piece);
            },
            None => {
                assert forall|j: int| 0 <= j < candidates.len() implies !board.fits(
                    #[trigger] candidates[j],
                ) by {
                    if j > 0 {
                        assert(candidates[j] == rest[j - 1]);
                    }
                }
            },
        }
    } else if candidates.len() > 0 {
        assert(candidates[0] == candidates.first());
    }
}

/// The piece that a turn of `piece` in `direction` leaves on `board`: the
/// first of its candidates that fits, or the piece as it was where none
/// fits.
pub open spec fn turn(board: Board, piece: Tetromino, direction: Direction) -> Tetromino {
    match first_fit(board, turn_candidates(piece, direction)) {
        Some(turned) => turned,
        None => piece,
    }
}

/// Over four quarter turns clockwise the kicks that stand in one place of
/// the table cancel: their columns add up to nothing, and so do their rows.
pub proof fn lemma_kicks_cancel(shape: Shape, north: Orientation, i: int)
    requires
        0 <= i < anchors(shape, north).len(),
    ensures
        ({
            let east = clockwise_of(north);
            let south = clockwise_of(east);
            let west = clockwise_of(south);
            let a = kicks(shape, north, east)[i];
            let b = kicks(shape, east, south)[i];
            let c = kicks(shape, south, west)[i];
            let d = kicks(shape, west, north)[i];
            a.0 + b.0 + c.0 + d.0 == 0 && a.1 + b.1 + c.1 + d.1 == 0
        }),
{
    lemma_anchors_are_near(shape, north, i);
    lemma_anchors_are_near(shape, clockwise_of(north), 0);
    lemma_anchors_are_near(shape, clockwise_of(clockwise_of(north)), 0);
    lemma_anchors_are_near(shape, clockwise_of(clockwise_of(clockwise_of(north))), 0);
}

/// The kick for a turn one way is the opposite of the kick, in the same
/// place of the table, for the turn back.
pub proof fn lemma_kick_back(shape: Shape, from: Orientation, to: Orientation, i: int)
    requires
        0 <= i < anchors(shape, from).len(),
    ensures
        kicks(shape, to, from).len() == kicks(shape, from, to).len(),
        kicks(shape, to, from)[i].0 == -kicks(shape, from, to)[i].0,
        kicks(shape, to, from)[i].1 == -kicks(shape, from, to)[i].1,
{
    lemma_anchors_are_near(shape, from, i);
    lemma_anchors_are_near(shape, to, 0);
}

/// A turn whose first candidate fits takes that candidate.
pub proof fn lemma_free_turn(board: Board, piece: Tetromino, direction: Direction)
    requires
        board.fits(turn_candidates(piece, direction)[0]),
    ensures
        turn(board, piece, direction) == turn_candidates(piece, direction)[0],
{
    lemma_anchors_are_near(piece.shape, piece.orientation, 0);
    let candidates = turn_candidates(piece, direction);
    assert(candidates.first() == candidates[0]);
}

/// Four quarter turns clockwise, each of which finds its first candidate
/// free, bring a piece back to the orientation and to the place it began
/// with.
pub proof fn lemma_four_free_turns_return(board: Board, piece: Tetromino)
    requires
        on_board(piece.position.x as int, piece.position.y as int),
        ({
            let first = turn_candidates(piece, Direction::Clockwise)[0];
            let second = turn_candidates(first, Direction::Clockwise)[0];
            let third = turn_candidates(second, Direction::Clockwise)[0];
            let fourth = turn_candidates(third, Direction::Clockwise)[0];
            board.fits(first) && board.fits(second) && board.fits(third) && board.fits(fourth)
        }),
    ensures
        turn(
            board,
            turn(
                board,
                turn(board, turn(board, piece, Direction::Clockwise), Direction::Clockwise),
                Direction::Clockwise,
            ),
            Direction::Clockwise,
        ) == piece,
{
    let first = turn_candidates(piece, Direction::Clockwise)[0];
    let second = turn_candidates(first, Direction::Clockwise)[0];
    let third = turn_candidates(second, Direction::Clockwise)[0];
    let fourth = turn_candidates(third, Direction::Clockwise)[0];
    lemma_free_turn(board, piece, Direction::Clockwise);
    lemma_free_turn(board, first, Direction::Clockwise);
    lemma_free_turn(board, second, Direction::Clockwise);
    lemma_free_turn(board, third, Direction::Clockwise);
    lemma_fitting_piece_is_on_board(board, first);
    lemma_fitting_piece_is_on_board(board, second);
    lemma_fitting_piece_is_on_board(board, third);
    lemma_fitting_piece_is_on_board(board, fourth);
    lemma_kicks_cancel(piece.shape, piece.orientation, 0);
    lemma_anchors_are_near(piece.shape, piece.orientation, 0);
    lemma_anchors_are_near(piece.shape, first.orientation, 0);
    lemma_anchors_are_near(piece.shape, second.orientation, 0);
    lemma_anchors_are_near(piece.shape, third.orientation, 0);
}

/// Where a piece comes to rest when it is let go: every place on the way
/// down fits, and the place below the last does not.
pub proof fn lemma_fall_lands(board: Board, piece: Tetromino)
    requires
        on_board(piece.position.x as int, piece.position.y as int),
    ensures
        fall(board, piece) <= piece.position.y,
        forall|rows: int| 1 <= rows <= fall(board, piece) ==> board.fits(#[trigger] piece.shifted(0, -rows)),
        !board.fits(piece.shifted(0, -fall(board, piece) - 1)),
    decreases piece.position.y,
{
    let below = piece.shifted(0, -1);
    if piece.position.y > 0 && board.fits(below) {
        lemma_fall_lands(board, below);
        assert forall|rows: int| 1 <= rows <= fall(board, piece) implies board.fits(
            #[trigger] piece.shifted(0, -rows),
        ) by {
            if rows > 1 {
                assert(piece.shifted(0, -rows) == below.shifted(0, -(rows - 1)));
            }
        }
        assert(piece.shifted(0, -fall(board, piece) - 1) == below.shifted(
            0,
            -fall(board, below) - 1,
        ));
    } else if board.fits(below) {
        lemma_fitting_piece_is_on_board(board, below);
    }
}

} // verus!
