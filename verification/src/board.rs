//! The grid: what each cell holds, whether a piece fits, and how a piece is
//! written into it.

use crate::position::fits_i32;
use crate::position::Position;
use crate::tetromino::lemma_pivot_is_covered;
use crate::tetromino::pivot_index;
use crate::tetromino::tetromino_blocks;
use crate::tetromino::Shape;
use crate::tetromino::Tetromino;
use vstd::prelude::*;

verus! {

/// What a cell of the grid holds. `Blocked` is the answer for every place
/// outside the grid and is never stored in it.
#[derive(PartialEq, Eq, Debug, Copy, Clone, Structural)]
pub enum BoardContent {
    Empty,
    Blocked,
    Tetromino(Shape),
}

/// Column and row of a cell of the grid.
pub type BoardPosition = [usize; 2];

/// One row of the grid, from the left wall to the right.
pub type Line = [BoardContent; 10];

/// The grid, row 0 being the floor.
pub struct Board {
    lines: [Line; 24],
}

/// Whether column `x` and row `y` name a cell of the grid.
pub open spec fn on_board(x: int, y: int) -> bool {
    0 <= x < 10 && 0 <= y < 24
}

/// A row without an empty cell.
pub open spec fn is_full(line: Seq<BoardContent>) -> bool {
    forall|x: int| 0 <= x < line.len() ==> line[x] != BoardContent::Empty
}

/// A row of ten empty cells.
pub open spec fn empty_row() -> Seq<BoardContent> {
    Seq::new(10, |x: int| BoardContent::Empty)
}

/// The rows of a grid after the shape of `piece` was written into each of
/// its cells that lies on the grid.
pub open spec fn with_piece(rows: Seq<Seq<BoardContent>>, piece: Tetromino) -> Seq<
    Seq<BoardContent>,
> {
    Seq::new(
        24,
        |y: int|
            Seq::new(
                10,
                |x: int|
                    if piece.covers(x, y) {
                        BoardContent::Tetromino(piece.shape)
                    } else {
                        rows[y][x]
                    },
            ),
    )
}

/// The rows of a grid after its full rows were taken out: the other rows in
/// their order, closed up towards the floor, and above them as many empty
/// rows as were taken out.
pub open spec fn without_full_rows(rows: Seq<Seq<BoardContent>>) -> Seq<Seq<BoardContent>> {
    let kept = rows.filter(|line: Seq<BoardContent>| !is_full(line));
    kept + Seq::new((rows.len() - kept.len()) as nat, |y: int| empty_row())
}

/// How many of the rows are full.
pub open spec fn full_row_count(rows: Seq<Seq<BoardContent>>) -> nat {
    rows.filter(|line: Seq<BoardContent>| is_full(line)).len()
}

/// The rows of a grid in which every cell is empty.
pub open spec fn empty_rows() -> Seq<Seq<BoardContent>> {
    Seq::new(24, |y: int| empty_row())
}

impl View for Board {
    type V = Seq<Seq<BoardContent>>;

    /// The rows from the floor up, each from left to right.
    closed spec fn view(&self) -> Seq<Seq<BoardContent>> {
        Seq::new(24, |y: int| self.lines[y]@)
    }
}

impl Board {
    /// The grid has 24 rows of 10 cells, and none of them holds `Blocked`.
    #[verifier::type_invariant]
    pub open spec fn wf(&self) -> bool {
        &&& self@.len() == 24
        &&& forall|y: int| 0 <= y < 24 ==> (#[trigger] self@[y]).len() == 10
        &&& forall|x: int, y: int| on_board(x, y) ==> #[trigger] self@[y][x] != BoardContent::Blocked
    }

    /// What the cell in column `x` and row `y` holds; `Blocked` outside the grid.
    pub open spec fn content(&self, x: int, y: int) -> BoardContent {
        if on_board(x, y) {
            self@[y][x]
        } else {
            BoardContent::Blocked
        }
    }

    /// Whether every cell of `piece` is an empty cell of the grid. A cell
    /// outside the grid is no empty cell.
    pub open spec fn fits(&self, piece: Tetromino) -> bool {
        forall|i: int|
            0 <= i < 4 ==> self.content(#[trigger] piece.cells()[i].0, piece.cells()[i].1)
                == BoardContent::Empty
    }

    /// How many rows the grid has.
    pub fn height(&self) -> (h: usize)
        ensures
            h == 24,
    {
        self.lines.len()
    }

    /// How many cells a row has.
    pub fn width(&self) -> (w: usize)
        ensures
            w == 10,
    {
        self.lines[0].len()
    }

    /// What the cell at `pos` holds. A place outside the grid is `Blocked`, and
    /// no cell of the grid is.
    pub fn get(&self, pos: Position) -> (content: BoardContent)
        ensures
            content == self.content(pos.x as int, pos.y as int),
            (content == BoardContent::Blocked) == !on_board(pos.x as int, pos.y as int),
    {
        proof {
            use_type_invariant(self);
        }
        match board_position(pos) {
            None => BoardContent::Blocked,
            Some(board_position) => self.lines[board_position[1]][board_position[0]],
        }
    }

    /// Whether the piece can stand where it is: each of its cells is on the
    /// grid and empty.
    pub fn can_put(&self, tetromino: &Tetromino) -> (free: bool)
        ensures
            free == self.fits(*tetromino),
    {
        let mut i: usize = 0;
        while i < 4
            invariant
                i <= 4,
                forall|j: int|
                    0 <= j < i ==> self.content(
                        #[trigger] tetromino.cells()[j].0,
                        tetromino.cells()[j].1,
                    ) == BoardContent::Empty,
            decreases 4 - i,
        {
            let free = match block_at(tetromino, i) {
                None => false,
                Some(cell) => self.is_free(cell),
            };
            if !free {
                assert(self.content(tetromino.cells()[i as int].0, tetromino.cells()[i as int].1)
                    != BoardContent::Empty);
                return false;
            }
            i += 1;
        }
        true
    }

    /// Writes the shape of the piece into each of its cells that lies on the
    /// grid, whatever the cell held.
    pub fn put(&mut self, tetromino: &Tetromino)
        ensures
            final(self)@ == with_piece(old(self)@, *tetromino),
            forall|i: int|
                0 <= i < 4 && on_board(#[trigger] tetromino.cells()[i].0, tetromino.cells()[i].1)
                    ==> final(self).content(tetromino.cells()[i].0, tetromino.cells()[i].1)
                    == BoardContent::Tetromino(tetromino.shape),
            forall|x: int, y: int|
                !tetromino.covers(x, y) ==> #[trigger] final(self).content(x, y) == old(
                    self,
                ).content(x, y),
    {
        proof {
            use_type_invariant(&*self);
        }
        let mut i: usize = 0;
        while i < 4
            invariant
                i <= 4,
                self.wf(),
                forall|x: int, y: int|
                    on_board(x, y) ==> #[trigger] self@[y][x] == if exists|j: int|
                        0 <= j < i && tetromino.cells()[j] == (x, y) {
                        BoardContent::Tetromino(tetromino.shape)
                    } else {
                        old(self)@[y][x]
                    },
            decreases 4 - i,
        {
            let ghost before = self@;
            match block_at(tetromino, i) {
                None => {},
                Some(cell) => {
                    self.set(cell, tetromino.shape);
                },
            }
            proof {
                use_type_invariant(&*self);
                let cells = tetromino.cells();
                assert forall|x: int, y: int| on_board(x, y) implies #[trigger] self@[y][x]
                    == if exists|j: int| 0 <= j < i + 1 && tetromino.cells()[j] == (x, y) {
                    BoardContent::Tetromino(tetromino.shape)
                } else {
                    old(self)@[y][x]
                } by {
                    if cells[i as int] == (x, y) {
                    } else {
                        assert(self@[y][x] == before[y][x]);
                        if exists|j: int| 0 <= j < i + 1 && tetromino.cells()[j] == (x, y) {
                            let j = choose|j: int| 0 <= j < i + 1 && tetromino.cells()[j] == (x, y);
                            assert(0 <= j < i && tetromino.cells()[j] == (x, y));
                        }
                    }
                }
            }
            i += 1;
        }
        assert(self@ =~~= with_piece(old(self)@, *tetromino));
        assert forall|i: int|
            0 <= i < 4 && on_board(
                #[trigger] tetromino.cells()[i].0,
                tetromino.cells()[i].1,
            ) implies self.content(tetromino.cells()[i].0, tetromino.cells()[i].1)
            == BoardContent::Tetromino(tetromino.shape) by {
            assert(tetromino.covers(tetromino.cells()[i].0, tetromino.cells()[i].1));
        }
    }

    /// Takes the full rows out of the grid, going from the floor up, lets the
    /// rows above each of them sink into its place and fills the top with
    /// empty rows. Returns how many rows it took out.
    pub fn remove_full_lines(&mut self) -> (removed: usize)
        ensures
            final(self)@ == without_full_rows(old(self)@),
            removed == full_row_count(old(self)@),
            removed <= 24,
            forall|y: int| 0 <= y < 24 ==> !is_full(#[trigger] final(self)@[y]),
    {
        proof {
            use_type_invariant(&*self);
        }
        let ghost rows = self@;
        let ghost keep = |line: Seq<BoardContent>| !is_full(line);
        let ghost full = |line: Seq<BoardContent>| is_full(line);
        let mut lines = [empty_line();24];
        let mut kept: usize = 0;
        let mut y: usize = 0;
        proof {
            reveal(Seq::filter);
            assert(rows.take(0).filter(keep) =~= Seq::empty());
            assert(rows.take(0).filter(full) =~= Seq::empty());
            assert(empty_row()[0] == BoardContent::Empty);
        }
        while y < 24
            invariant
                kept <= y <= 24,
                rows == self@,
                self.wf(),
                keep == |line: Seq<BoardContent>| !is_full(line),
                full == |line: Seq<BoardContent>| is_full(line),
                forall|k: int| kept <= k < 24 ==> (#[trigger] lines[k])@ == empty_row(),
                forall|k: int| 0 <= k < kept ==> !is_full(#[trigger] lines[k]@),
                forall|k: int, x: int|
                    0 <= k < 24 && 0 <= x < 10 ==> #[trigger] lines[k][x] != BoardContent::Blocked,
                rows.take(y as int).filter(keep) == Seq::new(kept as nat, |k: int| lines[k]@),
                rows.take(y as int).filter(full).len() == y - kept,
            decreases 24 - y,
        {
            proof {
                reveal(Seq::filter);
                assert(rows.take(y + 1).drop_last() =~= rows.take(y as int));
                assert(rows.take(y + 1).last() == rows[y as int]);
                assert(rows[y as int] == self.lines[y as int]@);
            }
            if !line_is_full(&self.lines[y]) {
                lines[kept] = self.lines[y];
                proof {
                    assert(rows.take(y + 1).filter(keep) =~= Seq::new(
                        (kept + 1) as nat,
                        |k: int| lines[k]@,
                    ));
                    assert forall|k: int, x: int| 0 <= k < 24 && 0 <= x < 10 implies #[trigger] lines[k][x]
                        != BoardContent::Blocked by {
                        if k == kept {
                            assert(lines[k][x] == self@[y as int][x]);
                        }
                    }
                }
                kept += 1;
            } else {
                proof {
                    assert(rows.take(y + 1).filter(keep) =~= Seq::new(
                        kept as nat,
                        |k: int| lines[k]@,
                    ));
                }
            }
            y += 1;
        }
        proof {
            assert(rows.take(24) =~= rows);
            let after = Seq::new(24, |k: int| lines[k]@);
            assert(after =~= without_full_rows(rows));
            assert forall|k: int| 0 <= k < 24 implies !is_full(#[trigger] after[k]) by {
                if k >= kept {
                    assert(lines[k]@[0] == BoardContent::Empty);
                }
            }
        }
        self.lines = lines;
        24 - kept
    }

    /// Writes `tetronimo` into the cell that `pos` names, if it names one,
    /// and says whether it did.
    pub fn set(&mut self, pos: Position, tetronimo: Shape) -> (written: bool)
        ensures
            written == on_board(pos.x as int, pos.y as int),
            written ==> final(self)@ == old(self)@.update(
                pos.y as int,
                old(self)@[pos.y as int].update(pos.x as int, BoardContent::Tetromino(tetronimo)),
            ),
            !written ==> final(self)@ == old(self)@,
    {
        proof {
            use_type_invariant(&*self);
        }
        match board_position(pos) {
            None => false,
            Some(board_position) => {
                let mut lines = self.lines;
                lines[board_position[1]][board_position[0]] = BoardContent::Tetromino(tetronimo);
                proof {
                    let rows = Seq::new(24, |y: int| lines[y]@);
                    assert(rows =~= old(self)@.update(
                        pos.y as int,
                        old(self)@[pos.y as int].update(
                            pos.x as int,
                            BoardContent::Tetromino(tetronimo),
                        ),
                    ));
                }
                self.lines = lines;
                assert(self@ =~= old(self)@.update(
                    pos.y as int,
                    old(self)@[pos.y as int].update(
                        pos.x as int,
                        BoardContent::Tetromino(tetronimo),
                    ),
                ));
                true
            },
        }
    }

    /// Whether `pos` names an empty cell of the grid.
    pub fn is_free(&self, pos: Position) -> (free: bool)
        ensures
            free == (self.content(pos.x as int, pos.y as int) == BoardContent::Empty),
    {
        self.get(pos) == BoardContent::Empty
    }
}

/// How many cells a row of the grid has.
pub fn board_width() -> (width: usize)
    ensures
        width == 10,
{
    10
}

/// How many rows the grid has.
pub fn board_height() -> (height: usize)
    ensures
        height == 24,
{
    24
}

/// A row of empty cells.
pub fn empty_line() -> (line: Line)
    ensures
        line@ == empty_row(),
{
    let line = [BoardContent::Empty;10];
    assert(line@ =~= empty_row());
    line
}

/// A grid of empty cells.
pub fn empty_board() -> (board: Board)
    ensures
        board@ == empty_rows(),
{
    let board = Board { lines: [empty_line();24] };
    assert(board@ =~= empty_rows());
    board
}

/// Whether the row has no empty cell.
fn line_is_full(line: &Line) -> (full: bool)
    ensures
        full == is_full(line@),
{
    let mut x: usize = 0;
    while x < 10
        invariant
            x <= 10,
            forall|k: int| 0 <= k < x ==> line@[k] != BoardContent::Empty,
        decreases 10 - x,
    {
        if line[x] == BoardContent::Empty {
            return false;
        }
        x += 1;
    }
    true
}

/// The cell of the piece with the number `i`, or nothing where its column
/// or its row is out of the range of the coordinates.
fn block_at(tetromino: &Tetromino, i: usize) -> (cell: Option<Position>)
    requires
        i < 4,
    ensures
        match cell {
            Some(p) => p.x == tetromino.cells()[i as int].0 && p.y == tetromino.cells()[i as int].1,
            None => !fits_i32(tetromino.cells()[i as int].0) || !fits_i32(
                tetromino.cells()[i as int].1,
            ),
        },
{
    let offset = tetromino_blocks(tetromino.shape, tetromino.orientation)[i];
    match (tetromino.position.x.checked_add(offset.x), tetromino.position.y.checked_add(offset.y)) {
        (Some(x), Some(y)) => Some(Position::new(x, y)),
        _ => None,
    }
}

/// Whether `index` names one of the first `max` places of an array.
pub fn check_array_bounds(index: i32, max: usize) -> (inside: bool)
    ensures
        inside == (0 <= index < max),
{
    if index < 0 {
        false
    } else {
        (index as usize) < max
    }
}

/// The cell of the grid that `pos` names, if it names one.
pub fn board_position(pos: Position) -> (cell: Option<BoardPosition>)
    ensures
        cell.is_some() == on_board(pos.x as int, pos.y as int),
        cell.is_some() ==> cell.unwrap()[0] == pos.x && cell.unwrap()[1] == pos.y,
{
    if !check_array_bounds(pos.x, board_width()) {
        None
    } else if !check_array_bounds(pos.y, board_height()) {
        None
    } else {
        Some([pos.x as usize, pos.y as usize])
    }
}

/// A piece that fits has its pivot on the grid.
pub proof fn lemma_fitting_piece_is_on_board(board: Board, piece: Tetromino)
    requires
        board.fits(piece),
    ensures
        on_board(piece.position.x as int, piece.position.y as int),
{
    lemma_pivot_is_covered(piece);
    let i = pivot_index(piece.shape);
    assert(board.content(piece.cells()[i].0, piece.cells()[i].1) == BoardContent::Empty);
}

/// A piece does not fit exactly when one of its four cells is not an empty
/// cell of the grid, be it taken or outside the grid.
pub proof fn lemma_unfit_iff_obstructed(board: Board, piece: Tetromino)
    ensures
        !board.fits(piece) <==> exists|i: int|
            0 <= i < 4 && board.content(#[trigger] piece.cells()[i].0, piece.cells()[i].1)
                != BoardContent::Empty,
{
}

/// Where no row is full, taking out the full rows changes nothing and counts
/// no row.
pub proof fn lemma_nothing_to_remove(rows: Seq<Seq<BoardContent>>)
    requires
        forall|y: int| 0 <= y < rows.len() ==> !is_full(#[trigger] rows[y]),
    ensures
        without_full_rows(rows) == rows,
        full_row_count(rows) == 0,
{
    let keep = |line: Seq<BoardContent>| !is_full(line);
    let full = |line: Seq<BoardContent>| is_full(line);
    lemma_filter_keeps_all(rows, keep);
    lemma_filter_keeps_none(rows, full);
    assert(without_full_rows(rows) =~= rows);
}

/// A filter that every item passes leaves the sequence as it is.
proof fn lemma_filter_keeps_all<A>(items: Seq<A>, pred: spec_fn(A) -> bool)
    requires
        forall|i: int| 0 <= i < items.len() ==> pred(#[trigger] items[i]),
    ensures
        items.filter(pred) == items,
    decreases items.len(),
{
    reveal(Seq::filter);
    if items.len() > 0 {
        lemma_filter_keeps_all(items.drop_last(), pred);
        assert(items.drop_last().push(items.last()) =~= items);
    }
}

/// A filter that no item passes leaves nothing.
proof fn lemma_filter_keeps_none<A>(items: Seq<A>, pred: spec_fn(A) -> bool)
    requires
        forall|i: int| 0 <= i < items.len() ==> !pred(#[trigger] items[i]),
    ensures
        items.filter(pred).len() == 0,
    decreases items.len(),
{
    reveal(Seq::filter);
    if items.len() > 0 {
        lemma_filter_keeps_none(items.drop_last(), pred);
    }
}

/// An empty grid has no full row: taking out the full rows leaves it as it
/// is and counts no row.
pub proof fn lemma_empty_board_stays_empty()
    ensures
        without_full_rows(empty_rows()) == empty_rows(),
        full_row_count(empty_rows()) == 0,
{
    assert forall|y: int| 0 <= y < empty_rows().len() implies !is_full(
        #[trigger] empty_rows()[y],
    ) by {
        assert(empty_rows()[y][0] == BoardContent::Empty);
    }
    lemma_nothing_to_remove(empty_rows());
}

} // verus!
