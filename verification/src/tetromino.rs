//! The seven shapes, their four orientations and the cells that a piece covers.

use crate::position::at;
use crate::position::fits_i32;
use crate::position::Position;
use vstd::prelude::*;

verus! {

/// The seven shapes of four cells each.
#[derive(Debug, PartialEq, Eq, Copy, Clone, Structural)]
pub enum Shape {
    I,
    O,
    J,
    L,
    S,
    T,
    Z,
}

/// The four ways a piece can be turned, in clockwise order.
#[derive(Debug, PartialEq, Eq, Copy, Clone, Structural)]
pub enum Orientation {
    North,
    East,
    South,
    West,
}

/// A piece: where its pivot stands, what shape it has and how it is turned.
#[derive(Debug, PartialEq, Eq, Copy, Clone, Structural)]
pub struct Tetromino {
    pub position: Position,
    pub shape: Shape,
    pub orientation: Orientation,
}

/// Every shape once, in the order in which `all_shapes` lists them.
pub open spec fn shape_list() -> Seq<Shape> {
    seq![Shape::I, Shape::O, Shape::J, Shape::L, Shape::S, Shape::T, Shape::Z]
}

/// The orientation one quarter turn clockwise of `o`.
pub open spec fn clockwise_of(o: Orientation) -> Orientation {
    match o {
        Orientation::North => Orientation::East,
        Orientation::East => Orientation::South,
        Orientation::South => Orientation::West,
        Orientation::West => Orientation::North,
    }
}

/// The orientation one quarter turn counter-clockwise of `o`.
pub open spec fn counterclockwise_of(o: Orientation) -> Orientation {
    match o {
        Orientation::North => Orientation::West,
        Orientation::East => Orientation::North,
        Orientation::South => Orientation::East,
        Orientation::West => Orientation::South,
    }
}

/// How many quarter turns clockwise lead from north to `o`.
pub open spec fn quarter_turns(o: Orientation) -> nat {
    match o {
        Orientation::North => 0,
        Orientation::East => 1,
        Orientation::South => 2,
        Orientation::West => 3,
    }
}

/// The offset `p` after a quarter turn clockwise about the pivot:
/// `(x, y)` goes to `(y, -x)`.
pub open spec fn turned_clockwise(p: Position) -> Position {
    Position { x: p.y, y: (-p.x) as i32 }
}

/// The offset `p` after `n` quarter turns clockwise about the pivot.
pub open spec fn turned(p: Position, n: nat) -> Position
    decreases n,
{
    if n == 0 {
        p
    } else {
        turned_clockwise(turned(p, (n - 1) as nat))
    }
}

/// The four cells of a shape that points north, relative to its pivot.
pub open spec fn north_offsets(shape: Shape) -> Seq<Position> {
    match shape {
        Shape::I => seq![at(-1, 0), at(0, 0), at(1, 0), at(2, 0)],
        Shape::O => seq![at(0, 0), at(1, 0), at(1, 1), at(0, 1)],
        Shape::J => seq![at(-1, 1), at(-1, 0), at(0, 0), at(1, 0)],
        Shape::L => seq![at(1, 1), at(-1, 0), at(0, 0), at(1, 0)],
        Shape::S => seq![at(1, 1), at(-1, 0), at(0, 0), at(0, 1)],
        Shape::T => seq![at(1, 0), at(-1, 0), at(0, 0), at(0, 1)],
        Shape::Z => seq![at(1, 0), at(-1, 1), at(0, 0), at(0, 1)],
    }
}

/// The four cells of a shape in an orientation, relative to its pivot: the
/// cells of the shape pointing north, turned about the pivot as often as the
/// orientation is turned from north.
pub open spec fn block_offsets(shape: Shape, orientation: Orientation) -> Seq<Position> {
    Seq::new(4, |i: int| turned(north_offsets(shape)[i], quarter_turns(orientation)))
}

impl Tetromino {
    /// This piece with its pivot moved by `dx` columns and `dy` rows.
    pub open spec fn shifted(self, dx: int, dy: int) -> Tetromino {
        Tetromino {
            position: at(self.position.x + dx, self.position.y + dy),
            shape: self.shape,
            orientation: self.orientation,
        }
    }

    /// Whether this piece can be moved by `dx` columns and `dy` rows without
    /// its pivot leaving the range of the coordinates.
    pub open spec fn can_shift(self, dx: int, dy: int) -> bool {
        fits_i32(self.position.x + dx) && fits_i32(self.position.y + dy)
    }

    /// The four cells that this piece covers, as column and row: the pivot
    /// plus each offset of its shape and orientation.
    pub open spec fn cells(self) -> Seq<(int, int)> {
        Seq::new(
            4,
            |i: int|
                (
                    self.position.x + block_offsets(self.shape, self.orientation)[i].x,
                    self.position.y + block_offsets(self.shape, self.orientation)[i].y,
                ),
        )
    }

    /// Whether the piece covers the cell in column `x` and row `y`.
    pub open spec fn covers(self, x: int, y: int) -> bool {
        exists|i: int| 0 <= i < 4 && self.cells()[i] == (x, y)
    }

    /// Whether the column and the row of each covered cell fit in an `i32`.
    pub open spec fn cells_fit(self) -> bool {
        forall|i: int| 0 <= i < 4 ==> fits_i32(self.cells()[i].0) && fits_i32(self.cells()[i].1)
    }

    /// A piece of `shape` at `position`, pointing north.
    pub fn new(position: Position, shape: Shape) -> (piece: Tetromino)
        ensures
            piece == (Tetromino { position, shape, orientation: Orientation::North }),
    {
        Self { position, shape, orientation: Orientation::North }
    }

    /// This piece a quarter turn clockwise, in the same place.
    pub fn get_rotated_clockwise(&self) -> (piece: Tetromino)
        ensures
            piece == (Tetromino { orientation: clockwise_of(self.orientation), ..*self }),
    {
        Tetromino { orientation: rotate_clockwise(self.orientation), ..*self }
    }

    /// This piece a quarter turn counter-clockwise, in the same place.
    pub fn get_rotated_counterclockwise(&self) -> (piece: Tetromino)
        ensures
            piece == (Tetromino { orientation: counterclockwise_of(self.orientation), ..*self }),
    {
        Tetromino { orientation: rotate_counterclockwise(self.orientation), ..*self }
    }

    /// This piece with its pivot at `position`.
    pub fn get_moved(&self, position: Position) -> (piece: Tetromino)
        ensures
            piece == (Tetromino { position, ..*self }),
    {
        Tetromino { position, ..*self }
    }

    /// This piece moved by the columns and rows of `offset`.
    pub fn get_offset(&self, offset: [i32; 2]) -> (piece: Tetromino)
        requires
            self.can_shift(offset[0] as int, offset[1] as int),
        ensures
            piece == self.shifted(offset[0] as int, offset[1] as int),
    {
        Tetromino { position: self.position + offset, ..*self }
    }

    /// This piece one row further down.
    pub fn get_moved_down(&self) -> (piece: Tetromino)
        requires
            self.can_shift(0, -1),
        ensures
            piece == self.shifted(0, -1),
    {
        self.get_offset([0, -1])
    }

    /// This piece one column further left.
    pub fn get_moved_left(&self) -> (piece: Tetromino)
        requires
            self.can_shift(-1, 0),
        ensures
            piece == self.shifted(-1, 0),
    {
        self.get_offset([-1, 0])
    }

    /// This piece one column further right.
    pub fn get_moved_right(&self) -> (piece: Tetromino)
        requires
            self.can_shift(1, 0),
        ensures
            piece == self.shifted(1, 0),
    {
        self.get_offset([1, 0])
    }

    /// The cells that the piece covers on the grid.
    pub fn blocks(&self) -> (blocks: [Position; 4])
        requires
            self.cells_fit(),
        ensures
            forall|i: int|
                0 <= i < 4 ==> blocks[i].x == self.cells()[i].0 && blocks[i].y == self.cells()[i].1,
    {
        let offsets = tetromino_blocks(self.shape, self.orientation);
        proof {
            let cells = self.cells();
            assert(fits_i32(cells[0].0) && fits_i32(cells[0].1));
            assert(fits_i32(cells[1].0) && fits_i32(cells[1].1));
            assert(fits_i32(cells[2].0) && fits_i32(cells[2].1));
            assert(fits_i32(cells[3].0) && fits_i32(cells[3].1));
        }
        [
            offsets[0] + self.position,
            offsets[1] + self.position,
            offsets[2] + self.position,
            offsets[3] + self.position,
        ]
    }
}

/// Every shape once.
pub fn all_shapes() -> (shapes: Vec<Shape>)
    ensures
        shapes@ == shape_list(),
{
    let shapes = vec![Shape::I, Shape::O, Shape::J, Shape::L, Shape::S, Shape::T, Shape::Z];
    assert(shapes@ =~= shape_list());
    shapes
}

/// The orientation a quarter turn clockwise of `orientation`.
pub fn rotate_clockwise(orientation: Orientation) -> (turned: Orientation)
    ensures
        turned == clockwise_of(orientation),
{
    match orientation {
        Orientation::North => Orientation::East,
        Orientation::East => Orientation::South,
        Orientation::South => Orientation::West,
        Orientation::West => Orientation::North,
    }
}

/// The orientation a quarter turn counter-clockwise of `orientation`.
pub fn rotate_counterclockwise(orientation: Orientation) -> (turned: Orientation)
    ensures
        turned == counterclockwise_of(orientation),
{
    match orientation {
        Orientation::North => Orientation::West,
        Orientation::East => Orientation::North,
        Orientation::South => Orientation::East,
        Orientation::West => Orientation::South,
    }
}

/// The offset `position` after a quarter turn clockwise about the pivot.
pub fn rotate_position_clockwise(position: Position) -> (turned: Position)
    requires
        position.x > i32::MIN,
    ensures
        turned == turned_clockwise(position),
{
    Position::new(position.y, -position.x)
}

/// Four offsets after a quarter turn clockwise about the pivot.
pub fn rotate_positions_clockwise(coordinates: [Position; 4]) -> (turned: [Position; 4])
    requires
        forall|i: int| 0 <= i < 4 ==> coordinates[i].x > i32::MIN,
    ensures
        forall|i: int| 0 <= i < 4 ==> turned[i] == turned_clockwise(coordinates[i]),
{
    [
        rotate_position_clockwise(coordinates[0]),
        rotate_position_clockwise(coordinates[1]),
        rotate_position_clockwise(coordinates[2]),
        rotate_position_clockwise(coordinates[3]),
    ]
}

/// Four offsets, each given as column and row.
fn offsets_of(a: [i32; 2], b: [i32; 2], c: [i32; 2], d: [i32; 2]) -> (blocks: [Position; 4])
    ensures
        blocks@ == seq![
            Position { x: a[0], y: a[1] },
            Position { x: b[0], y: b[1] },
            Position { x: c[0], y: c[1] },
            Position { x: d[0], y: d[1] },
        ],
{
    let blocks = [
        Position::new(a[0], a[1]),
        Position::new(b[0], b[1]),
        Position::new(c[0], c[1]),
        Position::new(d[0], d[1]),
    ];
    assert(blocks@ =~= seq![
        Position { x: a[0], y: a[1] },
        Position { x: b[0], y: b[1] },
        Position { x: c[0], y: c[1] },
        Position { x: d[0], y: d[1] },
    ]);
    blocks
}

/// The four cells of a shape in an orientation, relative to its pivot.
pub fn tetromino_blocks(shape: Shape, orientation: Orientation) -> (blocks: [Position; 4])
    ensures
        blocks@ == block_offsets(shape, orientation),
{
    reveal_with_fuel(turned, 4);
    let blocks = match shape {
        Shape::I => match orientation {
            Orientation::North => offsets_of([-1, 0], [0, 0], [1, 0], [2, 0]),
            Orientation::East => offsets_of([0, 1], [0, 0], [0, -1], [0, -2]),
            Orientation::South => offsets_of([1, 0], [0, 0], [-1, 0], [-2, 0]),
            Orientation::West => offsets_of([0, -1], [0, 0], [0, 1], [0, 2]),
        },
        Shape::O => match orientation {
            Orientation::North => offsets_of([0, 0], [1, 0], [1, 1], [0, 1]),
            Orientation::East => offsets_of([0, 0], [0, -1], [1, -1], [1, 0]),
            Orientation::South => offsets_of([0, 0], [-1, 0], [-1, -1], [0, -1]),
            Orientation::West => offsets_of([0, 0], [0, 1], [-1, 1], [-1, 0]),
        },
        Shape::J => match orientation {
            Orientation::North => offsets_of([-1, 1], [-1, 0], [0, 0], [1, 0]),
            Orientation::East => offsets_of([1, 1], [0, 1], [0, 0], [0, -1]),
            Orientation::South => offsets_of([1, -1], [1, 0], [0, 0], [-1, 0]),
            Orientation::West => offsets_of([-1, -1], [0, -1], [0, 0], [0, 1]),
        },
        Shape::L => match orientation {
            Orientation::North => offsets_of([1, 1], [-1, 0], [0, 0], [1, 0]),
            Orientation::East => offsets_of([1, -1], [0, 1], [0, 0], [0, -1]),
            Orientation::South => offsets_of([-1, -1], [1, 0], [0, 0], [-1, 0]),
            Orientation::West => offsets_of([-1, 1], [0, -1], [0, 0], [0, 1]),
        },
        Shape::S => match orientation {
            Orientation::North => offsets_of([1, 1], [-1, 0], [0, 0], [0, 1]),
            Orientation::East => offsets_of([1, -1], [0, 1], [0, 0], [1, 0]),
            Orientation::South => offsets_of([-1, -1], [1, 0], [0, 0], [0, -1]),
            Orientation::West => offsets_of([-1, 1], [0, -1], [0, 0], [-1, 0]),
        },
        Shape::T => match orientation {
            Orientation::North => offsets_of([1, 0], [-1, 0], [0, 0], [0, 1]),
            Orientation::East => offsets_of([0, -1], [0, 1], [0, 0], [1, 0]),
            Orientation::South => offsets_of([-1, 0], [1, 0], [0, 0], [0, -1]),
            Orientation::West => offsets_of([0, 1], [0, -1], [0, 0], [-1, 0]),
        },
        Shape::Z => match orientation {
            Orientation::North => offsets_of([1, 0], [-1, 1], [0, 0], [0, 1]),
            Orientation::East => offsets_of([0, -1], [1, 1], [0, 0], [1, 0]),
            Orientation::South => offsets_of([-1, 0], [1, -1], [0, 0], [0, -1]),
            Orientation::West => offsets_of([0, 1], [-1, -1], [0, 0], [-1, 0]),
        },
    };
    assert(blocks@ =~= block_offsets(shape, orientation));
    blocks
}

/// The place of the pivot among the four offsets of a shape.
pub open spec fn pivot_index(shape: Shape) -> int {
    match shape {
        Shape::I => 1,
        Shape::O => 0,
        _ => 2,
    }
}

/// In every orientation a shape covers its pivot.
pub proof fn lemma_pivot_is_covered(piece: Tetromino)
    ensures
        piece.cells()[pivot_index(piece.shape)] == (
            piece.position.x as int,
            piece.position.y as int,
        ),
        piece.covers(piece.position.x as int, piece.position.y as int),
{
    reveal_with_fuel(turned, 4);
    assert(north_offsets(piece.shape)[pivot_index(piece.shape)] == at(0, 0));
}

/// Four quarter turns one way lead back to the orientation they began
/// with, and a quarter turn one way undoes a quarter turn the other way.
pub proof fn lemma_turns_cycle(o: Orientation)
    ensures
        clockwise_of(clockwise_of(clockwise_of(clockwise_of(o)))) == o,
        counterclockwise_of(counterclockwise_of(counterclockwise_of(counterclockwise_of(o))))
            == o,
        counterclockwise_of(clockwise_of(o)) == o,
        clockwise_of(counterclockwise_of(o)) == o,
{
}

/// A quarter turn clockwise of a piece turns each of its cells about the
/// pivot: the cell at `(x, y)` from the pivot goes to `(y, -x)`. This holds
/// from west to north as well, where the table begins again.
pub proof fn lemma_clockwise_turn_turns_cells(shape: Shape, orientation: Orientation, i: int)
    requires
        0 <= i < 4,
    ensures
        block_offsets(shape, clockwise_of(orientation))[i] == turned_clockwise(
            block_offsets(shape, orientation)[i],
        ),
{
    reveal_with_fuel(turned, 5);
    let p = north_offsets(shape)[i];
    assert(-1 <= p.x <= 2 && 0 <= p.y <= 1);
}

} // verus!
