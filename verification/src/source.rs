//! Where a game takes the shapes of its pieces from.

use crate::randombag::BagState;
use crate::randombag::RandomBag;
use crate::tetromino::Shape;
use vstd::prelude::*;

verus! {

/// The supply of shapes for a game.
pub enum ShapeSource {
    /// The same shape at every draw.
    Fixed(Shape),
    /// The shapes of a sequencer, which shuffles them bag by bag.
    Bag(RandomBag),
}

/// What a supply of shapes holds.
pub enum SourceState {
    Fixed(Shape),
    Bag(BagState),
}

impl SourceState {
    /// The shape that the next draw gives.
    pub open spec fn next_shape(self) -> Shape {
        match self {
            SourceState::Fixed(shape) => shape,
            SourceState::Bag(bag) => bag.next_shape(),
        }
    }

    /// Whether one draw can lead from this state to `after` and give
    /// `shape`. A fixed supply stays as it is; a sequencer makes one draw.
    pub open spec fn draws(self, after: SourceState, shape: Shape) -> bool {
        match self {
            SourceState::Fixed(only) => shape == only && after == self,
            SourceState::Bag(bag) => after is Bag && bag.draws(after->Bag_0, shape),
        }
    }
}

impl View for ShapeSource {
    type V = SourceState;

    open spec fn view(&self) -> SourceState {
        match self {
            ShapeSource::Fixed(shape) => SourceState::Fixed(*shape),
            ShapeSource::Bag(bag) => SourceState::Bag(bag@),
        }
    }
}

impl ShapeSource {
    /// Takes the next shape out of the supply.
    pub fn draw(&mut self) -> (shape: Shape)
        ensures
            shape == old(self)@.next_shape(),
            old(self)@.draws(final(self)@, shape),
    {
        match self {
            ShapeSource::Fixed(shape) => *shape,
            ShapeSource::Bag(bag) => bag.get(),
        }
    }
}

} // verus!
