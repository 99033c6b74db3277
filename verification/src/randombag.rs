//! The sequence in which shapes are drawn: two bags of seven shapes each,
//! one being read while the other lies shuffled and ready.

use crate::tetromino::Shape;
use rand::rngs::ThreadRng;
use rand::seq::SliceRandom;
use vstd::prelude::*;

verus! {

/// The generator of random numbers that `rand` keeps for each thread. What
/// it holds is hidden from the proofs.
#[verifier::external_type_specification]
#[verifier::external_body]
pub struct ExThreadRng(rand::rngs::ThreadRng);

/// Calls `rand::thread_rng`, which hands out the generator of the current
/// thread, seeded by the system. Nothing is claimed of the generator. The
/// call panics where the system has no random numbers to seed it with; that
/// it does not is taken on trust.
#[verifier::external_body]
fn thread_generator() -> ThreadRng {
    rand::thread_rng()
}

/// Calls `rand::seq::SliceRandom::shuffle` on the seven shapes. The shuffle
/// works by exchanging pairs of items, so afterwards the array holds what it
/// held before, each shape as often as before; in which order is left open.
#[verifier::external_body]
fn shuffle(shapes: &mut [Shape; 7], rng: &mut ThreadRng)
    ensures
        final(shapes)@.to_multiset() == old(shapes)@.to_multiset(),
{
    shapes.shuffle(rng);
}

/// Whether `shapes` holds each of the seven shapes exactly once.
pub open spec fn is_bag(shapes: Seq<Shape>) -> bool {
    &&& shapes.len() == 7
    &&& shapes.no_duplicates()
    &&& forall|shape: Shape| shapes.contains(shape)
}

/// What a sequencer holds: fourteen slots and the slot that is drawn next.
pub struct BagState {
    pub contents: Seq<Shape>,
    pub index: nat,
}

impl BagState {
    /// The first seven slots.
    pub open spec fn front(self) -> Seq<Shape> {
        self.contents.subrange(0, 7)
    }

    /// The last seven slots.
    pub open spec fn back(self) -> Seq<Shape> {
        self.contents.subrange(7, 14)
    }

    /// Fourteen slots, each half of which holds every shape exactly once,
    /// and a cursor on one of the slots.
    pub open spec fn wf(self) -> bool {
        &&& self.contents.len() == 14
        &&& self.index < 14
        &&& is_bag(self.front())
        &&& is_bag(self.back())
    }

    /// The shape that is drawn next.
    pub open spec fn next_shape(self) -> Shape {
        self.contents[self.index as int]
    }

    /// Whether one draw can lead from this state to `after` and give `shape`:
    /// the shape is the one under the cursor, the cursor moves on by one slot
    /// and wraps behind the last, and the half that the cursor has just left
    /// may come back in any order, while the other half stays as it is.
    pub open spec fn draws(self, after: BagState, shape: Shape) -> bool {
        &&& shape == self.next_shape()
        &&& after.index == (self.index + 1) % 14
        &&& after.wf()
        &&& after.index != 7 ==> after.front() == self.front()
        &&& after.index != 0 ==> after.back() == self.back()
    }
}

/// A permutation of a bag is a bag.
pub proof fn lemma_shuffled_bag(before: Seq<Shape>, after: Seq<Shape>)
    requires
        is_bag(before),
        after.to_multiset() == before.to_multiset(),
    ensures
        is_bag(after),
{
    before.to_multiset_ensures();
    after.to_multiset_ensures();
    before.lemma_multiset_has_no_duplicates();
    after.lemma_multiset_has_no_duplicates_conv();
    assert forall|shape: Shape| after.contains(shape) by {
        assert(before.contains(shape));
        assert(before.to_multiset().count(shape) > 0);
    }
}

/// The sequencer: two bags side by side and a cursor. A bag that has been
/// used up is shuffled with the generator of the thread that draws.
pub struct RandomBag {
    front: [Shape; 7],
    back: [Shape; 7],
    index: usize,
}

impl View for RandomBag {
    type V = BagState;

    /// The fourteen slots, the first bag before the second, and the cursor.
    closed spec fn view(&self) -> BagState {
        BagState { contents: self.front@ + self.back@, index: self.index as nat }
    }
}

impl RandomBag {
    #[verifier::type_invariant]
    spec fn inv(&self) -> bool {
        self.index < 14 && is_bag(self.front@) && is_bag(self.back@)
    }

    /// A sequencer with both bags shuffled and the cursor on the first slot.
    pub fn new() -> (bag: RandomBag)
        ensures
            bag@.wf(),
            bag@.index == 0,
    {
        let ordered = [Shape::I, Shape::J, Shape::L, Shape::O, Shape::S, Shape::T, Shape::Z];
        proof {
            lemma_every_shape_once(ordered@);
        }
        let mut bag = RandomBag { front: ordered, back: ordered, index: 0 };
        bag.shuffle_front();
        bag.shuffle_back();
        proof {
            use_type_invariant(&bag);
            assert(bag@.front() =~= bag.front@);
            assert(bag@.back() =~= bag.back@);
        }
        bag
    }

    /// The shape that the next draw gives.
    pub fn peek(&self) -> (shape: Shape)
        ensures
            self@.wf(),
            shape == self@.next_shape(),
    {
        proof {
            use_type_invariant(self);
            assert(self@.front() =~= self.front@);
            assert(self@.back() =~= self.back@);
        }
        if self.index < 7 {
            self.front[self.index]
        } else {
            self.back[self.index - 7]
        }
    }

    /// Draws the shape under the cursor and moves the cursor on. A bag is
    /// shuffled as soon as the cursor has left it.
    pub fn get(&mut self) -> (shape: Shape)
        ensures
            old(self)@.wf(),
            old(self)@.draws(final(self)@, shape),
    {
        let result = self.peek();
        proof {
            use_type_invariant(&*self);
        }
        self.index = (self.index + 1) % 14;
        match self.index {
            0 => self.shuffle_back(),
            7 => self.shuffle_front(),
            _ => (),
        }
        proof {
            use_type_invariant(&*self);
            assert(self@.front() =~= self.front@);
            assert(self@.back() =~= self.back@);
            assert(old(self)@.front() =~= old(self).front@);
            assert(old(self)@.back() =~= old(self).back@);
        }
        result
    }

    /// The fourteen slots, first to last.
    pub fn contents(&self) -> (slots: Vec<Shape>)
        ensures
            slots@ == self@.contents,
    {
        let mut slots: Vec<Shape> = Vec::new();
        let mut i: usize = 0;
        while i < 14
            invariant
                i <= 14,
                slots@ == (self.front@ + self.back@).take(i as int),
            decreases 14 - i,
        {
            let shape = if i < 7 {
                self.front[i]
            } else {
                self.back[i - 7]
            };
            slots.push(shape);
            assert(slots@ =~= (self.front@ + self.back@).take(i + 1));
            i += 1;
        }
        assert(slots@ =~= self@.contents);
        slots
    }

    /// Shuffles the first bag: it holds the shapes that it held, in an order
    /// that the generator decides. The second bag and the cursor stay.
    fn shuffle_front(&mut self)
        ensures
            final(self).front@.to_multiset() == old(self).front@.to_multiset(),
            is_bag(final(self).front@),
            final(self).back == old(self).back,
            final(self).index == old(self).index,
    {
        proof {
            use_type_invariant(&*self);
        }
        let mut shapes = self.front;
        let mut rng = thread_generator();
        shuffle(&mut shapes, &mut rng);
        proof {
            lemma_shuffled_bag(self.front@, shapes@);
        }
        self.front = shapes;
    }

    /// Shuffles the second bag: it holds the shapes that it held, in an
    /// order that the generator decides. The first bag and the cursor stay.
    fn shuffle_back(&mut self)
        ensures
            final(self).back@.to_multiset() == old(self).back@.to_multiset(),
            is_bag(final(self).back@),
            final(self).front == old(self).front,
            final(self).index == old(self).index,
    {
        proof {
            use_type_invariant(&*self);
        }
        let mut shapes = self.back;
        let mut rng = thread_generator();
        shuffle(&mut shapes, &mut rng);
        proof {
            lemma_shuffled_bag(self.back@, shapes@);
        }
        self.back = shapes;
    }
}

/// The seven shapes in any one order, each named once, make a bag.
proof fn lemma_every_shape_once(shapes: Seq<Shape>)
    requires
        shapes == seq![Shape::I, Shape::J, Shape::L, Shape::O, Shape::S, Shape::T, Shape::Z],
    ensures
        is_bag(shapes),
{
    assert forall|shape: Shape| shapes.contains(shape) by {
        match shape {
            Shape::I => assert(shapes[0] == shape),
            Shape::J => assert(shapes[1] == shape),
            Shape::L => assert(shapes[2] == shape),
            Shape::O => assert(shapes[3] == shape),
            Shape::S => assert(shapes[4] == shape),
            Shape::T => assert(shapes[5] == shape),
            Shape::Z => assert(shapes[6] == shape),
        }
    }
}

/// Seven draws in a row that begin at the first slot of a bag give each of
/// the seven shapes exactly once, whatever the shuffles on the way bring,
/// and leave the cursor on the first slot of the other bag. `states` holds
/// the sequencer before the first draw and after each draw, `drawn` the
/// shapes in the order in which they came.
pub proof fn lemma_seven_draws_give_every_shape(states: Seq<BagState>, drawn: Seq<Shape>)
    requires
        states.len() == 8,
        drawn.len() == 7,
        states[0].wf(),
        states[0].index == 0 || states[0].index == 7,
        forall|i: int| 0 <= i < 7 ==> states[i].draws(states[i + 1], #[trigger] drawn[i]),
    ensures
        is_bag(drawn),
        states[7].wf(),
        states[7].index == (states[0].index + 7) % 14,
{
    let start = states[0].index as int;
    let bag = states[0].contents.subrange(start, start + 7);
    assert(bag == if start == 0 {
        states[0].front()
    } else {
        states[0].back()
    });
    assert forall|i: int| 0 <= i < 7 implies states[i].index == start + i && drawn[i] == bag[i] by {
        lemma_bag_in_use_stays(states, drawn, i);
    }
    assert(states[6].draws(states[7], drawn[6]));
    assert(drawn =~= bag);
}

/// Within seven draws that begin at the first slot of a bag, the bag that is
/// being read stays as it was at the beginning.
proof fn lemma_bag_in_use_stays(states: Seq<BagState>, drawn: Seq<Shape>, i: int)
    requires
        states.len() == 8,
        drawn.len() == 7,
        states[0].wf(),
        states[0].index == 0 || states[0].index == 7,
        forall|k: int| 0 <= k < 7 ==> states[k].draws(states[k + 1], #[trigger] drawn[k]),
        0 <= i < 7,
    ensures
        states[i].index == states[0].index + i,
        states[i].contents.len() == 14,
        states[i].contents.subrange(states[0].index as int, states[0].index as int + 7)
            == states[0].contents.subrange(states[0].index as int, states[0].index as int + 7),
        drawn[i] == states[0].contents[states[0].index + i],
    decreases i,
{
    let start = states[0].index as int;
    if i > 0 {
        lemma_bag_in_use_stays(states, drawn, i - 1);
        assert(states[i - 1].draws(states[i], drawn[i - 1]));
    }
    assert(states[i].draws(states[i + 1], drawn[i]));
    assert(states[i].contents.subrange(start, start + 7)[i] == states[i].contents[start + i]);
}

/// Of the draws from a sequencer that begins at its first slot, the first
/// seven give each of the seven shapes exactly once, and so do the next
/// seven, and every seven after them. `states` holds the sequencer before
/// the first draw and after each draw, `drawn` the shapes in the order in
/// which they came, and `k` counts the runs of seven from zero.
pub proof fn lemma_every_run_of_seven_is_a_bag(states: Seq<BagState>, drawn: Seq<Shape>, k: int)
    requires
        states.len() == drawn.len() + 1,
        states[0].wf(),
        states[0].index == 0,
        forall|i: int| 0 <= i < drawn.len() ==> states[i].draws(states[i + 1], #[trigger] drawn[i]),
        0 <= k,
        7 * (k + 1) <= drawn.len(),
    ensures
        is_bag(drawn.subrange(7 * k, 7 * k + 7)),
        states[7 * k + 7].wf(),
        states[7 * k + 7].index == 0 || states[7 * k + 7].index == 7,
    decreases k,
{
    if k > 0 {
        lemma_every_run_of_seven_is_a_bag(states, drawn, k - 1);
    }
    let window = states.subrange(7 * k, 7 * k + 8);
    let run = drawn.subrange(7 * k, 7 * k + 7);
    assert forall|i: int| 0 <= i < 7 implies window[i].draws(window[i + 1], #[trigger] run[i]) by {
        assert(states[7 * k + i].draws(states[7 * k + i + 1], drawn[7 * k + i]));
    }
    lemma_seven_draws_give_every_shape(window, run);
}

} // verus!
