use crate::catalog::{
    catalog_brick, lemma_next_rotation_is_modular, next_rotation, rotation_count, rotation_states,
    shape_cells, shape_in_catalog,
};
use crate::constants::BRICK_KINDS;
use rand::Rng;
use vstd::prelude::*;
use vstd::std_specs::convert::FromSpecImpl;

verus! {

/// A cell coordinate: column, then row. Row 0 is the bottom row of the field.
#[derive(Clone, Copy, Default, Debug, PartialEq, Eq, Structural)]
pub struct BrickNode(pub i8, pub i8);

impl BrickNode {
    /// One column to the left.
    pub fn move_left(&mut self)
        requires
            old(self).0 > i8::MIN,
        ensures
            final(self).0 == old(self).0 - 1,
            final(self).1 == old(self).1,
    {
        self.0 = self.0 - 1;
    }

    /// One column to the right.
    pub fn move_right(&mut self)
        requires
            old(self).0 < i8::MAX,
        ensures
            final(self).0 == old(self).0 + 1,
            final(self).1 == old(self).1,
    {
        self.0 = self.0 + 1;
    }

    /// One row down.
    pub fn move_down(&mut self)
        requires
            old(self).1 > i8::MIN,
        ensures
            final(self).0 == old(self).0,
            final(self).1 == old(self).1 - 1,
    {
        self.1 = self.1 - 1;
    }

    /// `steps` columns to the left; a negative `steps` moves right.
    pub fn move_left_steps(&mut self, steps: i8)
        requires
            i8::MIN <= old(self).0 - steps <= i8::MAX,
        ensures
            final(self).0 == old(self).0 - steps,
            final(self).1 == old(self).1,
    {
        self.0 = self.0 - steps;
    }

    /// `steps` columns to the right; a negative `steps` moves left.
    pub fn move_right_steps(&mut self, steps: i8)
        requires
            i8::MIN <= old(self).0 + steps <= i8::MAX,
        ensures
            final(self).0 == old(self).0 + steps,
            final(self).1 == old(self).1,
    {
        self.0 = self.0 + steps;
    }

    /// `steps` rows down; a negative `steps` moves up.
    pub fn move_down_steps(&mut self, steps: i8)
        requires
            i8::MIN <= old(self).1 - steps <= i8::MAX,
        ensures
            final(self).0 == old(self).0,
            final(self).1 == old(self).1 - steps,
    {
        self.1 = self.1 - steps;
    }

    /// `steps` rows up; a negative `steps` moves down.
    pub fn move_up_steps(&mut self, steps: i8)
        requires
            i8::MIN <= old(self).1 + steps <= i8::MAX,
        ensures
            final(self).0 == old(self).0,
            final(self).1 == old(self).1 + steps,
    {
        self.1 = self.1 + steps;
    }
}

/// A brick: four cells.
#[derive(Clone, Copy, Default, Debug)]
pub struct Brick {
    pub nodes: [BrickNode; 4],
}

impl Brick {
    /// The brick whose cells are the given four.
    pub open spec fn of_cells(cells: Seq<BrickNode>) -> Brick {
        Brick { nodes: [cells[0], cells[1], cells[2], cells[3]] }
    }

    /// The cells of a brick whose relative cells are `cells`, with its anchor
    /// at `anchor`: columns are added to the anchor's column, rows are taken
    /// from the anchor's row.
    pub open spec fn placed_cells(cells: Seq<BrickNode>, anchor: BrickNode) -> Seq<BrickNode> {
        Seq::new(
            4,
            |i: int| BrickNode((anchor.0 + cells[i].0) as i8, (anchor.1 - cells[i].1) as i8),
        )
    }

    /// The four cells fit, with the anchor at `anchor`, in a coordinate.
    pub open spec fn can_place(cells: Seq<BrickNode>, anchor: BrickNode) -> bool {
        forall|i: int|
            0 <= i < 4 ==> i8::MIN <= anchor.0 + (#[trigger] cells[i]).0 <= i8::MAX && i8::MIN
                <= anchor.1 - cells[i].1 <= i8::MAX
    }

    /// The absolute cells of this brick of relative cells, anchored at `anchor`.
    pub fn place(&self, anchor: &BrickNode) -> (placed: Brick)
        requires
            Self::can_place(self.nodes@, *anchor),
        ensures
            placed.nodes@ == Self::placed_cells(self.nodes@, *anchor),
    {
        let n0: BrickNode = self.nodes[0];
        let n1: BrickNode = self.nodes[1];
        let n2: BrickNode = self.nodes[2];
        let n3: BrickNode = self.nodes[3];
        let placed = Brick {
            nodes: [
                BrickNode(anchor.0 + n0.0, anchor.1 - n0.1),
                BrickNode(anchor.0 + n1.0, anchor.1 - n1.1),
                BrickNode(anchor.0 + n2.0, anchor.1 - n2.1),
                BrickNode(anchor.0 + n3.0, anchor.1 - n3.1),
            ],
        };
        placed
    }
}

/// A shape: a brick kind of the catalog and one of that kind's rotation states.
#[derive(Clone, Copy, Debug, PartialEq, Eq, Structural)]
pub struct BrickShape(usize, usize);

/// Calls `rand::Rng::random_range` on the thread's generator `rand::rng()`
/// with the range `0..bound`. The result lies in that range; which value
/// comes is left open. An empty range, which makes the call panic, is kept out.
#[verifier::external_body]
fn random_below(bound: usize) -> (index: usize)
    requires
        bound > 0,
    ensures
        index < bound,
{
    rand::rng().random_range(0..bound)
}

impl View for BrickShape {
    type V = (int, int);

    /// Kind, then rotation state.
    closed spec fn view(&self) -> (int, int) {
        (self.0 as int, self.1 as int)
    }
}

impl BrickShape {
    /// Every shape is one of the catalog.
    #[verifier::type_invariant]
    pub open spec fn in_catalog(self) -> bool {
        shape_in_catalog(self@.0, self@.1)
    }

    /// The relative cells that the catalog gives for this shape.
    pub open spec fn cells(self) -> Seq<BrickNode> {
        shape_cells(self@.0, self@.1)
    }

    /// Two shapes of the same kind and rotation state are the same shape.
    pub proof fn lemma_view_decides(self, other: BrickShape)
        requires
            self@ == other@,
        ensures
            self == other,
    {
    }

    /// The shape of the given kind and rotation state, if the catalog has it.
    pub fn new(kind: usize, rotation: usize) -> (shape: Option<BrickShape>)
        ensures
            shape_in_catalog(kind as int, rotation as int) ==> shape is Some && shape->0@ == (
                kind as int,
                rotation as int,
            ),
            !shape_in_catalog(kind as int, rotation as int) ==> shape is None,
    {
        if kind < BRICK_KINDS && rotation < rotation_states(kind) {
            Some(BrickShape(kind, rotation))
        } else {
            None
        }
    }

    /// The brick kind, below 7.
    pub fn kind(&self) -> (kind: usize)
        ensures
            kind == self@.0,
            shape_in_catalog(self@.0, self@.1),
    {
        proof {
            use_type_invariant(self);
        }
        self.0
    }

    /// The rotation state, below the kind's number of rotation states.
    pub fn rotation(&self) -> (rotation: usize)
        ensures
            rotation == self@.1,
            shape_in_catalog(self@.0, self@.1),
    {
        proof {
            use_type_invariant(self);
        }
        self.1
    }

    /// A brick kind picked at random, in its first rotation state.
    pub fn rand() -> (shape: BrickShape)
        ensures
            0 <= shape@.0 < BRICK_KINDS,
            shape@.1 == 0,
    {
        let index: usize = random_below(BRICK_KINDS);
        Self::of_kind(index)
    }

    /// The next rotation state of the same kind; after the last comes the
    /// first: the rotation state goes up by one modulo their number.
    pub fn rotate(&self) -> (rotated: BrickShape)
        ensures
            shape_in_catalog(self@.0, self@.1),
            rotated@.0 == self@.0,
            rotated@.1 == next_rotation(self@.0, self@.1),
            rotated@.1 == (self@.1 + 1) % rotation_count(self@.0),
    {
        proof {
            use_type_invariant(self);
            lemma_next_rotation_is_modular(self@.0, self@.1);
        }
        BrickShape(self.0, (self.1 + 1) % rotation_states(self.0))
    }

    /// The shape that comes after the falling one: a kind picked at random.
    pub fn next() -> (shape: BrickShape)
        ensures
            0 <= shape@.0 < BRICK_KINDS,
            shape@.1 == 0,
    {
        Self::rand()
    }

    /// The shape of the given kind in its first rotation state: what a draw
    /// of that kind gives.
    pub fn of_kind(kind: usize) -> (shape: BrickShape)
        requires
            kind < BRICK_KINDS,
        ensures
            shape@ == (kind as int, 0int),
    {
        BrickShape(kind, 0)
    }
}

impl Default for BrickShape {
    /// The square.
    fn default() -> (shape: BrickShape)
        ensures
            shape@ == (0int, 0int),
    {
        BrickShape(0, 0)
    }
}

impl From<BrickShape> for Brick {
    /// The brick of relative cells that the catalog holds for the shape.
    fn from(value: BrickShape) -> (brick: Brick) {
        proof {
            use_type_invariant(&value);
        }
        let brick = catalog_brick(value.0, value.1);
        assert(brick.nodes =~= Brick::of_cells(value.cells()).nodes);
        brick
    }
}

impl FromSpecImpl<BrickShape> for Brick {
    open spec fn obeys_from_spec() -> bool {
        true
    }

    open spec fn from_spec(value: BrickShape) -> Brick {
        Brick::of_cells(value.cells())
    }
}

} // verus!

