use crate::brick::{Brick, BrickNode, BrickShape};
use crate::catalog::{lemma_catalog_in_box, next_rotation, shape_cells, shape_in_catalog};
use crate::constants::{SPAWN_COL, SPAWN_ROW};
use crate::game_data::{blocked_down, blocked_left, blocked_right, in_board, over_top, Board};
use vstd::prelude::*;

verus! {

/// The buttons of the game, each a command once it is pressed.
#[derive(Debug, Clone, Copy, PartialEq, Eq, Structural)]
pub enum ButtonName {
    Rotate,
    Right,
    Down,
    Left,
    Drop,
    Pause,
    Sound,
    Replay,
}

/// Whether `condition` holds of one of the four cells of a brick.
pub fn falling_brick_nodes_any<F>(brick: &Brick, condition: F) -> (any: bool) where
    F: Fn(&BrickNode) -> bool,

    requires
        forall|i: int| 0 <= i < 4 ==> call_requires(condition, (&#[trigger] brick.nodes@[i],)),
    ensures
        any ==> exists|i: int|
            0 <= i < 4 && call_ensures(condition, (&#[trigger] brick.nodes@[i],), true),
        !any ==> forall|i: int|
            0 <= i < 4 ==> call_ensures(condition, (&#[trigger] brick.nodes@[i],), false),
{
    let mut k: usize = 0;
    while k < 4
        invariant
            k <= 4,
            forall|i: int| 0 <= i < 4 ==> call_requires(condition, (&#[trigger] brick.nodes@[i],)),
            forall|i: int|
                0 <= i < k ==> call_ensures(condition, (&#[trigger] brick.nodes@[i],), false),
        decreases 4 - k,
    {
        if condition(&brick.nodes[k]) {
            return true;
        }
        k = k + 1;
    }
    false
}

/// The least of four numbers.
pub open spec fn min4(a: int, b: int, c: int, d: int) -> int {
    let ab = if a <= b { a } else { b };
    let cd = if c <= d { c } else { d };
    if ab <= cd { ab } else { cd }
}

/// The greatest of four numbers.
pub open spec fn max4(a: int, b: int, c: int, d: int) -> int {
    let ab = if a >= b { a } else { b };
    let cd = if c >= d { c } else { d };
    if ab >= cd { ab } else { cd }
}

/// The falling brick as contracts see it: kind and rotation state of its
/// shape, and its anchor.
pub struct FallingBrickView {
    pub shape: (int, int),
    pub node: BrickNode,
}

impl FallingBrickView {
    /// The relative cells of the shape.
    pub open spec fn offsets(self) -> Seq<BrickNode> {
        shape_cells(self.shape.0, self.shape.1)
    }

    /// The four cells that the brick covers on the field.
    pub open spec fn cells(self) -> Seq<BrickNode> {
        Brick::placed_cells(self.offsets(), self.node)
    }

    /// The shape is one of the catalog, no cell lies left of column 0, right
    /// of column 9 or under row 0, and the anchor is no higher than where
    /// bricks are spawned.
    pub open spec fn wf(self) -> bool {
        &&& shape_in_catalog(self.shape.0, self.shape.1)
        &&& self.node.1 <= SPAWN_ROW
        &&& forall|i: int|
            0 <= i < 4 ==> 0 <= self.node.0 + (#[trigger] self.offsets()[i]).0 <= 9 && 0
                <= self.node.1 - self.offsets()[i].1
    }

    /// A brick of the given shape where bricks are spawned.
    pub open spec fn spawned(shape: (int, int)) -> FallingBrickView {
        FallingBrickView { shape, node: BrickNode(SPAWN_COL, SPAWN_ROW) }
    }

    /// The same brick with its anchor moved by `dx` columns and `dy` rows.
    pub open spec fn shifted(self, dx: int, dy: int) -> FallingBrickView {
        FallingBrickView {
            shape: self.shape,
            node: BrickNode((self.node.0 + dx) as i8, (self.node.1 + dy) as i8),
        }
    }

    /// No cell of the brick is kept from going left on the grid `cells`.
    pub open spec fn can_move_left(self, cells: Seq<bool>) -> bool {
        forall|i: int| 0 <= i < 4 ==> !blocked_left(cells, #[trigger] self.cells()[i])
    }

    /// No cell of the brick is kept from going right.
    pub open spec fn can_move_right(self, cells: Seq<bool>) -> bool {
        forall|i: int| 0 <= i < 4 ==> !blocked_right(cells, #[trigger] self.cells()[i])
    }

    /// No cell of the brick is kept from going down. A brick that cannot go
    /// down is locked.
    pub open spec fn can_move_down(self, cells: Seq<bool>) -> bool {
        forall|i: int| 0 <= i < 4 ==> !blocked_down(cells, #[trigger] self.cells()[i])
    }

    /// One of the cells reaches the top row.
    pub open spec fn hits_top(self) -> bool {
        exists|i: int| 0 <= i < 4 && over_top(#[trigger] self.cells()[i])
    }

    /// The brick after a step to the left: one column left if no cell is
    /// blocked, else unchanged.
    pub open spec fn moved_left(self, cells: Seq<bool>) -> FallingBrickView {
        if self.can_move_left(cells) {
            self.shifted(-1, 0)
        } else {
            self
        }
    }

    /// The brick after a step to the right.
    pub open spec fn moved_right(self, cells: Seq<bool>) -> FallingBrickView {
        if self.can_move_right(cells) {
            self.shifted(1, 0)
        } else {
            self
        }
    }

    /// The brick after a step down.
    pub open spec fn moved_down(self, cells: Seq<bool>) -> FallingBrickView {
        if self.can_move_down(cells) {
            self.shifted(0, -1)
        } else {
            self
        }
    }

    /// The brick in its next rotation state at the same anchor, before it is
    /// pushed back onto the field.
    pub open spec fn turned(self) -> FallingBrickView {
        FallingBrickView {
            shape: (self.shape.0, next_rotation(self.shape.0, self.shape.1)),
            node: self.node,
        }
    }

    /// Leftmost column of the brick.
    pub open spec fn min_col(self) -> int {
        let c = self.cells();
        min4(c[0].0 as int, c[1].0 as int, c[2].0 as int, c[3].0 as int)
    }

    /// Rightmost column of the brick.
    pub open spec fn max_col(self) -> int {
        let c = self.cells();
        max4(c[0].0 as int, c[1].0 as int, c[2].0 as int, c[3].0 as int)
    }

    /// Lowest row of the brick.
    pub open spec fn min_row(self) -> int {
        let c = self.cells();
        min4(c[0].1 as int, c[1].1 as int, c[2].1 as int, c[3].1 as int)
    }

    /// Columns by which a brick must go right (positive) or left (negative)
    /// to stand between the walls: as many as it reaches over the wall.
    pub open spec fn push_cols(self) -> int {
        if self.min_col() < 0 {
            -self.min_col()
        } else if self.max_col() > 9 {
            9 - self.max_col()
        } else {
            0
        }
    }

    /// Rows by which a brick must go up to stand on or above the floor.
    pub open spec fn push_rows(self) -> int {
        if self.min_row() < 0 {
            -self.min_row()
        } else {
            0
        }
    }

    /// The brick after a rotation: the next rotation state, pushed away from
    /// the walls and the floor by as much as it reached over them. Occupied
    /// cells do not stop a rotation.
    pub open spec fn rotated(self) -> FallingBrickView {
        self.turned().shifted(self.turned().push_cols(), self.turned().push_rows())
    }

    /// The anchor of a well-formed brick is near the field, so that its cells
    /// are coordinates.
    pub proof fn lemma_anchor_range(self)
        requires
            self.wf(),
        ensures
            -3 <= self.node.0 <= 9,
            0 <= self.node.1 <= SPAWN_ROW,
            Brick::can_place(self.offsets(), self.node),
            self.offsets().len() == 4,
            forall|i: int|
                0 <= i < 4 ==> 0 <= (#[trigger] self.cells()[i]).0 <= 9 && 0 <= self.cells()[i].1
                    <= SPAWN_ROW,
            forall|i: int|
                0 <= i < 4 ==> (#[trigger] self.cells()[i]).0 == self.node.0 + self.offsets()[i].0
                    && self.cells()[i].1 == self.node.1 - self.offsets()[i].1,
    {
        lemma_catalog_in_box(self.shape.0, self.shape.1);
        assert(0 <= self.offsets()[0].1 <= 3);
    }

    /// Every cell of a well-formed brick lies in the columns of the field.
    pub proof fn lemma_cells_between_walls(self)
        requires
            self.wf(),
        ensures
            forall|i: int| 0 <= i < 4 ==> 0 <= (#[trigger] self.cells()[i]).0 <= 9,
    {
        self.lemma_anchor_range();
    }

    /// A freshly spawned brick of a catalog shape is well formed.
    pub proof fn lemma_spawned_wf(shape: (int, int))
        requires
            shape_in_catalog(shape.0, shape.1),
        ensures
            Self::spawned(shape).wf(),
    {
        lemma_catalog_in_box(shape.0, shape.1);
    }

    /// Steps and rotations keep a brick well formed, whatever the grid holds.
    pub proof fn lemma_moves_keep_wf(self, cells: Seq<bool>)
        requires
            self.wf(),
        ensures
            self.moved_left(cells).wf(),
            self.moved_right(cells).wf(),
            self.moved_down(cells).wf(),
            self.rotated().wf(),
    {
        self.lemma_anchor_range();
        assert(self.moved_left(cells).wf()) by {
            if self.can_move_left(cells) {
                assert forall|i: int| 0 <= i < 4 implies 0 < self.node.0 + (
                #[trigger] self.offsets()[i]).0 by {
                    assert(!blocked_left(cells, self.cells()[i]));
                }
            }
        }
        assert(self.moved_right(cells).wf()) by {
            if self.can_move_right(cells) {
                assert forall|i: int| 0 <= i < 4 implies self.node.0 + (
                #[trigger] self.offsets()[i]).0 < 9 by {
                    assert(!blocked_right(cells, self.cells()[i]));
                }
            }
        }
        assert(self.moved_down(cells).wf()) by {
            if self.can_move_down(cells) {
                assert forall|i: int| 0 <= i < 4 implies 0 < self.node.1 - (
                #[trigger] self.offsets()[i]).1 by {
                    assert(!blocked_down(cells, self.cells()[i]));
                }
            }
        }
        self.lemma_rotated_wf();
    }

    /// A rotation keeps a brick well formed.
    pub proof fn lemma_rotated_wf(self)
        requires
            self.wf(),
        ensures
            self.rotated().wf(),
            -3 <= self.turned().push_cols() <= 3,
            0 <= self.turned().push_rows() <= 3,
    {
        self.lemma_anchor_range();
        lemma_catalog_in_box(self.turned().shape.0, self.turned().shape.1);
        let turned = self.rotated();
        assert forall|i: int| 0 <= i < 4 implies 0 <= turned.node.0 + (
        #[trigger] turned.offsets()[i]).0 <= 9 && 0 <= turned.node.1 - turned.offsets()[i].1 by {}
    }
}

/// The falling brick: its shape and its anchor. All its cells stay between
/// the walls and on or above the floor.
#[derive(Clone, Copy, Debug)]
pub struct FallingBrick {
    shape: BrickShape,
    node: BrickNode,
}

impl View for FallingBrick {
    type V = FallingBrickView;

    closed spec fn view(&self) -> FallingBrickView {
        FallingBrickView { shape: self.shape@, node: self.node }
    }
}

fn min_i8(a: i8, b: i8) -> (least: i8)
    ensures
        least == (if a <= b { a } else { b }),
{
    if a <= b {
        a
    } else {
        b
    }
}

fn max_i8(a: i8, b: i8) -> (greatest: i8)
    ensures
        greatest == (if a >= b { a } else { b }),
{
    if a >= b {
        a
    } else {
        b
    }
}

impl FallingBrick {
    /// Every falling brick is well formed.
    #[verifier::type_invariant]
    pub open spec fn well_formed(self) -> bool {
        self@.wf()
    }

    /// A brick of the given shape where bricks are spawned: its anchor is at
    /// column 5, row 23, above the visible field.
    pub fn new(shape: BrickShape) -> (falling: FallingBrick)
        ensures
            falling@ == FallingBrickView::spawned(shape@),
            falling@.wf(),
    {
        proof {
            use_type_invariant(&shape);
            FallingBrickView::lemma_spawned_wf(shape@);
        }
        FallingBrick { shape, node: BrickNode(SPAWN_COL, SPAWN_ROW) }
    }

    /// The shape of the brick.
    pub fn shape(&self) -> (shape: BrickShape)
        ensures
            shape@ == self@.shape,
            self@.wf(),
    {
        proof {
            use_type_invariant(self);
        }
        self.shape
    }

    /// The anchor of the brick.
    pub fn node(&self) -> (node: BrickNode)
        ensures
            node == self@.node,
            self@.wf(),
    {
        proof {
            use_type_invariant(self);
        }
        self.node
    }

    /// The four cells that the brick covers on the field. They lie in
    /// columns 0 to 9 and on or above the floor.
    pub fn brick(&self) -> (brick: Brick)
        ensures
            brick.nodes@ == self@.cells(),
            self@.wf(),
            forall|i: int|
                0 <= i < 4 ==> 0 <= (#[trigger] brick.nodes@[i]).0 <= 9 && 0 <= brick.nodes@[i].1
                    <= SPAWN_ROW,
    {
        proof {
            use_type_invariant(self);
            self@.lemma_anchor_range();
        }
        let relative: Brick = Brick::from(self.shape);
        relative.place(&self.node)
    }

    /// For each cell of the brick, whether it lies on the field and is to be
    /// shown. A cell above the top row is hidden.
    pub fn visible(&self, board: &Board) -> (shown: [bool; 4])
        ensures
            forall|i: int| 0 <= i < 4 ==> shown@[i] == in_board(#[trigger] self@.cells()[i]),
    {
        let brick: Brick = self.brick();
        [
            board.is_brick_node_in_board(&brick.nodes[0]),
            board.is_brick_node_in_board(&brick.nodes[1]),
            board.is_brick_node_in_board(&brick.nodes[2]),
            board.is_brick_node_in_board(&brick.nodes[3]),
        ]
    }

    /// Whether the brick cannot go down any more: one of its cells stands on
    /// the floor or on an occupied cell.
    pub fn is_locked(&self, board: &Board) -> (locked: bool)
        ensures
            locked == !self@.can_move_down(board@),
    {
        let brick: Brick = self.brick();
        let condition = |node: &BrickNode| -> (blocked: bool)
            ensures
                blocked == blocked_down(board@, *node),
            { board.is_move_to_bottom(node) };
        falling_brick_nodes_any(&brick, condition)
    }

    /// Whether one of the cells reaches the top row.
    pub fn is_hit_top(&self, board: &Board) -> (top: bool)
        ensures
            top == self@.hits_top(),
    {
        let brick: Brick = self.brick();
        let condition = |node: &BrickNode| -> (top: bool)
            ensures
                top == over_top(*node),
            { board.is_move_to_top(node) };
        falling_brick_nodes_any(&brick, condition)
    }

    /// One column to the left, unless a wall or an occupied cell is in the
    /// way of one of the cells. Says whether the brick went.
    pub fn move_left(&mut self, board: &Board) -> (moved: bool)
        ensures
            final(self)@ == old(self)@.moved_left(board@),
            moved == old(self)@.can_move_left(board@),
            final(self)@.wf(),
    {
        let brick: Brick = self.brick();
        proof {
            self@.lemma_anchor_range();
            self@.lemma_moves_keep_wf(board@);
        }
        let condition = |node: &BrickNode| -> (blocked: bool)
            ensures
                blocked == blocked_left(board@, *node),
            { board.is_move_to_left(node) };
        let disabled: bool = falling_brick_nodes_any(&brick, condition);
        if !disabled {
            let mut node: BrickNode = self.node;
            node.move_left();
            self.node = node;
        }
        !disabled
    }

    /// One column to the right, unless a wall or an occupied cell is in the way.
    pub fn move_right(&mut self, board: &Board) -> (moved: bool)
        ensures
            final(self)@ == old(self)@.moved_right(board@),
            moved == old(self)@.can_move_right(board@),
            final(self)@.wf(),
    {
        let brick: Brick = self.brick();
        proof {
            self@.lemma_anchor_range();
            self@.lemma_moves_keep_wf(board@);
        }
        let condition = |node: &BrickNode| -> (blocked: bool)
            ensures
                blocked == blocked_right(board@, *node),
            { board.is_move_to_right(node) };
        let disabled: bool = falling_brick_nodes_any(&brick, condition);
        if !disabled {
            let mut node: BrickNode = self.node;
            node.move_right();
            self.node = node;
        }
        !disabled
    }

    /// One row down, unless the floor or an occupied cell is in the way.
    pub fn move_down(&mut self, board: &Board) -> (moved: bool)
        ensures
            final(self)@ == old(self)@.moved_down(board@),
            moved == old(self)@.can_move_down(board@),
            final(self)@.wf(),
    {
        let brick: Brick = self.brick();
        proof {
            self@.lemma_anchor_range();
            self@.lemma_moves_keep_wf(board@);
        }
        let condition = |node: &BrickNode| -> (blocked: bool)
            ensures
                blocked == blocked_down(board@, *node),
            { board.is_move_to_bottom(node) };
        let disabled: bool = falling_brick_nodes_any(&brick, condition);
        if !disabled {
            let mut node: BrickNode = self.node;
            node.move_down();
            self.node = node;
        }
        !disabled
    }

    /// Turns the brick into its next rotation state about the same anchor.
    /// Where it then reaches over a wall or under the floor, the anchor goes
    /// back by as many cells as it reaches over. Occupied cells are not looked at.
    pub fn rotate(&mut self)
        ensures
            final(self)@ == old(self)@.rotated(),
            final(self)@.wf(),
    {
        proof {
            use_type_invariant(&*self);
            self@.lemma_anchor_range();
            self@.lemma_rotated_wf();
            lemma_catalog_in_box(self@.turned().shape.0, self@.turned().shape.1);
        }
        let shape: BrickShape = self.shape.rotate();
        let relative: Brick = Brick::from(shape);
        let turned: Brick = relative.place(&self.node);
        let n0: BrickNode = turned.nodes[0];
        let n1: BrickNode = turned.nodes[1];
        let n2: BrickNode = turned.nodes[2];
        let n3: BrickNode = turned.nodes[3];
        let left: i8 = min_i8(min_i8(n0.0, n1.0), min_i8(n2.0, n3.0));
        let right: i8 = max_i8(max_i8(n0.0, n1.0), max_i8(n2.0, n3.0));
        let bottom: i8 = min_i8(min_i8(n0.1, n1.1), min_i8(n2.1, n3.1));
        let mut node: BrickNode = self.node;
        if left < 0 {
            node.move_right_steps(-left);
        } else if right > 9 {
            node.move_left_steps(right - 9);
        }
        if bottom < 0 {
            node.move_up_steps(-bottom);
        }
        *self = FallingBrick { shape, node };
    }
}

} // verus!
