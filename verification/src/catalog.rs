use crate::brick::{Brick, BrickNode};
use crate::constants::BRICK_KINDS;
use vstd::prelude::*;

verus! {

/// Number of distinct rotation states of a brick kind: 1 for the square, 2 for
/// the bar and the two skew bricks, 4 for the others.
pub open spec fn rotation_count(kind: int) -> int {
    if kind == 0 {
        1
    } else if kind == 1 || kind == 4 || kind == 5 {
        2
    } else {
        4
    }
}

/// The rotation state that follows `rotation`: the next one, and after the
/// last the first.
pub open spec fn next_rotation(kind: int, rotation: int) -> int {
    if rotation + 1 < rotation_count(kind) {
        rotation + 1
    } else {
        0
    }
}

/// The rotation state that follows is the next number modulo the number of
/// rotation states of the kind.
pub proof fn lemma_next_rotation_is_modular(kind: int, rotation: int)
    requires
        shape_in_catalog(kind, rotation),
    ensures
        next_rotation(kind, rotation) == (rotation + 1) % rotation_count(kind),
        shape_in_catalog(kind, next_rotation(kind, rotation)),
{
}

/// Four cells, each given as column then row.
pub open spec fn cells4(c0: i8, r0: i8, c1: i8, r1: i8, c2: i8, r2: i8, c3: i8, r3: i8) -> Seq<
    BrickNode,
> {
    seq![BrickNode(c0, r0), BrickNode(c1, r1), BrickNode(c2, r2), BrickNode(c3, r3)]
}

/// The catalog: the four relative cells of brick `kind` in rotation state
/// `rotation`. Columns grow to the right and rows grow downwards inside the
/// brick's 4x4 box.
pub open spec fn shape_cells(kind: int, rotation: int) -> Seq<BrickNode> {
    if kind == 0 {
        cells4(1, 1, 1, 2, 2, 1, 2, 2)
    } else if kind == 1 {
        if rotation == 0 {
            cells4(0, 1, 1, 1, 2, 1, 3, 1)
        } else {
            cells4(2, 0, 2, 1, 2, 2, 2, 3)
        }
    } else if kind == 2 {
        if rotation == 0 {
            cells4(0, 1, 1, 1, 2, 1, 2, 0)
        } else if rotation == 1 {
            cells4(1, 0, 1, 1, 1, 2, 0, 0)
        } else if rotation == 2 {
            cells4(0, 1, 1, 1, 2, 1, 0, 2)
        } else {
            cells4(1, 0, 1, 1, 1, 2, 2, 2)
        }
    } else if kind == 3 {
        if rotation == 0 {
            cells4(0, 1, 1, 1, 2, 1, 0, 0)
        } else if rotation == 1 {
            cells4(1, 0, 1, 1, 1, 2, 0, 2)
        } else if rotation == 2 {
            cells4(0, 1, 1, 1, 2, 1, 2, 2)
        } else {
            cells4(1, 0, 1, 1, 1, 2, 2, 0)
        }
    } else if kind == 4 {
        if rotation == 0 {
            cells4(0, 0, 1, 0, 1, 1, 2, 1)
        } else {
            cells4(1, 2, 1, 1, 2, 1, 2, 0)
        }
    } else if kind == 5 {
        if rotation == 0 {
            cells4(0, 1, 1, 1, 1, 0, 2, 0)
        } else {
            cells4(2, 2, 2, 1, 1, 1, 1, 0)
        }
    } else {
        if rotation == 0 {
            cells4(0, 1, 1, 1, 2, 1, 1, 0)
        } else if rotation == 1 {
            cells4(1, 0, 1, 1, 1, 2, 0, 1)
        } else if rotation == 2 {
            cells4(0, 1, 1, 1, 2, 1, 1, 2)
        } else {
            cells4(1, 0, 1, 1, 1, 2, 2, 1)
        }
    }
}

/// `kind` names a brick of the catalog and `rotation` one of its rotation states.
pub open spec fn shape_in_catalog(kind: int, rotation: int) -> bool {
    0 <= kind < BRICK_KINDS && 0 <= rotation < rotation_count(kind)
}

/// Every brick of the catalog has four cells, all inside its 4x4 box.
pub proof fn lemma_catalog_in_box(kind: int, rotation: int)
    requires
        shape_in_catalog(kind, rotation),
    ensures
        shape_cells(kind, rotation).len() == 4,
        forall|i: int|
            0 <= i < 4 ==> 0 <= (#[trigger] shape_cells(kind, rotation)[i]).0 <= 3 && 0
                <= shape_cells(kind, rotation)[i].1 <= 3,
{
}

fn brick4(c0: i8, r0: i8, c1: i8, r1: i8, c2: i8, r2: i8, c3: i8, r3: i8) -> (brick: Brick)
    ensures
        brick.nodes@ == cells4(c0, r0, c1, r1, c2, r2, c3, r3),
{
    let brick = Brick {
        nodes: [BrickNode(c0, r0), BrickNode(c1, r1), BrickNode(c2, r2), BrickNode(c3, r3)],
    };
    brick
}

/// Number of rotation states of brick `kind`.
pub fn rotation_states(kind: usize) -> (count: usize)
    ensures
        count == rotation_count(kind as int),
{
    if kind == 0 {
        1
    } else if kind == 1 || kind == 4 || kind == 5 {
        2
    } else {
        4
    }
}

/// Looks a brick up in the catalog.
pub fn catalog_brick(kind: usize, rotation: usize) -> (brick: Brick)
    requires
        shape_in_catalog(kind as int, rotation as int),
    ensures
        brick.nodes@ == shape_cells(kind as int, rotation as int),
{
    if kind == 0 {
        brick4(1, 1, 1, 2, 2, 1, 2, 2)
    } else if kind == 1 {
        if rotation == 0 {
            brick4(0, 1, 1, 1, 2, 1, 3, 1)
        } else {
            brick4(2, 0, 2, 1, 2, 2, 2, 3)
        }
    } else if kind == 2 {
        if rotation == 0 {
            brick4(0, 1, 1, 1, 2, 1, 2, 0)
        } else if rotation == 1 {
            brick4(1, 0, 1, 1, 1, 2, 0, 0)
        } else if rotation == 2 {
            brick4(0, 1, 1, 1, 2, 1, 0, 2)
        } else {
            brick4(1, 0, 1, 1, 1, 2, 2, 2)
        }
    } else if kind == 3 {
        if rotation == 0 {
            brick4(0, 1, 1, 1, 2, 1, 0, 0)
        } else if rotation == 1 {
            brick4(1, 0, 1, 1, 1, 2, 0, 2)
        } else if rotation == 2 {
            brick4(0, 1, 1, 1, 2, 1, 2, 2)
        } else {
            brick4(1, 0, 1, 1, 1, 2, 2, 0)
        }
    } else if kind == 4 {
        if rotation == 0 {
            brick4(0, 0, 1, 0, 1, 1, 2, 1)
        } else {
            brick4(1, 2, 1, 1, 2, 1, 2, 0)
        }
    } else if kind == 5 {
        if rotation == 0 {
            brick4(0, 1, 1, 1, 1, 0, 2, 0)
        } else {
            brick4(2, 2, 2, 1, 1, 1, 1, 0)
        }
    } else {
        if rotation == 0 {
            brick4(0, 1, 1, 1, 2, 1, 1, 0)
        } else if rotation == 1 {
            brick4(1, 0, 1, 1, 1, 2, 0, 1)
        } else if rotation == 2 {
            brick4(0, 1, 1, 1, 2, 1, 1, 2)
        } else {
            brick4(1, 0, 1, 1, 1, 2, 2, 1)
        }
    }
}

} // verus!
