use tetris::brick::{Brick, BrickNode, BrickShape};
use tetris::catalog::{catalog_brick, rotation_states};

fn cells(brick: &Brick) -> Vec<(i8, i8)> {
    brick.nodes.iter().map(|node| (node.0, node.1)).collect()
}

#[test]
fn test_brick_node() {
    let node1 = BrickNode(1, 1);
    let node2 = BrickNode(1, 1);
    let node3 = BrickNode(1, 2);
    assert_eq!(node1, node2);
    assert_ne!(node1, node3);
}

#[test]
fn node_steps_by_one() {
    let mut node = BrickNode(5, 23);
    node.move_left();
    assert_eq!(node, BrickNode(4, 23));
    node.move_right();
    node.move_right();
    assert_eq!(node, BrickNode(6, 23));
    node.move_down();
    assert_eq!(node, BrickNode(6, 22));
}

#[test]
fn node_steps_by_many() {
    let mut node = BrickNode(0, 0);
    node.move_right_steps(3);
    assert_eq!(node, BrickNode(3, 0));
    node.move_left_steps(5);
    assert_eq!(node, BrickNode(-2, 0));
    node.move_up_steps(4);
    assert_eq!(node, BrickNode(-2, 4));
    node.move_down_steps(6);
    assert_eq!(node, BrickNode(-2, -2));
    node.move_left_steps(-2);
    node.move_down_steps(-2);
    assert_eq!(node, BrickNode(0, 0));
}

#[test]
fn node_steps_reach_the_ends_of_the_range() {
    let mut node = BrickNode(-127, -127);
    node.move_left();
    node.move_down();
    assert_eq!(node, BrickNode(-128, -128));
    let mut node = BrickNode(126, 0);
    node.move_right();
    assert_eq!(node, BrickNode(127, 0));
}

#[test]
fn default_node_is_the_origin() {
    assert_eq!(BrickNode::default(), BrickNode(0, 0));
}

#[test]
fn catalog_has_seven_kinds_with_their_rotation_states() {
    let counts: Vec<usize> = (0..7).map(rotation_states).collect();
    assert_eq!(counts, vec![1, 2, 4, 4, 2, 2, 4]);
}

#[test]
fn catalog_holds_the_square_and_the_bar() {
    assert_eq!(cells(&catalog_brick(0, 0)), vec![(1, 1), (1, 2), (2, 1), (2, 2)]);
    assert_eq!(cells(&catalog_brick(1, 0)), vec![(0, 1), (1, 1), (2, 1), (3, 1)]);
    assert_eq!(cells(&catalog_brick(1, 1)), vec![(2, 0), (2, 1), (2, 2), (2, 3)]);
}

#[test]
fn catalog_holds_the_hooks() {
    assert_eq!(cells(&catalog_brick(2, 0)), vec![(0, 1), (1, 1), (2, 1), (2, 0)]);
    assert_eq!(cells(&catalog_brick(2, 1)), vec![(1, 0), (1, 1), (1, 2), (0, 0)]);
    assert_eq!(cells(&catalog_brick(2, 2)), vec![(0, 1), (1, 1), (2, 1), (0, 2)]);
    assert_eq!(cells(&catalog_brick(2, 3)), vec![(1, 0), (1, 1), (1, 2), (2, 2)]);
    assert_eq!(cells(&catalog_brick(3, 0)), vec![(0, 1), (1, 1), (2, 1), (0, 0)]);
    assert_eq!(cells(&catalog_brick(3, 1)), vec![(1, 0), (1, 1), (1, 2), (0, 2)]);
    assert_eq!(cells(&catalog_brick(3, 2)), vec![(0, 1), (1, 1), (2, 1), (2, 2)]);
    assert_eq!(cells(&catalog_brick(3, 3)), vec![(1, 0), (1, 1), (1, 2), (2, 0)]);
}

#[test]
fn catalog_holds_the_skew_bricks_and_the_tee() {
    assert_eq!(cells(&catalog_brick(4, 0)), vec![(0, 0), (1, 0), (1, 1), (2, 1)]);
    assert_eq!(cells(&catalog_brick(4, 1)), vec![(1, 2), (1, 1), (2, 1), (2, 0)]);
    assert_eq!(cells(&catalog_brick(5, 0)), vec![(0, 1), (1, 1), (1, 0), (2, 0)]);
    assert_eq!(cells(&catalog_brick(5, 1)), vec![(2, 2), (2, 1), (1, 1), (1, 0)]);
    assert_eq!(cells(&catalog_brick(6, 0)), vec![(0, 1), (1, 1), (2, 1), (1, 0)]);
    assert_eq!(cells(&catalog_brick(6, 1)), vec![(1, 0), (1, 1), (1, 2), (0, 1)]);
    assert_eq!(cells(&catalog_brick(6, 2)), vec![(0, 1), (1, 1), (2, 1), (1, 2)]);
    assert_eq!(cells(&catalog_brick(6, 3)), vec![(1, 0), (1, 1), (1, 2), (2, 1)]);
}

#[test]
fn every_catalog_cell_lies_in_the_box() {
    for kind in 0..7 {
        for rotation in 0..rotation_states(kind) {
            for (col, row) in cells(&catalog_brick(kind, rotation)) {
                assert!((0..=3).contains(&col) && (0..=3).contains(&row));
            }
        }
    }
}

#[test]
fn shape_new_takes_what_the_catalog_has() {
    for kind in 0..7 {
        for rotation in 0..rotation_states(kind) {
            let shape = BrickShape::new(kind, rotation).unwrap();
            assert_eq!(shape.kind(), kind);
            assert_eq!(shape.rotation(), rotation);
        }
    }
}

#[test]
fn shape_new_refuses_what_the_catalog_lacks() {
    assert_eq!(BrickShape::new(7, 0), None);
    assert_eq!(BrickShape::new(0, 1), None);
    assert_eq!(BrickShape::new(1, 2), None);
    assert_eq!(BrickShape::new(6, 4), None);
    assert_eq!(BrickShape::new(usize::MAX, usize::MAX), None);
}

#[test]
fn default_shape_is_the_square() {
    let shape = BrickShape::default();
    assert_eq!((shape.kind(), shape.rotation()), (0, 0));
}

#[test]
fn rotate_goes_round_the_rotation_states() {
    let square = BrickShape::new(0, 0).unwrap();
    assert_eq!(square.rotate(), square);

    let bar = BrickShape::new(1, 0).unwrap();
    assert_eq!(bar.rotate(), BrickShape::new(1, 1).unwrap());
    assert_eq!(bar.rotate().rotate(), bar);

    let tee = BrickShape::new(6, 0).unwrap();
    assert_eq!(tee.rotate().rotation(), 1);
    assert_eq!(tee.rotate().rotate().rotation(), 2);
    assert_eq!(tee.rotate().rotate().rotate().rotation(), 3);
    assert_eq!(tee.rotate().rotate().rotate().rotate(), tee);
}

#[test]
fn rotate_keeps_the_kind() {
    for kind in 0..7 {
        let mut shape = BrickShape::new(kind, 0).unwrap();
        for _ in 0..9 {
            shape = shape.rotate();
            assert_eq!(shape.kind(), kind);
            assert!(shape.rotation() < rotation_states(kind));
        }
    }
}

#[test]
fn rand_draws_a_kind_in_its_first_rotation_state() {
    let mut seen = [false; 7];
    for _ in 0..2000 {
        let shape = BrickShape::rand();
        assert!(shape.kind() < 7);
        assert_eq!(shape.rotation(), 0);
        seen[shape.kind()] = true;
    }
    assert!(seen.iter().all(|kind| *kind));
}

#[test]
fn next_draws_a_kind_in_its_first_rotation_state() {
    for _ in 0..200 {
        let shape = BrickShape::next();
        assert!(shape.kind() < 7);
        assert_eq!(shape.rotation(), 0);
    }
}

#[test]
fn brick_from_shape_is_the_catalog_brick() {
    let brick: Brick = BrickShape::new(5, 1).unwrap().into();
    assert_eq!(cells(&brick), vec![(2, 2), (2, 1), (1, 1), (1, 0)]);
    let brick = Brick::from(BrickShape::default());
    assert_eq!(cells(&brick), vec![(1, 1), (1, 2), (2, 1), (2, 2)]);
}

#[test]
fn place_adds_columns_and_takes_rows_from_the_anchor() {
    let brick = catalog_brick(1, 1).place(&BrickNode(5, 23));
    assert_eq!(cells(&brick), vec![(7, 23), (7, 22), (7, 21), (7, 20)]);
    let brick = catalog_brick(2, 0).place(&BrickNode(-1, 3));
    assert_eq!(cells(&brick), vec![(-1, 2), (0, 2), (1, 2), (1, 3)]);
}

#[test]
fn default_brick_has_four_cells_at_the_origin() {
    assert_eq!(cells(&Brick::default()), vec![(0, 0); 4]);
}

#[test]
fn of_kind_gives_the_first_rotation_state_of_each_kind() {
    for kind in 0..7 {
        let shape = BrickShape::of_kind(kind);
        assert_eq!(shape, BrickShape::new(kind, 0).unwrap());
        assert_eq!((shape.kind(), shape.rotation()), (kind, 0));
    }
}
