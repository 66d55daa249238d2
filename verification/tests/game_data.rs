use tetris::brick::{Brick, BrickNode};
use tetris::game_data::{Board, EraseAnimationStep};

fn brick(cells: [(i8, i8); 4]) -> Brick {
    Brick {
        nodes: [
            BrickNode(cells[0].0, cells[0].1),
            BrickNode(cells[1].0, cells[1].1),
            BrickNode(cells[2].0, cells[2].1),
            BrickNode(cells[3].0, cells[3].1),
        ],
    }
}

fn fill_row(board: &mut Board, row: i8, but: &[i8]) {
    for col in 0..10i8 {
        if !but.contains(&col) {
            board.update_occupied_by_brick(&brick([(col, row); 4]));
        }
    }
}

fn row_of(board: &Board, row: usize) -> Vec<bool> {
    board.occupied[row * 10..row * 10 + 10].to_vec()
}

#[test]
fn test_board_update_occupied() {
    let mut board: Board = Board::default();

    board.update_occupied_by_brick(&Brick {
        nodes: [
            BrickNode(0, 0),
            BrickNode(1, 0),
            BrickNode(2, 0),
            BrickNode(3, 0),
        ],
    });

    assert!(!&board.occupied[0..4].iter().any(|b| { !b }));
}

#[test]
fn test_board_clean_lines() {
    let mut board: Board = Board::default();

    board.update_occupied_by_brick(&Brick {
        nodes: [
            BrickNode(0, 0),
            BrickNode(1, 0),
            BrickNode(2, 0),
            BrickNode(3, 0),
        ],
    });

    board.update_occupied_by_brick(&Brick {
        nodes: [
            BrickNode(4, 0),
            BrickNode(5, 0),
            BrickNode(6, 0),
            BrickNode(7, 0),
        ],
    });

    board.update_occupied_by_brick(&Brick {
        nodes: [
            BrickNode(8, 0),
            BrickNode(9, 0),
            BrickNode(8, 1),
            BrickNode(9, 1),
        ],
    });

    assert_eq!(board.get_clean_lines(), (0, 1));

    board.clean((0, 1));

    let has_occupied = board.occupied.iter().any(|v| *v);
    assert!(has_occupied);

    board.clean((0, 1));

    let has_occupied = board.occupied.iter().any(|v| *v);
    assert!(!has_occupied);
}

#[test]
fn new_board_has_two_hundred_free_cells() {
    let board = Board::default();
    assert_eq!(board.occupied.len(), 200);
    assert!(board.occupied.iter().all(|cell| !*cell));
    assert_eq!(board.get_clean_lines(), (0, 0));
}

#[test]
fn stamp_marks_the_four_cells_and_no_other() {
    let mut board = Board::default();
    board.update_occupied_by_brick(&brick([(9, 19), (0, 0), (3, 7), (3, 8)]));
    let marked: Vec<usize> = (0..200).filter(|i| board.occupied[*i]).collect();
    assert_eq!(marked, vec![0, 73, 83, 199]);
}

#[test]
fn stamp_keeps_what_was_marked() {
    let mut board = Board::default();
    board.update_occupied_by_brick(&brick([(0, 0), (1, 0), (2, 0), (3, 0)]));
    board.update_occupied_by_brick(&brick([(3, 0), (3, 1), (3, 2), (3, 3)]));
    let marked: Vec<usize> = (0..200).filter(|i| board.occupied[*i]).collect();
    assert_eq!(marked, vec![0, 1, 2, 3, 13, 23, 33]);
}

#[test]
fn occupied_reads_the_stored_bit() {
    let mut board = Board::default();
    board.update_occupied_by_brick(&brick([(2, 1), (2, 1), (2, 1), (2, 1)]));
    assert!(board.is_brick_node_occupied(&BrickNode(2, 1)));
    assert!(board.is_brick_hit_to_occupied(&BrickNode(2, 1)));
    assert!(!board.is_brick_node_occupied(&BrickNode(1, 2)));
    assert!(!board.is_brick_node_occupied(&BrickNode(2, 0)));
}

#[test]
fn occupied_is_false_outside_the_grid() {
    let mut board = Board::default();
    for row in 0..20 {
        fill_row(&mut board, row, &[]);
    }
    assert!(!board.is_brick_node_occupied(&BrickNode(0, 20)));
    assert!(!board.is_brick_node_occupied(&BrickNode(5, 23)));
    assert!(!board.is_brick_node_occupied(&BrickNode(0, -1)));
    assert!(!board.is_brick_node_occupied(&BrickNode(-1, 0)));
    assert!(!board.is_brick_node_occupied(&BrickNode(-128, -128)));
    assert!(!board.is_brick_node_occupied(&BrickNode(127, 127)));
    assert!(!board.is_brick_node_occupied(&BrickNode(10, 19)));
}

#[test]
fn occupied_goes_by_the_index_of_the_cell() {
    let mut board = Board::default();
    board.update_occupied_by_brick(&brick([(2, 1), (9, 0), (2, 1), (9, 0)]));
    assert!(board.is_brick_node_occupied(&BrickNode(12, 0)));
    assert!(board.is_brick_node_occupied(&BrickNode(-1, 1)));
    assert!(!board.is_brick_node_occupied(&BrickNode(11, 0)));
}

#[test]
fn in_board_is_ten_columns_by_twenty_rows() {
    let board = Board::default();
    assert!(board.is_brick_node_in_board(&BrickNode(0, 0)));
    assert!(board.is_brick_node_in_board(&BrickNode(9, 19)));
    assert!(!board.is_brick_node_in_board(&BrickNode(10, 0)));
    assert!(!board.is_brick_node_in_board(&BrickNode(0, 20)));
    assert!(!board.is_brick_node_in_board(&BrickNode(-1, 0)));
    assert!(!board.is_brick_node_in_board(&BrickNode(0, -1)));
    assert!(!board.is_brick_node_in_board(&BrickNode(5, 23)));
}

#[test]
fn walls_and_floor_block() {
    let board = Board::default();
    assert!(board.is_move_to_left(&BrickNode(0, 5)));
    assert!(board.is_move_to_left(&BrickNode(-1, 5)));
    assert!(!board.is_move_to_left(&BrickNode(1, 5)));
    assert!(board.is_move_to_right(&BrickNode(9, 5)));
    assert!(board.is_move_to_right(&BrickNode(10, 5)));
    assert!(board.is_move_to_right(&BrickNode(-1, 5)));
    assert!(!board.is_move_to_right(&BrickNode(8, 5)));
    assert!(board.is_move_to_bottom(&BrickNode(4, 0)));
    assert!(board.is_move_to_bottom(&BrickNode(4, -1)));
    assert!(!board.is_move_to_bottom(&BrickNode(4, 1)));
    assert!(!board.is_move_to_bottom(&BrickNode(4, 23)));
}

#[test]
fn occupied_neighbours_block() {
    let mut board = Board::default();
    board.update_occupied_by_brick(&brick([(4, 4), (4, 4), (4, 4), (4, 4)]));
    assert!(board.is_move_to_left(&BrickNode(5, 4)));
    assert!(board.is_move_to_right(&BrickNode(3, 4)));
    assert!(board.is_move_to_bottom(&BrickNode(4, 5)));
    assert!(!board.is_move_to_left(&BrickNode(5, 5)));
    assert!(!board.is_move_to_right(&BrickNode(3, 3)));
    assert!(!board.is_move_to_bottom(&BrickNode(5, 5)));
    assert!(!board.is_move_to_bottom(&BrickNode(4, 6)));
}

#[test]
fn top_is_row_nineteen_and_above() {
    let board = Board::default();
    assert!(board.is_move_to_top(&BrickNode(0, 19)));
    assert!(board.is_move_to_top(&BrickNode(0, 23)));
    assert!(!board.is_move_to_top(&BrickNode(0, 18)));
    assert!(!board.is_move_to_top(&BrickNode(0, 0)));
    assert!(!board.is_move_to_top(&BrickNode(0, -1)));
}

#[test]
fn row_is_full_with_all_ten_columns() {
    let mut board = Board::default();
    fill_row(&mut board, 3, &[7]);
    assert!(!board.is_row_full(3));
    board.update_occupied_by_brick(&brick([(7, 3); 4]));
    assert!(board.is_row_full(3));
    assert!(!board.is_row_full(2));
    assert!(!board.is_row_full(4));
}

#[test]
fn four_pieces_fill_the_bottom_row() {
    let mut board = Board::default();
    board.update_occupied_by_brick(&brick([(0, 0), (1, 0), (2, 0), (3, 0)]));
    board.update_occupied_by_brick(&brick([(4, 0), (5, 0), (6, 0), (7, 0)]));
    board.update_occupied_by_brick(&brick([(8, 0), (9, 0), (8, 1), (9, 1)]));
    board.update_occupied_by_brick(&brick([(0, 1), (1, 1), (0, 2), (1, 2)]));
    assert_eq!(board.get_clean_lines(), (0, 1));

    let row_one = row_of(&board, 1);
    let row_two = row_of(&board, 2);
    board.clean((0, 1));
    assert_eq!(row_of(&board, 0), row_one);
    assert_eq!(row_of(&board, 1), row_two);
    assert_eq!(row_of(&board, 19), vec![false; 10]);
    let marked: Vec<usize> = (0..200).filter(|i| board.occupied[*i]).collect();
    assert_eq!(marked, vec![0, 1, 8, 9, 10, 11]);
}

#[test]
fn run_starts_at_the_lowest_full_row() {
    let mut board = Board::default();
    fill_row(&mut board, 0, &[4]);
    fill_row(&mut board, 3, &[]);
    fill_row(&mut board, 4, &[]);
    fill_row(&mut board, 5, &[9]);
    assert_eq!(board.get_clean_lines(), (3, 2));
}

#[test]
fn run_stops_at_the_first_gap() {
    let mut board = Board::default();
    fill_row(&mut board, 0, &[]);
    fill_row(&mut board, 1, &[0]);
    fill_row(&mut board, 2, &[]);
    assert_eq!(board.get_clean_lines(), (0, 1));
}

#[test]
fn run_can_reach_the_top_row() {
    let mut board = Board::default();
    fill_row(&mut board, 18, &[]);
    fill_row(&mut board, 19, &[]);
    assert_eq!(board.get_clean_lines(), (18, 2));
}

#[test]
fn run_can_hold_every_row() {
    let mut board = Board::default();
    for row in 0..20 {
        fill_row(&mut board, row, &[]);
    }
    assert_eq!(board.get_clean_lines(), (0, 20));
}

#[test]
fn clean_moves_rows_down_by_the_count() {
    let mut board = Board::default();
    fill_row(&mut board, 0, &[1]);
    fill_row(&mut board, 1, &[]);
    fill_row(&mut board, 2, &[]);
    fill_row(&mut board, 3, &[2, 3]);
    fill_row(&mut board, 4, &[0, 1, 2, 3, 4, 5, 6, 7, 8]);
    let before: Vec<Vec<bool>> = (0..20).map(|row| row_of(&board, row)).collect();
    assert_eq!(board.get_clean_lines(), (1, 2));
    board.clean((1, 2));
    assert_eq!(row_of(&board, 0), before[0]);
    assert_eq!(row_of(&board, 1), before[3]);
    assert_eq!(row_of(&board, 2), before[4]);
    for row in 3..20 {
        assert_eq!(row_of(&board, row), vec![false; 10]);
    }
    assert_eq!(board.occupied.len(), 200);
}

#[test]
fn clean_of_no_rows_changes_nothing() {
    let mut board = Board::default();
    fill_row(&mut board, 0, &[]);
    fill_row(&mut board, 5, &[3]);
    for start in [0usize, 1, 5, 19, 20, 21, usize::MAX] {
        let before = board.occupied.clone();
        board.clean((start, 0));
        assert_eq!(board.occupied, before);
    }
}

#[test]
fn clean_then_clean_of_no_rows_is_the_first_clean() {
    let mut board = Board::default();
    fill_row(&mut board, 0, &[]);
    fill_row(&mut board, 1, &[2]);
    fill_row(&mut board, 2, &[7, 8]);
    board.clean((0, 1));
    let once = board.occupied.clone();
    board.clean((0, 0));
    assert_eq!(board.occupied, once);
}

#[test]
fn clean_above_the_field_changes_nothing() {
    let mut board = Board::default();
    fill_row(&mut board, 19, &[]);
    let before = board.occupied.clone();
    board.clean((20, 3));
    assert_eq!(board.occupied, before);
    board.clean((usize::MAX, usize::MAX));
    assert_eq!(board.occupied, before);
}

#[test]
fn clean_of_many_rows_empties_the_field_from_the_start_row() {
    let mut board = Board::default();
    for row in 0..20 {
        fill_row(&mut board, row, &[row as i8 % 10]);
    }
    let before: Vec<Vec<bool>> = (0..20).map(|row| row_of(&board, row)).collect();
    for count in [18usize, 20, 1000, usize::MAX] {
        let mut cleaned = board.clone();
        cleaned.clean((2, count));
        assert_eq!(row_of(&cleaned, 0), before[0]);
        assert_eq!(row_of(&cleaned, 1), before[1]);
        for row in 2..20 {
            assert_eq!(row_of(&cleaned, row), vec![false; 10]);
        }
    }
}

#[test]
fn clean_of_the_top_row_empties_it() {
    let mut board = Board::default();
    fill_row(&mut board, 18, &[0]);
    fill_row(&mut board, 19, &[]);
    let row_eighteen = row_of(&board, 18);
    board.clean((19, 1));
    assert_eq!(row_of(&board, 18), row_eighteen);
    assert_eq!(row_of(&board, 19), vec![false; 10]);
}

#[test]
fn erase_sequence_starts_as_not_started() {
    assert_eq!(EraseAnimationStep::default(), EraseAnimationStep::NotStart);
}

#[test]
fn occupied_goes_by_the_length_of_the_grid() {
    let short = Board { occupied: vec![true; 5] };
    assert!(short.is_brick_node_occupied(&BrickNode(4, 0)));
    assert!(!short.is_brick_node_occupied(&BrickNode(5, 0)));
    assert!(!short.is_brick_node_occupied(&BrickNode(0, 1)));
    assert!(short.is_move_to_left(&BrickNode(5, 0)));
    assert!(!short.is_move_to_right(&BrickNode(4, 0)));

    let long = Board { occupied: vec![true; 300] };
    assert!(long.is_brick_node_occupied(&BrickNode(5, 25)));
    assert!(!long.is_brick_node_occupied(&BrickNode(0, 30)));

    let none = Board { occupied: Vec::new() };
    assert!(!none.is_brick_node_occupied(&BrickNode(0, 0)));
    assert!(none.is_move_to_bottom(&BrickNode(0, 0)));
    assert!(!none.is_move_to_bottom(&BrickNode(0, 1)));
}
