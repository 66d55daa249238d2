use tetris::board::{get_level, get_score};

#[test]
fn score_at_level_zero_is_the_table() {
    assert_eq!(get_score(0, 1), 40);
    assert_eq!(get_score(0, 2), 100);
    assert_eq!(get_score(0, 3), 300);
    assert_eq!(get_score(0, 4), 1200);
}

#[test]
fn score_grows_with_the_level() {
    assert_eq!(get_score(1, 1), 80);
    assert_eq!(get_score(9, 2), 1000);
    assert_eq!(get_score(4, 3), 1500);
    assert_eq!(get_score(99, 4), 120_000);
}

#[test]
fn score_is_table_times_level_plus_one() {
    let table: [u32; 4] = [40, 100, 300, 1200];
    for level in 0..=99u32 {
        for lines in 1..=4u32 {
            assert_eq!(get_score(level, lines), table[(lines - 1) as usize] * (level + 1));
        }
    }
}

#[test]
fn score_reaches_the_end_of_the_range() {
    assert_eq!(get_score(107_374_181, 1), 4_294_967_280);
    assert_eq!(get_score(3_579_138, 4), 4_294_966_800);
}

#[test]
fn level_is_a_tenth_of_the_rows() {
    assert_eq!(get_level(0), 0);
    assert_eq!(get_level(9), 0);
    assert_eq!(get_level(10), 1);
    assert_eq!(get_level(19), 1);
    assert_eq!(get_level(257), 25);
    assert_eq!(get_level(989), 98);
}

#[test]
fn level_stays_at_ninety_nine() {
    assert_eq!(get_level(990), 99);
    assert_eq!(get_level(999), 99);
    assert_eq!(get_level(1000), 99);
    assert_eq!(get_level(123_456), 99);
    assert_eq!(get_level(u32::MAX), 99);
}

#[test]
fn level_never_falls_when_rows_grow() {
    let mut last = 0;
    for rows in 0..=1200u32 {
        let level = get_level(rows);
        assert!(level >= last);
        assert!(level <= 99);
        last = level;
    }
}
