use crate::constants::{LINES_PER_LEVEL, MAX_ERASE_LINES, MAX_LEVEL};
use vstd::prelude::*;

verus! {

/// Points for removing one, two, three and four rows at once, at level 0.
pub open spec fn line_table() -> Seq<int> {
    seq![40, 100, 300, 1200]
}

/// Points for removing `erase_lines` rows at once at `level`.
pub open spec fn score_for(level: int, erase_lines: int) -> int {
    line_table()[erase_lines - 1] * (level + 1)
}

/// The level after `clean_lines` rows have been removed in total: one level
/// for every ten rows, and no more than 99.
pub open spec fn level_for(clean_lines: int) -> int {
    if clean_lines / 10 < MAX_LEVEL {
        clean_lines / 10
    } else {
        MAX_LEVEL as int
    }
}

/// Points for removing `erase_lines` rows at once at `level`. Only one to
/// four rows can be scored.
pub fn get_score(level: u32, erase_lines: u32) -> (score: u32)
    requires
        0 < erase_lines <= MAX_ERASE_LINES,
        score_for(level as int, erase_lines as int) <= u32::MAX,
    ensures
        score == score_for(level as int, erase_lines as int),
{
    if erase_lines == 1 {
        40 * (level + 1)
    } else if erase_lines == 2 {
        100 * (level + 1)
    } else if erase_lines == 3 {
        300 * (level + 1)
    } else {
        1200 * (level + 1)
    }
}

/// The level after `clean_lines` rows have been removed in total.
pub fn get_level(clean_lines: u32) -> (level: u32)
    ensures
        level == level_for(clean_lines as int),
{
    let level: u32 = clean_lines / LINES_PER_LEVEL;
    if level < MAX_LEVEL {
        level
    } else {
        MAX_LEVEL
    }
}

/// Removing more rows never lowers the level.
pub proof fn lemma_level_monotonic(fewer: int, more: int)
    requires
        0 <= fewer <= more,
    ensures
        level_for(fewer) <= level_for(more),
{
}

/// The level never passes 99, and stays there from 990 removed rows on.
pub proof fn lemma_level_saturates(clean_lines: int)
    requires
        0 <= clean_lines,
    ensures
        0 <= level_for(clean_lines) <= 99,
        clean_lines >= 990 ==> level_for(clean_lines) == 99,
        clean_lines < 990 ==> level_for(clean_lines) == clean_lines / 10,
{
}

/// At every level up to 99 a removal of one to four rows scores within `u32`.
pub proof fn lemma_score_fits(level: int, erase_lines: int)
    requires
        0 <= level <= MAX_LEVEL,
        0 < erase_lines <= MAX_ERASE_LINES,
    ensures
        0 < score_for(level, erase_lines) <= 120_000,
{
}

} // verus!
