use crate::board::{get_level, get_score, lemma_score_fits};
use crate::brick::{Brick, BrickNode, BrickShape};
use crate::constants::{
    BOARD_BRICK_NODE_COLS, BOARD_BRICK_NODE_ROWS, BOARD_BRICK_NODE_TOTAL, ERASE_ANIMATION_NANOS,
    MAX_ERASE_LINES, SPAWN_COL, SPAWN_ROW,
};
use crate::control::{ButtonName, FallingBrick, FallingBrickView};
use crate::game_view::{is_fresh, lemma_clean_run_of, GameView};
use crate::state::GameSate;
use vstd::prelude::*;

verus! {

/// Index of a cell in the row-major grid: column plus ten times the row.
pub open spec fn cell_index(node: BrickNode) -> int {
    node.0 + node.1 * BOARD_BRICK_NODE_COLS
}

/// The cell lies on the field: column 0 to 9, row 0 to 19.
pub open spec fn in_board(node: BrickNode) -> bool {
    0 <= node.0 < BOARD_BRICK_NODE_COLS && 0 <= node.1 < BOARD_BRICK_NODE_ROWS
}

/// What the grid `cells` holds for a cell: the stored bit where the cell's
/// index lies in the grid, and unoccupied for every other cell. It goes by
/// the index alone: a cell off the field whose index still lies in the grid,
/// such as column -1 of row 1 with the index 9, reads the bit at that index.
pub open spec fn occupied_at(cells: Seq<bool>, node: BrickNode) -> bool {
    0 <= cell_index(node) < cells.len() && cells[cell_index(node)]
}

/// The cell cannot go one column to the left: it is at the left wall (or
/// beyond it), or its left neighbour is occupied.
pub open spec fn blocked_left(cells: Seq<bool>, node: BrickNode) -> bool {
    node.0 <= 0 || occupied_at(cells, BrickNode((node.0 - 1) as i8, node.1))
}

/// The cell cannot go one column to the right: it is at the right wall,
/// outside the columns of the field, or its right neighbour is occupied.
pub open spec fn blocked_right(cells: Seq<bool>, node: BrickNode) -> bool {
    node.0 < 0 || node.0 >= BOARD_BRICK_NODE_COLS - 1 || occupied_at(
        cells,
        BrickNode((node.0 + 1) as i8, node.1),
    )
}

/// The cell cannot go one row down: it is on the floor (or below it), or the
/// cell under it is occupied.
pub open spec fn blocked_down(cells: Seq<bool>, node: BrickNode) -> bool {
    node.1 <= 0 || occupied_at(cells, BrickNode(node.0, (node.1 - 1) as i8))
}

/// The cell reaches the top row of the field or lies above it.
pub open spec fn over_top(node: BrickNode) -> bool {
    node.1 >= BOARD_BRICK_NODE_ROWS - 1
}

/// The grid after the four cells of a brick have been marked occupied.
pub open spec fn stamped(cells: Seq<bool>, nodes: Seq<BrickNode>) -> Seq<bool> {
    cells.update(cell_index(nodes[0]), true).update(cell_index(nodes[1]), true).update(
        cell_index(nodes[2]),
        true,
    ).update(cell_index(nodes[3]), true)
}

/// Every column of the row is occupied.
pub open spec fn row_full(cells: Seq<bool>, row: int) -> bool {
    forall|col: int| 0 <= col < BOARD_BRICK_NODE_COLS ==> #[trigger] cells[row * 10 + col]
}

/// `(start, count)` is the lowest run of full rows: no row under `start` is
/// full, the `count` rows from `start` on are full, and the row above them,
/// if there is one, is not. Where no row is full it is `(0, 0)`.
pub open spec fn is_clean_run(cells: Seq<bool>, start: int, count: int) -> bool {
    if count == 0 {
        start == 0 && forall|row: int| 0 <= row < BOARD_BRICK_NODE_ROWS ==> !row_full(cells, row)
    } else {
        &&& 0 <= start
        &&& 0 < count
        &&& start + count <= BOARD_BRICK_NODE_ROWS
        &&& forall|row: int| 0 <= row < start ==> !row_full(cells, row)
        &&& forall|row: int| start <= row < start + count ==> row_full(cells, row)
        &&& start + count < BOARD_BRICK_NODE_ROWS ==> !row_full(cells, start + count)
    }
}

/// The grid after `count` rows have been taken out at row `start`: rows
/// under `start` stay, every other row takes what stood `count` rows above
/// it, and rows that have nothing above them become empty.
pub open spec fn cleaned(cells: Seq<bool>, start: int, count: int) -> Seq<bool> {
    Seq::new(
        BOARD_BRICK_NODE_TOTAL as nat,
        |i: int|
            if i < start * 10 {
                cells[i]
            } else if i + count * 10 < BOARD_BRICK_NODE_TOTAL {
                cells[i + count * 10]
            } else {
                false
            },
    )
}

/// Where the erase sequence stands, which shows full rows flashing before
/// they are removed.
#[derive(Debug, Clone, Copy, PartialEq, Eq, Structural)]
pub enum EraseAnimationStep {
    NotStart,
    Playing,
    End,
}

impl Default for EraseAnimationStep {
    fn default() -> (step: EraseAnimationStep)
        ensures
            step == EraseAnimationStep::NotStart,
    {
        EraseAnimationStep::NotStart
    }
}

/// The occupancy grid: 20 rows of 10 cells, row by row from the bottom.
#[derive(Debug, Clone)]
pub struct Board {
    pub occupied: Vec<bool>,
}

impl View for Board {
    type V = Seq<bool>;

    open spec fn view(&self) -> Seq<bool> {
        self.occupied@
    }
}

impl Default for Board {
    /// The empty field.
    fn default() -> (board: Board)
        ensures
            board.wf(),
            forall|i: int| 0 <= i < BOARD_BRICK_NODE_TOTAL ==> !board@[i],
    {
        let mut occupied: Vec<bool> = Vec::new();
        let mut i: usize = 0;
        while i < BOARD_BRICK_NODE_TOTAL
            invariant
                i <= BOARD_BRICK_NODE_TOTAL,
                occupied@.len() == i,
                forall|j: int| 0 <= j < i ==> !occupied@[j],
            decreases BOARD_BRICK_NODE_TOTAL - i,
        {
            occupied.push(false);
            i = i + 1;
        }
        Board { occupied }
    }
}

impl Board {
    /// The grid has its 200 cells.
    pub open spec fn wf(&self) -> bool {
        self@.len() == BOARD_BRICK_NODE_TOTAL
    }

    /// Whether a cell is occupied. A cell whose index falls outside the grid
    /// counts as unoccupied.
    pub fn is_brick_node_occupied(&self, brick_node: &BrickNode) -> (occupied: bool)
        ensures
            occupied == occupied_at(self@, *brick_node),
    {
        let index: i32 = brick_node.0 as i32 + brick_node.1 as i32 * 10;
        if index < 0 || index as usize >= self.occupied.len() {
            return false;
        }
        self.occupied[index as usize]
    }

    /// Whether a cell lies on the field.
    pub fn is_brick_node_in_board(&self, node: &BrickNode) -> (inside: bool)
        ensures
            inside == in_board(*node),
    {
        node.0 >= 0 && node.0 < 10 && node.1 >= 0 && node.1 < 20
    }

    /// Whether a cell is kept from going one column to the left.
    pub fn is_move_to_left(&self, node: &BrickNode) -> (blocked: bool)
        ensures
            blocked == blocked_left(self@, *node),
    {
        node.0 <= 0 || self.is_brick_hit_to_occupied(&BrickNode(node.0 - 1, node.1))
    }

    /// Whether a cell is kept from going one column to the right.
    pub fn is_move_to_right(&self, node: &BrickNode) -> (blocked: bool)
        ensures
            blocked == blocked_right(self@, *node),
    {
        node.0 < 0 || node.0 >= 9 || self.is_brick_hit_to_occupied(&BrickNode(node.0 + 1, node.1))
    }

    /// Whether a cell is kept from going one row down.
    pub fn is_move_to_bottom(&self, node: &BrickNode) -> (blocked: bool)
        ensures
            blocked == blocked_down(self@, *node),
    {
        node.1 <= 0 || self.is_brick_hit_to_occupied(&BrickNode(node.0, node.1 - 1))
    }

    /// Whether a cell reaches the top row, which ends the game when its brick locks.
    pub fn is_move_to_top(&self, node: &BrickNode) -> (top: bool)
        ensures
            top == over_top(*node),
    {
        node.1 >= 19
    }

    /// Whether a cell would land on an occupied one.
    pub fn is_brick_hit_to_occupied(&self, node: &BrickNode) -> (hit: bool)
        ensures
            hit == occupied_at(self@, *node),
    {
        self.is_brick_node_occupied(node)
    }

    /// Marks the four cells of a brick occupied. All of them lie on the field.
    pub fn update_occupied_by_brick(&mut self, brick: &Brick)
        requires
            old(self).wf(),
            forall|i: int| 0 <= i < 4 ==> in_board(#[trigger] brick.nodes@[i]),
        ensures
            final(self).wf(),
            final(self)@ == stamped(old(self)@, brick.nodes@),
        no_unwind
    {
        let mut k: usize = 0;
        while k < 4
            invariant
                k <= 4,
                self.wf(),
                forall|i: int| 0 <= i < 4 ==> in_board(#[trigger] brick.nodes@[i]),
                k == 0 ==> self@ == old(self)@,
                k == 1 ==> self@ == old(self)@.update(cell_index(brick.nodes@[0]), true),
                k == 2 ==> self@ == old(self)@.update(cell_index(brick.nodes@[0]), true).update(
                    cell_index(brick.nodes@[1]),
                    true,
                ),
                k == 3 ==> self@ == old(self)@.update(cell_index(brick.nodes@[0]), true).update(
                    cell_index(brick.nodes@[1]),
                    true,
                ).update(cell_index(brick.nodes@[2]), true),
                k == 4 ==> self@ == stamped(old(self)@, brick.nodes@),
            decreases 4 - k,
        {
            let node: BrickNode = brick.nodes[k];
            let index: usize = node.0 as usize + node.1 as usize * BOARD_BRICK_NODE_COLS;
            self.occupied[index] = true;
            k = k + 1;
        }
    }

    /// Whether every column of a row is occupied.
    pub fn is_row_full(&self, row: usize) -> (full: bool)
        requires
            self.wf(),
            row < BOARD_BRICK_NODE_ROWS,
        ensures
            full == row_full(self@, row as int),
    {
        let mut col: usize = 0;
        while col < BOARD_BRICK_NODE_COLS
            invariant
                self.wf(),
                row < BOARD_BRICK_NODE_ROWS,
                col <= BOARD_BRICK_NODE_COLS,
                forall|c: int| 0 <= c < col ==> #[trigger] self@[row * 10 + c],
            decreases BOARD_BRICK_NODE_COLS - col,
        {
            if !self.occupied[row * BOARD_BRICK_NODE_COLS + col] {
                return false;
            }
            col = col + 1;
        }
        true
    }

    /// Finds the lowest run of full rows, scanning from the bottom: its first
    /// row and its length, or `(0, 0)` where no row is full. Full rows above a
    /// row that is not full do not belong to the run.
    pub fn get_clean_lines(&self) -> (run: (usize, usize))
        requires
            self.wf(),
        ensures
            is_clean_run(self@, run.0 as int, run.1 as int),
    {
        let mut start: usize = 0;
        let mut lines: usize = 0;
        let mut row: usize = 0;
        while row < BOARD_BRICK_NODE_ROWS
            invariant
                self.wf(),
                row <= BOARD_BRICK_NODE_ROWS,
                lines == 0 ==> start == 0,
                lines == 0 ==> forall|r: int| 0 <= r < row ==> !row_full(self@, r),
                lines > 0 ==> start + lines == row,
                lines > 0 ==> forall|r: int| 0 <= r < start ==> !row_full(self@, r),
                lines > 0 ==> forall|r: int| start <= r < row ==> row_full(self@, r),
            decreases BOARD_BRICK_NODE_ROWS - row,
        {
            if self.is_row_full(row) {
                if lines == 0 {
                    start = row;
                }
                lines = lines + 1;
            } else if lines > 0 {
                return (start, lines);
            }
            row = row + 1;
        }
        (start, lines)
    }

    /// Takes `range.1` rows out at row `range.0`: every row from there up
    /// takes what stood that many rows above it, and the rows left without a
    /// source become empty. With no rows to take out the grid stays as it is.
    pub fn clean(&mut self, range: (usize, usize))
        requires
            old(self).wf(),
        ensures
            final(self).wf(),
            final(self)@ == cleaned(old(self)@, range.0 as int, range.1 as int),
            range.1 == 0 ==> final(self)@ == old(self)@,
        no_unwind
    {
        let start: usize = range.0;
        let count: usize = range.1;
        if start >= BOARD_BRICK_NODE_ROWS {
            return ;
        }
        let shift: usize = if count >= BOARD_BRICK_NODE_ROWS {
            BOARD_BRICK_NODE_TOTAL
        } else {
            count * BOARD_BRICK_NODE_COLS
        };
        let mut i: usize = start * BOARD_BRICK_NODE_COLS;
        while i < BOARD_BRICK_NODE_TOTAL
            invariant
                self.wf(),
                old(self).wf(),
                start < BOARD_BRICK_NODE_ROWS,
                start * 10 <= i <= BOARD_BRICK_NODE_TOTAL,
                shift <= BOARD_BRICK_NODE_TOTAL,
                count < BOARD_BRICK_NODE_ROWS ==> shift == count * 10,
                count >= BOARD_BRICK_NODE_ROWS ==> shift == BOARD_BRICK_NODE_TOTAL,
                forall|j: int|
                    0 <= j < i ==> self@[j] == cleaned(old(self)@, start as int, count as int)[j],
                forall|j: int| i <= j < BOARD_BRICK_NODE_TOTAL ==> self@[j] == old(self)@[j],
            decreases BOARD_BRICK_NODE_TOTAL - i,
        {
            let from: usize = i + shift;
            let bit: bool = if from < BOARD_BRICK_NODE_TOTAL {
                self.occupied[from]
            } else {
                false
            };
            self.occupied[i] = bit;
            i = i + 1;
        }
    }
}

/// A grid has only one lowest run of full rows.
pub proof fn lemma_clean_run_unique(cells: Seq<bool>, s1: int, c1: int, s2: int, c2: int)
    requires
        is_clean_run(cells, s1, c1),
        is_clean_run(cells, s2, c2),
    ensures
        s1 == s2,
        c1 == c2,
{
    if c1 == 0 || c2 == 0 {
        if c1 > 0 {
            assert(row_full(cells, s1));
        }
        if c2 > 0 {
            assert(row_full(cells, s2));
        }
    } else {
        assert(row_full(cells, s1));
        assert(row_full(cells, s2));
        if c1 < c2 {
        }
        if c2 < c1 {
        }
    }
}

/// Taking no rows out leaves a grid as it is.
pub proof fn lemma_clean_nothing(cells: Seq<bool>, start: int)
    requires
        cells.len() == BOARD_BRICK_NODE_TOTAL,
    ensures
        cleaned(cells, start, 0) == cells,
{
}

/// Taking rows out and then taking none out at the same row gives what the
/// first removal gave: the second call changes nothing.
pub proof fn lemma_clean_then_clean_nothing(cells: Seq<bool>, start: int, count: int)
    ensures
        cleaned(cleaned(cells, start, count), start, 0) == cleaned(cells, start, count),
{
    lemma_clean_nothing(cleaned(cells, start, count), start);
}

/// A game: the grid, the falling brick and the brick to come, the counters,
/// the phase and the erase sequence.
#[derive(Debug)]
pub struct GameData {
    board: Board,
    level: u32,
    score: u32,
    next_brick_shape: BrickShape,
    falling_brick: FallingBrick,
    cleans: u32,
    state: GameSate,
    freeze: bool,
    is_speed_up_falling: bool,
    erase_animation_step: EraseAnimationStep,
    erase_animation_nanos: u64,
    erase_animation_index: i8,
    clean_lines: (usize, usize),
}

impl View for GameData {
    type V = GameView;

    closed spec fn view(&self) -> GameView {
        GameView {
            board: self.board@,
            level: self.level,
            score: self.score,
            cleans: self.cleans,
            next_brick_shape: self.next_brick_shape@,
            falling: self.falling_brick@,
            state: self.state,
            freeze: self.freeze,
            is_speed_up_falling: self.is_speed_up_falling,
            erase_animation_step: self.erase_animation_step,
            erase_animation_nanos: self.erase_animation_nanos,
            erase_animation_index: self.erase_animation_index,
            clean_lines: self.clean_lines,
        }
    }
}

impl Default for GameData {
    /// A new game.
    fn default() -> (game: GameData)
        ensures
            game@ == GameView::initial(),
            game@.wf(),
    {
        let board = Board::default();
        let next_brick_shape = BrickShape::default();
        let falling_brick = FallingBrick::new(BrickShape::default());
        assert(board@ =~= GameView::initial().board);
        GameData {
            board,
            level: 1,
            score: 0,
            next_brick_shape,
            falling_brick,
            cleans: 0,
            state: GameSate::Ready,
            freeze: false,
            is_speed_up_falling: false,
            erase_animation_step: EraseAnimationStep::NotStart,
            erase_animation_nanos: 0,
            erase_animation_index: 0,
            clean_lines: (0, 0),
        }
    }
}

impl GameData {
    /// Every game is well formed.
    #[verifier::type_invariant]
    pub open spec fn well_formed(self) -> bool {
        self@.wf()
    }

    /// Where a new brick gets its anchor: column 5, row 23.
    pub fn new_falling_brick_node(&mut self) -> (node: BrickNode)
        ensures
            *final(self) == *old(self),
            node == BrickNode(SPAWN_COL, SPAWN_ROW),
    {
        BrickNode(SPAWN_COL, SPAWN_ROW)
    }

    /// Makes the game a new game.
    pub fn reset(&mut self)
        ensures
            final(self)@ == GameView::initial(),
    {
        proof {
            use_type_invariant(&*self);
        }
        // The erase sequence ends first: while it is under way it needs its
        // rows and a frozen brick.
        self.erase_animation_step = EraseAnimationStep::NotStart;
        self.clean_lines = (0, 0);
        self.erase_animation_nanos = 0;
        self.erase_animation_index = 0;
        self.board = Board::default();
        self.level = 1;
        self.score = 0;
        self.cleans = 0;
        self.next_brick_shape = BrickShape::default();
        self.falling_brick = FallingBrick::new(BrickShape::default());
        self.freeze = false;
        self.is_speed_up_falling = false;
        self.state = GameSate::Ready;
        assert(self.board@ =~= GameView::initial().board);
    }

    /// Starts a game that is ready with the two given shapes: the first
    /// falls, the second comes next. In any other phase nothing changes.
    pub fn start_game_with(&mut self, falling: BrickShape, next: BrickShape)
        ensures
            final(self)@ == old(self)@.started(falling@, next@),
    {
        proof {
            use_type_invariant(&*self);
            use_type_invariant(&next);
        }
        if self.state == GameSate::Ready {
            self.falling_brick = FallingBrick::new(falling);
            self.next_brick_shape = next;
            self.state = GameSate::Playing;
        }
    }

    /// Starts a game that is ready, with two shapes drawn at random.
    pub fn start_game(&mut self)
        ensures
            exists|falling: (int, int), next: (int, int)|
                is_fresh(falling) && is_fresh(next) && final(self)@ == #[trigger] old(
                    self,
                )@.started(falling, next),
    {
        let falling = BrickShape::rand();
        let next = BrickShape::rand();
        self.start_game_with(falling, next);
    }

    /// Carries out a command for the falling brick: a step down, right or
    /// left, a rotation, or the fast fall. A step that a wall, the floor or
    /// an occupied cell blocks is dropped, and so is every command while no
    /// brick is falling.
    pub fn control_direction(&mut self, button: ButtonName)
        ensures
            final(self)@ == old(self)@.directed(button),
    {
        proof {
            use_type_invariant(&*self);
        }
        if self.state != GameSate::Playing || self.freeze {
            return ;
        }
        let mut falling: FallingBrick = self.falling_brick;
        match button {
            ButtonName::Down => {
                falling.move_down(&self.board);
                self.falling_brick = falling;
            },
            ButtonName::Right => {
                falling.move_right(&self.board);
                self.falling_brick = falling;
            },
            ButtonName::Left => {
                falling.move_left(&self.board);
                self.falling_brick = falling;
            },
            ButtonName::Rotate => {
                falling.rotate();
                self.falling_brick = falling;
            },
            ButtonName::Drop => {
                self.is_speed_up_falling = true;
            },
            _ => {},
        }
    }

    /// Halts a game that is played, or takes a halted game up again.
    pub fn pause_game(&mut self)
        ensures
            final(self)@ == old(self)@.pause_toggled(),
    {
        proof {
            use_type_invariant(&*self);
        }
        match self.state {
            GameSate::Playing => {
                self.state = GameSate::Paused;
            },
            GameSate::Paused => {
                self.state = GameSate::Playing;
            },
            _ => {},
        }
    }

    /// Carries out the replay command: a game that is over becomes a new
    /// game, and a game that is played starts over at once, with the square
    /// falling and `upcoming` as the shape to come.
    pub fn replay_game_with(&mut self, upcoming: BrickShape)
        ensures
            final(self)@ == old(self)@.replayed(upcoming@),
    {
        proof {
            use_type_invariant(&upcoming);
        }
        match self.state {
            GameSate::GameOver => {
                self.reset();
            },
            GameSate::Playing => {
                self.reset();
                self.next_brick_shape = upcoming;
                self.state = GameSate::Playing;
            },
            _ => {},
        }
    }

    /// Carries out the replay command. Where the game starts over at once,
    /// the shape to come is drawn at random.
    pub fn replay_game(&mut self)
        ensures
            exists|upcoming: (int, int)|
                is_fresh(upcoming) && final(self)@ == #[trigger] old(self)@.replayed(upcoming),
    {
        if self.state == GameSate::Playing {
            let upcoming = BrickShape::next();
            self.replay_game_with(upcoming);
        } else {
            self.replay_game_with(BrickShape::default());
        }
    }

    /// The fall tick: the falling brick goes down one row, or, where it
    /// cannot, is locked. A locked brick that reaches the top row ends the
    /// game. Any other is marked on the grid; if that leaves full rows, the
    /// lowest run of them is counted and its erase sequence begins.
    pub fn falling_brick_step(&mut self)
        ensures
            final(self)@ == old(self)@.fallen(),
    {
        proof {
            use_type_invariant(&*self);
            self@.falling.lemma_anchor_range();
        }
        if self.state != GameSate::Playing || self.freeze {
            return ;
        }
        let mut falling: FallingBrick = self.falling_brick;
        if falling.move_down(&self.board) {
            self.falling_brick = falling;
            return ;
        }
        self.is_speed_up_falling = false;
        if falling.is_hit_top(&self.board) {
            self.state = GameSate::GameOver;
            return ;
        }
        let brick: Brick = falling.brick();
        assert forall|i: int| 0 <= i < 4 implies in_board(#[trigger] brick.nodes@[i]) by {
            assert(!over_top(self@.falling.cells()[i]));
        }
        self.board.update_occupied_by_brick(&brick);
        self.freeze = true;
        let run: (usize, usize) = self.board.get_clean_lines();
        proof {
            lemma_clean_run_of(self.board@, run.0 as int, run.1 as int);
        }
        if run.1 > 0 {
            // The erase sequence begins last, once its rows are set.
            self.clean_lines = run;
            self.cleans = self.cleans.saturating_add(run.1 as u32);
            self.erase_animation_nanos = 0;
            self.erase_animation_index = 0;
            self.erase_animation_step = EraseAnimationStep::Playing;
        }
    }

    /// Where the game waits for a brick, lets the next shape fall from the
    /// spawn place and makes `upcoming` the next shape.
    pub fn spawn_falling_brick_with(&mut self, upcoming: BrickShape)
        ensures
            final(self)@ == old(self)@.spawned(upcoming@),
    {
        proof {
            use_type_invariant(&*self);
            use_type_invariant(&upcoming);
        }
        if self.state == GameSate::Playing && self.freeze && self.erase_animation_step
            == EraseAnimationStep::NotStart {
            self.falling_brick = FallingBrick::new(self.next_brick_shape);
            self.next_brick_shape = upcoming;
            self.freeze = false;
        }
    }

    /// Where the game waits for a brick, lets the next shape fall and draws
    /// the shape after it at random.
    pub fn spawn_new_falling_brick(&mut self)
        ensures
            exists|upcoming: (int, int)|
                is_fresh(upcoming) && final(self)@ == #[trigger] old(self)@.spawned(upcoming),
    {
        proof {
            use_type_invariant(&*self);
        }
        if self.state == GameSate::Playing && self.freeze && self.erase_animation_step
            == EraseAnimationStep::NotStart {
            let upcoming = BrickShape::next();
            self.spawn_falling_brick_with(upcoming);
        } else {
            assert(self@ == old(self)@.spawned((0, 0)));
        }
    }

    /// Moves a running erase sequence on by `delta_nanos` nanoseconds, with a
    /// flash if `flash` is set. After two seconds in all, the pending rows are
    /// taken out of the grid and the sequence has ended. A paused game and a
    /// game without a running sequence stay as they are.
    pub fn play_erase_animation(&mut self, delta_nanos: u64, flash: bool)
        ensures
            final(self)@ == old(self)@.erase_advanced(delta_nanos, flash),
    {
        proof {
            use_type_invariant(&*self);
        }
        if self.state != GameSate::Playing || self.erase_animation_step
            != EraseAnimationStep::Playing {
            return ;
        }
        self.erase_animation_nanos = self.erase_animation_nanos.saturating_add(delta_nanos);
        if flash {
            self.erase_animation_index = if self.erase_animation_index == i8::MAX {
                0
            } else {
                self.erase_animation_index + 1
            };
        }
        if self.erase_animation_nanos >= ERASE_ANIMATION_NANOS {
            let range: (usize, usize) = self.clean_lines;
            self.board.clean(range);
            self.erase_animation_step = EraseAnimationStep::End;
        }
    }

    /// Scores the rows of an erase sequence that has ended: the level follows
    /// the rows removed so far, the score grows by what the removed rows are
    /// worth at that level, and the sequence is over. Only one to four rows
    /// can be scored.
    pub fn score_board(&mut self)
        requires
            old(self)@.to_score() ==> old(self)@.clean_lines.1 <= MAX_ERASE_LINES,
        ensures
            final(self)@ == old(self)@.scored(),
    {
        proof {
            use_type_invariant(&*self);
        }
        if self.state == GameSate::Playing && self.erase_animation_step
            == EraseAnimationStep::End {
            let level: u32 = get_level(self.cleans);
            proof {
                lemma_score_fits(level as int, self.clean_lines.1 as int);
            }
            let gained: u32 = get_score(level, self.clean_lines.1 as u32);
            self.level = level;
            self.score = self.score.saturating_add(gained);
            self.erase_animation_step = EraseAnimationStep::NotStart;
            self.clean_lines = (0, 0);
            self.erase_animation_nanos = 0;
            self.erase_animation_index = 0;
        }
    }

    /// Carries out the press of a button. Should the press start the game,
    /// `falling` is the shape that falls first and `next` the one after it.
    pub fn press_with(&mut self, button: ButtonName, falling: BrickShape, next: BrickShape)
        ensures
            final(self)@ == old(self)@.pressed(button, falling@, next@),
    {
        match self.state {
            GameSate::Ready => {
                if button == ButtonName::Drop {
                    self.start_game_with(falling, next);
                }
            },
            GameSate::Playing => {
                if button == ButtonName::Pause {
                    self.pause_game();
                } else if button == ButtonName::Replay {
                    self.replay_game_with(next);
                } else {
                    self.control_direction(button);
                }
            },
            GameSate::Paused => {
                if button == ButtonName::Pause {
                    self.pause_game();
                }
            },
            GameSate::GameOver => {
                if button == ButtonName::Replay {
                    self.replay_game_with(next);
                }
            },
        }
    }

    /// Carries out the press of a button. A press that starts the game, or
    /// starts it over, draws the shapes that it needs at random.
    pub fn press(&mut self, button: ButtonName)
        ensures
            GameView::press_leads_to(old(self)@, button, final(self)@),
    {
        let starts: bool = self.state == GameSate::Ready && button == ButtonName::Drop;
        let starts_over: bool = self.state == GameSate::Playing && button == ButtonName::Replay;
        if starts || starts_over {
            let falling = BrickShape::rand();
            let next = BrickShape::rand();
            self.press_with(button, falling, next);
        } else {
            let unused = BrickShape::default();
            self.press_with(button, unused, unused);
        }
    }

    /// One round of the game's clock: the fall tick if `fall` is set, then
    /// `delta_nanos` nanoseconds of the erase sequence with a flash if `flash`
    /// is set, then the scoring of a sequence that has ended, then the spawn
    /// where the game waits for a brick, with `upcoming` as the shape after
    /// the one that starts to fall. Returns `false`, and neither scores nor
    /// spawns, where the ended sequence holds more than four rows.
    pub fn step_with(&mut self, fall: bool, delta_nanos: u64, flash: bool, upcoming: BrickShape)
        -> (scorable: bool)
        ensures
            final(self)@ == old(self)@.stepped(fall, delta_nanos, flash, upcoming@),
            scorable == !final(self)@.unscorable(),
    {
        if fall {
            self.falling_brick_step();
        }
        self.play_erase_animation(delta_nanos, flash);
        if self.state == GameSate::Playing && self.erase_animation_step == EraseAnimationStep::End
            && self.clean_lines.1 > MAX_ERASE_LINES as usize {
            return false;
        }
        self.score_board();
        self.spawn_falling_brick_with(upcoming);
        true
    }

    /// The grid.
    pub fn board(&self) -> (board: &Board)
        ensures
            board@ == self@.board,
            board.wf(),
            self@.wf(),
    {
        proof {
            use_type_invariant(self);
        }
        &self.board
    }

    /// The level: 1 in a new game, then one for every ten rows removed, at most 99.
    pub fn level(&self) -> (level: u32)
        ensures
            level == self@.level,
            level <= 99,
    {
        proof {
            use_type_invariant(self);
        }
        self.level
    }

    /// The score.
    pub fn score(&self) -> (score: u32)
        ensures
            score == self@.score,
    {
        self.score
    }

    /// Rows removed since the game began.
    pub fn cleans(&self) -> (cleans: u32)
        ensures
            cleans == self@.cleans,
    {
        self.cleans
    }

    /// The shape that falls after the falling one.
    pub fn next_brick_shape(&self) -> (shape: BrickShape)
        ensures
            shape@ == self@.next_brick_shape,
    {
        self.next_brick_shape
    }

    /// The shape of the falling brick.
    pub fn falling_brick_shape(&self) -> (shape: BrickShape)
        ensures
            shape@ == self@.falling.shape,
    {
        self.falling_brick.shape()
    }

    /// The anchor of the falling brick.
    pub fn falling_brick_node(&self) -> (node: BrickNode)
        ensures
            node == self@.falling.node,
    {
        self.falling_brick.node()
    }

    /// The falling brick.
    pub fn falling_brick(&self) -> (falling: FallingBrick)
        ensures
            falling@ == self@.falling,
            falling@.wf(),
    {
        proof {
            use_type_invariant(self);
        }
        self.falling_brick
    }

    /// The phase of the game.
    pub fn state(&self) -> (state: GameSate)
        ensures
            state == self@.state,
    {
        self.state
    }

    /// Whether the last brick has locked and the next has not been spawned yet.
    pub fn freeze(&self) -> (freeze: bool)
        ensures
            freeze == self@.freeze,
    {
        self.freeze
    }

    /// Whether the game is played and halted.
    pub fn paused(&self) -> (paused: bool)
        ensures
            paused == (self@.state == GameSate::Paused),
    {
        self.state == GameSate::Paused
    }

    /// Whether the game is over.
    pub fn is_game_over(&self) -> (over: bool)
        ensures
            over == (self@.state == GameSate::GameOver),
    {
        self.state == GameSate::GameOver
    }

    /// Whether the falling brick falls fast.
    pub fn is_speed_up_falling(&self) -> (fast: bool)
        ensures
            fast == self@.is_speed_up_falling,
    {
        self.is_speed_up_falling
    }

    /// Where the erase sequence stands.
    pub fn erase_animation_step(&self) -> (step: EraseAnimationStep)
        ensures
            step == self@.erase_animation_step,
    {
        self.erase_animation_step
    }

    /// Nanoseconds spent in the running erase sequence.
    pub fn erase_animation_nanos(&self) -> (nanos: u64)
        ensures
            nanos == self@.erase_animation_nanos,
    {
        self.erase_animation_nanos
    }

    /// Flashes shown in the running erase sequence. The pending rows are
    /// shown dark after an even number of flashes and light after an odd one.
    pub fn erase_animation_index(&self) -> (index: i8)
        ensures
            index == self@.erase_animation_index,
    {
        self.erase_animation_index
    }

    /// First row and number of the rows that the erase sequence under way removes.
    pub fn clean_lines(&self) -> (lines: (usize, usize))
        ensures
            lines == self@.clean_lines,
            lines.0 + lines.1 <= 20,
    {
        proof {
            use_type_invariant(self);
        }
        self.clean_lines
    }
}

} // verus!
