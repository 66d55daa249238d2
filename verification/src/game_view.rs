use crate::board::{lemma_level_saturates, level_for, score_for};
use crate::catalog::shape_in_catalog;
use crate::constants::{
    BOARD_BRICK_NODE_ROWS, BOARD_BRICK_NODE_TOTAL, BRICK_KINDS, ERASE_ANIMATION_NANOS,
    MAX_ERASE_LINES, MAX_LEVEL,
};
use crate::control::{ButtonName, FallingBrickView};
use crate::game_data::{
    cell_index, cleaned, is_clean_run, lemma_clean_run_unique, over_top, row_full, stamped,
    EraseAnimationStep,
};
use crate::state::GameSate;
use vstd::prelude::*;

verus! {

/// The lowest run of full rows of a grid, as first row and length.
pub open spec fn clean_run_of(cells: Seq<bool>) -> (int, int) {
    choose|run: (int, int)| is_clean_run(cells, run.0, run.1)
}

/// A run that a scan has found is the lowest run of the grid.
pub proof fn lemma_clean_run_of(cells: Seq<bool>, start: int, count: int)
    requires
        is_clean_run(cells, start, count),
    ensures
        clean_run_of(cells) == (start, count),
{
    let found = (start, count);
    assert(is_clean_run(cells, found.0, found.1));
    let run = clean_run_of(cells);
    lemma_clean_run_unique(cells, start, count, run.0, run.1);
}

/// A shape as it is drawn for a new brick: any kind, in its first rotation state.
pub open spec fn is_fresh(shape: (int, int)) -> bool {
    0 <= shape.0 < BRICK_KINDS && shape.1 == 0
}

/// The sum of two counters, held at the counter's greatest value.
pub open spec fn capped_sum(a: int, b: int) -> u32 {
    if a + b > u32::MAX {
        u32::MAX
    } else {
        (a + b) as u32
    }
}

/// The flash counter after one more flash. It alternates between even and
/// odd for ever: after its greatest value comes 0.
pub open spec fn next_flash(index: i8) -> i8 {
    if index == i8::MAX {
        0
    } else {
        (index + 1) as i8
    }
}

/// A game as contracts see it.
pub struct GameView {
    /// The occupancy grid, row by row from the bottom.
    pub board: Seq<bool>,
    pub level: u32,
    pub score: u32,
    /// Rows removed since the game began.
    pub cleans: u32,
    /// Kind and rotation state of the brick that comes next.
    pub next_brick_shape: (int, int),
    pub falling: FallingBrickView,
    pub state: GameSate,
    /// The falling brick has locked and none has been spawned since.
    pub freeze: bool,
    /// The brick falls fast until it locks.
    pub is_speed_up_falling: bool,
    pub erase_animation_step: EraseAnimationStep,
    /// Time spent in the running erase sequence, in nanoseconds.
    pub erase_animation_nanos: u64,
    /// Flashes shown in the running erase sequence.
    pub erase_animation_index: i8,
    /// First row and number of the rows that the erase sequence removes.
    pub clean_lines: (usize, usize),
}

impl GameView {
    /// What holds of every game: the grid has its cells, the level is at
    /// most 99, the shapes are of the catalog, the falling brick stands
    /// between the walls, and an erase sequence under way has rows of the
    /// field to remove and no brick falling beside it.
    pub open spec fn wf(self) -> bool {
        &&& self.board.len() == BOARD_BRICK_NODE_TOTAL
        &&& self.level <= MAX_LEVEL
        &&& shape_in_catalog(self.next_brick_shape.0, self.next_brick_shape.1)
        &&& self.falling.wf()
        &&& self.clean_lines.0 + self.clean_lines.1 <= BOARD_BRICK_NODE_ROWS
        &&& self.erase_animation_step != EraseAnimationStep::NotStart ==> self.clean_lines.1 >= 1
            && self.freeze
    }

    /// A new game: empty grid, level 1, no score, phase `Ready`.
    pub open spec fn initial() -> GameView {
        GameView {
            board: Seq::new(BOARD_BRICK_NODE_TOTAL as nat, |i: int| false),
            level: 1,
            score: 0,
            cleans: 0,
            next_brick_shape: (0, 0),
            falling: FallingBrickView::spawned((0, 0)),
            state: GameSate::Ready,
            freeze: false,
            is_speed_up_falling: false,
            erase_animation_step: EraseAnimationStep::NotStart,
            erase_animation_nanos: 0,
            erase_animation_index: 0,
            clean_lines: (0, 0),
        }
    }

    /// A brick is falling and takes commands.
    pub open spec fn brick_active(self) -> bool {
        self.state == GameSate::Playing && !self.freeze
    }

    /// The game after the start command: from `Ready` it goes to `Playing`
    /// with the two given shapes, the first falling. In any other phase
    /// nothing changes.
    pub open spec fn started(self, falling: (int, int), next: (int, int)) -> GameView {
        if self.state == GameSate::Ready {
            GameView {
                state: GameSate::Playing,
                falling: FallingBrickView::spawned(falling),
                next_brick_shape: next,
                ..self
            }
        } else {
            self
        }
    }

    /// The game after a command for the falling brick. A step or a rotation
    /// that is blocked changes nothing, and so does every command while no
    /// brick is falling.
    pub open spec fn directed(self, button: ButtonName) -> GameView {
        if !self.brick_active() {
            self
        } else {
            match button {
                ButtonName::Down => GameView {
                    falling: self.falling.moved_down(self.board),
                    ..self
                },
                ButtonName::Right => GameView {
                    falling: self.falling.moved_right(self.board),
                    ..self
                },
                ButtonName::Left => GameView {
                    falling: self.falling.moved_left(self.board),
                    ..self
                },
                ButtonName::Rotate => GameView { falling: self.falling.rotated(), ..self },
                ButtonName::Drop => GameView { is_speed_up_falling: true, ..self },
                _ => self,
            }
        }
    }

    /// The game after the pause command: `Playing` and `Paused` change places.
    pub open spec fn pause_toggled(self) -> GameView {
        match self.state {
            GameSate::Playing => GameView { state: GameSate::Paused, ..self },
            GameSate::Paused => GameView { state: GameSate::Playing, ..self },
            _ => self,
        }
    }

    /// The game after the replay command. A game that is over becomes a new
    /// game, ready to be started. A game that is played starts over at once:
    /// all is as in a new game, but the square falls already and `upcoming`
    /// comes next. A game that is ready or halted stays as it is.
    pub open spec fn replayed(self, upcoming: (int, int)) -> GameView {
        match self.state {
            GameSate::GameOver => Self::initial(),
            GameSate::Playing => GameView {
                state: GameSate::Playing,
                next_brick_shape: upcoming,
                ..Self::initial()
            },
            _ => self,
        }
    }

    /// The grid once the falling brick has been locked into it.
    pub open spec fn locked_board(self) -> Seq<bool> {
        stamped(self.board, self.falling.cells())
    }

    /// The game after a fall tick. A brick that can go down goes down one
    /// row. A brick that cannot is locked: if a cell of it reaches the top
    /// row the game is over and the grid stays as it is; else the brick is
    /// marked on the grid, and if that leaves full rows, the lowest run of
    /// them is counted and the erase sequence begins. Nothing happens while
    /// no brick is falling.
    pub open spec fn fallen(self) -> GameView {
        if !self.brick_active() {
            self
        } else if self.falling.can_move_down(self.board) {
            GameView { falling: self.falling.shifted(0, -1), ..self }
        } else if self.falling.hits_top() {
            GameView { state: GameSate::GameOver, is_speed_up_falling: false, ..self }
        } else {
            let run = clean_run_of(self.locked_board());
            if run.1 > 0 {
                GameView {
                    board: self.locked_board(),
                    freeze: true,
                    is_speed_up_falling: false,
                    clean_lines: (run.0 as usize, run.1 as usize),
                    cleans: capped_sum(self.cleans as int, run.1),
                    erase_animation_step: EraseAnimationStep::Playing,
                    erase_animation_nanos: 0,
                    erase_animation_index: 0,
                    ..self
                }
            } else {
                GameView {
                    board: self.locked_board(),
                    freeze: true,
                    is_speed_up_falling: false,
                    ..self
                }
            }
        }
    }

    /// The game waits for a new brick: the last one has locked and no erase
    /// sequence is under way.
    pub open spec fn wants_brick(self) -> bool {
        &&& self.state == GameSate::Playing
        &&& self.freeze
        &&& self.erase_animation_step == EraseAnimationStep::NotStart
    }

    /// The game after a spawn: where it waits for a brick, the next shape
    /// starts to fall from the spawn place and `upcoming` becomes the next.
    pub open spec fn spawned(self, upcoming: (int, int)) -> GameView {
        if self.wants_brick() {
            GameView {
                falling: FallingBrickView::spawned(self.next_brick_shape),
                next_brick_shape: upcoming,
                freeze: false,
                ..self
            }
        } else {
            self
        }
    }

    /// The erase sequence is running and the game is not paused.
    pub open spec fn erasing(self) -> bool {
        self.state == GameSate::Playing && self.erase_animation_step == EraseAnimationStep::Playing
    }

    /// The time of the erase sequence after `delta` more nanoseconds, held at
    /// the greatest value that the counter takes.
    pub open spec fn erase_time_after(self, delta: u64) -> u64 {
        if self.erase_animation_nanos + delta > u64::MAX {
            u64::MAX
        } else {
            (self.erase_animation_nanos + delta) as u64
        }
    }

    /// The game after `delta` nanoseconds of a running erase sequence, with
    /// or without a flash. Once two seconds have gone by the pending rows are
    /// taken out of the grid and the sequence has ended.
    pub open spec fn erase_advanced(self, delta: u64, flash: bool) -> GameView {
        if !self.erasing() {
            self
        } else {
            let nanos = self.erase_time_after(delta);
            let index = if flash {
                next_flash(self.erase_animation_index)
            } else {
                self.erase_animation_index
            };
            if nanos >= ERASE_ANIMATION_NANOS {
                GameView {
                    board: cleaned(
                        self.board,
                        self.clean_lines.0 as int,
                        self.clean_lines.1 as int,
                    ),
                    erase_animation_step: EraseAnimationStep::End,
                    erase_animation_nanos: nanos,
                    erase_animation_index: index,
                    ..self
                }
            } else {
                GameView { erase_animation_nanos: nanos, erase_animation_index: index, ..self }
            }
        }
    }

    /// An erase sequence has ended and its rows are to be scored.
    pub open spec fn to_score(self) -> bool {
        self.state == GameSate::Playing && self.erase_animation_step == EraseAnimationStep::End
    }

    /// The game after the rows of an ended erase sequence have been scored:
    /// the level follows the rows removed so far, the score grows by what the
    /// removed rows are worth at that level, and the sequence is over.
    pub open spec fn scored(self) -> GameView {
        if !self.to_score() {
            self
        } else {
            let level = level_for(self.cleans as int);
            GameView {
                level: level as u32,
                score: capped_sum(self.score as int, score_for(level, self.clean_lines.1 as int)),
                erase_animation_step: EraseAnimationStep::NotStart,
                erase_animation_nanos: 0,
                erase_animation_index: 0,
                clean_lines: (0, 0),
                ..self
            }
        }
    }

    /// The game after a button has been pressed. `Drop` starts a game that
    /// is ready, with the two given shapes; while a game is played the
    /// buttons of the brick act on it, `Pause` halts it and `Replay` starts it
    /// over with `next` as the shape to come; `Pause` takes a halted game up
    /// again; `Replay` turns a game that is over into a new one. Every other
    /// press changes nothing.
    pub open spec fn pressed(self, button: ButtonName, falling: (int, int), next: (int, int))
        -> GameView {
        match self.state {
            GameSate::Ready => if button == ButtonName::Drop {
                self.started(falling, next)
            } else {
                self
            },
            GameSate::Playing => if button == ButtonName::Pause {
                self.pause_toggled()
            } else if button == ButtonName::Replay {
                self.replayed(next)
            } else {
                self.directed(button)
            },
            GameSate::Paused => if button == ButtonName::Pause {
                self.pause_toggled()
            } else {
                self
            },
            GameSate::GameOver => if button == ButtonName::Replay {
                self.replayed(next)
            } else {
                self
            },
        }
    }

    /// An ended erase sequence holds more rows than can be scored at once.
    pub open spec fn unscorable(self) -> bool {
        self.to_score() && self.clean_lines.1 > MAX_ERASE_LINES
    }

    /// The game after one round of its clock. First the fall tick, if the
    /// fall timer has fired; then `delta` nanoseconds of the erase sequence,
    /// with a flash if the flash timer has fired; then the scoring of a
    /// sequence that has ended; then, where the game waits for a brick, the
    /// spawn, which makes `upcoming` the next shape. A sequence that cannot be
    /// scored is left as it has ended, and no brick is spawned.
    pub open spec fn stepped(self, fall: bool, delta: u64, flash: bool, upcoming: (int, int))
        -> GameView {
        let after_fall = if fall {
            self.fallen()
        } else {
            self
        };
        let after_erase = after_fall.erase_advanced(delta, flash);
        if after_erase.unscorable() {
            after_erase
        } else {
            after_erase.scored().spawned(upcoming)
        }
    }

    /// `post` is what a press of `button` can make of the game `pre`,
    /// whatever shapes are drawn for a start.
    pub open spec fn press_leads_to(pre: GameView, button: ButtonName, post: GameView) -> bool {
        exists|falling: (int, int), next: (int, int)|
            is_fresh(falling) && is_fresh(next) && post == #[trigger] pre.pressed(
                button,
                falling,
                next,
            )
    }

    /// A fall tick ends the game only where a locked brick reaches the top
    /// row: a brick whose cells all lie under row 19 never does.
    pub proof fn lemma_game_over_only_at_top(self)
        requires
            self.wf(),
            self.state != GameSate::GameOver,
        ensures
            self.fallen().state == GameSate::GameOver <==> self.brick_active()
                && !self.falling.can_move_down(self.board) && self.falling.hits_top(),
            (forall|i: int| 0 <= i < 4 ==> (#[trigger] self.falling.cells()[i]).1 < 19)
                ==> self.fallen().state != GameSate::GameOver,
    {
        if forall|i: int| 0 <= i < 4 ==> (#[trigger] self.falling.cells()[i]).1 < 19 {
            if self.falling.hits_top() {
                let i = choose|i: int| 0 <= i < 4 && over_top(#[trigger] self.falling.cells()[i]);
                assert(self.falling.cells()[i].1 < 19);
            }
        }
    }

    /// Whatever button is pressed, the game stays well formed, and the four
    /// cells of the falling brick stay in columns 0 to 9.
    pub proof fn lemma_pressed_wf(self, button: ButtonName, falling: (int, int), next: (int, int))
        requires
            self.wf(),
            is_fresh(falling),
            is_fresh(next),
        ensures
            self.pressed(button, falling, next).wf(),
            self.directed(button).wf(),
            forall|i: int|
                0 <= i < 4 ==> 0 <= (#[trigger] self.pressed(button, falling, next).falling.cells()[i]).0
                    <= 9,
            forall|i: int|
                0 <= i < 4 ==> 0 <= (#[trigger] self.directed(button).falling.cells()[i]).0 <= 9,
    {
        self.falling.lemma_moves_keep_wf(self.board);
        FallingBrickView::lemma_spawned_wf(falling);
        FallingBrickView::lemma_spawned_wf((0, 0));
        self.pressed(button, falling, next).falling.lemma_cells_between_walls();
        self.directed(button).falling.lemma_cells_between_walls();
    }

    /// Whatever the clock brings, the game stays well formed, and the four
    /// cells of the falling brick stay in columns 0 to 9.
    pub proof fn lemma_stepped_wf(self, fall: bool, delta: u64, flash: bool, upcoming: (int, int))
        requires
            self.wf(),
            is_fresh(upcoming),
        ensures
            self.stepped(fall, delta, flash, upcoming).wf(),
            forall|i: int|
                0 <= i < 4 ==> 0 <= (#[trigger] self.stepped(
                    fall,
                    delta,
                    flash,
                    upcoming,
                ).falling.cells()[i]).0 <= 9,
    {
        self.lemma_fallen_wf();
        let after_fall = if fall {
            self.fallen()
        } else {
            self
        };
        let after_erase = after_fall.erase_advanced(delta, flash);
        lemma_level_saturates(after_erase.cleans as int);
        FallingBrickView::lemma_spawned_wf(after_erase.next_brick_shape);
        self.stepped(fall, delta, flash, upcoming).falling.lemma_cells_between_walls();
    }

    /// A fall tick keeps a game well formed.
    pub proof fn lemma_fallen_wf(self)
        requires
            self.wf(),
        ensures
            self.fallen().wf(),
    {
        self.falling.lemma_moves_keep_wf(self.board);
        self.falling.lemma_anchor_range();
        if self.brick_active() && !self.falling.can_move_down(self.board)
            && !self.falling.hits_top() {
            let cells = self.falling.cells();
            assert forall|i: int| 0 <= i < 4 implies 0 <= cell_index(#[trigger] cells[i])
                < BOARD_BRICK_NODE_TOTAL by {
                assert(!over_top(cells[i]));
            }
            lemma_clean_run_exists(self.locked_board());
        }
    }
}

/// The first `rows` rows of a grid hold a lowest run of full rows or none:
/// there are `start` and `count` such that no row under `start` is full, the
/// rows from `start` to `start + count` are, and the run ends at row `rows`
/// or at a row that is not full.
proof fn lemma_clean_run_scan(cells: Seq<bool>, rows: int) -> (run: (int, int))
    requires
        0 <= rows <= BOARD_BRICK_NODE_ROWS,
    ensures
        0 <= run.0,
        0 <= run.1,
        run.0 + run.1 <= rows,
        forall|row: int| 0 <= row < run.0 ==> !row_full(cells, row),
        forall|row: int| run.0 <= row < run.0 + run.1 ==> row_full(cells, row),
        run.1 == 0 ==> run.0 == 0 && forall|row: int| 0 <= row < rows ==> !row_full(cells, row),
        run.1 > 0 && run.0 + run.1 < rows ==> !row_full(cells, run.0 + run.1),
    decreases rows,
{
    if rows == 0 {
        (0, 0)
    } else {
        let before = lemma_clean_run_scan(cells, rows - 1);
        if before.1 == 0 {
            if row_full(cells, rows - 1) {
                (rows - 1, 1)
            } else {
                (0, 0)
            }
        } else if before.0 + before.1 == rows - 1 && row_full(cells, rows - 1) {
            (before.0, before.1 + 1)
        } else {
            before
        }
    }
}

/// Every grid has a lowest run of full rows, so that `clean_run_of` is one.
pub proof fn lemma_clean_run_exists(cells: Seq<bool>)
    ensures
        is_clean_run(cells, clean_run_of(cells).0, clean_run_of(cells).1),
        0 <= clean_run_of(cells).0,
        0 <= clean_run_of(cells).1,
        clean_run_of(cells).0 + clean_run_of(cells).1 <= BOARD_BRICK_NODE_ROWS,
{
    let run = lemma_clean_run_scan(cells, BOARD_BRICK_NODE_ROWS as int);
    lemma_clean_run_of(cells, run.0, run.1);
}

} // verus!
