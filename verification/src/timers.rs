use crate::constants::{
    MAX_ERASE_LINES, TIMER_ERASE_FLASH_NANOS, TIMER_FALLING_NANOS, TIMER_FALLING_SPEED_UP_NANOS,
};
use crate::control::ButtonName;
use crate::game_data::{EraseAnimationStep, GameData};
use crate::game_view::{is_fresh, GameView};
use crate::state::GameSate;
use bevy::time::{Timer, TimerMode};
use std::time::Duration;
use vstd::prelude::*;

verus! {

/// Whether a repeating timer that has counted `elapsed` fires when `delta`
/// more goes by: it does once it has counted its period.
pub open spec fn timer_fires(elapsed: int, period: int, delta: int) -> bool {
    elapsed + delta >= period
}

/// What a repeating timer has counted after `delta` more has gone by: the
/// sum while it does not fire, and what is left over of the sum after whole
/// periods when it fires. A timer without a period keeps nothing.
pub open spec fn timer_elapsed_after(elapsed: int, period: int, delta: int) -> int {
    if !timer_fires(elapsed, period, delta) {
        elapsed + delta
    } else if period > 0 {
        (elapsed + delta) % period
    } else {
        0
    }
}

/// Makes a `bevy::time::Timer` of the given period with `Timer::new` in the
/// mode `TimerMode::Repeating`, gives it what it has counted with
/// `Timer::set_elapsed`, lets the time go by with `Timer::tick`, and reads
/// `Timer::finished` and `Timer::elapsed`, all in nanoseconds. The tick adds
/// the time to what was counted; the timer has finished if that reaches the
/// period, and then keeps the remainder of the division by the period, or
/// nothing where the period is 0.
#[verifier::external_body]
fn repeating_timer_tick(elapsed_nanos: u64, period_nanos: u64, delta_nanos: u64) -> (out: (
    bool,
    u64,
))
    ensures
        out.0 == timer_fires(elapsed_nanos as int, period_nanos as int, delta_nanos as int),
        out.1 == timer_elapsed_after(
            elapsed_nanos as int,
            period_nanos as int,
            delta_nanos as int,
        ),
{
    let mut timer = Timer::new(Duration::from_nanos(period_nanos), TimerMode::Repeating);
    timer.set_elapsed(Duration::from_nanos(elapsed_nanos));
    timer.tick(Duration::from_nanos(delta_nanos));
    (timer.finished(), timer.elapsed().as_nanos() as u64)
}

/// The timers of a game as contracts see them, in nanoseconds.
pub struct GameTimersView {
    /// What the fall timer has counted since it last fired.
    pub falling_elapsed_nanos: u64,
    /// What the flash timer of the erase sequence has counted since it last fired.
    pub erase_animation_elapsed_nanos: u64,
    /// The time between two fall ticks of a brick that does not fall fast.
    pub falling_interval_nanos: u64,
}

impl GameTimersView {
    /// The timers of a new game: both have counted nothing, and the brick
    /// falls every 725 milliseconds.
    pub open spec fn initial() -> GameTimersView {
        GameTimersView {
            falling_elapsed_nanos: 0,
            erase_animation_elapsed_nanos: 0,
            falling_interval_nanos: TIMER_FALLING_NANOS,
        }
    }

    /// The period of the fall timer: a sixtieth of a second while the brick
    /// falls fast, else the fall interval.
    pub open spec fn falling_period(self, fast: bool) -> u64 {
        if fast {
            TIMER_FALLING_SPEED_UP_NANOS
        } else {
            self.falling_interval_nanos
        }
    }

    /// Whether the fall timer fires when `delta` nanoseconds go by.
    pub open spec fn falling_fires(self, fast: bool, delta: u64) -> bool {
        timer_fires(
            self.falling_elapsed_nanos as int,
            self.falling_period(fast) as int,
            delta as int,
        )
    }

    /// Whether the flash timer fires when `delta` nanoseconds go by. It runs
    /// only during an erase sequence, and fires every half second.
    pub open spec fn flash_fires(self, erasing: bool, delta: u64) -> bool {
        erasing && timer_fires(
            self.erase_animation_elapsed_nanos as int,
            TIMER_ERASE_FLASH_NANOS as int,
            delta as int,
        )
    }

    /// The timers after `delta` nanoseconds have gone by. The flash timer
    /// stands still while no erase sequence runs.
    pub open spec fn advanced(self, fast: bool, erasing: bool, delta: u64) -> GameTimersView {
        GameTimersView {
            falling_elapsed_nanos: timer_elapsed_after(
                self.falling_elapsed_nanos as int,
                self.falling_period(fast) as int,
                delta as int,
            ) as u64,
            erase_animation_elapsed_nanos: if erasing {
                timer_elapsed_after(
                    self.erase_animation_elapsed_nanos as int,
                    TIMER_ERASE_FLASH_NANOS as int,
                    delta as int,
                ) as u64
            } else {
                self.erase_animation_elapsed_nanos
            },
            falling_interval_nanos: self.falling_interval_nanos,
        }
    }
}

/// The timers of a game: one for the fall of the brick, one for the flashes
/// of the erase sequence.
#[derive(Debug, Clone, Copy)]
pub struct GameTimers {
    falling_elapsed_nanos: u64,
    erase_animation_elapsed_nanos: u64,
    falling_interval_nanos: u64,
}

impl View for GameTimers {
    type V = GameTimersView;

    closed spec fn view(&self) -> GameTimersView {
        GameTimersView {
            falling_elapsed_nanos: self.falling_elapsed_nanos,
            erase_animation_elapsed_nanos: self.erase_animation_elapsed_nanos,
            falling_interval_nanos: self.falling_interval_nanos,
        }
    }
}

impl GameTimers {
    /// Timers for a new game.
    pub fn new() -> (timers: GameTimers)
        ensures
            timers@ == GameTimersView::initial(),
    {
        GameTimers {
            falling_elapsed_nanos: 0,
            erase_animation_elapsed_nanos: 0,
            falling_interval_nanos: TIMER_FALLING_NANOS,
        }
    }

    /// What the fall timer has counted since it last fired.
    pub fn falling_elapsed_nanos(&self) -> (nanos: u64)
        ensures
            nanos == self@.falling_elapsed_nanos,
    {
        self.falling_elapsed_nanos
    }

    /// What the flash timer has counted since it last fired.
    pub fn erase_animation_elapsed_nanos(&self) -> (nanos: u64)
        ensures
            nanos == self@.erase_animation_elapsed_nanos,
    {
        self.erase_animation_elapsed_nanos
    }

    /// The time between two fall ticks of a brick that does not fall fast.
    pub fn falling_interval_nanos(&self) -> (nanos: u64)
        ensures
            nanos == self@.falling_interval_nanos,
    {
        self.falling_interval_nanos
    }

    /// Sets the time between two fall ticks of a brick that does not fall
    /// fast. What the timers have counted stays.
    pub fn set_falling_interval(&mut self, nanos: u64)
        ensures
            final(self)@ == (GameTimersView { falling_interval_nanos: nanos, ..old(self)@ }),
    {
        self.falling_interval_nanos = nanos;
    }

    /// Starts the timers again, as for a new game.
    pub fn reset(&mut self)
        ensures
            final(self)@ == GameTimersView::initial(),
    {
        self.falling_elapsed_nanos = 0;
        self.erase_animation_elapsed_nanos = 0;
        self.falling_interval_nanos = TIMER_FALLING_NANOS;
    }

    /// The period of the fall timer: a sixtieth of a second while the brick
    /// falls fast, else the fall interval.
    pub fn falling_period(&self, fast: bool) -> (period: u64)
        ensures
            period == self@.falling_period(fast),
    {
        if fast {
            TIMER_FALLING_SPEED_UP_NANOS
        } else {
            self.falling_interval_nanos
        }
    }

    /// Lets `delta_nanos` nanoseconds go by. The fall timer runs at the fast
    /// period if `fast` is set and at the fall interval else; the flash timer
    /// runs only if `erasing` is set. Says which of the two have fired.
    pub fn advance(&mut self, fast: bool, erasing: bool, delta_nanos: u64) -> (fired: (bool, bool))
        ensures
            fired.0 == old(self)@.falling_fires(fast, delta_nanos),
            fired.1 == old(self)@.flash_fires(erasing, delta_nanos),
            final(self)@ == old(self)@.advanced(fast, erasing, delta_nanos),
    {
        let period: u64 = self.falling_period(fast);
        let fall: (bool, u64) = repeating_timer_tick(
            self.falling_elapsed_nanos,
            period,
            delta_nanos,
        );
        self.falling_elapsed_nanos = fall.1;
        if !erasing {
            return (fall.0, false);
        }
        let flash: (bool, u64) = repeating_timer_tick(
            self.erase_animation_elapsed_nanos,
            TIMER_ERASE_FLASH_NANOS,
            delta_nanos,
        );
        self.erase_animation_elapsed_nanos = flash.1;
        (fall.0, flash.0)
    }
}

/// A game and its timers as contracts see them.
pub struct FrameView {
    pub game: GameView,
    pub timers: GameTimersView,
}

impl FrameView {
    /// The given game with the given timers.
    pub open spec fn of(game: GameView, timers: GameTimersView) -> FrameView {
        FrameView { game, timers }
    }

    /// The press starts the game over or makes it a new game, and with it the timers.
    pub open spec fn starts_over(self, button: ButtonName) -> bool {
        button == ButtonName::Replay && (self.game.state == GameSate::GameOver || self.game.state
            == GameSate::Playing)
    }

    /// `post` is what a press of `button` can make of `pre`, whatever shapes
    /// are drawn. The timers start again where the press starts the game
    /// over, and stay as they are else.
    pub open spec fn press_leads_to(pre: FrameView, button: ButtonName, post: FrameView) -> bool {
        &&& GameView::press_leads_to(pre.game, button, post.game)
        &&& post.timers == if pre.starts_over(button) {
            GameTimersView::initial()
        } else {
            pre.timers
        }
    }

    /// The press of `buttons[i]` can make `trace[i + 1]` of `trace[i]`.
    pub open spec fn trace_step(trace: Seq<FrameView>, buttons: Seq<ButtonName>, i: int) -> bool {
        Self::press_leads_to(trace[i], buttons[i], trace[i + 1])
    }

    /// `trace` holds the game and its timers before the first press of
    /// `buttons` and after each of them, every one what the press can make
    /// of the one before.
    pub open spec fn is_press_trace(trace: Seq<FrameView>, buttons: Seq<ButtonName>) -> bool {
        &&& trace.len() == buttons.len() + 1
        &&& forall|i: int| 0 <= i < buttons.len() ==> #[trigger] Self::trace_step(trace, buttons, i)
    }

    /// `post` is what the presses `buttons`, one after the other, can make of `pre`.
    pub open spec fn presses_lead_to(pre: FrameView, buttons: Seq<ButtonName>, post: FrameView)
        -> bool {
        exists|trace: Seq<FrameView>| #[trigger]
            Self::is_press_trace(trace, buttons) && trace[0] == pre && trace.last() == post
    }

    /// Whether the fall timer fires in a frame of `delta` nanoseconds.
    pub open spec fn fall(self, delta: u64) -> bool {
        self.timers.falling_fires(self.game.is_speed_up_falling, delta)
    }

    /// Whether the flash timer fires in a frame of `delta` nanoseconds.
    pub open spec fn flash(self, delta: u64) -> bool {
        self.timers.flash_fires(self.game.erasing(), delta)
    }

    /// The game and its timers after `delta` nanoseconds of the clock. A
    /// game that is not played stays as it is, and so do its timers. In a
    /// game that is played the timers run, and the game takes the step that
    /// they call for, with `upcoming` as the shape behind a brick that is spawned.
    pub open spec fn clocked(self, delta: u64, upcoming: (int, int)) -> FrameView {
        if self.game.state != GameSate::Playing {
            self
        } else {
            FrameView {
                game: self.game.stepped(self.fall(delta), delta, self.flash(delta), upcoming),
                timers: self.timers.advanced(
                    self.game.is_speed_up_falling,
                    self.game.erasing(),
                    delta,
                ),
            }
        }
    }

    /// No press leaves a game and its timers as they are.
    pub proof fn lemma_no_press(pre: FrameView)
        ensures
            Self::presses_lead_to(pre, Seq::empty(), pre),
    {
        let trace = seq![pre];
        assert(Self::is_press_trace(trace, Seq::empty()));
    }

    /// Presses that lead from `pre` to `mid`, and one more that leads on to
    /// `post`, lead from `pre` to `post`.
    pub proof fn lemma_one_more_press(
        pre: FrameView,
        buttons: Seq<ButtonName>,
        mid: FrameView,
        button: ButtonName,
        post: FrameView,
    )
        requires
            Self::presses_lead_to(pre, buttons, mid),
            Self::press_leads_to(mid, button, post),
        ensures
            Self::presses_lead_to(pre, buttons.push(button), post),
    {
        let trace = choose|trace: Seq<FrameView>| #[trigger]
            Self::is_press_trace(trace, buttons) && trace[0] == pre && trace.last() == mid;
        let longer = trace.push(post);
        let all = buttons.push(button);
        assert forall|i: int| 0 <= i < all.len() implies #[trigger] Self::trace_step(
            longer,
            all,
            i,
        ) by {
            if i < buttons.len() {
                assert(Self::trace_step(trace, buttons, i));
                assert(longer[i] == trace[i] && longer[i + 1] == trace[i + 1] && all[i]
                    == buttons[i]);
            }
        }
        assert(Self::is_press_trace(longer, all));
    }

    /// A press leaves the fall interval as it is, or puts it back to that of
    /// a new game.
    pub proof fn lemma_press_keeps_interval(pre: FrameView, button: ButtonName, post: FrameView)
        requires
            Self::press_leads_to(pre, button, post),
        ensures
            post.timers.falling_interval_nanos == pre.timers.falling_interval_nanos
                || post.timers.falling_interval_nanos == TIMER_FALLING_NANOS,
    {
    }
}

impl GameData {
    /// One frame of the game: the presses `commands` in their order, then,
    /// while the game is played, `delta_nanos` nanoseconds of its clock. A
    /// press that starts the game over starts the timers again. On the
    /// clock the fall timer runs at the fast period while the brick falls
    /// fast and at the fall interval else, and the flash timer runs during an
    /// erase sequence; the game takes the step that they call for. Shapes are
    /// drawn at random. Returns `false` where an ended erase sequence holds
    /// more than four rows, which cannot be scored.
    pub fn tick(&mut self, timers: &mut GameTimers, delta_nanos: u64, commands: &Vec<ButtonName>)
        -> (scorable: bool)
        ensures
            exists|mid: FrameView, upcoming: (int, int)|
                FrameView::presses_lead_to(
                    FrameView::of(old(self)@, old(timers)@),
                    commands@,
                    mid,
                ) && is_fresh(upcoming) && FrameView::of(final(self)@, final(timers)@)
                    == #[trigger] mid.clocked(delta_nanos, upcoming),
            scorable == !final(self)@.unscorable(),
            final(timers)@.falling_interval_nanos == old(timers)@.falling_interval_nanos
                || final(timers)@.falling_interval_nanos == TIMER_FALLING_NANOS,
    {
        let ghost start = FrameView::of(self@, timers@);
        let mut i: usize = 0;
        proof {
            FrameView::lemma_no_press(start);
            assert(commands@.take(0) =~= Seq::empty());
        }
        while i < commands.len()
            invariant
                i <= commands.len(),
                FrameView::presses_lead_to(
                    start,
                    commands@.take(i as int),
                    FrameView::of(self@, timers@),
                ),
                timers@.falling_interval_nanos == start.timers.falling_interval_nanos
                    || timers@.falling_interval_nanos == TIMER_FALLING_NANOS,
            decreases commands.len() - i,
        {
            let ghost before = FrameView::of(self@, timers@);
            let starts_over: bool = commands[i] == ButtonName::Replay && (self.is_game_over()
                || self.state() == GameSate::Playing);
            self.press(commands[i]);
            if starts_over {
                timers.reset();
            }
            proof {
                FrameView::lemma_one_more_press(
                    start,
                    commands@.take(i as int),
                    before,
                    commands@[i as int],
                    FrameView::of(self@, timers@),
                );
                assert(commands@.take(i + 1) =~= commands@.take(i as int).push(commands@[i as int]));
            }
            i = i + 1;
        }
        assert(commands@.take(i as int) =~= commands@);
        let ghost mid = FrameView::of(self@, timers@);
        if self.state() != GameSate::Playing {
            assert(FrameView::of(self@, timers@) == mid.clocked(delta_nanos, (0, 0)));
            return true;
        }
        let erasing: bool = self.erase_animation_step() == EraseAnimationStep::Playing;
        let fired: (bool, bool) = timers.advance(self.is_speed_up_falling(), erasing, delta_nanos);
        if fired.0 {
            self.falling_brick_step();
        }
        self.play_erase_animation(delta_nanos, fired.1);
        if self.state() == GameSate::Playing && self.erase_animation_step()
            == EraseAnimationStep::End && self.clean_lines().1 > MAX_ERASE_LINES as usize {
            assert(FrameView::of(self@, timers@) == mid.clocked(delta_nanos, (0, 0)));
            return false;
        }
        self.score_board();
        let ghost scored = self@;
        self.spawn_new_falling_brick();
        proof {
            let upcoming = choose|upcoming: (int, int)|
                is_fresh(upcoming) && self@ == #[trigger] scored.spawned(upcoming);
            assert(FrameView::of(self@, timers@) == mid.clocked(delta_nanos, upcoming));
        }
        true
    }
}

} // verus!
