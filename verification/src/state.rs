//! The state of one session: the screen, the game core, the skill tree, the round timer and
//! the gravity clock.
use vstd::prelude::*;

use crate::headful::view_transitions::GameView;
use crate::round_timer::{RoundTimer, TimerView};
use crate::skilltree::runtime::{spec_default_runtime, RuntimeView};
use crate::skilltree::SkillTreeRuntime;
use crate::tetris_core::{CoreModel, TetrisCore};
use crate::time_span::TimeSpan;

verus! {

/// Round length of a session: 20 seconds.
pub fn default_round_limit() -> (r: TimeSpan)
    ensures
        r@ == 20_000_000_000,
{
    TimeSpan::from_secs(20)
}

/// Time between gravity steps: 500 milliseconds.
pub fn default_gravity_interval() -> (r: TimeSpan)
    ensures
        r@ == 500_000_000,
{
    TimeSpan::from_millis(500)
}

pub ghost struct StateView {
    pub view: GameView,
    pub game: CoreModel,
    pub skilltree: RuntimeView,
    pub timer: TimerView,
    pub gravity_interval: int,
    pub gravity_elapsed: int,
}

/// One session: the screen shown, the game, the skill tree, the round timer and the gravity
/// clock.
pub struct GameState {
    pub view: GameView,
    pub tetris: TetrisCore,
    pub skilltree: SkillTreeRuntime,
    pub round_timer: RoundTimer,
    pub gravity_interval: TimeSpan,
    pub gravity_elapsed: TimeSpan,
}

impl View for GameState {
    type V = StateView;

    open spec fn view(&self) -> StateView {
        StateView {
            view: self.view,
            game: self.tetris@,
            skilltree: self.skilltree@,
            timer: self.round_timer@,
            gravity_interval: self.gravity_interval@,
            gravity_elapsed: self.gravity_elapsed@,
        }
    }
}

impl Clone for GameState {
    fn clone(&self) -> (r: Self)
        ensures
            r@ == self@,
            r.tetris.wf() == self.tetris.wf(),
    {
        GameState {
            view: self.view,
            tetris: self.tetris.clone(),
            skilltree: self.skilltree.clone(),
            round_timer: self.round_timer,
            gravity_interval: self.gravity_interval,
            gravity_elapsed: self.gravity_elapsed,
        }
    }
}

impl GameState {
    /// A session at the main menu on `tetris` with the built-in skill tree (see `SkillTreeRuntime::from_defaults`)
    /// and the default round limit and gravity interval.
    pub fn new(tetris: TetrisCore) -> (r: Self)
        ensures
            r@ == (StateView {
                view: GameView::MainMenu,
                game: tetris@,
                skilltree: r@.skilltree,
                timer: TimerView { elapsed: 0, limit: 20_000_000_000 },
                gravity_interval: 500_000_000,
                gravity_elapsed: 0,
            }),
            spec_default_runtime(r.skilltree),
            r.tetris.wf() == tetris.wf(),
    {
        Self::with_runtime(tetris, SkillTreeRuntime::from_defaults(), default_round_limit(), default_gravity_interval())
    }

    /// A session at the main menu with the given skill tree, round limit and gravity interval;
    /// no time has passed.
    pub fn with_runtime(tetris: TetrisCore, skilltree: SkillTreeRuntime, round_limit: TimeSpan, gravity_interval: TimeSpan) -> (r: Self)
        ensures
            r@ == (StateView {
                view: GameView::MainMenu,
                game: tetris@,
                skilltree: skilltree@,
                timer: TimerView { elapsed: 0, limit: round_limit@ },
                gravity_interval: gravity_interval@,
                gravity_elapsed: 0,
            }),
            r.skilltree == skilltree,
            r.tetris.wf() == tetris.wf(),
    {
        GameState {
            view: GameView::MainMenu,
            tetris,
            skilltree,
            round_timer: RoundTimer::new(round_limit),
            gravity_interval,
            gravity_elapsed: TimeSpan::zero(),
        }
    }

    pub fn tetris(&self) -> (r: &TetrisCore)
        ensures
            r == &self.tetris,
    {
        &self.tetris
    }

    pub fn tetris_mut(&mut self) -> (r: &mut TetrisCore)
        ensures
            *r == old(self).tetris,
            *final(self) == (GameState { tetris: *final(r), ..*old(self) }),
    {
        &mut self.tetris
    }

    pub fn game_core(&self) -> (r: &TetrisCore)
        ensures
            r == &self.tetris,
    {
        &self.tetris
    }

    pub fn core_mut(&mut self) -> (r: &mut TetrisCore)
        ensures
            *r == old(self).tetris,
            *final(self) == (GameState { tetris: *final(r), ..*old(self) }),
    {
        &mut self.tetris
    }
}

} // verus!
