//! The screens of the client, how events move between them, and what a finished run earns.
use vstd::prelude::*;

use crate::state::GameState;
use crate::tetris_core::CoreModel;

verus! {

/// The screen the client shows.
#[derive(Debug, Clone, Copy, PartialEq, Eq, Structural)]
pub enum GameView {
    MainMenu,
    SkillTree,
    GameOver,
    Tetris { paused: bool },
}

impl Default for GameView {
    /// The client starts at the main menu.
    fn default() -> (r: Self)
        ensures
            r == GameView::MainMenu,
    {
        GameView::MainMenu
    }
}

impl GameView {
    /// Whether a run is on screen, paused or not.
    pub fn is_tetris(&self) -> (r: bool)
        ensures
            r == (*self is Tetris),
    {
        match self {
            GameView::Tetris { .. } => true,
            _ => false,
        }
    }

    /// Whether a run is being played (not paused).
    pub fn is_tetris_playing(&self) -> (r: bool)
        ensures
            r == (*self == GameView::Tetris { paused: false }),
    {
        match self {
            GameView::Tetris { paused } => !*paused,
            _ => false,
        }
    }
}

/// Something that moves the client between screens.
#[derive(Debug, Clone, Copy, PartialEq, Eq, Structural)]
pub enum GameViewEvent {
    StartGame,
    OpenSkillTree,
    OpenSkillTreeEditor,
    TogglePause,
    Back,
    GameOver,
}

/// The screen after an event, and whether the run is to be reset.
#[derive(Debug, Clone, Copy, PartialEq, Eq, Structural)]
pub struct TransitionResult {
    pub next_view: GameView,
    pub reset_tetris: bool,
}

/// The move between screens: starting a game from the menu, the game-over screen or the
/// skill tree opens a fresh, unpaused run (reset); the skill tree opens from the menu or the
/// game-over screen, and the editor from the menu; a run pauses and resumes; back leads
/// from the game-over screen and the skill tree to the menu; a run ends on the game-over
/// screen. Any other event leaves the screen as it is, without a reset.
pub open spec fn spec_transition(view: GameView, event: GameViewEvent) -> TransitionResult {
    let stay = TransitionResult { next_view: view, reset_tetris: false };
    match event {
        GameViewEvent::StartGame => match view {
            GameView::Tetris { .. } => stay,
            _ => TransitionResult { next_view: GameView::Tetris { paused: false }, reset_tetris: true },
        },
        GameViewEvent::OpenSkillTree => match view {
            GameView::MainMenu | GameView::GameOver => TransitionResult { next_view: GameView::SkillTree, reset_tetris: false },
            _ => stay,
        },
        GameViewEvent::OpenSkillTreeEditor => match view {
            GameView::MainMenu => TransitionResult { next_view: GameView::SkillTree, reset_tetris: false },
            _ => stay,
        },
        GameViewEvent::TogglePause => match view {
            GameView::Tetris { paused } => TransitionResult { next_view: GameView::Tetris { paused: !paused }, reset_tetris: false },
            _ => stay,
        },
        GameViewEvent::Back => match view {
            GameView::GameOver | GameView::SkillTree => TransitionResult { next_view: GameView::MainMenu, reset_tetris: false },
            _ => stay,
        },
        GameViewEvent::GameOver => match view {
            GameView::Tetris { .. } => TransitionResult { next_view: GameView::GameOver, reset_tetris: false },
            _ => stay,
        },
    }
}

/// The move for `event` from `view`; see `spec_transition`.
pub fn apply_view_event(view: GameView, event: GameViewEvent) -> (r: TransitionResult)
    ensures
        r == spec_transition(view, event),
{
    let stay = TransitionResult { next_view: view, reset_tetris: false };
    match event {
        GameViewEvent::StartGame => match view {
            GameView::Tetris { .. } => stay,
            _ => TransitionResult { next_view: GameView::Tetris { paused: false }, reset_tetris: true },
        },
        GameViewEvent::OpenSkillTree => match view {
            GameView::MainMenu | GameView::GameOver => TransitionResult { next_view: GameView::SkillTree, reset_tetris: false },
            _ => stay,
        },
        GameViewEvent::OpenSkillTreeEditor => match view {
            GameView::MainMenu => TransitionResult { next_view: GameView::SkillTree, reset_tetris: false },
            _ => stay,
        },
        GameViewEvent::TogglePause => match view {
            GameView::Tetris { paused } => TransitionResult { next_view: GameView::Tetris { paused: !paused }, reset_tetris: false },
            _ => stay,
        },
        GameViewEvent::Back => match view {
            GameView::GameOver | GameView::SkillTree => TransitionResult { next_view: GameView::MainMenu, reset_tetris: false },
            _ => stay,
        },
        GameViewEvent::GameOver => match view {
            GameView::Tetris { .. } => TransitionResult { next_view: GameView::GameOver, reset_tetris: false },
            _ => stay,
        },
    }
}

pub fn start_game(view: GameView) -> (r: TransitionResult)
    ensures
        r == spec_transition(view, GameViewEvent::StartGame),
{
    apply_view_event(view, GameViewEvent::StartGame)
}

pub fn open_skilltree(view: GameView) -> (r: TransitionResult)
    ensures
        r == spec_transition(view, GameViewEvent::OpenSkillTree),
{
    apply_view_event(view, GameViewEvent::OpenSkillTree)
}

pub fn open_skilltree_editor(view: GameView) -> (r: TransitionResult)
    ensures
        r == spec_transition(view, GameViewEvent::OpenSkillTreeEditor),
{
    apply_view_event(view, GameViewEvent::OpenSkillTreeEditor)
}

pub fn toggle_pause(view: GameView) -> (r: TransitionResult)
    ensures
        r == spec_transition(view, GameViewEvent::TogglePause),
{
    apply_view_event(view, GameViewEvent::TogglePause)
}

pub fn back(view: GameView) -> (r: TransitionResult)
    ensures
        r == spec_transition(view, GameViewEvent::Back),
{
    apply_view_event(view, GameViewEvent::Back)
}

pub fn game_over(view: GameView) -> (r: TransitionResult)
    ensures
        r == spec_transition(view, GameViewEvent::GameOver),
{
    apply_view_event(view, GameViewEvent::GameOver)
}

/// What a run with the game `m` earns: a tenth of the score plus five per line cleared, the
/// product capped at `u32::MAX`.
pub open spec fn spec_run_earnings(m: CoreModel) -> int {
    m.score / 10 + (if m.lines_cleared * 5 > u32::MAX { u32::MAX as int } else { m.lines_cleared * 5 })
}

/// Meta-currency earned by a run: a tenth of the score plus five per line cleared (the
/// product saturating).
pub fn money_earned_from_run(state: &GameState) -> (r: u32)
    requires
        spec_run_earnings(state@.game) <= u32::MAX,
    ensures
        r == spec_run_earnings(state@.game),
{
    let score = state.tetris.score();
    let lines = state.tetris.lines_cleared();
    let bonus = match lines.checked_mul(5) {
        Some(v) => v,
        None => u32::MAX,
    };
    score / 10 + bonus
}

} // verus!
