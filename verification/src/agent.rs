//! The plain block game driven by agents: one action per step, then the material turn.
use vstd::prelude::*;

use crate::piece::{spec_default_pool, Piece, RotationDir, Vec2i};
use crate::state::{GameState, StateView};
use crate::tetris_core::lines::depth_headroom;
use crate::tetris_core::materials::{spec_hard_drop, spec_material_turn};
use crate::tetris_core::setup::{copy_pieces, spec_initialize};
use crate::tetris_core::{
    spec_move, spec_new, spec_rotate_piece, spec_weight_sum, CoreModel, TetrisCore,
};

verus! {

/// An agent's action.
#[derive(Debug, Clone, Copy, PartialEq, Eq, Structural)]
pub enum TetrisAction {
    MoveLeft,
    MoveRight,
    MoveDown,
    RotateCw,
    RotateCcw,
    HardDrop,
    Noop,
}

/// The action's effect, followed by the material turn.
pub open spec fn spec_apply_action(m: CoreModel, action: TetrisAction) -> CoreModel {
    let a = match action {
        TetrisAction::MoveLeft => spec_move(m, Vec2i { x: -1i32, y: 0 }),
        TetrisAction::MoveRight => spec_move(m, Vec2i { x: 1, y: 0 }),
        TetrisAction::MoveDown => spec_move(m, Vec2i { x: 0, y: -1i32 }),
        TetrisAction::RotateCw => spec_rotate_piece(m, RotationDir::Cw),
        TetrisAction::RotateCcw => spec_rotate_piece(m, RotationDir::Ccw),
        TetrisAction::HardDrop => spec_hard_drop(m).0,
        TetrisAction::Noop => m,
    };
    spec_material_turn(a)
}

/// Applies an agent's action to the game, then advances the materials.
pub fn apply_action(core: &mut TetrisCore, action: TetrisAction)
    requires
        old(core).wf(),
        old(core)@.pos.y <= i32::MAX - 2,
    ensures
        final(core).wf(),
        final(core)@ == spec_apply_action(old(core)@, action),
{
    proof {
        core.lemma_wf_model();
    }
    match action {
        TetrisAction::MoveLeft => {
            core.move_piece(Vec2i::new(-1, 0));
        },
        TetrisAction::MoveRight => {
            core.move_piece(Vec2i::new(1, 0));
        },
        TetrisAction::MoveDown => {
            core.move_piece_down();
        },
        TetrisAction::RotateCw => {
            core.rotate_piece(RotationDir::Cw);
        },
        TetrisAction::RotateCcw => {
            core.rotate_piece(RotationDir::Ccw);
        },
        TetrisAction::HardDrop => {
            core.hard_drop();
        },
        TetrisAction::Noop => {},
    }
    core.advance_material_turn();
}

pub ghost struct BlockGameView {
    pub seed: u64,
    pub pieces: Seq<Piece>,
}

/// A block game on a seed and a piece pool.
#[derive(Debug, Clone)]
pub struct BlockGame {
    seed: u64,
    available_pieces: Vec<Piece>,
}

impl View for BlockGame {
    type V = BlockGameView;

    closed spec fn view(&self) -> BlockGameView {
        BlockGameView { seed: self.seed, pieces: self.available_pieces@ }
    }
}

/// The game an agent starts: a new core on the seed with the pool, initialized.
pub open spec fn spec_agent_initial(g: BlockGameView) -> CoreModel {
    let m0 = spec_new(g.seed);
    spec_initialize(CoreModel { available: if g.pieces.len() == 0 { seq![Piece::O] } else { g.pieces }, ..m0 })
}

impl BlockGame {
    pub fn new(seed: u64, available_pieces: Vec<Piece>) -> (r: Self)
        ensures
            r@ == (BlockGameView { seed, pieces: available_pieces@ }),
    {
        BlockGame { seed, available_pieces }
    }

    /// A game with the default elemental pool.
    pub fn standard(seed: u64) -> (r: Self)
        ensures
            r@ == (BlockGameView { seed, pieces: spec_default_pool() }),
    {
        Self::new(seed, Piece::all())
    }

    pub fn initial_state(&self) -> (r: GameState)
        requires
            spec_weight_sum(self@.pieces) <= u32::MAX,
        ensures
            r.tetris.wf(),
            r@.game == spec_agent_initial(self@),
            r@.timer.elapsed == 0 && r@.timer.limit == 20_000_000_000,
            r@.gravity_interval == 500_000_000 && r@.gravity_elapsed == 0,
            crate::skilltree::runtime::spec_default_runtime(r.skilltree),
    {
        let mut core = TetrisCore::new(self.seed);
        core.set_available_pieces(copy_pieces(&self.available_pieces));
        core.initialize_game();
        GameState::new(core)
    }

    /// One step on a copy of `state`: the action, then the material turn.
    pub fn step(&self, state: &GameState, input: TetrisAction) -> (r: GameState)
        requires
            state.tetris.wf(),
            state@.game.pos.y <= i32::MAX - 2,
        ensures
            r.tetris.wf(),
            r@ == (StateView { game: spec_apply_action(state@.game, input), ..state@ }),
    {
        let mut next = state.clone();
        apply_action(&mut next.tetris, input);
        next
    }
}

pub type BlockAction = TetrisAction;

pub type TetrisGame = BlockGame;

} // verus!
