//! The playtest rules: one step of play per input, with optional gravity each step, the
//! material turn, and a score bonus per cleared line.
use vstd::prelude::*;

use crate::piece::{Piece, RotationDir, Vec2i};
use crate::state::{GameState, StateView};
use crate::tetris_core::lines::{depth_headroom, spec_gravity};
use crate::tetris_core::materials::{spec_hard_drop, spec_material_turn};
use crate::tetris_core::setup::{
    clone_walls, copy_pieces, spec_initialize, spec_normalize_wall, spec_sort_walls,
};
use crate::tetris_core::{
    lemma_piece_ops_keep_depth, max_int, min_int, sat_add, sat_mul, sat_mul_u32, spec_apply_run_mods, spec_hold, spec_move, spec_new,
    spec_resize, spec_rotate_piece, spec_weight_sum, walls_view, BottomwellRunMods, CoreModel,
    DepthWallDef, TetrisCore, WallView,
};
use crate::time_span::TimeSpan;

verus! {

/// One input of a playtest step.
#[derive(Debug, Clone, Copy, PartialEq, Eq, Structural)]
pub enum InputAction {
    Noop,
    MoveLeft,
    MoveRight,
    SoftDrop,
    GravityTick { dt_ms: u32 },
    RotateCw,
    RotateCcw,
    Rotate180,
    HardDrop,
    Hold,
}

/// Whole milliseconds of a span, at most `u32::MAX`.
pub fn duration_to_ms_u32(duration: TimeSpan) -> (r: u32)
    ensures
        r == min_int(duration@ / 1_000_000, u32::MAX as int),
{
    let ms = duration.as_millis();
    if ms > u32::MAX as u128 {
        u32::MAX
    } else {
        ms as u32
    }
}

pub ghost struct LogicView {
    pub seed: u64,
    pub pieces: Seq<Piece>,
    pub gravity: bool,
    pub score_bonus_per_line: u32,
    pub bottomwell: bool,
    pub run_mods: BottomwellRunMods,
    pub walls: Option<Seq<WallView>>,
    pub tuning: Option<(u32, u32)>,
}

/// The rules of a playtest session and the configuration its games start from.
#[derive(Debug, Clone)]
pub struct BlockLogic {
    seed: u64,
    available_pieces: Vec<Piece>,
    gravity_enabled: bool,
    score_bonus_per_line: u32,
    bottomwell_enabled: bool,
    bottomwell_run_mods: BottomwellRunMods,
    depth_wall_defs_override: Option<Vec<DepthWallDef>>,
    depth_wall_damage_tuning: Option<(u32, u32)>,
}

impl View for BlockLogic {
    type V = LogicView;

    closed spec fn view(&self) -> LogicView {
        LogicView {
            seed: self.seed,
            pieces: self.available_pieces@,
            gravity: self.gravity_enabled,
            score_bonus_per_line: self.score_bonus_per_line,
            bottomwell: self.bottomwell_enabled,
            run_mods: self.bottomwell_run_mods,
            walls: match self.depth_wall_defs_override {
                Some(v) => Some(walls_view(v@)),
                None => None,
            },
            tuning: self.depth_wall_damage_tuning,
        }
    }
}

/// The game a playtest starts: a new core on the seed with the configured pool, bottomwell,
/// run modifiers, walls and wall tuning, then initialized.
pub open spec fn spec_initial_core(l: LogicView) -> CoreModel {
    let m0 = spec_new(l.seed);
    let m1 = CoreModel { available: if l.pieces.len() == 0 { seq![Piece::O] } else { l.pieces }, ..m0 };
    let m2 = spec_resize(CoreModel { bottomwell_enabled: l.bottomwell, ..m1 });
    let m3 = spec_resize(spec_apply_run_mods(m2, l.run_mods));
    let m4 = match l.walls {
        Some(w) => CoreModel {
            depth_walls: spec_sort_walls(w.map_values(|x: WallView| spec_normalize_wall(x))),
            ..m3
        },
        None => m3,
    };
    let m5 = match l.tuning {
        Some((per_line, bonus)) => CoreModel {
            damage_per_line: max_int(per_line as int, 1) as u32,
            multi_bonus_percent: max_int(bonus as int, 100) as u32,
            ..m4
        },
        None => m4,
    };
    spec_initialize(m5)
}

/// The input's own effect, and whether gravity may still run in the same step.
pub open spec fn spec_input(m: CoreModel, input: InputAction) -> (CoreModel, bool) {
    match input {
        InputAction::Noop => (m, true),
        InputAction::MoveLeft => (spec_move(m, Vec2i { x: -1i32, y: 0 }), true),
        InputAction::MoveRight => (spec_move(m, Vec2i { x: 1, y: 0 }), true),
        InputAction::SoftDrop => (spec_move(m, Vec2i { x: 0, y: -1i32 }), false),
        InputAction::GravityTick { dt_ms } => (spec_gravity(m, dt_ms).0, false),
        InputAction::RotateCw => (spec_rotate_piece(m, RotationDir::Cw), true),
        InputAction::RotateCcw => (spec_rotate_piece(m, RotationDir::Ccw), true),
        InputAction::Rotate180 => (spec_rotate_piece(m, RotationDir::Half), true),
        InputAction::HardDrop => (spec_hard_drop(m).0, false),
        InputAction::Hold => (spec_hold(m), true),
    }
}

/// One step: the input, then (with gravity on, unless the input was a soft drop, gravity
/// tick or hard drop) one gravity step of the session's interval, then the material turn;
/// finally the bonus per line cleared in the step is added to the score (saturating).
pub open spec fn spec_step(l: LogicView, m: CoreModel, input: InputAction, interval_ms: u32) -> CoreModel {
    let (a, gravity_allowed) = spec_input(m, input);
    let g = if l.gravity && gravity_allowed { spec_gravity(a, interval_ms).0 } else { a };
    let t = spec_material_turn(g);
    let delta = if t.lines_cleared >= m.lines_cleared { t.lines_cleared - m.lines_cleared } else { 0 };
    if delta > 0 && l.score_bonus_per_line > 0 {
        CoreModel {
            score: sat_add(
                t.score as int,
                sat_mul(l.score_bonus_per_line as int, delta, u32::MAX as int),
                u32::MAX as int,
            ) as u32,
            ..t
        }
    } else {
        t
    }
}

impl BlockLogic {
    /// Playtest rules on `seed` with the given pool; gravity, bonus and bottomwell off, no
    /// run modifiers, default walls.
    pub fn new(seed: u64, available_pieces: Vec<Piece>) -> (r: Self)
        ensures
            r@ == (LogicView {
                seed,
                pieces: available_pieces@,
                gravity: false,
                score_bonus_per_line: 0,
                bottomwell: false,
                run_mods: r@.run_mods,
                walls: None,
                tuning: None,
            }),
            r@.run_mods.deep_shaft_rows == 0 && r@.run_mods.ore_weight_points == 0
                && r@.run_mods.coin_weight_points == 0 && r@.run_mods.ore_score_bonus == 0
                && r@.run_mods.coin_score_bonus == 0 && r@.run_mods.ore_money_bonus == 0
                && r@.run_mods.coin_money_bonus == 0 && r@.run_mods.hole_patch_chance_bp == 0
                && r@.run_mods.hole_align_chance_bp == 0,
    {
        BlockLogic {
            seed,
            available_pieces,
            gravity_enabled: false,
            score_bonus_per_line: 0,
            bottomwell_enabled: false,
            bottomwell_run_mods: BottomwellRunMods::default(),
            depth_wall_defs_override: None,
            depth_wall_damage_tuning: None,
        }
    }

    pub fn with_gravity(self, enabled: bool) -> (r: Self)
        ensures
            r@ == (LogicView { gravity: enabled, ..self@ }),
    {
        BlockLogic { gravity_enabled: enabled, ..self }
    }

    pub fn with_score_bonus_per_line(self, bonus: u32) -> (r: Self)
        ensures
            r@ == (LogicView { score_bonus_per_line: bonus, ..self@ }),
    {
        BlockLogic { score_bonus_per_line: bonus, ..self }
    }

    pub fn with_bottomwell(self, enabled: bool) -> (r: Self)
        ensures
            r@ == (LogicView { bottomwell: enabled, ..self@ }),
    {
        BlockLogic { bottomwell_enabled: enabled, ..self }
    }

    pub fn with_bottomwell_run_mods(self, mods: BottomwellRunMods) -> (r: Self)
        ensures
            r@ == (LogicView { run_mods: mods, ..self@ }),
    {
        BlockLogic { bottomwell_run_mods: mods, ..self }
    }

    pub fn with_depth_wall_defs(self, defs: Vec<DepthWallDef>) -> (r: Self)
        ensures
            r@ == (LogicView { walls: Some(walls_view(defs@)), ..self@ }),
    {
        BlockLogic { depth_wall_defs_override: Some(defs), ..self }
    }

    pub fn with_depth_wall_damage_tuning(self, per_line_damage: u32, multi_bonus_percent: u32) -> (r: Self)
        ensures
            r@ == (LogicView { tuning: Some((per_line_damage, multi_bonus_percent)), ..self@ }),
    {
        BlockLogic { depth_wall_damage_tuning: Some((per_line_damage, multi_bonus_percent)), ..self }
    }
}


/// Applies the input's own effect to `core`; returns whether gravity may still run.
#[verifier::spinoff_prover]
#[verifier::rlimit(100)]
fn apply_input(core: &mut TetrisCore, input: InputAction) -> (r: bool)
    requires
        old(core).wf(),
        depth_headroom(old(core)@),
        old(core)@.pos.y <= i32::MAX - 2,
    ensures
        final(core).wf(),
        final(core)@ == spec_input(old(core)@, input).0,
        r == spec_input(old(core)@, input).1,
        r ==> final(core)@.earth_depth == old(core)@.earth_depth,
{
    proof {
        core.lemma_wf_model();
    }
    let ghost m = core@;
    match input {
        InputAction::Noop => true,
        InputAction::MoveLeft => {
            core.move_piece(Vec2i::new(-1, 0));
            proof {
                lemma_piece_ops_keep_depth(m, Vec2i { x: -1i32, y: 0 }, RotationDir::Cw);
            }
            true
        },
        InputAction::MoveRight => {
            core.move_piece(Vec2i::new(1, 0));
            proof {
                lemma_piece_ops_keep_depth(m, Vec2i { x: 1, y: 0 }, RotationDir::Cw);
            }
            true
        },
        InputAction::SoftDrop => {
            core.move_piece_down();
            false
        },
        InputAction::GravityTick { dt_ms } => {
            core.advance_with_gravity(dt_ms);
            false
        },
        InputAction::RotateCw => {
            core.rotate_piece(RotationDir::Cw);
            proof {
                lemma_piece_ops_keep_depth(m, Vec2i { x: 0, y: 0 }, RotationDir::Cw);
            }
            true
        },
        InputAction::RotateCcw => {
            core.rotate_piece(RotationDir::Ccw);
            proof {
                lemma_piece_ops_keep_depth(m, Vec2i { x: 0, y: 0 }, RotationDir::Ccw);
            }
            true
        },
        InputAction::Rotate180 => {
            core.rotate_piece(RotationDir::Half);
            proof {
                lemma_piece_ops_keep_depth(m, Vec2i { x: 0, y: 0 }, RotationDir::Half);
            }
            true
        },
        InputAction::HardDrop => {
            core.hard_drop();
            false
        },
        InputAction::Hold => {
            core.hold_piece();
            proof {
                lemma_piece_ops_keep_depth(m, Vec2i { x: 0, y: 0 }, RotationDir::Cw);
            }
            true
        },
    }
}

impl BlockLogic {
    /// The session a playtest starts with; see `spec_initial_core`.
    pub fn initial_state(&self) -> (r: GameState)
        requires
            spec_weight_sum(self@.pieces) <= u32::MAX,
        ensures
            r.tetris.wf(),
            r@ == (StateView {
                view: crate::headful::view_transitions::GameView::MainMenu,
                game: spec_initial_core(self@),
                skilltree: r@.skilltree,
                timer: r@.timer,
                gravity_interval: 500_000_000,
                gravity_elapsed: 0,
            }),
            r@.timer.elapsed == 0 && r@.timer.limit == 20_000_000_000,
            crate::skilltree::runtime::spec_default_runtime(r.skilltree),
    {
        let mut core = TetrisCore::new(self.seed);
        core.set_available_pieces(copy_pieces(&self.available_pieces));
        core.set_bottomwell_enabled(self.bottomwell_enabled);
        core.set_bottomwell_run_mods(self.bottomwell_run_mods);
        match &self.depth_wall_defs_override {
            Some(defs) => core.set_depth_wall_defs(clone_walls(defs)),
            None => {},
        }
        match self.depth_wall_damage_tuning {
            Some((per_line_damage, multi_bonus_percent)) => core.set_depth_wall_damage_tuning(
                per_line_damage,
                multi_bonus_percent,
            ),
            None => {},
        }
        core.initialize_game();
        GameState::new(core)
    }

    /// One step of play on a copy of `state`; see `spec_step`.
    pub fn step(&self, state: &GameState, input: InputAction) -> (r: GameState)
        requires
            state.tetris.wf(),
            depth_headroom(state@.game),
            state@.game.pos.y <= i32::MAX - 2,
        ensures
            r.tetris.wf(),
            r@ == (StateView {
                game: spec_step(
                    self@,
                    state@.game,
                    input,
                    min_int(state@.gravity_interval / 1_000_000, u32::MAX as int) as u32,
                ),
                ..state@
            }),
    {
        let mut next = state.clone();
        let prev_lines = state.tetris.lines_cleared();
        let allowed = apply_input(&mut next.tetris, input);
        let apply_gravity = self.gravity_enabled && allowed;
        if apply_gravity {
            next.tetris.advance_with_gravity(duration_to_ms_u32(state.gravity_interval));
        }
        next.tetris.advance_material_turn();
        let delta_lines = next.tetris.lines_cleared().saturating_sub(prev_lines);
        if delta_lines > 0 && self.score_bonus_per_line > 0 {
            let bonus = sat_mul_u32(self.score_bonus_per_line, delta_lines);
            next.tetris.add_score(bonus);
        }
        next
    }
}

/// The former name of the playtest rules.
pub type TetrisLogic = BlockLogic;

} // verus!
