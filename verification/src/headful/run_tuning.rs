//! How the unlocked skills tune a run: round length, gravity speed, score bonus and the
//! bottomwell modifiers.
use vstd::prelude::*;

use crate::playtest::{spec_initial_core, BlockLogic, LogicView};
use crate::headful::view_transitions::GameView;
use crate::round_timer::TimerView;
use crate::skilltree::runtime::spec_run_mods;
use crate::skilltree::{SkillTreeRunMods, SkillTreeRuntime};
use crate::state::{GameState, StateView};
use crate::tetris_core::{spec_weight_sum, strings_view, BottomwellRunMods};
use crate::time_span::{max_total, TimeSpan, NANOS_PER_MILLI, NANOS_PER_SEC};

verus! {

/// Round length, gravity interval and score bonus of one run.
#[derive(Debug, Clone, Copy, PartialEq, Eq)]
pub struct RunTuning {
    pub round_limit: TimeSpan,
    pub gravity_interval: TimeSpan,
    pub score_bonus_per_line: u32,
}

/// The gravity interval in milliseconds for a base interval of `base_ms` milliseconds made
/// `faster_percent` percent faster: at most 95 percent, rounded down, never under 25.
pub open spec fn spec_gravity_ms(base_ms: int, faster_percent: u32) -> int {
    let pct: int = if faster_percent < 95 { faster_percent as int } else { 95 };
    let b: int = (base_ms as u64) as int;
    let prod: int = if b * (100 - pct) > u64::MAX { u64::MAX as int } else { b * (100 - pct) };
    let ms: int = prod / 100;
    if ms < 25 { 25 } else { ms }
}

/// The base interval made `faster_percent` percent faster (10 percent makes 500 ms 450 ms);
/// see `spec_gravity_ms`.
pub fn gravity_interval_from_percent(base: TimeSpan, faster_percent: u32) -> (r: TimeSpan)
    ensures
        r@ == spec_gravity_ms(base@ / NANOS_PER_MILLI as int, faster_percent) * NANOS_PER_MILLI,
{
    let pct: u64 = if faster_percent < 95 { faster_percent as u64 } else { 95 };
    let base_ms: u64 = base.as_millis() as u64;
    let prod: u64 = match base_ms.checked_mul(100 - pct) {
        Some(p) => p,
        None => u64::MAX,
    };
    let ms = prod / 100;
    TimeSpan::from_millis(if ms < 25 { 25 } else { ms })
}

/// The round limit in nanoseconds for a base of `base` nanoseconds lengthened by `extra_secs`
/// seconds, at most the largest span.
pub open spec fn spec_tuned_round(base: int, extra_secs: u32) -> int {
    if base + extra_secs * NANOS_PER_SEC > max_total() {
        max_total()
    } else {
        base + extra_secs * NANOS_PER_SEC
    }
}

/// The tuning of a run: the round lengthened by the extra seconds (saturating), gravity made
/// faster (see `gravity_interval_from_percent`), and the score bonus per line.
pub fn run_tuning_from_mods(base_round_limit: TimeSpan, base_gravity_interval: TimeSpan, mods: SkillTreeRunMods) -> (r: RunTuning)
    ensures
        r.round_limit@ == spec_tuned_round(base_round_limit@, mods.extra_round_time_seconds),
        r.gravity_interval@ == spec_gravity_ms(base_gravity_interval@ / NANOS_PER_MILLI as int, mods.gravity_faster_percent) * NANOS_PER_MILLI,
        r.score_bonus_per_line == mods.score_bonus_per_line,
{
    RunTuning {
        round_limit: base_round_limit.saturating_add(TimeSpan::from_secs(mods.extra_round_time_seconds as u64)),
        gravity_interval: gravity_interval_from_percent(base_gravity_interval, mods.gravity_faster_percent),
        score_bonus_per_line: mods.score_bonus_per_line,
    }
}

/// The bottomwell modifiers among the skill modifiers.
pub open spec fn spec_bottomwell_mods(mods: SkillTreeRunMods) -> BottomwellRunMods {
    BottomwellRunMods {
            deep_shaft_rows: mods.deep_shaft_rows,
            ore_weight_points: mods.ore_weight_points,
            coin_weight_points: mods.coin_weight_points,
            ore_score_bonus: mods.ore_score_bonus,
            coin_score_bonus: mods.coin_score_bonus,
            ore_money_bonus: mods.ore_money_bonus,
            coin_money_bonus: mods.coin_money_bonus,
            hole_patch_chance_bp: mods.hole_patch_chance_bp,
            hole_align_chance_bp: mods.hole_align_chance_bp,
    }
}

/// The bottomwell modifiers among the skill modifiers; see `spec_bottomwell_mods`.
pub fn bottomwell_run_mods_from_skill_mods(mods: SkillTreeRunMods) -> (r: BottomwellRunMods)
    ensures
        r == spec_bottomwell_mods(mods),
{
    BottomwellRunMods {
        deep_shaft_rows: mods.deep_shaft_rows,
        ore_weight_points: mods.ore_weight_points,
        coin_weight_points: mods.coin_weight_points,
        ore_score_bonus: mods.ore_score_bonus,
        coin_score_bonus: mods.coin_score_bonus,
        ore_money_bonus: mods.ore_money_bonus,
        coin_money_bonus: mods.coin_money_bonus,
        hole_patch_chance_bp: mods.hole_patch_chance_bp,
        hole_align_chance_bp: mods.hole_align_chance_bp,
    }
}

/// The modifiers of the skills unlocked in `skilltree`.
pub open spec fn spec_skill_mods(skilltree: SkillTreeRuntime) -> SkillTreeRunMods {
    spec_run_mods(skilltree.def@.nodes, strings_view(skilltree.progress.unlocked@))
}

/// A fresh run as a reset starts it: the base rules given the skill tree's score bonus per
/// line and bottomwell modifiers, and their first session, which keeps the screen `view`,
/// carries the skill tree and has the round limit and gravity interval tuned by the unlocked
/// skills (see `run_tuning_from_mods`).
pub fn start_run(
    base_logic: BlockLogic,
    skilltree: SkillTreeRuntime,
    base_round_limit: TimeSpan,
    base_gravity_interval: TimeSpan,
    view: GameView,
) -> (r: (BlockLogic, GameState))
    requires
        spec_weight_sum(base_logic@.pieces) <= u32::MAX,
    ensures
        r.0@ == (LogicView {
            score_bonus_per_line: spec_skill_mods(skilltree).score_bonus_per_line,
            run_mods: spec_bottomwell_mods(spec_skill_mods(skilltree)),
            ..base_logic@
        }),
        r.1.tetris.wf(),
        r.1.skilltree == skilltree,
        r.1@ == (StateView {
            view,
            game: spec_initial_core(r.0@),
            skilltree: skilltree@,
            timer: TimerView {
                elapsed: 0,
                limit: spec_tuned_round(base_round_limit@, spec_skill_mods(skilltree).extra_round_time_seconds),
            },
            gravity_interval: spec_gravity_ms(
                base_gravity_interval@ / NANOS_PER_MILLI as int,
                spec_skill_mods(skilltree).gravity_faster_percent,
            ) * NANOS_PER_MILLI,
            gravity_elapsed: 0,
        }),
{
    let mods = skilltree.run_mods();
    let tuning = run_tuning_from_mods(base_round_limit, base_gravity_interval, mods);
    let logic = base_logic.with_score_bonus_per_line(tuning.score_bonus_per_line).with_bottomwell_run_mods(
        bottomwell_run_mods_from_skill_mods(mods),
    );
    let first = logic.initial_state();
    let mut state = GameState::with_runtime(first.tetris, skilltree, tuning.round_limit, tuning.gravity_interval);
    state.view = view;
    (logic, state)
}

} // verus!
