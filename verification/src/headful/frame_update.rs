//! The per-frame decisions of the windowed client: the gravity clock, the end of a round, and
//! a click on the skill-tree grid. The client carries out what they decide.
use vstd::prelude::*;

use crate::headful::input_adapter::{apply_editor_tool_at_world, hit_id, spec_tool_applied, tool_action_fits};
use crate::headful::skilltree_camera::{scan_fits, skilltree_node_at_world};
use crate::headful::input_adapter::{spec_next_repeat, HorizontalRepeat, RepeatView};
use crate::headful::keyboard::{
    cleared_repeat, keyboard_frame_step, spec_key_plan, spec_keyboard_step, KeyFrame, KeyboardOutcome,
};
use crate::headful::editor_keys::{editor_frame_done, editor_key_frame, EditorKeysOutcome};
use crate::headful::view_transitions::{game_over, money_earned_from_run, spec_run_earnings, GameView};
use crate::playtest::InputAction;
use crate::piece::Vec2i;
use crate::playtest::duration_to_ms_u32;
use crate::round_timer::spec_tick;
use crate::skilltree::runtime::{sat_add, spec_node_index, spec_node_state};
use crate::skilltree::{NodeState, SkillTreeRuntime};
use crate::state::{GameState, StateView};
use crate::tetris_core::{line_clear_active, min_int, strings_view};
use crate::time_span::{lemma_span_nonneg, max_total, TimeSpan};

verus! {

/// The gravity ticks a frame runs: `count` ticks of `tick_ms` milliseconds each.
#[derive(Debug, Clone, Copy, PartialEq, Eq, Structural)]
pub struct GravityTicks {
    pub count: usize,
    pub tick_ms: u32,
}

/// Whole milliseconds of `ns` nanoseconds, at most `u32::MAX`.
pub open spec fn ms_of(ns: int) -> u32 {
    min_int(ns / 1_000_000, u32::MAX as int) as u32
}

/// The gravity clock after `dt` more nanoseconds: the sum, at most the largest span.
pub open spec fn clock_after(elapsed: int, dt: int) -> int {
    if elapsed + dt > max_total() { max_total() } else { elapsed + dt }
}

/// Advances the gravity clock of `state` by `dt` and says which gravity ticks the frame runs.
/// While not `playing` the clock is reset and nothing runs. While a line clear animates, one
/// tick of the frame's own whole milliseconds runs (none for a frame under a millisecond) and
/// the clock stays. Otherwise `dt` is added to the clock (saturating), every whole gravity
/// interval on it becomes a tick of the interval's whole milliseconds (at most `usize::MAX`
/// ticks), and the remainder stays on the clock.
pub fn advance_gravity_clock(state: &mut GameState, dt: TimeSpan, playing: bool) -> (r: GravityTicks)
    requires
        old(state)@.gravity_interval > 0,
    ensures
        !playing ==> r == (GravityTicks { count: 0, tick_ms: 0 })
            && final(state)@ == (StateView { gravity_elapsed: 0, ..old(state)@ })
            && final(state).tetris == old(state).tetris
            && final(state).skilltree == old(state).skilltree,
        playing && line_clear_active(old(state)@.game) ==> r == (GravityTicks {
            count: if ms_of(dt@) > 0 { 1 } else { 0 },
            tick_ms: ms_of(dt@),
        }) && *final(state) == *old(state),
        playing && !line_clear_active(old(state)@.game) ==> ({
            let total = clock_after(old(state)@.gravity_elapsed, dt@);
            let interval = old(state)@.gravity_interval;
            &&& r == (GravityTicks {
                count: min_int(total / interval, usize::MAX as int) as usize,
                tick_ms: ms_of(interval),
            })
            &&& final(state)@ == (StateView { gravity_elapsed: total % interval, ..old(state)@ })
            &&& final(state).tetris == old(state).tetris
            &&& final(state).skilltree == old(state).skilltree
        }),
{
    if !playing {
        state.gravity_elapsed = TimeSpan::zero();
        return GravityTicks { count: 0, tick_ms: 0 };
    }
    if state.tetris.is_line_clear_active() {
        let ms = duration_to_ms_u32(dt);
        return GravityTicks { count: if ms > 0 { 1 } else { 0 }, tick_ms: ms };
    }
    let interval = state.gravity_interval;
    let tick_ms = duration_to_ms_u32(interval);
    let mut elapsed = state.gravity_elapsed.saturating_add(dt);
    proof {
        lemma_span_nonneg(elapsed);
    }
    let ghost total = elapsed@;
    let ghost mut k: int = 0;
    let mut count: usize = 0;
    while elapsed.at_least(&interval)
        invariant
            interval@ > 0,
            0 <= elapsed@,
            0 <= k,
            elapsed@ + k * interval@ == total,
            count == min_int(k, usize::MAX as int),
        decreases elapsed@,
    {
        elapsed = elapsed.saturating_sub(interval);
        if count < usize::MAX {
            count = count + 1;
        }
        proof {
            lemma_span_nonneg(elapsed);
            assert((k + 1) * interval@ == k * interval@ + interval@) by (nonlinear_arith);
            k = k + 1;
        }
    }
    proof {
        vstd::arithmetic::div_mod::lemma_fundamental_div_mod_converse(total, interval@, k, elapsed@);
    }
    state.gravity_elapsed = elapsed;
    GravityTicks { count, tick_ms }
}

/// The round clock of a frame. Unless the timer is switched off, `dt` ticks the round timer
/// while `playing` (see `RoundTimer::tick_if_running`); when the time is then up during play,
/// the run's earnings (`money_earned_from_run`) go to the skill tree's money and the gravity
/// clock is reset. Returns whether the round ended, for the caller to show the game-over view.
pub fn finish_round_if_time_up(state: &mut GameState, dt: TimeSpan, playing: bool, timer_disabled: bool) -> (r: bool)
    requires
        spec_run_earnings(old(state)@.game) <= u32::MAX,
    ensures
        timer_disabled ==> !r && *final(state) == *old(state),
        !timer_disabled ==> ({
            let t = spec_tick(old(state)@.timer, dt@, playing);
            &&& r == (playing && t.elapsed >= t.limit)
            &&& final(state).view == old(state).view
            &&& final(state).tetris == old(state).tetris
            &&& final(state)@.timer == t
            &&& final(state)@.gravity_interval == old(state)@.gravity_interval
            &&& final(state)@.gravity_elapsed == if r { 0 } else { old(state)@.gravity_elapsed }
            &&& final(state).skilltree.progress.money == if r {
                sat_add(old(state).skilltree.progress.money, spec_run_earnings(old(state)@.game) as u32)
            } else {
                old(state).skilltree.progress.money
            }
            &&& final(state).skilltree.progress.unlocked == old(state).skilltree.progress.unlocked
            &&& final(state).skilltree.progress.version == old(state).skilltree.progress.version
            &&& final(state).skilltree.def == old(state).skilltree.def
            &&& final(state).skilltree.editor == old(state).skilltree.editor
            &&& final(state).skilltree.editor_history == old(state).skilltree.editor_history
        }),
{
    if timer_disabled {
        return false;
    }
    state.round_timer.tick_if_running(dt, playing);
    if playing && state.round_timer.is_up() {
        let earned = money_earned_from_run(state);
        if earned > 0 {
            state.skilltree.add_money(earned);
        }
        state.gravity_elapsed = TimeSpan::zero();
        true
    } else {
        false
    }
}

/// A click on the skill-tree grid at the world cell `world`. With the editor on, its tool
/// acts there (see `apply_editor_tool_at_world`). Otherwise the first node with a cell there
/// is bought if it can be (see `SkillTreeRuntime::try_buy`). Returns whether a click sound is
/// due: the tool did something, or a node was hit.
pub fn click_skilltree_at_world(skilltree: &mut SkillTreeRuntime, world: Vec2i) -> (r: bool)
    requires
        scan_fits(old(skilltree).def@.nodes, world),
        old(skilltree).editor.enabled ==> old(skilltree).wf() && tool_action_fits(*old(skilltree), world),
    ensures
        old(skilltree).editor.enabled ==> final(skilltree).wf() && spec_tool_applied(
            *old(skilltree),
            *final(skilltree),
            r,
            world,
        ),
        !old(skilltree).editor.enabled ==> match hit_id(*old(skilltree), world) {
            None => !r && *final(skilltree) == *old(skilltree),
            Some(id) => r && match spec_node_index(old(skilltree).def@.nodes, id) {
                Some(i) => if spec_node_state(strings_view(old(skilltree).progress.unlocked@), old(skilltree).def@.nodes[i])
                    == NodeState::Available && old(skilltree).progress.money >= old(skilltree).def@.nodes[i].cost {
                    &&& final(skilltree).progress.money == old(skilltree).progress.money - old(skilltree).def@.nodes[i].cost
                    &&& strings_view(final(skilltree).progress.unlocked@) == strings_view(old(skilltree).progress.unlocked@).push(id)
                    &&& final(skilltree).progress.version == old(skilltree).progress.version
                    &&& final(skilltree).def == old(skilltree).def
                    &&& final(skilltree).editor == old(skilltree).editor
                    &&& final(skilltree).editor_history == old(skilltree).editor_history
                } else {
                    *final(skilltree) == *old(skilltree)
                },
                None => *final(skilltree) == *old(skilltree),
            },
        },
{
    if skilltree.editor.enabled {
        return apply_editor_tool_at_world(skilltree, world);
    }
    let hit: Option<String> = match skilltree_node_at_world(skilltree, world) {
        Some(s) => Some(s.to_owned()),
        None => None,
    };
    match hit {
        Some(id) => {
            skilltree.try_buy(id.as_str());
            true
        },
        None => false,
    }
}

// ---- A frame, in two halves around the client's pointer handling -----------------------------

/// What the first half of a frame decided: whether focus loss paused the run, and the
/// outcome of the keys (none while the settings are open).
#[derive(Debug)]
pub struct FrameStart {
    pub paused_on_focus_loss: bool,
    pub keys: Option<KeyboardOutcome>,
    pub editor: Option<EditorKeysOutcome>,
}

/// Whether losing focus pauses the run: the window is not focused, auto-pause is on and a
/// run is being played.
pub open spec fn focus_pauses(view: GameView, focused: bool, auto_pause: bool) -> bool {
    !focused && auto_pause && view == (GameView::Tetris { paused: false })
}

/// The first half of a frame. When the window has lost focus, the auto-repeat is cleared
/// and, with auto-pause on, a run being played pauses and its gravity clock is reset; then,
/// unless the settings are open, the keys are read on the screen as it now is: the result
/// and the session and auto-repeat afterwards are those of `keyboard_frame_step` (see
/// `spec_keyboard_step`); when the keys are the skill-tree editor's own, the editor then reads
/// them (see `editor_frame_done`). The game, round timer and gravity interval do not change.
pub fn frame_start(
    state: &mut GameState,
    keys: &KeyFrame,
    now: TimeSpan,
    focused: bool,
    auto_pause: bool,
    settings_open: bool,
    repeat: &mut HorizontalRepeat,
) -> (r: FrameStart)
    requires
        old(state).skilltree.wf(),
    ensures
        final(state).skilltree.wf(),
        ({
            let paused = focus_pauses(old(state).view, focused, auto_pause);
            let v1 = if paused { GameView::Tetris { paused: true } } else { old(state).view };
            let e1 = if paused { 0 } else { old(state)@.gravity_elapsed };
            let r1 = if focused { old(repeat)@ } else { cleared_repeat() };
            &&& r.paused_on_focus_loss == paused
            &&& settings_open <==> r.keys is None
            &&& settings_open ==> final(state).view == v1 && final(state).skilltree == old(state).skilltree
                && final(state)@.gravity_elapsed == e1 && final(repeat)@ == r1
            &&& r.editor is Some <==> (r.keys matches Some(k) && k.editor_keys)
            &&& r.editor matches Some(e) ==> editor_frame_done(old(state).skilltree, *keys, final(state).skilltree, e)
            &&& r.keys matches Some(k) ==> spec_keyboard_step(
                v1,
                old(state).skilltree,
                e1,
                r1,
                *keys,
                now@,
                final(state).view,
                if k.editor_keys { old(state).skilltree } else { final(state).skilltree },
                final(state)@.gravity_elapsed,
                final(repeat)@,
                k.commands@,
                k.editor_keys,
            ) && k.view_event == spec_key_plan(
                v1,
                old(state).skilltree.editor.enabled,
                old(state).skilltree.editor.search_open,
                keys.pressed@,
            ).event
            &&& final(state).tetris == old(state).tetris
            &&& final(state).round_timer == old(state).round_timer
            &&& final(state).gravity_interval == old(state).gravity_interval
        }),
{
    let mut paused = false;
    if !focused {
        repeat.clear();
        if auto_pause && state.view == (GameView::Tetris { paused: false }) {
            state.view = GameView::Tetris { paused: true };
            state.gravity_elapsed = TimeSpan::zero();
            paused = true;
        }
    }
    if settings_open {
        return FrameStart { paused_on_focus_loss: paused, keys: None, editor: None };
    }
    let k = keyboard_frame_step(state, keys, now, repeat);
    let editor = if k.editor_keys {
        Some(editor_key_frame(&mut state.skilltree, keys))
    } else {
        None
    };
    FrameStart { paused_on_focus_loss: paused, keys: Some(k), editor }
}

/// What the second half of a frame decided: the auto-repeat's move due now, whether the round
/// ended, and the gravity ticks to run.
#[derive(Debug)]
pub struct FrameEnd {
    pub repeat_action: Option<InputAction>,
    pub round_ended: bool,
    pub gravity: GravityTicks,
}

/// The second half of a frame, after the client's pointer handling. While a run is played,
/// the auto-repeat's move due at `now` comes out (see `HorizontalRepeat::next_repeat_action`).
/// Then the round clock: unless switched off, `dt` ticks it while playing; when the time is
/// then up during play, the run's earnings go to the money, the screen moves to game over,
/// the auto-repeat is cleared and the gravity clock reset. Then the gravity clock, on the
/// screen as it now is (see `advance_gravity_clock`): outside play it is reset; while a line
/// clear animates one tick of the frame's whole milliseconds runs; otherwise every whole
/// interval of the clock plus `dt` becomes a tick, the rest staying on the clock.
pub fn frame_end(
    state: &mut GameState,
    now: TimeSpan,
    dt: TimeSpan,
    timer_disabled: bool,
    repeat: &mut HorizontalRepeat,
) -> (r: FrameEnd)
    requires
        old(state)@.gravity_interval > 0,
        spec_run_earnings(old(state)@.game) <= u32::MAX,
    ensures
        ({
            let playing = old(state).view == (GameView::Tetris { paused: false });
            let t = spec_tick(old(state)@.timer, dt@, playing);
            let ended = !timer_disabled && playing && t.elapsed >= t.limit;
            let interval = old(state)@.gravity_interval;
            let total = clock_after(old(state)@.gravity_elapsed, dt@);
            &&& r.round_ended == ended
            &&& playing ==> r.repeat_action == spec_next_repeat(old(repeat)@, now@).1
            &&& !playing ==> r.repeat_action is None
            &&& final(repeat)@ == if ended {
                cleared_repeat()
            } else if playing {
                spec_next_repeat(old(repeat)@, now@).0
            } else {
                old(repeat)@
            }
            &&& final(state)@.timer == if timer_disabled { old(state)@.timer } else { t }
            &&& final(state).view == if ended { GameView::GameOver } else { old(state).view }
            &&& ended ==> r.gravity == (GravityTicks { count: 0, tick_ms: 0 }) && final(state)@.gravity_elapsed == 0
                && final(state).skilltree.progress.money == sat_add(
                    old(state).skilltree.progress.money,
                    spec_run_earnings(old(state)@.game) as u32,
                )
                && final(state).skilltree.progress.unlocked == old(state).skilltree.progress.unlocked
                && final(state).skilltree.progress.version == old(state).skilltree.progress.version
                && final(state).skilltree.def == old(state).skilltree.def
                && final(state).skilltree.editor == old(state).skilltree.editor
                && final(state).skilltree.editor_history == old(state).skilltree.editor_history
            &&& !ended ==> final(state).skilltree == old(state).skilltree
            &&& !ended && !playing ==> r.gravity == (GravityTicks { count: 0, tick_ms: 0 })
                && final(state)@.gravity_elapsed == 0
            &&& !ended && playing && line_clear_active(old(state)@.game) ==> r.gravity == (GravityTicks {
                count: if ms_of(dt@) > 0 { 1 } else { 0 },
                tick_ms: ms_of(dt@),
            }) && final(state)@.gravity_elapsed == old(state)@.gravity_elapsed
            &&& !ended && playing && !line_clear_active(old(state)@.game) ==> r.gravity == (GravityTicks {
                count: min_int(total / interval, usize::MAX as int) as usize,
                tick_ms: ms_of(interval),
            }) && final(state)@.gravity_elapsed == total % interval
            &&& final(state).tetris == old(state).tetris
            &&& final(state)@.gravity_interval == old(state)@.gravity_interval
        }),
{
    let playing = state.view.is_tetris_playing();
    let repeat_action = if playing { repeat.next_repeat_action(now) } else { None };
    let ended = finish_round_if_time_up(state, dt, playing, timer_disabled);
    if ended {
        state.view = game_over(state.view).next_view;
        repeat.clear();
    }
    let gravity = advance_gravity_clock(state, dt, state.view.is_tetris_playing());
    FrameEnd { repeat_action, round_ended: ended, gravity }
}

} // verus!
