use game::headful::frame_update::frame_end;
use game::headful::frame_update::frame_start;
use game::headful::input_adapter::{HorizontalDir, HorizontalRepeat};
use game::headful::keyboard::KeyFrame;
use game::headful::view_transitions::GameView;
use game::playtest::InputAction;
use game::debug::{
    line_rect_for_index, panel_rect_for_lines, status_color, timer_toggle_rect_for_lines, DebugHud,
    COLOR_TEXT, COLOR_TEXT_CRITICAL, COLOR_TEXT_WARN,
};
use game::gpu_renderer::{board_outline_rects, glyph_rows, outline_rects, text_pixel_squares, GlyphSquare};
use game::headful::frame_update::{
    advance_gravity_clock, click_skilltree_at_world, finish_round_if_time_up, GravityTicks,
};
use game::headful::run_tuning::start_run;
use game::headful::skilltree_camera::Rect;
use game::perf_budget::PerfBudgetStatus;
use game::piece::{Piece, Vec2i};
use game::playtest::BlockLogic;
use game::round_timer::RoundTimer;
use game::skilltree::{
    SkillEffect, SkillNodeDef, SkillTreeDef, SkillTreeEditorState, SkillTreeProgress, SkillTreeRuntime,
    SkillTreeSnapshot,
};
use game::state::GameState;
use game::tetris_core::TetrisCore;
use game::time_span::TimeSpan;

fn node(id: &str, pos: Vec2i, cost: u32, requires: Vec<&str>, effect: SkillEffect) -> SkillNodeDef {
    SkillNodeDef {
        id: id.to_string(),
        name: id.to_uppercase(),
        pos,
        shape: vec![Vec2i::new(0, 0), Vec2i::new(1, 0)],
        color: 1,
        cost,
        requires: requires.into_iter().map(|s| s.to_string()).collect(),
        effect,
    }
}

fn runtime(money: u32, unlocked: Vec<&str>) -> SkillTreeRuntime {
    SkillTreeRuntime::from_snapshot(SkillTreeSnapshot {
        def: SkillTreeDef {
            version: 1,
            nodes: vec![
                node("start", Vec2i::new(0, 0), 0, vec![], SkillEffect::NoEffect),
                node("time", Vec2i::new(0, 2), 5, vec!["start"], SkillEffect::AddRoundTimeSeconds { seconds: 3 }),
                node("bonus", Vec2i::new(4, 0), 7, vec!["start"], SkillEffect::AddScoreBonus { bonus: 2 }),
            ],
        },
        progress: SkillTreeProgress {
            version: 1,
            money,
            unlocked: unlocked.into_iter().map(|s| s.to_string()).collect(),
        },
        editor: SkillTreeEditorState::default(),
    })
}

fn session() -> GameState {
    GameState::new(TetrisCore::new(7))
}

#[test]
fn a_new_run_is_tuned_by_the_unlocked_skills() {
    let skilltree = runtime(0, vec!["start", "time", "bonus"]);
    let base = BlockLogic::new(3, Piece::all());
    let (logic, state) = start_run(base, skilltree.clone(), TimeSpan::from_secs(20), TimeSpan::from_millis(500), GameView::SkillTree);
    assert_eq!(state.view, GameView::SkillTree);
    assert_eq!(state.round_timer.limit(), TimeSpan::from_secs(23));
    assert_eq!(state.round_timer.elapsed(), TimeSpan::zero());
    assert_eq!(state.gravity_interval, TimeSpan::from_millis(500));
    assert_eq!(state.gravity_elapsed, TimeSpan::zero());
    assert_eq!(state.skilltree.progress.unlocked, skilltree.progress.unlocked);
    assert_eq!(state.tetris.score(), 0);
    let again = logic.initial_state();
    assert_eq!(again.tetris.current_piece(), state.tetris.current_piece());
}

#[test]
fn gravity_clock_runs_whole_intervals_and_keeps_the_rest() {
    let mut state = session();
    let ticks = advance_gravity_clock(&mut state, TimeSpan::from_millis(1250), true);
    assert_eq!(ticks, GravityTicks { count: 2, tick_ms: 500 });
    assert_eq!(state.gravity_elapsed, TimeSpan::from_millis(250));
    let ticks = advance_gravity_clock(&mut state, TimeSpan::from_millis(200), true);
    assert_eq!(ticks, GravityTicks { count: 0, tick_ms: 500 });
    assert_eq!(state.gravity_elapsed, TimeSpan::from_millis(450));
    let ticks = advance_gravity_clock(&mut state, TimeSpan::from_millis(50), true);
    assert_eq!(ticks.count, 1);
    assert_eq!(state.gravity_elapsed, TimeSpan::zero());
}

#[test]
fn gravity_clock_resets_outside_play() {
    let mut state = session();
    advance_gravity_clock(&mut state, TimeSpan::from_millis(300), true);
    let ticks = advance_gravity_clock(&mut state, TimeSpan::from_millis(900), false);
    assert_eq!(ticks, GravityTicks { count: 0, tick_ms: 0 });
    assert_eq!(state.gravity_elapsed, TimeSpan::zero());
}

#[test]
fn round_end_pays_the_run_and_resets_the_gravity_clock() {
    let mut state = session();
    state.round_timer = RoundTimer::new(TimeSpan::from_millis(100));
    state.tetris.add_score(250);
    state.gravity_elapsed = TimeSpan::from_millis(30);
    let money = state.skilltree.money();

    assert!(!finish_round_if_time_up(&mut state, TimeSpan::from_millis(60), true, false));
    assert_eq!(state.round_timer.elapsed(), TimeSpan::from_millis(60));
    assert!(!finish_round_if_time_up(&mut state, TimeSpan::from_millis(60), false, false));
    assert_eq!(state.round_timer.elapsed(), TimeSpan::from_millis(60));
    assert!(!finish_round_if_time_up(&mut state, TimeSpan::from_millis(60), true, true));
    assert_eq!(state.round_timer.elapsed(), TimeSpan::from_millis(60));

    assert!(finish_round_if_time_up(&mut state, TimeSpan::from_millis(60), true, false));
    assert_eq!(state.skilltree.money(), money + 25);
    assert_eq!(state.gravity_elapsed, TimeSpan::zero());
}

#[test]
fn clicking_a_node_buys_it_when_it_can() {
    let mut rt = runtime(6, vec!["start"]);
    assert!(click_skilltree_at_world(&mut rt, Vec2i::new(1, 2)));
    assert!(rt.is_unlocked("time"));
    assert_eq!(rt.money(), 1);
    assert!(click_skilltree_at_world(&mut rt, Vec2i::new(4, 0)));
    assert!(!rt.is_unlocked("bonus"));
    assert_eq!(rt.money(), 1);
    assert!(!click_skilltree_at_world(&mut rt, Vec2i::new(9, 9)));
}

#[test]
fn clicking_with_the_editor_on_uses_the_tool() {
    let mut rt = runtime(100, vec!["start"]);
    rt.editor.enabled = true;
    assert!(click_skilltree_at_world(&mut rt, Vec2i::new(4, 0)));
    assert_eq!(rt.editor.selected.as_deref(), Some("bonus"));
    assert!(!rt.is_unlocked("bonus"));
    assert_eq!(rt.money(), 100);
}

#[test]
fn glyphs_of_the_block_font() {
    assert_eq!(glyph_rows('0'), [0b111, 0b101, 0b101, 0b101, 0b111]);
    assert_eq!(glyph_rows('a'), glyph_rows('A'));
    assert_eq!(glyph_rows('A'), [0b010, 0b101, 0b111, 0b101, 0b101]);
    assert_eq!(glyph_rows('%'), glyph_rows('?'));
    assert_eq!(glyph_rows('\''), [0b010, 0b010, 0b000, 0b000, 0b000]);
}

#[test]
fn text_squares_follow_the_cursor() {
    let squares = text_pixel_squares(10, 20, "1", 2);
    assert_eq!(squares.len(), 8);
    assert_eq!(squares[0], GlyphSquare { x: 12, y: 20, size: 2 });
    assert_eq!(squares[1], GlyphSquare { x: 10, y: 22, size: 2 });
    assert_eq!(squares[7], GlyphSquare { x: 14, y: 28, size: 2 });

    let spaced = text_pixel_squares(0, 0, " .", 1);
    assert_eq!(spaced, vec![GlyphSquare { x: 5, y: 4, size: 1 }]);

    let two_lines = text_pixel_squares(3, 0, ".\n.", 0);
    assert_eq!(
        two_lines,
        vec![GlyphSquare { x: 4, y: 4, size: 1 }, GlyphSquare { x: 4, y: 10, size: 1 }]
    );
    assert!(text_pixel_squares(0, 0, "   ", 3).is_empty());
}

#[test]
fn outlines_of_rectangles() {
    assert!(outline_rects(Rect::new(1, 1, 0, 5)).is_empty());
    assert_eq!(
        outline_rects(Rect::new(2, 3, 4, 5)),
        vec![Rect::new(2, 3, 4, 1), Rect::new(2, 7, 4, 1), Rect::new(2, 3, 1, 5), Rect::new(5, 3, 1, 5)]
    );
    assert_eq!(outline_rects(Rect::new(2, 3, 1, 1)), vec![Rect::new(2, 3, 1, 1), Rect::new(2, 3, 1, 1)]);
}

#[test]
fn debug_hud_switches() {
    let mut hud = DebugHud::new();
    assert!(hud.is_enabled());
    assert!(!hud.is_minimized());
    assert!(!hud.round_timer_disabled());
    hud.toggle();
    assert!(!hud.is_enabled());
    hud.toggle_minimized();
    assert!(hud.is_minimized());
    hud.toggle_round_timer_disabled();
    assert!(hud.round_timer_disabled());
    assert_eq!(hud.timer_line(), "TIMER OFF [CLICK]");
    hud.set_round_timer_disabled(false);
    assert_eq!(hud.timer_line(), "TIMER ON [CLICK]");
}

#[test]
fn debug_hud_log_drops_repeats_and_keeps_the_latest_eight() {
    let mut hud = DebugHud::new();
    assert!(hud.log_lines().is_empty());
    hud.log_warning("slow frame");
    hud.log_warning("slow frame");
    assert_eq!(hud.log_lines(), vec!["LOGS".to_string(), "LOG WARN slow frame".to_string()]);
    for i in 0..10 {
        hud.log_warning(&format!("w{i}"));
    }
    let lines = hud.log_lines();
    assert_eq!(lines.len(), 9);
    assert_eq!(lines[1], "LOG WARN w2");
    assert_eq!(lines[8], "LOG WARN w9");
}

#[test]
fn debug_hud_panel_layout() {
    let lines = vec!["DEBUG [-]".to_string(), "FPS".to_string(), "TIMER ON [CLICK]".to_string()];
    let (panel, pad) = panel_rect_for_lines(800, 600, &lines);
    assert_eq!(pad, 12);
    assert_eq!(panel, Rect::new(10, 10, 16 * 8 + 24, 3 * 12 + 24));
    let (small, _) = panel_rect_for_lines(50, 40, &lines);
    assert_eq!(small, Rect::new(10, 10, 50, 40));

    assert_eq!(line_rect_for_index(panel, pad, 0), Some(Rect::new(22, 22, 128, 12)));
    assert_eq!(timer_toggle_rect_for_lines(panel, pad, &lines), Some(Rect::new(22, 46, 128, 12)));
    assert_eq!(line_rect_for_index(panel, pad, 10), None);
    assert_eq!(timer_toggle_rect_for_lines(panel, pad, &lines[..2].to_vec()), None);

    let mut hud = DebugHud::new();
    assert_eq!(hud.timer_toggle_rect(800, 600, &lines), Some(Rect::new(22, 46, 128, 12)));
    hud.toggle_minimized();
    assert_eq!(hud.timer_toggle_rect(800, 600, &lines), None);
    let body = vec!["A".to_string()];
    assert_eq!(hud.overlay_lines(body.clone()), vec!["DEBUG [+]".to_string()]);
    hud.toggle_minimized();
    assert_eq!(hud.overlay_lines(body), vec!["DEBUG [-]".to_string(), "A".to_string()]);
}

#[test]
fn budget_status_colors() {
    assert_eq!(status_color(PerfBudgetStatus::Normal), COLOR_TEXT);
    assert_eq!(status_color(PerfBudgetStatus::Warn), COLOR_TEXT_WARN);
    assert_eq!(status_color(PerfBudgetStatus::Critical), COLOR_TEXT_CRITICAL);
}

#[test]
fn board_frame_around_the_board() {
    let r = board_outline_rects(300, 400, Rect::new(10, 20, 100, 200));
    assert_eq!(
        r,
        vec![
            Rect::new(10, 19, 100, 1),
            Rect::new(10, 220, 100, 1),
            Rect::new(9, 20, 1, 200),
            Rect::new(110, 20, 1, 200),
            Rect::new(9, 19, 1, 1),
            Rect::new(110, 19, 1, 1),
            Rect::new(9, 220, 1, 1),
            Rect::new(110, 220, 1, 1),
        ]
    );
    let edge = board_outline_rects(100, 50, Rect::new(0, 0, 100, 40));
    assert_eq!(edge, vec![Rect::new(0, 40, 100, 1)]);
}

#[test]
fn losing_focus_pauses_a_run_and_clears_key_repeat() {
    let mut state = session();
    state.view = GameView::Tetris { paused: false };
    state.gravity_elapsed = TimeSpan::from_millis(40);
    let mut repeat = HorizontalRepeat::default();
    repeat.on_press(HorizontalDir::Left, TimeSpan::from_secs(1));
    let keys = KeyFrame { down: vec![], pressed: vec![], released: vec![] };
    let r = frame_start(&mut state, &keys, TimeSpan::from_secs(2), false, true, false, &mut repeat);
    assert!(r.paused_on_focus_loss);
    assert_eq!(state.view, GameView::Tetris { paused: true });
    assert_eq!(state.gravity_elapsed, TimeSpan::zero());
    assert!(!repeat.left_down);
    let k = r.keys.unwrap();
    assert_eq!(k.view_event, None);
    assert!(k.commands.is_empty());
    state.view = GameView::Tetris { paused: false };
    let r = frame_start(&mut state, &keys, TimeSpan::from_secs(2), false, false, true, &mut repeat);
    assert!(!r.paused_on_focus_loss);
    assert!(r.keys.is_none());
    assert_eq!(state.view, GameView::Tetris { paused: false });
}

#[test]
fn frame_end_runs_repeat_round_and_gravity_in_order() {
    let mut state = session();
    state.view = GameView::Tetris { paused: false };
    state.round_timer = RoundTimer::new(TimeSpan::from_millis(1000));
    let mut repeat = HorizontalRepeat::default();
    let t0 = TimeSpan::from_secs(10);
    repeat.on_press(HorizontalDir::Right, t0);
    let later = t0.saturating_add(TimeSpan::from_millis(200));
    let r = frame_end(&mut state, later, TimeSpan::from_millis(600), false, &mut repeat);
    assert_eq!(r.repeat_action, Some(InputAction::MoveRight));
    assert!(!r.round_ended);
    assert_eq!(r.gravity, GravityTicks { count: 1, tick_ms: 500 });
    assert_eq!(state.gravity_elapsed, TimeSpan::from_millis(100));
    let r = frame_end(&mut state, later, TimeSpan::from_millis(600), false, &mut repeat);
    assert!(r.round_ended);
    assert_eq!(state.view, GameView::GameOver);
    assert_eq!(r.gravity.count, 0);
    assert_eq!(state.gravity_elapsed, TimeSpan::zero());
    assert!(!repeat.right_down);
    let r = frame_end(&mut state, later, TimeSpan::from_millis(600), false, &mut repeat);
    assert_eq!(r.repeat_action, None);
    assert!(!r.round_ended);
}
