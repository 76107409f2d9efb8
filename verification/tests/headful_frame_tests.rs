use game::debug::DebugHud;
use game::headful::frame_update::{advance_gravity_clock, finish_round_if_time_up};
use game::headful::input_adapter::HorizontalRepeat;
use game::headful::view_transitions::{game_over, GameView};
use game::piece::{Piece, Vec2i};
use game::playtest::{BlockLogic, InputAction};
use game::round_timer::RoundTimer;
use game::skilltree::SkillTreeRuntime;
use game::state::{default_gravity_interval, default_round_limit, GameState};
use game::tetris_core::{BOARD_HEIGHT, BOARD_WIDTH};
use game::time_span::TimeSpan;

/// The session of the windowed client, driven through the library's frame decisions.
struct Harness {
    logic: BlockLogic,
    state: GameState,
    repeat: HorizontalRepeat,
    debug_hud: DebugHud,
}

fn make_test_headful(view: GameView) -> Harness {
    let logic = BlockLogic::new(0, Piece::all()).with_bottomwell(true);
    let mut state = logic.initial_state();
    state.view = view;
    state.skilltree = SkillTreeRuntime::from_defaults();
    state.round_timer = RoundTimer::new(default_round_limit());
    state.gravity_interval = default_gravity_interval();
    state.gravity_elapsed = TimeSpan::zero();
    Harness { logic, state, repeat: HorizontalRepeat::default(), debug_hud: DebugHud::new() }
}

impl Harness {
    fn step(&mut self, action: InputAction) {
        self.state = self.logic.step(&self.state, action);
    }

    fn apply_gravity_steps(&mut self, dt: TimeSpan) {
        let playing = self.state.view.is_tetris_playing();
        let ticks = advance_gravity_clock(&mut self.state, dt, playing);
        for _ in 0..ticks.count {
            self.step(InputAction::GravityTick { dt_ms: ticks.tick_ms });
        }
    }

    fn update_round_timer_and_game_over(&mut self, dt: TimeSpan) {
        let playing = self.state.view.is_tetris_playing();
        let disabled = self.debug_hud.round_timer_disabled();
        if finish_round_if_time_up(&mut self.state, dt, playing, disabled) {
            self.state.view = game_over(self.state.view).next_view;
            self.repeat.clear();
        }
    }
}

fn ms(n: u64) -> TimeSpan {
    TimeSpan::from_millis(n)
}

fn setup_grounded_lock_delay_case(h: &mut Harness) {
    let state = &mut h.state;
    state.view = GameView::Tetris { paused: false };
    state.gravity_interval = ms(100);
    state.gravity_elapsed = TimeSpan::zero();
    state.tetris.set_available_pieces(vec![Piece::O]);
    for y in 0..BOARD_HEIGHT {
        for x in 0..BOARD_WIDTH {
            state.tetris.set_cell(x, y, 0);
        }
    }
    state.tetris.set_current_piece_for_test(Piece::O, Vec2i::new(4, 1), 0);
}

#[test]
fn gravity_dt_integration_locks_after_expected_timing() {
    let mut h = make_test_headful(GameView::Tetris { paused: false });
    setup_grounded_lock_delay_case(&mut h);

    h.apply_gravity_steps(ms(400));
    assert_eq!(h.state.tetris.current_piece_pos(), Vec2i::new(4, 1));
    assert_eq!(h.state.tetris.grounded_lock_ms(), 300);

    h.apply_gravity_steps(ms(100));
    assert_eq!(h.state.tetris.current_piece_pos(), Vec2i::new(4, 1));
    assert_eq!(h.state.tetris.grounded_lock_ms(), 400);

    h.apply_gravity_steps(ms(100));
    assert_eq!(h.state.tetris.current_piece_pos(), Vec2i::new(4, h.state.tetris.board().len() as i32));
    assert_eq!(h.state.tetris.grounded_lock_ms(), 0);
}

#[test]
fn paused_state_does_not_advance_lock_delay() {
    let mut h = make_test_headful(GameView::Tetris { paused: false });
    setup_grounded_lock_delay_case(&mut h);

    h.state.view = GameView::Tetris { paused: true };
    h.apply_gravity_steps(ms(500));
    assert_eq!(h.state.tetris.current_piece_pos(), Vec2i::new(4, 1));
    assert_eq!(h.state.tetris.grounded_lock_ms(), 0);

    h.state.view = GameView::Tetris { paused: false };
    h.apply_gravity_steps(ms(400));
    assert_eq!(h.state.tetris.grounded_lock_ms(), 300);

    h.state.view = GameView::Tetris { paused: true };
    h.apply_gravity_steps(ms(1000));
    assert_eq!(h.state.tetris.current_piece_pos(), Vec2i::new(4, 1));
    assert_eq!(h.state.tetris.grounded_lock_ms(), 300);

    h.state.view = GameView::Tetris { paused: false };
    h.apply_gravity_steps(ms(200));
    assert_eq!(h.state.tetris.current_piece_pos(), Vec2i::new(4, h.state.tetris.board().len() as i32));
}

#[test]
fn grounded_move_stalls_even_when_gravity_tick_is_due_same_frame() {
    let mut h = make_test_headful(GameView::Tetris { paused: false });
    setup_grounded_lock_delay_case(&mut h);
    {
        let state = &mut h.state;
        state.gravity_interval = ms(500);
        state.gravity_elapsed = ms(499);
        for y in 0..=1 {
            for x in 0..BOARD_WIDTH {
                state.tetris.set_cell(x, y, 0);
            }
        }
        state.tetris.set_current_piece_for_test(Piece::O, Vec2i::new(4, 1), 0);
    }

    h.step(InputAction::MoveRight);
    h.apply_gravity_steps(ms(1));

    assert_eq!(h.state.tetris.current_piece_pos(), Vec2i::new(5, 1));
    assert!(
        h.state.tetris.current_piece().is_some(),
        "grounded move should preserve active piece even if gravity tick becomes due immediately"
    );
    assert_eq!(h.state.tetris.board()[0][5], 0, "stalling move should not lock piece into board on same frame");
}

#[test]
fn debug_hud_timer_toggle_disables_timer_tick_and_timeout() {
    let mut h = make_test_headful(GameView::Tetris { paused: false });
    h.state.round_timer = RoundTimer::new(ms(200));

    h.debug_hud.toggle_round_timer_disabled();
    h.update_round_timer_and_game_over(TimeSpan::from_secs(1));
    assert!(
        matches!(h.state.view, GameView::Tetris { paused: false }),
        "timer-disabled mode should not trigger timeout game over"
    );
    assert_eq!(h.state.round_timer.elapsed(), TimeSpan::zero(), "timer-disabled mode should not advance timer elapsed");

    h.debug_hud.toggle_round_timer_disabled();
    h.update_round_timer_and_game_over(ms(250));
    assert!(matches!(h.state.view, GameView::GameOver), "re-enabled timer should restore timeout game over behavior");
}

#[test]
fn gravity_timeline_is_deterministic_for_same_inputs() {
    fn run_timeline() -> (game::tetris_core::TetrisSnapshot, TimeSpan, u32) {
        let mut h = make_test_headful(GameView::Tetris { paused: false });
        setup_grounded_lock_delay_case(&mut h);

        h.apply_gravity_steps(ms(250));
        h.step(InputAction::MoveRight);
        h.apply_gravity_steps(ms(250));
        h.state.view = GameView::Tetris { paused: true };
        h.apply_gravity_steps(ms(500));
        h.state.view = GameView::Tetris { paused: false };
        h.apply_gravity_steps(ms(200));

        (h.state.tetris.snapshot(), h.state.gravity_elapsed, h.state.tetris.grounded_lock_ms())
    }

    let first = run_timeline();
    let second = run_timeline();
    assert_eq!(first, second);
}

#[test]
fn line_clear_delay_progresses_with_frame_dt_instead_of_waiting_for_gravity_interval() {
    let mut h = make_test_headful(GameView::Tetris { paused: false });
    {
        let state = &mut h.state;
        state.view = GameView::Tetris { paused: false };
        state.gravity_interval = ms(500);
        state.gravity_elapsed = TimeSpan::zero();
        state.tetris.set_available_pieces(vec![Piece::O]);
        state.tetris.set_line_clear_delay_ms(180);
        for y in 0..BOARD_HEIGHT {
            for x in 0..BOARD_WIDTH {
                state.tetris.set_cell(x, y, 0);
            }
        }
        for x in 0..BOARD_WIDTH {
            if x == 4 || x == 5 {
                continue;
            }
            state.tetris.set_cell(x, 0, 1);
        }
        state.tetris.set_current_piece_for_test(Piece::O, Vec2i::new(4, 1), 0);
    }

    h.step(InputAction::HardDrop);
    assert!(h.state.tetris.is_line_clear_active());
    assert_eq!(h.state.tetris.lines_cleared(), 0);

    // Even though 100ms is below the 500ms gravity interval, clear progress should advance.
    h.apply_gravity_steps(ms(100));
    let (elapsed, duration) = h.state.tetris.line_clear_timing().unwrap();
    let progress = (elapsed as f32 / duration as f32).clamp(0.0, 1.0);
    assert!(progress > 0.0 && progress < 1.0, "line clear progress should advance on frame dt; got {progress}");
    assert!(h.state.tetris.is_line_clear_active());
    assert_eq!(h.state.tetris.lines_cleared(), 0);

    h.apply_gravity_steps(ms(80));
    assert!(!h.state.tetris.is_line_clear_active());
    assert_eq!(h.state.tetris.lines_cleared(), 1);
}
