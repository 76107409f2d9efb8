use game::agent::{BlockGame, TetrisAction};
use game::counter::{CounterGame, CounterInput};
use game::playtest::{InputAction, TetrisLogic};
use game::state::GameState;
use game::tetris_core::{Piece, TetrisCore, Vec2i, BOARD_HEIGHT, BOARD_WIDTH};

#[test]
fn soft_drop_with_gravity_enabled_moves_exactly_one_row() {
    let logic = TetrisLogic::new(0, vec![Piece::O]).with_gravity(true);
    let mut state = logic.initial_state();
    state.tetris.set_current_piece_for_test(Piece::O, Vec2i::new(4, 10), 0);
    let next = logic.step(&state, InputAction::SoftDrop);
    assert_eq!(
        next.tetris.current_piece_pos(),
        Vec2i::new(4, 9),
        "soft drop should move by one row, not apply an additional gravity move in the same step"
    );
}

#[test]
fn soft_drop_ground_contact_does_not_lock_in_same_step() {
    let logic = TetrisLogic::new(0, vec![Piece::O]).with_gravity(true);
    let mut state = logic.initial_state();
    state.tetris.set_current_piece_for_test(Piece::O, Vec2i::new(4, 2), 0);
    let next = logic.step(&state, InputAction::SoftDrop);
    assert_eq!(
        next.tetris.current_piece_pos(),
        Vec2i::new(4, 1),
        "soft drop should land the piece without locking in the same step"
    );
    assert!(
        next.tetris.current_piece().is_some(),
        "active piece should still be present right after soft-drop ground contact"
    );
    assert_eq!(
        next.tetris.board()[0][4],
        0,
        "piece should not have been locked into the board on the soft-drop contact step"
    );
}

#[test]
fn grounded_horizontal_move_can_stall_without_locking_same_step() {
    let logic = TetrisLogic::new(0, vec![Piece::O]).with_gravity(true);
    let mut state = logic.initial_state();
    state.tetris.set_current_piece_for_test(Piece::O, Vec2i::new(4, 1), 0);
    let next = logic.step(&state, InputAction::MoveRight);
    assert_eq!(
        next.tetris.current_piece_pos(),
        Vec2i::new(5, 1),
        "grounded horizontal adjustment should move the piece for lock-delay stalling"
    );
    assert!(
        next.tetris.current_piece().is_some(),
        "move-right stall should keep the active piece alive after the same-step gravity phase"
    );
    assert_eq!(
        next.tetris.board()[0][5],
        0,
        "piece should not lock into the board on the same step as a valid grounded horizontal move"
    );
}

#[test]
fn score_bonus_is_added_per_line_cleared() {
    let mut core = TetrisCore::new(0);
    core.set_available_pieces(vec![Piece::O]);
    core.initialize_game();
    let mut state = GameState::new(core);
    state.tetris.set_line_clear_delay_ms(0);
    for x in 0..BOARD_WIDTH {
        if x == 4 || x == 5 {
            continue;
        }
        state.tetris.set_cell(x, 0, 1);
    }
    assert_eq!(
        state.tetris.snapshot().board[0].iter().filter(|&&c| c != 0).count(),
        BOARD_WIDTH - 2
    );
    state.tetris.set_current_piece_for_test(Piece::O, Vec2i::new(4, 1), 0);
    state.tetris.set_line_clear_delay_ms(0);

    let logic_no_bonus = TetrisLogic::new(0, vec![Piece::O]);
    let next_no_bonus_pending = logic_no_bonus.step(&state, InputAction::HardDrop);
    let next_no_bonus =
        logic_no_bonus.step(&next_no_bonus_pending, InputAction::GravityTick { dt_ms: 0 });
    assert_eq!(next_no_bonus.tetris.lines_cleared(), 1);
    assert_eq!(next_no_bonus.tetris.score(), 100, "expected base 1-line clear score");

    let logic_bonus = TetrisLogic::new(0, vec![Piece::O]).with_score_bonus_per_line(100);
    let next_bonus_pending = logic_bonus.step(&state, InputAction::HardDrop);
    let next_bonus = logic_bonus.step(&next_bonus_pending, InputAction::GravityTick { dt_ms: 0 });
    assert_eq!(next_bonus.tetris.lines_cleared(), 1);
    assert_eq!(
        next_bonus.tetris.score(),
        200,
        "expected +100 score bonus applied for the cleared line"
    );
    let bottom_filled = next_bonus
        .tetris
        .snapshot()
        .board
        .get(0)
        .map(|r| r.iter().all(|&c| c != 0))
        .unwrap_or(false);
    assert!(!bottom_filled);
    assert!(next_bonus.tetris.current_piece().is_some());
    assert_eq!(next_bonus.tetris.current_piece_pos(), Vec2i::new(4, BOARD_HEIGHT as i32));
}

#[test]
fn reset_input_clears_state() {
    let game = CounterGame;
    let initial = game.initial_state();
    let stepped = game.step(&initial, CounterInput::Add(5));
    let reset = game.step(&stepped, CounterInput::Reset);
    assert_eq!(stepped.value, 5);
    assert_eq!(reset.value, 0);
}

#[test]
fn agent_hard_drop_locks_the_piece_on_the_floor() {
    let game = BlockGame::new(3, vec![Piece::O]);
    let state = game.initial_state();
    let next = game.step(&state, TetrisAction::HardDrop);
    let filled = next.tetris.board()[0].iter().filter(|&&c| c != 0).count();
    assert_eq!(filled, 2);
    assert!(next.tetris.current_piece().is_some());
}
