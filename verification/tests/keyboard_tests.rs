use game::headful::input_adapter::{HeadfulInputCommand, HorizontalDir, HorizontalRepeat};
use game::skilltree::SkillTreeEditorTool;
use game::headful::keyboard::{
    apply_view_tree_action, keyboard_frame_step, map_key_to_action, sync_horizontal_repeat_from_frame, ui_click_step,
    GameUiAction, Key, KeyFrame, UiAction,
};
use game::headful::view_transitions::{back, start_game, GameView, GameViewEvent};
use game::playtest::InputAction;
use game::state::GameState;
use game::tetris_core::TetrisCore;
use game::time_span::TimeSpan;

fn input_frame_for_keys(pressed: &[Key], down: &[Key], released: &[Key]) -> KeyFrame {
    KeyFrame { down: down.to_vec(), pressed: pressed.to_vec(), released: released.to_vec() }
}

fn state() -> GameState {
    GameState::new(TetrisCore::new(0))
}

fn state_in(view: GameView) -> GameState {
    let mut st = state();
    st.view = view;
    st
}

#[test]
fn map_key_a_to_rotate_180() {
    assert_eq!(map_key_to_action(Key::A), Some(InputAction::Rotate180));
}

#[test]
fn headful_key_a_maps_to_rotate_180() {
    assert_eq!(map_key_to_action(Key::A), Some(InputAction::Rotate180));
}

#[test]
fn headful_left_arrow_maps_to_move_left() {
    assert_eq!(map_key_to_action(Key::Left), Some(InputAction::MoveLeft));
}

#[test]
fn headful_tests_key_a_maps_to_rotate_180() {
    assert_eq!(map_key_to_action(Key::A), Some(InputAction::Rotate180));
}

#[test]
fn headful_tests_left_arrow_maps_to_move_left() {
    assert_eq!(map_key_to_action(Key::Left), Some(InputAction::MoveLeft));
}

#[test]
fn sync_horizontal_repeat_consumes_frame_sets() {
    let mut repeat = HorizontalRepeat::default();
    let now = TimeSpan::from_secs(100);

    let immediate = sync_horizontal_repeat_from_frame(&input_frame_for_keys(&[Key::Left], &[Key::Left], &[]), &mut repeat, now);
    assert_eq!(immediate, vec![InputAction::MoveLeft]);
    assert_eq!(repeat.active, Some(HorizontalDir::Left));

    sync_horizontal_repeat_from_frame(
        &input_frame_for_keys(&[], &[], &[Key::Left]),
        &mut repeat,
        now.saturating_add(TimeSpan::from_millis(10)),
    );
    assert!(!repeat.left_down);
    assert_eq!(repeat.active, None);
}

#[test]
fn horizontal_repeat_sync_uses_frame_down_and_release_sets() {
    let mut repeat = HorizontalRepeat::default();
    let now = TimeSpan::from_secs(100);

    sync_horizontal_repeat_from_frame(&input_frame_for_keys(&[Key::Left], &[Key::Left], &[]), &mut repeat, now);
    assert!(repeat.left_down);
    assert_eq!(repeat.active, Some(HorizontalDir::Left));

    sync_horizontal_repeat_from_frame(
        &input_frame_for_keys(&[], &[Key::Left], &[]),
        &mut repeat,
        now.saturating_add(TimeSpan::from_millis(5)),
    );
    assert!(repeat.left_down);

    sync_horizontal_repeat_from_frame(
        &input_frame_for_keys(&[], &[], &[Key::Left]),
        &mut repeat,
        now.saturating_add(TimeSpan::from_millis(10)),
    );
    assert!(!repeat.left_down);
    assert_eq!(repeat.active, None);
}

#[test]
fn keyboard_soft_drop_repeats_while_down_key_is_held() {
    let mut st = state_in(GameView::Tetris { paused: false });
    let mut repeat = HorizontalRepeat::default();
    let now = TimeSpan::from_secs(100);

    let first = keyboard_frame_step(&mut st, &input_frame_for_keys(&[Key::Down], &[Key::Down], &[]), now, &mut repeat);
    let held = keyboard_frame_step(
        &mut st,
        &input_frame_for_keys(&[], &[Key::Down], &[]),
        now.saturating_add(TimeSpan::from_millis(16)),
        &mut repeat,
    );

    assert_eq!(first.commands, vec![HeadfulInputCommand::ApplyAction(InputAction::SoftDrop)]);
    assert_eq!(held.commands, vec![HeadfulInputCommand::ApplyAction(InputAction::SoftDrop)]);
}

#[test]
fn keyboard_start_game_emits_reset_and_click_commands() {
    let mut st = state_in(GameView::MainMenu);
    let mut repeat = HorizontalRepeat::default();
    let out = keyboard_frame_step(
        &mut st,
        &input_frame_for_keys(&[Key::Return], &[Key::Return], &[]),
        TimeSpan::from_secs(1),
        &mut repeat,
    );
    assert_eq!(out.commands, vec![HeadfulInputCommand::ResetRun, HeadfulInputCommand::PlayClick]);
    assert!(matches!(st.view, GameView::Tetris { paused: false }));
}

#[test]
fn keyboard_frame_flow_preserves_menu_pause_and_game_over_keys() {
    let mut st = state_in(GameView::MainMenu);
    let mut repeat = HorizontalRepeat::default();
    let now = TimeSpan::from_secs(1);
    let frame = |k: Key| input_frame_for_keys(&[k], &[k], &[]);

    keyboard_frame_step(&mut st, &frame(Key::Return), now, &mut repeat);
    assert!(matches!(st.view, GameView::Tetris { paused: false }));

    keyboard_frame_step(&mut st, &frame(Key::Escape), now.saturating_add(TimeSpan::from_millis(1)), &mut repeat);
    assert!(matches!(st.view, GameView::Tetris { paused: true }));

    keyboard_frame_step(&mut st, &frame(Key::Escape), now.saturating_add(TimeSpan::from_millis(2)), &mut repeat);
    assert!(matches!(st.view, GameView::Tetris { paused: false }));

    st.view = GameView::GameOver;
    keyboard_frame_step(&mut st, &frame(Key::K), now.saturating_add(TimeSpan::from_millis(3)), &mut repeat);
    assert!(matches!(st.view, GameView::SkillTree));
}

#[test]
fn keyboard_frame_events_follow_the_view() {
    let mut st = state_in(GameView::MainMenu);
    let mut repeat = HorizontalRepeat::default();
    let now = TimeSpan::from_secs(1);
    let esc = input_frame_for_keys(&[Key::Escape], &[Key::Escape], &[]);
    let k = input_frame_for_keys(&[Key::K], &[Key::K], &[]);

    let out = keyboard_frame_step(&mut st, &esc, now, &mut repeat);
    assert_eq!(out.view_event, None);
    assert_eq!(out.commands, vec![HeadfulInputCommand::ExitRequested]);

    st.view = GameView::Tetris { paused: false };
    st.gravity_elapsed = TimeSpan::from_millis(30);
    let out = keyboard_frame_step(&mut st, &esc, now, &mut repeat);
    assert_eq!(out.view_event, Some(GameViewEvent::TogglePause));
    assert_eq!(out.commands, vec![HeadfulInputCommand::PlayClick]);
    assert_eq!(st.gravity_elapsed, TimeSpan::zero());

    st.view = GameView::MainMenu;
    assert!(!st.skilltree.editor.enabled);
    let out = keyboard_frame_step(&mut st, &k, now, &mut repeat);
    assert_eq!(out.view_event, Some(GameViewEvent::OpenSkillTreeEditor));
    assert_eq!(st.view, GameView::SkillTree);
    assert!(st.skilltree.editor.enabled);

    let out = keyboard_frame_step(&mut st, &k, now, &mut repeat);
    assert!(out.editor_keys);
    let out = keyboard_frame_step(&mut st, &esc, now, &mut repeat);
    assert_eq!(out.view_event, Some(GameViewEvent::Back));
    assert_eq!(st.view, GameView::MainMenu);
    assert!(!st.skilltree.editor.enabled);
}

#[test]
fn paused_runs_ignore_play_keys() {
    let mut st = state_in(GameView::Tetris { paused: true });
    let mut repeat = HorizontalRepeat::default();
    let out = keyboard_frame_step(
        &mut st,
        &input_frame_for_keys(&[Key::Space, Key::F3], &[Key::Down], &[]),
        TimeSpan::from_secs(1),
        &mut repeat,
    );
    assert_eq!(out.commands, vec![HeadfulInputCommand::ToggleDebugHud]);
    assert!(!repeat.left_down);
}

#[test]
fn skilltree_start_run_ui_action_requires_editor_disabled() {
    let mut st = state_in(GameView::SkillTree);
    st.skilltree.editor.enabled = false;
    let result = ui_click_step(&mut st, UiAction::SkillTreeStartRun);
    assert!(result.handled);
    assert_eq!(result.commands, vec![HeadfulInputCommand::ResetRun, HeadfulInputCommand::PlayClick]);

    st.view = GameView::SkillTree;
    st.skilltree.editor.enabled = true;
    let blocked = ui_click_step(&mut st, UiAction::SkillTreeStartRun);
    assert!(!blocked.handled);
    assert!(blocked.commands.is_empty());
}

#[test]
fn menu_buttons_count_on_their_own_screen() {
    let mut st = state_in(GameView::GameOver);
    let r = ui_click_step(&mut st, UiAction::MainMenuStart);
    assert!(!r.handled);
    let r = ui_click_step(&mut st, UiAction::GameOverQuit);
    assert!(r.handled);
    assert_eq!(r.commands, vec![HeadfulInputCommand::ExitRequested]);
    st.view = GameView::Tetris { paused: true };
    st.gravity_elapsed = TimeSpan::from_millis(5);
    let r = ui_click_step(&mut st, UiAction::PauseResume);
    assert!(r.handled);
    assert_eq!(st.view, GameView::Tetris { paused: false });
    assert_eq!(st.gravity_elapsed, TimeSpan::zero());
    st.view = GameView::Tetris { paused: true };
    ui_click_step(&mut st, UiAction::PauseEndRun);
    assert_eq!(st.view, GameView::GameOver);
    st.view = GameView::MainMenu;
    let r = ui_click_step(&mut st, UiAction::MainMenuSkillTreeEditor);
    assert!(r.handled && st.skilltree.editor.enabled);
    assert_eq!(st.view, GameView::SkillTree);
}

#[test]
fn view_tree_buttons_act_on_their_own_screen() {
    let mut st = state_in(GameView::MainMenu);
    let mut repeat = HorizontalRepeat::default();
    let r = apply_view_tree_action(&mut st, GameUiAction::StartGame, &mut repeat);
    assert!(r.handled && r.click && r.reset_run);
    assert_eq!(st.view, GameView::Tetris { paused: false });
    let r = apply_view_tree_action(&mut st, GameUiAction::StartGame, &mut repeat);
    assert!(!r.handled);

    st.view = GameView::Tetris { paused: true };
    st.tetris.add_score(120);
    let money = st.skilltree.money();
    apply_view_tree_action(&mut st, GameUiAction::EndRun, &mut repeat);
    assert_eq!(st.view, GameView::GameOver);
    assert_eq!(st.skilltree.money(), money + 12);

    st.view = GameView::Tetris { paused: false };
    let r = apply_view_tree_action(&mut st, GameUiAction::HoldPiece, &mut repeat);
    assert!(r.handled && r.hold && !r.click);

    st.view = GameView::GameOver;
    let r = apply_view_tree_action(&mut st, GameUiAction::Quit, &mut repeat);
    assert!(r.handled && r.exit && !r.click);

    st.view = GameView::SkillTree;
    let r = apply_view_tree_action(&mut st, GameUiAction::SkillTreeToolMove, &mut repeat);
    assert!(!r.handled);
    st.skilltree.editor.enabled = true;
    let r = apply_view_tree_action(&mut st, GameUiAction::SkillTreeToolMove, &mut repeat);
    assert!(r.handled);
    assert_eq!(st.skilltree.editor.tool, SkillTreeEditorTool::Move);
}

#[test]
fn start_game_requests_reset_from_menu() {
    let result = start_game(GameView::MainMenu);
    assert!(matches!(result.next_view, GameView::Tetris { paused: false }));
    assert!(result.reset_tetris);
}

#[test]
fn back_from_game_over_returns_main_menu_without_reset() {
    let result = back(GameView::GameOver);
    assert!(matches!(result.next_view, GameView::MainMenu));
    assert!(!result.reset_tetris);
}
