use game::headful::input_adapter::{should_play_action_sfx, HorizontalDir, HorizontalRepeat};
use game::headful::skilltree_camera::{skilltree_grid_viewport, Rect, SkillTreeLayout};
use game::playtest::InputAction;
use game::time_span::TimeSpan;

fn gameplay_actions_without_hard_drop() -> [InputAction; 8] {
    [
        InputAction::Noop,
        InputAction::MoveLeft,
        InputAction::MoveRight,
        InputAction::SoftDrop,
        InputAction::RotateCw,
        InputAction::RotateCcw,
        InputAction::Rotate180,
        InputAction::Hold,
    ]
}

#[test]
fn headful_only_hard_drop_plays_gameplay_action_sfx() {
    for action in gameplay_actions_without_hard_drop() {
        assert!(!should_play_action_sfx(action), "expected no action sfx for {action:?}");
    }
    assert!(should_play_action_sfx(InputAction::HardDrop));
}

#[test]
fn headful_tests_only_hard_drop_plays_gameplay_action_sfx() {
    for action in gameplay_actions_without_hard_drop() {
        assert!(!should_play_action_sfx(action), "expected no action sfx for {action:?}");
    }
    assert!(should_play_action_sfx(InputAction::HardDrop));
}

#[test]
fn hard_drop_is_the_only_gameplay_sfx_trigger() {
    for action in gameplay_actions_without_hard_drop() {
        assert!(!should_play_action_sfx(action));
    }
    assert!(should_play_action_sfx(InputAction::HardDrop));
}

fn check_repeat_on_timer() {
    let mut repeat = HorizontalRepeat::default();
    let t0 = TimeSpan::from_secs(1000);
    assert!(repeat.on_press(HorizontalDir::Left, t0));
    assert!(!repeat.on_press(HorizontalDir::Left, t0.saturating_add(TimeSpan::from_millis(10))));
    assert_eq!(
        repeat.next_repeat_action(
            t0.saturating_add(HorizontalRepeat::repeat_delay()).saturating_sub(TimeSpan::from_millis(1))
        ),
        None
    );
    assert_eq!(
        repeat.next_repeat_action(t0.saturating_add(HorizontalRepeat::repeat_delay())),
        Some(InputAction::MoveLeft)
    );
    assert_eq!(
        repeat.next_repeat_action(
            t0.saturating_add(HorizontalRepeat::repeat_delay())
                .saturating_add(HorizontalRepeat::repeat_interval())
        ),
        Some(InputAction::MoveLeft)
    );
}

#[test]
fn headful_horizontal_repeat_ignores_os_repeat_pressed_events_and_repeats_on_timer() {
    check_repeat_on_timer();
}

#[test]
fn headful_tests_horizontal_repeat_ignores_os_repeat_pressed_events_and_repeats_on_timer() {
    check_repeat_on_timer();
}

#[test]
fn releasing_active_direction_falls_back_to_held_one() {
    let mut repeat = HorizontalRepeat::default();
    let t0 = TimeSpan::from_secs(5);
    assert!(repeat.on_press(HorizontalDir::Left, t0));
    assert!(repeat.on_press(HorizontalDir::Right, t0));
    assert_eq!(repeat.active, Some(HorizontalDir::Right));
    repeat.on_release(HorizontalDir::Right, TimeSpan::from_secs(6));
    assert_eq!(repeat.active, Some(HorizontalDir::Left));
    assert_eq!(repeat.next_repeat_at, Some(TimeSpan::from_millis(6_170)));
    repeat.on_release(HorizontalDir::Left, TimeSpan::from_secs(7));
    assert_eq!(repeat.active, None);
    assert_eq!(repeat.next_repeat_at, None);
    repeat.clear();
    assert!(!repeat.left_down && !repeat.right_down);
}

#[test]
fn grid_viewport_requires_non_zero_grid() {
    assert!(skilltree_grid_viewport(SkillTreeLayout::default()).is_none());
    assert!(skilltree_grid_viewport(SkillTreeLayout {
        grid_cell: 16,
        grid_cols: 8,
        grid_rows: 6,
        ..SkillTreeLayout::default()
    })
    .is_some());
}

#[test]
fn grid_viewport_spans_columns_and_rows_of_cells() {
    let view = skilltree_grid_viewport(SkillTreeLayout {
        grid_origin_x: 3,
        grid_origin_y: 4,
        grid_cell: 16,
        grid_cols: 8,
        grid_rows: 6,
    });
    assert_eq!(view, Some(Rect::new(3, 4, 128, 96)));
}
