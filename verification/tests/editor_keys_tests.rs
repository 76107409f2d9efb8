use game::headful::editor_keys::{editor_key_frame, typed_char};
use game::headful::frame_update::frame_start;
use game::headful::input_adapter::{HeadfulInputCommand, HorizontalRepeat};
use game::headful::keyboard::{Key, KeyFrame};
use game::headful::view_transitions::GameView;
use game::piece::Vec2i;
use game::skilltree::SkillTreeEditorTool;
use game::state::GameState;
use game::tetris_core::TetrisCore;
use game::time_span::TimeSpan;

fn input_frame_for_keys(pressed: &[Key], down: &[Key], released: &[Key]) -> KeyFrame {
    KeyFrame { down: down.to_vec(), pressed: pressed.to_vec(), released: released.to_vec() }
}

fn editor_state() -> GameState {
    let mut st = GameState::new(TetrisCore::new(0));
    st.view = GameView::SkillTree;
    st.skilltree.editor.enabled = true;
    st
}

/// One frame of keys as the windowed client reads them: the screen's keys, then the editor's.
fn process_keyboard_frame(
    state: &mut GameState,
    keys: &KeyFrame,
    now: TimeSpan,
    repeat: &mut HorizontalRepeat,
) -> Vec<HeadfulInputCommand> {
    let r = frame_start(state, keys, now, true, false, false, repeat);
    let mut commands = r.keys.map(|k| k.commands).unwrap_or_default();
    if let Some(e) = r.editor {
        commands.extend(e.commands);
    }
    commands
}

fn press(keys: &[Key]) -> KeyFrame {
    input_frame_for_keys(keys, keys, &[])
}

#[test]
fn skilltree_editor_direct_tool_hotkeys_select_expected_tool() {
    let mut st = editor_state();
    let mut repeat = HorizontalRepeat::default();
    let commands = process_keyboard_frame(
        &mut st,
        &input_frame_for_keys(&[Key::Key3], &[Key::Key3], &[]),
        TimeSpan::from_secs(1),
        &mut repeat,
    );
    assert_eq!(st.skilltree.editor.tool, SkillTreeEditorTool::AddCell);
    assert!(commands.contains(&HeadfulInputCommand::PlayClick));
}

#[test]
fn skilltree_editor_delete_key_uses_two_step_guardrail() {
    let mut st = editor_state();
    let _ = st.skilltree.editor_create_node_at(Vec2i::new(5, 5));
    let target_id = st.skilltree.editor.selected.clone().expect("new node should be selected");
    let mut repeat = HorizontalRepeat::default();

    let first = process_keyboard_frame(
        &mut st,
        &input_frame_for_keys(&[Key::Delete], &[Key::Delete], &[]),
        TimeSpan::from_secs(1),
        &mut repeat,
    );
    assert!(first.is_empty());
    assert!(st.skilltree.node_index(&target_id).is_some());

    let second = process_keyboard_frame(
        &mut st,
        &input_frame_for_keys(&[Key::Delete], &[Key::Delete], &[]),
        TimeSpan::from_millis(1001),
        &mut repeat,
    );
    assert!(second.contains(&HeadfulInputCommand::PlayClick));
    assert!(st.skilltree.node_index(&target_id).is_none());
}

#[test]
fn skilltree_editor_keyboard_cursor_apply_adds_cell_without_mouse() {
    let mut st = editor_state();
    st.skilltree.editor_set_tool(SkillTreeEditorTool::AddCell);
    st.skilltree.editor_select("start", None);
    st.skilltree.editor_set_cursor_world(Vec2i::new(1, 0));
    let mut repeat = HorizontalRepeat::default();

    let commands = process_keyboard_frame(
        &mut st,
        &input_frame_for_keys(&[Key::Return], &[Key::Return], &[]),
        TimeSpan::from_secs(1),
        &mut repeat,
    );
    assert!(commands.contains(&HeadfulInputCommand::PlayClick));

    let start_idx = st.skilltree.node_index("start").expect("start node should exist");
    let start = &st.skilltree.def.nodes[start_idx];
    assert!(start.shape.iter().any(|c| *c == Vec2i::new(1, 0)));
}

#[test]
fn editor_keys_move_the_cursor_and_saturate_nowhere_near_the_edge() {
    let mut st = editor_state();
    st.skilltree.editor_set_cursor_world(Vec2i::new(3, 4));
    let out = editor_key_frame(&mut st.skilltree, &press(&[Key::J, Key::I]));
    assert_eq!(st.skilltree.editor.cursor_world, Vec2i::new(2, 5));
    assert!(out.commands.is_empty());
    let _ = editor_key_frame(&mut st.skilltree, &press(&[Key::L, Key::K]));
    assert_eq!(st.skilltree.editor.cursor_world, Vec2i::new(3, 4));
}

#[test]
fn editor_keys_cursor_saturates_at_the_i32_edge() {
    let mut st = editor_state();
    st.skilltree.editor_set_cursor_world(Vec2i::new(i32::MIN, i32::MAX));
    let _ = editor_key_frame(&mut st.skilltree, &press(&[Key::J, Key::I]));
    assert_eq!(st.skilltree.editor.cursor_world, Vec2i::new(i32::MIN, i32::MAX));
}

#[test]
fn editor_keys_search_types_in_key_order_and_jumps_to_a_match() {
    let mut st = editor_state();
    let open = editor_key_frame(&mut st.skilltree, &press(&[Key::Slash]));
    assert!(st.skilltree.editor.search_open);
    assert_eq!(open.commands, vec![HeadfulInputCommand::PlayClick]);

    // Pressed together, the keys type in their fixed order: digits, then letters.
    let _ = editor_key_frame(&mut st.skilltree, &press(&[Key::T, Key::S, Key::A]));
    assert_eq!(st.skilltree.editor.search_query, "ast");
    assert_eq!(st.skilltree.editor.status.as_deref(), Some("SEARCH ast"));

    let _ = editor_key_frame(&mut st.skilltree, &press(&[Key::Back]));
    assert_eq!(st.skilltree.editor.search_query, "as");

    st.skilltree.editor.search_query = String::from("start");
    let jump = editor_key_frame(&mut st.skilltree, &press(&[Key::Return]));
    assert_eq!(jump.commands, vec![HeadfulInputCommand::PlayClick]);
    assert!(jump.focus_selected);
    assert!(!st.skilltree.editor.search_open);
    assert_eq!(st.skilltree.editor.search_query, "");
    assert_eq!(st.skilltree.editor.selected.as_deref(), Some("start"));
    assert_eq!(st.skilltree.editor.status.as_deref(), Some("JUMP start"));
}

#[test]
fn editor_keys_search_without_match_says_so() {
    let mut st = editor_state();
    st.skilltree.editor_open_search();
    st.skilltree.editor.search_query = String::from("zzzz_nothing");
    let out = editor_key_frame(&mut st.skilltree, &press(&[Key::Return]));
    assert!(out.commands.is_empty());
    assert!(!out.focus_selected);
    assert!(st.skilltree.editor.search_open);
    assert_eq!(st.skilltree.editor.status.as_deref(), Some("NO MATCH: zzzz_nothing"));
}

#[test]
fn editor_keys_typed_chars_follow_shift() {
    assert_eq!(typed_char(Key::A, false), Some('a'));
    assert_eq!(typed_char(Key::A, true), Some('A'));
    assert_eq!(typed_char(Key::Minus, false), Some('-'));
    assert_eq!(typed_char(Key::Minus, true), Some('_'));
    assert_eq!(typed_char(Key::Key7, true), Some('7'));
    assert_eq!(typed_char(Key::Tab, false), None);
}

#[test]
fn editor_keys_ctrl_z_undoes_and_ctrl_y_redoes() {
    let mut st = editor_state();
    let before = st.skilltree.def.nodes.len();
    let created = editor_key_frame(&mut st.skilltree, &press(&[Key::N]));
    assert_eq!(created.commands, vec![HeadfulInputCommand::PlayClick]);
    assert_eq!(st.skilltree.def.nodes.len(), before + 1);

    let undo = editor_key_frame(&mut st.skilltree, &input_frame_for_keys(&[Key::Z], &[Key::LControl, Key::Z], &[]));
    assert_eq!(undo.commands, vec![HeadfulInputCommand::PlayClick]);
    assert_eq!(st.skilltree.def.nodes.len(), before);

    let redo = editor_key_frame(&mut st.skilltree, &input_frame_for_keys(&[Key::Y], &[Key::RControl, Key::Y], &[]));
    assert_eq!(redo.commands, vec![HeadfulInputCommand::PlayClick]);
    assert_eq!(st.skilltree.def.nodes.len(), before + 1);

    // Nothing left to redo: no click.
    let again = editor_key_frame(&mut st.skilltree, &input_frame_for_keys(&[Key::Y], &[Key::LControl, Key::Y], &[]));
    assert!(again.commands.is_empty());
}

#[test]
fn editor_keys_shift_help_toggle_and_tool_already_set_does_not_click() {
    let mut st = editor_state();
    let help = editor_key_frame(&mut st.skilltree, &input_frame_for_keys(&[Key::Slash], &[Key::LShift, Key::Slash], &[]));
    assert!(st.skilltree.editor.help_expanded);
    assert!(!st.skilltree.editor.search_open);
    assert_eq!(help.commands, vec![HeadfulInputCommand::PlayClick]);

    let same = editor_key_frame(&mut st.skilltree, &press(&[Key::Key1]));
    assert_eq!(st.skilltree.editor.tool, SkillTreeEditorTool::Select);
    assert!(same.commands.is_empty());
}

#[test]
fn editor_keys_focus_camera_reset_save_and_reload_are_handed_back() {
    let mut st = editor_state();
    let none = editor_key_frame(&mut st.skilltree, &press(&[Key::F]));
    assert!(!none.focus_selected);
    assert!(none.commands.is_empty());

    st.skilltree.editor_select("start", None);
    let out = editor_key_frame(&mut st.skilltree, &press(&[Key::F, Key::Key0, Key::S, Key::R]));
    assert!(out.focus_selected);
    assert!(out.camera_reset);
    assert!(out.save);
    assert!(out.reload);
    assert_eq!(out.commands, vec![HeadfulInputCommand::PlayClick, HeadfulInputCommand::PlayClick]);
    assert_eq!(st.skilltree.editor.status.as_deref(), Some("FOCUS start"));
}

#[test]
fn editor_keys_shift_nudges_the_selection() {
    let mut st = editor_state();
    let id = st.skilltree.editor_create_node_at(Vec2i::new(5, 5));
    let out = editor_key_frame(&mut st.skilltree, &input_frame_for_keys(&[Key::L], &[Key::LShift, Key::L], &[]));
    assert_eq!(out.commands, vec![HeadfulInputCommand::PlayClick]);
    let idx = st.skilltree.node_index(&id).expect("node kept");
    assert_eq!(st.skilltree.def.nodes[idx].pos, Vec2i::new(6, 5));
    // The cursor stays where it was.
    assert_eq!(st.skilltree.editor.cursor_world, Vec2i::new(5, 5));
}
