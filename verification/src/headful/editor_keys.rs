//! The skill-tree editor's own keys: typing in the node search, undo and redo, duplicating and
//! nudging the selection, the keyboard cursor, tools, new nodes and the two-step delete. A frame
//! of keys becomes a list of editor operations, applied in order; what needs the window (the
//! viewport) or the disk (saving, reloading) is handed back to the client.
use vstd::prelude::*;

use crate::headful::input_adapter::{
    apply_editor_tool_at_world, hit_id, spec_tool_applied, tool_action_fits, with_cursor,
    HeadfulInputCommand,
};
use crate::headful::skilltree_camera::scan_fits;
use crate::headful::keyboard::{Key, KeyFrame};
use crate::piece::Vec2i;
use crate::skilltree::runtime::{
    cell_edit_fits, lemma_first_pos, lemma_node_index, rel_cell, rel_fits, spec_add_cell, spec_remove_cell, first_pos,
    editor_after_edit, editor_after_step, hist_view, new_node_view, next_tool, node_ids, opt_str,
    selected_index, spec_deleted, spec_dup_id, spec_find_first, spec_moved, spec_new_node_id,
    spec_node_index, spec_push_history, spec_rebuilt_def, spec_tool_set, tool_name,
};
use crate::skilltree::{
    dedup_base, lemma_dedup_cells, lemma_min_attained, shape_shift_fits, spec_dedup_cells,
    join, sat_add_i32, sat_add_i32_exec, DefView, NodeView, SkillTreeEditorState, SkillTreeEditorTool,
    SkillTreeRuntime,
};

verus! {

/// One thing the editor does for a key.
#[derive(Debug, Clone, Copy)]
pub enum EditorOp {
    ToggleHelp,
    PopSearchChar,
    AppendSearchChar(char),
    JumpToMatch,
    ShowQuery,
    OpenSearch,
    Undo,
    Redo,
    Duplicate,
    Nudge(Vec2i),
    SetCursor(Vec2i),
    SetTool(SkillTreeEditorTool),
    CycleTool,
    ResetCamera,
    FocusSelected,
    CreateNode,
    RequestDelete,
    ApplyTool,
}

/// What the editor's keys of a frame did: the clicks to play, and what is left to the client:
/// centring the viewport on the selected node, resetting the viewport, saving and reloading the
/// definition.
#[derive(Debug)]
pub struct EditorKeysOutcome {
    pub commands: Vec<HeadfulInputCommand>,
    pub focus_selected: bool,
    pub camera_reset: bool,
    pub save: bool,
    pub reload: bool,
}

// ---- Which keys mean what ------------------------------------------------------------------

pub open spec fn shift_held(down: Seq<Key>) -> bool {
    down.contains(Key::LShift) || down.contains(Key::RShift)
}

pub open spec fn ctrl_held(down: Seq<Key>) -> bool {
    down.contains(Key::LControl) || down.contains(Key::RControl)
}

/// The keys that type into the search, in the order in which one frame's presses are typed:
/// the digits 1 to 9 and 0, the letters, the space bar, the minus key.
pub open spec fn typing_key(i: int) -> Key {
    if i == 0 { Key::Key1 } else if i == 1 { Key::Key2 } else if i == 2 { Key::Key3 }
    else if i == 3 { Key::Key4 } else if i == 4 { Key::Key5 } else if i == 5 { Key::Key6 }
    else if i == 6 { Key::Key7 } else if i == 7 { Key::Key8 } else if i == 8 { Key::Key9 }
    else if i == 9 { Key::Key0 } else if i == 10 { Key::A } else if i == 11 { Key::B }
    else if i == 12 { Key::C } else if i == 13 { Key::D } else if i == 14 { Key::E }
    else if i == 15 { Key::F } else if i == 16 { Key::G } else if i == 17 { Key::H }
    else if i == 18 { Key::I } else if i == 19 { Key::J } else if i == 20 { Key::K }
    else if i == 21 { Key::L } else if i == 22 { Key::M } else if i == 23 { Key::N }
    else if i == 24 { Key::O } else if i == 25 { Key::P } else if i == 26 { Key::Q }
    else if i == 27 { Key::R } else if i == 28 { Key::S } else if i == 29 { Key::T }
    else if i == 30 { Key::U } else if i == 31 { Key::V } else if i == 32 { Key::W }
    else if i == 33 { Key::X } else if i == 34 { Key::Y } else if i == 35 { Key::Z }
    else if i == 36 { Key::Space } else { Key::Minus }
}

/// How many keys type into the search.
pub open spec fn typing_key_count() -> int {
    38
}

/// The character a key types: letters in lower case, or upper case with shift held; digits;
/// a space; minus, or an underscore with shift held.
pub open spec fn spec_typed_char(key: Key, shift: bool) -> Option<char> {
    let alpha = |lower: char, upper: char| Some(if shift { upper } else { lower });
    match key {
        Key::A => alpha('a', 'A'), Key::B => alpha('b', 'B'), Key::C => alpha('c', 'C'),
        Key::D => alpha('d', 'D'), Key::E => alpha('e', 'E'), Key::F => alpha('f', 'F'),
        Key::G => alpha('g', 'G'), Key::H => alpha('h', 'H'), Key::I => alpha('i', 'I'),
        Key::J => alpha('j', 'J'), Key::K => alpha('k', 'K'), Key::L => alpha('l', 'L'),
        Key::M => alpha('m', 'M'), Key::N => alpha('n', 'N'), Key::O => alpha('o', 'O'),
        Key::P => alpha('p', 'P'), Key::Q => alpha('q', 'Q'), Key::R => alpha('r', 'R'),
        Key::S => alpha('s', 'S'), Key::T => alpha('t', 'T'), Key::U => alpha('u', 'U'),
        Key::V => alpha('v', 'V'), Key::W => alpha('w', 'W'), Key::X => alpha('x', 'X'),
        Key::Y => alpha('y', 'Y'), Key::Z => alpha('z', 'Z'),
        Key::Key0 => Some('0'), Key::Key1 => Some('1'), Key::Key2 => Some('2'),
        Key::Key3 => Some('3'), Key::Key4 => Some('4'), Key::Key5 => Some('5'),
        Key::Key6 => Some('6'), Key::Key7 => Some('7'), Key::Key8 => Some('8'),
        Key::Key9 => Some('9'),
        Key::Space => Some(' '),
        Key::Minus => Some(if shift { '_' } else { '-' }),
        _ => None,
    }
}

/// The characters typed by the first `n` typing keys that are pressed, in typing order.
pub open spec fn typed_ops(pressed: Seq<Key>, shift: bool, n: int) -> Seq<EditorOp>
    decreases n,
{
    if n <= 0 {
        Seq::empty()
    } else {
        let rest = typed_ops(pressed, shift, n - 1);
        let k = typing_key(n - 1);
        if pressed.contains(k) && spec_typed_char(k, shift) is Some {
            rest.push(EditorOp::AppendSearchChar(spec_typed_char(k, shift)->0))
        } else {
            rest
        }
    }
}

pub open spec fn opt_op(b: bool, op: EditorOp) -> Seq<EditorOp> {
    if b { seq![op] } else { Seq::empty() }
}

/// The keyboard cursor after J and L (left, right) and I and K (up, down), each one cell,
/// saturating.
pub open spec fn cursor_after(c: Vec2i, p: Seq<Key>) -> Vec2i {
    let x1 = if p.contains(Key::J) { sat_add_i32(c.x, -1i32) } else { c.x };
    let x2 = if p.contains(Key::L) { sat_add_i32(x1, 1) } else { x1 };
    let y1 = if p.contains(Key::I) { sat_add_i32(c.y, 1) } else { c.y };
    let y2 = if p.contains(Key::K) { sat_add_i32(y1, -1i32) } else { y1 };
    Vec2i { x: x2, y: y2 }
}

/// Whether the frame's editor keys are those of the editing mode (not the search, and not
/// opening it).
pub open spec fn editing_mode(search_open: bool, down: Seq<Key>, p: Seq<Key>) -> bool {
    !search_open && !(p.contains(Key::Slash) && !shift_held(down))
}

/// The operations of a frame of editor keys, from the search state and the cursor at its
/// start. Shift and `/` toggle the help. With the search open: Backspace deletes a character,
/// the typing keys type (see `typing_key`), and Return jumps to the first match, or else the
/// status shows the query. Otherwise `/` opens the search; else, in order: Ctrl with Z undoes,
/// with Y redoes, with D duplicates; with Shift, J, L, I and K nudge the selection left, right,
/// up and down, and without it they move the cursor; 1 to 5 pick the tools Select, Move,
/// AddCell, RemoveCell and ConnectPrereqs; Tab cycles the tool; 0 resets the viewport; F
/// focuses on the selection; N creates a node at the cursor; Delete asks to delete (or
/// deletes) the selection; Return or Space act with the tool at the cursor.
pub open spec fn spec_editor_ops(search_open: bool, cursor: Vec2i, down: Seq<Key>, p: Seq<Key>) -> Seq<EditorOp> {
    let shift = shift_held(down);
    let help = opt_op(p.contains(Key::Slash) && shift, EditorOp::ToggleHelp);
    if search_open {
        help + search_ops(p, shift)
    } else if p.contains(Key::Slash) && !shift {
        help + seq![EditorOp::OpenSearch]
    } else {
        help + editing_ops(cursor, p, shift, ctrl_held(down))
    }
}

/// The operations of the search's keys: Backspace, the typing keys, then Return or not.
pub open spec fn search_ops(p: Seq<Key>, shift: bool) -> Seq<EditorOp> {
    opt_op(p.contains(Key::Back), EditorOp::PopSearchChar) + typed_ops(p, shift, typing_key_count())
        + seq![if p.contains(Key::Return) { EditorOp::JumpToMatch } else { EditorOp::ShowQuery }]
}

/// The cursor keys' operations: nudges with Shift held, else one cursor move.
pub open spec fn move_ops(cursor: Vec2i, p: Seq<Key>, shift: bool) -> Seq<EditorOp> {
    if shift {
        opt_op(p.contains(Key::J), EditorOp::Nudge(Vec2i { x: -1i32, y: 0 }))
            + opt_op(p.contains(Key::L), EditorOp::Nudge(Vec2i { x: 1, y: 0 }))
            + opt_op(p.contains(Key::I), EditorOp::Nudge(Vec2i { x: 0, y: 1 }))
            + opt_op(p.contains(Key::K), EditorOp::Nudge(Vec2i { x: 0, y: -1i32 }))
    } else {
        opt_op(
            p.contains(Key::J) || p.contains(Key::L) || p.contains(Key::I) || p.contains(Key::K),
            EditorOp::SetCursor(cursor_after(cursor, p)),
        )
    }
}

/// The tool keys' operations.
pub open spec fn tool_ops(p: Seq<Key>) -> Seq<EditorOp> {
    opt_op(p.contains(Key::Key1), EditorOp::SetTool(SkillTreeEditorTool::Select))
        + opt_op(p.contains(Key::Key2), EditorOp::SetTool(SkillTreeEditorTool::Move))
        + opt_op(p.contains(Key::Key3), EditorOp::SetTool(SkillTreeEditorTool::AddCell))
        + opt_op(p.contains(Key::Key4), EditorOp::SetTool(SkillTreeEditorTool::RemoveCell))
        + opt_op(p.contains(Key::Key5), EditorOp::SetTool(SkillTreeEditorTool::ConnectPrereqs))
        + opt_op(p.contains(Key::Tab), EditorOp::CycleTool)
}

/// The operations of the editing mode's keys.
pub open spec fn editing_ops(cursor: Vec2i, p: Seq<Key>, shift: bool, ctrl: bool) -> Seq<EditorOp> {
    opt_op(ctrl && p.contains(Key::Z), EditorOp::Undo) + opt_op(ctrl && p.contains(Key::Y), EditorOp::Redo)
        + opt_op(ctrl && p.contains(Key::D), EditorOp::Duplicate)
        + move_ops(cursor, p, shift)
        + tool_ops(p)
        + opt_op(p.contains(Key::Key0), EditorOp::ResetCamera)
        + opt_op(p.contains(Key::F), EditorOp::FocusSelected)
        + opt_op(p.contains(Key::N), EditorOp::CreateNode)
        + opt_op(p.contains(Key::Delete), EditorOp::RequestDelete)
        + opt_op(p.contains(Key::Return) || p.contains(Key::Space), EditorOp::ApplyTool)
}

// ---- What each operation does --------------------------------------------------------------

/// `n` is `o` with only the editor changed, to `e`.
pub open spec fn editor_only(o: SkillTreeRuntime, n: SkillTreeRuntime, e: SkillTreeEditorState) -> bool {
    &&& n.editor == e
    &&& n.def == o.def
    &&& n.progress == o.progress
    &&& n.editor_history == o.editor_history
}

/// `n` is `o` with the status set to `status` and nothing else changed.
pub open spec fn status_set(o: SkillTreeRuntime, n: SkillTreeRuntime, status: Seq<char>) -> bool {
    &&& opt_str(n.editor.status) == Some(status)
    &&& editor_only(o, n, SkillTreeEditorState { status: n.editor.status, ..o.editor })
}

/// What a search jump does: with no match the status says so; with one, the node is
/// selected (dropping a grab and a pending delete), the cursor goes to its anchor, the search
/// closes and empties, and the status names it.
pub open spec fn jumped(o: SkillTreeRuntime, n: SkillTreeRuntime, click: bool) -> bool {
    let q = o.editor.search_query@;
    match spec_find_first(o.def@.nodes, q) {
        None => !click && status_set(o, n, "NO MATCH: "@ + q),
        Some(hit) => {
            &&& click
            &&& opt_str(n.editor.selected) == Some(hit)
            &&& n.editor.cursor_world == (match spec_node_index(o.def@.nodes, hit) {
                Some(i) => o.def@.nodes[i].pos,
                None => o.editor.cursor_world,
            })
            &&& opt_str(n.editor.status) == Some("JUMP "@ + hit)
            &&& n.editor.search_query@.len() == 0
            &&& editor_only(o, n, SkillTreeEditorState {
                selected: n.editor.selected,
                move_grab_offset: None,
                pending_delete_id: None,
                cursor_world: n.editor.cursor_world,
                status: n.editor.status,
                search_open: false,
                search_query: n.editor.search_query,
                ..o.editor
            })
        },
    }
}

/// What the focus key does: with a selected node that exists, the status names it; otherwise
/// nothing.
pub open spec fn focused(o: SkillTreeRuntime, n: SkillTreeRuntime, click: bool) -> bool {
    let ok = o.editor.selected is Some && spec_node_index(o.def@.nodes, opt_str(o.editor.selected)->0) is Some;
    &&& click == ok
    &&& ok ==> status_set(o, n, "FOCUS "@ + opt_str(o.editor.selected)->0)
    &&& !ok ==> n == o
}

/// What undo does (see `SkillTreeRuntime::editor_undo`).
pub open spec fn undone(o: SkillTreeRuntime, n: SkillTreeRuntime, r: bool) -> bool {
    &&& r == (o.editor_history.undo_defs@.len() > 0)
    &&& !r ==> n == o
    &&& r ==> spec_rebuilt_def(o.editor_history.undo_defs@.last()@, o.progress, n)
        && n.editor_history.undo_defs@ == o.editor_history.undo_defs@.drop_last()
        && n.editor_history.redo_defs@ == spec_push_history(o.editor_history.redo_defs@, o.def)
        && editor_after_step(o.editor, n.editor, node_ids(n.def@.nodes), "UNDO"@)
}

/// What redo does (see `SkillTreeRuntime::editor_redo`).
pub open spec fn redone(o: SkillTreeRuntime, n: SkillTreeRuntime, r: bool) -> bool {
    &&& r == (o.editor_history.redo_defs@.len() > 0)
    &&& !r ==> n == o
    &&& r ==> spec_rebuilt_def(o.editor_history.redo_defs@.last()@, o.progress, n)
        && n.editor_history.redo_defs@ == o.editor_history.redo_defs@.drop_last()
        && n.editor_history.undo_defs@ == spec_push_history(o.editor_history.undo_defs@, o.def)
        && editor_after_step(o.editor, n.editor, node_ids(n.def@.nodes), "REDO"@)
}

/// What duplicating the selection does (see `SkillTreeRuntime::editor_duplicate_selected`).
pub open spec fn duplicated(o: SkillTreeRuntime, n: SkillTreeRuntime, r: Option<Seq<char>>) -> bool {
    match selected_index(o) {
        None => r is None && n == o,
        Some(i) => {
            let on = o.def@.nodes[i];
            let sel = opt_str(o.editor.selected)->0;
            let dup = spec_dup_id(node_ids(o.def@.nodes).to_set(), sel);
            &&& r == Some(dup)
            &&& spec_rebuilt_def(
                DefView {
                    version: o.def@.version,
                    nodes: o.def@.nodes.push(NodeView {
                        id: dup,
                        pos: Vec2i { x: sat_add_i32(on.pos.x, 1), y: on.pos.y },
                        ..on
                    }),
                },
                o.progress,
                n,
            )
            &&& editor_after_edit(o.editor, n.editor, node_ids(n.def@.nodes))
            &&& opt_str(n.editor.selected) == Some(dup)
            &&& n.editor.cursor_world == (match spec_node_index(n.def@.nodes, dup) {
                Some(j) => n.def@.nodes[j].pos,
                None => o.editor.cursor_world,
            })
            &&& opt_str(n.editor.status) == Some("DUP "@ + sel + " -> "@ + dup)
            &&& hist_view(n.editor_history.undo_defs@) == spec_push_history(hist_view(o.editor_history.undo_defs@), o.def@)
            &&& n.editor_history.redo_defs@.len() == 0
        },
    }
}

/// What a nudge does (see `SkillTreeRuntime::editor_nudge_selected_by`).
pub open spec fn nudged(o: SkillTreeRuntime, n: SkillTreeRuntime, r: bool, delta: Vec2i) -> bool {
    match selected_index(o) {
        None => !r && n == o,
        Some(i) => spec_moved(o, n, r, Vec2i {
            x: sat_add_i32(o.def@.nodes[i].pos.x, delta.x),
            y: sat_add_i32(o.def@.nodes[i].pos.y, delta.y),
        }),
    }
}

/// What creating a node at the cursor does (see `SkillTreeRuntime::editor_create_node_at`).
pub open spec fn created(o: SkillTreeRuntime, n: SkillTreeRuntime) -> bool {
    let id = spec_new_node_id(o.def@.nodes);
    let pos = o.editor.cursor_world;
    &&& spec_rebuilt_def(
        DefView { version: o.def@.version, nodes: o.def@.nodes.push(new_node_view(id, pos)) },
        o.progress,
        n,
    )
    &&& editor_after_edit(o.editor, n.editor, node_ids(n.def@.nodes))
    &&& opt_str(n.editor.selected) == Some(id)
    &&& n.editor.cursor_world == pos
    &&& opt_str(n.editor.status) == Some("NEW "@ + id)
    &&& hist_view(n.editor_history.undo_defs@) == spec_push_history(hist_view(o.editor_history.undo_defs@), o.def@)
    &&& n.editor_history.redo_defs@.len() == 0
}

/// What the delete key does (see `SkillTreeRuntime::editor_request_delete_selected`).
pub open spec fn delete_requested(o: SkillTreeRuntime, n: SkillTreeRuntime, r: bool) -> bool {
    let cleared = SkillTreeRuntime { editor: SkillTreeEditorState { pending_delete_id: None, ..o.editor }, ..o };
    &&& o.editor.selected is None ==> !r && n == cleared
    &&& (o.editor.selected is Some && opt_str(o.editor.pending_delete_id) != opt_str(o.editor.selected)) ==> {
        &&& !r
        &&& opt_str(n.editor.pending_delete_id) == opt_str(o.editor.selected)
        &&& opt_str(n.editor.status) == Some("DELETE "@ + opt_str(o.editor.selected)->0 + "? PRESS DEL AGAIN"@)
        &&& editor_only(o, n, SkillTreeEditorState {
            pending_delete_id: n.editor.pending_delete_id,
            status: n.editor.status,
            ..o.editor
        })
    }
    &&& (o.editor.selected is Some && opt_str(o.editor.pending_delete_id) == opt_str(o.editor.selected))
        ==> spec_deleted(cleared, n, r)
}

/// What operation `op` does to the skill tree `o`, giving `n`, and whether it clicks.
pub open spec fn op_rel(o: SkillTreeRuntime, n: SkillTreeRuntime, op: EditorOp, click: bool) -> bool {
    match op {
        EditorOp::ToggleHelp => {
            &&& click
            &&& opt_str(n.editor.status) == Some(if n.editor.help_expanded { "HELP EXPANDED"@ } else { "HELP COMPACT"@ })
            &&& editor_only(o, n, SkillTreeEditorState {
                help_expanded: !o.editor.help_expanded,
                status: n.editor.status,
                ..o.editor
            })
        },
        EditorOp::PopSearchChar => {
            &&& !click
            &&& n.editor.search_query@ == (if o.editor.search_query@.len() == 0 {
                o.editor.search_query@
            } else {
                o.editor.search_query@.drop_last()
            })
            &&& editor_only(o, n, SkillTreeEditorState { search_query: n.editor.search_query, ..o.editor })
        },
        EditorOp::AppendSearchChar(c) => {
            &&& !click
            &&& n.editor.search_query@ == o.editor.search_query@.push(c)
            &&& editor_only(o, n, SkillTreeEditorState { search_query: n.editor.search_query, ..o.editor })
        },
        EditorOp::JumpToMatch => jumped(o, n, click),
        EditorOp::ShowQuery => !click && status_set(o, n, "SEARCH "@ + o.editor.search_query@),
        EditorOp::OpenSearch => {
            &&& click
            &&& n.editor.search_query@.len() == 0
            &&& opt_str(n.editor.status) == Some("SEARCH"@)
            &&& editor_only(o, n, SkillTreeEditorState {
                search_open: true,
                search_query: n.editor.search_query,
                status: n.editor.status,
                ..o.editor
            })
        },
        EditorOp::Undo => undone(o, n, click),
        EditorOp::Redo => redone(o, n, click),
        EditorOp::Duplicate => exists|r: Option<Seq<char>>| #[trigger] duplicated(o, n, r) && click == r is Some,
        EditorOp::Nudge(d) => nudged(o, n, click, d),
        EditorOp::SetCursor(w) => !click && editor_only(o, n, SkillTreeEditorState { cursor_world: w, ..o.editor }),
        EditorOp::SetTool(t) => {
            &&& click == (o.editor.tool != t)
            &&& click ==> spec_tool_set(o, n, t)
            &&& !click ==> n == o
        },
        EditorOp::CycleTool => {
            &&& click
            &&& n.editor.tool == next_tool(o.editor.tool)
            &&& n.editor.connect_from == (if n.editor.tool == SkillTreeEditorTool::ConnectPrereqs {
                o.editor.connect_from
            } else {
                None
            })
            &&& opt_str(n.editor.status) == Some("TOOL "@ + tool_name(n.editor.tool))
            &&& editor_only(o, n, SkillTreeEditorState {
                tool: n.editor.tool,
                connect_from: n.editor.connect_from,
                pending_delete_id: None,
                status: n.editor.status,
                ..o.editor
            })
        },
        EditorOp::ResetCamera => click && status_set(o, n, "CAMERA RESET"@),
        EditorOp::FocusSelected => focused(o, n, click),
        EditorOp::CreateNode => click && created(o, n),
        EditorOp::RequestDelete => delete_requested(o, n, click),
        EditorOp::ApplyTool => tool_applied_at_cursor(o, n, click),
    }
}

/// `trace` holds the skill tree before each operation of `ops` and after the last, each step
/// being what the operation does, with `clicks` saying which operations click.
pub open spec fn editor_run(
    st: SkillTreeRuntime,
    ops: Seq<EditorOp>,
    trace: Seq<SkillTreeRuntime>,
    clicks: Seq<bool>,
) -> bool {
    &&& trace.len() == ops.len() + 1
    &&& clicks.len() == ops.len()
    &&& trace[0] == st
    &&& forall|i: int| 0 <= i < ops.len() ==> #[trigger] op_rel(trace[i], trace[i + 1], ops[i], clicks[i])
}

/// A click for each operation that clicked, in order.
pub open spec fn click_commands(clicks: Seq<bool>) -> Seq<HeadfulInputCommand>
    decreases clicks.len(),
{
    if clicks.len() == 0 {
        Seq::empty()
    } else {
        click_commands(clicks.drop_last()) + (if clicks.last() {
            seq![HeadfulInputCommand::PlayClick]
        } else {
            Seq::empty()
        })
    }
}

/// Some jump or focus among the operations succeeded, so the viewport centres on the
/// selection.
pub open spec fn focus_of(ops: Seq<EditorOp>, clicks: Seq<bool>) -> bool {
    exists|i: int| 0 <= i < clicks.len() && i < ops.len() && #[trigger] clicks[i]
        && (ops[i] is JumpToMatch || ops[i] is FocusSelected)
}

/// A frame of editor keys took the skill tree `st` to `n` with outcome `r`: the operations of
/// `spec_editor_ops` were carried out in order (see `op_rel`), a click for each that clicks;
/// the viewport centres when a jump or focus succeeded; in the editing mode, 0 resets the
/// viewport, Return or Space act with the tool at the cursor, S saves and R reloads.
pub open spec fn editor_frame_done(st: SkillTreeRuntime, keys: KeyFrame, n: SkillTreeRuntime, r: EditorKeysOutcome) -> bool {
    let ops = spec_editor_ops(st.editor.search_open, st.editor.cursor_world, keys.down@, keys.pressed@);
    let editing = editing_mode(st.editor.search_open, keys.down@, keys.pressed@);
    &&& exists|trace: Seq<SkillTreeRuntime>, clicks: Seq<bool>|
        #[trigger] editor_run(st, ops, trace, clicks)
        && trace.last() == n
        && r.commands@ == click_commands(clicks)
        && r.focus_selected == focus_of(ops, clicks)
    &&& r.camera_reset == (editing && keys.pressed@.contains(Key::Key0))
    &&& r.save == (editing && keys.pressed@.contains(Key::S))
    &&& r.reload == (editing && keys.pressed@.contains(Key::R))
}


// ---- Acting with the tool at the cursor ----------------------------------------------------

/// `v` lies within 2^28 of zero.
pub open spec fn in_band(v: int) -> bool {
    -268435456 <= v <= 268435456
}

/// The cell `world`, the grab offset, and every anchor and shape cell of the tree lie within
/// 2^28 of zero, so that acting with the tool at `world` stays within `i32`.
pub open spec fn coords_bounded(o: SkillTreeRuntime, world: Vec2i) -> bool {
    let nodes = o.def@.nodes;
    &&& in_band(world.x as int) && in_band(world.y as int)
    &&& (o.editor.move_grab_offset matches Some(g) ==> in_band(g.x as int) && in_band(g.y as int))
    &&& forall|a: int| 0 <= a < nodes.len() ==> in_band((#[trigger] nodes[a]).pos.x as int) && in_band(nodes[a].pos.y as int)
    &&& forall|a: int, k: int| 0 <= a < nodes.len() && 0 <= k < nodes[a].shape.len()
        ==> in_band((#[trigger] nodes[a].shape[k]).x as int) && in_band(nodes[a].shape[k].y as int)
}

/// A shape whose cells lie within 2^29 of zero can be normalized at an anchor within 2^28.
proof fn lemma_band_shift_fits(pos: Vec2i, ns: Seq<Vec2i>)
    requires
        in_band(pos.x as int) && in_band(pos.y as int),
        forall|k: int| 0 <= k < ns.len() ==> -536870912 <= (#[trigger] ns[k]).x <= 536870912
            && -536870912 <= ns[k].y <= 536870912,
    ensures
        shape_shift_fits(pos, ns),
{
    let base = if ns.len() == 0 { seq![Vec2i { x: 0, y: 0 }] } else { ns };
    assert(forall|k: int| 0 <= k < base.len() ==> -536870912 <= (#[trigger] base[k]).x <= 536870912
        && -536870912 <= base[k].y <= 536870912);
    let d = spec_dedup_cells(base);
    assert(d == dedup_base(ns));
    lemma_dedup_cells(base);
    assert forall|k: int| 0 <= k < d.len() implies -536870912 <= (#[trigger] d[k]).x <= 536870912
        && -536870912 <= d[k].y <= 536870912 by {
        assert(d.to_set().contains(d[k]));
        assert(base.to_set().contains(d[k]));
        let j = choose|j: int| 0 <= j < base.len() && base[j] == d[k];
    }
    assert(base.to_set().contains(base[0]));
    assert(d.to_set().contains(base[0]));
    assert(d.len() > 0);
    lemma_min_attained(d);
}

/// Coordinates within the band let the tool act at `world`.
proof fn lemma_bounded_tool_fits(o: SkillTreeRuntime, world: Vec2i)
    requires
        coords_bounded(o, world),
    ensures
        tool_action_fits(o, world),
{
    let nodes = o.def@.nodes;
    reveal(scan_fits);
    assert forall|a: int, k: int| 0 <= a < nodes.len() && 0 <= k < nodes[a].shape.len()
        implies i32::MIN <= #[trigger] nodes[a].shape[k].x + nodes[a].pos.x <= i32::MAX
            && i32::MIN <= nodes[a].pos.y + nodes[a].shape[k].y <= i32::MAX by {
        assert(in_band(nodes[a].shape[k].x as int));
        assert(in_band(nodes[a].pos.x as int));
    }
    assert(scan_fits(nodes, world));
    let hit = hit_id(o, world);
    if hit is Some {
        lemma_node_index(nodes, hit->0);
        match spec_node_index(nodes, hit->0) {
            Some(i) => {
                assert(in_band(nodes[i].pos.x as int));
            },
            None => {},
        }
    }
    let o1 = with_cursor(o, world);
    match selected_index(o1) {
        Some(i) => {
            lemma_node_index(nodes, opt_str(o1.editor.selected)->0);
            let n = nodes[i];
            assert(in_band(n.pos.x as int) && in_band(n.pos.y as int));
            assert(rel_fits(n.pos, world));
            let c = rel_cell(n.pos, world);
            assert forall|k: int| 0 <= k < n.shape.len() implies in_band((#[trigger] n.shape[k]).x as int)
                && in_band(n.shape[k].y as int) by {
                assert(nodes[i].shape[k] == n.shape[k]);
            }
            match spec_add_cell(n.shape, c) {
                Some(ns) => {
                    assert(ns == n.shape.push(c));
                    assert forall|k: int| 0 <= k < ns.len() implies -536870912 <= (#[trigger] ns[k]).x <= 536870912
                        && -536870912 <= ns[k].y <= 536870912 by {
                        if k < n.shape.len() {
                            assert(ns[k] == n.shape[k]);
                        }
                    }
                    lemma_band_shift_fits(n.pos, ns);
                },
                None => {},
            }
            match spec_remove_cell(n.shape, c) {
                Some(ns) => {
                    lemma_first_pos(n.shape, c);
                    let j = first_pos(n.shape, c)->0;
                    assert(ns == n.shape.remove(j));
                    assert forall|k: int| 0 <= k < ns.len() implies -536870912 <= (#[trigger] ns[k]).x <= 536870912
                        && -536870912 <= ns[k].y <= 536870912 by {
                        if k < j {
                            assert(ns[k] == n.shape[k]);
                        } else {
                            assert(ns[k] == n.shape[k + 1]);
                        }
                    }
                    lemma_band_shift_fits(n.pos, ns);
                },
                None => {},
            }
            assert(cell_edit_fits(o1, world, |s: Seq<Vec2i>, c: Vec2i| spec_add_cell(s, c)));
            assert(cell_edit_fits(o1, world, |s: Seq<Vec2i>, c: Vec2i| spec_remove_cell(s, c)));
        },
        None => {},
    }
}

fn in_band_exec(v: i32) -> (r: bool)
    ensures
        r == in_band(v as int),
{
    -268435456 <= v && v <= 268435456
}

/// Whether `coords_bounded(st, world)` holds.
pub fn coords_in_band(st: &SkillTreeRuntime, world: Vec2i) -> (r: bool)
    ensures
        r == coords_bounded(*st, world),
{
    if !in_band_exec(world.x) || !in_band_exec(world.y) {
        return false;
    }
    match st.editor.move_grab_offset {
        Some(g) => {
            if !in_band_exec(g.x) || !in_band_exec(g.y) {
                return false;
            }
        },
        None => {},
    }
    let ghost nodes = st.def@.nodes;
    let mut a: usize = 0;
    while a < st.def.nodes.len()
        invariant
            nodes == st.def@.nodes,
            a <= nodes.len(),
            forall|b: int| 0 <= b < a ==> in_band((#[trigger] nodes[b]).pos.x as int) && in_band(nodes[b].pos.y as int),
            forall|b: int, k: int| 0 <= b < a && 0 <= k < nodes[b].shape.len()
                ==> in_band((#[trigger] nodes[b].shape[k]).x as int) && in_band(nodes[b].shape[k].y as int),
        decreases nodes.len() - a,
    {
        let node = &st.def.nodes[a];
        assert(node@ == nodes[a as int]);
        if !in_band_exec(node.pos.x) || !in_band_exec(node.pos.y) {
            return false;
        }
        let mut k: usize = 0;
        while k < node.shape.len()
            invariant
                nodes == st.def@.nodes,
                a < nodes.len(),
                node@ == nodes[a as int],
                k <= nodes[a as int].shape.len(),
                forall|j: int| 0 <= j < k ==> in_band((#[trigger] nodes[a as int].shape[j]).x as int)
                    && in_band(nodes[a as int].shape[j].y as int),
            decreases nodes[a as int].shape.len() - k,
        {
            let c = node.shape[k];
            if !in_band_exec(c.x) || !in_band_exec(c.y) {
                return false;
            }
            k += 1;
        }
        a += 1;
    }
    true
}

/// Acts with the editor's tool at the cursor (see `apply_editor_tool_at_world`) when the
/// coordinates lie within the band of `coords_bounded`; otherwise does nothing.
pub open spec fn tool_applied_at_cursor(o: SkillTreeRuntime, n: SkillTreeRuntime, click: bool) -> bool {
    if coords_bounded(o, o.editor.cursor_world) {
        spec_tool_applied(o, n, click, o.editor.cursor_world)
    } else {
        !click && n == o
    }
}

// ---- Carrying them out ---------------------------------------------------------------------

fn has(keys: &Vec<Key>, key: Key) -> (r: bool)
    ensures
        r == keys@.contains(key),
{
    let mut i: usize = 0;
    while i < keys.len()
        invariant
            i <= keys.len(),
            forall|j: int| 0 <= j < i ==> keys@[j] != key,
        decreases keys.len() - i,
    {
        if keys[i] == key {
            return true;
        }
        i += 1;
    }
    false
}

fn typing_key_at(i: usize) -> (r: Key)
    ensures
        r == typing_key(i as int),
{
    match i {
        0 => Key::Key1, 1 => Key::Key2, 2 => Key::Key3, 3 => Key::Key4, 4 => Key::Key5,
        5 => Key::Key6, 6 => Key::Key7, 7 => Key::Key8, 8 => Key::Key9, 9 => Key::Key0,
        10 => Key::A, 11 => Key::B, 12 => Key::C, 13 => Key::D, 14 => Key::E, 15 => Key::F,
        16 => Key::G, 17 => Key::H, 18 => Key::I, 19 => Key::J, 20 => Key::K, 21 => Key::L,
        22 => Key::M, 23 => Key::N, 24 => Key::O, 25 => Key::P, 26 => Key::Q, 27 => Key::R,
        28 => Key::S, 29 => Key::T, 30 => Key::U, 31 => Key::V, 32 => Key::W, 33 => Key::X,
        34 => Key::Y, 35 => Key::Z, 36 => Key::Space, _ => Key::Minus,
    }
}

/// The character `key` types; see `spec_typed_char`.
pub fn typed_char(key: Key, shift: bool) -> (r: Option<char>)
    ensures
        r == spec_typed_char(key, shift),
{
    let lower = match key {
        Key::A => 'a', Key::B => 'b', Key::C => 'c', Key::D => 'd', Key::E => 'e', Key::F => 'f',
        Key::G => 'g', Key::H => 'h', Key::I => 'i', Key::J => 'j', Key::K => 'k', Key::L => 'l',
        Key::M => 'm', Key::N => 'n', Key::O => 'o', Key::P => 'p', Key::Q => 'q', Key::R => 'r',
        Key::S => 's', Key::T => 't', Key::U => 'u', Key::V => 'v', Key::W => 'w', Key::X => 'x',
        Key::Y => 'y', Key::Z => 'z',
        Key::Key0 => { return Some('0'); }, Key::Key1 => { return Some('1'); },
        Key::Key2 => { return Some('2'); }, Key::Key3 => { return Some('3'); },
        Key::Key4 => { return Some('4'); }, Key::Key5 => { return Some('5'); },
        Key::Key6 => { return Some('6'); }, Key::Key7 => { return Some('7'); },
        Key::Key8 => { return Some('8'); }, Key::Key9 => { return Some('9'); },
        Key::Space => { return Some(' '); },
        Key::Minus => { return Some(if shift { '_' } else { '-' }); },
        _ => { return None; },
    };
    if shift {
        let upper = match key {
            Key::A => 'A', Key::B => 'B', Key::C => 'C', Key::D => 'D', Key::E => 'E', Key::F => 'F',
            Key::G => 'G', Key::H => 'H', Key::I => 'I', Key::J => 'J', Key::K => 'K', Key::L => 'L',
            Key::M => 'M', Key::N => 'N', Key::O => 'O', Key::P => 'P', Key::Q => 'Q', Key::R => 'R',
            Key::S => 'S', Key::T => 'T', Key::U => 'U', Key::V => 'V', Key::W => 'W', Key::X => 'X',
            Key::Y => 'Y', _ => 'Z',
        };
        Some(upper)
    } else {
        Some(lower)
    }
}

fn push_if(ops: &mut Vec<EditorOp>, b: bool, op: EditorOp)
    ensures
        final(ops)@ == old(ops)@ + opt_op(b, op),
{
    if b {
        ops.push(op);
    }
    assert(ops@ =~= old(ops)@ + opt_op(b, op));
}

fn append_ops(ops: &mut Vec<EditorOp>, more: Vec<EditorOp>)
    ensures
        final(ops)@ == old(ops)@ + more@,
{
    let mut i: usize = 0;
    while i < more.len()
        invariant
            i <= more.len(),
            ops@ == old(ops)@ + more@.take(i as int),
        decreases more.len() - i,
    {
        ops.push(more[i]);
        i += 1;
        assert(ops@ =~= old(ops)@ + more@.take(i as int));
    }
    assert(more@.take(i as int) =~= more@);
}

fn typed_search_ops(p: &Vec<Key>, shift: bool) -> (r: Vec<EditorOp>)
    ensures
        r@ == typed_ops(p@, shift, typing_key_count()),
{
    let mut ops: Vec<EditorOp> = Vec::new();
    let mut i: usize = 0;
    while i < 38
        invariant
            i <= 38,
            ops@ == typed_ops(p@, shift, i as int),
        decreases 38 - i,
    {
        let k = typing_key_at(i);
        if has(p, k) {
            match typed_char(k, shift) {
                Some(c) => {
                    ops.push(EditorOp::AppendSearchChar(c));
                },
                None => {},
            }
        }
        i += 1;
        assert(ops@ =~= typed_ops(p@, shift, i as int));
    }
    ops
}

fn search_key_ops(p: &Vec<Key>, shift: bool) -> (r: Vec<EditorOp>)
    ensures
        r@ == search_ops(p@, shift),
{
    let mut ops: Vec<EditorOp> = Vec::new();
    push_if(&mut ops, has(p, Key::Back), EditorOp::PopSearchChar);
    let typed = typed_search_ops(p, shift);
    append_ops(&mut ops, typed);
    if has(p, Key::Return) {
        ops.push(EditorOp::JumpToMatch);
    } else {
        ops.push(EditorOp::ShowQuery);
    }
    assert(ops@ =~= search_ops(p@, shift));
    ops
}

fn move_key_ops(ops: &mut Vec<EditorOp>, c: Vec2i, p: &Vec<Key>, shift: bool)
    ensures
        final(ops)@ == old(ops)@ + move_ops(c, p@, shift),
{
    let j = has(p, Key::J);
    let l = has(p, Key::L);
    let up = has(p, Key::I);
    let down = has(p, Key::K);
    if shift {
        push_if(ops, j, EditorOp::Nudge(Vec2i { x: -1, y: 0 }));
        push_if(ops, l, EditorOp::Nudge(Vec2i { x: 1, y: 0 }));
        push_if(ops, up, EditorOp::Nudge(Vec2i { x: 0, y: 1 }));
        push_if(ops, down, EditorOp::Nudge(Vec2i { x: 0, y: -1 }));
        assert(ops@ =~= old(ops)@ + move_ops(c, p@, shift));
    } else {
        let x1 = if j { sat_add_i32_exec(c.x, -1) } else { c.x };
        let x2 = if l { sat_add_i32_exec(x1, 1) } else { x1 };
        let y1 = if up { sat_add_i32_exec(c.y, 1) } else { c.y };
        let y2 = if down { sat_add_i32_exec(y1, -1) } else { y1 };
        push_if(ops, j || l || up || down, EditorOp::SetCursor(Vec2i { x: x2, y: y2 }));
    }
}

#[verifier::rlimit(60)]
fn tool_key_ops(ops: &mut Vec<EditorOp>, p: &Vec<Key>)
    ensures
        final(ops)@ == old(ops)@ + tool_ops(p@),
{
    let ghost o = ops@;
    let ghost pp = p@;
    push_if(ops, has(p, Key::Key1), EditorOp::SetTool(SkillTreeEditorTool::Select));
    push_if(ops, has(p, Key::Key2), EditorOp::SetTool(SkillTreeEditorTool::Move));
    push_if(ops, has(p, Key::Key3), EditorOp::SetTool(SkillTreeEditorTool::AddCell));
    push_if(ops, has(p, Key::Key4), EditorOp::SetTool(SkillTreeEditorTool::RemoveCell));
    push_if(ops, has(p, Key::Key5), EditorOp::SetTool(SkillTreeEditorTool::ConnectPrereqs));
    push_if(ops, has(p, Key::Tab), EditorOp::CycleTool);
    proof {
        let a = opt_op(pp.contains(Key::Key1), EditorOp::SetTool(SkillTreeEditorTool::Select));
        let b = opt_op(pp.contains(Key::Key2), EditorOp::SetTool(SkillTreeEditorTool::Move));
        let c = opt_op(pp.contains(Key::Key3), EditorOp::SetTool(SkillTreeEditorTool::AddCell));
        let d = opt_op(pp.contains(Key::Key4), EditorOp::SetTool(SkillTreeEditorTool::RemoveCell));
        let e = opt_op(pp.contains(Key::Key5), EditorOp::SetTool(SkillTreeEditorTool::ConnectPrereqs));
        let f = opt_op(pp.contains(Key::Tab), EditorOp::CycleTool);
        assert(tool_ops(pp) == a + b + c + d + e + f);
        assert(ops@ =~= o + (a + b + c + d + e + f));
    }
}

fn editing_key_ops(c: Vec2i, p: &Vec<Key>, shift: bool, ctrl: bool) -> (r: Vec<EditorOp>)
    ensures
        r@ == editing_ops(c, p@, shift, ctrl),
{
    let mut ops: Vec<EditorOp> = Vec::new();
    push_if(&mut ops, ctrl && has(p, Key::Z), EditorOp::Undo);
    push_if(&mut ops, ctrl && has(p, Key::Y), EditorOp::Redo);
    push_if(&mut ops, ctrl && has(p, Key::D), EditorOp::Duplicate);
    move_key_ops(&mut ops, c, p, shift);
    tool_key_ops(&mut ops, p);
    push_if(&mut ops, has(p, Key::Key0), EditorOp::ResetCamera);
    push_if(&mut ops, has(p, Key::F), EditorOp::FocusSelected);
    push_if(&mut ops, has(p, Key::N), EditorOp::CreateNode);
    push_if(&mut ops, has(p, Key::Delete), EditorOp::RequestDelete);
    push_if(&mut ops, has(p, Key::Return) || has(p, Key::Space), EditorOp::ApplyTool);
    assert(ops@ =~= editing_ops(c, p@, shift, ctrl));
    ops
}

/// The operations of a frame of editor keys on the skill tree `st`; see `spec_editor_ops`.
pub fn editor_key_ops(st: &SkillTreeRuntime, keys: &KeyFrame) -> (r: Vec<EditorOp>)
    ensures
        r@ == spec_editor_ops(st.editor.search_open, st.editor.cursor_world, keys.down@, keys.pressed@),
{
    let p = &keys.pressed;
    let shift = has(&keys.down, Key::LShift) || has(&keys.down, Key::RShift);
    let ctrl = has(&keys.down, Key::LControl) || has(&keys.down, Key::RControl);
    let slash = has(p, Key::Slash);
    let mut ops: Vec<EditorOp> = Vec::new();
    push_if(&mut ops, slash && shift, EditorOp::ToggleHelp);
    let rest = if st.editor.search_open {
        search_key_ops(p, shift)
    } else if slash && !shift {
        let mut v: Vec<EditorOp> = Vec::new();
        v.push(EditorOp::OpenSearch);
        v
    } else {
        editing_key_ops(st.editor.cursor_world, p, shift, ctrl)
    };
    append_ops(&mut ops, rest);
    ops
}

/// Carries out one editor operation; see `op_rel`. Returns whether it clicks.
pub fn apply_editor_op(st: &mut SkillTreeRuntime, op: EditorOp) -> (r: bool)
    requires
        old(st).wf(),
    ensures
        final(st).wf(),
        op_rel(*old(st), *final(st), op, r),
{
    match op {
        EditorOp::ToggleHelp => {
            st.editor_toggle_help_overlay();
            true
        },
        EditorOp::PopSearchChar => {
            st.editor_pop_search_char();
            false
        },
        EditorOp::AppendSearchChar(c) => {
            st.editor_append_search_char(c);
            false
        },
        EditorOp::JumpToMatch => {
            let q = st.editor.search_query.clone();
            match st.editor_select_matching(q.as_str()) {
                Some(_) => {
                    st.editor.search_open = false;
                    st.editor.search_query = String::new();
                    true
                },
                None => {
                    st.editor.status = Some(join("NO MATCH: ", q.as_str()));
                    false
                },
            }
        },
        EditorOp::ShowQuery => {
            let s = join("SEARCH ", st.editor.search_query.as_str());
            st.editor.status = Some(s);
            false
        },
        EditorOp::OpenSearch => {
            st.editor_open_search();
            true
        },
        EditorOp::Undo => st.editor_undo(),
        EditorOp::Redo => st.editor_redo(),
        EditorOp::Duplicate => {
            let r = st.editor_duplicate_selected();
            proof {
                assert(duplicated(*old(st), *st, opt_str(r)));
            }
            r.is_some()
        },
        EditorOp::Nudge(d) => st.editor_nudge_selected_by(d),
        EditorOp::SetCursor(w) => {
            st.editor_set_cursor_world(w);
            false
        },
        EditorOp::SetTool(t) => {
            if st.editor.tool != t {
                st.editor_set_tool(t);
                true
            } else {
                false
            }
        },
        EditorOp::CycleTool => {
            st.editor_cycle_tool();
            true
        },
        EditorOp::ResetCamera => {
            st.editor.status = Some(String::from_str("CAMERA RESET"));
            true
        },
        EditorOp::FocusSelected => {
            let sel = match &st.editor.selected {
                Some(s) => Some(s.clone()),
                None => None,
            };
            match sel {
                Some(s) => {
                    if st.node_index(s.as_str()).is_some() {
                        st.editor.status = Some(join("FOCUS ", s.as_str()));
                        true
                    } else {
                        false
                    }
                },
                None => false,
            }
        },
        EditorOp::CreateNode => {
            let pos = st.editor.cursor_world;
            st.editor_create_node_at(pos);
            true
        },
        EditorOp::RequestDelete => st.editor_request_delete_selected(),
        EditorOp::ApplyTool => {
            let world = st.editor.cursor_world;
            if coords_in_band(st, world) {
                proof {
                    lemma_bounded_tool_fits(*st, world);
                }
                apply_editor_tool_at_world(st, world)
            } else {
                false
            }
        },
    }
}

/// A frame of the editor's own keys on the skill tree: the operations of `spec_editor_ops`
/// are carried out in order (see `op_rel`), each that clicks giving a click. What is left to
/// the client: centring the viewport when a jump or focus succeeded, resetting it on 0, and, in
/// the editing mode, saving on S and reloading on R.
pub fn editor_key_frame(st: &mut SkillTreeRuntime, keys: &KeyFrame) -> (r: EditorKeysOutcome)
    requires
        old(st).wf(),
    ensures
        final(st).wf(),
        editor_frame_done(*old(st), *keys, *final(st), r),
{
    let search_open0 = st.editor.search_open;
    let ops = editor_key_ops(st, keys);
    let ghost st0 = *st;
    let ghost mut trace: Seq<SkillTreeRuntime> = seq![*st];
    let ghost mut clicks: Seq<bool> = Seq::empty();
    let mut commands: Vec<HeadfulInputCommand> = Vec::new();
    let mut focus = false;
    let mut i: usize = 0;
    while i < ops.len()
        invariant
            i <= ops.len(),
            st.wf(),
            trace.len() == i + 1,
            clicks.len() == i,
            trace[0] == st0,
            trace.last() == *st,
            forall|j: int| 0 <= j < i ==> #[trigger] op_rel(trace[j], trace[j + 1], ops@[j], clicks[j]),
            commands@ == click_commands(clicks),
            focus == focus_of(ops@, clicks),
        decreases ops.len() - i,
    {
        let op = ops[i];
        let ghost cmds0 = commands@;
        let c = apply_editor_op(st, op);
        if c {
            commands.push(HeadfulInputCommand::PlayClick);
        }
        let is_focus = match op {
            EditorOp::JumpToMatch => true,
            EditorOp::FocusSelected => true,
            _ => false,
        };
        proof {
            let t0 = trace;
            let c0 = clicks;
            trace = trace.push(*st);
            clicks = clicks.push(c);
            assert(clicks.drop_last() =~= c0);
            assert(commands@ =~= click_commands(c0) + (if c { seq![HeadfulInputCommand::PlayClick] } else { Seq::empty() }));
            assert forall|j: int| 0 <= j < i + 1 implies #[trigger] op_rel(trace[j], trace[j + 1], ops@[j], clicks[j]) by {
                if j < i {
                    assert(trace[j] == t0[j]);
                    assert(trace[j + 1] == t0[j + 1]);
                    assert(clicks[j] == c0[j]);
                }
            }
            if c && is_focus {
                assert(clicks[i as int]);
            }
            if focus_of(ops@, clicks) && !(c && is_focus) {
                let k = choose|k: int| 0 <= k < clicks.len() && k < ops@.len() && #[trigger] clicks[k]
                    && (ops@[k] is JumpToMatch || ops@[k] is FocusSelected);
                assert(k < i);
                assert(c0[k]);
            }
        }
        if c && is_focus {
            focus = true;
        }
        i += 1;
    }
    proof {
        let opsv = spec_editor_ops(st0.editor.search_open, st0.editor.cursor_world, keys.down@, keys.pressed@);
        assert(editor_run(st0, opsv, trace, clicks));
    }
    let p = &keys.pressed;
    let shift = has(&keys.down, Key::LShift) || has(&keys.down, Key::RShift);
    let editing = !search_open0 && !(has(p, Key::Slash) && !shift);
    EditorKeysOutcome {
        commands,
        focus_selected: focus,
        camera_reset: editing && has(p, Key::Key0),
        save: editing && has(p, Key::S),
        reload: editing && has(p, Key::R),
    }
}

} // verus!
