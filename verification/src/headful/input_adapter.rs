//! Keyboard handling: our own horizontal auto-repeat and the commands the client runs.
use vstd::prelude::*;

use crate::headful::skilltree_camera::{scan_fits, skilltree_node_at_world, spec_node_at};
use crate::piece::Vec2i;
use crate::playtest::InputAction;
use crate::skilltree::runtime::{
    cell_edit_fits, opt_str, rel_cell, rel_fits, spec_add_cell, spec_cell_edited, spec_moved,
    spec_node_index, spec_prereq_toggled, spec_remove_cell, spec_selected, spec_selection_cleared,
};
use crate::skilltree::{join, SkillTreeEditorState, SkillTreeEditorTool, SkillTreeRuntime};
use crate::time_span::{max_total, TimeSpan};

verus! {

#[derive(Debug, Clone, Copy, PartialEq, Eq, Structural)]
pub enum HorizontalDir {
    Left,
    Right,
}

pub ghost struct RepeatView {
    pub left_down: bool,
    pub right_down: bool,
    pub active: Option<HorizontalDir>,
    pub next_repeat_at: Option<int>,
}

/// Horizontal auto-repeat driven by our own timer, not by the system's key repeat, so other
/// key presses do not interrupt it. Times are spans since a fixed origin.
#[derive(Debug)]
pub struct HorizontalRepeat {
    pub left_down: bool,
    pub right_down: bool,
    pub active: Option<HorizontalDir>,
    pub next_repeat_at: Option<TimeSpan>,
}

impl View for HorizontalRepeat {
    type V = RepeatView;

    open spec fn view(&self) -> RepeatView {
        RepeatView {
            left_down: self.left_down,
            right_down: self.right_down,
            active: self.active,
            next_repeat_at: match self.next_repeat_at {
                Some(t) => Some(t@),
                None => None,
            },
        }
    }
}

impl Default for HorizontalRepeat {
    fn default() -> (r: Self)
        ensures
            r@ == (RepeatView { left_down: false, right_down: false, active: None, next_repeat_at: None }),
    {
        HorizontalRepeat { left_down: false, right_down: false, active: None, next_repeat_at: None }
    }
}

/// Delay before the first repeat: 170 ms.
pub open spec fn spec_repeat_delay() -> int {
    170_000_000
}

/// Interval between repeats: 50 ms.
pub open spec fn spec_repeat_interval() -> int {
    50_000_000
}

/// `now` plus `d` nanoseconds, at most the largest span.
pub open spec fn spec_later(now: int, d: int) -> int {
    if now + d > max_total() { max_total() } else { now + d }
}

pub open spec fn spec_on_press(r: RepeatView, dir: HorizontalDir, now: int) -> (RepeatView, bool) {
    let was_down = match dir {
        HorizontalDir::Left => r.left_down,
        HorizontalDir::Right => r.right_down,
    };
    if was_down {
        (r, false)
    } else {
        (
            RepeatView {
                left_down: if dir == HorizontalDir::Left { true } else { r.left_down },
                right_down: if dir == HorizontalDir::Right { true } else { r.right_down },
                active: Some(dir),
                next_repeat_at: Some(spec_later(now, spec_repeat_delay())),
            },
            true,
        )
    }
}

pub open spec fn spec_on_release(r: RepeatView, dir: HorizontalDir, now: int) -> RepeatView {
    let r1 = RepeatView {
        left_down: if dir == HorizontalDir::Left { false } else { r.left_down },
        right_down: if dir == HorizontalDir::Right { false } else { r.right_down },
        ..r
    };
    if r.active != Some(dir) {
        r1
    } else {
        let new_active = match dir {
            HorizontalDir::Left => if r1.right_down { Some(HorizontalDir::Right) } else { None },
            HorizontalDir::Right => if r1.left_down { Some(HorizontalDir::Left) } else { None },
        };
        RepeatView {
            active: new_active,
            next_repeat_at: if new_active is Some { Some(spec_later(now, spec_repeat_delay())) } else { None },
            ..r1
        }
    }
}

pub open spec fn spec_next_repeat(r: RepeatView, now: int) -> (RepeatView, Option<InputAction>) {
    match (r.active, r.next_repeat_at) {
        (Some(dir), Some(next_at)) => if now < next_at {
            (r, None)
        } else {
            (
                RepeatView { next_repeat_at: Some(spec_later(now, spec_repeat_interval())), ..r },
                Some(
                    match dir {
                        HorizontalDir::Left => InputAction::MoveLeft,
                        HorizontalDir::Right => InputAction::MoveRight,
                    },
                ),
            )
        },
        _ => (r, None),
    }
}

impl HorizontalRepeat {
    /// Delay before the first repeat.
    pub fn repeat_delay() -> (r: TimeSpan)
        ensures
            r@ == spec_repeat_delay(),
    {
        TimeSpan::from_millis(170)
    }

    /// Interval between repeats.
    pub fn repeat_interval() -> (r: TimeSpan)
        ensures
            r@ == spec_repeat_interval(),
    {
        TimeSpan::from_millis(50)
    }

    /// Releases both directions and stops repeating.
    pub fn clear(&mut self)
        ensures
            final(self)@ == (RepeatView { left_down: false, right_down: false, active: None, next_repeat_at: None }),
    {
        self.left_down = false;
        self.right_down = false;
        self.active = None;
        self.next_repeat_at = None;
    }

    /// A key press: ignored (false) while the direction is already held, as the system's
    /// repeated presses are; otherwise the direction becomes active and repeats after the
    /// delay (the due time saturating at the largest span).
    pub fn on_press(&mut self, dir: HorizontalDir, now: TimeSpan) -> (r: bool)
        ensures
            (final(self)@, r) == spec_on_press(old(self)@, dir, now@),
    {
        let was_down = match dir {
            HorizontalDir::Left => self.left_down,
            HorizontalDir::Right => self.right_down,
        };
        if was_down {
            return false;
        }
        match dir {
            HorizontalDir::Left => self.left_down = true,
            HorizontalDir::Right => self.right_down = true,
        }
        self.active = Some(dir);
        self.next_repeat_at = Some(now.saturating_add(Self::repeat_delay()));
        true
    }

    /// A key release: when the active direction is released, the other one takes over if it
    /// is still held (repeating after the delay), else repeating stops.
    pub fn on_release(&mut self, dir: HorizontalDir, now: TimeSpan)
        ensures
            final(self)@ == spec_on_release(old(self)@, dir, now@),
    {
        match dir {
            HorizontalDir::Left => self.left_down = false,
            HorizontalDir::Right => self.right_down = false,
        }
        if self.active != Some(dir) {
            return;
        }
        let new_active = match dir {
            HorizontalDir::Left => if self.right_down {
                Some(HorizontalDir::Right)
            } else {
                None
            },
            HorizontalDir::Right => if self.left_down {
                Some(HorizontalDir::Left)
            } else {
                None
            },
        };
        self.active = new_active;
        self.next_repeat_at = match new_active {
            Some(_) => Some(now.saturating_add(Self::repeat_delay())),
            None => None,
        };
    }

    /// The repeated move due at `now`, if any; the next one is then due an interval later.
    pub fn next_repeat_action(&mut self, now: TimeSpan) -> (r: Option<InputAction>)
        ensures
            (final(self)@, r) == spec_next_repeat(old(self)@, now@),
    {
        let dir = match self.active {
            Some(d) => d,
            None => return None,
        };
        let next_at = match self.next_repeat_at {
            Some(t) => t,
            None => return None,
        };
        if !now.at_least(&next_at) {
            return None;
        }
        self.next_repeat_at = Some(now.saturating_add(Self::repeat_interval()));
        Some(
            match dir {
                HorizontalDir::Left => InputAction::MoveLeft,
                HorizontalDir::Right => InputAction::MoveRight,
            },
        )
    }
}

/// Commands the client carries out for an input.
#[derive(Debug, Clone, Copy, PartialEq, Eq, Structural)]
pub enum HeadfulInputCommand {
    ToggleDebugHud,
    ToggleMusic,
    ExitRequested,
    PlayClick,
    ResetRun,
    ApplyAction(InputAction),
}

/// Whether a UI action was handled, and the commands it produced.
#[derive(Debug)]
pub struct UiActionResult {
    pub handled: bool,
    pub commands: Vec<HeadfulInputCommand>,
}

impl Default for UiActionResult {
    fn default() -> (r: Self)
        ensures
            !r.handled && r.commands@.len() == 0,
    {
        UiActionResult { handled: false, commands: Vec::new() }
    }
}

/// Gameplay actions come often; only the hard drop plays the action sound.
pub fn should_play_action_sfx(action: InputAction) -> (r: bool)
    ensures
        r == (action == InputAction::HardDrop),
{
    match action {
        InputAction::HardDrop => true,
        _ => false,
    }
}


// ---- The skill-tree editor's pointer and keyboard cursor -----------------------------------

/// The runtime with the editor's cursor on `world`.
pub open spec fn with_cursor(o: SkillTreeRuntime, world: Vec2i) -> SkillTreeRuntime {
    SkillTreeRuntime { editor: SkillTreeEditorState { cursor_world: world, ..o.editor }, ..o }
}

/// The id of the node under `world`.
pub open spec fn hit_id(o: SkillTreeRuntime, world: Vec2i) -> Option<Seq<char>> {
    match spec_node_at(o.def@.nodes, world) {
        Some(a) => Some(o.def@.nodes[a].id),
        None => None,
    }
}

/// The grab offset of a move, or none.
pub open spec fn grab_or_zero(o: SkillTreeRuntime) -> Vec2i {
    match o.editor.move_grab_offset {
        Some(g) => g,
        None => Vec2i { x: 0, y: 0 },
    }
}

/// A node lies under `world` and it is not the selected one.
pub open spec fn picks_other(o: SkillTreeRuntime, world: Vec2i) -> bool {
    hit_id(o, world) is Some && opt_str(o.editor.selected) != hit_id(o, world)
}

/// The tool's action at `world` can be carried out without leaving `i32`.
pub open spec fn tool_action_fits(o: SkillTreeRuntime, world: Vec2i) -> bool {
    let hit = hit_id(o, world);
    let o1 = with_cursor(o, world);
    &&& scan_fits(o.def@.nodes, world)
    &&& (o.editor.tool == SkillTreeEditorTool::Move && hit is Some
        && spec_node_index(o.def@.nodes, hit->0) is Some) ==> rel_fits(
        o.def@.nodes[spec_node_index(o.def@.nodes, hit->0)->0].pos,
        world,
    )
    &&& (o.editor.tool == SkillTreeEditorTool::Move && hit is None) ==> rel_fits(grab_or_zero(o), world)
    &&& (o.editor.tool == SkillTreeEditorTool::AddCell && !picks_other(o, world))
        ==> cell_edit_fits(o1, world, |s: Seq<Vec2i>, c: Vec2i| spec_add_cell(s, c))
    &&& (o.editor.tool == SkillTreeEditorTool::RemoveCell && !picks_other(o, world))
        ==> cell_edit_fits(o1, world, |s: Seq<Vec2i>, c: Vec2i| spec_remove_cell(s, c))
}

/// Select: the node under the cursor is selected, or the selection cleared.
#[verifier::opaque]
pub open spec fn spec_select_tool(o1: SkillTreeRuntime, n: SkillTreeRuntime, r: bool, hit: Option<Seq<char>>) -> bool {
    match hit {
        Some(id) => r && spec_selected(o1, n, id, None),
        None => !r && spec_selection_cleared(o1, n),
    }
}

/// Move: the node under the cursor is selected with the grab offset to its anchor, or the
/// selection moves so that its grab offset lands on the cursor.
#[verifier::opaque]
pub open spec fn spec_move_tool(o1: SkillTreeRuntime, n: SkillTreeRuntime, r: bool, hit: Option<Seq<char>>, world: Vec2i) -> bool {
    match hit {
        Some(id) => r && match spec_node_index(o1.def@.nodes, id) {
            Some(i) => spec_selected(o1, n, id, Some(rel_cell(o1.def@.nodes[i].pos, world))),
            None => spec_selected(o1, n, id, None),
        },
        None => spec_moved(o1, n, r, rel_cell(grab_or_zero(o1), world)),
    }
}

/// AddCell or RemoveCell: a node under the cursor that is not selected gets selected; else the
/// cell edit happens.
#[verifier::opaque]
pub open spec fn spec_cell_tool(
    o1: SkillTreeRuntime,
    n: SkillTreeRuntime,
    r: bool,
    hit: Option<Seq<char>>,
    world: Vec2i,
    edit: spec_fn(Seq<Vec2i>, Vec2i) -> Option<Seq<Vec2i>>,
    label: Seq<char>,
) -> bool {
    if hit is Some && opt_str(o1.editor.selected) != hit {
        r && spec_selected(o1, n, hit->0, None)
    } else {
        spec_cell_edited(o1, n, r, world, edit, label)
    }
}

/// ConnectPrereqs: the node under the cursor becomes the prerequisite source, or a source
/// picked again is dropped, or the source is linked to the node under the cursor.
#[verifier::opaque]
pub open spec fn spec_connect_tool(o1: SkillTreeRuntime, n: SkillTreeRuntime, r: bool, hit: Option<Seq<char>>) -> bool {
    match hit {
        None => !r && n == o1,
        Some(id) => match opt_str(o1.editor.connect_from) {
            Some(from) => if from == id {
                &&& !r
                &&& opt_str(n.editor.status) == Some("LINK SOURCE CLEARED"@)
                &&& n == (SkillTreeRuntime {
                    editor: SkillTreeEditorState { connect_from: None, status: n.editor.status, ..o1.editor },
                    ..o1
                })
            } else {
                &&& r
                &&& spec_prereq_toggled(o1, n, true, from, id)
                &&& opt_str(n.editor.status) == Some("LINK "@ + from + " -> "@ + id + " (SOURCE "@ + from + ")"@)
            },
            None => {
                &&& r
                &&& opt_str(n.editor.connect_from) == Some(id)
                &&& opt_str(n.editor.status) == Some("LINK SOURCE "@ + id)
                &&& n == (SkillTreeRuntime {
                    editor: SkillTreeEditorState { connect_from: n.editor.connect_from, status: n.editor.status, ..o1.editor },
                    ..o1
                })
            },
        },
    }
}

/// What the editor's tool does at `world`, the cursor moved there first.
pub open spec fn spec_tool_applied(o: SkillTreeRuntime, n: SkillTreeRuntime, r: bool, world: Vec2i) -> bool {
    let hit = hit_id(o, world);
    let o1 = with_cursor(o, world);
    match o.editor.tool {
        SkillTreeEditorTool::Select => spec_select_tool(o1, n, r, hit),
        SkillTreeEditorTool::Move => spec_move_tool(o1, n, r, hit, world),
        SkillTreeEditorTool::AddCell => spec_cell_tool(o1, n, r, hit, world, |s: Seq<Vec2i>, c: Vec2i| spec_add_cell(s, c), "ADD"@),
        SkillTreeEditorTool::RemoveCell => spec_cell_tool(o1, n, r, hit, world, |s: Seq<Vec2i>, c: Vec2i| spec_remove_cell(s, c), "REMOVE"@),
        SkillTreeEditorTool::ConnectPrereqs => spec_connect_tool(o1, n, r, hit),
    }
}

fn select_tool(skilltree: &mut SkillTreeRuntime, hit: Option<String>) -> (r: bool)
    requires
        old(skilltree).wf(),
    ensures
        final(skilltree).wf(),
        spec_select_tool(*old(skilltree), *final(skilltree), r, opt_str(hit)),
{
    reveal(spec_select_tool);
    match hit {
        Some(id) => {
            skilltree.editor_select(id.as_str(), None);
            true
        },
        None => {
            skilltree.editor_clear_selection();
            false
        },
    }
}

fn move_tool(skilltree: &mut SkillTreeRuntime, hit: Option<String>, world: Vec2i) -> (r: bool)
    requires
        old(skilltree).wf(),
        (hit is Some && spec_node_index(old(skilltree).def@.nodes, opt_str(hit)->0) is Some) ==> rel_fits(
            old(skilltree).def@.nodes[spec_node_index(old(skilltree).def@.nodes, opt_str(hit)->0)->0].pos,
            world,
        ),
        hit is None ==> rel_fits(grab_or_zero(*old(skilltree)), world),
    ensures
        final(skilltree).wf(),
        spec_move_tool(*old(skilltree), *final(skilltree), r, opt_str(hit), world),
{
    reveal(spec_move_tool);
    match hit {
        Some(id) => {
            match skilltree.node_index(id.as_str()) {
                Some(idx) => {
                    let pos = skilltree.def.nodes[idx].pos;
                    assert(pos == old(skilltree).def@.nodes[idx as int].pos);
                    let grab = Vec2i::new(world.x - pos.x, world.y - pos.y);
                    skilltree.editor_select(id.as_str(), Some(grab));
                },
                None => {
                    skilltree.editor_select(id.as_str(), None);
                },
            }
            true
        },
        None => {
            let grab = match skilltree.editor.move_grab_offset {
                Some(g) => g,
                None => Vec2i::new(0, 0),
            };
            let new_pos = Vec2i::new(world.x - grab.x, world.y - grab.y);
            skilltree.editor_move_selected_to(new_pos)
        },
    }
}

fn cell_tool(skilltree: &mut SkillTreeRuntime, hit: Option<String>, world: Vec2i, add: bool) -> (r: bool)
    requires
        old(skilltree).wf(),
        !(hit is Some && opt_str(old(skilltree).editor.selected) != opt_str(hit)) ==> (if add {
            cell_edit_fits(*old(skilltree), world, |s: Seq<Vec2i>, c: Vec2i| spec_add_cell(s, c))
        } else {
            cell_edit_fits(*old(skilltree), world, |s: Seq<Vec2i>, c: Vec2i| spec_remove_cell(s, c))
        }),
    ensures
        final(skilltree).wf(),
        add ==> spec_cell_tool(*old(skilltree), *final(skilltree), r, opt_str(hit), world, |s: Seq<Vec2i>, c: Vec2i| spec_add_cell(s, c), "ADD"@),
        !add ==> spec_cell_tool(*old(skilltree), *final(skilltree), r, opt_str(hit), world, |s: Seq<Vec2i>, c: Vec2i| spec_remove_cell(s, c), "REMOVE"@),
{
    reveal(spec_cell_tool);
    match &hit {
        Some(id) => {
            let already = match &skilltree.editor.selected {
                Some(s) => crate::editor_actions::str_eq(s.as_str(), id.as_str()),
                None => false,
            };
            if !already {
                skilltree.editor_select(id.as_str(), None);
                return true;
            }
        },
        None => {},
    }
    if add {
        skilltree.editor_add_cell_at_world(world)
    } else {
        skilltree.editor_remove_cell_at_world(world)
    }
}

fn connect_tool(skilltree: &mut SkillTreeRuntime, hit: Option<String>) -> (r: bool)
    requires
        old(skilltree).wf(),
        hit matches Some(id) ==> node_ids_contain(*old(skilltree), id@),
    ensures
        final(skilltree).wf(),
        spec_connect_tool(*old(skilltree), *final(skilltree), r, opt_str(hit)),
{
    reveal(spec_connect_tool);
    match hit {
        Some(id) => {
            match &skilltree.editor.connect_from {
                Some(f) => {
                    let from = f.clone();
                    if crate::editor_actions::str_eq(from.as_str(), id.as_str()) {
                        skilltree.editor.connect_from = None;
                        skilltree.editor.status = Some(String::from_str("LINK SOURCE CLEARED"));
                        return false;
                    }
                    assert(spec_node_index(old(skilltree).def@.nodes, id@) is Some) by {
                        crate::skilltree::runtime::lemma_node_index(old(skilltree).def@.nodes, id@);
                    }
                    if skilltree.editor_toggle_prereq(from.as_str(), id.as_str()) {
                        let s1 = join("LINK ", from.as_str());
                        let s2 = join(s1.as_str(), " -> ");
                        let s3 = join(s2.as_str(), id.as_str());
                        let s4 = join(s3.as_str(), " (SOURCE ");
                        let s5 = join(s4.as_str(), from.as_str());
                        let status = join(s5.as_str(), ")");
                        proof {
                            reveal_strlit("LINK ");
                            reveal_strlit(" -> ");
                            reveal_strlit(" (SOURCE ");
                            reveal_strlit(")");
                        }
                        skilltree.editor.status = Some(status);
                        return true;
                    }
                    false
                },
                None => {
                    let status = join("LINK SOURCE ", id.as_str());
                    proof {
                        reveal_strlit("LINK SOURCE ");
                    }
                    skilltree.editor.connect_from = Some(id);
                    skilltree.editor.status = Some(status);
                    true
                },
            }
        },
        None => false,
    }
}

/// Some node has id `id`.
pub open spec fn node_ids_contain(o: SkillTreeRuntime, id: Seq<char>) -> bool {
    exists|a: int| 0 <= a < o.def@.nodes.len() && #[trigger] o.def@.nodes[a].id == id
}

/// Applies the editor's tool at the world cell `world`; see `spec_tool_applied`. Returns
/// whether something happened that deserves a click.
pub fn apply_editor_tool_at_world(skilltree: &mut SkillTreeRuntime, world: Vec2i) -> (r: bool)
    requires
        old(skilltree).wf(),
        tool_action_fits(*old(skilltree), world),
    ensures
        final(skilltree).wf(),
        spec_tool_applied(*old(skilltree), *final(skilltree), r, world),
{
    skilltree.editor_set_cursor_world(world);
    let ghost o1 = *skilltree;
    assert(o1 == with_cursor(*old(skilltree), world));
    let hit: Option<String> = match skilltree_node_at_world(skilltree, world) {
        Some(s) => Some(s.to_owned()),
        None => None,
    };
    assert(opt_str(hit) == hit_id(*old(skilltree), world));
    match skilltree.editor.tool {
        SkillTreeEditorTool::Select => select_tool(skilltree, hit),
        SkillTreeEditorTool::Move => move_tool(skilltree, hit, world),
        SkillTreeEditorTool::AddCell => cell_tool(skilltree, hit, world, true),
        SkillTreeEditorTool::RemoveCell => cell_tool(skilltree, hit, world, false),
        SkillTreeEditorTool::ConnectPrereqs => connect_tool(skilltree, hit),
    }
}

} // verus!
