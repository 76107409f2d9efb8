//! Keys and menu clicks: which game action a key stands for, how the held and released arrow
//! keys drive the horizontal auto-repeat, what a frame of keys decides in each screen, and
//! what a click on a menu button does.
use vstd::prelude::*;

use crate::headful::input_adapter::{
    spec_on_press, spec_on_release, HeadfulInputCommand, HorizontalDir, HorizontalRepeat, RepeatView,
    UiActionResult,
};
use crate::playtest::InputAction;
use crate::headful::view_transitions::{
    apply_view_event, money_earned_from_run, spec_run_earnings, spec_transition, GameView, GameViewEvent,
};
use crate::skilltree::runtime::{sat_add, spec_editor_toggled, spec_search_closed, spec_tool_set};
use crate::skilltree::{SkillTreeEditorTool, SkillTreeRuntime};
use crate::state::GameState;
use crate::time_span::TimeSpan;

verus! {

/// The keys that the menus, play and the skill-tree editor read; the client maps every other
/// key to `Other`.
#[derive(Debug, Clone, Copy, PartialEq, Eq, Structural)]
pub enum Key {
    Key1,
    Key2,
    Key3,
    Key4,
    Key5,
    Key6,
    Key7,
    Key8,
    Key9,
    Key0,
    A,
    B,
    C,
    D,
    E,
    F,
    G,
    H,
    I,
    J,
    K,
    L,
    M,
    N,
    O,
    P,
    Q,
    R,
    S,
    T,
    U,
    V,
    W,
    X,
    Y,
    Z,
    Escape,
    F3,
    F4,
    Delete,
    Left,
    Up,
    Right,
    Down,
    Back,
    Return,
    Space,
    Tab,
    Equals,
    Minus,
    Slash,
    LShift,
    RShift,
    LControl,
    RControl,
    Other,
}

/// The keys of one frame: those held, those pressed and those released during it.
#[derive(Debug, Clone)]
pub struct KeyFrame {
    pub down: Vec<Key>,
    pub pressed: Vec<Key>,
    pub released: Vec<Key>,
}

/// The game action of a key: arrows and WASD move, rotate and drop softly, Z and X rotate
/// either way, A turns half round, Space drops hard, C holds.
pub open spec fn spec_key_action(key: Key) -> Option<InputAction> {
    match key {
        Key::Left => Some(InputAction::MoveLeft),
        Key::Right | Key::D => Some(InputAction::MoveRight),
        Key::Down | Key::S => Some(InputAction::SoftDrop),
        Key::Up | Key::W => Some(InputAction::RotateCw),
        Key::Z => Some(InputAction::RotateCcw),
        Key::X => Some(InputAction::RotateCw),
        Key::A => Some(InputAction::Rotate180),
        Key::Space => Some(InputAction::HardDrop),
        Key::C => Some(InputAction::Hold),
        _ => None,
    }
}

/// The game action of `key`; see `spec_key_action`.
pub fn map_key_to_action(key: Key) -> (r: Option<InputAction>)
    ensures
        r == spec_key_action(key),
        key == Key::Z ==> r == Some(InputAction::RotateCcw),
        key == Key::X || key == Key::Up || key == Key::W ==> r == Some(InputAction::RotateCw),
        r matches Some(a) ==> is_play_action(a),
{
    proof {
        lemma_turn_keys();
    }
    match key {
        Key::Left => Some(InputAction::MoveLeft),
        Key::Right | Key::D => Some(InputAction::MoveRight),
        Key::Down | Key::S => Some(InputAction::SoftDrop),
        Key::Up | Key::W => Some(InputAction::RotateCw),
        Key::Z => Some(InputAction::RotateCcw),
        Key::X => Some(InputAction::RotateCw),
        Key::A => Some(InputAction::Rotate180),
        Key::Space => Some(InputAction::HardDrop),
        Key::C => Some(InputAction::Hold),
        _ => None,
    }
}

fn has_key(keys: &Vec<Key>, key: Key) -> (r: bool)
    ensures
        r == keys@.contains(key),
{
    let mut i: usize = 0;
    while i < keys.len()
        invariant
            i <= keys.len(),
            forall|j: int| 0 <= j < i ==> keys@[j] != key,
        decreases keys.len() - i,
    {
        if keys[i] == key {
            return true;
        }
        i += 1;
    }
    false
}

/// The actions that keys can ask for: all but the empty action and the gravity tick.
pub open spec fn is_play_action(a: InputAction) -> bool {
    !(a is Noop) && !(a is GravityTick)
}

/// Every action of play comes from some key (moving either way, the soft drop, turning
/// clockwise, counter-clockwise or half round, the hard drop, holding), and no key asks for
/// anything else.
pub proof fn lemma_every_play_action_has_a_key(a: InputAction)
    ensures
        is_play_action(a) <==> exists|k: Key| spec_key_action(k) == Some(a),
{
    if is_play_action(a) {
        let k = match a {
            InputAction::MoveLeft => Key::Left,
            InputAction::MoveRight => Key::Right,
            InputAction::SoftDrop => Key::Down,
            InputAction::RotateCw => Key::X,
            InputAction::RotateCcw => Key::Z,
            InputAction::Rotate180 => Key::A,
            InputAction::HardDrop => Key::Space,
            _ => Key::C,
        };
        assert(spec_key_action(k) == Some(a));
    }
}

/// The turn keys: Z turns counter-clockwise while X, Up and W turn clockwise, so Z undoes X;
/// A turns half round. The arrow keys move the way they point (D as Right, S as Down), Space
/// drops hard and C holds.
pub proof fn lemma_turn_keys()
    ensures
        spec_key_action(Key::Z) == Some(InputAction::RotateCcw),
        spec_key_action(Key::X) == Some(InputAction::RotateCw),
        spec_key_action(Key::Up) == Some(InputAction::RotateCw),
        spec_key_action(Key::W) == Some(InputAction::RotateCw),
        spec_key_action(Key::A) == Some(InputAction::Rotate180),
        spec_key_action(Key::Left) == Some(InputAction::MoveLeft),
        spec_key_action(Key::Right) == Some(InputAction::MoveRight),
        spec_key_action(Key::D) == Some(InputAction::MoveRight),
        spec_key_action(Key::Down) == Some(InputAction::SoftDrop),
        spec_key_action(Key::S) == Some(InputAction::SoftDrop),
        spec_key_action(Key::Space) == Some(InputAction::HardDrop),
        spec_key_action(Key::C) == Some(InputAction::Hold),
{
}

/// The auto-repeat after one side's keys: a release of a side no longer held ends it; a held
/// side not yet down is pressed (its first move comes out when the press counts); a side
/// shown up while still marked down is released.
pub open spec fn spec_sync_side(
    r: RepeatView,
    dir: HorizontalDir,
    down_now: bool,
    now: int,
) -> (RepeatView, Seq<InputAction>) {
    let was = if dir == HorizontalDir::Left { r.left_down } else { r.right_down };
    if down_now && !was {
        let (r2, counted) = spec_on_press(r, dir, now);
        (r2, if counted {
            seq![if dir == HorizontalDir::Left { InputAction::MoveLeft } else { InputAction::MoveRight }]
        } else {
            Seq::empty()
        })
    } else if !down_now && was {
        (spec_on_release(r, dir, now), Seq::empty())
    } else {
        (r, Seq::empty())
    }
}

/// The auto-repeat after a frame of keys (Left for the left side, Right or D for the right):
/// first the released sides no longer held are let go, then each side is brought in line
/// with what is held, left before right. Returns the first moves of newly pressed sides.
pub open spec fn spec_sync(r: RepeatView, down: Seq<Key>, released: Seq<Key>, now: int) -> (RepeatView, Seq<InputAction>) {
    let left_now = down.contains(Key::Left);
    let right_now = down.contains(Key::Right) || down.contains(Key::D);
    let right_rel = released.contains(Key::Right) || released.contains(Key::D);
    let r1 = if released.contains(Key::Left) && !left_now && r.left_down {
        spec_on_release(r, HorizontalDir::Left, now)
    } else {
        r
    };
    let r2 = if right_rel && !right_now && r1.right_down {
        spec_on_release(r1, HorizontalDir::Right, now)
    } else {
        r1
    };
    let (r3, a) = spec_sync_side(r2, HorizontalDir::Left, left_now, now);
    let (r4, b) = spec_sync_side(r3, HorizontalDir::Right, right_now, now);
    (r4, a + b)
}

/// Brings the auto-repeat in line with a frame of keys; see `spec_sync`. Returns the
/// initial moves, in order.
pub fn sync_horizontal_repeat_from_frame(keys: &KeyFrame, repeat: &mut HorizontalRepeat, now: TimeSpan) -> (r: Vec<InputAction>)
    ensures
        (final(repeat)@, r@) == spec_sync(old(repeat)@, keys.down@, keys.released@, now@),
{
    let mut out: Vec<InputAction> = Vec::new();
    let left_now = has_key(&keys.down, Key::Left);
    let right_now = has_key(&keys.down, Key::Right) || has_key(&keys.down, Key::D);
    let right_released = has_key(&keys.released, Key::Right) || has_key(&keys.released, Key::D);
    if has_key(&keys.released, Key::Left) && !left_now && repeat.left_down {
        repeat.on_release(HorizontalDir::Left, now);
    }
    if right_released && !right_now && repeat.right_down {
        repeat.on_release(HorizontalDir::Right, now);
    }
    if left_now && !repeat.left_down {
        if repeat.on_press(HorizontalDir::Left, now) {
            out.push(InputAction::MoveLeft);
        }
    } else if !left_now && repeat.left_down {
        repeat.on_release(HorizontalDir::Left, now);
    }
    let ghost mid = out@;
    if right_now && !repeat.right_down {
        if repeat.on_press(HorizontalDir::Right, now) {
            out.push(InputAction::MoveRight);
        }
    } else if !right_now && repeat.right_down {
        repeat.on_release(HorizontalDir::Right, now);
    }
    assert(out@ =~= spec_sync(old(repeat)@, keys.down@, keys.released@, now@).1);
    out
}

/// The keys that act once when pressed during play, in the order they are read.
pub open spec fn action_keys() -> Seq<Key> {
    seq![Key::Up, Key::W, Key::Z, Key::X, Key::A, Key::Space, Key::C]
}

/// The commands of the first `n` action keys that were pressed.
pub open spec fn pressed_actions(pressed: Seq<Key>, n: int) -> Seq<HeadfulInputCommand>
    decreases n,
{
    if n <= 0 {
        Seq::empty()
    } else {
        let k = action_keys()[n - 1];
        pressed_actions(pressed, n - 1) + if pressed.contains(k) && spec_key_action(k) is Some {
            seq![HeadfulInputCommand::ApplyAction(spec_key_action(k)->0)]
        } else {
            Seq::empty()
        }
    }
}

/// The commands of a frame of keys during play (not paused): the initial horizontal moves of
/// the auto-repeat (see `spec_sync`), a soft drop every frame Down or S is held, then the
/// action of each action key pressed (see `action_keys`).
pub open spec fn spec_play_frame(r: RepeatView, keys_down: Seq<Key>, pressed: Seq<Key>, released: Seq<Key>, now: int) -> (RepeatView, Seq<HeadfulInputCommand>) {
    let (r2, moves) = spec_sync(r, keys_down, released, now);
    let soft = if keys_down.contains(Key::Down) || keys_down.contains(Key::S) {
        seq![HeadfulInputCommand::ApplyAction(InputAction::SoftDrop)]
    } else {
        Seq::empty()
    };
    (r2, moves.map_values(|a: InputAction| HeadfulInputCommand::ApplyAction(a)) + soft + pressed_actions(pressed, 7))
}

/// The commands a frame of keys gives during play; see `spec_play_frame`.
pub fn play_keyboard_frame(keys: &KeyFrame, repeat: &mut HorizontalRepeat, now: TimeSpan) -> (r: Vec<HeadfulInputCommand>)
    ensures
        (final(repeat)@, r@) == spec_play_frame(old(repeat)@, keys.down@, keys.pressed@, keys.released@, now@),
{
    let moves = sync_horizontal_repeat_from_frame(keys, repeat, now);
    let mut out: Vec<HeadfulInputCommand> = Vec::new();
    let mut i: usize = 0;
    while i < moves.len()
        invariant
            i <= moves.len(),
            out@ == moves@.take(i as int).map_values(|a: InputAction| HeadfulInputCommand::ApplyAction(a)),
        decreases moves.len() - i,
    {
        out.push(HeadfulInputCommand::ApplyAction(moves[i]));
        i += 1;
        assert(out@ =~= moves@.take(i as int).map_values(|a: InputAction| HeadfulInputCommand::ApplyAction(a)));
    }
    assert(moves@.take(i as int) =~= moves@);
    if has_key(&keys.down, Key::Down) || has_key(&keys.down, Key::S) {
        out.push(HeadfulInputCommand::ApplyAction(InputAction::SoftDrop));
    }
    let ghost base = out@;
    let order = [Key::Up, Key::W, Key::Z, Key::X, Key::A, Key::Space, Key::C];
    assert(order@ =~= action_keys());
    let mut j: usize = 0;
    while j < 7
        invariant
            j <= 7,
            order@ == action_keys(),
            out@ == base + pressed_actions(keys.pressed@, j as int),
        decreases 7 - j,
    {
        let key = order[j];
        if has_key(&keys.pressed, key) {
            match map_key_to_action(key) {
                Some(action) => out.push(HeadfulInputCommand::ApplyAction(action)),
                None => {},
            }
        }
        assert(out@ =~= base + pressed_actions(keys.pressed@, j + 1));
        j += 1;
    }
    out
}

// ---- A frame of keys in every view --------------------------------------------------------------

/// What the skill tree's editor undergoes.
#[derive(Debug, Clone, Copy, PartialEq, Eq, Structural)]
pub enum EditorChange {
    Unchanged,
    Toggled,
    SearchClosed,
}

/// The result of a frame of keys: the commands to run, in order; the event that moved the
/// screen, if any; and whether the editor's own keys remain to be read (see
/// `editor_keys::editor_key_frame`).
#[derive(Debug)]
pub struct KeyboardOutcome {
    pub commands: Vec<HeadfulInputCommand>,
    pub view_event: Option<GameViewEvent>,
    pub editor_keys: bool,
}

/// What a frame of keys decides: the commands before those of play, the screen event, what
/// happens to the editor, whether the auto-repeat is cleared and the gravity clock reset,
/// whether the keys of play follow, and whether the editor's own keys remain to be read.
pub ghost struct KeyPlan {
    pub commands: Seq<HeadfulInputCommand>,
    pub event: Option<GameViewEvent>,
    pub editor: EditorChange,
    pub clear_repeat: bool,
    pub reset_gravity: bool,
    pub play: bool,
    pub editor_keys: bool,
}

/// A plan with a screen event: the commands `pre`, then `ResetRun` when the move from `view`
/// resets the run, then a click.
pub open spec fn moving(
    pre: Seq<HeadfulInputCommand>,
    view: GameView,
    event: GameViewEvent,
    editor: EditorChange,
    clear_repeat: bool,
) -> KeyPlan {
    let reset = if spec_transition(view, event).reset_tetris { seq![HeadfulInputCommand::ResetRun] } else { Seq::empty() };
    KeyPlan {
        commands: pre + reset + seq![HeadfulInputCommand::PlayClick],
        event: Some(event),
        editor,
        clear_repeat,
        reset_gravity: false,
        play: false,
        editor_keys: false,
    }
}

/// A plan without a screen event.
pub open spec fn staying(commands: Seq<HeadfulInputCommand>, editor: EditorChange) -> KeyPlan {
    KeyPlan { commands, event: None, editor, clear_repeat: false, reset_gravity: false, play: false, editor_keys: false }
}

/// The decisions of a frame of keys with `p` pressed, on screen `view`, the editor on or off
/// and its search open or not. F3 toggles the debug overlay and M the music everywhere; then:
/// - main menu: Return or Space start a game; else K opens the skill-tree editor (turning the
///   editor on); else Escape asks to quit;
/// - skill tree: F4 toggles the editor; with the editor on, Escape closes an open search, or
///   else turns the editor off and goes back; other keys are the editor's; with it off,
///   Escape goes back and Return or Space start a game;
/// - game over: Escape goes back, else Return or Space start a game, else K opens the skill
///   tree;
/// - a run: Escape pauses or resumes (resetting the gravity clock); unpaused, the keys of
///   play follow (see `spec_play_frame`).
/// Every event and editor change clicks (after `ResetRun` when the event resets the run);
/// leaving for another screen, other than to start a game, clears the auto-repeat.
pub open spec fn spec_key_plan(view: GameView, editor_on: bool, search_open: bool, p: Seq<Key>) -> KeyPlan {
    let pre = (if p.contains(Key::F3) { seq![HeadfulInputCommand::ToggleDebugHud] } else { Seq::empty() })
        + (if p.contains(Key::M) { seq![HeadfulInputCommand::ToggleMusic] } else { Seq::empty() });
    let click = pre.push(HeadfulInputCommand::PlayClick);
    let start = p.contains(Key::Return) || p.contains(Key::Space);
    let none = EditorChange::Unchanged;
    match view {
        GameView::MainMenu => if start {
            moving(pre, view, GameViewEvent::StartGame, none, false)
        } else if p.contains(Key::K) {
            moving(pre, view, GameViewEvent::OpenSkillTreeEditor, if editor_on { none } else { EditorChange::Toggled }, true)
        } else if p.contains(Key::Escape) {
            staying(pre.push(HeadfulInputCommand::ExitRequested), none)
        } else {
            staying(pre, none)
        },
        GameView::SkillTree => if p.contains(Key::F4) {
            staying(click, EditorChange::Toggled)
        } else if editor_on {
            if p.contains(Key::Escape) {
                if search_open {
                    staying(click, EditorChange::SearchClosed)
                } else {
                    moving(pre, view, GameViewEvent::Back, EditorChange::Toggled, true)
                }
            } else {
                KeyPlan { editor_keys: true, ..staying(pre, none) }
            }
        } else if p.contains(Key::Escape) {
            moving(pre, view, GameViewEvent::Back, none, true)
        } else if start {
            moving(pre, view, GameViewEvent::StartGame, none, false)
        } else {
            staying(pre, none)
        },
        GameView::GameOver => if p.contains(Key::Escape) {
            moving(pre, view, GameViewEvent::Back, none, true)
        } else if start {
            moving(pre, view, GameViewEvent::StartGame, none, false)
        } else if p.contains(Key::K) {
            moving(pre, view, GameViewEvent::OpenSkillTree, none, true)
        } else {
            staying(pre, none)
        },
        GameView::Tetris { paused } => if p.contains(Key::Escape) {
            KeyPlan { reset_gravity: true, ..moving(pre, view, GameViewEvent::TogglePause, none, true) }
        } else if paused {
            staying(pre, none)
        } else {
            KeyPlan { play: true, ..staying(pre, none) }
        },
    }
}

/// The screen after an optional event.
pub open spec fn view_after(view: GameView, event: Option<GameViewEvent>) -> GameView {
    match event {
        Some(e) => spec_transition(view, e).next_view,
        None => view,
    }
}

/// The auto-repeat with no key down.
pub open spec fn cleared_repeat() -> RepeatView {
    RepeatView { left_down: false, right_down: false, active: None, next_repeat_at: None }
}

/// One frame of keys from screen `view`, skill tree `st`, gravity clock `elapsed` and
/// auto-repeat `rep` (see `spec_key_plan`) leads to screen `n_view`, skill tree `n_st`, clock
/// `n_elapsed`, auto-repeat `n_rep`, commands `cmds` and the editor-keys flag `editor_keys`:
/// the planned event moves the screen (see `spec_transition`); the editor is turned on or off
/// (see `SkillTreeRuntime::editor_toggle`), its search closed (`editor_close_search`), or
/// left alone; the clock is reset when planned; the auto-repeat is cleared when planned, or
/// driven by the keys of play (see `spec_play_frame`), whose commands follow the planned
/// ones.
pub open spec fn spec_keyboard_step(
    view: GameView,
    st: SkillTreeRuntime,
    elapsed: int,
    rep: RepeatView,
    keys: KeyFrame,
    now: int,
    n_view: GameView,
    n_st: SkillTreeRuntime,
    n_elapsed: int,
    n_rep: RepeatView,
    cmds: Seq<HeadfulInputCommand>,
    editor_keys: bool,
) -> bool {
    let kp = spec_key_plan(view, st.editor.enabled, st.editor.search_open, keys.pressed@);
    &&& editor_keys == kp.editor_keys
    &&& n_view == view_after(view, kp.event)
    &&& kp.play ==> ({
        let (r2, play) = spec_play_frame(rep, keys.down@, keys.pressed@, keys.released@, now);
        n_rep == r2 && cmds == kp.commands + play
    })
    &&& !kp.play ==> cmds == kp.commands && n_rep == if kp.clear_repeat { cleared_repeat() } else { rep }
    &&& match kp.editor {
        EditorChange::Unchanged => n_st == st,
        EditorChange::Toggled => spec_editor_toggled(st, n_st),
        EditorChange::SearchClosed => spec_search_closed(st, n_st),
    }
    &&& n_elapsed == if kp.reset_gravity { 0 } else { elapsed }
}

fn push_moving(commands: &mut Vec<HeadfulInputCommand>, state: &mut GameState, event: GameViewEvent)
    ensures
        final(commands)@ == old(commands)@ + (if spec_transition(old(state).view, event).reset_tetris {
            seq![HeadfulInputCommand::ResetRun]
        } else {
            Seq::empty()
        }) + seq![HeadfulInputCommand::PlayClick],
        *final(state) == (GameState { view: spec_transition(old(state).view, event).next_view, ..*old(state) }),
{
    let ghost before = commands@;
    let t = apply_view_event(state.view, event);
    state.view = t.next_view;
    if t.reset_tetris {
        commands.push(HeadfulInputCommand::ResetRun);
    }
    commands.push(HeadfulInputCommand::PlayClick);
    assert(commands@ =~= before + (if t.reset_tetris {
        seq![HeadfulInputCommand::ResetRun]
    } else {
        Seq::empty()
    }) + seq![HeadfulInputCommand::PlayClick]);
}

/// A frame of keys on the session's screen; see `spec_keyboard_step`. The game, the round
/// timer and the gravity interval do not change.
pub fn keyboard_frame_step(
    state: &mut GameState,
    keys: &KeyFrame,
    now: TimeSpan,
    repeat: &mut HorizontalRepeat,
) -> (r: KeyboardOutcome)
    ensures
        spec_keyboard_step(
            old(state).view,
            old(state).skilltree,
            old(state)@.gravity_elapsed,
            old(repeat)@,
            *keys,
            now@,
            final(state).view,
            final(state).skilltree,
            final(state)@.gravity_elapsed,
            final(repeat)@,
            r.commands@,
            r.editor_keys,
        ),
        r.view_event == spec_key_plan(
            old(state).view,
            old(state).skilltree.editor.enabled,
            old(state).skilltree.editor.search_open,
            keys.pressed@,
        ).event,
        final(state).tetris == old(state).tetris,
        final(state).round_timer == old(state).round_timer,
        final(state).gravity_interval == old(state).gravity_interval,
{
    let p = &keys.pressed;
    let mut commands: Vec<HeadfulInputCommand> = Vec::new();
    if has_key(p, Key::F3) {
        commands.push(HeadfulInputCommand::ToggleDebugHud);
    }
    if has_key(p, Key::M) {
        commands.push(HeadfulInputCommand::ToggleMusic);
    }
    assert(commands@ =~= (if p@.contains(Key::F3) { seq![HeadfulInputCommand::ToggleDebugHud] } else { Seq::empty() })
        + (if p@.contains(Key::M) { seq![HeadfulInputCommand::ToggleMusic] } else { Seq::empty() }));
    let start = has_key(p, Key::Return) || has_key(p, Key::Space);
    let mut event: Option<GameViewEvent> = None;
    let mut editor_keys = false;
    let view = state.view;
    match view {
        GameView::MainMenu => {
            if start {
                event = Some(GameViewEvent::StartGame);
                push_moving(&mut commands, state, GameViewEvent::StartGame);
            } else if has_key(p, Key::K) {
                event = Some(GameViewEvent::OpenSkillTreeEditor);
                repeat.clear();
                if !state.skilltree.editor.enabled {
                    state.skilltree.editor_toggle();
                }
                push_moving(&mut commands, state, GameViewEvent::OpenSkillTreeEditor);
            } else if has_key(p, Key::Escape) {
                commands.push(HeadfulInputCommand::ExitRequested);
            }
        },
        GameView::SkillTree => {
            if has_key(p, Key::F4) {
                state.skilltree.editor_toggle();
                commands.push(HeadfulInputCommand::PlayClick);
            } else if state.skilltree.editor.enabled {
                if has_key(p, Key::Escape) {
                    if state.skilltree.editor.search_open {
                        state.skilltree.editor_close_search();
                        commands.push(HeadfulInputCommand::PlayClick);
                    } else {
                        state.skilltree.editor_toggle();
                        event = Some(GameViewEvent::Back);
                        repeat.clear();
                        push_moving(&mut commands, state, GameViewEvent::Back);
                    }
                } else {
                    editor_keys = true;
                }
            } else if has_key(p, Key::Escape) {
                event = Some(GameViewEvent::Back);
                repeat.clear();
                push_moving(&mut commands, state, GameViewEvent::Back);
            } else if start {
                event = Some(GameViewEvent::StartGame);
                push_moving(&mut commands, state, GameViewEvent::StartGame);
            }
        },
        GameView::GameOver => {
            if has_key(p, Key::Escape) {
                event = Some(GameViewEvent::Back);
                repeat.clear();
                push_moving(&mut commands, state, GameViewEvent::Back);
            } else if start {
                event = Some(GameViewEvent::StartGame);
                push_moving(&mut commands, state, GameViewEvent::StartGame);
            } else if has_key(p, Key::K) {
                event = Some(GameViewEvent::OpenSkillTree);
                repeat.clear();
                push_moving(&mut commands, state, GameViewEvent::OpenSkillTree);
            }
        },
        GameView::Tetris { paused } => {
            if has_key(p, Key::Escape) {
                event = Some(GameViewEvent::TogglePause);
                push_moving(&mut commands, state, GameViewEvent::TogglePause);
                state.gravity_elapsed = TimeSpan::zero();
                repeat.clear();
            } else if !paused {
                let ghost before = commands@;
                let play = play_keyboard_frame(keys, repeat, now);
                let mut i: usize = 0;
                while i < play.len()
                    invariant
                        i <= play.len(),
                        commands@ == before + play@.take(i as int),
                    decreases play.len() - i,
                {
                    commands.push(play[i]);
                    i += 1;
                    assert(commands@ =~= before + play@.take(i as int));
                }
                assert(play@.take(i as int) =~= play@);
            }
        },
    }
    proof {
        let kp = spec_key_plan(old(state).view, old(state).skilltree.editor.enabled, old(state).skilltree.editor.search_open, keys.pressed@);
        if !kp.play {
            assert(commands@ =~= kp.commands);
        } else {
            assert(commands@ =~= kp.commands + spec_play_frame(old(repeat)@, keys.down@, keys.pressed@, keys.released@, now@).1);
        }
    }
    KeyboardOutcome { commands, view_event: event, editor_keys }
}

// ---- Menu buttons ---------------------------------------------------------------------------------

/// The buttons of the menus and of the skill-tree screen.
#[derive(Debug, Clone, Copy, PartialEq, Eq, Structural)]
pub enum UiAction {
    MainMenuStart,
    MainMenuSkillTreeEditor,
    MainMenuQuit,
    PauseResume,
    PauseEndRun,
    GameOverRestart,
    GameOverSkillTree,
    GameOverQuit,
    SkillTreeStartRun,
    SkillTreeTool,
    Other,
}

/// The screen event of a menu button that counts on screen `view` (the editor on or off):
/// the main menu starts a game or opens the editor; the pause menu resumes or ends the run;
/// the game-over screen restarts or opens the skill tree; the skill tree's start button (with
/// the editor off) starts a game.
pub open spec fn ui_event(view: GameView, editor_on: bool, action: UiAction) -> Option<GameViewEvent> {
    match action {
        UiAction::MainMenuStart => if view == GameView::MainMenu { Some(GameViewEvent::StartGame) } else { None },
        UiAction::MainMenuSkillTreeEditor => if view == GameView::MainMenu {
            Some(GameViewEvent::OpenSkillTreeEditor)
        } else {
            None
        },
        UiAction::PauseResume => if view == (GameView::Tetris { paused: true }) { Some(GameViewEvent::TogglePause) } else { None },
        UiAction::PauseEndRun => if view == (GameView::Tetris { paused: true }) { Some(GameViewEvent::GameOver) } else { None },
        UiAction::GameOverRestart => if view == GameView::GameOver { Some(GameViewEvent::StartGame) } else { None },
        UiAction::GameOverSkillTree => if view == GameView::GameOver { Some(GameViewEvent::OpenSkillTree) } else { None },
        UiAction::SkillTreeStartRun => if view == GameView::SkillTree && !editor_on { Some(GameViewEvent::StartGame) } else { None },
        _ => None,
    }
}

/// A quit button that counts: the main menu's on the main menu, the game-over screen's there.
pub open spec fn ui_quit(view: GameView, action: UiAction) -> bool {
    (action == UiAction::MainMenuQuit && view == GameView::MainMenu) || (action == UiAction::GameOverQuit && view
        == GameView::GameOver)
}

/// A click on a menu button of the session's screen: a button with an event (see `ui_event`)
/// moves the screen (see `spec_transition`) and gives `ResetRun` when the move resets the
/// run, then a click; the editor button also turns the editor on; resume resets the gravity
/// clock; a quit button asks to exit (see `ui_quit`). Other buttons do not count and change
/// nothing.
pub fn ui_click_step(state: &mut GameState, action: UiAction) -> (r: UiActionResult)
    ensures
        ({
            let ev = ui_event(old(state).view, old(state).skilltree.editor.enabled, action);
            let quit = ui_quit(old(state).view, action);
            &&& r.handled == (ev is Some || quit)
            &&& quit ==> r.commands@ == seq![HeadfulInputCommand::ExitRequested] && *final(state) == *old(state)
            &&& ev is None && !quit ==> r.commands@.len() == 0 && *final(state) == *old(state)
            &&& ev matches Some(e) ==> ({
                &&& r.commands@ == (if spec_transition(old(state).view, e).reset_tetris {
                    seq![HeadfulInputCommand::ResetRun]
                } else {
                    Seq::empty()
                }) + seq![HeadfulInputCommand::PlayClick]
                &&& final(state).view == spec_transition(old(state).view, e).next_view
                &&& if e == GameViewEvent::OpenSkillTreeEditor && !old(state).skilltree.editor.enabled {
                    spec_editor_toggled(old(state).skilltree, final(state).skilltree)
                } else {
                    final(state).skilltree == old(state).skilltree
                }
                &&& final(state)@.gravity_elapsed == if action == UiAction::PauseResume { 0 } else { old(state)@.gravity_elapsed }
                &&& final(state).tetris == old(state).tetris
                &&& final(state).round_timer == old(state).round_timer
                &&& final(state).gravity_interval == old(state).gravity_interval
            })
        }),
{
    let mut commands: Vec<HeadfulInputCommand> = Vec::new();
    let view = state.view;
    let paused = view == (GameView::Tetris { paused: true });
    let handled = match action {
        UiAction::MainMenuStart => {
            if view == GameView::MainMenu {
                push_moving(&mut commands, state, GameViewEvent::StartGame);
                true
            } else {
                false
            }
        },
        UiAction::MainMenuSkillTreeEditor => {
            if view == GameView::MainMenu {
                if !state.skilltree.editor.enabled {
                    state.skilltree.editor_toggle();
                }
                push_moving(&mut commands, state, GameViewEvent::OpenSkillTreeEditor);
                true
            } else {
                false
            }
        },
        UiAction::MainMenuQuit => {
            if view == GameView::MainMenu {
                commands.push(HeadfulInputCommand::ExitRequested);
                true
            } else {
                false
            }
        },
        UiAction::PauseResume => {
            if paused {
                push_moving(&mut commands, state, GameViewEvent::TogglePause);
                state.gravity_elapsed = TimeSpan::zero();
                true
            } else {
                false
            }
        },
        UiAction::PauseEndRun => {
            if paused {
                push_moving(&mut commands, state, GameViewEvent::GameOver);
                true
            } else {
                false
            }
        },
        UiAction::GameOverRestart => {
            if view == GameView::GameOver {
                push_moving(&mut commands, state, GameViewEvent::StartGame);
                true
            } else {
                false
            }
        },
        UiAction::GameOverSkillTree => {
            if view == GameView::GameOver {
                push_moving(&mut commands, state, GameViewEvent::OpenSkillTree);
                true
            } else {
                false
            }
        },
        UiAction::GameOverQuit => {
            if view == GameView::GameOver {
                commands.push(HeadfulInputCommand::ExitRequested);
                true
            } else {
                false
            }
        },
        UiAction::SkillTreeStartRun => {
            if view == GameView::SkillTree && !state.skilltree.editor.enabled {
                push_moving(&mut commands, state, GameViewEvent::StartGame);
                true
            } else {
                false
            }
        },
        _ => false,
    };
    assert(commands@.len() == 0 ==> commands@ =~= Seq::<HeadfulInputCommand>::empty());
    UiActionResult { handled, commands }
}

// ---- Buttons of the view tree -------------------------------------------------------------------

/// The buttons the screens are built with.
#[derive(Debug, Clone, Copy, PartialEq, Eq, Structural)]
pub enum GameUiAction {
    StartGame,
    OpenSkillTreeEditor,
    Quit,
    PauseToggle,
    Resume,
    EndRun,
    HoldPiece,
    Restart,
    OpenSkillTree,
    SkillTreeToolSelect,
    SkillTreeToolMove,
    SkillTreeToolAddCell,
    SkillTreeToolRemoveCell,
    SkillTreeToolConnect,
}

/// What a button of the view tree leaves to the client: whether it counts, whether the run
/// is to be reset, a click sound, a request to exit, and the hold action to play.
#[derive(Debug, Clone, Copy, PartialEq, Eq, Structural)]
pub struct ViewTreeOutcome {
    pub handled: bool,
    pub reset_run: bool,
    pub click: bool,
    pub exit: bool,
    pub hold: bool,
}

/// The tool of a tool button.
pub open spec fn button_tool(action: GameUiAction) -> Option<SkillTreeEditorTool> {
    match action {
        GameUiAction::SkillTreeToolSelect => Some(SkillTreeEditorTool::Select),
        GameUiAction::SkillTreeToolMove => Some(SkillTreeEditorTool::Move),
        GameUiAction::SkillTreeToolAddCell => Some(SkillTreeEditorTool::AddCell),
        GameUiAction::SkillTreeToolRemoveCell => Some(SkillTreeEditorTool::RemoveCell),
        GameUiAction::SkillTreeToolConnect => Some(SkillTreeEditorTool::ConnectPrereqs),
        _ => None,
    }
}

/// The screen event of a view-tree button that counts on screen `view`: start (main menu)
/// and restart (game over) start a game; the editor button (main menu) opens the editor;
/// the pause button (any run) and resume (paused run) toggle the pause; end run (paused run)
/// ends it; skill tree (game over) opens it.
pub open spec fn tree_event(view: GameView, action: GameUiAction) -> Option<GameViewEvent> {
    let paused = view == (GameView::Tetris { paused: true });
    match action {
        GameUiAction::StartGame => if view == GameView::MainMenu { Some(GameViewEvent::StartGame) } else { None },
        GameUiAction::OpenSkillTreeEditor => if view == GameView::MainMenu { Some(GameViewEvent::OpenSkillTreeEditor) } else { None },
        GameUiAction::PauseToggle => if view is Tetris { Some(GameViewEvent::TogglePause) } else { None },
        GameUiAction::Resume => if paused { Some(GameViewEvent::TogglePause) } else { None },
        GameUiAction::EndRun => if paused { Some(GameViewEvent::GameOver) } else { None },
        GameUiAction::Restart => if view == GameView::GameOver { Some(GameViewEvent::StartGame) } else { None },
        GameUiAction::OpenSkillTree => if view == GameView::GameOver { Some(GameViewEvent::OpenSkillTree) } else { None },
        _ => None,
    }
}

/// What a view-tree button does on screen `view`: a button with an event (see `tree_event`)
/// clicks and resets the run when its move does; quit (main menu or game over) asks to exit,
/// silently; hold (run being played) holds the piece, silently; a tool button (skill tree,
/// editor on) clicks. Other clicks do not count.
pub open spec fn spec_view_tree(view: GameView, editor_on: bool, action: GameUiAction) -> ViewTreeOutcome {
    let no = ViewTreeOutcome { handled: false, reset_run: false, click: false, exit: false, hold: false };
    match tree_event(view, action) {
        Some(e) => ViewTreeOutcome {
            handled: true,
            reset_run: spec_transition(view, e).reset_tetris,
            click: true,
            exit: false,
            hold: false,
        },
        None => if action == GameUiAction::Quit && (view == GameView::MainMenu || view == GameView::GameOver) {
            ViewTreeOutcome { exit: true, handled: true, ..no }
        } else if action == GameUiAction::HoldPiece && view == (GameView::Tetris { paused: false }) {
            ViewTreeOutcome { hold: true, handled: true, ..no }
        } else if button_tool(action) is Some && view == GameView::SkillTree && editor_on {
            ViewTreeOutcome { click: true, handled: true, ..no }
        } else {
            no
        },
    }
}

fn move_view(state: &mut GameState, event: GameViewEvent) -> (reset: bool)
    ensures
        reset == spec_transition(old(state).view, event).reset_tetris,
        *final(state) == (GameState { view: spec_transition(old(state).view, event).next_view, ..*old(state) }),
{
    let t = apply_view_event(state.view, event);
    state.view = t.next_view;
    t.reset_tetris
}

/// A click on a view-tree button on the session's screen; see `spec_view_tree`. Besides, the
/// button's event moves the screen (see `spec_transition`); the editor button turns the editor
/// on; the pause and resume buttons reset the gravity clock; end run adds the run's earnings
/// (`money_earned_from_run`) to the money; the editor, end-run and skill-tree buttons clear the
/// auto-repeat; a tool button sets its tool (see `SkillTreeRuntime::editor_set_tool`).
pub fn apply_view_tree_action(state: &mut GameState, action: GameUiAction, repeat: &mut HorizontalRepeat) -> (r: ViewTreeOutcome)
    requires
        spec_run_earnings(old(state)@.game) <= u32::MAX,
    ensures
        r == spec_view_tree(old(state).view, old(state).skilltree.editor.enabled, action),
        final(state).view == view_after(old(state).view, tree_event(old(state).view, action)),
        final(state).tetris == old(state).tetris,
        final(state).round_timer == old(state).round_timer,
        final(state).gravity_interval == old(state).gravity_interval,
        final(state)@.gravity_elapsed == if r.handled && (action == GameUiAction::PauseToggle || action == GameUiAction::Resume) {
            0
        } else {
            old(state)@.gravity_elapsed
        },
        final(repeat)@ == if r.handled && (action == GameUiAction::OpenSkillTreeEditor || action == GameUiAction::EndRun
            || action == GameUiAction::OpenSkillTree) {
            cleared_repeat()
        } else {
            old(repeat)@
        },
        r.handled && action == GameUiAction::OpenSkillTreeEditor && !old(state).skilltree.editor.enabled
            ==> spec_editor_toggled(old(state).skilltree, final(state).skilltree),
        r.handled && button_tool(action) is Some
            ==> spec_tool_set(old(state).skilltree, final(state).skilltree, button_tool(action)->0),
        r.handled && action == GameUiAction::EndRun ==> final(state).skilltree.progress.money == sat_add(
            old(state).skilltree.progress.money,
            spec_run_earnings(old(state)@.game) as u32,
        ) && final(state).skilltree.progress.unlocked == old(state).skilltree.progress.unlocked
            && final(state).skilltree.progress.version == old(state).skilltree.progress.version
            && final(state).skilltree.def == old(state).skilltree.def
            && final(state).skilltree.editor == old(state).skilltree.editor
            && final(state).skilltree.editor_history == old(state).skilltree.editor_history,
        !(r.handled && (button_tool(action) is Some || action == GameUiAction::EndRun || (action
            == GameUiAction::OpenSkillTreeEditor && !old(state).skilltree.editor.enabled)))
            ==> final(state).skilltree == old(state).skilltree,
{
    let view = state.view;
    let paused = view == (GameView::Tetris { paused: true });
    let no = ViewTreeOutcome { handled: false, reset_run: false, click: false, exit: false, hold: false };
    match action {
        GameUiAction::StartGame => {
            if view == GameView::MainMenu {
                let reset = move_view(state, GameViewEvent::StartGame);
                return ViewTreeOutcome { handled: true, reset_run: reset, click: true, exit: false, hold: false };
            }
        },
        GameUiAction::OpenSkillTreeEditor => {
            if view == GameView::MainMenu {
                let reset = move_view(state, GameViewEvent::OpenSkillTreeEditor);
                repeat.clear();
                if !state.skilltree.editor.enabled {
                    state.skilltree.editor_toggle();
                }
                return ViewTreeOutcome { handled: true, reset_run: reset, click: true, exit: false, hold: false };
            }
        },
        GameUiAction::Quit => {
            if view == GameView::MainMenu || view == GameView::GameOver {
                return ViewTreeOutcome { handled: true, reset_run: false, click: false, exit: true, hold: false };
            }
        },
        GameUiAction::PauseToggle => {
            if view.is_tetris() {
                let reset = move_view(state, GameViewEvent::TogglePause);
                state.gravity_elapsed = TimeSpan::zero();
                return ViewTreeOutcome { handled: true, reset_run: reset, click: true, exit: false, hold: false };
            }
        },
        GameUiAction::Resume => {
            if paused {
                let reset = move_view(state, GameViewEvent::TogglePause);
                state.gravity_elapsed = TimeSpan::zero();
                return ViewTreeOutcome { handled: true, reset_run: reset, click: true, exit: false, hold: false };
            }
        },
        GameUiAction::EndRun => {
            if paused {
                let earned = money_earned_from_run(state);
                if earned > 0 {
                    state.skilltree.add_money(earned);
                }
                let reset = move_view(state, GameViewEvent::GameOver);
                repeat.clear();
                return ViewTreeOutcome { handled: true, reset_run: reset, click: true, exit: false, hold: false };
            }
        },
        GameUiAction::HoldPiece => {
            if view == (GameView::Tetris { paused: false }) {
                return ViewTreeOutcome { handled: true, reset_run: false, click: false, exit: false, hold: true };
            }
        },
        GameUiAction::Restart => {
            if view == GameView::GameOver {
                let reset = move_view(state, GameViewEvent::StartGame);
                return ViewTreeOutcome { handled: true, reset_run: reset, click: true, exit: false, hold: false };
            }
        },
        GameUiAction::OpenSkillTree => {
            if view == GameView::GameOver {
                let reset = move_view(state, GameViewEvent::OpenSkillTree);
                repeat.clear();
                return ViewTreeOutcome { handled: true, reset_run: reset, click: true, exit: false, hold: false };
            }
        },
        _ => {
            if view == GameView::SkillTree && state.skilltree.editor.enabled {
                let tool = match action {
                    GameUiAction::SkillTreeToolSelect => SkillTreeEditorTool::Select,
                    GameUiAction::SkillTreeToolMove => SkillTreeEditorTool::Move,
                    GameUiAction::SkillTreeToolAddCell => SkillTreeEditorTool::AddCell,
                    GameUiAction::SkillTreeToolRemoveCell => SkillTreeEditorTool::RemoveCell,
                    _ => SkillTreeEditorTool::ConnectPrereqs,
                };
                state.skilltree.editor_set_tool(tool);
                return ViewTreeOutcome { handled: true, reset_run: false, click: true, exit: false, hold: false };
            }
        },
    }
    no
}

} // verus!
