//! The skill tree at run time: definition, player progress and the in-game editor.
use vstd::prelude::*;

use crate::piece::Vec2i;
use crate::skilltree::{
    contains_str, copy_cells, first_free_number, join, numbered, numbered_id, push_chars,
    shape_canonical, spec_first_free, lex_lt, sat_add_i32, sat_add_i32_exec, normalize_and_validate, nodes_view, nodes_canonical, DefView, NodeView, shapes_fit, spec_normalized, lemma_normalized_fits, NodeState,
    SkillEffect, SkillNodeDef, SkillTreeDef, SkillTreeEditorState, SkillTreeProgress,
    SkillTreeRunMods,
};
use crate::tetris_core::setup::{clone_strings, spec_is_whitespace, string_from_chars};
use crate::tetris_core::strings_view;
use crate::skilltree::SkillTreeEditorTool;

verus! {

// ---- Specifications ------------------------------------------------------------------------

/// The ids of the nodes, in order.
pub open spec fn node_ids(nodes: Seq<NodeView>) -> Seq<Seq<char>> {
    nodes.map_values(|n: NodeView| n.id)
}

pub open spec fn opt_str(o: Option<String>) -> Option<Seq<char>> {
    match o {
        Some(s) => Some(s@),
        None => None,
    }
}

/// The unlocked ids that name a node, in order.
pub open spec fn keep_known(unlocked: Seq<Seq<char>>, ids: Seq<Seq<char>>) -> Seq<Seq<char>>
    decreases unlocked.len(),
{
    if unlocked.len() == 0 {
        unlocked
    } else {
        let p = keep_known(unlocked.drop_last(), ids);
        if ids.contains(unlocked.last()) { p.push(unlocked.last()) } else { p }
    }
}

/// Unlocked ids after a rebuild: those that name a node, and "start" added at the end when a
/// node has that id and it was not kept.
pub open spec fn spec_prune_unlocked(unlocked: Seq<Seq<char>>, ids: Seq<Seq<char>>) -> Seq<Seq<char>> {
    let kept = keep_known(unlocked, ids);
    if ids.contains("start"@) && !kept.contains("start"@) { kept.push("start"@) } else { kept }
}

/// `a + b`, or the largest `u32` when that overflows.
pub open spec fn sat_add(a: u32, b: u32) -> u32 {
    if a + b > u32::MAX { u32::MAX } else { (a + b) as u32 }
}

/// `a + b` capped at `cap` (saturating first).
pub open spec fn capped_add(a: u32, b: u32, cap: u32) -> u32 {
    let s = sat_add(a, b);
    if s < cap { s } else { cap }
}

pub const MAX_DEEP_SHAFT_ROWS: u32 = 3;
pub const MAX_ORE_WEIGHT_POINTS: u32 = 6;
pub const MAX_COIN_WEIGHT_POINTS: u32 = 3;
pub const MAX_ORE_SCORE_BONUS: u32 = 50;
pub const MAX_COIN_SCORE_BONUS: u32 = 120;
pub const MAX_ORE_MONEY_BONUS: u32 = 2;
pub const MAX_COIN_MONEY_BONUS: u32 = 6;
pub const MAX_HOLE_CHANCE_BP: u32 = 10_000;

/// The modifiers after one more unlocked effect: round time, score bonus and gravity add up
/// (saturating); the others add up to their caps.
pub open spec fn spec_apply_effect(m: SkillTreeRunMods, e: SkillEffect) -> SkillTreeRunMods {
    match e {
        SkillEffect::NoEffect => m,
        SkillEffect::AddRoundTimeSeconds { seconds } => SkillTreeRunMods {
            extra_round_time_seconds: sat_add(m.extra_round_time_seconds, seconds),
            ..m
        },
        SkillEffect::AddScoreBonus { bonus } => SkillTreeRunMods {
            score_bonus_per_line: sat_add(m.score_bonus_per_line, bonus),
            ..m
        },
        SkillEffect::FasterGravity { percent } => SkillTreeRunMods {
            gravity_faster_percent: sat_add(m.gravity_faster_percent, percent),
            ..m
        },
        SkillEffect::AddDeepShaftRows { rows } => SkillTreeRunMods {
            deep_shaft_rows: capped_add(m.deep_shaft_rows, rows, MAX_DEEP_SHAFT_ROWS),
            ..m
        },
        SkillEffect::AddOreWeight { points } => SkillTreeRunMods {
            ore_weight_points: capped_add(m.ore_weight_points, points, MAX_ORE_WEIGHT_POINTS),
            ..m
        },
        SkillEffect::AddCoinWeight { points } => SkillTreeRunMods {
            coin_weight_points: capped_add(m.coin_weight_points, points, MAX_COIN_WEIGHT_POINTS),
            ..m
        },
        SkillEffect::AddOreScoreValue { points } => SkillTreeRunMods {
            ore_score_bonus: capped_add(m.ore_score_bonus, points, MAX_ORE_SCORE_BONUS),
            ..m
        },
        SkillEffect::AddCoinScoreValue { points } => SkillTreeRunMods {
            coin_score_bonus: capped_add(m.coin_score_bonus, points, MAX_COIN_SCORE_BONUS),
            ..m
        },
        SkillEffect::AddOreMoneyValue { points } => SkillTreeRunMods {
            ore_money_bonus: capped_add(m.ore_money_bonus, points, MAX_ORE_MONEY_BONUS),
            ..m
        },
        SkillEffect::AddCoinMoneyValue { points } => SkillTreeRunMods {
            coin_money_bonus: capped_add(m.coin_money_bonus, points, MAX_COIN_MONEY_BONUS),
            ..m
        },
        SkillEffect::AddHolePatchChanceBp { basis_points } => SkillTreeRunMods {
            hole_patch_chance_bp: capped_add(m.hole_patch_chance_bp, basis_points, MAX_HOLE_CHANCE_BP),
            ..m
        },
        SkillEffect::AddHoleAlignChanceBp { basis_points } => SkillTreeRunMods {
            hole_align_chance_bp: capped_add(m.hole_align_chance_bp, basis_points, MAX_HOLE_CHANCE_BP),
            ..m
        },
    }
}

/// The modifiers of the unlocked nodes among `nodes`, applied in node order from none.
pub open spec fn spec_run_mods(nodes: Seq<NodeView>, unlocked: Seq<Seq<char>>) -> SkillTreeRunMods
    decreases nodes.len(),
{
    if nodes.len() == 0 {
        crate::skilltree::spec_no_mods()
    } else {
        let m = spec_run_mods(nodes.drop_last(), unlocked);
        if unlocked.contains(nodes.last().id) { spec_apply_effect(m, nodes.last().effect) } else { m }
    }
}

/// Every capped modifier is within its cap.
pub open spec fn mods_within_caps(m: SkillTreeRunMods) -> bool {
    &&& m.deep_shaft_rows <= MAX_DEEP_SHAFT_ROWS
    &&& m.ore_weight_points <= MAX_ORE_WEIGHT_POINTS
    &&& m.coin_weight_points <= MAX_COIN_WEIGHT_POINTS
    &&& m.ore_score_bonus <= MAX_ORE_SCORE_BONUS
    &&& m.coin_score_bonus <= MAX_COIN_SCORE_BONUS
    &&& m.ore_money_bonus <= MAX_ORE_MONEY_BONUS
    &&& m.coin_money_bonus <= MAX_COIN_MONEY_BONUS
    &&& m.hole_patch_chance_bp <= MAX_HOLE_CHANCE_BP
    &&& m.hole_align_chance_bp <= MAX_HOLE_CHANCE_BP
}

/// However many nodes are unlocked, no capped modifier passes its cap.
pub proof fn lemma_run_mods_within_caps(nodes: Seq<NodeView>, unlocked: Seq<Seq<char>>)
    ensures
        mods_within_caps(spec_run_mods(nodes, unlocked)),
    decreases nodes.len(),
{
    if nodes.len() > 0 {
        lemma_run_mods_within_caps(nodes.drop_last(), unlocked);
    }
}

/// The amount an effect adds to modifier `k` (0 round time, 1 score bonus, 2 gravity, 3 deep
/// shaft, 4 ore weight, 5 coin weight, 6 ore score, 7 coin score, 8 ore money, 9 coin money,
/// 10 hole patch, 11 hole align); zero for the other modifiers.
pub open spec fn effect_amount(e: SkillEffect, k: int) -> int {
    match e {
        SkillEffect::NoEffect => 0,
        SkillEffect::AddRoundTimeSeconds { seconds } => if k == 0 { seconds as int } else { 0 },
        SkillEffect::AddScoreBonus { bonus } => if k == 1 { bonus as int } else { 0 },
        SkillEffect::FasterGravity { percent } => if k == 2 { percent as int } else { 0 },
        SkillEffect::AddDeepShaftRows { rows } => if k == 3 { rows as int } else { 0 },
        SkillEffect::AddOreWeight { points } => if k == 4 { points as int } else { 0 },
        SkillEffect::AddCoinWeight { points } => if k == 5 { points as int } else { 0 },
        SkillEffect::AddOreScoreValue { points } => if k == 6 { points as int } else { 0 },
        SkillEffect::AddCoinScoreValue { points } => if k == 7 { points as int } else { 0 },
        SkillEffect::AddOreMoneyValue { points } => if k == 8 { points as int } else { 0 },
        SkillEffect::AddCoinMoneyValue { points } => if k == 9 { points as int } else { 0 },
        SkillEffect::AddHolePatchChanceBp { basis_points } => if k == 10 { basis_points as int } else { 0 },
        SkillEffect::AddHoleAlignChanceBp { basis_points } => if k == 11 { basis_points as int } else { 0 },
    }
}

/// Modifier `k` (numbered as in `effect_amount`).
pub open spec fn mod_field(m: SkillTreeRunMods, k: int) -> int {
    if k == 0 { m.extra_round_time_seconds as int }
    else if k == 1 { m.score_bonus_per_line as int }
    else if k == 2 { m.gravity_faster_percent as int }
    else if k == 3 { m.deep_shaft_rows as int }
    else if k == 4 { m.ore_weight_points as int }
    else if k == 5 { m.coin_weight_points as int }
    else if k == 6 { m.ore_score_bonus as int }
    else if k == 7 { m.coin_score_bonus as int }
    else if k == 8 { m.ore_money_bonus as int }
    else if k == 9 { m.coin_money_bonus as int }
    else if k == 10 { m.hole_patch_chance_bp as int }
    else { m.hole_align_chance_bp as int }
}

/// The cap of modifier `k`: its `MAX_*` constant, or `u32::MAX` for the first three.
pub open spec fn mod_cap(k: int) -> int {
    if k <= 2 { u32::MAX as int }
    else if k == 3 { MAX_DEEP_SHAFT_ROWS as int }
    else if k == 4 { MAX_ORE_WEIGHT_POINTS as int }
    else if k == 5 { MAX_COIN_WEIGHT_POINTS as int }
    else if k == 6 { MAX_ORE_SCORE_BONUS as int }
    else if k == 7 { MAX_COIN_SCORE_BONUS as int }
    else if k == 8 { MAX_ORE_MONEY_BONUS as int }
    else if k == 9 { MAX_COIN_MONEY_BONUS as int }
    else { MAX_HOLE_CHANCE_BP as int }
}

/// The sum of what the unlocked nodes among `nodes` add to modifier `k`.
pub open spec fn effect_total(nodes: Seq<NodeView>, unlocked: Seq<Seq<char>>, k: int) -> int
    decreases nodes.len(),
{
    if nodes.len() == 0 {
        0
    } else {
        effect_total(nodes.drop_last(), unlocked, k) + if unlocked.contains(nodes.last().id) {
            effect_amount(nodes.last().effect, k)
        } else {
            0
        }
    }
}

/// Each modifier of the unlocked skills is the sum of what they add to it, capped: at its
/// `MAX_*` constant for the bottomwell modifiers, at `u32::MAX` for round time, score bonus
/// and gravity; locked nodes add nothing.
pub proof fn lemma_run_mods_are_capped_sums(nodes: Seq<NodeView>, unlocked: Seq<Seq<char>>, k: int)
    requires
        0 <= k < 12,
    ensures
        mod_field(spec_run_mods(nodes, unlocked), k) == (if effect_total(nodes, unlocked, k) < mod_cap(k) {
            effect_total(nodes, unlocked, k)
        } else {
            mod_cap(k)
        }),
        effect_total(nodes, unlocked, k) >= 0,
    decreases nodes.len(),
{
    if nodes.len() > 0 {
        lemma_run_mods_are_capped_sums(nodes.drop_last(), unlocked, k);
    }
}

/// A node's state: unlocked; available when every prerequisite is unlocked; else locked.
pub open spec fn spec_node_state(unlocked: Seq<Seq<char>>, node: NodeView) -> NodeState {
    if unlocked.contains(node.id) {
        NodeState::Unlocked
    } else if forall|i: int| 0 <= i < node.requires.len() ==> unlocked.contains(#[trigger] node.requires[i]) {
        NodeState::Available
    } else {
        NodeState::Locked
    }
}

/// The first node with id `id`.
pub open spec fn spec_node_index(nodes: Seq<NodeView>, id: Seq<char>) -> Option<int>
    decreases nodes.len(),
{
    if nodes.len() == 0 {
        None
    } else {
        match spec_node_index(nodes.drop_last(), id) {
            Some(i) => Some(i),
            None => if nodes.last().id == id { Some(nodes.len() - 1) } else { None },
        }
    }
}

/// The first index with an id holds that id, and no earlier node does; without one, no node has it.
pub proof fn lemma_node_index(nodes: Seq<NodeView>, id: Seq<char>)
    ensures
        spec_node_index(nodes, id) matches Some(i) ==> 0 <= i < nodes.len() && nodes[i].id == id
            && forall|j: int| 0 <= j < i ==> (#[trigger] nodes[j]).id != id,
        spec_node_index(nodes, id) is None ==> forall|j: int| 0 <= j < nodes.len() ==> (#[trigger] nodes[j]).id != id,
    decreases nodes.len(),
{
    if nodes.len() > 0 {
        lemma_node_index(nodes.drop_last(), id);
        assert forall|j: int| 0 <= j < nodes.len() - 1 implies (#[trigger] nodes[j]) == nodes.drop_last()[j] by {}
    }
}

/// The first index is the one where the id first occurs.
proof fn lemma_node_index_first(nodes: Seq<NodeView>, id: Seq<char>, i: int)
    requires
        0 <= i < nodes.len(),
        nodes[i].id == id,
        forall|j: int| 0 <= j < i ==> (#[trigger] nodes[j]).id != id,
    ensures
        spec_node_index(nodes, id) == Some(i),
{
    lemma_node_index(nodes, id);
    match spec_node_index(nodes, id) {
        Some(k) => {
            if k < i {
                assert(nodes[k].id != id);
            } else if k > i {
                assert(nodes[i].id != id);
            }
        },
        None => {
            assert(nodes[i].id != id);
        },
    }
}

// ---- The runtime ---------------------------------------------------------------------------

/// Definitions to go back to and forward to in the editor.
#[derive(Debug, Clone)]
pub struct SkillTreeEditorHistory {
    pub undo_defs: Vec<SkillTreeDef>,
    pub redo_defs: Vec<SkillTreeDef>,
}

/// The definition, the player's progress and the editor, as saved and restored.
#[derive(Debug, Clone)]
pub struct SkillTreeSnapshot {
    pub def: SkillTreeDef,
    pub progress: SkillTreeProgress,
    pub editor: SkillTreeEditorState,
}

/// Definition, progress and editor state, with the queries and edits on them.
#[derive(Debug)]
pub struct SkillTreeRuntime {
    pub def: SkillTreeDef,
    pub progress: SkillTreeProgress,
    pub editor: SkillTreeEditorState,
    pub editor_history: SkillTreeEditorHistory,
}


/// The editor after a rebuild drops references to nodes that are gone: the selection (and its grab
/// offset), the prerequisite source, and a pending delete that no longer matches the selection.
pub open spec fn editor_reconciled(o: SkillTreeEditorState, n: SkillTreeEditorState, ids: Seq<Seq<char>>) -> bool {
    let sel_gone = o.selected matches Some(s) && !ids.contains(s@);
    &&& n.selected == (if sel_gone { None } else { o.selected })
    &&& n.move_grab_offset == (if sel_gone { None } else { o.move_grab_offset })
    &&& n.connect_from == (if o.connect_from matches Some(c) && !ids.contains(c@) { None } else { o.connect_from })
    &&& n.pending_delete_id == (if opt_str(o.pending_delete_id) != opt_str(n.selected) { None } else { o.pending_delete_id })
    &&& n.enabled == o.enabled
    &&& n.tool == o.tool
    &&& n.help_expanded == o.help_expanded
    &&& n.cursor_world == o.cursor_world
    &&& n.search_open == o.search_open
    &&& n.search_query == o.search_query
    &&& n.dirty == o.dirty
    &&& n.status == o.status
}

/// The definition and progress of `n` are what a rebuild makes of the definition `od` and the
/// progress `op`: the definition normalized (and so canonical), a progress version of 0 set to 1,
/// unlocked ids pruned.
pub open spec fn spec_rebuilt_def(od: DefView, op: SkillTreeProgress, n: SkillTreeRuntime) -> bool {
    &&& spec_normalized(od, n.def@)
    &&& n.progress.version == (if op.version == 0 { 1 } else { op.version })
    &&& n.progress.money == op.money
    &&& strings_view(n.progress.unlocked@) == spec_prune_unlocked(
        strings_view(op.unlocked@),
        node_ids(n.def@.nodes),
    )
    &&& nodes_canonical(n.def@.nodes)
}

/// `n` is `o` after a rebuild: the definition normalized, the progress version fixed, unlocked ids
/// pruned, the editor reconciled, the history kept.
pub open spec fn spec_rebuilt(o: SkillTreeRuntime, n: SkillTreeRuntime) -> bool {
    &&& spec_rebuilt_def(o.def@, o.progress, n)
    &&& editor_reconciled(o.editor, n.editor, node_ids(n.def@.nodes))
    &&& n.editor_history == o.editor_history
}

/// The selection after a rebuild against `ids`.
pub open spec fn sel_after(e: SkillTreeEditorState, ids: Seq<Seq<char>>) -> Option<String> {
    if e.selected matches Some(s) && !ids.contains(s@) { None } else { e.selected }
}

/// The grab offset after a rebuild against `ids`.
pub open spec fn grab_after(e: SkillTreeEditorState, ids: Seq<Seq<char>>) -> Option<Vec2i> {
    if e.selected matches Some(s) && !ids.contains(s@) { None } else { e.move_grab_offset }
}

/// The prerequisite source after a rebuild against `ids`.
pub open spec fn connect_after(e: SkillTreeEditorState, ids: Seq<Seq<char>>) -> Option<String> {
    if e.connect_from matches Some(c) && !ids.contains(c@) { None } else { e.connect_from }
}

/// The history as values.
pub open spec fn hist_view(h: Seq<SkillTreeDef>) -> Seq<DefView> {
    h.map_values(|d: SkillTreeDef| d@)
}

/// How many definitions the editor keeps to undo or redo.
pub open spec fn history_limit() -> int {
    128
}

/// `h` with `d` added, the oldest entries dropped past the limit.
pub open spec fn spec_push_history<T>(h: Seq<T>, d: T) -> Seq<T> {
    let p = h.push(d);
    if p.len() > history_limit() { p.skip(p.len() - history_limit()) } else { p }
}

proof fn lemma_push_history_view(h: Seq<SkillTreeDef>, d: SkillTreeDef)
    ensures
        hist_view(spec_push_history(h, d)) == spec_push_history(hist_view(h), d@),
{
    assert(hist_view(h.push(d)) =~= hist_view(h).push(d@));
    let p = h.push(d);
    if p.len() > history_limit() {
        assert(hist_view(p.skip(p.len() - history_limit())) =~= hist_view(p).skip(p.len() - history_limit()));
    }
}

fn find_node(nodes: &Vec<SkillNodeDef>, id: &str) -> (r: Option<usize>)
    ensures
        r matches Some(i) ==> spec_node_index(nodes_view(nodes@), id@) == Some(i as int)
            && i < nodes@.len() && nodes@[i as int].id@ == id@,
        r is None ==> spec_node_index(nodes_view(nodes@), id@) is None,
        r is None <==> !node_ids(nodes_view(nodes@)).contains(id@),
{
    let ghost vs = nodes_view(nodes@);
    let mut i: usize = 0;
    while i < nodes.len()
        invariant
            vs == nodes_view(nodes@),
            i <= nodes@.len(),
            forall|j: int| 0 <= j < i ==> (#[trigger] nodes@[j]).id@ != id@,
        decreases nodes@.len() - i,
    {
        if crate::editor_actions::str_eq(nodes[i].id.as_str(), id) {
            proof {
                assert forall|j: int| 0 <= j < i implies (#[trigger] vs[j]).id != id@ by {
                    assert(vs[j] == nodes@[j]@);
                }
                assert(vs[i as int] == nodes@[i as int]@);
                lemma_node_index_first(vs, id@, i as int);
                assert(node_ids(vs)[i as int] == id@);
            }
            return Some(i);
        }
        i += 1;
    }
    proof {
        lemma_node_index(vs, id@);
        if spec_node_index(vs, id@) is Some {
            let k = spec_node_index(vs, id@)->0;
            assert(vs[k] == nodes@[k]@);
        }
        if node_ids(vs).contains(id@) {
            let k = choose|k: int| 0 <= k < node_ids(vs).len() && node_ids(vs)[k] == id@;
            assert(vs[k] == nodes@[k]@);
        }
    }
    None
}

fn apply_effect(m: SkillTreeRunMods, e: SkillEffect) -> (r: SkillTreeRunMods)
    ensures
        r == spec_apply_effect(m, e),
{
    let mut m = m;
    match e {
        SkillEffect::NoEffect => {},
        SkillEffect::AddRoundTimeSeconds { seconds } => {
            m.extra_round_time_seconds = m.extra_round_time_seconds.saturating_add(seconds);
        },
        SkillEffect::AddScoreBonus { bonus } => {
            m.score_bonus_per_line = m.score_bonus_per_line.saturating_add(bonus);
        },
        SkillEffect::FasterGravity { percent } => {
            m.gravity_faster_percent = m.gravity_faster_percent.saturating_add(percent);
        },
        SkillEffect::AddDeepShaftRows { rows } => {
            m.deep_shaft_rows = cap(m.deep_shaft_rows.saturating_add(rows), MAX_DEEP_SHAFT_ROWS);
        },
        SkillEffect::AddOreWeight { points } => {
            m.ore_weight_points = cap(m.ore_weight_points.saturating_add(points), MAX_ORE_WEIGHT_POINTS);
        },
        SkillEffect::AddCoinWeight { points } => {
            m.coin_weight_points = cap(m.coin_weight_points.saturating_add(points), MAX_COIN_WEIGHT_POINTS);
        },
        SkillEffect::AddOreScoreValue { points } => {
            m.ore_score_bonus = cap(m.ore_score_bonus.saturating_add(points), MAX_ORE_SCORE_BONUS);
        },
        SkillEffect::AddCoinScoreValue { points } => {
            m.coin_score_bonus = cap(m.coin_score_bonus.saturating_add(points), MAX_COIN_SCORE_BONUS);
        },
        SkillEffect::AddOreMoneyValue { points } => {
            m.ore_money_bonus = cap(m.ore_money_bonus.saturating_add(points), MAX_ORE_MONEY_BONUS);
        },
        SkillEffect::AddCoinMoneyValue { points } => {
            m.coin_money_bonus = cap(m.coin_money_bonus.saturating_add(points), MAX_COIN_MONEY_BONUS);
        },
        SkillEffect::AddHolePatchChanceBp { basis_points } => {
            m.hole_patch_chance_bp = cap(m.hole_patch_chance_bp.saturating_add(basis_points), MAX_HOLE_CHANCE_BP);
        },
        SkillEffect::AddHoleAlignChanceBp { basis_points } => {
            m.hole_align_chance_bp = cap(m.hole_align_chance_bp.saturating_add(basis_points), MAX_HOLE_CHANCE_BP);
        },
    }
    m
}

fn cap(v: u32, c: u32) -> (r: u32)
    ensures
        r == (if v < c { v } else { c }),
{
    if v < c { v } else { c }
}

/// The unlocked ids that name a node, and "start" when a node has that id and it was not kept.
fn prune_unlocked(unlocked: &Vec<String>, nodes: &Vec<SkillNodeDef>) -> (r: Vec<String>)
    ensures
        strings_view(r@) == spec_prune_unlocked(strings_view(unlocked@), node_ids(nodes_view(nodes@))),
{
    let ghost ids = node_ids(nodes_view(nodes@));
    let ghost ou = strings_view(unlocked@);
    let mut kept: Vec<String> = Vec::new();
    let mut i: usize = 0;
    while i < unlocked.len()
        invariant
            ids == node_ids(nodes_view(nodes@)),
            ou == strings_view(unlocked@),
            i <= ou.len(),
            strings_view(kept@) == keep_known(ou.take(i as int), ids),
        decreases ou.len() - i,
    {
        assert(ou.take(i + 1).drop_last() =~= ou.take(i as int));
        assert(ou.take(i + 1).last() == ou[i as int]);
        assert(unlocked@[i as int]@ == ou[i as int]);
        let known = find_node(nodes, unlocked[i].as_str()).is_some();
        if known {
            let ghost before = strings_view(kept@);
            kept.push(unlocked[i].clone());
            assert(strings_view(kept@) =~= before.push(ou[i as int]));
        }
        i += 1;
    }
    assert(ou.take(ou.len() as int) =~= ou);
    let start = String::from_str("start");
    if find_node(nodes, start.as_str()).is_some() && !contains_str(&kept, start.as_str()) {
        let ghost before = strings_view(kept@);
        kept.push(start);
        assert(strings_view(kept@) =~= before.push("start"@));
    }
    kept
}

impl SkillTreeRuntime {
    /// Builds a runtime from a snapshot and rebuilds it (see `rebuild_caches`); the history
    /// starts empty.
    pub fn from_snapshot(snapshot: SkillTreeSnapshot) -> (r: Self)
        requires
            shapes_fit(snapshot.def@.nodes),
        ensures
            spec_rebuilt(
                SkillTreeRuntime {
                    def: snapshot.def,
                    progress: snapshot.progress,
                    editor: snapshot.editor,
                    editor_history: r.editor_history,
                },
                r,
            ),
            r.editor_history.undo_defs@.len() == 0,
            r.editor_history.redo_defs@.len() == 0,
    {
        let mut rt = SkillTreeRuntime {
            def: snapshot.def,
            progress: snapshot.progress,
            editor: snapshot.editor,
            editor_history: SkillTreeEditorHistory { undo_defs: Vec::new(), redo_defs: Vec::new() },
        };
        rt.rebuild_caches();
        rt
    }

    /// Normalizes the definition (see `normalize_and_validate`), sets a progress version of 0 to
    /// 1, drops unlocked ids that name no node and unlocks "start" when a node has that id, and
    /// clears editor references to nodes that are gone.
    pub fn rebuild_caches(&mut self)
        requires
            shapes_fit(old(self).def@.nodes),
        ensures
            spec_rebuilt(*old(self), *final(self)),
    {
        let ghost od = self.def@;
        normalize_and_validate(&mut self.def);
        proof {
            crate::skilltree::lemma_normalized_canonical(od, self.def@);
        }
        if self.progress.version == 0 {
            self.progress.version = 1;
        }
        let kept = prune_unlocked(&self.progress.unlocked, &self.def.nodes);
        self.progress.unlocked = kept;
        self.reconcile_editor_references();
    }

    fn reconcile_editor_references(&mut self)
        ensures
            editor_reconciled(old(self).editor, final(self).editor, node_ids(old(self).def@.nodes)),
            final(self).def == old(self).def,
            final(self).progress == old(self).progress,
            final(self).editor_history == old(self).editor_history,
    {
        let sel_gone = match &self.editor.selected {
            Some(s) => find_node(&self.def.nodes, s.as_str()).is_none(),
            None => false,
        };
        if sel_gone {
            self.editor.selected = None;
            self.editor.move_grab_offset = None;
        }
        let conn_gone = match &self.editor.connect_from {
            Some(c) => find_node(&self.def.nodes, c.as_str()).is_none(),
            None => false,
        };
        if conn_gone {
            self.editor.connect_from = None;
        }
        let same = match (&self.editor.pending_delete_id, &self.editor.selected) {
            (Some(p), Some(s)) => crate::editor_actions::str_eq(p.as_str(), s.as_str()),
            (None, None) => true,
            _ => false,
        };
        if !same {
            self.editor.pending_delete_id = None;
        }
    }

    pub fn money(&self) -> (r: u32)
        ensures
            r == self.progress.money,
    {
        self.progress.money
    }

    /// Whether `id` is among the unlocked ids.
    pub fn is_unlocked(&self, id: &str) -> (r: bool)
        ensures
            r == strings_view(self.progress.unlocked@).contains(id@),
    {
        contains_str(&self.progress.unlocked, id)
    }

    /// Unlocked; available when every prerequisite is unlocked; else locked.
    pub fn node_state(&self, node: &SkillNodeDef) -> (r: NodeState)
        ensures
            r == spec_node_state(strings_view(self.progress.unlocked@), node@),
    {
        if self.is_unlocked(node.id.as_str()) {
            return NodeState::Unlocked;
        }
        let ghost u = strings_view(self.progress.unlocked@);
        let mut i: usize = 0;
        while i < node.requires.len()
            invariant
                u == strings_view(self.progress.unlocked@),
                !u.contains(node@.id),
                i <= node.requires@.len(),
                forall|j: int| 0 <= j < i ==> u.contains(#[trigger] node@.requires[j]),
            decreases node.requires@.len() - i,
        {
            if !self.is_unlocked(node.requires[i].as_str()) {
                assert(!u.contains(node@.requires[i as int]));
                return NodeState::Locked;
            }
            i += 1;
        }
        NodeState::Available
    }

    /// The modifiers that the unlocked nodes grant, applied in node order; capped ones stop at
    /// their caps.
    pub fn run_mods(&self) -> (r: SkillTreeRunMods)
        ensures
            r == spec_run_mods(self.def@.nodes, strings_view(self.progress.unlocked@)),
            mods_within_caps(r),
    {
        let ghost u = strings_view(self.progress.unlocked@);
        let ghost nodes = self.def@.nodes;
        let mut mods = SkillTreeRunMods::default();
        let mut i: usize = 0;
        while i < self.def.nodes.len()
            invariant
                u == strings_view(self.progress.unlocked@),
                nodes == self.def@.nodes,
                i <= nodes.len(),
                mods == spec_run_mods(nodes.take(i as int), u),
            decreases nodes.len() - i,
        {
            assert(nodes.take(i + 1).drop_last() =~= nodes.take(i as int));
            if self.is_unlocked(self.def.nodes[i].id.as_str()) {
                mods = apply_effect(mods, self.def.nodes[i].effect);
            }
            i += 1;
        }
        assert(nodes.take(nodes.len() as int) =~= nodes);
        proof {
            lemma_run_mods_within_caps(nodes, u);
        }
        mods
    }

    /// Available and affordable.
    pub fn can_buy(&self, node: &SkillNodeDef) -> (r: bool)
        ensures
            r == (spec_node_state(strings_view(self.progress.unlocked@), node@) == NodeState::Available
                && self.progress.money >= node.cost),
    {
        let st = self.node_state(node);
        (match st {
            NodeState::Available => true,
            _ => false,
        }) && self.progress.money >= node.cost
    }

    /// Buys the node with id `id` when it exists and can be bought: pays its cost and unlocks it.
    /// Returns whether it did; the caller saves the progress then.
    pub fn try_buy(&mut self, id: &str) -> (r: bool)
        ensures
            r == (spec_node_index(old(self).def@.nodes, id@) matches Some(i) && (
                spec_node_state(strings_view(old(self).progress.unlocked@), old(self).def@.nodes[i]) == NodeState::Available
                && old(self).progress.money >= old(self).def@.nodes[i].cost)),
            r ==> (spec_node_index(old(self).def@.nodes, id@) matches Some(i)
                && final(self).progress.money == old(self).progress.money - old(self).def@.nodes[i].cost),
            r ==> strings_view(final(self).progress.unlocked@) == strings_view(old(self).progress.unlocked@).push(id@),
            !r ==> final(self).progress == old(self).progress,
            final(self).progress.version == old(self).progress.version,
            final(self).def == old(self).def,
            final(self).editor == old(self).editor,
            final(self).editor_history == old(self).editor_history,
    {
        let idx = match find_node(&self.def.nodes, id) {
            Some(i) => i,
            None => return false,
        };
        let ok = self.can_buy(&self.def.nodes[idx]);
        if !ok {
            return false;
        }
        let cost = self.def.nodes[idx].cost;
        self.progress.money = self.progress.money - cost;
        if !contains_str(&self.progress.unlocked, id) {
            let ghost before = strings_view(self.progress.unlocked@);
            self.progress.unlocked.push(id.to_owned());
            assert(strings_view(self.progress.unlocked@) =~= before.push(id@));
        } else {
            assert(false);
        }
        true
    }

    /// Adds money, saturating; the caller saves the progress then.
    pub fn add_money(&mut self, amount: u32)
        ensures
            final(self).progress.money == sat_add(old(self).progress.money, amount),
            final(self).progress.unlocked == old(self).progress.unlocked,
            final(self).progress.version == old(self).progress.version,
            final(self).def == old(self).def,
            final(self).editor == old(self).editor,
            final(self).editor_history == old(self).editor_history,
    {
        self.progress.money = self.progress.money.saturating_add(amount);
    }
}


/// `n` is `o` with the editor turned on or off: the status says which; turning it off drops
/// the prerequisite source, the grab offset, a pending delete and the search, and keeps the
/// tool, selection, help, cursor and unsaved flag; nothing else changes.
pub open spec fn spec_editor_toggled(o: SkillTreeRuntime, n: SkillTreeRuntime) -> bool {
    &&& n.editor.enabled == !o.editor.enabled
    &&& opt_str(n.editor.status) == Some(if n.editor.enabled { "EDITOR ON"@ } else { "EDITOR OFF"@ })
    &&& n.editor.enabled ==> n.editor == (SkillTreeEditorState { enabled: true, status: n.editor.status, ..o.editor })
    &&& !n.editor.enabled ==> n.editor.connect_from is None
        && n.editor.move_grab_offset is None
        && n.editor.pending_delete_id is None
        && !n.editor.search_open
        && n.editor.search_query@.len() == 0
        && n.editor.tool == o.editor.tool
        && n.editor.selected == o.editor.selected
        && n.editor.help_expanded == o.editor.help_expanded
        && n.editor.cursor_world == o.editor.cursor_world
        && n.editor.dirty == o.editor.dirty
    &&& n.def == o.def
    &&& n.progress == o.progress
    &&& n.editor_history == o.editor_history
}

/// `n` is `o` with the node search closed and emptied, the status saying so.
pub open spec fn spec_search_closed(o: SkillTreeRuntime, n: SkillTreeRuntime) -> bool {
    &&& !n.editor.search_open
    &&& n.editor.search_query@.len() == 0
    &&& opt_str(n.editor.status) == Some("SEARCH CLOSED"@)
    &&& n.editor == (SkillTreeEditorState {
        search_open: false,
        search_query: n.editor.search_query,
        status: n.editor.status,
        ..o.editor
    })
    &&& n.def == o.def
    &&& n.progress == o.progress
    &&& n.editor_history == o.editor_history
}

/// `n` is `o` with the editor's tool set to `tool`: the prerequisite source is kept only for
/// the linking tool, a pending delete is dropped, and the status names the tool.
pub open spec fn spec_tool_set(o: SkillTreeRuntime, n: SkillTreeRuntime, tool: SkillTreeEditorTool) -> bool {
    &&& n.editor.tool == tool
    &&& n.editor.connect_from == (if tool == SkillTreeEditorTool::ConnectPrereqs { o.editor.connect_from } else { None })
    &&& n.editor.pending_delete_id is None
    &&& opt_str(n.editor.status) == Some("TOOL "@ + tool_name(tool))
    &&& n.editor == (SkillTreeEditorState {
        tool: tool,
        connect_from: n.editor.connect_from,
        pending_delete_id: None,
        status: n.editor.status,
        ..o.editor
    })
    &&& n.def == o.def
    &&& n.progress == o.progress
    &&& n.editor_history == o.editor_history
}

// ---- Editor: small state changes -----------------------------------------------------------

pub open spec fn tool_name(t: SkillTreeEditorTool) -> Seq<char> {
    match t {
        SkillTreeEditorTool::Select => "Select"@,
        SkillTreeEditorTool::Move => "Move"@,
        SkillTreeEditorTool::AddCell => "AddCell"@,
        SkillTreeEditorTool::RemoveCell => "RemoveCell"@,
        SkillTreeEditorTool::ConnectPrereqs => "ConnectPrereqs"@,
    }
}

/// The tool after `t` in the cycle Select, Move, AddCell, RemoveCell, ConnectPrereqs.
pub open spec fn next_tool(t: SkillTreeEditorTool) -> SkillTreeEditorTool {
    match t {
        SkillTreeEditorTool::Select => SkillTreeEditorTool::Move,
        SkillTreeEditorTool::Move => SkillTreeEditorTool::AddCell,
        SkillTreeEditorTool::AddCell => SkillTreeEditorTool::RemoveCell,
        SkillTreeEditorTool::RemoveCell => SkillTreeEditorTool::ConnectPrereqs,
        SkillTreeEditorTool::ConnectPrereqs => SkillTreeEditorTool::Select,
    }
}

/// `s` without its leading whitespace.
pub open spec fn spec_trim_start(s: Seq<char>) -> Seq<char>
    decreases s.len(),
{
    if s.len() > 0 && spec_is_whitespace(s[0]) { spec_trim_start(s.drop_first()) } else { s }
}

/// The prefix of a status that reports a failed load.
pub open spec fn load_error_prefix() -> Seq<char> {
    "SKILLTREE LOAD ERROR:"@
}

fn tool_label(t: SkillTreeEditorTool) -> (r: &'static str)
    ensures
        r@ == tool_name(t),
{
    match t {
        SkillTreeEditorTool::Select => "Select",
        SkillTreeEditorTool::Move => "Move",
        SkillTreeEditorTool::AddCell => "AddCell",
        SkillTreeEditorTool::RemoveCell => "RemoveCell",
        SkillTreeEditorTool::ConnectPrereqs => "ConnectPrereqs",
    }
}

pub(crate) fn starts_with(s: &str, p: &str) -> (r: bool)
    ensures
        r == p@.is_prefix_of(s@),
{
    let n = s.unicode_len();
    let m = p.unicode_len();
    if m > n {
        return false;
    }
    let mut i: usize = 0;
    while i < m
        invariant
            n == s@.len(),
            m == p@.len(),
            m <= n,
            i <= m,
            forall|k: int| 0 <= k < i ==> s@[k] == p@[k],
        decreases m - i,
    {
        if s.get_char(i) != p.get_char(i) {
            return false;
        }
        i += 1;
    }
    true
}

/// The characters of `s` from `from` on, leading whitespace dropped.
fn trimmed_tail(s: &str, from: usize) -> (r: String)
    requires
        from <= s@.len(),
    ensures
        r@ == spec_trim_start(s@.skip(from as int)),
{
    let n = s.unicode_len();
    let mut i: usize = from;
    while i < n && crate::tetris_core::setup::is_whitespace(s.get_char(i))
        invariant
            n == s@.len(),
            from <= i <= n,
            spec_trim_start(s@.skip(from as int)) == spec_trim_start(s@.skip(i as int)),
        decreases n - i,
    {
        assert(s@.skip(i as int).drop_first() =~= s@.skip(i + 1));
        i += 1;
    }
    let mut chars: Vec<char> = Vec::new();
    let mut j: usize = i;
    while j < n
        invariant
            n == s@.len(),
            i <= j <= n,
            chars@ == s@.subrange(i as int, j as int),
        decreases n - j,
    {
        chars.push(s.get_char(j));
        j += 1;
        assert(chars@ =~= s@.subrange(i as int, j as int));
    }
    assert(s@.subrange(i as int, n as int) =~= s@.skip(i as int));
    string_from_chars(&chars)
}

impl SkillTreeRuntime {
    /// The part of the status after the load-error prefix, leading whitespace dropped, when the
    /// status reports a failed load.
    pub fn load_warning_message(&self) -> (r: Option<String>)
        ensures
            opt_str(r) == (match self.editor.status {
                Some(st) => if load_error_prefix().is_prefix_of(st@) {
                    Some(spec_trim_start(st@.skip(load_error_prefix().len() as int)))
                } else {
                    None
                },
                None => None,
            }),
    {
        match &self.editor.status {
            Some(st) => {
                let prefix = "SKILLTREE LOAD ERROR:";
                proof {
                    reveal_strlit("SKILLTREE LOAD ERROR:");
                }
                if starts_with(st.as_str(), prefix) {
                    Some(trimmed_tail(st.as_str(), prefix.unicode_len()))
                } else {
                    None
                }
            },
            None => None,
        }
    }

    /// Reports a failed load in the status, or clears a status that reported one.
    pub fn set_load_warning_status(&mut self, warning: Option<String>)
        ensures
            opt_str(final(self).editor.status) == (match warning {
                Some(w) => Some(load_error_prefix() + " "@ + w@),
                None => match old(self).editor.status {
                    Some(st) => if load_error_prefix().is_prefix_of(st@) { None } else { Some(st@) },
                    None => None,
                },
            }),
            final(self).editor == (SkillTreeEditorState { status: final(self).editor.status, ..old(self).editor }),
            final(self).def == old(self).def,
            final(self).progress == old(self).progress,
            final(self).editor_history == old(self).editor_history,
    {
        match warning {
            Some(w) => {
                let head = "SKILLTREE LOAD ERROR: ";
                proof {
                    reveal_strlit("SKILLTREE LOAD ERROR: ");
                    reveal_strlit("SKILLTREE LOAD ERROR:");
                    reveal_strlit(" ");
                    assert(head@ =~= load_error_prefix() + " "@);
                }
                self.editor.status = Some(join(head, w.as_str()));
            },
            None => {
                let clear = match &self.editor.status {
                    Some(st) => {
                        proof {
                            reveal_strlit("SKILLTREE LOAD ERROR:");
                        }
                        starts_with(st.as_str(), "SKILLTREE LOAD ERROR:")
                    },
                    None => false,
                };
                if clear {
                    self.editor.status = None;
                }
            },
        }
    }

    /// Turns the editor on or off; turning it off drops the prerequisite source, the grab offset,
    /// a pending delete and the search.
    pub fn editor_toggle(&mut self)
        ensures
            spec_editor_toggled(*old(self), *final(self)),
    {
        self.editor.enabled = !self.editor.enabled;
        self.editor.status = Some(if self.editor.enabled {
            String::from_str("EDITOR ON")
        } else {
            String::from_str("EDITOR OFF")
        });
        if !self.editor.enabled {
            self.editor.connect_from = None;
            self.editor.move_grab_offset = None;
            self.editor.pending_delete_id = None;
            self.editor.search_open = false;
            self.editor.search_query = String::new();
        }
    }

    /// Moves to the next tool in the cycle; see `editor_set_tool`.
    pub fn editor_cycle_tool(&mut self)
        ensures
            final(self).editor.tool == next_tool(old(self).editor.tool),
            final(self).editor.connect_from == (if next_tool(old(self).editor.tool) == SkillTreeEditorTool::ConnectPrereqs {
                old(self).editor.connect_from
            } else {
                None
            }),
            final(self).editor.pending_delete_id is None,
            opt_str(final(self).editor.status) == Some("TOOL "@ + tool_name(final(self).editor.tool)),
            final(self).editor == (SkillTreeEditorState {
                tool: final(self).editor.tool,
                connect_from: final(self).editor.connect_from,
                pending_delete_id: None,
                status: final(self).editor.status,
                ..old(self).editor
            }),
            final(self).def == old(self).def,
            final(self).progress == old(self).progress,
            final(self).editor_history == old(self).editor_history,
    {
        let next = match self.editor.tool {
            SkillTreeEditorTool::Select => SkillTreeEditorTool::Move,
            SkillTreeEditorTool::Move => SkillTreeEditorTool::AddCell,
            SkillTreeEditorTool::AddCell => SkillTreeEditorTool::RemoveCell,
            SkillTreeEditorTool::RemoveCell => SkillTreeEditorTool::ConnectPrereqs,
            SkillTreeEditorTool::ConnectPrereqs => SkillTreeEditorTool::Select,
        };
        self.editor_set_tool(next);
    }

    /// Picks a tool: any tool but ConnectPrereqs drops the prerequisite source; a pending delete
    /// is dropped; the status names the tool.
    pub fn editor_set_tool(&mut self, tool: SkillTreeEditorTool)
        ensures
            spec_tool_set(*old(self), *final(self), tool),
    {
        self.editor.tool = tool;
        let keep = match tool {
            SkillTreeEditorTool::ConnectPrereqs => true,
            _ => false,
        };
        if !keep {
            self.editor.connect_from = None;
        }
        self.editor.pending_delete_id = None;
        self.editor.status = Some(join("TOOL ", tool_label(tool)));
        proof {
            reveal_strlit("TOOL ");
        }
    }

    /// Selects `id` with a grab offset, drops a pending delete, moves the cursor to the node's
    /// anchor when such a node exists, and reports the selection.
    pub fn editor_select(&mut self, id: &str, grab_offset: Option<Vec2i>)
        ensures
            spec_selected(*old(self), *final(self), id@, grab_offset),
    {
        self.editor.selected = Some(id.to_owned());
        self.editor.move_grab_offset = grab_offset;
        self.editor.pending_delete_id = None;
        match find_node(&self.def.nodes, id) {
            Some(idx) => {
                self.editor.cursor_world = self.def.nodes[idx].pos;
            },
            None => {},
        }
        self.editor.status = Some(join("SELECT ", id));
        proof {
            reveal_strlit("SELECT ");
        }
    }

    /// The selected id.
    pub fn editor_selected_id(&self) -> (r: Option<&str>)
        ensures
            match r {
                Some(s) => opt_str(self.editor.selected) == Some(s@),
                None => self.editor.selected is None,
            },
    {
        match &self.editor.selected {
            Some(s) => Some(s.as_str()),
            None => None,
        }
    }

    /// Clears the selection, its grab offset and a pending delete.
    pub fn editor_clear_selection(&mut self)
        ensures
            spec_selection_cleared(*old(self), *final(self)),
    {
        self.editor.selected = None;
        self.editor.move_grab_offset = None;
        self.editor.pending_delete_id = None;
        self.editor.status = Some(String::from_str("SELECT NONE"));
    }

    pub fn editor_set_cursor_world(&mut self, world: Vec2i)
        ensures
            final(self).editor == (SkillTreeEditorState { cursor_world: world, ..old(self).editor }),
            final(self).def == old(self).def,
            final(self).progress == old(self).progress,
            final(self).editor_history == old(self).editor_history,
    {
        self.editor.cursor_world = world;
    }

    /// Expands or collapses the help overlay.
    pub fn editor_toggle_help_overlay(&mut self)
        ensures
            final(self).editor.help_expanded == !old(self).editor.help_expanded,
            opt_str(final(self).editor.status) == Some(
                if final(self).editor.help_expanded { "HELP EXPANDED"@ } else { "HELP COMPACT"@ },
            ),
            final(self).editor == (SkillTreeEditorState {
                help_expanded: final(self).editor.help_expanded,
                status: final(self).editor.status,
                ..old(self).editor
            }),
            final(self).def == old(self).def,
            final(self).progress == old(self).progress,
            final(self).editor_history == old(self).editor_history,
    {
        self.editor.help_expanded = !self.editor.help_expanded;
        self.editor.status = Some(if self.editor.help_expanded {
            String::from_str("HELP EXPANDED")
        } else {
            String::from_str("HELP COMPACT")
        });
    }

    /// Opens the search panel with an empty query.
    pub fn editor_open_search(&mut self)
        ensures
            final(self).editor.search_open,
            final(self).editor.search_query@.len() == 0,
            opt_str(final(self).editor.status) == Some("SEARCH"@),
            final(self).editor == (SkillTreeEditorState {
                search_open: true,
                search_query: final(self).editor.search_query,
                status: final(self).editor.status,
                ..old(self).editor
            }),
            final(self).def == old(self).def,
            final(self).progress == old(self).progress,
            final(self).editor_history == old(self).editor_history,
    {
        self.editor.search_open = true;
        self.editor.search_query = String::new();
        self.editor.status = Some(String::from_str("SEARCH"));
    }

    /// Closes the search panel and clears the query.
    pub fn editor_close_search(&mut self)
        ensures
            spec_search_closed(*old(self), *final(self)),
    {
        self.editor.search_open = false;
        self.editor.search_query = String::new();
        self.editor.status = Some(String::from_str("SEARCH CLOSED"));
    }

    pub fn editor_append_search_char(&mut self, c: char)
        ensures
            final(self).editor.search_query@ == old(self).editor.search_query@.push(c),
            final(self).editor == (SkillTreeEditorState {
                search_query: final(self).editor.search_query,
                ..old(self).editor
            }),
            final(self).def == old(self).def,
            final(self).progress == old(self).progress,
            final(self).editor_history == old(self).editor_history,
    {
        let mut chars: Vec<char> = Vec::new();
        push_chars(&mut chars, self.editor.search_query.as_str());
        chars.push(c);
        self.editor.search_query = string_from_chars(&chars);
    }

    pub fn editor_pop_search_char(&mut self)
        ensures
            final(self).editor.search_query@ == (if old(self).editor.search_query@.len() == 0 {
                old(self).editor.search_query@
            } else {
                old(self).editor.search_query@.drop_last()
            }),
            final(self).editor == (SkillTreeEditorState {
                search_query: final(self).editor.search_query,
                ..old(self).editor
            }),
            final(self).def == old(self).def,
            final(self).progress == old(self).progress,
            final(self).editor_history == old(self).editor_history,
    {
        let mut chars: Vec<char> = Vec::new();
        push_chars(&mut chars, self.editor.search_query.as_str());
        if chars.len() > 0 {
            chars.pop();
            self.editor.search_query = string_from_chars(&chars);
        }
    }

    pub fn editor_can_undo(&self) -> (r: bool)
        ensures
            r == (self.editor_history.undo_defs@.len() > 0),
    {
        self.editor_history.undo_defs.len() > 0
    }

    pub fn editor_can_redo(&self) -> (r: bool)
        ensures
            r == (self.editor_history.redo_defs@.len() > 0),
    {
        self.editor_history.redo_defs.len() > 0
    }

    /// The index of the first node with id `id`.
    pub fn node_index(&self, id: &str) -> (r: Option<usize>)
        ensures
            r matches Some(i) ==> spec_node_index(self.def@.nodes, id@) == Some(i as int)
                && i < self.def@.nodes.len() && self.def@.nodes[i as int].id == id@,
            r is None ==> spec_node_index(self.def@.nodes, id@) is None,
    {
        find_node(&self.def.nodes, id)
    }
}


// ---- Editor: edits of the definition -------------------------------------------------------

fn clone_node(n: &SkillNodeDef) -> (r: SkillNodeDef)
    ensures
        r@ == n@,
{
    SkillNodeDef {
        id: n.id.clone(),
        name: n.name.clone(),
        pos: n.pos,
        shape: copy_cells(&n.shape),
        color: n.color,
        cost: n.cost,
        requires: clone_strings(&n.requires),
        effect: n.effect,
    }
}

fn clone_def(d: &SkillTreeDef) -> (r: SkillTreeDef)
    ensures
        r@ == d@,
{
    let mut nodes: Vec<SkillNodeDef> = Vec::new();
    let mut i: usize = 0;
    while i < d.nodes.len()
        invariant
            i <= d.nodes@.len(),
            nodes_view(nodes@) == nodes_view(d.nodes@).take(i as int),
        decreases d.nodes@.len() - i,
    {
        let ghost before = nodes@;
        nodes.push(clone_node(&d.nodes[i]));
        assert(nodes_view(nodes@) =~= nodes_view(before).push(d.nodes@[i as int]@));
        i += 1;
        assert(nodes_view(nodes@) =~= nodes_view(d.nodes@).take(i as int));
    }
    assert(nodes_view(d.nodes@).take(d.nodes@.len() as int) =~= nodes_view(d.nodes@));
    SkillTreeDef { version: d.version, nodes }
}

/// The ids of the nodes.
fn node_id_list(nodes: &Vec<SkillNodeDef>) -> (r: Vec<String>)
    ensures
        strings_view(r@) == node_ids(nodes_view(nodes@)),
{
    let mut ids: Vec<String> = Vec::new();
    let mut i: usize = 0;
    while i < nodes.len()
        invariant
            i <= nodes@.len(),
            strings_view(ids@) == node_ids(nodes_view(nodes@)).take(i as int),
        decreases nodes@.len() - i,
    {
        let ghost before = strings_view(ids@);
        ids.push(nodes[i].id.clone());
        assert(strings_view(ids@) =~= before.push(nodes@[i as int].id@));
        i += 1;
        assert(strings_view(ids@) =~= node_ids(nodes_view(nodes@)).take(i as int));
    }
    assert(node_ids(nodes_view(nodes@)).take(nodes@.len() as int) =~= node_ids(nodes_view(nodes@)));
    ids
}

fn push_history_entry(history: &mut Vec<SkillTreeDef>, snapshot: SkillTreeDef)
    ensures
        final(history)@ == spec_push_history(old(history)@, snapshot),
{
    let ghost p = old(history)@.push(snapshot);
    history.push(snapshot);
    let total = history.len();
    let mut k: usize = 0;
    while history.len() > 128
        invariant
            total == p.len(),
            history@ == p.skip(k as int),
            k <= p.len(),
            k == 0 || p.len() - k >= 128,
        decreases history@.len(),
    {
        history.remove(0);
        k += 1;
        assert(history@ =~= p.skip(k as int));
    }
    assert(p.skip(0) =~= p);
}

/// A new node as placed by the editor.
pub open spec fn new_node_view(id: Seq<char>, pos: Vec2i) -> NodeView {
    NodeView {
        id,
        name: "NODE"@,
        pos,
        shape: seq![Vec2i { x: 0, y: 0 }],
        color: 7,
        cost: 10,
        requires: Seq::empty(),
        effect: SkillEffect::NoEffect,
    }
}

/// The id of a new node: "node" and the first free number from the node count plus one.
pub open spec fn spec_new_node_id(nodes: Seq<NodeView>) -> Seq<char> {
    numbered("node"@, spec_first_free(node_ids(nodes).to_set(), "node"@, nodes.len() + 1))
}

/// The editor after an edit that rebuilt against `ids`: references to gone nodes dropped, no
/// pending delete, unsaved edits; the tool, the search, the help and the on switch kept.
pub open spec fn editor_after_edit(o: SkillTreeEditorState, n: SkillTreeEditorState, ids: Seq<Seq<char>>) -> bool {
    &&& n.move_grab_offset == grab_after(o, ids)
    &&& n.connect_from == connect_after(o, ids)
    &&& n.pending_delete_id is None
    &&& n.dirty
    &&& n.enabled == o.enabled
    &&& n.tool == o.tool
    &&& n.help_expanded == o.help_expanded
    &&& n.search_open == o.search_open
    &&& n.search_query == o.search_query
}

impl SkillTreeRuntime {
    /// Every definition held, current or in the history, is canonical.
    pub open spec fn wf(&self) -> bool {
        &&& nodes_canonical(self.def@.nodes)
        &&& forall|i: int| 0 <= i < self.editor_history.undo_defs@.len()
            ==> nodes_canonical((#[trigger] self.editor_history.undo_defs@[i])@.nodes)
        &&& forall|i: int| 0 <= i < self.editor_history.redo_defs@.len()
            ==> nodes_canonical((#[trigger] self.editor_history.redo_defs@[i])@.nodes)
    }

    fn mark_editor_mutation(&mut self, before: SkillTreeDef, status: String)
        ensures
            final(self).def == old(self).def,
            final(self).progress == old(self).progress,
            final(self).editor_history.undo_defs@ == spec_push_history(old(self).editor_history.undo_defs@, before),
            final(self).editor_history.redo_defs@.len() == 0,
            final(self).editor == (SkillTreeEditorState {
                pending_delete_id: None,
                dirty: true,
                status: Some(status),
                ..old(self).editor
            }),
    {
        push_history_entry(&mut self.editor_history.undo_defs, before);
        self.editor_history.redo_defs = Vec::new();
        self.editor.pending_delete_id = None;
        self.editor.dirty = true;
        self.editor.status = Some(status);
    }

    /// Adds a node "NODE" with id "node" and the first free number from the node count plus
    /// one, at `pos`, one cell, colour 7, cost 10; rebuilds; selects it and puts the cursor on
    /// it; records the edit. Returns the id.
    pub fn editor_create_node_at(&mut self, pos: Vec2i) -> (r: String)
        requires
            old(self).wf(),
        ensures
            final(self).wf(),
            r@ == spec_new_node_id(old(self).def@.nodes),
            spec_rebuilt_def(
                DefView {
                    version: old(self).def@.version,
                    nodes: old(self).def@.nodes.push(new_node_view(r@, pos)),
                },
                old(self).progress,
                *final(self),
            ),
            editor_after_edit(old(self).editor, final(self).editor, node_ids(final(self).def@.nodes)),
            opt_str(final(self).editor.selected) == Some(r@),
            final(self).editor.cursor_world == pos,
            opt_str(final(self).editor.status) == Some("NEW "@ + r@),
            hist_view(final(self).editor_history.undo_defs@) == spec_push_history(
                hist_view(old(self).editor_history.undo_defs@),
                old(self).def@,
            ),
            final(self).editor_history.redo_defs@.len() == 0,
    {
        let before = clone_def(&self.def);
        let ids = node_id_list(&self.def.nodes);
        let n = self.def.nodes.len();
        let start: u128 = (n as u128) + 1;
        let i = first_free_number(&ids, "node", start);
        let id = numbered_id("node", i);
        let mut shape: Vec<Vec2i> = Vec::new();
        shape.push(Vec2i::new(0, 0));
        let node = SkillNodeDef {
            id: id.clone(),
            name: String::from_str("NODE"),
            pos,
            shape,
            color: 7,
            cost: 10,
            requires: Vec::new(),
            effect: SkillEffect::NoEffect,
        };
        assert(node@.shape =~= seq![Vec2i { x: 0, y: 0 }]);
        assert(node@.requires =~= Seq::<Seq<char>>::empty());
        assert(node@ == new_node_view(id@, pos));
        let ghost od = self.def@;
        self.def.nodes.push(node);
        assert(self.def@.nodes =~= od.nodes.push(new_node_view(id@, pos)));
        proof {
            crate::skilltree::lemma_origin_canonical();
            assert forall|k: int| 0 <= k < self.def@.nodes.len() implies crate::skilltree::shape_shift_fits(
                self.def@.nodes[k].pos, (#[trigger] self.def@.nodes[k]).shape) by {
                crate::skilltree::lemma_canonical_fits(self.def@.nodes[k].pos, self.def@.nodes[k].shape);
            }
        }
        let ghost mid = *self;
        self.rebuild_caches();
        let ghost ids_after = node_ids(self.def@.nodes);
        self.editor.selected = Some(id.clone());
        self.editor.cursor_world = pos;
        let status = join("NEW ", id.as_str());
        proof {
            reveal_strlit("NEW ");
            lemma_push_history_view(old(self).editor_history.undo_defs@, before);
        }
        self.mark_editor_mutation(before, status);
        id
    }
}


/// The id of a copy of `base`: `base` and "_copy" if free, else that and the first free number
/// from 2 up.
pub open spec fn spec_dup_id(ids: Set<Seq<char>>, base: Seq<char>) -> Seq<char> {
    let first = base + "_copy"@;
    if ids.contains(first) { numbered(first, spec_first_free(ids, first, 2)) } else { first }
}

/// The selected node's index, when something is selected and a node has that id.
pub open spec fn selected_index(rt: SkillTreeRuntime) -> Option<int> {
    match opt_str(rt.editor.selected) {
        Some(id) => spec_node_index(rt.def@.nodes, id),
        None => None,
    }
}

/// `s` without the entries equal to `x`.
pub open spec fn drop_id(s: Seq<Seq<char>>, x: Seq<char>) -> Seq<Seq<char>>
    decreases s.len(),
{
    if s.len() == 0 {
        s
    } else {
        let p = drop_id(s.drop_last(), x);
        if s.last() == x { p } else { p.push(s.last()) }
    }
}

/// The nodes after deleting node `i` with id `id`: it is gone, and so is `id` from every
/// prerequisite list.
pub open spec fn spec_delete_node(nodes: Seq<NodeView>, i: int, id: Seq<char>) -> Seq<NodeView> {
    nodes.remove(i).map_values(|n: NodeView| NodeView { requires: drop_id(n.requires, id), ..n })
}

/// The first position of `x` in `s`.
pub open spec fn first_pos<T>(s: Seq<T>, x: T) -> Option<int>
    decreases s.len(),
{
    if s.len() == 0 {
        None
    } else {
        match first_pos(s.drop_last(), x) {
            Some(i) => Some(i),
            None => if s.last() == x { Some(s.len() - 1) } else { None },
        }
    }
}

pub(crate) proof fn lemma_first_pos<T>(s: Seq<T>, x: T)
    ensures
        first_pos(s, x) matches Some(i) ==> 0 <= i < s.len() && s[i] == x
            && forall|j: int| 0 <= j < i ==> s[j] != x,
        first_pos(s, x) is None ==> forall|j: int| 0 <= j < s.len() ==> s[j] != x,
    decreases s.len(),
{
    if s.len() > 0 {
        lemma_first_pos(s.drop_last(), x);
        assert forall|j: int| 0 <= j < s.len() - 1 implies s[j] == s.drop_last()[j] by {}
    }
}

proof fn lemma_first_pos_at<T>(s: Seq<T>, x: T, i: int)
    requires
        0 <= i < s.len(),
        s[i] == x,
        forall|j: int| 0 <= j < i ==> s[j] != x,
    ensures
        first_pos(s, x) == Some(i),
{
    lemma_first_pos(s, x);
    match first_pos(s, x) {
        Some(k) => {
            if k < i {
                assert(s[k] != x);
            } else if k > i {
                assert(s[i] != x);
            }
        },
        None => {
            assert(s[i] != x);
        },
    }
}

/// The prerequisites after toggling `p`: its first occurrence removed, or it added at the end.
pub open spec fn spec_toggle_req(reqs: Seq<Seq<char>>, p: Seq<char>) -> Seq<Seq<char>> {
    match first_pos(reqs, p) {
        Some(i) => reqs.remove(i),
        None => reqs.push(p),
    }
}

fn drop_id_exec(reqs: &Vec<String>, id: &str) -> (r: Vec<String>)
    ensures
        strings_view(r@) == drop_id(strings_view(reqs@), id@),
{
    let ghost rv = strings_view(reqs@);
    let mut out: Vec<String> = Vec::new();
    let mut i: usize = 0;
    while i < reqs.len()
        invariant
            rv == strings_view(reqs@),
            i <= rv.len(),
            strings_view(out@) == drop_id(rv.take(i as int), id@),
        decreases rv.len() - i,
    {
        assert(rv.take(i + 1).drop_last() =~= rv.take(i as int));
        assert(rv.take(i + 1).last() == rv[i as int]);
        if !crate::editor_actions::str_eq(reqs[i].as_str(), id) {
            let ghost before = strings_view(out@);
            out.push(reqs[i].clone());
            assert(strings_view(out@) =~= before.push(rv[i as int]));
        }
        i += 1;
    }
    assert(rv.take(rv.len() as int) =~= rv);
    out
}

fn find_str(v: &Vec<String>, s: &str) -> (r: Option<usize>)
    ensures
        r matches Some(i) ==> first_pos(strings_view(v@), s@) == Some(i as int) && i < v@.len(),
        r is None ==> first_pos(strings_view(v@), s@) is None,
{
    let ghost sv = strings_view(v@);
    let mut i: usize = 0;
    while i < v.len()
        invariant
            sv == strings_view(v@),
            i <= sv.len(),
            forall|j: int| 0 <= j < i ==> sv[j] != s@,
        decreases sv.len() - i,
    {
        if crate::editor_actions::str_eq(v[i].as_str(), s) {
            proof {
                lemma_first_pos_at(sv, s@, i as int);
            }
            return Some(i);
        }
        i += 1;
    }
    proof {
        lemma_first_pos(sv, s@);
        if first_pos(sv, s@) is Some {
            let k = first_pos(sv, s@)->0;
            assert(sv[k] != s@);
        }
    }
    None
}

/// What deleting the selected node does; see `editor_delete_selected`.
pub open spec fn spec_deleted(o: SkillTreeRuntime, n: SkillTreeRuntime, r: bool) -> bool {
    &&& o.editor.selected is None ==> !r && n == o
    &&& (o.editor.selected is Some && selected_index(o) is None) ==> {
        &&& !r
        &&& n.def == o.def
        &&& n.progress == o.progress
        &&& n.editor_history == o.editor_history
        &&& n.editor == (SkillTreeEditorState { selected: None, ..o.editor })
    }
    &&& selected_index(o) matches Some(i) ==> {
        let id = opt_str(o.editor.selected)->0;
        &&& r
        &&& spec_rebuilt_def(
            DefView { version: o.def@.version, nodes: spec_delete_node(o.def@.nodes, i, id) },
            o.progress,
            n,
        )
        &&& opt_str(n.editor.status) == Some("DEL "@ + id)
        &&& n.editor == (SkillTreeEditorState {
            selected: None,
            move_grab_offset: None,
            connect_from: None,
            pending_delete_id: None,
            dirty: true,
            status: n.editor.status,
            ..o.editor
        })
        &&& hist_view(n.editor_history.undo_defs@) == spec_push_history(
            hist_view(o.editor_history.undo_defs@),
            o.def@,
        )
        &&& n.editor_history.redo_defs@.len() == 0
    }
}

/// What selecting `id` with a grab offset does; see `editor_select`.
pub open spec fn spec_selected(o: SkillTreeRuntime, n: SkillTreeRuntime, id: Seq<char>, grab: Option<Vec2i>) -> bool {
    &&& opt_str(n.editor.selected) == Some(id)
    &&& n.editor.cursor_world == (match spec_node_index(o.def@.nodes, id) {
        Some(i) => o.def@.nodes[i].pos,
        None => o.editor.cursor_world,
    })
    &&& opt_str(n.editor.status) == Some("SELECT "@ + id)
    &&& n.editor == (SkillTreeEditorState {
        selected: n.editor.selected,
        move_grab_offset: grab,
        pending_delete_id: None,
        cursor_world: n.editor.cursor_world,
        status: n.editor.status,
        ..o.editor
    })
    &&& n.def == o.def
    &&& n.progress == o.progress
    &&& n.editor_history == o.editor_history
}

/// What clearing the selection does; see `editor_clear_selection`.
pub open spec fn spec_selection_cleared(o: SkillTreeRuntime, n: SkillTreeRuntime) -> bool {
    &&& opt_str(n.editor.status) == Some("SELECT NONE"@)
    &&& n.editor == (SkillTreeEditorState {
        selected: None,
        move_grab_offset: None,
        pending_delete_id: None,
        status: n.editor.status,
        ..o.editor
    })
    &&& n.def == o.def
    &&& n.progress == o.progress
    &&& n.editor_history == o.editor_history
}

/// What toggling a prerequisite does, the status aside; see `editor_toggle_prereq`.
pub open spec fn spec_prereq_toggled(o: SkillTreeRuntime, n: SkillTreeRuntime, r: bool, prereq: Seq<char>, node_id: Seq<char>) -> bool {
    match spec_node_index(o.def@.nodes, node_id) {
        None => !r && n == o,
        Some(i) => if prereq == node_id {
            !r && n == o
        } else {
            let nd = o.def@.nodes[i];
            &&& r
            &&& spec_rebuilt_def(
                DefView {
                    version: o.def@.version,
                    nodes: o.def@.nodes.update(i, NodeView { requires: spec_toggle_req(nd.requires, prereq), ..nd }),
                },
                o.progress,
                n,
            )
            &&& editor_after_edit(o.editor, n.editor, node_ids(n.def@.nodes))
            &&& n.editor.selected == sel_after(o.editor, node_ids(n.def@.nodes))
            &&& n.editor.cursor_world == o.editor.cursor_world
            &&& hist_view(n.editor_history.undo_defs@) == spec_push_history(
                hist_view(o.editor_history.undo_defs@),
                o.def@,
            )
            &&& n.editor_history.redo_defs@.len() == 0
        },
    }
}

impl SkillTreeRuntime {
    /// The id for a copy of `base_id`; see `spec_dup_id`.
    fn next_duplicate_id(&self, base_id: &str) -> (r: String)
        ensures
            r@ == spec_dup_id(node_ids(self.def@.nodes).to_set(), base_id@),
    {
        let ids = node_id_list(&self.def.nodes);
        let first = join(base_id, "_copy");
        proof {
            reveal_strlit("_copy");
        }
        if !contains_str(&ids, first.as_str()) {
            return first;
        }
        let i = first_free_number(&ids, first.as_str(), 2);
        numbered_id(first.as_str(), i)
    }

    /// Copies the selected node, one cell to the right (saturating), under the id from
    /// `next_duplicate_id`; rebuilds; selects the copy and puts the cursor on it; records the
    /// edit. Returns the new id; none, with nothing changed, when nothing is selected or no node
    /// has the selected id.
    pub fn editor_duplicate_selected(&mut self) -> (r: Option<String>)
        requires
            old(self).wf(),
        ensures
            final(self).wf(),
            match selected_index(*old(self)) {
                None => r is None && *final(self) == *old(self),
                Some(i) => {
                    let o = old(self).def@.nodes[i];
                    let sel = opt_str(old(self).editor.selected)->0;
                    let dup = spec_dup_id(node_ids(old(self).def@.nodes).to_set(), sel);
                    &&& opt_str(r) == Some(dup)
                    &&& spec_rebuilt_def(
                        DefView {
                            version: old(self).def@.version,
                            nodes: old(self).def@.nodes.push(NodeView {
                                id: dup,
                                pos: Vec2i { x: sat_add_i32(o.pos.x, 1), y: o.pos.y },
                                ..o
                            }),
                        },
                        old(self).progress,
                        *final(self),
                    )
                    &&& editor_after_edit(old(self).editor, final(self).editor, node_ids(final(self).def@.nodes))
                    &&& opt_str(final(self).editor.selected) == Some(dup)
                    &&& final(self).editor.cursor_world == (match spec_node_index(final(self).def@.nodes, dup) {
                        Some(j) => final(self).def@.nodes[j].pos,
                        None => old(self).editor.cursor_world,
                    })
                    &&& opt_str(final(self).editor.status) == Some("DUP "@ + sel + " -> "@ + dup)
                    &&& hist_view(final(self).editor_history.undo_defs@) == spec_push_history(
                        hist_view(old(self).editor_history.undo_defs@),
                        old(self).def@,
                    )
                    &&& final(self).editor_history.redo_defs@.len() == 0
                },
            },
    {
        let selected_id = match &self.editor.selected {
            Some(s) => s.clone(),
            None => return None,
        };
        let idx = match find_node(&self.def.nodes, selected_id.as_str()) {
            Some(i) => i,
            None => return None,
        };
        let before = clone_def(&self.def);
        let mut dup = clone_node(&self.def.nodes[idx]);
        let dup_id = self.next_duplicate_id(selected_id.as_str());
        dup.id = dup_id.clone();
        dup.pos = Vec2i::new(sat_add_i32_exec(dup.pos.x, 1), dup.pos.y);
        let ghost od = self.def@;
        let ghost dv = dup@;
        self.def.nodes.push(dup);
        assert(self.def@.nodes =~= od.nodes.push(dv));
        proof {
            assert forall|k: int| 0 <= k < self.def@.nodes.len() implies crate::skilltree::shape_shift_fits(
                self.def@.nodes[k].pos, (#[trigger] self.def@.nodes[k]).shape) by {
                crate::skilltree::lemma_canonical_fits(self.def@.nodes[k].pos, self.def@.nodes[k].shape);
            }
        }
        self.rebuild_caches();
        self.editor.selected = Some(dup_id.clone());
        match find_node(&self.def.nodes, dup_id.as_str()) {
            Some(j) => {
                self.editor.cursor_world = self.def.nodes[j].pos;
            },
            None => {},
        }
        let s1 = join("DUP ", selected_id.as_str());
        let s2 = join(s1.as_str(), " -> ");
        let status = join(s2.as_str(), dup_id.as_str());
        proof {
            reveal_strlit("DUP ");
            reveal_strlit(" -> ");
            lemma_push_history_view(old(self).editor_history.undo_defs@, before);
        }
        self.mark_editor_mutation(before, status);
        Some(dup_id)
    }

    /// Deletes the selected node and its id from every prerequisite list; rebuilds; records the
    /// edit. With nothing selected nothing changes; when no node has the selected id the
    /// selection is cleared. Returns whether a node was deleted.
    pub fn editor_delete_selected(&mut self) -> (r: bool)
        requires
            old(self).wf(),
        ensures
            final(self).wf(),
            spec_deleted(*old(self), *final(self), r),
    {
        let id = match &self.editor.selected {
            Some(s) => s.clone(),
            None => return false,
        };
        let idx = match find_node(&self.def.nodes, id.as_str()) {
            Some(i) => i,
            None => {
                self.editor.selected = None;
                return false;
            },
        };
        let before = clone_def(&self.def);
        let ghost od = self.def@;
        let mut nodes: Vec<SkillNodeDef> = Vec::new();
        let mut k: usize = 0;
        let ghost target = od.nodes.remove(idx as int);
        while k < self.def.nodes.len()
            invariant
                od == self.def@,
                0 <= idx < od.nodes.len(),
                target == od.nodes.remove(idx as int),
                k <= od.nodes.len(),
                nodes_view(nodes@) == (if k <= idx { target.take(k as int) } else { target.take(k - 1) })
                    .map_values(|n: NodeView| NodeView { requires: drop_id(n.requires, id@), ..n }),
                nodes_canonical(od.nodes),
                nodes_canonical(nodes_view(nodes@)),
            decreases od.nodes.len() - k,
        {
            if k != idx {
                let mut n = clone_node(&self.def.nodes[k]);
                n.requires = drop_id_exec(&self.def.nodes[k].requires, id.as_str());
                let ghost before_nodes = nodes@;
                nodes.push(n);
                proof {
                    let t = if k < idx { target.take(k as int) } else { target.take(k - 1) };
                    let t1 = if k < idx { target.take(k + 1) } else { target.take(k as int) };
                    if k < idx {
                        assert(target[k as int] == od.nodes[k as int]);
                    } else {
                        assert(target[k - 1] == od.nodes[k as int]);
                    }
                    assert(t1 =~= t.push(od.nodes[k as int]));
                    assert(nodes_view(nodes@) =~= nodes_view(before_nodes).push(n@));
                    assert(nodes_view(nodes@) =~= t1.map_values(|n: NodeView| NodeView { requires: drop_id(n.requires, id@), ..n }));
                    assert(shape_canonical(od.nodes[k as int].shape));
                }
            } else {
                assert(target.take(k as int) =~= target.take(k as int));
            }
            k += 1;
        }
        proof {
            assert(target.take(od.nodes.len() - 1) =~= target);
        }
        self.def.nodes = nodes;
        assert(self.def@.nodes == spec_delete_node(od.nodes, idx as int, id@));
        proof {
            assert forall|k: int| 0 <= k < self.def@.nodes.len() implies crate::skilltree::shape_shift_fits(
                self.def@.nodes[k].pos, (#[trigger] self.def@.nodes[k]).shape) by {
                crate::skilltree::lemma_canonical_fits(self.def@.nodes[k].pos, self.def@.nodes[k].shape);
            }
        }
        self.editor.selected = None;
        self.editor.connect_from = None;
        self.editor.move_grab_offset = None;
        self.rebuild_caches();
        let status = join("DEL ", id.as_str());
        proof {
            reveal_strlit("DEL ");
            lemma_push_history_view(old(self).editor_history.undo_defs@, before);
        }
        self.mark_editor_mutation(before, status);
        true
    }
}


/// What moving the selected node's anchor to `to` does; see `editor_move_selected_to`.
pub open spec fn spec_moved(o: SkillTreeRuntime, n: SkillTreeRuntime, r: bool, to: Vec2i) -> bool {
    match selected_index(o) {
        None => !r && n == o,
        Some(i) => if o.def@.nodes[i].pos == to {
            !r && n == o
        } else {
            let id = opt_str(o.editor.selected)->0;
            &&& r
            &&& spec_rebuilt_def(
                DefView {
                    version: o.def@.version,
                    nodes: o.def@.nodes.update(i, NodeView { pos: to, ..o.def@.nodes[i] }),
                },
                o.progress,
                n,
            )
            &&& editor_after_edit(o.editor, n.editor, node_ids(n.def@.nodes))
            &&& n.editor.selected == sel_after(o.editor, node_ids(n.def@.nodes))
            &&& n.editor.cursor_world == o.editor.cursor_world
            &&& opt_str(n.editor.status) == Some("MOVE "@ + id)
            &&& hist_view(n.editor_history.undo_defs@) == spec_push_history(
                hist_view(o.editor_history.undo_defs@),
                o.def@,
            )
            &&& n.editor_history.redo_defs@.len() == 0
        },
    }
}

/// What undoing (or redoing) does to the editor: references to gone nodes dropped, no pending
/// delete, unsaved edits, the given status.
pub open spec fn editor_after_step(o: SkillTreeEditorState, n: SkillTreeEditorState, ids: Seq<Seq<char>>, status: Seq<char>) -> bool {
    &&& n.selected == sel_after(o, ids)
    &&& n.move_grab_offset == grab_after(o, ids)
    &&& n.connect_from == connect_after(o, ids)
    &&& opt_str(n.status) == Some(status)
    &&& n == (SkillTreeEditorState {
        selected: n.selected,
        move_grab_offset: n.move_grab_offset,
        connect_from: n.connect_from,
        pending_delete_id: None,
        dirty: true,
        status: n.status,
        ..o
    })
}

impl SkillTreeRuntime {
    /// Asks for a delete of the selected node: the first request only marks it pending and
    /// asks again; a request while it is pending deletes it (see `editor_delete_selected`).
    /// With nothing selected the pending delete is cleared. Returns whether a node was deleted.
    pub fn editor_request_delete_selected(&mut self) -> (r: bool)
        requires
            old(self).wf(),
        ensures
            final(self).wf(),
            old(self).editor.selected is None ==> !r && *final(self) == (SkillTreeRuntime {
                editor: SkillTreeEditorState { pending_delete_id: None, ..old(self).editor },
                ..*old(self)
            }),
            (old(self).editor.selected is Some && opt_str(old(self).editor.pending_delete_id) != opt_str(old(self).editor.selected))
                ==> !r && opt_str(final(self).editor.pending_delete_id) == opt_str(old(self).editor.selected)
                && opt_str(final(self).editor.status) == Some(
                    "DELETE "@ + opt_str(old(self).editor.selected)->0 + "? PRESS DEL AGAIN"@,
                )
                && final(self).editor == (SkillTreeEditorState {
                    pending_delete_id: final(self).editor.pending_delete_id,
                    status: final(self).editor.status,
                    ..old(self).editor
                })
                && final(self).def == old(self).def && final(self).progress == old(self).progress
                && final(self).editor_history == old(self).editor_history,
            (old(self).editor.selected is Some && opt_str(old(self).editor.pending_delete_id) == opt_str(old(self).editor.selected))
                ==> spec_deleted(
                    SkillTreeRuntime {
                        editor: SkillTreeEditorState { pending_delete_id: None, ..old(self).editor },
                        ..*old(self)
                    },
                    *final(self),
                    r,
                ),
    {
        let selected = match &self.editor.selected {
            Some(s) => s.clone(),
            None => {
                self.editor.pending_delete_id = None;
                return false;
            },
        };
        let same = match &self.editor.pending_delete_id {
            Some(p) => crate::editor_actions::str_eq(p.as_str(), selected.as_str()),
            None => false,
        };
        if !same {
            let s1 = join("DELETE ", selected.as_str());
            let status = join(s1.as_str(), "? PRESS DEL AGAIN");
            proof {
                reveal_strlit("DELETE ");
                reveal_strlit("? PRESS DEL AGAIN");
            }
            self.editor.pending_delete_id = Some(selected);
            self.editor.status = Some(status);
            return false;
        }
        self.editor.pending_delete_id = None;
        self.editor_delete_selected()
    }

    /// Moves the selected node's anchor by `delta` (saturating); see `editor_move_selected_to`.
    pub fn editor_nudge_selected_by(&mut self, delta: Vec2i) -> (r: bool)
        requires
            old(self).wf(),
        ensures
            final(self).wf(),
            match selected_index(*old(self)) {
                None => !r && *final(self) == *old(self),
                Some(i) => spec_moved(*old(self), *final(self), r, Vec2i {
                    x: sat_add_i32(old(self).def@.nodes[i].pos.x, delta.x),
                    y: sat_add_i32(old(self).def@.nodes[i].pos.y, delta.y),
                }),
            },
    {
        let idx = match &self.editor.selected {
            Some(id) => match find_node(&self.def.nodes, id.as_str()) {
                Some(i) => i,
                None => return false,
            },
            None => return false,
        };
        let pos = self.def.nodes[idx].pos;
        let next = Vec2i::new(sat_add_i32_exec(pos.x, delta.x), sat_add_i32_exec(pos.y, delta.y));
        self.editor_move_selected_to(next)
    }

    /// Moves the selected node's anchor to `new_pos`; rebuilds; records the edit. Returns whether
    /// it moved (not when nothing is selected, no node has the id, or it is already there).
    pub fn editor_move_selected_to(&mut self, new_pos: Vec2i) -> (r: bool)
        requires
            old(self).wf(),
        ensures
            final(self).wf(),
            spec_moved(*old(self), *final(self), r, new_pos),
    {
        let id = match &self.editor.selected {
            Some(s) => s.clone(),
            None => return false,
        };
        let idx = match find_node(&self.def.nodes, id.as_str()) {
            Some(i) => i,
            None => return false,
        };
        if self.def.nodes[idx].pos == new_pos {
            return false;
        }
        let before = clone_def(&self.def);
        let mut node = clone_node(&self.def.nodes[idx]);
        node.pos = new_pos;
        let ghost od = self.def@;
        let ghost nv = node@;
        assert(nv.shape == od.nodes[idx as int].shape);
        self.def.nodes.set(idx, node);
        assert(self.def@.nodes =~= od.nodes.update(idx as int, nv));
        proof {
            assert forall|k: int| 0 <= k < self.def@.nodes.len() implies crate::skilltree::shape_shift_fits(
                self.def@.nodes[k].pos, (#[trigger] self.def@.nodes[k]).shape) by {
                assert(self.def@.nodes[k].shape == od.nodes[k].shape);
                assert(shape_canonical(od.nodes[k].shape));
                crate::skilltree::lemma_canonical_fits(self.def@.nodes[k].pos, self.def@.nodes[k].shape);
            }
        }
        self.rebuild_caches();
        let status = join("MOVE ", id.as_str());
        proof {
            reveal_strlit("MOVE ");
            lemma_push_history_view(old(self).editor_history.undo_defs@, before);
        }
        self.mark_editor_mutation(before, status);
        true
    }

    /// Adds `prereq` to the prerequisites of node `node_id`, or removes its first occurrence;
    /// rebuilds (which sorts the list and drops unknown ids); records the edit. Returns false,
    /// with nothing changed, when no node has `node_id` or the two ids are equal.
    pub fn editor_toggle_prereq(&mut self, prereq: &str, node_id: &str) -> (r: bool)
        requires
            old(self).wf(),
        ensures
            final(self).wf(),
            spec_prereq_toggled(*old(self), *final(self), r, prereq@, node_id@),
            r ==> opt_str(final(self).editor.status) == Some("REQ "@ + prereq@ + " -> "@ + node_id@),
    {
        let idx = match find_node(&self.def.nodes, node_id) {
            Some(i) => i,
            None => return false,
        };
        if crate::editor_actions::str_eq(prereq, node_id) {
            return false;
        }
        let before = clone_def(&self.def);
        let mut node = clone_node(&self.def.nodes[idx]);
        let ghost ov = node@.requires;
        proof {
            lemma_first_pos(ov, prereq@);
        }
        match find_str(&node.requires, prereq) {
            Some(i) => {
                assert(first_pos(ov, prereq@) == Some(i as int));
                node.requires.remove(i);
                assert(strings_view(node.requires@) =~= ov.remove(i as int));
            },
            None => {
                assert(first_pos(ov, prereq@) is None);
                node.requires.push(prereq.to_owned());
                assert(strings_view(node.requires@) =~= ov.push(prereq@));
            },
        }
        let ghost od = self.def@;
        let ghost nv = node@;
        assert(nv.requires == spec_toggle_req(od.nodes[idx as int].requires, prereq@));
        assert(nv == NodeView { requires: spec_toggle_req(od.nodes[idx as int].requires, prereq@), ..od.nodes[idx as int] });
        assert(nv.shape == od.nodes[idx as int].shape);
        self.def.nodes.set(idx, node);
        assert(self.def@.nodes =~= od.nodes.update(idx as int, nv));
        proof {
            assert forall|k: int| 0 <= k < self.def@.nodes.len() implies crate::skilltree::shape_shift_fits(
                self.def@.nodes[k].pos, (#[trigger] self.def@.nodes[k]).shape) by {
                assert(self.def@.nodes[k].shape == od.nodes[k].shape);
                assert(shape_canonical(od.nodes[k].shape));
                crate::skilltree::lemma_canonical_fits(self.def@.nodes[k].pos, self.def@.nodes[k].shape);
            }
        }
        self.rebuild_caches();
        let s1 = join("REQ ", prereq);
        let s2 = join(s1.as_str(), " -> ");
        let status = join(s2.as_str(), node_id);
        proof {
            reveal_strlit("REQ ");
            reveal_strlit(" -> ");
            lemma_push_history_view(old(self).editor_history.undo_defs@, before);
        }
        self.mark_editor_mutation(before, status);
        true
    }

    /// Goes back to the last recorded definition, keeping the current one to redo; rebuilds.
    /// Returns false, with nothing changed, when there is nothing to undo.
    pub fn editor_undo(&mut self) -> (r: bool)
        requires
            old(self).wf(),
        ensures
            final(self).wf(),
            r == (old(self).editor_history.undo_defs@.len() > 0),
            !r ==> *final(self) == *old(self),
            r ==> spec_rebuilt_def(old(self).editor_history.undo_defs@.last()@, old(self).progress, *final(self))
                && final(self).editor_history.undo_defs@ == old(self).editor_history.undo_defs@.drop_last()
                && final(self).editor_history.redo_defs@ == spec_push_history(
                    old(self).editor_history.redo_defs@,
                    old(self).def,
                )
                && editor_after_step(old(self).editor, final(self).editor, node_ids(final(self).def@.nodes), "UNDO"@),
    {
        if self.editor_history.undo_defs.len() == 0 {
            return false;
        }
        let mut prev = match self.editor_history.undo_defs.pop() {
            Some(d) => d,
            None => return false,
        };
        proof {
            assert(nodes_canonical(old(self).editor_history.undo_defs@.last()@.nodes));
        }
        std::mem::swap(&mut prev, &mut self.def);
        push_history_entry(&mut self.editor_history.redo_defs, prev);
        proof {
            assert forall|k: int| 0 <= k < self.def@.nodes.len() implies crate::skilltree::shape_shift_fits(
                self.def@.nodes[k].pos, (#[trigger] self.def@.nodes[k]).shape) by {
                crate::skilltree::lemma_canonical_fits(self.def@.nodes[k].pos, self.def@.nodes[k].shape);
            }
            let h = self.editor_history.redo_defs@;
            assert forall|i: int| 0 <= i < h.len() implies nodes_canonical((#[trigger] h[i])@.nodes) by {
                let p = old(self).editor_history.redo_defs@.push(old(self).def);
                if p.len() > history_limit() {
                    assert(h[i] == p[i + (p.len() - history_limit())]);
                } else {
                    assert(h[i] == p[i]);
                }
            }
        }
        self.rebuild_caches();
        self.editor.pending_delete_id = None;
        self.editor.dirty = true;
        self.editor.status = Some(String::from_str("UNDO"));
        true
    }

    /// Goes forward to the last undone definition, keeping the current one to undo; rebuilds.
    /// Returns false, with nothing changed, when there is nothing to redo.
    pub fn editor_redo(&mut self) -> (r: bool)
        requires
            old(self).wf(),
        ensures
            final(self).wf(),
            r == (old(self).editor_history.redo_defs@.len() > 0),
            !r ==> *final(self) == *old(self),
            r ==> spec_rebuilt_def(old(self).editor_history.redo_defs@.last()@, old(self).progress, *final(self))
                && final(self).editor_history.redo_defs@ == old(self).editor_history.redo_defs@.drop_last()
                && final(self).editor_history.undo_defs@ == spec_push_history(
                    old(self).editor_history.undo_defs@,
                    old(self).def,
                )
                && editor_after_step(old(self).editor, final(self).editor, node_ids(final(self).def@.nodes), "REDO"@),
    {
        if self.editor_history.redo_defs.len() == 0 {
            return false;
        }
        let mut next = match self.editor_history.redo_defs.pop() {
            Some(d) => d,
            None => return false,
        };
        proof {
            assert(nodes_canonical(old(self).editor_history.redo_defs@.last()@.nodes));
        }
        std::mem::swap(&mut next, &mut self.def);
        push_history_entry(&mut self.editor_history.undo_defs, next);
        proof {
            assert forall|k: int| 0 <= k < self.def@.nodes.len() implies crate::skilltree::shape_shift_fits(
                self.def@.nodes[k].pos, (#[trigger] self.def@.nodes[k]).shape) by {
                crate::skilltree::lemma_canonical_fits(self.def@.nodes[k].pos, self.def@.nodes[k].shape);
            }
            let h = self.editor_history.undo_defs@;
            assert forall|i: int| 0 <= i < h.len() implies nodes_canonical((#[trigger] h[i])@.nodes) by {
                let p = old(self).editor_history.undo_defs@.push(old(self).def);
                if p.len() > history_limit() {
                    assert(h[i] == p[i + (p.len() - history_limit())]);
                } else {
                    assert(h[i] == p[i]);
                }
            }
        }
        self.rebuild_caches();
        self.editor.pending_delete_id = None;
        self.editor.dirty = true;
        self.editor.status = Some(String::from_str("REDO"));
        true
    }
}


// ---- Editor: painting cells ----------------------------------------------------------------

/// `world` relative to `pos` fits in `i32`.
pub open spec fn rel_fits(pos: Vec2i, world: Vec2i) -> bool {
    &&& i32::MIN <= world.x - pos.x <= i32::MAX
    &&& i32::MIN <= world.y - pos.y <= i32::MAX
}

/// `world` relative to `pos`.
pub open spec fn rel_cell(pos: Vec2i, world: Vec2i) -> Vec2i {
    Vec2i { x: (world.x - pos.x) as i32, y: (world.y - pos.y) as i32 }
}

/// Toggling a cell: its first occurrence removed (unless it is the only cell), or it added.
pub open spec fn spec_toggle_cell(shape: Seq<Vec2i>, c: Vec2i) -> Option<Seq<Vec2i>> {
    match first_pos(shape, c) {
        Some(i) => if shape.len() <= 1 { None } else { Some(shape.remove(i)) },
        None => Some(shape.push(c)),
    }
}

/// Adding a cell that is not there yet.
pub open spec fn spec_add_cell(shape: Seq<Vec2i>, c: Vec2i) -> Option<Seq<Vec2i>> {
    match first_pos(shape, c) {
        Some(i) => None,
        None => Some(shape.push(c)),
    }
}

/// Removing the first occurrence of a cell, unless it is absent or the only cell.
pub open spec fn spec_remove_cell(shape: Seq<Vec2i>, c: Vec2i) -> Option<Seq<Vec2i>> {
    match first_pos(shape, c) {
        Some(i) => if shape.len() <= 1 { None } else { Some(shape.remove(i)) },
        None => None,
    }
}

/// A cell edit of the selected node can be made: the cell relative to the anchor fits in `i32`,
/// and so does the shift that normalizing the edited shape makes.
pub open spec fn cell_edit_fits(
    o: SkillTreeRuntime,
    world: Vec2i,
    edit: spec_fn(Seq<Vec2i>, Vec2i) -> Option<Seq<Vec2i>>,
) -> bool {
    selected_index(o) matches Some(i) ==> {
        let n = o.def@.nodes[i];
        &&& rel_fits(n.pos, world)
        &&& edit(n.shape, rel_cell(n.pos, world)) matches Some(ns) ==> crate::skilltree::shape_shift_fits(n.pos, ns)
    }
}

/// What a cell edit of the selected node does: nothing when nothing is selected, no node has
/// the id or the edit does not apply; else the edited shape, a rebuild, and the edit recorded
/// with the status `label`, a space and the id.
pub open spec fn spec_cell_edited(
    o: SkillTreeRuntime,
    n: SkillTreeRuntime,
    r: bool,
    world: Vec2i,
    edit: spec_fn(Seq<Vec2i>, Vec2i) -> Option<Seq<Vec2i>>,
    label: Seq<char>,
) -> bool {
    match selected_index(o) {
        None => !r && n == o,
        Some(i) => {
            let node = o.def@.nodes[i];
            match edit(node.shape, rel_cell(node.pos, world)) {
                None => !r && n == o,
                Some(ns) => {
                    &&& r
                    &&& spec_rebuilt_def(
                        DefView {
                            version: o.def@.version,
                            nodes: o.def@.nodes.update(i, NodeView { shape: ns, ..node }),
                        },
                        o.progress,
                        n,
                    )
                    &&& editor_after_edit(o.editor, n.editor, node_ids(n.def@.nodes))
                    &&& n.editor.selected == sel_after(o.editor, node_ids(n.def@.nodes))
                    &&& n.editor.cursor_world == o.editor.cursor_world
                    &&& opt_str(n.editor.status) == Some(label + " "@ + opt_str(o.editor.selected)->0)
                    &&& hist_view(n.editor_history.undo_defs@) == spec_push_history(
                        hist_view(o.editor_history.undo_defs@),
                        o.def@,
                    )
                    &&& n.editor_history.redo_defs@.len() == 0
                },
            }
        },
    }
}

fn find_cell(v: &Vec<Vec2i>, c: Vec2i) -> (r: Option<usize>)
    ensures
        r matches Some(i) ==> first_pos(v@, c) == Some(i as int) && i < v@.len(),
        r is None ==> first_pos(v@, c) is None,
{
    let mut i: usize = 0;
    while i < v.len()
        invariant
            i <= v@.len(),
            forall|j: int| 0 <= j < i ==> v@[j] != c,
        decreases v@.len() - i,
    {
        if v[i].x == c.x && v[i].y == c.y {
            proof {
                lemma_first_pos_at(v@, c, i as int);
            }
            return Some(i);
        }
        i += 1;
    }
    proof {
        lemma_first_pos(v@, c);
        if first_pos(v@, c) is Some {
            let k = first_pos(v@, c)->0;
            assert(v@[k] != c);
        }
    }
    None
}

/// Which cell edit to make.
enum CellEdit {
    Toggle,
    Add,
    Remove,
}

spec fn edit_fn(e: CellEdit) -> spec_fn(Seq<Vec2i>, Vec2i) -> Option<Seq<Vec2i>> {
    match e {
        CellEdit::Toggle => |s: Seq<Vec2i>, c: Vec2i| spec_toggle_cell(s, c),
        CellEdit::Add => |s: Seq<Vec2i>, c: Vec2i| spec_add_cell(s, c),
        CellEdit::Remove => |s: Seq<Vec2i>, c: Vec2i| spec_remove_cell(s, c),
    }
}

spec fn edit_label(e: CellEdit) -> Seq<char> {
    match e {
        CellEdit::Toggle => "PAINT"@,
        CellEdit::Add => "ADD"@,
        CellEdit::Remove => "REMOVE"@,
    }
}

impl SkillTreeRuntime {
    fn edit_cell_at_world(&mut self, world: Vec2i, edit: CellEdit) -> (r: bool)
        requires
            old(self).wf(),
            cell_edit_fits(*old(self), world, edit_fn(edit)),
        ensures
            final(self).wf(),
            spec_cell_edited(*old(self), *final(self), r, world, edit_fn(edit), edit_label(edit)),
    {
        let id = match &self.editor.selected {
            Some(s) => s.clone(),
            None => return false,
        };
        let idx = match find_node(&self.def.nodes, id.as_str()) {
            Some(i) => i,
            None => return false,
        };
        let pos = self.def.nodes[idx].pos;
        let rel = Vec2i::new(world.x - pos.x, world.y - pos.y);
        assert(rel == rel_cell(pos, world));
        let mut node = clone_node(&self.def.nodes[idx]);
        let ghost osh = node@.shape;
        let len = node.shape.len();
        let found = find_cell(&node.shape, rel);
        match edit {
            CellEdit::Toggle => match found {
                Some(i) => {
                    if len <= 1 {
                        return false;
                    }
                    node.shape.remove(i);
                },
                None => {
                    node.shape.push(rel);
                },
            },
            CellEdit::Add => match found {
                Some(i) => {
                    return false;
                },
                None => {
                    node.shape.push(rel);
                },
            },
            CellEdit::Remove => match found {
                Some(i) => {
                    if len <= 1 {
                        return false;
                    }
                    node.shape.remove(i);
                },
                None => {
                    return false;
                },
            },
        }
        assert((edit_fn(edit))(osh, rel) == Some(node@.shape));
        let before = clone_def(&self.def);
        let ghost od = self.def@;
        let ghost nv = node@;
        assert(nv == NodeView { shape: nv.shape, ..od.nodes[idx as int] });
        self.def.nodes.set(idx, node);
        assert(self.def@.nodes =~= od.nodes.update(idx as int, nv));
        proof {
            assert forall|k: int| 0 <= k < self.def@.nodes.len() implies crate::skilltree::shape_shift_fits(
                self.def@.nodes[k].pos, (#[trigger] self.def@.nodes[k]).shape) by {
                if k != idx {
                    assert(self.def@.nodes[k] == od.nodes[k]);
                    assert(shape_canonical(od.nodes[k].shape));
                    crate::skilltree::lemma_canonical_fits(self.def@.nodes[k].pos, self.def@.nodes[k].shape);
                }
            }
        }
        self.rebuild_caches();
        let label = match edit {
            CellEdit::Toggle => "PAINT ",
            CellEdit::Add => "ADD ",
            CellEdit::Remove => "REMOVE ",
        };
        let status = join(label, id.as_str());
        proof {
            reveal_strlit("PAINT ");
            reveal_strlit("ADD ");
            reveal_strlit("REMOVE ");
            reveal_strlit("PAINT");
            reveal_strlit("ADD");
            reveal_strlit("REMOVE");
            reveal_strlit(" ");
            assert(label@ =~= edit_label(edit) + " "@);
            lemma_push_history_view(old(self).editor_history.undo_defs@, before);
        }
        self.mark_editor_mutation(before, status);
        true
    }

    /// Removes the cell at `world` from the selected node's shape, or adds it; the only cell is
    /// never removed. Returns whether the shape changed.
    pub fn editor_toggle_cell_at_world(&mut self, world: Vec2i) -> (r: bool)
        requires
            old(self).wf(),
            cell_edit_fits(*old(self), world, |s: Seq<Vec2i>, c: Vec2i| spec_toggle_cell(s, c)),
        ensures
            final(self).wf(),
            spec_cell_edited(*old(self), *final(self), r, world, |s: Seq<Vec2i>, c: Vec2i| spec_toggle_cell(s, c), "PAINT"@),
    {
        assert(edit_fn(CellEdit::Toggle) == |s: Seq<Vec2i>, c: Vec2i| spec_toggle_cell(s, c));
        self.edit_cell_at_world(world, CellEdit::Toggle)
    }

    /// Adds the cell at `world` to the selected node's shape unless it is there. Returns whether
    /// the shape changed.
    pub fn editor_add_cell_at_world(&mut self, world: Vec2i) -> (r: bool)
        requires
            old(self).wf(),
            cell_edit_fits(*old(self), world, |s: Seq<Vec2i>, c: Vec2i| spec_add_cell(s, c)),
        ensures
            final(self).wf(),
            spec_cell_edited(*old(self), *final(self), r, world, |s: Seq<Vec2i>, c: Vec2i| spec_add_cell(s, c), "ADD"@),
    {
        assert(edit_fn(CellEdit::Add) == |s: Seq<Vec2i>, c: Vec2i| spec_add_cell(s, c));
        self.edit_cell_at_world(world, CellEdit::Add)
    }

    /// Removes the cell at `world` from the selected node's shape, unless it is absent or the
    /// only cell. Returns whether the shape changed.
    pub fn editor_remove_cell_at_world(&mut self, world: Vec2i) -> (r: bool)
        requires
            old(self).wf(),
            cell_edit_fits(*old(self), world, |s: Seq<Vec2i>, c: Vec2i| spec_remove_cell(s, c)),
        ensures
            final(self).wf(),
            spec_cell_edited(*old(self), *final(self), r, world, |s: Seq<Vec2i>, c: Vec2i| spec_remove_cell(s, c), "REMOVE"@),
    {
        assert(edit_fn(CellEdit::Remove) == |s: Seq<Vec2i>, c: Vec2i| spec_remove_cell(s, c));
        self.edit_cell_at_world(world, CellEdit::Remove)
    }
}


// ---- Editor: search ------------------------------------------------------------------------

/// `s` without its trailing whitespace.
pub open spec fn spec_trim_end(s: Seq<char>) -> Seq<char>
    decreases s.len(),
{
    if s.len() > 0 && spec_is_whitespace(s.last()) { spec_trim_end(s.drop_last()) } else { s }
}

pub open spec fn spec_ascii_lower(c: char) -> char {
    if 'A' <= c <= 'Z' { ((c as int) + 32) as char } else { c }
}

/// ASCII letters lowered.
pub open spec fn spec_lower(s: Seq<char>) -> Seq<char> {
    s.map_values(|c: char| spec_ascii_lower(c))
}

/// `q` occurs in `s`.
pub open spec fn has_sub(s: Seq<char>, q: Seq<char>) -> bool {
    exists|i: int| 0 <= i && i + q.len() <= s.len() && #[trigger] s.subrange(i, i + q.len()) == q
}

/// Match kinds in the order they are tried: id equal, name equal, id prefix, name prefix, id
/// substring, name substring (all on lowered text).
pub open spec fn matches_kind(n: NodeView, q: Seq<char>, k: int) -> bool {
    if k == 0 {
        spec_lower(n.id) == q
    } else if k == 1 {
        spec_lower(n.name) == q
    } else if k == 2 {
        q.is_prefix_of(spec_lower(n.id))
    } else if k == 3 {
        q.is_prefix_of(spec_lower(n.name))
    } else if k == 4 {
        has_sub(spec_lower(n.id), q)
    } else {
        has_sub(spec_lower(n.name), q)
    }
}

/// The smallest id (in `String` order) among the nodes that match in kind `k`.
pub open spec fn best_id(nodes: Seq<NodeView>, q: Seq<char>, k: int) -> Option<Seq<char>>
    decreases nodes.len(),
{
    if nodes.len() == 0 {
        None
    } else {
        let b = best_id(nodes.drop_last(), q, k);
        let n = nodes.last();
        if matches_kind(n, q, k) {
            match b {
                None => Some(n.id),
                Some(x) => if lex_lt(n.id, x) { Some(n.id) } else { Some(x) },
            }
        } else {
            b
        }
    }
}

/// The first kind from `k` on with a match, and its smallest id.
pub open spec fn best_from(nodes: Seq<NodeView>, q: Seq<char>, k: int) -> Option<Seq<char>>
    decreases 6 - k,
{
    if k >= 6 || k < 0 {
        None
    } else {
        match best_id(nodes, q, k) {
            Some(x) => Some(x),
            None => best_from(nodes, q, k + 1),
        }
    }
}

/// The search: the query trimmed and lowered; nothing for an empty query; else the first match
/// kind with a hit, and among its hits the smallest id.
pub open spec fn spec_find_first(nodes: Seq<NodeView>, query: Seq<char>) -> Option<Seq<char>> {
    let q = spec_lower(spec_trim_end(spec_trim_start(query)));
    if q.len() == 0 { None } else { best_from(nodes, q, 0) }
}

fn ascii_lower(c: char) -> (r: char)
    ensures
        r == spec_ascii_lower(c),
{
    if 'A' <= c && c <= 'Z' {
        let b = c as u8;
        assert(b == c as int) by {
            assert('A' as int <= c as int <= 'Z' as int);
        }
        (b + 32) as char
    } else {
        c
    }
}

fn lower_chars(s: &str) -> (r: Vec<char>)
    ensures
        r@ == spec_lower(s@),
{
    let n = s.unicode_len();
    let mut out: Vec<char> = Vec::new();
    let mut i: usize = 0;
    while i < n
        invariant
            n == s@.len(),
            i <= n,
            out@ == spec_lower(s@.take(i as int)),
        decreases n - i,
    {
        out.push(ascii_lower(s.get_char(i)));
        i += 1;
        assert(out@ =~= spec_lower(s@.take(i as int)));
    }
    assert(s@.take(n as int) =~= s@);
    out
}

/// The query trimmed and lowered.
fn search_key(query: &str) -> (r: Vec<char>)
    ensures
        r@ == spec_lower(spec_trim_end(spec_trim_start(query@))),
{
    let t = trimmed_tail(query, 0);
    assert(query@.skip(0) =~= query@);
    let ghost ts = t@;
    let mut j: usize = t.unicode_len();
    assert(ts.take(j as int) =~= ts);
    while j > 0 && crate::tetris_core::setup::is_whitespace(t.as_str().get_char(j - 1))
        invariant
            ts == t@,
            j <= ts.len(),
            spec_trim_end(ts) == spec_trim_end(ts.take(j as int)),
        decreases j,
    {
        assert(ts.take(j as int).drop_last() =~= ts.take(j - 1));
        j -= 1;
    }
    let mut out: Vec<char> = Vec::new();
    let mut i: usize = 0;
    while i < j
        invariant
            ts == t@,
            j <= ts.len(),
            i <= j,
            out@ == spec_lower(ts.take(i as int)),
        decreases j - i,
    {
        out.push(ascii_lower(t.as_str().get_char(i)));
        i += 1;
        assert(out@ =~= spec_lower(ts.take(i as int)));
    }
    assert(ts.take(j as int).take(j as int) =~= ts.take(j as int));
    out
}

fn chars_eq(a: &Vec<char>, b: &Vec<char>) -> (r: bool)
    ensures
        r == (a@ == b@),
{
    if a.len() != b.len() {
        return false;
    }
    let mut i: usize = 0;
    while i < a.len()
        invariant
            a@.len() == b@.len(),
            i <= a@.len(),
            forall|k: int| 0 <= k < i ==> a@[k] == b@[k],
        decreases a@.len() - i,
    {
        if a[i] != b[i] {
            return false;
        }
        i += 1;
    }
    assert(a@ =~= b@);
    true
}

/// Whether `q` occurs in `s` at `at`.
fn occurs_at(s: &Vec<char>, q: &Vec<char>, at: usize) -> (r: bool)
    requires
        at + q@.len() <= s@.len(),
    ensures
        r == (s@.subrange(at as int, at + q@.len()) == q@),
{
    let sl = s.len();
    let mut i: usize = 0;
    while i < q.len()
        invariant
            sl == s@.len(),
            at + q@.len() <= s@.len(),
            i <= q@.len(),
            forall|k: int| 0 <= k < i ==> s@[at + k] == q@[k],
        decreases q@.len() - i,
    {
        if s[at + i] != q[i] {
            assert(s@.subrange(at as int, at + q@.len())[i as int] != q@[i as int]);
            return false;
        }
        i += 1;
    }
    assert(s@.subrange(at as int, at + q@.len()) =~= q@);
    true
}

fn has_sub_exec(s: &Vec<char>, q: &Vec<char>) -> (r: bool)
    ensures
        r == has_sub(s@, q@),
{
    let sl = s.len();
    let ql = q.len();
    if ql > sl {
        return false;
    }
    let last = sl - ql;
    let mut at: usize = 0;
    loop
        invariant
            sl == s@.len(),
            ql == q@.len(),
            last == sl - ql,
            at <= last,
            forall|i: int| 0 <= i < at ==> #[trigger] s@.subrange(i, i + q@.len()) != q@,
        decreases last - at,
    {
        if occurs_at(s, q, at) {
            return true;
        }
        if at == last {
            proof {
                if has_sub(s@, q@) {
                    let w = choose|i: int| 0 <= i && i + q@.len() <= s@.len() && #[trigger] s@.subrange(i, i + q@.len()) == q@;
                    assert(w <= last);
                }
            }
            return false;
        }
        at += 1;
    }
}

fn matches_kind_exec(n: &SkillNodeDef, q: &Vec<char>, k: usize) -> (r: bool)
    requires
        k < 6,
    ensures
        r == matches_kind(n@, q@, k as int),
{
    let text = if k % 2 == 0 { lower_chars(n.id.as_str()) } else { lower_chars(n.name.as_str()) };
    if k < 2 {
        chars_eq(&text, q)
    } else if k < 4 {
        q.len() <= text.len() && {
            let hit = occurs_at(&text, q, 0);
            assert(text@.subrange(0, q@.len() as int) == q@ <==> q@.is_prefix_of(text@));
            hit
        }
    } else {
        has_sub_exec(&text, q)
    }
}

impl SkillTreeRuntime {
    /// The node found by the search panel for `query`; see `spec_find_first`.
    pub fn editor_find_first_matching(&self, query: &str) -> (r: Option<String>)
        ensures
            opt_str(r) == spec_find_first(self.def@.nodes, query@),
    {
        let q = search_key(query);
        if q.len() == 0 {
            return None;
        }
        let ghost nodes = self.def@.nodes;
        let mut k: usize = 0;
        while k < 6
            invariant
                nodes == self.def@.nodes,
                k <= 6,
                spec_find_first(nodes, query@) == best_from(nodes, q@, k as int),
            decreases 6 - k,
        {
            let mut best: Option<usize> = None;
            let mut i: usize = 0;
            while i < self.def.nodes.len()
                invariant
                    nodes == self.def@.nodes,
                    k < 6,
                    i <= nodes.len(),
                    match best {
                        Some(b) => b < nodes.len() && best_id(nodes.take(i as int), q@, k as int) == Some(nodes[b as int].id),
                        None => best_id(nodes.take(i as int), q@, k as int) is None,
                    },
                decreases nodes.len() - i,
            {
                assert(nodes.take(i + 1).drop_last() =~= nodes.take(i as int));
                assert(nodes.take(i + 1).last() == nodes[i as int]);
                if matches_kind_exec(&self.def.nodes[i], &q, k) {
                    match best {
                        None => {
                            best = Some(i);
                        },
                        Some(b) => {
                            if crate::skilltree::str_lt(self.def.nodes[i].id.as_str(), self.def.nodes[b].id.as_str()) {
                                best = Some(i);
                            }
                        },
                    }
                }
                i += 1;
            }
            assert(nodes.take(nodes.len() as int) =~= nodes);
            match best {
                Some(b) => {
                    assert(nodes[b as int] == self.def.nodes@[b as int]@);
                    assert(best_from(nodes, q@, k as int) == Some(nodes[b as int].id));
                    return Some(self.def.nodes[b].id.clone());
                },
                None => {},
            }
            k += 1;
        }
        None
    }

    /// Selects the node found for `query` (see `editor_find_first_matching` and `editor_select`)
    /// and reports the jump. Returns its id; none, with nothing changed, when nothing matches.
    pub fn editor_select_matching(&mut self, query: &str) -> (r: Option<String>)
        ensures
            opt_str(r) == spec_find_first(old(self).def@.nodes, query@),
            r is None ==> *final(self) == *old(self),
            r matches Some(hit) ==> {
                &&& opt_str(final(self).editor.selected) == Some(hit@)
                &&& final(self).editor.move_grab_offset is None
                &&& final(self).editor.pending_delete_id is None
                &&& final(self).editor.cursor_world == (match spec_node_index(old(self).def@.nodes, hit@) {
                    Some(i) => old(self).def@.nodes[i].pos,
                    None => old(self).editor.cursor_world,
                })
                &&& opt_str(final(self).editor.status) == Some("JUMP "@ + hit@)
                &&& final(self).editor == (SkillTreeEditorState {
                    selected: final(self).editor.selected,
                    move_grab_offset: None,
                    pending_delete_id: None,
                    cursor_world: final(self).editor.cursor_world,
                    status: final(self).editor.status,
                    ..old(self).editor
                })
                &&& final(self).def == old(self).def
                &&& final(self).progress == old(self).progress
                &&& final(self).editor_history == old(self).editor_history
            },
    {
        let hit = match self.editor_find_first_matching(query) {
            Some(h) => h,
            None => return None,
        };
        self.editor_select(hit.as_str(), None);
        self.editor.status = Some(join("JUMP ", hit.as_str()));
        proof {
            reveal_strlit("JUMP ");
        }
        Some(hit)
    }
}


impl SkillTreeRuntime {
    /// The first node with id `id`, to change in place.
    pub fn node_mut(&mut self, id: &str) -> (r: Option<&mut SkillNodeDef>)
        ensures
            spec_node_index(old(self).def@.nodes, id@) is None ==> r is None && *final(self) == *old(self),
            spec_node_index(old(self).def@.nodes, id@) matches Some(i) ==> r matches Some(n) && {
                &&& *n == old(self).def.nodes@[i]
                &&& final(self).def.nodes@ == old(self).def.nodes@.update(i, *final(n))
                &&& final(self).def.version == old(self).def.version
                &&& final(self).progress == old(self).progress
                &&& final(self).editor == old(self).editor
                &&& final(self).editor_history == old(self).editor_history
            },
    {
        let idx = match find_node(&self.def.nodes, id) {
            Some(i) => i,
            None => return None,
        };
        Some(&mut self.def.nodes[idx])
    }
}


fn clone_opt_string(o: &Option<String>) -> (r: Option<String>)
    ensures
        r == *o,
{
    match o {
        Some(s) => Some(s.clone()),
        None => None,
    }
}

fn clone_editor(e: &SkillTreeEditorState) -> (r: SkillTreeEditorState)
    ensures
        r == *e,
{
    SkillTreeEditorState {
        enabled: e.enabled,
        tool: e.tool,
        selected: clone_opt_string(&e.selected),
        move_grab_offset: e.move_grab_offset,
        connect_from: clone_opt_string(&e.connect_from),
        help_expanded: e.help_expanded,
        cursor_world: e.cursor_world,
        pending_delete_id: clone_opt_string(&e.pending_delete_id),
        search_open: e.search_open,
        search_query: e.search_query.clone(),
        dirty: e.dirty,
        status: clone_opt_string(&e.status),
    }
}

/// The tree used when no definition can be loaded: a single free "start" node at the origin.
pub fn fallback_def() -> (r: SkillTreeDef)
    ensures
        r@.version == 1,
        r@.nodes == seq![NodeView {
            id: "start"@,
            name: "START"@,
            pos: Vec2i { x: 0, y: 0 },
            shape: seq![Vec2i { x: 0, y: 0 }],
            color: 3,
            cost: 0,
            requires: Seq::empty(),
            effect: SkillEffect::NoEffect,
        }],
{
    let mut shape: Vec<Vec2i> = Vec::new();
    shape.push(Vec2i::new(0, 0));
    let node = SkillNodeDef {
        id: String::from_str("start"),
        name: String::from_str("START"),
        pos: Vec2i::new(0, 0),
        shape,
        color: 3,
        cost: 0,
        requires: Vec::new(),
        effect: SkillEffect::NoEffect,
    };
    let mut nodes: Vec<SkillNodeDef> = Vec::new();
    nodes.push(node);
    let d = SkillTreeDef { version: 1, nodes };
    assert(d@.nodes =~= seq![node@]);
    assert(node@.shape =~= seq![Vec2i { x: 0, y: 0 }]);
    assert(node@.requires =~= Seq::<Seq<char>>::empty());
    d
}

impl SkillTreeRuntime {
    /// A copy of the definition, the progress and the editor.
    pub fn to_snapshot(&self) -> (r: SkillTreeSnapshot)
        ensures
            r.def@ == self.def@,
            r.progress.version == self.progress.version,
            r.progress.money == self.progress.money,
            strings_view(r.progress.unlocked@) == strings_view(self.progress.unlocked@),
            r.editor == self.editor,
    {
        SkillTreeSnapshot {
            def: clone_def(&self.def),
            progress: SkillTreeProgress {
                version: self.progress.version,
                money: self.progress.money,
                unlocked: clone_strings(&self.progress.unlocked),
            },
            editor: clone_editor(&self.editor),
        }
    }
}


// ---- The runtime as values -----------------------------------------------------------------

/// Player progress as values.
pub ghost struct ProgressView {
    pub version: u32,
    pub money: u32,
    pub unlocked: Seq<Seq<char>>,
}

/// The runtime as values: definition, progress, editor and history.
pub ghost struct RuntimeView {
    pub def: DefView,
    pub progress: ProgressView,
    pub editor: SkillTreeEditorState,
    pub undo: Seq<DefView>,
    pub redo: Seq<DefView>,
}

impl View for SkillTreeRuntime {
    type V = RuntimeView;

    open spec fn view(&self) -> RuntimeView {
        RuntimeView {
            def: self.def@,
            progress: ProgressView {
                version: self.progress.version,
                money: self.progress.money,
                unlocked: strings_view(self.progress.unlocked@),
            },
            editor: self.editor,
            undo: hist_view(self.editor_history.undo_defs@),
            redo: hist_view(self.editor_history.redo_defs@),
        }
    }
}

fn clone_history(h: &Vec<SkillTreeDef>) -> (r: Vec<SkillTreeDef>)
    ensures
        hist_view(r@) == hist_view(h@),
{
    let mut out: Vec<SkillTreeDef> = Vec::new();
    let mut i: usize = 0;
    while i < h.len()
        invariant
            i <= h@.len(),
            hist_view(out@) == hist_view(h@).take(i as int),
        decreases h@.len() - i,
    {
        let ghost before = out@;
        out.push(clone_def(&h[i]));
        assert(hist_view(out@) =~= hist_view(before).push(h@[i as int]@));
        i += 1;
        assert(hist_view(out@) =~= hist_view(h@).take(i as int));
    }
    assert(hist_view(h@).take(h@.len() as int) =~= hist_view(h@));
    out
}

impl Clone for SkillTreeRuntime {
    fn clone(&self) -> (r: Self)
        ensures
            r@ == self@,
            r.wf() == self.wf(),
    {
        let snap = self.to_snapshot();
        let r = SkillTreeRuntime {
            def: snap.def,
            progress: snap.progress,
            editor: snap.editor,
            editor_history: SkillTreeEditorHistory {
                undo_defs: clone_history(&self.editor_history.undo_defs),
                redo_defs: clone_history(&self.editor_history.redo_defs),
            },
        };
        proof {
            let ru = r.editor_history.undo_defs@;
            let su = self.editor_history.undo_defs@;
            let rr = r.editor_history.redo_defs@;
            let sr = self.editor_history.redo_defs@;
            assert(hist_view(ru).len() == hist_view(su).len());
            assert(hist_view(rr).len() == hist_view(sr).len());
            assert forall|i: int| 0 <= i < ru.len() implies (#[trigger] ru[i])@ == su[i]@ by {
                assert(hist_view(ru)[i] == hist_view(su)[i]);
            }
            assert forall|i: int| 0 <= i < rr.len() implies (#[trigger] rr[i])@ == sr[i]@ by {
                assert(hist_view(rr)[i] == hist_view(sr)[i]);
            }
            if self.wf() {
                assert forall|i: int| 0 <= i < ru.len() implies nodes_canonical((#[trigger] ru[i])@.nodes) by {
                    assert(nodes_canonical(su[i]@.nodes));
                }
                assert forall|i: int| 0 <= i < rr.len() implies nodes_canonical((#[trigger] rr[i])@.nodes) by {
                    assert(nodes_canonical(sr[i]@.nodes));
                }
            }
            if r.wf() {
                assert forall|i: int| 0 <= i < su.len() implies nodes_canonical((#[trigger] su[i])@.nodes) by {
                    assert(nodes_canonical(ru[i]@.nodes));
                }
                assert forall|i: int| 0 <= i < sr.len() implies nodes_canonical((#[trigger] sr[i])@.nodes) by {
                    assert(nodes_canonical(rr[i]@.nodes));
                }
            }
        }
        r
    }
}

/// The built-in tree as values.
pub open spec fn fallback_view() -> DefView {
    DefView {
        version: 1,
        nodes: seq![NodeView {
            id: "start"@,
            name: "START"@,
            pos: Vec2i { x: 0, y: 0 },
            shape: seq![Vec2i { x: 0, y: 0 }],
            color: 3,
            cost: 0,
            requires: Seq::empty(),
            effect: SkillEffect::NoEffect,
        }],
    }
}

/// A runtime as `from_defaults` makes it: the built-in tree rebuilt, "start" unlocked, no
/// money, the editor off with nothing selected, no history.
pub open spec fn spec_default_runtime(r: SkillTreeRuntime) -> bool {
    &&& spec_normalized(fallback_view(), r.def@)
    &&& r.wf()
    &&& r.progress.version == 1
    &&& r.progress.money == 0
    &&& strings_view(r.progress.unlocked@) == spec_prune_unlocked(seq!["start"@], node_ids(r.def@.nodes))
    &&& !r.editor.enabled
    &&& r.editor.tool == SkillTreeEditorTool::Select
    &&& r.editor.selected is None
    &&& r.editor.move_grab_offset is None
    &&& r.editor.connect_from is None
    &&& !r.editor.help_expanded
    &&& r.editor.cursor_world == (Vec2i { x: 0, y: 0 })
    &&& r.editor.pending_delete_id is None
    &&& !r.editor.search_open
    &&& r.editor.search_query@.len() == 0
    &&& !r.editor.dirty
    &&& r.editor.status is None
    &&& r.editor_history.undo_defs@.len() == 0
    &&& r.editor_history.redo_defs@.len() == 0
}

impl SkillTreeRuntime {
    /// The built-in tree with default progress, rebuilt.
    pub fn from_defaults() -> (r: Self)
        ensures
            spec_default_runtime(r),
    {
        let def = fallback_def();
        proof {
            crate::skilltree::lemma_origin_canonical();
            assert(def@ == fallback_view());
            crate::skilltree::lemma_canonical_fits(def@.nodes[0].pos, def@.nodes[0].shape);
        }
        let progress = SkillTreeProgress::default();
        let editor = SkillTreeEditorState::default();
        let r = Self::from_snapshot(SkillTreeSnapshot { def, progress, editor });
        assert(strings_view(progress.unlocked@) =~= seq!["start"@]);
        r
    }
}


// ---- Laws of undo and redo -----------------------------------------------------------------

proof fn lemma_push_history_last<T>(h: Seq<T>, d: T)
    ensures
        spec_push_history(h, d).len() > 0,
        spec_push_history(h, d).last() == d,
{
    let p = h.push(d);
    if p.len() > history_limit() {
        assert(p.skip(p.len() - history_limit()).last() == p.last());
    }
}

/// Undoing an edit gives back the definition from before the edit: an edit records the
/// (normalized) definition it started from, and undo rebuilds from the last record.
pub proof fn lemma_undo_restores_definition(
    o: DefView,
    before: SkillTreeRuntime,
    edited: SkillTreeRuntime,
    undone: SkillTreeRuntime,
)
    requires
        shapes_fit(o.nodes),
        spec_normalized(o, before.def@),
        hist_view(edited.editor_history.undo_defs@) == spec_push_history(
            hist_view(before.editor_history.undo_defs@),
            before.def@,
        ),
        spec_rebuilt_def(edited.editor_history.undo_defs@.last()@, edited.progress, undone),
    ensures
        undone.def@ == before.def@,
{
    let h = edited.editor_history.undo_defs@;
    lemma_push_history_last(hist_view(before.editor_history.undo_defs@), before.def@);
    assert(hist_view(h).len() == h.len());
    assert(hist_view(h).last() == h.last()@);
    crate::skilltree::lemma_normalize_idempotent(o, before.def@, undone.def@);
}

/// Redoing an undone edit gives back the edited definition: undo records the (normalized)
/// definition it leaves, and redo rebuilds from the last record.
pub proof fn lemma_redo_restores_edit(
    m: DefView,
    edited: SkillTreeRuntime,
    undone: SkillTreeRuntime,
    redone: SkillTreeRuntime,
)
    requires
        shapes_fit(m.nodes),
        spec_normalized(m, edited.def@),
        undone.editor_history.redo_defs@ == spec_push_history(edited.editor_history.redo_defs@, edited.def),
        spec_rebuilt_def(undone.editor_history.redo_defs@.last()@, undone.progress, redone),
    ensures
        redone.def@ == edited.def@,
{
    lemma_push_history_last(edited.editor_history.redo_defs@, edited.def);
    crate::skilltree::lemma_normalize_idempotent(m, edited.def@, redone.def@);
}

} // verus!
