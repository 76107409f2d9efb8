//! The skill tree: nodes placed on a world grid, what they grant, and player progress.
use vstd::prelude::*;

use crate::piece::Vec2i;
use crate::tetris_core::setup::{is_blank, spec_blank, spec_is_whitespace, string_from_chars};
use crate::tetris_core::strings_view;

pub mod runtime;

pub use runtime::{SkillTreeEditorHistory, SkillTreeRuntime, SkillTreeSnapshot};

verus! {

/// What unlocking a node grants for a run.
#[derive(Debug, Clone, Copy, PartialEq, Eq, Structural)]
pub enum SkillEffect {
    NoEffect,
    AddRoundTimeSeconds { seconds: u32 },
    AddScoreBonus { bonus: u32 },
    FasterGravity { percent: u32 },
    AddDeepShaftRows { rows: u32 },
    AddOreWeight { points: u32 },
    AddCoinWeight { points: u32 },
    AddOreScoreValue { points: u32 },
    AddCoinScoreValue { points: u32 },
    AddOreMoneyValue { points: u32 },
    AddCoinMoneyValue { points: u32 },
    AddHolePatchChanceBp { basis_points: u32 },
    AddHoleAlignChanceBp { basis_points: u32 },
}

/// One node: an id, a name, an anchor on the world grid (y grows upward), a polyblock shape
/// relative to the anchor, a colour, a cost, prerequisite node ids and an effect.
#[derive(Debug, Clone, PartialEq, Eq)]
pub struct SkillNodeDef {
    pub id: String,
    pub name: String,
    pub pos: Vec2i,
    pub shape: Vec<Vec2i>,
    pub color: u8,
    pub cost: u32,
    pub requires: Vec<String>,
    pub effect: SkillEffect,
}

/// The designer-authored tree.
#[derive(Debug, Clone, PartialEq, Eq)]
pub struct SkillTreeDef {
    pub version: u32,
    pub nodes: Vec<SkillNodeDef>,
}

/// A node as mathematical values.
pub struct NodeView {
    pub id: Seq<char>,
    pub name: Seq<char>,
    pub pos: Vec2i,
    pub shape: Seq<Vec2i>,
    pub color: u8,
    pub cost: u32,
    pub requires: Seq<Seq<char>>,
    pub effect: SkillEffect,
}

impl View for SkillNodeDef {
    type V = NodeView;

    open spec fn view(&self) -> NodeView {
        NodeView {
            id: self.id@,
            name: self.name@,
            pos: self.pos,
            shape: self.shape@,
            color: self.color,
            cost: self.cost,
            requires: strings_view(self.requires@),
            effect: self.effect,
        }
    }
}

/// A definition as mathematical values.
pub struct DefView {
    pub version: u32,
    pub nodes: Seq<NodeView>,
}

impl View for SkillTreeDef {
    type V = DefView;

    open spec fn view(&self) -> DefView {
        DefView { version: self.version, nodes: nodes_view(self.nodes@) }
    }
}

pub open spec fn nodes_view(s: Seq<SkillNodeDef>) -> Seq<NodeView> {
    s.map_values(|n: SkillNodeDef| n@)
}

/// Modifiers that unlocked nodes grant for a run.
#[derive(Debug, Clone, Copy, PartialEq, Eq, Structural)]
pub struct SkillTreeRunMods {
    pub extra_round_time_seconds: u32,
    pub gravity_faster_percent: u32,
    pub score_bonus_per_line: u32,
    pub deep_shaft_rows: u32,
    pub ore_weight_points: u32,
    pub coin_weight_points: u32,
    pub ore_score_bonus: u32,
    pub coin_score_bonus: u32,
    pub ore_money_bonus: u32,
    pub coin_money_bonus: u32,
    pub hole_patch_chance_bp: u32,
    pub hole_align_chance_bp: u32,
}

impl Default for SkillTreeRunMods {
    fn default() -> (r: Self)
        ensures
            r == spec_no_mods(),
    {
        SkillTreeRunMods {
            extra_round_time_seconds: 0,
            gravity_faster_percent: 0,
            score_bonus_per_line: 0,
            deep_shaft_rows: 0,
            ore_weight_points: 0,
            coin_weight_points: 0,
            ore_score_bonus: 0,
            coin_score_bonus: 0,
            ore_money_bonus: 0,
            coin_money_bonus: 0,
            hole_patch_chance_bp: 0,
            hole_align_chance_bp: 0,
        }
    }
}

pub open spec fn spec_no_mods() -> SkillTreeRunMods {
    SkillTreeRunMods {
        extra_round_time_seconds: 0,
        gravity_faster_percent: 0,
        score_bonus_per_line: 0,
        deep_shaft_rows: 0,
        ore_weight_points: 0,
        coin_weight_points: 0,
        ore_score_bonus: 0,
        coin_score_bonus: 0,
        ore_money_bonus: 0,
        coin_money_bonus: 0,
        hole_patch_chance_bp: 0,
        hole_align_chance_bp: 0,
    }
}

/// The player's progress: money and unlocked node ids.
#[derive(Debug, Clone, PartialEq, Eq)]
pub struct SkillTreeProgress {
    pub version: u32,
    pub money: u32,
    pub unlocked: Vec<String>,
}

impl Default for SkillTreeProgress {
    fn default() -> (r: Self)
        ensures
            r.version == 1 && r.money == 0 && r.unlocked@.len() == 1 && r.unlocked@[0]@ == "start"@,
    {
        let mut unlocked: Vec<String> = Vec::new();
        unlocked.push(String::from_str("start"));
        SkillTreeProgress { version: 1, money: 0, unlocked }
    }
}

#[derive(Debug, Clone, Copy, PartialEq, Eq, Structural)]
pub enum NodeState {
    Unlocked,
    Available,
    Locked,
}

#[derive(Debug, Clone, Copy, PartialEq, Eq, Structural)]
pub enum SkillTreeEditorTool {
    Select,
    Move,
    AddCell,
    RemoveCell,
    ConnectPrereqs,
}

/// The editor's state: whether it is on, the tool, the selection, the keyboard cursor, the
/// two-step delete guard, the search panel, and whether there are unsaved edits.
#[derive(Debug, Clone, PartialEq, Eq)]
pub struct SkillTreeEditorState {
    pub enabled: bool,
    pub tool: SkillTreeEditorTool,
    pub selected: Option<String>,
    pub move_grab_offset: Option<Vec2i>,
    pub connect_from: Option<String>,
    pub help_expanded: bool,
    pub cursor_world: Vec2i,
    pub pending_delete_id: Option<String>,
    pub search_open: bool,
    pub search_query: String,
    pub dirty: bool,
    pub status: Option<String>,
}

impl Default for SkillTreeEditorState {
    fn default() -> (r: Self)
        ensures
            !r.enabled && r.tool == SkillTreeEditorTool::Select && r.selected is None
                && r.move_grab_offset is None && r.connect_from is None && !r.help_expanded
                && r.cursor_world == (Vec2i { x: 0, y: 0 }) && r.pending_delete_id is None
                && !r.search_open && r.search_query@.len() == 0 && !r.dirty && r.status is None,
    {
        SkillTreeEditorState {
            enabled: false,
            tool: SkillTreeEditorTool::Select,
            selected: None,
            move_grab_offset: None,
            connect_from: None,
            help_expanded: false,
            cursor_world: Vec2i::new(0, 0),
            pending_delete_id: None,
            search_open: false,
            search_query: String::new(),
            dirty: false,
            status: None,
        }
    }
}

/// Inclusive cell bounds of the tree on the world grid.
#[derive(Debug, Clone, Copy, PartialEq, Eq, Structural)]
pub struct SkillTreeWorldBounds {
    pub min: Vec2i,
    pub max: Vec2i,
}

pub open spec fn sat_add_i32(a: i32, b: i32) -> i32 {
    if a + b > i32::MAX {
        i32::MAX
    } else if a + b < i32::MIN {
        i32::MIN
    } else {
        (a + b) as i32
    }
}

/// World cell of shape cell `k` of node `n` (coordinates add saturating).
pub open spec fn node_cell(n: SkillNodeDef, k: int) -> (i32, i32) {
    (sat_add_i32(n.pos.x, n.shape@[k].x), sat_add_i32(n.pos.y, n.shape@[k].y))
}

/// Whether the world cell `c` belongs to some node of the tree.
pub open spec fn tree_has_cell(nodes: Seq<SkillNodeDef>, c: (i32, i32)) -> bool {
    exists|i: int, k: int| 0 <= i < nodes.len() && 0 <= k < nodes[i].shape@.len() && node_cell(nodes[i], k) == c
}

pub(crate) fn sat_add_i32_exec(a: i32, b: i32) -> (r: i32)
    ensures
        r == sat_add_i32(a, b),
{
    let s = a as i64 + b as i64;
    if s > i32::MAX as i64 {
        i32::MAX
    } else if s < i32::MIN as i64 {
        i32::MIN
    } else {
        s as i32
    }
}

/// Cell `kk` of node `a` comes before cell `k` of node `i`.
pub open spec fn cell_seen(nodes: Seq<SkillNodeDef>, i: int, k: int, a: int, kk: int) -> bool {
    (0 <= a < i && 0 <= kk < nodes[a].shape@.len()) || (a == i && 0 <= kk < k)
}

/// The smallest inclusive bounds holding every node cell; none for a tree without cells.
#[verifier::spinoff_prover]
#[verifier::rlimit(40)]
pub fn skilltree_world_bounds(def: &SkillTreeDef) -> (r: Option<SkillTreeWorldBounds>)
    ensures
        match r {
            None => forall|i: int| 0 <= i < def.nodes@.len() ==> (#[trigger] def.nodes@[i]).shape@.len() == 0,
            Some(b) => {
                &&& forall|c: (i32, i32)| tree_has_cell(def.nodes@, c) ==> b.min.x <= c.0 <= b.max.x && b.min.y <= c.1 <= b.max.y
                &&& (exists|c: (i32, i32)| tree_has_cell(def.nodes@, c) && c.0 == b.min.x)
                &&& (exists|c: (i32, i32)| tree_has_cell(def.nodes@, c) && c.0 == b.max.x)
                &&& (exists|c: (i32, i32)| tree_has_cell(def.nodes@, c) && c.1 == b.min.y)
                &&& (exists|c: (i32, i32)| tree_has_cell(def.nodes@, c) && c.1 == b.max.y)
            },
        },
{
    let mut any = false;
    let mut min_x = i32::MAX;
    let mut min_y = i32::MAX;
    let mut max_x = i32::MIN;
    let mut max_y = i32::MIN;
    let ghost nodes = def.nodes@;
    let ghost mut w1: (int, int) = (0, 0);
    let ghost mut w2: (int, int) = (0, 0);
    let ghost mut w3: (int, int) = (0, 0);
    let ghost mut w4: (int, int) = (0, 0);
    let mut i: usize = 0;
    while i < def.nodes.len()
        invariant
            nodes == def.nodes@,
            i <= nodes.len(),
            !any ==> forall|a: int| 0 <= a < i ==> (#[trigger] nodes[a]).shape@.len() == 0,
            forall|a: int, k: int| 0 <= a < i && 0 <= k < nodes[a].shape@.len() ==> min_x <= #[trigger] node_cell(nodes[a], k).0 <= max_x
                && min_y <= node_cell(nodes[a], k).1 <= max_y,
            any ==> cell_seen(nodes, i as int, 0, w1.0, w1.1) && node_cell(nodes[w1.0], w1.1).0 == min_x,
            any ==> cell_seen(nodes, i as int, 0, w2.0, w2.1) && node_cell(nodes[w2.0], w2.1).0 == max_x,
            any ==> cell_seen(nodes, i as int, 0, w3.0, w3.1) && node_cell(nodes[w3.0], w3.1).1 == min_y,
            any ==> cell_seen(nodes, i as int, 0, w4.0, w4.1) && node_cell(nodes[w4.0], w4.1).1 == max_y,
        decreases nodes.len() - i,
    {
        let node = &def.nodes[i];
        let mut k: usize = 0;
        while k < node.shape.len()
            invariant
                nodes == def.nodes@,
                i < nodes.len(),
                *node == nodes[i as int],
                k <= node.shape@.len(),
                !any ==> k == 0 && forall|a: int| 0 <= a < i ==> (#[trigger] nodes[a]).shape@.len() == 0,
                forall|a: int, kk: int| cell_seen(nodes, i as int, k as int, a, kk) ==> min_x <= #[trigger] node_cell(nodes[a], kk).0 <= max_x
                    && min_y <= node_cell(nodes[a], kk).1 <= max_y,
                any ==> cell_seen(nodes, i as int, k as int, w1.0, w1.1) && node_cell(nodes[w1.0], w1.1).0 == min_x,
                any ==> cell_seen(nodes, i as int, k as int, w2.0, w2.1) && node_cell(nodes[w2.0], w2.1).0 == max_x,
                any ==> cell_seen(nodes, i as int, k as int, w3.0, w3.1) && node_cell(nodes[w3.0], w3.1).1 == min_y,
                any ==> cell_seen(nodes, i as int, k as int, w4.0, w4.1) && node_cell(nodes[w4.0], w4.1).1 == max_y,
            decreases node.shape@.len() - k,
        {
            let ghost (p_min_x, p_max_x, p_min_y, p_max_y) = (min_x, max_x, min_y, max_y);
            let rel = node.shape[k];
            let x = sat_add_i32_exec(node.pos.x, rel.x);
            let y = sat_add_i32_exec(node.pos.y, rel.y);
            assert(node_cell(nodes[i as int], k as int) == (x, y));
            if !any || x < min_x {
                min_x = x;
                proof { w1 = (i as int, k as int); }
            }
            if !any || y < min_y {
                min_y = y;
                proof { w3 = (i as int, k as int); }
            }
            if !any || x > max_x {
                max_x = x;
                proof { w2 = (i as int, k as int); }
            }
            if !any || y > max_y {
                max_y = y;
                proof { w4 = (i as int, k as int); }
            }
            any = true;
            proof {
                assert forall|a: int, kk: int| cell_seen(nodes, i as int, k + 1, a, kk) implies min_x <= #[trigger] node_cell(nodes[a], kk).0 <= max_x
                    && min_y <= node_cell(nodes[a], kk).1 <= max_y by {
                    if !(a == i && kk == k) {
                        assert(cell_seen(nodes, i as int, k as int, a, kk));
                        assert(p_min_x <= node_cell(nodes[a], kk).0 <= p_max_x);
                    }
                }
            }
            k += 1;
        }
        assert(k == nodes[i as int].shape@.len());
        assert forall|a: int, kk: int| 0 <= a < i + 1 && 0 <= kk < nodes[a].shape@.len() implies min_x <= #[trigger] node_cell(nodes[a], kk).0 <= max_x
            && min_y <= node_cell(nodes[a], kk).1 <= max_y by {
            if a == i {
                assert(kk < k);
            }
            assert(cell_seen(nodes, i as int, k as int, a, kk));
        }
        i += 1;
    }
    if any {
        let b = SkillTreeWorldBounds { min: Vec2i::new(min_x, min_y), max: Vec2i::new(max_x, max_y) };
        proof {
            assert forall|c: (i32, i32)| tree_has_cell(nodes, c) implies b.min.x <= c.0 <= b.max.x && b.min.y <= c.1 <= b.max.y by {
                let (a, kk) = choose|a: int, kk: int| 0 <= a < nodes.len() && 0 <= kk < nodes[a].shape@.len() && node_cell(nodes[a], kk) == c;
                assert(min_x <= node_cell(nodes[a], kk).0 <= max_x);
            }
            assert(tree_has_cell(nodes, node_cell(nodes[w1.0], w1.1)));
            assert(tree_has_cell(nodes, node_cell(nodes[w2.0], w2.1)));
            assert(tree_has_cell(nodes, node_cell(nodes[w3.0], w3.1)));
            assert(tree_has_cell(nodes, node_cell(nodes[w4.0], w4.1)));
        }
        Some(b)
    } else {
        None
    }
}


// ---- Normalizing a definition ----------------------------------------------------------------

/// The cells of a shape without repeats, first occurrences kept in order.
pub open spec fn spec_dedup_cells(s: Seq<Vec2i>) -> Seq<Vec2i>
    decreases s.len(),
{
    if s.len() == 0 {
        s
    } else {
        let p = spec_dedup_cells(s.drop_last());
        if p.contains(s.last()) { p } else { p.push(s.last()) }
    }
}

pub open spec fn spec_min_x(s: Seq<Vec2i>) -> i32
    decreases s.len(),
{
    if s.len() == 0 {
        i32::MAX
    } else {
        let m = spec_min_x(s.drop_last());
        if s.last().x < m { s.last().x } else { m }
    }
}

pub open spec fn spec_min_y(s: Seq<Vec2i>) -> i32
    decreases s.len(),
{
    if s.len() == 0 {
        i32::MAX
    } else {
        let m = spec_min_y(s.drop_last());
        if s.last().y < m { s.last().y } else { m }
    }
}

/// A shape's cells without repeats (a single origin cell when the shape is empty).
pub open spec fn dedup_base(shape: Seq<Vec2i>) -> Seq<Vec2i> {
    spec_dedup_cells(if shape.len() == 0 { seq![Vec2i { x: 0, y: 0 }] } else { shape })
}

/// A shape as stored: without repeats (a single origin cell when empty), shifted so that its
/// smallest x and smallest y are zero.
pub open spec fn spec_norm_shape(shape: Seq<Vec2i>) -> Seq<Vec2i> {
    let d = dedup_base(shape);
    let mx = spec_min_x(d);
    let my = spec_min_y(d);
    d.map_values(|c: Vec2i| Vec2i { x: (c.x - mx) as i32, y: (c.y - my) as i32 })
}

/// The anchor moved by the shape's smallest x and y, so that the node covers the same world
/// cells.
pub open spec fn spec_norm_pos(pos: Vec2i, shape: Seq<Vec2i>) -> Vec2i {
    let d = dedup_base(shape);
    Vec2i { x: (pos.x + spec_min_x(d)) as i32, y: (pos.y + spec_min_y(d)) as i32 }
}

/// The shift of a node fits in `i32`.
pub open spec fn shape_shift_fits(pos: Vec2i, shape: Seq<Vec2i>) -> bool {
    let d = dedup_base(shape);
    &&& i32::MIN <= pos.x + spec_min_x(d) <= i32::MAX
    &&& i32::MIN <= pos.y + spec_min_y(d) <= i32::MAX
    &&& forall|k: int| 0 <= k < d.len() ==> (#[trigger] d[k]).x - spec_min_x(d) <= i32::MAX && d[k].y - spec_min_y(d) <= i32::MAX
}

fn contains_cell(v: &Vec<Vec2i>, c: Vec2i) -> (r: bool)
    ensures
        r == v@.contains(c),
{
    let mut i: usize = 0;
    while i < v.len()
        invariant
            i <= v@.len(),
            forall|j: int| 0 <= j < i ==> v@[j] != c,
        decreases v@.len() - i,
    {
        if v[i].x == c.x && v[i].y == c.y {
            assert(v@[i as int] == c);
            return true;
        }
        i += 1;
    }
    false
}

proof fn lemma_min_bounds(s: Seq<Vec2i>)
    ensures
        forall|k: int| 0 <= k < s.len() ==> spec_min_x(s) <= (#[trigger] s[k]).x && spec_min_y(s) <= s[k].y,
    decreases s.len(),
{
    if s.len() > 0 {
        lemma_min_bounds(s.drop_last());
        assert forall|k: int| 0 <= k < s.len() implies spec_min_x(s) <= (#[trigger] s[k]).x && spec_min_y(s) <= s[k].y by {
            if k < s.len() - 1 {
                assert(s[k] == s.drop_last()[k]);
            }
        }
    }
}

/// Normalizes a shape in place and returns the anchor shift; see `spec_norm_shape`.
fn normalize_shape(shape: &mut Vec<Vec2i>, pos: Vec2i) -> (r: Vec2i)
    requires
        shape_shift_fits(pos, old(shape)@),
    ensures
        final(shape)@ == spec_norm_shape(old(shape)@),
        r == spec_norm_pos(pos, old(shape)@),
{
    let ghost orig = shape@;
    if shape.len() == 0 {
        shape.push(Vec2i::new(0, 0));
    }
    let ghost base = shape@;
    assert(base == (if orig.len() == 0 { seq![Vec2i { x: 0, y: 0 }] } else { orig }));
    let mut kept: Vec<Vec2i> = Vec::new();
    let mut i: usize = 0;
    while i < shape.len()
        invariant
            base == shape@,
            base == (if orig.len() == 0 { seq![Vec2i { x: 0, y: 0 }] } else { orig }),
            orig == old(shape)@,
            i <= base.len(),
            kept@ == spec_dedup_cells(base.take(i as int)),
        decreases base.len() - i,
    {
        let c = shape[i];
        assert(base.take(i + 1).drop_last() =~= base.take(i as int));
        if !contains_cell(&kept, c) {
            kept.push(c);
        }
        i += 1;
    }
    assert(base.take(base.len() as int) =~= base);
    let ghost d = kept@;
    assert(d == dedup_base(orig));
    let mut min_x = i32::MAX;
    let mut min_y = i32::MAX;
    let mut j: usize = 0;
    while j < kept.len()
        invariant
            d == kept@,
            d == dedup_base(orig),
            orig == old(shape)@,
            j <= d.len(),
            min_x == spec_min_x(d.take(j as int)),
            min_y == spec_min_y(d.take(j as int)),
        decreases d.len() - j,
    {
        assert(d.take(j + 1).drop_last() =~= d.take(j as int));
        if kept[j].x < min_x {
            min_x = kept[j].x;
        }
        if kept[j].y < min_y {
            min_y = kept[j].y;
        }
        j += 1;
    }
    assert(d.take(d.len() as int) =~= d);
    proof {
        lemma_min_bounds(d);
        assert(shape_shift_fits(pos, orig));
        assert forall|q: int| 0 <= q < d.len() implies (#[trigger] d[q]).x - min_x <= i32::MAX && d[q].y - min_y <= i32::MAX by {
            assert(dedup_base(orig)[q] == d[q]);
        }
    }
    let mut out: Vec<Vec2i> = Vec::new();
    let mut k: usize = 0;
    while k < kept.len()
        invariant
            d == kept@,
            k <= d.len(),
            min_x == spec_min_x(d),
            min_y == spec_min_y(d),
            forall|q: int| 0 <= q < d.len() ==> min_x <= (#[trigger] d[q]).x && min_y <= d[q].y,
            forall|q: int| 0 <= q < d.len() ==> (#[trigger] d[q]).x - min_x <= i32::MAX && d[q].y - min_y <= i32::MAX,
            out@ == d.take(k as int).map_values(|c: Vec2i| Vec2i { x: (c.x - min_x) as i32, y: (c.y - min_y) as i32 }),
        decreases d.len() - k,
    {
        let c = kept[k];
        out.push(Vec2i::new(c.x - min_x, c.y - min_y));
        k += 1;
        assert(out@ =~= d.take(k as int).map_values(|c: Vec2i| Vec2i { x: (c.x - min_x) as i32, y: (c.y - min_y) as i32 }));
    }
    assert(d.take(d.len() as int) =~= d);
    *shape = out;
    Vec2i::new(pos.x + min_x, pos.y + min_y)
}


// ---- Unique ids --------------------------------------------------------------------------------

pub open spec fn digit_char(d: int) -> char {
    (48 + d) as char
}

/// Decimal digits of `n`, most significant first.
pub open spec fn spec_decimal(n: nat) -> Seq<char>
    decreases n,
{
    if n < 10 {
        seq![digit_char(n as int)]
    } else {
        spec_decimal(n / 10).push(digit_char((n % 10) as int))
    }
}

proof fn lemma_digit_char_injective(a: int, b: int)
    requires
        0 <= a < 10,
        0 <= b < 10,
        digit_char(a) == digit_char(b),
    ensures
        a == b,
{
    assert(digit_char(a) as int == 48 + a);
    assert(digit_char(b) as int == 48 + b);
}

proof fn lemma_decimal_len(n: nat)
    ensures
        spec_decimal(n).len() >= 1,
        n >= 10 ==> spec_decimal(n).len() >= 2,
    decreases n,
{
    if n >= 10 {
        lemma_decimal_len(n / 10);
    }
}

/// Different numbers have different decimal digits.
proof fn lemma_decimal_injective(a: nat, b: nat)
    requires
        spec_decimal(a) == spec_decimal(b),
    ensures
        a == b,
    decreases a + b,
{
    lemma_decimal_len(a);
    lemma_decimal_len(b);
    if a < 10 && b < 10 {
        assert(spec_decimal(a)[0] == digit_char(a as int));
        assert(spec_decimal(b)[0] == digit_char(b as int));
        lemma_digit_char_injective(a as int, b as int);
    } else if a >= 10 && b >= 10 {
        let da = spec_decimal(a);
        let db = spec_decimal(b);
        assert(da == spec_decimal(a / 10).push(digit_char((a % 10) as int)));
        assert(db == spec_decimal(b / 10).push(digit_char((b % 10) as int)));
        assert(da.last() == db.last());
        lemma_digit_char_injective((a % 10) as int, (b % 10) as int);
        assert(da.drop_last() =~= spec_decimal(a / 10));
        assert(db.drop_last() =~= spec_decimal(b / 10));
        lemma_decimal_injective(a / 10, b / 10);
        assert(a == (a / 10) * 10 + a % 10) by (nonlinear_arith);
        assert(b == (b / 10) * 10 + b % 10) by (nonlinear_arith);
    } else {
        assert(spec_decimal(a).len() != spec_decimal(b).len());
    }
}

/// `pre` followed by `i` in decimal.
pub open spec fn numbered(pre: Seq<char>, i: nat) -> Seq<char> {
    pre + spec_decimal(i)
}

proof fn lemma_numbered_injective(pre: Seq<char>, a: nat, b: nat)
    requires
        numbered(pre, a) == numbered(pre, b),
    ensures
        a == b,
{
    assert(numbered(pre, a).subrange(pre.len() as int, numbered(pre, a).len() as int) =~= spec_decimal(a));
    assert(numbered(pre, b).subrange(pre.len() as int, numbered(pre, b).len() as int) =~= spec_decimal(b));
    lemma_decimal_injective(a, b);
}

/// The numbered ids for numbers from `lo` up to (not including) `hi`.
pub open spec fn candidates(pre: Seq<char>, lo: nat, hi: nat) -> Set<Seq<char>> {
    Set::new(|s: Seq<char>| exists|j: nat| lo <= j < hi && s == numbered(pre, j))
}

proof fn lemma_candidates_len(pre: Seq<char>, lo: nat, hi: nat)
    requires
        hi >= lo,
    ensures
        candidates(pre, lo, hi).finite(),
        candidates(pre, lo, hi).len() == hi - lo,
    decreases hi - lo,
{
    if hi == lo {
        assert(candidates(pre, lo, hi) =~= Set::<Seq<char>>::empty());
    } else {
        let h1 = (hi - 1) as nat;
        lemma_candidates_len(pre, lo, h1);
        let c = numbered(pre, h1);
        assert(candidates(pre, lo, hi) =~= candidates(pre, lo, h1).insert(c)) by {
            assert forall|s: Seq<char>| candidates(pre, lo, hi).contains(s) implies candidates(pre, lo, h1).insert(c).contains(s) by {
                let j = choose|j: nat| lo <= j < hi && s == numbered(pre, j);
                if j < h1 {
                    assert(candidates(pre, lo, h1).contains(s));
                }
            }
            assert forall|s: Seq<char>| candidates(pre, lo, h1).insert(c).contains(s) implies candidates(pre, lo, hi).contains(s) by {
                if s != c {
                    let j = choose|j: nat| lo <= j < h1 && s == numbered(pre, j);
                    assert(lo <= j < hi && s == numbered(pre, j));
                } else {
                    assert(lo <= h1 < hi && s == numbered(pre, h1));
                }
            }
        }
        if candidates(pre, lo, h1).contains(c) {
            let j = choose|j: nat| lo <= j < h1 && c == numbered(pre, j);
            lemma_numbered_injective(pre, j, h1);
        }
    }
}

/// If every number from `lo` below `i` is taken in a finite set of ids, then there are at least
/// `i - lo` ids.
proof fn lemma_free_number_bound(used: Set<Seq<char>>, pre: Seq<char>, lo: nat, i: nat)
    requires
        used.finite(),
        i >= lo,
        forall|j: nat| lo <= j < i ==> used.contains(#[trigger] numbered(pre, j)),
    ensures
        i <= used.len() + lo,
{
    lemma_candidates_len(pre, lo, i);
    assert(candidates(pre, lo, i).subset_of(used)) by {
        assert forall|s: Seq<char>| candidates(pre, lo, i).contains(s) implies used.contains(s) by {
            let j = choose|j: nat| lo <= j < i && s == numbered(pre, j);
            assert(used.contains(numbered(pre, j)));
        }
    }
    vstd::set_lib::lemma_len_subset(candidates(pre, lo, i), used);
}

/// `i` is the first number from `lo` up whose numbered id is not taken.
pub open spec fn first_free_at(used: Set<Seq<char>>, pre: Seq<char>, lo: nat, i: nat) -> bool {
    &&& i >= lo
    &&& !used.contains(numbered(pre, i))
    &&& forall|j: nat| lo <= j < i ==> used.contains(#[trigger] numbered(pre, j))
}

pub open spec fn spec_first_free(used: Set<Seq<char>>, pre: Seq<char>, lo: nat) -> nat {
    choose|i: nat| first_free_at(used, pre, lo, i)
}

proof fn lemma_first_free_unique(used: Set<Seq<char>>, pre: Seq<char>, lo: nat, a: nat, b: nat)
    requires
        first_free_at(used, pre, lo, a),
        first_free_at(used, pre, lo, b),
    ensures
        a == b,
{
    if a < b {
        assert(used.contains(numbered(pre, a)));
    } else if b < a {
        assert(used.contains(numbered(pre, b)));
    }
}

/// Below any free number there is a least free one.
proof fn lemma_least_free(used: Set<Seq<char>>, pre: Seq<char>, lo: nat, w: nat)
    requires
        w >= lo,
        !used.contains(numbered(pre, w)),
    ensures
        exists|i: nat| first_free_at(used, pre, lo, i),
    decreases w,
{
    if forall|j: nat| lo <= j < w ==> used.contains(#[trigger] numbered(pre, j)) {
        assert(first_free_at(used, pre, lo, w));
    } else {
        let v = choose|j: nat| lo <= j < w && !used.contains(#[trigger] numbered(pre, j));
        lemma_least_free(used, pre, lo, v);
    }
}

/// In a finite set of ids some number from `lo` up is free, and the least one is the one chosen.
pub proof fn lemma_first_free_exists(used: Set<Seq<char>>, pre: Seq<char>, lo: nat)
    requires
        used.finite(),
    ensures
        first_free_at(used, pre, lo, spec_first_free(used, pre, lo)),
{
    let hi: nat = used.len() + lo + 1;
    if forall|i: nat| lo <= i < hi ==> used.contains(#[trigger] numbered(pre, i)) {
        lemma_free_number_bound(used, pre, lo, hi);
    }
    let w = choose|i: nat| lo <= i < hi && !used.contains(#[trigger] numbered(pre, i));
    lemma_least_free(used, pre, lo, w);
}

/// The first free number from `lo` up among `used`, found by counting.
pub(crate) fn first_free_number(used: &Vec<String>, pre: &str, lo: u128) -> (r: u128)
    requires
        lo <= usize::MAX + 1,
    ensures
        r == spec_first_free(strings_view(used@).to_set(), pre@, lo as nat),
{
    let ghost us = strings_view(used@).to_set();
    proof {
        vstd::seq_lib::seq_to_set_is_finite(strings_view(used@));
        strings_view(used@).lemma_cardinality_of_set();
    }
    let n_used = used.len();
    let mut i: u128 = lo;
    loop
        invariant
            n_used == used@.len(),
            lo <= usize::MAX + 1,
            us == strings_view(used@).to_set(),
            us.finite(),
            us.len() <= used@.len(),
            lo <= i <= us.len() + lo,
            forall|j: nat| lo <= j < i ==> us.contains(#[trigger] numbered(pre@, j)),
        decreases us.len() + lo - i,
    {
        let cand = numbered_id(pre, i);
        if !contains_str(used, cand.as_str()) {
            proof {
                assert(first_free_at(us, pre@, lo as nat, i as nat));
                lemma_first_free_exists(us, pre@, lo as nat);
                lemma_first_free_unique(us, pre@, lo as nat, spec_first_free(us, pre@, lo as nat), i as nat);
            }
            return i;
        }
        proof {
            assert(forall|j: nat| lo <= j < i + 1 ==> us.contains(#[trigger] numbered(pre@, j)));
            lemma_free_number_bound(us, pre@, lo as nat, (i + 1) as nat);
        }
        i = i + 1;
    }
}

fn push_decimal(out: &mut Vec<char>, n: u128)
    ensures
        final(out)@ == old(out)@ + spec_decimal(n as nat),
    decreases n,
{
    if n >= 10 {
        push_decimal(out, n / 10);
    }
    let d = (n % 10) as u8;
    let c = (d + 48) as char;
    assert(c == digit_char((n % 10) as int));
    out.push(c);
    proof {
        if n >= 10 {
            assert(spec_decimal(n as nat) == spec_decimal((n / 10) as nat).push(digit_char((n % 10) as int)));
        }
    }
    assert(out@ =~= old(out)@ + spec_decimal(n as nat));
}

pub(crate) fn push_chars(out: &mut Vec<char>, s: &str)
    ensures
        final(out)@ == old(out)@ + s@,
{
    let n = s.unicode_len();
    let ghost start = out@;
    let mut i: usize = 0;
    while i < n
        invariant
            n == s@.len(),
            i <= n,
            out@ == start + s@.take(i as int),
        decreases n - i,
    {
        out.push(s.get_char(i));
        i += 1;
        assert(out@ =~= start + s@.take(i as int));
    }
    assert(s@.take(n as int) =~= s@);
}

/// `pre` followed by `i` in decimal.
pub(crate) fn numbered_id(pre: &str, i: u128) -> (r: String)
    ensures
        r@ == numbered(pre@, i as nat),
{
    let mut chars: Vec<char> = Vec::new();
    push_chars(&mut chars, pre);
    push_decimal(&mut chars, i);
    string_from_chars(&chars)
}

/// `a` followed by `b`.
pub(crate) fn join(a: &str, b: &str) -> (r: String)
    ensures
        r@ == a@ + b@,
{
    let mut chars: Vec<char> = Vec::new();
    push_chars(&mut chars, a);
    push_chars(&mut chars, b);
    string_from_chars(&chars)
}


// ---- Ordering ids ------------------------------------------------------------------------------

/// `a` sorts before `b`: character by character, a proper prefix first (the order of `String`).
pub open spec fn lex_lt(a: Seq<char>, b: Seq<char>) -> bool
    decreases a.len(),
{
    if a.len() == 0 {
        b.len() > 0
    } else if b.len() == 0 {
        false
    } else if a[0] != b[0] {
        (a[0] as int) < (b[0] as int)
    } else {
        lex_lt(a.drop_first(), b.drop_first())
    }
}

/// Each entry sorts strictly before the next: sorted, with no repeats.
pub open spec fn strictly_sorted(s: Seq<Seq<char>>) -> bool {
    forall|i: int, j: int| 0 <= i < j < s.len() ==> lex_lt(#[trigger] s[i], #[trigger] s[j])
}

/// No id sorts before itself.
pub proof fn lemma_lex_irreflexive(a: Seq<char>)
    ensures
        !lex_lt(a, a),
    decreases a.len(),
{
    if a.len() > 0 {
        lemma_lex_irreflexive(a.drop_first());
    }
}

/// Of two different ids, one sorts before the other.
pub proof fn lemma_lex_total(a: Seq<char>, b: Seq<char>)
    requires
        a != b,
    ensures
        lex_lt(a, b) || lex_lt(b, a),
    decreases a.len(),
{
    if a.len() > 0 && b.len() > 0 {
        if a[0] == b[0] {
            if a.drop_first() == b.drop_first() {
                assert(a =~= seq![a[0]] + a.drop_first());
                assert(b =~= seq![b[0]] + b.drop_first());
            }
            lemma_lex_total(a.drop_first(), b.drop_first());
        } else {
            assert((a[0] as int) != (b[0] as int));
        }
    } else if a.len() == 0 && b.len() == 0 {
        assert(a =~= b);
    }
}

/// The order is transitive.
pub proof fn lemma_lex_transitive(a: Seq<char>, b: Seq<char>, c: Seq<char>)
    requires
        lex_lt(a, b),
        lex_lt(b, c),
    ensures
        lex_lt(a, c),
    decreases a.len(),
{
    if a.len() > 0 && b.len() > 0 && c.len() > 0 && a[0] == b[0] && b[0] == c[0] {
        lemma_lex_transitive(a.drop_first(), b.drop_first(), c.drop_first());
    }
}

pub(crate) fn str_lt(a: &str, b: &str) -> (r: bool)
    ensures
        r == lex_lt(a@, b@),
{
    let n = a.unicode_len();
    let m = b.unicode_len();
    let mut i: usize = 0;
    assert(a@.skip(0) =~= a@ && b@.skip(0) =~= b@);
    while i < n && i < m
        invariant
            n == a@.len(),
            m == b@.len(),
            i <= n,
            i <= m,
            lex_lt(a@, b@) == lex_lt(a@.skip(i as int), b@.skip(i as int)),
        decreases n - i,
    {
        let ca = a.get_char(i);
        let cb = b.get_char(i);
        if ca != cb {
            assert(a@.skip(i as int)[0] == ca);
            assert(b@.skip(i as int)[0] == cb);
            return (ca as u32) < (cb as u32);
        }
        assert(a@.skip(i as int).drop_first() =~= a@.skip(i + 1));
        assert(b@.skip(i as int).drop_first() =~= b@.skip(i + 1));
        i += 1;
    }
    assert(a@.skip(i as int).len() == 0 || b@.skip(i as int).len() == 0);
    i < m
}


/// Whether `v` holds a string equal to `s`.
pub(crate) fn contains_str(v: &Vec<String>, s: &str) -> (r: bool)
    ensures
        r == strings_view(v@).contains(s@),
{
    let mut i: usize = 0;
    while i < v.len()
        invariant
            i <= v@.len(),
            forall|j: int| 0 <= j < i ==> v@[j]@ != s@,
        decreases v@.len() - i,
    {
        if crate::editor_actions::str_eq(v[i].as_str(), s) {
            assert(strings_view(v@)[i as int] == s@);
            return true;
        }
        i += 1;
    }
    assert(!strings_view(v@).contains(s@)) by {
        if strings_view(v@).contains(s@) {
            let j = choose|j: int| 0 <= j < strings_view(v@).len() && strings_view(v@)[j] == s@;
            assert(v@[j]@ == s@);
        }
    }
    false
}

/// Puts `s` into a strictly sorted list, unless it is already there.
fn insert_sorted(v: &mut Vec<String>, s: String)
    requires
        strictly_sorted(strings_view(old(v)@)),
    ensures
        strictly_sorted(strings_view(final(v)@)),
        strings_view(final(v)@).to_set() == strings_view(old(v)@).to_set().insert(s@),
{
    let ghost ov = strings_view(v@);
    let mut p: usize = 0;
    while p < v.len() && str_lt(v[p].as_str(), s.as_str())
        invariant
            ov == strings_view(v@),
            p <= v@.len(),
            forall|j: int| 0 <= j < p ==> lex_lt(#[trigger] ov[j], s@),
        decreases v@.len() - p,
    {
        p += 1;
    }
    if p < v.len() && crate::editor_actions::str_eq(v[p].as_str(), s.as_str()) {
        assert(ov.to_set().insert(s@) =~= ov.to_set()) by {
            assert(ov[p as int] == s@);
        }
        return;
    }
    proof {
        if p < ov.len() {
            lemma_lex_total(ov[p as int], s@);
        }
    }
    let ghost sv = s@;
    v.insert(p, s);
    let ghost nv = strings_view(v@);
    assert(nv =~= ov.insert(p as int, sv));
    assert forall|i: int, j: int| 0 <= i < j < nv.len() implies lex_lt(#[trigger] nv[i], #[trigger] nv[j]) by {
        if j < p {
            assert(nv[i] == ov[i] && nv[j] == ov[j]);
        } else if j == p {
            assert(nv[i] == ov[i] && nv[j] == sv);
        } else if i == p {
            assert(nv[j] == ov[j - 1]);
            if j - 1 > p {
                assert(lex_lt(ov[p as int], ov[j - 1]));
                lemma_lex_transitive(sv, ov[p as int], ov[j - 1]);
            }
        } else if i < p {
            assert(nv[i] == ov[i] && nv[j] == ov[j - 1]);
            if i < j - 1 {
                assert(lex_lt(ov[i], ov[j - 1]));
            } else {
                assert(lex_lt(ov[i], sv));
                assert(lex_lt(sv, ov[p as int]));
            }
        } else {
            assert(nv[i] == ov[i - 1] && nv[j] == ov[j - 1]);
        }
    }
    assert(nv.to_set() =~= ov.to_set().insert(sv)) by {
        assert forall|x: Seq<char>| nv.to_set().contains(x) implies ov.to_set().insert(sv).contains(x) by {
            let k = choose|k: int| 0 <= k < nv.len() && nv[k] == x;
            if k < p {
                assert(ov[k] == x);
            } else if k > p {
                assert(ov[k - 1] == x);
            }
        }
        assert forall|x: Seq<char>| ov.to_set().insert(sv).contains(x) implies nv.to_set().contains(x) by {
            if x == sv {
                assert(nv[p as int] == x);
            } else {
                let k = choose|k: int| 0 <= k < ov.len() && ov[k] == x;
                if k < p {
                    assert(nv[k] == x);
                } else {
                    assert(nv[k + 1] == x);
                }
            }
        }
    }
}

/// The entries of `reqs` that are among `ids`, sorted, without repeats.
fn prune_requires(reqs: &Vec<String>, ids: &Vec<String>) -> (r: Vec<String>)
    ensures
        strictly_sorted(strings_view(r@)),
        strings_view(r@).to_set() == strings_view(reqs@).to_set().filter(
            |x: Seq<char>| strings_view(ids@).contains(x),
        ),
{
    let ghost idv = strings_view(ids@);
    let ghost rv = strings_view(reqs@);
    let mut out: Vec<String> = Vec::new();
    let mut i: usize = 0;
    while i < reqs.len()
        invariant
            idv == strings_view(ids@),
            rv == strings_view(reqs@),
            i <= reqs@.len(),
            strictly_sorted(strings_view(out@)),
            strings_view(out@).to_set() == rv.take(i as int).to_set().filter(|x: Seq<char>| idv.contains(x)),
        decreases reqs@.len() - i,
    {
        let ghost before = strings_view(out@).to_set();
        let keep = contains_str(ids, reqs[i].as_str());
        if keep {
            insert_sorted(&mut out, reqs[i].clone());
        }
        proof {
            let t0 = rv.take(i as int);
            let t1 = rv.take(i + 1);
            assert(t1 =~= t0.push(rv[i as int]));
            assert(t1.to_set() =~= t0.to_set().insert(rv[i as int])) by {
                assert forall|x: Seq<char>| t1.to_set().contains(x) implies t0.to_set().insert(rv[i as int]).contains(x) by {
                    let k = choose|k: int| 0 <= k < t1.len() && #[trigger] t1[k] == x;
                    if k < i {
                        assert(t0[k] == x);
                    }
                }
                assert forall|x: Seq<char>| t0.to_set().insert(rv[i as int]).contains(x) implies t1.to_set().contains(x) by {
                    if x == rv[i as int] {
                        assert(t1[i as int] == x);
                    } else {
                        let k = choose|k: int| 0 <= k < t0.len() && #[trigger] t0[k] == x;
                        assert(t1[k] == x);
                    }
                }
            }
            assert(strings_view(out@).to_set() =~= t1.to_set().filter(|x: Seq<char>| idv.contains(x)));
        }
        i += 1;
    }
    assert(rv.take(reqs@.len() as int) =~= rv);
    out
}


// ---- Normalizing a whole definition ------------------------------------------------------------

/// A node id as stored: a blank id becomes "unnamed".
pub open spec fn spec_fix_id(id: Seq<char>) -> Seq<char> {
    if spec_blank(id) { "unnamed"@ } else { id }
}

/// The ids of the nodes after blank ones are named.
pub open spec fn spec_fixed_ids(nodes: Seq<NodeView>) -> Seq<Seq<char>> {
    Seq::new(nodes.len(), |k: int| spec_fix_id(nodes[k].id))
}

/// The id that a node gets when `used` holds the ids of the nodes before it: its own id if that is
/// free, else its id, an underscore and the first free number from 2 up.
pub open spec fn spec_unique_id(used: Set<Seq<char>>, id: Seq<char>) -> Seq<char> {
    if used.contains(id) {
        numbered(id + seq!['_'], spec_first_free(used, id + seq!['_'], 2))
    } else {
        id
    }
}

/// Ids made unique in order: each keeps its id if no earlier node has it, else gets a suffix.
pub open spec fn spec_unique_ids(ids: Seq<Seq<char>>) -> Seq<Seq<char>>
    decreases ids.len(),
{
    if ids.len() == 0 {
        Seq::empty()
    } else {
        let prev = spec_unique_ids(ids.drop_last());
        prev.push(spec_unique_id(prev.to_set(), ids.last()))
    }
}

/// The ids that normalizing gives are pairwise different.
pub proof fn lemma_unique_ids_distinct(ids: Seq<Seq<char>>)
    ensures
        spec_unique_ids(ids).len() == ids.len(),
        forall|i: int, j: int| 0 <= i < j < ids.len() ==> spec_unique_ids(ids)[i] != spec_unique_ids(ids)[j],
    decreases ids.len(),
{
    if ids.len() > 0 {
        let prev = spec_unique_ids(ids.drop_last());
        lemma_unique_ids_distinct(ids.drop_last());
        let u = spec_unique_ids(ids);
        let last = ids.last();
        if prev.to_set().contains(last) {
            vstd::seq_lib::seq_to_set_is_finite(prev);
            lemma_first_free_exists(prev.to_set(), last + seq!['_'], 2);
        }
        assert forall|i: int, j: int| 0 <= i < j < ids.len() implies u[i] != u[j] by {
            if j == ids.len() - 1 {
                assert(u[i] == prev[i]);
                assert(prev.to_set().contains(prev[i]));
            } else {
                assert(u[i] == prev[i] && u[j] == prev[j]);
            }
        }
    }
}

/// What normalizing makes of one node, given its new id and the ids of all nodes.
pub open spec fn node_normalized(o: NodeView, n: NodeView, id: Seq<char>, ids: Seq<Seq<char>>) -> bool {
    &&& n.id == id
    &&& n.name == (if spec_blank(o.name) { spec_fix_id(o.id) } else { o.name })
    &&& n.pos == spec_norm_pos(o.pos, o.shape)
    &&& n.shape == spec_norm_shape(o.shape)
    &&& n.color == o.color
    &&& n.cost == o.cost
    &&& n.effect == o.effect
    &&& strictly_sorted(n.requires)
    &&& n.requires.to_set() == o.requires.to_set().filter(|r: Seq<char>| ids.contains(r))
}

/// The id a node gets when `used` holds the ids given before it.
fn unique_id(used: &Vec<String>, id: &String) -> (r: String)
    ensures
        r@ == spec_unique_id(strings_view(used@).to_set(), id@),
{
    if !contains_str(used, id.as_str()) {
        return id.clone();
    }
    let pre = join(id.as_str(), "_");
    proof {
        reveal_strlit("_");
        assert(pre@ =~= id@ + seq!['_']);
    }
    let i = first_free_number(used, pre.as_str(), 2);
    numbered_id(pre.as_str(), i)
}

/// `n` is what normalizing makes of `o`; see `normalize_and_validate`.
pub open spec fn spec_normalized(o: DefView, n: DefView) -> bool {
    &&& n.version == (if o.version == 0 { 1 } else { o.version })
    &&& n.nodes.len() == o.nodes.len()
    &&& forall|k: int| 0 <= k < o.nodes.len() ==> node_normalized(
        #[trigger] o.nodes[k],
        n.nodes[k],
        spec_unique_ids(spec_fixed_ids(o.nodes))[k],
        spec_unique_ids(spec_fixed_ids(o.nodes)),
    )
    &&& forall|i: int, j: int| 0 <= i < j < n.nodes.len() ==> (#[trigger] n.nodes[i]).id != (#[trigger] n.nodes[j]).id
}

/// Every node's shape can be shifted without leaving `i32`.
pub open spec fn shapes_fit(nodes: Seq<NodeView>) -> bool {
    forall|k: int| 0 <= k < nodes.len() ==> shape_shift_fits(nodes[k].pos, (#[trigger] nodes[k]).shape)
}

pub(crate) fn copy_cells(v: &Vec<Vec2i>) -> (r: Vec<Vec2i>)
    ensures
        r@ == v@,
{
    let mut r: Vec<Vec2i> = Vec::new();
    let mut i: usize = 0;
    while i < v.len()
        invariant
            i <= v@.len(),
            r@ == v@.take(i as int),
        decreases v@.len() - i,
    {
        r.push(v[i]);
        i += 1;
        assert(r@ =~= v@.take(i as int));
    }
    assert(v@.take(v@.len() as int) =~= v@);
    r
}

/// Normalizes a definition in place. Version 0 becomes 1. A blank id becomes "unnamed" and a
/// blank name the node's (named) id. Each shape loses repeated cells (an empty shape gets the
/// origin cell) and is shifted so that its smallest x and y are zero, the anchor moving the other
/// way so that the node covers the same world cells. A repeated id gets the first free suffix
/// `_2`, `_3`, ... Each node's prerequisites keep only ids of nodes, sorted, without repeats.
pub fn normalize_and_validate(def: &mut SkillTreeDef)
    requires
        shapes_fit(old(def)@.nodes),
    ensures
        spec_normalized(old(def)@, final(def)@),
{
    if def.version == 0 {
        def.version = 1;
    }
    let ghost onodes = def.nodes@;
    let ghost ov = def@.nodes;
    let ghost fv = spec_fixed_ids(ov);
    assert(forall|j: int| 0 <= j < onodes.len() ==> #[trigger] ov[j] == onodes[j]@);
    let n = def.nodes.len();
    let mut fixed: Vec<String> = Vec::new();
    let mut k: usize = 0;
    while k < n
        invariant
            n == onodes.len(),
            onodes == def.nodes@,
            ov == def@.nodes,
            fv == spec_fixed_ids(ov),
            k <= n,
            strings_view(fixed@) == fv.take(k as int),
        decreases n - k,
    {
        let id = if is_blank(def.nodes[k].id.as_str()) {
            String::from_str("unnamed")
        } else {
            def.nodes[k].id.clone()
        };
        let ghost before = strings_view(fixed@);
        fixed.push(id);
        assert(strings_view(fixed@) =~= before.push(fv[k as int]));
        k += 1;
        assert(strings_view(fixed@) =~= fv.take(k as int));
    }
    assert(fv.take(n as int) =~= fv);
    let mut used: Vec<String> = Vec::new();
    k = 0;
    while k < n
        invariant
            n == onodes.len(),
            n == fixed@.len(),
            fv == strings_view(fixed@),
            k <= n,
            strings_view(used@) == spec_unique_ids(fv.take(k as int)),
        decreases n - k,
    {
        let u = unique_id(&used, &fixed[k]);
        let ghost before = strings_view(used@);
        used.push(u);
        assert(fv.take(k + 1).drop_last() =~= fv.take(k as int));
        assert(strings_view(used@) =~= before.push(u@));
        k += 1;
    }
    assert(fv.take(n as int) =~= fv);
    let ghost uv = spec_unique_ids(fv);
    proof {
        lemma_unique_ids_distinct(fv);
    }
    let mut out: Vec<SkillNodeDef> = Vec::new();
    k = 0;
    while k < n
        invariant
            n == onodes.len(),
            onodes == def.nodes@,
            n == fixed@.len(),
            fv == strings_view(fixed@),
            ov == def@.nodes,
            fv == spec_fixed_ids(ov),
            uv == strings_view(used@),
            uv.len() == n,
            shapes_fit(ov),
            k <= n,
            out@.len() == k,
            forall|j: int| 0 <= j < k ==> node_normalized(#[trigger] ov[j], out@[j]@, uv[j], uv),
        decreases n - k,
    {
        let name = if is_blank(def.nodes[k].name.as_str()) {
            fixed[k].clone()
        } else {
            def.nodes[k].name.clone()
        };
        assert(ov[k as int] == onodes[k as int]@);
        let mut shape = copy_cells(&def.nodes[k].shape);
        let pos = normalize_shape(&mut shape, def.nodes[k].pos);
        let reqs = prune_requires(&def.nodes[k].requires, &used);
        let node = SkillNodeDef {
            id: used[k].clone(),
            name,
            pos,
            shape,
            color: def.nodes[k].color,
            cost: def.nodes[k].cost,
            requires: reqs,
            effect: def.nodes[k].effect,
        };
        assert(fixed@[k as int]@ == fv[k as int]);
        assert(used@[k as int]@ == uv[k as int]);
        assert(ov[k as int] == onodes[k as int]@);
        assert(node_normalized(ov[k as int], node@, uv[k as int], uv));
        out.push(node);
        k += 1;
    }
    assert forall|i: int, j: int| 0 <= i < j < out@.len() implies (#[trigger] out@[i]).id@ != (#[trigger] out@[j]).id@ by {
        assert(node_normalized(ov[i], out@[i]@, uv[i], uv));
        assert(node_normalized(ov[j], out@[j]@, uv[j], uv));
    }
    def.nodes = out;
    assert(spec_normalized(old(def)@, def@));
}


// ---- What normalizing a shape keeps ------------------------------------------------------------

/// The world cells that a node covers.
pub open spec fn world_cells(pos: Vec2i, shape: Seq<Vec2i>) -> Set<(int, int)> {
    shape.map_values(|c: Vec2i| (pos.x + c.x, pos.y + c.y)).to_set()
}

pub(crate) proof fn lemma_dedup_cells(s: Seq<Vec2i>)
    ensures
        spec_dedup_cells(s).to_set() == s.to_set(),
        spec_dedup_cells(s).no_duplicates(),
    decreases s.len(),
{
    if s.len() > 0 {
        let p = spec_dedup_cells(s.drop_last());
        lemma_dedup_cells(s.drop_last());
        assert(s =~= s.drop_last().push(s.last()));
        assert(s.to_set() =~= s.drop_last().to_set().insert(s.last())) by {
            assert forall|x: Vec2i| s.to_set().contains(x) implies s.drop_last().to_set().insert(s.last()).contains(x) by {
                let k = choose|k: int| 0 <= k < s.len() && #[trigger] s[k] == x;
                if k < s.len() - 1 {
                    assert(s.drop_last()[k] == x);
                }
            }
            assert forall|x: Vec2i| s.drop_last().to_set().insert(s.last()).contains(x) implies s.to_set().contains(x) by {
                if x == s.last() {
                    assert(s[s.len() - 1] == x);
                } else {
                    let k = choose|k: int| 0 <= k < s.drop_last().len() && #[trigger] s.drop_last()[k] == x;
                    assert(s[k] == x);
                }
            }
        }
        if !p.contains(s.last()) {
            let q = p.push(s.last());
            assert(q.to_set() =~= p.to_set().insert(s.last())) by {
                assert forall|x: Vec2i| q.to_set().contains(x) implies p.to_set().insert(s.last()).contains(x) by {
                    let k = choose|k: int| 0 <= k < q.len() && #[trigger] q[k] == x;
                    if k < p.len() {
                        assert(p[k] == x);
                    }
                }
                assert forall|x: Vec2i| p.to_set().insert(s.last()).contains(x) implies q.to_set().contains(x) by {
                    if x == s.last() {
                        assert(q[p.len() as int] == x);
                    } else {
                        let k = choose|k: int| 0 <= k < p.len() && #[trigger] p[k] == x;
                        assert(q[k] == x);
                    }
                }
            }
            assert forall|i: int, j: int| 0 <= i < q.len() && 0 <= j < q.len() && i != j implies q[i] != q[j] by {
                if i < p.len() && j < p.len() {
                    assert(q[i] == p[i] && q[j] == p[j]);
                } else if i < p.len() {
                    assert(q[i] == p[i]);
                } else {
                    assert(q[j] == p[j]);
                }
            }
        } else {
            assert(p.to_set().insert(s.last()) =~= p.to_set());
        }
    }
}

pub(crate) proof fn lemma_min_attained(s: Seq<Vec2i>)
    requires
        s.len() > 0,
    ensures
        exists|k: int| 0 <= k < s.len() && (#[trigger] s[k]).x == spec_min_x(s),
        exists|k: int| 0 <= k < s.len() && (#[trigger] s[k]).y == spec_min_y(s),
    decreases s.len(),
{
    let l = s.len() - 1;
    if s.len() == 1 {
        assert(s.drop_last().len() == 0);
        assert(spec_min_x(s.drop_last()) == i32::MAX);
        assert(spec_min_y(s.drop_last()) == i32::MAX);
        assert(s.last() == s[0]);
        assert(s[0].x == spec_min_x(s));
        assert(s[0].y == spec_min_y(s));
    } else {
        lemma_min_attained(s.drop_last());
        let d = s.drop_last();
        if s.last().x < spec_min_x(d) {
            assert(s[l].x == spec_min_x(s));
        } else {
            let k = choose|k: int| 0 <= k < d.len() && (#[trigger] d[k]).x == spec_min_x(d);
            assert(s[k].x == spec_min_x(s));
        }
        if s.last().y < spec_min_y(d) {
            assert(s[l].y == spec_min_y(s));
        } else {
            let k = choose|k: int| 0 <= k < d.len() && (#[trigger] d[k]).y == spec_min_y(d);
            assert(s[k].y == spec_min_y(s));
        }
    }
}

/// A normalized shape, placed at the normalized anchor, covers the same world cells as the
/// shape did at the old anchor (an empty shape counting as the origin cell). It has no repeated
/// cell, no cell left of or below its origin, and a cell in column zero and one in row zero.
pub proof fn lemma_normalized_shape_covers_same_cells(pos: Vec2i, shape: Seq<Vec2i>)
    requires
        shape_shift_fits(pos, shape),
    ensures
        world_cells(spec_norm_pos(pos, shape), spec_norm_shape(shape)) == world_cells(
            pos,
            if shape.len() == 0 { seq![Vec2i { x: 0, y: 0 }] } else { shape },
        ),
        spec_norm_shape(shape).no_duplicates(),
        forall|k: int| 0 <= k < spec_norm_shape(shape).len()
            ==> (#[trigger] spec_norm_shape(shape)[k]).x >= 0 && spec_norm_shape(shape)[k].y >= 0,
        exists|k: int| 0 <= k < spec_norm_shape(shape).len() && (#[trigger] spec_norm_shape(shape)[k]).x == 0,
        exists|k: int| 0 <= k < spec_norm_shape(shape).len() && (#[trigger] spec_norm_shape(shape)[k]).y == 0,
{
    let base = if shape.len() == 0 { seq![Vec2i { x: 0, y: 0 }] } else { shape };
    let d = dedup_base(shape);
    let mx = spec_min_x(d);
    let my = spec_min_y(d);
    let np = spec_norm_pos(pos, shape);
    let ns = spec_norm_shape(shape);
    lemma_dedup_cells(base);
    lemma_min_bounds(d);
    assert(base.to_set().contains(base[0]));
    assert(d.len() > 0);
    lemma_min_attained(d);
    assert forall|k: int| 0 <= k < ns.len() implies (#[trigger] ns[k]).x == d[k].x - mx && ns[k].y == d[k].y - my by {
        assert(d[k].x - mx <= i32::MAX);
    }
    let lhs = world_cells(np, ns);
    let rhs = world_cells(pos, base);
    assert(lhs =~= rhs) by {
        assert forall|w: (int, int)| lhs.contains(w) implies rhs.contains(w) by {
            let m = ns.map_values(|c: Vec2i| (np.x + c.x, np.y + c.y));
            let k = choose|k: int| 0 <= k < m.len() && #[trigger] m[k] == w;
            assert(d.to_set().contains(d[k]));
            let j = choose|j: int| 0 <= j < base.len() && #[trigger] base[j] == d[k];
            let mb = base.map_values(|c: Vec2i| (pos.x + c.x, pos.y + c.y));
            assert(mb[j] == w);
        }
        assert forall|w: (int, int)| rhs.contains(w) implies lhs.contains(w) by {
            let mb = base.map_values(|c: Vec2i| (pos.x + c.x, pos.y + c.y));
            let j = choose|j: int| 0 <= j < mb.len() && #[trigger] mb[j] == w;
            assert(base.to_set().contains(base[j]));
            let k = choose|k: int| 0 <= k < d.len() && #[trigger] d[k] == base[j];
            let m = ns.map_values(|c: Vec2i| (np.x + c.x, np.y + c.y));
            assert(m[k] == w);
        }
    }
    assert forall|i: int, j: int| 0 <= i < ns.len() && 0 <= j < ns.len() && i != j implies ns[i] != ns[j] by {
        assert(d[i] != d[j]);
    }
    let kx = choose|k: int| 0 <= k < d.len() && (#[trigger] d[k]).x == mx;
    assert(ns[kx].x == 0);
    let ky = choose|k: int| 0 <= k < d.len() && (#[trigger] d[k]).y == my;
    assert(ns[ky].y == 0);
}


proof fn lemma_dedup_identity(s: Seq<Vec2i>)
    requires
        s.no_duplicates(),
    ensures
        spec_dedup_cells(s) == s,
    decreases s.len(),
{
    if s.len() > 0 {
        let d = s.drop_last();
        lemma_dedup_identity(d);
        if d.contains(s.last()) {
            let k = choose|k: int| 0 <= k < d.len() && d[k] == s.last();
            assert(s[k] == s[s.len() - 1]);
        }
        assert(d.push(s.last()) =~= s);
    }
}

/// A normalized shape at the normalized anchor can be normalized again.
proof fn lemma_norm_shape_fits(pos: Vec2i, shape: Seq<Vec2i>)
    requires
        shape_shift_fits(pos, shape),
    ensures
        shape_shift_fits(spec_norm_pos(pos, shape), spec_norm_shape(shape)),
        dedup_base(spec_norm_shape(shape)) == spec_norm_shape(shape),
        spec_min_x(spec_norm_shape(shape)) == 0,
        spec_min_y(spec_norm_shape(shape)) == 0,
{
    let ns = spec_norm_shape(shape);
    lemma_normalized_shape_covers_same_cells(pos, shape);
    let kx = choose|k: int| 0 <= k < ns.len() && (#[trigger] ns[k]).x == 0;
    let ky = choose|k: int| 0 <= k < ns.len() && (#[trigger] ns[k]).y == 0;
    lemma_dedup_identity(ns);
    assert(dedup_base(ns) == ns);
    lemma_min_bounds(ns);
    lemma_min_attained(ns);
    let ax = choose|k: int| 0 <= k < ns.len() && (#[trigger] ns[k]).x == spec_min_x(ns);
    let ay = choose|k: int| 0 <= k < ns.len() && (#[trigger] ns[k]).y == spec_min_y(ns);
    assert(spec_min_x(ns) <= ns[kx].x);
    assert(spec_min_y(ns) <= ns[ky].y);
}

/// A normalized definition can be normalized again without leaving `i32`.
pub proof fn lemma_normalized_fits(o: DefView, n: DefView)
    requires
        shapes_fit(o.nodes),
        spec_normalized(o, n),
    ensures
        shapes_fit(n.nodes),
{
    let uv = spec_unique_ids(spec_fixed_ids(o.nodes));
    assert forall|k: int| 0 <= k < n.nodes.len() implies shape_shift_fits(n.nodes[k].pos, (#[trigger] n.nodes[k]).shape) by {
        assert(node_normalized(o.nodes[k], n.nodes[k], uv[k], uv));
        lemma_norm_shape_fits(o.nodes[k].pos, o.nodes[k].shape);
    }
}


/// A shape whose smallest x and smallest y (repeats and emptiness aside) are zero.
pub open spec fn shape_canonical(shape: Seq<Vec2i>) -> bool {
    spec_min_x(dedup_base(shape)) == 0 && spec_min_y(dedup_base(shape)) == 0
}

pub open spec fn nodes_canonical(nodes: Seq<NodeView>) -> bool {
    forall|k: int| 0 <= k < nodes.len() ==> shape_canonical(#[trigger] nodes[k].shape)
}

/// A canonical shape can be normalized at any anchor.
pub proof fn lemma_canonical_fits(pos: Vec2i, shape: Seq<Vec2i>)
    requires
        shape_canonical(shape),
    ensures
        shape_shift_fits(pos, shape),
{
}

/// Normalized shapes are canonical.
pub proof fn lemma_normalized_canonical(o: DefView, n: DefView)
    requires
        shapes_fit(o.nodes),
        spec_normalized(o, n),
    ensures
        nodes_canonical(n.nodes),
        shapes_fit(n.nodes),
{
    lemma_normalized_fits(o, n);
    let uv = spec_unique_ids(spec_fixed_ids(o.nodes));
    assert forall|k: int| 0 <= k < n.nodes.len() implies shape_canonical(#[trigger] n.nodes[k].shape) by {
        assert(node_normalized(o.nodes[k], n.nodes[k], uv[k], uv));
        lemma_norm_shape_fits(o.nodes[k].pos, o.nodes[k].shape);
    }
}

/// The single origin cell is a canonical shape.
pub proof fn lemma_origin_canonical()
    ensures
        shape_canonical(seq![Vec2i { x: 0, y: 0 }]),
{
    let s = seq![Vec2i { x: 0, y: 0 }];
    assert(s.drop_last().len() == 0);
    assert(spec_dedup_cells(s.drop_last()) =~= Seq::<Vec2i>::empty());
    assert(spec_dedup_cells(s) =~= s);
    assert(spec_min_x(s.drop_last()) == i32::MAX);
    assert(spec_min_y(s.drop_last()) == i32::MAX);
}


// ---- Normalizing twice ---------------------------------------------------------------------

/// Two strictly sorted lists with the same entries are the same list.
pub proof fn lemma_sorted_unique(a: Seq<Seq<char>>, b: Seq<Seq<char>>)
    requires
        strictly_sorted(a),
        strictly_sorted(b),
        a.to_set() == b.to_set(),
    ensures
        a == b,
    decreases a.len() + b.len(),
{
    if a.len() == 0 || b.len() == 0 {
        if a.len() > 0 {
            assert(a.to_set().contains(a[0]));
        }
        if b.len() > 0 {
            assert(b.to_set().contains(b[0]));
        }
        assert(a =~= b);
    } else {
        assert(a.to_set().contains(a[0]));
        assert(b.to_set().contains(b[0]));
        let j = choose|j: int| 0 <= j < b.len() && b[j] == a[0];
        let i = choose|i: int| 0 <= i < a.len() && a[i] == b[0];
        if a[0] != b[0] {
            assert(j > 0 && i > 0);
            assert(lex_lt(b[0], b[j]));
            assert(lex_lt(a[0], a[i]));
            lemma_lex_transitive(a[0], b[0], a[0]);
            lemma_lex_irreflexive(a[0]);
        }
        let a1 = a.drop_first();
        let b1 = b.drop_first();
        assert(a1.to_set() =~= b1.to_set()) by {
            assert forall|x: Seq<char>| a1.to_set().contains(x) implies b1.to_set().contains(x) by {
                let p = choose|p: int| 0 <= p < a1.len() && a1[p] == x;
                assert(a[p + 1] == x);
                assert(lex_lt(a[0], a[p + 1]));
                lemma_lex_irreflexive(x);
                assert(b.to_set().contains(x));
                let q = choose|q: int| 0 <= q < b.len() && b[q] == x;
                assert(q != 0);
                assert(b1[q - 1] == x);
            }
            assert forall|x: Seq<char>| b1.to_set().contains(x) implies a1.to_set().contains(x) by {
                let p = choose|p: int| 0 <= p < b1.len() && b1[p] == x;
                assert(b[p + 1] == x);
                assert(lex_lt(b[0], b[p + 1]));
                lemma_lex_irreflexive(x);
                assert(a.to_set().contains(x));
                let q = choose|q: int| 0 <= q < a.len() && a[q] == x;
                assert(q != 0);
                assert(a1[q - 1] == x);
            }
        }
        assert forall|p: int, q: int| 0 <= p < q < a1.len() implies lex_lt(#[trigger] a1[p], #[trigger] a1[q]) by {
            assert(lex_lt(a[p + 1], a[q + 1]));
        }
        assert forall|p: int, q: int| 0 <= p < q < b1.len() implies lex_lt(#[trigger] b1[p], #[trigger] b1[q]) by {
            assert(lex_lt(b[p + 1], b[q + 1]));
        }
        lemma_sorted_unique(a1, b1);
        assert(a =~= seq![a[0]] + a1);
        assert(b =~= seq![b[0]] + b1);
    }
}

/// What normalizing makes of a definition is determined by the definition.
pub proof fn lemma_normalized_unique(o: DefView, n1: DefView, n2: DefView)
    requires
        spec_normalized(o, n1),
        spec_normalized(o, n2),
    ensures
        n1 == n2,
{
    let uv = spec_unique_ids(spec_fixed_ids(o.nodes));
    assert forall|k: int| 0 <= k < o.nodes.len() implies n1.nodes[k] == n2.nodes[k] by {
        assert(node_normalized(o.nodes[k], n1.nodes[k], uv[k], uv));
        assert(node_normalized(o.nodes[k], n2.nodes[k], uv[k], uv));
        lemma_sorted_unique(n1.nodes[k].requires, n2.nodes[k].requires);
    }
    assert(n1.nodes =~= n2.nodes);
}

/// A blank id never comes out of naming or numbering.
proof fn lemma_fix_id_not_blank(id: Seq<char>)
    ensures
        !spec_blank(spec_fix_id(id)),
{
    reveal_strlit("unnamed");
    if spec_blank(id) {
        assert(!spec_is_whitespace("unnamed"@[0]));
    }
}

proof fn lemma_prefix_not_blank(s: Seq<char>, t: Seq<char>)
    requires
        !spec_blank(s),
    ensures
        !spec_blank(s + t),
{
    let i = choose|i: int| 0 <= i < s.len() && !spec_is_whitespace(#[trigger] s[i]);
    assert((s + t)[i] == s[i]);
}

/// Unique ids of ids that are not blank are not blank.
proof fn lemma_unique_ids_not_blank(ids: Seq<Seq<char>>)
    requires
        forall|k: int| 0 <= k < ids.len() ==> !spec_blank(#[trigger] ids[k]),
    ensures
        forall|k: int| 0 <= k < ids.len() ==> !spec_blank(#[trigger] spec_unique_ids(ids)[k]),
    decreases ids.len(),
{
    if ids.len() > 0 {
        let d = ids.drop_last();
        assert forall|k: int| 0 <= k < d.len() implies !spec_blank(#[trigger] d[k]) by {
            assert(d[k] == ids[k]);
        }
        lemma_unique_ids_not_blank(d);
        lemma_unique_ids_distinct(d);
        let prev = spec_unique_ids(d);
        let last = ids.last();
        assert(!spec_blank(ids[ids.len() - 1]));
        if prev.to_set().contains(last) {
            let pre = last + seq!['_'];
            lemma_prefix_not_blank(last, seq!['_']);
            lemma_prefix_not_blank(pre, spec_decimal(spec_first_free(prev.to_set(), pre, 2)));
        }
        lemma_unique_ids_distinct(ids);
        assert forall|k: int| 0 <= k < ids.len() implies !spec_blank(#[trigger] spec_unique_ids(ids)[k]) by {
            if k < ids.len() - 1 {
                assert(spec_unique_ids(ids)[k] == prev[k]);
            }
        }
    }
}

/// Pairwise different ids are kept as they are.
proof fn lemma_unique_ids_of_distinct(ids: Seq<Seq<char>>)
    requires
        forall|i: int, j: int| 0 <= i < j < ids.len() ==> ids[i] != ids[j],
    ensures
        spec_unique_ids(ids) == ids,
    decreases ids.len(),
{
    if ids.len() > 0 {
        let d = ids.drop_last();
        lemma_unique_ids_of_distinct(d);
        if d.to_set().contains(ids.last()) {
            let k = choose|k: int| 0 <= k < d.len() && d[k] == ids.last();
            assert(ids[k] == ids[ids.len() - 1]);
        }
        assert(d.push(ids.last()) =~= ids);
    }
}

/// Normalizing a normalized definition changes nothing.
pub proof fn lemma_normalize_idempotent(o: DefView, n: DefView, m: DefView)
    requires
        shapes_fit(o.nodes),
        spec_normalized(o, n),
        spec_normalized(n, m),
    ensures
        m == n,
{
    let fv = spec_fixed_ids(o.nodes);
    let uv = spec_unique_ids(fv);
    assert forall|k: int| 0 <= k < fv.len() implies !spec_blank(#[trigger] fv[k]) by {
        lemma_fix_id_not_blank(o.nodes[k].id);
    }
    lemma_unique_ids_not_blank(fv);
    lemma_unique_ids_distinct(fv);
    assert forall|k: int| 0 <= k < n.nodes.len() implies n.nodes[k].id == uv[k] && !spec_blank(n.nodes[k].name) by {
        assert(node_normalized(o.nodes[k], n.nodes[k], uv[k], uv));
        lemma_fix_id_not_blank(o.nodes[k].id);
    }
    assert(spec_fixed_ids(n.nodes) =~= uv);
    lemma_unique_ids_of_distinct(uv);
    assert(spec_normalized(n, n)) by {
        assert forall|k: int| 0 <= k < n.nodes.len() implies node_normalized(
            #[trigger] n.nodes[k], n.nodes[k], uv[k], uv) by {
            let x = n.nodes[k];
            assert(node_normalized(o.nodes[k], x, uv[k], uv));
            lemma_norm_shape_fits(o.nodes[k].pos, o.nodes[k].shape);
            assert(spec_norm_shape(x.shape) =~= x.shape);
            assert(spec_norm_pos(x.pos, x.shape) == x.pos);
            assert(x.requires.to_set() =~= x.requires.to_set().filter(|r: Seq<char>| uv.contains(r))) by {
                assert forall|r: Seq<char>| x.requires.to_set().contains(r) implies uv.contains(r) by {
                    assert(o.nodes[k].requires.to_set().filter(|r: Seq<char>| uv.contains(r)).contains(r));
                }
            }
        }
    }
    lemma_normalized_unique(n, n, m);
}

} // verus!
