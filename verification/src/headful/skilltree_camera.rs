//! Where the skill-tree grid sits on screen, and which node covers a world cell.
use vstd::prelude::*;

use crate::piece::Vec2i;
use crate::skilltree::{NodeView, SkillTreeRuntime};

verus! {

/// A screen rectangle in pixels.
#[derive(Debug, Clone, Copy, PartialEq, Eq, Structural)]
pub struct Rect {
    pub x: u32,
    pub y: u32,
    pub w: u32,
    pub h: u32,
}

impl Rect {
    pub fn new(x: u32, y: u32, w: u32, h: u32) -> (r: Rect)
        ensures
            r == (Rect { x, y, w, h }),
    {
        Rect { x, y, w, h }
    }
}

/// Placement of the skill-tree grid on screen: its top-left corner, the cell size in pixels
/// and the number of columns and rows.
#[derive(Debug, Clone, Copy, PartialEq, Eq, Structural)]
pub struct SkillTreeLayout {
    pub grid_origin_x: u32,
    pub grid_origin_y: u32,
    pub grid_cell: u32,
    pub grid_cols: u32,
    pub grid_rows: u32,
}

impl Default for SkillTreeLayout {
    fn default() -> (r: Self)
        ensures
            r == (SkillTreeLayout { grid_origin_x: 0, grid_origin_y: 0, grid_cell: 0, grid_cols: 0, grid_rows: 0 }),
    {
        SkillTreeLayout { grid_origin_x: 0, grid_origin_y: 0, grid_cell: 0, grid_cols: 0, grid_rows: 0 }
    }
}

pub open spec fn sat_mul_u32_spec(a: u32, b: u32) -> u32 {
    if a * b > u32::MAX { u32::MAX } else { (a * b) as u32 }
}

/// The screen rectangle of the grid: its origin, and columns and rows times the cell size
/// (saturating); none for an empty grid.
pub open spec fn spec_grid_viewport(layout: SkillTreeLayout) -> Option<Rect> {
    if layout.grid_cell == 0 || layout.grid_cols == 0 || layout.grid_rows == 0 {
        None
    } else {
        Some(
            Rect {
                x: layout.grid_origin_x,
                y: layout.grid_origin_y,
                w: sat_mul_u32_spec(layout.grid_cols, layout.grid_cell),
                h: sat_mul_u32_spec(layout.grid_rows, layout.grid_cell),
            },
        )
    }
}

fn sat_mul(a: u32, b: u32) -> (r: u32)
    ensures
        r == sat_mul_u32_spec(a, b),
{
    match a.checked_mul(b) {
        Some(v) => v,
        None => u32::MAX,
    }
}

pub fn skilltree_grid_viewport(layout: SkillTreeLayout) -> (r: Option<Rect>)
    ensures
        r == spec_grid_viewport(layout),
{
    if layout.grid_cell == 0 || layout.grid_cols == 0 || layout.grid_rows == 0 {
        return None;
    }
    let w = sat_mul(layout.grid_cols, layout.grid_cell);
    let h = sat_mul(layout.grid_rows, layout.grid_cell);
    if w == 0 || h == 0 {
        proof {
            assert(layout.grid_cols * layout.grid_cell > 0) by (nonlinear_arith)
                requires
                    layout.grid_cols > 0,
                    layout.grid_cell > 0,
            ;
            assert(layout.grid_rows * layout.grid_cell > 0) by (nonlinear_arith)
                requires
                    layout.grid_rows > 0,
                    layout.grid_cell > 0,
            ;
        }
        return None;
    }
    Some(Rect::new(layout.grid_origin_x, layout.grid_origin_y, w, h))
}


/// Cell `k` of node `a` lies in `i32` and is the world cell `world`.
pub open spec fn cell_hits(nodes: Seq<NodeView>, a: int, k: int, world: Vec2i) -> bool {
    let n = nodes[a];
    &&& n.pos.x + n.shape[k].x == world.x
    &&& n.pos.y + n.shape[k].y == world.y
}

/// Cell `(b, j)` comes before cell `(a, k)` in node order, then cell order.
pub open spec fn cell_before(b: int, j: int, a: int, k: int) -> bool {
    b < a || (b == a && j < k)
}

/// A cell of some node at or before node `a` hits `world` before cell `(a, k)`.
pub open spec fn hit_before(nodes: Seq<NodeView>, world: Vec2i, a: int, k: int) -> bool {
    exists|b: int, j: int| 0 <= b < nodes.len() && 0 <= j < nodes[b].shape.len() && cell_before(b, j, a, k)
        && #[trigger] cell_hits(nodes, b, j, world)
}

/// Scanning the cells in order until one hits `world` never leaves `i32`.
#[verifier::opaque]
pub open spec fn scan_fits(nodes: Seq<NodeView>, world: Vec2i) -> bool {
    forall|a: int, k: int| 0 <= a < nodes.len() && 0 <= k < nodes[a].shape.len() && !hit_before(nodes, world, a, k)
        ==> i32::MIN <= #[trigger] nodes[a].shape[k].x + nodes[a].pos.x <= i32::MAX
            && i32::MIN <= nodes[a].pos.y + nodes[a].shape[k].y <= i32::MAX
}

/// Some cell of node `a` hits `world`.
pub open spec fn node_hits(nodes: Seq<NodeView>, a: int, world: Vec2i) -> bool {
    exists|k: int| 0 <= k < nodes[a].shape.len() && #[trigger] cell_hits(nodes, a, k, world)
}

/// The first node with a cell on `world`.
#[verifier::opaque]
pub open spec fn spec_node_at(nodes: Seq<NodeView>, world: Vec2i) -> Option<int> {
    if exists|a: int| 0 <= a < nodes.len() && #[trigger] node_hits(nodes, a, world) {
        Some(choose|a: int| 0 <= a < nodes.len() && node_hits(nodes, a, world)
            && forall|b: int| 0 <= b < a ==> !#[trigger] node_hits(nodes, b, world))
    } else {
        None
    }
}

/// The id of the first node (in definition order) with a cell on the world cell `world`.
pub fn skilltree_node_at_world(skilltree: &SkillTreeRuntime, world: Vec2i) -> (r: Option<&str>)
    requires
        scan_fits(skilltree.def@.nodes, world),
    ensures
        match spec_node_at(skilltree.def@.nodes, world) {
            Some(a) => r matches Some(id) && id@ == skilltree.def@.nodes[a].id,
            None => r is None,
        },
        r matches Some(id) ==> exists|a: int| 0 <= a < skilltree.def@.nodes.len() && #[trigger] skilltree.def@.nodes[a].id == id@,
{
    reveal(scan_fits);
    reveal(spec_node_at);
    let ghost nodes = skilltree.def@.nodes;
    let mut a: usize = 0;
    while a < skilltree.def.nodes.len()
        invariant
            nodes == skilltree.def@.nodes,
            a <= nodes.len(),
            scan_fits(nodes, world),
            forall|b: int, j: int| 0 <= b < a && 0 <= j < nodes[b].shape.len() ==> !#[trigger] cell_hits(nodes, b, j, world),
        decreases nodes.len() - a,
    {
        let node = &skilltree.def.nodes[a];
        assert(node@ == nodes[a as int]);
        let mut k: usize = 0;
        while k < node.shape.len()
            invariant
                nodes == skilltree.def@.nodes,
                a < nodes.len(),
                node@ == nodes[a as int],
                k <= nodes[a as int].shape.len(),
                scan_fits(nodes, world),
                forall|b: int, j: int| 0 <= b < a && 0 <= j < nodes[b].shape.len() ==> !#[trigger] cell_hits(nodes, b, j, world),
                forall|j: int| 0 <= j < k ==> !#[trigger] cell_hits(nodes, a as int, j, world),
            decreases nodes[a as int].shape.len() - k,
        {
            proof {
                reveal(scan_fits);
                if hit_before(nodes, world, a as int, k as int) {
                    let (b, j) = choose|b: int, j: int| 0 <= b < nodes.len() && 0 <= j < nodes[b].shape.len()
                        && cell_before(b, j, a as int, k as int) && #[trigger] cell_hits(nodes, b, j, world);
                    if b == a {
                        assert(!cell_hits(nodes, a as int, j, world));
                    }
                }
                assert(i32::MIN <= nodes[a as int].shape[k as int].x + nodes[a as int].pos.x <= i32::MAX);
            }
            let rel = node.shape[k];
            let wx = node.pos.x + rel.x;
            let wy = node.pos.y + rel.y;
            if wx == world.x && wy == world.y {
                proof {
                    reveal(spec_node_at);
                    assert(cell_hits(nodes, a as int, k as int, world));
                    assert(node_hits(nodes, a as int, world));
                    assert forall|b: int| 0 <= b < a implies !#[trigger] node_hits(nodes, b, world) by {
                        if node_hits(nodes, b, world) {
                            let j = choose|j: int| 0 <= j < nodes[b].shape.len() && #[trigger] cell_hits(nodes, b, j, world);
                            assert(!cell_hits(nodes, b, j, world));
                        }
                    }
                    let c = choose|c: int| 0 <= c < nodes.len() && node_hits(nodes, c, world)
                        && forall|b: int| 0 <= b < c ==> !#[trigger] node_hits(nodes, b, world);
                    if c < a {
                        assert(!node_hits(nodes, c, world));
                    } else if c > a {
                        assert(!node_hits(nodes, a as int, world));
                    }
                }
                return Some(node.id.as_str());
            }
            k += 1;
        }
        a += 1;
    }
    proof {
        if exists|b: int| 0 <= b < nodes.len() && #[trigger] node_hits(nodes, b, world) {
            let b = choose|b: int| 0 <= b < nodes.len() && #[trigger] node_hits(nodes, b, world);
            let j = choose|j: int| 0 <= j < nodes[b].shape.len() && #[trigger] cell_hits(nodes, b, j, world);
            assert(!cell_hits(nodes, b, j, world));
        }
    }
    None
}

} // verus!
