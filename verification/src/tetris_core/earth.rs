//! Generated earth rows of the bottomwell.
use vstd::prelude::*;

use super::{
    board_shape_ok, empty_owner_row, max_int, min_int, model_wf, new_empty_owner_row, rows_view,
    owner_rows_view, sat_add, sat_add_u32, sat_mul, sat_mul_u32, spec_effective_height,
    spec_initial_fill_rows, strings_view, walls_view, CoreModel, DepthWallDef, TetrisCore,
    WallView, BOARD_WIDTH, CELL_COIN, CELL_DIRT, CELL_EMPTY, CELL_GARBAGE, CELL_GRASS, CELL_ORE,
    CELL_STONE,
};
use crate::rng::{spec_rng_output, spec_rng_seed, spec_xorshift, Rng};

verus! {

/// One generator draw from `state`: the output and the next state.
pub open spec fn spec_draw(state: u64) -> (u32, u64) {
    let n = spec_xorshift(state);
    (spec_rng_output(n), n)
}

/// Generator state seeded for the earth row at `depth`.
pub open spec fn spec_earth_state(seed: u64, depth: u64) -> u64 {
    let mixed = seed.wrapping_mul(0x5851_F42D_4C95_7F2Du64).wrapping_add(
        depth.wrapping_mul(0x14057B7EF767814Fu64),
    );
    spec_rng_seed(if mixed == 0 { 1u64 } else { mixed })
}

/// Column of the first hole of the row at `depth`.
pub open spec fn spec_first_hole(seed: u64, depth: u64) -> int {
    spec_draw(spec_earth_state(seed, depth)).0 as int % 10
}

/// The hole columns of the row at `depth`, and the generator state after choosing them:
/// one hole; with a patch or align chance a 35% roll for a second hole (moved one column
/// right if it collides); the patch chance may remove the second hole; the align chance
/// (below the first row) moves the first hole under the previous row's first hole, dropping a
/// second hole that lands there.
pub open spec fn spec_earth_holes(seed: u64, depth: u64, patch_bp: u32, align_bp: u32) -> (Seq<int>, u64) {
    let s0 = spec_earth_state(seed, depth);
    let (a, s1) = spec_draw(s0);
    let h0 = a as int % 10;
    let (b, s2) = spec_draw(s1);
    let wants = (patch_bp > 0 || align_bp > 0) && (b as int % 100) < 35;
    let (holes1, s3) = if wants {
        let (c, s) = spec_draw(s2);
        let sec = c as int % 10;
        let sec2 = if sec == h0 { (sec + 1) % 10 } else { sec };
        (seq![h0, sec2], s)
    } else {
        (seq![h0], s2)
    };
    let (holes2, s4) = if holes1.len() == 2 {
        let (d, s) = spec_draw(s3);
        if (d as int % 10_000) < min_int(patch_bp as int, 10_000) {
            (seq![h0], s)
        } else {
            (holes1, s)
        }
    } else {
        (holes1, s3)
    };
    if depth > 0 {
        let (e, s) = spec_draw(s4);
        if (e as int % 10_000) < min_int(align_bp as int, 10_000) {
            let pc = spec_first_hole(seed, (depth - 1) as u64);
            if holes2.len() > 1 && holes2[1] == pc {
                (seq![pc], s)
            } else {
                (holes2.update(0, pc), s)
            }
        } else {
            (holes2, s)
        }
    } else {
        (holes2, s4)
    }
}

/// Coin and ore roll thresholds (percent) at `depth`, raised by the weighting points.
pub open spec fn spec_thresholds(depth: u64, ore_w: u32, coin_w: u32) -> (int, int) {
    let base_ore: int = if depth > 20 { 15 } else if depth > 10 { 10 } else { 5 };
    let base_coin: int = if depth > 30 { 8 } else if depth > 15 { 4 } else { 2 };
    let ore = min_int(min_int(base_ore + ore_w, u32::MAX as int), 35);
    let coin = min_int(min_int(base_coin + coin_w, u32::MAX as int), 20);
    let ore2 = if ore + coin > 60 { 60 - min_int(coin, 60) } else { ore };
    (ore2, coin)
}

/// Material pass from column `x` on: every non-hole cell rolls once; below the coin
/// threshold it becomes a coin, then ore, then (30 more percent) stone, else it stays dirt.
pub open spec fn spec_fill_materials(row: Seq<u8>, state: u64, x: int, ore_t: int, coin_t: int) -> Seq<u8>
    decreases 10 - x,
{
    if x >= 10 || x < 0 {
        row
    } else if row[x] == CELL_EMPTY {
        spec_fill_materials(row, state, x + 1, ore_t, coin_t)
    } else {
        let (r, s) = spec_draw(state);
        let roll = r as int % 100;
        let v = if roll < coin_t {
            CELL_COIN
        } else if roll < coin_t + ore_t {
            CELL_ORE
        } else if roll < coin_t + ore_t + 30 {
            CELL_STONE
        } else {
            row[x]
        };
        spec_fill_materials(row.update(x, v), s, x + 1, ore_t, coin_t)
    }
}

pub open spec fn spec_holed_dirt_row(holes: Seq<int>) -> Seq<u8> {
    Seq::new(10, |i: int| if holes.contains(i) { CELL_EMPTY } else { CELL_DIRT })
}

/// The earth row generated for `depth` with the given tuning.
pub open spec fn spec_earth_row(
    seed: u64,
    depth: u64,
    ore_w: u32,
    coin_w: u32,
    patch_bp: u32,
    align_bp: u32,
) -> Seq<u8> {
    let (holes, st) = spec_earth_holes(seed, depth, patch_bp, align_bp);
    let (ore_t, coin_t) = spec_thresholds(depth, ore_w, coin_w);
    spec_fill_materials(spec_holed_dirt_row(holes), st, 0, ore_t, coin_t)
}

pub open spec fn spec_model_earth_row(m: CoreModel, depth: u64) -> Seq<u8> {
    spec_earth_row(
        m.background_seed,
        depth,
        m.ore_weight_points,
        m.coin_weight_points,
        m.hole_patch_chance_bp,
        m.hole_align_chance_bp,
    )
}

/// The grass row laid on top of the initial earth: grass with one hole.
pub open spec fn spec_grass_row(seed: u64) -> Seq<u8> {
    let mixed = seed ^ 0x9E37_79B9_7F4A_7C15u64;
    let st = spec_rng_seed(if mixed == 0 { 1u64 } else { mixed });
    let hole = spec_draw(st).0 as int % 10;
    Seq::new(10, |i: int| if i == hole { CELL_EMPTY } else { CELL_GRASS })
}

pub open spec fn is_earth_cell(c: u8) -> bool {
    c == CELL_EMPTY || c == CELL_DIRT || c == CELL_STONE || c == CELL_ORE || c == CELL_COIN
}

pub open spec fn count_value(row: Seq<u8>, v: u8) -> nat
    decreases row.len(),
{
    if row.len() == 0 {
        0
    } else {
        (if row.last() == v { 1nat } else { 0nat }) + count_value(row.drop_last(), v)
    }
}

proof fn lemma_fill_materials_props(row: Seq<u8>, state: u64, x: int, ore_t: int, coin_t: int)
    requires
        row.len() == 10,
        0 <= x,
        forall|i: int| 0 <= i < 10 ==> is_earth_cell(#[trigger] row[i]),
    ensures
        spec_fill_materials(row, state, x, ore_t, coin_t).len() == 10,
        forall|i: int|
            0 <= i < 10 ==> is_earth_cell(#[trigger] spec_fill_materials(row, state, x, ore_t, coin_t)[i]),
        forall|i: int|
            0 <= i < 10 ==> (#[trigger] spec_fill_materials(row, state, x, ore_t, coin_t)[i] == CELL_EMPTY
                <==> row[i] == CELL_EMPTY),
    decreases 10 - x,
{
    if x < 10 {
        if row[x] == CELL_EMPTY {
            lemma_fill_materials_props(row, state, x + 1, ore_t, coin_t);
        } else {
            let (r, s) = spec_draw(state);
            let roll = r as int % 100;
            let v = if roll < coin_t {
                CELL_COIN
            } else if roll < coin_t + ore_t {
                CELL_ORE
            } else if roll < coin_t + ore_t + 30 {
                CELL_STONE
            } else {
                row[x]
            };
            lemma_fill_materials_props(row.update(x, v), s, x + 1, ore_t, coin_t);
        }
    }
}

/// Every generated earth row is `BOARD_WIDTH` cells of empty, dirt, stone, ore or coin,
/// and its holes are exactly the hole columns chosen for it.
pub proof fn lemma_earth_row_cells(
    seed: u64,
    depth: u64,
    ore_w: u32,
    coin_w: u32,
    patch_bp: u32,
    align_bp: u32,
)
    ensures
        spec_earth_row(seed, depth, ore_w, coin_w, patch_bp, align_bp).len() == BOARD_WIDTH,
        forall|i: int|
            0 <= i < 10 ==> is_earth_cell(
                #[trigger] spec_earth_row(seed, depth, ore_w, coin_w, patch_bp, align_bp)[i],
            ),
        forall|i: int|
            0 <= i < 10 ==> (#[trigger] spec_earth_row(seed, depth, ore_w, coin_w, patch_bp, align_bp)[i]
                == CELL_EMPTY <==> spec_earth_holes(seed, depth, patch_bp, align_bp).0.contains(i)),
{
    let (holes, st) = spec_earth_holes(seed, depth, patch_bp, align_bp);
    let (ore_t, coin_t) = spec_thresholds(depth, ore_w, coin_w);
    lemma_fill_materials_props(spec_holed_dirt_row(holes), st, 0, ore_t, coin_t);
}

proof fn lemma_earth_holes_untuned(seed: u64, depth: u64)
    ensures
        spec_earth_holes(seed, depth, 0, 0).0 == seq![spec_first_hole(seed, depth)],
{
    let s0 = spec_earth_state(seed, depth);
    let (a, s1) = spec_draw(s0);
    let h0 = a as int % 10;
    assert(h0 == spec_first_hole(seed, depth));
    let (b, s2) = spec_draw(s1);
    assert(min_int(0, 10_000) == 0);
}

/// Without patch and align chances an earth row has exactly one hole, at its first-hole
/// column.
pub proof fn lemma_earth_row_single_hole(seed: u64, depth: u64, ore_w: u32, coin_w: u32)
    ensures
        forall|i: int|
            0 <= i < 10 ==> (#[trigger] spec_earth_row(seed, depth, ore_w, coin_w, 0, 0)[i] == CELL_EMPTY
                <==> i == spec_first_hole(seed, depth)),
{
    lemma_earth_row_cells(seed, depth, ore_w, coin_w, 0, 0);
    lemma_earth_holes_untuned(seed, depth);
    let holes = spec_earth_holes(seed, depth, 0, 0).0;
    assert forall|i: int| 0 <= i < 10 implies (#[trigger] spec_earth_row(seed, depth, ore_w, coin_w, 0, 0)[i] == CELL_EMPTY
        <==> i == spec_first_hole(seed, depth)) by {
        assert(holes.contains(i) <==> i == spec_first_hole(seed, depth)) by {
            if i == spec_first_hole(seed, depth) {
                assert(holes[0] == i);
            }
        }
    }
}

fn earth_seed_state(seed: u64, depth: u64) -> (r: Rng)
    ensures
        r.state == spec_earth_state(seed, depth),
{
    let mixed = seed.wrapping_mul(0x5851_F42D_4C95_7F2D).wrapping_add(
        depth.wrapping_mul(0x14057B7EF767814F),
    );
    Rng::new(
        if mixed == 0 {
            1
        } else {
            mixed
        },
    )
}

impl TetrisCore {
    /// The earth row for `depth` from `seed` with no tuning (see `spec_earth_row`).
    pub fn generate_earth_row(seed: u64, depth: u64) -> (r: Vec<u8>)
        ensures
            r@ == spec_earth_row(seed, depth, 0, 0, 0, 0),
    {
        Self::generate_earth_row_with_tuning(seed, depth, 0, 0, 0, 0)
    }

    pub(crate) fn generate_earth_row_for_depth(&self, depth: u64) -> (r: Vec<u8>)
        ensures
            r@ == spec_model_earth_row(self@, depth),
    {
        Self::generate_earth_row_with_tuning(
            self.background_seed,
            depth,
            self.ore_weight_points,
            self.coin_weight_points,
            self.hole_patch_chance_bp,
            self.hole_align_chance_bp,
        )
    }

    /// The earth row for `depth` with ore and coin weighting and hole patch/align chances in
    /// basis points (see `spec_earth_row`).
    pub fn generate_earth_row_with_tuning(
        seed: u64,
        depth: u64,
        ore_weight_points: u32,
        coin_weight_points: u32,
        hole_patch_chance_bp: u32,
        hole_align_chance_bp: u32,
    ) -> (r: Vec<u8>)
        ensures
            r@ == spec_earth_row(
                seed,
                depth,
                ore_weight_points,
                coin_weight_points,
                hole_patch_chance_bp,
                hole_align_chance_bp,
            ),
    {
        let mut rng = earth_seed_state(seed, depth);
        let mut hole_positions: Vec<usize> = Vec::new();
        hole_positions.push((rng.next_u32() as usize) % BOARD_WIDTH);
        let second_hole_roll = rng.next_u32() % 100;
        let wants_second_hole = (hole_patch_chance_bp > 0 || hole_align_chance_bp > 0)
            && second_hole_roll < 35;
        if wants_second_hole {
            let mut second = (rng.next_u32() as usize) % BOARD_WIDTH;
            if second == hole_positions[0] {
                second = (second + 1) % BOARD_WIDTH;
            }
            hole_positions.push(second);
        }
        let patch_limit = if hole_patch_chance_bp < 10_000 {
            hole_patch_chance_bp
        } else {
            10_000
        };
        if hole_positions.len() == 2 && (rng.next_u32() % 10_000) < patch_limit {
            hole_positions.remove(1);
        }
        let align_limit = if hole_align_chance_bp < 10_000 {
            hole_align_chance_bp
        } else {
            10_000
        };
        if depth > 0 && hole_positions.len() > 0 && (rng.next_u32() % 10_000) < align_limit {
            let mut prev_rng = earth_seed_state(seed, depth - 1);
            let prev_col = (prev_rng.next_u32() as usize) % BOARD_WIDTH;
            hole_positions.set(0, prev_col);
            if hole_positions.len() > 1 && hole_positions[1] == prev_col {
                hole_positions.remove(1);
            }
        }
        let ghost hs = spec_earth_holes(seed, depth, hole_patch_chance_bp, hole_align_chance_bp);
        assert(hole_positions@.map_values(|h: usize| h as int) =~= hs.0);
        assert(rng.state == hs.1);
        let mut row: Vec<u8> = Vec::new();
        let mut i: usize = 0;
        while i < BOARD_WIDTH
            invariant
                i <= BOARD_WIDTH,
                row@.len() == i,
                hole_positions@.map_values(|h: usize| h as int) == hs.0,
                forall|j: int| 0 <= j < i ==> row@[j] == spec_holed_dirt_row(hs.0)[j],
            decreases BOARD_WIDTH - i,
        {
            let mut is_hole = false;
            let mut k: usize = 0;
            while k < hole_positions.len()
                invariant
                    k <= hole_positions@.len(),
                    i < BOARD_WIDTH,
                    hole_positions@.map_values(|h: usize| h as int) == hs.0,
                    is_hole == exists|j: int| 0 <= j < k && hole_positions@[j] == i,
                decreases hole_positions@.len() - k,
            {
                if hole_positions[k] == i {
                    is_hole = true;
                }
                k += 1;
            }
            assert(is_hole == hs.0.contains(i as int)) by {
                if is_hole {
                    let j = choose|j: int| 0 <= j < hole_positions@.len() && hole_positions@[j] == i;
                    assert(hs.0[j] == i as int);
                }
                if hs.0.contains(i as int) {
                    let j = choose|j: int| 0 <= j < hs.0.len() && hs.0[j] == i as int;
                    assert(hole_positions@[j] == i);
                }
            }
            row.push(
                if is_hole {
                    CELL_EMPTY
                } else {
                    CELL_DIRT
                },
            );
            i += 1;
        }
        assert(row@ =~= spec_holed_dirt_row(hs.0));
        let base_ore_threshold: u32 = if depth > 20 {
            15
        } else if depth > 10 {
            10
        } else {
            5
        };
        let base_coin_threshold: u32 = if depth > 30 {
            8
        } else if depth > 15 {
            4
        } else {
            2
        };
        let o = sat_add_u32(base_ore_threshold, ore_weight_points);
        let mut ore_threshold: u32 = if o < 35 {
            o
        } else {
            35
        };
        let c = sat_add_u32(base_coin_threshold, coin_weight_points);
        let coin_threshold: u32 = if c < 20 {
            c
        } else {
            20
        };
        if ore_threshold + coin_threshold > 60 {
            ore_threshold = 60 - coin_threshold;
        }
        let ghost th = spec_thresholds(depth, ore_weight_points, coin_weight_points);
        assert(ore_threshold == th.0 && coin_threshold == th.1);
        let mut x: usize = 0;
        #[verifier::rlimit(40)]
        while x < BOARD_WIDTH
            invariant
                x <= BOARD_WIDTH,
                row@.len() == BOARD_WIDTH,
                ore_threshold <= 35,
                coin_threshold <= 20,
                spec_fill_materials(row@, rng.state, x as int, ore_threshold as int, coin_threshold as int)
                    == spec_earth_row(
                    seed,
                    depth,
                    ore_weight_points,
                    coin_weight_points,
                    hole_patch_chance_bp,
                    hole_align_chance_bp,
                ),
            decreases BOARD_WIDTH - x,
        {
            let ghost r0 = row@;
            let ghost st0 = rng.state;
            if row[x] != CELL_EMPTY {
                let roll = rng.next_u32() % 100;
                let cur = row[x];
                let v = if roll < coin_threshold {
                    CELL_COIN
                } else if roll < coin_threshold + ore_threshold {
                    CELL_ORE
                } else if roll < coin_threshold + ore_threshold + 30 {
                    CELL_STONE
                } else {
                    cur
                };
                row.set(x, v);
                assert(spec_fill_materials(r0, st0, x as int, ore_threshold as int, coin_threshold as int)
                    == spec_fill_materials(row@, rng.state, x + 1, ore_threshold as int, coin_threshold as int));
            }
            x += 1;
        }
        row
    }

    /// The initial top bottomwell row: grass with one hole.
    pub(crate) fn generate_grass_surface_row(seed: u64) -> (r: Vec<u8>)
        ensures
            r@ == spec_grass_row(seed),
    {
        let mixed = seed ^ 0x9E37_79B9_7F4A_7C15;
        let mut rng = Rng::new(
            if mixed == 0 {
                1
            } else {
                mixed
            },
        );
        let hole_pos = (rng.next_u32() as usize) % BOARD_WIDTH;
        let mut row: Vec<u8> = Vec::new();
        let mut i: usize = 0;
        while i < BOARD_WIDTH
            invariant
                i <= BOARD_WIDTH,
                row@.len() == i,
                hole_pos == spec_draw(spec_rng_seed(if mixed == 0 { 1u64 } else { mixed })).0 as int % 10,
                mixed == seed ^ 0x9E37_79B9_7F4A_7C15u64,
                forall|j: int| 0 <= j < i ==> row@[j] == CELL_GRASS,
            decreases BOARD_WIDTH - i,
        {
            row.push(CELL_GRASS);
            i += 1;
        }
        row.set(hole_pos, CELL_EMPTY);
        assert(row@ =~= spec_grass_row(seed));
        row
    }
}


/// Laying the initial bottomwell: the lowest `min(fill rows, height)` rows become earth rows
/// for consecutive depths, the topmost of them a grass row, all without owners; the depth
/// counter advances by one per row.
pub open spec fn spec_prefill(m: CoreModel) -> CoreModel {
    let count = min_int(spec_initial_fill_rows(m), m.board.len() as int);
    CoreModel {
        board: Seq::new(
            m.board.len(),
            |y: int|
                if y < count {
                    if y == count - 1 {
                        spec_grass_row(m.background_seed)
                    } else {
                        spec_model_earth_row(m, (m.earth_depth + y) as u64)
                    }
                } else {
                    m.board[y]
                },
        ),
        owners: Seq::new(
            m.owners.len(),
            |y: int| if y < count { empty_owner_row() } else { m.owners[y] },
        ),
        earth_depth: (m.earth_depth + count) as u64,
        ..m
    }
}

/// Index of the first wall definition that triggers by `depth`, is not broken and is not the
/// active wall.
pub open spec fn spec_pending_wall_from(m: CoreModel, depth: u64, i: int) -> Option<int>
    decreases m.depth_walls.len() - i,
{
    if i < 0 || i >= m.depth_walls.len() {
        None
    } else if m.depth_walls[i].depth_trigger <= depth && !m.broken_walls.contains(m.depth_walls[i].id)
        && m.active_wall_id != Some(m.depth_walls[i].id) {
        Some(i)
    } else {
        spec_pending_wall_from(m, depth, i + 1)
    }
}

proof fn lemma_pending_wall_range(m: CoreModel, depth: u64, i: int)
    ensures
        spec_pending_wall_from(m, depth, i) matches Some(j) ==> 0 <= j < m.depth_walls.len(),
    decreases m.depth_walls.len() - i,
{
    if 0 <= i < m.depth_walls.len() {
        lemma_pending_wall_range(m, depth, i + 1);
    }
}

pub open spec fn spec_pending_wall(m: CoreModel, depth: u64) -> Option<int> {
    spec_pending_wall_from(m, depth, 0)
}

/// Before revealing the next row: when no wall is active, the first pending wall at the
/// next depth becomes active with its hit points (at least 1) and pauses depth progress.
pub open spec fn spec_activates_wall(m: CoreModel) -> bool {
    !m.depth_progress_paused && m.active_wall_id is None && spec_pending_wall(
        m,
        sat_add(m.earth_depth as int, 1, u64::MAX as int) as u64,
    ) is Some
}

pub open spec fn spec_activate_wall(m: CoreModel) -> CoreModel {
    if spec_activates_wall(m) {
        let i = spec_pending_wall(m, sat_add(m.earth_depth as int, 1, u64::MAX as int) as u64)->0;
        CoreModel {
            active_wall_id: Some(m.depth_walls[i].id),
            active_wall_hp: max_int(m.depth_walls[i].hp as int, 1) as u32,
            depth_progress_paused: true,
            ..m
        }
    } else {
        m
    }
}

/// One revealed row: a new earth row enters at the bottom and the top row leaves.
pub open spec fn spec_reveal_one(m: CoreModel) -> CoreModel {
    let row = spec_model_earth_row(m, m.earth_depth);
    let b = seq![row] + m.board;
    let o = seq![empty_owner_row()] + m.owners;
    let trim = b.len() > spec_effective_height(m);
    CoreModel {
        board: if trim { b.drop_last() } else { b },
        owners: if trim { o.drop_last() } else { o },
        earth_depth: (m.earth_depth + 1) as u64,
        ..m
    }
}

/// Revealing up to `n` rows, stopping when a wall activates; also the number revealed.
pub open spec fn spec_reveal(m: CoreModel, n: nat) -> (CoreModel, nat)
    decreases n,
{
    if n == 0 {
        (m, 0)
    } else if spec_activates_wall(m) {
        (spec_activate_wall(m), 0)
    } else {
        let (m2, k) = spec_reveal(spec_reveal_one(m), (n - 1) as nat);
        (m2, k + 1)
    }
}

/// Damage dealt to a wall by clearing `lines` lines: per-line damage times lines, with the
/// multi-clear bonus percentage for two or more lines (saturating).
pub open spec fn spec_wall_damage(m: CoreModel, lines: int) -> int {
    if lines == 0 {
        0
    } else {
        let base = sat_mul(m.damage_per_line as int, lines, u32::MAX as int);
        if lines >= 2 {
            sat_mul(base, m.multi_bonus_percent as int, u32::MAX as int) / 100
        } else {
            base
        }
    }
}

/// Damage to the active wall; a wall brought to zero hit points breaks: it is no longer
/// active, depth progress resumes, its id joins the broken walls and the progress is marked
/// for saving.
pub open spec fn spec_apply_wall_damage(m: CoreModel, lines: int) -> CoreModel {
    if !m.depth_progress_paused || m.active_wall_id is None || lines == 0 {
        m
    } else {
        let dmg = spec_wall_damage(m, lines);
        if dmg == 0 {
            m
        } else {
            let hp = max_int(m.active_wall_hp - dmg, 0);
            if hp > 0 {
                CoreModel { active_wall_hp: hp as u32, ..m }
            } else {
                let id = m.active_wall_id->0;
                CoreModel {
                    active_wall_id: None,
                    active_wall_hp: 0,
                    depth_progress_paused: false,
                    broken_walls: if m.broken_walls.contains(id) {
                        m.broken_walls
                    } else {
                        m.broken_walls.push(id)
                    },
                    progress_unsaved: true,
                    ..m
                }
            }
        }
    }
}

pub open spec fn row_all_empty(row: Seq<u8>) -> bool {
    forall|x: int| 0 <= x < row.len() ==> row[x] == CELL_EMPTY
}

/// Regenerates, from row `y` up to `count`, every fill row that became entirely empty.
pub open spec fn spec_ensure_floor_from(m: CoreModel, y: int, count: int) -> CoreModel
    decreases count - y,
{
    if y >= count || y < 0 {
        m
    } else if row_all_empty(m.board[y]) {
        spec_ensure_floor_from(
            CoreModel {
                board: m.board.update(y, spec_model_earth_row(m, m.earth_depth)),
                owners: m.owners.update(y, empty_owner_row()),
                earth_depth: (m.earth_depth + 1) as u64,
                ..m
            },
            y + 1,
            count,
        )
    } else {
        spec_ensure_floor_from(m, y + 1, count)
    }
}

pub open spec fn spec_ensure_floor(m: CoreModel) -> CoreModel {
    spec_ensure_floor_from(m, 0, min_int(spec_initial_fill_rows(m), m.board.len() as int))
}

/// Number of cells equal to `v` in a list of rows.
pub open spec fn count_in_rows(rows: Seq<Seq<u8>>, v: u8) -> nat
    decreases rows.len(),
{
    if rows.len() == 0 {
        0
    } else {
        count_in_rows(rows.drop_last(), v) + count_value(rows.last(), v)
    }
}

pub open spec fn is_bottomwell_cell(c: u8) -> bool {
    c == CELL_DIRT || c == CELL_GARBAGE || c == CELL_STONE || c == CELL_ORE || c == CELL_COIN
        || c == CELL_GRASS
}

pub open spec fn row_has_bottomwell_cell(row: Seq<u8>) -> bool {
    exists|x: int| 0 <= x < row.len() && is_bottomwell_cell(#[trigger] row[x])
}

/// Number of rows holding at least one bottomwell cell.
pub open spec fn count_bottomwell_rows(rows: Seq<Seq<u8>>) -> nat
    decreases rows.len(),
{
    if rows.len() == 0 {
        0
    } else {
        count_bottomwell_rows(rows.drop_last()) + if row_has_bottomwell_cell(rows.last()) {
            1nat
        } else {
            0nat
        }
    }
}

proof fn lemma_count_value_bound(row: Seq<u8>, v: u8)
    ensures
        count_value(row, v) <= row.len(),
    decreases row.len(),
{
    if row.len() > 0 {
        lemma_count_value_bound(row.drop_last(), v);
    }
}

pub(crate) proof fn lemma_count_bottomwell_bound(rows: Seq<Seq<u8>>)
    ensures
        count_bottomwell_rows(rows) <= rows.len(),
    decreases rows.len(),
{
    if rows.len() > 0 {
        lemma_count_bottomwell_bound(rows.drop_last());
    }
}

pub(crate) fn contains_string(v: &Vec<String>, s: &String) -> (r: bool)
    ensures
        r == strings_view(v@).contains(s@),
{
    let mut i: usize = 0;
    while i < v.len()
        invariant
            i <= v@.len(),
            forall|j: int| 0 <= j < i ==> v@[j]@ != s@,
        decreases v@.len() - i,
    {
        if v[i] == *s {
            assert(strings_view(v@)[i as int] == s@);
            return true;
        }
        i += 1;
    }
    assert(!strings_view(v@).contains(s@)) by {
        if strings_view(v@).contains(s@) {
            let j = choose|j: int| 0 <= j < strings_view(v@).len() && strings_view(v@)[j] == s@;
            assert(v@[j]@ == s@);
        }
    }
    false
}

impl TetrisCore {
    pub(crate) fn prefill_bottomwell(&mut self)
        requires
            old(self).wf(),
            old(self)@.earth_depth + 8 <= u64::MAX,
        ensures
            final(self).wf(),
            final(self)@ == spec_prefill(old(self)@),
    {
        let fill = self.initial_bottomwell_fill_rows();
        let count = if fill < self.board.len() {
            fill
        } else {
            self.board.len()
        };
        let ghost m0 = self@;
        let mut i: usize = 0;
        while i < count
            invariant
                self.wf(),
                count <= 6,
                count == min_int(spec_initial_fill_rows(m0), m0.board.len() as int),
                count <= m0.board.len(),
                i <= count,
                self@.earth_depth == m0.earth_depth + i,
                m0.earth_depth + 8 <= u64::MAX,
                self@.board.len() == m0.board.len(),
                self@ == (CoreModel { board: self@.board, owners: self@.owners, earth_depth: self@.earth_depth, ..m0 }),
                forall|y: int| 0 <= y < m0.board.len() ==> #[trigger] self@.board[y] == (if y < i {
                    spec_prefill(m0).board[y]
                } else {
                    m0.board[y]
                }),
                forall|y: int| 0 <= y < m0.board.len() ==> #[trigger] self@.owners[y] == (if y < i {
                    empty_owner_row()
                } else {
                    m0.owners[y]
                }),
            decreases count - i,
        {
            let row = if i + 1 == count {
                Self::generate_grass_surface_row(self.background_seed)
            } else {
                self.generate_earth_row_for_depth(self.earth_depth)
            };
            proof {
                if i + 1 != count {
                    lemma_earth_row_cells(m0.background_seed, self@.earth_depth, m0.ore_weight_points,
                        m0.coin_weight_points, m0.hole_patch_chance_bp, m0.hole_align_chance_bp);
                }
            }
            let ghost b0 = self.board@;
            let ghost o0 = self.board_owner@;
            self.board.set(i, row);
            self.board_owner.set(i, new_empty_owner_row());
            assert(rows_view(self.board@) =~= rows_view(b0).update(i as int, row@));
            assert(owner_rows_view(self.board_owner@) =~= owner_rows_view(o0).update(i as int, empty_owner_row()));
            self.earth_depth = self.earth_depth + 1;
            i += 1;
        }
        assert(self@.board =~= spec_prefill(m0).board);
        assert(self@.owners =~= spec_prefill(m0).owners);
    }

    fn pending_wall_for_depth(&self, depth: u64) -> (r: Option<usize>)
        ensures
            match r {
                Some(i) => spec_pending_wall(self@, depth) == Some(i as int),
                None => spec_pending_wall(self@, depth) is None,
            },
    {
        let mut i: usize = 0;
        while i < self.depth_walls.len()
            invariant
                i <= self.depth_walls@.len(),
                spec_pending_wall(self@, depth) == spec_pending_wall_from(self@, depth, i as int),
            decreases self.depth_walls@.len() - i,
        {
            let def = &self.depth_walls[i];
            let is_active = match &self.active_wall_id {
                Some(a) => *a == def.id,
                None => false,
            };
            if def.depth_trigger <= depth && !contains_string(&self.broken_walls, &def.id) && !is_active {
                return Some(i);
            }
            i += 1;
        }
        None
    }

    pub(crate) fn try_activate_wall_for_next_depth(&mut self) -> (r: bool)
        requires
            old(self).wf(),
        ensures
            final(self).wf(),
            r == spec_activates_wall(old(self)@),
            final(self)@ == spec_activate_wall(old(self)@),
    {
        if self.depth_progress_paused || self.active_wall_id.is_some() {
            return false;
        }
        let trigger_depth = self.earth_depth.saturating_add(1);
        let idx = match self.pending_wall_for_depth(trigger_depth) {
            Some(i) => i,
            None => return false,
        };
        proof {
            lemma_pending_wall_range(self@, trigger_depth, 0);
            assert(self@.depth_walls[idx as int] == self.depth_walls@[idx as int]@);
        }
        let id = self.depth_walls[idx].id.clone();
        let hp = self.depth_walls[idx].hp;
        self.active_wall_id = Some(id);
        self.active_wall_hp_remaining = if hp < 1 {
            1
        } else {
            hp
        };
        self.depth_progress_paused = true;
        true
    }

    fn reveal_one(&mut self)
        requires
            old(self).wf(),
            old(self)@.earth_depth + 1 <= u64::MAX,
        ensures
            final(self).wf(),
            final(self)@ == spec_reveal_one(old(self)@),
    {
        let ghost m0 = self@;
        let row = self.generate_earth_row_for_depth(self.earth_depth);
        proof {
            lemma_earth_row_cells(m0.background_seed, m0.earth_depth, m0.ore_weight_points,
                m0.coin_weight_points, m0.hole_patch_chance_bp, m0.hole_align_chance_bp);
        }
        self.earth_depth = self.earth_depth + 1;
        let ghost b0 = self.board@;
        let ghost o0 = self.board_owner@;
        self.board.insert(0, row);
        self.board_owner.insert(0, new_empty_owner_row());
        assert(rows_view(self.board@) =~= seq![row@] + rows_view(b0));
        assert(owner_rows_view(self.board_owner@) =~= seq![empty_owner_row()] + owner_rows_view(o0));
        let target = self.effective_board_height_raw();
        if self.board.len() > target {
            let ghost b1 = self.board@;
            let ghost o1 = self.board_owner@;
            self.board.pop();
            self.board_owner.pop();
            assert(rows_view(self.board@) =~= rows_view(b1).drop_last());
            assert(owner_rows_view(self.board_owner@) =~= owner_rows_view(o1).drop_last());
        }
    }

    fn effective_board_height_raw(&self) -> (r: usize)
        requires
            self.bottomwell_rows <= 3,
            self.deep_shaft_rows <= 3,
        ensures
            r == spec_effective_height(self@),
    {
        if self.bottomwell_enabled {
            super::BOARD_HEIGHT + self.bottomwell_rows + self.deep_shaft_rows
        } else {
            super::BOARD_HEIGHT
        }
    }

    /// Reveals up to `n` new earth rows below the board, stopping when a wall activates.
    pub(crate) fn reveal_earth_lines(&mut self, n: usize) -> (r: usize)
        requires
            old(self).wf(),
            old(self)@.earth_depth + n <= u64::MAX,
        ensures
            final(self).wf(),
            (final(self)@, r as nat) == spec_reveal(old(self)@, n as nat),
            r <= n,
            final(self)@.earth_depth == old(self)@.earth_depth + r,
        decreases n,
    {
        if n == 0 {
            return 0;
        }
        if self.try_activate_wall_for_next_depth() {
            return 0;
        }
        self.reveal_one();
        let k = self.reveal_earth_lines(n - 1);
        k + 1
    }

    pub(crate) fn wall_damage_for_lines(&self, lines_cleared: usize) -> (r: u32)
        requires
            lines_cleared <= 1000,
        ensures
            r == spec_wall_damage(self@, lines_cleared as int),
    {
        if lines_cleared == 0 {
            return 0;
        }
        let lines = lines_cleared as u32;
        let base = sat_mul_u32(self.depth_wall_damage_per_line, lines);
        if lines >= 2 {
            sat_mul_u32(base, self.depth_wall_multi_clear_bonus_percent) / 100
        } else {
            base
        }
    }

    pub(crate) fn apply_active_wall_damage(&mut self, lines_cleared: usize)
        requires
            old(self).wf(),
            lines_cleared <= 1000,
        ensures
            final(self).wf(),
            final(self)@ == spec_apply_wall_damage(old(self)@, lines_cleared as int),
    {
        if !self.depth_progress_paused || self.active_wall_id.is_none() || lines_cleared == 0 {
            return;
        }
        let damage = self.wall_damage_for_lines(lines_cleared);
        if damage == 0 {
            return;
        }
        self.active_wall_hp_remaining = self.active_wall_hp_remaining.saturating_sub(damage);
        if self.active_wall_hp_remaining > 0 {
            return;
        }
        let wall_id = match self.active_wall_id.take() {
            Some(id) => id,
            None => return,
        };
        self.active_wall_hp_remaining = 0;
        self.depth_progress_paused = false;
        if !contains_string(&self.broken_walls, &wall_id) {
            let ghost bw = self.broken_walls@;
            self.broken_walls.push(wall_id);
            assert(strings_view(self.broken_walls@) =~= strings_view(bw).push(wall_id@));
        }
        self.depth_wall_progress_unsaved = true;
    }

    pub(crate) fn ensure_bottomwell_floor(&mut self)
        requires
            old(self).wf(),
            old(self)@.earth_depth + 8 <= u64::MAX,
        ensures
            final(self).wf(),
            final(self)@ == spec_ensure_floor(old(self)@),
            final(self)@.earth_depth <= old(self)@.earth_depth + 6,
    {
        let fill = self.initial_bottomwell_fill_rows();
        let count = if fill < self.board.len() {
            fill
        } else {
            self.board.len()
        };
        let ghost m0 = self@;
        let mut y: usize = 0;
        while y < count
            invariant
                self.wf(),
                count <= 6,
                count <= self@.board.len(),
                y <= count,
                self@.earth_depth <= m0.earth_depth + y,
                m0.earth_depth + 8 <= u64::MAX,
                spec_ensure_floor(m0) == spec_ensure_floor_from(self@, y as int, count as int),
            decreases count - y,
        {
            let mut all_empty = true;
            let mut x: usize = 0;
            while x < self.board[y].len()
                invariant
                    y < self.board@.len(),
                    x <= self.board@[y as int]@.len(),
                    all_empty == forall|k: int| 0 <= k < x ==> self.board@[y as int]@[k] == CELL_EMPTY,
                decreases self.board@[y as int]@.len() - x,
            {
                if self.board[y][x] != CELL_EMPTY {
                    all_empty = false;
                }
                x += 1;
            }
            assert(self@.board[y as int] == self.board@[y as int]@);
            if all_empty {
                let ghost m1 = self@;
                let row = self.generate_earth_row_for_depth(self.earth_depth);
                proof {
                    lemma_earth_row_cells(m1.background_seed, m1.earth_depth, m1.ore_weight_points,
                        m1.coin_weight_points, m1.hole_patch_chance_bp, m1.hole_align_chance_bp);
                }
                let ghost b0 = self.board@;
                let ghost o0 = self.board_owner@;
                self.board.set(y, row);
                self.board_owner.set(y, new_empty_owner_row());
                self.earth_depth = self.earth_depth + 1;
                assert(rows_view(self.board@) =~= rows_view(b0).update(y as int, row@));
                assert(owner_rows_view(self.board_owner@) =~= owner_rows_view(o0).update(y as int, empty_owner_row()));
            }
            y += 1;
        }
    }

    /// Ore and coin cells in a list of rows.
    pub(crate) fn count_rewards_in_rows(rows: &Vec<Vec<u8>>) -> (r: (u32, u32))
        requires
            rows@.len() <= 100,
            forall|i: int| 0 <= i < rows@.len() ==> (#[trigger] rows@[i])@.len() <= 100,
        ensures
            r.0 == count_in_rows(rows_view(rows@), CELL_ORE),
            r.1 == count_in_rows(rows_view(rows@), CELL_COIN),
    {
        let mut ore: u32 = 0;
        let mut coins: u32 = 0;
        let mut i: usize = 0;
        while i < rows.len()
            invariant
                i <= rows@.len(),
                rows@.len() <= 100,
                forall|i: int| 0 <= i < rows@.len() ==> (#[trigger] rows@[i])@.len() <= 100,
                ore == count_in_rows(rows_view(rows@).take(i as int), CELL_ORE),
                coins == count_in_rows(rows_view(rows@).take(i as int), CELL_COIN),
                ore <= i * 100,
                coins <= i * 100,
            decreases rows@.len() - i,
        {
            let row = &rows[i];
            let mut x: usize = 0;
            let ghost ore0 = ore;
            let ghost coins0 = coins;
            while x < row.len()
                invariant
                    x <= row@.len(),
                    row@.len() <= 100,
                    ore == ore0 + count_value(row@.take(x as int), CELL_ORE),
                    coins == coins0 + count_value(row@.take(x as int), CELL_COIN),
                    ore0 <= i * 100,
                    coins0 <= i * 100,
                    i < 100,
                decreases row@.len() - x,
            {
                proof {
                    lemma_count_value_bound(row@.take(x as int), CELL_ORE);
                    lemma_count_value_bound(row@.take(x as int), CELL_COIN);
                    assert(row@.take(x + 1).drop_last() =~= row@.take(x as int));
                }
                if row[x] == CELL_ORE {
                    ore += 1;
                } else if row[x] == CELL_COIN {
                    coins += 1;
                }
                x += 1;
            }
            assert(row@.take(row@.len() as int) =~= row@);
            assert(rows_view(rows@).take(i + 1).drop_last() =~= rows_view(rows@).take(i as int));
            proof {
                lemma_count_value_bound(row@, CELL_ORE);
                lemma_count_value_bound(row@, CELL_COIN);
            }
            i += 1;
        }
        assert(rows_view(rows@).take(rows@.len() as int) =~= rows_view(rows@));
        (ore, coins)
    }

    /// Rows that hold at least one bottomwell cell (dirt, garbage, stone, ore, coin, grass).
    pub(crate) fn count_bottomwell_clears(rows: &Vec<Vec<u8>>) -> (r: usize)
        ensures
            r == count_bottomwell_rows(rows_view(rows@)),
    {
        let mut count: usize = 0;
        let mut i: usize = 0;
        while i < rows.len()
            invariant
                i <= rows@.len(),
                count == count_bottomwell_rows(rows_view(rows@).take(i as int)),
                count <= i,
            decreases rows@.len() - i,
        {
            let row = &rows[i];
            let mut found = false;
            let mut x: usize = 0;
            while x < row.len()
                invariant
                    x <= row@.len(),
                    found == exists|k: int| 0 <= k < x && is_bottomwell_cell(#[trigger] row@[k]),
                decreases row@.len() - x,
            {
                if Self::is_bottomwell_cell(row[x]) {
                    found = true;
                }
                x += 1;
            }
            proof {
                lemma_count_bottomwell_bound(rows_view(rows@).take(i as int));
                assert(rows_view(rows@).take(i + 1).drop_last() =~= rows_view(rows@).take(i as int));
                assert(rows_view(rows@).take(i + 1).last() == row@);
            }
            if found {
                count += 1;
            }
            i += 1;
        }
        assert(rows_view(rows@).take(rows@.len() as int) =~= rows_view(rows@));
        count
    }

    pub(crate) fn is_bottomwell_cell(cell: u8) -> (r: bool)
        ensures
            r == is_bottomwell_cell(cell),
    {
        cell == CELL_DIRT || cell == CELL_GARBAGE || cell == CELL_STONE || cell == CELL_ORE
            || cell == CELL_COIN || cell == CELL_GRASS
    }
}


// ---- Laws of revealing earth ---------------------------------------------------------------

/// No wall can become active while the next `n` rows are revealed: progress is not paused, no
/// wall is active, and every wall triggers deeper than that or is broken.
pub open spec fn no_wall_due(m: CoreModel, n: nat) -> bool {
    &&& !m.depth_progress_paused
    &&& m.active_wall_id is None
    &&& forall|i: int| 0 <= i < m.depth_walls.len() ==> (#[trigger] m.depth_walls[i]).depth_trigger > m.earth_depth + n
        || m.broken_walls.contains(m.depth_walls[i].id)
}

proof fn lemma_no_pending_wall(m: CoreModel, depth: u64, i: int)
    requires
        forall|j: int| 0 <= j < m.depth_walls.len() ==> (#[trigger] m.depth_walls[j]).depth_trigger > depth
            || m.broken_walls.contains(m.depth_walls[j].id),
    ensures
        spec_pending_wall_from(m, depth, i) is None,
    decreases m.depth_walls.len() - i,
{
    if 0 <= i < m.depth_walls.len() {
        lemma_no_pending_wall(m, depth, i + 1);
    }
}

/// With no wall due, revealing `n` rows reveals exactly `n`: the depth grows by `n` and the
/// board keeps its height.
pub proof fn lemma_reveal_counts(m: CoreModel, n: nat)
    requires
        no_wall_due(m, n),
        m.earth_depth + n <= u64::MAX,
        m.board.len() == spec_effective_height(m),
        m.owners.len() == m.board.len(),
    ensures
        spec_reveal(m, n).1 == n,
        spec_reveal(m, n).0.earth_depth == m.earth_depth + n,
        spec_reveal(m, n).0.board.len() == m.board.len(),
    decreases n,
{
    if n > 0 {
        lemma_no_pending_wall(m, (m.earth_depth + 1) as u64, 0);
        assert(!spec_activates_wall(m));
        let m1 = spec_reveal_one(m);
        assert forall|i: int| 0 <= i < m1.depth_walls.len() implies (#[trigger] m1.depth_walls[i]).depth_trigger
            > m1.earth_depth + (n - 1) || m1.broken_walls.contains(m1.depth_walls[i].id) by {
            assert(m1.depth_walls[i] == m.depth_walls[i]);
        }
        assert(m1.board.len() == m.board.len());
        lemma_reveal_counts(m1, (n - 1) as nat);
    }
}

} // verus!
