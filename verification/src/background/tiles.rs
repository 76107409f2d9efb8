//! The rectangles that make up a background tile's motif, before they are drawn.
use vstd::prelude::*;

use crate::background::{
    biome_for_world_depth_at_near_col, spec_biome_at_near_col, spec_kind_for_roll, spec_layer_index,
    spec_surface_boundary, spec_tile_hash, spec_world_depth_for_row, surface_boundary_depth_for_near_col,
    tile_hash, world_depth_for_tile_row, BackgroundBiome, BackgroundLayerId, BackgroundLayerSpec,
    BackgroundPalette, BackgroundTileKind,
};
use crate::headful::skilltree_camera::Rect;

verus! {

/// A rectangle to fill with `color` at opacity `alpha` (255 fills, less blends).
#[derive(Debug, Clone, Copy, PartialEq, Eq)]
pub struct TileDraw {
    pub rect: Rect,
    pub color: [u8; 4],
    pub alpha: u8,
}

pub open spec fn umin(a: int, b: int) -> int {
    if a < b { a } else { b }
}

pub open spec fn umax(a: int, b: int) -> int {
    if a > b { a } else { b }
}

pub open spec fn sub0(a: int, b: int) -> int {
    if a < b { 0 } else { a - b }
}

pub open spec fn draw(x: int, y: int, w: int, h: int, color: [u8; 4], alpha: u8) -> TileDraw {
    TileDraw { rect: Rect { x: x as u32, y: y as u32, w: w as u32, h: h as u32 }, color, alpha }
}

/// The motif of a tile of kind `kind` drawn in `rect` (nothing for an empty rectangle), with
/// `dot` a sixth of the shorter side (at least 1):
/// - Cloud: a puff two thirds as wide as the tile (at least 2, at most the tile) and a sixth
///   as tall, a third of the way down, centred, in the first accent; below it (when the tile
///   is taller than a puff and a pixel) a puff two thirds as wide in the second accent; both
///   at 160/255 of `alpha`, at least 20.
/// - DirtA, RockA: a square of side `2 * dot` centred on the tile, first accent.
/// - DirtB, RockB: two `dot` squares, one with its corner at a third of the tile, one ending
///   at two thirds, second accent.
/// - Vein: a full-height strip a fifth as wide (at least 1), centred, vein colour.
/// - Crack: a full-width band `crack_w` (a sixth of the width, at least 1) tall at the middle
///   row, and (when the tile is taller than the band and a pixel) a half-width band starting
///   a third across and a third down, crack colour.
/// - Fossil: the frame of a box half the tile's size (at least 2, at most the tile),
///   centred: top, bottom, left and right sides, fossil colour.
/// Every rectangle but the clouds' has opacity `alpha`.
pub open spec fn spec_motif_rects(rect: Rect, kind: BackgroundTileKind, palette: BackgroundPalette, alpha: u8) -> Seq<TileDraw> {
    let (x, y, w, h) = (rect.x as int, rect.y as int, rect.w as int, rect.h as int);
    if w == 0 || h == 0 {
        Seq::empty()
    } else {
        let cx = x + w / 2;
        let cy = y + h / 2;
        let dot = umax(umin(w, h) / 6, 1);
        match kind {
            BackgroundTileKind::Empty => Seq::empty(),
            BackgroundTileKind::Cloud => {
                let ca = umax(alpha * 160 / 255, 20) as u8;
                let span_w = umin(umax(umin(w * 2, u32::MAX as int) / 3, 2), w);
                let puff_h = umax(h / 6, 1);
                let x0 = x + sub0(w, span_w) / 2;
                let y0 = y + h / 3;
                let first = seq![draw(x0, y0, span_w, puff_h, palette.accent_a, ca)];
                if h > puff_h + 1 {
                    let y1 = umin(y0 + umin(puff_h + 1, u32::MAX as int), u32::MAX as int);
                    let inner_w = umax(umin(span_w * 2, u32::MAX as int) / 3, 1);
                    let x1 = x0 + sub0(span_w, inner_w) / 2;
                    first.push(draw(x1, y1, inner_w, puff_h, palette.accent_b, ca))
                } else {
                    first
                }
            },
            BackgroundTileKind::DirtA | BackgroundTileKind::RockA => seq![
                draw(sub0(cx, dot), sub0(cy, dot), dot * 2, dot * 2, palette.accent_a, alpha),
            ],
            BackgroundTileKind::DirtB | BackgroundTileKind::RockB => {
                let x1 = x + (w * 2) / 3;
                let y1 = y + (h * 2) / 3;
                seq![
                    draw(x + w / 3, y + h / 3, dot, dot, palette.accent_b, alpha),
                    draw(sub0(x1, dot), sub0(y1, dot), dot, dot, palette.accent_b, alpha),
                ]
            },
            BackgroundTileKind::Vein => {
                let vw = umax(w / 5, 1);
                seq![draw(x + w / 2 - vw / 2, y, vw, h, palette.vein, alpha)]
            },
            BackgroundTileKind::Crack => {
                let cw = umax(w / 6, 1);
                let band = seq![draw(x, cy, w, cw, palette.crack, alpha)];
                if h > cw + 1 {
                    band.push(draw(x + w / 3, y + h / 3, w / 2, cw, palette.crack, alpha))
                } else {
                    band
                }
            },
            BackgroundTileKind::Fossil => {
                let fw = umin(umax(w / 2, 2), w);
                let fh = umin(umax(h / 2, 2), h);
                let fx = x + sub0(w, fw) / 2;
                let fy = y + sub0(h, fh) / 2;
                seq![
                    draw(fx, fy, fw, 1, palette.fossil, alpha),
                    draw(fx, fy + sub0(fh, 1), fw, 1, palette.fossil, alpha),
                    draw(fx, fy, 1, fh, palette.fossil, alpha),
                    draw(fx + sub0(fw, 1), fy, 1, fh, palette.fossil, alpha),
                ]
            },
        }
    }
}

fn td(x: u32, y: u32, w: u32, h: u32, color: [u8; 4], alpha: u8) -> (r: TileDraw)
    ensures
        r == draw(x as int, y as int, w as int, h as int, color, alpha),
{
    TileDraw { rect: Rect::new(x, y, w, h), color, alpha }
}

fn sat_mul2(a: u32) -> (r: u32)
    ensures
        r == umin(a * 2, u32::MAX as int),
{
    if a > u32::MAX / 2 { u32::MAX } else { a * 2 }
}

fn min_u32(a: u32, b: u32) -> (r: u32)
    ensures
        r == umin(a as int, b as int),
{
    if a < b { a } else { b }
}

fn max_u32(a: u32, b: u32) -> (r: u32)
    ensures
        r == umax(a as int, b as int),
{
    if a > b { a } else { b }
}

/// The rectangles of a tile's motif; see `spec_motif_rects`.
pub fn tile_motif_rects(rect: Rect, kind: BackgroundTileKind, palette: BackgroundPalette, alpha: u8) -> (r: Vec<TileDraw>)
    requires
        rect.x + rect.w <= u32::MAX,
        rect.y + rect.h <= u32::MAX,
        (kind == BackgroundTileKind::DirtB || kind == BackgroundTileKind::RockB) ==> rect.w * 2 <= u32::MAX
            && rect.h * 2 <= u32::MAX,
    ensures
        r@ == spec_motif_rects(rect, kind, palette, alpha),
{
    let mut out: Vec<TileDraw> = Vec::new();
    if rect.w == 0 || rect.h == 0 {
        assert(out@ =~= spec_motif_rects(rect, kind, palette, alpha));
        return out;
    }
    let cx = rect.x + rect.w / 2;
    let cy = rect.y + rect.h / 2;
    let dot = max_u32(min_u32(rect.w, rect.h) / 6, 1);
    match kind {
        BackgroundTileKind::Empty => {},
        BackgroundTileKind::Cloud => {
            let ca = max_u32((alpha as u32) * 160 / 255, 20) as u8;
            let span_w = min_u32(max_u32(sat_mul2(rect.w) / 3, 2), rect.w);
            let puff_h = max_u32(rect.h / 6, 1);
            let x0 = rect.x + rect.w.saturating_sub(span_w) / 2;
            let y0 = rect.y + rect.h / 3;
            out.push(td(x0, y0, span_w, puff_h, palette.accent_a, ca));
            if rect.h > puff_h + 1 {
                let y1 = y0.saturating_add(puff_h.saturating_add(1));
                let inner_w = max_u32(sat_mul2(span_w) / 3, 1);
                let x1 = x0 + span_w.saturating_sub(inner_w) / 2;
                out.push(td(x1, y1, inner_w, puff_h, palette.accent_b, ca));
            }
        },
        BackgroundTileKind::DirtA | BackgroundTileKind::RockA => {
            out.push(td(cx.saturating_sub(dot), cy.saturating_sub(dot), dot * 2, dot * 2, palette.accent_a, alpha));
        },
        BackgroundTileKind::DirtB | BackgroundTileKind::RockB => {
            let x0 = rect.x + rect.w / 3;
            let y0 = rect.y + rect.h / 3;
            let x1 = rect.x + (rect.w * 2) / 3;
            let y1 = rect.y + (rect.h * 2) / 3;
            out.push(td(x0, y0, dot, dot, palette.accent_b, alpha));
            out.push(td(x1.saturating_sub(dot), y1.saturating_sub(dot), dot, dot, palette.accent_b, alpha));
        },
        BackgroundTileKind::Vein => {
            let vein_w = max_u32(rect.w / 5, 1);
            let vein_x = rect.x + rect.w / 2 - vein_w / 2;
            out.push(td(vein_x, rect.y, vein_w, rect.h, palette.vein, alpha));
        },
        BackgroundTileKind::Crack => {
            let crack_w = max_u32(rect.w / 6, 1);
            out.push(td(rect.x, cy, rect.w, crack_w, palette.crack, alpha));
            if rect.h > crack_w + 1 {
                let diag_y = rect.y + rect.h / 3;
                out.push(td(rect.x + rect.w / 3, diag_y, rect.w / 2, crack_w, palette.crack, alpha));
            }
        },
        BackgroundTileKind::Fossil => {
            let fw = min_u32(max_u32(rect.w / 2, 2), rect.w);
            let fh = min_u32(max_u32(rect.h / 2, 2), rect.h);
            let fx = rect.x + rect.w.saturating_sub(fw) / 2;
            let fy = rect.y + rect.h.saturating_sub(fh) / 2;
            out.push(td(fx, fy, fw, 1, palette.fossil, alpha));
            out.push(td(fx, fy + fh.saturating_sub(1), fw, 1, palette.fossil, alpha));
            out.push(td(fx, fy, 1, fh, palette.fossil, alpha));
            out.push(td(fx + fw.saturating_sub(1), fy, 1, fh, palette.fossil, alpha));
        },
    }
    assert(out@ =~= spec_motif_rects(rect, kind, palette, alpha));
    out
}

// ---- Tiles of one layer ------------------------------------------------------------------------

/// What the client reads from its settings for drawing the layers: the size of a board cell
/// in pixels, the layer's parallax divisor after the client's multiplier, a biome forced on
/// every tile, and whether the old underground start (no overworld) is on.
#[derive(Debug, Clone, Copy, PartialEq, Eq)]
pub struct TileLayerSettings {
    pub cell_size: u32,
    pub depth_divisor: u32,
    pub forced_biome: Option<BackgroundBiome>,
    pub legacy_underground_start: bool,
}

/// One tile of a layer, before clipping to the viewport: its column span, the top of its
/// row (which may lie outside the viewport) and its height; the world depth and column it
/// shows, its hash and biome; its motif when the layer has motifs; and whether it carries the
/// grass line between the overworld and the dirt.
#[derive(Debug, Clone, Copy, PartialEq, Eq)]
pub struct TilePlan {
    pub x: u32,
    pub y: i32,
    pub w: u32,
    pub h: u32,
    pub world_depth: u32,
    pub col: u32,
    pub hash: u32,
    pub biome: BackgroundBiome,
    pub motif: Option<BackgroundTileKind>,
    pub grassline: bool,
}

pub open spec fn clamp_i32(v: int) -> int {
    if v < i32::MIN { i32::MIN as int } else if v > i32::MAX { i32::MAX as int } else { v }
}

pub open spec fn sat_u32(v: int) -> int {
    if v > u32::MAX { u32::MAX as int } else { v }
}

/// The layer's tile size in pixels: its cells times the cell size (saturating), at least 1.
pub open spec fn tile_px(layer: BackgroundLayerSpec, env: TileLayerSettings) -> int {
    umax(sat_u32(layer.tile_cells * env.cell_size), 1)
}

/// The first and last tile rows drawn: one beyond the rows that show in the viewport on
/// either side (Euclidean division, clamped to `i32`).
pub open spec fn row_range(viewport: Rect, tp: int, off: i32) -> (int, int) {
    let tpi = umin(tp, i32::MAX as int);
    let vhi = umin(viewport.h as int, i32::MAX as int);
    let first = (-off - tpi) / tpi + 1;
    let last = (vhi - off - 1) / tpi;
    (clamp_i32(first - 1), clamp_i32(last + 1))
}

/// The tile in row `row`, column `col` (none when it starts at or past the viewport's
/// right edge).
pub open spec fn spec_tile(
    viewport: Rect,
    layer: BackgroundLayerSpec,
    seed: u64,
    depth_rows: u32,
    off: i32,
    env: TileLayerSettings,
    row: int,
    col: int,
) -> Option<TilePlan> {
    let tp = tile_px(layer, env);
    let tpi = umin(tp, i32::MAX as int);
    let vmax = sat_u32(viewport.x + viewport.w);
    let x = sat_u32(viewport.x + sat_u32(col * tp));
    if x >= vmax {
        None
    } else {
        let w = umin(vmax - x, tp);
        let layer_offset = (depth_rows as int / umax(env.depth_divisor as int, 1)) as u32;
        let depth = spec_world_depth_for_row(layer_offset, row as i32);
        let hash = spec_tile_hash(seed, depth, col as u32, spec_layer_index(layer.layer_id));
        let near_col = (sat_u32(sub0(x, viewport.x as int) + w / 2) / umax(env.cell_size as int, 1)) as u32;
        let biome = match env.forced_biome {
            Some(b) => b,
            None => spec_biome_at_near_col(depth, near_col, seed, env.legacy_underground_start),
        };
        Some(TilePlan {
            x: x as u32,
            y: clamp_i32(clamp_i32(viewport.y + off) + clamp_i32(row * tpi)) as i32,
            w: w as u32,
            h: tp as u32,
            world_depth: depth,
            col: col as u32,
            hash,
            biome,
            motif: if layer.motif_enabled { Some(spec_kind_for_roll((hash & 0xff) as int, biome)) } else { None },
            grassline: env.forced_biome is None && !env.legacy_underground_start
                && layer.layer_id == BackgroundLayerId::Near && biome == BackgroundBiome::Dirt
                && depth == spec_surface_boundary(seed, near_col),
        })
    }
}

pub open spec fn opt_seq(t: Option<TilePlan>) -> Seq<TilePlan> {
    match t {
        Some(p) => seq![p],
        None => Seq::empty(),
    }
}

/// The tiles of row `row`, columns `0..ncols`, left to right.
pub open spec fn row_tiles(
    viewport: Rect,
    layer: BackgroundLayerSpec,
    seed: u64,
    depth_rows: u32,
    off: i32,
    env: TileLayerSettings,
    row: int,
    ncols: int,
) -> Seq<TilePlan>
    decreases ncols,
{
    if ncols <= 0 {
        Seq::empty()
    } else {
        row_tiles(viewport, layer, seed, depth_rows, off, env, row, ncols - 1) + opt_seq(
            spec_tile(viewport, layer, seed, depth_rows, off, env, row, ncols - 1),
        )
    }
}

/// The tiles of the `nrows` rows from `start` down, row by row.
pub open spec fn rows_tiles(
    viewport: Rect,
    layer: BackgroundLayerSpec,
    seed: u64,
    depth_rows: u32,
    off: i32,
    env: TileLayerSettings,
    start: int,
    nrows: int,
    ncols: int,
) -> Seq<TilePlan>
    decreases nrows,
{
    if nrows <= 0 {
        Seq::empty()
    } else {
        rows_tiles(viewport, layer, seed, depth_rows, off, env, start, nrows - 1, ncols) + row_tiles(
            viewport,
            layer,
            seed,
            depth_rows,
            off,
            env,
            start + nrows - 1,
            ncols,
        )
    }
}

/// The tiles of a layer over `viewport` at gameplay depth `depth_rows`, its content shifted
/// down by `off` pixels: nothing for a viewport with no columns or no height; otherwise, for
/// every row of `row_range` from the top and every column that the viewport's width needs
/// (rounded up), the tile of `spec_tile`.
pub open spec fn spec_tile_layer(
    viewport: Rect,
    layer: BackgroundLayerSpec,
    seed: u64,
    depth_rows: u32,
    off: i32,
    env: TileLayerSettings,
) -> Seq<TilePlan> {
    let tp = tile_px(layer, env);
    let ncols = (viewport.w + tp - 1) / tp;
    if ncols == 0 || viewport.h == 0 {
        Seq::empty()
    } else {
        let (start, end) = row_range(viewport, tp, off);
        rows_tiles(viewport, layer, seed, depth_rows, off, env, start, end - start + 1, ncols)
    }
}

fn clamp_i64_to_i32(v: i64) -> (r: i32)
    ensures
        r == clamp_i32(v as int),
{
    if v < i32::MIN as i64 {
        i32::MIN
    } else if v > i32::MAX as i64 {
        i32::MAX
    } else {
        v as i32
    }
}

fn sat_u64_to_u32(v: u64) -> (r: u32)
    ensures
        r == sat_u32(v as int),
{
    if v > u32::MAX as u64 { u32::MAX } else { v as u32 }
}

fn plan_tile(
    viewport: Rect,
    layer: BackgroundLayerSpec,
    seed: u64,
    depth_rows: u32,
    off: i32,
    env: TileLayerSettings,
    row: i32,
    col: u32,
) -> (r: Option<TilePlan>)
    requires
        viewport.y <= i32::MAX,
    ensures
        r == spec_tile(viewport, layer, seed, depth_rows, off, env, row as int, col as int),
{
    let tp = max_u32(sat_u64_to_u32(mul_wide(layer.tile_cells, env.cell_size)), 1);
    let tpi = min_u32(tp, i32::MAX as u32) as i64;
    let vmax = sat_u64_to_u32(viewport.x as u64 + viewport.w as u64);
    let x = sat_u64_to_u32(viewport.x as u64 + sat_u64_to_u32(mul_wide(col, tp)) as u64);
    if x >= vmax {
        return None;
    }
    let w = min_u32(vmax - x, tp);
    let layer_offset = depth_rows / max_u32(env.depth_divisor, 1);
    let depth = world_depth_for_tile_row(layer_offset, row);
    let hash = tile_hash(seed, depth, col, layer.layer_id.index());
    let rel = if x < viewport.x { 0 } else { x - viewport.x };
    let near_col = sat_u64_to_u32(rel as u64 + (w / 2) as u64) / max_u32(env.cell_size, 1);
    let biome = match env.forced_biome {
        Some(b) => b,
        None => biome_for_world_depth_at_near_col(depth, near_col, seed, env.legacy_underground_start),
    };
    let top = clamp_i64_to_i32(viewport.y as i64 + off as i64);
    let down = clamp_i64_to_i32(mul_signed(row, tpi));
    let y = clamp_i64_to_i32(top as i64 + down as i64);
    let motif = if layer.motif_enabled { Some(BackgroundTileKind::from_hash(hash, biome)) } else { None };
    let on_surface = match env.forced_biome {
        Some(_) => false,
        None => !env.legacy_underground_start && layer.layer_id == BackgroundLayerId::Near
            && biome == BackgroundBiome::Dirt && depth == surface_boundary_depth_for_near_col(seed, near_col),
    };
    Some(TilePlan { x, y, w, h: tp, world_depth: depth, col, hash, biome, motif, grassline: on_surface })
}

/// The tiles of one background layer; see `spec_tile_layer`. The client clips each tile to
/// the viewport, skips those left empty, fills the rest with the biome's base colour and
/// draws the motif and grass line of each on top.
pub fn tile_layer_tiles(
    viewport: Rect,
    layer: BackgroundLayerSpec,
    seed: u64,
    depth_rows: u32,
    content_offset_y_px: i32,
    env: TileLayerSettings,
) -> (r: Vec<TilePlan>)
    requires
        viewport.y <= i32::MAX,
        -(i32::MAX as int) <= content_offset_y_px,
        content_offset_y_px + umin(tile_px(layer, env), i32::MAX as int) <= i32::MAX + 1,
        umin(viewport.h as int, i32::MAX as int) - content_offset_y_px - 1 <= i32::MAX,
    ensures
        r@ == spec_tile_layer(viewport, layer, seed, depth_rows, content_offset_y_px, env),
{
    let off = content_offset_y_px;
    let tp = max_u32(sat_u64_to_u32(mul_wide(layer.tile_cells, env.cell_size)), 1);
    let ncols_wide: u64 = (viewport.w as u64 + tp as u64 - 1) / tp as u64;
    let mut out: Vec<TilePlan> = Vec::new();
    if ncols_wide == 0 || viewport.h == 0 {
        assert(out@ =~= spec_tile_layer(viewport, layer, seed, depth_rows, off, env));
        return out;
    }
    assert(ncols_wide <= u32::MAX) by (nonlinear_arith)
        requires
            ncols_wide as int == (viewport.w + tp - 1) as int / tp as int,
            tp >= 1,
            viewport.w <= u32::MAX,
    ;
    let ncols = ncols_wide as u32;
    let tpi = min_u32(tp, i32::MAX as u32) as i64;
    let vhi = min_u32(viewport.h, i32::MAX as u32) as i64;
    let a = -(off as i64) - tpi;
    let first = floor_div(a, tpi) + 1;
    let last = floor_div(vhi - off as i64 - 1, tpi);
    proof {
        vstd::arithmetic::div_mod::lemma_div_is_ordered(a as int + tpi as int, vhi as int - off as int - 1, tpi as int);
        vstd::arithmetic::div_mod::lemma_div_plus_one(a as int, tpi as int);
    }
    let start = clamp_i64_to_i32(first - 1) as i64;
    let end = clamp_i64_to_i32(last + 1) as i64;
    let ghost nrows: int = end - start + 1;
    let mut row: i64 = start;
    while row <= end
        invariant
            viewport.y <= i32::MAX,
            i32::MIN <= start <= row,
            row <= end + 1,
            end <= i32::MAX,
            ncols as int == (viewport.w + tile_px(layer, env) - 1) / tile_px(layer, env),
            out@ == rows_tiles(viewport, layer, seed, depth_rows, off, env, start as int, row - start, ncols as int),
        decreases end + 1 - row,
    {
        let ghost before = out@;
        let mut col: u32 = 0;
        while col < ncols
            invariant
                viewport.y <= i32::MAX,
                i32::MIN <= row <= i32::MAX,
                col <= ncols,
                out@ == before + row_tiles(viewport, layer, seed, depth_rows, off, env, row as int, col as int),
            decreases ncols - col,
        {
            let t = plan_tile(viewport, layer, seed, depth_rows, off, env, row as i32, col);
            match t {
                Some(p) => out.push(p),
                None => {},
            }
            assert(out@ =~= before + row_tiles(viewport, layer, seed, depth_rows, off, env, row as int, col + 1));
            col = col + 1;
        }
        assert(start as int + (row + 1 - start) - 1 == row);
        assert(out@ =~= rows_tiles(viewport, layer, seed, depth_rows, off, env, start as int, row + 1 - start, ncols as int));
        row = row + 1;
    }
    proof {
        assert(row == end + 1 || end < start);
    }
    out
}

fn mul_wide(a: u32, b: u32) -> (r: u64)
    ensures
        r == a * b,
{
    assert(a as int * b as int <= u64::MAX) by (nonlinear_arith)
        requires
            a <= u32::MAX,
            b <= u32::MAX,
    ;
    a as u64 * b as u64
}

fn mul_signed(a: i32, b: i64) -> (r: i64)
    requires
        0 < b <= i32::MAX,
    ensures
        r == a * b,
{
    assert(i64::MIN <= a as int * b as int <= i64::MAX) by (nonlinear_arith)
        requires
            i32::MIN <= a <= i32::MAX,
            0 < b <= i32::MAX,
    ;
    a as i64 * b
}

/// `a` divided by a positive `d`, rounded towards minus infinity.
fn floor_div(a: i64, d: i64) -> (r: i64)
    requires
        0 < d <= i32::MAX,
        -4 * (i32::MAX as int) <= a <= 4 * (i32::MAX as int),
    ensures
        r == a as int / d as int,
        -4 * (i32::MAX as int) <= r <= 4 * (i32::MAX as int),
{
    assert(-4 * (i32::MAX as int) <= a as int / d as int <= 4 * (i32::MAX as int)) by (nonlinear_arith)
        requires
            0 < d,
            -4 * (i32::MAX as int) <= a <= 4 * (i32::MAX as int),
    ;
    if a >= 0 {
        a / d
    } else {
        let q = (-a + d - 1) / d;
        proof {
            let na: int = -a;
            assert((na + d as int - 1) / (d as int) == -((a as int) / (d as int))) by (nonlinear_arith)
                requires
                    na == -a,
                    na > 0,
                    d > 0,
            ;
        }
        -q
    }
}

} // verus!
