//! The tile background behind the board: biome bands by depth, a deterministic per-tile
//! hash, the tile motif chosen from that hash, and the parallax layers.
use vstd::prelude::*;
pub mod tiles;

verus! {

/// Background biome bands.
#[derive(Debug, Clone, Copy, PartialEq, Eq, Structural)]
pub enum BackgroundBiome {
    Overworld,
    Dirt,
    Stone,
}

/// Near-layer rows shown by the default board viewport (20 core rows and 3 bottomwell rows).
pub const START_VIEW_NEAR_ROWS: u32 = 23;

/// Earth rows visible at run start.
pub const START_DIRT_ROWS: u32 = 3;

/// Depth at which Dirt begins below the Overworld.
pub const SURFACE_DEPTH_START: u32 = START_VIEW_NEAR_ROWS - START_DIRT_ROWS;

/// Depth at which Stone begins below the Dirt.
pub const STONE_DEPTH_START: u32 = 50;

/// Width, in near-layer columns, of each step of the surface separator.
pub const SURFACE_JAGGED_SEGMENT_COLS: u32 = 2;

/// Largest upward raise of the Dirt boundary (kept at zero: the opening ground line is flat).
pub const SURFACE_JAGGED_MAX_RAISE_ROWS: u32 = 0;

/// Colours of one biome, as RGBA.
#[derive(Debug, Clone, Copy, PartialEq, Eq)]
pub struct BackgroundPalette {
    pub base: [u8; 4],
    pub accent_a: [u8; 4],
    pub accent_b: [u8; 4],
    pub vein: [u8; 4],
    pub crack: [u8; 4],
    pub fossil: [u8; 4],
}

/// The colours of each biome: a blue-grey sky for the overworld, browns for dirt, cool greys
/// for stone.
pub open spec fn spec_palette(biome: BackgroundBiome) -> BackgroundPalette {
    match biome {
        BackgroundBiome::Overworld => BackgroundPalette {
            base: [90, 112, 144, 255],
            accent_a: [104, 128, 162, 255],
            accent_b: [118, 142, 176, 255],
            vein: [136, 160, 194, 255],
            crack: [74, 94, 124, 255],
            fossil: [154, 178, 208, 255],
        },
        BackgroundBiome::Dirt => BackgroundPalette {
            base: [26, 18, 12, 255],
            accent_a: [40, 29, 18, 255],
            accent_b: [56, 40, 22, 255],
            vein: [76, 55, 30, 255],
            crack: [14, 10, 8, 255],
            fossil: [94, 76, 58, 255],
        },
        BackgroundBiome::Stone => BackgroundPalette {
            base: [18, 20, 28, 255],
            accent_a: [32, 35, 44, 255],
            accent_b: [46, 52, 66, 255],
            vein: [78, 88, 106, 255],
            crack: [10, 12, 18, 255],
            fossil: [102, 112, 128, 255],
        },
    }
}

/// The palette of each biome; see `spec_palette`.
pub fn palette_for_biome(biome: BackgroundBiome) -> (r: BackgroundPalette)
    ensures
        r == spec_palette(biome),
{
    match biome {
        BackgroundBiome::Overworld => BackgroundPalette {
            base: [90, 112, 144, 255],
            accent_a: [104, 128, 162, 255],
            accent_b: [118, 142, 176, 255],
            vein: [136, 160, 194, 255],
            crack: [74, 94, 124, 255],
            fossil: [154, 178, 208, 255],
        },
        BackgroundBiome::Dirt => BackgroundPalette {
            base: [26, 18, 12, 255],
            accent_a: [40, 29, 18, 255],
            accent_b: [56, 40, 22, 255],
            vein: [76, 55, 30, 255],
            crack: [14, 10, 8, 255],
            fossil: [94, 76, 58, 255],
        },
        BackgroundBiome::Stone => BackgroundPalette {
            base: [18, 20, 28, 255],
            accent_a: [32, 35, 44, 255],
            accent_b: [46, 52, 66, 255],
            vein: [78, 88, 106, 255],
            crack: [10, 12, 18, 255],
            fossil: [102, 112, 128, 255],
        },
    }
}

pub open spec fn spec_biome(depth: u32, surface_depth_start: u32) -> BackgroundBiome {
    if depth < surface_depth_start {
        BackgroundBiome::Overworld
    } else if depth < STONE_DEPTH_START {
        BackgroundBiome::Dirt
    } else {
        BackgroundBiome::Stone
    }
}

/// The biome at a depth row, with the default Overworld/Dirt threshold.
pub fn biome_at_depth(depth: u32) -> (r: BackgroundBiome)
    ensures
        r == spec_biome(depth, SURFACE_DEPTH_START),
{
    biome_at_depth_with_surface(depth, SURFACE_DEPTH_START)
}

/// The biome at a depth row, with the given Overworld/Dirt threshold.
pub fn biome_at_depth_with_surface(depth: u32, surface_depth_start: u32) -> (r: BackgroundBiome)
    ensures
        r == spec_biome(depth, surface_depth_start),
{
    if depth < surface_depth_start {
        BackgroundBiome::Overworld
    } else if depth < STONE_DEPTH_START {
        BackgroundBiome::Dirt
    } else {
        BackgroundBiome::Stone
    }
}

// ---- Tile hash -------------------------------------------------------------------------------

pub const FNV_OFFSET: u64 = 0xcbf2_9ce4_8422_2325;

pub const FNV_PRIME: u64 = 0x0100_0000_01b3;

/// Byte `k` (0 = least significant) of `word`.
pub open spec fn spec_byte(word: u32, k: int) -> u8 {
    ((word >> (8 * k) as u32) & 0xff) as u8
}

/// The bytes hashed for a tile: depth, column and layer, each little-endian.
pub open spec fn spec_tile_bytes(depth: u32, col: u32, layer: u32) -> Seq<u8> {
    seq![
        spec_byte(depth, 0),
        spec_byte(depth, 1),
        spec_byte(depth, 2),
        spec_byte(depth, 3),
        spec_byte(col, 0),
        spec_byte(col, 1),
        spec_byte(col, 2),
        spec_byte(col, 3),
        spec_byte(layer, 0),
        spec_byte(layer, 1),
        spec_byte(layer, 2),
        spec_byte(layer, 3),
    ]
}

/// FNV-1a over the first `n` bytes, from the state `h`.
pub open spec fn spec_fnv(h: u64, bytes: Seq<u8>, n: int) -> u64
    decreases n,
{
    if n <= 0 {
        h
    } else {
        (spec_fnv(h, bytes, n - 1) ^ (bytes[n - 1] as u64)).wrapping_mul(FNV_PRIME)
    }
}

/// The tile hash: FNV-1a, started from the offset basis mixed with the seed, over the tile
/// bytes, folded from 64 to 32 bits.
pub open spec fn spec_tile_hash(seed: u64, depth: u32, col: u32, layer: u32) -> u32 {
    let h = spec_fnv(FNV_OFFSET ^ seed, spec_tile_bytes(depth, col, layer), 12);
    ((h >> 32u64) ^ h) as u32
}

/// Mixes the 4 little-endian bytes of `word` into `h`.
fn fnv_word(h: u64, word: u32, Ghost(bytes): Ghost<Seq<u8>>, Ghost(base): Ghost<int>, Ghost(h0): Ghost<u64>) -> (r: u64)
    requires
        0 <= base,
        base + 4 <= bytes.len(),
        h == spec_fnv(h0, bytes, base),
        forall|k: int| 0 <= k < 4 ==> bytes[base + k] == spec_byte(word, k),
    ensures
        r == spec_fnv(h0, bytes, base + 4),
{
    let mut h = h;
    let mut k: u32 = 0;
    while k < 4
        invariant
            0 <= base,
            base + 4 <= bytes.len(),
            k <= 4,
            h == spec_fnv(h0, bytes, base + k),
            forall|j: int| 0 <= j < 4 ==> bytes[base + j] == spec_byte(word, j),
        decreases 4 - k,
    {
        let b = ((word >> (8 * k)) & 0xff) as u8;
        assert(b == spec_byte(word, k as int));
        h = (h ^ (b as u64)).wrapping_mul(FNV_PRIME);
        k += 1;
    }
    h
}

/// Deterministic hash of a background tile: the same seed, depth, column and layer always
/// give the same value.
pub fn tile_hash(seed: u64, depth: u32, col: u32, layer: u32) -> (r: u32)
    ensures
        r == spec_tile_hash(seed, depth, col, layer),
{
    let ghost bytes = spec_tile_bytes(depth, col, layer);
    let h = FNV_OFFSET ^ seed;
    let h = fnv_word(h, depth, Ghost(bytes), Ghost(0), Ghost(FNV_OFFSET ^ seed));
    let h = fnv_word(h, col, Ghost(bytes), Ghost(4), Ghost(FNV_OFFSET ^ seed));
    let h = fnv_word(h, layer, Ghost(bytes), Ghost(8), Ghost(FNV_OFFSET ^ seed));
    ((h >> 32) ^ h) as u32
}


// ---- Surface separator -----------------------------------------------------------------------

pub open spec fn spec_surface_boundary(seed: u64, near_col: u32) -> u32 {
    let segment = near_col / SURFACE_JAGGED_SEGMENT_COLS;
    let hash = spec_tile_hash(seed ^ 0x9E37_79B9_7F4A_7C15u64, 0, segment, 0);
    let raise = hash % (SURFACE_JAGGED_MAX_RAISE_ROWS + 1) as u32;
    if SURFACE_DEPTH_START >= raise {
        (SURFACE_DEPTH_START - raise) as u32
    } else {
        0
    }
}

/// Depth of the first Dirt row under near-layer column `near_col`: the surface depth raised
/// by up to `SURFACE_JAGGED_MAX_RAISE_ROWS`, chosen per two-column segment by the tile hash.
pub fn surface_boundary_depth_for_near_col(seed: u64, near_col: u32) -> (r: u32)
    ensures
        r == spec_surface_boundary(seed, near_col),
        r == SURFACE_DEPTH_START,
{
    let segment = near_col / SURFACE_JAGGED_SEGMENT_COLS;
    let hash = tile_hash(seed ^ 0x9E37_79B9_7F4A_7C15u64, 0, segment, 0);
    let raise = hash % (SURFACE_JAGGED_MAX_RAISE_ROWS + 1);
    SURFACE_DEPTH_START.saturating_sub(raise)
}

pub open spec fn spec_biome_at_near_col(world_depth: u32, near_col: u32, seed: u64, legacy: bool) -> BackgroundBiome {
    let surface = if legacy { 0 } else { spec_surface_boundary(seed, near_col) };
    spec_biome(world_depth, surface)
}

/// The biome of a world depth under a near-layer column; with the legacy underground start
/// there is no Overworld.
pub fn biome_for_world_depth_at_near_col(
    world_depth: u32,
    near_col: u32,
    seed: u64,
    legacy_underground_start: bool,
) -> (r: BackgroundBiome)
    ensures
        r == spec_biome_at_near_col(world_depth, near_col, seed, legacy_underground_start),
{
    let surface_depth_start = if legacy_underground_start {
        0
    } else {
        surface_boundary_depth_for_near_col(seed, near_col)
    };
    biome_at_depth_with_surface(world_depth, surface_depth_start)
}

/// Background row offset for a gameplay depth: one background row per depth row.
pub fn depth_to_background_row_offset(depth_rows: u32) -> (r: u32)
    ensures
        r == depth_rows,
{
    depth_rows
}

pub open spec fn spec_world_depth_for_row(layer_offset: u32, row: i32) -> u32 {
    if row >= 0 {
        if layer_offset + row > u32::MAX { u32::MAX } else { (layer_offset + row) as u32 }
    } else {
        if layer_offset + row < 0 { 0 } else { (layer_offset + row) as u32 }
    }
}

/// World depth of a layer-local tile row counted down from the top (rows above the top are
/// negative); saturates at both ends.
pub fn world_depth_for_tile_row(layer_offset: u32, tile_row_from_top: i32) -> (r: u32)
    ensures
        r == spec_world_depth_for_row(layer_offset, tile_row_from_top),
{
    if tile_row_from_top >= 0 {
        layer_offset.saturating_add(tile_row_from_top as u32)
    } else {
        let up = (-(tile_row_from_top as i64)) as u32;
        layer_offset.saturating_sub(up)
    }
}

// ---- Tile kinds ------------------------------------------------------------------------------

/// Motifs drawn on background tiles.
#[derive(Debug, Clone, Copy, PartialEq, Eq, Structural)]
pub enum BackgroundTileKind {
    Empty,
    Cloud,
    DirtA,
    DirtB,
    RockA,
    RockB,
    Vein,
    Crack,
    Fossil,
}

/// The motif for a roll (the low byte of a tile hash) in each biome's weighted table.
pub open spec fn spec_kind_for_roll(roll: int, biome: BackgroundBiome) -> BackgroundTileKind {
    match biome {
        BackgroundBiome::Overworld => if 228 <= roll < 250 {
            BackgroundTileKind::Cloud
        } else {
            BackgroundTileKind::Empty
        },
        BackgroundBiome::Dirt => if roll < 160 {
            BackgroundTileKind::Empty
        } else if roll < 210 {
            BackgroundTileKind::DirtA
        } else if roll < 240 {
            BackgroundTileKind::DirtB
        } else if roll < 250 {
            BackgroundTileKind::Crack
        } else {
            BackgroundTileKind::Fossil
        },
        BackgroundBiome::Stone => if roll < 100 {
            BackgroundTileKind::Empty
        } else if roll < 160 {
            BackgroundTileKind::RockA
        } else if roll < 210 {
            BackgroundTileKind::RockB
        } else if roll < 235 {
            BackgroundTileKind::Vein
        } else if roll < 250 {
            BackgroundTileKind::Crack
        } else {
            BackgroundTileKind::Fossil
        },
    }
}

impl BackgroundTileKind {
    /// The motif chosen by the low byte of `hash` from the biome's weighted table.
    pub fn from_hash(hash: u32, biome: BackgroundBiome) -> (r: Self)
        ensures
            r == spec_kind_for_roll((hash & 0xff) as int, biome),
    {
        let roll = (hash & 0xFF) as u8;
        assert(roll as int == (hash & 0xff) as int) by (bit_vector)
            requires
                roll == ((hash & 0xFF) as u8),
        ;
        match biome {
            BackgroundBiome::Overworld => if 228 <= roll && roll < 250 {
                BackgroundTileKind::Cloud
            } else {
                BackgroundTileKind::Empty
            },
            BackgroundBiome::Dirt => if roll < 160 {
                BackgroundTileKind::Empty
            } else if roll < 210 {
                BackgroundTileKind::DirtA
            } else if roll < 240 {
                BackgroundTileKind::DirtB
            } else if roll < 250 {
                BackgroundTileKind::Crack
            } else {
                BackgroundTileKind::Fossil
            },
            BackgroundBiome::Stone => if roll < 100 {
                BackgroundTileKind::Empty
            } else if roll < 160 {
                BackgroundTileKind::RockA
            } else if roll < 210 {
                BackgroundTileKind::RockB
            } else if roll < 235 {
                BackgroundTileKind::Vein
            } else if roll < 250 {
                BackgroundTileKind::Crack
            } else {
                BackgroundTileKind::Fossil
            },
        }
    }
}

// ---- Layers ----------------------------------------------------------------------------------

/// The parallax layers, back to front.
#[derive(Debug, Clone, Copy, PartialEq, Eq, Structural)]
pub enum BackgroundLayerId {
    /// Farthest: large tiles, low alpha, slowest scroll.
    Far,
    /// Middle: medium tiles, medium alpha.
    Mid,
    /// Nearest: gameplay-scale tiles, full alpha.
    Near,
}

impl BackgroundLayerId {
    pub const ALL: [BackgroundLayerId; 3] = [
        BackgroundLayerId::Far,
        BackgroundLayerId::Mid,
        BackgroundLayerId::Near,
    ];

    /// The layer's number, also hashed into its tiles: 0, 1, 2 from back to front.
    pub fn index(self) -> (r: u32)
        ensures
            r == spec_layer_index(self),
    {
        match self {
            BackgroundLayerId::Far => 0,
            BackgroundLayerId::Mid => 1,
            BackgroundLayerId::Near => 2,
        }
    }
}

pub open spec fn spec_layer_index(id: BackgroundLayerId) -> u32 {
    match id {
        BackgroundLayerId::Far => 0,
        BackgroundLayerId::Mid => 1,
        BackgroundLayerId::Near => 2,
    }
}

/// How one layer is drawn.
#[derive(Debug, Clone, Copy, PartialEq, Eq, Structural)]
pub struct BackgroundLayerSpec {
    /// Layer id, also hashed into its tiles.
    pub layer_id: BackgroundLayerId,
    /// Tile size in board cells.
    pub tile_cells: u32,
    /// Compositing alpha (0 invisible, 255 opaque).
    pub alpha: u8,
    /// Parallax divisor: higher scrolls slower than the near layer.
    pub depth_divisor: u32,
    /// Whether motifs are drawn (otherwise only the base fill).
    pub motif_enabled: bool,
}

/// Far layer: three-cell tiles, alpha 70, a third of the scroll, no motifs.
pub fn layer_far() -> (r: BackgroundLayerSpec)
    ensures
        r == (BackgroundLayerSpec {
            layer_id: BackgroundLayerId::Far,
            tile_cells: 3,
            alpha: 70,
            depth_divisor: 3,
            motif_enabled: false,
        }),
{
    BackgroundLayerSpec {
        layer_id: BackgroundLayerId::Far,
        tile_cells: 3,
        alpha: 70,
        depth_divisor: 3,
        motif_enabled: false,
    }
}

/// Mid layer: two-cell tiles, alpha 108, half the scroll, with motifs.
pub fn layer_mid() -> (r: BackgroundLayerSpec)
    ensures
        r == (BackgroundLayerSpec {
            layer_id: BackgroundLayerId::Mid,
            tile_cells: 2,
            alpha: 108,
            depth_divisor: 2,
            motif_enabled: true,
        }),
{
    BackgroundLayerSpec {
        layer_id: BackgroundLayerId::Mid,
        tile_cells: 2,
        alpha: 108,
        depth_divisor: 2,
        motif_enabled: true,
    }
}

/// Near layer: one-cell tiles, opaque, full scroll, with motifs.
pub fn layer_near() -> (r: BackgroundLayerSpec)
    ensures
        r == (BackgroundLayerSpec {
            layer_id: BackgroundLayerId::Near,
            tile_cells: 1,
            alpha: 255,
            depth_divisor: 1,
            motif_enabled: true,
        }),
{
    BackgroundLayerSpec {
        layer_id: BackgroundLayerId::Near,
        tile_cells: 1,
        alpha: 255,
        depth_divisor: 1,
        motif_enabled: true,
    }
}

/// All layers in back-to-front drawing order.
pub fn v1_layers() -> (r: [BackgroundLayerSpec; 3])
    ensures
        r@ == seq![layer_far_spec(), layer_mid_spec(), layer_near_spec()],
{
    let r = [layer_far(), layer_mid(), layer_near()];
    assert(r@ =~= seq![layer_far_spec(), layer_mid_spec(), layer_near_spec()]);
    r
}

pub open spec fn layer_far_spec() -> BackgroundLayerSpec {
    BackgroundLayerSpec {
        layer_id: BackgroundLayerId::Far,
        tile_cells: 3,
        alpha: 70,
        depth_divisor: 3,
        motif_enabled: false,
    }
}

pub open spec fn layer_mid_spec() -> BackgroundLayerSpec {
    BackgroundLayerSpec {
        layer_id: BackgroundLayerId::Mid,
        tile_cells: 2,
        alpha: 108,
        depth_divisor: 2,
        motif_enabled: true,
    }
}

pub open spec fn layer_near_spec() -> BackgroundLayerSpec {
    BackgroundLayerSpec {
        layer_id: BackgroundLayerId::Near,
        tile_cells: 1,
        alpha: 255,
        depth_divisor: 1,
        motif_enabled: true,
    }
}

/// Layers further back scroll slower and are more transparent; only the far layer has no
/// motifs; the near layer is opaque.
pub proof fn lemma_layer_order()
    ensures
        layer_far_spec().depth_divisor > layer_mid_spec().depth_divisor > layer_near_spec().depth_divisor,
        layer_near_spec().alpha > layer_mid_spec().alpha > layer_far_spec().alpha,
        layer_near_spec().alpha == 255,
        !layer_far_spec().motif_enabled && layer_mid_spec().motif_enabled && layer_near_spec().motif_enabled,
{
}

/// At the start of a run (depth 0), the three rows above the bottom of the default viewport
/// are Dirt in every column, and the row above them is Overworld.
pub proof fn lemma_start_view_dirt_rows(seed: u64, col: u32, depth: u32)
    requires
        SURFACE_DEPTH_START <= depth < SURFACE_DEPTH_START + START_DIRT_ROWS,
    ensures
        spec_biome_at_near_col(depth, col, seed, false) == BackgroundBiome::Dirt,
        spec_biome_at_near_col((SURFACE_DEPTH_START - 1) as u32, col, seed, false) == BackgroundBiome::Overworld,
{
    assert(SURFACE_JAGGED_MAX_RAISE_ROWS + 1 == 1);
    let h = spec_tile_hash(seed ^ 0x9E37_79B9_7F4A_7C15u64, 0, col / SURFACE_JAGGED_SEGMENT_COLS, 0);
    assert(h % 1u32 == 0);
}


/// Depth order of biomes: Overworld above Dirt above Stone.
pub open spec fn biome_rank(b: BackgroundBiome) -> int {
    match b {
        BackgroundBiome::Overworld => 0,
        BackgroundBiome::Dirt => 1,
        BackgroundBiome::Stone => 2,
    }
}

/// Going deeper never leads back to a shallower biome (for a surface that starts above stone).
pub proof fn lemma_biome_monotone(d1: u32, d2: u32, surface_depth_start: u32)
    requires
        d1 <= d2,
        surface_depth_start <= STONE_DEPTH_START,
    ensures
        biome_rank(spec_biome(d1, surface_depth_start)) <= biome_rank(spec_biome(d2, surface_depth_start)),
{
}

/// Lower tile rows lie at least as deep as the rows above them.
pub proof fn lemma_world_depth_monotone(layer_offset: u32, r1: i32, r2: i32)
    requires
        r1 <= r2,
    ensures
        spec_world_depth_for_row(layer_offset, r1) <= spec_world_depth_for_row(layer_offset, r2),
{
}

} // verus!
