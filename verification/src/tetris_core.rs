//! The falling-block game core: board, active piece, hold and queue, lock delay, line
//! clears, the bottomwell of generated earth rows, and depth walls.
use vstd::prelude::*;

use crate::piece::{
    grid_at, piece_board_offset, piece_grid, piece_rotation_states, piece_type,
    spec_default_weight, spec_piece_board_offset, spec_piece_cell, spec_piece_grid,
    spec_piece_grid_size, spec_piece_type, spec_rotation_apply, spec_rotation_states,
    lemma_piece_grid_size,
};
pub use crate::piece::{Piece, PieceGrid, RotationDir, Vec2i};
use crate::rng::{spec_rng_output, spec_rng_seed, spec_xorshift, Rng};
use crate::tetris_core::materials::spec_drop;

pub mod earth;
pub mod lines;
pub mod materials;
pub mod setup;

verus! {

pub const BOARD_WIDTH: usize = 10;
pub const BOARD_HEIGHT: usize = 20;
pub const NEXT_QUEUE_LEN: usize = 5;
pub const LOCK_DELAY_MS_DEFAULT: u32 = 500;
pub const LOCK_DELAY_MAX_MS_DEFAULT: u32 = 2_000;
pub const LINE_CLEAR_DELAY_MS_DEFAULT: u32 = 180;

pub const HARD_DROP_POINTS_PER_ROW: u32 = 2;

pub type PieceId = u32;

// Bottomwell cell-type constants (active piece IDs use 1-7).
pub const CELL_EMPTY: u8 = 0;
pub const CELL_GLASS: u8 = 3;
pub const CELL_DIRT: u8 = 4;
pub const CELL_GARBAGE: u8 = 8;
pub const CELL_STONE: u8 = 9;
pub const CELL_ORE: u8 = 10;
pub const CELL_COIN: u8 = 11;
pub const CELL_GRASS: u8 = 12;
pub const CELL_MOSS: u8 = 13;
pub const CELL_MOSS_SEED: u8 = 14;
pub const CELL_SAND: u8 = 15;
pub const BASE_ORE_SCORE_VALUE: u32 = 50;
pub const BASE_COIN_SCORE_VALUE: u32 = 200;

pub const DEFAULT_BOTTOMWELL_ROWS: usize = 3;
pub const MAX_DEEP_SHAFT_ROWS: usize = 3;
pub const DEFAULT_DEPTH_WALL_DAMAGE_PER_LINE: u32 = 4;
pub const DEFAULT_DEPTH_WALL_MULTI_CLEAR_BONUS_PERCENT: u32 = 125;

/// Per-run modifiers of the bottomwell, granted by the skill tree.
#[derive(Debug, Clone, Copy, PartialEq, Eq, Structural)]
pub struct BottomwellRunMods {
    pub deep_shaft_rows: u32,
    pub ore_weight_points: u32,
    pub coin_weight_points: u32,
    pub ore_score_bonus: u32,
    pub coin_score_bonus: u32,
    pub ore_money_bonus: u32,
    pub coin_money_bonus: u32,
    pub hole_patch_chance_bp: u32,
    pub hole_align_chance_bp: u32,
}

impl Default for BottomwellRunMods {
    fn default() -> (r: Self)
        ensures
            r.deep_shaft_rows == 0 && r.ore_weight_points == 0 && r.coin_weight_points == 0
                && r.ore_score_bonus == 0 && r.coin_score_bonus == 0 && r.ore_money_bonus == 0
                && r.coin_money_bonus == 0 && r.hole_patch_chance_bp == 0
                && r.hole_align_chance_bp == 0,
    {
        BottomwellRunMods {
            deep_shaft_rows: 0,
            ore_weight_points: 0,
            coin_weight_points: 0,
            ore_score_bonus: 0,
            coin_score_bonus: 0,
            ore_money_bonus: 0,
            coin_money_bonus: 0,
            hole_patch_chance_bp: 0,
            hole_align_chance_bp: 0,
        }
    }
}

/// A wall that stops depth progress once the revealed earth reaches `depth_trigger`, until
/// enough line clears deal `hp` damage to it.
#[derive(Debug, Clone, PartialEq, Eq)]
pub struct DepthWallDef {
    pub id: String,
    pub depth_trigger: u64,
    pub hp: u32,
    pub biome_from: String,
    pub biome_to: String,
}

pub ghost struct WallView {
    pub id: Seq<char>,
    pub depth_trigger: u64,
    pub hp: u32,
    pub biome_from: Seq<char>,
    pub biome_to: Seq<char>,
}

impl View for DepthWallDef {
    type V = WallView;

    open spec fn view(&self) -> WallView {
        WallView {
            id: self.id@,
            depth_trigger: self.depth_trigger,
            hp: self.hp,
            biome_from: self.biome_from@,
            biome_to: self.biome_to@,
        }
    }
}

pub open spec fn walls_view(v: Seq<DepthWallDef>) -> Seq<WallView> {
    v.map_values(|d: DepthWallDef| d@)
}

/// Copies a wall definition field by field.
pub fn clone_wall_def(d: &DepthWallDef) -> (r: DepthWallDef)
    ensures
        r@ == d@,
{
    DepthWallDef {
        id: d.id.clone(),
        depth_trigger: d.depth_trigger,
        hp: d.hp,
        biome_from: d.biome_from.clone(),
        biome_to: d.biome_to.clone(),
    }
}

pub open spec fn spec_default_depth_wall_defs() -> Seq<WallView> {
    seq![
        WallView {
            id: "dirt_stone_wall"@,
            depth_trigger: 5,
            hp: 24,
            biome_from: "dirt"@,
            biome_to: "stone"@,
        },
    ]
}

/// The default single wall between the dirt and stone biomes, triggering at depth 5.
pub fn default_depth_wall_defs() -> (r: Vec<DepthWallDef>)
    ensures
        walls_view(r@) == spec_default_depth_wall_defs(),
{
    let r = vec![
        DepthWallDef {
            id: String::from_str("dirt_stone_wall"),
            depth_trigger: 5,
            hp: 24,
            biome_from: String::from_str("dirt"),
            biome_to: String::from_str("stone"),
        },
    ];
    assert(walls_view(r@) =~= spec_default_depth_wall_defs());
    r
}

/// A copy of the visible game state.
#[derive(Debug, Clone, PartialEq, Eq)]
pub struct TetrisSnapshot {
    pub board: Vec<Vec<u8>>,
    pub current_piece: Option<Piece>,
    pub next_piece: Option<Piece>,
    pub next_queue: Vec<Piece>,
    pub held_piece: Option<Piece>,
    pub can_hold: bool,
    pub current_piece_pos: Vec2i,
    pub current_piece_rotation: u8,
    pub lines_cleared: u32,
    pub score: u32,
    pub game_over: bool,
}

/// Outcome of one gravity step.
#[derive(Debug, Clone, Copy, PartialEq, Eq, Structural)]
pub enum GravityAdvanceResult {
    Moved,
    Grounded,
    LineClearAnimating,
    Locked,
    NoActivePiece,
}

#[derive(Debug, Clone)]
enum LineClearPhase {
    Idle,
    Delay { rows: Vec<usize>, elapsed_ms: u32, duration_ms: u32 },
}

pub ghost enum LineClearView {
    Idle,
    Delay { rows: Seq<usize>, elapsed_ms: u32, duration_ms: u32 },
}

/// The whole game core as mathematical values.
pub ghost struct CoreModel {
    pub board: Seq<Seq<u8>>,
    pub owners: Seq<Seq<Option<u32>>>,
    pub next_piece_id: u32,
    pub kinds: Map<u32, Piece>,
    pub current_piece: Option<Piece>,
    pub next_queue: Seq<Piece>,
    pub held_piece: Option<Piece>,
    pub can_hold: bool,
    pub pos: Vec2i,
    pub rotation: u8,
    pub available: Seq<Piece>,
    pub bag: Seq<Piece>,
    pub background_seed: u64,
    pub rng: u64,
    pub lines_cleared: u32,
    pub score: u32,
    pub game_over: bool,
    pub lock_delay_ms: u32,
    pub lock_delay_max_ms: u32,
    pub line_clear_delay_ms: u32,
    pub grounded_lock_ms: u32,
    pub grounded_total_lock_ms: u32,
    pub grounded_for_lock: bool,
    pub line_clear: LineClearView,
    pub last_kick: Vec2i,
    pub bottomwell_enabled: bool,
    pub bottomwell_rows: usize,
    pub earth_depth: u64,
    pub ore_collected: u32,
    pub coins_collected: u32,
    pub deep_shaft_rows: usize,
    pub ore_score_value: u32,
    pub coin_score_value: u32,
    pub ore_money_value: u32,
    pub coin_money_value: u32,
    pub ore_weight_points: u32,
    pub coin_weight_points: u32,
    pub hole_patch_chance_bp: u32,
    pub hole_align_chance_bp: u32,
    pub depth_walls: Seq<WallView>,
    pub active_wall_id: Option<Seq<char>>,
    pub active_wall_hp: u32,
    pub depth_progress_paused: bool,
    pub damage_per_line: u32,
    pub multi_bonus_percent: u32,
    pub broken_walls: Seq<Seq<char>>,
    pub glass_shatter_count: u32,
    pub progress_unsaved: bool,
}

/// The core of one game. The board is stored bottom row first; every row has
/// `BOARD_WIDTH` cells and a parallel row of the ids of the pieces that placed them.
#[derive(Debug)]
pub struct TetrisCore {
    board: Vec<Vec<u8>>,
    board_owner: Vec<Vec<Option<PieceId>>>,
    next_piece_id: PieceId,
    placed_piece_kind: std::collections::HashMap<PieceId, Piece>,
    current_piece: Option<Piece>,
    next_queue: Vec<Piece>,
    held_piece: Option<Piece>,
    can_hold: bool,
    current_piece_pos: Vec2i,
    current_piece_rotation: u8,
    available_pieces: Vec<Piece>,
    piece_bag: Vec<Piece>,
    background_seed: u64,
    rng: Rng,
    lines_cleared: u32,
    score: u32,
    game_over: bool,
    lock_delay_ms: u32,
    lock_delay_max_ms: u32,
    line_clear_delay_ms: u32,
    grounded_lock_ms: u32,
    grounded_total_lock_ms: u32,
    grounded_for_lock: bool,
    line_clear_phase: LineClearPhase,
    last_kick_offset: Vec2i,
    bottomwell_enabled: bool,
    bottomwell_rows: usize,
    earth_depth: u64,
    ore_collected: u32,
    coins_collected: u32,
    deep_shaft_rows: usize,
    ore_score_value: u32,
    coin_score_value: u32,
    ore_money_value: u32,
    coin_money_value: u32,
    ore_weight_points: u32,
    coin_weight_points: u32,
    hole_patch_chance_bp: u32,
    hole_align_chance_bp: u32,
    depth_walls: Vec<DepthWallDef>,
    active_wall_id: Option<String>,
    active_wall_hp_remaining: u32,
    depth_progress_paused: bool,
    depth_wall_damage_per_line: u32,
    depth_wall_multi_clear_bonus_percent: u32,
    broken_walls: Vec<String>,
    glass_shatter_count: u32,
    depth_wall_progress_unsaved: bool,
    depth_wall_progress_path: std::path::PathBuf,
}

#[verifier::external_type_specification]
#[verifier::external_body]
pub struct ExPathBuf(std::path::PathBuf);

pub open spec fn rows_view(b: Seq<Vec<u8>>) -> Seq<Seq<u8>> {
    b.map_values(|r: Vec<u8>| r@)
}

pub open spec fn owner_rows_view(b: Seq<Vec<Option<u32>>>) -> Seq<Seq<Option<u32>>> {
    b.map_values(|r: Vec<Option<u32>>| r@)
}

pub open spec fn strings_view(v: Seq<String>) -> Seq<Seq<char>> {
    v.map_values(|s: String| s@)
}

impl View for TetrisCore {
    type V = CoreModel;

    closed spec fn view(&self) -> CoreModel {
        CoreModel {
            board: rows_view(self.board@),
            owners: owner_rows_view(self.board_owner@),
            next_piece_id: self.next_piece_id,
            kinds: self.placed_piece_kind@,
            current_piece: self.current_piece,
            next_queue: self.next_queue@,
            held_piece: self.held_piece,
            can_hold: self.can_hold,
            pos: self.current_piece_pos,
            rotation: self.current_piece_rotation,
            available: self.available_pieces@,
            bag: self.piece_bag@,
            background_seed: self.background_seed,
            rng: self.rng.state,
            lines_cleared: self.lines_cleared,
            score: self.score,
            game_over: self.game_over,
            lock_delay_ms: self.lock_delay_ms,
            lock_delay_max_ms: self.lock_delay_max_ms,
            line_clear_delay_ms: self.line_clear_delay_ms,
            grounded_lock_ms: self.grounded_lock_ms,
            grounded_total_lock_ms: self.grounded_total_lock_ms,
            grounded_for_lock: self.grounded_for_lock,
            line_clear: match self.line_clear_phase {
                LineClearPhase::Idle => LineClearView::Idle,
                LineClearPhase::Delay { rows, elapsed_ms, duration_ms } => LineClearView::Delay {
                    rows: rows@,
                    elapsed_ms,
                    duration_ms,
                },
            },
            last_kick: self.last_kick_offset,
            bottomwell_enabled: self.bottomwell_enabled,
            bottomwell_rows: self.bottomwell_rows,
            earth_depth: self.earth_depth,
            ore_collected: self.ore_collected,
            coins_collected: self.coins_collected,
            deep_shaft_rows: self.deep_shaft_rows,
            ore_score_value: self.ore_score_value,
            coin_score_value: self.coin_score_value,
            ore_money_value: self.ore_money_value,
            coin_money_value: self.coin_money_value,
            ore_weight_points: self.ore_weight_points,
            coin_weight_points: self.coin_weight_points,
            hole_patch_chance_bp: self.hole_patch_chance_bp,
            hole_align_chance_bp: self.hole_align_chance_bp,
            depth_walls: walls_view(self.depth_walls@),
            active_wall_id: match self.active_wall_id {
                Some(s) => Some(s@),
                None => None,
            },
            active_wall_hp: self.active_wall_hp_remaining,
            depth_progress_paused: self.depth_progress_paused,
            damage_per_line: self.depth_wall_damage_per_line,
            multi_bonus_percent: self.depth_wall_multi_clear_bonus_percent,
            broken_walls: strings_view(self.broken_walls@),
            glass_shatter_count: self.glass_shatter_count,
            progress_unsaved: self.depth_wall_progress_unsaved,
        }
    }
}

// ---- Model-level definitions -------------------------------------------------------------

pub open spec fn empty_row() -> Seq<u8> {
    Seq::new(BOARD_WIDTH as nat, |i: int| 0u8)
}

pub open spec fn empty_owner_row() -> Seq<Option<u32>> {
    Seq::new(BOARD_WIDTH as nat, |i: int| None::<u32>)
}

/// Rows visible on the board: the core rows plus, with the bottomwell, its earth rows and
/// the deep-shaft rows.
pub open spec fn spec_effective_height(m: CoreModel) -> int {
    if m.bottomwell_enabled {
        BOARD_HEIGHT + m.bottomwell_rows + m.deep_shaft_rows
    } else {
        BOARD_HEIGHT as int
    }
}

/// Earth rows laid at the bottom when a game starts.
pub open spec fn spec_initial_fill_rows(m: CoreModel) -> int {
    if m.bottomwell_enabled {
        m.bottomwell_rows + m.deep_shaft_rows
    } else {
        0
    }
}

pub open spec fn pos_in_range(p: Vec2i) -> bool {
    i32::MIN + 8 <= p.x <= i32::MAX - 8 && i32::MIN + 8 <= p.y <= i32::MAX
}

pub open spec fn rows_strictly_increasing(rows: Seq<usize>) -> bool {
    forall|i: int, j: int| 0 <= i < j < rows.len() ==> rows[i] < rows[j]
}

pub open spec fn line_clear_rows_fit(lc: LineClearView, height: int) -> bool {
    match lc {
        LineClearView::Idle => true,
        LineClearView::Delay { rows, .. } => rows_strictly_increasing(rows) && forall|i: int|
            0 <= i < rows.len() ==> rows[i] < height,
    }
}

pub open spec fn board_shape_ok(board: Seq<Seq<u8>>, owners: Seq<Seq<Option<u32>>>) -> bool {
    &&& owners.len() == board.len()
    &&& forall|y: int| 0 <= y < board.len() ==> #[trigger] board[y].len() == BOARD_WIDTH
    &&& forall|y: int| 0 <= y < owners.len() ==> #[trigger] owners[y].len() == BOARD_WIDTH
}

/// Structural invariant kept by every operation.
pub open spec fn model_wf(m: CoreModel) -> bool {
    &&& m.bottomwell_rows == DEFAULT_BOTTOMWELL_ROWS
    &&& m.deep_shaft_rows <= MAX_DEEP_SHAFT_ROWS
    &&& m.board.len() == spec_effective_height(m)
    &&& board_shape_ok(m.board, m.owners)
    &&& m.rotation < 4
    &&& pos_in_range(m.pos)
    &&& line_clear_rows_fit(m.line_clear, m.board.len() as int)
    &&& spec_weight_sum(m.available) <= u32::MAX
    &&& wall_state_consistent(m)
    &&& m.broken_walls.no_duplicates()
    &&& m.next_queue.len() <= NEXT_QUEUE_LEN
}

/// A wall is active exactly while depth progress is paused, and exactly while it has hit
/// points left.
pub open spec fn wall_state_consistent(m: CoreModel) -> bool {
    &&& (m.active_wall_id is Some) == m.depth_progress_paused
    &&& m.depth_progress_paused == (m.active_wall_hp > 0)
}

/// Total spawn weight of a pool.
pub open spec fn spec_weight_sum(s: Seq<Piece>) -> int
    decreases s.len(),
{
    if s.len() == 0 {
        0
    } else {
        spec_default_weight(s[0]) + spec_weight_sum(s.drop_first())
    }
}

/// Whether `piece` in orientation `rotation` at `pos` lies inside the side and bottom walls
/// and only covers empty cells (cells above the board are free).
/// Board column of grid column `gx` of `piece` placed at `pos`.
pub open spec fn board_x(piece: Piece, pos: Vec2i, gx: int) -> int {
    pos.x + gx - spec_piece_board_offset(piece)
}

/// Board row of grid row `gy` of `piece` placed at `pos` (grid rows grow downward, board
/// rows upward).
pub open spec fn board_y(piece: Piece, pos: Vec2i, gy: int) -> int {
    pos.y - gy + spec_piece_board_offset(piece)
}

/// A board cell that a piece may occupy: inside the walls, above the floor, and empty if it
/// is on the board.
pub open spec fn cell_free(board: Seq<Seq<u8>>, bx: int, by: int) -> bool {
    &&& 0 <= bx < BOARD_WIDTH
    &&& 0 <= by
    &&& by < board.len() ==> board[by][bx] == 0
}

pub open spec fn spec_fits(board: Seq<Seq<u8>>, piece: Piece, pos: Vec2i, rotation: int) -> bool {
    forall|gx: int, gy: int|
        #[trigger] spec_piece_cell(piece, rotation, gx, gy) ==> cell_free(
            board,
            board_x(piece, pos, gx),
            board_y(piece, pos, gy),
        )
}

pub open spec fn spec_valid_position(m: CoreModel, pos: Vec2i, rotation: int) -> bool {
    match m.current_piece {
        None => false,
        Some(piece) => spec_fits(m.board, piece, pos, rotation),
    }
}

pub open spec fn clear_lock(m: CoreModel) -> CoreModel {
    CoreModel { grounded_lock_ms: 0, grounded_total_lock_ms: 0, grounded_for_lock: false, ..m }
}

pub open spec fn line_clear_active(m: CoreModel) -> bool {
    !(m.line_clear is Idle)
}

impl TetrisCore {
    pub closed spec fn wf(&self) -> bool {
        &&& model_wf(self@)
        &&& self.board@.len() == self.board_owner@.len()
    }

    /// A well-formed core has a well-formed model.
    pub proof fn lemma_wf_model(&self)
        requires
            self.wf(),
        ensures
            model_wf(self@),
    {
    }
}

// ---- Row helpers -------------------------------------------------------------------------

pub(crate) fn new_empty_row() -> (r: Vec<u8>)
    ensures
        r@ == empty_row(),
{
    let mut r: Vec<u8> = Vec::new();
    let mut i: usize = 0;
    while i < BOARD_WIDTH
        invariant
            i <= BOARD_WIDTH,
            r@.len() == i,
            forall|j: int| 0 <= j < i ==> r@[j] == 0,
        decreases BOARD_WIDTH - i,
    {
        r.push(0);
        i += 1;
    }
    assert(r@ =~= empty_row());
    r
}

pub(crate) fn new_empty_owner_row() -> (r: Vec<Option<PieceId>>)
    ensures
        r@ == empty_owner_row(),
{
    let mut r: Vec<Option<PieceId>> = Vec::new();
    let mut i: usize = 0;
    while i < BOARD_WIDTH
        invariant
            i <= BOARD_WIDTH,
            r@.len() == i,
            forall|j: int| 0 <= j < i ==> r@[j] == None::<u32>,
        decreases BOARD_WIDTH - i,
    {
        r.push(None);
        i += 1;
    }
    assert(r@ =~= empty_owner_row());
    r
}

pub(crate) fn new_empty_board(height: usize) -> (r: (Vec<Vec<u8>>, Vec<Vec<Option<PieceId>>>))
    ensures
        rows_view(r.0@) == Seq::new(height as nat, |i: int| empty_row()),
        owner_rows_view(r.1@) == Seq::new(height as nat, |i: int| empty_owner_row()),
        r.0@.len() == height,
        r.1@.len() == height,
{
    let mut b: Vec<Vec<u8>> = Vec::new();
    let mut o: Vec<Vec<Option<PieceId>>> = Vec::new();
    let mut i: usize = 0;
    while i < height
        invariant
            i <= height,
            b@.len() == i,
            o@.len() == i,
            forall|j: int| 0 <= j < i ==> (#[trigger] b@[j])@ == empty_row(),
            forall|j: int| 0 <= j < i ==> (#[trigger] o@[j])@ == empty_owner_row(),
        decreases height - i,
    {
        b.push(new_empty_row());
        o.push(new_empty_owner_row());
        i += 1;
    }
    assert(rows_view(b@) =~= Seq::new(height as nat, |i: int| empty_row()));
    assert(owner_rows_view(o@) =~= Seq::new(height as nat, |i: int| empty_owner_row()));
    (b, o)
}


pub(crate) fn sat_mul_u32(a: u32, b: u32) -> (r: u32)
    ensures
        r == if a * b > u32::MAX { u32::MAX as int } else { a * b },
{
    match a.checked_mul(b) {
        Some(v) => v,
        None => u32::MAX,
    }
}

pub(crate) fn sat_add_u32(a: u32, b: u32) -> (r: u32)
    ensures
        r == if a + b > u32::MAX { u32::MAX as int } else { a + b },
{
    a.saturating_add(b)
}

#[verifier::external_body]
fn new_path_buf() -> std::path::PathBuf {
    std::path::PathBuf::new()
}

impl TetrisCore {
    fn set_cell_raw(&mut self, x: usize, y: usize, value: u8)
        requires
            y < old(self).board@.len(),
            x < old(self).board@[y as int]@.len(),
        ensures
            final(self)@ == (CoreModel { board: old(self)@.board.update(y as int, old(self)@.board[y as int].update(x as int, value)), ..old(self)@ }),
            final(self).board@.len() == old(self).board@.len(),
            final(self).board_owner@.len() == old(self).board_owner@.len(),
    {
        self.board[y][x] = value;
        assert(rows_view(self.board@) =~= old(self)@.board.update(y as int, old(self)@.board[y as int].update(x as int, value)));
    }
}


pub open spec fn spec_resize(m: CoreModel) -> CoreModel {
    let t = spec_effective_height(m);
    let n = m.board.len() as int;
    CoreModel {
        board: if n > t {
            m.board.take(t)
        } else {
            m.board + Seq::new((t - n) as nat, |i: int| empty_row())
        },
        owners: if n > t {
            m.owners.take(t)
        } else {
            m.owners + Seq::new((t - n) as nat, |i: int| empty_owner_row())
        },
        pos: Vec2i { x: 4, y: t as i32 },
        ..m
    }
}

/// The state of a freshly created core.
pub open spec fn spec_new(seed: u64) -> CoreModel {
    CoreModel {
        board: Seq::new(BOARD_HEIGHT as nat, |i: int| empty_row()),
        owners: Seq::new(BOARD_HEIGHT as nat, |i: int| empty_owner_row()),
        next_piece_id: 1,
        kinds: Map::empty(),
        current_piece: None,
        next_queue: Seq::empty(),
        held_piece: None,
        can_hold: true,
        pos: Vec2i { x: 4, y: BOARD_HEIGHT as i32 },
        rotation: 0,
        available: seq![Piece::O],
        bag: Seq::empty(),
        background_seed: seed,
        rng: spec_rng_seed(seed),
        lines_cleared: 0,
        score: 0,
        game_over: false,
        lock_delay_ms: LOCK_DELAY_MS_DEFAULT,
        lock_delay_max_ms: LOCK_DELAY_MAX_MS_DEFAULT,
        line_clear_delay_ms: LINE_CLEAR_DELAY_MS_DEFAULT,
        grounded_lock_ms: 0,
        grounded_total_lock_ms: 0,
        grounded_for_lock: false,
        line_clear: LineClearView::Idle,
        last_kick: Vec2i { x: 0, y: 0 },
        bottomwell_enabled: false,
        bottomwell_rows: DEFAULT_BOTTOMWELL_ROWS,
        earth_depth: 0,
        ore_collected: 0,
        coins_collected: 0,
        deep_shaft_rows: 0,
        ore_score_value: BASE_ORE_SCORE_VALUE,
        coin_score_value: BASE_COIN_SCORE_VALUE,
        ore_money_value: 0,
        coin_money_value: 0,
        ore_weight_points: 0,
        coin_weight_points: 0,
        hole_patch_chance_bp: 0,
        hole_align_chance_bp: 0,
        depth_walls: spec_default_depth_wall_defs(),
        active_wall_id: None,
        active_wall_hp: 0,
        depth_progress_paused: false,
        damage_per_line: DEFAULT_DEPTH_WALL_DAMAGE_PER_LINE,
        multi_bonus_percent: DEFAULT_DEPTH_WALL_MULTI_CLEAR_BONUS_PERCENT,
        broken_walls: Seq::empty(),
        glass_shatter_count: 0,
        progress_unsaved: false,
    }
}

pub open spec fn sat_add(a: int, b: int, max: int) -> int {
    if a + b > max { max } else { a + b }
}

pub open spec fn sat_mul(a: int, b: int, max: int) -> int {
    if a * b > max { max } else { a * b }
}

pub open spec fn min_int(a: int, b: int) -> int {
    if a < b { a } else { b }
}

pub open spec fn max_int(a: int, b: int) -> int {
    if a < b { b } else { a }
}

/// The model after applying run modifiers (before the board is resized).
pub open spec fn spec_apply_run_mods(m: CoreModel, mods: BottomwellRunMods) -> CoreModel {
    CoreModel {
        deep_shaft_rows: min_int(mods.deep_shaft_rows as int, MAX_DEEP_SHAFT_ROWS as int) as usize,
        ore_weight_points: mods.ore_weight_points,
        coin_weight_points: mods.coin_weight_points,
        ore_score_value: sat_add(BASE_ORE_SCORE_VALUE as int, mods.ore_score_bonus as int, u32::MAX as int) as u32,
        coin_score_value: sat_add(BASE_COIN_SCORE_VALUE as int, mods.coin_score_bonus as int, u32::MAX as int) as u32,
        ore_money_value: mods.ore_money_bonus,
        coin_money_value: mods.coin_money_bonus,
        hole_patch_chance_bp: min_int(mods.hole_patch_chance_bp as int, 10_000) as u32,
        hole_align_chance_bp: min_int(mods.hole_align_chance_bp as int, 10_000) as u32,
        ..m
    }
}

impl TetrisCore {
    /// A new core with an empty board of `BOARD_HEIGHT` rows, the stone piece as the only
    /// available piece, default timings, the default depth wall, and the generator seeded
    /// from `seed`. No piece is active until `initialize_game`.
    pub fn new(seed: u64) -> (r: Self)
        ensures
            r@ == spec_new(seed),
            r.wf(),
    {
        let (board, board_owner) = new_empty_board(BOARD_HEIGHT);
        let r = Self {
            board,
            board_owner,
            next_piece_id: 1,
            placed_piece_kind: std::collections::HashMap::new(),
            current_piece: None,
            next_queue: Vec::new(),
            held_piece: None,
            can_hold: true,
            current_piece_pos: Vec2i::new(4, BOARD_HEIGHT as i32),
            current_piece_rotation: 0,
            available_pieces: vec![Piece::O],
            piece_bag: Vec::new(),
            background_seed: seed,
            rng: Rng::new(seed),
            lines_cleared: 0,
            score: 0,
            game_over: false,
            lock_delay_ms: LOCK_DELAY_MS_DEFAULT,
            lock_delay_max_ms: LOCK_DELAY_MAX_MS_DEFAULT,
            line_clear_delay_ms: LINE_CLEAR_DELAY_MS_DEFAULT,
            grounded_lock_ms: 0,
            grounded_total_lock_ms: 0,
            grounded_for_lock: false,
            line_clear_phase: LineClearPhase::Idle,
            last_kick_offset: Vec2i::new(0, 0),
            bottomwell_enabled: false,
            bottomwell_rows: DEFAULT_BOTTOMWELL_ROWS,
            earth_depth: 0,
            ore_collected: 0,
            coins_collected: 0,
            deep_shaft_rows: 0,
            ore_score_value: BASE_ORE_SCORE_VALUE,
            coin_score_value: BASE_COIN_SCORE_VALUE,
            ore_money_value: 0,
            coin_money_value: 0,
            ore_weight_points: 0,
            coin_weight_points: 0,
            hole_patch_chance_bp: 0,
            hole_align_chance_bp: 0,
            depth_walls: default_depth_wall_defs(),
            active_wall_id: None,
            active_wall_hp_remaining: 0,
            depth_progress_paused: false,
            depth_wall_damage_per_line: DEFAULT_DEPTH_WALL_DAMAGE_PER_LINE,
            depth_wall_multi_clear_bonus_percent: DEFAULT_DEPTH_WALL_MULTI_CLEAR_BONUS_PERCENT,
            broken_walls: Vec::new(),
            glass_shatter_count: 0,
            depth_wall_progress_unsaved: false,
            depth_wall_progress_path: new_path_buf(),
        };
        assert(r@.available =~= seq![Piece::O]);
        assert(spec_weight_sum(seq![Piece::O]) == 30) by {
            reveal_with_fuel(spec_weight_sum, 2);
            assert(seq![Piece::O].drop_first() =~= Seq::<Piece>::empty());
        }
        assert(r@.broken_walls =~= Seq::<Seq<char>>::empty());
        assert(r@ =~= spec_new(seed));
        r
    }

    pub fn set_bottomwell_enabled(&mut self, enabled: bool)
        requires
            old(self).wf(),
            line_clear_rows_fit(
                old(self)@.line_clear,
                spec_effective_height(CoreModel { bottomwell_enabled: enabled, ..old(self)@ }),
            ),
        ensures
            final(self).wf(),
            final(self)@ == spec_resize(CoreModel { bottomwell_enabled: enabled, ..old(self)@ }),
    {
        self.bottomwell_enabled = enabled;
        self.resize_board_to_effective_height();
    }

    pub fn bottomwell_enabled(&self) -> (r: bool)
        ensures
            r == self@.bottomwell_enabled,
    {
        self.bottomwell_enabled
    }

    #[verifier::spinoff_prover]
    #[verifier::rlimit(40)]
    pub fn set_bottomwell_run_mods(&mut self, mods: BottomwellRunMods)
        requires
            old(self).wf(),
            line_clear_rows_fit(
                old(self)@.line_clear,
                spec_effective_height(spec_apply_run_mods(old(self)@, mods)),
            ),
        ensures
            final(self).wf(),
            final(self)@ == spec_resize(spec_apply_run_mods(old(self)@, mods)),
    {
        self.deep_shaft_rows = if (mods.deep_shaft_rows as usize) < MAX_DEEP_SHAFT_ROWS {
            mods.deep_shaft_rows as usize
        } else {
            MAX_DEEP_SHAFT_ROWS
        };
        self.ore_weight_points = mods.ore_weight_points;
        self.coin_weight_points = mods.coin_weight_points;
        self.ore_score_value = BASE_ORE_SCORE_VALUE.saturating_add(mods.ore_score_bonus);
        self.coin_score_value = BASE_COIN_SCORE_VALUE.saturating_add(mods.coin_score_bonus);
        self.ore_money_value = mods.ore_money_bonus;
        self.coin_money_value = mods.coin_money_bonus;
        self.hole_patch_chance_bp = if mods.hole_patch_chance_bp < 10_000 {
            mods.hole_patch_chance_bp
        } else {
            10_000
        };
        self.hole_align_chance_bp = if mods.hole_align_chance_bp < 10_000 {
            mods.hole_align_chance_bp
        } else {
            10_000
        };
        self.resize_board_to_effective_height();
    }

    pub fn deep_shaft_rows(&self) -> (r: usize)
        ensures
            r == self@.deep_shaft_rows,
    {
        self.deep_shaft_rows
    }

    /// `BOARD_HEIGHT`, plus the bottomwell and deep-shaft rows when the bottomwell is on.
    pub fn effective_board_height(&self) -> (r: usize)
        requires
            self.wf(),
        ensures
            r == spec_effective_height(self@),
    {
        if self.bottomwell_enabled {
            BOARD_HEIGHT + self.bottomwell_rows + self.deep_shaft_rows
        } else {
            BOARD_HEIGHT
        }
    }

    /// Meta-currency earned from collected ore and coins:
    /// `ore * ore_money + coins * coin_money`, each step saturating at `u32::MAX`.
    pub fn refinery_money_from_collected_resources(&self) -> (r: u32)
        ensures
            r == sat_add(
                sat_mul(self@.ore_collected as int, self@.ore_money_value as int, u32::MAX as int),
                sat_mul(self@.coins_collected as int, self@.coin_money_value as int, u32::MAX as int),
                u32::MAX as int,
            ),
    {
        sat_add_u32(
            sat_mul_u32(self.ore_collected, self.ore_money_value),
            sat_mul_u32(self.coins_collected, self.coin_money_value),
        )
    }

    pub fn earth_depth(&self) -> (r: u64)
        ensures
            r == self@.earth_depth,
    {
        self.earth_depth
    }

    /// Revealed earth depth counted from the rows prefilled at game start (zero at run
    /// start), capped at `u32::MAX`.
    pub fn background_depth_rows(&self) -> (r: u32)
        requires
            self.wf(),
        ensures
            r == min_int(
                max_int(self@.earth_depth - spec_initial_fill_rows(self@), 0),
                u32::MAX as int,
            ),
    {
        let prefill_rows = self.initial_bottomwell_fill_rows() as u64;
        let d = self.earth_depth.saturating_sub(prefill_rows);
        if d < u32::MAX as u64 {
            d as u32
        } else {
            u32::MAX
        }
    }

    pub fn ore_collected(&self) -> (r: u32)
        ensures
            r == self@.ore_collected,
    {
        self.ore_collected
    }

    pub fn coins_collected(&self) -> (r: u32)
        ensures
            r == self@.coins_collected,
    {
        self.coins_collected
    }

    pub fn active_wall_id(&self) -> (r: Option<&str>)
        ensures
            match r {
                Some(s) => self@.active_wall_id == Some(s@),
                None => self@.active_wall_id is None,
            },
    {
        match &self.active_wall_id {
            Some(s) => Some(s.as_str()),
            None => None,
        }
    }

    pub fn active_wall_hp_remaining(&self) -> (r: u32)
        ensures
            r == self@.active_wall_hp,
    {
        self.active_wall_hp_remaining
    }

    pub fn depth_progress_paused(&self) -> (r: bool)
        ensures
            r == self@.depth_progress_paused,
    {
        self.depth_progress_paused
    }

    /// Wall damage per cleared line is at least 1; the multi-clear bonus is at least 100%.
    pub fn set_depth_wall_damage_tuning(&mut self, per_line_damage: u32, multi_bonus_percent: u32)
        ensures
            final(self)@ == (CoreModel {
                damage_per_line: max_int(per_line_damage as int, 1) as u32,
                multi_bonus_percent: max_int(multi_bonus_percent as int, 100) as u32,
                ..old(self)@
            }),
            old(self).wf() ==> final(self).wf(),
    {
        self.depth_wall_damage_per_line = if per_line_damage < 1 {
            1
        } else {
            per_line_damage
        };
        self.depth_wall_multi_clear_bonus_percent = if multi_bonus_percent < 100 {
            100
        } else {
            multi_bonus_percent
        };
    }

    /// The file where the application keeps the broken-wall progress of this core.
    pub closed spec fn progress_path(&self) -> std::path::PathBuf {
        self.depth_wall_progress_path
    }

    /// Where the application keeps the broken-wall progress of this core: the path is
    /// replaced, and nothing the game rules see changes.
    pub fn set_depth_wall_progress_path(&mut self, path: std::path::PathBuf)
        ensures
            final(self)@ == old(self)@,
            final(self).progress_path() == path,
            old(self).wf() ==> final(self).wf(),
    {
        self.depth_wall_progress_path = path;
    }

    /// The path of the broken-wall progress, as last set.
    pub fn depth_wall_progress_path(&self) -> (r: &std::path::PathBuf)
        ensures
            *r == self.progress_path(),
    {
        &self.depth_wall_progress_path
    }

    /// Pieces drawn from now on; an empty list means the stone piece alone. The game stays
    /// well-formed when the pool's weights sum to at most `u32::MAX`, which drawing needs.
    pub fn set_available_pieces(&mut self, pieces: Vec<Piece>)
        ensures
            final(self)@ == (CoreModel {
                available: if pieces@.len() == 0 { seq![Piece::O] } else { pieces@ },
                ..old(self)@
            }),
            old(self).wf() && spec_weight_sum(pieces@) <= u32::MAX ==> final(self).wf(),
    {
        if pieces.len() == 0 {
            self.available_pieces = vec![Piece::O];
            assert(self.available_pieces@ =~= seq![Piece::O]);
            assert(spec_weight_sum(seq![Piece::O]) == 30) by {
                reveal_with_fuel(spec_weight_sum, 2);
                assert(seq![Piece::O].drop_first() =~= Seq::<Piece>::empty());
            }
        } else {
            self.available_pieces = pieces;
        }
    }

    fn initial_bottomwell_fill_rows(&self) -> (r: usize)
        requires
            self.wf(),
        ensures
            r == spec_initial_fill_rows(self@),
            r <= 6,
    {
        if !self.bottomwell_enabled {
            return 0;
        }
        self.bottomwell_rows + self.deep_shaft_rows
    }

    fn resize_board_to_effective_height(&mut self)
        requires
            old(self).bottomwell_rows == DEFAULT_BOTTOMWELL_ROWS,
            old(self).deep_shaft_rows <= MAX_DEEP_SHAFT_ROWS,
            board_shape_ok(old(self)@.board, old(self)@.owners),
            old(self).board@.len() == old(self).board_owner@.len(),
            old(self)@.rotation < 4,
            pos_in_range(old(self)@.pos),
            spec_weight_sum(old(self)@.available) <= u32::MAX,
            line_clear_rows_fit(old(self)@.line_clear, spec_effective_height(old(self)@)),
            wall_state_consistent(old(self)@),
            old(self)@.broken_walls.no_duplicates(),
            old(self)@.next_queue.len() <= NEXT_QUEUE_LEN,
        ensures
            final(self)@ == spec_resize(old(self)@),
            final(self).wf(),
    {
        let target = if self.bottomwell_enabled {
            BOARD_HEIGHT + self.bottomwell_rows + self.deep_shaft_rows
        } else {
            BOARD_HEIGHT
        };
        let ghost m0 = self@;
        if self.board.len() > target {
            self.board.truncate(target);
            self.board_owner.truncate(target);
            assert(self@.board =~= m0.board.take(target as int));
            assert(self@.owners =~= m0.owners.take(target as int));
        } else {
            let ghost n = self.board@.len();
            while self.board.len() < target
                invariant
                    n == m0.board.len(),
                    n == m0.owners.len(),
                    self@ == (CoreModel { board: self@.board, owners: self@.owners, ..m0 }),
                    n <= self.board@.len() <= target,
                    self.board@.len() == self.board_owner@.len(),
                    rows_view(self.board@) == m0.board + Seq::new(
                        (self.board@.len() - n) as nat,
                        |i: int| empty_row(),
                    ),
                    owner_rows_view(self.board_owner@) == m0.owners + Seq::new(
                        (self.board@.len() - n) as nat,
                        |i: int| empty_owner_row(),
                    ),
                decreases target - self.board@.len(),
            {
                let ghost before_b = self.board@;
                let ghost before_o = self.board_owner@;
                let row = new_empty_row();
                let orow = new_empty_owner_row();
                self.board.push(row);
                self.board_owner.push(orow);
                assert(rows_view(self.board@) =~= rows_view(before_b).push(empty_row()));
                assert(owner_rows_view(self.board_owner@) =~= owner_rows_view(before_o).push(empty_owner_row()));
                assert(rows_view(self.board@) =~= m0.board + Seq::new(
                    (self.board@.len() - n) as nat,
                    |i: int| empty_row(),
                ));
                assert(owner_rows_view(self.board_owner@) =~= m0.owners + Seq::new(
                    (self.board@.len() - n) as nat,
                    |i: int| empty_owner_row(),
                ));
            }
        }
        self.current_piece_pos = Vec2i::new(4, self.board.len() as i32);
        assert(self@ =~= spec_resize(m0));
    }
}


impl TetrisCore {
    pub fn board(&self) -> (r: &[Vec<u8>])
        ensures
            rows_view(r@) == self@.board,
    {
        self.board.as_slice()
    }

    pub fn board_piece_ids(&self) -> (r: &[Vec<Option<PieceId>>])
        ensures
            owner_rows_view(r@) == self@.owners,
    {
        self.board_owner.as_slice()
    }

    /// The kind of a piece still (partly) on the board, by the id it was placed with.
    pub fn placed_piece_kind(&self, piece_id: PieceId) -> (r: Option<Piece>)
        ensures
            r == (if self@.kinds.contains_key(piece_id) {
                Some(self@.kinds[piece_id])
            } else {
                None
            }),
    {
        broadcast use vstd::std_specs::hash::group_hash_axioms;

        match self.placed_piece_kind.get(&piece_id) {
            Some(k) => Some(*k),
            None => None,
        }
    }

    pub fn current_piece(&self) -> (r: Option<Piece>)
        ensures
            r == self@.current_piece,
    {
        self.current_piece
    }

    /// The first piece of the queue.
    pub fn next_piece(&self) -> (r: Option<Piece>)
        ensures
            r == (if self@.next_queue.len() > 0 {
                Some(self@.next_queue[0])
            } else {
                None
            }),
    {
        if self.next_queue.len() > 0 {
            Some(self.next_queue[0])
        } else {
            None
        }
    }

    pub fn next_queue(&self) -> (r: &[Piece])
        ensures
            r@ == self@.next_queue,
    {
        self.next_queue.as_slice()
    }

    pub fn held_piece(&self) -> (r: Option<Piece>)
        ensures
            r == self@.held_piece,
    {
        self.held_piece
    }

    pub fn can_hold(&self) -> (r: bool)
        ensures
            r == self@.can_hold,
    {
        self.can_hold
    }

    pub fn current_piece_pos(&self) -> (r: Vec2i)
        ensures
            r == self@.pos,
    {
        self.current_piece_pos
    }

    pub fn current_piece_rotation(&self) -> (r: u8)
        ensures
            r == self@.rotation,
    {
        self.current_piece_rotation
    }

    pub fn lines_cleared(&self) -> (r: u32)
        ensures
            r == self@.lines_cleared,
    {
        self.lines_cleared
    }

    pub fn background_seed(&self) -> (r: u64)
        ensures
            r == self@.background_seed,
    {
        self.background_seed
    }

    pub fn score(&self) -> (r: u32)
        ensures
            r == self@.score,
    {
        self.score
    }

    pub fn glass_shatter_count(&self) -> (r: u32)
        ensures
            r == self@.glass_shatter_count,
    {
        self.glass_shatter_count
    }

    pub fn lock_delay_ms(&self) -> (r: u32)
        ensures
            r == self@.lock_delay_ms,
    {
        self.lock_delay_ms
    }

    /// Sets the lock delay, raising the maximum lock delay to at least the same value.
    pub fn set_lock_delay_ms(&mut self, lock_delay_ms: u32)
        ensures
            final(self)@ == (CoreModel {
                lock_delay_ms,
                lock_delay_max_ms: max_int(old(self)@.lock_delay_max_ms as int, lock_delay_ms as int) as u32,
                ..old(self)@
            }),
            old(self).wf() ==> final(self).wf(),
    {
        self.lock_delay_ms = lock_delay_ms;
        self.lock_delay_max_ms = if self.lock_delay_max_ms < self.lock_delay_ms {
            self.lock_delay_ms
        } else {
            self.lock_delay_max_ms
        };
    }

    pub fn lock_delay_max_ms(&self) -> (r: u32)
        ensures
            r == self@.lock_delay_max_ms,
    {
        self.lock_delay_max_ms
    }

    pub fn line_clear_delay_ms(&self) -> (r: u32)
        ensures
            r == self@.line_clear_delay_ms,
    {
        self.line_clear_delay_ms
    }

    pub fn set_line_clear_delay_ms(&mut self, line_clear_delay_ms: u32)
        ensures
            final(self)@ == (CoreModel { line_clear_delay_ms, ..old(self)@ }),
            old(self).wf() ==> final(self).wf(),
    {
        self.line_clear_delay_ms = line_clear_delay_ms;
    }

    /// Sets the maximum lock delay, never below the lock delay.
    pub fn set_lock_delay_max_ms(&mut self, lock_delay_max_ms: u32)
        ensures
            final(self)@ == (CoreModel {
                lock_delay_max_ms: max_int(lock_delay_max_ms as int, old(self)@.lock_delay_ms as int) as u32,
                ..old(self)@
            }),
            old(self).wf() ==> final(self).wf(),
    {
        self.lock_delay_max_ms = if lock_delay_max_ms < self.lock_delay_ms {
            self.lock_delay_ms
        } else {
            lock_delay_max_ms
        };
    }

    pub fn grounded_lock_ms(&self) -> (r: u32)
        ensures
            r == self@.grounded_lock_ms,
    {
        self.grounded_lock_ms
    }

    pub fn grounded_total_lock_ms(&self) -> (r: u32)
        ensures
            r == self@.grounded_total_lock_ms,
    {
        self.grounded_total_lock_ms
    }

    pub fn is_grounded_for_lock_delay(&self) -> (r: bool)
        ensures
            r == self@.grounded_for_lock,
    {
        self.grounded_for_lock
    }

    pub fn is_line_clear_active(&self) -> (r: bool)
        ensures
            r == line_clear_active(self@),
    {
        match self.line_clear_phase {
            LineClearPhase::Idle => false,
            LineClearPhase::Delay { .. } => true,
        }
    }

    /// Elapsed and total milliseconds of the pending clear; none when no clear is pending.
    pub fn line_clear_timing(&self) -> (r: Option<(u32, u32)>)
        ensures
            r == match self@.line_clear {
                LineClearView::Idle => None,
                LineClearView::Delay { elapsed_ms, duration_ms, .. } => Some((elapsed_ms, duration_ms)),
            },
    {
        match &self.line_clear_phase {
            LineClearPhase::Delay { elapsed_ms, duration_ms, .. } => Some((*elapsed_ms, *duration_ms)),
            LineClearPhase::Idle => None,
        }
    }

    /// Rows waiting to be cleared (empty when no clear is pending).
    pub fn line_clear_rows(&self) -> (r: &[usize])
        ensures
            r@ == match self@.line_clear {
                LineClearView::Idle => Seq::<usize>::empty(),
                LineClearView::Delay { rows, .. } => rows,
            },
    {
        match &self.line_clear_phase {
            LineClearPhase::Delay { rows, .. } => rows.as_slice(),
            LineClearPhase::Idle => {
                let e: &[usize] = &[];
                assert(e@ =~= Seq::<usize>::empty());
                e
            },
        }
    }

    /// Adds to the score, saturating at `u32::MAX`.
    pub fn add_score(&mut self, bonus: u32)
        ensures
            final(self)@ == (CoreModel {
                score: sat_add(old(self)@.score as int, bonus as int, u32::MAX as int) as u32,
                ..old(self)@
            }),
            old(self).wf() ==> final(self).wf(),
    {
        self.score = self.score.saturating_add(bonus);
    }

    pub fn is_game_over(&self) -> (r: bool)
        ensures
            r == self@.game_over,
    {
        self.game_over
    }

    /// Places the given piece at `pos` in orientation `rotation % 4`, resetting the lock delay
    /// and cancelling any pending line clear. The game stays well-formed for positions at least
    /// eight cells away from the `i32` limits.
    pub fn set_current_piece_for_test(&mut self, piece: Piece, pos: Vec2i, rotation: u8)
        ensures
            final(self)@ == (CoreModel {
                current_piece: Some(piece),
                pos,
                rotation: (rotation % 4) as u8,
                line_clear: LineClearView::Idle,
                ..clear_lock(old(self)@)
            }),
            old(self).wf() && pos_in_range(pos) ==> final(self).wf(),
    {
        self.current_piece = Some(piece);
        self.current_piece_pos = pos;
        self.current_piece_rotation = rotation % 4;
        self.clear_lock_delay_state();
        self.line_clear_phase = LineClearPhase::Idle;
    }

    /// Writes one board cell (no owner) when `(x, y)` is on the board; otherwise nothing.
    pub fn set_cell(&mut self, x: usize, y: usize, value: u8)
        requires
            old(self).wf(),
        ensures
            final(self).wf(),
            final(self)@ == (if y < old(self)@.board.len() && x < BOARD_WIDTH {
                CoreModel {
                    board: old(self)@.board.update(y as int, old(self)@.board[y as int].update(x as int, value)),
                    owners: old(self)@.owners.update(y as int, old(self)@.owners[y as int].update(x as int, None)),
                    ..old(self)@
                }
            } else {
                old(self)@
            }),
    {
        if y < self.board.len() && x < BOARD_WIDTH {
            self.board[y][x] = value;
            self.board_owner[y][x] = None;
            assert(self@.board =~= old(self)@.board.update(y as int, old(self)@.board[y as int].update(x as int, value)));
            assert(self@.owners =~= old(self)@.owners.update(y as int, old(self)@.owners[y as int].update(x as int, None)));
        }
    }

    fn clear_lock_delay_state(&mut self)
        ensures
            final(self)@ == clear_lock(old(self)@),
            final(self).board@.len() == old(self).board@.len(),
            final(self).board_owner@.len() == old(self).board_owner@.len(),
    {
        self.grounded_lock_ms = 0;
        self.grounded_total_lock_ms = 0;
        self.grounded_for_lock = false;
    }
}


pub open spec fn vec_add(a: Vec2i, b: Vec2i) -> Vec2i {
    Vec2i { x: (a.x + b.x) as i32, y: (a.y + b.y) as i32 }
}

pub open spec fn spec_down(p: Vec2i) -> Vec2i {
    Vec2i { x: p.x, y: (p.y - 1) as i32 }
}

/// The active piece rests on something: one row lower it would not fit.
pub open spec fn spec_grounded(m: CoreModel) -> bool {
    m.current_piece is Some && !spec_valid_position(m, spec_down(m.pos), m.rotation as int)
}

/// Lock-delay bookkeeping after the active piece moved or turned: nothing changes if it kept
/// its cells; a piece that was grounded and still is only restarts its lock timer; otherwise
/// the lock delay is reset.
pub open spec fn spec_adjust(m: CoreModel, changed: bool) -> CoreModel {
    if !changed {
        m
    } else if m.grounded_for_lock && spec_grounded(m) {
        CoreModel { grounded_lock_ms: 0, grounded_for_lock: false, ..m }
    } else {
        clear_lock(m)
    }
}

/// The board cells covered by `piece` at `pos` in orientation `rotation`.
pub open spec fn spec_occupied(piece: Piece, pos: Vec2i, rotation: int) -> Set<(int, int)> {
    Set::new(
        |c: (int, int)|
            exists|gx: int, gy: int|
                #[trigger] spec_piece_cell(piece, rotation, gx, gy) && c == (
                    board_x(piece, pos, gx),
                    board_y(piece, pos, gy),
                ),
    )
}

pub open spec fn spec_move_ok(m: CoreModel, dir: Vec2i) -> bool {
    !line_clear_active(m) && spec_valid_position(m, vec_add(m.pos, dir), m.rotation as int)
}

pub open spec fn spec_move(m: CoreModel, dir: Vec2i) -> CoreModel {
    if spec_move_ok(m, dir) {
        let np = vec_add(m.pos, dir);
        spec_adjust(CoreModel { pos: np, ..m }, np != m.pos)
    } else {
        m
    }
}

pub open spec fn move_in_range(m: CoreModel, dir: Vec2i) -> bool {
    !line_clear_active(m) ==> i32::MIN <= m.pos.x + dir.x <= i32::MAX && i32::MIN <= m.pos.y
        + dir.y <= i32::MAX
}

/// Offsets tried, in order, when a rotation does not fit in place.
pub open spec fn spec_kick(i: int) -> Vec2i {
    if i == 0 {
        Vec2i { x: 0, y: 0 }
    } else if i == 1 {
        Vec2i { x: -1i32, y: 0 }
    } else if i == 2 {
        Vec2i { x: 1, y: 0 }
    } else if i == 3 {
        Vec2i { x: 0, y: 1 }
    } else if i == 4 {
        Vec2i { x: -2i32, y: 0 }
    } else if i == 5 {
        Vec2i { x: 2, y: 0 }
    } else {
        Vec2i { x: 0, y: 2 }
    }
}

/// Index of the first kick, from `i` on, at which the active piece fits in `rotation`.
pub open spec fn spec_first_kick(m: CoreModel, rotation: int, i: int) -> Option<int>
    decreases 7 - i,
{
    if i >= 7 || i < 0 {
        None
    } else if spec_valid_position(m, vec_add(m.pos, spec_kick(i)), rotation) {
        Some(i)
    } else {
        spec_first_kick(m, rotation, i + 1)
    }
}

pub open spec fn spec_rotate_target(m: CoreModel, dir: RotationDir) -> int {
    spec_rotation_apply(
        dir,
        m.rotation as int,
        spec_rotation_states(m.current_piece->0) as int,
    )
}

pub open spec fn spec_rotate_ok(m: CoreModel, dir: RotationDir) -> bool {
    &&& !line_clear_active(m)
    &&& m.current_piece is Some
    &&& spec_first_kick(m, spec_rotate_target(m, dir), 0) is Some
}

pub open spec fn spec_rotate_piece(m: CoreModel, dir: RotationDir) -> CoreModel {
    if line_clear_active(m) || m.current_piece is None {
        m
    } else {
        let piece = m.current_piece->0;
        let nr = spec_rotate_target(m, dir);
        match spec_first_kick(m, nr, 0) {
            None => CoreModel { last_kick: Vec2i { x: 0, y: 0 }, ..m },
            Some(i) => {
                let np = vec_add(m.pos, spec_kick(i));
                spec_adjust(
                    CoreModel { last_kick: spec_kick(i), pos: np, rotation: nr as u8, ..m },
                    spec_occupied(piece, np, nr) != spec_occupied(piece, m.pos, m.rotation as int),
                )
            },
        }
    }
}

/// A fitting position has the piece's anchor cell on the board.
pub proof fn lemma_fits_bounds(board: Seq<Seq<u8>>, piece: Piece, pos: Vec2i, rotation: int)
    requires
        spec_fits(board, piece, pos, rotation),
    ensures
        0 <= pos.y,
        -1 <= pos.x < 10,
{
    crate::piece::lemma_anchor_cell(piece, rotation);
    let (ax, ay) = crate::piece::spec_anchor_cell(piece);
    assert(spec_piece_cell(piece, rotation, ax, ay));
}

impl TetrisCore {
    fn fits(&self, piece: Piece, pos: Vec2i, rotation: u8) -> (r: bool)
        requires
            board_shape_ok(self@.board, self@.owners),
            self@.board.len() <= 1000,
        ensures
            r == spec_fits(self@.board, piece, pos, rotation as int),
    {
        let grid = piece_grid(piece, rotation);
        let offset = piece_board_offset(piece) as i64;
        let size = grid.size();
        let ghost m = self@;
        let mut gy: usize = 0;
        while gy < size
            invariant
                size == grid@.size,
                1 <= size <= 4,
                grid@ == spec_piece_grid(piece, rotation as int),
                offset == spec_piece_board_offset(piece),
                m == self@,
                board_shape_ok(m.board, m.owners),
                m.board.len() <= 1000,
                gy <= size,
                forall|gx2: int, gy2: int|
                    0 <= gy2 < gy && #[trigger] spec_piece_cell(piece, rotation as int, gx2, gy2)
                        ==> cell_free(m.board, board_x(piece, pos, gx2), board_y(piece, pos, gy2)),
            decreases size - gy,
        {
            let mut gx: usize = 0;
            while gx < size
                invariant
                    size == grid@.size,
                    1 <= size <= 4,
                    grid@ == spec_piece_grid(piece, rotation as int),
                    offset == spec_piece_board_offset(piece),
                    m == self@,
                    board_shape_ok(m.board, m.owners),
                    m.board.len() <= 1000,
                    gy < size,
                    gx <= size,
                    forall|gx2: int, gy2: int|
                        (0 <= gy2 < gy || (gy2 == gy && 0 <= gx2 < gx)) && #[trigger] spec_piece_cell(
                            piece,
                            rotation as int,
                            gx2,
                            gy2,
                        ) ==> cell_free(m.board, board_x(piece, pos, gx2), board_y(piece, pos, gy2)),
                decreases size - gx,
            {
                if grid.cell(gx, gy) == 1 {
                    assert(spec_piece_cell(piece, rotation as int, gx as int, gy as int));
                    let bx = pos.x as i64 + gx as i64 - offset;
                    let by = pos.y as i64 - gy as i64 + offset;
                    if bx < 0 || bx >= BOARD_WIDTH as i64 {
                        return false;
                    }
                    if by < 0 {
                        return false;
                    }
                    if by < self.board.len() as i64 {
                        assert(self.board@[by as int]@ == m.board[by as int]);
                        if self.board[by as usize][bx as usize] != 0 {
                            return false;
                        }
                    }
                }
                assert(spec_piece_cell(piece, rotation as int, gx as int, gy as int) ==> cell_free(
                    m.board,
                    board_x(piece, pos, gx as int),
                    board_y(piece, pos, gy as int),
                ));
                gx += 1;
            }
            gy += 1;
        }
        assert forall|gx2: int, gy2: int| #[trigger]
            spec_piece_cell(piece, rotation as int, gx2, gy2) implies cell_free(
            m.board,
            board_x(piece, pos, gx2),
            board_y(piece, pos, gy2),
        ) by {
            assert(0 <= gy2 < size);
        }
        true
    }

    /// Whether the active piece would fit at `pos` in orientation `rotation` (always false
    /// without an active piece).
    pub fn is_valid_position(&self, pos: Vec2i, rotation: u8) -> (r: bool)
        requires
            self.wf(),
        ensures
            r == spec_valid_position(self@, pos, rotation as int),
    {
        let piece = match self.current_piece {
            Some(piece) => piece,
            None => return false,
        };
        self.fits(piece, pos, rotation)
    }

    fn is_active_piece_grounded(&self) -> (r: bool)
        requires
            self.wf(),
        ensures
            r == spec_grounded(self@),
    {
        self.current_piece.is_some() && !self.is_valid_position(
            Vec2i::new(self.current_piece_pos.x, self.current_piece_pos.y - 1),
            self.current_piece_rotation,
        )
    }

    fn handle_successful_adjustment(&mut self, piece_changed_location: bool)
        requires
            old(self).wf(),
        ensures
            final(self).wf(),
            final(self)@ == spec_adjust(old(self)@, piece_changed_location),
    {
        if !piece_changed_location {
            return;
        }
        if self.grounded_for_lock && self.is_active_piece_grounded() {
            self.grounded_lock_ms = 0;
            self.grounded_for_lock = false;
            return;
        }
        self.clear_lock_delay_state();
    }

    /// Shifts the active piece by `dir` if it fits there and no line clear is pending.
    pub fn move_piece(&mut self, dir: Vec2i) -> (r: bool)
        requires
            old(self).wf(),
            move_in_range(old(self)@, dir),
        ensures
            final(self).wf(),
            r == spec_move_ok(old(self)@, dir),
            final(self)@ == spec_move(old(self)@, dir),
    {
        if self.is_line_clear_active() {
            return false;
        }
        let old_pos = self.current_piece_pos;
        let new_pos = self.current_piece_pos + dir;
        if self.is_valid_position(new_pos, self.current_piece_rotation) {
            proof {
                lemma_fits_bounds(self@.board, self@.current_piece->0, new_pos, self@.rotation as int);
            }
            self.current_piece_pos = new_pos;
            self.handle_successful_adjustment(new_pos.x != old_pos.x || new_pos.y != old_pos.y);
            return true;
        }
        false
    }

    /// Moves the active piece one row down if it fits there and no line clear is pending.
    pub fn move_piece_down(&mut self) -> (r: bool)
        requires
            old(self).wf(),
        ensures
            final(self).wf(),
            r == spec_move_ok(old(self)@, Vec2i { x: 0, y: -1i32 }),
            final(self)@ == spec_move(old(self)@, Vec2i { x: 0, y: -1i32 }),
    {
        if self.is_line_clear_active() {
            return false;
        }
        self.move_piece(Vec2i::new(0, -1))
    }
}


/// The board with the active piece drawn into it (cells of the piece that fall outside the
/// board are skipped).
pub open spec fn spec_board_with_active(m: CoreModel) -> Seq<Seq<u8>> {
    match m.current_piece {
        None => m.board,
        Some(piece) => Seq::new(
            m.board.len(),
            |y: int|
                Seq::new(
                    m.board[y].len(),
                    |x: int|
                        if 0 <= x < BOARD_WIDTH && spec_occupied(piece, m.pos, m.rotation as int).contains((x, y)) {
                            spec_piece_type(piece)
                        } else {
                            m.board[y][x]
                        },
                ),
        ),
    }
}

/// Whether grid cell `(gx, gy)` is the tip of a piece: only the I piece has one, the last
/// filled cell of its row when horizontal, of its column when vertical.
pub open spec fn spec_is_tip(piece: Piece, rotation: int, gx: int, gy: int) -> bool {
    &&& piece == Piece::I
    &&& spec_piece_cell(piece, rotation, gx, gy)
    &&& if rotation % 2 == 0 {
        forall|x: int| gx < x < 4 ==> !#[trigger] spec_piece_cell(piece, rotation, x, gy)
    } else {
        forall|y: int| gy < y < 4 ==> !#[trigger] spec_piece_cell(piece, rotation, gx, y)
    }
}

/// The tip cell of a piece's grid: for the I piece the right end of the horizontal bar or
/// the bottom end of the vertical one; other pieces have none.
pub open spec fn spec_tip_cell(piece: Piece, rotation: int) -> Option<(int, int)> {
    if piece == Piece::I {
        if rotation % 2 == 0 {
            Some((3, 1))
        } else {
            Some((2, 3))
        }
    } else {
        None
    }
}

pub proof fn lemma_i_cells(rotation: int, gx: int, gy: int)
    ensures
        spec_piece_cell(Piece::I, rotation, gx, gy) <==> (if rotation % 2 == 0 {
            gy == 1 && 0 <= gx < 4
        } else {
            gx == 2 && 0 <= gy < 4
        }),
{
    crate::piece::lemma_i_grid(rotation);
    let g = spec_piece_grid(Piece::I, rotation);
    if 0 <= gx < 4 && 0 <= gy < 4 {
        assert(crate::piece::smul(gy, 4) == gy + gy + gy + gy);
        if gy == 0 {
        } else if gy == 1 {
        } else if gy == 2 {
        } else {
        }
    }
}

/// The tip of a piece is exactly the cell named by `spec_tip_cell`.
pub proof fn lemma_tip_unique(piece: Piece, rotation: int, gx: int, gy: int)
    ensures
        spec_is_tip(piece, rotation, gx, gy) <==> spec_tip_cell(piece, rotation) == Some((gx, gy)),
{
    if piece == Piece::I {
        lemma_i_cells(rotation, gx, gy);
        if rotation % 2 == 0 {
            if spec_is_tip(piece, rotation, gx, gy) {
                if gx < 3 {
                    lemma_i_cells(rotation, 3, gy);
                }
            }
            if gx == 3 && gy == 1 {
                assert forall|x: int| gx < x < 4 implies !#[trigger] spec_piece_cell(piece, rotation, x, gy) by {}
            }
        } else {
            if spec_is_tip(piece, rotation, gx, gy) {
                if gy < 3 {
                    lemma_i_cells(rotation, gx, 3);
                }
            }
            if gx == 2 && gy == 3 {
                assert forall|y: int| gy < y < 4 implies !#[trigger] spec_piece_cell(piece, rotation, gx, y) by {}
            }
        }
    }
}

#[derive(Debug, Clone, Copy, PartialEq, Eq, Structural)]
enum PieceTileRole {
    Body,
    Tip,
}

#[derive(Debug, Clone, Copy, PartialEq, Eq, Structural)]
pub(crate) struct ContactImpactProfile {
    pub(crate) attack: u8,
    pub(crate) impetus: u8,
}

pub(crate) fn clone_row(row: &Vec<u8>) -> (r: Vec<u8>)
    ensures
        r@ == row@,
{
    let mut r: Vec<u8> = Vec::new();
    let mut i: usize = 0;
    while i < row.len()
        invariant
            i <= row@.len(),
            r@ == row@.take(i as int),
        decreases row@.len() - i,
    {
        r.push(row[i]);
        i += 1;
        assert(r@ =~= row@.take(i as int));
    }
    assert(row@.take(row@.len() as int) =~= row@);
    r
}

pub(crate) fn clone_rows(rows: &Vec<Vec<u8>>) -> (r: Vec<Vec<u8>>)
    ensures
        rows_view(r@) == rows_view(rows@),
{
    let mut r: Vec<Vec<u8>> = Vec::new();
    let mut i: usize = 0;
    while i < rows.len()
        invariant
            i <= rows@.len(),
            rows_view(r@) == rows_view(rows@).take(i as int),
        decreases rows@.len() - i,
    {
        let row = clone_row(&rows[i]);
        let ghost before = r@;
        r.push(row);
        assert(rows_view(r@) =~= rows_view(before).push(rows@[i as int]@));
        i += 1;
        assert(rows_view(r@) =~= rows_view(rows@).take(i as int));
    }
    assert(rows_view(rows@).take(rows@.len() as int) =~= rows_view(rows@));
    r
}

/// Whether board cell `(bx, by)` is covered by `piece` at `pos` in orientation `rotation`.
fn covers(piece: Piece, pos: Vec2i, rotation: u8, bx: i64, by: i64) -> (r: bool)
    requires
        -0x1_0000_0000 <= bx <= 0x1_0000_0000,
        -0x1_0000_0000 <= by <= 0x1_0000_0000,
    ensures
        r == spec_occupied(piece, pos, rotation as int).contains((bx as int, by as int)),
{
    let grid = piece_grid(piece, rotation);
    let off = piece_board_offset(piece) as i64;
    let size = grid.size() as i64;
    let gx = bx - pos.x as i64 + off;
    let gy = pos.y as i64 + off - by;
    let ghost occ = spec_occupied(piece, pos, rotation as int);
    if gx < 0 || gy < 0 || gx >= size || gy >= size {
        assert(!occ.contains((bx as int, by as int))) by {
            if occ.contains((bx as int, by as int)) {
                let (gx2, gy2) = choose|gx2: int, gy2: int|
                    #[trigger] spec_piece_cell(piece, rotation as int, gx2, gy2) && (bx as int, by as int) == (
                        board_x(piece, pos, gx2),
                        board_y(piece, pos, gy2),
                    );
                assert(gx2 == gx && gy2 == gy);
            }
        }
        false
    } else {
        let c = grid.cell(gx as usize, gy as usize);
        if c == 1 {
            assert(spec_piece_cell(piece, rotation as int, gx as int, gy as int));
        } else {
            assert(!occ.contains((bx as int, by as int))) by {
                if occ.contains((bx as int, by as int)) {
                    let (gx2, gy2) = choose|gx2: int, gy2: int|
                        #[trigger] spec_piece_cell(piece, rotation as int, gx2, gy2) && (bx as int, by as int) == (
                            board_x(piece, pos, gx2),
                            board_y(piece, pos, gy2),
                        );
                    assert(gx2 == gx && gy2 == gy);
                }
            }
        }
        c == 1
    }
}

/// Whether every cell covered by `piece` at `p1`/`r1` is also covered at `p2`/`r2`.
fn occupied_subset(piece: Piece, p1: Vec2i, r1: u8, p2: Vec2i, r2: u8) -> (r: bool)
    requires
        pos_in_range(p1),
        pos_in_range(p2),
    ensures
        r == spec_occupied(piece, p1, r1 as int).subset_of(spec_occupied(piece, p2, r2 as int)),
{
    let grid = piece_grid(piece, r1);
    let off = piece_board_offset(piece) as i64;
    let size = grid.size();
    let ghost occ1 = spec_occupied(piece, p1, r1 as int);
    let ghost occ2 = spec_occupied(piece, p2, r2 as int);
    let mut gy: usize = 0;
    while gy < size
        invariant
            size == grid@.size,
            1 <= size <= 4,
            grid@ == spec_piece_grid(piece, r1 as int),
            off == spec_piece_board_offset(piece),
            pos_in_range(p1),
            occ1 == spec_occupied(piece, p1, r1 as int),
            occ2 == spec_occupied(piece, p2, r2 as int),
            gy <= size,
            forall|gx2: int, gy2: int|
                0 <= gy2 < gy && #[trigger] spec_piece_cell(piece, r1 as int, gx2, gy2) ==> occ2.contains(
                    (board_x(piece, p1, gx2), board_y(piece, p1, gy2)),
                ),
        decreases size - gy,
    {
        let mut gx: usize = 0;
        while gx < size
            invariant
                size == grid@.size,
                1 <= size <= 4,
                grid@ == spec_piece_grid(piece, r1 as int),
                off == spec_piece_board_offset(piece),
                pos_in_range(p1),
                occ1 == spec_occupied(piece, p1, r1 as int),
                occ2 == spec_occupied(piece, p2, r2 as int),
                gy < size,
                gx <= size,
                forall|gx2: int, gy2: int|
                    (0 <= gy2 < gy || (gy2 == gy && 0 <= gx2 < gx)) && #[trigger] spec_piece_cell(
                        piece,
                        r1 as int,
                        gx2,
                        gy2,
                    ) ==> occ2.contains((board_x(piece, p1, gx2), board_y(piece, p1, gy2))),
            decreases size - gx,
        {
            if grid.cell(gx, gy) == 1 {
                let bx = p1.x as i64 + gx as i64 - off;
                let by = p1.y as i64 - gy as i64 + off;
                if !covers(piece, p2, r2, bx, by) {
                    assert(spec_piece_cell(piece, r1 as int, gx as int, gy as int));
                    assert(occ1.contains((bx as int, by as int)));
                    return false;
                }
            }
            gx += 1;
        }
        gy += 1;
    }
    assert forall|c: (int, int)| occ1.contains(c) implies occ2.contains(c) by {
        let (gx2, gy2) = choose|gx2: int, gy2: int|
            #[trigger] spec_piece_cell(piece, r1 as int, gx2, gy2) && c == (
                board_x(piece, p1, gx2),
                board_y(piece, p1, gy2),
            );
        assert(0 <= gy2 < size);
    }
    true
}

/// The set of covered board cells differs between the two placements.
fn occupied_cells_differ(piece: Piece, p1: Vec2i, r1: u8, p2: Vec2i, r2: u8) -> (r: bool)
    requires
        pos_in_range(p1),
        pos_in_range(p2),
    ensures
        r == (spec_occupied(piece, p1, r1 as int) != spec_occupied(piece, p2, r2 as int)),
{
    let a = occupied_subset(piece, p1, r1, p2, r2);
    let b = occupied_subset(piece, p2, r2, p1, r1);
    proof {
        if a && b {
            assert(spec_occupied(piece, p1, r1 as int) =~= spec_occupied(piece, p2, r2 as int));
        }
    }
    !(a && b)
}

fn kick_offset(i: usize) -> (r: Vec2i)
    requires
        i < 7,
    ensures
        r == spec_kick(i as int),
{
    if i == 0 {
        Vec2i::new(0, 0)
    } else if i == 1 {
        Vec2i::new(-1, 0)
    } else if i == 2 {
        Vec2i::new(1, 0)
    } else if i == 3 {
        Vec2i::new(0, 1)
    } else if i == 4 {
        Vec2i::new(-2, 0)
    } else if i == 5 {
        Vec2i::new(2, 0)
    } else {
        Vec2i::new(0, 2)
    }
}

impl TetrisCore {
    fn try_rotation_with_kicks(&mut self, new_rotation: u8) -> (r: bool)
        requires
            old(self).wf(),
            old(self)@.pos.y <= i32::MAX - 2,
        ensures
            final(self).wf(),
            final(self)@ == (if old(self)@.current_piece is None {
                old(self)@
            } else {
                match spec_first_kick(old(self)@, new_rotation as int, 0) {
                    None => CoreModel { last_kick: Vec2i { x: 0, y: 0 }, ..old(self)@ },
                    Some(i) => CoreModel {
                        last_kick: spec_kick(i),
                        pos: vec_add(old(self)@.pos, spec_kick(i)),
                        ..old(self)@
                    },
                }
            }),
            r == (old(self)@.current_piece is Some && spec_first_kick(old(self)@, new_rotation as int, 0) is Some),
    {
        if self.current_piece.is_none() {
            return false;
        }
        let mut i: usize = 0;
        while i < 7
            invariant
                self.wf(),
                self@ == old(self)@,
                self@.pos.y <= i32::MAX - 2,
                i <= 7,
                spec_first_kick(self@, new_rotation as int, 0) == spec_first_kick(self@, new_rotation as int, i as int),
            decreases 7 - i,
        {
            let k = kick_offset(i);
            let test_pos = self.current_piece_pos + k;
            if self.is_valid_position(test_pos, new_rotation) {
                proof {
                    lemma_fits_bounds(self@.board, self@.current_piece->0, test_pos, new_rotation as int);
                }
                self.last_kick_offset = k;
                self.current_piece_pos = test_pos;
                return true;
            }
            i += 1;
        }
        self.last_kick_offset = Vec2i::new(0, 0);
        false
    }

    /// Turns the active piece in direction `dir`, trying the kick offsets in order, unless a
    /// line clear is pending.
    pub fn rotate_piece(&mut self, dir: RotationDir) -> (r: bool)
        requires
            old(self).wf(),
            old(self)@.pos.y <= i32::MAX - 2,
        ensures
            final(self).wf(),
            r == spec_rotate_ok(old(self)@, dir),
            final(self)@ == spec_rotate_piece(old(self)@, dir),
    {
        if self.is_line_clear_active() {
            return false;
        }
        let piece = match self.current_piece {
            Some(piece) => piece,
            None => return false,
        };
        let before_pos = self.current_piece_pos;
        let before_rot = self.current_piece_rotation;
        let new_rotation = dir.apply(self.current_piece_rotation, piece_rotation_states(piece));
        if self.try_rotation_with_kicks(new_rotation) {
            self.current_piece_rotation = new_rotation;
            let changed = occupied_cells_differ(
                piece,
                self.current_piece_pos,
                self.current_piece_rotation,
                before_pos,
                before_rot,
            );
            self.handle_successful_adjustment(changed);
            return true;
        }
        false
    }

    /// The position the active piece would land on after a hard drop, crushing included (no
    /// change to the game): where `spec_drop` leaves it before it locks. `None` without an
    /// active piece or when the piece does not fit where it is.
    pub fn ghost_piece_pos(&self) -> (r: Option<Vec2i>)
        requires
            self.wf(),
        ensures
            r is Some <==> (self@.current_piece is Some && spec_valid_position(self@, self@.pos, self@.rotation as int)),
            r matches Some(g) ==> g == spec_drop(self@, 0).0.pos,
    {
        if self.current_piece.is_none() {
            return None;
        }
        if !self.is_valid_position(self.current_piece_pos, self.current_piece_rotation) {
            return None;
        }
        let mut probe = self.clone();
        probe.drop_to_rest();
        Some(probe.current_piece_pos)
    }

    /// A copy of the board with the active piece drawn in.
    pub fn board_with_active_piece(&self) -> (r: Vec<Vec<u8>>)
        requires
            self.wf(),
        ensures
            rows_view(r@) == spec_board_with_active(self@),
    {
        let mut board = clone_rows(&self.board);
        let piece = match self.current_piece {
            Some(piece) => piece,
            None => return board,
        };
        let ghost m = self@;
        let ghost occ = spec_occupied(piece, m.pos, m.rotation as int);
        let grid = piece_grid(piece, self.current_piece_rotation);
        let offset = piece_board_offset(piece) as i64;
        let ptype = piece_type(piece);
        let size = grid.size();
        assert forall|y: int| 0 <= y < m.board.len() implies (#[trigger] board@[y])@ == m.board[y] by {
            assert(rows_view(board@)[y] == board@[y]@);
        }
        let mut gy: usize = 0;
        while gy < size
            invariant
                self@ == m,
                self.wf(),
                size == grid@.size,
                1 <= size <= 4,
                grid@ == spec_piece_grid(piece, m.rotation as int),
                offset == spec_piece_board_offset(piece),
                ptype == spec_piece_type(piece),
                occ == spec_occupied(piece, m.pos, m.rotation as int),
                gy <= size,
                board@.len() == m.board.len(),
                forall|y: int| 0 <= y < m.board.len() ==> (#[trigger] board@[y])@.len() == BOARD_WIDTH,
                forall|x: int, y: int| 0 <= y < m.board.len() && 0 <= x < BOARD_WIDTH ==> #[trigger] board@[y]@[x] == (
                    if exists|gx2: int, gy2: int| 0 <= gy2 < gy && #[trigger] spec_piece_cell(piece, m.rotation as int, gx2, gy2)
                        && (x, y) == (board_x(piece, m.pos, gx2), board_y(piece, m.pos, gy2)) {
                        ptype
                    } else {
                        m.board[y][x]
                    }),
            decreases size - gy,
        {
            let mut gx: usize = 0;
            while gx < size
                invariant
                    self@ == m,
                    self.wf(),
                    size == grid@.size,
                    1 <= size <= 4,
                    grid@ == spec_piece_grid(piece, m.rotation as int),
                    offset == spec_piece_board_offset(piece),
                    ptype == spec_piece_type(piece),
                    gy < size,
                    gx <= size,
                    board@.len() == m.board.len(),
                    forall|y: int| 0 <= y < m.board.len() ==> (#[trigger] board@[y])@.len() == BOARD_WIDTH,
                    forall|x: int, y: int| 0 <= y < m.board.len() && 0 <= x < BOARD_WIDTH ==> #[trigger] board@[y]@[x] == (
                        if exists|gx2: int, gy2: int| (0 <= gy2 < gy || (gy2 == gy && 0 <= gx2 < gx))
                            && #[trigger] spec_piece_cell(piece, m.rotation as int, gx2, gy2)
                            && (x, y) == (board_x(piece, m.pos, gx2), board_y(piece, m.pos, gy2)) {
                            ptype
                        } else {
                            m.board[y][x]
                        }),
                decreases size - gx,
            {
                if grid.cell(gx, gy) == 1 {
                    let bx = self.current_piece_pos.x as i64 + gx as i64 - offset;
                    let by = self.current_piece_pos.y as i64 - gy as i64 + offset;
                    assert(spec_piece_cell(piece, m.rotation as int, gx as int, gy as int));
                    if bx >= 0 && bx < BOARD_WIDTH as i64 && by >= 0 && by < board.len() as i64 {
                        let ghost before = board@;
                        board[by as usize][bx as usize] = ptype;
                        assert forall|x: int, y: int| 0 <= y < m.board.len() && 0 <= x < BOARD_WIDTH implies #[trigger] board@[y]@[x] == (
                            if exists|gx2: int, gy2: int| (0 <= gy2 < gy || (gy2 == gy && 0 <= gx2 < gx + 1))
                                && #[trigger] spec_piece_cell(piece, m.rotation as int, gx2, gy2)
                                && (x, y) == (board_x(piece, m.pos, gx2), board_y(piece, m.pos, gy2)) {
                                ptype
                            } else {
                                m.board[y][x]
                            }) by {
                            if x == bx && y == by {
                            } else {
                                assert(board@[y]@[x] == before[y]@[x]);
                            }
                        }
                    } else {
                        assert forall|x: int, y: int| 0 <= y < m.board.len() && 0 <= x < BOARD_WIDTH implies #[trigger] board@[y]@[x] == (
                            if exists|gx2: int, gy2: int| (0 <= gy2 < gy || (gy2 == gy && 0 <= gx2 < gx + 1))
                                && #[trigger] spec_piece_cell(piece, m.rotation as int, gx2, gy2)
                                && (x, y) == (board_x(piece, m.pos, gx2), board_y(piece, m.pos, gy2)) {
                                ptype
                            } else {
                                m.board[y][x]
                            }) by {
                        }
                    }
                } else {
                    assert(!spec_piece_cell(piece, m.rotation as int, gx as int, gy as int));
                    assert forall|x: int, y: int| 0 <= y < m.board.len() && 0 <= x < BOARD_WIDTH implies #[trigger] board@[y]@[x] == (
                        if exists|gx2: int, gy2: int| (0 <= gy2 < gy || (gy2 == gy && 0 <= gx2 < gx + 1))
                            && #[trigger] spec_piece_cell(piece, m.rotation as int, gx2, gy2)
                            && (x, y) == (board_x(piece, m.pos, gx2), board_y(piece, m.pos, gy2)) {
                            ptype
                        } else {
                            m.board[y][x]
                        }) by {
                    }
                }
                gx += 1;
            }
            gy += 1;
        }
        assert(rows_view(board@) =~= spec_board_with_active(m)) by {
            assert forall|y: int| 0 <= y < m.board.len() implies rows_view(board@)[y] =~= spec_board_with_active(m)[y] by {
                assert forall|x: int| 0 <= x < BOARD_WIDTH implies #[trigger] board@[y]@[x] == spec_board_with_active(m)[y][x] by {
                    if occ.contains((x, y)) {
                        let (gx2, gy2) = choose|gx2: int, gy2: int|
                            #[trigger] spec_piece_cell(piece, m.rotation as int, gx2, gy2) && (x, y) == (
                                board_x(piece, m.pos, gx2),
                                board_y(piece, m.pos, gy2),
                            );
                        assert(0 <= gy2 < size);
                    }
                }
            }
        }
        board
    }
}


/// The piece chosen by a roll `pick` against a weighted pool: walk the pool, subtracting
/// weights, and take the first piece whose weight exceeds what is left of the roll.
pub open spec fn spec_pick(s: Seq<Piece>, pick: int) -> Piece
    decreases s.len(),
{
    if s.len() == 0 {
        Piece::O
    } else if pick < spec_default_weight(s[0]) {
        s[0]
    } else {
        spec_pick(s.drop_first(), pick - spec_default_weight(s[0]))
    }
}

pub open spec fn spec_pool(m: CoreModel) -> Seq<Piece> {
    if m.available.len() == 0 {
        seq![Piece::O]
    } else {
        m.available
    }
}

/// The piece drawn from the pool with the next generator output.
pub open spec fn spec_drawn_piece(m: CoreModel) -> Piece {
    let pool = spec_pool(m);
    let out = spec_rng_output(spec_xorshift(m.rng));
    spec_pick(pool, out as int % max_int(spec_weight_sum(pool), 1))
}

/// A pick below the pool's total weight lands on a piece of the pool.
proof fn lemma_pick_in_pool(s: Seq<Piece>, pick: int)
    requires
        0 <= pick < spec_weight_sum(s),
    ensures
        s.contains(spec_pick(s, pick)),
    decreases s.len(),
{
    if s.len() == 0 {
    } else if pick < spec_default_weight(s[0]) {
        assert(s[0] == s[0]);
    } else {
        lemma_pick_in_pool(s.drop_first(), pick - spec_default_weight(s[0]));
        let p = spec_pick(s.drop_first(), pick - spec_default_weight(s[0]));
        let k = choose|k: int| 0 <= k < s.drop_first().len() && s.drop_first()[k] == p;
        assert(s[k + 1] == p);
    }
}

/// Every piece drawn comes from the pool set by `set_available_pieces` (the stone piece
/// alone when that pool was empty).
pub proof fn lemma_drawn_piece_in_pool(m: CoreModel)
    ensures
        spec_pool(m).contains(spec_drawn_piece(m)),
{
    let pool = spec_pool(m);
    if m.available.len() == 0 {
        assert(pool =~= seq![Piece::O]);
        assert(spec_weight_sum(pool) == 30) by {
            reveal_with_fuel(spec_weight_sum, 2);
            assert(pool.drop_first() =~= Seq::<Piece>::empty());
        }
    }
    assert(spec_weight_sum(pool) >= 1) by {
        assert(pool.len() > 0);
        lemma_weight_sum_nonneg(pool.drop_first());
    }
    let out = spec_rng_output(spec_xorshift(m.rng));
    lemma_pick_in_pool(pool, out as int % max_int(spec_weight_sum(pool), 1));
}

/// The model after one draw (the generator advanced, an empty pool replaced by the stone).
pub open spec fn spec_after_draw(m: CoreModel) -> CoreModel {
    CoreModel { available: spec_pool(m), rng: spec_xorshift(m.rng), ..m }
}

/// Draws pieces into the queue until it holds `NEXT_QUEUE_LEN` pieces.
#[verifier::opaque]
pub open spec fn spec_fill_queue(m: CoreModel) -> CoreModel
    decreases NEXT_QUEUE_LEN - m.next_queue.len(),
{
    if m.next_queue.len() >= NEXT_QUEUE_LEN {
        m
    } else {
        let p = spec_drawn_piece(m);
        let m1 = spec_after_draw(m);
        spec_fill_queue(CoreModel { next_queue: m.next_queue.push(p), ..m1 })
    }
}

/// Spawning: the queue is filled, its first piece becomes active at the top centre
/// (`x = 4`, `y` = board height) unrotated, the lock delay is reset, a pending clear is
/// dropped, the queue is refilled, holding is allowed again, and the game is over when the
/// new piece does not fit.
/// Filling the queue only touches the queue, the generator and the pool.
pub proof fn lemma_fill_queue_frame(m: CoreModel)
    ensures
        ({
            let f = spec_fill_queue(m);
            f == (CoreModel { next_queue: f.next_queue, rng: f.rng, available: f.available, ..m })
        }),
        spec_fill_queue(m).next_queue.len() >= NEXT_QUEUE_LEN,
        m.available.len() > 0 ==> spec_fill_queue(m).available == m.available,
    decreases NEXT_QUEUE_LEN - m.next_queue.len(),
{
    reveal(spec_fill_queue);
    if m.next_queue.len() < NEXT_QUEUE_LEN {
        let p = spec_drawn_piece(m);
        let m1 = spec_after_draw(m);
        lemma_fill_queue_frame(CoreModel { next_queue: m.next_queue.push(p), ..m1 });
    }
}

pub open spec fn spec_take_next(m: CoreModel) -> (Piece, CoreModel) {
    let f = spec_fill_queue(m);
    if f.next_queue.len() == 0 {
        (spec_drawn_piece(f), spec_after_draw(f))
    } else {
        (f.next_queue[0], CoreModel { next_queue: f.next_queue.drop_first(), ..f })
    }
}

pub open spec fn spec_set_spawned(m: CoreModel, piece: Piece) -> CoreModel {
    CoreModel {
        current_piece: Some(piece),
        pos: Vec2i { x: 4, y: m.board.len() as i32 },
        rotation: 0,
        line_clear: LineClearView::Idle,
        ..clear_lock(m)
    }
}

pub open spec fn spec_finish_spawn(m: CoreModel, piece: Piece) -> CoreModel {
    CoreModel {
        can_hold: true,
        last_kick: Vec2i { x: 0, y: 0 },
        ..spec_fill_queue(spec_set_spawned(m, piece))
    }
}

pub open spec fn spec_spawn_state(m: CoreModel) -> CoreModel {
    spec_finish_spawn(spec_take_next(m).1, spec_take_next(m).0)
}

pub open spec fn spec_spawn_ok(m: CoreModel) -> bool {
    let s = spec_spawn_state(m);
    spec_valid_position(s, s.pos, 0)
}

pub open spec fn spec_spawn(m: CoreModel) -> CoreModel {
    let s = spec_spawn_state(m);
    if spec_spawn_ok(m) {
        s
    } else {
        CoreModel { game_over: true, ..s }
    }
}

pub open spec fn spec_hold_allowed(m: CoreModel) -> bool {
    !m.game_over && m.can_hold && !line_clear_active(m) && m.current_piece is Some
}

/// Holding: with a held piece the two swap, the swapped-in piece restarting at the top
/// centre unrotated; with an empty hold the active piece is stored and the next one spawns.
/// Either way holding is then blocked until the next spawn.
pub open spec fn spec_hold(m: CoreModel) -> CoreModel {
    if !spec_hold_allowed(m) {
        m
    } else {
        match m.held_piece {
            Some(held) => {
                let s = CoreModel {
                    held_piece: m.current_piece,
                    current_piece: Some(held),
                    pos: Vec2i { x: 4, y: m.board.len() as i32 },
                    rotation: 0,
                    last_kick: Vec2i { x: 0, y: 0 },
                    can_hold: false,
                    ..clear_lock(m)
                };
                if spec_valid_position(s, s.pos, 0) {
                    s
                } else {
                    CoreModel { game_over: true, ..s }
                }
            },
            None => CoreModel {
                can_hold: false,
                ..spec_spawn(CoreModel { held_piece: m.current_piece, ..m })
            },
        }
    }
}

pub open spec fn spec_hold_ok(m: CoreModel) -> bool {
    spec_hold_allowed(m) && match m.held_piece {
        Some(held) => {
            let s = CoreModel {
                current_piece: Some(held),
                pos: Vec2i { x: 4, y: m.board.len() as i32 },
                ..m
            };
            spec_valid_position(s, s.pos, 0)
        },
        None => spec_spawn_ok(CoreModel { held_piece: m.current_piece, ..m }),
    }
}

proof fn lemma_weight_sum_nonneg(s: Seq<Piece>)
    ensures
        spec_weight_sum(s) >= s.len(),
    decreases s.len(),
{
    if s.len() > 0 {
        lemma_weight_sum_nonneg(s.drop_first());
    }
}

impl TetrisCore {
    /// Draws a piece from the pool, weighted by `spec_default_weight`, with the next output of
    /// the generator.
    pub fn draw_piece(&mut self) -> (r: Piece)
        requires
            old(self).wf(),
        ensures
            final(self).wf(),
            r == spec_drawn_piece(old(self)@),
            final(self)@ == spec_after_draw(old(self)@),
    {
        if self.available_pieces.len() == 0 {
            self.available_pieces = vec![Piece::O];
            assert(self.available_pieces@ =~= seq![Piece::O]);
            assert(spec_weight_sum(seq![Piece::O]) == 30) by {
                reveal_with_fuel(spec_weight_sum, 2);
                assert(seq![Piece::O].drop_first() =~= Seq::<Piece>::empty());
            }
        }
        let ghost pool = self.available_pieces@;
        let ghost m1 = self@;
        assert(pool.skip(0) =~= pool);
        let mut total: u32 = 0;
        let mut i: usize = 0;
        while i < self.available_pieces.len()
            invariant
                pool == self.available_pieces@,
                spec_weight_sum(pool) <= u32::MAX,
                i <= pool.len(),
                total + spec_weight_sum(pool.skip(i as int)) == spec_weight_sum(pool),
            decreases pool.len() - i,
        {
            assert(pool.skip(i as int).drop_first() =~= pool.skip(i + 1));
            proof { lemma_weight_sum_nonneg(pool.skip(i + 1)); }
            total = total + self.available_pieces[i].default_weight();
            i += 1;
        }
        assert(pool.skip(pool.len() as int) =~= Seq::<Piece>::empty());
        assert(total == spec_weight_sum(pool));
        let total = if total < 1 {
            1
        } else {
            total
        };
        let mut pick = self.rng.next_u32() % total;
        assert(self@ == spec_after_draw(old(self)@));
        let mut j: usize = 0;
        while j < self.available_pieces.len()
            invariant
                pool == self.available_pieces@,
                self@ == spec_after_draw(old(self)@),
                self.wf(),
                pool == spec_pool(old(self)@),
                total == max_int(spec_weight_sum(pool), 1),
                spec_drawn_piece(old(self)@) == spec_pick(pool, spec_rng_output(self.rng.state) as int % total as int),
                j <= pool.len(),
                spec_pick(pool, spec_rng_output(self.rng.state) as int % total as int) == spec_pick(
                    pool.skip(j as int),
                    pick as int,
                ),
            decreases pool.len() - j,
        {
            assert(pool.skip(j as int).drop_first() =~= pool.skip(j + 1));
            let piece = self.available_pieces[j];
            let w = piece.default_weight();
            if pick < w {
                return piece;
            }
            pick -= w;
            j += 1;
        }
        assert(pool.skip(pool.len() as int) =~= Seq::<Piece>::empty());
        Piece::O
    }

    fn fill_next_queue(&mut self)
        requires
            old(self).wf(),
        ensures
            final(self).wf(),
            final(self)@ == spec_fill_queue(old(self)@),
            final(self)@.next_queue.len() >= NEXT_QUEUE_LEN,
        decreases NEXT_QUEUE_LEN - old(self)@.next_queue.len(),
    {
        reveal(spec_fill_queue);
        if self.next_queue.len() < NEXT_QUEUE_LEN {
            let piece = self.draw_piece();
            self.next_queue.push(piece);
            self.fill_next_queue();
        }
    }

    fn finish_spawn(&mut self, piece: Piece)
        requires
            old(self).wf(),
        ensures
            final(self).wf(),
            final(self)@ == spec_finish_spawn(old(self)@, piece),
    {
        let ghost f2 = self@;
        self.current_piece = Some(piece);
        self.current_piece_pos = Vec2i::new(4, self.board.len() as i32);
        self.current_piece_rotation = 0;
        self.clear_lock_delay_state();
        self.line_clear_phase = LineClearPhase::Idle;
        assert(self@ == spec_set_spawned(f2, piece));
        self.fill_next_queue();
        self.can_hold = true;
        self.last_kick_offset = Vec2i::new(0, 0);
    }

    fn take_next_piece(&mut self) -> (r: Piece)
        requires
            old(self).wf(),
        ensures
            final(self).wf(),
            (r, final(self)@) == spec_take_next(old(self)@),
    {
        self.fill_next_queue();
        if self.next_queue.len() == 0 {
            self.draw_piece()
        } else {
            self.next_queue.remove(0)
        }
    }

    /// Brings the next piece into play (see `spec_spawn`); false when it does not fit, which
    /// ends the game.
    #[verifier::spinoff_prover]
    #[verifier::rlimit(40)]
    pub fn spawn_new_piece(&mut self) -> (r: bool)
        requires
            old(self).wf(),
        ensures
            final(self).wf(),
            r == spec_spawn_ok(old(self)@),
            final(self)@ == spec_spawn(old(self)@),
    {
        let ghost m0 = self@;
        let piece = self.take_next_piece();
        self.finish_spawn(piece);
        assert(self@ == spec_spawn_state(m0));
        proof {
            lemma_fill_queue_frame(spec_set_spawned(spec_take_next(m0).1, spec_take_next(m0).0));
        }
        let ghost st = self@;
        assert(spec_spawn_ok(m0) == spec_valid_position(st, st.pos, 0));
        if !self.is_valid_position(self.current_piece_pos, self.current_piece_rotation) {
            self.game_over = true;
            assert(self@ == (CoreModel { game_over: true, ..st }));
            return false;
        }
        true
    }

    /// Swaps the active piece with the held one, or stores it and spawns the next piece when
    /// nothing is held (see `spec_hold`).
    #[verifier::rlimit(40)]
    pub fn hold_piece(&mut self) -> (r: bool)
        requires
            old(self).wf(),
        ensures
            final(self).wf(),
            r == spec_hold_ok(old(self)@),
            final(self)@ == spec_hold(old(self)@),
            spec_hold_allowed(old(self)@) ==> final(self)@.held_piece == old(self)@.current_piece,
            spec_hold_allowed(old(self)@) && old(self)@.held_piece is Some
                ==> final(self)@.current_piece == old(self)@.held_piece,
    {
        proof {
            if spec_hold_allowed(old(self)@) {
                lemma_hold_swaps(old(self)@);
            }
        }
        if self.game_over || !self.can_hold || self.is_line_clear_active() {
            return false;
        }
        let current = match self.current_piece {
            Some(c) => c,
            None => return false,
        };
        if let Some(held) = self.held_piece {
            self.held_piece = Some(current);
            self.current_piece = Some(held);
            self.current_piece_pos = Vec2i::new(4, self.board.len() as i32);
            self.current_piece_rotation = 0;
            self.clear_lock_delay_state();
            self.last_kick_offset = Vec2i::new(0, 0);
            self.can_hold = false;
            if !self.is_valid_position(self.current_piece_pos, self.current_piece_rotation) {
                self.game_over = true;
                return false;
            }
            return true;
        }
        self.held_piece = Some(current);
        let ok = self.spawn_new_piece();
        self.can_hold = false;
        ok
    }
}


/// Holding exchanges pieces: when holding is allowed, the active piece becomes the held one;
/// when a piece was held, it becomes the active one, so the two swap; holding again at once
/// does nothing.
pub proof fn lemma_hold_swaps(m: CoreModel)
    requires
        spec_hold_allowed(m),
    ensures
        spec_hold(m).held_piece == m.current_piece,
        m.held_piece is Some ==> spec_hold(m).current_piece == m.held_piece,
        !spec_hold(m).can_hold,
        spec_hold(spec_hold(m)) == spec_hold(m),
{
    if m.held_piece is None {
        let m0 = CoreModel { held_piece: m.current_piece, ..m };
        lemma_fill_queue_frame(m0);
        let (p, t) = spec_take_next(m0);
        assert(t.held_piece == m.current_piece);
        lemma_fill_queue_frame(spec_set_spawned(t, p));
        assert(spec_spawn_state(m0).held_piece == m.current_piece);
    }
}

/// Moving, turning and holding the active piece leave the revealed depth unchanged.
pub proof fn lemma_piece_ops_keep_depth(m: CoreModel, dir: Vec2i, rdir: RotationDir)
    ensures
        spec_move(m, dir).earth_depth == m.earth_depth,
        spec_rotate_piece(m, rdir).earth_depth == m.earth_depth,
        spec_hold(m).earth_depth == m.earth_depth,
{
    let hm = CoreModel { held_piece: m.current_piece, ..m };
    lemma_spawn_keeps_depth(hm);
}

/// Spawning a piece leaves the revealed depth unchanged.
pub proof fn lemma_spawn_keeps_depth(m: CoreModel)
    ensures
        spec_spawn(m).earth_depth == m.earth_depth,
{
    lemma_fill_queue_frame(m);
    let t = spec_take_next(m);
    lemma_fill_queue_frame(spec_set_spawned(t.1, t.0));
}

} // verus!
