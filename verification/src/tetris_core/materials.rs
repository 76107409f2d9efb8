//! Board materials: how tiles resist and break under impacts, moss growth and falling sand,
//! and the hard drop that drives impacts.
use vstd::prelude::*;

use super::lines::{
    spec_lock, spec_start_clear,
    lemma_owner_ids_all, lemma_owner_ids_row, lemma_owner_ids_step, owner_ids, owner_ids_upto,
};
use super::{
    board_shape_ok, clear_lock, lemma_fits_bounds, line_clear_active, model_wf, sat_mul, sat_mul_u32, spec_valid_position, HARD_DROP_POINTS_PER_ROW, owner_rows_view, rows_view, sat_add, sat_add_u32, CoreModel,
    board_x, board_y, ContactImpactProfile, spec_is_tip, spec_tip_cell, lemma_tip_unique, PieceId, PieceTileRole, TetrisCore, BOARD_WIDTH, CELL_DIRT, CELL_EMPTY, CELL_GLASS,
    CELL_MOSS, CELL_MOSS_SEED, CELL_SAND, CELL_STONE,
};
use crate::piece::{
    lemma_piece_grid_size, piece_board_offset, piece_grid, piece_rotation_states, Vec2i, spec_piece_cell, spec_piece_grid, Piece,
};

verus! {

/// How hard a tile resists a contact impact.
pub open spec fn spec_contact_defense(cell: u8) -> u8 {
    if cell == CELL_EMPTY || cell == CELL_MOSS {
        0
    } else if cell == CELL_STONE {
        2
    } else {
        1
    }
}

/// The board with cell `(x, y)` emptied and its owner forgotten; the piece that owned it is
/// forgotten too once it owns no other cell.
pub open spec fn spec_clear_cell(m: CoreModel, x: int, y: int) -> CoreModel {
    if !(0 <= y < m.board.len() && 0 <= x < BOARD_WIDTH) {
        m
    } else {
        let owners = m.owners.update(y, m.owners[y].update(x, None));
        let m1 = CoreModel {
            board: m.board.update(y, m.board[y].update(x, CELL_EMPTY)),
            owners,
            ..m
        };
        match m.owners[y][x] {
            Some(id) => if owner_ids(owners).contains(id) {
                m1
            } else {
                CoreModel { kinds: m.kinds.remove(id), ..m1 }
            },
            None => m1,
        }
    }
}

/// Shattering a placed piece: every cell it owns is emptied, its kind forgotten, and the
/// shatter counter grows (saturating).
pub open spec fn spec_shatter(m: CoreModel, id: u32) -> CoreModel {
    CoreModel {
        board: Seq::new(
            m.board.len(),
            |y: int|
                Seq::new(
                    m.board[y].len(),
                    |x: int| if m.owners[y][x] == Some(id) { CELL_EMPTY } else { m.board[y][x] },
                ),
        ),
        owners: Seq::new(
            m.owners.len(),
            |y: int|
                Seq::new(
                    m.owners[y].len(),
                    |x: int| if m.owners[y][x] == Some(id) { None } else { m.owners[y][x] },
                ),
        ),
        kinds: m.kinds.remove(id),
        glass_shatter_count: sat_add(m.glass_shatter_count as int, 1, u32::MAX as int) as u32,
        ..m
    }
}

/// Damaging tile `(x, y)`: dirt, sand and moss break; glass breaks its whole piece when that
/// piece is a glass piece, else just the tile; other tiles and empty cells resist.
pub open spec fn spec_tile_damage(m: CoreModel, x: int, y: int, damage: u8) -> (CoreModel, bool) {
    if damage == 0 || !(0 <= y < m.board.len() && 0 <= x < BOARD_WIDTH) {
        (m, false)
    } else {
        let cell = m.board[y][x];
        if cell == CELL_DIRT || cell == CELL_SAND || cell == CELL_MOSS {
            (spec_clear_cell(m, x, y), true)
        } else if cell == CELL_GLASS {
            match m.owners[y][x] {
                Some(id) => if m.kinds.contains_key(id) && m.kinds[id] == Piece::Glass {
                    (spec_shatter(m, id), true)
                } else {
                    (spec_clear_cell(m, x, y), true)
                },
                None => (spec_clear_cell(m, x, y), true),
            }
        } else {
            (m, false)
        }
    }
}

impl TetrisCore {
    fn cell_contact_defense(cell: u8) -> (r: u8)
        ensures
            r == spec_contact_defense(cell),
    {
        if cell == CELL_EMPTY || cell == CELL_MOSS {
            0
        } else if cell == CELL_STONE {
            2
        } else {
            1
        }
    }

    /// Whether any cell of the board is owned by piece `id`.
    fn owner_present(&self, id: PieceId) -> (r: bool)
        requires
            self.wf(),
        ensures
            r == owner_ids(self@.owners).contains(id),
    {
        let ghost owners = self@.owners;
        let mut found = false;
        let mut y: usize = 0;
        while y < self.board_owner.len()
            invariant
                owners == self@.owners,
                self.wf(),
                owners.len() == self.board_owner@.len(),
                y <= owners.len(),
                found == owner_ids_upto(owners, y as int, 0).contains(id),
            decreases owners.len() - y,
        {
            let row = &self.board_owner[y];
            assert(row@ == owners[y as int]);
            let mut x: usize = 0;
            while x < row.len()
                invariant
                    row@ == owners[y as int],
                    0 <= y < owners.len(),
                    x <= row@.len(),
                    found == owner_ids_upto(owners, y as int, x as int).contains(id),
                decreases row@.len() - x,
            {
                proof {
                    lemma_owner_ids_step(owners, y as int, x as int);
                }
                if row[x] == Some(id) {
                    found = true;
                }
                x += 1;
            }
            proof {
                lemma_owner_ids_row(owners, y as int);
            }
            y += 1;
        }
        proof {
            lemma_owner_ids_all(owners);
        }
        found
    }

    fn clear_board_cell(&mut self, x: usize, y: usize)
        requires
            old(self).wf(),
        ensures
            final(self).wf(),
            final(self)@ == spec_clear_cell(old(self)@, x as int, y as int),
    {
        broadcast use vstd::std_specs::hash::group_hash_axioms;

        if y >= self.board.len() || x >= BOARD_WIDTH {
            return;
        }
        let ghost m = self@;
        let owner = self.board_owner[y][x];
        assert(owner == m.owners[y as int][x as int]);
        self.board[y].set(x, CELL_EMPTY);
        self.board_owner[y].set(x, None);
        assert(self@.board =~= m.board.update(y as int, m.board[y as int].update(x as int, CELL_EMPTY)));
        assert(self@.owners =~= m.owners.update(y as int, m.owners[y as int].update(x as int, None)));
        if let Some(piece_id) = owner {
            if !self.owner_present(piece_id) {
                self.placed_piece_kind.remove(&piece_id);
            }
        }
    }
}


/// Cell `(x, y)` comes before cell `(cx, cy)` in row-major order.
pub open spec fn before(y: int, x: int, cy: int, cx: int) -> bool {
    y < cy || (y == cy && x < cx)
}

/// Sand falling one pass, bottom to top: a sand tile above an empty cell moves down into it
/// (both cells lose their owners). `cells before (x, y)` have been processed.
pub open spec fn spec_sand_upto(m: CoreModel, y: int, x: int) -> (Seq<Seq<u8>>, Seq<Seq<Option<u32>>>, bool)
    decreases y, x,
{
    if y <= 1 && x <= 0 {
        (m.board, m.owners, false)
    } else if x <= 0 {
        spec_sand_upto(m, y - 1, BOARD_WIDTH as int)
    } else {
        let (b, o, moved) = spec_sand_upto(m, y, x - 1);
        let cx = x - 1;
        if y < b.len() && b[y][cx] == CELL_SAND && b[y - 1][cx] == CELL_EMPTY {
            (
                b.update(y - 1, b[y - 1].update(cx, CELL_SAND)).update(y, b[y].update(cx, CELL_EMPTY)),
                o.update(y - 1, o[y - 1].update(cx, None)).update(y, o[y].update(cx, None)),
                true,
            )
        } else {
            (b, o, moved)
        }
    }
}

pub open spec fn spec_settle_sand(m: CoreModel) -> (CoreModel, bool) {
    if m.board.len() < 2 {
        (m, false)
    } else {
        let (b, o, moved) = spec_sand_upto(m, m.board.len() as int, 0);
        (CoreModel { board: b, owners: o, ..m }, moved)
    }
}

impl TetrisCore {
    fn shatter_piece(&mut self, piece_id: PieceId)
        requires
            old(self).wf(),
        ensures
            final(self).wf(),
            final(self)@ == spec_shatter(old(self)@, piece_id),
    {
        broadcast use vstd::std_specs::hash::group_hash_axioms;

        let ghost m = self@;
        let mut y: usize = 0;
        while y < self.board.len()
            invariant
                self.wf(),
                self@ == (CoreModel { board: self@.board, owners: self@.owners, ..m }),
                model_wf(m),
                self@.board.len() == m.board.len(),
                y <= m.board.len(),
                forall|yy: int, xx: int| 0 <= yy < m.board.len() && 0 <= xx < BOARD_WIDTH ==>
                    #[trigger] self@.board[yy][xx] == if yy < y && m.owners[yy][xx] == Some(piece_id) { CELL_EMPTY } else { m.board[yy][xx] },
                forall|yy: int, xx: int| 0 <= yy < m.board.len() && 0 <= xx < BOARD_WIDTH ==>
                    #[trigger] self@.owners[yy][xx] == if yy < y && m.owners[yy][xx] == Some(piece_id) { None } else { m.owners[yy][xx] },
            decreases m.board.len() - y,
        {
            let mut x: usize = 0;
            while x < BOARD_WIDTH
                invariant
                    self.wf(),
                    self@ == (CoreModel { board: self@.board, owners: self@.owners, ..m }),
                    model_wf(m),
                    self@.board.len() == m.board.len(),
                    y < m.board.len(),
                    x <= BOARD_WIDTH,
                    forall|yy: int, xx: int| 0 <= yy < m.board.len() && 0 <= xx < BOARD_WIDTH ==>
                        #[trigger] self@.board[yy][xx] == if before(yy, xx, y as int, x as int) && m.owners[yy][xx] == Some(piece_id) { CELL_EMPTY } else { m.board[yy][xx] },
                    forall|yy: int, xx: int| 0 <= yy < m.board.len() && 0 <= xx < BOARD_WIDTH ==>
                        #[trigger] self@.owners[yy][xx] == if before(yy, xx, y as int, x as int) && m.owners[yy][xx] == Some(piece_id) { None } else { m.owners[yy][xx] },
                decreases BOARD_WIDTH - x,
            {
                let ghost pre = self@;
                assert(self.board_owner@[y as int]@ == pre.owners[y as int]);
                assert(self.board@[y as int]@ == pre.board[y as int]);
                if self.board_owner[y][x] == Some(piece_id) {
                    self.board[y].set(x, CELL_EMPTY);
                    self.board_owner[y].set(x, None);
                    assert(self@.board =~= pre.board.update(y as int, pre.board[y as int].update(x as int, CELL_EMPTY)));
                    assert(self@.owners =~= pre.owners.update(y as int, pre.owners[y as int].update(x as int, None)));
                }
                x += 1;
            }
            y += 1;
        }
        self.placed_piece_kind.remove(&piece_id);
        self.glass_shatter_count = sat_add_u32(self.glass_shatter_count, 1);
        let ghost t = spec_shatter(m, piece_id);
        assert forall|yy: int| 0 <= yy < m.board.len() implies #[trigger] self@.board[yy] =~= t.board[yy] by {
            assert(self@.board[yy].len() == BOARD_WIDTH && m.board[yy].len() == BOARD_WIDTH);
        }
        assert forall|yy: int| 0 <= yy < m.owners.len() implies #[trigger] self@.owners[yy] =~= t.owners[yy] by {
            assert(self@.owners[yy].len() == BOARD_WIDTH && m.owners[yy].len() == BOARD_WIDTH);
        }
        assert(self@.board =~= t.board);
        assert(self@.owners =~= t.owners);
    }

    fn apply_tile_damage(&mut self, x: usize, y: usize, damage: u8) -> (r: bool)
        requires
            old(self).wf(),
        ensures
            final(self).wf(),
            (final(self)@, r) == spec_tile_damage(old(self)@, x as int, y as int, damage),
    {
        broadcast use vstd::std_specs::hash::group_hash_axioms;

        if damage == 0 || y >= self.board.len() || x >= BOARD_WIDTH {
            return false;
        }
        let cell = self.board[y][x];
        if cell == CELL_EMPTY {
            return false;
        }
        if cell == CELL_DIRT || cell == CELL_SAND || cell == CELL_MOSS {
            self.clear_board_cell(x, y);
            return true;
        }
        if cell == CELL_GLASS {
            if let Some(piece_id) = self.board_owner[y][x] {
                let is_glass = match self.placed_piece_kind.get(&piece_id) {
                    Some(kind) => *kind == Piece::Glass,
                    None => false,
                };
                if is_glass {
                    self.shatter_piece(piece_id);
                    return true;
                }
            }
            self.clear_board_cell(x, y);
            return true;
        }
        false
    }
}


impl TetrisCore {
    fn settle_sand_cells(&mut self) -> (r: bool)
        requires
            old(self).wf(),
        ensures
            final(self).wf(),
            (final(self)@, r) == spec_settle_sand(old(self)@),
    {
        if self.board.len() < 2 {
            return false;
        }
        let ghost m = self@;
        let mut moved = false;
        let mut y: usize = 1;
        while y < self.board.len()
            invariant
                self.wf(),
                self@ == (CoreModel { board: self@.board, owners: self@.owners, ..m }),
                self@.board.len() == m.board.len(),
                1 <= y <= m.board.len(),
                (self@.board, self@.owners, moved) == spec_sand_upto(m, y as int, 0),
            decreases m.board.len() - y,
        {
            let mut x: usize = 0;
            while x < BOARD_WIDTH
                invariant
                    self.wf(),
                    self@ == (CoreModel { board: self@.board, owners: self@.owners, ..m }),
                    self@.board.len() == m.board.len(),
                    1 <= y < m.board.len(),
                    x <= BOARD_WIDTH,
                    (self@.board, self@.owners, moved) == spec_sand_upto(m, y as int, x as int),
                decreases BOARD_WIDTH - x,
            {
                let ghost pre = self@;
                assert(self.board@[y as int]@ == pre.board[y as int]);
                assert(self.board@[y - 1]@ == pre.board[y - 1]);
                if self.board[y][x] == CELL_SAND && self.board[y - 1][x] == CELL_EMPTY {
                    let below = y - 1;
                    assert(pre.board[y as int].len() == BOARD_WIDTH);
                    assert(pre.owners[y as int].len() == BOARD_WIDTH);
                    assert(self.board_owner@[y as int]@ == pre.owners[y as int]);
                    assert(pre.owners[y - 1].len() == BOARD_WIDTH);
                    assert(self.board_owner@[y - 1]@ == pre.owners[y - 1]);
                    let ghost bv = self.board@;
                    let ghost ov = self.board_owner@;
                    self.board[below].set(x, CELL_SAND);
                    self.board_owner[below].set(x, None);
                    assert(self.board@[y as int] == bv[y as int]);
                    assert(self.board_owner@[y as int] == ov[y as int]);
                    self.board[y].set(x, CELL_EMPTY);
                    self.board_owner[y].set(x, None);
                    moved = true;
                    assert(self@.board =~= pre.board.update(y - 1, pre.board[y - 1].update(x as int, CELL_SAND)).update(y as int, pre.board[y as int].update(x as int, CELL_EMPTY)));
                    assert(self@.owners =~= pre.owners.update(y - 1, pre.owners[y - 1].update(x as int, None)).update(y as int, pre.owners[y as int].update(x as int, None)));
                }
                x += 1;
            }
            y += 1;
        }
        moved
    }
}


// ---- Moss growth ---------------------------------------------------------------------------

/// Tiles that moss spreads through: dirt, moss and moss seeds.
pub open spec fn moss_path(cell: u8) -> bool {
    cell == CELL_DIRT || cell == CELL_MOSS || cell == CELL_MOSS_SEED
}

/// One neighbour step of the search: an in-bounds, unvisited path tile is marked visited and
/// queued.
pub open spec fn visit(
    board: Seq<Seq<u8>>,
    st: (Set<(int, int)>, Seq<(int, int)>),
    nx: int,
    ny: int,
    in_bounds: bool,
) -> (Set<(int, int)>, Seq<(int, int)>) {
    if in_bounds && !st.0.contains((nx, ny)) && moss_path(board[ny][nx]) {
        (st.0.insert((nx, ny)), st.1.push((nx, ny)))
    } else {
        st
    }
}

/// Queues the neighbours of `(x, y)` in the fixed order left, right, below, above.
pub open spec fn expand(
    board: Seq<Seq<u8>>,
    x: int,
    y: int,
    st: (Set<(int, int)>, Seq<(int, int)>),
) -> (Set<(int, int)>, Seq<(int, int)>) {
    let h = board.len() as int;
    let s1 = visit(board, st, x - 1, y, x > 0);
    let s2 = visit(board, s1, x + 1, y, x + 1 < BOARD_WIDTH);
    let s3 = visit(board, s2, x, y - 1, y > 0);
    visit(board, s3, x, y + 1, y + 1 < h)
}

/// Processing the first `i` cells of the breadth-first layer `frontier` at distance `d`: the
/// first dirt tile met at a positive distance is the result; cells closer than the maximum
/// distance of 3 queue their neighbours for the next layer.
pub open spec fn level_upto(
    board: Seq<Seq<u8>>,
    frontier: Seq<(int, int)>,
    d: int,
    vis0: Set<(int, int)>,
    i: int,
) -> (Option<(int, int)>, Set<(int, int)>, Seq<(int, int)>)
    decreases i,
{
    if i <= 0 {
        (None, vis0, Seq::empty())
    } else {
        let (f, v, n) = level_upto(board, frontier, d, vis0, i - 1);
        if f is Some {
            (f, v, n)
        } else {
            let c = frontier[i - 1];
            if d > 0 && board[c.1][c.0] == CELL_DIRT {
                (Some(c), v, n)
            } else if d >= 3 {
                (None, v, n)
            } else {
                let (v2, n2) = expand(board, c.0, c.1, (v, n));
                (None, v2, n2)
            }
        }
    }
}

pub open spec fn level(board: Seq<Seq<u8>>, frontier: Seq<(int, int)>, d: int, vis0: Set<(int, int)>) -> (
    Option<(int, int)>,
    Set<(int, int)>,
    Seq<(int, int)>,
) {
    level_upto(board, frontier, d, vis0, frontier.len() as int)
}

/// The dirt tile that a moss seed at `(sx, sy)` grows into: the first dirt tile reached by a
/// breadth-first search through dirt, moss and seed tiles, at most 3 steps from the seed.
pub open spec fn spec_moss_target(board: Seq<Seq<u8>>, sx: int, sy: int) -> Option<(int, int)> {
    let (f0, v0, n0) = level(board, seq![(sx, sy)], 0, set![(sx, sy)]);
    let (f1, v1, n1) = level(board, n0, 1, v0);
    if f1 is Some {
        f1
    } else {
        let (f2, v2, n2) = level(board, n1, 2, v1);
        if f2 is Some {
            f2
        } else {
            level(board, n2, 3, v2).0
        }
    }
}

/// Growing moss from the seed at `(sx, sy)`: the target dirt tile becomes unowned moss.
pub open spec fn spec_grow_moss(m: CoreModel, sx: int, sy: int) -> (CoreModel, bool) {
    if !(0 <= sy < m.board.len() && 0 <= sx < BOARD_WIDTH) {
        (m, false)
    } else {
        match spec_moss_target(m.board, sx, sy) {
            Some((x, y)) => (
                CoreModel {
                    board: m.board.update(y, m.board[y].update(x, CELL_MOSS)),
                    owners: m.owners.update(y, m.owners[y].update(x, None)),
                    ..m
                },
                true,
            ),
            None => (m, false),
        }
    }
}

/// The set of cells marked in a grid of flags.
pub open spec fn flag_set(flags: Seq<Seq<bool>>) -> Set<(int, int)> {
    Set::new(|c: (int, int)| 0 <= c.1 < flags.len() && 0 <= c.0 < flags[c.1].len() && flags[c.1][c.0])
}

pub open spec fn flags_view(v: Seq<Vec<bool>>) -> Seq<Seq<bool>> {
    v.map_values(|r: Vec<bool>| r@)
}

/// Every queued cell lies on the board and every marked cell too.
pub open spec fn on_board(cells: Seq<(int, int)>, h: int) -> bool {
    forall|i: int| 0 <= i < cells.len() ==> 0 <= (#[trigger] cells[i]).0 < BOARD_WIDTH && 0 <= cells[i].1 < h
}

proof fn lemma_flag_set_mark(flags: Seq<Seq<bool>>, x: int, y: int)
    requires
        0 <= y < flags.len(),
        0 <= x < flags[y].len(),
    ensures
        flag_set(flags.update(y, flags[y].update(x, true))) == flag_set(flags).insert((x, y)),
{
    assert(flag_set(flags.update(y, flags[y].update(x, true))) =~= flag_set(flags).insert((x, y)));
}

fn new_flags(h: usize) -> (r: Vec<Vec<bool>>)
    ensures
        r@.len() == h,
        forall|y: int| 0 <= y < h ==> (#[trigger] r@[y])@.len() == BOARD_WIDTH,
        flag_set(flags_view(r@)) == Set::<(int, int)>::empty(),
{
    let mut r: Vec<Vec<bool>> = Vec::new();
    let mut y: usize = 0;
    while y < h
        invariant
            y <= h,
            r@.len() == y,
            forall|j: int| 0 <= j < y ==> (#[trigger] r@[j])@.len() == BOARD_WIDTH,
            forall|j: int, k: int| 0 <= j < y && 0 <= k < BOARD_WIDTH ==> !(#[trigger] r@[j]@[k]),
        decreases h - y,
    {
        let mut row: Vec<bool> = Vec::new();
        let mut x: usize = 0;
        while x < BOARD_WIDTH
            invariant
                x <= BOARD_WIDTH,
                row@.len() == x,
                forall|k: int| 0 <= k < x ==> !row@[k],
            decreases BOARD_WIDTH - x,
        {
            row.push(false);
            x += 1;
        }
        r.push(row);
        y += 1;
    }
    assert(flag_set(flags_view(r@)) =~= Set::<(int, int)>::empty());
    r
}


pub open spec fn cells_view(v: Seq<(usize, usize)>) -> Seq<(int, int)> {
    v.map_values(|c: (usize, usize)| (c.0 as int, c.1 as int))
}

/// Flags shaped like a board of height `h`.
pub open spec fn flags_shape(flags: Seq<Vec<bool>>, h: int) -> bool {
    &&& flags.len() == h
    &&& forall|y: int| 0 <= y < h ==> (#[trigger] flags[y])@.len() == BOARD_WIDTH
}

proof fn lemma_level_found_stable(
    board: Seq<Seq<u8>>,
    frontier: Seq<(int, int)>,
    d: int,
    vis0: Set<(int, int)>,
    i: int,
    j: int,
)
    requires
        0 <= i <= j,
        level_upto(board, frontier, d, vis0, i).0 is Some,
    ensures
        level_upto(board, frontier, d, vis0, j) == level_upto(board, frontier, d, vis0, i),
    decreases j - i,
{
    if j > i {
        lemma_level_found_stable(board, frontier, d, vis0, i, j - 1);
    }
}

fn visit_cell(
    board: &Vec<Vec<u8>>,
    flags: &mut Vec<Vec<bool>>,
    next: &mut Vec<(usize, usize)>,
    nx: usize,
    ny: usize,
    in_bounds: bool,
)
    requires
        flags_shape(old(flags)@, board@.len() as int),
        forall|y: int| 0 <= y < board@.len() ==> (#[trigger] board@[y])@.len() == BOARD_WIDTH,
        in_bounds ==> nx < BOARD_WIDTH && ny < board@.len(),
        on_board(cells_view(old(next)@), board@.len() as int),
    ensures
        flags_shape(final(flags)@, board@.len() as int),
        on_board(cells_view(final(next)@), board@.len() as int),
        (flag_set(flags_view(final(flags)@)), cells_view(final(next)@)) == visit(
            rows_view(board@),
            (flag_set(flags_view(old(flags)@)), cells_view(old(next)@)),
            nx as int,
            ny as int,
            in_bounds,
        ),
{
    if !in_bounds {
        return;
    }
    let ghost fv = flags_view(flags@);
    assert(flags@[ny as int]@ == fv[ny as int]);
    assert(flag_set(fv).contains((nx as int, ny as int)) == flags@[ny as int]@[nx as int]);
    if flags[ny][nx] {
        return;
    }
    let cell = board[ny][nx];
    assert(cell == rows_view(board@)[ny as int][nx as int]);
    if !(cell == CELL_DIRT || cell == CELL_MOSS || cell == CELL_MOSS_SEED) {
        return;
    }
    let ghost nv = next@;
    let ghost old_flags = flags@;
    flags[ny].set(nx, true);
    next.push((nx, ny));
    proof {
        lemma_flag_set_mark(fv, nx as int, ny as int);
        assert(flags_view(flags@) =~= fv.update(ny as int, fv[ny as int].update(nx as int, true)));
        assert(cells_view(next@) =~= cells_view(nv).push((nx as int, ny as int)));
        assert forall|y: int| 0 <= y < board@.len() implies (#[trigger] flags@[y])@.len() == BOARD_WIDTH by {
            if y != ny {
                assert(flags@[y] == old_flags[y]);
            }
        }
        assert forall|i: int| 0 <= i < cells_view(next@).len() implies 0 <= (#[trigger] cells_view(next@)[i]).0 < BOARD_WIDTH
            && 0 <= cells_view(next@)[i].1 < board@.len() by {
            if i < nv.len() {
                assert(cells_view(next@)[i] == cells_view(nv)[i]);
            }
        }
    }
}

/// One layer of the moss search; see `level`.
fn search_level(
    board: &Vec<Vec<u8>>,
    frontier: &Vec<(usize, usize)>,
    d: usize,
    flags: &mut Vec<Vec<bool>>,
) -> (r: (Option<(usize, usize)>, Vec<(usize, usize)>))
    requires
        flags_shape(old(flags)@, board@.len() as int),
        forall|y: int| 0 <= y < board@.len() ==> (#[trigger] board@[y])@.len() == BOARD_WIDTH,
        on_board(cells_view(frontier@), board@.len() as int),
        d <= 3,
    ensures
        flags_shape(final(flags)@, board@.len() as int),
        on_board(cells_view(r.1@), board@.len() as int),
        ({
            let (f, v, n) = level(rows_view(board@), cells_view(frontier@), d as int, flag_set(flags_view(old(flags)@)));
            &&& f == (match r.0 {
                Some(c) => Some((c.0 as int, c.1 as int)),
                None => None,
            })
            &&& f is None ==> v == flag_set(flags_view(final(flags)@)) && n == cells_view(r.1@)
        }),
        r.0 matches Some(c) ==> c.0 < BOARD_WIDTH && c.1 < board@.len(),
{
    let ghost b = rows_view(board@);
    let ghost fr = cells_view(frontier@);
    let ghost vis0 = flag_set(flags_view(flags@));
    let h = board.len();
    let mut next: Vec<(usize, usize)> = Vec::new();
    let mut i: usize = 0;
    while i < frontier.len()
        invariant
            h == board@.len(),
            vis0 == flag_set(flags_view(old(flags)@)),
            b == rows_view(board@),
            fr == cells_view(frontier@),
            flags_shape(flags@, board@.len() as int),
            forall|y: int| 0 <= y < board@.len() ==> (#[trigger] board@[y])@.len() == BOARD_WIDTH,
            on_board(fr, board@.len() as int),
            on_board(cells_view(next@), board@.len() as int),
            d <= 3,
            i <= frontier@.len(),
            level_upto(b, fr, d as int, vis0, i as int) == (
                None::<(int, int)>,
                flag_set(flags_view(flags@)),
                cells_view(next@),
            ),
        decreases frontier@.len() - i,
    {
        let (x, y) = frontier[i];
        assert(fr[i as int] == (x as int, y as int));
        assert(0 <= x < BOARD_WIDTH && y < board@.len());
        assert(board@[y as int]@ == b[y as int]);
        if d > 0 && board[y][x] == CELL_DIRT {
            proof {
                assert(level_upto(b, fr, d as int, vis0, i + 1).0 == Some((x as int, y as int)));
                lemma_level_found_stable(b, fr, d as int, vis0, i + 1, fr.len() as int);
            }
            return (Some((x, y)), next);
        }
        if d < 3 {
            let ghost st0 = (flag_set(flags_view(flags@)), cells_view(next@));
            visit_cell(board, flags, &mut next, if x > 0 { x - 1 } else { 0 }, y, x > 0);
            visit_cell(board, flags, &mut next, x + 1, y, x + 1 < BOARD_WIDTH);
            visit_cell(board, flags, &mut next, x, if y > 0 { y - 1 } else { 0 }, y > 0);
            visit_cell(board, flags, &mut next, x, y + 1, y + 1 < h);
            assert((flag_set(flags_view(flags@)), cells_view(next@)) == expand(b, x as int, y as int, st0));
        }
        i += 1;
    }
    (None, next)
}


proof fn lemma_level_zero_finds_nothing(
    board: Seq<Seq<u8>>,
    frontier: Seq<(int, int)>,
    vis0: Set<(int, int)>,
    i: int,
)
    ensures
        level_upto(board, frontier, 0, vis0, i).0 is None,
    decreases i,
{
    if i > 0 {
        lemma_level_zero_finds_nothing(board, frontier, vis0, i - 1);
    }
}

impl TetrisCore {
    fn grow_moss_from_seed(&mut self, seed_x: usize, seed_y: usize) -> (r: bool)
        requires
            old(self).wf(),
        ensures
            final(self).wf(),
            (final(self)@, r) == spec_grow_moss(old(self)@, seed_x as int, seed_y as int),
    {
        if seed_y >= self.board.len() || seed_x >= BOARD_WIDTH {
            return false;
        }
        let ghost m = self@;
        assert(rows_view(self.board@) == m.board);
        let mut flags = new_flags(self.board.len());
        proof {
            lemma_flag_set_mark(flags_view(flags@), seed_x as int, seed_y as int);
        }
        let ghost fl0 = flags@;
        flags[seed_y].set(seed_x, true);
        proof {
            assert(flags_view(flags@) =~= flags_view(fl0).update(seed_y as int, flags_view(fl0)[seed_y as int].update(seed_x as int, true)));
            assert(flag_set(flags_view(flags@)) =~= set![(seed_x as int, seed_y as int)]);
            assert forall|y: int| 0 <= y < self.board@.len() implies (#[trigger] flags@[y])@.len() == BOARD_WIDTH by {
                if y != seed_y {
                    assert(flags@[y] == fl0[y]);
                }
            }
            assert forall|y: int| 0 <= y < self.board@.len() implies (#[trigger] self.board@[y])@.len() == BOARD_WIDTH by {
                assert(self.board@[y]@ == m.board[y]);
            }
        }
        let mut frontier: Vec<(usize, usize)> = Vec::new();
        frontier.push((seed_x, seed_y));
        assert(cells_view(frontier@) =~= seq![(seed_x as int, seed_y as int)]);
        let ghost b = m.board;
        let ghost v0 = flag_set(flags_view(flags@));
        let (_f0, n0) = search_level(&self.board, &frontier, 0, &mut flags);
        proof {
            lemma_level_zero_finds_nothing(b, cells_view(frontier@), v0, 1);
        }
        let (f1, n1) = search_level(&self.board, &n0, 1, &mut flags);
        let target = match f1 {
            Some(c) => Some(c),
            None => {
                let (f2, n2) = search_level(&self.board, &n1, 2, &mut flags);
                match f2 {
                    Some(c) => Some(c),
                    None => {
                        let (f3, _n3) = search_level(&self.board, &n2, 3, &mut flags);
                        f3
                    },
                }
            },
        };
        assert(spec_moss_target(b, seed_x as int, seed_y as int) == match target {
            Some(c) => Some((c.0 as int, c.1 as int)),
            None => None::<(int, int)>,
        });
        match target {
            Some((x, y)) => {
                assert(self.board@[y as int]@ == m.board[y as int]);
                assert(self.board_owner@[y as int]@ == m.owners[y as int]);
                self.board[y].set(x, CELL_MOSS);
                self.board_owner[y].set(x, None);
                assert(self@.board =~= m.board.update(y as int, m.board[y as int].update(x as int, CELL_MOSS)));
                assert(self@.owners =~= m.owners.update(y as int, m.owners[y as int].update(x as int, None)));
                true
            },
            None => false,
        }
    }
}


/// Moss seed tiles before cell `(x, y)` in row-major order.
pub open spec fn spec_seeds_upto(board: Seq<Seq<u8>>, y: int, x: int) -> Seq<(int, int)>
    decreases y, x,
{
    if y <= 0 && x <= 0 {
        Seq::empty()
    } else if x <= 0 {
        spec_seeds_upto(board, y - 1, BOARD_WIDTH as int)
    } else {
        let p = spec_seeds_upto(board, y, x - 1);
        if board[y][x - 1] == CELL_MOSS_SEED {
            p.push((x - 1, y))
        } else {
            p
        }
    }
}

pub open spec fn spec_grow_all(m: CoreModel, seeds: Seq<(int, int)>, k: int) -> CoreModel
    decreases k,
{
    if k <= 0 {
        m
    } else {
        let prev = spec_grow_all(m, seeds, k - 1);
        spec_grow_moss(prev, seeds[k - 1].0, seeds[k - 1].1).0
    }
}

/// One material turn: unless a clear is pending, every moss seed (found before any grows)
/// grows once, sand settles one step, and full rows start clearing.
pub open spec fn spec_material_turn(m: CoreModel) -> CoreModel {
    if line_clear_active(m) {
        m
    } else {
        let seeds = spec_seeds_upto(m.board, m.board.len() as int, 0);
        let grown = spec_grow_all(m, seeds, seeds.len() as int);
        spec_start_clear(spec_settle_sand(grown).0)
    }
}

impl TetrisCore {
    /// Advances the board materials by one game turn; see `spec_material_turn`.
    pub fn advance_material_turn(&mut self)
        requires
            old(self).wf(),
        ensures
            final(self).wf(),
            final(self)@ == spec_material_turn(old(self)@),
    {
        if self.is_line_clear_active() {
            return;
        }
        let ghost m = self@;
        let mut seeds: Vec<(usize, usize)> = Vec::new();
        let mut y: usize = 0;
        while y < self.board.len()
            invariant
                self@ == m,
                self.wf(),
                y <= m.board.len(),
                cells_view(seeds@) == spec_seeds_upto(m.board, y as int, 0),
            decreases m.board.len() - y,
        {
            assert(self.board@[y as int]@ == m.board[y as int]);
            let mut x: usize = 0;
            while x < BOARD_WIDTH
                invariant
                    self@ == m,
                    self.wf(),
                    y < m.board.len(),
                    x <= BOARD_WIDTH,
                    self.board@[y as int]@ == m.board[y as int],
                    cells_view(seeds@) == spec_seeds_upto(m.board, y as int, x as int),
                decreases BOARD_WIDTH - x,
            {
                let ghost sv = seeds@;
                if self.board[y][x] == CELL_MOSS_SEED {
                    seeds.push((x, y));
                    assert(cells_view(seeds@) =~= cells_view(sv).push((x as int, y as int)));
                }
                x += 1;
            }
            y += 1;
        }
        let ghost sd = cells_view(seeds@);
        let mut k: usize = 0;
        while k < seeds.len()
            invariant
                self.wf(),
                sd == cells_view(seeds@),
                k <= seeds@.len(),
                self@ == spec_grow_all(m, sd, k as int),
            decreases seeds@.len() - k,
        {
            let (sx, sy) = seeds[k];
            self.grow_moss_from_seed(sx, sy);
            k += 1;
        }
        self.settle_sand_cells();
        self.start_line_clear_phase_if_needed();
    }
}


// ---- Piece tips ------------------------------------------------------------------------------

impl TetrisCore {
    fn piece_tile_role(piece: Piece, rotation: u8, gx: usize, gy: usize) -> (r: PieceTileRole)
        requires
            gx < 4,
            gy < 4,
        ensures
            (r == PieceTileRole::Tip) == spec_is_tip(piece, rotation as int, gx as int, gy as int),
    {
        match piece {
            Piece::I => {
                let grid = piece_grid(piece, rotation);
                proof {
                    lemma_piece_grid_size(piece, rotation as int);
                }
                let size = grid.size();
                if grid.cell(gx, gy) != 1 {
                    assert(!spec_is_tip(piece, rotation as int, gx as int, gy as int));
                    return PieceTileRole::Body;
                }
                if rotation % 2 == 0 {
                    let mut x: usize = size;
                    while x > 0 && grid.cell(x - 1, gy) != 1
                        invariant
                            piece == Piece::I,
                            grid@ == spec_piece_grid(piece, rotation as int),
                            size == grid@.size,
                            size == 4,
                            gx < x <= size,
                            forall|k: int| x <= k < size ==> !#[trigger] spec_piece_cell(piece, rotation as int, k, gy as int),
                            spec_piece_cell(piece, rotation as int, gx as int, gy as int),
                            gy < size,
                        decreases x,
                    {
                        x -= 1;
                    }
                    if x > 0 && x - 1 == gx {
                        assert(spec_is_tip(piece, rotation as int, gx as int, gy as int));
                        PieceTileRole::Tip
                    } else {
                        assert(spec_piece_cell(piece, rotation as int, x - 1, gy as int));
                        assert(!spec_is_tip(piece, rotation as int, gx as int, gy as int));
                        PieceTileRole::Body
                    }
                } else {
                    let mut y: usize = size;
                    while y > 0 && grid.cell(gx, y - 1) != 1
                        invariant
                            piece == Piece::I,
                            grid@ == spec_piece_grid(piece, rotation as int),
                            size == grid@.size,
                            size == 4,
                            gy < y <= size,
                            forall|k: int| y <= k < size ==> !#[trigger] spec_piece_cell(piece, rotation as int, gx as int, k),
                            spec_piece_cell(piece, rotation as int, gx as int, gy as int),
                            gx < size,
                        decreases y,
                    {
                        y -= 1;
                    }
                    if y > 0 && y - 1 == gy {
                        assert(spec_is_tip(piece, rotation as int, gx as int, gy as int));
                        PieceTileRole::Tip
                    } else {
                        assert(spec_piece_cell(piece, rotation as int, gx as int, y - 1));
                        assert(!spec_is_tip(piece, rotation as int, gx as int, gy as int));
                        PieceTileRole::Body
                    }
                }
            },
            _ => PieceTileRole::Body,
        }
    }
}


/// The board cell under the tip of the active piece, if it has one.
pub open spec fn spec_active_tip(m: CoreModel) -> Option<(int, int)> {
    match m.current_piece {
        None => None,
        Some(piece) => match spec_tip_cell(piece, m.rotation as int) {
            None => None,
            Some((gx, gy)) => Some((board_x(piece, m.pos, gx), board_y(piece, m.pos, gy))),
        },
    }
}

/// Attack and impetus of a spear tip: 2 for an I piece pointing down and falling, else 1.
pub open spec fn spec_spear_power(rotation: u8, dir: Vec2i) -> u8 {
    if dir == (Vec2i { x: 0, y: -1i32 }) && rotation % 2 == 1 {
        2
    } else {
        1
    }
}

impl TetrisCore {
    fn tip_grid_cell(piece: Piece, rotation: u8) -> (r: Option<(usize, usize)>)
        ensures
            match r {
                Some((gx, gy)) => spec_tip_cell(piece, rotation as int) == Some((gx as int, gy as int)),
                None => spec_tip_cell(piece, rotation as int) is None,
            },
    {
        let grid = piece_grid(piece, rotation);
        let size = grid.size();
        let mut gy: usize = 0;
        while gy < size
            invariant
                grid@ == spec_piece_grid(piece, rotation as int),
                size == grid@.size,
                1 <= size <= 4,
                gy <= size,
                forall|a: int, b: int| 0 <= b < gy && 0 <= a < size ==> !spec_is_tip(piece, rotation as int, a, b),
            decreases size - gy,
        {
            let mut gx: usize = 0;
            while gx < size
                invariant
                    grid@ == spec_piece_grid(piece, rotation as int),
                    size == grid@.size,
                    1 <= size <= 4,
                    gy < size,
                    gx <= size,
                    forall|a: int, b: int| (0 <= b < gy && 0 <= a < size) || (b == gy && 0 <= a < gx) ==> !spec_is_tip(piece, rotation as int, a, b),
                decreases size - gx,
            {
                if grid.cell(gx, gy) == 1 {
                    if Self::piece_tile_role(piece, rotation, gx, gy) == PieceTileRole::Tip {
                        proof {
                            lemma_tip_unique(piece, rotation as int, gx as int, gy as int);
                        }
                        return Some((gx, gy));
                    }
                } else {
                    assert(!spec_piece_cell(piece, rotation as int, gx as int, gy as int));
                }
                gx += 1;
            }
            gy += 1;
        }
        proof {
            match spec_tip_cell(piece, rotation as int) {
                Some((a, b)) => {
                    lemma_tip_unique(piece, rotation as int, a, b);
                    lemma_piece_grid_size(piece, rotation as int);
                },
                None => {},
            }
        }
        None
    }

    /// The board cell under the tip of the active piece: the right end of a horizontal I
    /// piece or the bottom end of a vertical one; other pieces have no tip.
    pub fn active_piece_tip_cell(&self) -> (r: Option<(i32, i32)>)
        requires
            self.wf(),
        ensures
            match r {
                Some((x, y)) => spec_active_tip(self@) == Some((x as int, y as int)),
                None => spec_active_tip(self@) is None,
            },
    {
        let piece = match self.current_piece {
            Some(piece) => piece,
            None => return None,
        };
        let (gx, gy) = match Self::tip_grid_cell(piece, self.current_piece_rotation) {
            Some(c) => c,
            None => return None,
        };
        let offset = piece_board_offset(piece);
        Some((
            self.current_piece_pos.x + gx as i32 - offset,
            self.current_piece_pos.y - gy as i32 + offset,
        ))
    }

    fn is_i_piece_facing_down(rotation: u8) -> (r: bool)
        ensures
            r == (rotation % 2 == 1),
    {
        rotation % piece_rotation_states(Piece::I) == 1
    }

    fn spear_tip_impact_profile(rotation: u8, impact_dir: Vec2i) -> (r: ContactImpactProfile)
        ensures
            r.attack == spec_spear_power(rotation, impact_dir),
            r.impetus == spec_spear_power(rotation, impact_dir),
    {
        if impact_dir == Vec2i::new(0, -1) && Self::is_i_piece_facing_down(rotation) {
            ContactImpactProfile { attack: 2, impetus: 2 }
        } else {
            ContactImpactProfile { attack: 1, impetus: 1 }
        }
    }
}


// ---- Counting filled tiles -------------------------------------------------------------------

pub open spec fn row_filled(r: Seq<u8>) -> nat
    decreases r.len(),
{
    if r.len() == 0 {
        0
    } else {
        row_filled(r.drop_last()) + if r.last() != CELL_EMPTY { 1nat } else { 0nat }
    }
}

/// Number of non-empty tiles on a board.
pub open spec fn board_filled(b: Seq<Seq<u8>>) -> nat
    decreases b.len(),
{
    if b.len() == 0 {
        0
    } else {
        board_filled(b.drop_last()) + row_filled(b.last())
    }
}

/// `b2` is `b1` with some tiles emptied.
pub open spec fn zeroes_only(b1: Seq<Seq<u8>>, b2: Seq<Seq<u8>>) -> bool {
    &&& b1.len() == b2.len()
    &&& forall|y: int| 0 <= y < b1.len() ==> (#[trigger] b1[y]).len() == b2[y].len()
    &&& forall|y: int, x: int| 0 <= y < b1.len() && 0 <= x < b1[y].len() ==>
        #[trigger] b2[y][x] == b1[y][x] || b2[y][x] == CELL_EMPTY
}

/// `b2` is `b1` with some tiles emptied, at least one of them filled before.
pub open spec fn zeroes_some(b1: Seq<Seq<u8>>, b2: Seq<Seq<u8>>) -> bool {
    &&& zeroes_only(b1, b2)
    &&& exists|y: int, x: int| 0 <= y < b1.len() && 0 <= x < b1[y].len() && #[trigger] b1[y][x] != CELL_EMPTY
        && b2[y][x] == CELL_EMPTY
}

proof fn lemma_row_filled(r1: Seq<u8>, r2: Seq<u8>)
    requires
        r1.len() == r2.len(),
        forall|x: int| 0 <= x < r1.len() ==> #[trigger] r2[x] == r1[x] || r2[x] == CELL_EMPTY,
    ensures
        row_filled(r2) <= row_filled(r1),
        (exists|x: int| 0 <= x < r1.len() && #[trigger] r1[x] != CELL_EMPTY && r2[x] == CELL_EMPTY)
            ==> row_filled(r2) < row_filled(r1),
    decreases r1.len(),
{
    if r1.len() > 0 {
        let a = r1.drop_last();
        let b = r2.drop_last();
        assert forall|x: int| 0 <= x < a.len() implies #[trigger] b[x] == a[x] || b[x] == CELL_EMPTY by {
            assert(r2[x] == r1[x] || r2[x] == CELL_EMPTY);
        }
        lemma_row_filled(a, b);
        if exists|x: int| 0 <= x < r1.len() && #[trigger] r1[x] != CELL_EMPTY && r2[x] == CELL_EMPTY {
            let x = choose|x: int| 0 <= x < r1.len() && #[trigger] r1[x] != CELL_EMPTY && r2[x] == CELL_EMPTY;
            if x < r1.len() - 1 {
                assert(a[x] != CELL_EMPTY && b[x] == CELL_EMPTY);
            }
        }
        assert(r2[r1.len() - 1] == r1[r1.len() - 1] || r2[r1.len() - 1] == CELL_EMPTY);
    }
}

pub proof fn lemma_board_filled(b1: Seq<Seq<u8>>, b2: Seq<Seq<u8>>)
    requires
        zeroes_only(b1, b2),
    ensures
        board_filled(b2) <= board_filled(b1),
        zeroes_some(b1, b2) ==> board_filled(b2) < board_filled(b1),
    decreases b1.len(),
{
    if b1.len() > 0 {
        let l = b1.len() - 1;
        let a = b1.drop_last();
        let b = b2.drop_last();
        assert forall|y: int| 0 <= y < a.len() implies (#[trigger] a[y]).len() == b[y].len() by {
            assert(b1[y].len() == b2[y].len());
        }
        assert forall|y: int, x: int| 0 <= y < a.len() && 0 <= x < a[y].len() implies
            #[trigger] b[y][x] == a[y][x] || b[y][x] == CELL_EMPTY by {
            assert(b2[y][x] == b1[y][x] || b2[y][x] == CELL_EMPTY);
        }
        lemma_board_filled(a, b);
        assert(b1[l].len() == b2[l].len());
        assert forall|x: int| 0 <= x < b1[l].len() implies #[trigger] b2[l][x] == b1[l][x] || b2[l][x] == CELL_EMPTY by {
            assert(b2[l][x] == b1[l][x] || b2[l][x] == CELL_EMPTY);
        }
        lemma_row_filled(b1[l], b2[l]);
        if zeroes_some(b1, b2) {
            let (y, x) = choose|y: int, x: int| 0 <= y < b1.len() && 0 <= x < b1[y].len() && #[trigger] b1[y][x] != CELL_EMPTY
                && b2[y][x] == CELL_EMPTY;
            if y < l {
                assert(a[y][x] != CELL_EMPTY && b[y][x] == CELL_EMPTY);
                assert(zeroes_some(a, b));
            } else {
                assert(b1[l][x] != CELL_EMPTY && b2[l][x] == CELL_EMPTY);
            }
        }
    }
}

proof fn lemma_zeroes_trans(b1: Seq<Seq<u8>>, b2: Seq<Seq<u8>>, b3: Seq<Seq<u8>>)
    requires
        zeroes_only(b1, b2),
        zeroes_only(b2, b3),
    ensures
        zeroes_only(b1, b3),
        zeroes_some(b1, b2) || zeroes_some(b2, b3) ==> zeroes_some(b1, b3),
{
    assert forall|y: int, x: int| 0 <= y < b1.len() && 0 <= x < b1[y].len() implies
        #[trigger] b3[y][x] == b1[y][x] || b3[y][x] == CELL_EMPTY by {
        assert(b2[y][x] == b1[y][x] || b2[y][x] == CELL_EMPTY);
        assert(b3[y][x] == b2[y][x] || b3[y][x] == CELL_EMPTY);
    }
    if zeroes_some(b1, b2) {
        let (y, x) = choose|y: int, x: int| 0 <= y < b1.len() && 0 <= x < b1[y].len() && #[trigger] b1[y][x] != CELL_EMPTY
            && b2[y][x] == CELL_EMPTY;
        assert(b3[y][x] == b2[y][x] || b3[y][x] == CELL_EMPTY);
        assert(b1[y][x] != CELL_EMPTY && b3[y][x] == CELL_EMPTY);
    }
    if zeroes_some(b2, b3) {
        let (y, x) = choose|y: int, x: int| 0 <= y < b2.len() && 0 <= x < b2[y].len() && #[trigger] b2[y][x] != CELL_EMPTY
            && b3[y][x] == CELL_EMPTY;
        assert(b2[y][x] == b1[y][x] || b2[y][x] == CELL_EMPTY);
        assert(b1[y][x] != CELL_EMPTY && b3[y][x] == CELL_EMPTY);
    }
}

// ---- Impacts -----------------------------------------------------------------------------------

/// `m2` differs from `m1` at most in the board, the owners, the piece kinds and the shatter
/// counter.
pub open spec fn cells_frame(m1: CoreModel, m2: CoreModel) -> bool {
    m2 == (CoreModel {
        board: m2.board,
        owners: m2.owners,
        kinds: m2.kinds,
        glass_shatter_count: m2.glass_shatter_count,
        ..m1
    })
}

/// A crush travelling down a column from `(x, y)`: each filled tile weaker than the attack
/// takes the damage; the impetus drops by each broken tile's defense (saturating) and the
/// crush stops when it is spent, or at an empty, resisting or unbreakable tile, or the board
/// edge. Reports whether any tile broke.
pub open spec fn spec_chain(m: CoreModel, x: int, y: int, attack: u8, impetus: int) -> (CoreModel, bool)
    decreases y + 1,
{
    if !(0 <= y < m.board.len() && 0 <= x < BOARD_WIDTH) {
        (m, false)
    } else {
        let cell = m.board[y][x];
        let def = spec_contact_defense(cell);
        if cell == CELL_EMPTY || attack <= def {
            (m, false)
        } else {
            let (m2, ok) = spec_tile_damage(m, x, y, attack);
            if !ok {
                (m, false)
            } else {
                let rem = if impetus - def < 0 { 0 } else { impetus - def };
                if rem == 0 {
                    (m2, true)
                } else {
                    (spec_chain(m2, x, y - 1, attack, rem).0, true)
                }
            }
        }
    }
}

pub open spec fn spec_contact_chain(m: CoreModel, x: int, y: int, attack: u8, impetus: u8) -> (CoreModel, bool) {
    if attack == 0 || impetus == 0 {
        (m, false)
    } else {
        spec_chain(m, x, y, attack, impetus as int)
    }
}

proof fn lemma_clear_cell_frame(m: CoreModel, x: int, y: int)
    requires
        model_wf(m),
    ensures
        cells_frame(m, spec_clear_cell(m, x, y)),
        zeroes_only(m.board, spec_clear_cell(m, x, y).board),
        board_shape_ok(spec_clear_cell(m, x, y).board, spec_clear_cell(m, x, y).owners),
        (0 <= y < m.board.len() && 0 <= x < BOARD_WIDTH && m.board[y][x] != CELL_EMPTY) ==> zeroes_some(
            m.board,
            spec_clear_cell(m, x, y).board,
        ),
{
    let m2 = spec_clear_cell(m, x, y);
    if 0 <= y < m.board.len() && 0 <= x < BOARD_WIDTH {
        assert(m2.board[y][x] == CELL_EMPTY);
    }
}

proof fn lemma_shatter_frame(m: CoreModel, id: u32, x: int, y: int)
    requires
        model_wf(m),
        0 <= y < m.board.len(),
        0 <= x < BOARD_WIDTH,
        m.owners[y][x] == Some(id),
        m.board[y][x] != CELL_EMPTY,
    ensures
        cells_frame(m, spec_shatter(m, id)),
        zeroes_some(m.board, spec_shatter(m, id).board),
        board_shape_ok(spec_shatter(m, id).board, spec_shatter(m, id).owners),
{
    let m2 = spec_shatter(m, id);
    assert(m2.board[y][x] == CELL_EMPTY);
}

proof fn lemma_tile_damage_frame(m: CoreModel, x: int, y: int, damage: u8)
    requires
        model_wf(m),
    ensures
        cells_frame(m, spec_tile_damage(m, x, y, damage).0),
        board_shape_ok(spec_tile_damage(m, x, y, damage).0.board, spec_tile_damage(m, x, y, damage).0.owners),
        spec_tile_damage(m, x, y, damage).1 ==> zeroes_some(m.board, spec_tile_damage(m, x, y, damage).0.board),
        !spec_tile_damage(m, x, y, damage).1 ==> spec_tile_damage(m, x, y, damage).0 == m,
{
    lemma_clear_cell_frame(m, x, y);
    if damage != 0 && 0 <= y < m.board.len() && 0 <= x < BOARD_WIDTH && m.board[y][x] == CELL_GLASS {
        if let Some(id) = m.owners[y][x] {
            lemma_shatter_frame(m, id, x, y);
        }
    }
}

/// A model whose board and owners kept their shape still satisfies the invariant.
proof fn lemma_frame_wf(m1: CoreModel, m2: CoreModel)
    requires
        model_wf(m1),
        cells_frame(m1, m2),
        board_shape_ok(m2.board, m2.owners),
        m2.board.len() == m1.board.len(),
    ensures
        model_wf(m2),
{
}

proof fn lemma_chain_frame(m: CoreModel, x: int, y: int, attack: u8, impetus: int)
    requires
        model_wf(m),
    ensures
        model_wf(spec_chain(m, x, y, attack, impetus).0),
        cells_frame(m, spec_chain(m, x, y, attack, impetus).0),
        zeroes_only(m.board, spec_chain(m, x, y, attack, impetus).0.board),
        spec_chain(m, x, y, attack, impetus).1 ==> zeroes_some(m.board, spec_chain(m, x, y, attack, impetus).0.board),
        !spec_chain(m, x, y, attack, impetus).1 ==> spec_chain(m, x, y, attack, impetus).0 == m,
    decreases y + 1,
{
    if 0 <= y < m.board.len() && 0 <= x < BOARD_WIDTH {
        let cell = m.board[y][x];
        let def = spec_contact_defense(cell);
        if !(cell == CELL_EMPTY || attack <= def) {
            let (m2, ok) = spec_tile_damage(m, x, y, attack);
            lemma_tile_damage_frame(m, x, y, attack);
            if ok {
                lemma_frame_wf(m, m2);
                let rem = if impetus - def < 0 { 0 } else { impetus - def };
                if rem != 0 {
                    lemma_chain_frame(m2, x, y - 1, attack, rem);
                    let m3 = spec_chain(m2, x, y - 1, attack, rem).0;
                    lemma_zeroes_trans(m.board, m2.board, m3.board);
                }
            }
        }
    }
}

impl TetrisCore {
    fn apply_contact_chain_crush(
        &mut self,
        start_x: usize,
        start_y: usize,
        impact_dir: Vec2i,
        impact_profile: ContactImpactProfile,
    ) -> (r: bool)
        requires
            old(self).wf(),
            impact_dir == (Vec2i { x: 0, y: -1i32 }),
            start_x < BOARD_WIDTH,
            start_y < old(self)@.board.len(),
        ensures
            final(self).wf(),
            (final(self)@, r) == spec_contact_chain(
                old(self)@,
                start_x as int,
                start_y as int,
                impact_profile.attack,
                impact_profile.impetus,
            ),
    {
        if impact_profile.attack == 0 || impact_profile.impetus == 0 {
            return false;
        }
        let ghost m0 = self@;
        let attack = impact_profile.attack;
        let ghost target = spec_chain(m0, start_x as int, start_y as int, attack, impact_profile.impetus as int);
        assert(self@.board.len() == self.board@.len());
        let mut x: i32 = start_x as i32;
        let mut y: i32 = start_y as i32;
        let mut remaining: u8 = impact_profile.impetus;
        let mut crushed_any = false;
        loop
            invariant
                self.wf(),
                impact_dir == (Vec2i { x: 0, y: -1i32 }),
                x as int == start_x as int,
                -1 <= y,
                y < self@.board.len(),
                target == spec_chain(m0, start_x as int, start_y as int, attack, impact_profile.impetus as int),
                crushed_any ==> target == (spec_chain(self@, x as int, y as int, attack, remaining as int).0, true),
                !crushed_any ==> target == spec_chain(self@, x as int, y as int, attack, remaining as int),
                !crushed_any ==> self@ == m0,
            ensures
                self.wf(),
                target == (self@, crushed_any),
            decreases y + 1,
        {
            if x < 0 || x >= BOARD_WIDTH as i32 || y < 0 || y >= self.board.len() as i32 {
                break;
            }
            let tx = x as usize;
            let ty = y as usize;
            assert(self.board@[ty as int]@ == self@.board[ty as int]);
            let cell = self.board[ty][tx];
            if cell == CELL_EMPTY {
                break;
            }
            let defense = Self::cell_contact_defense(cell);
            if attack <= defense {
                break;
            }
            let ghost pre = self@;
            if !self.apply_tile_damage(tx, ty, attack) {
                break;
            }
            proof {
                lemma_tile_damage_frame(pre, tx as int, ty as int, attack);
            }
            crushed_any = true;
            remaining = remaining.saturating_sub(defense);
            if remaining == 0 {
                break;
            }
            x += impact_dir.x;
            y += impact_dir.y;
        }
        crushed_any
    }
}


/// The tiles that the active piece, moved to `pos`, would run into, in grid order without
/// repeats; `None` when one of its cells would leave the board.
pub open spec fn spec_collide_upto(m: CoreModel, piece: Piece, pos: Vec2i, gy: int, gx: int) -> Option<Seq<(int, int)>>
    decreases gy, gx,
{
    let size = spec_piece_grid(piece, m.rotation as int).size as int;
    if gy <= 0 && gx <= 0 {
        Some(Seq::empty())
    } else if gx <= 0 {
        spec_collide_upto(m, piece, pos, gy - 1, size)
    } else {
        match spec_collide_upto(m, piece, pos, gy, gx - 1) {
            None => None,
            Some(cells) => {
                let cx = gx - 1;
                if !spec_piece_cell(piece, m.rotation as int, cx, gy) {
                    Some(cells)
                } else {
                    let tx = board_x(piece, pos, cx);
                    let ty = board_y(piece, pos, gy);
                    if !(0 <= tx < BOARD_WIDTH && 0 <= ty < m.board.len()) {
                        None
                    } else if m.board[ty][tx] == CELL_EMPTY || cells.contains((tx, ty)) {
                        Some(cells)
                    } else {
                        Some(cells.push((tx, ty)))
                    }
                }
            },
        }
    }
}

/// Crushing down from each of the first `k` cells in turn.
pub open spec fn spec_crush_all(m: CoreModel, cells: Seq<(int, int)>, k: int, attack: u8, impetus: u8) -> (CoreModel, bool)
    decreases k,
{
    if k <= 0 {
        (m, false)
    } else {
        let (m1, b1) = spec_crush_all(m, cells, k - 1, attack, impetus);
        let (m2, b2) = spec_contact_chain(m1, cells[k - 1].0, cells[k - 1].1, attack, impetus);
        (m2, b1 || b2)
    }
}

/// A collision of the active piece moved to `pos`: unless a cell would leave the board, every
/// tile it runs into starts a crush; reports whether any tile broke.
pub open spec fn spec_collision(m: CoreModel, piece: Piece, pos: Vec2i, attack: u8, impetus: u8) -> (CoreModel, bool) {
    if attack == 0 || impetus == 0 {
        (m, false)
    } else {
        let size = spec_piece_grid(piece, m.rotation as int).size as int;
        match spec_collide_upto(m, piece, pos, size, 0) {
            None => (m, false),
            Some(cells) => if cells.len() == 0 {
                (m, false)
            } else {
                spec_crush_all(m, cells, cells.len() as int, attack, impetus)
            },
        }
    }
}

fn contains_cell(v: &Vec<(usize, usize)>, c: (usize, usize)) -> (r: bool)
    ensures
        r == cells_view(v@).contains((c.0 as int, c.1 as int)),
{
    let mut i: usize = 0;
    while i < v.len()
        invariant
            i <= v@.len(),
            forall|j: int| 0 <= j < i ==> cells_view(v@)[j] != (c.0 as int, c.1 as int),
        decreases v@.len() - i,
    {
        if v[i].0 == c.0 && v[i].1 == c.1 {
            assert(cells_view(v@)[i as int] == (c.0 as int, c.1 as int));
            return true;
        }
        i += 1;
    }
    false
}

proof fn lemma_crush_all_frame(m: CoreModel, cells: Seq<(int, int)>, k: int, attack: u8, impetus: u8)
    requires
        model_wf(m),
    ensures
        model_wf(spec_crush_all(m, cells, k, attack, impetus).0),
        cells_frame(m, spec_crush_all(m, cells, k, attack, impetus).0),
        zeroes_only(m.board, spec_crush_all(m, cells, k, attack, impetus).0.board),
        spec_crush_all(m, cells, k, attack, impetus).1 ==> zeroes_some(m.board, spec_crush_all(m, cells, k, attack, impetus).0.board),
        !spec_crush_all(m, cells, k, attack, impetus).1 ==> spec_crush_all(m, cells, k, attack, impetus).0 == m,
    decreases k,
{
    if k > 0 {
        lemma_crush_all_frame(m, cells, k - 1, attack, impetus);
        let (m1, b1) = spec_crush_all(m, cells, k - 1, attack, impetus);
        if !(attack == 0 || impetus == 0) {
            lemma_chain_frame(m1, cells[k - 1].0, cells[k - 1].1, attack, impetus as int);
        }
        let m2 = spec_contact_chain(m1, cells[k - 1].0, cells[k - 1].1, attack, impetus).0;
        lemma_zeroes_trans(m.board, m1.board, m2.board);
    }
}

impl TetrisCore {
    fn apply_collision_crush_impact(
        &mut self,
        piece: Piece,
        next_pos: Vec2i,
        impact_dir: Vec2i,
        impact_profile: ContactImpactProfile,
    ) -> (r: bool)
        requires
            old(self).wf(),
            impact_dir == (Vec2i { x: 0, y: -1i32 }),
            i32::MIN + 4 <= next_pos.x <= i32::MAX - 4,
            i32::MIN + 4 <= next_pos.y <= i32::MAX - 1,
        ensures
            final(self).wf(),
            (final(self)@, r) == spec_collision(
                old(self)@,
                piece,
                next_pos,
                impact_profile.attack,
                impact_profile.impetus,
            ),
    {
        if impact_profile.attack == 0 || impact_profile.impetus == 0 {
            return false;
        }
        let ghost m = self@;
        let grid = piece_grid(piece, self.current_piece_rotation);
        let offset = piece_board_offset(piece);
        let size = grid.size();
        let mut collided: Vec<(usize, usize)> = Vec::new();
        let mut gy: usize = 0;
        while gy < size
            invariant
                self@ == m,
                self.wf(),
                grid@ == spec_piece_grid(piece, m.rotation as int),
                size == grid@.size,
                1 <= size <= 4,
                offset == crate::piece::spec_piece_board_offset(piece),
                i32::MIN + 4 <= next_pos.x <= i32::MAX - 4,
                i32::MIN + 4 <= next_pos.y <= i32::MAX - 1,
                gy <= size,
                spec_collide_upto(m, piece, next_pos, gy as int, 0) == Some(cells_view(collided@)),
                on_board(cells_view(collided@), m.board.len() as int),
            decreases size - gy,
        {
            let mut gx: usize = 0;
            while gx < size
                invariant
                    self@ == m,
                    self.wf(),
                    grid@ == spec_piece_grid(piece, m.rotation as int),
                    size == grid@.size,
                    1 <= size <= 4,
                    offset == crate::piece::spec_piece_board_offset(piece),
                    i32::MIN + 4 <= next_pos.x <= i32::MAX - 4,
                    i32::MIN + 4 <= next_pos.y <= i32::MAX - 1,
                    gy < size,
                    gx <= size,
                    spec_collide_upto(m, piece, next_pos, gy as int, gx as int) == Some(cells_view(collided@)),
                    on_board(cells_view(collided@), m.board.len() as int),
                decreases size - gx,
            {
                if grid.cell(gx, gy) == 1 {
                    let target_x = next_pos.x + gx as i32 - offset;
                    let target_y = next_pos.y - gy as i32 + offset;
                    if target_x < 0 || target_x >= BOARD_WIDTH as i32 || target_y < 0
                        || target_y >= self.board.len() as i32 {
                        assert(spec_collide_upto(m, piece, next_pos, gy as int, gx + 1) is None);
                        proof {
                            lemma_collide_none_stays(m, piece, next_pos, gy as int, gx + 1, size as int, 0);
                        }
                        return false;
                    }
                    let tx = target_x as usize;
                    let ty = target_y as usize;
                    assert(self.board@[ty as int]@ == m.board[ty as int]);
                    if self.board[ty][tx] != CELL_EMPTY {
                        if !contains_cell(&collided, (tx, ty)) {
                            let ghost cv = collided@;
                            collided.push((tx, ty));
                            assert(cells_view(collided@) =~= cells_view(cv).push((tx as int, ty as int)));
                        }
                    }
                }
                gx += 1;
            }
            gy += 1;
        }
        if collided.len() == 0 {
            return false;
        }
        let ghost cells = cells_view(collided@);
        let mut crushed_any = false;
        let mut k: usize = 0;
        while k < collided.len()
            invariant
                model_wf(m),
                self.wf(),
                cells == cells_view(collided@),
                on_board(cells, m.board.len() as int),
                impact_dir == (Vec2i { x: 0, y: -1i32 }),
                k <= cells.len(),
                (self@, crushed_any) == spec_crush_all(m, cells, k as int, impact_profile.attack, impact_profile.impetus),
            decreases cells.len() - k,
        {
            proof {
                lemma_crush_all_frame(m, cells, k as int, impact_profile.attack, impact_profile.impetus);
            }
            let (x, y) = collided[k];
            assert(cells[k as int] == (x as int, y as int));
            let hit = self.apply_contact_chain_crush(x, y, impact_dir, impact_profile);
            crushed_any = crushed_any || hit;
            k += 1;
        }
        crushed_any
    }
}

proof fn lemma_collide_none_stays(m: CoreModel, piece: Piece, pos: Vec2i, gy: int, gx: int, gy2: int, gx2: int)
    requires
        0 <= gy,
        0 <= gx <= spec_piece_grid(piece, m.rotation as int).size,
        gy < gy2 || (gy == gy2 && gx <= gx2),
        spec_collide_upto(m, piece, pos, gy, gx) is None,
    ensures
        spec_collide_upto(m, piece, pos, gy2, gx2) is None,
    decreases gy2, gx2,
{
    if gy == gy2 && gx == gx2 {
    } else if gx2 <= 0 {
        lemma_piece_grid_size(piece, m.rotation as int);
        lemma_collide_none_stays(m, piece, pos, gy, gx, gy2 - 1, spec_piece_grid(piece, m.rotation as int).size as int);
    } else {
        lemma_collide_none_stays(m, piece, pos, gy, gx, gy2, gx2 - 1);
    }
}


/// The spear tip of the active I piece moved to `pos` crushing the tile under it.
pub open spec fn spec_spear(m: CoreModel, pos: Vec2i) -> (CoreModel, bool) {
    let rot = m.rotation as int;
    match spec_tip_cell(Piece::I, rot) {
        None => (m, false),
        Some((tgx, tgy)) => {
            let tx = board_x(Piece::I, pos, tgx);
            let ty = board_y(Piece::I, pos, tgy);
            if !spec_piece_cell(Piece::I, rot, tgx, tgy) || !(0 <= tx < BOARD_WIDTH && 0 <= ty
                < m.board.len()) {
                (m, false)
            } else {
                let power = spec_spear_power(m.rotation, Vec2i { x: 0, y: -1i32 });
                spec_contact_chain(m, tx, ty, power, power)
            }
        },
    }
}

/// The active piece failing to move down to `pos`: an I piece first tries its spear tip;
/// otherwise the piece's collision crushes with attack and impetus 1.
pub open spec fn spec_impact(m: CoreModel, pos: Vec2i) -> (CoreModel, bool) {
    match m.current_piece {
        None => (m, false),
        Some(p) => if p == Piece::I {
            let (ms, hit) = spec_spear(m, pos);
            if hit {
                (ms, true)
            } else {
                spec_collision(ms, p, pos, 1, 1)
            }
        } else {
            spec_collision(m, p, pos, 1, 1)
        },
    }
}

pub proof fn lemma_impact_frame(m: CoreModel, pos: Vec2i)
    requires
        model_wf(m),
    ensures
        model_wf(spec_impact(m, pos).0),
        cells_frame(m, spec_impact(m, pos).0),
        zeroes_only(m.board, spec_impact(m, pos).0.board),
        spec_impact(m, pos).1 ==> zeroes_some(m.board, spec_impact(m, pos).0.board),
        !spec_impact(m, pos).1 ==> spec_impact(m, pos).0 == m,
{
    match m.current_piece {
        None => {},
        Some(p) => {
            let (ms, hit) = spec_spear(m, pos);
            let rot = m.rotation as int;
            if let Some((tgx, tgy)) = spec_tip_cell(Piece::I, rot) {
                let power = spec_spear_power(m.rotation, Vec2i { x: 0, y: -1i32 });
                lemma_chain_frame(m, board_x(Piece::I, pos, tgx), board_y(Piece::I, pos, tgy), power, power as int);
            }
            let base = if p == Piece::I { ms } else { m };
            let size = spec_piece_grid(p, base.rotation as int).size as int;
            if let Some(cells) = spec_collide_upto(base, p, pos, size, 0) {
                lemma_crush_all_frame(base, cells, cells.len() as int, 1, 1);
                let mc = spec_crush_all(base, cells, cells.len() as int, 1, 1).0;
                lemma_zeroes_trans(m.board, base.board, mc.board);
            }
        },
    }
}

/// Moving the active piece down row by row, and crushing what it runs into, until it can go
/// no further; `dist` counts the rows moved (saturating).
pub open spec fn spec_drop(m: CoreModel, dist: u32) -> (CoreModel, u32)
    decreases board_filled(m.board), m.pos.y - i32::MIN,
{
    if !model_wf(m) {
        (m, dist)
    } else {
        let next = Vec2i { x: m.pos.x, y: (m.pos.y - 1) as i32 };
        if spec_valid_position(m, next, m.rotation as int) {
            spec_drop(CoreModel { pos: next, ..m }, sat_add(dist as int, 1, u32::MAX as int) as u32)
        } else {
            let (m2, hit) = spec_impact(m, next);
            if hit {
                proof {
                    lemma_impact_frame(m, next);
                    lemma_board_filled(m.board, m2.board);
                }
                spec_drop(m2, dist)
            } else {
                (m, dist)
            }
        }
    }
}

/// A hard drop: unless a clear is pending or no piece is active, the piece drops, scores
/// `HARD_DROP_POINTS_PER_ROW` per row moved (saturating) and locks.
pub open spec fn spec_hard_drop(m: CoreModel) -> (CoreModel, i32) {
    if line_clear_active(m) || m.current_piece is None {
        (m, 0)
    } else {
        let (m1, d) = spec_drop(m, 0);
        let m2 = CoreModel {
            score: sat_add(
                m1.score as int,
                sat_mul(d as int, HARD_DROP_POINTS_PER_ROW as int, u32::MAX as int),
                u32::MAX as int,
            ) as u32,
            ..m1
        };
        (spec_lock(clear_lock(m2)), d as i32)
    }
}

impl TetrisCore {
    fn apply_spear_tip_impact(&mut self, next_pos: Vec2i) -> (r: bool)
        requires
            old(self).wf(),
            i32::MIN + 4 <= next_pos.x <= i32::MAX - 4,
            i32::MIN + 4 <= next_pos.y <= i32::MAX - 1,
        ensures
            final(self).wf(),
            (final(self)@, r) == spec_spear(old(self)@, next_pos),
    {
        let piece = Piece::I;
        let rotation = self.current_piece_rotation;
        let (tip_gx, tip_gy) = match Self::tip_grid_cell(piece, rotation) {
            Some(c) => c,
            None => return false,
        };
        let grid = piece_grid(piece, rotation);
        proof {
            lemma_piece_grid_size(piece, rotation as int);
        }
        if grid.cell(tip_gx, tip_gy) != 1 {
            return false;
        }
        let offset = piece_board_offset(piece);
        let target_x = next_pos.x + tip_gx as i32 - offset;
        let target_y = next_pos.y - tip_gy as i32 + offset;
        if target_x < 0 || target_x >= BOARD_WIDTH as i32 || target_y < 0
            || target_y >= self.board.len() as i32 {
            return false;
        }
        let impact_profile = Self::spear_tip_impact_profile(rotation, Vec2i::new(0, -1));
        self.apply_contact_chain_crush(
            target_x as usize,
            target_y as usize,
            Vec2i::new(0, -1),
            impact_profile,
        )
    }

    fn apply_hard_drop_impact(&mut self, next_pos: Vec2i) -> (r: bool)
        requires
            old(self).wf(),
            i32::MIN + 4 <= next_pos.x <= i32::MAX - 4,
            i32::MIN + 4 <= next_pos.y <= i32::MAX - 1,
        ensures
            final(self).wf(),
            (final(self)@, r) == spec_impact(old(self)@, next_pos),
    {
        let piece = match self.current_piece {
            Some(piece) => piece,
            None => return false,
        };
        if piece == Piece::I && self.apply_spear_tip_impact(next_pos) {
            return true;
        }
        self.apply_collision_crush_impact(
            piece,
            next_pos,
            Vec2i::new(0, -1),
            ContactImpactProfile { attack: 1, impetus: 1 },
        )
    }

    /// Moves the active piece down as far as it goes, crushing breakable tiles on the way, and
    /// returns the rows moved; see `spec_drop`. The piece is not locked.
    pub(crate) fn drop_to_rest(&mut self) -> (r: u32)
        requires
            old(self).wf(),
        ensures
            final(self).wf(),
            (final(self)@, r) == spec_drop(old(self)@, 0),
    {
        let ghost m0 = self@;
        let ghost target = spec_drop(m0, 0);
        let mut drop_distance: u32 = 0;
        loop
            invariant
                self.wf(),
                spec_drop(self@, drop_distance) == target,
                target == spec_drop(m0, 0),
            ensures
                self.wf(),
                target == (self@, drop_distance),
            decreases board_filled(self@.board), self@.pos.y - i32::MIN,
        {
            let ghost pre = self@;
            let next_pos = self.current_piece_pos + Vec2i::new(0, -1);
            assert(next_pos == (Vec2i { x: pre.pos.x, y: (pre.pos.y - 1) as i32 }));
            if self.is_valid_position(next_pos, self.current_piece_rotation) {
                proof {
                    lemma_fits_bounds(pre.board, pre.current_piece->0, next_pos, pre.rotation as int);
                }
                let ghost d0 = drop_distance;
                self.current_piece_pos = next_pos;
                drop_distance = sat_add_u32(drop_distance, 1);
                assert(model_wf(pre));
                assert(spec_valid_position(pre, next_pos, pre.rotation as int));
                assert(self@ == (CoreModel { pos: next_pos, ..pre }));
                assert(spec_drop(pre, d0) == spec_drop(self@, drop_distance));
                continue;
            }
            let hit = self.apply_hard_drop_impact(next_pos);
            proof {
                lemma_impact_frame(pre, next_pos);
                lemma_board_filled(pre.board, self@.board);
            }
            if hit {
                continue;
            }
            break;
        }
        drop_distance
    }

    /// Drops the active piece as far as it goes, crushing breakable tiles on the way, scores
    /// the distance and locks the piece; returns the number of rows dropped.
    pub fn hard_drop(&mut self) -> (r: i32)
        requires
            old(self).wf(),
        ensures
            final(self).wf(),
            (final(self)@, r) == spec_hard_drop(old(self)@),
    {
        if self.is_line_clear_active() || self.current_piece.is_none() {
            return 0;
        }
        let drop_distance = self.drop_to_rest();
        self.score = sat_add_u32(self.score, sat_mul_u32(drop_distance, HARD_DROP_POINTS_PER_ROW));
        self.clear_lock_delay_state();
        self.lock_active_piece();
        drop_distance as i32
    }
}

} // verus!
