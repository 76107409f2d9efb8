//! Locking pieces, finding and clearing full rows, and gravity.
use vstd::prelude::*;

use super::earth::{
    lemma_count_bottomwell_bound, count_bottomwell_rows, count_in_rows, spec_apply_wall_damage, spec_ensure_floor, spec_reveal,
};
use super::{
    board_shape_ok, min_int, board_x, board_y, clear_lock, clone_row, empty_owner_row, empty_row,
    line_clear_active, line_clear_rows_fit, model_wf, new_empty_owner_row, new_empty_row,
    owner_rows_view, rows_strictly_increasing, rows_view, sat_add, sat_add_u32, sat_mul,
    sat_mul_u32, spec_board_with_active, spec_down, spec_move, spec_move_ok, spec_occupied,
    spec_effective_height, spec_spawn, spec_valid_position, CoreModel, GravityAdvanceResult, LineClearPhase,
    LineClearView, PieceId, TetrisCore, BOARD_WIDTH, CELL_COIN, CELL_ORE,
};
use crate::piece::{
    piece_board_offset, piece_grid, piece_type, spec_piece_board_offset, spec_piece_cell,
    spec_piece_grid, spec_piece_type, Piece, Vec2i,
};

verus! {

/// The ids of the pieces that still own at least one board cell.
pub open spec fn owner_ids(owners: Seq<Seq<Option<u32>>>) -> Set<u32> {
    Set::new(
        |id: u32|
            exists|y: int, x: int|
                0 <= y < owners.len() && 0 <= x < owners[y].len() && #[trigger] owners[y][x]
                    == Some(id),
    )
}

/// The owner rows with the active piece's cells marked as placed by piece `id`.
pub open spec fn spec_owners_with_active(m: CoreModel, id: u32) -> Seq<Seq<Option<u32>>> {
    match m.current_piece {
        None => m.owners,
        Some(piece) => Seq::new(
            m.owners.len(),
            |y: int|
                Seq::new(
                    m.owners[y].len(),
                    |x: int|
                        if 0 <= x < BOARD_WIDTH && spec_occupied(piece, m.pos, m.rotation as int).contains((x, y)) {
                            Some(id)
                        } else {
                            m.owners[y][x]
                        },
                ),
        ),
    }
}

/// Placing the active piece: it gets the next piece id (the counter saturates), its kind is
/// recorded under that id, and its on-board cells are written with its type and owner.
pub open spec fn spec_place(m: CoreModel) -> CoreModel {
    match m.current_piece {
        None => m,
        Some(piece) => CoreModel {
            next_piece_id: sat_add(m.next_piece_id as int, 1, u32::MAX as int) as u32,
            kinds: m.kinds.insert(m.next_piece_id, piece),
            board: spec_board_with_active(m),
            owners: spec_owners_with_active(m, m.next_piece_id),
            ..m
        },
    }
}

pub open spec fn row_full(row: Seq<u8>) -> bool {
    forall|x: int| 0 <= x < row.len() ==> row[x] != 0
}

/// Indices, ascending, of the full rows among the first `n` rows.
pub open spec fn spec_full_rows_upto(board: Seq<Seq<u8>>, n: int) -> Seq<usize>
    decreases n,
{
    if n <= 0 {
        Seq::empty()
    } else {
        let prev = spec_full_rows_upto(board, n - 1);
        if row_full(board[n - 1]) {
            prev.push((n - 1) as usize)
        } else {
            prev
        }
    }
}

pub open spec fn spec_full_rows(board: Seq<Seq<u8>>) -> Seq<usize> {
    spec_full_rows_upto(board, board.len() as int)
}

/// Starting a clear: with full rows present the clear waits `line_clear_delay_ms`.
pub open spec fn spec_start_clear(m: CoreModel) -> CoreModel {
    let rows = spec_full_rows(m.board);
    if rows.len() == 0 {
        m
    } else {
        CoreModel {
            line_clear: LineClearView::Delay {
                rows,
                elapsed_ms: 0,
                duration_ms: m.line_clear_delay_ms,
            },
            ..m
        }
    }
}

/// Locking the active piece: it is placed, the lock delay reset; a pending clear of full rows
/// takes the place of the active piece, or else the next piece spawns.
pub open spec fn spec_lock(m: CoreModel) -> CoreModel {
    let m1 = clear_lock(spec_place(m));
    if spec_full_rows(m1.board).len() == 0 {
        spec_spawn(m1)
    } else {
        CoreModel { current_piece: None, ..spec_start_clear(m1) }
    }
}

/// The elements of `b` whose indices are not in `s`, in order.
pub open spec fn keep_rows<T>(b: Seq<T>, s: Set<int>) -> Seq<T>
    decreases b.len(),
{
    if b.len() == 0 {
        b
    } else {
        let p = keep_rows(b.drop_last(), s);
        if s.contains(b.len() - 1) {
            p
        } else {
            p.push(b.last())
        }
    }
}

/// The contents of the given rows of a board, in the given order.
pub open spec fn cleared_rows(board: Seq<Seq<u8>>, rows: Seq<usize>) -> Seq<Seq<u8>> {
    rows.map_values(|y: usize| board[y as int])
}

pub open spec fn row_set(rows: Seq<usize>, lo: int) -> Set<int> {
    Set::new(|i: int| exists|k: int| lo <= k < rows.len() && rows[k] as int == i)
}

/// Score for clearing `lines` lines at once: 100/300/500/800 for one to four lines; more
/// count as four-line groups (800 each) plus the score of the remainder, saturating.
pub open spec fn spec_line_clear_points(lines: u32) -> u32 {
    let tetrises = lines / 4;
    let rem = lines % 4;
    let base = sat_mul(tetrises as int, 800, u32::MAX as int);
    let rem_points: int = if rem == 0 {
        0
    } else if rem == 1 {
        100
    } else if rem == 2 {
        300
    } else {
        500
    };
    sat_add(base, rem_points, u32::MAX as int) as u32
}

/// Clearing the given rows (ascending, distinct): they leave the board, the rows above move
/// down and empty rows refill the top; pieces left without cells are forgotten; the line
/// count and score grow. With the bottomwell on, ore and coins in the cleared rows are
/// collected and scored; then either the active wall takes damage, or as many new earth rows
/// are revealed as cleared rows held bottomwell cells (and the fill rows are repaired).
pub open spec fn spec_clear_rows(m: CoreModel, rows: Seq<usize>) -> CoreModel {
    if rows.len() == 0 {
        m
    } else {
        let n = rows.len() as int;
        let cleared = cleared_rows(m.board, rows);
        let s = row_set(rows, 0);
        let owners = keep_rows(m.owners, s) + Seq::new(n as nat, |i: int| empty_owner_row());
        let m2 = CoreModel {
            board: keep_rows(m.board, s) + Seq::new(n as nat, |i: int| empty_row()),
            owners,
            kinds: m.kinds.restrict(owner_ids(owners)),
            lines_cleared: sat_add(m.lines_cleared as int, n, u32::MAX as int) as u32,
            score: sat_add(
                m.score as int,
                spec_line_clear_points(n as u32) as int,
                u32::MAX as int,
            ) as u32,
            ..m
        };
        if !m.bottomwell_enabled {
            m2
        } else {
            let ore = count_in_rows(cleared, CELL_ORE) as int;
            let coins = count_in_rows(cleared, CELL_COIN) as int;
            let bw = count_bottomwell_rows(cleared);
            let reward = sat_add(
                sat_mul(ore, m.ore_score_value as int, u32::MAX as int),
                sat_mul(coins, m.coin_score_value as int, u32::MAX as int),
                u32::MAX as int,
            );
            let m3 = CoreModel {
                ore_collected: sat_add(m.ore_collected as int, ore, u32::MAX as int) as u32,
                coins_collected: sat_add(m.coins_collected as int, coins, u32::MAX as int) as u32,
                score: sat_add(m2.score as int, reward, u32::MAX as int) as u32,
                ..m2
            };
            if m3.depth_progress_paused {
                spec_apply_wall_damage(m3, n)
            } else {
                let (m4, revealed) = spec_reveal(m3, bw);
                if revealed > 0 {
                    spec_ensure_floor(m4)
                } else {
                    m4
                }
            }
        }
    }
}

/// Advancing a pending clear by `dt_ms`: a zero-length delay, or enough elapsed time,
/// commits the clear (and spawns a piece if none is active); otherwise the time is added.
pub open spec fn spec_advance_clear(m: CoreModel, dt_ms: u32) -> (CoreModel, bool) {
    match m.line_clear {
        LineClearView::Idle => (m, false),
        LineClearView::Delay { rows, elapsed_ms, duration_ms } => {
            let e = sat_add(elapsed_ms as int, dt_ms as int, u32::MAX as int) as u32;
            if duration_ms != 0 && e < duration_ms {
                (
                    CoreModel {
                        line_clear: LineClearView::Delay { rows, elapsed_ms: e, duration_ms },
                        ..m
                    },
                    false,
                )
            } else {
                let c = spec_clear_rows(CoreModel { line_clear: LineClearView::Idle, ..m }, rows);
                (if c.current_piece is None { spec_spawn(c) } else { c }, true)
            }
        },
    }
}

/// One gravity step of `dt_ms`: a pending clear advances (reporting `Locked` when it
/// commits, `LineClearAnimating` otherwise); without an active piece or after game over
/// nothing happens; the piece falls one row when it can; otherwise the lock timers run
/// (the total timer first counts when the piece lands) and the piece locks once the lock
/// delay or the maximum lock delay is reached.
pub open spec fn spec_gravity(m: CoreModel, dt_ms: u32) -> (CoreModel, GravityAdvanceResult) {
    let (a, committed) = spec_advance_clear(m, dt_ms);
    if committed {
        (a, GravityAdvanceResult::Locked)
    } else if line_clear_active(a) {
        (a, GravityAdvanceResult::LineClearAnimating)
    } else if a.game_over || a.current_piece is None {
        (a, GravityAdvanceResult::NoActivePiece)
    } else if spec_move_ok(a, Vec2i { x: 0, y: -1i32 }) {
        (spec_move(a, Vec2i { x: 0, y: -1i32 }), GravityAdvanceResult::Moved)
    } else if !a.grounded_for_lock {
        let t = sat_add(a.grounded_total_lock_ms as int, dt_ms as int, u32::MAX as int) as u32;
        let g = CoreModel { grounded_for_lock: true, grounded_total_lock_ms: t, ..a };
        if t >= a.lock_delay_max_ms {
            (spec_lock(g), GravityAdvanceResult::Locked)
        } else {
            (g, GravityAdvanceResult::Grounded)
        }
    } else {
        let l = sat_add(a.grounded_lock_ms as int, dt_ms as int, u32::MAX as int) as u32;
        let t = sat_add(a.grounded_total_lock_ms as int, dt_ms as int, u32::MAX as int) as u32;
        let g = CoreModel { grounded_lock_ms: l, grounded_total_lock_ms: t, ..a };
        if l >= a.lock_delay_ms || t >= a.lock_delay_max_ms {
            (spec_lock(g), GravityAdvanceResult::Locked)
        } else {
            (g, GravityAdvanceResult::Grounded)
        }
    }
}

/// Enough headroom in the depth counter for the rows one clear can reveal.
pub open spec fn depth_headroom(m: CoreModel) -> bool {
    m.earth_depth + 64 <= u64::MAX
}

// ---- Lemmas on `keep_rows` ---------------------------------------------------------------

proof fn lemma_keep_none<T>(b: Seq<T>, s: Set<int>)
    requires
        forall|k: int| s.contains(k) ==> k >= b.len() || k < 0,
    ensures
        keep_rows(b, s) == b,
    decreases b.len(),
{
    if b.len() > 0 {
        lemma_keep_none(b.drop_last(), s);
        assert(b.drop_last().push(b.last()) =~= b);
    }
}

proof fn lemma_keep_len<T>(b: Seq<T>, s: Set<int>, i: int)
    requires
        0 <= i < b.len(),
        forall|k: int| s.contains(k) ==> k > i,
    ensures
        i < keep_rows(b, s).len(),
        keep_rows(b, s)[i] == b[i],
    decreases b.len(),
{
    let dl = b.drop_last();
    if i == b.len() - 1 {
        lemma_keep_none(dl, s);
    } else {
        lemma_keep_len(dl, s, i);
    }
}

proof fn lemma_keep_remove<T>(b: Seq<T>, s: Set<int>, i: int)
    requires
        0 <= i < b.len(),
        forall|k: int| s.contains(k) ==> k > i,
    ensures
        keep_rows(b, s).remove(i) == keep_rows(b, s.insert(i)),
    decreases b.len(),
{
    let dl = b.drop_last();
    let l = b.len() - 1;
    if l == i {
        lemma_keep_none(dl, s);
        lemma_keep_none(dl, s.insert(i));
        assert(keep_rows(b, s) == dl.push(b.last()));
        assert(dl.push(b.last()).remove(i) =~= dl);
    } else {
        lemma_keep_remove(dl, s, i);
        if !s.contains(l) {
            lemma_keep_len(dl, s, i);
            let p = keep_rows(dl, s);
            assert(p.push(b.last()).remove(i) =~= p.remove(i).push(b.last()));
        }
    }
}

proof fn lemma_keep_len_exact<T>(b: Seq<T>, s: Set<int>)
    ensures
        keep_rows(b, s).len() <= b.len(),
    decreases b.len(),
{
    if b.len() > 0 {
        lemma_keep_len_exact(b.drop_last(), s);
    }
}

/// Whether board cell `(x, y)` is covered by a filled grid cell of `piece` that comes before
/// grid cell `(gx, gy)` in row-major order.
pub open spec fn hit_upto(piece: Piece, rotation: int, pos: Vec2i, gy: int, gx: int, x: int, y: int) -> bool {
    exists|gx2: int, gy2: int|
        (0 <= gy2 < gy || (gy2 == gy && 0 <= gx2 < gx)) && #[trigger] spec_piece_cell(
            piece,
            rotation,
            gx2,
            gy2,
        ) && (x, y) == (board_x(piece, pos, gx2), board_y(piece, pos, gy2))
}

proof fn lemma_hit_step(piece: Piece, rotation: int, pos: Vec2i, gy: int, gx: int, x: int, y: int)
    requires
        0 <= gx,
        0 <= gy,
    ensures
        hit_upto(piece, rotation, pos, gy, gx + 1, x, y) == (hit_upto(piece, rotation, pos, gy, gx, x, y)
            || (spec_piece_cell(piece, rotation, gx, gy) && (x, y) == (
            board_x(piece, pos, gx),
            board_y(piece, pos, gy),
        ))),
{
    if hit_upto(piece, rotation, pos, gy, gx + 1, x, y) {
        let (gx2, gy2) = choose|gx2: int, gy2: int|
            (0 <= gy2 < gy || (gy2 == gy && 0 <= gx2 < gx + 1)) && #[trigger] spec_piece_cell(
                piece,
                rotation,
                gx2,
                gy2,
            ) && (x, y) == (board_x(piece, pos, gx2), board_y(piece, pos, gy2));
        if !(gy2 == gy && gx2 == gx) {
            assert(hit_upto(piece, rotation, pos, gy, gx, x, y));
        }
    }
    if spec_piece_cell(piece, rotation, gx, gy) && (x, y) == (board_x(piece, pos, gx), board_y(piece, pos, gy)) {
        assert(hit_upto(piece, rotation, pos, gy, gx + 1, x, y));
    }
    if hit_upto(piece, rotation, pos, gy, gx, x, y) {
        let (gx2, gy2) = choose|gx2: int, gy2: int|
            (0 <= gy2 < gy || (gy2 == gy && 0 <= gx2 < gx)) && #[trigger] spec_piece_cell(
                piece,
                rotation,
                gx2,
                gy2,
            ) && (x, y) == (board_x(piece, pos, gx2), board_y(piece, pos, gy2));
        assert(hit_upto(piece, rotation, pos, gy, gx + 1, x, y));
    }
}

proof fn lemma_hit_row_done(piece: Piece, rotation: int, pos: Vec2i, gy: int, x: int, y: int)
    ensures
        hit_upto(piece, rotation, pos, gy, spec_piece_grid(piece, rotation).size as int, x, y)
            == hit_upto(piece, rotation, pos, gy + 1, 0, x, y),
{
    if hit_upto(piece, rotation, pos, gy + 1, 0, x, y) {
        let (gx2, gy2) = choose|gx2: int, gy2: int|
            (0 <= gy2 < gy + 1 || (gy2 == gy + 1 && 0 <= gx2 < 0)) && #[trigger] spec_piece_cell(
                piece,
                rotation,
                gx2,
                gy2,
            ) && (x, y) == (board_x(piece, pos, gx2), board_y(piece, pos, gy2));
        assert(gx2 < spec_piece_grid(piece, rotation).size);
    }
}

proof fn lemma_hit_all(piece: Piece, rotation: int, pos: Vec2i, x: int, y: int)
    ensures
        hit_upto(piece, rotation, pos, spec_piece_grid(piece, rotation).size as int, 0, x, y)
            == spec_occupied(piece, pos, rotation).contains((x, y)),
{
    if spec_occupied(piece, pos, rotation).contains((x, y)) {
        let (gx2, gy2) = choose|gx2: int, gy2: int|
            #[trigger] spec_piece_cell(piece, rotation, gx2, gy2) && (x, y) == (
                board_x(piece, pos, gx2),
                board_y(piece, pos, gy2),
            );
        assert(gy2 < spec_piece_grid(piece, rotation).size);
    }
}

impl TetrisCore {
    fn place_piece(&mut self)
        requires
            old(self).wf(),
        ensures
            final(self).wf(),
            final(self)@ == spec_place(old(self)@),
    {
        broadcast use vstd::std_specs::hash::group_hash_axioms;

        let piece = match self.current_piece {
            Some(piece) => piece,
            None => return,
        };
        let ghost m = self@;
        let ghost rot = m.rotation as int;
        let piece_id = self.next_piece_id;
        self.next_piece_id = self.next_piece_id.saturating_add(1);
        self.placed_piece_kind.insert(piece_id, piece);
        let grid = piece_grid(piece, self.current_piece_rotation);
        let offset = piece_board_offset(piece) as i64;
        let ptype = piece_type(piece);
        let size = grid.size();
        let ghost m1 = self@;
        let mut gy: usize = 0;
        while gy < size
            invariant
                self.wf(),
                self@ == (CoreModel { board: self@.board, owners: self@.owners, ..m1 }),
                m1 == (CoreModel {
                    next_piece_id: sat_add(m.next_piece_id as int, 1, u32::MAX as int) as u32,
                    kinds: m.kinds.insert(m.next_piece_id, piece),
                    ..m
                }),
                piece_id == m.next_piece_id,
                m.current_piece == Some(piece),
                rot == m.rotation as int,
                size == grid@.size,
                1 <= size <= 4,
                grid@ == spec_piece_grid(piece, rot),
                offset == spec_piece_board_offset(piece),
                ptype == spec_piece_type(piece),
                gy <= size,
                self@.board.len() == m.board.len(),
                forall|x: int, y: int| 0 <= y < m.board.len() && 0 <= x < BOARD_WIDTH ==>
                    #[trigger] self@.board[y][x] == (if hit_upto(piece, rot, m.pos, gy as int, 0, x, y) { ptype } else { m.board[y][x] }),
                forall|x: int, y: int| 0 <= y < m.board.len() && 0 <= x < BOARD_WIDTH ==>
                    #[trigger] self@.owners[y][x] == (if hit_upto(piece, rot, m.pos, gy as int, 0, x, y) { Some(piece_id) } else { m.owners[y][x] }),
            decreases size - gy,
        {
            let mut gx: usize = 0;
            while gx < size
                invariant
                    self.wf(),
                    self@ == (CoreModel { board: self@.board, owners: self@.owners, ..m1 }),
                    m1 == (CoreModel {
                        next_piece_id: sat_add(m.next_piece_id as int, 1, u32::MAX as int) as u32,
                        kinds: m.kinds.insert(m.next_piece_id, piece),
                        ..m
                    }),
                    piece_id == m.next_piece_id,
                    m.current_piece == Some(piece),
                    rot == m.rotation as int,
                    size == grid@.size,
                    1 <= size <= 4,
                    grid@ == spec_piece_grid(piece, rot),
                    offset == spec_piece_board_offset(piece),
                    ptype == spec_piece_type(piece),
                    gy < size,
                    gx <= size,
                    self@.board.len() == m.board.len(),
                    forall|x: int, y: int| 0 <= y < m.board.len() && 0 <= x < BOARD_WIDTH ==>
                        #[trigger] self@.board[y][x] == (if hit_upto(piece, rot, m.pos, gy as int, gx as int, x, y) { ptype } else { m.board[y][x] }),
                    forall|x: int, y: int| 0 <= y < m.board.len() && 0 <= x < BOARD_WIDTH ==>
                        #[trigger] self@.owners[y][x] == (if hit_upto(piece, rot, m.pos, gy as int, gx as int, x, y) { Some(piece_id) } else { m.owners[y][x] }),
                decreases size - gx,
            {
                let ghost pre = self@;
                let ghost hx: int = board_x(piece, m.pos, gx as int);
                let ghost hy: int = board_y(piece, m.pos, gy as int);
                let ghost wrote: bool = false;
                let c = grid.cell(gx, gy);
                if c == 1 {
                    assert(spec_piece_cell(piece, rot, gx as int, gy as int));
                    let bx = self.current_piece_pos.x as i64 + gx as i64 - offset;
                    let by = self.current_piece_pos.y as i64 - gy as i64 + offset;
                    if bx >= 0 && bx < BOARD_WIDTH as i64 && by >= 0 && by < self.board.len() as i64 {
                        assert(self.current_piece_pos == m.pos);
                        assert(bx == hx && by == hy);
                        assert(self.board@[by as int]@ == pre.board[by as int]);
                        assert(self.board_owner@[by as int]@ == pre.owners[by as int]);
                        self.board[by as usize][bx as usize] = ptype;
                        self.board_owner[by as usize][bx as usize] = Some(piece_id);
                        assert(self@.board =~= pre.board.update(hy, pre.board[hy].update(hx, ptype)));
                        assert(self@.owners =~= pre.owners.update(hy, pre.owners[hy].update(hx, Some(piece_id))));
                        proof { wrote = true; }
                    }
                } else {
                    assert(!spec_piece_cell(piece, rot, gx as int, gy as int));
                }
                proof {
                    let hit = spec_piece_cell(piece, rot, gx as int, gy as int);
                    assert(wrote ==> hit && 0 <= hy < m.board.len() && 0 <= hx < BOARD_WIDTH);
                    assert(hit && 0 <= hy < m.board.len() && 0 <= hx < BOARD_WIDTH ==> wrote);
                    assert(wrote ==> self@.board == pre.board.update(hy, pre.board[hy].update(hx, ptype)));
                    assert(wrote ==> self@.owners == pre.owners.update(hy, pre.owners[hy].update(hx, Some(piece_id))));
                    assert(!wrote ==> self@.board == pre.board && self@.owners == pre.owners);
                    assert forall|x: int, y: int| 0 <= y < m.board.len() && 0 <= x < BOARD_WIDTH implies
                        #[trigger] self@.board[y][x] == (if hit_upto(piece, rot, m.pos, gy as int, gx + 1, x, y) { ptype } else { m.board[y][x] }) by {
                        lemma_hit_step(piece, rot, m.pos, gy as int, gx as int, x, y);
                        assert(pre.board[y][x] == (if hit_upto(piece, rot, m.pos, gy as int, gx as int, x, y) { ptype } else { m.board[y][x] }));
                    }
                    assert forall|x: int, y: int| 0 <= y < m.board.len() && 0 <= x < BOARD_WIDTH implies
                        #[trigger] self@.owners[y][x] == (if hit_upto(piece, rot, m.pos, gy as int, gx + 1, x, y) { Some(piece_id) } else { m.owners[y][x] }) by {
                        lemma_hit_step(piece, rot, m.pos, gy as int, gx as int, x, y);
                        assert(pre.owners[y][x] == (if hit_upto(piece, rot, m.pos, gy as int, gx as int, x, y) { Some(piece_id) } else { m.owners[y][x] }));
                    }
                }
                gx += 1;
            }
            proof {
                assert forall|x: int, y: int| 0 <= y < m.board.len() && 0 <= x < BOARD_WIDTH implies
                    #[trigger] self@.board[y][x] == (if hit_upto(piece, rot, m.pos, gy + 1, 0, x, y) { ptype } else { m.board[y][x] }) by {
                    lemma_hit_row_done(piece, rot, m.pos, gy as int, x, y);
                }
                assert forall|x: int, y: int| 0 <= y < m.board.len() && 0 <= x < BOARD_WIDTH implies
                    #[trigger] self@.owners[y][x] == (if hit_upto(piece, rot, m.pos, gy + 1, 0, x, y) { Some(piece_id) } else { m.owners[y][x] }) by {
                    lemma_hit_row_done(piece, rot, m.pos, gy as int, x, y);
                }
            }
            gy += 1;
        }
        assert(self@.board =~= spec_board_with_active(m)) by {
            assert forall|y: int| 0 <= y < m.board.len() implies self@.board[y] =~= spec_board_with_active(m)[y] by {
                assert forall|x: int| 0 <= x < BOARD_WIDTH implies #[trigger] self@.board[y][x] == spec_board_with_active(m)[y][x] by {
                    lemma_hit_all(piece, rot, m.pos, x, y);
                }
            }
        }
        assert(self@.owners =~= spec_owners_with_active(m, piece_id)) by {
            assert forall|y: int| 0 <= y < m.owners.len() implies self@.owners[y] =~= spec_owners_with_active(m, piece_id)[y] by {
                assert forall|x: int| 0 <= x < BOARD_WIDTH implies #[trigger] self@.owners[y][x] == spec_owners_with_active(m, piece_id)[y][x] by {
                    lemma_hit_all(piece, rot, m.pos, x, y);
                }
            }
        }
    }
}


proof fn lemma_full_rows_upto(board: Seq<Seq<u8>>, n: int)
    requires
        0 <= n <= board.len(),
        board.len() <= usize::MAX,
    ensures
        rows_strictly_increasing(spec_full_rows_upto(board, n)),
        spec_full_rows_upto(board, n).len() <= n,
        forall|i: int| 0 <= i < spec_full_rows_upto(board, n).len() ==>
            #[trigger] spec_full_rows_upto(board, n)[i] < n,
        forall|i: int| 0 <= i < spec_full_rows_upto(board, n).len() ==>
            row_full(board[#[trigger] spec_full_rows_upto(board, n)[i] as int]),
    decreases n,
{
    if n > 0 {
        lemma_full_rows_upto(board, n - 1);
        let prev = spec_full_rows_upto(board, n - 1);
        let cur = spec_full_rows_upto(board, n);
        if row_full(board[n - 1]) {
            assert(cur == prev.push((n - 1) as usize));
            assert forall|i: int| 0 <= i < cur.len() implies #[trigger] cur[i] < n
                && row_full(board[cur[i] as int]) by {
                if i < prev.len() {
                    assert(cur[i] == prev[i]);
                }
            }
            assert forall|i: int, j: int| 0 <= i < j < cur.len() implies cur[i] < cur[j] by {
                if j < prev.len() {
                    assert(cur[i] == prev[i] && cur[j] == prev[j]);
                } else {
                    assert(cur[i] == prev[i]);
                }
            }
        }
    }
}

/// The full rows of a board are distinct, ascending board rows, each of them full.
pub proof fn lemma_full_rows(board: Seq<Seq<u8>>)
    requires
        board.len() <= usize::MAX,
    ensures
        rows_strictly_increasing(spec_full_rows(board)),
        spec_full_rows(board).len() <= board.len(),
        forall|i: int| 0 <= i < spec_full_rows(board).len() ==>
            #[trigger] spec_full_rows(board)[i] < board.len(),
        forall|i: int| 0 <= i < spec_full_rows(board).len() ==>
            row_full(board[#[trigger] spec_full_rows(board)[i] as int]),
{
    lemma_full_rows_upto(board, board.len() as int);
}

impl TetrisCore {
    fn detect_full_rows(&self) -> (r: Vec<usize>)
        requires
            self.wf(),
        ensures
            r@ == spec_full_rows(self@.board),
    {
        let ghost b = self@.board;
        let mut rows: Vec<usize> = Vec::new();
        let mut y: usize = 0;
        while y < self.board.len()
            invariant
                b == self@.board,
                self.wf(),
                y <= b.len(),
                rows@ == spec_full_rows_upto(b, y as int),
            decreases b.len() - y,
        {
            let row = &self.board[y];
            assert(row@ == b[y as int]);
            let mut full = true;
            let mut x: usize = 0;
            while x < row.len()
                invariant
                    x <= row@.len(),
                    full == (forall|k: int| 0 <= k < x ==> row@[k] != 0),
                decreases row@.len() - x,
            {
                if row[x] == 0 {
                    full = false;
                }
                x += 1;
            }
            if full {
                rows.push(y);
            }
            y += 1;
        }
        rows
    }

    pub(crate) fn start_line_clear_phase_if_needed(&mut self) -> (r: bool)
        requires
            old(self).wf(),
        ensures
            final(self).wf(),
            final(self)@ == spec_start_clear(old(self)@),
            r == (spec_full_rows(old(self)@.board).len() > 0),
    {
        let rows = self.detect_full_rows();
        proof {
            assert(self@.board.len() == self.board@.len());
            lemma_full_rows(self@.board);
        }
        if rows.len() == 0 {
            return false;
        }
        self.line_clear_phase = LineClearPhase::Delay {
            rows,
            elapsed_ms: 0,
            duration_ms: self.line_clear_delay_ms,
        };
        true
    }

    pub(crate) fn lock_active_piece(&mut self)
        requires
            old(self).wf(),
        ensures
            final(self).wf(),
            final(self)@ == spec_lock(old(self)@),
    {
        self.place_piece();
        self.clear_lock_delay_state();
        if !self.start_line_clear_phase_if_needed() {
            self.spawn_new_piece();
            return;
        }
        self.current_piece = None;
    }
}


/// Ids owning a cell before `(x, y)` in row-major order.
pub open spec fn owner_ids_upto(owners: Seq<Seq<Option<u32>>>, y: int, x: int) -> Set<u32> {
    Set::new(
        |id: u32|
            exists|yy: int, xx: int|
                (0 <= yy < y || (yy == y && xx < x)) && 0 <= xx < owners[yy].len() && #[trigger] owners[yy][xx]
                    == Some(id),
    )
}

pub(crate) proof fn lemma_owner_ids_step(owners: Seq<Seq<Option<u32>>>, y: int, x: int)
    requires
        0 <= y < owners.len(),
        0 <= x < owners[y].len(),
    ensures
        owner_ids_upto(owners, y, x + 1) == (match owners[y][x] {
            Some(id) => owner_ids_upto(owners, y, x).insert(id),
            None => owner_ids_upto(owners, y, x),
        }),
{
    let a = owner_ids_upto(owners, y, x + 1);
    let b = match owners[y][x] {
        Some(id) => owner_ids_upto(owners, y, x).insert(id),
        None => owner_ids_upto(owners, y, x),
    };
    assert forall|id: u32| a.contains(id) implies b.contains(id) by {
        let (yy, xx) = choose|yy: int, xx: int|
            (0 <= yy < y || (yy == y && xx < x + 1)) && 0 <= xx < owners[yy].len() && #[trigger] owners[yy][xx]
                == Some(id);
        if !(yy == y && xx == x) {
            assert(owner_ids_upto(owners, y, x).contains(id));
        }
    }
    assert forall|id: u32| b.contains(id) implies a.contains(id) by {
        if owner_ids_upto(owners, y, x).contains(id) {
            let (yy, xx) = choose|yy: int, xx: int|
                (0 <= yy < y || (yy == y && xx < x)) && 0 <= xx < owners[yy].len() && #[trigger] owners[yy][xx]
                    == Some(id);
            assert(owners[yy][xx] == Some(id));
        } else {
            assert(owners[y][x] == Some(id));
        }
    }
    assert(a =~= b);
}

pub(crate) proof fn lemma_owner_ids_row(owners: Seq<Seq<Option<u32>>>, y: int)
    requires
        0 <= y < owners.len(),
    ensures
        owner_ids_upto(owners, y, owners[y].len() as int) == owner_ids_upto(owners, y + 1, 0),
{
    let a = owner_ids_upto(owners, y, owners[y].len() as int);
    let b = owner_ids_upto(owners, y + 1, 0);
    assert forall|id: u32| b.contains(id) implies a.contains(id) by {
        let (yy, xx) = choose|yy: int, xx: int|
            (0 <= yy < y + 1 || (yy == y + 1 && xx < 0)) && 0 <= xx < owners[yy].len() && #[trigger] owners[yy][xx]
                == Some(id);
        assert(owners[yy][xx] == Some(id));
    }
    assert forall|id: u32| a.contains(id) implies b.contains(id) by {
        let (yy, xx) = choose|yy: int, xx: int|
            (0 <= yy < y || (yy == y && xx < owners[y].len())) && 0 <= xx < owners[yy].len() && #[trigger] owners[yy][xx]
                == Some(id);
        assert(owners[yy][xx] == Some(id));
    }
    assert(a =~= b);
}

pub(crate) proof fn lemma_owner_ids_all(owners: Seq<Seq<Option<u32>>>)
    ensures
        owner_ids_upto(owners, owners.len() as int, 0) == owner_ids(owners),
{
    let a = owner_ids_upto(owners, owners.len() as int, 0);
    let b = owner_ids(owners);
    assert forall|id: u32| a.contains(id) implies b.contains(id) by {
        let (yy, xx) = choose|yy: int, xx: int|
            (0 <= yy < owners.len() || (yy == owners.len() && xx < 0)) && 0 <= xx < owners[yy].len()
                && #[trigger] owners[yy][xx] == Some(id);
        assert(owners[yy][xx] == Some(id));
    }
    assert forall|id: u32| b.contains(id) implies a.contains(id) by {
        let (yy, xx) = choose|yy: int, xx: int|
            0 <= yy < owners.len() && 0 <= xx < owners[yy].len() && #[trigger] owners[yy][xx] == Some(id);
        assert(owners[yy][xx] == Some(id));
    }
    assert(a =~= b);
}

impl TetrisCore {
    /// Forgets the kinds of pieces that no longer own any board cell.
    fn cleanup_piece_owners(&mut self)
        requires
            old(self).wf(),
        ensures
            final(self).wf(),
            final(self)@ == (CoreModel {
                kinds: old(self)@.kinds.restrict(owner_ids(old(self)@.owners)),
                ..old(self)@
            }),
    {
        broadcast use vstd::std_specs::hash::group_hash_axioms;

        let ghost m = self@;
        let ghost owners = m.owners;
        let mut kept: std::collections::HashMap<PieceId, Piece> = std::collections::HashMap::new();
        let mut y: usize = 0;
        while y < self.board_owner.len()
            invariant
                self@ == m,
                owners == m.owners,
                self.wf(),
                owners.len() == self.board_owner@.len(),
                y <= owners.len(),
                kept@ == m.kinds.restrict(owner_ids_upto(owners, y as int, 0)),
            decreases owners.len() - y,
        {
            let row = &self.board_owner[y];
            assert(row@ == owners[y as int]);
            let mut x: usize = 0;
            while x < row.len()
                invariant
                    self@ == m,
                    row@ == owners[y as int],
                    0 <= y < owners.len(),
                    x <= row@.len(),
                    kept@ == m.kinds.restrict(owner_ids_upto(owners, y as int, x as int)),
                decreases row@.len() - x,
            {
                proof {
                    lemma_owner_ids_step(owners, y as int, x as int);
                }
                let ghost prev = owner_ids_upto(owners, y as int, x as int);
                if let Some(id) = row[x] {
                    assert(self.placed_piece_kind@ == m.kinds);
                    if let Some(kind) = self.placed_piece_kind.get(&id) {
                        kept.insert(id, *kind);
                        assert(kept@ =~= m.kinds.restrict(prev.insert(id)));
                    } else {
                        assert(kept@ =~= m.kinds.restrict(prev.insert(id)));
                    }
                }
                assert(kept@ =~= m.kinds.restrict(owner_ids_upto(owners, y as int, x + 1)));
                x += 1;
            }
            proof {
                lemma_owner_ids_row(owners, y as int);
            }
            y += 1;
        }
        proof {
            lemma_owner_ids_all(owners);
        }
        self.placed_piece_kind = kept;
    }
}


proof fn lemma_row_set_step(rows: Seq<usize>, k: int)
    requires
        0 < k <= rows.len(),
    ensures
        row_set(rows, k - 1) == row_set(rows, k).insert(rows[k - 1] as int),
{
    let a = row_set(rows, k - 1);
    let b = row_set(rows, k).insert(rows[k - 1] as int);
    assert forall|i: int| a.contains(i) implies b.contains(i) by {
        let j = choose|j: int| k - 1 <= j < rows.len() && rows[j] as int == i;
        if j != k - 1 {
            assert(row_set(rows, k).contains(i));
        }
    }
    assert forall|i: int| b.contains(i) implies a.contains(i) by {
        if i != rows[k - 1] as int {
            let j = choose|j: int| k <= j < rows.len() && rows[j] as int == i;
            assert(rows[j] as int == i);
        } else {
            assert(rows[k - 1] as int == i);
        }
    }
    assert(a =~= b);
}

proof fn lemma_row_set_empty(rows: Seq<usize>)
    ensures
        row_set(rows, rows.len() as int) == Set::<int>::empty(),
{
    assert(row_set(rows, rows.len() as int) =~= Set::<int>::empty());
}

impl TetrisCore {
    /// Removes the given rows (ascending, distinct) from the board and the owner rows; the
    /// rows above move down and empty rows refill the top.
    fn remove_rows(&mut self, rows: &Vec<usize>)
        requires
            old(self).wf(),
            rows_strictly_increasing(rows@),
            forall|i: int| 0 <= i < rows@.len() ==> #[trigger] rows@[i] < old(self)@.board.len(),
        ensures
            final(self).wf(),
            final(self)@ == (CoreModel {
                board: keep_rows(old(self)@.board, row_set(rows@, 0)) + Seq::new(
                    rows@.len(),
                    |i: int| empty_row(),
                ),
                owners: keep_rows(old(self)@.owners, row_set(rows@, 0)) + Seq::new(
                    rows@.len(),
                    |i: int| empty_owner_row(),
                ),
                ..old(self)@
            }),
    {
        let ghost m = self@;
        let ghost n = rows@.len() as int;
        proof {
            lemma_row_set_empty(rows@);
            lemma_keep_none(m.board, Set::<int>::empty());
            lemma_keep_none(m.owners, Set::<int>::empty());
            assert(m.board + Seq::new(0, |i: int| empty_row()) =~= m.board);
            assert(m.owners + Seq::new(0, |i: int| empty_owner_row()) =~= m.owners);
        }
        let mut k: usize = rows.len();
        while k > 0
            invariant
                0 <= k <= n,
                n == rows@.len(),
                model_wf(m),
                rows_strictly_increasing(rows@),
                forall|i: int| 0 <= i < rows@.len() ==> #[trigger] rows@[i] < m.board.len(),
                self.wf(),
                self@ == (CoreModel { board: self@.board, owners: self@.owners, ..m }),
                self@.board == keep_rows(m.board, row_set(rows@, k as int)) + Seq::new(
                    (n - k) as nat,
                    |i: int| empty_row(),
                ),
                self@.owners == keep_rows(m.owners, row_set(rows@, k as int)) + Seq::new(
                    (n - k) as nat,
                    |i: int| empty_owner_row(),
                ),
                keep_rows(m.board, row_set(rows@, k as int)).len() == m.board.len() - (n - k),
                keep_rows(m.owners, row_set(rows@, k as int)).len() == m.owners.len() - (n - k),
            decreases k,
        {
            let i = rows[k - 1];
            let ghost s = row_set(rows@, k as int);
            let ghost kb = keep_rows(m.board, s);
            let ghost ko = keep_rows(m.owners, s);
            proof {
                assert forall|j: int| s.contains(j) implies j > i by {
                    let jj = choose|jj: int| k <= jj < rows@.len() && rows@[jj] as int == j;
                    assert(rows@[k - 1] < rows@[jj]);
                }
                lemma_keep_len(m.board, s, i as int);
                lemma_keep_len(m.owners, s, i as int);
                lemma_keep_remove(m.board, s, i as int);
                lemma_keep_remove(m.owners, s, i as int);
                lemma_row_set_step(rows@, k as int);
            }
            let ghost pre = self@;
            let ghost bv = self.board@;
            let ghost ov = self.board_owner@;
            self.board.remove(i);
            self.board_owner.remove(i);
            let er = new_empty_row();
            let eo = new_empty_owner_row();
            self.board.push(er);
            self.board_owner.push(eo);
            proof {
                let nb = keep_rows(m.board, row_set(rows@, k - 1));
                let no = keep_rows(m.owners, row_set(rows@, k - 1));
                assert(nb == kb.remove(i as int));
                assert(no == ko.remove(i as int));
                assert(self.board@ == bv.remove(i as int).push(er));
                assert(self.board_owner@ == ov.remove(i as int).push(eo));
                assert(rows_view(self.board@) =~= rows_view(bv).remove(i as int).push(empty_row()));
                assert(owner_rows_view(self.board_owner@) =~= owner_rows_view(ov).remove(i as int).push(empty_owner_row()));
                assert(pre.board == rows_view(bv));
                assert(pre.owners == owner_rows_view(ov));
                assert((kb + Seq::new((n - k) as nat, |i: int| empty_row())).remove(i as int).push(empty_row())
                    =~= nb + Seq::new((n - k + 1) as nat, |i: int| empty_row()));
                assert((ko + Seq::new((n - k) as nat, |i: int| empty_owner_row())).remove(i as int).push(empty_owner_row())
                    =~= no + Seq::new((n - k + 1) as nat, |i: int| empty_owner_row()));
                assert(self@.board =~= nb + Seq::new((n - k + 1) as nat, |i: int| empty_row()));
                assert(self@.owners =~= no + Seq::new((n - k + 1) as nat, |i: int| empty_owner_row()));
                assert(self@ == (CoreModel { board: self@.board, owners: self@.owners, ..m }));
                assert(board_shape_ok(self@.board, self@.owners));
            }
            k -= 1;
        }
    }
}


proof fn lemma_rows_at_least_index(rows: Seq<usize>, i: int)
    requires
        rows_strictly_increasing(rows),
        0 <= i < rows.len(),
    ensures
        rows[i] >= i,
    decreases i,
{
    if i > 0 {
        lemma_rows_at_least_index(rows, i - 1);
    }
}

/// Distinct ascending rows below `height` number at most `height`.
proof fn lemma_rows_len_bound(rows: Seq<usize>, height: int)
    requires
        height >= 0,
        rows_strictly_increasing(rows),
        forall|i: int| 0 <= i < rows.len() ==> #[trigger] rows[i] < height,
    ensures
        rows.len() <= height,
{
    if rows.len() > 0 {
        lemma_rows_at_least_index(rows, rows.len() - 1);
        assert(rows[rows.len() - 1] < height);
    }
}

/// Points for clearing rows at once: one row 100, two 300, three 500, four 800; no rows
/// nothing; each further group of four adds another 800 (saturating).
pub proof fn lemma_line_clear_points_table(lines: u32)
    ensures
        spec_line_clear_points(0) == 0,
        spec_line_clear_points(1) == 100,
        spec_line_clear_points(2) == 300,
        spec_line_clear_points(3) == 500,
        spec_line_clear_points(4) == 800,
        lines <= 100 ==> spec_line_clear_points((lines + 4) as u32) == spec_line_clear_points(lines) + 800,
{
    assert(sat_mul(0, 800, u32::MAX as int) == 0);
    assert(sat_mul(1, 800, u32::MAX as int) == 800);
    if lines <= 100 {
        let t = lines / 4;
        assert((lines + 4) as u32 / 4 == t + 1);
        assert((lines + 4) as u32 % 4 == lines % 4);
        assert(sat_mul(t as int, 800, u32::MAX as int) == t * 800) by (nonlinear_arith)
            requires t <= 25;
        assert(sat_mul((t + 1) as int, 800, u32::MAX as int) == (t + 1) * 800) by (nonlinear_arith)
            requires t <= 25;
    }
}

/// Clearing one to four rows at once with the bottomwell off scores 100, 300, 500 or 800
/// points (the score saturating at `u32::MAX`), and counts the rows.
pub proof fn lemma_clear_scores_rows(m: CoreModel, rows: Seq<usize>)
    requires
        !m.bottomwell_enabled,
        1 <= rows.len() <= 4,
    ensures
        spec_clear_rows(m, rows).score as int == min_int(
            m.score + if rows.len() == 1 { 100int } else if rows.len() == 2 { 300int } else if rows.len() == 3 {
                500int
            } else {
                800int
            },
            u32::MAX as int,
        ),
        spec_clear_rows(m, rows).lines_cleared as int == min_int(m.lines_cleared + rows.len(), u32::MAX as int),
{
    lemma_line_clear_points_table(0);
}

pub(crate) fn line_clear_points(lines: u32) -> (r: u32)
    ensures
        r == spec_line_clear_points(lines),
        lines == 1 ==> r == 100,
        lines == 2 ==> r == 300,
        lines == 3 ==> r == 500,
        lines == 4 ==> r == 800,
{
    proof {
        lemma_line_clear_points_table(lines);
    }
    let tetrises = lines / 4;
    let rem = lines % 4;
    let base = sat_mul_u32(tetrises, 800);
    let rem_points: u32 = if rem == 0 {
        0
    } else if rem == 1 {
        100
    } else if rem == 2 {
        300
    } else {
        500
    };
    sat_add_u32(base, rem_points)
}

impl TetrisCore {
    /// Clears the given rows (ascending, distinct); see `spec_clear_rows`.
    #[verifier::rlimit(40)]
    fn clear_specific_lines(&mut self, rows: Vec<usize>) -> (r: usize)
        requires
            old(self).wf(),
            depth_headroom(old(self)@),
            rows_strictly_increasing(rows@),
            forall|i: int| 0 <= i < rows@.len() ==> #[trigger] rows@[i] < old(self)@.board.len(),
        ensures
            final(self).wf(),
            final(self)@ == spec_clear_rows(old(self)@, rows@),
            r == rows@.len(),
    {
        if rows.len() == 0 {
            return 0;
        }
        let ghost m = self@;
        proof {
            lemma_rows_len_bound(rows@, m.board.len() as int);
        }
        let mut cleared: Vec<Vec<u8>> = Vec::new();
        let mut k: usize = 0;
        while k < rows.len()
            invariant
                self@ == m,
                self.wf(),
                k <= rows@.len(),
                forall|i: int| 0 <= i < rows@.len() ==> #[trigger] rows@[i] < m.board.len(),
                cleared@.len() == k,
                forall|j: int| 0 <= j < k ==> (#[trigger] cleared@[j])@ == m.board[rows@[j] as int],
            decreases rows@.len() - k,
        {
            let y = rows[k];
            assert(self.board@[y as int]@ == m.board[y as int]);
            let row = clone_row(&self.board[y]);
            cleared.push(row);
            k += 1;
        }
        let ghost cleared_view = cleared_rows(m.board, rows@);
        assert(rows_view(cleared@) =~= cleared_view);
        self.remove_rows(&rows);
        self.cleanup_piece_owners();
        let n = rows.len() as u32;
        self.lines_cleared = sat_add_u32(self.lines_cleared, n);
        self.score = sat_add_u32(self.score, line_clear_points(n));
        proof {
            let nn = rows@.len() as int;
            let sset = row_set(rows@, 0);
            let owners = keep_rows(m.owners, sset) + Seq::new(nn as nat, |i: int| empty_owner_row());
            let m2 = CoreModel {
                board: keep_rows(m.board, sset) + Seq::new(nn as nat, |i: int| empty_row()),
                owners,
                kinds: m.kinds.restrict(owner_ids(owners)),
                lines_cleared: sat_add(m.lines_cleared as int, nn, u32::MAX as int) as u32,
                score: sat_add(
                    m.score as int,
                    spec_line_clear_points(nn as u32) as int,
                    u32::MAX as int,
                ) as u32,
                ..m
            };
            assert(self@ == m2);
        }
        if self.bottomwell_enabled {
            proof {
                assert forall|i: int| 0 <= i < cleared@.len() implies (#[trigger] cleared@[i])@.len() <= 100 by {
                    assert(m.board[rows@[i] as int].len() == BOARD_WIDTH);
                }
            }
            let (ore, coins) = Self::count_rewards_in_rows(&cleared);
            let bw = Self::count_bottomwell_clears(&cleared);
            proof {
                lemma_count_bottomwell_bound(cleared_view);
            }
            self.ore_collected = sat_add_u32(self.ore_collected, ore);
            self.coins_collected = sat_add_u32(self.coins_collected, coins);
            let reward = sat_add_u32(
                sat_mul_u32(ore, self.ore_score_value),
                sat_mul_u32(coins, self.coin_score_value),
            );
            self.score = sat_add_u32(self.score, reward);
            if self.depth_progress_paused {
                self.apply_active_wall_damage(rows.len());
            } else {
                let revealed = self.reveal_earth_lines(bw);
                if revealed > 0 {
                    self.ensure_bottomwell_floor();
                }
            }
        }
        rows.len()
    }
}


impl TetrisCore {
    /// Clears every full row at once, without the clear delay; returns how many were cleared.
    pub fn clear_lines(&mut self) -> (r: usize)
        requires
            old(self).wf(),
            depth_headroom(old(self)@),
        ensures
            final(self).wf(),
            final(self)@ == spec_clear_rows(old(self)@, spec_full_rows(old(self)@.board)),
            r == spec_full_rows(old(self)@.board).len(),
            !old(self)@.bottomwell_enabled && 1 <= r <= 4 ==> final(self)@.score as int == min_int(
                old(self)@.score + if r == 1 { 100int } else if r == 2 { 300int } else if r == 3 { 500int } else { 800int },
                u32::MAX as int,
            ),
    {
        proof {
            let rows = spec_full_rows(old(self)@.board);
            if !old(self)@.bottomwell_enabled && 1 <= rows.len() <= 4 {
                lemma_clear_scores_rows(old(self)@, rows);
            }
        }
        let rows = self.detect_full_rows();
        proof {
            assert(self@.board.len() == self.board@.len());
            lemma_full_rows(self@.board);
        }
        self.clear_specific_lines(rows)
    }

    fn advance_line_clear_phase(&mut self, dt_ms: u32) -> (r: bool)
        requires
            old(self).wf(),
            depth_headroom(old(self)@),
        ensures
            final(self).wf(),
            (final(self)@, r) == spec_advance_clear(old(self)@, dt_ms),
    {
        let ghost m = self@;
        let mut phase = LineClearPhase::Idle;
        std::mem::swap(&mut phase, &mut self.line_clear_phase);
        match phase {
            LineClearPhase::Idle => false,
            LineClearPhase::Delay { rows, elapsed_ms, duration_ms } => {
                let elapsed = sat_add_u32(elapsed_ms, dt_ms);
                if duration_ms != 0 && elapsed < duration_ms {
                    self.line_clear_phase = LineClearPhase::Delay {
                        rows,
                        elapsed_ms: elapsed,
                        duration_ms,
                    };
                    return false;
                }
                self.clear_specific_lines(rows);
                if self.current_piece.is_none() {
                    self.spawn_new_piece();
                }
                true
            },
        }
    }

    /// Advances the game by one gravity step of `dt_ms` milliseconds; see `spec_gravity`.
    pub fn advance_with_gravity(&mut self, dt_ms: u32) -> (r: GravityAdvanceResult)
        requires
            old(self).wf(),
            depth_headroom(old(self)@),
        ensures
            final(self).wf(),
            (final(self)@, r) == spec_gravity(old(self)@, dt_ms),
    {
        if self.advance_line_clear_phase(dt_ms) {
            return GravityAdvanceResult::Locked;
        }
        if self.is_line_clear_active() {
            return GravityAdvanceResult::LineClearAnimating;
        }
        if self.game_over || self.current_piece.is_none() {
            return GravityAdvanceResult::NoActivePiece;
        }
        if self.move_piece_down() {
            return GravityAdvanceResult::Moved;
        }
        if !self.grounded_for_lock {
            self.grounded_for_lock = true;
            self.grounded_total_lock_ms = sat_add_u32(self.grounded_total_lock_ms, dt_ms);
            if self.grounded_total_lock_ms >= self.lock_delay_max_ms {
                self.lock_active_piece();
                return GravityAdvanceResult::Locked;
            }
            return GravityAdvanceResult::Grounded;
        }
        self.grounded_lock_ms = sat_add_u32(self.grounded_lock_ms, dt_ms);
        self.grounded_total_lock_ms = sat_add_u32(self.grounded_total_lock_ms, dt_ms);
        if self.grounded_lock_ms >= self.lock_delay_ms
            || self.grounded_total_lock_ms >= self.lock_delay_max_ms {
            self.lock_active_piece();
            return GravityAdvanceResult::Locked;
        }
        GravityAdvanceResult::Grounded
    }
}


/// Clearing rows none of which holds a bottomwell cell reveals no earth: the depth stays.
pub proof fn lemma_clear_without_earth_keeps_depth(m: CoreModel, rows: Seq<usize>)
    requires
        count_bottomwell_rows(cleared_rows(m.board, rows)) == 0,
    ensures
        spec_clear_rows(m, rows).earth_depth == m.earth_depth,
{
}

/// The board height of a well-formed game is its effective height, whatever happened before:
/// every operation keeps the game well formed.
pub proof fn lemma_board_height(core: &TetrisCore)
    requires
        core.wf(),
    ensures
        core@.board.len() == spec_effective_height(core@),
{
    core.lemma_wf_model();
}

/// Clearing rows while a wall is active (bottomwell on) damages the wall under the tuning of
/// `set_depth_wall_damage_tuning`: one row deals the per-line damage; `n >= 2` rows deal the
/// per-line damage times `n` times the bonus percentage, over 100 (products saturating). The
/// wall keeps the rest of its hit points, or at zero it breaks and depth progress resumes.
pub proof fn lemma_clear_damages_active_wall(m: CoreModel, rows: Seq<usize>)
    requires
        model_wf(m),
        m.bottomwell_enabled,
        m.depth_progress_paused,
        rows.len() >= 1,
    ensures
        ({
            let n = rows.len() as int;
            let p = m.damage_per_line as int;
            let b = m.multi_bonus_percent as int;
            let d = if n == 1 {
                p
            } else {
                sat_mul(sat_mul(p, n, u32::MAX as int), b, u32::MAX as int) / 100
            };
            let c = spec_clear_rows(m, rows);
            &&& m.active_wall_hp > d ==> c.active_wall_hp == m.active_wall_hp - d && c.depth_progress_paused
                && c.active_wall_id == m.active_wall_id
            &&& m.active_wall_hp <= d ==> c.active_wall_hp == 0 && !c.depth_progress_paused
                && c.active_wall_id is None
            &&& c.earth_depth == m.earth_depth
        }),
{
}

/// Without the bottomwell, clearing rows (as `clear_lines` does with the full rows) keeps the
/// other rows in order and refills the top with as many empty rows; the line count grows by
/// the number of rows and the score by `spec_line_clear_points` (both saturating); clearing
/// no rows changes nothing.
pub proof fn lemma_plain_clear(m: CoreModel, rows: Seq<usize>)
    requires
        !m.bottomwell_enabled,
    ensures
        rows.len() == 0 ==> spec_clear_rows(m, rows) == m,
        rows.len() > 0 ==> ({
            let c = spec_clear_rows(m, rows);
            let n = rows.len() as int;
            &&& c.board == keep_rows(m.board, row_set(rows, 0)) + Seq::new(n as nat, |i: int| empty_row())
            &&& c.lines_cleared == sat_add(m.lines_cleared as int, n, u32::MAX as int)
            &&& c.score == sat_add(m.score as int, spec_line_clear_points(n as u32) as int, u32::MAX as int)
            &&& c.earth_depth == m.earth_depth
            &&& c.current_piece == m.current_piece
        }),
{
}

} // verus!
