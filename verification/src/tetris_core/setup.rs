//! Starting a game, copying out its state, and configuring the depth walls.
use vstd::prelude::*;

use super::earth::{contains_string, spec_prefill};
use super::{
    clone_rows, clone_wall_def, model_wf, new_empty_board, rows_view, spec_effective_height,
    strings_view, walls_view, CoreModel, DepthWallDef, LineClearPhase, LineClearView,
    TetrisCore, TetrisSnapshot, WallView, empty_owner_row, empty_row, owner_rows_view, PieceId,
};
use crate::piece::{Piece, Vec2i};
use super::spec_spawn;

verus! {

/// A fresh game on the current configuration: an empty board of the effective height,
/// every counter and piece slot reset, no active wall; with the bottomwell on its earth rows
/// are filled; then the first piece spawns. Broken walls, the pool, the tuning and the rng
/// carry over.
pub open spec fn spec_initialize(m: CoreModel) -> CoreModel {
    let h = spec_effective_height(m);
    let m1 = CoreModel {
        board: Seq::new(h as nat, |i: int| empty_row()),
        owners: Seq::new(h as nat, |i: int| empty_owner_row()),
        next_piece_id: 1,
        kinds: Map::empty(),
        current_piece: None,
        next_queue: Seq::empty(),
        held_piece: None,
        can_hold: true,
        pos: Vec2i { x: 4, y: h as i32 },
        rotation: 0,
        bag: Seq::empty(),
        lines_cleared: 0,
        score: 0,
        game_over: false,
        grounded_lock_ms: 0,
        grounded_total_lock_ms: 0,
        grounded_for_lock: false,
        line_clear: LineClearView::Idle,
        last_kick: Vec2i { x: 0, y: 0 },
        earth_depth: 0,
        ore_collected: 0,
        coins_collected: 0,
        active_wall_id: None,
        active_wall_hp: 0,
        depth_progress_paused: false,
        glass_shatter_count: 0,
        ..m
    };
    let m2 = if m.bottomwell_enabled { spec_prefill(m1) } else { m1 };
    spec_spawn(m2)
}

impl TetrisCore {
    /// Starts a new game; see `spec_initialize`. The broken walls in effect are those last
    /// given to `set_broken_walls` (or recorded by breaking walls).
    pub fn initialize_game(&mut self)
        requires
            old(self).wf(),
        ensures
            final(self).wf(),
            final(self)@ == spec_initialize(old(self)@),
    {
        broadcast use vstd::std_specs::hash::group_hash_axioms;

        let h = self.effective_board_height();
        let (board, owners) = new_empty_board(h);
        self.board = board;
        self.board_owner = owners;
        self.next_piece_id = 1;
        self.placed_piece_kind.clear();
        self.current_piece = None;
        self.next_queue.clear();
        self.held_piece = None;
        self.can_hold = true;
        self.current_piece_pos = Vec2i::new(4, h as i32);
        self.current_piece_rotation = 0;
        self.piece_bag.clear();
        self.lines_cleared = 0;
        self.score = 0;
        self.game_over = false;
        self.clear_lock_delay_state();
        self.line_clear_phase = LineClearPhase::Idle;
        self.last_kick_offset = Vec2i::new(0, 0);
        self.earth_depth = 0;
        self.ore_collected = 0;
        self.coins_collected = 0;
        self.active_wall_id = None;
        self.active_wall_hp_remaining = 0;
        self.depth_progress_paused = false;
        self.glass_shatter_count = 0;
        if self.bottomwell_enabled {
            self.prefill_bottomwell();
        }
        self.spawn_new_piece();
    }
}


// ---- Snapshot --------------------------------------------------------------------------------

pub(crate) fn copy_pieces(v: &Vec<Piece>) -> (r: Vec<Piece>)
    ensures
        r@ == v@,
{
    let mut r: Vec<Piece> = Vec::new();
    let mut i: usize = 0;
    while i < v.len()
        invariant
            i <= v@.len(),
            r@ == v@.take(i as int),
        decreases v@.len() - i,
    {
        r.push(v[i]);
        i += 1;
        assert(r@ =~= v@.take(i as int));
    }
    assert(v@.take(v@.len() as int) =~= v@);
    r
}

impl TetrisCore {
    /// A copy of the visible state: board, pieces, position, rotation, lines, score and
    /// whether the game is over.
    pub fn snapshot(&self) -> (r: TetrisSnapshot)
        ensures
            rows_view(r.board@) == self@.board,
            r.current_piece == self@.current_piece,
            r.next_piece == (if self@.next_queue.len() > 0 {
                Some(self@.next_queue[0])
            } else {
                None
            }),
            r.next_queue@ == self@.next_queue,
            r.held_piece == self@.held_piece,
            r.can_hold == self@.can_hold,
            r.current_piece_pos == self@.pos,
            r.current_piece_rotation == self@.rotation,
            r.lines_cleared == self@.lines_cleared,
            r.score == self@.score,
            r.game_over == self@.game_over,
    {
        TetrisSnapshot {
            board: clone_rows(&self.board),
            current_piece: self.current_piece,
            next_piece: self.next_piece(),
            next_queue: copy_pieces(&self.next_queue),
            held_piece: self.held_piece,
            can_hold: self.can_hold,
            current_piece_pos: self.current_piece_pos,
            current_piece_rotation: self.current_piece_rotation,
            lines_cleared: self.lines_cleared,
            score: self.score,
            game_over: self.game_over,
        }
    }
}

// ---- Wall labels -----------------------------------------------------------------------------

pub open spec fn spec_ascii_upper(c: char) -> char {
    if 'a' <= c <= 'z' {
        ((c as int) - 32) as char
    } else {
        c
    }
}

pub open spec fn spec_upper(s: Seq<char>) -> Seq<char> {
    s.map_values(|c: char| spec_ascii_upper(c))
}

/// Index of the first wall definition with the given id.
pub open spec fn spec_find_wall(walls: Seq<WallView>, id: Seq<char>) -> Option<int>
    decreases walls.len(),
{
    if walls.len() == 0 {
        None
    } else {
        match spec_find_wall(walls.drop_last(), id) {
            Some(i) => Some(i),
            None => if walls.last().id == id {
                Some(walls.len() - 1)
            } else {
                None
            },
        }
    }
}

/// The label of the active wall, "<FROM> TO <TO> WALL" in capitals, if a wall is active and
/// defined.
pub open spec fn spec_wall_label(m: CoreModel) -> Option<Seq<char>> {
    match m.active_wall_id {
        None => None,
        Some(id) => match spec_find_wall(m.depth_walls, id) {
            None => None,
            Some(i) => Some(
                spec_upper(m.depth_walls[i].biome_from) + seq![' ', 'T', 'O', ' '] + spec_upper(
                    m.depth_walls[i].biome_to,
                ) + seq![' ', 'W', 'A', 'L', 'L'],
            ),
        },
    }
}

fn ascii_upper(c: char) -> (r: char)
    ensures
        r == spec_ascii_upper(c),
{
    if 'a' <= c && c <= 'z' {
        let b = c as u8;
        assert(b == c as int) by {
            assert('a' as int <= c as int <= 'z' as int);
        }
        (b - 32) as char
    } else {
        c
    }
}

/// Appends the characters of `s`, in capitals, to `out`.
fn push_upper(out: &mut Vec<char>, s: &str)
    ensures
        final(out)@ == old(out)@ + spec_upper(s@),
{
    let n = s.unicode_len();
    let ghost start = out@;
    let mut i: usize = 0;
    while i < n
        invariant
            n == s@.len(),
            i <= n,
            out@ == start + spec_upper(s@.take(i as int)),
        decreases n - i,
    {
        let c = s.get_char(i);
        out.push(ascii_upper(c));
        i += 1;
        assert(spec_upper(s@.take(i as int)) =~= spec_upper(s@.take(i - 1)).push(spec_ascii_upper(c)));
    }
    assert(s@.take(n as int) =~= s@);
}

/// Turns a list of characters into a string (`String::from_iter`).
#[verifier::external_body]
pub(crate) fn string_from_chars(chars: &Vec<char>) -> (r: String)
    ensures
        r@ == chars@,
{
    chars.iter().collect()
}

impl TetrisCore {
    fn active_wall_index(&self) -> (r: Option<usize>)
        requires
            self.wf(),
        ensures
            match self@.active_wall_id {
                None => r is None,
                Some(id) => match spec_find_wall(self@.depth_walls, id) {
                    None => r is None,
                    Some(j) => r is Some && r->0 as int == j,
                },
            },
            r matches Some(i) ==> i < self@.depth_walls.len(),
    {
        let id = match &self.active_wall_id {
            Some(id) => id,
            None => return None,
        };
        let ghost walls = self@.depth_walls;
        let mut i: usize = 0;
        while i < self.depth_walls.len()
            invariant
                walls == self@.depth_walls,
                walls == walls_view(self.depth_walls@),
                self@.active_wall_id == Some(id@),
                walls.len() == self.depth_walls@.len(),
                i <= walls.len(),
                spec_find_wall(walls.take(i as int), id@) is None,
            decreases walls.len() - i,
        {
            assert(walls.take(i + 1).drop_last() =~= walls.take(i as int));
            assert(walls[i as int].id == self.depth_walls@[i as int].id@);
            if self.depth_walls[i].id == *id {
                proof {
                    lemma_find_wall_prefix(walls, id@, i as int + 1);
                }
                return Some(i);
            }
            i += 1;
        }
        assert(walls.take(walls.len() as int) =~= walls);
        None
    }

    /// The label of the active wall; see `spec_wall_label`.
    pub fn active_wall_label(&self) -> (r: Option<String>)
        requires
            self.wf(),
        ensures
            match r {
                Some(s) => spec_wall_label(self@) == Some(s@),
                None => spec_wall_label(self@) is None,
            },
    {
        let i = match self.active_wall_index() {
            Some(i) => i,
            None => return None,
        };
        let wall = &self.depth_walls[i];
        assert(wall@ == self@.depth_walls[i as int]);
        let mut chars: Vec<char> = Vec::new();
        push_upper(&mut chars, wall.biome_from.as_str());
        chars.push(' ');
        chars.push('T');
        chars.push('O');
        chars.push(' ');
        push_upper(&mut chars, wall.biome_to.as_str());
        chars.push(' ');
        chars.push('W');
        chars.push('A');
        chars.push('L');
        chars.push('L');
        let ghost w = self@.depth_walls[i as int];
        assert(chars@ =~= spec_upper(w.biome_from) + seq![' ', 'T', 'O', ' '] + spec_upper(w.biome_to)
            + seq![' ', 'W', 'A', 'L', 'L']);
        Some(string_from_chars(&chars))
    }
}

proof fn lemma_find_wall_prefix(walls: Seq<WallView>, id: Seq<char>, k: int)
    requires
        0 < k <= walls.len(),
        spec_find_wall(walls.take(k - 1), id) is None,
        walls[k - 1].id == id,
    ensures
        spec_find_wall(walls, id) == Some(k - 1),
    decreases walls.len() - k,
{
    assert(walls.take(k).drop_last() =~= walls.take(k - 1));
    assert(spec_find_wall(walls.take(k), id) == Some(k - 1));
    if k < walls.len() {
        lemma_find_wall_extend(walls, id, k);
    } else {
        assert(walls.take(k) =~= walls);
    }
}

proof fn lemma_find_wall_extend(walls: Seq<WallView>, id: Seq<char>, k: int)
    requires
        0 < k <= walls.len(),
        spec_find_wall(walls.take(k), id) is Some,
    ensures
        spec_find_wall(walls, id) == spec_find_wall(walls.take(k), id),
    decreases walls.len() - k,
{
    if k < walls.len() {
        assert(walls.take(k + 1).drop_last() =~= walls.take(k));
        lemma_find_wall_extend(walls, id, k + 1);
    } else {
        assert(walls.take(k) =~= walls);
    }
}


// ---- Wall definitions ------------------------------------------------------------------------

/// Unicode white space (`char::is_whitespace`).
pub open spec fn spec_is_whitespace(c: char) -> bool {
    let u = c as int;
    ||| 9 <= u <= 13
    ||| u == 32
    ||| u == 0x85
    ||| u == 0xA0
    ||| u == 0x1680
    ||| 0x2000 <= u <= 0x200A
    ||| u == 0x2028
    ||| u == 0x2029
    ||| u == 0x202F
    ||| u == 0x205F
    ||| u == 0x3000
}

/// A string that is empty once surrounding white space is trimmed.
pub open spec fn spec_blank(s: Seq<char>) -> bool {
    forall|i: int| 0 <= i < s.len() ==> spec_is_whitespace(#[trigger] s[i])
}

/// A wall definition as stored: a blank id becomes "depth_wall" and zero hp becomes 1.
pub open spec fn spec_normalize_wall(w: WallView) -> WallView {
    WallView {
        id: if spec_blank(w.id) { "depth_wall"@ } else { w.id },
        hp: if w.hp == 0 { 1 } else { w.hp },
        ..w
    }
}

/// Where a wall goes in a list ordered by trigger depth: after every wall that triggers no
/// deeper.
pub open spec fn spec_insert_pos(s: Seq<WallView>, trigger: u64) -> int
    decreases s.len(),
{
    if s.len() == 0 || s[0].depth_trigger > trigger {
        0
    } else {
        1 + spec_insert_pos(s.drop_first(), trigger)
    }
}

/// The walls ordered by trigger depth by inserting them one by one, equal triggers keeping
/// their relative order.
pub open spec fn spec_sort_walls(s: Seq<WallView>) -> Seq<WallView>
    decreases s.len(),
{
    if s.len() == 0 {
        s
    } else {
        let sorted = spec_sort_walls(s.drop_last());
        sorted.insert(spec_insert_pos(sorted, s.last().depth_trigger), s.last())
    }
}

proof fn lemma_insert_pos(s: Seq<WallView>, trigger: u64, p: int)
    requires
        0 <= p <= s.len(),
        forall|k: int| 0 <= k < p ==> s[k].depth_trigger <= trigger,
        p < s.len() ==> s[p].depth_trigger > trigger,
    ensures
        spec_insert_pos(s, trigger) == p,
    decreases p,
{
    if p > 0 {
        let t = s.drop_first();
        assert forall|k: int| 0 <= k < p - 1 implies t[k].depth_trigger <= trigger by {
            assert(t[k] == s[k + 1]);
        }
        lemma_insert_pos(t, trigger, p - 1);
    }
}

pub open spec fn walls_sorted(s: Seq<WallView>) -> bool {
    forall|i: int, j: int| 0 <= i < j < s.len() ==> s[i].depth_trigger <= s[j].depth_trigger
}

pub(crate) fn is_whitespace(c: char) -> (r: bool)
    ensures
        r == spec_is_whitespace(c),
{
    let u = c as u32;
    (9 <= u && u <= 13) || u == 32 || u == 0x85 || u == 0xA0 || u == 0x1680 || (0x2000 <= u && u
        <= 0x200A) || u == 0x2028 || u == 0x2029 || u == 0x202F || u == 0x205F || u == 0x3000
}

pub(crate) fn is_blank(s: &str) -> (r: bool)
    ensures
        r == spec_blank(s@),
{
    let n = s.unicode_len();
    let mut i: usize = 0;
    while i < n
        invariant
            n == s@.len(),
            i <= n,
            forall|k: int| 0 <= k < i ==> spec_is_whitespace(#[trigger] s@[k]),
        decreases n - i,
    {
        let c = s.get_char(i);
        if !is_whitespace(c) {
            return false;
        }
        i += 1;
    }
    true
}

impl TetrisCore {
    /// Replaces the depth wall definitions: blank ids become "depth_wall", zero hp becomes 1,
    /// and the walls are ordered by trigger depth (walls with equal triggers in some order).
    pub fn set_depth_wall_defs(&mut self, defs: Vec<DepthWallDef>)
        ensures
            final(self)@ == (CoreModel { depth_walls: final(self)@.depth_walls, ..old(self)@ }),
            walls_sorted(final(self)@.depth_walls),
            final(self)@.depth_walls == spec_sort_walls(
                walls_view(defs@).map_values(|w: WallView| spec_normalize_wall(w)),
            ),
            final(self)@.depth_walls.to_multiset() == walls_view(defs@).map_values(
                |w: WallView| spec_normalize_wall(w),
            ).to_multiset(),
            old(self).wf() ==> final(self).wf(),
    {
        let ghost norm = walls_view(defs@).map_values(|w: WallView| spec_normalize_wall(w));
        let mut sorted: Vec<DepthWallDef> = Vec::new();
        assert(walls_view(sorted@) =~= norm.take(0));
        let mut i: usize = 0;
        while i < defs.len()
            invariant
                norm == walls_view(defs@).map_values(|w: WallView| spec_normalize_wall(w)),
                i <= defs@.len(),
                walls_sorted(walls_view(sorted@)),
                walls_view(sorted@) == spec_sort_walls(norm.take(i as int)),
                walls_view(sorted@).to_multiset() == norm.take(i as int).to_multiset(),
            decreases defs@.len() - i,
        {
            let d = &defs[i];
            let blank = is_blank(d.id.as_str());
            let nd = DepthWallDef {
                id: if blank { String::from_str("depth_wall") } else { d.id.clone() },
                depth_trigger: d.depth_trigger,
                hp: if d.hp == 0 { 1 } else { d.hp },
                biome_from: d.biome_from.clone(),
                biome_to: d.biome_to.clone(),
            };
            assert(nd@ == norm[i as int]);
            let mut p: usize = 0;
            while p < sorted.len() && sorted[p].depth_trigger <= nd.depth_trigger
                invariant
                    p <= sorted@.len(),
                    forall|k: int| 0 <= k < p ==> (#[trigger] sorted@[k]).depth_trigger <= nd.depth_trigger,
                decreases sorted@.len() - p,
            {
                p += 1;
            }
            let ghost before = walls_view(sorted@);
            proof {
                assert forall|k: int| p <= k < before.len() implies before[k].depth_trigger > nd.depth_trigger by {
                    if p < before.len() {
                        assert(before[p as int].depth_trigger > nd.depth_trigger);
                        if k > p {
                            assert(before[p as int].depth_trigger <= before[k].depth_trigger);
                        }
                    }
                }
            }
            proof {
                lemma_insert_pos(before, nd.depth_trigger, p as int);
                assert(norm.take(i + 1).drop_last() =~= norm.take(i as int));
            }
            sorted.insert(p, nd);
            proof {
                let after = walls_view(sorted@);
                assert(after =~= before.insert(p as int, nd@));
                assert(norm.take(i + 1) =~= norm.take(i as int).push(norm[i as int]));
                vstd::seq_lib::to_multiset_insert(before, p as int, nd@);
                vstd::seq_lib::to_multiset_build(norm.take(i as int), norm[i as int]);
                assert forall|a: int, b: int| 0 <= a < b < after.len() implies after[a].depth_trigger <= after[b].depth_trigger by {
                    if b < p {
                    } else if b == p {
                        assert(before[a].depth_trigger <= nd.depth_trigger);
                    } else if a < p {
                        assert(before[a].depth_trigger <= nd.depth_trigger);
                        assert(before[b - 1].depth_trigger > nd.depth_trigger);
                    } else if a == p {
                        assert(before[b - 1].depth_trigger > nd.depth_trigger);
                    } else {
                        assert(before[a - 1].depth_trigger <= before[b - 1].depth_trigger);
                    }
                }
            }
            i += 1;
        }
        assert(norm.take(defs@.len() as int) =~= norm);
        self.depth_walls = sorted;
    }

    /// Replaces the set of walls already broken (kept once each, in order).
    pub fn set_broken_walls(&mut self, walls: Vec<String>)
        ensures
            final(self)@ == (CoreModel { broken_walls: final(self)@.broken_walls, ..old(self)@ }),
            final(self)@.broken_walls.to_set() == strings_view(walls@).to_set(),
            final(self)@.broken_walls.no_duplicates(),
            old(self).wf() ==> final(self).wf(),
    {
        let mut kept: Vec<String> = Vec::new();
        let mut i: usize = 0;
        while i < walls.len()
            invariant
                i <= walls@.len(),
                strings_view(kept@).to_set() == strings_view(walls@).take(i as int).to_set(),
                strings_view(kept@).no_duplicates(),
            decreases walls@.len() - i,
        {
            let ghost kv = strings_view(kept@);
            let ghost wv = strings_view(walls@);
            assert(wv.take(i + 1) =~= wv.take(i as int).push(wv[i as int]));
            proof {
                lemma_push_to_set(wv.take(i as int), wv[i as int]);
                lemma_push_to_set(kv, wv[i as int]);
            }
            if !contains_string(&kept, &walls[i]) {
                kept.push(walls[i].clone());
                assert(strings_view(kept@) =~= kv.push(wv[i as int]));
            } else {
                assert(kv.to_set().contains(wv[i as int]));
                assert(kv.to_set().insert(wv[i as int]) =~= kv.to_set());
            }
            i += 1;
        }
        assert(strings_view(walls@).take(walls@.len() as int) =~= strings_view(walls@));
        self.broken_walls = kept;
    }

    /// The ids of the walls already broken.
    pub fn broken_walls(&self) -> (r: &Vec<String>)
        ensures
            strings_view(r@) == self@.broken_walls,
    {
        &self.broken_walls
    }

    /// Whether a wall broke since the progress was last marked saved.
    pub fn depth_wall_progress_unsaved(&self) -> (r: bool)
        ensures
            r == self@.progress_unsaved,
    {
        self.depth_wall_progress_unsaved
    }

    /// Records that the broken walls have been written out.
    pub fn mark_depth_wall_progress_saved(&mut self)
        ensures
            final(self)@ == (CoreModel { progress_unsaved: false, ..old(self)@ }),
            old(self).wf() ==> final(self).wf(),
    {
        self.depth_wall_progress_unsaved = false;
    }
}


proof fn lemma_push_to_set<A>(s: Seq<A>, a: A)
    ensures
        s.push(a).to_set() == s.to_set().insert(a),
{
    assert forall|x: A| s.push(a).to_set().contains(x) implies s.to_set().insert(a).contains(x) by {
        let i = choose|i: int| 0 <= i < s.push(a).len() && s.push(a)[i] == x;
        if i < s.len() {
            assert(s[i] == x);
        }
    }
    assert forall|x: A| s.to_set().insert(a).contains(x) implies s.push(a).to_set().contains(x) by {
        if x == a {
            assert(s.push(a)[s.len() as int] == a);
        } else {
            let i = choose|i: int| 0 <= i < s.len() && s[i] == x;
            assert(s.push(a)[i] == x);
        }
    }
    assert(s.push(a).to_set() =~= s.to_set().insert(a));
}


// ---- Copies ----------------------------------------------------------------------------------

/// Copies a path (`PathBuf::clone`); the path is carried along, never read by the game rules.
#[verifier::external_body]
fn clone_path(p: &std::path::PathBuf) -> std::path::PathBuf {
    p.clone()
}

fn clone_owner_rows(rows: &Vec<Vec<Option<PieceId>>>) -> (r: Vec<Vec<Option<PieceId>>>)
    ensures
        owner_rows_view(r@) == owner_rows_view(rows@),
{
    let mut r: Vec<Vec<Option<PieceId>>> = Vec::new();
    let mut i: usize = 0;
    while i < rows.len()
        invariant
            i <= rows@.len(),
            owner_rows_view(r@) == owner_rows_view(rows@).take(i as int),
        decreases rows@.len() - i,
    {
        let row = &rows[i];
        let mut c: Vec<Option<PieceId>> = Vec::new();
        let mut j: usize = 0;
        while j < row.len()
            invariant
                j <= row@.len(),
                c@ == row@.take(j as int),
            decreases row@.len() - j,
        {
            c.push(row[j]);
            j += 1;
            assert(c@ =~= row@.take(j as int));
        }
        assert(row@.take(row@.len() as int) =~= row@);
        let ghost before = r@;
        r.push(c);
        assert(owner_rows_view(r@) =~= owner_rows_view(before).push(rows@[i as int]@));
        i += 1;
        assert(owner_rows_view(r@) =~= owner_rows_view(rows@).take(i as int));
    }
    assert(owner_rows_view(rows@).take(rows@.len() as int) =~= owner_rows_view(rows@));
    r
}

pub(crate) fn clone_strings(v: &Vec<String>) -> (r: Vec<String>)
    ensures
        strings_view(r@) == strings_view(v@),
{
    let mut r: Vec<String> = Vec::new();
    let mut i: usize = 0;
    while i < v.len()
        invariant
            i <= v@.len(),
            strings_view(r@) == strings_view(v@).take(i as int),
        decreases v@.len() - i,
    {
        let c = v[i].clone();
        let ghost before = r@;
        r.push(c);
        assert(strings_view(r@) =~= strings_view(before).push(v@[i as int]@));
        i += 1;
        assert(strings_view(r@) =~= strings_view(v@).take(i as int));
    }
    assert(strings_view(v@).take(v@.len() as int) =~= strings_view(v@));
    r
}

pub(crate) fn clone_walls(v: &Vec<DepthWallDef>) -> (r: Vec<DepthWallDef>)
    ensures
        walls_view(r@) == walls_view(v@),
{
    let mut r: Vec<DepthWallDef> = Vec::new();
    let mut i: usize = 0;
    while i < v.len()
        invariant
            i <= v@.len(),
            walls_view(r@) == walls_view(v@).take(i as int),
        decreases v@.len() - i,
    {
        let c = clone_wall_def(&v[i]);
        let ghost before = r@;
        r.push(c);
        assert(walls_view(r@) =~= walls_view(before).push(v@[i as int]@));
        i += 1;
        assert(walls_view(r@) =~= walls_view(v@).take(i as int));
    }
    assert(walls_view(v@).take(v@.len() as int) =~= walls_view(v@));
    r
}

fn clone_usizes(v: &Vec<usize>) -> (r: Vec<usize>)
    ensures
        r@ == v@,
{
    let mut r: Vec<usize> = Vec::new();
    let mut i: usize = 0;
    while i < v.len()
        invariant
            i <= v@.len(),
            r@ == v@.take(i as int),
        decreases v@.len() - i,
    {
        r.push(v[i]);
        i += 1;
        assert(r@ =~= v@.take(i as int));
    }
    assert(v@.take(v@.len() as int) =~= v@);
    r
}

impl Clone for TetrisCore {
    /// A copy of the whole game.
    fn clone(&self) -> (r: Self)
        ensures
            r@ == self@,
            r.wf() == self.wf(),
    {
        TetrisCore {
            board: clone_rows(&self.board),
            board_owner: clone_owner_rows(&self.board_owner),
            next_piece_id: self.next_piece_id,
            placed_piece_kind: self.placed_piece_kind.clone(),
            current_piece: self.current_piece,
            next_queue: copy_pieces(&self.next_queue),
            held_piece: self.held_piece,
            can_hold: self.can_hold,
            current_piece_pos: self.current_piece_pos,
            current_piece_rotation: self.current_piece_rotation,
            available_pieces: copy_pieces(&self.available_pieces),
            piece_bag: copy_pieces(&self.piece_bag),
            background_seed: self.background_seed,
            rng: self.rng,
            lines_cleared: self.lines_cleared,
            score: self.score,
            game_over: self.game_over,
            lock_delay_ms: self.lock_delay_ms,
            lock_delay_max_ms: self.lock_delay_max_ms,
            line_clear_delay_ms: self.line_clear_delay_ms,
            grounded_lock_ms: self.grounded_lock_ms,
            grounded_total_lock_ms: self.grounded_total_lock_ms,
            grounded_for_lock: self.grounded_for_lock,
            line_clear_phase: match &self.line_clear_phase {
                LineClearPhase::Idle => LineClearPhase::Idle,
                LineClearPhase::Delay { rows, elapsed_ms, duration_ms } => LineClearPhase::Delay {
                    rows: clone_usizes(rows),
                    elapsed_ms: *elapsed_ms,
                    duration_ms: *duration_ms,
                },
            },
            last_kick_offset: self.last_kick_offset,
            bottomwell_enabled: self.bottomwell_enabled,
            bottomwell_rows: self.bottomwell_rows,
            earth_depth: self.earth_depth,
            ore_collected: self.ore_collected,
            coins_collected: self.coins_collected,
            deep_shaft_rows: self.deep_shaft_rows,
            ore_score_value: self.ore_score_value,
            coin_score_value: self.coin_score_value,
            ore_money_value: self.ore_money_value,
            coin_money_value: self.coin_money_value,
            ore_weight_points: self.ore_weight_points,
            coin_weight_points: self.coin_weight_points,
            hole_patch_chance_bp: self.hole_patch_chance_bp,
            hole_align_chance_bp: self.hole_align_chance_bp,
            depth_walls: clone_walls(&self.depth_walls),
            active_wall_id: match &self.active_wall_id {
                Some(s) => Some(s.clone()),
                None => None,
            },
            active_wall_hp_remaining: self.active_wall_hp_remaining,
            depth_progress_paused: self.depth_progress_paused,
            depth_wall_damage_per_line: self.depth_wall_damage_per_line,
            depth_wall_multi_clear_bonus_percent: self.depth_wall_multi_clear_bonus_percent,
            broken_walls: clone_strings(&self.broken_walls),
            glass_shatter_count: self.glass_shatter_count,
            depth_wall_progress_unsaved: self.depth_wall_progress_unsaved,
            depth_wall_progress_path: clone_path(&self.depth_wall_progress_path),
        }
    }
}

} // verus!
