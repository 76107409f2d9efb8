//! Pieces, their grids and rotations, and the integer vector used for board positions.
use vstd::prelude::*;

verus! {

/// The falling pieces. The first six form the default elemental pool; `Z`, `J` and `L` are
/// legacy identifiers kept for compatibility.
#[derive(Debug, Clone, Copy, PartialEq, Eq, Hash, Structural)]
pub enum Piece {
    I,
    O,
    Glass,
    T,
    S,
    MossSeed,
    Z,
    J,
    L,
}

/// The default pool, in draw order: Stone O, Wood I4, Glass I3, Sand T, Dirt I2, Moss seed.
pub open spec fn spec_default_pool() -> Seq<Piece> {
    seq![Piece::O, Piece::I, Piece::Glass, Piece::T, Piece::S, Piece::MossSeed]
}

/// Spawn weight of each piece when drawn from a pool.
pub open spec fn spec_default_weight(p: Piece) -> u32 {
    match p {
        Piece::O => 30,
        Piece::I => 25,
        Piece::Glass => 25,
        Piece::T => 25,
        Piece::S => 20,
        Piece::MossSeed => 15,
        Piece::Z | Piece::J | Piece::L => 1,
    }
}

impl Piece {
    pub const ALL: [Piece; 6] = [
        Piece::O,
        Piece::I,
        Piece::Glass,
        Piece::T,
        Piece::S,
        Piece::MossSeed,
    ];

    pub const LEGACY_ALL: [Piece; 8] = [
        Piece::I,
        Piece::O,
        Piece::Glass,
        Piece::T,
        Piece::S,
        Piece::Z,
        Piece::J,
        Piece::L,
    ];

    /// The default elemental pool as a vector.
    pub fn all() -> (r: Vec<Piece>)
        ensures
            r@ == spec_default_pool(),
    {
        let r = vec![Piece::O, Piece::I, Piece::Glass, Piece::T, Piece::S, Piece::MossSeed];
        assert(r@ =~= spec_default_pool());
        r
    }

    pub fn default_weight(self) -> (w: u32)
        ensures
            w == spec_default_weight(self),
            1 <= w <= 30,
    {
        match self {
            Piece::O => 30,
            Piece::I => 25,
            Piece::Glass => 25,
            Piece::T => 25,
            Piece::S => 20,
            Piece::MossSeed => 15,
            Piece::Z | Piece::J | Piece::L => 1,
        }
    }
}

/// An integer board position or offset. `y` grows upward; row 0 is the bottom of the board.
#[derive(Debug, Clone, Copy, PartialEq, Eq, Structural)]
pub struct Vec2i {
    pub x: i32,
    pub y: i32,
}

impl Vec2i {
    pub fn new(x: i32, y: i32) -> (r: Self)
        ensures
            r.x == x,
            r.y == y,
    {
        Self { x, y }
    }
}

impl core::ops::Add for Vec2i {
    type Output = Vec2i;

    fn add(self, rhs: Vec2i) -> (r: Vec2i) {
        Vec2i::new(self.x + rhs.x, self.y + rhs.y)
    }
}

impl vstd::std_specs::ops::AddSpecImpl for Vec2i {
    open spec fn obeys_add_spec() -> bool {
        true
    }

    open spec fn add_req(self, rhs: Vec2i) -> bool {
        i32::MIN <= self.x + rhs.x <= i32::MAX && i32::MIN <= self.y + rhs.y <= i32::MAX
    }

    open spec fn add_spec(self, rhs: Vec2i) -> Vec2i {
        Vec2i { x: (self.x + rhs.x) as i32, y: (self.y + rhs.y) as i32 }
    }
}

/// Direction of a rotation request.
#[derive(Debug, Clone, Copy, PartialEq, Eq, Structural)]
pub enum RotationDir {
    Cw,
    Ccw,
    Half,
}

/// The rotation index reached from `rotation` when a piece with `states` distinct
/// orientations turns in direction `dir` (a piece reporting zero states is treated as one).
pub open spec fn spec_rotation_apply(dir: RotationDir, rotation: int, states: int) -> int {
    let s = if states < 1 { 1 } else { states };
    match dir {
        RotationDir::Cw => (rotation + 1) % s,
        RotationDir::Ccw => (rotation + s - 1) % s,
        RotationDir::Half => (rotation + 2) % s,
    }
}

/// How turns compose, for a piece with one to four orientations, from any of them: a
/// clockwise turn goes to the next orientation index, a half turn is two clockwise turns, a
/// counter-clockwise turn undoes a clockwise one, and with four orientations a half turn
/// changes the orientation while two half turns come back to it.
pub proof fn lemma_rotation_laws(rotation: int, states: int)
    requires
        1 <= states <= 4,
        0 <= rotation < states,
    ensures
        spec_rotation_apply(RotationDir::Cw, rotation, states) == if rotation + 1 == states { 0 } else { rotation + 1 },
        spec_rotation_apply(RotationDir::Half, rotation, states) == spec_rotation_apply(
            RotationDir::Cw,
            spec_rotation_apply(RotationDir::Cw, rotation, states),
            states,
        ),
        spec_rotation_apply(RotationDir::Ccw, spec_rotation_apply(RotationDir::Cw, rotation, states), states) == rotation,
        states == 4 ==> spec_rotation_apply(RotationDir::Half, rotation, 4) != rotation,
        states == 4 ==> spec_rotation_apply(
            RotationDir::Half,
            spec_rotation_apply(RotationDir::Half, rotation, 4),
            4,
        ) == rotation,
{
    assert(states == 1 || states == 2 || states == 3 || states == 4);
    assert(0 <= rotation <= 3);
    if states == 1 {
        assert(rotation == 0);
    }
}

impl RotationDir {
    pub(crate) fn apply(self, rotation: u8, states: u8) -> (r: u8)
        requires
            rotation + 4 <= 255,
            states <= 4,
        ensures
            r == spec_rotation_apply(self, rotation as int, states as int),
            r < 4,
            states >= 1 ==> r < states,
    {
        let states = if states < 1 { 1 } else { states };
        match self {
            RotationDir::Cw => (rotation + 1) % states,
            RotationDir::Ccw => (rotation + states - 1) % states,
            RotationDir::Half => (rotation + 2) % states,
        }
    }
}

/// A square grid of at most 4x4 cells, stored row-major in the first `size * size` entries.
/// Row 0 is the top row of the grid.
#[derive(Debug, Clone, Copy, PartialEq, Eq)]
pub struct PieceGrid {
    size: usize,
    cells: [u8; 16],
}

/// The mathematical content of a grid: its side length and its sixteen stored cells.
pub ghost struct GridView {
    pub size: nat,
    pub cells: Seq<u8>,
}

impl View for PieceGrid {
    type V = GridView;

    closed spec fn view(&self) -> GridView {
        GridView { size: self.size as nat, cells: self.cells@ }
    }
}

/// `a * s` for the grid sizes 1 to 4.
pub open spec fn smul(a: int, s: nat) -> int {
    if s == 1 {
        a
    } else if s == 2 {
        a + a
    } else if s == 3 {
        a + a + a
    } else {
        a + a + a + a
    }
}

/// `i / s` for the grid sizes 1 to 4.
pub open spec fn sdiv(i: int, s: nat) -> int {
    if s == 1 {
        i
    } else if s == 2 {
        i / 2
    } else if s == 3 {
        i / 3
    } else {
        i / 4
    }
}

/// `i % s` for the grid sizes 1 to 4.
pub open spec fn smod(i: int, s: nat) -> int {
    if s == 1 {
        0
    } else if s == 2 {
        i % 2
    } else if s == 3 {
        i % 3
    } else {
        i % 4
    }
}

proof fn lemma_small_arith(a: int, i: int, s: nat)
    by (nonlinear_arith)
    requires
        1 <= s <= 4,
        0 <= i,
    ensures
        a * s == smul(a, s),
        i / (s as int) == sdiv(i, s),
        i % (s as int) == smod(i, s),
{
    if s == 1 {
    } else if s == 2 {
    } else if s == 3 {
    } else {
    }
}

/// Cell `(x, y)` of a grid, `x` the column and `y` the row counted from the top.
pub open spec fn grid_at(g: GridView, x: int, y: int) -> u8 {
    g.cells[smul(y, g.size) + x]
}

/// The grid turned a quarter clockwise: the cell at column `x`, row `y` of the result is the
/// cell at column `y`, row `size - 1 - x` of the source; cells past `size * size` are zero.
pub open spec fn spec_rotate(g: GridView) -> GridView {
    GridView {
        size: g.size,
        cells: Seq::new(
            16,
            |i: int|
                if i < smul(g.size as int, g.size) {
                    g.cells[smul(g.size - 1 - smod(i, g.size), g.size) + sdiv(i, g.size)]
                } else {
                    0u8
                },
        ),
    }
}

pub open spec fn spec_rotate_n(g: GridView, n: nat) -> GridView
    decreases n,
{
    if n == 0 {
        g
    } else {
        spec_rotate(spec_rotate_n(g, (n - 1) as nat))
    }
}

pub open spec fn spec_piece_board_offset(piece: Piece) -> int {
    match piece {
        Piece::O | Piece::S | Piece::MossSeed => 0,
        _ => 1,
    }
}

pub open spec fn spec_piece_grid_size(piece: Piece) -> nat {
    match piece {
        Piece::MossSeed => 1,
        Piece::I => 4,
        Piece::O => 2,
        Piece::S => 2,
        _ => 3,
    }
}

pub open spec fn spec_rotation_states(piece: Piece) -> nat {
    match piece {
        Piece::O | Piece::MossSeed => 1,
        Piece::I | Piece::Glass | Piece::S => 2,
        _ => 4,
    }
}

/// The unrotated shape of each piece.
pub open spec fn spec_base_cells(piece: Piece) -> Seq<u8> {
    match piece {
        Piece::MossSeed => seq![1u8, 0, 0, 0, 0, 0, 0, 0, 0, 0, 0, 0, 0, 0, 0, 0],
        Piece::I => seq![0u8, 0, 0, 0, 1, 1, 1, 1, 0, 0, 0, 0, 0, 0, 0, 0],
        Piece::Glass => seq![0u8, 0, 0, 1, 1, 1, 0, 0, 0, 0, 0, 0, 0, 0, 0, 0],
        Piece::O => seq![1u8, 1, 1, 1, 0, 0, 0, 0, 0, 0, 0, 0, 0, 0, 0, 0],
        Piece::T => seq![0u8, 1, 0, 1, 1, 1, 0, 0, 0, 0, 0, 0, 0, 0, 0, 0],
        Piece::S => seq![1u8, 1, 0, 0, 0, 0, 0, 0, 0, 0, 0, 0, 0, 0, 0, 0],
        Piece::Z => seq![1u8, 1, 0, 0, 1, 1, 0, 0, 0, 0, 0, 0, 0, 0, 0, 0],
        Piece::J => seq![1u8, 0, 0, 1, 1, 1, 0, 0, 0, 0, 0, 0, 0, 0, 0, 0],
        Piece::L => seq![0u8, 0, 1, 1, 1, 1, 0, 0, 0, 0, 0, 0, 0, 0, 0, 0],
    }
}

pub open spec fn spec_base_grid(piece: Piece) -> GridView {
    GridView { size: spec_piece_grid_size(piece), cells: spec_base_cells(piece) }
}

/// The grid of `piece` in orientation `rotation`: the base shape turned clockwise
/// `rotation % states` times.
pub open spec fn spec_piece_grid(piece: Piece, rotation: int) -> GridView {
    spec_rotate_n(spec_base_grid(piece), (rotation % (spec_rotation_states(piece) as int)) as nat)
}

/// Whether grid cell `(gx, gy)` of `piece` in orientation `rotation` is filled.
pub open spec fn spec_piece_cell(piece: Piece, rotation: int, gx: int, gy: int) -> bool {
    let g = spec_piece_grid(piece, rotation);
    0 <= gx < g.size && 0 <= gy < g.size && grid_at(g, gx, gy) == 1
}

/// Board value written for a locked cell of each piece.
pub open spec fn spec_piece_type(piece: Piece) -> u8 {
    match piece {
        Piece::I => 1,
        Piece::O => 2,
        Piece::Glass => 3,
        Piece::T => 15,
        Piece::S => 4,
        Piece::MossSeed => 14,
        Piece::Z => 5,
        Piece::J => 6,
        Piece::L => 7,
    }
}

pub fn piece_board_offset(piece: Piece) -> (r: i32)
    ensures
        r == spec_piece_board_offset(piece),
{
    match piece {
        Piece::O | Piece::S | Piece::MossSeed => 0,
        Piece::I | Piece::Glass | Piece::T | Piece::Z | Piece::J | Piece::L => 1,
    }
}

fn piece_grid_size(piece: Piece) -> (r: usize)
    ensures
        r == spec_piece_grid_size(piece),
{
    match piece {
        Piece::MossSeed => 1,
        Piece::I => 4,
        Piece::O => 2,
        Piece::S => 2,
        Piece::Glass | Piece::T | Piece::Z | Piece::J | Piece::L => 3,
    }
}

pub(crate) fn piece_rotation_states(piece: Piece) -> (r: u8)
    ensures
        r == spec_rotation_states(piece),
        1 <= r <= 4,
{
    match piece {
        Piece::O | Piece::MossSeed => 1,
        Piece::I | Piece::Glass | Piece::S => 2,
        Piece::T | Piece::Z | Piece::J | Piece::L => 4,
    }
}

pub(crate) fn piece_type(piece: Piece) -> (r: u8)
    ensures
        r == spec_piece_type(piece),
{
    match piece {
        Piece::I => 1,
        Piece::O => 2,
        Piece::Glass => 3,
        Piece::T => 15,
        Piece::S => 4,
        Piece::MossSeed => 14,
        Piece::Z => 5,
        Piece::J => 6,
        Piece::L => 7,
    }
}

proof fn lemma_rotate_index(size: int, i: int)
    by (nonlinear_arith)
    requires
        1 <= size <= 4,
        0 <= i < size * size,
    ensures
        0 <= (size - 1 - i % size) * size + i / size < size * size,
        size * size <= 16,
{
}

impl PieceGrid {
    /// Side length of the grid.
    pub fn size(&self) -> (r: usize)
        ensures
            r == self@.size,
    {
        self.size
    }

    /// Cell at column `x`, row `y`.
    pub fn cell(&self, x: usize, y: usize) -> (r: u8)
        requires
            x < self@.size,
            y < self@.size,
            self@.size <= 4,
        ensures
            r == grid_at(self@, x as int, y as int),
    {
        proof {
            assert(y * self.size + x < 16) by (nonlinear_arith)
                requires
                    x < self.size,
                    y < self.size,
                    self.size <= 4,
            ;
            lemma_small_arith(y as int, 0, self.size as nat);
        }
        self.cells[y * self.size + x]
    }
}

/// Turns a grid a quarter clockwise.
fn rotate_grid_90(grid: &PieceGrid) -> (r: PieceGrid)
    requires
        1 <= grid@.size <= 4,
    ensures
        r@ == spec_rotate(grid@),
{
    let size = grid.size;
    assert(size * size <= 16) by (nonlinear_arith)
        requires
            size <= 4,
    ;
    let area = size * size;
    let mut cells = [0u8; 16];
    let mut i: usize = 0;
    while i < 16
        invariant
            grid.size == size,
            1 <= size <= 4,
            area == size * size,
            area <= 16,
            i <= 16,
            cells@.len() == 16,
            forall|j: int| 0 <= j < i ==> cells@[j] == #[trigger] spec_rotate(grid@).cells[j],
            forall|j: int| i <= j < 16 ==> cells@[j] == 0,
        decreases 16 - i,
    {
        proof {
            lemma_small_arith(size as int, i as int, size as nat);
        }
        if i < area {
            proof {
                lemma_rotate_index(size as int, i as int);
            }
            let c = i % size;
            let row = i / size;
            proof {
                lemma_small_arith(size as int, i as int, size as nat);
                lemma_small_arith((size - 1 - c) as int, i as int, size as nat);
            }
            cells[i] = grid.cells[(size - 1 - c) * size + row];
        } else {
            cells[i] = 0;
        }
        i += 1;
    }
    let r = PieceGrid { size, cells };
    assert(r@.cells =~= spec_rotate(grid@).cells);
    r
}

fn base_piece_grid(piece: Piece) -> (r: PieceGrid)
    ensures
        r@ == spec_base_grid(piece),
{
    let size = piece_grid_size(piece);
    let r = match piece {
        Piece::MossSeed => PieceGrid { size, cells: [1, 0, 0, 0, 0, 0, 0, 0, 0, 0, 0, 0, 0, 0, 0, 0] },
        Piece::I => PieceGrid { size, cells: [0, 0, 0, 0, 1, 1, 1, 1, 0, 0, 0, 0, 0, 0, 0, 0] },
        Piece::Glass => PieceGrid { size, cells: [0, 0, 0, 1, 1, 1, 0, 0, 0, 0, 0, 0, 0, 0, 0, 0] },
        Piece::O => PieceGrid { size, cells: [1, 1, 1, 1, 0, 0, 0, 0, 0, 0, 0, 0, 0, 0, 0, 0] },
        Piece::T => PieceGrid { size, cells: [0, 1, 0, 1, 1, 1, 0, 0, 0, 0, 0, 0, 0, 0, 0, 0] },
        Piece::S => PieceGrid { size, cells: [1, 1, 0, 0, 0, 0, 0, 0, 0, 0, 0, 0, 0, 0, 0, 0] },
        Piece::Z => PieceGrid { size, cells: [1, 1, 0, 0, 1, 1, 0, 0, 0, 0, 0, 0, 0, 0, 0, 0] },
        Piece::J => PieceGrid { size, cells: [1, 0, 0, 1, 1, 1, 0, 0, 0, 0, 0, 0, 0, 0, 0, 0] },
        Piece::L => PieceGrid { size, cells: [0, 0, 1, 1, 1, 1, 0, 0, 0, 0, 0, 0, 0, 0, 0, 0] },
    };
    assert(r@.cells =~= spec_base_cells(piece));
    r
}

proof fn lemma_rotate_n_size(g: GridView, n: nat)
    ensures
        spec_rotate_n(g, n).size == g.size,
    decreases n,
{
    if n > 0 {
        lemma_rotate_n_size(g, (n - 1) as nat);
    }
}

/// Every piece grid keeps the side length of the piece and has sixteen stored cells.
pub proof fn lemma_piece_grid_size(piece: Piece, rotation: int)
    ensures
        spec_piece_grid(piece, rotation).size == spec_piece_grid_size(piece),
        1 <= spec_piece_grid_size(piece) <= 4,
{
    lemma_rotate_n_size(spec_base_grid(piece), (rotation % (spec_rotation_states(piece) as int)) as nat);
}

/// The grid of `piece` in orientation `rotation`.
pub fn piece_grid(piece: Piece, rotation: u8) -> (r: PieceGrid)
    ensures
        r@ == spec_piece_grid(piece, rotation as int),
        r@.size == spec_piece_grid_size(piece),
        1 <= r@.size <= 4,
{
    let mut grid = base_piece_grid(piece);
    let steps = rotation % piece_rotation_states(piece);
    let mut k: u8 = 0;
    while k < steps
        invariant
            k <= steps,
            steps as int == (rotation as int) % (spec_rotation_states(piece) as int),
            grid@ == spec_rotate_n(spec_base_grid(piece), k as nat),
            grid@.size == spec_piece_grid_size(piece),
        decreases steps - k,
    {
        proof {
            lemma_rotate_n_size(spec_base_grid(piece), k as nat);
        }
        grid = rotate_grid_90(&grid);
        k += 1;
    }
    proof {
        lemma_piece_grid_size(piece, rotation as int);
    }
    grid
}

} // verus!
verus! {

/// A filled cell present in every orientation of a piece.
pub open spec fn spec_anchor_cell(piece: Piece) -> (int, int) {
    match piece {
        Piece::I => (2, 1),
        Piece::O | Piece::MossSeed => (0, 0),
        Piece::S => (1, 0),
        _ => (1, 1),
    }
}

proof fn lemma_rotate_at(g: GridView, i: int, s: nat, q: int, r: int)
    requires
        s == g.size,
        0 <= i < 16,
        i < smul(s as int, s),
        r == smod(i, s),
        q == sdiv(i, s),
    ensures
        spec_rotate(g).cells[i] == g.cells[smul(s - 1 - r, s) + q],
{
}

/// Every orientation of every piece fills its anchor cell.
pub proof fn lemma_anchor_cell(piece: Piece, rotation: int)
    ensures
        spec_piece_cell(piece, rotation, spec_anchor_cell(piece).0, spec_anchor_cell(piece).1),
{
    let states = spec_rotation_states(piece) as int;
    let steps = (rotation % states) as nat;
    let base = spec_base_grid(piece);
    lemma_piece_grid_size(piece, rotation);
    let r1 = spec_rotate(base);
    let r2 = spec_rotate(r1);
    let r3 = spec_rotate(r2);
    assert(spec_rotate_n(base, 0) == base);
    assert(spec_rotate_n(base, 1) == r1);
    assert(spec_rotate_n(base, 2) == r2) by {
        assert(spec_rotate_n(base, 1) == r1);
    }
    assert(spec_rotate_n(base, 3) == r3) by {
        assert(spec_rotate_n(base, 2) == r2) by {
            assert(spec_rotate_n(base, 1) == r1);
        }
    }
    let (ax, ay) = spec_anchor_cell(piece);
    match piece {
        Piece::I => {
            assert(base.cells[5] == 1);
            lemma_rotate_at(base, 6, 4, 1, 2);
            assert(base.cells[6] == 1);
        },
        Piece::O | Piece::MossSeed => {
            assert(base.cells[0] == 1);
        },
        Piece::S => {
            assert(base.cells[1] == 1);
            assert(base.cells[0] == 1);
            lemma_rotate_at(base, 1, 2, 0, 1);
        },
        _ => {
            assert(base.cells[4] == 1);
            lemma_rotate_at(base, 4, 3, 1, 1);
            lemma_rotate_at(r1, 4, 3, 1, 1);
            lemma_rotate_at(r2, 4, 3, 1, 1);
        },
    }
}

pub open spec fn spec_i_grid_even() -> Seq<u8> {
    seq![0u8, 0, 0, 0, 1, 1, 1, 1, 0, 0, 0, 0, 0, 0, 0, 0]
}

pub open spec fn spec_i_grid_odd() -> Seq<u8> {
    seq![0u8, 0, 1, 0, 0, 0, 1, 0, 0, 0, 1, 0, 0, 0, 1, 0]
}

proof fn lemma_seq16_eq(a: Seq<u8>, b: Seq<u8>)
    requires
        a.len() == 16,
        b.len() == 16,
        a[0] == b[0], a[1] == b[1], a[2] == b[2], a[3] == b[3],
        a[4] == b[4], a[5] == b[5], a[6] == b[6], a[7] == b[7],
        a[8] == b[8], a[9] == b[9], a[10] == b[10], a[11] == b[11],
        a[12] == b[12], a[13] == b[13], a[14] == b[14], a[15] == b[15],
    ensures
        a == b,
{
    assert forall|i: int| 0 <= i < 16 implies a[i] == b[i] by {
        if i == 0 {} else if i == 1 {} else if i == 2 {} else if i == 3 {}
        else if i == 4 {} else if i == 5 {} else if i == 6 {} else if i == 7 {}
        else if i == 8 {} else if i == 9 {} else if i == 10 {} else if i == 11 {}
        else if i == 12 {} else if i == 13 {} else if i == 14 {} else {}
    }
    assert(a =~= b);
}

/// The two orientations of the I piece: a horizontal bar in row 1, a vertical bar in column 2.
pub proof fn lemma_i_grid(rotation: int)
    ensures
        spec_piece_grid(Piece::I, rotation).size == 4,
        spec_piece_grid(Piece::I, rotation).cells == (if rotation % 2 == 0 {
            spec_i_grid_even()
        } else {
            spec_i_grid_odd()
        }),
{
    let base = spec_base_grid(Piece::I);
    lemma_piece_grid_size(Piece::I, rotation);
    assert(spec_rotate_n(base, 0) == base);
    assert(spec_rotate_n(base, 1) == spec_rotate(base));
    if rotation % 2 == 0 {
        lemma_seq16_eq(base.cells, spec_i_grid_even());
    } else {
        let r1 = spec_rotate(base);
        lemma_rotate_at(base, 0, 4, 0, 0);
        lemma_rotate_at(base, 1, 4, 0, 1);
        lemma_rotate_at(base, 2, 4, 0, 2);
        lemma_rotate_at(base, 3, 4, 0, 3);
        lemma_rotate_at(base, 4, 4, 1, 0);
        lemma_rotate_at(base, 5, 4, 1, 1);
        lemma_rotate_at(base, 6, 4, 1, 2);
        lemma_rotate_at(base, 7, 4, 1, 3);
        lemma_rotate_at(base, 8, 4, 2, 0);
        lemma_rotate_at(base, 9, 4, 2, 1);
        lemma_rotate_at(base, 10, 4, 2, 2);
        lemma_rotate_at(base, 11, 4, 2, 3);
        lemma_rotate_at(base, 12, 4, 3, 0);
        lemma_rotate_at(base, 13, 4, 3, 1);
        lemma_rotate_at(base, 14, 4, 3, 2);
        lemma_rotate_at(base, 15, 4, 3, 3);
        lemma_seq16_eq(r1.cells, spec_i_grid_odd());
    }
}

/// A piece's orientations repeat: turning it by its number of orientations changes nothing.
pub proof fn lemma_rotation_period(piece: Piece, rotation: int)
    requires
        rotation >= 0,
    ensures
        spec_piece_grid(piece, rotation + spec_rotation_states(piece) as int) == spec_piece_grid(piece, rotation),
{
    let s = spec_rotation_states(piece) as int;
    assert((rotation + s) % s == rotation % s) by (nonlinear_arith)
        requires
            s >= 1,
            rotation >= 0,
    ;
}

/// The O piece and the moss seed look the same in every orientation, and the moss seed is a
/// single cell.
pub proof fn lemma_rotation_invariant_pieces(rotation: int)
    ensures
        spec_piece_grid(Piece::O, rotation) == spec_piece_grid(Piece::O, 0),
        spec_piece_grid(Piece::MossSeed, rotation) == spec_piece_grid(Piece::MossSeed, 0),
        forall|gx: int, gy: int| spec_piece_cell(Piece::MossSeed, rotation, gx, gy) <==> (gx == 0 && gy == 0),
{
    assert(rotation % 1 == 0);
    assert(0int % 1 == 0);
    let g = spec_piece_grid(Piece::MossSeed, rotation);
    assert(g == spec_base_grid(Piece::MossSeed));
    assert(grid_at(g, 0, 0) == 1) by {
        assert(smul(0, 1) == 0);
    }
}

} // verus!
