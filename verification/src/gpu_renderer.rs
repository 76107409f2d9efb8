//! What the GPU renderer decides without the graphics stack: its buffer mode and where its
//! tiny block font puts the pixels of a text.
use vstd::prelude::*;

use crate::headful::skilltree_camera::{sat_mul_u32_spec, Rect};
use crate::skilltree::runtime::sat_add;

verus! {

/// How large the renderer's pixel buffer is.
#[derive(Debug, Clone, Copy, PartialEq, Eq, Structural)]
pub enum BufferMode {
    /// The pixel buffer is sized to the surface; used for CPU rendering (uploads full frame).
    CpuMatchesSurface,
    /// The pixel buffer is tiny; used for GPU rendering to avoid full-frame uploads.
    GpuTiny,
}

// ---- The block font -------------------------------------------------------------------------

/// The five rows of a character of the block font, three columns each (bit 2 is the left
/// column); letters in either case look alike, and characters without a glyph show a
/// question mark.
pub open spec fn spec_glyph(ch: char) -> [u8; 5] {
    match ch {
        '0' => [0b111, 0b101, 0b101, 0b101, 0b111],
        '1' => [0b010, 0b110, 0b010, 0b010, 0b111],
        '2' => [0b111, 0b001, 0b111, 0b100, 0b111],
        '3' => [0b111, 0b001, 0b111, 0b001, 0b111],
        '4' => [0b101, 0b101, 0b111, 0b001, 0b001],
        '5' => [0b111, 0b100, 0b111, 0b001, 0b111],
        '6' => [0b111, 0b100, 0b111, 0b101, 0b111],
        '7' => [0b111, 0b001, 0b001, 0b001, 0b001],
        '8' => [0b111, 0b101, 0b111, 0b101, 0b111],
        '9' => [0b111, 0b101, 0b111, 0b001, 0b111],
        'A' | 'a' => [0b010, 0b101, 0b111, 0b101, 0b101],
        'B' | 'b' => [0b110, 0b101, 0b110, 0b101, 0b110],
        'C' | 'c' => [0b111, 0b100, 0b100, 0b100, 0b111],
        'D' | 'd' => [0b110, 0b101, 0b101, 0b101, 0b110],
        'E' | 'e' => [0b111, 0b100, 0b111, 0b100, 0b111],
        'F' | 'f' => [0b111, 0b100, 0b111, 0b100, 0b100],
        'G' | 'g' => [0b111, 0b100, 0b101, 0b101, 0b111],
        'H' | 'h' => [0b101, 0b101, 0b111, 0b101, 0b101],
        'I' | 'i' => [0b111, 0b010, 0b010, 0b010, 0b111],
        'J' | 'j' => [0b111, 0b001, 0b001, 0b101, 0b010],
        'K' | 'k' => [0b101, 0b110, 0b100, 0b110, 0b101],
        'L' | 'l' => [0b100, 0b100, 0b100, 0b100, 0b111],
        'M' | 'm' => [0b101, 0b111, 0b111, 0b101, 0b101],
        'N' | 'n' => [0b101, 0b111, 0b111, 0b111, 0b101],
        'O' | 'o' => [0b111, 0b101, 0b101, 0b101, 0b111],
        'P' | 'p' => [0b111, 0b101, 0b111, 0b100, 0b100],
        'Q' | 'q' => [0b111, 0b101, 0b101, 0b111, 0b001],
        'R' | 'r' => [0b111, 0b101, 0b111, 0b110, 0b101],
        'S' | 's' => [0b111, 0b100, 0b111, 0b001, 0b111],
        'T' | 't' => [0b111, 0b010, 0b010, 0b010, 0b010],
        'U' | 'u' => [0b101, 0b101, 0b101, 0b101, 0b111],
        'V' | 'v' => [0b101, 0b101, 0b101, 0b101, 0b010],
        'W' | 'w' => [0b101, 0b101, 0b111, 0b111, 0b101],
        'X' | 'x' => [0b101, 0b101, 0b010, 0b101, 0b101],
        'Y' | 'y' => [0b101, 0b101, 0b010, 0b010, 0b010],
        'Z' | 'z' => [0b111, 0b001, 0b010, 0b100, 0b111],
        '.' => [0b000, 0b000, 0b000, 0b000, 0b010],
        ':' => [0b000, 0b010, 0b000, 0b010, 0b000],
        '-' => [0b000, 0b000, 0b111, 0b000, 0b000],
        '(' => [0b010, 0b100, 0b100, 0b100, 0b010],
        ')' => [0b010, 0b001, 0b001, 0b001, 0b010],
        '!' => [0b010, 0b010, 0b010, 0b000, 0b010],
        '?' => [0b111, 0b001, 0b010, 0b000, 0b010],
        '/' => [0b001, 0b001, 0b010, 0b100, 0b100],
        '+' => [0b000, 0b010, 0b111, 0b010, 0b000],
        '\'' => [0b010, 0b010, 0b000, 0b000, 0b000],
        _ => [0b111, 0b001, 0b010, 0b000, 0b010],
    }
}

/// Every glyph row fits the font's three columns.
pub proof fn lemma_glyph_rows_fit(ch: char, i: int)
    requires
        0 <= i < 5,
    ensures
        spec_glyph(ch)@[i] < 8,
{
}

/// The rows of `ch` in the block font; see `spec_glyph`.
pub fn glyph_rows(ch: char) -> (r: [u8; 5])
    ensures
        r == spec_glyph(ch),
{
    match ch {
        '0' => [0b111, 0b101, 0b101, 0b101, 0b111],
        '1' => [0b010, 0b110, 0b010, 0b010, 0b111],
        '2' => [0b111, 0b001, 0b111, 0b100, 0b111],
        '3' => [0b111, 0b001, 0b111, 0b001, 0b111],
        '4' => [0b101, 0b101, 0b111, 0b001, 0b001],
        '5' => [0b111, 0b100, 0b111, 0b001, 0b111],
        '6' => [0b111, 0b100, 0b111, 0b101, 0b111],
        '7' => [0b111, 0b001, 0b001, 0b001, 0b001],
        '8' => [0b111, 0b101, 0b111, 0b101, 0b111],
        '9' => [0b111, 0b101, 0b111, 0b001, 0b111],
        'A' | 'a' => [0b010, 0b101, 0b111, 0b101, 0b101],
        'B' | 'b' => [0b110, 0b101, 0b110, 0b101, 0b110],
        'C' | 'c' => [0b111, 0b100, 0b100, 0b100, 0b111],
        'D' | 'd' => [0b110, 0b101, 0b101, 0b101, 0b110],
        'E' | 'e' => [0b111, 0b100, 0b111, 0b100, 0b111],
        'F' | 'f' => [0b111, 0b100, 0b111, 0b100, 0b100],
        'G' | 'g' => [0b111, 0b100, 0b101, 0b101, 0b111],
        'H' | 'h' => [0b101, 0b101, 0b111, 0b101, 0b101],
        'I' | 'i' => [0b111, 0b010, 0b010, 0b010, 0b111],
        'J' | 'j' => [0b111, 0b001, 0b001, 0b101, 0b010],
        'K' | 'k' => [0b101, 0b110, 0b100, 0b110, 0b101],
        'L' | 'l' => [0b100, 0b100, 0b100, 0b100, 0b111],
        'M' | 'm' => [0b101, 0b111, 0b111, 0b101, 0b101],
        'N' | 'n' => [0b101, 0b111, 0b111, 0b111, 0b101],
        'O' | 'o' => [0b111, 0b101, 0b101, 0b101, 0b111],
        'P' | 'p' => [0b111, 0b101, 0b111, 0b100, 0b100],
        'Q' | 'q' => [0b111, 0b101, 0b101, 0b111, 0b001],
        'R' | 'r' => [0b111, 0b101, 0b111, 0b110, 0b101],
        'S' | 's' => [0b111, 0b100, 0b111, 0b001, 0b111],
        'T' | 't' => [0b111, 0b010, 0b010, 0b010, 0b010],
        'U' | 'u' => [0b101, 0b101, 0b101, 0b101, 0b111],
        'V' | 'v' => [0b101, 0b101, 0b101, 0b101, 0b010],
        'W' | 'w' => [0b101, 0b101, 0b111, 0b111, 0b101],
        'X' | 'x' => [0b101, 0b101, 0b010, 0b101, 0b101],
        'Y' | 'y' => [0b101, 0b101, 0b010, 0b010, 0b010],
        'Z' | 'z' => [0b111, 0b001, 0b010, 0b100, 0b111],
        '.' => [0b000, 0b000, 0b000, 0b000, 0b010],
        ':' => [0b000, 0b010, 0b000, 0b010, 0b000],
        '-' => [0b000, 0b000, 0b111, 0b000, 0b000],
        '(' => [0b010, 0b100, 0b100, 0b100, 0b010],
        ')' => [0b010, 0b001, 0b001, 0b001, 0b010],
        '!' => [0b010, 0b010, 0b010, 0b000, 0b010],
        '?' => [0b111, 0b001, 0b010, 0b000, 0b010],
        '/' => [0b001, 0b001, 0b010, 0b100, 0b100],
        '+' => [0b000, 0b010, 0b111, 0b010, 0b000],
        '\'' => [0b010, 0b010, 0b000, 0b000, 0b000],
        _ => [0b111, 0b001, 0b010, 0b000, 0b010],
    }
}

/// A lit square of text: its top-left pixel and its side.
#[derive(Debug, Clone, Copy, PartialEq, Eq, Structural)]
pub struct GlyphSquare {
    pub x: u32,
    pub y: u32,
    pub size: u32,
}

/// Whether column `col` (0 is the left one) of a glyph row is lit.
pub open spec fn lit(bits: u8, col: int) -> bool {
    (bits as int / (if col == 0 { 4int } else if col == 1 { 2int } else { 1int })) % 2 == 1
}

/// The square of cell (`row`, `col`) of a glyph drawn at (`cx`, `cy`) with squares of side `s`.
pub open spec fn cell_square(cx: u32, cy: u32, row: int, col: int, s: u32) -> GlyphSquare {
    GlyphSquare {
        x: sat_add(cx, sat_mul_u32_spec(col as u32, s)),
        y: sat_add(cy, sat_mul_u32_spec(row as u32, s)),
        size: s,
    }
}

/// The lit squares among the first `ncols` columns of row `row`, left to right.
pub open spec fn row_squares(cx: u32, cy: u32, bits: u8, row: int, s: u32, ncols: int) -> Seq<GlyphSquare>
    decreases ncols,
{
    if ncols <= 0 {
        Seq::empty()
    } else {
        row_squares(cx, cy, bits, row, s, ncols - 1) + if lit(bits, ncols - 1) {
            seq![cell_square(cx, cy, row, ncols - 1, s)]
        } else {
            Seq::empty()
        }
    }
}

/// The lit squares of the first `nrows` rows of `rows`, top to bottom.
pub open spec fn glyph_squares(cx: u32, cy: u32, rows: [u8; 5], s: u32, nrows: int) -> Seq<GlyphSquare>
    decreases nrows,
{
    if nrows <= 0 {
        Seq::empty()
    } else {
        glyph_squares(cx, cy, rows, s, nrows - 1) + row_squares(cx, cy, rows@[nrows - 1], nrows - 1, s, 3)
    }
}

/// The squares of `chars` written from the cursor (`cx`, `cy`) with squares of side `s`: a
/// line break returns to column `x` one line (six squares) lower, a space advances four
/// squares, and any other character draws its glyph and advances four squares (all
/// saturating).
pub open spec fn text_squares_from(chars: Seq<char>, x: u32, cx: u32, cy: u32, s: u32) -> Seq<GlyphSquare>
    decreases chars.len(),
{
    if chars.len() == 0 {
        Seq::empty()
    } else {
        let c = chars[0];
        let rest = chars.drop_first();
        let adv = sat_mul_u32_spec(4, s);
        if c == '\n' {
            text_squares_from(rest, x, x, sat_add(cy, sat_mul_u32_spec(6, s)), s)
        } else if c == ' ' {
            text_squares_from(rest, x, sat_add(cx, adv), cy, s)
        } else {
            glyph_squares(cx, cy, spec_glyph(c), s, 5) + text_squares_from(rest, x, sat_add(cx, adv), cy, s)
        }
    }
}

fn sat_add_u32(a: u32, b: u32) -> (r: u32)
    ensures
        r == sat_add(a, b),
{
    a.saturating_add(b)
}

fn sat_mul_u32(a: u32, b: u32) -> (r: u32)
    ensures
        r == sat_mul_u32_spec(a, b),
{
    match a.checked_mul(b) {
        Some(v) => v,
        None => u32::MAX,
    }
}

/// Appends the lit squares of the glyph `rows` drawn at (`cx`, `cy`).
fn push_glyph_squares(out: &mut Vec<GlyphSquare>, cx: u32, cy: u32, rows: [u8; 5], s: u32)
    ensures
        final(out)@ == old(out)@ + glyph_squares(cx, cy, rows, s, 5),
{
    let ghost start = out@;
    let mut row: usize = 0;
    while row < 5
        invariant
            row <= 5,
            out@ == start + glyph_squares(cx, cy, rows, s, row as int),
        decreases 5 - row,
    {
        let bits = rows[row];
        let py = sat_add_u32(cy, sat_mul_u32(row as u32, s));
        let ghost before = out@;
        let mut col: u32 = 0;
        while col < 3
            invariant
                row < 5,
                col <= 3,
                bits == rows@[row as int],
                py == sat_add(cy, sat_mul_u32_spec(row as u32, s)),
                out@ == before + row_squares(cx, cy, bits, row as int, s, col as int),
            decreases 3 - col,
        {
            let div: u8 = if col == 0 { 4 } else if col == 1 { 2 } else { 1 };
            if (bits / div) % 2 == 1 {
                out.push(GlyphSquare { x: sat_add_u32(cx, sat_mul_u32(col, s)), y: py, size: s });
            }
            proof {
                assert(row_squares(cx, cy, bits, row as int, s, col + 1) == row_squares(cx, cy, bits, row as int, s, col as int)
                    + if lit(bits, col as int) { seq![cell_square(cx, cy, row as int, col as int, s)] } else { Seq::empty() });
            }
            assert(out@ =~= before + row_squares(cx, cy, bits, row as int, s, col + 1));
            col = col + 1;
        }
        assert(out@ =~= start + glyph_squares(cx, cy, rows, s, row + 1));
        row = row + 1;
    }
}

/// Where the block font puts its pixels when `text` is written from (`x`, `y`) with squares
/// of side `scale` (at least one): see `text_squares_from`. The renderer draws a rectangle
/// for each square.
pub fn text_pixel_squares(x: u32, y: u32, text: &str, scale: u32) -> (r: Vec<GlyphSquare>)
    ensures
        r@ == text_squares_from(text@, x, x, y, if scale < 1 { 1 } else { scale }),
{
    let s: u32 = if scale < 1 { 1 } else { scale };
    let adv = sat_mul_u32(4, s);
    let line = sat_mul_u32(6, s);
    let ghost chars = text@;
    let n = text.unicode_len();
    let mut out: Vec<GlyphSquare> = Vec::new();
    let mut cx = x;
    let mut cy = y;
    let mut i: usize = 0;
    assert(chars.skip(0) =~= chars);
    assert(out@ + text_squares_from(chars, x, x, y, s) =~= text_squares_from(chars, x, x, y, s));
    while i < n
        invariant
            n == chars.len(),
            chars == text@,
            i <= n,
            adv == sat_mul_u32_spec(4, s),
            line == sat_mul_u32_spec(6, s),
            out@ + text_squares_from(chars.skip(i as int), x, cx, cy, s) == text_squares_from(chars, x, x, y, s),
        decreases n - i,
    {
        let c = text.get_char(i);
        let ghost rest = chars.skip(i as int);
        assert(rest[0] == c);
        assert(rest.drop_first() =~= chars.skip(i + 1));
        if c == '\n' {
            cx = x;
            cy = sat_add_u32(cy, line);
        } else if c == ' ' {
            cx = sat_add_u32(cx, adv);
        } else {
            let ghost before = out@;
            push_glyph_squares(&mut out, cx, cy, glyph_rows(c), s);
            assert(before + text_squares_from(rest, x, cx, cy, s) =~= out@ + text_squares_from(
                chars.skip(i + 1),
                x,
                sat_add(cx, adv),
                cy,
                s,
            ));
            cx = sat_add_u32(cx, adv);
        }
        i = i + 1;
    }
    assert(chars.skip(n as int) =~= Seq::<char>::empty());
    assert(out@ + Seq::<GlyphSquare>::empty() =~= out@);
    out
}

/// The one-pixel border of `rect` as rectangles: top, bottom (when taller than one pixel),
/// left, right (when wider than one pixel); nothing for an empty rectangle.
pub open spec fn spec_outline(rect: Rect) -> Seq<Rect> {
    if rect.w == 0 || rect.h == 0 {
        Seq::empty()
    } else {
        seq![Rect { x: rect.x, y: rect.y, w: rect.w, h: 1 }] + (if rect.h > 1 {
            seq![Rect { x: rect.x, y: (rect.y + rect.h - 1) as u32, w: rect.w, h: 1 }]
        } else {
            Seq::empty()
        }) + seq![Rect { x: rect.x, y: rect.y, w: 1, h: rect.h }] + (if rect.w > 1 {
            seq![Rect { x: (rect.x + rect.w - 1) as u32, y: rect.y, w: 1, h: rect.h }]
        } else {
            Seq::empty()
        })
    }
}

/// The rectangles the renderer fills to outline `rect`; see `spec_outline`.
pub fn outline_rects(rect: Rect) -> (r: Vec<Rect>)
    requires
        rect.w > 0 && rect.h > 1 ==> rect.y + rect.h <= u32::MAX,
        rect.h > 0 && rect.w > 1 ==> rect.x + rect.w <= u32::MAX,
    ensures
        r@ == spec_outline(rect),
{
    let mut out: Vec<Rect> = Vec::new();
    if rect.w == 0 || rect.h == 0 {
        assert(out@ =~= spec_outline(rect));
        return out;
    }
    out.push(Rect::new(rect.x, rect.y, rect.w, 1));
    if rect.h > 1 {
        out.push(Rect::new(rect.x, rect.y + rect.h - 1, rect.w, 1));
    }
    out.push(Rect::new(rect.x, rect.y, 1, rect.h));
    if rect.w > 1 {
        out.push(Rect::new(rect.x + rect.w - 1, rect.y, 1, rect.h));
    }
    assert(out@ =~= spec_outline(rect));
    out
}

/// `r` alone when `c` holds, else nothing.
pub open spec fn rect_if(c: bool, r: Rect) -> Seq<Rect> {
    if c { seq![r] } else { Seq::empty() }
}

/// The one-pixel frame drawn around the board `board` on a screen of `width` by `height`
/// pixels, as rectangles: top, bottom, left and right sides, then the top-left, top-right,
/// bottom-left and bottom-right corners; a side or corner that would leave the screen is left
/// out.
pub open spec fn spec_board_outline(width: u32, height: u32, board: Rect) -> Seq<Rect> {
    let top = board.y > 0;
    let bottom = board.y + board.h < height;
    let left = board.x > 0;
    let right = board.x + board.w < width;
    let x0 = (board.x - 1) as u32;
    let y0 = (board.y - 1) as u32;
    let x1 = (board.x + board.w) as u32;
    let y1 = (board.y + board.h) as u32;
    rect_if(top, Rect { x: board.x, y: y0, w: board.w, h: 1 })
        + rect_if(bottom, Rect { x: board.x, y: y1, w: board.w, h: 1 })
        + rect_if(left, Rect { x: x0, y: board.y, w: 1, h: board.h })
        + rect_if(right, Rect { x: x1, y: board.y, w: 1, h: board.h })
        + rect_if(left && top, Rect { x: x0, y: y0, w: 1, h: 1 })
        + rect_if(right && top, Rect { x: x1, y: y0, w: 1, h: 1 })
        + rect_if(left && bottom, Rect { x: x0, y: y1, w: 1, h: 1 })
        + rect_if(right && bottom, Rect { x: x1, y: y1, w: 1, h: 1 })
}

/// The rectangles the renderer fills to frame the board; see `spec_board_outline`.
pub fn board_outline_rects(width: u32, height: u32, board: Rect) -> (r: Vec<Rect>)
    requires
        board.x + board.w <= u32::MAX,
        board.y + board.h <= u32::MAX,
    ensures
        r@ == spec_board_outline(width, height, board),
{
    let top = board.y > 0;
    let bottom = board.y + board.h < height;
    let left = board.x > 0;
    let right = board.x + board.w < width;
    let mut out: Vec<Rect> = Vec::new();
    let ghost g = spec_board_outline(width, height, board);
    if top {
        out.push(Rect::new(board.x, board.y - 1, board.w, 1));
    }
    if bottom {
        out.push(Rect::new(board.x, board.y + board.h, board.w, 1));
    }
    if left {
        out.push(Rect::new(board.x - 1, board.y, 1, board.h));
    }
    if right {
        out.push(Rect::new(board.x + board.w, board.y, 1, board.h));
    }
    if left && top {
        out.push(Rect::new(board.x - 1, board.y - 1, 1, 1));
    }
    if right && top {
        out.push(Rect::new(board.x + board.w, board.y - 1, 1, 1));
    }
    if left && bottom {
        out.push(Rect::new(board.x - 1, board.y + board.h, 1, 1));
    }
    if right && bottom {
        out.push(Rect::new(board.x + board.w, board.y + board.h, 1, 1));
    }
    assert(out@ =~= g);
    out
}

} // verus!
