//! The splash screen's title art: the logo's background made transparent,
//! the extent of what remains, and pairs of pixel rows drawn as half-block
//! terminal cells.
use crate::frame::{lemma_pixel_index, transparent, Frame, FrameView, Rgba};
use vstd::prelude::*;

verus! {

/// Width of the title art, in terminal cells.
pub const TITLE_COLS: u32 = 80;

/// Height of the title art, in pixel rows (two per terminal row).
pub const TITLE_PIXEL_ROWS: u32 = 32;

// ───────────────────────── preparing the logo ─────────────────────────

/// Whether a logo pixel is background: mostly transparent, or near white.
pub open spec fn is_background(p: Rgba) -> bool {
    p.3 < 128 || (p.0 > 230 && p.1 > 230 && p.2 > 230)
}

/// A logo pixel with its background made transparent.
pub open spec fn cleared(p: Rgba) -> Rgba {
    if is_background(p) {
        transparent()
    } else {
        p
    }
}

/// The logo with every background pixel made transparent, so that scaling
/// blends its edges against transparency rather than white.
pub fn clear_background(img: &Frame) -> (r: Frame)
    ensures
        r@.width == img@.width,
        r@.height == img@.height,
        r@.pixels == img@.pixels.map_values(|p: Rgba| cleared(p)),
{
    let src = img.pixels();
    let mut out: Vec<Rgba> = Vec::new();
    let mut k: usize = 0;
    while k < src.len()
        invariant
            k <= src@.len(),
            out@ == src@.take(k as int).map_values(|p: Rgba| cleared(p)),
        decreases src.len() - k,
    {
        let p = src[k];
        let q = if p.3 < 128 || (p.0 > 230 && p.1 > 230 && p.2 > 230) {
            (0u8, 0u8, 0u8, 0u8)
        } else {
            p
        };
        out.push(q);
        k = k + 1;
        assert(out@ =~= src@.take(k as int).map_values(|p: Rgba| cleared(p)));
    }
    assert(src@.take(k as int) =~= src@);
    let w = img.width();
    let h = img.height();
    match Frame::new(w, h, out) {
        Some(f) => f,
        None => {
            assert(false);
            Frame::blank(0, 0)
        },
    }
}

/// Whether a pixel is drawn: its alpha is at least 128.
pub open spec fn is_opaque(p: Rgba) -> bool {
    p.3 >= 128
}

/// Whether column `x` of `v` holds a drawn pixel.
pub open spec fn column_drawn(v: FrameView, x: int) -> bool {
    exists|y: int| 0 <= y < v.height && #[trigger] is_opaque(v.at(x, y))
}

/// Whether row `y` of `v` holds a drawn pixel.
pub open spec fn row_drawn(v: FrameView, y: int) -> bool {
    exists|x: int| 0 <= x < v.width && #[trigger] is_opaque(v.at(x, y))
}

fn column_has_drawn(img: &Frame, x: u32) -> (b: bool)
    requires
        x < img@.width,
    ensures
        b == column_drawn(img@, x as int),
{
    let h = img.height();
    let mut y: u32 = 0;
    while y < h
        invariant
            y <= h == img@.height,
            x < img@.width,
            forall|k: int| 0 <= k < y ==> !#[trigger] is_opaque(img@.at(x as int, k)),
        decreases h - y,
    {
        if img.pixel(x, y).3 >= 128 {
            assert(is_opaque(img@.at(x as int, y as int)));
            return true;
        }
        y = y + 1;
    }
    false
}

fn row_has_drawn(img: &Frame, y: u32) -> (b: bool)
    requires
        y < img@.height,
    ensures
        b == row_drawn(img@, y as int),
{
    let w = img.width();
    let mut x: u32 = 0;
    while x < w
        invariant
            x <= w == img@.width,
            y < img@.height,
            forall|k: int| 0 <= k < x ==> !#[trigger] is_opaque(img@.at(k, y as int)),
        decreases w - x,
    {
        if img.pixel(x, y).3 >= 128 {
            assert(is_opaque(img@.at(x as int, y as int)));
            return true;
        }
        x = x + 1;
    }
    false
}

/// The first column from the left holding a drawn pixel.
fn first_drawn_column(img: &Frame) -> (r: Option<u32>)
    ensures
        match r {
            Some(x) => x < img@.width && column_drawn(img@, x as int) && forall|k: int|
                0 <= k < x ==> !#[trigger] column_drawn(img@, k),
            None => forall|k: int| 0 <= k < img@.width ==> !#[trigger] column_drawn(img@, k),
        },
{
    let w = img.width();
    let mut x: u32 = 0;
    while x < w
        invariant
            x <= w == img@.width,
            forall|k: int| 0 <= k < x ==> !#[trigger] column_drawn(img@, k),
        decreases w - x,
    {
        if column_has_drawn(img, x) {
            return Some(x);
        }
        x = x + 1;
    }
    None
}

/// The last column from the left holding a drawn pixel.
fn last_drawn_column(img: &Frame) -> (r: Option<u32>)
    ensures
        match r {
            Some(x) => x < img@.width && column_drawn(img@, x as int) && forall|k: int|
                x < k < img@.width ==> !#[trigger] column_drawn(img@, k),
            None => forall|k: int| 0 <= k < img@.width ==> !#[trigger] column_drawn(img@, k),
        },
{
    let w = img.width();
    let mut x: u32 = w;
    while x > 0
        invariant
            x <= w == img@.width,
            forall|k: int| x <= k < w ==> !#[trigger] column_drawn(img@, k),
        decreases x,
    {
        if column_has_drawn(img, x - 1) {
            return Some(x - 1);
        }
        x = x - 1;
    }
    None
}

/// The first row from the top holding a drawn pixel.
fn first_drawn_row(img: &Frame) -> (r: Option<u32>)
    ensures
        match r {
            Some(y) => y < img@.height && row_drawn(img@, y as int) && forall|k: int|
                0 <= k < y ==> !#[trigger] row_drawn(img@, k),
            None => forall|k: int| 0 <= k < img@.height ==> !#[trigger] row_drawn(img@, k),
        },
{
    let h = img.height();
    let mut y: u32 = 0;
    while y < h
        invariant
            y <= h == img@.height,
            forall|k: int| 0 <= k < y ==> !#[trigger] row_drawn(img@, k),
        decreases h - y,
    {
        if row_has_drawn(img, y) {
            return Some(y);
        }
        y = y + 1;
    }
    None
}

/// The last row from the top holding a drawn pixel.
fn last_drawn_row(img: &Frame) -> (r: Option<u32>)
    ensures
        match r {
            Some(y) => y < img@.height && row_drawn(img@, y as int) && forall|k: int|
                y < k < img@.height ==> !#[trigger] row_drawn(img@, k),
            None => forall|k: int| 0 <= k < img@.height ==> !#[trigger] row_drawn(img@, k),
        },
{
    let h = img.height();
    let mut y: u32 = h;
    while y > 0
        invariant
            y <= h == img@.height,
            forall|k: int| y <= k < h ==> !#[trigger] row_drawn(img@, k),
        decreases y,
    {
        if row_has_drawn(img, y - 1) {
            return Some(y - 1);
        }
        y = y - 1;
    }
    None
}

/// Whether `(x0, y0, x1, y1)` is the tightest box around the drawn pixels
/// of `v`: its first and last columns and rows are the first and last that
/// hold one.
pub open spec fn is_drawn_box(v: FrameView, b: (u32, u32, u32, u32)) -> bool {
    let (x0, y0, x1, y1) = b;
    &&& x1 < v.width && y1 < v.height
    &&& column_drawn(v, x0 as int) && column_drawn(v, x1 as int)
    &&& row_drawn(v, y0 as int) && row_drawn(v, y1 as int)
    &&& forall|k: int| 0 <= k < x0 ==> !#[trigger] column_drawn(v, k)
    &&& forall|k: int| x1 < k < v.width ==> !#[trigger] column_drawn(v, k)
    &&& forall|k: int| 0 <= k < y0 ==> !#[trigger] row_drawn(v, k)
    &&& forall|k: int| y1 < k < v.height ==> !#[trigger] row_drawn(v, k)
}

/// The tightest box `(min_x, min_y, max_x, max_y)` holding every drawn
/// pixel of the logo, both corners included; `None` when nothing is drawn.
pub fn drawn_bounds(img: &Frame) -> (r: Option<(u32, u32, u32, u32)>)
    ensures
        r is None <==> forall|x: int, y: int|
            0 <= x < img@.width && 0 <= y < img@.height ==> !#[trigger] is_opaque(img@.at(x, y)),
        r matches Some(b) ==> is_drawn_box(img@, b),
{
    let ghost v = img@;
    let first_col = first_drawn_column(img);
    match first_col {
        None => {
            assert forall|x: int, y: int| 0 <= x < v.width && 0 <= y < v.height implies !#[trigger] is_opaque(
                v.at(x, y),
            ) by {
                assert(!column_drawn(v, x));
            }
            None
        },
        Some(x0) => {
            let ghost wy = choose|y: int| 0 <= y < v.height && #[trigger] is_opaque(v.at(x0 as int, y));
            assert(row_drawn(v, wy));
            let x1 = last_drawn_column(img);
            let y0 = first_drawn_row(img);
            let y1 = last_drawn_row(img);
            match (x1, y0, y1) {
                (Some(x1), Some(y0), Some(y1)) => {
                    assert(is_opaque(v.at(x0 as int, wy)));
                    Some((x0, y0, x1, y1))
                },
                _ => {
                    assert(false);
                    None
                },
            }
        },
    }
}

/// Every drawn pixel lies in the box [`drawn_bounds`] gives, and the box's
/// corners are in order.
pub proof fn law_drawn_pixels_in_box(v: FrameView, b: (u32, u32, u32, u32), x: int, y: int)
    requires
        is_drawn_box(v, b),
        0 <= x < v.width,
        0 <= y < v.height,
        is_opaque(v.at(x, y)),
    ensures
        b.0 <= x <= b.2,
        b.1 <= y <= b.3,
        b.0 <= b.2,
        b.1 <= b.3,
{
    assert(column_drawn(v, x));
    assert(row_drawn(v, y));
}

// ───────────────────────── half-block cells ─────────────────────────

/// A colour without alpha.
pub type Rgb = (u8, u8, u8);

/// One terminal cell showing two stacked pixels.
#[derive(Debug, Clone, Copy, PartialEq, Eq)]
pub enum HalfBlock {
    /// An upper half block in the top colour on the bottom colour.
    Both { top: Rgb, bottom: Rgb },
    /// An upper half block in the top colour on the terminal's background.
    TopOnly { top: Rgb },
    /// A lower half block in the bottom colour on the terminal's background.
    BottomOnly { bottom: Rgb },
    /// Nothing drawn.
    Empty,
}

pub open spec fn rgb(p: Rgba) -> Rgb {
    (p.0, p.1, p.2)
}

/// The cell showing pixel `top` above pixel `bottom`: a pixel shows when it
/// is drawn, and the terminal's own colour is never used for a glyph.
pub open spec fn half_block_spec(top: Rgba, bottom: Rgba) -> HalfBlock {
    if is_opaque(top) && is_opaque(bottom) {
        HalfBlock::Both { top: rgb(top), bottom: rgb(bottom) }
    } else if is_opaque(top) {
        HalfBlock::TopOnly { top: rgb(top) }
    } else if is_opaque(bottom) {
        HalfBlock::BottomOnly { bottom: rgb(bottom) }
    } else {
        HalfBlock::Empty
    }
}

/// The cell showing pixel `top` above pixel `bottom`.
pub fn half_block(top: Rgba, bottom: Rgba) -> (c: HalfBlock)
    ensures
        c == half_block_spec(top, bottom),
{
    let top_on = top.3 >= 128;
    let bottom_on = bottom.3 >= 128;
    if top_on && bottom_on {
        HalfBlock::Both { top: (top.0, top.1, top.2), bottom: (bottom.0, bottom.1, bottom.2) }
    } else if top_on {
        HalfBlock::TopOnly { top: (top.0, top.1, top.2) }
    } else if bottom_on {
        HalfBlock::BottomOnly { bottom: (bottom.0, bottom.1, bottom.2) }
    } else {
        HalfBlock::Empty
    }
}

pub open spec fn glyph_spec(c: HalfBlock) -> Seq<char> {
    match c {
        HalfBlock::Both { .. } => "▀"@,
        HalfBlock::TopOnly { .. } => "▀"@,
        HalfBlock::BottomOnly { .. } => "▄"@,
        HalfBlock::Empty => " "@,
    }
}

/// The character a cell is drawn with.
pub fn glyph(c: HalfBlock) -> (s: &'static str)
    ensures
        s@ == glyph_spec(c),
{
    match c {
        HalfBlock::Both { .. } => "▀",
        HalfBlock::TopOnly { .. } => "▀",
        HalfBlock::BottomOnly { .. } => "▄",
        HalfBlock::Empty => " ",
    }
}

/// The pixel below row `2 * row` in column `col`; transparent below the
/// last row.
pub open spec fn lower_pixel(v: FrameView, col: int, row: int) -> Rgba {
    if 2 * row + 1 < v.height {
        v.at(col, 2 * row + 1)
    } else {
        transparent()
    }
}

/// The cell at column `col` of terminal row `row`: pixel rows `2 * row` and
/// `2 * row + 1`.
pub open spec fn cell_at(v: FrameView, col: int, row: int) -> HalfBlock {
    half_block_spec(v.at(col, 2 * row), lower_pixel(v, col, row))
}

/// Number of terminal rows an image of `h` pixel rows takes.
pub open spec fn cell_rows(h: nat) -> nat {
    (h + 1) / 2
}

/// The cells of an image, row by row: each terminal row shows two pixel
/// rows; an odd last pixel row is shown above transparency.
pub open spec fn cells_spec(v: FrameView) -> Seq<HalfBlock> {
    Seq::new(
        cell_rows(v.height) * v.width,
        |k: int| cell_at(v, k % (v.width as int), k / (v.width as int)),
    )
}

/// The half-block cells of `img`, row by row.
pub fn half_block_cells(img: &Frame) -> (r: Vec<HalfBlock>)
    ensures
        r@ == cells_spec(img@),
{
    let w = img.width();
    let h = img.height();
    let rows: u32 = h / 2 + h % 2;
    assert(rows == cell_rows(h as nat));
    let ghost v = img@;
    let mut out: Vec<HalfBlock> = Vec::new();
    let mut row: u32 = 0;
    while row < rows
        invariant
            row <= rows == cell_rows(h as nat),
            w == v.width,
            h == v.height,
            v == img@,
            v.wf(),
            out@.len() == row * w,
            forall|k: int| 0 <= k < out@.len() ==> #[trigger] out@[k] == cell_at(v, k % (w as int), k / (w as int)),
        decreases rows - row,
    {
        let mut col: u32 = 0;
        while col < w
            invariant
                row < rows == cell_rows(h as nat),
                col <= w == v.width,
                h == v.height,
                v == img@,
                v.wf(),
                out@.len() == row * w + col,
                forall|k: int| 0 <= k < out@.len() ==> #[trigger] out@[k] == cell_at(v, k % (w as int), k / (w as int)),
            decreases w - col,
        {
            let top = img.pixel(col, 2 * row);
            let bottom = if 2 * row + 1 < h {
                img.pixel(col, 2 * row + 1)
            } else {
                (0u8, 0u8, 0u8, 0u8)
            };
            let c = half_block(top, bottom);
            proof {
                lemma_pixel_index(col as int, row as int, w as int);
            }
            out.push(c);
            col = col + 1;
        }
        assert(out@.len() == (row + 1) * w) by (nonlinear_arith)
            requires
                out@.len() == row * w + w,
        ;
        row = row + 1;
    }
    assert(out@ =~= cells_spec(v));
    out
}

} // verus!
