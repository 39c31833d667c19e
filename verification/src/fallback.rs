//! Placeholder sprites drawn when a creature's sprites cannot be had: a
//! yellow circle with a question mark (or, for the artwork placeholder, a
//! face). Pixels are RGBA, listed row by row.
use crate::frame::{lemma_pixel_index, lemma_pixel_index_bound, transparent, Frame, FrameView, Rgba};
use vstd::prelude::*;

verus! {

/// Side of the square animation placeholder, in pixels.
pub const FALLBACK_FRAME_SIZE: u32 = 48;

/// Side of the square artwork placeholder, in pixels.
pub const FALLBACK_SPRITE_SIZE: u32 = 96;

pub open spec fn body_yellow() -> Rgba {
    (255, 220, 50, 255)
}

/// The question mark's strokes on the animation placeholder.
pub open spec fn in_question_mark(x: int, y: int) -> bool {
    ||| (18 <= x < 30 && (y == 12 || y == 13))
    ||| ((x == 28 || x == 29) && 14 <= y < 22)
    ||| (22 <= x < 30 && (y == 22 || y == 23))
    ||| ((x == 22 || x == 23) && 24 <= y < 30)
    ||| (22 <= x < 25 && 32 <= y < 35)
}

/// The animation placeholder's pixel at column `x`, row `y`: the question
/// mark over a circle of radius 22 around the centre (24, 24).
pub open spec fn fallback_frame_pixel(x: int, y: int) -> Rgba {
    if in_question_mark(x, y) {
        (30, 30, 30, 255)
    } else if (x - 24) * (x - 24) + (y - 24) * (y - 24) < 22 * 22 {
        body_yellow()
    } else {
        transparent()
    }
}

/// The eyes and mouth on the artwork placeholder.
pub open spec fn in_face(x: int, y: int) -> bool {
    ||| (38 <= y < 46 && (36 <= x < 42 || 54 <= x < 60))
    ||| (y == 54 && 44 <= x < 52)
}

/// The artwork placeholder's pixel at column `x`, row `y`: a face over a
/// circle of radius 35 around (48, 52).
pub open spec fn fallback_sprite_pixel(x: int, y: int) -> Rgba {
    if in_face(x, y) {
        (0, 0, 0, 255)
    } else if (x - 48) * (x - 48) + (y - 52) * (y - 52) < 35 * 35 {
        body_yellow()
    } else {
        transparent()
    }
}

/// The animation placeholder as a whole.
pub open spec fn fallback_frame_view() -> FrameView {
    FrameView {
        width: FALLBACK_FRAME_SIZE as nat,
        height: FALLBACK_FRAME_SIZE as nat,
        pixels: Seq::new(
            (FALLBACK_FRAME_SIZE * FALLBACK_FRAME_SIZE) as nat,
            |k: int| fallback_frame_pixel(k % (FALLBACK_FRAME_SIZE as int), k / (FALLBACK_FRAME_SIZE as int)),
        ),
    }
}

fn frame_pixel(x: u32, y: u32) -> (p: Rgba)
    requires
        x < FALLBACK_FRAME_SIZE,
        y < FALLBACK_FRAME_SIZE,
    ensures
        p == fallback_frame_pixel(x as int, y as int),
{
    let in_mark = (18 <= x && x < 30 && (y == 12 || y == 13))
        || ((x == 28 || x == 29) && 14 <= y && y < 22)
        || (22 <= x && x < 30 && (y == 22 || y == 23))
        || ((x == 22 || x == 23) && 24 <= y && y < 30)
        || (22 <= x && x < 25 && 32 <= y && y < 35);
    if in_mark {
        return (30, 30, 30, 255);
    }
    let dx: i32 = x as i32 - 24;
    let dy: i32 = y as i32 - 24;
    assert(0 <= dx * dx <= 576 && 0 <= dy * dy <= 576) by (nonlinear_arith)
        requires
            -24 <= dx <= 24,
            -24 <= dy <= 24,
    ;
    if dx * dx + dy * dy < 22 * 22 {
        (255, 220, 50, 255)
    } else {
        (0, 0, 0, 0)
    }
}

fn sprite_pixel(x: u32, y: u32) -> (p: Rgba)
    requires
        x < FALLBACK_SPRITE_SIZE,
        y < FALLBACK_SPRITE_SIZE,
    ensures
        p == fallback_sprite_pixel(x as int, y as int),
{
    let in_face = (38 <= y && y < 46 && ((36 <= x && x < 42) || (54 <= x && x < 60)))
        || (y == 54 && 44 <= x && x < 52);
    if in_face {
        return (0, 0, 0, 255);
    }
    let dx: i32 = x as i32 - 48;
    let dy: i32 = y as i32 - 52;
    assert(0 <= dx * dx <= 2704 && 0 <= dy * dy <= 2704) by (nonlinear_arith)
        requires
            -48 <= dx <= 48,
            -52 <= dy <= 44,
    ;
    if dx * dx + dy * dy < 35 * 35 {
        (255, 220, 50, 255)
    } else {
        (0, 0, 0, 0)
    }
}

fn frame_pixels() -> (r: Vec<Rgba>)
    ensures
        r@.len() == FALLBACK_FRAME_SIZE * FALLBACK_FRAME_SIZE,
        forall|k: int| 0 <= k < r@.len() ==> #[trigger] r@[k] == fallback_frame_pixel(
            k % (FALLBACK_FRAME_SIZE as int),
            k / (FALLBACK_FRAME_SIZE as int),
        ),
{
    let n: u32 = FALLBACK_FRAME_SIZE * FALLBACK_FRAME_SIZE;
    let mut r: Vec<Rgba> = Vec::new();
    let mut k: u32 = 0;
    while k < n
        invariant
            n == FALLBACK_FRAME_SIZE * FALLBACK_FRAME_SIZE,
            k <= n,
            r@.len() == k,
            forall|j: int| 0 <= j < k ==> #[trigger] r@[j] == fallback_frame_pixel(
                j % (FALLBACK_FRAME_SIZE as int),
                j / (FALLBACK_FRAME_SIZE as int),
            ),
        decreases n - k,
    {
        let x = k % FALLBACK_FRAME_SIZE;
        let y = k / FALLBACK_FRAME_SIZE;
        r.push(frame_pixel(x, y));
        k = k + 1;
    }
    r
}

fn sprite_pixels() -> (r: Vec<Rgba>)
    ensures
        r@.len() == FALLBACK_SPRITE_SIZE * FALLBACK_SPRITE_SIZE,
        forall|k: int| 0 <= k < r@.len() ==> #[trigger] r@[k] == fallback_sprite_pixel(
            k % (FALLBACK_SPRITE_SIZE as int),
            k / (FALLBACK_SPRITE_SIZE as int),
        ),
{
    let n: u32 = FALLBACK_SPRITE_SIZE * FALLBACK_SPRITE_SIZE;
    let mut r: Vec<Rgba> = Vec::new();
    let mut k: u32 = 0;
    while k < n
        invariant
            n == FALLBACK_SPRITE_SIZE * FALLBACK_SPRITE_SIZE,
            k <= n,
            r@.len() == k,
            forall|j: int| 0 <= j < k ==> #[trigger] r@[j] == fallback_sprite_pixel(
                j % (FALLBACK_SPRITE_SIZE as int),
                j / (FALLBACK_SPRITE_SIZE as int),
            ),
        decreases n - k,
    {
        let x = k % FALLBACK_SPRITE_SIZE;
        let y = k / FALLBACK_SPRITE_SIZE;
        r.push(sprite_pixel(x, y));
        k = k + 1;
    }
    r
}

/// The placeholder animation frame: a 48 × 48 yellow circle with a "?".
pub fn create_fallback_frame() -> (f: Frame)
    ensures
        f@ == fallback_frame_view(),
        f@.width == FALLBACK_FRAME_SIZE,
        f@.height == FALLBACK_FRAME_SIZE,
        f@.wf(),
        forall|x: int, y: int| 0 <= x < FALLBACK_FRAME_SIZE && 0 <= y < FALLBACK_FRAME_SIZE
            ==> #[trigger] f@.at(x, y) == fallback_frame_pixel(x, y),
{
    let pixels = frame_pixels();
    let ghost p = pixels@;
    assert(p =~= fallback_frame_view().pixels);
    match Frame::new(FALLBACK_FRAME_SIZE, FALLBACK_FRAME_SIZE, pixels) {
        Some(f) => {
            proof {
                assert forall|x: int, y: int| 0 <= x < FALLBACK_FRAME_SIZE && 0 <= y < FALLBACK_FRAME_SIZE
                    implies #[trigger] f@.at(x, y) == fallback_frame_pixel(x, y) by {
                    lemma_pixel_index(x, y, FALLBACK_FRAME_SIZE as int);
                    lemma_pixel_index_bound(x, y, FALLBACK_FRAME_SIZE as int, FALLBACK_FRAME_SIZE as int);
                    assert(p[y * FALLBACK_FRAME_SIZE + x] == fallback_frame_pixel(x, y));
                }
            }
            f
        },
        None => Frame::blank(0, 0),
    }
}

/// The placeholder artwork: a 96 × 96 yellow circle with a face.
pub fn create_fallback_sprite() -> (f: Frame)
    ensures
        f@.width == FALLBACK_SPRITE_SIZE,
        f@.height == FALLBACK_SPRITE_SIZE,
        f@.wf(),
        forall|x: int, y: int| 0 <= x < FALLBACK_SPRITE_SIZE && 0 <= y < FALLBACK_SPRITE_SIZE
            ==> #[trigger] f@.at(x, y) == fallback_sprite_pixel(x, y),
{
    let pixels = sprite_pixels();
    let ghost p = pixels@;
    match Frame::new(FALLBACK_SPRITE_SIZE, FALLBACK_SPRITE_SIZE, pixels) {
        Some(f) => {
            proof {
                assert forall|x: int, y: int| 0 <= x < FALLBACK_SPRITE_SIZE && 0 <= y < FALLBACK_SPRITE_SIZE
                    implies #[trigger] f@.at(x, y) == fallback_sprite_pixel(x, y) by {
                    lemma_pixel_index(x, y, FALLBACK_SPRITE_SIZE as int);
                    lemma_pixel_index_bound(x, y, FALLBACK_SPRITE_SIZE as int, FALLBACK_SPRITE_SIZE as int);
                    assert(p[y * FALLBACK_SPRITE_SIZE + x] == fallback_sprite_pixel(x, y));
                }
            }
            f
        },
        None => Frame::blank(0, 0),
    }
}

} // verus!
