//! Sprite sheet geometry: where frames lie in a sheet, and how a frame is
//! placed when normalized to a canonical size.
//!
//! PMDCollab sprite sheets have 8 rows (one per direction) and N columns
//! (one per frame). Row 0 faces down, 2 left, 4 up and 6 right.
//!
//! Different animations may have different frame dimensions, so all frames
//! are normalized to a canonical size (the Idle animation's) by centering
//! them on a transparent canvas, cropping at the center when larger.
use crate::anim_data::AnimInfo;
use crate::anim_data::AnimInfoView;
use crate::frame::{cropped, lemma_pixel_index, lemma_pixel_index_bound, lemma_split_index, transparent, Frame, FrameView, Rgba};
use vstd::prelude::*;

verus! {

/// A rectangle of a sprite sheet holding one frame.
#[derive(Debug, Clone, Copy, PartialEq, Eq, Structural)]
pub struct FrameRect {
    pub x: u32,
    pub y: u32,
    pub width: u32,
    pub height: u32,
}

/// The frame rectangles of one direction row of a sheet.
///
/// `dir_row` selects the row. If the row lies outside the sheet, the result
/// is empty and the caller handles the fallback. Otherwise frames are taken
/// left to right, one per duration in `anim_info`, stopping at the first
/// frame that would extend past the right edge of the sheet.
pub fn frame_rects(sheet_w: u32, sheet_h: u32, anim_info: &AnimInfo, dir_row: u32) -> (r: Vec<FrameRect>)
    ensures
        (dir_row as int) * anim_info.frame_height + anim_info.frame_height > sheet_h ==> r@.len() == 0,
        (dir_row as int) * anim_info.frame_height + anim_info.frame_height <= sheet_h ==> ({
            &&& r@.len() <= anim_info.durations@.len()
            &&& (r@.len() == anim_info.durations@.len()
                || (r@.len() + 1) * anim_info.frame_width > sheet_w)
            &&& forall|c: int| #![trigger r@[c]] 0 <= c < r@.len() ==> r@[c] == (FrameRect {
                    x: (c * anim_info.frame_width) as u32,
                    y: ((dir_row as int) * anim_info.frame_height) as u32,
                    width: anim_info.frame_width,
                    height: anim_info.frame_height,
                }) && (c + 1) * anim_info.frame_width <= sheet_w
        }),
{
    let frame_count = anim_info.frame_count();
    let fw: u32 = anim_info.frame_width;
    let fh: u32 = anim_info.frame_height;
    proof {
        assert((dir_row as int) * (fh as int) <= 0xffff_ffff * 0xffff_ffffint) by (nonlinear_arith)
            requires
                dir_row <= 0xffff_ffffu32,
                fh <= 0xffff_ffffu32,
        ;
    }
    let y: u64 = dir_row as u64 * fh as u64;
    let mut frames: Vec<FrameRect> = Vec::new();
    if y + fh as u64 > sheet_h as u64 {
        return frames;
    }
    let mut col: usize = 0;
    let mut x: u64 = 0;
    while col < frame_count
        invariant
            col <= frame_count == anim_info.durations@.len(),
            fw == anim_info.frame_width,
            fh == anim_info.frame_height,
            y == (dir_row as int) * (fh as int),
            y + fh <= sheet_h,
            x == col * (fw as int),
            x <= sheet_w,
            frames@.len() == col,
            forall|c: int| #![trigger frames@[c]] 0 <= c < col ==> frames@[c] == (FrameRect {
                    x: (c * anim_info.frame_width) as u32,
                    y: ((dir_row as int) * anim_info.frame_height) as u32,
                    width: anim_info.frame_width,
                    height: anim_info.frame_height,
                }) && (c + 1) * anim_info.frame_width <= sheet_w,
        decreases frame_count - col,
    {
        proof {
            assert((col + 1) * (fw as int) == col * (fw as int) + fw) by (nonlinear_arith);
        }
        if x + fw as u64 > sheet_w as u64 {
            return frames;
        }
        let ghost before = frames@;
        frames.push(FrameRect { x: x as u32, y: y as u32, width: fw, height: fh });
        proof {
            assert forall|c: int| #![trigger frames@[c]] 0 <= c < col + 1 implies frames@[c] == (FrameRect {
                    x: (c * anim_info.frame_width) as u32,
                    y: ((dir_row as int) * anim_info.frame_height) as u32,
                    width: anim_info.frame_width,
                    height: anim_info.frame_height,
                }) && (c + 1) * anim_info.frame_width <= sheet_w by {
                if c < col {
                    assert(frames@[c] == before[c]);
                }
            }
        }
        x = x + fw as u64;
        col = col + 1;
    }
    frames
}

/// How one frame is copied onto the canonical canvas: the part
/// `(src_x, src_y, copy_w, copy_h)` of the frame goes to `(dst_x, dst_y)`.
#[derive(Debug, Clone, Copy, PartialEq, Eq, Structural)]
pub struct Placement {
    pub dst_x: u32,
    pub dst_y: u32,
    pub src_x: u32,
    pub src_y: u32,
    pub copy_w: u32,
    pub copy_h: u32,
}

/// Offset that centers a length `inner` inside `outer` (0 when it does not fit).
pub open spec fn center_offset(outer: u32, inner: u32) -> u32 {
    if outer > inner { ((outer - inner) / 2) as u32 } else { 0 }
}

/// Where a `fw`×`fh` frame lands when normalized to `target_w`×`target_h`,
/// or `None` when the frame is kept as it is: when the target is empty or
/// the frame already has the target size. Smaller frames are centered,
/// larger ones cropped at the center; nothing is scaled.
pub fn normalize_placement(fw: u32, fh: u32, target_w: u32, target_h: u32) -> (r: Option<Placement>)
    ensures
        (target_w == 0 || target_h == 0 || (fw == target_w && fh == target_h)) <==> r is None,
        r matches Some(p) ==> (p == Placement {
            dst_x: center_offset(target_w, fw),
            dst_y: center_offset(target_h, fh),
            src_x: center_offset(fw, target_w),
            src_y: center_offset(fh, target_h),
            copy_w: if fw < target_w { fw } else { target_w },
            copy_h: if fh < target_h { fh } else { target_h },
        }),
{
    if target_w == 0 || target_h == 0 || (fw == target_w && fh == target_h) {
        return None;
    }
    let dst_x = if target_w > fw { (target_w - fw) / 2 } else { 0 };
    let dst_y = if target_h > fh { (target_h - fh) / 2 } else { 0 };
    let src_x = if fw > target_w { (fw - target_w) / 2 } else { 0 };
    let src_y = if fh > target_h { (fh - target_h) / 2 } else { 0 };
    let copy_w = if fw < target_w { fw } else { target_w };
    let copy_h = if fh < target_h { fh } else { target_h };
    Some(Placement { dst_x, dst_y, src_x, src_y, copy_w, copy_h })
}

/// A normalized frame's copied part lies inside both the frame and the canvas.
pub proof fn law_placement_in_bounds(fw: u32, fh: u32, target_w: u32, target_h: u32)
    ensures
        ({
            let p = Placement {
                dst_x: center_offset(target_w, fw),
                dst_y: center_offset(target_h, fh),
                src_x: center_offset(fw, target_w),
                src_y: center_offset(fh, target_h),
                copy_w: if fw < target_w { fw } else { target_w },
                copy_h: if fh < target_h { fh } else { target_h },
            };
            &&& p.src_x + p.copy_w <= fw
            &&& p.src_y + p.copy_h <= fh
            &&& p.dst_x + p.copy_w <= target_w
            &&& p.dst_y + p.copy_h <= target_h
        }),
{
}

/// How many frames `extract_frames` cuts from row `dir_row`: none when the
/// row lies outside the sheet, otherwise one per duration, as far as whole
/// frames fit across the sheet.
pub open spec fn extract_count(sheet: FrameView, info: AnimInfoView, dir_row: u32) -> nat {
    let fw = info.frame_width as nat;
    let fh = info.frame_height as nat;
    let n = info.durations.len();
    if dir_row * fh + fh > sheet.height {
        0
    } else if fw == 0 || n <= sheet.width / fw {
        n
    } else {
        sheet.width / fw
    }
}

/// The frames cut from row `dir_row` of a sheet: frame `c` is the
/// `frame_width` × `frame_height` block in column `c` of that row.
pub open spec fn extract_spec(sheet: FrameView, info: AnimInfoView, dir_row: u32) -> Seq<FrameView> {
    Seq::new(
        extract_count(sheet, info, dir_row),
        |c: int| cropped(
            sheet,
            c * info.frame_width,
            dir_row * info.frame_height,
            info.frame_width as nat,
            info.frame_height as nat,
        ),
    )
}

/// The views of a list of frames.
pub open spec fn frame_views(s: Seq<Frame>) -> Seq<FrameView> {
    s.map_values(|f: Frame| f@)
}

proof fn lemma_extract_count(sheet_w: nat, fw: nat, n: nat, len: nat)
    requires
        len <= n,
        len == n || (len + 1) * fw > sheet_w,
        len * fw <= sheet_w,
    ensures
        len == if fw == 0 || n <= sheet_w / fw { n } else { sheet_w / fw },
{
    if fw > 0 {
        if len < n {
            let q = len as int;
            let r = sheet_w - len * fw;
            assert(0 <= r < fw) by (nonlinear_arith)
                requires
                    r == sheet_w - len * fw,
                    len * fw <= sheet_w,
                    (len + 1) * fw > sheet_w,
            ;
            assert(sheet_w == q * fw + r) by (nonlinear_arith)
                requires
                    r == sheet_w - len * fw,
                    q == len,
            ;
            vstd::arithmetic::div_mod::lemma_fundamental_div_mod_converse(sheet_w as int, fw as int, q, r);
            assert(!(n <= sheet_w / fw));
        } else {
            assert(n <= sheet_w / fw) by (nonlinear_arith)
                requires
                    n * fw <= sheet_w,
                    fw > 0,
            {
                vstd::arithmetic::div_mod::lemma_fundamental_div_mod(sheet_w as int, fw as int);
                vstd::arithmetic::div_mod::lemma_mod_bound(sheet_w as int, fw as int);
            }
        }
    }
}

/// Extract individual animation frames from a sprite sheet.
///
/// Each row of the sheet is a direction, each column a frame of
/// `anim_info.frame_width` × `anim_info.frame_height` pixels. `dir_row`
/// selects the row; when it lies outside the sheet the result is empty and
/// the caller handles the fallback. Frames are cut left to right, one per
/// duration, stopping at the first that would extend past the right edge.
pub fn extract_frames(sheet: &Frame, anim_info: &AnimInfo, dir_row: u32) -> (r: Vec<Frame>)
    ensures
        frame_views(r@) == extract_spec(sheet@, anim_info@, dir_row),
{
    let sheet_w = sheet.width();
    let sheet_h = sheet.height();
    let rects = frame_rects(sheet_w, sheet_h, anim_info, dir_row);
    let ghost expected = extract_spec(sheet@, anim_info@, dir_row);
    let mut frames: Vec<Frame> = Vec::new();
    let mut i: usize = 0;
    while i < rects.len()
        invariant
            i <= rects@.len(),
            frames@.len() == i,
            sheet_w == sheet@.width,
            sheet_h == sheet@.height,
            expected == extract_spec(sheet@, anim_info@, dir_row),
            rects@.len() > 0 ==> (dir_row as int) * anim_info.frame_height + anim_info.frame_height <= sheet_h,
            forall|c: int| #![trigger rects@[c]] 0 <= c < rects@.len() ==> rects@[c] == (FrameRect {
                    x: (c * anim_info.frame_width) as u32,
                    y: ((dir_row as int) * anim_info.frame_height) as u32,
                    width: anim_info.frame_width,
                    height: anim_info.frame_height,
                }) && (c + 1) * anim_info.frame_width <= sheet_w,
            forall|c: int| 0 <= c < i ==> (#[trigger] frames@[c])@ == cropped(
                sheet@,
                c * anim_info.frame_width,
                dir_row * anim_info.frame_height,
                anim_info.frame_width as nat,
                anim_info.frame_height as nat,
            ),
        decreases rects.len() - i,
    {
        let rect = rects[i];
        proof {
            assert((i + 1) * anim_info.frame_width == i * anim_info.frame_width + anim_info.frame_width)
                by (nonlinear_arith);
            assert(0 <= i * anim_info.frame_width) by (nonlinear_arith);
            assert(0 <= (dir_row as int) * anim_info.frame_height) by (nonlinear_arith);
        }
        let f = sheet.crop(rect.x, rect.y, rect.width, rect.height);
        let ghost before = frames@;
        frames.push(f);
        proof {
            assert forall|c: int| 0 <= c < i + 1 implies (#[trigger] frames@[c])@ == cropped(
                sheet@,
                c * anim_info.frame_width,
                dir_row * anim_info.frame_height,
                anim_info.frame_width as nat,
                anim_info.frame_height as nat,
            ) by {
                if c < i {
                    assert(frames@[c] == before[c]);
                }
            }
        }
        i = i + 1;
    }
    proof {
        let fw = anim_info.frame_width as nat;
        let n = anim_info.durations@.len();
        if (dir_row as int) * anim_info.frame_height + anim_info.frame_height <= sheet_h {
            if rects@.len() > 0 {
                let last = rects@.len() - 1;
                let last_rect = rects@[last];
                assert(last_rect.width == anim_info.frame_width);
                assert(rects@.len() * fw <= sheet_w) by (nonlinear_arith)
                    requires
                        last + 1 == rects@.len(),
                        (last + 1) * fw <= sheet_w,
                ;
            } else {
                assert(rects@.len() * fw <= sheet_w) by (nonlinear_arith)
                    requires
                        rects@.len() == 0,
                ;
            }
            lemma_extract_count(sheet_w as nat, fw, n, rects@.len());
        }
        assert(frame_views(frames@) =~= expected);
    }
    frames
}

/// The pixel at column `x`, row `y` of frame `v` normalized to
/// `tw` × `th`: the centred (or centre-cropped) frame over transparency.
pub open spec fn normalized_pixel(v: FrameView, tw: u32, th: u32, x: int, y: int) -> Rgba {
    let fw = v.width as u32;
    let fh = v.height as u32;
    let dx = center_offset(tw, fw);
    let dy = center_offset(th, fh);
    let sx = center_offset(fw, tw);
    let sy = center_offset(fh, th);
    let cw = if fw < tw { fw } else { tw };
    let ch = if fh < th { fh } else { th };
    if dx <= x < dx + cw && dy <= y < dy + ch {
        v.at(x - dx + sx, y - dy + sy)
    } else {
        transparent()
    }
}

/// Frame `v` normalized to `tw` × `th`: unchanged when the target is empty
/// or already its size, otherwise a `tw` × `th` canvas of `normalized_pixel`s.
pub open spec fn normalized(v: FrameView, tw: u32, th: u32) -> FrameView {
    if tw == 0 || th == 0 || (v.width == tw && v.height == th) {
        v
    } else {
        FrameView {
            width: tw as nat,
            height: th as nat,
            pixels: Seq::new(
                (tw * th) as nat,
                |k: int| normalized_pixel(v, tw, th, k % (tw as int), k / (tw as int)),
            ),
        }
    }
}

/// A normalized frame shows, at each position of the canvas, the pixel
/// `normalized_pixel` gives there.
pub proof fn law_normalized_at(v: FrameView, tw: u32, th: u32, x: int, y: int)
    requires
        !(tw == 0 || th == 0 || (v.width == tw && v.height == th)),
        0 <= x < tw,
        0 <= y < th,
    ensures
        normalized(v, tw, th).at(x, y) == normalized_pixel(v, tw, th, x, y),
        normalized(v, tw, th).wf(),
{
    lemma_pixel_index(x, y, tw as int);
    lemma_pixel_index_bound(x, y, tw as int, th as int);
}

/// Every frame normalized to a non-empty target has the target size, so
/// switching between animations normalized alike never changes the layout.
pub proof fn law_normalized_size(v: FrameView, tw: u32, th: u32)
    requires
        tw > 0,
        th > 0,
    ensures
        normalized(v, tw, th).width == tw,
        normalized(v, tw, th).height == th,
{
}

/// Normalizing twice to the same size changes nothing more: a normalized
/// frame already has the target size (or the target is empty).
pub proof fn law_normalize_idempotent(v: FrameView, tw: u32, th: u32)
    ensures
        normalized(normalized(v, tw, th), tw, th) == normalized(v, tw, th),
{
}

/// Normalize one frame to `target_w` × `target_h` (see `normalized`).
pub fn normalize_frame(frame: Frame, target_w: u32, target_h: u32) -> (r: Frame)
    requires
        target_w * target_h <= usize::MAX,
    ensures
        r@ == normalized(frame@, target_w, target_h),
{
    let fw = frame.width();
    let fh = frame.height();
    let placement = normalize_placement(fw, fh, target_w, target_h);
    match placement {
        None => frame,
        Some(p) => {
            proof {
                law_placement_in_bounds(fw, fh, target_w, target_h);
            }
            let n: usize = (target_w as usize) * (target_h as usize);
            let mut pixels: Vec<Rgba> = Vec::new();
            let mut k: usize = 0;
            while k < n
                invariant
                    k <= n == target_w * target_h,
                    target_w > 0,
                    fw == frame@.width,
                    fh == frame@.height,
                    frame@.wf(),
                    p.src_x + p.copy_w <= fw,
                    p.src_y + p.copy_h <= fh,
                    p == (Placement {
                        dst_x: center_offset(target_w, fw),
                        dst_y: center_offset(target_h, fh),
                        src_x: center_offset(fw, target_w),
                        src_y: center_offset(fh, target_h),
                        copy_w: if fw < target_w { fw } else { target_w },
                        copy_h: if fh < target_h { fh } else { target_h },
                    }),
                    pixels@.len() == k,
                    forall|j: int| 0 <= j < k ==> #[trigger] pixels@[j] == normalized_pixel(
                        frame@,
                        target_w,
                        target_h,
                        j % (target_w as int),
                        j / (target_w as int),
                    ),
                decreases n - k,
            {
                let x = (k % (target_w as usize)) as u32;
                let y = (k / (target_w as usize)) as u32;
                proof {
                    lemma_split_index(k as int, target_w as int, target_h as int);
                }
                let inside = p.dst_x <= x && x < p.dst_x + p.copy_w && p.dst_y <= y && y < p.dst_y + p.copy_h;
                let px = if inside {
                    frame.pixel(x - p.dst_x + p.src_x, y - p.dst_y + p.src_y)
                } else {
                    (0, 0, 0, 0)
                };
                pixels.push(px);
                k = k + 1;
            }
            let ghost expected = normalized(frame@, target_w, target_h);
            assert(pixels@ =~= expected.pixels);
            let r = Frame::new(target_w, target_h, pixels);
            match r {
                Some(f) => f,
                None => Frame::blank(target_w, target_h),
            }
        },
    }
}

/// Normalize frames to the target dimensions by centering them on a
/// transparent canvas, cropping larger frames at the center; nothing is
/// scaled. With an empty target the frames come back unchanged.
pub fn normalize_frames(frames: Vec<Frame>, target_w: u32, target_h: u32) -> (r: Vec<Frame>)
    requires
        target_w * target_h <= usize::MAX,
    ensures
        r@.len() == frames@.len(),
        forall|i: int| 0 <= i < r@.len() ==> (#[trigger] r@[i])@ == normalized(frames@[i]@, target_w, target_h),
{
    if target_w == 0 || target_h == 0 {
        proof {
            assert forall|i: int| 0 <= i < frames@.len() implies (#[trigger] frames@[i])@ == normalized(
                frames@[i]@,
                target_w,
                target_h,
            ) by {}
        }
        return frames;
    }
    let ghost orig = frames@;
    let mut frames = frames;
    let mut out: Vec<Frame> = Vec::new();
    let mut rest: Vec<Frame> = Vec::new();
    // take frames from the back, then restore the order
    while frames.len() > 0
        invariant
            target_w * target_h <= usize::MAX,
            frames@.len() + rest@.len() == orig.len(),
            forall|i: int| 0 <= i < frames@.len() ==> #[trigger] frames@[i] == orig[i],
            forall|j: int| 0 <= j < rest@.len() ==> (#[trigger] rest@[j])@ == normalized(
                orig[orig.len() - 1 - j]@,
                target_w,
                target_h,
            ),
        decreases frames@.len(),
    {
        let ghost before = frames@;
        let f = frames.pop().unwrap();
        assert(f == orig[before.len() - 1]);
        let g = normalize_frame(f, target_w, target_h);
        rest.push(g);
        assert forall|i: int| 0 <= i < frames@.len() implies #[trigger] frames@[i] == orig[i] by {
            assert(frames@[i] == before[i]);
        }
    }
    while rest.len() > 0
        invariant
            out@.len() + rest@.len() == orig.len(),
            forall|j: int| 0 <= j < rest@.len() ==> (#[trigger] rest@[j])@ == normalized(
                orig[orig.len() - 1 - j]@,
                target_w,
                target_h,
            ),
            forall|i: int| 0 <= i < out@.len() ==> (#[trigger] out@[i])@ == normalized(orig[i]@, target_w, target_h),
        decreases rest@.len(),
    {
        let ghost before = rest@;
        let ghost before_out = out@;
        let g = rest.pop().unwrap();
        out.push(g);
        assert forall|i: int| 0 <= i < out@.len() implies (#[trigger] out@[i])@ == normalized(
            orig[i]@,
            target_w,
            target_h,
        ) by {
            if i < before_out.len() {
                assert(out@[i] == before_out[i]);
            }
        }
        assert forall|j: int| 0 <= j < rest@.len() implies (#[trigger] rest@[j])@ == normalized(
            orig[orig.len() - 1 - j]@,
            target_w,
            target_h,
        ) by {
            assert(rest@[j] == before[j]);
        }
    }
    out
}

} // verus!
