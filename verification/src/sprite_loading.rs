//! Decisions made while loading a slot's sprites: which frames of a long
//! animation are kept, which sheet rows hold each direction, and which
//! download warnings are worth showing.
use crate::anim_data::{total_ticks, AnimInfoMap, AnimInfoView};
use crate::animation::{sum_ms, Animation, AnimationState, Animator};
use crate::creature::MAX_CACHED_FRAMES;
use crate::creatures::{lowercase, to_lowercase};
use crate::fallback::{create_fallback_frame, fallback_frame_view, FALLBACK_FRAME_SIZE};
use crate::frame::{decode_sheet, decoded_sheet, Frame, FrameView, Rgba};
use crate::sprite_sheet::{extract_frames, extract_spec, frame_views, normalize_frames, normalized};
use crate::text::{chars_of, contains_seq, find_in};
use vstd::prelude::*;

verus! {

/// PMDCollab sheet rows of the four facing directions, indexed by
/// `Direction::as_index` (Down, Left, Up, Right).
pub fn direction_rows() -> (rows: [u32; 4])
    ensures
        rows@ == seq![0u32, 2, 4, 6],
{
    let rows = [0u32, 2, 4, 6];
    assert(rows@ =~= seq![0u32, 2, 4, 6]);
    rows
}

/// The `i`-th of the evenly spaced frames kept out of `n`.
pub open spec fn sample_index(i: int, n: int) -> int {
    i * n / (MAX_CACHED_FRAMES as int)
}

proof fn lemma_sample_index_increasing(a: int, b: int, n: int)
    requires
        0 <= a < b <= 8,
        n > 8,
    ensures
        sample_index(a, n) < sample_index(b, n),
        sample_index(0, n) == 0,
        sample_index(7, n) < n,
{
    assert(b * n >= a * n + n) by (nonlinear_arith)
        requires
            a < b,
            n > 0,
    ;
    assert((a * n + 8) / 8 == (a * n) / 8 + 1) by (nonlinear_arith)
        requires
            a * n >= 0,
    ;
    assert((b * n) / 8 >= (a * n + 8) / 8) by (nonlinear_arith)
        requires
            b * n >= a * n + 8,
    ;
    assert((7 * n) / 8 < n) by (nonlinear_arith)
        requires
            n > 8,
    ;
}

/// The first `n` items of `s`, or, when `n` exceeds `MAX_CACHED_FRAMES`,
/// the evenly spaced `MAX_CACHED_FRAMES` of them.
pub open spec fn capped<T>(s: Seq<T>, n: int) -> Seq<T> {
    if n <= MAX_CACHED_FRAMES {
        s.take(n)
    } else {
        Seq::new(MAX_CACHED_FRAMES as nat, |i: int| s[sample_index(i, n)])
    }
}

/// Capping keeps at most `MAX_CACHED_FRAMES` items, and always the first.
pub proof fn law_capped_keeps_first<T>(s: Seq<T>, n: int)
    requires
        0 < n <= s.len(),
    ensures
        capped(s, n).len() == if n <= MAX_CACHED_FRAMES { n } else { MAX_CACHED_FRAMES as int },
        capped(s, n)[0] == s[0],
{
}

/// The shorter of two lengths.
pub open spec fn aligned_len(a: nat, b: nat) -> int {
    if a < b { a as int } else { b as int }
}

/// `sample_index(i, n)`, computed without overflow.
fn sample_at(i: usize, n: usize) -> (r: usize)
    requires
        i <= 8,
    ensures
        r == sample_index(i as int, n as int),
{
    let q = n / 8;
    let rem = n % 8;
    proof {
        assert(q * i <= n) by (nonlinear_arith)
            requires
                q == n / 8,
                i <= 8,
                n >= 0,
        ;
        assert(i * n == rem * i + (q * i) * 8) by (nonlinear_arith)
            requires
                n == 8 * q + rem,
        {
            vstd::arithmetic::div_mod::lemma_fundamental_div_mod(n as int, 8);
        }
        vstd::arithmetic::div_mod::lemma_fundamental_div_mod(n as int, 8);
        vstd::arithmetic::div_mod::lemma_hoist_over_denominator((rem * i) as int, (q * i) as int, 8);
        assert(rem * i <= 56) by (nonlinear_arith)
            requires
                rem < 8,
                i <= 8,
        ;
        assert((i * n) / 8 <= n) by (nonlinear_arith)
            requires
                i <= 8,
                n >= 0,
        ;
    }
    q * i + (rem * i) / 8
}

/// Cap a frame list to at most `MAX_CACHED_FRAMES`, selecting evenly-spaced
/// frames so the animation remains representative.
///
/// Both lists are first cut to the shorter one's length. When more than
/// `MAX_CACHED_FRAMES` remain, frame `i` of the result is frame `i * n / 8`
/// of the input (with `n` the aligned length), and likewise for durations.
pub fn cap_frames<T>(frames: Vec<T>, durations: Vec<u32>) -> (r: (Vec<T>, Vec<u32>))
    ensures
        r.0@ == capped(frames@, aligned_len(frames@.len(), durations@.len())),
        r.1@ == capped(durations@, aligned_len(frames@.len(), durations@.len())),
        ({
            let n = if frames@.len() < durations@.len() { frames@.len() as int } else { durations@.len() as int };
            &&& n <= MAX_CACHED_FRAMES ==> r.0@ == frames@.take(n) && r.1@ == durations@.take(n)
            &&& n > MAX_CACHED_FRAMES ==> {
                &&& r.0@.len() == MAX_CACHED_FRAMES
                &&& r.1@.len() == MAX_CACHED_FRAMES
                &&& forall|i: int| 0 <= i < MAX_CACHED_FRAMES ==> #[trigger] r.0@[i] == frames@[sample_index(i, n)]
                &&& forall|i: int| 0 <= i < MAX_CACHED_FRAMES ==> #[trigger] r.1@[i] == durations@[sample_index(i, n)]
            }
        }),
{
    let ghost orig_f = frames@;
    let ghost orig_d = durations@;
    let n = if frames.len() < durations.len() { frames.len() } else { durations.len() };
    let mut frames = frames;
    let mut durations = durations;
    frames.truncate(n);
    durations.truncate(n);
    if n <= MAX_CACHED_FRAMES {
        return (frames, durations);
    }
    let cap = MAX_CACHED_FRAMES;
    proof {
        assert forall|a: int, b: int| 0 <= a < b <= 8 implies #[trigger] sample_index(a, n as int) < #[trigger] sample_index(b, n as int) by {
            lemma_sample_index_increasing(a, b, n as int);
        }
        lemma_sample_index_increasing(0, 7, n as int);
    }
    let mut capped_d: Vec<u32> = Vec::new();
    let mut i: usize = 0;
    while i < cap
        invariant
            cap == 8,
            n > 8,
            durations@ == orig_d.take(n as int),
            n <= orig_d.len(),
            sample_index(7, n as int) < n,
            forall|a: int, b: int| 0 <= a < b <= 8 ==> #[trigger] sample_index(a, n as int) < #[trigger] sample_index(b, n as int),
            sample_index(0, n as int) == 0,
            i <= cap,
            capped_d@.len() == i,
            forall|m: int| 0 <= m < i ==> #[trigger] capped_d@[m] == orig_d[sample_index(m, n as int)],
        decreases cap - i,
    {
        proof {
            if i < 7 {
                assert(sample_index(i as int, n as int) < sample_index(7, n as int));
            }
            assert(0 <= sample_index(i as int, n as int)) by (nonlinear_arith)
                requires
                    i >= 0,
                    n >= 0,
            ;
        }
        let idx = sample_at(i, n);
        capped_d.push(durations[idx]);
        i = i + 1;
    }
    let mut picked_rev: Vec<T> = Vec::new();
    let mut j: usize = cap;
    let mut k: usize = n;
    while k > 0
        invariant
            cap == 8,
            n > 8,
            k <= n <= orig_f.len(),
            frames@ == orig_f.take(k as int),
            j <= 8,
            picked_rev@.len() == 8 - j,
            forall|m: int| 0 <= m < 8 - j ==> #[trigger] picked_rev@[m] == orig_f[sample_index(7 - m, n as int)],
            forall|m: int| 0 <= m < j ==> #[trigger] sample_index(m, n as int) < k,
            forall|m: int| j <= m < 8 ==> #[trigger] sample_index(m, n as int) >= k,
            forall|a: int, b: int| 0 <= a < b <= 8 ==> #[trigger] sample_index(a, n as int) < #[trigger] sample_index(b, n as int),
            sample_index(0, n as int) == 0,
        decreases k,
    {
        k = k - 1;
        let ghost before = frames@;
        let popped = frames.pop();
        assert(before.drop_last() =~= orig_f.take(k as int));
        match popped {
            Some(f) => {
                proof {
                    if j > 0 {
                        assert(0 <= sample_index(j - 1, n as int)) by (nonlinear_arith)
                            requires
                                j >= 1,
                                n >= 0,
                        ;
                    }
                }
                if j > 0 && k == sample_at(j - 1, n) {
                    picked_rev.push(f);
                    j = j - 1;
                } else {
                    proof {
                        if j > 0 {
                            assert(sample_index(j - 1, n as int) < k);
                        }
                    }
                }
            },
            None => {},
        }
    }
    proof {
        if j > 0 {
            assert(sample_index(0, n as int) < 0);
        }
    }
    let mut capped_f: Vec<T> = Vec::new();
    while picked_rev.len() > 0
        invariant
            n > 8,
            picked_rev@.len() + capped_f@.len() == 8,
            forall|m: int| 0 <= m < picked_rev@.len() ==> #[trigger] picked_rev@[m] == orig_f[sample_index(7 - m, n as int)],
            forall|m: int| 0 <= m < capped_f@.len() ==> #[trigger] capped_f@[m] == orig_f[sample_index(m, n as int)],
        decreases picked_rev@.len(),
    {
        let ghost before = picked_rev@;
        match picked_rev.pop() {
            Some(f) => {
                assert(f == before[before.len() - 1]);
                capped_f.push(f);
            },
            None => {},
        }
    }
    (capped_f, capped_d)
}

/// Whether a download warning is still worth showing once the loader has
/// covered for it: warnings about Spin or Rotate (optional recall
/// animations) never are, nor those about Eat or Sleep when those fell back
/// to the Idle frames. Matching ignores case.
pub open spec fn keep_warning(w: Seq<char>, eat_fallback: bool, sleep_fallback: bool) -> bool {
    let l = lowercase(w);
    !((eat_fallback && contains_seq(l, "eat"@)) || (sleep_fallback && contains_seq(l, "sleep"@))
        || contains_seq(l, "spin"@) || contains_seq(l, "rotate"@))
}

/// The warnings kept, in the order given.
pub open spec fn kept_warnings(ws: Seq<Seq<char>>, eat_fallback: bool, sleep_fallback: bool) -> Seq<Seq<char>>
    decreases ws.len(),
{
    if ws.len() == 0 {
        seq![]
    } else {
        let rest = kept_warnings(ws.drop_last(), eat_fallback, sleep_fallback);
        if keep_warning(ws.last(), eat_fallback, sleep_fallback) {
            rest.push(ws.last())
        } else {
            rest
        }
    }
}

fn contains_text(haystack: &Vec<char>, needle: &str) -> (b: bool)
    ensures
        b == contains_seq(haystack@, needle@),
{
    let pat = chars_of(needle);
    assert(haystack@.subrange(0, haystack@.len() as int) =~= haystack@);
    find_in(haystack, 0, haystack.len(), &pat).is_some()
}

/// Drop the warnings that the loader has already handled (see `keep_warning`).
pub fn filter_load_warnings(warnings: Vec<String>, eat_fallback: bool, sleep_fallback: bool) -> (r: Vec<String>)
    ensures
        r@.map_values(|s: String| s@) == kept_warnings(
            warnings@.map_values(|s: String| s@),
            eat_fallback,
            sleep_fallback,
        ),
{
    let ghost ws = warnings@.map_values(|s: String| s@);
    let mut out: Vec<String> = Vec::new();
    let mut i: usize = 0;
    while i < warnings.len()
        invariant
            i <= warnings@.len(),
            ws == warnings@.map_values(|s: String| s@),
            out@.map_values(|s: String| s@) == kept_warnings(ws.take(i as int), eat_fallback, sleep_fallback),
        decreases warnings.len() - i,
    {
        let w = &warnings[i];
        let lower = to_lowercase(w.as_str());
        let lc = chars_of(lower.as_str());
        let handled = (eat_fallback && contains_text(&lc, "eat")) || (sleep_fallback && contains_text(&lc, "sleep"))
            || contains_text(&lc, "spin") || contains_text(&lc, "rotate");
        let ghost before = out@;
        proof {
            assert(ws.take(i as int + 1).drop_last() =~= ws.take(i as int));
            assert(ws.take(i as int + 1).last() == w@);
        }
        if !handled {
            out.push(w.clone());
            assert(out@.map_values(|s: String| s@) =~= before.map_values(|s: String| s@).push(w@));
        }
        i = i + 1;
    }
    assert(ws.take(warnings@.len() as int) =~= ws);
    out
}

// ───────────────────────── loading one animation ─────────────────────────

/// The pixels that `image::imageops::resize` with `FilterType::Nearest`
/// gives for an RGBA image of `width` × `height` holding `pixels`, resized
/// to `nwidth` × `nheight`.
pub uninterp spec fn nearest_resized(pixels: Seq<Rgba>, width: u32, height: u32, nwidth: u32, nheight: u32) -> Seq<Rgba>;

/// Calls `image::imageops::resize` with `FilterType::Nearest` on the RGBA
/// image holding `pixels`. The result is `nearest_resized` of the
/// arguments; it has `nwidth * nheight` pixels, and is a copy of the input
/// when the size does not change.
#[verifier::external_body]
fn resize_nearest(pixels: &Vec<Rgba>, width: u32, height: u32, nwidth: u32, nheight: u32) -> (r: Vec<Rgba>)
    requires
        pixels@.len() == width * height,
        16 * (width + nwidth) * (height + nheight) <= isize::MAX,
    ensures
        r@ == nearest_resized(pixels@, width, height, nwidth, nheight),
        r@.len() == nwidth * nheight,
        nwidth == width && nheight == height ==> r@ == pixels@,
{
    let bytes: Vec<u8> = pixels.iter().flat_map(|p| [p.0, p.1, p.2, p.3]).collect();
    let img = image::RgbaImage::from_raw(width, height, bytes).unwrap();
    let out = image::imageops::resize(&img, nwidth, nheight, image::imageops::FilterType::Nearest);
    out.pixels().map(|p| (p[0], p[1], p[2], p[3])).collect()
}

/// Whether a `w` × `h` frame can be scaled by `scale`: the scaled size fits
/// in `u32`, and the image buffers of the resize fit in memory.
pub open spec fn scale_fits(w: nat, h: nat, scale: nat) -> bool {
    &&& w * scale <= u32::MAX
    &&& h * scale <= u32::MAX
    &&& 16 * (w + w * scale) * (h + h * scale) <= isize::MAX
}

/// Frame `v` scaled by `scale` in both directions, nearest-neighbour.
pub open spec fn scaled(v: FrameView, scale: u32) -> FrameView {
    let nw = (v.width * scale) as u32;
    let nh = (v.height * scale) as u32;
    FrameView {
        width: nw as nat,
        height: nh as nat,
        pixels: nearest_resized(v.pixels, v.width as u32, v.height as u32, nw, nh),
    }
}

/// Scale a frame by `scale` in both directions (nearest-neighbour).
pub fn scale_frame(frame: &Frame, scale: u32) -> (r: Frame)
    requires
        scale_fits(frame@.width, frame@.height, scale as nat),
    ensures
        r@ == scaled(frame@, scale),
{
    let w = frame.width();
    let h = frame.height();
    let nw = w * scale;
    let nh = h * scale;
    let pixels = resize_nearest(frame.pixels(), w, h, nw, nh);
    match Frame::new(nw, nh, pixels) {
        Some(f) => f,
        None => Frame::blank(0, 0),
    }
}

/// The views of the sprite-sheet entries: each animation's name, and what
/// decoding its PNG file gives.
pub open spec fn sheet_views(s: Seq<(String, Vec<u8>)>) -> Seq<(Seq<char>, Result<FrameView, Seq<char>>)> {
    s.map_values(|e: (String, Vec<u8>)| (e.0@, decoded_sheet(e.1@)))
}

/// The first sheet entry named `name`.
pub open spec fn find_sheet(s: Seq<(Seq<char>, Result<FrameView, Seq<char>>)>, name: Seq<char>) -> Option<
    Result<FrameView, Seq<char>>,
>
    decreases s.len(),
{
    if s.len() == 0 {
        None
    } else if s[0].0 == name {
        Some(s[0].1)
    } else {
        find_sheet(s.drop_first(), name)
    }
}

fn find_sheet_entry<'a>(sheets: &'a Vec<(String, Vec<u8>)>, name: &str) -> (r: Option<&'a Vec<u8>>)
    ensures
        match r {
            None => find_sheet(sheet_views(sheets@), name@) is None,
            Some(b) => find_sheet(sheet_views(sheets@), name@) == Some(decoded_sheet(b@)),
        },
{
    let ghost all = sheet_views(sheets@);
    let key = String::from_str(name);
    assert(all.skip(0) =~= all);
    let mut i: usize = 0;
    while i < sheets.len()
        invariant
            i <= sheets@.len(),
            all == sheet_views(sheets@),
            key@ == name@,
            find_sheet(all, name@) == find_sheet(all.skip(i as int), name@),
        decreases sheets.len() - i,
    {
        assert(all.skip(i as int).drop_first() =~= all.skip(i + 1));
        assert(all.skip(i as int)[0] == all[i as int]);
        if sheets[i].0 == key {
            return Some(&sheets[i].1);
        }
        i = i + 1;
    }
    assert(all.skip(i as int).len() == 0);
    None
}

/// The frames cut for an animation: row `dir_row` of the sheet, or row 0
/// when that row is missing.
pub open spec fn source_frames(sheet: FrameView, info: AnimInfoView, dir_row: u32) -> Seq<FrameView> {
    let first = extract_spec(sheet, info, dir_row);
    if first.len() == 0 && dir_row != 0 {
        extract_spec(sheet, info, 0)
    } else {
        first
    }
}

/// What loading starts from: the frames, their tick durations, and whether
/// the placeholder stands in because the sheet, its timing or its frames
/// are missing.
pub open spec fn load_source(sheet: Option<Result<FrameView, Seq<char>>>, info: Option<AnimInfoView>, dir_row: u32) -> (
    Seq<FrameView>,
    Seq<u32>,
    bool,
) {
    match (sheet, info) {
        (Some(Ok(s)), Some(i)) => if source_frames(s, i, dir_row).len() > 0 {
            (source_frames(s, i, dir_row), i.durations, false)
        } else {
            (seq![fallback_frame_view()], seq![20u32], true)
        },
        _ => (seq![fallback_frame_view()], seq![20u32], true),
    }
}

/// The decoding error that loading reports: the sheet failed to decode and
/// the animation has timing information.
pub open spec fn load_error(sheet: Option<Result<FrameView, Seq<char>>>, info: Option<AnimInfoView>) -> Option<Seq<char>> {
    match (sheet, info) {
        (Some(Err(m)), Some(_)) => Some(m),
        _ => None,
    }
}

/// The frames shown: scaled by `scale`, capped to `MAX_CACHED_FRAMES` and,
/// with a canonical size, normalized to it.
pub open spec fn final_frames(raw: Seq<FrameView>, durations: Seq<u32>, scale: u32, canonical: Option<(u32, u32)>) -> Seq<
    FrameView,
> {
    let c = capped(raw.map_values(|v: FrameView| scaled(v, scale)), aligned_len(raw.len(), durations.len()));
    match canonical {
        Some((cw, ch)) => c.map_values(|v: FrameView| normalized(v, cw, ch)),
        None => c,
    }
}

/// Whether `a` times frames of the given tick durations (50 ms a tick).
pub open spec fn timing_of(a: Animation, ticks: Seq<u32>) -> bool {
    &&& a.durations_ms@.len() == ticks.len()
    &&& forall|i: int| 0 <= i < ticks.len() ==> #[trigger] a.durations_ms@[i] == ticks[i] * 50
    &&& a.total_ms == sum_ms(a.durations_ms@)
}

/// An animation ready for display.
pub struct LoadedAnimation {
    /// The frames, scaled and normalized.
    pub frames: Vec<Frame>,
    /// Their timing.
    pub timing: Animation,
    /// Size of the frames.
    pub width: u32,
    pub height: u32,
    /// Whether the placeholder stands in for missing frames.
    pub is_fallback: bool,
}

proof fn lemma_sample_index_in_range(i: int, n: int)
    requires
        0 <= i < MAX_CACHED_FRAMES,
        n > MAX_CACHED_FRAMES,
    ensures
        0 <= sample_index(i, n) < n,
{
    assert(0 <= (i * n) / 8 < n) by (nonlinear_arith)
        requires
            0 <= i < 8,
            n > 8,
    ;
}

proof fn lemma_ticks_bound(d: Seq<u32>)
    ensures
        total_ticks(d) <= d.len() * (u32::MAX as nat),
    decreases d.len(),
{
    if d.len() > 0 {
        lemma_ticks_bound(d.drop_last());
    }
}

/// Load one animation: cut row `dir_row` of its sheet (row 0 when that row
/// is missing), scale each frame by `scale`, cap the frames to
/// `MAX_CACHED_FRAMES`, then normalize them to `canonical_size` when one is
/// given.
///
/// The placeholder frame, shown for 20 ticks, stands in when the sheet or
/// its entry in `anim_infos` is missing or no frame could be cut. A sheet
/// that failed to decode is an error (its message), when the animation has
/// timing information.
pub fn load_and_scale_animation(
    anim_name: &str,
    sheets: &Vec<(String, Vec<u8>)>,
    anim_infos: &AnimInfoMap,
    scale: u32,
    canonical_size: Option<(u32, u32)>,
    dir_row: u32,
) -> (r: Result<LoadedAnimation, String>)
    requires
        scale_fits(FALLBACK_FRAME_SIZE as nat, FALLBACK_FRAME_SIZE as nat, scale as nat),
        anim_infos@.dom().contains(anim_name@) ==> scale_fits(
            anim_infos@[anim_name@].frame_width as nat,
            anim_infos@[anim_name@].frame_height as nat,
            scale as nat,
        ),
        canonical_size matches Some((cw, ch)) ==> cw * ch <= usize::MAX,
    ensures
        ({
            let sheet = find_sheet(sheet_views(sheets@), anim_name@);
            let info = anim_infos@.get(anim_name@);
            let (raw, ticks, fallback) = load_source(sheet, info, dir_row);
            let fr = final_frames(raw, ticks, scale, canonical_size);
            let td = capped(ticks, aligned_len(raw.len(), ticks.len()));
            match r {
                Err(e) => load_error(sheet, info) == Some(e@),
                Ok(l) => {
                    &&& load_error(sheet, info) is None
                    &&& frame_views(l.frames@) == fr
                    &&& timing_of(l.timing, td)
                    &&& l.is_fallback == fallback
                    &&& fr.len() > 0
                    &&& l.width == fr[0].width
                    &&& l.height == fr[0].height
                },
            }
        }),
{
    let sheet = find_sheet_entry(sheets, anim_name);
    let info = anim_infos.get(anim_name);
    let ghost sheet_v = find_sheet(sheet_views(sheets@), anim_name@);
    let ghost info_v = anim_infos@.get(anim_name@);
    let mut raw: Vec<Frame> = Vec::new();
    let mut ticks: Vec<u32> = Vec::new();
    let mut is_fallback = true;
    match sheet {
        Some(bytes) => {
            match info {
                Some(anim_info) => {
                    let sheet_frame = match decode_sheet(bytes) {
                        Ok(f) => f,
                        Err(e) => return Err(e),
                    };
                    let mut frames = extract_frames(&sheet_frame, anim_info, dir_row);
                    if frames.len() == 0 && dir_row != 0 {
                        frames = extract_frames(&sheet_frame, anim_info, 0);
                    }
                    if frames.len() > 0 {
                        raw = frames;
                        ticks = anim_info.durations.clone();
                        is_fallback = false;
                    }
                },
                None => {},
            }
        },
        None => {},
    }
    if is_fallback {
        raw = Vec::new();
        raw.push(create_fallback_frame());
        ticks = Vec::new();
        ticks.push(20);
    }
    let ghost src = load_source(sheet_v, info_v, dir_row);
    assert(frame_views(raw@) =~= src.0);
    assert(ticks@ =~= src.1);
    proof {
        assert forall|k: int| 0 <= k < raw@.len() implies scale_fits(
            (#[trigger] raw@[k])@.width,
            raw@[k]@.height,
            scale as nat,
        ) by {
            assert(frame_views(raw@)[k] == raw@[k]@);
            if !is_fallback {
                assert(anim_infos@.dom().contains(anim_name@));
            }
        }
    }
    // scale every frame
    let mut scaled_frames: Vec<Frame> = Vec::new();
    let mut i: usize = 0;
    while i < raw.len()
        invariant
            i <= raw@.len(),
            scaled_frames@.len() == i,
            frame_views(raw@) == src.0,
            forall|k: int| 0 <= k < raw@.len() ==> scale_fits(
                (#[trigger] raw@[k])@.width,
                raw@[k]@.height,
                scale as nat,
            ),
            forall|k: int| 0 <= k < i ==> (#[trigger] scaled_frames@[k])@ == scaled(raw@[k]@, scale),
        decreases raw.len() - i,
    {
        let g = scale_frame(&raw[i], scale);
        let ghost before = scaled_frames@;
        scaled_frames.push(g);
        assert forall|k: int| 0 <= k < i + 1 implies (#[trigger] scaled_frames@[k])@ == scaled(raw@[k]@, scale) by {
            if k < i {
                assert(scaled_frames@[k] == before[k]);
            }
        }
        i = i + 1;
    }
    let ghost scaled_seq = scaled_frames@;
    let ghost scaled_views = frame_views(scaled_frames@);
    assert(scaled_views =~= src.0.map_values(|v: FrameView| scaled(v, scale)));
    let ghost n = aligned_len(raw@.len(), ticks@.len());
    let (capped_frames, capped_ticks) = cap_frames(scaled_frames, ticks);
    proof {
        if n > MAX_CACHED_FRAMES {
            assert forall|j: int| 0 <= j < MAX_CACHED_FRAMES implies #[trigger] frame_views(capped_frames@)[j] == capped(
                scaled_views,
                n,
            )[j] by {
                lemma_sample_index_in_range(j, n);
            }
        }
        assert(frame_views(capped_frames@) =~= capped(scaled_views, n));
    }
    let final_list = match canonical_size {
        Some((cw, ch)) => normalize_frames(capped_frames, cw, ch),
        None => capped_frames,
    };
    let ghost fr = final_frames(src.0, src.1, scale, canonical_size);
    assert(frame_views(final_list@) =~= fr);
    let out_w = final_list[0].width();
    let out_h = final_list[0].height();
    proof {
        lemma_ticks_bound(capped_ticks@);
        assert(capped_ticks@.take(capped_ticks@.len() as int) =~= capped_ticks@);
    }
    let timing = Animation::new(final_list.len(), capped_ticks.as_slice());
    Ok(LoadedAnimation { frames: final_list, timing, width: out_w, height: out_h, is_fallback })
}

// ───────────────────────── loading a whole slot ─────────────────────────

/// The frames, tick durations and placeholder flag of animation `name`
/// loaded for sheet row `row`.
pub open spec fn anim_load(
    sheets: Seq<(Seq<char>, Result<FrameView, Seq<char>>)>,
    infos: Map<Seq<char>, AnimInfoView>,
    name: Seq<char>,
    scale: u32,
    canonical: Option<(u32, u32)>,
    row: u32,
) -> (Seq<FrameView>, Seq<u32>, bool) {
    let (raw, ticks, fallback) = load_source(find_sheet(sheets, name), infos.get(name), row);
    (final_frames(raw, ticks, scale, canonical), capped(ticks, aligned_len(raw.len(), ticks.len())), fallback)
}

/// The decoding error loading animation `name` reports, if any.
pub open spec fn anim_error(
    sheets: Seq<(Seq<char>, Result<FrameView, Seq<char>>)>,
    infos: Map<Seq<char>, AnimInfoView>,
    name: Seq<char>,
) -> Option<Seq<char>> {
    load_error(find_sheet(sheets, name), infos.get(name))
}

/// An animation's frames for the four directions (Down, Left, Up, Right),
/// the Down frames loaded first; the others normalized to `canonical`.
pub open spec fn four_dirs(
    sheets: Seq<(Seq<char>, Result<FrameView, Seq<char>>)>,
    infos: Map<Seq<char>, AnimInfoView>,
    name: Seq<char>,
    scale: u32,
    canonical: (u32, u32),
    down: Seq<FrameView>,
) -> Seq<Seq<FrameView>> {
    seq![
        down,
        anim_load(sheets, infos, name, scale, Some(canonical), 2).0,
        anim_load(sheets, infos, name, scale, Some(canonical), 4).0,
        anim_load(sheets, infos, name, scale, Some(canonical), 6).0,
    ]
}

/// The four directions are Down, Left, Up and Right, in that order: the
/// frames of direction `d` are the given Down frames for `d == 0`, and
/// otherwise the ones loaded from sheet row `direction_rows()[d]`, that is
/// row `2 * d`, normalized to the canonical size.
pub proof fn law_direction_frames_from_their_rows(
    sheets: Seq<(Seq<char>, Result<FrameView, Seq<char>>)>,
    infos: Map<Seq<char>, AnimInfoView>,
    name: Seq<char>,
    scale: u32,
    canonical: (u32, u32),
    down: Seq<FrameView>,
    d: int,
)
    requires
        0 <= d < 4,
    ensures
        four_dirs(sheets, infos, name, scale, canonical, down).len() == 4,
        d == 0 ==> four_dirs(sheets, infos, name, scale, canonical, down)[d] == down,
        d > 0 ==> four_dirs(sheets, infos, name, scale, canonical, down)[d] == anim_load(
            sheets,
            infos,
            name,
            scale,
            Some(canonical),
            (2 * d) as u32,
        ).0,
{
    if d == 1 {
        assert((2 * d) as u32 == 2u32);
    } else if d == 2 {
        assert((2 * d) as u32 == 4u32);
    } else if d == 3 {
        assert((2 * d) as u32 == 6u32);
    }
}

/// The frames of a creature's sprites, per direction, for each state.
pub struct SlotSprites {
    pub idle: [Vec<Frame>; 4],
    pub eat: [Vec<Frame>; 4],
    pub sleep: [Vec<Frame>; 4],
    /// The recall animation shown while swapping the creature out.
    pub recall: [Vec<Frame>; 4],
    /// Timing of the idle, eat and sleep animations.
    pub animator: Animator,
    /// Download warnings still worth showing.
    pub warnings: Vec<String>,
}

/// The views of the four directions' frames.
pub open spec fn dirs_view(d: [Vec<Frame>; 4]) -> Seq<Seq<FrameView>> {
    seq![frame_views(d[0]@), frame_views(d[1]@), frame_views(d[2]@), frame_views(d[3]@)]
}

fn clone_frames(v: &Vec<Frame>) -> (r: Vec<Frame>)
    ensures
        frame_views(r@) == frame_views(v@),
{
    let mut r: Vec<Frame> = Vec::new();
    let mut i: usize = 0;
    while i < v.len()
        invariant
            i <= v@.len(),
            r@.len() == i,
            forall|k: int| 0 <= k < i ==> (#[trigger] r@[k])@ == v@[k]@,
        decreases v.len() - i,
    {
        let f = v[i].clone();
        let ghost before = r@;
        r.push(f);
        assert forall|k: int| 0 <= k < i + 1 implies (#[trigger] r@[k])@ == v@[k]@ by {
            if k < i {
                assert(r@[k] == before[k]);
            }
        }
        i = i + 1;
    }
    assert(frame_views(r@) =~= frame_views(v@));
    r
}

fn clone_dirs(d: &[Vec<Frame>; 4]) -> (r: [Vec<Frame>; 4])
    ensures
        dirs_view(r) == dirs_view(*d),
{
    [clone_frames(&d[0]), clone_frames(&d[1]), clone_frames(&d[2]), clone_frames(&d[3])]
}

/// Whether the frames of animation `name`, when it has timing information,
/// can be scaled by `scale`.
pub open spec fn anim_fits(infos: Map<Seq<char>, AnimInfoView>, name: Seq<char>, scale: u32) -> bool {
    infos.dom().contains(name) ==> scale_fits(infos[name].frame_width as nat, infos[name].frame_height as nat, scale as nat)
}

/// Whether the frames of every animation a slot loads (Idle, Eat, Sleep,
/// Spin and Rotate) can be scaled by `scale`.
pub open spec fn slot_anims_fit(infos: Map<Seq<char>, AnimInfoView>, scale: u32) -> bool {
    &&& anim_fits(infos, "Idle"@, scale)
    &&& anim_fits(infos, "Eat"@, scale)
    &&& anim_fits(infos, "Sleep"@, scale)
    &&& anim_fits(infos, "Spin"@, scale)
    &&& anim_fits(infos, "Rotate"@, scale)
}

/// Load the Left, Up and Right frames of an animation whose Down frames
/// are `down`; a direction that fails to load shows the Down frames.
fn load_other_dirs(
    name: &str,
    sheets: &Vec<(String, Vec<u8>)>,
    anim_infos: &AnimInfoMap,
    scale: u32,
    canonical: (u32, u32),
    down: Vec<Frame>,
) -> (r: [Vec<Frame>; 4])
    requires
        scale_fits(FALLBACK_FRAME_SIZE as nat, FALLBACK_FRAME_SIZE as nat, scale as nat),
        anim_fits(anim_infos@, name@, scale),
        canonical.0 * canonical.1 <= usize::MAX,
        anim_error(sheet_views(sheets@), anim_infos@, name@) is None,
    ensures
        dirs_view(r) == four_dirs(sheet_views(sheets@), anim_infos@, name@, scale, canonical, frame_views(down@)),
{
    let ghost dv = frame_views(down@);
    let left = match load_and_scale_animation(name, sheets, anim_infos, scale, Some(canonical), 2) {
        Ok(l) => l.frames,
        Err(_) => clone_frames(&down),
    };
    let up = match load_and_scale_animation(name, sheets, anim_infos, scale, Some(canonical), 4) {
        Ok(l) => l.frames,
        Err(_) => clone_frames(&down),
    };
    let right = match load_and_scale_animation(name, sheets, anim_infos, scale, Some(canonical), 6) {
        Ok(l) => l.frames,
        Err(_) => clone_frames(&down),
    };
    let r = [down, left, up, right];
    assert(dirs_view(r) =~= four_dirs(sheet_views(sheets@), anim_infos@, name@, scale, canonical, dv));
    r
}

/// The error loading a slot reports: the first animation whose sheet
/// failed to decode, of Idle, Eat, Sleep and Spin, then Rotate when Spin
/// fell back to the placeholder.
pub open spec fn slot_error(
    sheets: Seq<(Seq<char>, Result<FrameView, Seq<char>>)>,
    infos: Map<Seq<char>, AnimInfoView>,
) -> Option<Seq<char>> {
    if anim_error(sheets, infos, "Idle"@) is Some {
        anim_error(sheets, infos, "Idle"@)
    } else if anim_error(sheets, infos, "Eat"@) is Some {
        anim_error(sheets, infos, "Eat"@)
    } else if anim_error(sheets, infos, "Sleep"@) is Some {
        anim_error(sheets, infos, "Sleep"@)
    } else if anim_error(sheets, infos, "Spin"@) is Some {
        anim_error(sheets, infos, "Spin"@)
    } else if load_source(find_sheet(sheets, "Spin"@), infos.get("Spin"@), 0).2 {
        anim_error(sheets, infos, "Rotate"@)
    } else {
        None
    }
}

proof fn lemma_scaled_size_fits(w: nat, h: nat, scale: nat)
    requires
        scale_fits(w, h, scale),
    ensures
        (w * scale) * (h * scale) <= usize::MAX,
{
    assert((w * scale) * (h * scale) <= 16 * (w + w * scale) * (h + h * scale)) by (nonlinear_arith)
        requires
            w >= 0,
            h >= 0,
            scale >= 0,
    ;
}

/// Build all of a creature's animation frames from its decoded sheets.
///
/// Idle is loaded first for all four directions; its Down frames set the
/// canonical size every other animation is normalized to. Eat and Sleep
/// fall back to the Idle frames and timing when their sheets are missing.
/// The recall animation prefers Spin, then Rotate, then Idle. The animator
/// gets the Idle, Eat and Sleep timing. Download warnings about animations
/// covered this way are dropped (see `filter_load_warnings`). A sheet that
/// failed to decode is an error (see `slot_error`).
pub fn load_slot_sprites(
    sheets: &Vec<(String, Vec<u8>)>,
    anim_infos: &AnimInfoMap,
    warnings: Vec<String>,
    scale: u32,
) -> (r: Result<SlotSprites, String>)
    requires
        scale_fits(FALLBACK_FRAME_SIZE as nat, FALLBACK_FRAME_SIZE as nat, scale as nat),
        slot_anims_fit(anim_infos@, scale),
    ensures
        ({
            let sv = sheet_views(sheets@);
            let infos = anim_infos@;
            let idle0 = anim_load(sv, infos, "Idle"@, scale, None, 0);
            let canon = (idle0.0[0].width as u32, idle0.0[0].height as u32);
            let eat0 = anim_load(sv, infos, "Eat"@, scale, Some(canon), 0);
            let sleep0 = anim_load(sv, infos, "Sleep"@, scale, Some(canon), 0);
            let spin0 = anim_load(sv, infos, "Spin"@, scale, Some(canon), 0);
            let rotate0 = anim_load(sv, infos, "Rotate"@, scale, Some(canon), 0);
            let idle = four_dirs(sv, infos, "Idle"@, scale, canon, idle0.0);
            match r {
                Err(e) => slot_error(sv, infos) == Some(e@),
                Ok(s) => {
                    &&& slot_error(sv, infos) is None
                    &&& dirs_view(s.idle) == idle
                    &&& dirs_view(s.eat) == if eat0.2 { idle } else { four_dirs(sv, infos, "Eat"@, scale, canon, eat0.0) }
                    &&& dirs_view(s.sleep) == if sleep0.2 { idle } else { four_dirs(sv, infos, "Sleep"@, scale, canon, sleep0.0) }
                    &&& dirs_view(s.recall) == if !spin0.2 {
                        four_dirs(sv, infos, "Spin"@, scale, canon, spin0.0)
                    } else if !rotate0.2 {
                        four_dirs(sv, infos, "Rotate"@, scale, canon, rotate0.0)
                    } else {
                        idle
                    }
                    &&& s.animator.spec_state() == AnimationState::Idle
                    &&& s.animator.hop() is None
                    &&& s.animator.idle() matches Some(a) && timing_of(a, idle0.1)
                    &&& s.animator.eat() matches Some(a) && timing_of(a, if eat0.2 { idle0.1 } else { eat0.1 })
                    &&& s.animator.sleep() matches Some(a) && timing_of(a, if sleep0.2 { idle0.1 } else { sleep0.1 })
                    &&& s.warnings@.map_values(|w: String| w@) == kept_warnings(
                        warnings@.map_values(|w: String| w@),
                        eat0.2,
                        sleep0.2,
                    )
                },
            }
        }),
{
    let ghost sv = sheet_views(sheets@);
    let ghost infos = anim_infos@;
    let idle_down = match load_and_scale_animation("Idle", sheets, anim_infos, scale, None, 0) {
        Ok(l) => l,
        Err(e) => return Err(e),
    };
    let canon = (idle_down.width, idle_down.height);
    proof {
        let src = load_source(find_sheet(sv, "Idle"@), infos.get("Idle"@), 0);
        assert(sample_index(0, aligned_len(src.0.len(), src.1.len())) == 0);
        let v0 = src.0[0];
        if !src.2 {
            assert(infos.dom().contains("Idle"@));
        }
        lemma_scaled_size_fits(v0.width, v0.height, scale as nat);
    }
    let idle_timing = idle_down.timing;
    let idle = load_other_dirs("Idle", sheets, anim_infos, scale, canon, idle_down.frames);
    let eat_down = match load_and_scale_animation("Eat", sheets, anim_infos, scale, Some(canon), 0) {
        Ok(l) => l,
        Err(e) => return Err(e),
    };
    let eat_fallback = eat_down.is_fallback;
    let (eat, eat_timing) = if eat_fallback {
        (clone_dirs(&idle), idle_timing.clone())
    } else {
        (load_other_dirs("Eat", sheets, anim_infos, scale, canon, eat_down.frames), eat_down.timing)
    };
    let sleep_down = match load_and_scale_animation("Sleep", sheets, anim_infos, scale, Some(canon), 0) {
        Ok(l) => l,
        Err(e) => return Err(e),
    };
    let sleep_fallback = sleep_down.is_fallback;
    let (sleep, sleep_timing) = if sleep_fallback {
        (clone_dirs(&idle), idle_timing.clone())
    } else {
        (load_other_dirs("Sleep", sheets, anim_infos, scale, canon, sleep_down.frames), sleep_down.timing)
    };
    let spin_down = match load_and_scale_animation("Spin", sheets, anim_infos, scale, Some(canon), 0) {
        Ok(l) => l,
        Err(e) => return Err(e),
    };
    let recall = if !spin_down.is_fallback {
        load_other_dirs("Spin", sheets, anim_infos, scale, canon, spin_down.frames)
    } else {
        let rotate_down = match load_and_scale_animation("Rotate", sheets, anim_infos, scale, Some(canon), 0) {
            Ok(l) => l,
            Err(e) => return Err(e),
        };
        if !rotate_down.is_fallback {
            load_other_dirs("Rotate", sheets, anim_infos, scale, canon, rotate_down.frames)
        } else {
            clone_dirs(&idle)
        }
    };
    let mut animator = Animator::new();
    animator.load_animations(idle_timing, eat_timing, sleep_timing);
    let kept = filter_load_warnings(warnings, eat_fallback, sleep_fallback);
    Ok(SlotSprites { idle, eat, sleep, recall, animator, warnings: kept })
}

} // verus!
