//! Layout and text decisions of the shared pen and status panel: which
//! encoded frame is drawn, what nameplates say and how wide they are, where
//! the toy goes, and the status lines.
use crate::animation::AnimationState;
use crate::creature::{
    sprite_stack_h, LABEL_H, LABEL_OVERLAP, RECALL_FLASH_SHRINK_DELAY_TICKS, RECALL_TICKS, SPRITE_W,
};
use crate::notification::NotifLevel;
use crate::text::{decimal, decimal_chars, push_chars, push_str, string_from_chars};
use vstd::prelude::*;

verus! {

// ───────────────────────── frame fallback ─────────────────────────

/// The first present frame at or after `i`.
pub open spec fn first_present_from<P>(frames: Seq<Option<P>>, i: nat) -> Option<nat>
    decreases frames.len() - i,
{
    if i >= frames.len() {
        None
    } else if frames[i as int] is Some {
        Some(i)
    } else {
        first_present_from(frames, i + 1)
    }
}

/// A frame of one direction: the requested one (wrapped around the frame
/// count) when present, else the first present one.
pub open spec fn pick_in_dir<P>(frames: Seq<Option<P>>, frame_idx: nat) -> Option<nat> {
    if frames.len() == 0 {
        None
    } else if frames[(frame_idx % frames.len()) as int] is Some {
        Some(frame_idx % frames.len())
    } else {
        first_present_from(frames, 0)
    }
}

/// The first direction at or after `d`, other than `skip`, with a frame.
pub open spec fn pick_other_dirs<P>(dirs: Seq<Seq<Option<P>>>, skip: nat, frame_idx: nat, d: nat) -> Option<(nat, nat)>
    decreases 4 - d,
{
    if d >= 4 {
        None
    } else if d == skip {
        pick_other_dirs(dirs, skip, frame_idx, d + 1)
    } else {
        match pick_in_dir(dirs[d as int], frame_idx) {
            Some(f) => Some((d, f)),
            None => pick_other_dirs(dirs, skip, frame_idx, d + 1),
        }
    }
}

/// A frame of one state: from the requested direction if it has one, else
/// from the other directions in order.
pub open spec fn pick_in_state<P>(dirs: Seq<Seq<Option<P>>>, dir: nat, frame_idx: nat) -> Option<(nat, nat)> {
    match pick_in_dir(dirs[dir as int], frame_idx) {
        Some(f) => Some((dir, f)),
        None => pick_other_dirs(dirs, dir, frame_idx, 0),
    }
}

/// The encoded table as nested sequences: state, direction, frame.
pub open spec fn table_view<P>(encoded: [[Vec<Option<P>>; 4]; 5]) -> Seq<Seq<Seq<Option<P>>>> {
    encoded@.map_values(|dirs: [Vec<Option<P>>; 4]| dirs@.map_values(|v: Vec<Option<P>>| v@))
}

/// The frame drawn for a state, direction and frame index: a frame of the
/// requested state if any, else one of the Idle state.
pub open spec fn pick_spec<P>(t: Seq<Seq<Seq<Option<P>>>>, state: nat, dir: nat, frame_idx: nat) -> Option<(nat, nat, nat)> {
    match pick_in_state(t[state as int], dir, frame_idx) {
        Some((d, f)) => Some((state, d, f)),
        None => match pick_in_state(t[0], dir, frame_idx) {
            Some((d, f)) => Some((0, d, f)),
            None => None,
        },
    }
}

/// A requested frame that is present is the one drawn: when the requested
/// state and direction hold `len > 0` frames and frame `frame_idx % len` is
/// there, the pick is that frame, so an animation keeps looping past its
/// last frame.
pub proof fn law_pick_wraps_around<P>(t: Seq<Seq<Seq<Option<P>>>>, state: nat, dir: nat, frame_idx: nat)
    requires
        state < t.len(),
        dir < t[state as int].len(),
        t[state as int][dir as int].len() > 0,
        t[state as int][dir as int][(frame_idx % t[state as int][dir as int].len()) as int] is Some,
    ensures
        pick_spec(t, state, dir, frame_idx) == Some((state, dir, frame_idx % t[state as int][dir as int].len())),
{
}

proof fn lemma_first_present_at<P>(frames: Seq<Option<P>>, i: nat, f: nat)
    requires
        i <= f < frames.len(),
        frames[f as int] is Some,
        forall|j: int| i <= j < f ==> #[trigger] frames[j] is None,
    ensures
        first_present_from(frames, i) == Some(f),
    decreases f - i,
{
    if i < f {
        lemma_first_present_at(frames, i + 1, f);
    }
}

/// When the requested frame is missing, the first present frame of the same
/// direction is drawn.
pub proof fn law_pick_first_present<P>(t: Seq<Seq<Seq<Option<P>>>>, state: nat, dir: nat, frame_idx: nat, f: nat)
    requires
        state < t.len(),
        dir < t[state as int].len(),
        f < t[state as int][dir as int].len(),
        t[state as int][dir as int][(frame_idx % t[state as int][dir as int].len()) as int] is None,
        t[state as int][dir as int][f as int] is Some,
        forall|j: int| 0 <= j < f ==> #[trigger] t[state as int][dir as int][j] is None,
    ensures
        pick_spec(t, state, dir, frame_idx) == Some((state, dir, f)),
{
    lemma_first_present_at(t[state as int][dir as int], 0, f);
}

fn pick_from_dir_index<P>(dir_frames: &Vec<Option<P>>, frame_idx: usize) -> (r: Option<usize>)
    ensures
        match r {
            Some(i) => pick_in_dir(dir_frames@, frame_idx as nat) == Some(i as nat),
            None => pick_in_dir(dir_frames@, frame_idx as nat) is None,
        },
{
    if dir_frames.len() == 0 {
        return None;
    }
    let wrapped = frame_idx % dir_frames.len();
    if dir_frames[wrapped].is_some() {
        return Some(wrapped);
    }
    let mut i: usize = 0;
    while i < dir_frames.len()
        invariant
            i <= dir_frames@.len(),
            dir_frames@.len() > 0,
            dir_frames@[(frame_idx as nat % dir_frames@.len()) as int] is None,
            first_present_from(dir_frames@, 0) == first_present_from(dir_frames@, i as nat),
        decreases dir_frames.len() - i,
    {
        if dir_frames[i].is_some() {
            return Some(i);
        }
        i = i + 1;
    }
    None
}

fn pick_from_state<P>(dirs: &[Vec<Option<P>>; 4], dir_idx: usize, frame_idx: usize) -> (r: Option<(usize, usize)>)
    requires
        dir_idx < 4,
    ensures
        ({
            let v = dirs@.map_values(|v: Vec<Option<P>>| v@);
            match r {
                Some((d, f)) => pick_in_state(v, dir_idx as nat, frame_idx as nat) == Some((d as nat, f as nat)),
                None => pick_in_state(v, dir_idx as nat, frame_idx as nat) is None,
            }
        }),
{
    let ghost v = dirs@.map_values(|v: Vec<Option<P>>| v@);
    assert(v[dir_idx as int] == dirs@[dir_idx as int]@);
    if let Some(fi) = pick_from_dir_index(&dirs[dir_idx], frame_idx) {
        return Some((dir_idx, fi));
    }
    let mut d: usize = 0;
    while d < 4
        invariant
            d <= 4,
            dir_idx < 4,
            v == dirs@.map_values(|v: Vec<Option<P>>| v@),
            pick_in_dir(v[dir_idx as int], frame_idx as nat) is None,
            pick_other_dirs(v, dir_idx as nat, frame_idx as nat, 0) == pick_other_dirs(
                v,
                dir_idx as nat,
                frame_idx as nat,
                d as nat,
            ),
        decreases 4 - d,
    {
        if d != dir_idx {
            assert(v[d as int] == dirs@[d as int]@);
            if let Some(fi) = pick_from_dir_index(&dirs[d], frame_idx) {
                return Some((d, fi));
            }
        }
        d = d + 1;
    }
    None
}

/// Pick a renderable frame from the encoded table `[state][dir][frame]`,
/// with fallbacks: the requested state and direction with the frame index
/// wrapped; any present frame of that direction; the other directions of the
/// state in order; then the same search in the Idle state (index 0).
///
/// The table has 5 states: 0=Idle, 1=Eat, 2=Sleep, 3=Recall, 4=Playing (Hop).
pub fn pick_protocol_index<P>(
    encoded: &[[Vec<Option<P>>; 4]; 5],
    state_idx: usize,
    dir_idx: usize,
    frame_idx: usize,
) -> (r: Option<(usize, usize, usize)>)
    requires
        state_idx < 5,
        dir_idx < 4,
    ensures
        match r {
            Some((s, d, f)) => pick_spec(table_view(*encoded), state_idx as nat, dir_idx as nat, frame_idx as nat)
                == Some((s as nat, d as nat, f as nat)),
            None => pick_spec(table_view(*encoded), state_idx as nat, dir_idx as nat, frame_idx as nat) is None,
        },
{
    let ghost t = table_view(*encoded);
    assert(t[state_idx as int] == encoded@[state_idx as int]@.map_values(|v: Vec<Option<P>>| v@));
    assert(t[0] == encoded@[0]@.map_values(|v: Vec<Option<P>>| v@));
    if let Some((d, f)) = pick_from_state(&encoded[state_idx], dir_idx, frame_idx) {
        return Some((state_idx, d, f));
    }
    if let Some((d, f)) = pick_from_state(&encoded[0], dir_idx, frame_idx) {
        return Some((0, d, f));
    }
    None
}

proof fn lemma_first_present_from<P>(frames: Seq<Option<P>>, i: nat)
    ensures
        first_present_from(frames, i) matches Some(k) ==> i <= k < frames.len() && frames[k as int] is Some,
    decreases frames.len() - i,
{
    if i < frames.len() && frames[i as int] is None {
        lemma_first_present_from(frames, i + 1);
    }
}

proof fn lemma_pick_in_dir<P>(frames: Seq<Option<P>>, frame_idx: nat)
    ensures
        pick_in_dir(frames, frame_idx) matches Some(k) ==> k < frames.len() && frames[k as int] is Some,
{
    lemma_first_present_from(frames, 0);
    if frames.len() > 0 {
        vstd::arithmetic::div_mod::lemma_mod_bound(frame_idx as int, frames.len() as int);
    }
}

proof fn lemma_pick_other_dirs<P>(dirs: Seq<Seq<Option<P>>>, skip: nat, frame_idx: nat, d: nat)
    requires
        dirs.len() == 4,
    ensures
        pick_other_dirs(dirs, skip, frame_idx, d) matches Some((dd, f)) ==> dd < 4 && f < dirs[dd as int].len()
            && dirs[dd as int][f as int] is Some,
    decreases 4 - d,
{
    if d < 4 {
        lemma_pick_in_dir(dirs[d as int], frame_idx);
        lemma_pick_other_dirs(dirs, skip, frame_idx, d + 1);
    }
}

/// Whatever frame is picked exists in the table and is present, so drawing
/// it never indexes out of bounds.
pub proof fn law_picked_frame_present<P>(t: Seq<Seq<Seq<Option<P>>>>, state: nat, dir: nat, frame_idx: nat)
    requires
        t.len() == 5,
        forall|s: int| 0 <= s < 5 ==> (#[trigger] t[s]).len() == 4,
        state < 5,
        dir < 4,
    ensures
        pick_spec(t, state, dir, frame_idx) matches Some((s, d, f)) ==> s < 5 && d < 4 && f < t[s as int][d as int].len()
            && t[s as int][d as int][f as int] is Some,
{
    lemma_pick_in_dir(t[state as int][dir as int], frame_idx);
    lemma_pick_other_dirs(t[state as int], dir, frame_idx, 0);
    lemma_pick_in_dir(t[0][dir as int], frame_idx);
    lemma_pick_other_dirs(t[0], dir, frame_idx, 0);
}

// ───────────────────────── nameplates ─────────────────────────

/// Filled cells (of 8) of the experience bar: progress toward the level's
/// threshold of `50 * level`, capped at 8.
pub open spec fn xp_bar_filled_spec(xp: u32, level: u32) -> nat {
    let threshold = 50 * level;
    if threshold > 0 {
        let f = (xp * 8) / threshold;
        if f < 8 { f as nat } else { 8 }
    } else {
        0
    }
}

pub fn xp_bar_filled(xp: u32, level: u32) -> (f: usize)
    requires
        50 * level <= u32::MAX,
        xp * 8 <= u32::MAX,
    ensures
        f == xp_bar_filled_spec(xp, level),
{
    let threshold = 50 * level;
    if threshold > 0 {
        let f = xp * 8 / threshold;
        if f < 8 { f as usize } else { 8 }
    } else {
        0
    }
}

pub open spec fn repeat(c: char, n: nat) -> Seq<char> {
    Seq::new(n, |_i: int| c)
}

/// The experience bar: `filled` dark cells then light ones, 8 in all.
pub open spec fn xp_bar_spec(filled: nat) -> Seq<char> {
    repeat('▓', filled) + repeat('░', (8 - filled) as nat)
}

fn push_repeated(out: &mut Vec<char>, c: char, n: usize)
    ensures
        final(out)@ == old(out)@ + repeat(c, n as nat),
{
    let ghost start = out@;
    let mut i: usize = 0;
    while i < n
        invariant
            i <= n,
            out@ == start + repeat(c, i as nat),
        decreases n - i,
    {
        out.push(c);
        i = i + 1;
        assert(out@ =~= start + repeat(c, i as nat));
    }
}

/// The second nameplate row: the level, and for a state other than Idle
/// the experience bar and the state's icon.
pub open spec fn level_text_spec(level: u32, xp: u32, state: AnimationState) -> Seq<char> {
    let lv = "Lv."@ + decimal(level as nat);
    let bar = xp_bar_spec(xp_bar_filled_spec(xp, level));
    match state {
        AnimationState::Idle => lv,
        AnimationState::Eating => lv + " ["@ + bar + "] 🍖"@,
        AnimationState::Sleeping => lv + " ["@ + bar + "] 💤"@,
        AnimationState::Playing => lv + " ["@ + bar + "] 🧸"@,
    }
}

/// The level row of a nameplate (see `level_text_spec`).
pub fn level_text(level: u32, xp: u32, state: AnimationState) -> (s: String)
    requires
        50 * level <= u32::MAX,
        xp * 8 <= u32::MAX,
    ensures
        s@ == level_text_spec(level, xp, state),
{
    let mut out: Vec<char> = Vec::new();
    push_str(&mut out, "Lv.");
    let digits = decimal_chars(level as u64);
    push_chars(&mut out, &digits);
    if state == AnimationState::Idle {
        return string_from_chars(&out);
    }
    let filled = xp_bar_filled(xp, level);
    push_str(&mut out, " [");
    push_repeated(&mut out, '▓', filled);
    push_repeated(&mut out, '░', 8 - filled);
    match state {
        AnimationState::Eating => push_str(&mut out, "] 🍖"),
        AnimationState::Sleeping => push_str(&mut out, "] 💤"),
        _ => push_str(&mut out, "] 🧸"),
    }
    let ghost lv = "Lv."@ + decimal(level as nat);
    assert(out@ =~= lv + " ["@ + xp_bar_spec(filled as nat) + match state {
        AnimationState::Eating => "] 🍖"@,
        AnimationState::Sleeping => "] 💤"@,
        _ => "] 🧸"@,
    });
    string_from_chars(&out)
}

/// The Unicode uppercase form of a string, as `str::to_uppercase` computes it.
pub uninterp spec fn uppercase(s: Seq<char>) -> Seq<char>;

/// Calls `str::to_uppercase`; the result is `uppercase` of the argument.
#[verifier::external_body]
fn to_uppercase(s: &str) -> (r: String)
    ensures
        r@ == uppercase(s@),
{
    s.to_uppercase()
}

/// The first nameplate row: a marker for the selected creature, then its
/// name in upper case.
pub fn name_text(name: &str, selected: bool) -> (s: String)
    ensures
        s@ == (if selected { "◉"@ } else { " "@ }) + " "@ + uppercase(name@),
{
    let mut s = if selected { String::from_str("◉") } else { String::from_str(" ") };
    s.append(" ");
    let upper = to_uppercase(name);
    s.append(upper.as_str());
    s
}

/// Nameplate width for rows of the given character counts: the longer row
/// plus the two borders, kept within `[8, SPRITE_W]`.
pub fn label_width(name_chars: usize, level_chars: usize) -> (w: u16)
    requires
        (if name_chars > level_chars { name_chars } else { level_chars }) as u16 + 2 <= u16::MAX,
    ensures
        ({
            let content = ((if name_chars > level_chars { name_chars } else { level_chars }) as u16) + 2;
            w == if content < 8 { 8 } else if content > SPRITE_W { SPRITE_W as int } else { content }
        }),
{
    let longest = if name_chars > level_chars { name_chars } else { level_chars };
    let content = longest as u16 + 2;
    if content < 8 {
        8
    } else if content > SPRITE_W {
        SPRITE_W
    } else {
        content
    }
}

/// How far the toy is pulled into the sprite's cell to close the gap left by
/// transparent padding around the art.
pub const TOY_INSET: i32 = 4;

/// Where the toy of a Playing creature is drawn: beside the sprite on the
/// side it faces, vertically centered on it, when it fits inside the pen.
pub open spec fn toy_position_spec(
    render_x: u16,
    render_y: u16,
    sprite_w: u16,
    sprite_h: u16,
    toy_w: u16,
    toy_h: u16,
    facing_right: bool,
    pen_x: u16,
    pen_y: u16,
    pen_w: u16,
    pen_h: u16,
) -> Option<(int, int)> {
    let y = render_y + (sprite_h as int) / 2 - (toy_h as int) / 2;
    let x = if facing_right { render_x + sprite_w - TOY_INSET } else { render_x - toy_w + TOY_INSET };
    if x >= pen_x && y >= pen_y && x + toy_w <= pen_x + pen_w && y + toy_h <= pen_y + pen_h {
        Some((x, y))
    } else {
        None
    }
}

/// The toy's cell position (see `toy_position_spec`), or `None` when it does
/// not fit in the pen.
pub fn toy_position(
    render_x: u16,
    render_y: u16,
    sprite_w: u16,
    sprite_h: u16,
    toy_w: u16,
    toy_h: u16,
    facing_right: bool,
    pen_x: u16,
    pen_y: u16,
    pen_w: u16,
    pen_h: u16,
) -> (r: Option<(u16, u16)>)
    ensures
        match toy_position_spec(render_x, render_y, sprite_w, sprite_h, toy_w, toy_h, facing_right, pen_x, pen_y, pen_w, pen_h) {
            Some((x, y)) => r == Some((x as u16, y as u16)),
            None => r is None,
        },
{
    let rx = render_x as i32;
    let ry = render_y as i32;
    let sw = sprite_w as i32;
    let sh = sprite_h as i32;
    let tw = toy_w as i32;
    let th = toy_h as i32;
    let toy_mid_y = ry + sh / 2 - th / 2;
    let toy_x = if facing_right { rx + sw - TOY_INSET } else { rx - tw + TOY_INSET };
    let px = pen_x as i32;
    let py = pen_y as i32;
    let fits = toy_x >= px && toy_mid_y >= py && toy_x + tw <= px + pen_w as i32 && toy_mid_y + th <= py + pen_h as i32;
    if fits {
        Some((toy_x as u16, toy_mid_y as u16))
    } else {
        None
    }
}

// ───────────────────────── pen layout ─────────────────────────

/// A grass tile of the pen's floor.
#[derive(Debug, Clone, Copy, PartialEq, Eq, Structural)]
pub enum GrassTile {
    /// A tuft, drawn `"`.
    Tuft,
    /// A blade, drawn `'`.
    Blade,
    /// A flower, drawn `*`.
    Flower,
    /// Bare ground.
    Bare,
}

/// The tile hash of cell (x, y): a multiplicative hash of each coordinate
/// (with `u32` wrap-around), combined by exclusive or.
pub open spec fn grass_hash(x: u16, y: u16) -> u32 {
    (x as u32).wrapping_mul(2_654_435_761u32) ^ (y as u32).wrapping_mul(2_246_822_519u32)
}

pub open spec fn grass_tile_spec(x: u16, y: u16) -> GrassTile {
    let h = grass_hash(x, y) % 9;
    if h == 0 {
        GrassTile::Tuft
    } else if h == 1 {
        GrassTile::Blade
    } else if h == 8 {
        GrassTile::Flower
    } else {
        GrassTile::Bare
    }
}

/// The grass tile at terminal cell (x, y); the same cell always gets the
/// same tile.
pub fn grass_tile(x: u16, y: u16) -> (t: GrassTile)
    ensures
        t == grass_tile_spec(x, y),
{
    let hash = (x as u32).wrapping_mul(2_654_435_761) ^ (y as u32).wrapping_mul(2_246_822_519);
    match hash % 9 {
        0 => GrassTile::Tuft,
        1 => GrassTile::Blade,
        8 => GrassTile::Flower,
        _ => GrassTile::Bare,
    }
}

/// Where a sprite is drawn: its offset into the pen's inner area, kept so
/// that the sprite (and its nameplate stack) stays inside the area.
pub fn sprite_render_pos(
    inner_x: u16,
    inner_y: u16,
    inner_w: u16,
    inner_h: u16,
    offset_x: u16,
    offset_y: u16,
    sprite_w: u16,
    sprite_h: u16,
) -> (p: (u16, u16))
    requires
        inner_x + offset_x <= u16::MAX,
        inner_y + offset_y <= u16::MAX,
        inner_x + inner_w <= u16::MAX,
        inner_y + inner_h <= u16::MAX,
        sprite_h + LABEL_H <= u16::MAX,
    ensures
        ({
            let max_x = inner_x + if inner_w > sprite_w { inner_w - sprite_w } else { 0 };
            let stack = sprite_h + LABEL_H - LABEL_OVERLAP;
            let max_y = inner_y + if inner_h > stack { inner_h - stack } else { 0 };
            &&& p.0 == if inner_x + offset_x < max_x { inner_x + offset_x } else { max_x }
            &&& p.1 == if inner_y + offset_y < max_y { inner_y + offset_y } else { max_y }
        }),
{
    let x = inner_x + offset_x;
    let max_x = inner_x + inner_w.saturating_sub(sprite_w);
    let stack = sprite_stack_h(sprite_h);
    let y = inner_y + offset_y;
    let max_y = inner_y + inner_h.saturating_sub(stack);
    (if x < max_x { x } else { max_x }, if y < max_y { y } else { max_y })
}

/// Where a creature's nameplate goes: centered under the sprite's drawn
/// width, just below the sprite, or `None` when it would reach past the
/// pen's bottom row `pen_bottom` (exclusive).
pub fn label_position(
    render_x: u16,
    render_y: u16,
    drawn_w: u16,
    label_w: u16,
    sprite_h: u16,
    pen_bottom: u16,
) -> (r: Option<(u16, u16)>)
    requires
        render_x + drawn_w <= u16::MAX,
        render_y + sprite_h + LABEL_H <= u16::MAX,
    ensures
        ({
            let x = render_x + (if drawn_w > label_w { (drawn_w - label_w) as int } else { 0 }) / 2;
            let y = render_y + sprite_h - LABEL_OVERLAP;
            &&& y + LABEL_H <= pen_bottom ==> r == Some((x as u16, y as u16))
            &&& y + LABEL_H > pen_bottom ==> r is None
        }),
{
    let x = render_x + drawn_w.saturating_sub(label_w) / 2;
    let y = render_y + sprite_h.saturating_sub(LABEL_OVERLAP);
    if y + LABEL_H <= pen_bottom {
        Some((x, y))
    } else {
        None
    }
}

/// How the slot of a swap in progress is drawn.
#[derive(Debug, Clone, Copy, PartialEq, Eq, Structural)]
pub enum RecallDisplay {
    /// The recall animation, at this frame.
    Spinning { frame: usize },
    /// The recall animation shrinking away: this many ticks into the
    /// shrink, at this frame; the sprite flashes white on even ticks.
    Shrinking { frame: usize, phase: u8, flash: bool },
    /// Recall is over and the new creature is still loading: a waiting ball.
    WaitingBall,
    /// Recall is over and the new creature has arrived: drawn normally.
    Normal,
}

/// What a swapping slot shows with `recall_ticks` of the recall left and
/// the loader done or not: the recall frame counts the ticks elapsed, and
/// the sprite shrinks after `RECALL_FLASH_SHRINK_DELAY_TICKS` of them.
pub fn recall_display(recall_ticks: u8, worker_done: bool) -> (d: RecallDisplay)
    ensures
        ({
            let elapsed = if RECALL_TICKS > recall_ticks { RECALL_TICKS - recall_ticks } else { 0 };
            &&& recall_ticks > 0 && elapsed < RECALL_FLASH_SHRINK_DELAY_TICKS ==> d == RecallDisplay::Spinning { frame: elapsed as usize }
            &&& recall_ticks > 0 && elapsed >= RECALL_FLASH_SHRINK_DELAY_TICKS ==> d == RecallDisplay::Shrinking {
                frame: elapsed as usize,
                phase: (elapsed - RECALL_FLASH_SHRINK_DELAY_TICKS) as u8,
                flash: (elapsed - RECALL_FLASH_SHRINK_DELAY_TICKS) % 2 == 0,
            }
            &&& recall_ticks == 0 && !worker_done ==> d == RecallDisplay::WaitingBall
            &&& recall_ticks == 0 && worker_done ==> d == RecallDisplay::Normal
        }),
{
    if recall_ticks > 0 {
        let elapsed = RECALL_TICKS.saturating_sub(recall_ticks);
        if elapsed >= RECALL_FLASH_SHRINK_DELAY_TICKS {
            let phase = elapsed - RECALL_FLASH_SHRINK_DELAY_TICKS;
            RecallDisplay::Shrinking { frame: elapsed as usize, phase, flash: phase % 2 == 0 }
        } else {
            RecallDisplay::Spinning { frame: elapsed as usize }
        }
    } else if !worker_done {
        RecallDisplay::WaitingBall
    } else {
        RecallDisplay::Normal
    }
}

// ───────────────────────── status panel ─────────────────────────

pub open spec fn state_label_spec(s: AnimationState) -> Seq<char> {
    match s {
        AnimationState::Idle => "Idle"@,
        AnimationState::Eating => "Nomming 🍖"@,
        AnimationState::Sleeping => "Sleeping 💤"@,
        AnimationState::Playing => "Playing 🧸"@,
    }
}

/// How the status panel names the selected creature's state.
pub fn state_label(s: AnimationState) -> (l: &'static str)
    ensures
        l@ == state_label_spec(s),
{
    match s {
        AnimationState::Idle => "Idle",
        AnimationState::Eating => "Nomming 🍖",
        AnimationState::Sleeping => "Sleeping 💤",
        AnimationState::Playing => "Playing 🧸",
    }
}

pub open spec fn notification_prefix_spec(level: NotifLevel) -> Seq<char> {
    match level {
        NotifLevel::Error => "[Error] "@,
        NotifLevel::Warn => "[Warn]  "@,
        NotifLevel::Info => "[Info]  "@,
    }
}

/// The tag that starts a notification line.
pub fn notification_prefix(level: NotifLevel) -> (p: &'static str)
    ensures
        p@ == notification_prefix_spec(level),
{
    match level {
        NotifLevel::Error => "[Error] ",
        NotifLevel::Warn => "[Warn]  ",
        NotifLevel::Info => "[Info]  ",
    }
}

/// How many recent notifications the status panel shows: one while a
/// transition line takes a row, else two.
pub fn notification_rows(transition_active: bool) -> (n: usize)
    ensures
        n == if transition_active { 1usize } else { 2usize },
{
    if transition_active { 1 } else { 2 }
}

/// The status line of a swap in progress: the outgoing creature while it is
/// being recalled, then the incoming one while it loads.
pub fn swap_status(recall_ticks: u8, outgoing: &str, target: &str) -> (s: String)
    ensures
        s@ == if recall_ticks > 0 { "Recalling "@ + outgoing@ + "..."@ } else { "Loading "@ + target@ + "..."@ },
{
    let mut s = if recall_ticks > 0 { String::from_str("Recalling ") } else { String::from_str("Loading ") };
    if recall_ticks > 0 {
        s.append(outgoing);
    } else {
        s.append(target);
    }
    s.append("...");
    s
}

} // verus!
