//! Per-creature constants, facing directions and experience levels.
use vstd::prelude::*;

verus! {

/// Maximum frames to cache per animation. If the sprite sheet has more,
/// evenly-spaced frames are sampled so the animation still looks smooth.
pub const MAX_CACHED_FRAMES: usize = 8;

/// Fixed sprite render width in terminal cells.
pub const SPRITE_W: u16 = 32;
/// Sprite height for image-protocol terminals (Kitty/Sixel/iTerm2).
pub const SPRITE_H: u16 = 10;
/// Sprite height for halfblock terminals: 16 rows × 2 pixel rows per row,
/// matching the 32 columns for a square canvas.
pub const SPRITE_H_HALFBLOCKS: u16 = 16;

/// Nameplate height: top border + 2 content rows + bottom border.
pub const LABEL_H: u16 = 4;
/// Rows by which the nameplate overlaps the sprite.
pub const LABEL_OVERLAP: u16 = 0;
/// Ticks a recall (swap-out) animation lasts.
pub const RECALL_TICKS: u8 = 18;
/// Ticks into the recall before the sprite starts to flash and shrink.
pub const RECALL_FLASH_SHRINK_DELAY_TICKS: u8 = 10;

/// Cardinal direction a creature is facing.
///
/// The index value corresponds to the direction row used for array lookups:
/// 0=Down, 1=Left, 2=Up, 3=Right.
#[derive(Debug, Clone, Copy, PartialEq, Eq, Structural)]
pub enum Direction {
    Down,
    Left,
    Up,
    Right,
}

pub open spec fn direction_index(d: Direction) -> nat {
    match d {
        Direction::Down => 0,
        Direction::Left => 1,
        Direction::Up => 2,
        Direction::Right => 3,
    }
}

impl Direction {
    /// Return the array index for this direction (0–3).
    pub fn as_index(self) -> (i: usize)
        ensures
            i == direction_index(self),
    {
        match self {
            Direction::Down => 0,
            Direction::Left => 1,
            Direction::Up => 2,
            Direction::Right => 3,
        }
    }
}

/// Distinct directions use distinct rows, all below 4.
pub proof fn law_direction_index_distinct(a: Direction, b: Direction)
    ensures
        direction_index(a) < 4,
        a != b ==> direction_index(a) != direction_index(b),
{
}

/// Height of a sprite together with its nameplate.
pub fn sprite_stack_h(sprite_h: u16) -> (h: u16)
    requires
        sprite_h + LABEL_H <= u16::MAX,
    ensures
        h == sprite_h + LABEL_H - LABEL_OVERLAP,
{
    sprite_h + LABEL_H - LABEL_OVERLAP
}

/// Experience needed to leave `level`: 50 per level.
pub open spec fn xp_threshold(level: u32) -> int {
    50 * level
}

/// Cash in a level-up: once `xp` reaches the threshold of the current level,
/// the creature advances one level and its experience restarts at 0.
/// Returns the new level when that happens.
pub fn apply_level_up(xp: &mut u32, level: &mut u32) -> (r: Option<u32>)
    requires
        xp_threshold(*old(level)) <= u32::MAX,
    ensures
        *old(xp) >= xp_threshold(*old(level)) ==> *final(xp) == 0 && *final(level) == *old(level) + 1
            && r == Some(*final(level)),
        *old(xp) < xp_threshold(*old(level)) ==> *final(xp) == *old(xp) && *final(level) == *old(level)
            && r is None,
{
    let threshold = 50 * *level;
    if *xp >= threshold {
        *xp = 0;
        *level = *level + 1;
        return Some(*level);
    }
    None
}

/// The movement timers of a creature: the cooldown before its facing may
/// change again, the ticks left standing in a pause, the ticks left on the
/// current heading, and whether it faces the viewer while paused.
#[derive(Debug, Clone, Copy, PartialEq, Eq, Structural)]
pub struct MovementTimers {
    pub dir_cooldown_ticks: u8,
    pub pause_ticks: u32,
    pub dir_hold_ticks: u32,
    pub pause_face_down: bool,
}

/// What a creature does on one movement tick.
#[derive(Debug, Clone, Copy, PartialEq, Eq, Structural)]
pub enum MovementStep {
    /// Stands still in a pause; facing down when `face_down`.
    Paused { face_down: bool },
    /// The pause just ended: it stands this tick and then walks on, facing
    /// its heading, with a cooldown of 3 ticks before the facing changes.
    Resume,
    /// The heading ran out: pick a new one.
    NewHeading,
    /// Walk on along the current heading.
    Walk,
}

/// The timers and step after one movement tick (see `movement_tick`).
pub open spec fn movement_tick_spec(t: MovementTimers) -> (MovementTimers, MovementStep) {
    let cooldown = if t.dir_cooldown_ticks > 0 { (t.dir_cooldown_ticks - 1) as u8 } else { 0u8 };
    if t.pause_ticks > 1 {
        (
            MovementTimers { dir_cooldown_ticks: cooldown, pause_ticks: (t.pause_ticks - 1) as u32, ..t },
            MovementStep::Paused { face_down: t.pause_face_down },
        )
    } else if t.pause_ticks == 1 {
        (
            MovementTimers { dir_cooldown_ticks: 3, pause_ticks: 0, dir_hold_ticks: t.dir_hold_ticks, pause_face_down: false },
            MovementStep::Resume,
        )
    } else if t.dir_hold_ticks == 0 {
        (MovementTimers { dir_cooldown_ticks: cooldown, ..t }, MovementStep::NewHeading)
    } else {
        (MovementTimers { dir_cooldown_ticks: cooldown, dir_hold_ticks: (t.dir_hold_ticks - 1) as u32, ..t }, MovementStep::Walk)
    }
}

/// Run the timers of one movement tick: the facing cooldown counts down;
/// a pause counts down and ends (with `Resume`) when it reaches zero;
/// otherwise the heading's ticks count down, and a new heading is due when
/// none are left.
pub fn movement_tick(t: MovementTimers) -> (r: (MovementTimers, MovementStep))
    ensures
        r == movement_tick_spec(t),
{
    let cooldown = if t.dir_cooldown_ticks > 0 { t.dir_cooldown_ticks - 1 } else { 0 };
    if t.pause_ticks > 0 {
        let pause = t.pause_ticks - 1;
        if pause == 0 {
            (
                MovementTimers { dir_cooldown_ticks: 3, pause_ticks: 0, dir_hold_ticks: t.dir_hold_ticks, pause_face_down: false },
                MovementStep::Resume,
            )
        } else {
            (
                MovementTimers { dir_cooldown_ticks: cooldown, pause_ticks: pause, ..t },
                MovementStep::Paused { face_down: t.pause_face_down },
            )
        }
    } else if t.dir_hold_ticks == 0 {
        (MovementTimers { dir_cooldown_ticks: cooldown, ..t }, MovementStep::NewHeading)
    } else {
        (MovementTimers { dir_cooldown_ticks: cooldown, dir_hold_ticks: t.dir_hold_ticks - 1, ..t }, MovementStep::Walk)
    }
}

} // verus!
