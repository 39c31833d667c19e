//! Where the text-art game draws things on the terminal: which sprite rows
//! fit on screen, where an animal's name goes, the state icons and the help
//! line. Writing to the terminal belongs to the terminal side.
use crate::animal::AnimalState;
use vstd::prelude::*;

verus! {

pub open spec fn state_indicator_spec(s: AnimalState) -> Seq<char> {
    match s {
        AnimalState::Idle => "🧍"@,
        AnimalState::Sleeping => "😴"@,
        AnimalState::Playing => "🎾"@,
        AnimalState::Walking => "🚶"@,
    }
}

/// The icon shown after an animal's name for its state.
pub fn state_indicator(s: AnimalState) -> (r: &'static str)
    ensures
        r@ == state_indicator_spec(s),
{
    match s {
        AnimalState::Idle => "🧍",
        AnimalState::Sleeping => "😴",
        AnimalState::Playing => "🎾",
        AnimalState::Walking => "🚶",
    }
}

/// The key help shown on the bottom row.
pub fn help_text() -> (r: &'static str)
    ensures
        r@ == "Q: Quit  P: Pause  R: Reset"@,
{
    "Q: Quit  P: Pause  R: Reset"
}

/// How many of a sprite's `lines` rows, drawn downward from row `y`, fit
/// on a screen `height` rows tall: drawing stops at the first row that
/// would fall off the bottom.
pub fn visible_rows(y: u16, height: u16, lines: usize) -> (n: usize)
    ensures
        y >= height ==> n == 0,
        y < height ==> n == if lines < height - y { lines as int } else { height - y },
{
    if y >= height {
        return 0;
    }
    let room = (height - y) as usize;
    if lines < room {
        lines
    } else {
        room
    }
}

/// The row of an animal's name label: the one above the sprite, when the
/// sprite starts below the second row; otherwise no label is drawn.
pub fn name_row(y: u16) -> (r: Option<u16>)
    ensures
        y > 1 ==> r == Some((y - 1) as u16),
        y <= 1 ==> r is None,
{
    if y > 1 {
        Some(y - 1)
    } else {
        None
    }
}

/// The row of the help line: the bottom one.
pub fn help_row(height: u16) -> (r: u16)
    ensures
        r == if height > 0 { height - 1 } else { 0 },
{
    height.saturating_sub(1)
}

} // verus!
