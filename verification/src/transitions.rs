//! Decisions around background creature loads: whether an add or a swap may
//! start, how the recall countdown of a swap runs, and where a finished load
//! lands in the roster. The loads themselves run on worker threads.
use crate::config::MAX_ACTIVE_CREATURES;
use crate::creatures::{find_by_id, roster_lookup_id, CreatureDef};
use crate::text::{decimal, decimal_chars, push_chars, push_str, string_from_chars};
use vstd::prelude::*;

verus! {

/// Why an add or a swap request was turned down.
#[derive(Debug, Clone, Copy, PartialEq, Eq, Structural)]
pub enum LoadRefusal {
    /// The pen already holds `MAX_ACTIVE_CREATURES` creatures.
    PenFull,
    /// No creature of the roster has this Pokédex number.
    UnknownCreature(u32),
}

pub open spec fn refusal_text(r: LoadRefusal) -> Seq<char> {
    match r {
        LoadRefusal::PenFull => "Pen is full — remove a creature first"@,
        LoadRefusal::UnknownCreature(id) => "#"@ + decimal(id as nat) + " is not a known Pokémon"@,
    }
}

impl LoadRefusal {
    /// The warning shown for this refusal.
    pub fn message(self) -> (s: String)
        ensures
            s@ == refusal_text(self),
    {
        match self {
            LoadRefusal::PenFull => String::from_str("Pen is full — remove a creature first"),
            LoadRefusal::UnknownCreature(id) => {
                let mut out: Vec<char> = Vec::new();
                push_str(&mut out, "#");
                let digits = decimal_chars(id as u64);
                push_chars(&mut out, &digits);
                push_str(&mut out, " is not a known Pokémon");
                string_from_chars(&out)
            },
        }
    }
}

/// Whether an add of Pokédex number `id` may start while the pen holds
/// `slot_count` creatures: refused when the pen is full, then when the
/// number is not in the roster; otherwise the creature to load.
pub fn add_request(slot_count: usize, id: u32) -> (r: Result<CreatureDef, LoadRefusal>)
    ensures
        slot_count >= MAX_ACTIVE_CREATURES ==> r == Err::<CreatureDef, LoadRefusal>(LoadRefusal::PenFull),
        slot_count < MAX_ACTIVE_CREATURES ==> match roster_lookup_id(id) {
            Some(c) => r is Ok && r->Ok_0.view() == c,
            None => r == Err::<CreatureDef, LoadRefusal>(LoadRefusal::UnknownCreature(id)),
        },
{
    if slot_count >= MAX_ACTIVE_CREATURES {
        return Err(LoadRefusal::PenFull);
    }
    swap_request(id)
}

/// Whether a swap to Pokédex number `id` may start: refused when the number
/// is not in the roster; otherwise the creature to load.
pub fn swap_request(id: u32) -> (r: Result<CreatureDef, LoadRefusal>)
    ensures
        match roster_lookup_id(id) {
            Some(c) => r is Ok && r->Ok_0.view() == c,
            None => r == Err::<CreatureDef, LoadRefusal>(LoadRefusal::UnknownCreature(id)),
        },
{
    match find_by_id(id) {
        Some(c) => Ok(c),
        None => Err(LoadRefusal::UnknownCreature(id)),
    }
}

/// One tick of a swap's recall animation: the countdown steps down to zero,
/// and the loaded creature is applied once the countdown has reached zero
/// and the worker's result is there. Returns the new countdown and whether
/// to apply the result now.
pub fn recall_tick(recall_ticks: u8, result_ready: bool) -> (r: (u8, bool))
    ensures
        r.0 == if recall_ticks > 0 { recall_ticks - 1 } else { 0 },
        r.1 == (r.0 == 0 && result_ready),
{
    let ticks = if recall_ticks > 0 { recall_ticks - 1 } else { 0 };
    (ticks, ticks == 0 && result_ready)
}

/// Put a creature loaded by a swap into its slot, when that slot still exists.
pub fn finish_swap<T>(slots: &mut Vec<T>, slot_index: usize, slot: T) -> (applied: bool)
    ensures
        applied == (slot_index < old(slots)@.len()),
        applied ==> final(slots)@ == old(slots)@.update(slot_index as int, slot),
        !applied ==> final(slots)@ == old(slots)@,
{
    if slot_index < slots.len() {
        slots.set(slot_index, slot);
        true
    } else {
        false
    }
}

/// Put a creature loaded by an add at the end of the roster, when the pen
/// still has room; otherwise the result is dropped.
pub fn finish_add<T>(slots: &mut Vec<T>, slot: T) -> (added: bool)
    ensures
        added == (old(slots)@.len() < MAX_ACTIVE_CREATURES),
        added ==> final(slots)@ == old(slots)@.push(slot),
        !added ==> final(slots)@ == old(slots)@,
{
    if slots.len() < MAX_ACTIVE_CREATURES {
        slots.push(slot);
        true
    } else {
        false
    }
}

/// Whether a finished startup load still belongs where it was started: its
/// slot exists and still holds the creature it was started for (the slot
/// may have been swapped meanwhile).
pub fn startup_load_applies(slot_index: usize, expected_id: u32, slot_ids: &Vec<u32>) -> (b: bool)
    ensures
        b == (slot_index < slot_ids@.len() && slot_ids@[slot_index as int] == expected_id),
{
    slot_index < slot_ids.len() && slot_ids[slot_index] == expected_id
}

pub open spec fn level_up_text(name: Seq<char>, level: u32) -> Seq<char> {
    name + " leveled up! Now level "@ + decimal(level as nat) + " ✨"@
}

/// The notification posted when a creature reaches a new level.
pub fn level_up_message(name: &str, level: u32) -> (s: String)
    ensures
        s@ == level_up_text(name@, level),
{
    let mut out: Vec<char> = Vec::new();
    push_str(&mut out, name);
    push_str(&mut out, " leveled up! Now level ");
    let digits = decimal_chars(level as u64);
    push_chars(&mut out, &digits);
    push_str(&mut out, " ✨");
    string_from_chars(&out)
}

} // verus!
