//! Keyboard controls and roster selection: what each key press asks of the
//! game, the Pokédex-number prompt, and how the selected slot moves.
use crate::animation::AnimationState;
use crate::config::MAX_ACTIVE_CREATURES;
use crate::text::{is_ascii_digit, parse_u32, parse_u32_range, trim, trim_range};
use vstd::prelude::*;

verus! {

/// Which prompt dialog is currently showing.
#[derive(Debug, Clone, Copy, PartialEq, Eq, Structural)]
pub enum PromptMode {
    /// No prompt — normal gameplay.
    Closed,
    /// "Add a Pokémon" prompt — typing a Pokédex number.
    Add,
    /// "Swap selected Pokémon" prompt — typing a Pokédex number.
    Swap,
}

/// Most digits the prompt accepts.
pub const PROMPT_MAX_DIGITS: usize = 4;

/// The Pokédex-number prompt: its mode and the digits typed so far.
pub struct Prompt {
    pub mode: PromptMode,
    pub digits: Vec<char>,
}

impl Prompt {
    /// A closed prompt with nothing typed.
    pub fn new() -> (p: Self)
        ensures
            p.mode == PromptMode::Closed,
            p.digits@.len() == 0,
    {
        Prompt { mode: PromptMode::Closed, digits: Vec::new() }
    }

    /// At most four characters, all ASCII digits.
    pub open spec fn well_formed(&self) -> bool {
        &&& self.digits@.len() <= PROMPT_MAX_DIGITS
        &&& forall|i: int| 0 <= i < self.digits@.len() ==> #[trigger] is_ascii_digit(self.digits@[i])
    }
}

/// A key press, as the game distinguishes them.
#[derive(Debug, Clone, Copy, PartialEq, Eq, Structural)]
pub enum Key {
    Char(char),
    Enter,
    Esc,
    Backspace,
    Tab,
    Left,
    Right,
    Other,
}

/// What a key press asks the game to do.
#[derive(Debug, Clone, Copy, PartialEq, Eq, Structural)]
pub enum Command {
    /// Nothing beyond any change to the prompt.
    Nothing,
    Quit,
    /// Put the selected creature into this animation state.
    SetState(AnimationState),
    /// Remove the selected creature.
    Remove,
    SelectNext,
    SelectPrev,
    /// Select the slot at this index.
    SelectSlot(usize),
    /// Add the creature with this Pokédex number.
    Add(u32),
    /// Swap the selected creature to the one with this Pokédex number.
    Swap(u32),
    /// Show this warning.
    Warn(Warning),
}

/// Warnings that key handling can raise.
#[derive(Debug, Clone, Copy, PartialEq, Eq, Structural)]
pub enum Warning {
    /// Enter was pressed on a prompt holding no valid number.
    InvalidNumber,
    /// Add was pressed while a creature is still loading.
    WaitForLoad,
    /// Swap was pressed while a creature is still loading.
    LoadInProgress,
}

pub open spec fn warning_text(w: Warning) -> Seq<char> {
    match w {
        Warning::InvalidNumber => "Invalid Pokédex number — enter digits only"@,
        Warning::WaitForLoad => "Please wait for the current load to finish"@,
        Warning::LoadInProgress => "A creature load is already in progress"@,
    }
}

impl Warning {
    /// The text shown for this warning.
    pub fn message(self) -> (s: &'static str)
        ensures
            s@ == warning_text(self),
    {
        match self {
            Warning::InvalidNumber => "Invalid Pokédex number — enter digits only",
            Warning::WaitForLoad => "Please wait for the current load to finish",
            Warning::LoadInProgress => "A creature load is already in progress",
        }
    }
}

/// The command and prompt a key press leads to while the prompt is open.
pub open spec fn prompt_key_spec(mode: PromptMode, digits: Seq<char>, key: Key) -> (Command, PromptMode, Seq<char>) {
    match key {
        Key::Esc => (Command::Nothing, PromptMode::Closed, seq![]),
        Key::Enter => match parse_u32(trim(digits)) {
            Some(id) => (
                if mode == PromptMode::Add { Command::Add(id) } else { Command::Swap(id) },
                PromptMode::Closed,
                seq![],
            ),
            None => (Command::Nothing, PromptMode::Closed, seq![]),
        },
        Key::Backspace => (Command::Nothing, mode, if digits.len() > 0 { digits.drop_last() } else { digits }),
        Key::Char(c) => if is_ascii_digit(c) && digits.len() < PROMPT_MAX_DIGITS {
            (Command::Nothing, mode, digits.push(c))
        } else {
            (Command::Nothing, mode, digits)
        },
        _ => (Command::Nothing, mode, digits),
    }
}

/// The command a key press leads to during normal play (no prompt open).
pub open spec fn play_key_command(key: Key, busy: bool, slot_count: nat) -> Command {
    match key {
        Key::Char(c) => {
            if c == 'q' || c == 'Q' { Command::Quit }
            else if c == 'e' || c == 'E' { Command::SetState(AnimationState::Eating) }
            else if c == 's' || c == 'S' { Command::SetState(AnimationState::Sleeping) }
            else if c == 'i' || c == 'I' { Command::SetState(AnimationState::Idle) }
            else if c == 'p' || c == 'P' { Command::SetState(AnimationState::Playing) }
            else if c == 'a' || c == 'A' { if busy { Command::Warn(Warning::WaitForLoad) } else { Command::Nothing } }
            else if c == 'r' || c == 'R' { Command::Remove }
            else if '1' <= c && c <= '6' { Command::SelectSlot((c as int - '1' as int) as usize) }
            else { Command::Nothing }
        },
        Key::Esc => Command::Quit,
        Key::Tab => if busy { Command::Warn(Warning::LoadInProgress) } else { Command::Nothing },
        Key::Right => Command::SelectNext,
        Key::Left => Command::SelectPrev,
        _ => Command::Nothing,
    }
}

/// The prompt mode a key press opens during normal play, if any.
pub open spec fn play_key_opens(key: Key, busy: bool, slot_count: nat) -> PromptMode {
    match key {
        Key::Char(c) => if (c == 'a' || c == 'A') && !busy && slot_count < MAX_ACTIVE_CREATURES {
            PromptMode::Add
        } else {
            PromptMode::Closed
        },
        Key::Tab => if busy { PromptMode::Closed } else { PromptMode::Swap },
        _ => PromptMode::Closed,
    }
}

/// During play a command letter means the same in either case: for every
/// lowercase letter `c` and its uppercase form `u`, the key presses give the
/// same command and open the same prompt.
pub proof fn law_play_keys_ignore_case(c: char, u: char, busy: bool, slot_count: nat)
    requires
        'a' <= c <= 'z',
        u as int == c as int - 32,
    ensures
        play_key_command(Key::Char(c), busy, slot_count) == play_key_command(Key::Char(u), busy, slot_count),
        play_key_opens(Key::Char(c), busy, slot_count) == play_key_opens(Key::Char(u), busy, slot_count),
{
}

/// The letters of play: Q quits, E feeds, S puts to sleep, I idles, P plays,
/// R removes, A adds (or warns while a load is running), and 1 to 6 select a
/// slot.
pub proof fn law_play_letters(busy: bool, slot_count: nat)
    ensures
        play_key_command(Key::Char('q'), busy, slot_count) == Command::Quit,
        play_key_command(Key::Char('e'), busy, slot_count) == Command::SetState(AnimationState::Eating),
        play_key_command(Key::Char('s'), busy, slot_count) == Command::SetState(AnimationState::Sleeping),
        play_key_command(Key::Char('i'), busy, slot_count) == Command::SetState(AnimationState::Idle),
        play_key_command(Key::Char('p'), busy, slot_count) == Command::SetState(AnimationState::Playing),
        play_key_command(Key::Char('r'), busy, slot_count) == Command::Remove,
        play_key_command(Key::Char('a'), busy, slot_count) == if busy {
            Command::Warn(Warning::WaitForLoad)
        } else {
            Command::Nothing
        },
        forall|c: char| '1' <= c <= '6' ==> #[trigger] play_key_command(Key::Char(c), busy, slot_count)
            == Command::SelectSlot((c as int - '1' as int) as usize),
{
}

fn digits_value(digits: &Vec<char>) -> (r: Option<u32>)
    ensures
        r == parse_u32(trim(digits@)),
{
    let (a, b) = trim_range(digits, 0, digits.len());
    assert(digits@.subrange(0, digits@.len() as int) =~= digits@);
    parse_u32_range(digits, a, b)
}

/// Handle one key press.
///
/// While a prompt is open it takes every key: digits (up to four) are typed,
/// Backspace erases, Esc cancels, and Enter closes it and asks to add or
/// swap in the typed Pokédex number, or warns when nothing valid was typed.
/// Otherwise keys map to game commands; `A` and Tab open the add and swap
/// prompts, unless a creature is still loading (`busy`), and `A` only while
/// the pen has room.
pub fn handle_key(prompt: &mut Prompt, key: Key, busy: bool, slot_count: usize) -> (c: Command)
    ensures
        old(prompt).mode != PromptMode::Closed ==> ({
            let (cmd, mode, digits) = prompt_key_spec(old(prompt).mode, old(prompt).digits@, key);
            &&& final(prompt).mode == mode
            &&& final(prompt).digits@ == digits
            &&& (key == Key::Enter && parse_u32(trim(old(prompt).digits@)) is None ==> c == Command::Warn(Warning::InvalidNumber))
            &&& !(key == Key::Enter && parse_u32(trim(old(prompt).digits@)) is None) ==> c == cmd
        }),
        old(prompt).mode == PromptMode::Closed ==> ({
            let opens = play_key_opens(key, busy, slot_count as nat);
            &&& c == play_key_command(key, busy, slot_count as nat)
            &&& final(prompt).mode == opens
            &&& (opens != PromptMode::Closed ==> final(prompt).digits@.len() == 0)
            &&& (opens == PromptMode::Closed ==> final(prompt).digits@ == old(prompt).digits@)
        }),
        old(prompt).well_formed() ==> final(prompt).well_formed(),
{
    if prompt.mode != PromptMode::Closed {
        match key {
            Key::Esc => {
                prompt.mode = PromptMode::Closed;
                prompt.digits.clear();
                Command::Nothing
            },
            Key::Enter => {
                let mode = prompt.mode;
                let value = digits_value(&prompt.digits);
                prompt.mode = PromptMode::Closed;
                prompt.digits.clear();
                match value {
                    Some(id) => if mode == PromptMode::Add {
                        Command::Add(id)
                    } else {
                        Command::Swap(id)
                    },
                    None => Command::Warn(Warning::InvalidNumber),
                }
            },
            Key::Backspace => {
                let ghost before = prompt.digits@;
                prompt.digits.pop();
                proof {
                    if before.len() > 0 {
                        assert(prompt.digits@ =~= before.drop_last());
                    }
                }
                Command::Nothing
            },
            Key::Char(c) => {
                if '0' <= c && c <= '9' && prompt.digits.len() < PROMPT_MAX_DIGITS {
                    prompt.digits.push(c);
                }
                Command::Nothing
            },
            _ => Command::Nothing,
        }
    } else {
        match key {
            Key::Char(c) => {
                if c == 'q' || c == 'Q' {
                    Command::Quit
                } else if c == 'e' || c == 'E' {
                    Command::SetState(AnimationState::Eating)
                } else if c == 's' || c == 'S' {
                    Command::SetState(AnimationState::Sleeping)
                } else if c == 'i' || c == 'I' {
                    Command::SetState(AnimationState::Idle)
                } else if c == 'p' || c == 'P' {
                    Command::SetState(AnimationState::Playing)
                } else if c == 'a' || c == 'A' {
                    if busy {
                        Command::Warn(Warning::WaitForLoad)
                    } else {
                        if slot_count < MAX_ACTIVE_CREATURES {
                            prompt.mode = PromptMode::Add;
                            prompt.digits.clear();
                        }
                        Command::Nothing
                    }
                } else if c == 'r' || c == 'R' {
                    Command::Remove
                } else if '1' <= c && c <= '6' {
                    Command::SelectSlot((c as u32 - '1' as u32) as usize)
                } else {
                    Command::Nothing
                }
            },
            Key::Esc => Command::Quit,
            Key::Tab => {
                if busy {
                    Command::Warn(Warning::LoadInProgress)
                } else {
                    prompt.mode = PromptMode::Swap;
                    prompt.digits.clear();
                    Command::Nothing
                }
            },
            Key::Right => Command::SelectNext,
            Key::Left => Command::SelectPrev,
            _ => Command::Nothing,
        }
    }
}

// ───────────────────────── selection ─────────────────────────

/// The slot selected after moving right: the next one, wrapping around.
pub fn select_next(selected: usize, len: usize) -> (r: usize)
    requires
        len > 0 ==> selected < usize::MAX,
    ensures
        len > 0 ==> r == (selected + 1) % (len as int),
        len == 0 ==> r == selected,
{
    if len > 0 {
        (selected + 1) % len
    } else {
        selected
    }
}

/// The slot selected after moving left: the previous one, wrapping around.
pub fn select_prev(selected: usize, len: usize) -> (r: usize)
    ensures
        len > 0 ==> r == if selected == 0 { len - 1 } else { selected - 1 },
        len == 0 ==> r == selected,
{
    if len > 0 {
        if selected == 0 {
            len - 1
        } else {
            selected - 1
        }
    } else {
        selected
    }
}

/// The slot selected after choosing `index` directly: it, when it exists.
pub fn select_slot(selected: usize, index: usize, len: usize) -> (r: usize)
    ensures
        r == if index < len { index } else { selected },
{
    if index < len {
        index
    } else {
        selected
    }
}

/// Moving right then left returns to the same slot, and so does moving left
/// then right, for any valid selection.
pub proof fn law_select_next_prev_inverse(selected: usize, len: usize)
    requires
        selected < len,
    ensures
        ({
            let n = ((selected + 1) % (len as int)) as usize;
            (if n == 0 { len - 1 } else { n - 1 }) == selected
        }),
        ({
            let p = (if selected == 0 { len - 1 } else { selected - 1 }) as usize;
            (p + 1) % (len as int) == selected
        }),
{
    lemma_next_index(selected, len);
    let p: int = if selected == 0 { len - 1 } else { selected - 1 };
    lemma_next_index(p as usize, len);
}

proof fn lemma_next_index(selected: usize, len: usize)
    requires
        selected < len,
    ensures
        (selected + 1) % (len as int) == if selected + 1 < len { selected + 1 } else { 0 },
{
    if selected + 1 < len {
        vstd::arithmetic::div_mod::lemma_small_mod((selected + 1) as nat, len as nat);
    } else {
        vstd::arithmetic::div_mod::lemma_mod_self_0(len as int);
    }
}

/// Every selection move keeps a valid selection valid.
pub proof fn law_selection_stays_in_range(selected: usize, index: usize, len: usize)
    requires
        selected < len,
    ensures
        (selected + 1) % (len as int) < len,
        (if selected == 0 { len - 1 } else { selected - 1 }) < len,
        (if index < len { index } else { selected }) < len,
{
    lemma_next_index(selected, len);
}

/// What removing the selected creature did.
#[derive(Debug, Clone, Copy, PartialEq, Eq, Structural)]
pub enum RemoveOutcome {
    /// A creature was still loading; nothing changed.
    Busy,
    /// The roster holds a single creature, which is kept.
    LastCreature,
    /// The selected creature was removed.
    Removed,
}

/// Remove the currently selected slot from the roster.
///
/// Nothing changes while a creature is loading, or when the roster would
/// drop below one creature. After a removal the selection stays on the same
/// index, or moves to the new last slot when it was the last one.
pub fn remove_selected<T>(slots: &mut Vec<T>, selected: &mut usize, busy: bool) -> (r: RemoveOutcome)
    requires
        !busy && old(slots)@.len() > 1 ==> *old(selected) < old(slots)@.len(),
    ensures
        busy ==> r == RemoveOutcome::Busy && final(slots)@ == old(slots)@ && *final(selected) == *old(selected),
        !busy && old(slots)@.len() <= 1 ==> r == RemoveOutcome::LastCreature && final(slots)@ == old(slots)@
            && *final(selected) == *old(selected),
        !busy && old(slots)@.len() > 1 ==> {
            &&& r == RemoveOutcome::Removed
            &&& final(slots)@ == old(slots)@.remove(*old(selected) as int)
            &&& *final(selected) == if *old(selected) < final(slots)@.len() {
                *old(selected)
            } else {
                (final(slots)@.len() - 1) as usize
            }
            &&& *final(selected) < final(slots)@.len()
        },
{
    if busy {
        return RemoveOutcome::Busy;
    }
    if slots.len() <= 1 {
        return RemoveOutcome::LastCreature;
    }
    slots.remove(*selected);
    if *selected >= slots.len() {
        *selected = slots.len() - 1;
    }
    RemoveOutcome::Removed
}

} // verus!
