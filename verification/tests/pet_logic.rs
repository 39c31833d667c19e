use poclimon::animal::{Animal, AnimalState};
use poclimon::animation::AnimationState;
use poclimon::cli::{config_source, Cli, ConfigSource};
use poclimon::controls::{
    handle_key, remove_selected, select_next, select_prev, select_slot, Command, Key, Prompt, PromptMode,
    RemoveOutcome, Warning,
};
use poclimon::creature::{
    apply_level_up, movement_tick, sprite_stack_h, Direction, MovementStep, MovementTimers, RECALL_TICKS,
};
use poclimon::game::{AnimalConfig, Game};
use poclimon::notification::{expire_by_age, expire_notifications, notify, NotifLevel, MAX_NOTIFICATIONS};
use poclimon::render::{help_row, help_text, name_row, state_indicator, visible_rows};
use poclimon::transitions::{
    add_request, finish_add, finish_swap, level_up_message, recall_tick, startup_load_applies, swap_request,
    LoadRefusal,
};
use std::collections::VecDeque;
use std::path::PathBuf;

fn prompt_with(mode: PromptMode, digits: &str) -> Prompt {
    let mut p = Prompt::new();
    p.mode = mode;
    p.digits = digits.chars().collect();
    p
}

#[test]
fn keys_during_play_map_to_commands() {
    let mut p = Prompt::new();
    assert_eq!(handle_key(&mut p, Key::Char('q'), false, 3), Command::Quit);
    assert_eq!(handle_key(&mut p, Key::Esc, false, 3), Command::Quit);
    assert_eq!(handle_key(&mut p, Key::Char('E'), false, 3), Command::SetState(AnimationState::Eating));
    assert_eq!(handle_key(&mut p, Key::Char('s'), false, 3), Command::SetState(AnimationState::Sleeping));
    assert_eq!(handle_key(&mut p, Key::Char('i'), false, 3), Command::SetState(AnimationState::Idle));
    assert_eq!(handle_key(&mut p, Key::Char('p'), false, 3), Command::SetState(AnimationState::Playing));
    assert_eq!(handle_key(&mut p, Key::Char('r'), false, 3), Command::Remove);
    assert_eq!(handle_key(&mut p, Key::Char('3'), false, 3), Command::SelectSlot(2));
    assert_eq!(handle_key(&mut p, Key::Char('7'), false, 3), Command::Nothing);
    assert_eq!(handle_key(&mut p, Key::Right, false, 3), Command::SelectNext);
    assert_eq!(handle_key(&mut p, Key::Left, false, 3), Command::SelectPrev);
    assert_eq!(p.mode, PromptMode::Closed);
}

#[test]
fn add_prompt_collects_digits_and_submits() {
    let mut p = Prompt::new();
    assert_eq!(handle_key(&mut p, Key::Char('a'), false, 2), Command::Nothing);
    assert_eq!(p.mode, PromptMode::Add);
    for c in ['1', 'x', '3', '3', '9', '9'] {
        assert_eq!(handle_key(&mut p, Key::Char(c), false, 2), Command::Nothing);
    }
    // at most four digits, letters ignored
    assert_eq!(p.digits, vec!['1', '3', '3', '9']);
    handle_key(&mut p, Key::Backspace, false, 2);
    assert_eq!(p.digits, vec!['1', '3', '3']);
    assert_eq!(handle_key(&mut p, Key::Enter, false, 2), Command::Add(133));
    assert_eq!(p.mode, PromptMode::Closed);
    assert!(p.digits.is_empty());
}

#[test]
fn prompt_refusals_and_cancel() {
    // busy: A warns, Tab warns
    let mut p = Prompt::new();
    assert_eq!(handle_key(&mut p, Key::Char('a'), true, 2), Command::Warn(Warning::WaitForLoad));
    assert_eq!(handle_key(&mut p, Key::Tab, true, 2), Command::Warn(Warning::LoadInProgress));
    assert_eq!(p.mode, PromptMode::Closed);
    // full pen: A does not open the prompt
    assert_eq!(handle_key(&mut p, Key::Char('A'), false, 6), Command::Nothing);
    assert_eq!(p.mode, PromptMode::Closed);
    // Tab opens the swap prompt; Enter on nothing warns
    assert_eq!(handle_key(&mut p, Key::Tab, false, 6), Command::Nothing);
    assert_eq!(p.mode, PromptMode::Swap);
    assert_eq!(handle_key(&mut p, Key::Enter, false, 6), Command::Warn(Warning::InvalidNumber));
    assert_eq!(Warning::InvalidNumber.message(), "Invalid Pokédex number — enter digits only");
    // Esc cancels
    let mut p = prompt_with(PromptMode::Swap, "25");
    assert_eq!(handle_key(&mut p, Key::Esc, false, 6), Command::Nothing);
    assert_eq!(p.mode, PromptMode::Closed);
    assert!(p.digits.is_empty());
    let mut p = prompt_with(PromptMode::Swap, "25");
    assert_eq!(handle_key(&mut p, Key::Enter, false, 6), Command::Swap(25));
}

#[test]
fn selection_wraps_both_ways() {
    assert_eq!(select_next(2, 3), 0);
    assert_eq!(select_next(0, 3), 1);
    assert_eq!(select_prev(0, 3), 2);
    assert_eq!(select_prev(2, 3), 1);
    assert_eq!(select_next(4, 0), 4);
    assert_eq!(select_slot(1, 2, 3), 2);
    assert_eq!(select_slot(1, 5, 3), 1);
    // a move right undone by a move left
    for s in 0..5 {
        assert_eq!(select_prev(select_next(s, 5), 5), s);
        assert_eq!(select_next(select_prev(s, 5), 5), s);
    }
}

#[test]
fn removing_keeps_at_least_one_creature() {
    let mut slots = vec!['a', 'b', 'c'];
    let mut sel = 2;
    assert_eq!(remove_selected(&mut slots, &mut sel, true), RemoveOutcome::Busy);
    assert_eq!(slots.len(), 3);
    assert_eq!(remove_selected(&mut slots, &mut sel, false), RemoveOutcome::Removed);
    assert_eq!(slots, vec!['a', 'b']);
    assert_eq!(sel, 1);
    sel = 0;
    assert_eq!(remove_selected(&mut slots, &mut sel, false), RemoveOutcome::Removed);
    assert_eq!(slots, vec!['b']);
    assert_eq!(sel, 0);
    assert_eq!(remove_selected(&mut slots, &mut sel, false), RemoveOutcome::LastCreature);
    assert_eq!(slots, vec!['b']);
}

#[test]
fn notification_log_keeps_the_newest_five() {
    let mut log = VecDeque::new();
    for i in 0..7 {
        notify(&mut log, NotifLevel::Info, format!("n{i}"));
    }
    assert_eq!(log.len(), MAX_NOTIFICATIONS);
    let msgs: Vec<&str> = log.iter().map(|n| n.message.as_str()).collect();
    assert_eq!(msgs, vec!["n2", "n3", "n4", "n5", "n6"]);
    notify(&mut log, NotifLevel::Error, "bad".to_string());
    assert_eq!(log.back().unwrap().level, NotifLevel::Error);
}

#[test]
fn expiry_drops_old_entries_in_order() {
    let mut log = VecDeque::new();
    for i in 0..4 {
        notify(&mut log, NotifLevel::Warn, format!("w{i}"));
    }
    expire_by_age(&mut log, &vec![9000, 10, 8000, 7999], 8000);
    let msgs: Vec<&str> = log.iter().map(|n| n.message.as_str()).collect();
    assert_eq!(msgs, vec!["w1", "w3"]);
    // fresh entries survive a generous time to live
    expire_notifications(&mut log, 60_000);
    assert_eq!(log.len(), 2);
    expire_notifications(&mut log, 0);
    assert!(log.is_empty());
}

#[test]
fn add_and_swap_requests() {
    assert!(matches!(add_request(6, 25), Err(LoadRefusal::PenFull)));
    assert!(matches!(add_request(5, 999), Err(LoadRefusal::UnknownCreature(999))));
    assert_eq!(add_request(5, 25).unwrap().name, "Pikachu");
    assert_eq!(swap_request(146).unwrap().name, "Moltres");
    assert!(matches!(swap_request(0), Err(LoadRefusal::UnknownCreature(0))));
    assert_eq!(LoadRefusal::PenFull.message(), "Pen is full — remove a creature first");
    assert_eq!(LoadRefusal::UnknownCreature(151).message(), "#151 is not a known Pokémon");
}

#[test]
fn recall_counts_down_then_applies() {
    let mut ticks = RECALL_TICKS;
    let mut steps = 0;
    loop {
        let (t, apply) = recall_tick(ticks, true);
        ticks = t;
        steps += 1;
        if apply {
            break;
        }
    }
    assert_eq!(steps, RECALL_TICKS as usize);
    assert_eq!(recall_tick(0, false), (0, false));
    assert_eq!(recall_tick(1, false), (0, false));
    assert_eq!(recall_tick(2, true), (1, false));
}

#[test]
fn finished_loads_land_in_the_roster() {
    let mut slots = vec![1, 2, 3];
    assert!(finish_swap(&mut slots, 1, 9));
    assert_eq!(slots, vec![1, 9, 3]);
    assert!(!finish_swap(&mut slots, 3, 7));
    assert!(finish_add(&mut slots, 4));
    assert_eq!(slots, vec![1, 9, 3, 4]);
    let mut full = vec![0; 6];
    assert!(!finish_add(&mut full, 1));
    assert_eq!(full.len(), 6);
    assert!(startup_load_applies(1, 9, &slots));
    assert!(!startup_load_applies(1, 2, &slots));
    assert!(!startup_load_applies(4, 4, &slots));
}

#[test]
fn level_up_after_fifty_xp_per_level() {
    let (mut xp, mut level) = (99u32, 2u32);
    assert_eq!(apply_level_up(&mut xp, &mut level), None);
    assert_eq!((xp, level), (99, 2));
    xp = 100;
    assert_eq!(apply_level_up(&mut xp, &mut level), Some(3));
    assert_eq!((xp, level), (0, 3));
    assert_eq!(level_up_message("Eevee", 3), "Eevee leveled up! Now level 3 ✨");
}

#[test]
fn directions_and_stack_height() {
    assert_eq!(Direction::Down.as_index(), 0);
    assert_eq!(Direction::Left.as_index(), 1);
    assert_eq!(Direction::Up.as_index(), 2);
    assert_eq!(Direction::Right.as_index(), 3);
    assert_eq!(sprite_stack_h(10), 14);
}

#[test]
fn animal_cycles_frames_every_ten_ticks() {
    let mut cat = Animal::new("Tom".to_string(), "cat".to_string(), (3, 4));
    assert_eq!(cat.get_sprite(), vec![" ▄▄█▄▄ ", "▐█⚬⚬█▌", " ▀▀▀▀▀ "]);
    assert_eq!(cat.get_color(), (255, 200, 100));
    for _ in 0..9 {
        cat.update_with_roll(1);
    }
    assert_eq!(cat.frame, 0);
    cat.update_with_roll(1);
    assert_eq!(cat.frame, 1);
    assert_eq!(cat.animation_timer, 10);
    assert_eq!(cat.get_sprite(), vec![" ▄▄█▄▄ ", "▐█⚬ᴥ⚬█▌", " ▀▀▀▀▀ "]);
    for _ in 0..90 {
        cat.update_with_roll(1);
    }
    // the hundredth tick picks the state from the roll
    assert_eq!(cat.state, AnimalState::Sleeping);
    let ghost = Animal::new("?".to_string(), "ghost".to_string(), (0, 0));
    assert_eq!(ghost.get_sprite_frames().len(), 1);
    assert_eq!(ghost.get_color(), (200, 200, 200));
}

#[test]
fn game_keys_pause_reset_and_quit() {
    let configs = vec![
        AnimalConfig { name: "Rex".to_string(), kind: "dog".to_string(), position: (1, 2) },
        AnimalConfig { name: "Tweety".to_string(), kind: "bird".to_string(), position: (5, 6) },
    ];
    let mut game = Game::new(configs);
    assert!(game.running());
    assert!(!game.paused());
    for _ in 0..10 {
        game.update();
    }
    assert_eq!(game.animals()[0].frame, 1);
    game.handle_key('p');
    assert!(game.paused());
    game.handle_key('P');
    assert!(!game.paused());
    game.handle_key('r');
    assert_eq!(game.animals()[0].frame, 0);
    assert_eq!(game.animals()[1].name, "Tweety");
    game.handle_key('x');
    assert!(game.running());
    game.handle_key('Q');
    assert!(!game.running());
}

#[test]
fn text_game_layout() {
    assert_eq!(state_indicator(AnimalState::Sleeping), "😴");
    assert_eq!(help_text(), "Q: Quit  P: Pause  R: Reset");
    assert_eq!(visible_rows(5, 8, 10), 3);
    assert_eq!(visible_rows(5, 20, 4), 4);
    assert_eq!(visible_rows(9, 8, 4), 0);
    assert_eq!(name_row(5), Some(4));
    assert_eq!(name_row(1), None);
    assert_eq!(help_row(24), 23);
    assert_eq!(help_row(0), 0);
}

#[test]
fn creature_override_wins_over_config_path() {
    let both = Cli { config: Some(PathBuf::from("/tmp/x.toml")), creature: Some("eevee".to_string()) };
    assert!(matches!(config_source(both), ConfigSource::Creature(n) if n == "eevee"));
    let path = Cli { config: Some(PathBuf::from("/tmp/x.toml")), creature: None };
    assert!(matches!(config_source(path), ConfigSource::File(p) if p == PathBuf::from("/tmp/x.toml")));
    let none = Cli { config: None, creature: None };
    assert!(matches!(config_source(none), ConfigSource::DefaultFile));
}

#[test]
fn movement_timers_run_down() {
    let t = MovementTimers { dir_cooldown_ticks: 2, pause_ticks: 3, dir_hold_ticks: 50, pause_face_down: true };
    let (t, step) = movement_tick(t);
    assert_eq!(step, MovementStep::Paused { face_down: true });
    assert_eq!(t, MovementTimers { dir_cooldown_ticks: 1, pause_ticks: 2, dir_hold_ticks: 50, pause_face_down: true });
    let (t, _) = movement_tick(t);
    let (t, step) = movement_tick(t);
    assert_eq!(step, MovementStep::Resume);
    assert_eq!(t, MovementTimers { dir_cooldown_ticks: 3, pause_ticks: 0, dir_hold_ticks: 50, pause_face_down: false });
    let (t, step) = movement_tick(t);
    assert_eq!(step, MovementStep::Walk);
    assert_eq!((t.dir_cooldown_ticks, t.dir_hold_ticks), (2, 49));
    let idle = MovementTimers { dir_cooldown_ticks: 0, pause_ticks: 0, dir_hold_ticks: 0, pause_face_down: false };
    assert_eq!(movement_tick(idle), (idle, MovementStep::NewHeading));
}
