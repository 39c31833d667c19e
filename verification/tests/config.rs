use poclimon::config::{
    default_creatures, default_scale, ConfigError, DisplayConfig, GameConfig, RosterConfig, SlotEntry, TomlConfig,
};

/// The document `[display] scale = …` / `[roster] creatures = […]` as the
/// TOML reader builds it; `None` for a table left out.
fn legacy(scale: Option<u32>, creatures: &[&str]) -> TomlConfig {
    TomlConfig {
        display: match scale {
            Some(s) => DisplayConfig { scale: s },
            None => DisplayConfig::default(),
        },
        roster: RosterConfig { creatures: creatures.iter().map(|c| c.to_string()).collect() },
        slot: Vec::new(),
    }
}

fn slot(id: u32, slot_id: u64, name: &str, level: u32, xp: u32) -> SlotEntry {
    SlotEntry { id, slot_id, name: name.to_string(), level, xp }
}

/// A document holding only `[[slot]]` tables (and maybe `[display]`).
fn slots(scale: Option<u32>, entries: Vec<SlotEntry>) -> TomlConfig {
    TomlConfig {
        display: match scale {
            Some(s) => DisplayConfig { scale: s },
            None => DisplayConfig::default(),
        },
        roster: RosterConfig::default(),
        slot: entries,
    }
}

#[test]
fn test_default_config() {
    let config = GameConfig::default();
    assert_eq!(config.scale, 3);
    assert_eq!(config.roster.len(), 5);
    assert_eq!(config.roster[0].creature_id, 1);
    assert_eq!(config.roster[0].name, "Bulbasaur");
    assert_eq!(config.roster[3].creature_id, 25);
    assert_eq!(config.roster[3].name, "Pikachu");
    assert_eq!(config.roster[4].creature_id, 133);
    assert_eq!(config.roster[4].name, "Eevee");
}

#[test]
fn test_parse_toml_basic() {
    let toml_config = legacy(Some(8), &["pikachu", "eevee"]);
    let config = GameConfig::from_toml(toml_config).unwrap();
    assert_eq!(config.scale, 8);
    assert_eq!(config.roster.len(), 2);
    assert_eq!(config.roster[0].creature_id, 25);
    assert_eq!(config.roster[0].name, "Pikachu");
    assert_eq!(config.roster[1].creature_id, 133);
    assert_eq!(config.roster[1].name, "Eevee");
}

#[test]
fn test_parse_toml_with_ids() {
    let toml_config = legacy(None, &["25", "1"]);
    let config = GameConfig::from_toml(toml_config).unwrap();
    assert_eq!(config.roster[0].creature_id, 25);
    assert_eq!(config.roster[0].name, "Pikachu");
    assert_eq!(config.roster[1].creature_id, 1);
    assert_eq!(config.roster[1].name, "Bulbasaur");
}

#[test]
fn test_validation_max_six() {
    // Build a roster with 7 entries (exceeds the limit of 6).
    let toml_config =
        legacy(None, &["pikachu", "eevee", "bulbasaur", "charmander", "squirtle", "vaporeon", "jolteon"]);
    let result = GameConfig::from_toml(toml_config);
    assert!(result.is_err());
    assert!(result.unwrap_err().message().contains("Maximum 6"));
}

#[test]
fn test_validation_empty_roster() {
    let toml_config = legacy(None, &[]);
    let result = GameConfig::from_toml(toml_config);
    assert!(result.is_err());
    assert!(result.unwrap_err().message().contains("at least one"));
}

#[test]
fn test_validation_unknown_creature() {
    let toml_config = legacy(None, &["mewtwo"]);
    let result = GameConfig::from_toml(toml_config);
    assert!(result.is_err());
    assert!(result.unwrap_err().message().contains("Unknown creature"));
}

#[test]
fn test_default_toml_config() {
    let toml_config = TomlConfig::default();
    let config = GameConfig::from_toml(toml_config).unwrap();
    assert_eq!(config.scale, 3);
    assert_eq!(config.roster.len(), 3);
    assert_eq!(config.roster[0].name, "Bulbasaur");
    assert_eq!(config.roster[1].name, "Charmander");
    assert_eq!(config.roster[2].name, "Squirtle");
}

#[test]
fn test_from_creature_name() {
    let config = GameConfig::from_creature_name("eevee").unwrap();
    assert_eq!(config.roster.len(), 1);
    assert_eq!(config.roster[0].creature_id, 133);
    assert_eq!(config.roster[0].name, "Eevee");
}

#[test]
fn test_from_creature_name_unknown() {
    let result = GameConfig::from_creature_name("mewtwo");
    assert!(result.is_err());
}

#[test]
fn test_six_creatures_ok() {
    let toml_config = legacy(None, &["pikachu", "eevee", "bulbasaur", "charmander", "squirtle", "pikachu"]);
    let config = GameConfig::from_toml(toml_config).unwrap();
    assert_eq!(config.roster.len(), 6);
}

#[test]
fn test_new_creatures_by_name() {
    for name in &["vaporeon", "jolteon", "flareon", "articuno", "zapdos", "moltres"] {
        let config = GameConfig::from_creature_name(name).unwrap();
        assert_eq!(config.roster.len(), 1);
    }
}

#[test]
fn test_new_creatures_by_id() {
    let toml_config = legacy(None, &["134", "135", "136", "144", "145", "146"]);
    let config = GameConfig::from_toml(toml_config).unwrap();
    assert_eq!(config.roster.len(), 6);
    assert_eq!(config.roster[0].name, "Vaporeon");
    assert_eq!(config.roster[5].name, "Moltres");
}

#[test]
fn test_new_format_loads_level_xp() {
    let toml_config =
        slots(Some(3), vec![slot(25, 8675309, "Pikachu", 3, 42), slot(1, 1234567, "Bulbasaur", 1, 0)]);
    let config = GameConfig::from_toml(toml_config).unwrap();
    assert_eq!(config.roster.len(), 2);
    assert_eq!(config.roster[0].creature_id, 25);
    assert_eq!(config.roster[0].name, "Pikachu");
    assert_eq!(config.roster[0].slot_id, 8675309);
    assert_eq!(config.roster[0].level, 3);
    assert_eq!(config.roster[0].xp, 42);
    assert_eq!(config.roster[1].creature_id, 1);
    assert_eq!(config.roster[1].slot_id, 1234567);
    assert_eq!(config.roster[1].level, 1);
    assert_eq!(config.roster[1].xp, 0);
}

#[test]
fn test_old_format_still_loads() {
    let toml_config = legacy(None, &["pikachu", "eevee"]);
    let config = GameConfig::from_toml(toml_config).unwrap();
    assert_eq!(config.roster.len(), 2);
    assert_eq!(config.roster[0].name, "Pikachu");
    assert_eq!(config.roster[1].name, "Eevee");
    // Old format gets level 1 and xp 0.
    assert_eq!(config.roster[0].level, 1);
    assert_eq!(config.roster[0].xp, 0);
}

#[test]
fn test_old_format_slot_id_nonzero() {
    let toml_config = legacy(None, &["pikachu"]);
    let config = GameConfig::from_toml(toml_config).unwrap();
    assert_ne!(config.roster[0].slot_id, 0);
}

#[test]
fn test_slot_entry_toml_roundtrip() {
    let entry = slot(25, 9999, "Pikachu", 5, 100);
    // Write the entry as the saved document does, and read it back.
    let serialized = GameConfig::save_text(3, &[entry]);
    let doc: toml::Table = toml::from_str(&serialized).unwrap();
    let deserialized = doc["slot"].as_array().unwrap()[0].as_table().unwrap();
    assert_eq!(deserialized["id"].as_integer(), Some(25));
    assert_eq!(deserialized["slot_id"].as_integer(), Some(9999));
    assert_eq!(deserialized["name"].as_str(), Some("Pikachu"));
    assert_eq!(deserialized["level"].as_integer(), Some(5));
    assert_eq!(deserialized["xp"].as_integer(), Some(100));
}

#[test]
fn test_new_format_slot_id_zero_regenerated() {
    // slot_id = 0 in the file should be treated as "missing" and regenerated.
    let toml_config = slots(None, vec![slot(25, 0, "Pikachu", 1, 0)]);
    let config = GameConfig::from_toml(toml_config).unwrap();
    assert_ne!(config.roster[0].slot_id, 0);
}

#[test]
fn level_zero_reads_as_one_and_name_comes_from_roster() {
    let toml_config = slots(None, vec![slot(4, 77, "whatever", 0, 9)]);
    let config = GameConfig::from_toml(toml_config).unwrap();
    assert_eq!(config.scale, 3);
    assert_eq!(config.roster[0].creature_id, 4);
    assert_eq!(config.roster[0].name, "Charmander");
    assert_eq!(config.roster[0].slot_id, 77);
    assert_eq!(config.roster[0].level, 1);
    assert_eq!(config.roster[0].xp, 9);
}

#[test]
fn slot_entries_take_precedence_over_the_legacy_list() {
    let mut toml_config = slots(None, vec![slot(7, 5, "Squirtle", 2, 3)]);
    toml_config.roster = RosterConfig { creatures: vec!["mewtwo".to_string()] };
    let config = GameConfig::from_toml(toml_config).unwrap();
    assert_eq!(config.roster.len(), 1);
    assert_eq!(config.roster[0].creature_id, 7);
}

#[test]
fn validation_messages_are_exact() {
    let too_many = slots(None, (0..7).map(|i| slot(25, i + 1, "Pikachu", 1, 0)).collect());
    assert_eq!(
        GameConfig::from_toml(too_many).unwrap_err().message(),
        "Validation error: Maximum 6 creatures allowed in roster"
    );
    let unknown_id = slots(None, vec![slot(999, 1, "Nobody", 1, 0)]);
    assert_eq!(
        GameConfig::from_toml(unknown_id).unwrap_err().message(),
        "Validation error: Unknown creature ID: 999"
    );
    let unknown_name = legacy(None, &["mewtwo"]);
    assert_eq!(
        GameConfig::from_toml(unknown_name).unwrap_err().message(),
        "Validation error: Unknown creature: 'mewtwo'"
    );
    match GameConfig::from_creature_name("Missingno").unwrap_err() {
        ConfigError::Validation(m) => assert_eq!(m, "Unknown creature: 'Missingno'"),
        other => panic!("unexpected error {:?}", other),
    }
}

#[test]
fn defaults_of_the_document() {
    assert_eq!(default_scale(), 3);
    assert_eq!(default_creatures(), vec!["bulbasaur", "charmander", "squirtle"]);
    assert_eq!(DisplayConfig::default().scale, 3);
    assert_eq!(RosterConfig::default().creatures, vec!["bulbasaur", "charmander", "squirtle"]);
}

#[test]
fn save_text_writes_display_and_slots() {
    let text = GameConfig::save_text(4, &[slot(25, 9, "Pikachu", 2, 7), slot(1, 10, "Bulbasaur", 1, 0)]);
    assert_eq!(
        text,
        "[display]\nscale = 4\n\n[[slot]]\nid = 25\nslot_id = 9\nname = \"Pikachu\"\nlevel = 2\nxp = 7\n\n[[slot]]\nid = 1\nslot_id = 10\nname = \"Bulbasaur\"\nlevel = 1\nxp = 0\n"
    );
    assert_eq!(GameConfig::save_text(3, &[]), "[display]\nscale = 3\n");
}

#[test]
fn saved_roster_reads_back() {
    let first = GameConfig::from_toml(slots(Some(5), vec![slot(25, 11, "x", 4, 20), slot(133, 12, "y", 0, 3)])).unwrap();
    let entries: Vec<SlotEntry> = first
        .roster
        .iter()
        .map(|r| slot(r.creature_id, r.slot_id, &r.name, r.level, r.xp))
        .collect();
    let text = GameConfig::save_text(first.scale, &entries);
    // read the saved document back through the TOML reader
    let doc: toml::Table = toml::from_str(&text).unwrap();
    let scale = doc["display"]["scale"].as_integer().unwrap() as u32;
    let read: Vec<SlotEntry> = doc["slot"]
        .as_array()
        .unwrap()
        .iter()
        .map(|t| {
            slot(
                t["id"].as_integer().unwrap() as u32,
                t["slot_id"].as_integer().unwrap() as u64,
                t["name"].as_str().unwrap(),
                t["level"].as_integer().unwrap() as u32,
                t["xp"].as_integer().unwrap() as u32,
            )
        })
        .collect();
    let second = GameConfig::from_toml(slots(Some(scale), read)).unwrap();
    assert_eq!(second.scale, 5);
    assert_eq!(second.roster.len(), first.roster.len());
    for (a, b) in first.roster.iter().zip(second.roster.iter()) {
        assert_eq!(
            (a.creature_id, &a.name, a.slot_id, a.level, a.xp),
            (b.creature_id, &b.name, b.slot_id, b.level, b.xp)
        );
    }
    assert_eq!(second.roster[1].level, 1);
}

#[test]
fn error_messages_carry_the_cause() {
    let io = ConfigError::Io(std::io::Error::new(std::io::ErrorKind::Other, "boom"));
    assert_eq!(io.message(), "Failed to read config file: boom");
    let parse_err = toml::from_str::<toml::Table>("= nothing").unwrap_err();
    let cause = parse_err.to_string();
    let parse = ConfigError::TomlParse(parse_err);
    assert_eq!(parse.message(), format!("Failed to parse config: {cause}"));
}

#[test]
fn accepted_documents() {
    // six known slots are accepted; one unknown among them is not
    let known: Vec<SlotEntry> = [1, 4, 7, 25, 133, 146].iter().map(|&id| slot(id, 1, "", 1, 0)).collect();
    assert!(GameConfig::from_toml(slots(None, known.clone())).is_ok());
    let mut one_unknown = known.clone();
    one_unknown[3] = slot(150, 1, "", 1, 0);
    assert!(GameConfig::from_toml(slots(None, one_unknown)).is_err());
    // a legacy entry may be a Dex ID or a name, in any case
    assert!(GameConfig::from_toml(legacy(None, &["25", "EEVEE", "+4"])).is_ok());
    assert!(GameConfig::from_toml(legacy(None, &["25", "151"])).is_err());
    assert!(GameConfig::from_toml(legacy(None, &[])).is_err());
}
