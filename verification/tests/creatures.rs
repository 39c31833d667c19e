use poclimon::creatures::{find_by_id, find_by_name, find_lowercased, padded_id, roster};

#[test]
fn test_roster_has_eleven_creatures() {
    assert_eq!(roster().len(), 11);
}

#[test]
fn test_original_five_present() {
    assert!(find_by_id(1).is_some()); // Bulbasaur
    assert!(find_by_id(4).is_some()); // Charmander
    assert!(find_by_id(7).is_some()); // Squirtle
    assert!(find_by_id(25).is_some()); // Pikachu
    assert!(find_by_id(133).is_some()); // Eevee
}

#[test]
fn test_eevee_evolutions_present() {
    assert_eq!(find_by_id(134).unwrap().name, "Vaporeon");
    assert_eq!(find_by_id(135).unwrap().name, "Jolteon");
    assert_eq!(find_by_id(136).unwrap().name, "Flareon");
}

#[test]
fn test_legendary_birds_present() {
    assert_eq!(find_by_id(144).unwrap().name, "Articuno");
    assert_eq!(find_by_id(145).unwrap().name, "Zapdos");
    assert_eq!(find_by_id(146).unwrap().name, "Moltres");
}

#[test]
fn test_find_by_id() {
    assert_eq!(find_by_id(25).unwrap().name, "Pikachu");
    assert_eq!(find_by_id(1).unwrap().name, "Bulbasaur");
    assert!(find_by_id(999).is_none());
}

#[test]
fn test_find_by_name() {
    assert_eq!(find_by_name("eevee").unwrap().id, 133);
    assert_eq!(find_by_name("Charmander").unwrap().id, 4);
    assert_eq!(find_by_name("vaporeon").unwrap().id, 134);
    assert_eq!(find_by_name("ZAPDOS").unwrap().id, 145);
    assert!(find_by_name("Mewtwo").is_none());
}

#[test]
fn test_padded_id() {
    assert_eq!(padded_id(1), "0001");
    assert_eq!(padded_id(25), "0025");
    assert_eq!(padded_id(133), "0133");
    assert_eq!(padded_id(146), "0146");
}

#[test]
fn roster_ids_are_distinct_and_found_again() {
    let all = roster();
    for (i, a) in all.iter().enumerate() {
        for b in all.iter().skip(i + 1) {
            assert_ne!(a.id, b.id);
        }
        assert_eq!(find_by_id(a.id).unwrap().name, a.name);
        assert_eq!(find_by_name(a.name).unwrap().id, a.id);
    }
}

#[test]
fn padded_id_keeps_long_numbers_whole() {
    assert_eq!(padded_id(0), "0000");
    assert_eq!(padded_id(12345), "12345");
}

#[test]
fn mixed_case_names_match() {
    assert_eq!(find_by_name("PiKaChU").unwrap().id, 25);
    assert!(find_by_name("").is_none());
    assert!(find_by_name("pikachu ").is_none());
}

#[test]
fn lowercased_lookup_takes_the_first_equal_name() {
    let names: Vec<String> = vec!["eevee".to_string(), "zapdos".to_string(), "eevee".to_string()];
    assert_eq!(find_lowercased("eevee", &names), Some(0));
    assert_eq!(find_lowercased("zapdos", &names), Some(1));
    // no case folding happens here: both sides are already lowercase
    assert_eq!(find_lowercased("Zapdos", &names), None);
    assert_eq!(find_lowercased("moltres", &names), None);
    assert_eq!(find_lowercased("eevee", &Vec::new()), None);
}

#[test]
fn padded_ids_read_back() {
    for id in [0u32, 7, 25, 146, 999, 9999] {
        let s = padded_id(id);
        assert_eq!(s.len(), 4);
        assert!(s.chars().all(|c| c.is_ascii_digit()));
        assert_eq!(s.parse::<u32>(), Ok(id));
    }
    assert_eq!(padded_id(10000), "10000");
    assert_eq!(padded_id(u32::MAX), u32::MAX.to_string());
}
