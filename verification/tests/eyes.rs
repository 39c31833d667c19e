use poclimon::eyes::get_eye_regions;

#[test]
fn test_roster_creatures_have_eyes() {
    for id in [1, 4, 7, 25, 133] {
        let eyes = get_eye_regions(id);
        assert_eq!(eyes.len(), 2, "Creature {} should have 2 eye regions", id);
    }
}

#[test]
fn test_unknown_creature_no_eyes() {
    assert!(get_eye_regions(999).is_empty());
}

#[test]
fn test_eyes_are_horizontally_paired() {
    for id in [1, 4, 7, 25, 133] {
        let eyes = get_eye_regions(id);
        let y_diff = (eyes[0].cy as i32 - eyes[1].cy as i32).unsigned_abs();
        assert!(y_diff < 50, "Eyes for creature {} should be roughly aligned (y_diff={})", id, y_diff);
        let x_diff = (eyes[0].cx as i32 - eyes[1].cx as i32).unsigned_abs();
        assert!(x_diff > 50, "Eyes for creature {} should be spread apart (x_diff={})", id, x_diff);
    }
}

#[test]
fn eye_regions_of_later_roster_creatures_are_unmapped() {
    for id in [134, 135, 136, 144, 145, 146] {
        assert!(get_eye_regions(id).is_empty());
    }
}

#[test]
fn pikachu_eye_regions_exact() {
    let eyes = get_eye_regions(25);
    assert_eq!((eyes[0].cx, eyes[0].cy, eyes[0].radius), (140, 165, 10));
    assert_eq!((eyes[1].cx, eyes[1].cy, eyes[1].radius), (194, 158, 10));
}
