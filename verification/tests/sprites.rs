use poclimon::anim_data::parse_anim_data;
use poclimon::animation::AnimationState;
use poclimon::creature::{SPRITE_H, SPRITE_W};
use poclimon::fallback::{create_fallback_frame, create_fallback_sprite};
use poclimon::frame::Frame;
use poclimon::notification::NotifLevel;
use poclimon::pen::{
    grass_tile, label_position, label_width, level_text, name_text, notification_prefix, notification_rows,
    pick_protocol_index, recall_display, sprite_render_pos, state_label, swap_status, toy_position, xp_bar_filled,
    GrassTile, RecallDisplay,
};
use poclimon::sprite::{
    anim_data_url, artwork_filename, artwork_url, needed_anims, sprite_sheet_filename, sprite_sheet_url,
};
use poclimon::sprite_loading::{
    cap_frames, direction_rows, filter_load_warnings, load_and_scale_animation, load_slot_sprites, scale_frame,
};
use poclimon::text::{decimal_chars, parse_u32_range, trim_range, zero_padded_chars};

fn solid(w: u32, h: u32, p: (u8, u8, u8, u8)) -> Frame {
    Frame::new(w, h, vec![p; (w * h) as usize]).unwrap()
}

/// A sheet of `cols` × `rows` frames of `fw` × `fh`, frame (c, r) filled
/// with red `c`, green `r`.
fn grid_sheet(fw: u32, fh: u32, cols: u32, rows: u32) -> Frame {
    let mut pixels = Vec::new();
    for y in 0..fh * rows {
        for x in 0..fw * cols {
            pixels.push(((x / fw) as u8, (y / fh) as u8, 0, 255));
        }
    }
    Frame::new(fw * cols, fh * rows, pixels).unwrap()
}

/// The frame encoded as a PNG file.
fn png(frame: &Frame) -> Vec<u8> {
    let (w, h) = frame.dimensions();
    let bytes: Vec<u8> = frame.pixels().iter().flat_map(|p| [p.0, p.1, p.2, p.3]).collect();
    let img = image::RgbaImage::from_raw(w, h, bytes).unwrap();
    let mut out = std::io::Cursor::new(Vec::new());
    image::DynamicImage::ImageRgba8(img).write_to(&mut out, image::ImageFormat::Png).unwrap();
    out.into_inner()
}

/// The message `image` gives for bytes that are not a PNG file.
fn png_error(bytes: &[u8]) -> String {
    let reader = image::ImageReader::with_format(std::io::Cursor::new(bytes), image::ImageFormat::Png);
    reader.decode().err().unwrap().to_string()
}

const XML: &str = "<Anim><Name>Idle</Name><FrameWidth>4</FrameWidth><FrameHeight>3</FrameHeight>\
    <Duration>2</Duration><Duration>4</Duration></Anim>\
    <Anim><Name>Eat</Name><FrameWidth>2</FrameWidth><FrameHeight>2</FrameHeight>\
    <Duration>1</Duration><Duration>1</Duration><Duration>1</Duration></Anim>";

#[test]
fn urls_and_file_names() {
    assert_eq!(anim_data_url(25), "https://raw.githubusercontent.com/PMDCollab/SpriteCollab/master/sprite/0025/AnimData.xml");
    assert_eq!(
        sprite_sheet_url(133, "Idle"),
        "https://raw.githubusercontent.com/PMDCollab/SpriteCollab/master/sprite/0133/Idle-Anim.png"
    );
    assert_eq!(sprite_sheet_filename("Sleep"), "Sleep-Anim.png");
    assert_eq!(needed_anims(), vec!["Idle", "Sleep", "Eat"]);
    assert_eq!(
        artwork_url(7),
        "https://raw.githubusercontent.com/PokeAPI/sprites/master/sprites/pokemon/other/official-artwork/7.png"
    );
    assert_eq!(artwork_filename(25, "PiKachu"), "25_pikachu.png");
}

#[test]
fn number_text() {
    assert_eq!(decimal_chars(0), vec!['0']);
    assert_eq!(decimal_chars(4096).into_iter().collect::<String>(), "4096");
    assert_eq!(zero_padded_chars(7, 3).into_iter().collect::<String>(), "007");
    let v: Vec<char> = "  +42 ".chars().collect();
    let (a, b) = trim_range(&v, 0, v.len());
    assert_eq!((a, b), (2, 5));
    assert_eq!(parse_u32_range(&v, a, b), Some(42));
    let big: Vec<char> = "4294967296".chars().collect();
    assert_eq!(parse_u32_range(&big, 0, big.len()), None);
}

#[test]
fn direction_rows_and_capping() {
    assert_eq!(direction_rows(), [0, 2, 4, 6]);
    let (f, d) = cap_frames((0..20).collect::<Vec<u32>>(), (100..117).collect());
    // aligned to 17, then every 17/8-th frame
    assert_eq!(f, vec![0, 2, 4, 6, 8, 10, 12, 14]);
    assert_eq!(d, vec![100, 102, 104, 106, 108, 110, 112, 114]);
    let (f, d) = cap_frames(vec!['a', 'b', 'c'], vec![1, 2]);
    assert_eq!(f, vec!['a', 'b']);
    assert_eq!(d, vec![1, 2]);
}

#[test]
fn warnings_for_covered_animations_are_dropped() {
    let ws = vec![
        "Couldn't download Eat for creature 1: 404".to_string(),
        "Couldn't download SLEEP for creature 1: 404".to_string(),
        "Couldn't download Spin for creature 1: 404".to_string(),
        "Couldn't download Rotate for creature 1: 404".to_string(),
        "Couldn't download Idle for creature 1: 404".to_string(),
        "Idle sheet missing".to_string(),
    ];
    assert_eq!(
        filter_load_warnings(ws.clone(), false, false),
        vec![ws[0].clone(), ws[1].clone(), ws[4].clone(), ws[5].clone()]
    );
    // matching ignores case and looks anywhere in the text: "creature" holds "eat"
    assert_eq!(filter_load_warnings(ws.clone(), true, false), vec![ws[5].clone()]);
    assert_eq!(
        filter_load_warnings(ws.clone(), false, true),
        vec![ws[0].clone(), ws[4].clone(), ws[5].clone()]
    );
}

#[test]
fn scaling_changes_only_the_size_of_square_pixels() {
    let f = grid_sheet(1, 1, 2, 1); // two pixels: red 0 and red 1
    let s = scale_frame(&f, 3);
    assert_eq!(s.dimensions(), (6, 3));
    assert_eq!(s.pixel(0, 0).0, 0);
    assert_eq!(s.pixel(5, 2).0, 1);
    let same = scale_frame(&f, 1);
    assert_eq!(same.pixels(), f.pixels());
}

#[test]
fn loading_one_animation() {
    let infos = parse_anim_data(XML);
    let sheets = vec![("Idle".to_string(), png(&grid_sheet(4, 3, 2, 8)))];
    // row 2 exists: two frames scaled by 2
    let l = load_and_scale_animation("Idle", &sheets, &infos, 2, None, 2).unwrap();
    assert!(!l.is_fallback);
    assert_eq!(l.frames.len(), 2);
    assert_eq!((l.width, l.height), (8, 6));
    assert_eq!(l.frames[1].pixel(0, 0), (1, 2, 0, 255));
    assert_eq!(l.timing.durations_ms, vec![100, 200]);
    // a missing row falls back to row 0
    let l = load_and_scale_animation("Idle", &sheets, &infos, 1, None, 8).unwrap();
    assert_eq!(l.frames[0].pixel(0, 0), (0, 0, 0, 255));
    // no sheet: the placeholder, normalized to the canonical size
    let l = load_and_scale_animation("Eat", &sheets, &infos, 1, Some((50, 50)), 0).unwrap();
    assert!(l.is_fallback);
    assert_eq!(l.frames.len(), 1);
    assert_eq!((l.width, l.height), (50, 50));
    assert_eq!(l.timing.durations_ms, vec![1000]);
    // a sheet that failed to decode is an error
    let broken = vec![("Idle".to_string(), b"bad png".to_vec())];
    assert_eq!(load_and_scale_animation("Idle", &broken, &infos, 1, None, 0).err(), Some(png_error(b"bad png")));
    // an undecodable sheet without timing information is not read
    assert!(load_and_scale_animation("Walk", &broken, &infos, 1, None, 0).unwrap().is_fallback);
}

#[test]
fn loading_a_slot_falls_back_to_idle() {
    let infos = parse_anim_data(XML);
    let sheets = vec![("Idle".to_string(), png(&grid_sheet(4, 3, 2, 8)))];
    let warnings = vec!["Couldn't download Eat for creature 4: 404".to_string()];
    let s = load_slot_sprites(&sheets, &infos, warnings, 1).unwrap();
    for d in 0..4 {
        assert_eq!(s.idle[d].len(), 2);
        assert_eq!(s.idle[d][0].dimensions(), (4, 3));
        assert_eq!(s.eat[d].len(), 2);
        assert_eq!(s.sleep[d].len(), 2);
        assert_eq!(s.recall[d].len(), 2);
    }
    // Left is row 2 of the sheet
    assert_eq!(s.idle[1][1].pixel(0, 0), (1, 2, 0, 255));
    assert_eq!(s.eat[1][1].pixel(0, 0), (1, 2, 0, 255));
    // Eat fell back to Idle, so its warning is gone
    assert!(s.warnings.is_empty());
    assert_eq!(s.animator.state(), AnimationState::Idle);
    assert_eq!(s.animator.frame_index_after(150), Some(1));

    let with_eat = vec![
        ("Idle".to_string(), png(&grid_sheet(4, 3, 2, 8))),
        ("Eat".to_string(), png(&grid_sheet(2, 2, 3, 8))),
    ];
    let s = load_slot_sprites(&with_eat, &infos, vec![], 1).unwrap();
    assert_eq!(s.eat[0].len(), 3);
    // normalized to the Idle size
    assert_eq!(s.eat[0][2].dimensions(), (4, 3));
    assert_eq!(s.eat[0][2].pixel(1, 0), (2, 0, 0, 255));
    assert_eq!(s.eat[0][2].pixel(0, 0), (0, 0, 0, 0));

    let truncated = png(&grid_sheet(1, 1, 1, 1))[..20].to_vec();
    let broken = vec![("Sleep".to_string(), truncated.clone())];
    let sleep_xml = "<Anim><Name>Sleep</Name><FrameWidth>1</FrameWidth><FrameHeight>1</FrameHeight><Duration>1</Duration></Anim>";
    let with_sleep_info = parse_anim_data(&format!("{XML}{sleep_xml}"));
    assert_eq!(load_slot_sprites(&broken, &with_sleep_info, vec![], 1).err(), Some(png_error(&truncated)));
}

#[test]
fn placeholders() {
    let f = create_fallback_frame();
    assert_eq!(f.dimensions(), (48, 48));
    assert_eq!(f.pixel(0, 0), (0, 0, 0, 0));
    assert_eq!(f.pixel(24, 40), (255, 220, 50, 255));
    assert_eq!(f.pixel(20, 12), (30, 30, 30, 255));
    assert_eq!(f.pixel(23, 33), (30, 30, 30, 255));
    let s = create_fallback_sprite();
    assert_eq!(s.dimensions(), (96, 96));
    assert_eq!(s.pixel(48, 52), (255, 220, 50, 255));
    assert_eq!(s.pixel(40, 40), (0, 0, 0, 255));
    assert_eq!(s.pixel(95, 0), (0, 0, 0, 0));
}

#[test]
fn nameplate_text() {
    assert_eq!(xp_bar_filled(25, 1), 4);
    assert_eq!(xp_bar_filled(500, 1), 8);
    assert_eq!(xp_bar_filled(5, 0), 0);
    assert_eq!(level_text(2, 50, AnimationState::Idle), "Lv.2");
    assert_eq!(level_text(2, 50, AnimationState::Eating), "Lv.2 [▓▓▓▓░░░░] 🍖");
    assert_eq!(level_text(1, 0, AnimationState::Sleeping), "Lv.1 [░░░░░░░░] 💤");
    assert_eq!(level_text(1, 60, AnimationState::Playing), "Lv.1 [▓▓▓▓▓▓▓▓] 🧸");
    assert_eq!(name_text("eevee", true), "◉ EEVEE");
    assert_eq!(name_text("Pikachu", false), "  PIKACHU");
    assert_eq!(label_width(3, 4), 8);
    assert_eq!(label_width(10, 4), 12);
    assert_eq!(label_width(40, 4), SPRITE_W);
}

#[test]
fn pen_layout() {
    // toy to the right of a sprite at (10, 5), 32 wide and 10 high
    assert_eq!(toy_position(10, 5, 32, 10, 16, 5, true, 0, 0, 100, 40), Some((38, 8)));
    assert_eq!(toy_position(10, 5, 32, 10, 16, 5, false, 0, 0, 100, 40), None);
    assert_eq!(sprite_render_pos(1, 1, 50, 30, 5, 7, SPRITE_W, SPRITE_H), (6, 8));
    assert_eq!(sprite_render_pos(1, 1, 50, 30, 40, 29, SPRITE_W, SPRITE_H), (19, 17));
    assert_eq!(label_position(4, 2, 20, 10, 10, 30), Some((9, 12)));
    assert_eq!(label_position(4, 2, 20, 10, 10, 15), None);
    assert_eq!(recall_display(18, false), RecallDisplay::Spinning { frame: 0 });
    assert_eq!(recall_display(5, false), RecallDisplay::Shrinking { frame: 13, phase: 3, flash: false });
    assert_eq!(recall_display(4, true), RecallDisplay::Shrinking { frame: 14, phase: 4, flash: true });
    assert_eq!(recall_display(0, false), RecallDisplay::WaitingBall);
    assert_eq!(recall_display(0, true), RecallDisplay::Normal);
    // the same cell always gets the same tile
    assert_eq!(grass_tile(3, 4), grass_tile(3, 4));
    assert_eq!(grass_tile(0, 0), GrassTile::Tuft);
    assert_eq!(grass_tile(1, 0), GrassTile::Bare);
    assert_eq!(grass_tile(2, 0), GrassTile::Blade);
    assert_eq!(grass_tile(3, 0), GrassTile::Flower);
}

#[test]
fn status_panel_text() {
    assert_eq!(state_label(AnimationState::Eating), "Nomming 🍖");
    assert_eq!(notification_prefix(NotifLevel::Warn), "[Warn]  ");
    assert_eq!(notification_rows(true), 1);
    assert_eq!(notification_rows(false), 2);
    assert_eq!(swap_status(3, "Pikachu", "Eevee"), "Recalling Pikachu...");
    assert_eq!(swap_status(0, "Pikachu", "Eevee"), "Loading Eevee...");
}

#[test]
fn picking_a_frame_with_fallbacks() {
    let empty = || -> [Vec<Option<u8>>; 4] { [vec![], vec![], vec![], vec![]] };
    let mut table: [[Vec<Option<u8>>; 4]; 5] = [empty(), empty(), empty(), empty(), empty()];
    table[0][0] = vec![Some(1), Some(2)];
    table[1][2] = vec![None, Some(3), None];
    // wrapped frame index
    assert_eq!(pick_protocol_index(&table, 1, 2, 4), Some((1, 2, 1)));
    // first present frame of the direction
    assert_eq!(pick_protocol_index(&table, 1, 2, 0), Some((1, 2, 1)));
    // another direction of the state
    assert_eq!(pick_protocol_index(&table, 1, 0, 0), Some((1, 2, 1)));
    // Idle as the last resort
    assert_eq!(pick_protocol_index(&table, 4, 3, 7), Some((0, 0, 1)));
    let none: [[Vec<Option<u8>>; 4]; 5] = [empty(), empty(), empty(), empty(), empty()];
    assert_eq!(pick_protocol_index(&none, 0, 0, 0), None);
}
