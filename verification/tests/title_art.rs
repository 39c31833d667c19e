use poclimon::frame::Frame;
use poclimon::title::{clear_background, drawn_bounds, glyph, half_block, half_block_cells, HalfBlock};

const CLEAR: (u8, u8, u8, u8) = (0, 0, 0, 0);
const RED: (u8, u8, u8, u8) = (200, 10, 10, 255);
const BLUE: (u8, u8, u8, u8) = (10, 10, 200, 255);

#[test]
fn background_becomes_transparent() {
    let logo = Frame::new(4, 1, vec![(240, 240, 240, 255), (100, 100, 100, 127), RED, (240, 240, 100, 255)]).unwrap();
    let cleared = clear_background(&logo);
    assert_eq!(cleared.dimensions(), (4, 1));
    assert_eq!(cleared.pixels(), &vec![CLEAR, CLEAR, RED, (240, 240, 100, 255)]);
}

#[test]
fn bounds_hold_exactly_the_drawn_pixels() {
    let mut pixels = vec![CLEAR; 5 * 4];
    pixels[1 * 5 + 3] = RED;
    pixels[2 * 5 + 1] = (1, 2, 3, 128);
    pixels[3 * 5 + 4] = (1, 2, 3, 127);
    let img = Frame::new(5, 4, pixels).unwrap();
    assert_eq!(drawn_bounds(&img), Some((1, 1, 3, 2)));
    assert_eq!(drawn_bounds(&Frame::new(3, 3, vec![CLEAR; 9]).unwrap()), None);
    assert_eq!(drawn_bounds(&Frame::blank(0, 0)), None);
}

#[test]
fn cells_never_draw_in_the_terminal_colour() {
    assert_eq!(half_block(RED, BLUE), HalfBlock::Both { top: (200, 10, 10), bottom: (10, 10, 200) });
    assert_eq!(half_block(RED, CLEAR), HalfBlock::TopOnly { top: (200, 10, 10) });
    assert_eq!(half_block(CLEAR, BLUE), HalfBlock::BottomOnly { bottom: (10, 10, 200) });
    assert_eq!(half_block(CLEAR, (1, 1, 1, 127)), HalfBlock::Empty);
    assert_eq!(glyph(half_block(RED, BLUE)), "▀");
    assert_eq!(glyph(half_block(RED, CLEAR)), "▀");
    assert_eq!(glyph(half_block(CLEAR, BLUE)), "▄");
    assert_eq!(glyph(HalfBlock::Empty), " ");
}

#[test]
fn pixel_rows_pair_into_cells() {
    // 2 × 3: the third pixel row is shown above transparency
    let img = Frame::new(2, 3, vec![RED, CLEAR, BLUE, BLUE, CLEAR, RED]).unwrap();
    let cells = half_block_cells(&img);
    assert_eq!(
        cells,
        vec![
            HalfBlock::Both { top: (200, 10, 10), bottom: (10, 10, 200) },
            HalfBlock::BottomOnly { bottom: (10, 10, 200) },
            HalfBlock::Empty,
            HalfBlock::TopOnly { top: (200, 10, 10) },
        ]
    );
    assert!(half_block_cells(&Frame::blank(3, 0)).is_empty());
}
