use image::{Rgba, RgbaImage};
use poclimon::anim_data::AnimInfo;
use poclimon::frame::Frame;
use poclimon::sprite_sheet::{extract_frames, frame_rects, normalize_frames, normalize_placement, FrameRect, Placement};

/// The library's image of an RGBA buffer.
fn frame_of(img: &RgbaImage) -> Frame {
    let pixels = img.pixels().map(|p| (p[0], p[1], p[2], p[3])).collect();
    Frame::new(img.width(), img.height(), pixels).unwrap()
}

/// Create a test sprite sheet: 3 frames wide, 8 rows tall.
/// Each frame is 10x10 pixels. Each frame in row 0 gets a different color.
fn make_test_sheet() -> Frame {
    let fw = 10u32;
    let fh = 10u32;
    let cols = 3u32;
    let rows = 8u32;

    let mut img = RgbaImage::new(fw * cols, fh * rows);

    // Color row 0 frames distinctly
    let colors = [
        Rgba([255, 0, 0, 255]), // Frame 0: red
        Rgba([0, 255, 0, 255]), // Frame 1: green
        Rgba([0, 0, 255, 255]), // Frame 2: blue
    ];

    for col in 0..cols {
        for y in 0..fh {
            for x in 0..fw {
                img.put_pixel(col * fw + x, y, colors[col as usize]);
            }
        }
    }

    frame_of(&img)
}

fn make_test_anim_info() -> AnimInfo {
    AnimInfo { frame_width: 10, frame_height: 10, durations: vec![5, 5, 5] }
}

#[test]
fn test_extract_correct_frame_count() {
    let sheet = make_test_sheet();
    let info = make_test_anim_info();
    let frames = extract_frames(&sheet, &info, 0);
    assert_eq!(frames.len(), 3);
}

#[test]
fn test_extract_correct_frame_dimensions() {
    let sheet = make_test_sheet();
    let info = make_test_anim_info();
    let frames = extract_frames(&sheet, &info, 0);
    for frame in &frames {
        assert_eq!(frame.dimensions(), (10, 10));
    }
}

#[test]
fn test_extract_correct_frame_colors() {
    let sheet = make_test_sheet();
    let info = make_test_anim_info();
    let frames = extract_frames(&sheet, &info, 0);

    // Frame 0 should be red
    assert_eq!(frames[0].pixel(5, 5), (255, 0, 0, 255));
    // Frame 1 should be green
    assert_eq!(frames[1].pixel(5, 5), (0, 255, 0, 255));
    // Frame 2 should be blue
    assert_eq!(frames[2].pixel(5, 5), (0, 0, 255, 255));
}

#[test]
fn test_extract_handles_oversized_frame_count() {
    let sheet = make_test_sheet();
    // Claim 5 frames but sheet only has 3 columns
    let info = AnimInfo { frame_width: 10, frame_height: 10, durations: vec![5, 5, 5, 5, 5] };
    let frames = extract_frames(&sheet, &info, 0);
    // Should only extract 3 frames (stops at sheet boundary)
    assert_eq!(frames.len(), 3);
}

#[test]
fn test_extract_out_of_bounds_row_returns_empty() {
    let sheet = make_test_sheet(); // 8 rows (fh=10, total height=80)
    let info = make_test_anim_info();
    // Row 8 would start at y=80 which equals sheet_h=80 — out of bounds
    let frames = extract_frames(&sheet, &info, 8);
    assert!(frames.is_empty());
}

#[test]
fn test_extract_last_valid_row() {
    let sheet = make_test_sheet(); // 8 rows
    let info = make_test_anim_info();
    // Row 7 starts at y=70, ends at y=80 — exactly in bounds
    let frames = extract_frames(&sheet, &info, 7);
    assert_eq!(frames.len(), 3);
}

#[test]
fn test_normalize_frames_resizes_to_target() {
    // A 4x4 frame normalized (padded) to 8x8 should:
    // - produce an 8x8 image
    // - the frame's pixels should be centered (at offset 2,2)
    let color = Rgba([255u8, 0, 0, 255]);
    let mut small_img = RgbaImage::new(4, 4);
    for y in 0..4 {
        for x in 0..4 {
            small_img.put_pixel(x, y, color);
        }
    }
    let small = frame_of(&small_img);
    let frames = vec![small];
    let normalized = normalize_frames(frames, 8, 8);
    assert_eq!(normalized.len(), 1);
    assert_eq!(normalized[0].dimensions(), (8, 8));
    // Centering: dst_x = (8 - 4) / 2 = 2, dst_y = (8 - 4) / 2 = 2
    // The frame's red pixel at (0,0) maps to (2,2) in the canvas
    assert_eq!(normalized[0].pixel(2, 2), (255, 0, 0, 255));
    // Corners of canvas should be transparent
    assert_eq!(normalized[0].pixel(0, 0), (0, 0, 0, 0));
}

#[test]
fn test_normalize_frames_passthrough_when_already_correct() {
    let frame = frame_of(&RgbaImage::new(10, 10));
    let frames = vec![frame];
    let normalized = normalize_frames(frames, 10, 10);
    assert_eq!(normalized.len(), 1);
    assert_eq!(normalized[0].dimensions(), (10, 10));
}

#[test]
fn test_normalize_frames_empty_vec() {
    let normalized = normalize_frames(vec![], 10, 10);
    assert!(normalized.is_empty());
}

#[test]
fn test_normalize_frames_mixed_sizes() {
    let frames = vec![
        frame_of(&RgbaImage::new(4, 4)),
        frame_of(&RgbaImage::new(8, 12)),
        frame_of(&RgbaImage::new(40, 56)),
    ];
    let normalized = normalize_frames(frames, 40, 56);
    for f in &normalized {
        assert_eq!(f.dimensions(), (40, 56));
    }
}

#[test]
fn larger_frames_are_cropped_at_the_centre() {
    // 6x6 frame whose pixel (x, y) has red value 10*y + x, normalized to 2x2:
    // the kept part starts at (2, 2).
    let mut img = RgbaImage::new(6, 6);
    for y in 0..6 {
        for x in 0..6 {
            img.put_pixel(x, y, Rgba([(10 * y + x) as u8, 0, 0, 255]));
        }
    }
    let out = normalize_frames(vec![frame_of(&img)], 2, 2);
    assert_eq!(out[0].dimensions(), (2, 2));
    assert_eq!(out[0].pixel(0, 0).0, 22);
    assert_eq!(out[0].pixel(1, 0).0, 23);
    assert_eq!(out[0].pixel(0, 1).0, 32);
    assert_eq!(out[0].pixel(1, 1).0, 33);
}

#[test]
fn empty_target_keeps_frames() {
    let out = normalize_frames(vec![frame_of(&RgbaImage::new(3, 5))], 0, 7);
    assert_eq!(out[0].dimensions(), (3, 5));
}

#[test]
fn frame_rects_of_a_row() {
    let info = AnimInfo { frame_width: 10, frame_height: 12, durations: vec![1, 1, 1, 1] };
    let rects = frame_rects(35, 50, &info, 2);
    assert_eq!(
        rects,
        vec![
            FrameRect { x: 0, y: 24, width: 10, height: 12 },
            FrameRect { x: 10, y: 24, width: 10, height: 12 },
            FrameRect { x: 20, y: 24, width: 10, height: 12 },
        ]
    );
    assert!(frame_rects(35, 50, &info, 4).is_empty());
    assert_eq!(frame_rects(35, 48, &info, 3).len(), 3);
}

#[test]
fn placement_of_smaller_and_larger_frames() {
    assert_eq!(normalize_placement(10, 10, 10, 10), None);
    assert_eq!(normalize_placement(10, 10, 0, 10), None);
    assert_eq!(
        normalize_placement(4, 12, 8, 8),
        Some(Placement { dst_x: 2, dst_y: 0, src_x: 0, src_y: 2, copy_w: 4, copy_h: 8 })
    );
}

#[test]
fn crop_keeps_the_pixels_of_the_region() {
    let sheet = make_test_sheet();
    let part = sheet.crop(8, 0, 4, 2);
    assert_eq!(part.dimensions(), (4, 2));
    assert_eq!(part.pixel(0, 0), (255, 0, 0, 255));
    assert_eq!(part.pixel(1, 1), (255, 0, 0, 255));
    assert_eq!(part.pixel(2, 0), (0, 255, 0, 255));
    assert_eq!(part.pixel(3, 1), (0, 255, 0, 255));
}

#[test]
fn frame_new_checks_the_pixel_count() {
    assert!(Frame::new(2, 2, vec![(0, 0, 0, 0); 3]).is_none());
    assert!(Frame::new(2, 2, vec![(0, 0, 0, 0); 4]).is_some());
    let blank = Frame::blank(3, 2);
    assert_eq!(blank.pixels().len(), 6);
    assert_eq!(blank.pixel(2, 1), (0, 0, 0, 0));
}

#[test]
fn normalizing_again_changes_nothing() {
    let mut img = RgbaImage::new(3, 7);
    img.put_pixel(1, 3, Rgba([9, 9, 9, 255]));
    let once = normalize_frames(vec![frame_of(&img)], 5, 5);
    let twice = normalize_frames(vec![once[0].clone()], 5, 5);
    assert_eq!(once[0].dimensions(), (5, 5));
    assert_eq!(twice[0].pixels(), once[0].pixels());
    assert_eq!(once[0].pixel(2, 2), (9, 9, 9, 255));
}
