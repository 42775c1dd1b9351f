use tcg::color::Rgba8;
use tcg::compositor::{draw_glyphs, render_frame};
use tcg::frame::{clear_frame, frame_fits, write_pixels};
use tcg::glyph::{place, Glyph, Origin, Sample};

fn glyph_at(x: i32, y: i32, samples: Vec<Sample>) -> Glyph {
    Glyph { origin: Some(Origin { x, y }), samples }
}

fn pixel(frame: &[u8], width: u32, x: u32, y: u32) -> [u8; 4] {
    let at = 4 * (y as usize * width as usize + x as usize);
    [frame[at], frame[at + 1], frame[at + 2], frame[at + 3]]
}

#[test]
fn one_sample_lands_at_origin_plus_offset() {
    let mut frame = vec![0u8; 4 * 3 * 2];
    let glyphs = vec![glyph_at(1, 0, vec![Sample { x: 1, y: 1, alpha: 128 }])];
    draw_glyphs(&mut frame, &glyphs, 3, 2);
    let mut expected = vec![0u8; 24];
    expected[20] = 255;
    expected[21] = 255;
    expected[22] = 255;
    expected[23] = 128;
    assert_eq!(frame, expected);
    assert_eq!(pixel(&frame, 3, 2, 1), [255, 255, 255, 128]);
}

#[test]
fn ink_is_white_even_where_coverage_is_zero() {
    let mut frame = vec![0u8; 4 * 2 * 2];
    let glyphs = vec![glyph_at(0, 0, vec![Sample { x: 0, y: 1, alpha: 0 }])];
    draw_glyphs(&mut frame, &glyphs, 2, 2);
    assert_eq!(pixel(&frame, 2, 0, 1), [255, 255, 255, 0]);
    assert_eq!(pixel(&frame, 2, 0, 0), [0, 0, 0, 0]);
    assert_eq!(pixel(&frame, 2, 1, 0), [0, 0, 0, 0]);
    assert_eq!(pixel(&frame, 2, 1, 1), [0, 0, 0, 0]);
}

#[test]
fn rows_are_width_pixels_apart() {
    let mut frame = vec![0u8; 4 * 5 * 4];
    let glyphs = vec![glyph_at(
        0,
        0,
        vec![
            Sample { x: 0, y: 0, alpha: 1 },
            Sample { x: 4, y: 0, alpha: 2 },
            Sample { x: 0, y: 1, alpha: 3 },
            Sample { x: 4, y: 3, alpha: 4 },
        ],
    )];
    draw_glyphs(&mut frame, &glyphs, 5, 4);
    assert_eq!(&frame[0..4], &[255, 255, 255, 1]);
    assert_eq!(&frame[16..20], &[255, 255, 255, 2]);
    assert_eq!(&frame[20..24], &[255, 255, 255, 3]);
    assert_eq!(&frame[76..80], &[255, 255, 255, 4]);
    let inked = frame.chunks(4).filter(|p| p[0] != 0).count();
    assert_eq!(inked, 4);
}

#[test]
fn later_sample_paints_over_earlier_one() {
    let mut frame = vec![0u8; 4 * 2 * 2];
    let glyphs = vec![glyph_at(
        0,
        0,
        vec![
            Sample { x: 1, y: 1, alpha: 10 },
            Sample { x: 1, y: 1, alpha: 200 },
            Sample { x: 0, y: 0, alpha: 30 },
        ],
    )];
    draw_glyphs(&mut frame, &glyphs, 2, 2);
    assert_eq!(pixel(&frame, 2, 1, 1), [255, 255, 255, 200]);
    assert_eq!(pixel(&frame, 2, 0, 0), [255, 255, 255, 30]);
}

#[test]
fn later_glyph_paints_over_earlier_one() {
    let mut frame = vec![0u8; 4 * 4 * 1];
    let glyphs = vec![
        glyph_at(0, 0, vec![Sample { x: 1, y: 0, alpha: 50 }, Sample { x: 2, y: 0, alpha: 60 }]),
        glyph_at(2, 0, vec![Sample { x: 0, y: 0, alpha: 0 }, Sample { x: 1, y: 0, alpha: 70 }]),
    ];
    draw_glyphs(&mut frame, &glyphs, 4, 1);
    assert_eq!(
        frame,
        vec![0, 0, 0, 0, 255, 255, 255, 50, 255, 255, 255, 0, 255, 255, 255, 70]
    );
}

#[test]
fn earlier_glyph_shows_where_later_one_has_no_sample() {
    let mut frame = vec![0u8; 4 * 2 * 1];
    let glyphs = vec![
        glyph_at(0, 0, vec![Sample { x: 0, y: 0, alpha: 11 }]),
        glyph_at(1, 0, vec![Sample { x: 0, y: 0, alpha: 22 }]),
        Glyph { origin: None, samples: vec![Sample { x: 0, y: 0, alpha: 33 }] },
    ];
    draw_glyphs(&mut frame, &glyphs, 2, 1);
    assert_eq!(frame, vec![255, 255, 255, 11, 255, 255, 255, 22]);
}

#[test]
fn glyph_without_origin_paints_nothing() {
    let mut frame = vec![0u8; 4 * 2 * 2];
    let glyphs = vec![Glyph {
        origin: None,
        samples: vec![Sample { x: 0, y: 0, alpha: 255 }, Sample { x: 1, y: 1, alpha: 255 }],
    }];
    draw_glyphs(&mut frame, &glyphs, 2, 2);
    assert_eq!(frame, vec![0u8; 16]);
}

#[test]
fn glyph_without_samples_paints_nothing() {
    let mut frame = vec![0u8; 4 * 2 * 2];
    let glyphs = vec![glyph_at(1, 1, Vec::new())];
    draw_glyphs(&mut frame, &glyphs, 2, 2);
    assert_eq!(frame, vec![0u8; 16]);
}

#[test]
fn no_glyphs_leave_a_cleared_frame_blank() {
    let mut frame = vec![0u8; 4 * 7 * 5];
    let glyphs: Vec<Glyph> = Vec::new();
    draw_glyphs(&mut frame, &glyphs, 7, 5);
    assert_eq!(frame, vec![0u8; 140]);
    let mut dirty = vec![77u8; 4 * 7 * 5];
    render_frame(&mut dirty, &glyphs, 7, 5);
    assert_eq!(dirty, vec![0u8; 140]);
}

#[test]
fn samples_outside_the_frame_are_dropped() {
    let mut frame = vec![0u8; 4 * 3 * 2];
    let glyphs = vec![
        glyph_at(-1, 0, vec![Sample { x: 0, y: 0, alpha: 9 }]),
        glyph_at(0, -1, vec![Sample { x: 0, y: 0, alpha: 9 }]),
        glyph_at(0, 0, vec![Sample { x: 3, y: 0, alpha: 9 }]),
        glyph_at(0, 0, vec![Sample { x: 0, y: 2, alpha: 9 }]),
        glyph_at(2, 1, vec![Sample { x: 1, y: 0, alpha: 9 }]),
        glyph_at(2, 1, vec![Sample { x: 0, y: 1, alpha: 9 }]),
        glyph_at(-5, -5, vec![Sample { x: 4, y: 5, alpha: 9 }]),
        glyph_at(i32::MIN, i32::MIN, vec![Sample { x: 0, y: 0, alpha: 9 }]),
        glyph_at(i32::MAX, i32::MAX, vec![Sample { x: u32::MAX, y: u32::MAX, alpha: 9 }]),
    ];
    draw_glyphs(&mut frame, &glyphs, 3, 2);
    assert_eq!(frame, vec![0u8; 24]);
}

#[test]
fn a_row_overrun_does_not_spill_into_the_next_row() {
    let mut frame = vec![0u8; 4 * 3 * 3];
    let glyphs = vec![glyph_at(0, 0, vec![Sample { x: 3, y: 0, alpha: 9 }, Sample { x: 4, y: 1, alpha: 9 }])];
    draw_glyphs(&mut frame, &glyphs, 3, 3);
    assert_eq!(frame, vec![0u8; 36]);
}

#[test]
fn coordinates_do_not_wrap_around() {
    let mut frame = vec![0u8; 4 * 2 * 2];
    let glyphs = vec![
        glyph_at(1, 0, vec![Sample { x: u32::MAX, y: 0, alpha: 1 }]),
        glyph_at(0, 1, vec![Sample { x: 0, y: u32::MAX, alpha: 2 }]),
        glyph_at(0, 0, vec![Sample { x: 1 << 31, y: 0, alpha: 3 }]),
        glyph_at(i32::MAX, 0, vec![Sample { x: 1, y: 0, alpha: 4 }]),
        glyph_at(-1, -1, vec![Sample { x: u32::MAX, y: u32::MAX, alpha: 5 }]),
    ];
    draw_glyphs(&mut frame, &glyphs, 2, 2);
    assert_eq!(frame, vec![0u8; 16]);
}

#[test]
fn a_glyph_partly_outside_is_clipped() {
    let mut frame = vec![0u8; 4 * 2 * 2];
    let glyphs = vec![glyph_at(
        -1,
        -1,
        vec![
            Sample { x: 0, y: 0, alpha: 1 },
            Sample { x: 1, y: 0, alpha: 2 },
            Sample { x: 0, y: 1, alpha: 3 },
            Sample { x: 1, y: 1, alpha: 4 },
            Sample { x: 2, y: 2, alpha: 5 },
            Sample { x: 3, y: 2, alpha: 6 },
        ],
    )];
    draw_glyphs(&mut frame, &glyphs, 2, 2);
    assert_eq!(
        frame,
        vec![255, 255, 255, 4, 0, 0, 0, 0, 0, 0, 0, 0, 255, 255, 255, 5]
    );
}

#[test]
fn far_negative_origin_and_large_offset_meet_inside() {
    let mut frame = vec![0u8; 4 * 2 * 2];
    let glyphs = vec![glyph_at(i32::MIN, i32::MIN, vec![Sample { x: (1 << 31) + 1, y: 1 << 31, alpha: 42 }])];
    draw_glyphs(&mut frame, &glyphs, 2, 2);
    assert_eq!(pixel(&frame, 2, 1, 0), [255, 255, 255, 42]);
    assert_eq!(pixel(&frame, 2, 0, 0), [0, 0, 0, 0]);
}

#[test]
fn drawing_overwrites_and_does_not_blend() {
    let mut frame = vec![9u8; 4 * 2 * 2];
    let glyphs = vec![glyph_at(0, 0, vec![Sample { x: 1, y: 0, alpha: 100 }])];
    draw_glyphs(&mut frame, &glyphs, 2, 2);
    assert_eq!(
        frame,
        vec![0, 0, 0, 0, 255, 255, 255, 100, 0, 0, 0, 0, 0, 0, 0, 0]
    );
}

#[test]
fn bytes_behind_the_pixels_stay() {
    let mut frame = vec![9u8; 4 * 2 * 1 + 3];
    let glyphs = vec![glyph_at(0, 0, vec![Sample { x: 0, y: 0, alpha: 5 }])];
    draw_glyphs(&mut frame, &glyphs, 2, 1);
    assert_eq!(frame, vec![255, 255, 255, 5, 0, 0, 0, 0, 9, 9, 9]);
}

#[test]
fn redraw_clears_the_whole_frame_first() {
    let mut frame = vec![9u8; 4 * 2 * 1 + 3];
    let glyphs = vec![glyph_at(0, 0, vec![Sample { x: 0, y: 0, alpha: 5 }])];
    render_frame(&mut frame, &glyphs, 2, 1);
    assert_eq!(frame, vec![255, 255, 255, 5, 0, 0, 0, 0, 0, 0, 0]);
}

#[test]
fn redraw_twice_gives_the_same_frame() {
    let glyphs = vec![
        glyph_at(1, 1, vec![Sample { x: 0, y: 0, alpha: 17 }, Sample { x: 1, y: 0, alpha: 99 }]),
        glyph_at(2, 0, vec![Sample { x: 0, y: 1, alpha: 201 }]),
    ];
    let mut first = vec![0u8; 4 * 4 * 3];
    render_frame(&mut first, &glyphs, 4, 3);
    let once = first.clone();
    render_frame(&mut first, &glyphs, 4, 3);
    assert_eq!(first, once);
    let mut second = vec![123u8; 4 * 4 * 3];
    render_frame(&mut second, &glyphs, 4, 3);
    assert_eq!(second, once);
    draw_glyphs(&mut second, &glyphs, 4, 3);
    assert_eq!(second, once);
    assert_eq!(pixel(&once, 4, 2, 1), [255, 255, 255, 201]);
    assert_eq!(pixel(&once, 4, 1, 1), [255, 255, 255, 17]);
}

#[test]
fn a_frame_without_pixels_is_left_alone() {
    let glyphs = vec![glyph_at(0, 0, vec![Sample { x: 0, y: 0, alpha: 5 }])];
    let mut frame = vec![7u8; 5];
    draw_glyphs(&mut frame, &glyphs, 0, 3);
    assert_eq!(frame, vec![7u8; 5]);
    draw_glyphs(&mut frame, &glyphs, 3, 0);
    assert_eq!(frame, vec![7u8; 5]);
    let mut empty: Vec<u8> = Vec::new();
    draw_glyphs(&mut empty, &glyphs, 0, 0);
    assert!(empty.is_empty());
    render_frame(&mut frame, &glyphs, 0, 0);
    assert_eq!(frame, vec![0u8; 5]);
}

#[test]
fn place_adds_origin_and_offset() {
    let origin = Origin { x: 10, y: 29 };
    assert_eq!(place(origin, Sample { x: 0, y: 0, alpha: 0 }, 400, 200), Some((10, 29)));
    assert_eq!(place(origin, Sample { x: 389, y: 170, alpha: 0 }, 400, 200), Some((399, 199)));
    assert_eq!(place(origin, Sample { x: 390, y: 170, alpha: 0 }, 400, 200), None);
    assert_eq!(place(origin, Sample { x: 389, y: 171, alpha: 0 }, 400, 200), None);
    let above = Origin { x: -3, y: -2 };
    assert_eq!(place(above, Sample { x: 2, y: 2, alpha: 0 }, 400, 200), None);
    assert_eq!(place(above, Sample { x: 3, y: 1, alpha: 0 }, 400, 200), None);
    assert_eq!(place(above, Sample { x: 3, y: 2, alpha: 0 }, 400, 200), Some((0, 0)));
    assert_eq!(place(Origin { x: 0, y: 0 }, Sample { x: 0, y: 0, alpha: 0 }, 0, 0), None);
    assert_eq!(
        place(Origin { x: i32::MAX, y: 0 }, Sample { x: u32::MAX, y: 0, alpha: 0 }, u32::MAX, 1),
        None
    );
    assert_eq!(
        place(Origin { x: i32::MAX, y: 0 }, Sample { x: 1 << 31, y: 0, alpha: 0 }, u32::MAX, 1),
        None
    );
    assert_eq!(
        place(Origin { x: i32::MAX, y: 0 }, Sample { x: (1 << 31) - 1, y: 0, alpha: 0 }, u32::MAX, 1),
        Some((u32::MAX - 1, 0))
    );
}

#[test]
fn clear_frame_zeroes_every_byte() {
    let mut frame = vec![1u8, 2, 3, 4, 5, 6, 7];
    clear_frame(&mut frame);
    assert_eq!(frame, vec![0u8; 7]);
    let mut empty: Vec<u8> = Vec::new();
    clear_frame(&mut empty);
    assert!(empty.is_empty());
}

#[test]
fn write_pixels_lays_out_red_green_blue_alpha() {
    let mut frame = vec![9u8; 10];
    let pixels = vec![Rgba8 { r: 1, g: 2, b: 3, a: 4 }, Rgba8 { r: 5, g: 6, b: 7, a: 8 }];
    write_pixels(&mut frame, &pixels);
    assert_eq!(frame, vec![1, 2, 3, 4, 5, 6, 7, 8, 9, 9]);
    write_pixels(&mut frame, &[]);
    assert_eq!(frame, vec![1, 2, 3, 4, 5, 6, 7, 8, 9, 9]);
}

#[test]
fn ink_and_transparent_pixels() {
    assert_eq!(Rgba8::transparent(), Rgba8 { r: 0, g: 0, b: 0, a: 0 });
    assert_eq!(Rgba8::ink(0), Rgba8 { r: 255, g: 255, b: 255, a: 0 });
    assert_eq!(Rgba8::ink(191), Rgba8 { r: 255, g: 255, b: 255, a: 191 });
}

#[test]
fn frame_fits_counts_four_bytes_per_pixel() {
    assert!(frame_fits(320_000, 400, 200));
    assert!(frame_fits(320_001, 400, 200));
    assert!(!frame_fits(319_999, 400, 200));
    assert!(frame_fits(0, 0, 0));
    assert!(frame_fits(0, 0, u32::MAX));
    assert!(frame_fits(0, 0x3fff_ffff, 0));
    assert_eq!(
        frame_fits(0, 0x4000_0000, 0),
        4 * 0x4000_0000u128 <= usize::MAX as u128
    );
    assert_eq!(frame_fits(0, u32::MAX, 0), 4 * (u32::MAX as u128) <= usize::MAX as u128);
    assert!(frame_fits(4, 1, 1));
    assert!(!frame_fits(3, 1, 1));
    assert!(!frame_fits(usize::MAX, u32::MAX, u32::MAX));
    assert!(!frame_fits(usize::MAX, 1 << 31, 1 << 31));
}
