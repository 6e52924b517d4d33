use tetris_lib::common::{
    color_at, get_pixel, set_pixel, Dot, FrameBuffer, Prng, Rgb, GREEN_IDX, RED_IDX,
};
use tetris_lib::figure::{hline_figure, tank_figure, Figure, Tetramino};

fn fig(data: u16, w: u8, h: u8) -> Figure {
    Figure { data, wh: w << 4 | h }
}

#[test]
fn prng_sequence_from_seed() {
    let mut p = Prng::new(12345);
    assert_eq!(p.next(), 220);
    assert_eq!(p.next(), 4);
    assert_eq!(p.next(), 101);
}

#[test]
fn prng_next_range_bounds_and_zero() {
    let mut p = Prng::new(12345);
    assert_eq!(p.next_range(7), 220 % 7);
    assert_eq!(p.next_range(0), 0);
    assert_eq!(p.next_range(7), 4 % 7);
}

#[test]
fn dot_moves_and_wraps() {
    let d = Dot::new(7, 31);
    assert_eq!(d.move_by(Dot::new(1, 0)), Dot::new(8, 31));
    assert_eq!(d.move_wrap(Dot::new(1, 0)), Dot::new(0, 31));
    assert_eq!(d.move_wrap(Dot::new(0, 1)), Dot::new(7, 0));
    assert_eq!(Dot::new(0, 0).move_wrap(Dot::new(-1, 0)), Dot::new(7, 0));
    assert_eq!(Dot::new(0, 0).move_wrap(Dot::new(0, -1)), Dot::new(0, 31));
}

#[test]
fn dot_predicates() {
    assert!(Dot::new(0, 0).is_zero());
    assert!(!Dot::new(0, 1).is_zero());
    assert!(Dot::new(1, 0).is_opposite(&Dot::new(-1, 0)));
    assert!(!Dot::new(1, 0).is_opposite(&Dot::new(0, 1)));
    assert_eq!(Dot::new(2, -3).opposite(), Dot::new(-2, 3));
    assert!(Dot::new(-1, 3).outside());
    assert!(Dot::new(3, 32).outside());
    assert!(!Dot::new(7, 31).outside());
}

#[test]
fn to_direction_prefers_vertical() {
    assert_eq!(Dot::new(1, 1).to_direction(), Dot::new(0, 1));
    assert_eq!(Dot::new(-5, 0).to_direction(), Dot::new(-1, 0));
    assert_eq!(Dot::new(0, -3).to_direction(), Dot::new(0, -1));
    assert_eq!(Dot::new(0, 0).to_direction(), Dot::new(0, 0));
}

#[test]
fn palette_wraps_modulo_ten() {
    assert_eq!(color_at(0), Rgb::new(0, 0, 0));
    assert_eq!(color_at(1), Rgb::new(12, 2, 0));
    assert_eq!(color_at(11), Rgb::new(12, 2, 0));
    assert_eq!(color_at(9), Rgb::new(0, 9, 0));
    assert_eq!(color_at(255), color_at(5));
}

#[test]
fn set_and_get_are_bounds_checked() {
    let mut fb = FrameBuffer::new();
    fb.set(2, 3, 5);
    assert_eq!(fb.get(2, 3), 5);
    fb.set(8, 3, 5);
    fb.set(2, 32, 5);
    assert_eq!(fb.get(8, 3), 0);
    assert_eq!(fb.get(2, 32), 0);
    fb.clear();
    assert_eq!(fb.get(2, 3), 0);
}

#[test]
fn clear_range_clips_at_the_end() {
    let mut fb = FrameBuffer::new();
    for y in 0..32 {
        for x in 0..8 {
            fb.set(x, y, 1);
        }
    }
    fb.clear_range(250, 1000);
    assert_eq!(fb.get(1, 31), 1);
    assert_eq!(fb.get(2, 31), 0);
    assert_eq!(fb.get(7, 31), 0);
    fb.clear_range(10, 5);
    assert_eq!(fb.get(2, 1), 1);
}

#[test]
fn serpentine_single_pixel() {
    for y in 0..32usize {
        for x in 0..8usize {
            let mut fb = FrameBuffer::new();
            fb.set(x, y, RED_IDX);
            let mut leds = [Rgb::new(0, 0, 0); 256];
            fb.render(&mut leds);
            let expected = y * 8 + if y % 2 == 0 { 7 - x } else { x };
            for (i, led) in leds.iter().enumerate() {
                if i == expected {
                    assert_eq!(*led, color_at(RED_IDX));
                } else {
                    assert_eq!(*led, Rgb::new(0, 0, 0));
                }
            }
            assert_eq!(get_pixel(&leds, x, y), RED_IDX);
        }
    }
}

#[test]
fn set_pixel_ignores_rows_past_the_strip() {
    let mut leds = [Rgb::new(0, 0, 0); 256];
    set_pixel(&mut leds, 0, 32, GREEN_IDX);
    assert!(leds.iter().all(|l| *l == Rgb::new(0, 0, 0)));
    set_pixel(&mut leds, 0, 0, GREEN_IDX);
    assert_eq!(leds[7], color_at(GREEN_IDX));
}

#[test]
fn get_pixel_unknown_colour_is_background() {
    let mut leds = [Rgb::new(0, 0, 0); 256];
    leds[9] = Rgb::new(1, 2, 3);
    assert_eq!(get_pixel(&leds, 1, 1), 0);
}

#[test]
fn collides_exhaustive_for_small_figure() {
    // #.
    // ##
    let f = fig(0b10_11, 2, 2);
    let mut fb = FrameBuffer::new();
    fb.set(4, 10, 3);
    for y in -3i8..34 {
        for x in -3i8..10 {
            let cells = [(x, y), (x, y + 1), (x + 1, y + 1)];
            let expected = cells.iter().any(|&(cx, cy)| {
                cx < 0 || cx >= 8 || cy < 0 || cy >= 32 || (cx == 4 && cy == 10)
            });
            assert_eq!(fb.collides(x, y, &f), expected, "at ({}, {})", x, y);
        }
    }
}

#[test]
fn draw_figure_clips_at_edges() {
    let mut fb = FrameBuffer::new();
    fb.draw_figure(6, 31, &fig(0b111_111, 3, 2), 2);
    assert_eq!(fb.get(6, 31), 2);
    assert_eq!(fb.get(7, 31), 2);
    assert_eq!(fb.get(0, 0), 0);
    fb.draw_figure(-1, -1, &fig(0b11_11, 2, 2), 4);
    assert_eq!(fb.get(0, 0), 4);
    assert_eq!(fb.get(1, 0), 0);
}

#[test]
fn copy_from_copies_cells() {
    let mut a = FrameBuffer::new();
    a.set(3, 3, 7);
    let mut b = FrameBuffer::new();
    b.copy_from(&a);
    assert_eq!(b.get(3, 3), 7);
}

#[test]
fn rows_full_empty_and_cleared() {
    let mut fb = FrameBuffer::new();
    assert!(fb.row_is_empty(10));
    assert!(fb.row_is_empty(40));
    assert!(!fb.row_is_full(40));
    for x in 0..8 {
        fb.set(x, 10, 1);
    }
    assert!(fb.row_is_full(10));
    assert!(!fb.row_is_empty(10));
    assert!(fb.try_clear_row(10));
    assert!(fb.row_is_empty(10));
    assert!(!fb.try_clear_row(10));
}

#[test]
fn from_rows_reads_columns_top_down() {
    let mut rows = [0u32; 8];
    rows[0] = 1 << 31;
    rows[7] = 1;
    let fb = FrameBuffer::from_rows(&rows, 5);
    assert_eq!(fb.get(7, 0), 5);
    assert_eq!(fb.get(0, 31), 5);
    assert_eq!(fb.get(0, 0), 0);
}

#[test]
fn four_rotations_are_identity() {
    let pieces = Tetramino::standard();
    let mut figures: Vec<Figure> = pieces.0.to_vec();
    figures.push(tank_figure());
    figures.push(hline_figure());
    for f in figures {
        let back = f.rotate().rotate().rotate().rotate();
        assert_eq!(back, f);
        assert_ne!(f.rotate().wh, 0);
    }
}

#[test]
fn rotate_swaps_size_and_turns_clockwise() {
    // ###
    // #..
    let f = fig(0b111_100, 3, 2);
    let r = f.rotate();
    assert_eq!((r.width(), r.height()), (2, 3));
    // ##
    // .#
    // .#
    assert_eq!(r.str(), "##\n #\n #\n");
}

#[test]
fn figure_text_round_trip() {
    for text in ["# #\n # \n", "####\n", "#\n#\n \n#\n", "  \n  \n"] {
        let f = Figure::from_str(text).unwrap();
        assert_eq!(f.str(), text);
    }
    let t = Figure::from_str(" #\n##\n").unwrap();
    assert_eq!((t.width(), t.height(), t.len()), (2, 2, 4));
    assert_eq!(t.data, 0b01_11);
}

#[test]
fn figure_text_rejects_malformed() {
    assert_eq!(Figure::from_str(""), None);
    assert_eq!(Figure::from_str("##"), None);
    assert_eq!(Figure::from_str("##\n#\n"), None);
    assert_eq!(Figure::from_str("#x\n"), None);
    assert_eq!(Figure::from_str("\n"), None);
    assert_eq!(Figure::from_str("#####\n#####\n#####\n#####\n"), None);
}

#[test]
fn get_bit_outside_is_false() {
    let f = fig(0b1111, 4, 1);
    assert!(f.get_bit(3, 0));
    assert!(!f.get_bit(4, 0));
    assert!(!f.get_bit(0, 1));
}

#[test]
fn figure_draw_paints_like_draw_figure() {
    let f = Tetramino::standard().0[2];
    let mut a = FrameBuffer::new();
    let mut b = FrameBuffer::new();
    assert!(f.draw(&mut a, 2, 10, 4, |_: &FrameBuffer, _: i16, _: i16| true));
    b.draw_figure(2, 10, &f, 4);
    for y in 0..32 {
        for x in 0..8 {
            assert_eq!(a.get(x, y), b.get(x, y));
        }
    }
}

#[test]
fn figure_draw_stops_at_refusal() {
    // ###
    // ##.
    let f = fig(0b111_110, 3, 2);
    let mut fb = FrameBuffer::new();
    fb.set(1, 11, 7);
    let ok = f.draw(&mut fb, 0, 10, 4, |b: &FrameBuffer, x: i16, y: i16| {
        b.get(x as usize, y as usize) == 0
    });
    assert!(!ok);
    assert_eq!(fb.get(0, 10), 4);
    assert_eq!(fb.get(2, 10), 4);
    assert_eq!(fb.get(0, 11), 4);
    assert_eq!(fb.get(1, 11), 7);
}
