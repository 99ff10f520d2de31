//! Pixels, text on them, and the pointer's arrow.

use nanochrono::draw::{button, text, wrap, Font, Palette};
use nanochrono::framebuffer::{disc, Framebuffer};
use nanochrono::gui::cursor::Cursor;
use nanochrono::multiboot::{attach, Surface};

fn blank(width: u32, height: u32, bits: u8) -> Framebuffer {
    let depth = (bits as u32 + 7) / 8;
    let pitch = width * depth + 5;
    Framebuffer::new(0x1000, vec![0u8; (pitch * height) as usize], width, height, pitch, bits)
}

/// A font whose every glyph is a full eight-pixel block, one row tall.
fn blocks() -> Font {
    Font { height: 1, rows: vec![0xFF; 128] }
}

#[test]
fn a_pixel_is_stored_and_read_back() {
    let mut fb = blank(4, 3, 32);
    fb.set(2, 1, 0x00AB_CDEF);
    assert_eq!(fb.get(2, 1), 0x00AB_CDEF);
    assert_eq!(fb.get(1, 1), 0);
    let at = (21 + 2 * 4) as usize;
    assert_eq!(&fb.bytes()[at..at + 4], &[0xEF, 0xCD, 0xAB, 0x00]);
}

#[test]
fn pixels_outside_are_ignored() {
    let mut fb = blank(4, 3, 32);
    fb.set(4, 0, 0xFFFF_FFFF);
    fb.set(0, 3, 0xFFFF_FFFF);
    assert!(fb.bytes().iter().all(|&b| b == 0));
    assert_eq!(fb.get(9, 9), 0);
}

#[test]
fn a_fill_is_clipped_to_the_surface() {
    let mut fb = blank(5, 4, 24);
    fb.fill(3, 2, 100, 100, 0x0011_2233);
    assert_eq!(fb.get(3, 2), 0x0011_2233);
    assert_eq!(fb.get(4, 3), 0x0011_2233);
    assert_eq!(fb.get(2, 2), 0);
    assert_eq!(fb.get(3, 1), 0);
    // The padding after each row is left alone.
    assert_eq!(fb.bytes()[15], 0);
    fb.clear(0x0000_00FF);
    assert_eq!(fb.get(0, 0), 0x0000_00FF);
    assert_eq!(fb.bytes()[15], 0);
}

#[test]
fn sixteen_bit_pixels_lose_their_low_bits() {
    let mut fb = blank(2, 2, 16);
    fb.set(0, 0, 0x00FF_FFFF);
    let kept = fb.get(0, 0);
    fb.set(1, 1, kept);
    assert_eq!(fb.get(1, 1), kept);
    assert_eq!(&fb.bytes()[0..2], &[0xFF, 0xFF]);
}

#[test]
fn an_outline_is_one_pixel_wide() {
    let mut fb = blank(6, 6, 32);
    fb.outline(1, 1, 4, 3, 7);
    let lit: Vec<(u32, u32)> = (0..6)
        .flat_map(|y| (0..6).map(move |x| (x, y)))
        .filter(|&(x, y)| fb.get(x, y) == 7)
        .collect();
    assert_eq!(lit.len(), 10);
    assert!(lit.contains(&(1, 1)) && lit.contains(&(4, 3)));
    assert!(!lit.contains(&(2, 2)));
}

#[test]
fn a_disc_is_round() {
    let mut fb = blank(9, 9, 32);
    disc(&mut fb, 4, 4, 3, 1);
    assert_eq!(fb.get(4, 4), 1);
    assert_eq!(fb.get(7, 4), 1);
    assert_eq!(fb.get(4, 1), 1);
    assert_eq!(fb.get(7, 7), 0);
    assert_eq!(fb.get(8, 4), 0);
}

#[test]
fn usable_surfaces_have_a_place_a_size_and_a_depth() {
    assert!(blank(4, 4, 32).is_usable());
    assert!(blank(4, 4, 16).is_usable());
    assert!(!blank(4, 4, 8).is_usable());
    assert!(!blank(0, 4, 32).is_usable());
    let nowhere = Framebuffer::new(0, vec![0; 64], 4, 4, 16, 32);
    assert!(!nowhere.is_usable());
}

#[test]
fn memory_is_attached_only_where_it_is_enough() {
    let surface = Surface {
        address: 0xE000_0000,
        pitch: 16,
        width: 4,
        height: 4,
        bits_per_pixel: 32,
    };
    assert!(attach(&surface, vec![0; 63]).is_none());
    let fb = attach(&surface, vec![0; 64]).unwrap();
    assert!(fb.is_usable());
    assert_eq!((fb.width, fb.height, fb.base), (4, 4, 0xE000_0000));
    let narrow = Surface { pitch: 15, ..surface };
    assert!(attach(&narrow, vec![0; 64]).is_none());
}

#[test]
fn text_advances_nine_pixels_a_glyph() {
    let mut fb = blank(40, 4, 32);
    text(&mut fb, &blocks(), 1, 1, "ab", 9, 1);
    let row: Vec<u32> = (0..40).map(|x| fb.get(x, 1)).collect();
    let lit: Vec<usize> = (0..40).filter(|&x| row[x] == 9).collect();
    let expected: Vec<usize> = (1..9).chain(10..18).collect();
    assert_eq!(lit, expected);
    assert!((0..40).all(|x| fb.get(x, 0) == 0 && fb.get(x, 2) == 0));
}

#[test]
fn text_stops_at_the_right_edge() {
    let mut fb = blank(12, 1, 32);
    text(&mut fb, &blocks(), 0, 0, "abcdef", 9, 1);
    let lit: Vec<u32> = (0..12).filter(|&x| fb.get(x, 0) == 9).collect();
    assert_eq!(lit, vec![0, 1, 2, 3, 4, 5, 6, 7, 9, 10, 11]);
}

#[test]
fn a_button_has_a_face_an_edge_and_a_label() {
    let mut fb = blank(60, 20, 32);
    let p = Palette::stop();
    button(&mut fb, &blocks(), 2, 2, 50, 16, "ab", &p);
    assert_eq!(fb.get(2, 2), p.button_edge);
    assert_eq!(fb.get(51, 17), p.button_edge);
    assert_eq!(fb.get(3, 3), p.button);
    // Two glyphs take 36 pixels, so the label starts 7 in and 7 down.
    assert_eq!(fb.get(9, 9), p.title);
    assert_eq!(fb.get(8, 9), p.button);
    assert_eq!(fb.get(1, 1), 0);
}

#[test]
fn the_two_themes_differ() {
    assert_eq!(Palette::stop().background, 0x0011_3322);
    assert_eq!(Palette::app().background, 0x000C_0F14);
    assert_eq!(Palette::app().accent, 0x0035_D6A0);
}

#[test]
fn wrapping_breaks_at_spaces() {
    assert_eq!(wrap("the quick brown fox", 10), vec!["the quick", "brown fox"]);
    assert_eq!(wrap("short", 10), vec!["short"]);
    assert_eq!(wrap("", 10), Vec::<&str>::new());
}

#[test]
fn a_word_longer_than_a_line_is_broken() {
    assert_eq!(wrap("abcdefghij", 4), vec!["abcd", "efgh", "ij"]);
}

#[test]
fn every_line_fits_and_the_words_survive() {
    let s = "assertion failed: left == right, in the table of deadlines";
    let lines = wrap(s, 16);
    assert!(lines.iter().all(|l| l.chars().count() <= 16));
    let words: Vec<&str> = s.split(' ').collect();
    let kept: Vec<&str> = lines.iter().flat_map(|l| l.split(' ')).collect();
    assert_eq!(kept, words);
}

#[test]
fn a_cursor_that_is_erased_leaves_nothing_behind() {
    let mut fb = blank(30, 30, 32);
    for y in 0..30 {
        for x in 0..30 {
            fb.set(x, y, x * 100 + y);
        }
    }
    let before = fb.bytes().to_vec();
    let mut cursor = Cursor::new();
    cursor.move_to(25, 20);
    cursor.draw(&mut fb, 1, 2);
    assert_ne!(fb.bytes(), &before[..]);
    assert_eq!(fb.get(25, 20), 1);
    cursor.move_to(3, 3);
    cursor.erase(&mut fb);
    assert_eq!(fb.bytes(), &before[..]);
    assert!(!cursor.drawn);
}
