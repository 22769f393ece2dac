//! The sprite-draw instruction: XOR painting, collision reporting, start
//! coordinate wrapping and edge clipping, and the display clear.

use chip8::machine::Chip8;

fn rom_from_words(words: &[u16]) -> Vec<u8> {
    let mut rom: Vec<u8> = Vec::new();
    for w in words {
        rom.push((w >> 8) as u8);
        rom.push((w & 0xFF) as u8);
    }
    rom
}

fn machine_with(words: &[u16]) -> Chip8 {
    let mut c = Chip8::new();
    c.load_rom(&rom_from_words(words)).unwrap();
    c
}

fn run(c: &mut Chip8, cycles: usize) {
    for _ in 0..cycles {
        c.cycle().unwrap();
    }
}

fn lit_pixels(c: &Chip8) -> usize {
    let mut count: usize = 0;
    for p in c.display_buffer() {
        if p {
            count += 1;
        }
    }
    count
}

#[test]
fn draw_digit_zero_glyph_at_origin() {
    // I = font glyph for 0 (rows F0 90 90 90 F0), drawn at (0, 0).
    let mut c = machine_with(&[0x6000, 0xF029, 0xD125]);
    run(&mut c, 3);

    // Row 0: ####....
    for x in 0..4 {
        assert!(c.pixel(x));
    }
    for x in 4..8 {
        assert!(!c.pixel(x));
    }
    // Rows 1-3: #..#....
    for row in 1..4 {
        assert!(c.pixel(row * 64));
        assert!(!c.pixel(row * 64 + 1));
        assert!(!c.pixel(row * 64 + 2));
        assert!(c.pixel(row * 64 + 3));
    }
    // Row 4: ####....
    for x in 0..4 {
        assert!(c.pixel(4 * 64 + x));
    }
    // Exactly the glyph's set bits are on, and nothing collided.
    assert_eq!(lit_pixels(&c), 14);
    assert_eq!(c.register(0xF), 0);
}

#[test]
fn drawing_the_same_glyph_twice_erases_it_and_reports_collisions() {
    let mut c = machine_with(&[0x6000, 0xF029, 0xD125, 0xD125]);
    run(&mut c, 4);
    assert_eq!(lit_pixels(&c), 0);
    // Every painted pixel was already on, so the collision flag is set.
    assert_eq!(c.register(0xF), 1);
}

#[test]
fn start_coordinates_wrap_onto_the_screen() {
    // V1 = 64 wraps to x = 0, V2 = 33 wraps to y = 1.
    let mut c = machine_with(&[0x6000, 0xF029, 0x6140, 0x6221, 0xD125]);
    run(&mut c, 5);
    assert!(c.pixel(1 * 64));
    assert!(c.pixel(1 * 64 + 3));
    assert_eq!(lit_pixels(&c), 14);
}

#[test]
fn sprite_rows_below_the_screen_are_clipped() {
    // Drawn at (60, 30): only rows 30 and 31 land, and all 8 columns fit.
    let mut c = machine_with(&[0x6000, 0xF029, 0x613C, 0x621E, 0xD125]);
    run(&mut c, 5);
    // Row 30 is the glyph's top row ####....
    for x in 60..64 {
        assert!(c.pixel(30 * 64 + x));
    }
    // Row 31 is #..#....
    assert!(c.pixel(31 * 64 + 60));
    assert!(c.pixel(31 * 64 + 63));
    assert_eq!(lit_pixels(&c), 6);
    assert_eq!(c.register(0xF), 0);
}

#[test]
fn sprite_columns_past_the_right_edge_are_clipped() {
    // Drawn at (62, 0): only columns 62 and 63 land, without wrapping.
    let mut c = machine_with(&[0x6000, 0xF029, 0x613E, 0x6200, 0xD125]);
    run(&mut c, 5);
    assert!(c.pixel(62));
    assert!(c.pixel(63));
    assert!(!c.pixel(0));
    // Rows 0 and 4 contribute two pixels each, rows 1-3 one pixel each.
    assert_eq!(lit_pixels(&c), 7);
}

#[test]
fn partial_overlap_sets_the_collision_flag_and_toggles() {
    // Draw the 0 glyph at (0, 0), then again at (1, 0): the overlap
    // toggles pixels off and raises the flag.
    let mut c = machine_with(&[0x6000, 0xF029, 0xD125, 0x6101, 0xD125]);
    run(&mut c, 5);
    assert_eq!(c.register(0xF), 1);
    // Pixel (0,0) was painted only by the first draw and stays on; pixel
    // (1,0) was painted by both and is off again; pixel (4,0) only by the
    // second.
    assert!(c.pixel(0));
    assert!(!c.pixel(1));
    assert!(c.pixel(4));
}

#[test]
fn zero_row_sprite_paints_nothing() {
    let mut c = machine_with(&[0x6000, 0xF029, 0x6F01, 0xD120]);
    run(&mut c, 4);
    assert_eq!(lit_pixels(&c), 0);
    // VF is cleared up front even when nothing is painted.
    assert_eq!(c.register(0xF), 0);
}

#[test]
fn clear_screen_turns_every_pixel_off() {
    let mut c = machine_with(&[0x6000, 0xF029, 0xD125, 0x00E0]);
    run(&mut c, 3);
    assert_eq!(lit_pixels(&c), 14);
    run(&mut c, 1);
    let buf = c.display_buffer();
    assert_eq!(buf.len(), 2048);
    for p in buf {
        assert!(!p);
    }
}
