use chip8::emulator::Emulator;
use chip8::framebuffer::Framebuffer;
use chip8::state::Error;

fn lit(fb: &Framebuffer) -> Vec<(u8, u8)> {
    let mut on = Vec::new();
    for y in 0..32u8 {
        for x in 0..64u8 {
            if fb.get(x, y) {
                on.push((x, y));
            }
        }
    }
    on
}

fn lit_on(emu: &Emulator) -> Vec<(u8, u8)> {
    let mut on = Vec::new();
    for y in 0..32u8 {
        for x in 0..64u8 {
            if emu.get_pixel(x, y) {
                on.push((x, y));
            }
        }
    }
    on
}

fn machine_with_sprite(sprite: &[u8], x: u8, y: u8) -> Emulator {
    let mut emu = Emulator::new(false);
    assert_eq!(emu.load_program(&sprite.to_vec()), Ok(()));
    assert_eq!(emu.decode(0xA200), Ok(()));
    assert_eq!(emu.decode(0x6000 | x as u16), Ok(()));
    assert_eq!(emu.decode(0x6100 | y as u16), Ok(()));
    emu
}

#[test]
fn new_framebuffer_is_blank() {
    let fb = Framebuffer::new();
    assert!(lit(&fb).is_empty());
    assert_eq!(fb.bytes(), &vec![0u8; 256]);
}

#[test]
fn set_and_get_address_one_pixel() {
    let mut fb = Framebuffer::new();
    fb.set(3, 4, true);
    assert!(fb.get(3, 4));
    assert_eq!(lit(&fb), vec![(3, 4)]);
    fb.set(3, 4, true);
    assert_eq!(lit(&fb), vec![(3, 4)]);
    fb.set(63, 31, true);
    fb.set(0, 0, true);
    assert_eq!(lit(&fb), vec![(0, 0), (3, 4), (63, 31)]);
    fb.set(3, 4, false);
    assert!(!fb.get(3, 4));
    assert_eq!(lit(&fb), vec![(0, 0), (63, 31)]);
    fb.set(3, 4, false);
    assert_eq!(lit(&fb), vec![(0, 0), (63, 31)]);
}

#[test]
fn pixels_are_packed_row_major_msb_first() {
    let mut fb = Framebuffer::new();
    fb.set(0, 0, true);
    assert_eq!(fb.bytes()[0], 0x80);
    fb.set(7, 0, true);
    assert_eq!(fb.bytes()[0], 0x81);
    fb.set(9, 1, true);
    assert_eq!(fb.bytes()[9], 0x40);
    fb.set(63, 31, true);
    assert_eq!(fb.bytes()[255], 0x01);
    fb.set(0, 0, false);
    assert_eq!(fb.bytes()[0], 0x01);
    let set: usize = fb.bytes().iter().map(|b| b.count_ones() as usize).sum();
    assert_eq!(set, 3);
}

#[test]
fn clear_turns_every_pixel_off() {
    let mut fb = Framebuffer::new();
    for y in 0..32 {
        for x in 0..64 {
            fb.set(x, y, (x + y) % 3 == 0);
        }
    }
    assert!(!lit(&fb).is_empty());
    fb.clear();
    assert!(lit(&fb).is_empty());
    assert_eq!(fb.bytes(), &vec![0u8; 256]);
}

#[test]
fn framebuffer_draw_reads_rows_from_the_given_start() {
    let mut fb = Framebuffer::new();
    let memory = vec![0xFFu8, 0x81, 0x18, 0xFF];
    assert!(!fb.draw(2, 3, &memory, 1, 2));
    assert_eq!(lit(&fb), vec![(2, 3), (9, 3), (5, 4), (6, 4)]);
    assert_eq!(fb.bytes()[3 * 8], 0x20);
    assert_eq!(fb.bytes()[3 * 8 + 1], 0x40);
    assert_eq!(fb.bytes()[4 * 8], 0x06);
}

#[test]
fn framebuffer_draw_off_screen_or_empty_touches_nothing() {
    let mut fb = Framebuffer::new();
    let memory = vec![0xFFu8; 4];
    assert!(!fb.draw(64, 0, &memory, 0, 4));
    assert!(!fb.draw(0, 32, &memory, 0, 4));
    assert!(!fb.draw(255, 255, &memory, 0, 4));
    assert!(!fb.draw(5, 5, &memory, 0, 0));
    assert!(!fb.draw(5, 5, &memory, 100, 0));
    assert!(lit(&fb).is_empty());
}

#[test]
fn drawing_on_a_clear_screen_turns_on_exactly_the_sprite_bits() {
    let mut emu = machine_with_sprite(&[0xA5, 0x3C], 10, 5);
    assert_eq!(emu.decode(0x6F01), Ok(()));
    assert_eq!(emu.decode(0xD012), Ok(()));
    assert_eq!(emu.registers()[0xF], 0);
    assert_eq!(
        lit_on(&emu),
        vec![(10, 5), (12, 5), (15, 5), (17, 5), (12, 6), (13, 6), (14, 6), (15, 6)]
    );
}

#[test]
fn drawing_a_full_row_twice_clears_it_and_sets_the_flag() {
    let mut emu = machine_with_sprite(&[0xFF], 20, 7);
    assert_eq!(emu.decode(0xD011), Ok(()));
    assert_eq!(emu.registers()[0xF], 0);
    assert_eq!(lit_on(&emu), (20..28).map(|x| (x, 7)).collect::<Vec<_>>());
    assert_eq!(emu.decode(0xD011), Ok(()));
    assert_eq!(emu.registers()[0xF], 1);
    assert!(lit_on(&emu).is_empty());
    assert_eq!(emu.decode(0xD011), Ok(()));
    assert_eq!(emu.registers()[0xF], 0);
    assert_eq!(lit_on(&emu).len(), 8);
}

#[test]
fn partial_overlap_flips_and_collides() {
    let mut emu = machine_with_sprite(&[0xF0, 0x3C], 0, 0);
    assert_eq!(emu.decode(0xD011), Ok(()));
    assert_eq!(emu.decode(0xA201), Ok(()));
    assert_eq!(emu.decode(0xD011), Ok(()));
    assert_eq!(emu.registers()[0xF], 1);
    assert_eq!(lit_on(&emu), vec![(0, 0), (1, 0), (4, 0), (5, 0)]);
}

#[test]
fn sprites_side_by_side_do_not_collide() {
    let mut emu = machine_with_sprite(&[0xFF], 0, 0);
    assert_eq!(emu.decode(0xD011), Ok(()));
    assert_eq!(emu.decode(0x6008), Ok(()));
    assert_eq!(emu.decode(0xD011), Ok(()));
    assert_eq!(emu.registers()[0xF], 0);
    assert_eq!(lit_on(&emu).len(), 16);
}

#[test]
fn sprite_is_clipped_at_the_right_edge_not_wrapped() {
    let mut emu = machine_with_sprite(&[0xFF, 0xFF], 60, 0);
    assert_eq!(emu.decode(0xD012), Ok(()));
    assert_eq!(
        lit_on(&emu),
        vec![(60, 0), (61, 0), (62, 0), (63, 0), (60, 1), (61, 1), (62, 1), (63, 1)]
    );
    assert_eq!(emu.registers()[0xF], 0);
}

#[test]
fn sprite_is_clipped_at_the_bottom_edge_not_wrapped() {
    let mut emu = machine_with_sprite(&[0x80, 0x80, 0x80, 0x80], 5, 30);
    assert_eq!(emu.decode(0xD014), Ok(()));
    assert_eq!(lit_on(&emu), vec![(5, 30), (5, 31)]);
}

#[test]
fn start_coordinates_wrap_modulo_the_display_size() {
    let mut emu = machine_with_sprite(&[0xC0], 64 + 3, 32 + 2);
    assert_eq!(emu.decode(0xD011), Ok(()));
    assert_eq!(lit_on(&emu), vec![(3, 2), (4, 2)]);
    let mut emu = machine_with_sprite(&[0xC0], 255, 255);
    assert_eq!(emu.decode(0xD011), Ok(()));
    assert_eq!(lit_on(&emu), vec![(63, 31)]);
}

#[test]
fn draw_of_zero_rows_changes_no_pixel_and_clears_the_flag() {
    let mut emu = machine_with_sprite(&[0xFF], 0, 0);
    assert_eq!(emu.decode(0x6F01), Ok(()));
    assert_eq!(emu.decode(0xD010), Ok(()));
    assert!(lit_on(&emu).is_empty());
    assert_eq!(emu.registers()[0xF], 0);
    assert!(emu.take_display_flag());
}

#[test]
fn draw_uses_coordinates_read_before_the_flag_is_written() {
    let mut emu = machine_with_sprite(&[0x80], 0, 0);
    assert_eq!(emu.decode(0x6F09), Ok(()));
    assert_eq!(emu.decode(0xDFF1), Ok(()));
    assert_eq!(lit_on(&emu), vec![(9, 9)]);
    assert_eq!(emu.registers()[0xF], 0);
}

#[test]
fn draw_reading_past_memory_is_out_of_bounds() {
    let mut emu = Emulator::new(false);
    assert_eq!(emu.decode(0xAFFE), Ok(()));
    assert_eq!(emu.decode(0xD012), Ok(()));
    assert!(emu.take_display_flag());
    assert_eq!(emu.decode(0x6F05), Ok(()));
    assert_eq!(emu.decode(0xD013), Err(Error::OutOfBounds));
    assert_eq!(emu.registers()[0xF], 5);
    assert!(!emu.take_display_flag());
    assert_eq!(emu.decode(0x611E), Ok(()));
    assert_eq!(emu.decode(0xD01F), Ok(()));
    assert_eq!(emu.registers()[0xF], 0);
}

#[test]
fn draw_and_clear_raise_the_display_flag() {
    let mut emu = machine_with_sprite(&[0xFF], 0, 0);
    assert!(!emu.take_display_flag());
    assert_eq!(emu.decode(0xD011), Ok(()));
    assert!(emu.take_display_flag());
    assert!(!emu.take_display_flag());
    assert_eq!(emu.decode(0x00E0), Ok(()));
    assert!(lit_on(&emu).is_empty());
    assert!(emu.take_display_flag());
    assert_eq!(emu.decode(0x6101), Ok(()));
    assert!(!emu.take_display_flag());
}

#[test]
fn emulator_pixel_helpers_and_display_bytes() {
    let mut emu = Emulator::new(false);
    emu.set_pixel(8, 0, true);
    emu.set_pixel(15, 0, true);
    assert!(emu.get_pixel(8, 0));
    assert!(!emu.get_pixel(9, 0));
    assert_eq!(emu.display_bytes()[1], 0x81);
    assert_eq!(emu.display_bytes().len(), 256);
    emu.set_pixel(8, 0, false);
    assert_eq!(emu.display_bytes()[1], 0x01);
    emu.clear_screen();
    assert!(lit_on(&emu).is_empty());
    assert!(!emu.take_display_flag());
}

#[test]
fn font_glyph_is_drawn_from_its_address() {
    let mut emu = Emulator::new(false);
    assert_eq!(emu.decode(0x6207), Ok(()));
    assert_eq!(emu.decode(0xF229), Ok(()));
    assert_eq!(emu.decode(0xD005), Ok(()));
    assert_eq!(
        lit_on(&emu),
        vec![(0, 0), (1, 0), (2, 0), (3, 0), (3, 1), (2, 2), (1, 3), (1, 4)]
    );
}
