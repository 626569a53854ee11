use chip8::display::{texture_pixels, Display};
use chip8::keypad::Keypad;

#[test]
fn new_display_is_blank() {
    let d = Display::new();
    assert_eq!(d.buffer().len(), 64 * 32);
    assert!(d.buffer().iter().all(|&p| !p));
}

#[test]
fn draw_sprite_sets_bits_left_to_right() {
    let mut d = Display::new();
    let collision = d.draw_sprite(10, 3, &[0b1010_0001]);
    assert!(!collision);
    assert!(d.get_pixel(10, 3));
    assert!(!d.get_pixel(11, 3));
    assert!(d.get_pixel(12, 3));
    assert!(d.get_pixel(17, 3));
    assert!(!d.get_pixel(18, 3));
}

#[test]
fn draw_sprite_wraps_at_edges() {
    let mut d = Display::new();
    d.draw_sprite(62, 31, &[0xFF, 0x80]);
    assert!(d.get_pixel(62, 31));
    assert!(d.get_pixel(63, 31));
    assert!(d.get_pixel(0, 31));
    assert!(d.get_pixel(5, 31));
    assert!(d.get_pixel(62, 0));
    assert!(!d.get_pixel(63, 0));
}

#[test]
fn draw_sprite_twice_restores_and_collides() {
    let mut d = Display::new();
    d.draw_sprite(5, 5, &[0x3C, 0x42, 0x81]);
    let first = *d.buffer();
    d.draw_sprite(5, 5, &[0x0F]);
    let collision = d.draw_sprite(5, 5, &[0x0F]);
    assert!(collision);
    assert_eq!(*d.buffer(), first);
}

#[test]
fn draw_sprite_overlapping_reports_collision() {
    let mut d = Display::new();
    assert!(!d.draw_sprite(0, 0, &[0xF0]));
    assert!(d.draw_sprite(3, 0, &[0x80]));
    assert!(!d.get_pixel(3, 0));
}

#[test]
fn clear_turns_pixels_off() {
    let mut d = Display::new();
    d.draw_sprite(0, 0, &[0xFF, 0xFF]);
    d.clear();
    assert!(d.buffer().iter().all(|&p| !p));
}

#[test]
fn texture_is_white_on_black() {
    let mut d = Display::new();
    d.draw_sprite(1, 0, &[0x80]);
    let px = texture_pixels(&d);
    assert_eq!(px.len(), 64 * 32 * 4);
    assert_eq!(&px[0..4], &[0, 0, 0, 255]);
    assert_eq!(&px[4..8], &[255, 255, 255, 255]);
    assert_eq!(&px[8..12], &[0, 0, 0, 255]);
}

#[test]
fn keypad_press_and_release() {
    let mut k = Keypad::new();
    assert!(!k.is_pressed(0xF));
    k.press(0xF);
    assert!(k.is_pressed(0xF));
    assert!(!k.is_pressed(0xE));
    k.release(0xF);
    assert!(!k.is_pressed(0xF));
}

#[test]
fn keypad_set_keys_sets_every_key() {
    let mut k = Keypad::new();
    k.press(3);
    let mut pressed = [false; 16];
    pressed[0] = true;
    pressed[0xC] = true;
    k.set_keys(&pressed);
    for i in 0..16 {
        assert_eq!(k.is_pressed(i), i == 0 || i == 0xC);
    }
}
