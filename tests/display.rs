use chip8::display::{Display, DISPLAY_SIZE, DISPLAY_WIDTH, PIXEL_OFF, PIXEL_ON};

fn on(display: &Display, x: usize, y: usize) -> bool {
    display.buffer()[y * DISPLAY_WIDTH + x] == PIXEL_ON
}

fn lit(display: &Display) -> usize {
    display.buffer().iter().filter(|&&p| p == PIXEL_ON).count()
}

#[test]
fn new_display_is_blank() {
    let display = Display::new();
    assert_eq!(display.buffer().len(), DISPLAY_SIZE);
    assert!(display.buffer().iter().all(|&p| p == PIXEL_OFF));
}

#[test]
fn draw_twice_restores_and_collides() {
    let mut display = Display::new();
    let sprite = [0xF0, 0x90, 0x90, 0x90, 0xF0];
    assert!(!display.draw(10, 5, &sprite));
    assert_eq!(lit(&display), 14);
    assert!(on(&display, 10, 5));
    assert!(on(&display, 13, 5));
    assert!(!on(&display, 11, 6));
    assert!(display.draw(10, 5, &sprite));
    assert_eq!(lit(&display), 0);
}

#[test]
fn draw_wraps_right_edge() {
    let mut display = Display::new();
    assert!(!display.draw(60, 0, &[0xFF]));
    for x in 0..64 {
        assert_eq!(on(&display, x, 0), x >= 60 || x < 4, "column {}", x);
    }
    assert_eq!(lit(&display), 8);
}

#[test]
fn draw_wraps_bottom_edge() {
    let mut display = Display::new();
    assert!(!display.draw(0, 31, &[0x80, 0x80]));
    assert!(on(&display, 0, 31));
    assert!(on(&display, 0, 0));
    assert_eq!(lit(&display), 2);
}

#[test]
fn draw_collision_only_on_lit_pixels() {
    let mut display = Display::new();
    assert!(!display.draw(0, 0, &[0x80]));
    assert!(!display.draw(1, 0, &[0x80]));
    assert!(display.draw(0, 0, &[0xC0]));
    assert_eq!(lit(&display), 0);
}

#[test]
fn clear_turns_everything_off() {
    let mut display = Display::new();
    display.draw(3, 3, &[0xFF, 0xFF]);
    display.clear();
    assert_eq!(lit(&display), 0);
}

#[test]
fn tall_sprite_wraps_onto_its_own_rows() {
    let mut display = Display::new();
    let sprite = vec![0x80; 33];
    assert!(display.draw(0, 0, &sprite));
    assert!(!on(&display, 0, 0));
    assert!(on(&display, 0, 1));
    assert!(on(&display, 0, 31));
    assert_eq!(lit(&display), 31);
}

#[test]
fn empty_sprite_changes_nothing() {
    let mut display = Display::new();
    display.draw(5, 5, &[0xAA]);
    assert!(!display.draw(5, 5, &[]));
    assert_eq!(lit(&display), 4);
}
